use vstd::prelude::*;

use crate::span::synth_span;
use crate::tree::{models, Tok, Tree};

verus! {

broadcast use crate::tree::lemma_models;

/// An identifier that may precede a definition: a visibility, constness or
/// safety marker, or an `extern` marker carrying its ABI string.
#[derive(Debug, PartialEq)]
pub enum Marker {
    Extern(&'static str),
    Pub,
    Const,
    Unsafe,
}

/// The token sequence one marker re-serializes to.
pub open spec fn sp_marker_tokens(m: Marker) -> Seq<Tok> {
    match m {
        Marker::Pub => seq![Tok::Ident("pub"@, synth_span())],
        Marker::Const => seq![Tok::Ident("const"@, synth_span())],
        Marker::Unsafe => seq![Tok::Ident("unsafe"@, synth_span())],
        Marker::Extern(abi) => seq![
            Tok::Ident("extern"@, synth_span()),
            Tok::Literal(abi@, synth_span()),
        ],
    }
}

/// Appends the tokens of one marker to the stream being built.
pub fn marker_to_tokens(marker: &Marker, stream: &mut Vec<Tree>)
    ensures
        models(final(stream)@) == models(old(stream)@) + sp_marker_tokens(*marker),
{
    let sp = crate::span::synthetic_span();
    match marker {
        Marker::Pub => {
            stream.push(Tree::ident("pub", sp));
        },
        Marker::Const => {
            stream.push(Tree::ident("const", sp));
        },
        Marker::Unsafe => {
            stream.push(Tree::ident("unsafe", sp));
        },
        Marker::Extern(abi) => {
            stream.push(Tree::ident("extern", sp));
            let lit = Tree::literal(abi, sp);
            stream.push(lit);
        },
    }
    proof {
        assert(models(stream@) =~= models(old(stream)@) + sp_marker_tokens(*marker));
    }
}

} // verus!
