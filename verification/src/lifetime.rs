use vstd::prelude::*;

use crate::span::{synth_span, Span};
use crate::tree::{models, Tok, Tree};
use crate::ty::Borrow;

verus! {

broadcast use crate::tree::lemma_models;

/// A named lifetime, as it appears in `&'a T` or `<'a>`, together with the
/// span of the apostrophe that introduced it.
#[derive(Debug, PartialEq)]
pub struct Lifetime {
    pub name: String,
    pub apostrophe: Span,
}

impl View for Lifetime {
    type V = Seq<char>;

    open spec fn view(&self) -> Seq<char> {
        self.name@
    }
}

/// The token sequence a lifetime re-serializes to: an apostrophe, then the
/// name.
pub open spec fn sp_lifetime_tokens(name: Seq<char>) -> Seq<Tok> {
    seq![Tok::Punct('\'', synth_span()), Tok::Ident(name, synth_span())]
}

impl Lifetime {
    /// Builds a lifetime from its name and the span of its apostrophe.
    pub fn new(name: String, apostrophe: Span) -> (lf: Lifetime)
        ensures
            lf@ == name@,
            lf.apostrophe == apostrophe,
    {
        Lifetime { name, apostrophe }
    }

    /// Re-serializes the lifetime: `'` followed by the name.
    pub fn into_tokens(self) -> (r: Vec<Tree>)
        ensures
            models(r@) == sp_lifetime_tokens(self@),
    {
        let sp = crate::span::synthetic_span();
        let mut out: Vec<Tree> = Vec::new();
        out.push(Tree::punct('\'', sp));
        let name_tok = Tree::ident(self.name.as_str(), sp);
        out.push(name_tok);
        proof {
            assert(models(out@) =~= sp_lifetime_tokens(self@));
        }
        out
    }

    /// Wraps the lifetime in an immutable borrow.
    pub fn into_borrow(self) -> (b: Borrow)
        ensures
            !b.mutable,
            b.lifetime@ == self@,
    {
        Borrow::new(false, self)
    }

    /// Wraps the lifetime in a mutable borrow.
    pub fn into_borrow_mut(self) -> (b: Borrow)
        ensures
            b.mutable,
            b.lifetime@ == self@,
    {
        Borrow::new(true, self)
    }
}

} // verus!
