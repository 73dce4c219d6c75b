use vstd::prelude::*;

use crate::span::Span;
use crate::tree::{Delim, Tok, Tree};

verus! {

/// A parse failure of the struct grammar.
///
/// Exactly two kinds exist: the stream ended while a rule still expected a
/// token, or a token was present but matched no grammar alternative.  Either
/// way the first failure aborts the whole parse and reaches the caller
/// unchanged.
#[derive(Debug)]
pub enum ParserError {
    /// The stream was exhausted mid-rule; carries a description of what was
    /// being parsed and the last known position.
    UnexpectedEndOfInput(String, Span),
    /// A token did not fit the grammar; carries a description of what was
    /// expected, the token found, and that token's span.
    UnexpectedToken(String, Tree, Span),
}

impl ParserError {
    /// The description the error carries.
    pub open spec fn spec_msg(&self) -> Seq<char> {
        match self {
            ParserError::UnexpectedEndOfInput(m, _) => m@,
            ParserError::UnexpectedToken(m, _, _) => m@,
        }
    }

    /// The position the error points at.
    pub open spec fn spec_span(&self) -> Span {
        match self {
            ParserError::UnexpectedEndOfInput(_, sp) => *sp,
            ParserError::UnexpectedToken(_, _, sp) => *sp,
        }
    }

    /// Renders the error as a token sequence invoking the `compile_error!`
    /// macro, which carries the diagnostic to the host compiler.
    pub fn emit(self) -> (r: Vec<Tree>)
        ensures
            crate::tree::models(r@) == seq![
                Tok::Ident("compile_error"@, self.spec_span()),
                Tok::Punct('!', self.spec_span()),
                Tok::Group(
                    Delim::Paren,
                    seq![Tok::Literal(self.spec_msg(), self.spec_span())],
                    self.spec_span(),
                ),
            ],
    {
        match self {
            ParserError::UnexpectedEndOfInput(msg, sp) => Self::create_compile_error(sp, msg),
            ParserError::UnexpectedToken(msg, _, sp) => Self::create_compile_error(sp, msg),
        }
    }

    /// Builds the `compile_error!("txt")` token sequence at the given span.
    fn create_compile_error(span: Span, txt: String) -> (r: Vec<Tree>)
        ensures
            crate::tree::models(r@) == seq![
                Tok::Ident("compile_error"@, span),
                Tok::Punct('!', span),
                Tok::Group(Delim::Paren, seq![Tok::Literal(txt@, span)], span),
            ],
    {
        let ident = Tree::ident("compile_error", span);
        let punct = Tree::punct('!', span);
        let mut inner: Vec<Tree> = Vec::new();
        let lit = Tree::literal(txt.as_str(), span);
        inner.push(lit);
        let group = Tree::group(Delim::Paren, inner, span);
        let mut out: Vec<Tree> = Vec::new();
        out.push(ident);
        out.push(punct);
        out.push(group);
        proof {
            crate::tree::lemma_models(inner@);
            assert(crate::tree::models(inner@) =~= seq![Tok::Literal(txt@, span)]);
            crate::tree::lemma_models(out@);
            assert(crate::tree::models(out@) =~= seq![
                Tok::Ident("compile_error"@, span),
                Tok::Punct('!', span),
                Tok::Group(Delim::Paren, seq![Tok::Literal(txt@, span)], span),
            ]);
        }
        out
    }
}

} // verus!
