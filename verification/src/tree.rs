use vstd::prelude::*;

use crate::span::Span;

verus! {

/// The delimiter of a token group.
#[derive(Clone, Copy, Debug, PartialEq, Eq, Structural)]
pub enum Delim {
    Paren,
    Brace,
    Bracket,
}

/// One lexical token of a type-definition stream: an identifier, a single
/// punctuation character, a literal, or a delimited group of nested tokens.
#[derive(Debug, PartialEq)]
pub enum Tree {
    Ident(String, Span),
    Punct(char, Span),
    Literal(String, Span),
    Group(Delim, Vec<Tree>, Span),
}

/// The mathematical model of a token: text as a character sequence, a group
/// as the sequence of its members' models.
pub enum Tok {
    Ident(Seq<char>, Span),
    Punct(char, Span),
    Literal(Seq<char>, Span),
    Group(Delim, Seq<Tok>, Span),
}

/// The models of a token sequence, element by element.
pub open spec fn models(ts: Seq<Tree>) -> Seq<Tok>
    decreases ts,
{
    if ts.len() <= 0 {
        Seq::empty()
    } else {
        seq![ts[0].model()] + models(ts.drop_first())
    }
}

/// `models` maps a sequence element by element.
pub broadcast proof fn lemma_models(ts: Seq<Tree>)
    ensures
        (#[trigger] models(ts)).len() == ts.len(),
        forall|i: int| 0 <= i < ts.len() ==> models(ts)[i] == ts[i].model(),
    decreases ts.len(),
{
    if ts.len() > 0 {
        lemma_models(ts.drop_first());
        assert forall|i: int| 0 <= i < ts.len() implies models(ts)[i] == ts[i].model() by {
            if i > 0 {
                assert(models(ts)[i] == models(ts.drop_first())[i - 1]);
                assert(ts.drop_first()[i - 1] == ts[i]);
            }
        }
    }
}

/// The views of a sequence of strings, element by element.
pub open spec fn strings_view(v: Seq<String>) -> Seq<Seq<char>> {
    Seq::new(v.len(), |i: int| v[i]@)
}

/// The span a model token carries.
pub open spec fn tok_span(t: Tok) -> Span {
    match t {
        Tok::Ident(_, sp) => sp,
        Tok::Punct(_, sp) => sp,
        Tok::Literal(_, sp) => sp,
        Tok::Group(_, _, sp) => sp,
    }
}

impl Tree {
    /// The model of this token.
    pub open spec fn model(self) -> Tok
        decreases self,
    {
        match self {
            Tree::Ident(s, sp) => Tok::Ident(s@, sp),
            Tree::Punct(c, sp) => Tok::Punct(c, sp),
            Tree::Literal(s, sp) => Tok::Literal(s@, sp),
            Tree::Group(d, ts, sp) => Tok::Group(d, models(ts@), sp),
        }
    }

    /// The span this token carries.
    pub open spec fn spec_span(self) -> Span {
        tok_span(self.model())
    }

    /// The source span of this token.
    pub fn span(&self) -> (s: Span)
        ensures
            s == self.spec_span(),
    {
        match self {
            Tree::Ident(_, sp) => *sp,
            Tree::Punct(_, sp) => *sp,
            Tree::Literal(_, sp) => *sp,
            Tree::Group(_, _, sp) => *sp,
        }
    }

    /// Builds an identifier token.
    pub fn ident(text: &str, sp: Span) -> (t: Tree)
        ensures
            t.model() == Tok::Ident(text@, sp),
    {
        Tree::Ident(text.to_owned(), sp)
    }

    /// Builds a punctuation token.
    pub fn punct(c: char, sp: Span) -> (t: Tree)
        ensures
            t.model() == Tok::Punct(c, sp),
    {
        Tree::Punct(c, sp)
    }

    /// Builds a literal token.
    pub fn literal(text: &str, sp: Span) -> (t: Tree)
        ensures
            t.model() == Tok::Literal(text@, sp),
    {
        Tree::Literal(text.to_owned(), sp)
    }

    /// Builds a group token around the given members.
    pub fn group(d: Delim, members: Vec<Tree>, sp: Span) -> (t: Tree)
        ensures
            t.model() == Tok::Group(d, models(members@), sp),
    {
        Tree::Group(d, members, sp)
    }
}

/// Copies the tail of a token sequence, starting at `from`, member by member.
fn clone_trees_from(ts: &Vec<Tree>, from: usize) -> (res: Vec<Tree>)
    requires
        from <= ts@.len(),
    ensures
        res@.len() == ts@.len() - from,
        forall|i: int| 0 <= i < res@.len() ==> res@[i].model() == ts@[from + i].model(),
    decreases ts@, (ts@.len() - from) as int,
{
    if from == ts.len() {
        Vec::new()
    } else {
        proof {
            assert(decreases_to!(ts@ => ts@[from as int]));
        }
        let first = ts[from].clone();
        let mut rest = clone_trees_from(ts, from + 1);
        rest.insert(0, first);
        rest
    }
}

impl Clone for Tree {
    /// A clone has the same model as the original.
    fn clone(&self) -> (res: Self)
        ensures
            res.model() == self.model(),
        decreases *self, 0int,
    {
        match self {
            Tree::Ident(s, sp) => Tree::Ident(s.clone(), *sp),
            Tree::Punct(c, sp) => Tree::Punct(*c, *sp),
            Tree::Literal(s, sp) => Tree::Literal(s.clone(), *sp),
            Tree::Group(d, ts, sp) => {
                let c = clone_trees_from(ts, 0);
                proof {
                    lemma_models(c@);
                    lemma_models(ts@);
                    assert(models(c@) =~= models(ts@));
                }
                Tree::Group(*d, c, *sp)
            },
        }
    }
}

} // verus!
