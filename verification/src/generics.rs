use vstd::prelude::*;

use crate::span::synth_span;
use crate::tree::{models, strings_view, Tok, Tree};

verus! {

broadcast use crate::tree::lemma_models;

/// The model of a type parameter: its name and, where bounds were given,
/// the names of the bounding traits in declaration order.
pub struct GenericV {
    pub name: Seq<char>,
    pub traits: Option<Seq<Seq<char>>>,
}

/// A declared type parameter together with its optional trait bounds.
///
/// Bounds keep insertion order and are not deduplicated.
#[derive(Debug, PartialEq)]
pub struct Generic {
    pub traits: Option<Vec<String>>,
    pub name: String,
}

impl View for Generic {
    type V = GenericV;

    open spec fn view(&self) -> GenericV {
        GenericV {
            name: self.name@,
            traits: match self.traits {
                Some(ts) => Some(strings_view(ts@)),
                None => None,
            },
        }
    }
}

/// The views of a sequence of type parameters, element by element.
pub open spec fn generics_view(gs: Seq<Generic>) -> Seq<GenericV> {
    Seq::new(gs.len(), |i: int| gs[i]@)
}

/// The token sequence the bounds of one type parameter re-serialize to:
/// the trait names joined by `+`.
pub open spec fn sp_bounds_tokens(trs: Seq<Seq<char>>) -> Seq<Tok>
    decreases trs.len(),
{
    if trs.len() <= 0 {
        Seq::empty()
    } else if trs.len() == 1 {
        seq![Tok::Ident(trs[0], synth_span())]
    } else {
        seq![Tok::Ident(trs[0], synth_span()), Tok::Punct('+', synth_span())]
            + sp_bounds_tokens(trs.drop_first())
    }
}

/// The token sequence one type parameter re-serializes to: its name and,
/// where bounds exist, a colon followed by the bounds.
pub open spec fn sp_generic_tokens(g: GenericV) -> Seq<Tok> {
    seq![Tok::Ident(g.name, synth_span())] + match g.traits {
        Some(trs) => if trs.len() > 0 {
            seq![Tok::Punct(':', synth_span())] + sp_bounds_tokens(trs)
        } else {
            Seq::empty()
        },
        None => Seq::empty(),
    }
}

impl Generic {
    /// Builds a type parameter from its optional bounds and its name.
    pub fn new(traits: Option<Vec<String>>, name: String) -> (g: Generic)
        ensures
            g.name@ == name@,
            g@.name == name@,
            g.traits is Some <==> traits is Some,
            g@.traits == (match traits {
                Some(ts) => Some(strings_view(ts@)),
                None => None,
            }),
    {
        Generic { traits, name }
    }

    /// Appends one trait bound, allocating the backing list on first use.
    pub fn insert(&mut self, tr: String)
        ensures
            final(self).name@ == old(self).name@,
            final(self)@.traits == (match old(self)@.traits {
                Some(ts) => Some(ts.push(tr@)),
                None => Some(seq![tr@]),
            }),
    {
        match self.traits {
            Some(ref mut vec) => {
                vec.push(tr);
                proof {
                    assert(strings_view(self.traits->0@) =~= match old(self)@.traits {
                        Some(ts) => ts.push(tr@),
                        None => seq![tr@],
                    });
                }
            },
            None => {
                let mut container: Vec<String> = Vec::new();
                container.push(tr);
                self.traits = Some(container);
                proof {
                    assert(strings_view(self.traits->0@) =~= seq![tr@]);
                }
            },
        }
    }

    /// Re-serializes the type parameter: its name, then `:` and the bounds
    /// joined by `+` where bounds exist.
    pub fn to_tokens(self) -> (r: Vec<Tree>)
        ensures
            models(r@) == sp_generic_tokens(self@),
    {
        let sp = crate::span::synthetic_span();
        match self.traits {
            None => {
                let mut out: Vec<Tree> = Vec::new();
                let name_tok = Tree::ident(self.name.as_str(), sp);
                out.push(name_tok);
                proof {
                    assert(models(out@) =~= sp_generic_tokens(self@));
                }
                out
            },
            Some(trs) => {
                if trs.len() == 0 {
                    let mut out: Vec<Tree> = Vec::new();
                    let name_tok = Tree::ident(self.name.as_str(), sp);
                    out.push(name_tok);
                    proof {
                        assert(self@.traits->0 =~= Seq::<Seq<char>>::empty());
                        assert(models(out@) =~= sp_generic_tokens(self@));
                    }
                    out
                } else {
                    let mut out = bounds_to_tokens(&trs, 0);
                    out.insert(0, Tree::punct(':', sp));
                    let name_tok = Tree::ident(self.name.as_str(), sp);
                    out.insert(0, name_tok);
                    proof {
                        assert(strings_view(trs@).skip(0) =~= strings_view(trs@));
                        assert(models(out@) =~= sp_generic_tokens(self@));
                    }
                    out
                }
            },
        }
    }
}

/// Re-serializes the tail of a bound list, starting at `from`, joining the
/// trait names by `+`.
pub fn bounds_to_tokens(trs: &Vec<String>, from: usize) -> (r: Vec<Tree>)
    requires
        from <= trs@.len(),
    ensures
        models(r@) == sp_bounds_tokens(strings_view(trs@).skip(from as int)),
    decreases trs@.len() - from,
{
    let sp = crate::span::synthetic_span();
    if from == trs.len() {
        let out: Vec<Tree> = Vec::new();
        proof {
            assert(models(out@) =~= sp_bounds_tokens(strings_view(trs@).skip(from as int)));
        }
        out
    } else {
        let mut rest = bounds_to_tokens(trs, from + 1);
        if from + 1 < trs.len() {
            rest.insert(0, Tree::punct('+', sp));
        }
        let head = Tree::ident(trs[from].as_str(), sp);
        rest.insert(0, head);
        proof {
            let sv = strings_view(trs@);
            assert(sv.skip(from as int).drop_first() =~= sv.skip(from + 1));
            assert(sv.skip(from as int)[0] == trs@[from as int]@);
            assert(models(rest@) =~= sp_bounds_tokens(sv.skip(from as int)));
        }
        rest
    }
}

} // verus!
