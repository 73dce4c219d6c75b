use vstd::prelude::*;

use crate::fn_def::{fndef_tokens, sp_fndef_tokens, FnDef};
use crate::generics::sp_bounds_tokens;
use crate::lifetime::{sp_lifetime_tokens, Lifetime};
use crate::optvec::OptVec;
use crate::span::synth_span;
use crate::tree::{models, strings_view, Delim, Tok, Tree};
use crate::ty::{lifetime_tokens, lifetimes_view, opt_items};

verus! {

broadcast use crate::tree::lemma_models;

/// A bound on one type parameter of an `impl` block: the bounded name, the
/// bounding traits, and the lifetimes named in the bound.
#[derive(Debug, PartialEq)]
pub struct TraitBound {
    pub marker: String,
    pub traits: Option<Vec<String>>,
    pub lifetime: Option<Vec<Lifetime>>,
}

/// The token sequence a lifetime list re-serializes to inside a bound: the
/// lifetimes joined by `+`.
pub open spec fn sp_lf_joined(ls: Seq<Seq<char>>) -> Seq<Tok>
    decreases ls.len(),
{
    if ls.len() <= 0 {
        Seq::empty()
    } else if ls.len() == 1 {
        sp_lifetime_tokens(ls[0])
    } else {
        sp_lifetime_tokens(ls[0]) + seq![Tok::Punct('+', synth_span())] + sp_lf_joined(
            ls.drop_first(),
        )
    }
}

/// The token sequence a trait bound re-serializes to: the bounded name,
/// `:` and the traits joined by `+` where traits were given, then the
/// lifetimes joined by `+`, with a `+` between the two parts where both
/// carry something.
pub open spec fn sp_trait_bound_tokens(tb: TraitBound) -> Seq<Tok> {
    seq![Tok::Ident(tb.marker@, synth_span())] + (match tb.traits {
        None => Seq::empty(),
        Some(ts) => seq![Tok::Punct(':', synth_span())] + sp_bounds_tokens(strings_view(ts@)),
    }) + (match tb.lifetime {
        None => Seq::empty(),
        Some(lfs) => (if tb.traits matches Some(ts) && ts@.len() >= 1 {
            seq![Tok::Punct('+', synth_span())]
        } else {
            Seq::empty()
        }) + sp_lf_joined(lifetimes_view(lfs@)),
    })
}

/// Re-serializes the tail of a lifetime list, starting at `from`, joined
/// by `+`.
fn lf_joined_from(lfs: &Vec<Lifetime>, from: usize) -> (r: Vec<Tree>)
    requires
        from <= lfs@.len(),
    ensures
        models(r@) == sp_lf_joined(lifetimes_view(lfs@).skip(from as int)),
    decreases lfs@.len() - from,
{
    let sp = crate::span::synthetic_span();
    if from == lfs.len() {
        let out: Vec<Tree> = Vec::new();
        proof {
            assert(models(out@) =~= sp_lf_joined(lifetimes_view(lfs@).skip(from as int)));
        }
        out
    } else {
        let mut out = lifetime_tokens(&lfs[from]);
        if from + 1 < lfs.len() {
            out.push(Tree::punct('+', sp));
            let mut rest = lf_joined_from(lfs, from + 1);
            out.append(&mut rest);
        }
        proof {
            let lv = lifetimes_view(lfs@).skip(from as int);
            assert(lv.drop_first() =~= lifetimes_view(lfs@).skip(from + 1));
            assert(lv[0] == lfs@[from as int]@);
            assert(models(out@) =~= sp_lf_joined(lv));
        }
        out
    }
}

impl TraitBound {
    /// Builds a bound with only the bounded name.
    pub fn new(name: String) -> (tb: TraitBound)
        ensures
            tb.marker == name,
            tb.traits is None,
            tb.lifetime is None,
    {
        TraitBound { marker: name, traits: None, lifetime: None }
    }

    /// Builds a bound from all its parts.
    pub fn new_with(
        marker: String,
        traits: Option<Vec<String>>,
        lifetime: Option<Vec<Lifetime>>,
    ) -> (tb: TraitBound)
        ensures
            tb == (TraitBound { marker, traits, lifetime }),
    {
        TraitBound { marker, traits, lifetime }
    }

    /// How many tokens the bound will roughly re-serialize to: two for the
    /// name and colon, one per lifetime, three per trait.
    pub fn token_usize_hint(&self) -> (r: usize)
        requires
            2 + (match self.lifetime {
                Some(ls) => ls@.len(),
                None => 0,
            }) + 3 * (match self.traits {
                Some(ts) => ts@.len(),
                None => 0,
            }) <= usize::MAX,
        ensures
            r == 2 + (match self.lifetime {
                Some(ls) => ls@.len(),
                None => 0,
            }) + 3 * (match self.traits {
                Some(ts) => ts@.len(),
                None => 0,
            }),
    {
        let mut base: usize = 2;
        match &self.lifetime {
            Some(ls) => {
                base = base + ls.len();
            },
            None => {},
        }
        match &self.traits {
            Some(ts) => {
                base = base + 3 * ts.len();
            },
            None => {},
        }
        base
    }

    /// Re-serializes the bound: the name, the traits joined by `+` behind a
    /// colon, then the lifetimes joined by `+`.
    pub fn into_tokens(self) -> (r: Vec<Tree>)
        ensures
            models(r@) == sp_trait_bound_tokens(self),
    {
        let sp = crate::span::synthetic_span();
        let mut out: Vec<Tree> = Vec::new();
        let name_tok = Tree::ident(self.marker.as_str(), sp);
        out.push(name_tok);
        let mut had_traits = false;
        match &self.traits {
            None => {},
            Some(ts) => {
                out.push(Tree::punct(':', sp));
                let mut bt = crate::generics::bounds_to_tokens(ts, 0);
                out.append(&mut bt);
                proof {
                    assert(strings_view(ts@).skip(0) =~= strings_view(ts@));
                }
                if ts.len() >= 1 {
                    had_traits = true;
                }
            },
        }
        match &self.lifetime {
            None => {},
            Some(lfs) => {
                if had_traits {
                    out.push(Tree::punct('+', sp));
                }
                let mut lt = lf_joined_from(lfs, 0);
                out.append(&mut lt);
                proof {
                    assert(lifetimes_view(lfs@).skip(0) =~= lifetimes_view(lfs@));
                }
            },
        }
        proof {
            assert(models(out@) =~= sp_trait_bound_tokens(self));
        }
        out
    }
}

/// The bounds standing left of an `impl` keyword.
#[allow(dead_code)]
struct Properties {
    bounds: Option<Vec<TraitBound>>,
}

/// A synthesized `impl` block: its bounds, the name it attaches to, its
/// function definitions, and whether it is an `unsafe` impl.
#[allow(dead_code)]
pub struct ImplBlock {
    left_side_properties: Properties,
    name: String,
    function_defs: Option<Vec<FnDef>>,
    is_unsafe: bool,
}

/// Builds an `impl` block step by step: a name, function definitions,
/// bounds, and the safety marker.
pub struct ImplBlockBuilder {
    pub fn_defs: OptVec<FnDef>,
    pub name: Option<String>,
    pub lside_props: OptVec<TraitBound>,
    pub is_unsafe: bool,
}

/// The token sequence a list of function definitions re-serializes to, in
/// order.
pub open spec fn sp_fndefs_concat(s: Seq<FnDef>) -> Seq<Tok>
    decreases s.len(),
{
    if s.len() <= 0 {
        Seq::empty()
    } else {
        sp_fndef_tokens(s[0]) + sp_fndefs_concat(s.drop_first())
    }
}

/// Re-serializes the tail of a definition list, starting at `from`.
fn fndefs_tokens_from(defs: &Vec<FnDef>, from: usize) -> (r: Vec<Tree>)
    requires
        from <= defs@.len(),
    ensures
        models(r@) == sp_fndefs_concat(defs@.skip(from as int)),
    decreases defs@.len() - from,
{
    if from == defs.len() {
        let out: Vec<Tree> = Vec::new();
        proof {
            assert(models(out@) =~= sp_fndefs_concat(defs@.skip(from as int)));
        }
        out
    } else {
        let mut out = fndef_tokens(&defs[from]);
        let mut rest = fndefs_tokens_from(defs, from + 1);
        out.append(&mut rest);
        proof {
            let dv = defs@.skip(from as int);
            assert(dv.drop_first() =~= defs@.skip(from + 1));
            assert(dv[0] == defs@[from as int]);
            assert(models(out@) =~= sp_fndefs_concat(dv));
        }
        out
    }
}

impl ImplBlockBuilder {
    /// Both backing lists agree with their readiness flags.
    pub open spec fn wf(&self) -> bool {
        self.fn_defs.wf() && self.lside_props.wf()
    }

    /// Sets the name the block attaches to.
    pub fn name(&mut self, name: String)
        ensures
            final(self).name == Some(name),
            final(self).fn_defs == old(self).fn_defs,
            final(self).lside_props == old(self).lside_props,
            final(self).is_unsafe == old(self).is_unsafe,
    {
        self.name = Some(name);
    }

    /// Appends one function definition.
    pub fn function(&mut self, fn_def: FnDef)
        requires
            old(self).fn_defs.wf(),
        ensures
            final(self).fn_defs.wf(),
            final(self).fn_defs.items() == (match old(self).fn_defs.items() {
                Some(s) => Some(s.push(fn_def)),
                None => Some(seq![fn_def]),
            }),
            final(self).name == old(self).name,
            final(self).lside_props == old(self).lside_props,
            final(self).is_unsafe == old(self).is_unsafe,
    {
        self.fn_defs.push(fn_def);
    }

    /// Appends one bound.
    pub fn bounds(&mut self, bound: TraitBound)
        requires
            old(self).lside_props.wf(),
        ensures
            final(self).lside_props.wf(),
            final(self).lside_props.items() == (match old(self).lside_props.items() {
                Some(s) => Some(s.push(bound)),
                None => Some(seq![bound]),
            }),
            final(self).name == old(self).name,
            final(self).fn_defs == old(self).fn_defs,
            final(self).is_unsafe == old(self).is_unsafe,
    {
        self.lside_props.push(bound);
    }

    /// Marks the block `unsafe` or not.
    pub fn is_unsafe(&mut self, safety: bool)
        ensures
            final(self).is_unsafe == safety,
            final(self).name == old(self).name,
            final(self).fn_defs == old(self).fn_defs,
            final(self).lside_props == old(self).lside_props,
    {
        self.is_unsafe = safety;
    }

    /// Re-serializes the block: `unsafe` where marked, `impl`, the name,
    /// and a group holding the function definitions in order.  A block
    /// without a name cannot be built.
    pub fn build(self) -> (r: Option<Vec<Tree>>)
        ensures
            match r {
                None => self.name is None,
                Some(v) => self.name matches Some(nm) && models(v@) == (if self.is_unsafe {
                    seq![Tok::Ident("unsafe"@, synth_span())]
                } else {
                    Seq::<Tok>::empty()
                }) + seq![
                    Tok::Ident("impl"@, synth_span()),
                    Tok::Ident(nm@, synth_span()),
                    Tok::Group(
                        Delim::Paren,
                        sp_fndefs_concat(opt_items(self.fn_defs.items())),
                        synth_span(),
                    ),
                ],
            },
    {
        let sp = crate::span::synthetic_span();
        let nm = match self.name {
            None => {
                return None;
            },
            Some(nm) => nm,
        };
        let mut tkns: Vec<Tree> = Vec::new();
        if self.is_unsafe {
            tkns.push(Tree::ident("unsafe", sp));
        }
        tkns.push(Tree::ident("impl", sp));
        let name_tok = Tree::ident(nm.as_str(), sp);
        tkns.push(name_tok);
        let group_tkns: Vec<Tree> = match self.fn_defs.into_self() {
            None => {
                let v: Vec<Tree> = Vec::new();
                proof {
                    assert(models(v@) =~= sp_fndefs_concat(
                        opt_items(self.fn_defs.items()),
                    ));
                }
                v
            },
            Some(defs) => {
                let v = fndefs_tokens_from(&defs, 0);
                proof {
                    assert(defs@.skip(0) =~= defs@);
                }
                v
            },
        };
        tkns.push(Tree::group(Delim::Paren, group_tkns, sp));
        proof {
            assert(models(tkns@) =~= (if self.is_unsafe {
                seq![Tok::Ident("unsafe"@, synth_span())]
            } else {
                Seq::<Tok>::empty()
            }) + seq![
                Tok::Ident("impl"@, synth_span()),
                Tok::Ident(nm@, synth_span()),
                Tok::Group(
                    Delim::Paren,
                    sp_fndefs_concat(opt_items(self.fn_defs.items())),
                    synth_span(),
                ),
            ]);
        }
        Some(tkns)
    }
}

impl ImplBlock {
    /// Opens a fresh builder.
    pub fn new() -> (b: ImplBlockBuilder)
        ensures
            b.wf(),
            b.fn_defs.items() is None,
            b.name is None,
            b.lside_props.items() is None,
            !b.is_unsafe,
    {
        ImplBlockBuilder {
            fn_defs: OptVec::new(0),
            name: None,
            lside_props: OptVec::new(0),
            is_unsafe: false,
        }
    }

    /// Opens a fresh builder that will suggest `cap` as the first capacity
    /// of its backing lists; the built tokens are the same either way.
    pub fn new_with_capacity(cap: usize) -> (b: ImplBlockBuilder)
        ensures
            b.wf(),
            b.fn_defs.items() is None,
            b.name is None,
            b.lside_props.items() is None,
            !b.is_unsafe,
    {
        ImplBlockBuilder {
            fn_defs: OptVec::new(cap),
            name: None,
            lside_props: OptVec::new(cap),
            is_unsafe: false,
        }
    }
}

} // verus!
