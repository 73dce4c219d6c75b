use vstd::prelude::*;

use crate::generics::{generics_view, sp_generic_tokens, Generic, GenericV};
use crate::lifetime::{sp_lifetime_tokens, Lifetime};
use crate::span::synth_span;
use crate::tree::{models, Tok, Tree};

verus! {

broadcast use crate::tree::lemma_models;

/// The model of a borrow: its mutability and the name of its lifetime.
pub struct BorrowV {
    pub mutable: bool,
    pub lifetime: Seq<char>,
}

/// A borrow marker on a type: mutable or not, and carrying its lifetime.
#[derive(Debug, PartialEq)]
pub struct Borrow {
    pub mutable: bool,
    pub lifetime: Lifetime,
}

impl View for Borrow {
    type V = BorrowV;

    open spec fn view(&self) -> BorrowV {
        BorrowV { mutable: self.mutable, lifetime: self.lifetime@ }
    }
}

/// The model of a parsed type reference such as `&'a mut Base<'b, T>`.
pub struct TyV {
    pub borrow: Option<BorrowV>,
    pub base: Seq<char>,
    pub generics: Option<Seq<GenericV>>,
    pub lifetimes: Option<Seq<Seq<char>>>,
}

/// A possibly borrowed, possibly generic type reference: an optional borrow,
/// a base name, and the type's own generics and lifetimes where given.
#[derive(Debug, PartialEq)]
pub struct Ty {
    pub borrow: Option<Borrow>,
    pub base: String,
    pub generic: Option<Vec<Generic>>,
    pub lifetime: Option<Vec<Lifetime>>,
}

/// The views of a sequence of lifetimes, element by element.
pub open spec fn lifetimes_view(ls: Seq<Lifetime>) -> Seq<Seq<char>> {
    Seq::new(ls.len(), |i: int| ls[i]@)
}

impl View for Ty {
    type V = TyV;

    open spec fn view(&self) -> TyV {
        TyV {
            borrow: match self.borrow {
                Some(b) => Some(b@),
                None => None,
            },
            base: self.base@,
            generics: match self.generic {
                Some(gs) => Some(generics_view(gs@)),
                None => None,
            },
            lifetimes: match self.lifetime {
                Some(ls) => Some(lifetimes_view(ls@)),
                None => None,
            },
        }
    }
}

/// The model of a struct field: its name and its type.
pub struct FieldV {
    pub name: Seq<char>,
    pub ty: TyV,
}

/// One field of a struct: a name and a parsed type.
#[derive(Debug, PartialEq)]
pub struct Field {
    pub field_type: Ty,
    pub field_name: String,
}

impl View for Field {
    type V = FieldV;

    open spec fn view(&self) -> FieldV {
        FieldV { name: self.field_name@, ty: self.field_type@ }
    }
}

/// The views of a sequence of fields, element by element.
pub open spec fn fields_view(fs: Seq<Field>) -> Seq<FieldV> {
    Seq::new(fs.len(), |i: int| fs[i]@)
}

/// The token sequence a borrow re-serializes to: `&`, the lifetime, then
/// `mut` where the borrow is mutable — matching `&'a mut T` surface syntax.
pub open spec fn sp_borrow_tokens(b: BorrowV) -> Seq<Tok> {
    seq![Tok::Punct('&', synth_span())] + sp_lifetime_tokens(b.lifetime) + if b.mutable {
        seq![Tok::Ident("mut"@, synth_span())]
    } else {
        Seq::empty()
    }
}

/// The sequence a generic/lifetime list re-serializes to, commas between
/// items and a closing `>` at the end: lifetimes first, then generics.
pub open spec fn sp_gl_tokens(lfs: Seq<Seq<char>>, gens: Seq<GenericV>) -> Seq<Tok>
    decreases lfs.len() + gens.len(),
{
    if lfs.len() > 0 {
        sp_lifetime_tokens(lfs[0]) + if lfs.len() == 1 && gens.len() == 0 {
            seq![Tok::Punct('>', synth_span())]
        } else {
            seq![Tok::Punct(',', synth_span())] + sp_gl_tokens(lfs.drop_first(), gens)
        }
    } else if gens.len() > 0 {
        sp_generic_tokens(gens[0]) + if gens.len() == 1 {
            seq![Tok::Punct('>', synth_span())]
        } else {
            seq![Tok::Punct(',', synth_span())] + sp_gl_tokens(lfs, gens.drop_first())
        }
    } else {
        seq![Tok::Punct('>', synth_span())]
    }
}

/// The inner sequence for an optional list: its items, or nothing.
pub open spec fn opt_items<T>(o: Option<Seq<T>>) -> Seq<T> {
    match o {
        Some(s) => s,
        None => Seq::empty(),
    }
}

/// The token sequence a type reference re-serializes to: the borrow, the
/// base name, then `<`, the generic/lifetime list and `>` where either list
/// is present.
pub open spec fn sp_ty_tokens(t: TyV) -> Seq<Tok> {
    (match t.borrow {
        Some(b) => sp_borrow_tokens(b),
        None => Seq::empty(),
    }) + seq![Tok::Ident(t.base, synth_span())] + if t.generics is Some || t.lifetimes is Some {
        seq![Tok::Punct('<', synth_span())] + sp_gl_tokens(opt_items(t.lifetimes), opt_items(t.generics))
    } else {
        Seq::empty()
    }
}

/// Re-serializes one lifetime without consuming it.
pub(crate) fn lifetime_tokens(lf: &Lifetime) -> (r: Vec<Tree>)
    ensures
        models(r@) == sp_lifetime_tokens(lf@),
{
    let sp = crate::span::synthetic_span();
    let mut out: Vec<Tree> = Vec::new();
    out.push(Tree::punct('\'', sp));
    let name_tok = Tree::ident(lf.name.as_str(), sp);
    out.push(name_tok);
    proof {
        assert(models(out@) =~= sp_lifetime_tokens(lf@));
    }
    out
}

/// Re-serializes the tail of a generic/lifetime list, starting at the given
/// offsets into the two lists: lifetimes first, then generics, commas
/// between items, a closing `>` at the end.
pub(crate) fn gl_tokens_from(
    lfs: &Vec<Lifetime>,
    li: usize,
    gens: &Vec<Generic>,
    gi: usize,
) -> (r: Vec<Tree>)
    requires
        li <= lfs@.len(),
        gi <= gens@.len(),
    ensures
        models(r@) == sp_gl_tokens(
            lifetimes_view(lfs@).skip(li as int),
            generics_view(gens@).skip(gi as int),
        ),
    decreases lfs@.len() - li + gens@.len() - gi,
{
    let sp = crate::span::synthetic_span();
    let ghost lv = lifetimes_view(lfs@).skip(li as int);
    let ghost gv = generics_view(gens@).skip(gi as int);
    if li < lfs.len() {
        let mut out = lifetime_tokens(&lfs[li]);
        if li + 1 == lfs.len() && gi == gens.len() {
            out.push(Tree::punct('>', sp));
            proof {
                assert(models(out@) =~= sp_gl_tokens(lv, gv));
            }
            out
        } else {
            out.push(Tree::punct(',', sp));
            let mut rest = gl_tokens_from(lfs, li + 1, gens, gi);
            out.append(&mut rest);
            proof {
                assert(lv.drop_first() =~= lifetimes_view(lfs@).skip(li + 1));
                assert(models(out@) =~= sp_gl_tokens(lv, gv));
            }
            out
        }
    } else if gi < gens.len() {
        let mut out = generic_tokens(&gens[gi]);
        if gi + 1 == gens.len() {
            out.push(Tree::punct('>', sp));
            proof {
                assert(lv =~= Seq::<Seq<char>>::empty());
                assert(models(out@) =~= sp_gl_tokens(lv, gv));
            }
            out
        } else {
            out.push(Tree::punct(',', sp));
            let mut rest = gl_tokens_from(lfs, li, gens, gi + 1);
            out.append(&mut rest);
            proof {
                assert(lv =~= Seq::<Seq<char>>::empty());
                assert(gv.drop_first() =~= generics_view(gens@).skip(gi + 1));
                assert(models(out@) =~= sp_gl_tokens(lv, gv));
            }
            out
        }
    } else {
        let mut out: Vec<Tree> = Vec::new();
        out.push(Tree::punct('>', sp));
        proof {
            assert(lv =~= Seq::<Seq<char>>::empty());
            assert(gv =~= Seq::<GenericV>::empty());
            assert(models(out@) =~= sp_gl_tokens(lv, gv));
        }
        out
    }
}

/// Re-serializes one type parameter without consuming it.
pub(crate) fn generic_tokens(g: &Generic) -> (r: Vec<Tree>)
    ensures
        models(r@) == sp_generic_tokens(g@),
{
    let sp = crate::span::synthetic_span();
    match &g.traits {
        None => {
            let mut out: Vec<Tree> = Vec::new();
            let name_tok = Tree::ident(g.name.as_str(), sp);
            out.push(name_tok);
            proof {
                assert(models(out@) =~= sp_generic_tokens(g@));
            }
            out
        },
        Some(trs) => {
            if trs.len() == 0 {
                let mut out: Vec<Tree> = Vec::new();
                let name_tok = Tree::ident(g.name.as_str(), sp);
                out.push(name_tok);
                proof {
                    assert(g@.traits->0 =~= Seq::<Seq<char>>::empty());
                    assert(models(out@) =~= sp_generic_tokens(g@));
                }
                out
            } else {
                let mut out = crate::generics::bounds_to_tokens(trs, 0);
                out.insert(0, Tree::punct(':', sp));
                let name_tok = Tree::ident(g.name.as_str(), sp);
                out.insert(0, name_tok);
                proof {
                    assert(crate::tree::strings_view(trs@).skip(0) =~= crate::tree::strings_view(
                        trs@,
                    ));
                    assert(models(out@) =~= sp_generic_tokens(g@));
                }
                out
            }
        },
    }
}

impl Borrow {
    /// Builds a borrow from its mutability and lifetime.
    pub fn new(mutable: bool, lifetime: Lifetime) -> (b: Borrow)
        ensures
            b.mutable == mutable,
            b.lifetime@ == lifetime@,
    {
        Borrow { mutable, lifetime }
    }

    /// Re-serializes the borrow: `&`, the lifetime, then `mut` if mutable.
    pub fn to_tokens(self) -> (r: Vec<Tree>)
        ensures
            models(r@) == sp_borrow_tokens(self@),
    {
        borrow_tokens(&self)
    }
}

/// Re-serializes one borrow without consuming it.
pub(crate) fn borrow_tokens(b: &Borrow) -> (r: Vec<Tree>)
    ensures
        models(r@) == sp_borrow_tokens(b@),
{
    let sp = crate::span::synthetic_span();
    let mut out: Vec<Tree> = Vec::new();
    out.push(Tree::punct('&', sp));
    let mut lf = lifetime_tokens(&b.lifetime);
    out.append(&mut lf);
    if b.mutable {
        out.push(Tree::ident("mut", sp));
    }
    proof {
        assert(models(out@) =~= sp_borrow_tokens(b@));
    }
    out
}

impl Ty {
    /// Builds a type reference from its parts.
    pub fn new(
        borrow: Option<Borrow>,
        base: String,
        generic: Option<Vec<Generic>>,
        lifetime: Option<Vec<Lifetime>>,
    ) -> (t: Ty)
        ensures
            t == (Ty { borrow, base, generic, lifetime }),
    {
        Ty { borrow, base, generic, lifetime }
    }

    /// Re-serializes the generic/lifetime list of this type, commas between
    /// items, without the surrounding `<` and `>`; `None` where the type has
    /// neither generics nor lifetimes.
    pub fn generics_to_tokens(&self) -> (r: Option<Vec<Tree>>)
        ensures
            match r {
                Some(v) => (self@.generics is Some || self@.lifetimes is Some) && models(v@)
                    + seq![Tok::Punct('>', synth_span())] == sp_gl_tokens(
                    opt_items(self@.lifetimes),
                    opt_items(self@.generics),
                ),
                None => self@.generics is None && self@.lifetimes is None,
            },
    {
        let empty_l: Vec<Lifetime> = Vec::new();
        let empty_g: Vec<Generic> = Vec::new();
        let has_any = self.generic.is_some() || self.lifetime.is_some();
        if !has_any {
            return None;
        }
        let lfs: &Vec<Lifetime> = match &self.lifetime {
            Some(ls) => ls,
            None => &empty_l,
        };
        let gens: &Vec<Generic> = match &self.generic {
            Some(gs) => gs,
            None => &empty_g,
        };
        let mut toks = gl_tokens_from(lfs, 0, gens, 0);
        proof {
            assert(lifetimes_view(lfs@).skip(0) =~= opt_items(self@.lifetimes));
            assert(generics_view(gens@).skip(0) =~= opt_items(self@.generics));
        }
        let last = toks.pop();
        proof {
            let full = sp_gl_tokens(opt_items(self@.lifetimes), opt_items(self@.generics));
            lemma_gl_tokens_shape(opt_items(self@.lifetimes), opt_items(self@.generics));
            assert(models(toks@) =~= full.drop_last());
            assert(models(toks@) + seq![Tok::Punct('>', synth_span())] =~= full);
        }
        let _ = last;
        Some(toks)
    }

    /// Re-serializes the type: borrow, base name, then the generic and
    /// lifetime list in `<` `>` where one is present.
    pub fn to_tokens(self) -> (r: Vec<Tree>)
        ensures
            models(r@) == sp_ty_tokens(self@),
    {
        ty_tokens(&self)
    }
}

/// Re-serializes one type reference without consuming it.
pub(crate) fn ty_tokens(t: &Ty) -> (r: Vec<Tree>)
    ensures
        models(r@) == sp_ty_tokens(t@),
{
    let sp = crate::span::synthetic_span();
    let ghost view = t@;
    let mut out: Vec<Tree> = Vec::new();
    match &t.borrow {
        None => {},
        Some(b) => {
            let mut bt = borrow_tokens(b);
            out.append(&mut bt);
        },
    }
    let base_tok = Tree::ident(t.base.as_str(), sp);
    out.push(base_tok);
    let has_any = t.generic.is_some() || t.lifetime.is_some();
    if has_any {
        out.push(Tree::punct('<', sp));
        let empty_l: Vec<Lifetime> = Vec::new();
        let empty_g: Vec<Generic> = Vec::new();
        let lfs: &Vec<Lifetime> = match &t.lifetime {
            Some(ls) => ls,
            None => &empty_l,
        };
        let gens: &Vec<Generic> = match &t.generic {
            Some(gs) => gs,
            None => &empty_g,
        };
        let mut toks = gl_tokens_from(lfs, 0, gens, 0);
        proof {
            assert(lifetimes_view(lfs@).skip(0) =~= opt_items(view.lifetimes));
            assert(generics_view(gens@).skip(0) =~= opt_items(view.generics));
        }
        out.append(&mut toks);
    }
    proof {
        assert(models(out@) =~= sp_ty_tokens(view));
    }
    out
}

/// A generic/lifetime list always re-serializes to at least one token, the
/// last of which is the closing `>`.
pub proof fn lemma_gl_tokens_shape(lfs: Seq<Seq<char>>, gens: Seq<GenericV>)
    ensures
        sp_gl_tokens(lfs, gens).len() > 0,
        sp_gl_tokens(lfs, gens).last() == Tok::Punct('>', synth_span()),
    decreases lfs.len() + gens.len(),
{
    if lfs.len() > 0 {
        if !(lfs.len() == 1 && gens.len() == 0) {
            lemma_gl_tokens_shape(lfs.drop_first(), gens);
        }
    } else if gens.len() > 0 {
        if gens.len() != 1 {
            lemma_gl_tokens_shape(lfs, gens.drop_first());
        }
    }
}

impl Field {
    /// Builds a field from its type and name.
    pub fn new(field_type: Ty, field_name: String) -> (f: Field)
        ensures
            f == (Field { field_type, field_name }),
    {
        Field { field_type, field_name }
    }
}

} // verus!
