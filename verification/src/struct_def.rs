use vstd::prelude::*;

use crate::generics::{generics_view, Generic, GenericV};
use crate::lifetime::Lifetime;
use crate::span::synth_span;
use crate::tree::{models, Delim, Tok, Tree};
use crate::ty::{
    fields_view, gl_tokens_from, lifetimes_view, opt_items, sp_gl_tokens, sp_ty_tokens, ty_tokens,
    Field, FieldV,
};

verus! {

broadcast use crate::tree::lemma_models;

/// The model of a parsed struct definition.
pub struct StructDefV {
    pub name: Seq<char>,
    pub fields: Seq<FieldV>,
    pub generics: Option<Seq<GenericV>>,
    pub lifetimes: Option<Seq<Seq<char>>>,
}

/// The structured representation of a struct definition: its name, its
/// fields in declaration order, and its generics and lifetimes where given.
/// A struct with zero fields is valid.
#[derive(Debug, PartialEq)]
pub struct StructDef {
    pub fields: Vec<Field>,
    pub name: String,
    pub generics: Option<Vec<Generic>>,
    pub lifetimes: Option<Vec<Lifetime>>,
}

impl View for StructDef {
    type V = StructDefV;

    open spec fn view(&self) -> StructDefV {
        StructDefV {
            name: self.name@,
            fields: fields_view(self.fields@),
            generics: match self.generics {
                Some(gs) => Some(generics_view(gs@)),
                None => None,
            },
            lifetimes: match self.lifetimes {
                Some(ls) => Some(lifetimes_view(ls@)),
                None => None,
            },
        }
    }
}

/// The token sequence a field list re-serializes to: `name : type` for each
/// field, commas between fields, no trailing comma.
pub open spec fn sp_fields_tokens(fs: Seq<FieldV>) -> Seq<Tok>
    decreases fs.len(),
{
    if fs.len() <= 0 {
        Seq::empty()
    } else {
        seq![Tok::Ident(fs[0].name, synth_span()), Tok::Punct(':', synth_span())] + sp_ty_tokens(
            fs[0].ty,
        ) + if fs.len() > 1 {
            seq![Tok::Punct(',', synth_span())] + sp_fields_tokens(fs.drop_first())
        } else {
            Seq::empty()
        }
    }
}

/// The token sequence a struct definition re-serializes to: `struct`, the
/// name, the generic/lifetime list in `<` `>` where one is present, then the
/// brace group of fields.
pub open spec fn sp_struct_tokens(d: StructDefV) -> Seq<Tok> {
    seq![Tok::Ident("struct"@, synth_span()), Tok::Ident(d.name, synth_span())] + (if d.generics
        is Some || d.lifetimes is Some {
        seq![Tok::Punct('<', synth_span())] + sp_gl_tokens(opt_items(d.lifetimes), opt_items(d.generics))
    } else {
        Seq::empty()
    }) + seq![Tok::Group(Delim::Brace, sp_fields_tokens(d.fields), synth_span())]
}

/// Re-serializes the tail of a field list, starting at `from`.
fn fields_tokens_from(fs: &Vec<Field>, from: usize) -> (r: Vec<Tree>)
    requires
        from <= fs@.len(),
    ensures
        models(r@) == sp_fields_tokens(fields_view(fs@).skip(from as int)),
    decreases fs@.len() - from,
{
    let sp = crate::span::synthetic_span();
    if from == fs.len() {
        let out: Vec<Tree> = Vec::new();
        proof {
            assert(models(out@) =~= sp_fields_tokens(fields_view(fs@).skip(from as int)));
        }
        out
    } else {
        let mut out: Vec<Tree> = Vec::new();
        let name_tok = Tree::ident(fs[from].field_name.as_str(), sp);
        out.push(name_tok);
        out.push(Tree::punct(':', sp));
        let mut ty = ty_tokens(&fs[from].field_type);
        out.append(&mut ty);
        if from + 1 < fs.len() {
            out.push(Tree::punct(',', sp));
        }
        let mut rest = fields_tokens_from(fs, from + 1);
        out.append(&mut rest);
        proof {
            let fv = fields_view(fs@).skip(from as int);
            assert(fv.drop_first() =~= fields_view(fs@).skip(from + 1));
            assert(fv[0] == fs@[from as int]@);
            assert(models(out@) =~= sp_fields_tokens(fv));
        }
        out
    }
}

impl StructDef {
    /// Builds a struct definition from its parts.
    pub fn new(
        fields: Vec<Field>,
        name: String,
        generics: Option<Vec<Generic>>,
        lifetimes: Option<Vec<Lifetime>>,
    ) -> (d: StructDef)
        ensures
            d == (StructDef { fields, name, generics, lifetimes }),
    {
        StructDef { fields, name, generics, lifetimes }
    }

    /// Re-serializes the definition as a flat token sequence, a pure
    /// function of the structured data: the same definition always yields
    /// the same tokens.
    pub fn to_tokens(&self) -> (r: Vec<Tree>)
        ensures
            models(r@) == sp_struct_tokens(self@),
    {
        let sp = crate::span::synthetic_span();
        let ghost view = self@;
        let mut out: Vec<Tree> = Vec::new();
        out.push(Tree::ident("struct", sp));
        let name_tok = Tree::ident(self.name.as_str(), sp);
        out.push(name_tok);
        let has_any = self.generics.is_some() || self.lifetimes.is_some();
        if has_any {
            out.push(Tree::punct('<', sp));
            let empty_l: Vec<Lifetime> = Vec::new();
            let empty_g: Vec<Generic> = Vec::new();
            let lfs: &Vec<Lifetime> = match &self.lifetimes {
                Some(ls) => ls,
                None => &empty_l,
            };
            let gens: &Vec<Generic> = match &self.generics {
                Some(gs) => gs,
                None => &empty_g,
            };
            let mut toks = gl_tokens_from(lfs, 0, gens, 0);
            proof {
                assert(lifetimes_view(lfs@).skip(0) =~= opt_items(view.lifetimes));
                assert(generics_view(gens@).skip(0) =~= opt_items(view.generics));
            }
            out.append(&mut toks);
        }
        let body = fields_tokens_from(&self.fields, 0);
        proof {
            assert(fields_view(self.fields@).skip(0) =~= fields_view(self.fields@));
        }
        out.push(Tree::group(Delim::Brace, body, sp));
        proof {
            assert(models(out@) =~= sp_struct_tokens(view));
        }
        out
    }
}

/// The text of an identifier token's model; the empty sequence for any
/// other token.
pub open spec fn ident_text(t: Tok) -> Seq<char> {
    match t {
        Tok::Ident(s, _) => s,
        _ => Seq::empty(),
    }
}

/// The body of a synthesized `Self { .. }` expression: each field name
/// followed by a comma.
pub open spec fn sp_names_commas(ms: Seq<Tok>) -> Seq<Tok>
    decreases ms.len(),
{
    if ms.len() <= 0 {
        Seq::empty()
    } else {
        seq![Tok::Ident(ident_text(ms[0]), synth_span()), Tok::Punct(',', synth_span())]
            + sp_names_commas(ms.drop_first())
    }
}

/// Appends, for each field-name token from `from` on, the name and a comma.
fn names_commas_from(fields: &Vec<Tree>, from: usize) -> (r: Vec<Tree>)
    requires
        from <= fields@.len(),
        forall|i: int| 0 <= i < fields@.len() ==> fields@[i].model() is Ident,
    ensures
        models(r@) == sp_names_commas(models(fields@).skip(from as int)),
    decreases fields@.len() - from,
{
    let sp = crate::span::synthetic_span();
    if from == fields.len() {
        let out: Vec<Tree> = Vec::new();
        proof {
            assert(models(out@) =~= sp_names_commas(models(fields@).skip(from as int)));
        }
        out
    } else {
        let mut out: Vec<Tree> = Vec::new();
        match &fields[from] {
            Tree::Ident(s, _) => {
                let name_tok = Tree::ident(s.as_str(), sp);
                out.push(name_tok);
            },
            _ => {
                proof {
                    assert(fields@[from as int].model() is Ident);
                }
                return vstd::pervasive::unreached();
            },
        }
        out.push(Tree::punct(',', sp));
        let mut rest = names_commas_from(fields, from + 1);
        out.append(&mut rest);
        proof {
            let mv = models(fields@).skip(from as int);
            assert(mv.drop_first() =~= models(fields@).skip(from + 1));
            assert(mv[0] == fields@[from as int].model());
            assert(models(out@) =~= sp_names_commas(mv));
        }
        out
    }
}

/// Synthesizes the body of a constructor: `Self` followed by a brace group
/// naming every field in order, each name followed by a comma.
pub fn self_struct_def_gen(fields: &Vec<Tree>) -> (r: Vec<Tree>)
    requires
        forall|i: int| 0 <= i < fields@.len() ==> fields@[i].model() is Ident,
    ensures
        models(r@) == seq![
            Tok::Ident("Self"@, synth_span()),
            Tok::Group(Delim::Brace, sp_names_commas(models(fields@)), synth_span()),
        ],
{
    let sp = crate::span::synthetic_span();
    let mut out: Vec<Tree> = Vec::new();
    out.push(Tree::ident("Self", sp));
    let body = names_commas_from(fields, 0);
    proof {
        assert(models(fields@).skip(0) =~= models(fields@));
    }
    out.push(Tree::group(Delim::Brace, body, sp));
    proof {
        assert(models(out@) =~= seq![
            Tok::Ident("Self"@, synth_span()),
            Tok::Group(Delim::Brace, sp_names_commas(models(fields@)), synth_span()),
        ]);
    }
    out
}

/// The argument list of a synthesized constructor: `name : type` for each
/// pair, commas between pairs, no trailing comma.
pub open spec fn sp_ctor_args(fl: Seq<Tok>, ty: Seq<Tok>) -> Seq<Tok>
    decreases fl.len(),
{
    if fl.len() <= 0 || ty.len() <= 0 {
        Seq::empty()
    } else {
        seq![fl[0], Tok::Punct(':', synth_span()), ty[0]] + if fl.len() > 1 {
            seq![Tok::Punct(',', synth_span())] + sp_ctor_args(fl.drop_first(), ty.drop_first())
        } else {
            Seq::empty()
        }
    }
}

/// Builds the tail of a constructor argument list, starting at `from`.
fn ctor_args_from(fl: &Vec<Tree>, ty: &Vec<Tree>, from: usize) -> (r: Vec<Tree>)
    requires
        fl@.len() == ty@.len(),
        from <= fl@.len(),
    ensures
        models(r@) == sp_ctor_args(
            models(fl@).skip(from as int),
            models(ty@).skip(from as int),
        ),
    decreases fl@.len() - from,
{
    let sp = crate::span::synthetic_span();
    if from == fl.len() {
        let out: Vec<Tree> = Vec::new();
        proof {
            assert(models(out@) =~= sp_ctor_args(
                models(fl@).skip(from as int),
                models(ty@).skip(from as int),
            ));
        }
        out
    } else {
        let mut out: Vec<Tree> = Vec::new();
        out.push(fl[from].clone());
        out.push(Tree::punct(':', sp));
        out.push(ty[from].clone());
        if from + 1 < fl.len() {
            out.push(Tree::punct(',', sp));
        }
        let mut rest = ctor_args_from(fl, ty, from + 1);
        out.append(&mut rest);
        proof {
            let fv = models(fl@).skip(from as int);
            let tv = models(ty@).skip(from as int);
            assert(fv.drop_first() =~= models(fl@).skip(from + 1));
            assert(tv.drop_first() =~= models(ty@).skip(from + 1));
            assert(fv[0] == fl@[from as int].model());
            assert(tv[0] == ty@[from as int].model());
            assert(models(out@) =~= sp_ctor_args(fv, tv));
        }
        out
    }
}

/// Synthesizes the argument list of a constructor from parallel lists of
/// field-name tokens and type tokens: `name : type` pairs joined by commas.
/// The two lists must pair up exactly.
pub fn struct_gen_new_fn_args(fl: &Vec<Tree>, ty: &Vec<Tree>) -> (r: Vec<Tree>)
    requires
        fl@.len() == ty@.len(),
    ensures
        models(r@) == sp_ctor_args(models(fl@), models(ty@)),
{
    let out = ctor_args_from(fl, ty, 0);
    proof {
        assert(models(fl@).skip(0) =~= models(fl@));
        assert(models(ty@).skip(0) =~= models(ty@));
    }
    out
}

} // verus!
