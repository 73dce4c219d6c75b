use vstd::prelude::*;

use crate::marker::{marker_to_tokens, sp_marker_tokens, Marker};
use crate::span::synth_span;
use crate::tree::{models, Delim, Tok, Tree};
use crate::ty::{sp_ty_tokens, ty_tokens, Ty};

verus! {

broadcast use crate::tree::lemma_models;

/// One argument of a synthesized function: a name and its type.
#[derive(Debug, PartialEq)]
pub struct Arg {
    pub name: String,
    pub arg_type: Ty,
}

/// The token sequence one argument re-serializes to: the name, a colon,
/// and the type.
pub open spec fn sp_arg_tokens(a: Arg) -> Seq<Tok> {
    seq![Tok::Ident(a.name@, synth_span()), Tok::Punct(':', synth_span())] + sp_ty_tokens(
        a.arg_type@,
    )
}

/// The token sequence an argument list re-serializes to: the arguments
/// joined by commas, no trailing comma.
pub open spec fn sp_args_tokens(s: Seq<Arg>) -> Seq<Tok>
    decreases s.len(),
{
    if s.len() <= 0 {
        Seq::empty()
    } else {
        sp_arg_tokens(s[0]) + if s.len() > 1 {
            seq![Tok::Punct(',', synth_span())] + sp_args_tokens(s.drop_first())
        } else {
            Seq::empty()
        }
    }
}

/// Re-serializes the tail of an argument list, starting at `from`.
fn args_tokens_from(args: &Vec<Arg>, from: usize) -> (r: Vec<Tree>)
    requires
        from <= args@.len(),
    ensures
        models(r@) == sp_args_tokens(args@.skip(from as int)),
    decreases args@.len() - from,
{
    let sp = crate::span::synthetic_span();
    if from == args.len() {
        let out: Vec<Tree> = Vec::new();
        proof {
            assert(models(out@) =~= sp_args_tokens(args@.skip(from as int)));
        }
        out
    } else {
        let mut out: Vec<Tree> = Vec::new();
        let name_tok = Tree::ident(args[from].name.as_str(), sp);
        out.push(name_tok);
        out.push(Tree::punct(':', sp));
        let mut ty = ty_tokens(&args[from].arg_type);
        out.append(&mut ty);
        if from + 1 < args.len() {
            out.push(Tree::punct(',', sp));
        }
        let mut rest = args_tokens_from(args, from + 1);
        out.append(&mut rest);
        proof {
            let av = args@.skip(from as int);
            assert(av.drop_first() =~= args@.skip(from + 1));
            assert(av[0] == args@[from as int]);
            assert(models(out@) =~= sp_args_tokens(av));
        }
        out
    }
}

impl Arg {
    /// Builds an argument from its name and type.
    pub fn new(name: String, arg_type: Ty) -> (a: Arg)
        ensures
            a == (Arg { name, arg_type }),
    {
        Arg { name, arg_type }
    }

    /// Re-serializes the argument: name, colon, type.
    pub fn to_tokens(self) -> (r: Vec<Tree>)
        ensures
            models(r@) == sp_arg_tokens(self),
    {
        let sp = crate::span::synthetic_span();
        let mut out: Vec<Tree> = Vec::new();
        let name_tok = Tree::ident(self.name.as_str(), sp);
        out.push(name_tok);
        out.push(Tree::punct(':', sp));
        let mut ty = ty_tokens(&self.arg_type);
        out.append(&mut ty);
        proof {
            assert(models(out@) =~= sp_arg_tokens(self));
        }
        out
    }

    /// Re-serializes a whole argument list as one parenthesis group, the
    /// arguments joined by commas with none trailing.
    pub fn vec_to_group(args: Vec<Arg>) -> (r: Tree)
        ensures
            r.model() == Tok::Group(Delim::Paren, sp_args_tokens(args@), synth_span()),
    {
        let sp = crate::span::synthetic_span();
        let toks = args_tokens_from(&args, 0);
        proof {
            assert(args@.skip(0) =~= args@);
        }
        Tree::group(Delim::Paren, toks, sp)
    }
}

/// The return type of a synthesized function.
#[derive(Debug, PartialEq)]
pub struct RetType {
    pub ty: Ty,
}

/// The token sequence a return type re-serializes to: the arrow, then the
/// type.
pub open spec fn sp_ret_tokens(rt: RetType) -> Seq<Tok> {
    seq![Tok::Punct('-', synth_span()), Tok::Punct('>', synth_span())] + sp_ty_tokens(rt.ty@)
}

impl RetType {
    /// Wraps a type as a return type.
    pub fn new(ty: Ty) -> (rt: RetType)
        ensures
            rt == (RetType { ty }),
    {
        RetType { ty }
    }

    /// Re-serializes the return type: `-`, `>`, then the type.
    pub fn to_tokens(self) -> (r: Vec<Tree>)
        ensures
            models(r@) == sp_ret_tokens(self),
    {
        let sp = crate::span::synthetic_span();
        let mut out: Vec<Tree> = Vec::new();
        out.push(Tree::punct('-', sp));
        out.push(Tree::punct('>', sp));
        let mut ty = ty_tokens(&self.ty);
        out.append(&mut ty);
        proof {
            assert(models(out@) =~= sp_ret_tokens(self));
        }
        out
    }
}

/// The body of a synthesized function; no body form is defined yet.
#[derive(Debug, PartialEq)]
pub struct FnBody {}

/// A synthesized function definition: leading markers, a name, arguments,
/// and an optional return type.
#[derive(Debug, PartialEq)]
pub struct FnDef {
    pub markers: Vec<Marker>,
    pub args: Vec<Arg>,
    pub name: String,
    pub ret_type: Option<RetType>,
    pub body: Option<FnBody>,
}

/// The token sequence a marker list re-serializes to, in order.
pub open spec fn sp_markers_tokens(s: Seq<Marker>) -> Seq<Tok>
    decreases s.len(),
{
    if s.len() <= 0 {
        Seq::empty()
    } else {
        sp_marker_tokens(s[0]) + sp_markers_tokens(s.drop_first())
    }
}

/// The token sequence a function definition re-serializes to: the markers,
/// the name, the parenthesized arguments, then the return type where one
/// was set.
pub open spec fn sp_fndef_tokens(d: FnDef) -> Seq<Tok> {
    sp_markers_tokens(d.markers@) + seq![
        Tok::Ident(d.name@, synth_span()),
        Tok::Group(Delim::Paren, sp_args_tokens(d.args@), synth_span()),
    ] + match d.ret_type {
        Some(rt) => sp_ret_tokens(rt),
        None => Seq::empty(),
    }
}

impl FnDef {
    /// Builds a definition with the given name and nothing else.
    pub fn new(name: String) -> (d: FnDef)
        ensures
            d.markers@.len() == 0,
            d.args@.len() == 0,
            d.name == name,
            d.ret_type is None,
            d.body is None,
    {
        FnDef { markers: Vec::new(), args: Vec::new(), name, ret_type: None, body: None }
    }

    /// Renames the definition.
    pub fn set_name(&mut self, nom: &str)
        ensures
            final(self).name@ == nom@,
            final(self).markers == old(self).markers,
            final(self).args == old(self).args,
            final(self).ret_type == old(self).ret_type,
            final(self).body == old(self).body,
    {
        self.name = nom.to_owned();
    }

    /// Appends one argument.
    pub fn add_arg(&mut self, arg: Arg)
        ensures
            final(self).args@ == old(self).args@.push(arg),
            final(self).markers == old(self).markers,
            final(self).name == old(self).name,
            final(self).ret_type == old(self).ret_type,
            final(self).body == old(self).body,
    {
        self.args.push(arg);
    }

    /// Sets the return type.
    pub fn set_ret_type(&mut self, ret_type: Ty)
        ensures
            final(self).ret_type == Some(RetType { ty: ret_type }),
            final(self).markers == old(self).markers,
            final(self).args == old(self).args,
            final(self).name == old(self).name,
            final(self).body == old(self).body,
    {
        self.ret_type = Some(RetType::new(ret_type));
    }

    /// Re-serializes the definition: markers, name, the argument group,
    /// and the return type where one was set.
    pub fn to_tokens(self) -> (r: Vec<Tree>)
        ensures
            models(r@) == sp_fndef_tokens(self),
    {
        fndef_tokens(&self)
    }
}

/// Re-serializes the tail of a marker list, starting at `from`.
fn markers_tokens_into(markers: &Vec<Marker>, from: usize, out: &mut Vec<Tree>)
    requires
        from <= markers@.len(),
    ensures
        models(final(out)@) == models(old(out)@) + sp_markers_tokens(markers@.skip(from as int)),
    decreases markers@.len() - from,
{
    if from == markers.len() {
        proof {
            assert(models(out@) =~= models(out@) + sp_markers_tokens(
                markers@.skip(from as int),
            ));
        }
    } else {
        marker_to_tokens(&markers[from], out);
        markers_tokens_into(markers, from + 1, out);
        proof {
            let mv = markers@.skip(from as int);
            assert(mv.drop_first() =~= markers@.skip(from + 1));
            assert(mv[0] == markers@[from as int]);
            assert(models(out@) =~= models(old(out)@) + sp_markers_tokens(mv));
        }
    }
}

/// Re-serializes one function definition without consuming it.
pub(crate) fn fndef_tokens(d: &FnDef) -> (r: Vec<Tree>)
    ensures
        models(r@) == sp_fndef_tokens(*d),
{
    let sp = crate::span::synthetic_span();
    let mut out: Vec<Tree> = Vec::new();
    markers_tokens_into(&d.markers, 0, &mut out);
    proof {
        assert(d.markers@.skip(0) =~= d.markers@);
    }
    let name_tok = Tree::ident(d.name.as_str(), sp);
    out.push(name_tok);
    let arg_toks = args_tokens_from(&d.args, 0);
    proof {
        assert(d.args@.skip(0) =~= d.args@);
    }
    out.push(Tree::group(Delim::Paren, arg_toks, sp));
    match &d.ret_type {
        None => {},
        Some(rt) => {
            out.push(Tree::punct('-', sp));
            out.push(Tree::punct('>', sp));
            let mut ty = ty_tokens(&rt.ty);
            out.append(&mut ty);
        },
    }
    proof {
        assert(models(out@) =~= sp_fndef_tokens(*d));
    }
    out
}

} // verus!
