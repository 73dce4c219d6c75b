use vstd::prelude::*;

use crate::generics::GenericV;
use crate::struct_def::StructDefV;
use crate::tree::Tok;
use crate::ty::{BorrowV, FieldV, TyV};

verus! {

/// How a grammar rule fails: the stream ended while a rule still expected a
/// token, or the token at the given index matched no alternative.
pub enum PErr {
    Eof,
    Bad(int),
}

/// True when the token is the given punctuation character.
pub open spec fn tok_is_punct(t: Tok, c: char) -> bool {
    match t {
        Tok::Punct(c2, _) => c2 == c,
        _ => false,
    }
}

/// Wraps a parsed list the way the data model stores it: an empty list was
/// never present, a non-empty one is kept.
pub open spec fn opt_list<T>(s: Seq<T>) -> Option<Seq<T>> {
    if s.len() == 0 {
        None
    } else {
        Some(s)
    }
}

/// Consumes identifiers (the leading attributes) until the literal word
/// `struct`; the result is the index just after that keyword.
pub open spec fn sp_skip_attrs(ts: Seq<Tok>, i: int) -> Result<int, PErr>
    decreases ts.len() - i,
{
    if i >= ts.len() {
        Err(PErr::Eof)
    } else {
        match ts[i] {
            Tok::Ident(s, _) => if s == "struct"@ {
                Ok(i + 1)
            } else {
                sp_skip_attrs(ts, i + 1)
            },
            _ => Err(PErr::Bad(i)),
        }
    }
}

/// Parses the trait bounds of one type parameter, starting at the first
/// trait name: one or more identifiers joined by `+`, closed by `,` (more
/// list items follow) or `>` (the list ends).  The result carries the trait
/// names, whether `>` closed the list, and the index after the closer.
pub open spec fn sp_bounds(ts: Seq<Tok>, i: int) -> Result<(Seq<Seq<char>>, bool, int), PErr>
    decreases ts.len() - i,
{
    if i >= ts.len() {
        Err(PErr::Eof)
    } else {
        match ts[i] {
            Tok::Ident(tr, _) => {
                if i + 1 >= ts.len() {
                    Err(PErr::Eof)
                } else {
                    match ts[i + 1] {
                        Tok::Punct(c, _) => if c == '+' {
                            match sp_bounds(ts, i + 2) {
                                Ok((rest, closed, j)) => Ok((seq![tr] + rest, closed, j)),
                                Err(e) => Err(e),
                            }
                        } else if c == ',' {
                            Ok((seq![tr], false, i + 2))
                        } else if c == '>' {
                            Ok((seq![tr], true, i + 2))
                        } else {
                            Err(PErr::Bad(i + 1))
                        },
                        _ => Err(PErr::Bad(i + 1)),
                    }
                }
            },
            _ => Err(PErr::Bad(i)),
        }
    }
}

/// Parses a generic/lifetime list, starting just after the opening `<`.
/// Each item is a lifetime (`'` and a name) or a type parameter (a name
/// with optional bounds); items end with `,` (continue) or `>` (stop); a
/// bare `,` is skipped.  The result keeps the lifetimes and the type
/// parameters in their own lists, each in source order, and the index just
/// after the closing `>`.
pub open spec fn sp_gl_items(ts: Seq<Tok>, i: int) -> Result<
    (Seq<Seq<char>>, Seq<GenericV>, int),
    PErr,
>
    decreases ts.len() - i,
{
    if i >= ts.len() {
        Err(PErr::Eof)
    } else {
        match ts[i] {
            Tok::Punct(c, _) => if c == '>' {
                Ok((Seq::empty(), Seq::empty(), i + 1))
            } else if c == ',' {
                sp_gl_items(ts, i + 1)
            } else if c == '\'' {
                if i + 1 >= ts.len() {
                    Err(PErr::Eof)
                } else {
                    match ts[i + 1] {
                        Tok::Ident(nm, _) => {
                            if i + 2 >= ts.len() {
                                Err(PErr::Eof)
                            } else {
                                match ts[i + 2] {
                                    Tok::Punct(c2, _) => if c2 == ',' {
                                        match sp_gl_items(ts, i + 3) {
                                            Ok((lfs, gens, j)) => Ok((seq![nm] + lfs, gens, j)),
                                            Err(e) => Err(e),
                                        }
                                    } else if c2 == '>' {
                                        Ok((seq![nm], Seq::empty(), i + 3))
                                    } else {
                                        Err(PErr::Bad(i + 2))
                                    },
                                    _ => Err(PErr::Bad(i + 2)),
                                }
                            }
                        },
                        _ => Err(PErr::Bad(i + 1)),
                    }
                }
            } else {
                Err(PErr::Bad(i))
            },
            Tok::Ident(nm, _) => {
                if i + 1 >= ts.len() {
                    Err(PErr::Eof)
                } else {
                    match ts[i + 1] {
                        Tok::Punct(c, _) => if c == ':' {
                            match sp_bounds(ts, i + 2) {
                                Ok((trs, closed, j)) => if closed {
                                    Ok(
                                        (
                                            Seq::empty(),
                                            seq![GenericV { name: nm, traits: Some(trs) }],
                                            j,
                                        ),
                                    )
                                } else if i < j <= ts.len() {
                                    match sp_gl_items(ts, j) {
                                        Ok((lfs, gens, k)) => Ok(
                                            (
                                                lfs,
                                                seq![GenericV { name: nm, traits: Some(trs) }]
                                                    + gens,
                                                k,
                                            ),
                                        ),
                                        Err(e) => Err(e),
                                    }
                                } else {
                                    // bounds always advance the index; this alternative is
                                    // unreachable and only makes the recursion measure evident
                                    Err(PErr::Bad(j))
                                },
                                Err(e) => Err(e),
                            }
                        } else if c == ',' {
                            match sp_gl_items(ts, i + 2) {
                                Ok((lfs, gens, j)) => Ok(
                                    (lfs, seq![GenericV { name: nm, traits: None }] + gens, j),
                                ),
                                Err(e) => Err(e),
                            }
                        } else if c == '>' {
                            Ok((Seq::empty(), seq![GenericV { name: nm, traits: None }], i + 2))
                        } else {
                            Err(PErr::Bad(i + 1))
                        },
                        _ => Err(PErr::Bad(i + 1)),
                    }
                }
            },
            _ => Err(PErr::Bad(i)),
        }
    }
}

/// Parses what follows a type's base name: where a `<` stands next, the
/// type's own generic/lifetime list; otherwise the type is complete.
pub open spec fn sp_ty_tail(ts: Seq<Tok>, i: int, borrow: Option<BorrowV>, base: Seq<char>) -> Result<
    (TyV, int),
    PErr,
> {
    if i < ts.len() && tok_is_punct(ts[i], '<') {
        match sp_gl_items(ts, i + 1) {
            Ok((lfs, gens, j)) => Ok(
                (TyV { borrow, base, generics: opt_list(gens), lifetimes: opt_list(lfs) }, j),
            ),
            Err(e) => Err(e),
        }
    } else {
        Ok((TyV { borrow, base, generics: None, lifetimes: None }, i))
    }
}

/// Parses a type reference starting at `i`: either a plain base name, or
/// `&`, an apostrophe, a lifetime name, an optional `mut`, and the base
/// name; either form may end in its own `<` generic/lifetime list `>`.
pub open spec fn sp_ty(ts: Seq<Tok>, i: int) -> Result<(TyV, int), PErr> {
    if i >= ts.len() {
        Err(PErr::Eof)
    } else {
        match ts[i] {
            Tok::Ident(base, _) => sp_ty_tail(ts, i + 1, None, base),
            Tok::Punct(c, _) => if c == '&' {
                if i + 1 >= ts.len() {
                    Err(PErr::Eof)
                } else if !tok_is_punct(ts[i + 1], '\'') {
                    Err(PErr::Bad(i + 1))
                } else if i + 2 >= ts.len() {
                    Err(PErr::Eof)
                } else {
                    match ts[i + 2] {
                        Tok::Ident(lf, _) => {
                            if i + 3 >= ts.len() {
                                Err(PErr::Eof)
                            } else {
                                match ts[i + 3] {
                                    Tok::Ident(b2, _) => if b2 == "mut"@ {
                                        if i + 4 >= ts.len() {
                                            Err(PErr::Eof)
                                        } else {
                                            match ts[i + 4] {
                                                Tok::Ident(base, _) => sp_ty_tail(
                                                    ts,
                                                    i + 5,
                                                    Some(BorrowV { mutable: true, lifetime: lf }),
                                                    base,
                                                ),
                                                _ => Err(PErr::Bad(i + 4)),
                                            }
                                        }
                                    } else {
                                        sp_ty_tail(
                                            ts,
                                            i + 4,
                                            Some(BorrowV { mutable: false, lifetime: lf }),
                                            b2,
                                        )
                                    },
                                    _ => Err(PErr::Bad(i + 3)),
                                }
                            }
                        },
                        _ => Err(PErr::Bad(i + 2)),
                    }
                }
            } else {
                Err(PErr::Bad(i))
            },
            _ => Err(PErr::Bad(i)),
        }
    }
}

/// Parses the body of the field group from `i` to its end: `name : type`
/// pairs joined by `,`, a trailing comma tolerated, an empty body valid.
pub open spec fn sp_fields(ts: Seq<Tok>, i: int) -> Result<Seq<FieldV>, PErr>
    decreases ts.len() - i,
{
    if i >= ts.len() {
        Ok(Seq::empty())
    } else {
        match ts[i] {
            Tok::Ident(fname, _) => {
                if i + 1 >= ts.len() {
                    Err(PErr::Eof)
                } else if !tok_is_punct(ts[i + 1], ':') {
                    Err(PErr::Bad(i + 1))
                } else {
                    match sp_ty(ts, i + 2) {
                        Ok((ty, j)) => {
                            if j >= ts.len() {
                                Ok(seq![FieldV { name: fname, ty }])
                            } else if tok_is_punct(ts[j], ',') {
                                if i < j {
                                    match sp_fields(ts, j + 1) {
                                        Ok(rest) => Ok(seq![FieldV { name: fname, ty }] + rest),
                                        Err(e) => Err(e),
                                    }
                                } else {
                                    // a type always advances the index; this alternative is
                                    // unreachable and only makes the recursion measure evident
                                    Err(PErr::Bad(j))
                                }
                            } else {
                                Err(PErr::Bad(j))
                            }
                        },
                        Err(e) => Err(e),
                    }
                }
            },
            _ => Err(PErr::Bad(i)),
        }
    }
}

/// Parses a whole struct definition: leading attribute identifiers up to
/// the word `struct`, the name, an optional `<` generic/lifetime list `>`,
/// and the brace group of fields.
pub open spec fn sp_parse_struct(ts: Seq<Tok>) -> Result<StructDefV, PErr> {
    match sp_skip_attrs(ts, 0) {
        Err(e) => Err(e),
        Ok(i) => {
            if i >= ts.len() {
                Err(PErr::Eof)
            } else {
                match ts[i] {
                    Tok::Ident(name, _) => {
                        if i + 1 >= ts.len() {
                            Err(PErr::Eof)
                        } else {
                            match ts[i + 1] {
                                Tok::Group(_, inner, _) => match sp_fields(inner, 0) {
                                    Ok(fs) => Ok(
                                        StructDefV {
                                            name,
                                            fields: fs,
                                            generics: None,
                                            lifetimes: None,
                                        },
                                    ),
                                    Err(e) => Err(e),
                                },
                                Tok::Punct(c, _) => if c == '<' {
                                    match sp_gl_items(ts, i + 2) {
                                        Err(e) => Err(e),
                                        Ok((lfs, gens, j)) => {
                                            if j >= ts.len() {
                                                Err(PErr::Eof)
                                            } else {
                                                match ts[j] {
                                                    Tok::Group(_, inner, _) => match sp_fields(
                                                        inner,
                                                        0,
                                                    ) {
                                                        Ok(fs) => Ok(
                                                            StructDefV {
                                                                name,
                                                                fields: fs,
                                                                generics: opt_list(gens),
                                                                lifetimes: opt_list(lfs),
                                                            },
                                                        ),
                                                        Err(e) => Err(e),
                                                    },
                                                    _ => Err(PErr::Bad(j)),
                                                }
                                            }
                                        },
                                    }
                                } else {
                                    Err(PErr::Bad(i + 1))
                                },
                                _ => Err(PErr::Bad(i + 1)),
                            }
                        }
                    },
                    _ => Err(PErr::Bad(i)),
                }
            }
        },
    }
}

/// A type parameter whose bound list, where present, is not empty.
pub open spec fn wf_generic(g: GenericV) -> bool {
    g.traits matches Some(trs) ==> trs.len() > 0
}

/// A type reference the re-emitted form of which parses back to itself: an
/// immutably borrowed base may not be named `mut`, and the optional lists,
/// where present, are not empty and hold well-formed parameters.
pub open spec fn wf_ty(t: TyV) -> bool {
    &&& (t.borrow matches Some(b) ==> b.mutable || t.base != "mut"@)
    &&& (t.generics matches Some(gs) ==> gs.len() > 0 && forall|i: int|
        0 <= i < gs.len() ==> wf_generic(#[trigger] gs[i]))
    &&& (t.lifetimes matches Some(ls) ==> ls.len() > 0)
}

/// A struct definition the re-emitted form of which parses back to itself.
pub open spec fn wf_struct(d: StructDefV) -> bool {
    &&& (d.generics matches Some(gs) ==> gs.len() > 0 && forall|i: int|
        0 <= i < gs.len() ==> wf_generic(#[trigger] gs[i]))
    &&& (d.lifetimes matches Some(ls) ==> ls.len() > 0)
    &&& forall|i: int| 0 <= i < d.fields.len() ==> wf_ty(#[trigger] d.fields[i].ty)
}

} // verus!
