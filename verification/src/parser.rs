use vstd::prelude::*;

use crate::error::ParserError;
use crate::generics::{generics_view, Generic};
use crate::grammar::{
    opt_list, sp_bounds, sp_fields, sp_gl_items, sp_parse_struct, sp_skip_attrs, sp_ty_tail,
    PErr,
};
use crate::lifetime::Lifetime;
use crate::span::Span;
use crate::stream::Stream;
use crate::struct_def::StructDef;
use crate::tree::{models, tok_span, Tok, Tree};
use crate::ty::{fields_view, lifetimes_view, Borrow, BorrowV, Field, Ty};

verus! {

broadcast use crate::tree::lemma_models;

/// The error kind the executable parser reports agrees with the kind the
/// grammar assigns to the input.
pub open spec fn err_matches(e: ParserError, pe: PErr) -> bool {
    match pe {
        PErr::Eof => e is UnexpectedEndOfInput,
        PErr::Bad(_) => e is UnexpectedToken,
    }
}

/// A recursive-descent parser over a token cursor, remembering the span of
/// the token it last consumed for diagnostics.
pub struct Parser {
    tkns: Stream,
    last_span: Option<Span>,
}

impl Parser {
    /// The models of the tokens under the parser.
    pub closed spec fn model(&self) -> Seq<Tok> {
        self.tkns.model()
    }

    /// The cursor position.
    pub closed spec fn pos(&self) -> int {
        self.tkns.pos()
    }

    /// The cursor never stands beyond the end of its sequence.
    pub closed spec fn wf(&self) -> bool {
        self.tkns.wf()
    }

    /// Wraps a token sequence in a parser standing at its start.
    pub fn new(stream: Vec<Tree>) -> (p: Parser)
        ensures
            p.wf(),
            p.model() == models(stream@),
            p.pos() == 0,
    {
        Parser { tkns: Stream::new(stream), last_span: None }
    }

    /// The span of the token consumed last; a zero span before the first.
    fn get_last_span(&self) -> (sp: Span) {
        match self.last_span {
            Some(sp) => sp,
            None => crate::span::synthetic_span(),
        }
    }

    /// The token under the cursor, without moving; `None` at the end.
    pub fn peek(&mut self) -> (r: Option<Tree>)
        requires
            old(self).wf(),
        ensures
            *final(self) == *old(self),
            match r {
                Some(t) => old(self).pos() < old(self).model().len() && t.model() == old(
                    self,
                ).model()[old(self).pos()],
                None => old(self).pos() >= old(self).model().len(),
            },
    {
        self.tkns.peek()
    }

    /// Returns the token under the cursor and moves one place forward;
    /// `None` at the end.
    pub fn next(&mut self) -> (r: Option<Tree>)
        requires
            old(self).wf(),
        ensures
            final(self).wf(),
            final(self).model() == old(self).model(),
            match r {
                Some(t) => old(self).pos() < old(self).model().len() && t.model() == old(
                    self,
                ).model()[old(self).pos()] && final(self).pos() == old(self).pos() + 1,
                None => old(self).pos() >= old(self).model().len() && final(self).pos() == old(
                    self,
                ).pos(),
            },
    {
        let token = self.tkns.forward();
        match &token {
            Some(t) => {
                self.last_span = Some(t.span());
            },
            None => {},
        }
        token
    }

    /// Skips one token: `next` with the result discarded.
    pub fn skip(&mut self)
        requires
            old(self).wf(),
        ensures
            final(self).wf(),
            final(self).model() == old(self).model(),
            final(self).pos() == if old(self).pos() < old(self).model().len() {
                old(self).pos() + 1
            } else {
                old(self).pos()
            },
    {
        let _ = self.next();
    }

    /// Moves one place forward, demanding a token: at the end the result is
    /// the end-of-input error instead of `None`.
    pub fn eof_next(&mut self) -> (r: Result<Tree, ParserError>)
        requires
            old(self).wf(),
        ensures
            final(self).wf(),
            final(self).model() == old(self).model(),
            match r {
                Ok(t) => old(self).pos() < old(self).model().len() && t.model() == old(
                    self,
                ).model()[old(self).pos()] && final(self).pos() == old(self).pos() + 1,
                Err(e) => old(self).pos() >= old(self).model().len() && e
                    is UnexpectedEndOfInput && final(self).pos() == old(self).pos(),
            },
    {
        match self.next() {
            None => Err(
                ParserError::UnexpectedEndOfInput(
                    "unexpected end of input".to_owned(),
                    self.get_last_span(),
                ),
            ),
            Some(tkn) => Ok(tkn),
        }
    }

    /// Moves one place back and returns the token then under the cursor;
    /// `None` at the start.
    pub fn back(&mut self) -> (r: Option<Tree>)
        requires
            old(self).wf(),
        ensures
            final(self).wf(),
            final(self).model() == old(self).model(),
            old(self).pos() == 0 ==> r is None && final(self).pos() == 0,
            old(self).pos() > 0 ==> final(self).pos() == old(self).pos() - 1 && match r {
                Some(t) => t.model() == old(self).model()[old(self).pos() - 1],
                None => false,
            },
    {
        self.tkns.back()
    }

    /// Moves `steps` places forward, all or nothing, and returns the token
    /// then under the cursor.
    pub fn next_st(&mut self, steps: usize) -> (r: Option<Tree>)
        requires
            old(self).wf(),
        ensures
            final(self).wf(),
            final(self).model() == old(self).model(),
            match r {
                Some(t) => old(self).pos() + steps < old(self).model().len() && final(self).pos()
                    == old(self).pos() + steps && t.model()
                    == old(self).model()[old(self).pos() + steps],
                None => old(self).pos() + steps >= old(self).model().len() && final(self).pos()
                    == old(self).pos(),
            },
    {
        self.tkns.forward_steps(steps)
    }

    /// Moves `steps` places back, all or nothing, and returns the token
    /// then under the cursor.
    pub fn back_st(&mut self, steps: usize) -> (r: Option<Tree>)
        requires
            old(self).wf(),
        ensures
            final(self).wf(),
            final(self).model() == old(self).model(),
            steps > old(self).pos() ==> r is None && final(self).pos() == old(self).pos(),
            steps <= old(self).pos() ==> final(self).pos() == old(self).pos() - steps && match r {
                Some(t) => old(self).pos() - steps < old(self).model().len() && t.model()
                    == old(self).model()[old(self).pos() - steps],
                None => old(self).pos() - steps >= old(self).model().len(),
            },
    {
        self.tkns.back_steps(steps)
    }

    /// Demands an identifier: consumes one token and returns its text and
    /// span, or the error naming what stood there instead.
    pub fn ident(&mut self) -> (r: Result<(String, Span), ParserError>)
        requires
            old(self).wf(),
        ensures
            final(self).wf(),
            final(self).model() == old(self).model(),
            match r {
                Ok((s, sp)) => old(self).pos() < old(self).model().len() && old(self).model()[old(
                    self,
                ).pos()] == Tok::Ident(s@, sp) && final(self).pos() == old(self).pos() + 1,
                Err(e) => match e {
                    ParserError::UnexpectedEndOfInput(_, _) => old(self).pos() >= old(
                        self,
                    ).model().len() && final(self).pos() == old(self).pos(),
                    ParserError::UnexpectedToken(_, f, sp) => old(self).pos() < old(
                        self,
                    ).model().len() && !(old(self).model()[old(self).pos()] is Ident) && f.model()
                        == old(self).model()[old(self).pos()] && sp == tok_span(
                        old(self).model()[old(self).pos()],
                    ) && final(self).pos() == old(self).pos() + 1,
                },
            },
    {
        let tkn = self.eof_next()?;
        match tkn {
            Tree::Ident(s, sp) => Ok((s, sp)),
            other => {
                let sp = other.span();
                Err(ParserError::UnexpectedToken("expected an identifier".to_owned(), other, sp))
            },
        }
    }

    /// Demands a punctuation token: consumes one token and returns its
    /// character and span, or the error naming what stood there instead.
    pub fn punct(&mut self) -> (r: Result<(char, Span), ParserError>)
        requires
            old(self).wf(),
        ensures
            final(self).wf(),
            final(self).model() == old(self).model(),
            match r {
                Ok((c, sp)) => old(self).pos() < old(self).model().len() && old(self).model()[old(
                    self,
                ).pos()] == Tok::Punct(c, sp) && final(self).pos() == old(self).pos() + 1,
                Err(e) => match e {
                    ParserError::UnexpectedEndOfInput(_, _) => old(self).pos() >= old(
                        self,
                    ).model().len() && final(self).pos() == old(self).pos(),
                    ParserError::UnexpectedToken(_, f, sp) => old(self).pos() < old(
                        self,
                    ).model().len() && !(old(self).model()[old(self).pos()] is Punct) && f.model()
                        == old(self).model()[old(self).pos()] && sp == tok_span(
                        old(self).model()[old(self).pos()],
                    ) && final(self).pos() == old(self).pos() + 1,
                },
            },
    {
        let tkn = self.eof_next()?;
        match tkn {
            Tree::Punct(c, sp) => Ok((c, sp)),
            other => {
                let sp = other.span();
                Err(ParserError::UnexpectedToken("expected punctuation".to_owned(), other, sp))
            },
        }
    }
}

impl Parser {
    /// Consumes the leading attribute identifiers up to and including the
    /// word `struct`.
    fn seek_struct_kw(&mut self) -> (r: Result<(), ParserError>)
        requires
            old(self).wf(),
        ensures
            final(self).wf(),
            final(self).model() == old(self).model(),
            match r {
                Ok(_) => sp_skip_attrs(old(self).model(), old(self).pos()) == Ok::<int, PErr>(
                    final(self).pos(),
                ),
                Err(e) => sp_skip_attrs(old(self).model(), old(self).pos()) matches Err(pe)
                    && err_matches(e, pe),
            },
    {
        let kw = String::from_str("struct");
        loop
            invariant
                self.wf(),
                self.model() == old(self).model(),
                kw@ == "struct"@,
                sp_skip_attrs(old(self).model(), old(self).pos()) == sp_skip_attrs(
                    old(self).model(),
                    self.pos(),
                ),
            decreases old(self).model().len() - self.pos(),
        {
            match self.ident() {
                Err(e) => {
                    return Err(e);
                },
                Ok((s, _)) => {
                    if s == kw {
                        return Ok(());
                    }
                },
            }
        }
    }
}

/// Parses the trait bounds of one type parameter, mirroring the grammar's
/// bound rule; the flag reports whether `>` closed the surrounding list.
fn parse_bounds(p: &mut Parser) -> (r: Result<(Vec<String>, bool), ParserError>)
    requires
        old(p).wf(),
    ensures
        final(p).wf(),
        final(p).model() == old(p).model(),
        final(p).pos() >= old(p).pos(),
        match r {
            Ok((trs, closed)) => sp_bounds(old(p).model(), old(p).pos()) == Ok::<_, PErr>(
                (crate::tree::strings_view(trs@), closed, final(p).pos()),
            ) && final(p).pos() > old(p).pos(),
            Err(e) => sp_bounds(old(p).model(), old(p).pos()) matches Err(pe) && err_matches(
                e,
                pe,
            ),
        },
    decreases old(p).model().len() - old(p).pos(),
{
    let tr = match p.ident() {
        Err(e) => {
            return Err(e);
        },
        Ok((s, _)) => s,
    };
    let (c, csp) = match p.punct() {
        Err(e) => {
            return Err(e);
        },
        Ok(v) => v,
    };
    if c == '+' {
        match parse_bounds(p) {
            Err(e) => Err(e),
            Ok((mut trs, closed)) => {
                let ghost rest0 = trs@;
                trs.insert(0, tr);
                proof {
                    assert(trs@ =~= seq![trs@[0]] + rest0);
                    assert(crate::tree::strings_view(trs@) =~= seq![tr@]
                        + crate::tree::strings_view(rest0));
                }
                Ok((trs, closed))
            },
        }
    } else if c == ',' {
        let mut trs: Vec<String> = Vec::new();
        trs.push(tr);
        proof {
            assert(crate::tree::strings_view(trs@) =~= seq![tr@]);
        }
        Ok((trs, false))
    } else if c == '>' {
        let mut trs: Vec<String> = Vec::new();
        trs.push(tr);
        proof {
            assert(crate::tree::strings_view(trs@) =~= seq![tr@]);
        }
        Ok((trs, true))
    } else {
        Err(
            ParserError::UnexpectedToken(
                "expected `+`, `,` or `>` after a trait bound".to_owned(),
                Tree::Punct(c, csp),
                csp,
            ),
        )
    }
}

/// Parses the items of a generic/lifetime list, starting just after the
/// opening `<`, into a lifetime list and a type-parameter list.
#[verifier::rlimit(100)]
fn dig_items(p: &mut Parser) -> (r: Result<(Vec<Lifetime>, Vec<Generic>), ParserError>)
    requires
        old(p).wf(),
    ensures
        final(p).wf(),
        final(p).model() == old(p).model(),
        final(p).pos() >= old(p).pos(),
        match r {
            Ok((lfs, gens)) => sp_gl_items(old(p).model(), old(p).pos()) == Ok::<_, PErr>(
                (lifetimes_view(lfs@), generics_view(gens@), final(p).pos()),
            ),
            Err(e) => sp_gl_items(old(p).model(), old(p).pos()) matches Err(pe) && err_matches(
                e,
                pe,
            ),
        },
    decreases old(p).model().len() - old(p).pos(),
{
    let ghost m = p.model();
    let ghost i = p.pos();
    let tkn = match p.eof_next() {
        Err(e) => {
            return Err(e);
        },
        Ok(t) => t,
    };
    match tkn {
        Tree::Punct(c, sp) => {
            if c == '>' {
                let lfs: Vec<Lifetime> = Vec::new();
                let gens: Vec<Generic> = Vec::new();
                proof {
                    assert(lifetimes_view(lfs@) =~= Seq::<Seq<char>>::empty());
                    assert(generics_view(gens@) =~= Seq::<crate::generics::GenericV>::empty());
                }
                Ok((lfs, gens))
            } else if c == ',' {
                dig_items(p)
            } else if c == '\'' {
                let (nm, nsp) = match p.ident() {
                    Err(e) => {
                        return Err(e);
                    },
                    Ok(v) => v,
                };
                let (c2, c2sp) = match p.punct() {
                    Err(e) => {
                        return Err(e);
                    },
                    Ok(v) => v,
                };
                if c2 == ',' {
                    match dig_items(p) {
                        Err(e) => Err(e),
                        Ok((mut lfs, gens)) => {
                            let ghost rest0 = lfs@;
                            lfs.insert(0, Lifetime::new(nm, nsp));
                            proof {
                                assert(lfs@ =~= seq![lfs@[0]] + rest0);
                                assert(lifetimes_view(lfs@) =~= seq![nm@] + lifetimes_view(
                                    rest0,
                                ));
                            }
                            Ok((lfs, gens))
                        },
                    }
                } else if c2 == '>' {
                    let mut lfs: Vec<Lifetime> = Vec::new();
                    lfs.push(Lifetime::new(nm, nsp));
                    let gens: Vec<Generic> = Vec::new();
                    proof {
                        assert(lifetimes_view(lfs@) =~= seq![nm@]);
                        assert(generics_view(gens@) =~= Seq::<crate::generics::GenericV>::empty());
                    }
                    Ok((lfs, gens))
                } else {
                    Err(
                        ParserError::UnexpectedToken(
                            "expected `,` or `>` after a lifetime".to_owned(),
                            Tree::Punct(c2, c2sp),
                            c2sp,
                        ),
                    )
                }
            } else {
                Err(
                    ParserError::UnexpectedToken(
                        "expected a lifetime, a type parameter, `,` or `>`".to_owned(),
                        Tree::Punct(c, sp),
                        sp,
                    ),
                )
            }
        },
        Tree::Ident(nm, _) => {
            let (c, csp) = match p.punct() {
                Err(e) => {
                    return Err(e);
                },
                Ok(v) => v,
            };
            if c == ':' {
                match parse_bounds(p) {
                    Err(e) => Err(e),
                    Ok((trs, closed)) => {
                        if closed {
                            let lfs: Vec<Lifetime> = Vec::new();
                            let mut gens: Vec<Generic> = Vec::new();
                            gens.push(Generic::new(Some(trs), nm));
                            proof {
                                assert(lifetimes_view(lfs@) =~= Seq::<Seq<char>>::empty());
                                assert(generics_view(gens@) =~= seq![gens@[0]@]);
                            }
                            Ok((lfs, gens))
                        } else {
                            match dig_items(p) {
                                Err(e) => Err(e),
                                Ok((lfs, mut gens)) => {
                                    let ghost rest0 = gens@;
                                    gens.insert(0, Generic::new(Some(trs), nm));
                                    proof {
                                        assert(gens@ =~= seq![gens@[0]] + rest0);
                                        assert(generics_view(gens@) =~= seq![gens@[0]@]
                                            + generics_view(rest0));
                                    }
                                    Ok((lfs, gens))
                                },
                            }
                        }
                    },
                }
            } else if c == ',' {
                match dig_items(p) {
                    Err(e) => Err(e),
                    Ok((lfs, mut gens)) => {
                        let ghost rest0 = gens@;
                        gens.insert(0, Generic::new(None, nm));
                        proof {
                            assert(gens@ =~= seq![gens@[0]] + rest0);
                            assert(generics_view(gens@) =~= seq![gens@[0]@] + generics_view(
                                rest0,
                            ));
                        }
                        Ok((lfs, gens))
                    },
                }
            } else if c == '>' {
                let lfs: Vec<Lifetime> = Vec::new();
                let mut gens: Vec<Generic> = Vec::new();
                gens.push(Generic::new(None, nm));
                proof {
                    assert(lifetimes_view(lfs@) =~= Seq::<Seq<char>>::empty());
                    assert(generics_view(gens@) =~= seq![gens@[0]@]);
                }
                Ok((lfs, gens))
            } else {
                Err(
                    ParserError::UnexpectedToken(
                        "expected `:`, `,` or `>` after a type parameter".to_owned(),
                        Tree::Punct(c, csp),
                        csp,
                    ),
                )
            }
        },
        other => {
            let sp = other.span();
            Err(
                ParserError::UnexpectedToken(
                    "expected a lifetime, a type parameter or `>`".to_owned(),
                    other,
                    sp,
                ),
            )
        },
    }
}

/// Parses a generic/lifetime list, starting just after the opening `<`, and
/// wraps each list the way the data model stores it: an empty list becomes
/// `None`.  The cursor ends just after the closing `>`.
fn dig_up_generics_lifetimes(parser: &mut Parser) -> (r: Result<
    (Option<Vec<Generic>>, Option<Vec<Lifetime>>),
    ParserError,
>)
    requires
        old(parser).wf(),
    ensures
        final(parser).wf(),
        final(parser).model() == old(parser).model(),
        final(parser).pos() >= old(parser).pos(),
        match r {
            Ok((go, lo)) => sp_gl_items(old(parser).model(), old(parser).pos()) matches Ok(
                (lfs, gens, j)
            ) && j == final(parser).pos() && (match go {
                Some(gs) => opt_list(gens) == Some(generics_view(gs@)),
                None => opt_list(gens) is None,
            }) && (match lo {
                Some(ls) => opt_list(lfs) == Some(lifetimes_view(ls@)),
                None => opt_list(lfs) is None,
            }),
            Err(e) => sp_gl_items(old(parser).model(), old(parser).pos()) matches Err(pe)
                && err_matches(e, pe),
        },
{
    match dig_items(parser) {
        Err(e) => Err(e),
        Ok((lfs, gens)) => {
            let go: Option<Vec<Generic>> = if gens.len() == 0 {
                None
            } else {
                Some(gens)
            };
            let lo: Option<Vec<Lifetime>> = if lfs.len() == 0 {
                None
            } else {
                Some(lfs)
            };
            Ok((go, lo))
        },
    }
}

/// Finishes one field once its name, the colon and the borrow parts are in
/// hand: reads the type's own generic/lifetime list where a `<` follows,
/// and assembles the field.
fn create_field(
    parser: &mut Parser,
    is_mutable: bool,
    lf_name: Option<Lifetime>,
    base_name: String,
    field_name: String,
) -> (r: Result<Field, ParserError>)
    requires
        old(parser).wf(),
    ensures
        final(parser).wf(),
        final(parser).model() == old(parser).model(),
        match r {
            Ok(f) => sp_ty_tail(
                old(parser).model(),
                old(parser).pos(),
                match lf_name {
                    Some(lf) => Some(BorrowV { mutable: is_mutable, lifetime: lf@ }),
                    None => None,
                },
                base_name@,
            ) == Ok::<_, PErr>((f@.ty, final(parser).pos())) && f@.name == field_name@
                && final(parser).pos() >= old(parser).pos(),
            Err(e) => sp_ty_tail(
                old(parser).model(),
                old(parser).pos(),
                match lf_name {
                    Some(lf) => Some(BorrowV { mutable: is_mutable, lifetime: lf@ }),
                    None => None,
                },
                base_name@,
            ) matches Err(pe) && err_matches(e, pe),
        },
{
    let borrow: Option<Borrow> = match lf_name {
        None => None,
        Some(lf) => Some(Borrow::new(is_mutable, lf)),
    };
    let has_markers = self_peek_lt(parser);
    if has_markers {
        parser.skip();
        match dig_up_generics_lifetimes(parser) {
            Err(e) => Err(e),
            Ok((go, lo)) => {
                let ty = Ty::new(borrow, base_name, go, lo);
                Ok(Field::new(ty, field_name))
            },
        }
    } else {
        let ty = Ty::new(borrow, base_name, None, None);
        Ok(Field::new(ty, field_name))
    }
}

/// True when the token under the cursor is the punctuation `<`.
fn self_peek_lt(p: &mut Parser) -> (r: bool)
    requires
        old(p).wf(),
    ensures
        *final(p) == *old(p),
        r == (old(p).pos() < old(p).model().len() && crate::grammar::tok_is_punct(
            old(p).model()[old(p).pos()],
            '<',
        )),
{
    match p.peek() {
        Some(t) => match t {
            Tree::Punct(c, _) => c == '<',
            _ => false,
        },
        None => false,
    }
}

/// Parses the body of a field group to its end: `name : type` pairs joined
/// by commas, a trailing comma tolerated, an empty body valid.
#[verifier::rlimit(100)]
fn parse_fields(p: &mut Parser) -> (r: Result<Vec<Field>, ParserError>)
    requires
        old(p).wf(),
    ensures
        final(p).wf(),
        final(p).model() == old(p).model(),
        match r {
            Ok(fs) => sp_fields(old(p).model(), old(p).pos()) == Ok::<_, PErr>(
                fields_view(fs@),
            ),
            Err(e) => sp_fields(old(p).model(), old(p).pos()) matches Err(pe) && err_matches(
                e,
                pe,
            ),
        },
    decreases old(p).model().len() - old(p).pos(),
{
    let ghost m = p.model();
    let ghost i = p.pos();
    let at_end = match p.peek() {
        None => true,
        Some(_) => false,
    };
    if at_end {
        let fs: Vec<Field> = Vec::new();
        proof {
            assert(fields_view(fs@) =~= Seq::<crate::ty::FieldV>::empty());
        }
        return Ok(fs);
    }
    let (fname, _) = match p.ident() {
        Err(e) => {
            return Err(e);
        },
        Ok(v) => v,
    };
    let (c, csp) = match p.punct() {
        Err(e) => {
            return Err(e);
        },
        Ok(v) => v,
    };
    if c != ':' {
        return Err(
            ParserError::UnexpectedToken(
                "expected `:` after a field name".to_owned(),
                Tree::Punct(c, csp),
                csp,
            ),
        );
    }
    let tkn = match p.eof_next() {
        Err(e) => {
            return Err(e);
        },
        Ok(t) => t,
    };
    let field = match tkn {
        Tree::Ident(base, _) => {
            match create_field(p, false, None, base, fname) {
                Err(e) => {
                    return Err(e);
                },
                Ok(f) => f,
            }
        },
        Tree::Punct(c2, sp2) => {
            if c2 == '&' {
                let (c3, c3sp) = match p.punct() {
                    Err(e) => {
                        return Err(e);
                    },
                    Ok(v) => v,
                };
                if c3 != '\'' {
                    return Err(
                        ParserError::UnexpectedToken(
                            "expected `'` after `&`".to_owned(),
                            Tree::Punct(c3, c3sp),
                            c3sp,
                        ),
                    );
                }
                let (lfname, lfsp) = match p.ident() {
                    Err(e) => {
                        return Err(e);
                    },
                    Ok(v) => v,
                };
                let after = match p.eof_next() {
                    Err(e) => {
                        return Err(e);
                    },
                    Ok(t) => t,
                };
                match after {
                    Tree::Ident(b2, _) => {
                        let mut_kw = String::from_str("mut");
                        if b2 == mut_kw {
                            let (base, _) = match p.ident() {
                                Err(e) => {
                                    return Err(e);
                                },
                                Ok(v) => v,
                            };
                            match create_field(
                                p,
                                true,
                                Some(Lifetime::new(lfname, lfsp)),
                                base,
                                fname,
                            ) {
                                Err(e) => {
                                    return Err(e);
                                },
                                Ok(f) => f,
                            }
                        } else {
                            match create_field(
                                p,
                                false,
                                Some(Lifetime::new(lfname, lfsp)),
                                b2,
                                fname,
                            ) {
                                Err(e) => {
                                    return Err(e);
                                },
                                Ok(f) => f,
                            }
                        }
                    },
                    other => {
                        let sp = other.span();
                        return Err(
                            ParserError::UnexpectedToken(
                                "expected a type name after the borrow".to_owned(),
                                other,
                                sp,
                            ),
                        );
                    },
                }
            } else {
                return Err(
                    ParserError::UnexpectedToken(
                        "expected a type name or `&`".to_owned(),
                        Tree::Punct(c2, sp2),
                        sp2,
                    ),
                );
            }
        },
        other => {
            let sp = other.span();
            return Err(
                ParserError::UnexpectedToken("expected a type name or `&`".to_owned(), other, sp),
            );
        },
    };
    let at_end2 = match p.peek() {
        None => true,
        Some(_) => false,
    };
    if at_end2 {
        let mut fs: Vec<Field> = Vec::new();
        fs.push(field);
        proof {
            assert(fields_view(fs@) =~= seq![fs@[0]@]);
        }
        return Ok(fs);
    }
    let sep = match p.peek() {
        None => {
            return Err(
                ParserError::UnexpectedEndOfInput(
                    "unexpected end of input".to_owned(),
                    crate::span::synthetic_span(),
                ),
            );
        },
        Some(t) => t,
    };
    match sep {
        Tree::Punct(c4, _) => {
            if c4 == ',' {
                p.skip();
                match parse_fields(p) {
                    Err(e) => Err(e),
                    Ok(mut rest) => {
                        let ghost rest0 = rest@;
                        rest.insert(0, field);
                        proof {
                            assert(rest@ =~= seq![rest@[0]] + rest0);
                            assert(fields_view(rest@) =~= seq![rest@[0]@] + fields_view(
                                rest0,
                            ));
                        }
                        Ok(rest)
                    },
                }
            } else {
                let sp = sep.span();
                Err(
                    ParserError::UnexpectedToken(
                        "expected `,` between fields".to_owned(),
                        sep,
                        sp,
                    ),
                )
            }
        },
        other => {
            let sp = other.span();
            Err(ParserError::UnexpectedToken("expected `,` between fields".to_owned(), other, sp))
        },
    }
}

impl Parser {
    /// Parses a struct definition from the start of the stream: attributes,
    /// the `struct` keyword, the name, an optional generic/lifetime list,
    /// and the brace group of fields.  The first failure aborts the parse
    /// and is returned unchanged; no partial definition is ever produced.
    #[verifier::rlimit(100)]
    pub fn parse_struct(&mut self) -> (r: Result<StructDef, ParserError>)
        requires
            old(self).wf(),
            old(self).pos() == 0,
        ensures
            final(self).wf(),
            match r {
                Ok(d) => sp_parse_struct(old(self).model()) == Ok::<_, PErr>(d@),
                Err(e) => sp_parse_struct(old(self).model()) matches Err(pe) && err_matches(
                    e,
                    pe,
                ),
            },
    {
        let ghost m = self.model();
        match self.seek_struct_kw() {
            Err(e) => {
                return Err(e);
            },
            Ok(_) => {},
        }
        let (name, _) = match self.ident() {
            Err(e) => {
                return Err(e);
            },
            Ok(v) => v,
        };
        let tkn = match self.eof_next() {
            Err(e) => {
                return Err(e);
            },
            Ok(t) => t,
        };
        match tkn {
            Tree::Group(_, inner, _) => {
                let mut gp = Parser::new(inner);
                match parse_fields(&mut gp) {
                    Err(e) => Err(e),
                    Ok(fields) => Ok(StructDef::new(fields, name, None, None)),
                }
            },
            Tree::Punct(c, sp) => {
                if c == '<' {
                    let (go, lo) = match dig_up_generics_lifetimes(self) {
                        Err(e) => {
                            return Err(e);
                        },
                        Ok(v) => v,
                    };
                    let tkn2 = match self.eof_next() {
                        Err(e) => {
                            return Err(e);
                        },
                        Ok(t) => t,
                    };
                    match tkn2 {
                        Tree::Group(_, inner, _) => {
                            let mut gp = Parser::new(inner);
                            match parse_fields(&mut gp) {
                                Err(e) => Err(e),
                                Ok(fields) => Ok(StructDef::new(fields, name, go, lo)),
                            }
                        },
                        other => {
                            let osp = other.span();
                            Err(
                                ParserError::UnexpectedToken(
                                    "expected the field group".to_owned(),
                                    other,
                                    osp,
                                ),
                            )
                        },
                    }
                } else {
                    Err(
                        ParserError::UnexpectedToken(
                            "expected `<` or the field group".to_owned(),
                            Tree::Punct(c, sp),
                            sp,
                        ),
                    )
                }
            },
            other => {
                let osp = other.span();
                Err(
                    ParserError::UnexpectedToken(
                        "expected `<` or the field group".to_owned(),
                        other,
                        osp,
                    ),
                )
            },
        }
    }
}

} // verus!
