//! The laws that tie re-emission and parsing together: a well-formed
//! definition, re-serialized and parsed again, comes back unchanged, and
//! every truncation of the re-serialized form fails with the end-of-input
//! error, never with a partial result.

use vstd::prelude::*;

use crate::generics::{sp_bounds_tokens, sp_generic_tokens, GenericV};
use crate::grammar::{
    opt_list, sp_bounds, sp_fields, sp_gl_items, sp_parse_struct, sp_skip_attrs, sp_ty, sp_ty_tail,
    tok_is_punct, wf_generic, wf_struct, wf_ty, PErr,
};
use crate::lifetime::sp_lifetime_tokens;
use crate::span::synth_span;
use crate::struct_def::{sp_fields_tokens, sp_struct_tokens, StructDefV};
use crate::tree::Tok;
use crate::ty::{opt_items, sp_borrow_tokens, sp_gl_tokens, sp_ty_tokens, TyV};

verus! {

/// The sequence `seg` stands in `ts` beginning at index `i`.
pub open spec fn seg_at(ts: Seq<Tok>, i: int, seg: Seq<Tok>) -> bool {
    0 <= i && i + seg.len() <= ts.len() && ts.subrange(i, i + seg.len()) == seg
}

/// An element of a segment is the element of the host at the shifted index.
proof fn lemma_seg_index(ts: Seq<Tok>, i: int, seg: Seq<Tok>, k: int)
    requires
        seg_at(ts, i, seg),
        0 <= k < seg.len(),
    ensures
        ts[i + k] == seg[k],
{
    assert(ts.subrange(i, i + seg.len())[k] == ts[i + k]);
}

/// A segment made of two parts splits into a segment for each part.
proof fn lemma_seg_split(ts: Seq<Tok>, i: int, a: Seq<Tok>, b: Seq<Tok>)
    requires
        seg_at(ts, i, a + b),
    ensures
        seg_at(ts, i, a),
        seg_at(ts, i + a.len(), b),
{
    assert forall|k: int| 0 <= k < a.len() implies ts.subrange(i, i + a.len())[k] == a[k] by {
        lemma_seg_index(ts, i, a + b, k);
        assert((a + b)[k] == a[k]);
    }
    assert(ts.subrange(i, i + a.len()) =~= a);
    assert forall|k: int| 0 <= k < b.len() implies ts.subrange(
        i + a.len(),
        i + a.len() + b.len(),
    )[k] == b[k] by {
        lemma_seg_index(ts, i, a + b, a.len() + k);
        assert((a + b)[a.len() + k] == b[k]);
    }
    assert(ts.subrange(i + a.len(), i + a.len() + b.len()) =~= b);
}

/// Parsing a re-emitted bound list finds exactly the emitted trait names,
/// reports whether `>` closed the list, and stops just after the closer.
proof fn lemma_rt_bounds(ts: Seq<Tok>, i: int, trs: Seq<Seq<char>>, sep: char)
    requires
        trs.len() > 0,
        sep == ',' || sep == '>',
        seg_at(ts, i, sp_bounds_tokens(trs)),
        i + sp_bounds_tokens(trs).len() < ts.len(),
        tok_is_punct(ts[i + sp_bounds_tokens(trs).len()], sep),
    ensures
        sp_bounds(ts, i) == Ok::<_, PErr>(
            (trs, sep == '>', i + sp_bounds_tokens(trs).len() + 1),
        ),
    decreases trs.len(),
{
    let bt = sp_bounds_tokens(trs);
    lemma_seg_index(ts, i, bt, 0);
    assert(ts[i] == Tok::Ident(trs[0], synth_span()));
    if trs.len() == 1 {
        assert(bt.len() == 1);
        assert(seq![trs[0]] =~= trs);
    } else {
        lemma_seg_index(ts, i, bt, 1);
        assert(bt == seq![
            Tok::Ident(trs[0], synth_span()),
            Tok::Punct('+', synth_span()),
        ] + sp_bounds_tokens(trs.drop_first()));
        assert(ts[i + 1] == Tok::Punct('+', synth_span()));
        lemma_seg_split(
            ts,
            i,
            seq![Tok::Ident(trs[0], synth_span()), Tok::Punct('+', synth_span())],
            sp_bounds_tokens(trs.drop_first()),
        );
        lemma_rt_bounds(ts, i + 2, trs.drop_first(), sep);
        assert(seq![trs[0]] + trs.drop_first() =~= trs);
    }
}

/// Parsing a re-emitted generic/lifetime list finds exactly the emitted
/// lifetimes and type parameters, each list in order, and stops just after
/// the closing `>`.
proof fn lemma_rt_gl(ts: Seq<Tok>, i: int, lfs: Seq<Seq<char>>, gens: Seq<GenericV>)
    requires
        forall|k: int| 0 <= k < gens.len() ==> wf_generic(#[trigger] gens[k]),
        seg_at(ts, i, sp_gl_tokens(lfs, gens)),
    ensures
        sp_gl_items(ts, i) == Ok::<_, PErr>((lfs, gens, i + sp_gl_tokens(lfs, gens).len())),
    decreases lfs.len() + gens.len(),
{
    let gl = sp_gl_tokens(lfs, gens);
    if lfs.len() > 0 {
        let item = sp_lifetime_tokens(lfs[0]);
        lemma_seg_index(ts, i, gl, 0);
        lemma_seg_index(ts, i, gl, 1);
        assert(ts[i] == Tok::Punct('\'', synth_span()));
        assert(ts[i + 1] == Tok::Ident(lfs[0], synth_span()));
        if lfs.len() == 1 && gens.len() == 0 {
            lemma_seg_index(ts, i, gl, 2);
            assert(ts[i + 2] == Tok::Punct('>', synth_span()));
            assert(seq![lfs[0]] =~= lfs);
            assert(Seq::<GenericV>::empty() =~= gens);
        } else {
            lemma_seg_index(ts, i, gl, 2);
            assert(gl == (item + seq![Tok::Punct(',', synth_span())]) + sp_gl_tokens(
                lfs.drop_first(),
                gens,
            )) by {
                assert(item + seq![Tok::Punct(',', synth_span())] + sp_gl_tokens(
                    lfs.drop_first(),
                    gens,
                ) =~= (item + seq![Tok::Punct(',', synth_span())]) + sp_gl_tokens(
                    lfs.drop_first(),
                    gens,
                ));
            }
            assert(ts[i + 2] == Tok::Punct(',', synth_span()));
            lemma_seg_split(
                ts,
                i,
                item + seq![Tok::Punct(',', synth_span())],
                sp_gl_tokens(lfs.drop_first(), gens),
            );
            lemma_rt_gl(ts, i + 3, lfs.drop_first(), gens);
            assert(seq![lfs[0]] + lfs.drop_first() =~= lfs);
        }
    } else if gens.len() > 0 {
        let g0 = gens[0];
        let item = sp_generic_tokens(g0);
        let closer = if gens.len() == 1 {
            seq![Tok::Punct('>', synth_span())]
        } else {
            seq![Tok::Punct(',', synth_span())]
        };
        let sep: char = if gens.len() == 1 {
            '>'
        } else {
            ','
        };
        assert(gl == (item + closer) + if gens.len() == 1 {
            Seq::<Tok>::empty()
        } else {
            sp_gl_tokens(lfs, gens.drop_first())
        }) by {
            if gens.len() == 1 {
                assert(gl =~= (item + closer) + Seq::<Tok>::empty());
            } else {
                assert(gl =~= (item + closer) + sp_gl_tokens(lfs, gens.drop_first()));
            }
        }
        lemma_seg_split(ts, i, item + closer, if gens.len() == 1 {
            Seq::<Tok>::empty()
        } else {
            sp_gl_tokens(lfs, gens.drop_first())
        });
        lemma_seg_split(ts, i, item, closer);
        lemma_seg_index(ts, i, item, 0);
        assert(ts[i] == Tok::Ident(g0.name, synth_span()));
        lemma_seg_index(ts, i + item.len(), closer, 0);
        assert(ts[i + item.len()] == Tok::Punct(sep, synth_span()));
        match g0.traits {
            None => {
                assert(item.len() == 1);
                if gens.len() == 1 {
                    assert(ts[i + 1] == Tok::Punct('>', synth_span()));
                    assert(seq![g0] =~= gens);
                    assert(Seq::<Seq<char>>::empty() =~= lfs);
                    assert(GenericV { name: g0.name, traits: None } == g0);
                } else {
                    assert(ts[i + 1] == Tok::Punct(',', synth_span()));
                    lemma_rt_gl(ts, i + 2, lfs, gens.drop_first());
                    assert(seq![GenericV { name: g0.name, traits: None }] + gens.drop_first()
                        =~= gens);
                }
            },
            Some(trs) => {
                assert(wf_generic(g0));
                assert(trs.len() > 0);
                assert(item == seq![
                    Tok::Ident(g0.name, synth_span()),
                    Tok::Punct(':', synth_span()),
                ] + sp_bounds_tokens(trs));
                lemma_seg_index(ts, i, item, 1);
                assert(ts[i + 1] == Tok::Punct(':', synth_span()));
                lemma_seg_split(
                    ts,
                    i,
                    seq![Tok::Ident(g0.name, synth_span()), Tok::Punct(':', synth_span())],
                    sp_bounds_tokens(trs),
                );
                lemma_rt_bounds(ts, i + 2, trs, sep);
                let j = i + 2 + sp_bounds_tokens(trs).len() + 1;
                assert(j == i + item.len() + 1);
                if gens.len() == 1 {
                    assert(sp_bounds(ts, i + 2) == Ok::<_, PErr>((trs, true, j)));
                    assert(seq![GenericV { name: g0.name, traits: Some(trs) }] =~= gens);
                    assert(Seq::<Seq<char>>::empty() =~= lfs);
                } else {
                    assert(sp_bounds(ts, i + 2) == Ok::<_, PErr>((trs, false, j)));
                    lemma_rt_gl(ts, j, lfs, gens.drop_first());
                    assert(seq![GenericV { name: g0.name, traits: Some(trs) }]
                        + gens.drop_first() =~= gens);
                }
            },
        }
    } else {
        lemma_seg_index(ts, i, gl, 0);
        assert(ts[i] == Tok::Punct('>', synth_span()));
        assert(lfs =~= Seq::<Seq<char>>::empty());
        assert(gens =~= Seq::<GenericV>::empty());
    }
}

/// Parsing a re-emitted type reference finds exactly the emitted type and
/// stops just after its tokens, provided no stray `<` follows them.
proof fn lemma_rt_ty(ts: Seq<Tok>, i: int, t: TyV)
    requires
        wf_ty(t),
        seg_at(ts, i, sp_ty_tokens(t)),
        i + sp_ty_tokens(t).len() < ts.len() ==> !tok_is_punct(
            ts[i + sp_ty_tokens(t).len()],
            '<',
        ),
    ensures
        sp_ty(ts, i) == Ok::<_, PErr>((t, i + sp_ty_tokens(t).len())),
{
    let tt = sp_ty_tokens(t);
    let btoks = match t.borrow {
        Some(b) => sp_borrow_tokens(b),
        None => Seq::<Tok>::empty(),
    };
    let base_tok = seq![Tok::Ident(t.base, synth_span())];
    let has_gl = t.generics is Some || t.lifetimes is Some;
    let gltoks = if has_gl {
        seq![Tok::Punct('<', synth_span())] + sp_gl_tokens(
            opt_items(t.lifetimes),
            opt_items(t.generics),
        )
    } else {
        Seq::<Tok>::empty()
    };
    assert(tt == (btoks + base_tok) + gltoks) by {
        assert(tt =~= (btoks + base_tok) + gltoks);
    }
    lemma_seg_split(ts, i, btoks + base_tok, gltoks);
    lemma_seg_split(ts, i, btoks, base_tok);
    let bpos = i + btoks.len();
    lemma_seg_index(ts, bpos, base_tok, 0);
    assert(ts[bpos] == Tok::Ident(t.base, synth_span()));
    match t.borrow {
        None => {
            assert(btoks.len() == 0);
        },
        Some(b) => {
            let mut_toks = if b.mutable {
                seq![Tok::Ident("mut"@, synth_span())]
            } else {
                Seq::<Tok>::empty()
            };
            assert(btoks == (seq![Tok::Punct('&', synth_span())] + sp_lifetime_tokens(b.lifetime))
                + mut_toks) by {
                assert(btoks =~= (seq![Tok::Punct('&', synth_span())] + sp_lifetime_tokens(
                    b.lifetime,
                )) + mut_toks);
            }
            lemma_seg_index(ts, i, btoks, 0);
            lemma_seg_index(ts, i, btoks, 1);
            lemma_seg_index(ts, i, btoks, 2);
            assert(ts[i] == Tok::Punct('&', synth_span()));
            assert(ts[i + 1] == Tok::Punct('\'', synth_span()));
            assert(ts[i + 2] == Tok::Ident(b.lifetime, synth_span()));
            if b.mutable {
                lemma_seg_index(ts, i, btoks, 3);
                assert(ts[i + 3] == Tok::Ident("mut"@, synth_span()));
                assert(bpos == i + 4);
            } else {
                assert(bpos == i + 3);
                assert(t.base != "mut"@);
            }
        },
    }
    if has_gl {
        lemma_seg_index(ts, i + (btoks + base_tok).len(), gltoks, 0);
        assert(ts[bpos + 1] == Tok::Punct('<', synth_span()));
        lemma_seg_split(
            ts,
            bpos + 1,
            seq![Tok::Punct('<', synth_span())],
            sp_gl_tokens(opt_items(t.lifetimes), opt_items(t.generics)),
        );
        assert(forall|k: int| 0 <= k < opt_items(t.generics).len() ==> wf_generic(
            #[trigger] opt_items(t.generics)[k],
        ));
        lemma_rt_gl(ts, bpos + 2, opt_items(t.lifetimes), opt_items(t.generics));
        assert(opt_list(opt_items(t.generics)) == t.generics);
        assert(opt_list(opt_items(t.lifetimes)) == t.lifetimes);
        assert(sp_ty_tail(ts, bpos + 1, t.borrow, t.base) == Ok::<_, PErr>((t, i + tt.len())));
    } else {
        assert(bpos + 1 == i + tt.len());
        assert(sp_ty_tail(ts, bpos + 1, t.borrow, t.base) == Ok::<_, PErr>((t, i + tt.len())));
    }
}

/// A type reference re-serializes to at least its base name.
proof fn lemma_ty_tokens_len(t: TyV)
    ensures
        sp_ty_tokens(t).len() >= 1,
{
}

/// Parsing a re-emitted field list, standing at the end of its sequence,
/// finds exactly the emitted fields in order.
proof fn lemma_rt_fields(ts: Seq<Tok>, i: int, fs: Seq<crate::ty::FieldV>)
    requires
        forall|k: int| 0 <= k < fs.len() ==> wf_ty(#[trigger] fs[k].ty),
        0 <= i,
        ts.len() == i + sp_fields_tokens(fs).len(),
        ts.subrange(i, ts.len() as int) == sp_fields_tokens(fs),
    ensures
        sp_fields(ts, i) == Ok::<_, PErr>(fs),
    decreases fs.len(),
{
    let ft = sp_fields_tokens(fs);
    assert(seg_at(ts, i, ft));
    if fs.len() == 0 {
        assert(i >= ts.len());
        assert(fs =~= Seq::<crate::ty::FieldV>::empty());
    } else {
        let f0 = fs[0];
        let head = seq![Tok::Ident(f0.name, synth_span()), Tok::Punct(':', synth_span())];
        let tytoks = sp_ty_tokens(f0.ty);
        let tail = if fs.len() > 1 {
            seq![Tok::Punct(',', synth_span())] + sp_fields_tokens(fs.drop_first())
        } else {
            Seq::<Tok>::empty()
        };
        assert(ft == (head + tytoks) + tail) by {
            assert(ft =~= (head + tytoks) + tail);
        }
        lemma_seg_split(ts, i, head + tytoks, tail);
        lemma_seg_split(ts, i, head, tytoks);
        lemma_seg_index(ts, i, head, 0);
        lemma_seg_index(ts, i, head, 1);
        assert(ts[i] == Tok::Ident(f0.name, synth_span()));
        assert(ts[i + 1] == Tok::Punct(':', synth_span()));
        let j = i + 2 + tytoks.len();
        if fs.len() > 1 {
            lemma_seg_index(ts, i + (head + tytoks).len(), tail, 0);
            assert(ts[j] == Tok::Punct(',', synth_span()));
        }
        lemma_rt_ty(ts, i + 2, f0.ty);
        lemma_ty_tokens_len(f0.ty);
        if fs.len() == 1 {
            assert(j == ts.len());
            assert(seq![crate::ty::FieldV { name: f0.name, ty: f0.ty }] =~= fs);
        } else {
            lemma_seg_split(ts, j, seq![Tok::Punct(',', synth_span())], sp_fields_tokens(
                fs.drop_first(),
            ));
            assert(ts.subrange(j + 1, ts.len() as int) == sp_fields_tokens(fs.drop_first())) by {
                assert(ts.subrange(j + 1, ts.len() as int) =~= ts.subrange(
                    j + 1,
                    j + 1 + sp_fields_tokens(fs.drop_first()).len(),
                ));
            }
            lemma_rt_fields(ts, j + 1, fs.drop_first());
            assert(seq![crate::ty::FieldV { name: f0.name, ty: f0.ty }] + fs.drop_first() =~= fs);
        }
    }
}

/// Re-emission then re-parsing yields an equal structure: the round trip of
/// a well-formed struct definition is the identity.
pub proof fn lemma_roundtrip(d: StructDefV)
    requires
        wf_struct(d),
    ensures
        sp_parse_struct(sp_struct_tokens(d)) == Ok::<StructDefV, PErr>(d),
{
    let ts = sp_struct_tokens(d);
    let head = seq![Tok::Ident("struct"@, synth_span()), Tok::Ident(d.name, synth_span())];
    let has_gl = d.generics is Some || d.lifetimes is Some;
    let gltoks = if has_gl {
        seq![Tok::Punct('<', synth_span())] + sp_gl_tokens(
            opt_items(d.lifetimes),
            opt_items(d.generics),
        )
    } else {
        Seq::<Tok>::empty()
    };
    let body = seq![Tok::Group(crate::tree::Delim::Brace, sp_fields_tokens(d.fields), synth_span())];
    assert(ts == (head + gltoks) + body) by {
        assert(ts =~= (head + gltoks) + body);
    }
    assert(seg_at(ts, 0, ts)) by {
        assert(ts.subrange(0, ts.len() as int) =~= ts);
    }
    lemma_seg_split(ts, 0, head + gltoks, body);
    lemma_seg_split(ts, 0, head, gltoks);
    lemma_seg_index(ts, 0, head, 0);
    lemma_seg_index(ts, 0, head, 1);
    assert(ts[0] == Tok::Ident("struct"@, synth_span()));
    assert(ts[1] == Tok::Ident(d.name, synth_span()));
    assert(sp_skip_attrs(ts, 0) == Ok::<int, PErr>(1));
    let gpos = (head + gltoks).len() as int;
    lemma_seg_index(ts, gpos, body, 0);
    assert(ts[gpos] == Tok::Group(crate::tree::Delim::Brace, sp_fields_tokens(d.fields), synth_span()));
    assert(forall|k: int| 0 <= k < d.fields.len() ==> wf_ty(#[trigger] d.fields[k].ty));
    let inner = sp_fields_tokens(d.fields);
    assert(inner.subrange(0, inner.len() as int) =~= inner);
    lemma_rt_fields(inner, 0, d.fields);
    if has_gl {
        lemma_seg_index(ts, 2, gltoks, 0);
        assert(ts[2] == Tok::Punct('<', synth_span()));
        lemma_seg_split(ts, 2, seq![Tok::Punct('<', synth_span())], sp_gl_tokens(
            opt_items(d.lifetimes),
            opt_items(d.generics),
        ));
        assert(forall|k: int| 0 <= k < opt_items(d.generics).len() ==> wf_generic(
            #[trigger] opt_items(d.generics)[k],
        ));
        lemma_rt_gl(ts, 3, opt_items(d.lifetimes), opt_items(d.generics));
        assert(opt_list(opt_items(d.generics)) == d.generics);
        assert(opt_list(opt_items(d.lifetimes)) == d.lifetimes);
        assert(sp_parse_struct(ts) == Ok::<StructDefV, PErr>(
            StructDefV {
                name: d.name,
                fields: d.fields,
                generics: d.generics,
                lifetimes: d.lifetimes,
            },
        ));
        assert(d == (StructDefV {
            name: d.name,
            fields: d.fields,
            generics: d.generics,
            lifetimes: d.lifetimes,
        }));
    } else {
        assert(d.generics is None && d.lifetimes is None);
        assert(d == (StructDefV {
            name: d.name,
            fields: d.fields,
            generics: None,
            lifetimes: None,
        }));
    }
}

/// Parsing the re-emitted form of a well-formed definition succeeds, and
/// the parsed fields match the emitted ones in number, names, types and
/// order.
pub proof fn lemma_parse_preserves_fields(d: StructDefV)
    requires
        wf_struct(d),
    ensures
        sp_parse_struct(sp_struct_tokens(d)) matches Ok(p) && p.fields.len() == d.fields.len()
            && forall|i: int| 0 <= i < d.fields.len() ==> #[trigger] p.fields[i] == d.fields[i],
{
    lemma_roundtrip(d);
}

/// The suffix of `ts` from `i` on is a strict prefix of `full`.
pub open spec fn prefix_at_end(ts: Seq<Tok>, i: int, full: Seq<Tok>) -> bool {
    0 <= i <= ts.len() && ts.len() - i < full.len() && ts.subrange(i, ts.len() as int)
        == full.take(ts.len() - i)
}

/// An element of the strict prefix is the element of `full` at the shifted
/// index.
proof fn lemma_prefix_index(ts: Seq<Tok>, i: int, full: Seq<Tok>, k: int)
    requires
        prefix_at_end(ts, i, full),
        0 <= k < ts.len() - i,
    ensures
        ts[i + k] == full[k],
{
    assert(ts.subrange(i, ts.len() as int)[k] == ts[i + k]);
    assert(full.take(ts.len() - i)[k] == full[k]);
}

/// The strict prefix, shifted forward by `d` places, is a strict prefix of
/// `full` without its first `d` elements.
proof fn lemma_prefix_shift(ts: Seq<Tok>, i: int, full: Seq<Tok>, d: int)
    requires
        prefix_at_end(ts, i, full),
        0 <= d,
        i + d <= ts.len(),
    ensures
        prefix_at_end(ts, i + d, full.skip(d)),
{
    assert forall|k: int| 0 <= k < ts.len() - (i + d) implies #[trigger] ts.subrange(
        i + d,
        ts.len() as int,
    )[k] == full.skip(d).take(ts.len() - (i + d))[k] by {
        lemma_prefix_index(ts, i, full, d + k);
    }
    assert(ts.subrange(i + d, ts.len() as int) =~= full.skip(d).take(ts.len() - (i + d)));
}

/// A bound list cut short of its closer ends in the end-of-input error.
proof fn lemma_bounds_prefix_eof(ts: Seq<Tok>, i: int, trs: Seq<Seq<char>>, sep: char)
    requires
        trs.len() > 0,
        sep == ',' || sep == '>',
        prefix_at_end(ts, i, sp_bounds_tokens(trs) + seq![Tok::Punct(sep, synth_span())]),
    ensures
        sp_bounds(ts, i) == Err::<(Seq<Seq<char>>, bool, int), PErr>(PErr::Eof),
    decreases trs.len(),
{
    let full = sp_bounds_tokens(trs) + seq![Tok::Punct(sep, synth_span())];
    let avail = ts.len() - i;
    if avail == 0 {
    } else {
        lemma_prefix_index(ts, i, full, 0);
        assert(ts[i] == Tok::Ident(trs[0], synth_span()));
        if avail == 1 {
        } else {
            lemma_prefix_index(ts, i, full, 1);
            if trs.len() == 1 {
                assert(full.len() == 2);
            } else {
                assert(sp_bounds_tokens(trs) == seq![
                    Tok::Ident(trs[0], synth_span()),
                    Tok::Punct('+', synth_span()),
                ] + sp_bounds_tokens(trs.drop_first()));
                assert(ts[i + 1] == Tok::Punct('+', synth_span()));
                lemma_prefix_shift(ts, i, full, 2);
                assert(full.skip(2) =~= sp_bounds_tokens(trs.drop_first()) + seq![
                    Tok::Punct(sep, synth_span()),
                ]);
                lemma_bounds_prefix_eof(ts, i + 2, trs.drop_first(), sep);
            }
        }
    }
}

/// A generic/lifetime list cut short of its closing `>` ends in the
/// end-of-input error.
proof fn lemma_gl_prefix_eof(ts: Seq<Tok>, i: int, lfs: Seq<Seq<char>>, gens: Seq<GenericV>)
    requires
        forall|k: int| 0 <= k < gens.len() ==> wf_generic(#[trigger] gens[k]),
        prefix_at_end(ts, i, sp_gl_tokens(lfs, gens)),
    ensures
        sp_gl_items(ts, i) == Err::<(Seq<Seq<char>>, Seq<GenericV>, int), PErr>(PErr::Eof),
    decreases lfs.len() + gens.len(),
{
    let full = sp_gl_tokens(lfs, gens);
    let avail = ts.len() - i;
    if avail == 0 {
    } else if lfs.len() > 0 {
        lemma_prefix_index(ts, i, full, 0);
        assert(ts[i] == Tok::Punct('\'', synth_span()));
        if avail == 1 {
        } else {
            lemma_prefix_index(ts, i, full, 1);
            assert(ts[i + 1] == Tok::Ident(lfs[0], synth_span()));
            if avail == 2 {
            } else {
                lemma_prefix_index(ts, i, full, 2);
                if lfs.len() == 1 && gens.len() == 0 {
                    assert(full.len() == 3);
                } else {
                    assert(ts[i + 2] == Tok::Punct(',', synth_span()));
                    lemma_prefix_shift(ts, i, full, 3);
                    assert(full.skip(3) =~= sp_gl_tokens(lfs.drop_first(), gens));
                    lemma_gl_prefix_eof(ts, i + 3, lfs.drop_first(), gens);
                }
            }
        }
    } else if gens.len() > 0 {
        let g0 = gens[0];
        let item = sp_generic_tokens(g0);
        let sep: char = if gens.len() == 1 {
            '>'
        } else {
            ','
        };
        let rest = if gens.len() == 1 {
            Seq::<Tok>::empty()
        } else {
            sp_gl_tokens(lfs, gens.drop_first())
        };
        assert(full == (item + seq![Tok::Punct(sep, synth_span())]) + rest) by {
            if gens.len() == 1 {
                assert(full =~= (item + seq![Tok::Punct(sep, synth_span())]) + rest);
            } else {
                assert(full =~= (item + seq![Tok::Punct(sep, synth_span())]) + rest);
            }
        }
        lemma_prefix_index(ts, i, full, 0);
        assert(ts[i] == Tok::Ident(g0.name, synth_span()));
        if avail == 1 {
        } else {
            lemma_prefix_index(ts, i, full, 1);
            match g0.traits {
                None => {
                    assert(item.len() == 1);
                    if gens.len() == 1 {
                        assert(full.len() == 2);
                    } else {
                        assert(ts[i + 1] == Tok::Punct(',', synth_span()));
                        lemma_prefix_shift(ts, i, full, 2);
                        assert(full.skip(2) =~= sp_gl_tokens(lfs, gens.drop_first()));
                        lemma_gl_prefix_eof(ts, i + 2, lfs, gens.drop_first());
                    }
                },
                Some(trs) => {
                    assert(wf_generic(g0));
                    assert(trs.len() > 0);
                    assert(item == seq![
                        Tok::Ident(g0.name, synth_span()),
                        Tok::Punct(':', synth_span()),
                    ] + sp_bounds_tokens(trs));
                    assert(ts[i + 1] == Tok::Punct(':', synth_span()));
                    let bt = sp_bounds_tokens(trs);
                    if avail - 2 < bt.len() + 1 {
                        lemma_prefix_shift(ts, i, full, 2);
                        assert(prefix_at_end(ts, i + 2, full.skip(2)));
                        assert forall|k: int| 0 <= k < ts.len() - (i + 2) implies #[trigger] ts.subrange(
                            i + 2,
                            ts.len() as int,
                        )[k] == (bt + seq![Tok::Punct(sep, synth_span())]).take(
                            ts.len() - (i + 2),
                        )[k] by {
                            lemma_prefix_index(ts, i, full, 2 + k);
                            assert(full[2 + k] == (bt + seq![Tok::Punct(sep, synth_span())])[k]);
                        }
                        assert(ts.subrange(i + 2, ts.len() as int) =~= (bt + seq![
                            Tok::Punct(sep, synth_span()),
                        ]).take(ts.len() - (i + 2)));
                        lemma_bounds_prefix_eof(ts, i + 2, trs, sep);
                    } else {
                        // the bounds and their closing comma stand whole; only the
                        // items after them were cut short
                        assert(gens.len() > 1) by {
                            if gens.len() == 1 {
                                assert(full.len() == item.len() + 1);
                                assert(avail < full.len());
                            }
                        }
                        assert forall|k: int| 0 <= k < bt.len() implies #[trigger] ts.subrange(
                            i + 2,
                            i + 2 + bt.len(),
                        )[k] == bt[k] by {
                            lemma_prefix_index(ts, i, full, 2 + k);
                            assert(full[2 + k] == bt[k]);
                        }
                        assert(ts.subrange(i + 2, i + 2 + bt.len()) =~= bt);
                        assert(seg_at(ts, i + 2, bt));
                        lemma_prefix_index(ts, i, full, 2 + bt.len() as int);
                        assert(ts[i + 2 + bt.len()] == Tok::Punct(',', synth_span()));
                        lemma_rt_bounds(ts, i + 2, trs, ',');
                        let j = i + 2 + bt.len() + 1;
                        lemma_prefix_shift(ts, i, full, 2 + bt.len() as int + 1);
                        assert(full.skip(2 + bt.len() as int + 1) =~= sp_gl_tokens(
                            lfs,
                            gens.drop_first(),
                        ));
                        lemma_gl_prefix_eof(ts, j, lfs, gens.drop_first());
                    }
                },
            }
        }
    } else {
        assert(full.len() == 1);
    }
}

/// Any truncation of a re-emitted struct definition fails to parse with the
/// end-of-input error: no truncated input yields a definition, and none is
/// reported as an unexpected token.
pub proof fn lemma_truncated_eof(d: StructDefV, n: int)
    requires
        wf_struct(d),
        0 <= n < sp_struct_tokens(d).len(),
    ensures
        sp_parse_struct(sp_struct_tokens(d).take(n)) == Err::<StructDefV, PErr>(PErr::Eof),
{
    let full = sp_struct_tokens(d);
    let ts = full.take(n);
    assert(prefix_at_end(ts, 0, full)) by {
        assert(ts.subrange(0, ts.len() as int) =~= full.take(ts.len() - 0));
    }
    let has_gl = d.generics is Some || d.lifetimes is Some;
    let gltoks = if has_gl {
        seq![Tok::Punct('<', synth_span())] + sp_gl_tokens(
            opt_items(d.lifetimes),
            opt_items(d.generics),
        )
    } else {
        Seq::<Tok>::empty()
    };
    assert(full.len() == 2 + gltoks.len() + 1) by {
        assert(full =~= (seq![
            Tok::Ident("struct"@, synth_span()),
            Tok::Ident(d.name, synth_span()),
        ] + gltoks) + seq![
            Tok::Group(crate::tree::Delim::Brace, sp_fields_tokens(d.fields), synth_span()),
        ]);
    }
    if n == 0 {
    } else {
        lemma_prefix_index(ts, 0, full, 0);
        assert(ts[0] == Tok::Ident("struct"@, synth_span()));
        assert(sp_skip_attrs(ts, 0) == Ok::<int, PErr>(1));
        if n == 1 {
        } else {
            lemma_prefix_index(ts, 0, full, 1);
            assert(ts[1] == Tok::Ident(d.name, synth_span()));
            if n == 2 {
            } else {
                assert(has_gl) by {
                    if !has_gl {
                        assert(full.len() == 3);
                    }
                }
                lemma_prefix_index(ts, 0, full, 2);
                assert(full[2] == gltoks[0]);
                assert(ts[2] == Tok::Punct('<', synth_span()));
                let gl = sp_gl_tokens(opt_items(d.lifetimes), opt_items(d.generics));
                assert(forall|k: int| 0 <= k < opt_items(d.generics).len() ==> wf_generic(
                    #[trigger] opt_items(d.generics)[k],
                ));
                if n - 3 < gl.len() {
                    assert forall|k: int| 0 <= k < ts.len() - 3 implies #[trigger] ts.subrange(
                        3,
                        ts.len() as int,
                    )[k] == gl.take(ts.len() - 3)[k] by {
                        lemma_prefix_index(ts, 0, full, 3 + k);
                        assert(full[3 + k] == gltoks[1 + k]);
                        assert(gltoks[1 + k] == gl[k]);
                    }
                    assert(ts.subrange(3, ts.len() as int) =~= gl.take(ts.len() - 3));
                    assert(prefix_at_end(ts, 3, gl));
                    lemma_gl_prefix_eof(ts, 3, opt_items(d.lifetimes), opt_items(d.generics));
                } else {
                    assert(n == 3 + gl.len());
                    assert forall|k: int| 0 <= k < gl.len() implies #[trigger] ts.subrange(
                        3,
                        3 + gl.len() as int,
                    )[k] == gl[k] by {
                        lemma_prefix_index(ts, 0, full, 3 + k);
                        assert(full[3 + k] == gltoks[1 + k]);
                        assert(gltoks[1 + k] == gl[k]);
                    }
                    assert(ts.subrange(3, 3 + gl.len() as int) =~= gl);
                    assert(seg_at(ts, 3, gl));
                    lemma_rt_gl(ts, 3, opt_items(d.lifetimes), opt_items(d.generics));
                    assert(sp_gl_items(ts, 3) == Ok::<_, PErr>(
                        (opt_items(d.lifetimes), opt_items(d.generics), n),
                    ));
                }
            }
        }
    }
}

} // verus!
