use ioveca::error::ParserError;
use ioveca::fn_def::{Arg, FnDef, RetType};
use ioveca::generics::Generic;
use ioveca::impl_block::{ImplBlock, TraitBound};
use ioveca::lifetime::Lifetime;
use ioveca::marker::{marker_to_tokens, Marker};
use ioveca::parser::Parser;
use ioveca::span::Span;
use ioveca::struct_def::{self_struct_def_gen, struct_gen_new_fn_args, StructDef};
use ioveca::tree::{Delim, Tree};
use ioveca::ty::{Borrow, Field, Ty};

fn sp() -> Span {
    Span::new(0, 0)
}

fn ident(s: &str) -> Tree {
    Tree::ident(s, sp())
}

fn punct(c: char) -> Tree {
    Tree::punct(c, sp())
}

fn sample_def() -> StructDef {
    let lf = Lifetime::new("a".to_string(), sp());
    let borrow = Borrow::new(false, Lifetime::new("a".to_string(), sp()));
    let field_x = Field::new(
        Ty::new(Some(borrow), "T".to_string(), None, None),
        "x".to_string(),
    );
    let field_y = Field::new(
        Ty::new(None, "u32".to_string(), None, None),
        "y".to_string(),
    );
    let generic = Generic::new(
        Some(vec!["Clone".to_string(), "Debug".to_string()]),
        "T".to_string(),
    );
    StructDef::new(
        vec![field_x, field_y],
        "S".to_string(),
        Some(vec![generic]),
        Some(vec![lf]),
    )
}

#[test]
fn reemitted_definition_parses_back_to_itself() {
    let def = sample_def();
    let tokens = def.to_tokens();
    let parsed = Parser::new(tokens).parse_struct().expect("re-emitted tokens parse");
    assert_eq!(parsed, def);
}

#[test]
fn reemission_is_deterministic() {
    let a = sample_def().to_tokens();
    let b = sample_def().to_tokens();
    assert_eq!(a, b);
}

#[test]
fn struct_def_golden_token_sequence() {
    let field = Field::new(Ty::new(None, "i32".to_string(), None, None), "a".to_string());
    let def = StructDef::new(vec![field], "P".to_string(), None, None);
    let expected = vec![
        ident("struct"),
        ident("P"),
        Tree::group(
            Delim::Brace,
            vec![ident("a"), punct(':'), ident("i32")],
            sp(),
        ),
    ];
    assert_eq!(def.to_tokens(), expected);
}

#[test]
fn borrow_emits_ampersand_lifetime_then_mut() {
    let b = Borrow::new(true, Lifetime::new("a".to_string(), sp()));
    let toks = b.to_tokens();
    let expected = vec![punct('&'), punct('\''), ident("a"), ident("mut")];
    assert_eq!(toks, expected);
}

#[test]
fn immutable_borrow_emits_no_mut() {
    let b = Lifetime::new("a".to_string(), sp()).into_borrow();
    assert_eq!(b.to_tokens(), vec![punct('&'), punct('\''), ident("a")]);
}

#[test]
fn lifetime_emits_apostrophe_then_name() {
    let lf = Lifetime::new("static_like".to_string(), sp());
    assert_eq!(lf.into_tokens(), vec![punct('\''), ident("static_like")]);
}

#[test]
fn generic_with_bounds_emits_colon_and_plus() {
    let mut g = Generic::new(None, "T".to_string());
    g.insert("Clone".to_string());
    g.insert("Send".to_string());
    let expected = vec![ident("T"), punct(':'), ident("Clone"), punct('+'), ident("Send")];
    assert_eq!(g.to_tokens(), expected);
}

#[test]
fn generic_without_bounds_emits_name_only() {
    let g = Generic::new(None, "T".to_string());
    assert_eq!(g.to_tokens(), vec![ident("T")]);
}

#[test]
fn ty_emits_borrow_base_and_generics() {
    let borrow = Borrow::new(true, Lifetime::new("a".to_string(), sp()));
    let ty = Ty::new(
        Some(borrow),
        "Box".to_string(),
        Some(vec![Generic::new(None, "T".to_string())]),
        None,
    );
    let expected = vec![
        punct('&'),
        punct('\''),
        ident("a"),
        ident("mut"),
        ident("Box"),
        punct('<'),
        ident("T"),
        punct('>'),
    ];
    assert_eq!(ty.to_tokens(), expected);
}

#[test]
fn ty_generics_to_tokens_lists_items_without_angles() {
    let ty = Ty::new(
        None,
        "Map2".to_string(),
        Some(vec![Generic::new(None, "K".to_string()), Generic::new(None, "V".to_string())]),
        Some(vec![Lifetime::new("a".to_string(), sp())]),
    );
    let inner = ty.generics_to_tokens().expect("lists present");
    let expected = vec![
        punct('\''),
        ident("a"),
        punct(','),
        ident("K"),
        punct(','),
        ident("V"),
    ];
    assert_eq!(inner, expected);
    let bare = Ty::new(None, "u8".to_string(), None, None);
    assert!(bare.generics_to_tokens().is_none());
}

#[test]
fn self_struct_def_gen_golden() {
    let fields = vec![ident("a"), ident("b")];
    let toks = self_struct_def_gen(&fields);
    let expected = vec![
        ident("Self"),
        Tree::group(
            Delim::Brace,
            vec![ident("a"), punct(','), ident("b"), punct(',')],
            sp(),
        ),
    ];
    assert_eq!(toks, expected);
}

#[test]
fn struct_gen_new_fn_args_golden() {
    let fl = vec![ident("a"), ident("b")];
    let ty = vec![ident("i32"), ident("u64")];
    let toks = struct_gen_new_fn_args(&fl, &ty);
    let expected = vec![
        ident("a"),
        punct(':'),
        ident("i32"),
        punct(','),
        ident("b"),
        punct(':'),
        ident("u64"),
    ];
    assert_eq!(toks, expected);
}

#[test]
fn parser_error_emit_builds_compile_error_invocation() {
    let err = ParserError::UnexpectedEndOfInput("went too far".to_string(), Span::new(3, 4));
    let toks = err.emit();
    let expected = vec![
        Tree::ident("compile_error", Span::new(3, 4)),
        Tree::punct('!', Span::new(3, 4)),
        Tree::group(
            Delim::Paren,
            vec![Tree::literal("went too far", Span::new(3, 4))],
            Span::new(3, 4),
        ),
    ];
    assert_eq!(toks, expected);
}

#[test]
fn markers_emit_their_keywords() {
    let mut stream = Vec::new();
    marker_to_tokens(&Marker::Pub, &mut stream);
    marker_to_tokens(&Marker::Unsafe, &mut stream);
    marker_to_tokens(&Marker::Const, &mut stream);
    marker_to_tokens(&Marker::Extern("C"), &mut stream);
    let expected = vec![
        ident("pub"),
        ident("unsafe"),
        ident("const"),
        ident("extern"),
        Tree::literal("C", sp()),
    ];
    assert_eq!(stream, expected);
}

#[test]
fn fn_def_emits_name_args_and_return_type() {
    let mut def = FnDef::new("make".to_string());
    def.add_arg(Arg::new(
        "x".to_string(),
        Ty::new(None, "i32".to_string(), None, None),
    ));
    def.add_arg(Arg::new(
        "y".to_string(),
        Ty::new(None, "u8".to_string(), None, None),
    ));
    def.set_ret_type(Ty::new(None, "Out".to_string(), None, None));
    let toks = def.to_tokens();
    let expected = vec![
        ident("make"),
        Tree::group(
            Delim::Paren,
            vec![
                ident("x"),
                punct(':'),
                ident("i32"),
                punct(','),
                ident("y"),
                punct(':'),
                ident("u8"),
            ],
            sp(),
        ),
        punct('-'),
        punct('>'),
        ident("Out"),
    ];
    assert_eq!(toks, expected);
}

#[test]
fn fn_def_set_name_renames() {
    let mut def = FnDef::new("first".to_string());
    def.set_name("second");
    assert_eq!(def.name, "second".to_string());
}

#[test]
fn arg_vec_to_group_joins_without_trailing_comma() {
    let args = vec![
        Arg::new("a".to_string(), Ty::new(None, "A".to_string(), None, None)),
        Arg::new("b".to_string(), Ty::new(None, "B".to_string(), None, None)),
    ];
    let group = Arg::vec_to_group(args);
    let expected = Tree::group(
        Delim::Paren,
        vec![ident("a"), punct(':'), ident("A"), punct(','), ident("b"), punct(':'), ident("B")],
        sp(),
    );
    assert_eq!(group, expected);
}

#[test]
fn ret_type_emits_arrow_then_type() {
    let rt = RetType::new(Ty::new(None, "R".to_string(), None, None));
    assert_eq!(rt.to_tokens(), vec![punct('-'), punct('>'), ident("R")]);
}

#[test]
fn trait_bound_emits_traits_then_lifetimes() {
    let tb = TraitBound::new_with(
        "T".to_string(),
        Some(vec!["Iter".to_string(), "Send".to_string()]),
        Some(vec![Lifetime::new("a".to_string(), sp())]),
    );
    assert_eq!(tb.token_usize_hint(), 2 + 1 + 6);
    let expected = vec![
        ident("T"),
        punct(':'),
        ident("Iter"),
        punct('+'),
        ident("Send"),
        punct('+'),
        punct('\''),
        ident("a"),
    ];
    assert_eq!(tb.into_tokens(), expected);
}

#[test]
fn trait_bound_without_traits_omits_the_joining_plus() {
    let tb = TraitBound::new_with(
        "T".to_string(),
        None,
        Some(vec![Lifetime::new("a".to_string(), sp())]),
    );
    assert_eq!(tb.into_tokens(), vec![ident("T"), punct('\''), ident("a")]);
    let bare = TraitBound::new("U".to_string());
    assert_eq!(bare.into_tokens(), vec![ident("U")]);
}

#[test]
fn impl_block_builder_builds_the_block() {
    let mut b = ImplBlock::new();
    b.name("Widget".to_string());
    b.is_unsafe(true);
    b.function(FnDef::new("go".to_string()));
    let toks = b.build().expect("a named block builds");
    let expected = vec![
        ident("unsafe"),
        ident("impl"),
        ident("Widget"),
        Tree::group(
            Delim::Paren,
            vec![ident("go"), Tree::group(Delim::Paren, Vec::new(), sp())],
            sp(),
        ),
    ];
    assert_eq!(toks, expected);
}

#[test]
fn impl_block_without_name_does_not_build() {
    let b = ImplBlock::new_with_capacity(4);
    assert!(b.build().is_none());
}
