use ioveca::error::ParserError;
use ioveca::parser::Parser;
use ioveca::span::Span;
use ioveca::tree::{Delim, Tree};

fn sp() -> Span {
    Span::new(0, 0)
}

fn simple_field(name: &str, ty: &str) -> Vec<Tree> {
    vec![
        Tree::ident(name, sp()),
        Tree::punct(':', sp()),
        Tree::ident(ty, sp()),
    ]
}

fn def_tokens(name: &str, fields: &[(&str, &str)]) -> Vec<Tree> {
    let mut inner = Vec::new();
    for (k, (f, t)) in fields.iter().enumerate() {
        inner.extend(simple_field(f, t));
        if k + 1 < fields.len() {
            inner.push(Tree::punct(',', sp()));
        }
    }
    vec![
        Tree::ident("struct", sp()),
        Tree::ident(name, sp()),
        Tree::group(Delim::Brace, inner, sp()),
    ]
}

#[test]
fn zero_fields_parse() {
    let mut p = Parser::new(def_tokens("Empty", &[]));
    let def = p.parse_struct().unwrap();
    assert_eq!(def.name, "Empty".to_string());
    assert_eq!(def.fields.len(), 0);
    assert!(def.generics.is_none());
    assert!(def.lifetimes.is_none());
}

#[test]
fn one_field_parses() {
    let mut p = Parser::new(def_tokens("One", &[("a", "i32")]));
    let def = p.parse_struct().unwrap();
    assert_eq!(def.fields.len(), 1);
    assert_eq!(def.fields[0].field_name, "a".to_string());
    assert_eq!(def.fields[0].field_type.base, "i32".to_string());
}

#[test]
fn two_fields_keep_their_order() {
    let mut p = Parser::new(def_tokens("Two", &[("f1", "T1"), ("f2", "T2")]));
    let def = p.parse_struct().unwrap();
    assert_eq!(def.fields.len(), 2);
    assert_eq!(def.fields[0].field_name, "f1".to_string());
    assert_eq!(def.fields[0].field_type.base, "T1".to_string());
    assert_eq!(def.fields[1].field_name, "f2".to_string());
    assert_eq!(def.fields[1].field_type.base, "T2".to_string());
}

#[test]
fn three_fields_parse() {
    let mut p = Parser::new(def_tokens("Three", &[("a", "A"), ("b", "B"), ("c", "C")]));
    let def = p.parse_struct().unwrap();
    assert_eq!(def.fields.len(), 3);
    assert_eq!(def.fields[2].field_name, "c".to_string());
}

#[test]
fn trailing_comma_is_tolerated() {
    let inner = vec![
        Tree::ident("a", sp()),
        Tree::punct(':', sp()),
        Tree::ident("u8", sp()),
        Tree::punct(',', sp()),
    ];
    let toks = vec![
        Tree::ident("struct", sp()),
        Tree::ident("S", sp()),
        Tree::group(Delim::Brace, inner, sp()),
    ];
    let def = Parser::new(toks).parse_struct().unwrap();
    assert_eq!(def.fields.len(), 1);
}

#[test]
fn leading_attributes_are_consumed() {
    let toks = vec![
        Tree::ident("derive", sp()),
        Tree::ident("debuggable", sp()),
        Tree::ident("struct", sp()),
        Tree::ident("S", sp()),
        Tree::group(Delim::Brace, Vec::new(), sp()),
    ];
    let def = Parser::new(toks).parse_struct().unwrap();
    assert_eq!(def.name, "S".to_string());
}

#[test]
fn empty_generic_list_yields_none() {
    let toks = vec![
        Tree::ident("struct", sp()),
        Tree::ident("S", sp()),
        Tree::punct('<', sp()),
        Tree::punct('>', sp()),
        Tree::group(Delim::Brace, Vec::new(), sp()),
    ];
    let def = Parser::new(toks).parse_struct().unwrap();
    assert!(def.generics.is_none());
    assert!(def.lifetimes.is_none());
}

fn generic_lifetime_tokens() -> Vec<Tree> {
    // struct S<'a, T: Clone + Debug> { x: &'a T }
    let inner = vec![
        Tree::ident("x", sp()),
        Tree::punct(':', sp()),
        Tree::punct('&', sp()),
        Tree::punct('\'', sp()),
        Tree::ident("a", sp()),
        Tree::ident("T", sp()),
    ];
    vec![
        Tree::ident("struct", sp()),
        Tree::ident("S", sp()),
        Tree::punct('<', sp()),
        Tree::punct('\'', sp()),
        Tree::ident("a", sp()),
        Tree::punct(',', sp()),
        Tree::ident("T", sp()),
        Tree::punct(':', sp()),
        Tree::ident("Clone", sp()),
        Tree::punct('+', sp()),
        Tree::ident("Debug", sp()),
        Tree::punct('>', sp()),
        Tree::group(Delim::Brace, inner, sp()),
    ]
}

#[test]
fn generics_lifetimes_and_borrows_parse() {
    let def = Parser::new(generic_lifetime_tokens()).parse_struct().unwrap();
    let lifetimes = def.lifetimes.expect("one lifetime");
    assert_eq!(lifetimes.len(), 1);
    assert_eq!(lifetimes[0].name, "a".to_string());
    let generics = def.generics.expect("one type parameter");
    assert_eq!(generics.len(), 1);
    assert_eq!(generics[0].name, "T".to_string());
    assert_eq!(
        generics[0].traits.as_ref().expect("bounds"),
        &vec!["Clone".to_string(), "Debug".to_string()]
    );
    assert_eq!(def.fields.len(), 1);
    let field = &def.fields[0];
    assert_eq!(field.field_name, "x".to_string());
    let borrow = field.field_type.borrow.as_ref().expect("a borrow");
    assert!(!borrow.mutable);
    assert_eq!(borrow.lifetime.name, "a".to_string());
    assert_eq!(field.field_type.base, "T".to_string());
}

#[test]
fn mutable_borrow_parses() {
    // struct S { v: &'lf mut T }
    let inner = vec![
        Tree::ident("v", sp()),
        Tree::punct(':', sp()),
        Tree::punct('&', sp()),
        Tree::punct('\'', sp()),
        Tree::ident("lf", sp()),
        Tree::ident("mut", sp()),
        Tree::ident("T", sp()),
    ];
    let toks = vec![
        Tree::ident("struct", sp()),
        Tree::ident("S", sp()),
        Tree::group(Delim::Brace, inner, sp()),
    ];
    let def = Parser::new(toks).parse_struct().unwrap();
    let borrow = def.fields[0].field_type.borrow.as_ref().unwrap();
    assert!(borrow.mutable);
    assert_eq!(borrow.lifetime.name, "lf".to_string());
    assert_eq!(def.fields[0].field_type.base, "T".to_string());
}

#[test]
fn field_type_with_generics_parses() {
    // struct S { b: Container<'a, T> }
    let inner = vec![
        Tree::ident("b", sp()),
        Tree::punct(':', sp()),
        Tree::ident("Container", sp()),
        Tree::punct('<', sp()),
        Tree::punct('\'', sp()),
        Tree::ident("a", sp()),
        Tree::punct(',', sp()),
        Tree::ident("T", sp()),
        Tree::punct('>', sp()),
    ];
    let toks = vec![
        Tree::ident("struct", sp()),
        Tree::ident("S", sp()),
        Tree::group(Delim::Brace, inner, sp()),
    ];
    let def = Parser::new(toks).parse_struct().unwrap();
    let ty = &def.fields[0].field_type;
    assert_eq!(ty.base, "Container".to_string());
    assert_eq!(ty.lifetime.as_ref().unwrap()[0].name, "a".to_string());
    assert_eq!(ty.generic.as_ref().unwrap()[0].name, "T".to_string());
}

#[test]
fn truncated_inputs_fail_with_end_of_input() {
    let full = generic_lifetime_tokens();
    for n in 0..full.len() {
        let prefix: Vec<Tree> = full[..n].iter().cloned().collect();
        let result = Parser::new(prefix).parse_struct();
        match result {
            Err(ParserError::UnexpectedEndOfInput(_, _)) => {},
            other => panic!("prefix of length {n} must fail with end of input, got {other:?}"),
        }
    }
}

#[test]
fn empty_input_fails_with_end_of_input() {
    let result = Parser::new(Vec::new()).parse_struct();
    assert!(matches!(result, Err(ParserError::UnexpectedEndOfInput(_, _))));
}

#[test]
fn wrong_token_after_name_is_reported() {
    let toks = vec![
        Tree::ident("struct", sp()),
        Tree::ident("S", sp()),
        Tree::punct('+', sp()),
    ];
    let result = Parser::new(toks).parse_struct();
    assert!(matches!(result, Err(ParserError::UnexpectedToken(_, _, _))));
}

#[test]
fn literal_in_place_of_name_is_reported() {
    let toks = vec![Tree::literal("3", sp())];
    let result = Parser::new(toks).parse_struct();
    assert!(matches!(result, Err(ParserError::UnexpectedToken(_, _, _))));
}

#[test]
fn missing_colon_in_field_is_reported() {
    let inner = vec![
        Tree::ident("a", sp()),
        Tree::punct(';', sp()),
        Tree::ident("i32", sp()),
    ];
    let toks = vec![
        Tree::ident("struct", sp()),
        Tree::ident("S", sp()),
        Tree::group(Delim::Brace, inner, sp()),
    ];
    let result = Parser::new(toks).parse_struct();
    assert!(matches!(result, Err(ParserError::UnexpectedToken(_, _, _))));
}

#[test]
fn error_reports_span_of_offending_token() {
    let toks = vec![
        Tree::ident("struct", sp()),
        Tree::ident("S", sp()),
        Tree::punct('+', Span::new(7, 8)),
    ];
    match Parser::new(toks).parse_struct() {
        Err(ParserError::UnexpectedToken(_, _, span)) => {
            assert_eq!(span.as_tuple(), (7, 8));
        },
        other => panic!("expected an unexpected-token error, got {other:?}"),
    }
}
