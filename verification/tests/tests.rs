use ioveca::parser::Parser;
use ioveca::span::Span;
use ioveca::tree::{Delim, Tree};

#[test]
fn it_works() {}

fn sp() -> Span {
    Span::new(0, 0)
}

#[test]
fn parses_a_full_test_struct() {
    // struct TestStruct<'lf, T, I: Clone> { a: i32, b: u32, generic: T }
    let inner = vec![
        Tree::ident("a", sp()),
        Tree::punct(':', sp()),
        Tree::ident("i32", sp()),
        Tree::punct(',', sp()),
        Tree::ident("b", sp()),
        Tree::punct(':', sp()),
        Tree::ident("u32", sp()),
        Tree::punct(',', sp()),
        Tree::ident("generic", sp()),
        Tree::punct(':', sp()),
        Tree::ident("T", sp()),
    ];
    let toks = vec![
        Tree::ident("struct", sp()),
        Tree::ident("TestStruct", sp()),
        Tree::punct('<', sp()),
        Tree::punct('\'', sp()),
        Tree::ident("lf", sp()),
        Tree::punct(',', sp()),
        Tree::ident("T", sp()),
        Tree::punct(',', sp()),
        Tree::ident("I", sp()),
        Tree::punct(':', sp()),
        Tree::ident("Clone", sp()),
        Tree::punct('>', sp()),
        Tree::group(Delim::Brace, inner, sp()),
    ];
    let mut parser = Parser::new(toks);
    let def = parser.parse_struct().expect("the definition should parse");
    assert_eq!(def.name, "TestStruct".to_string());
    assert_eq!(def.fields.len(), 3);
    let lifetimes = def.lifetimes.expect("one lifetime");
    assert_eq!(lifetimes.len(), 1);
    assert_eq!(lifetimes[0].name, "lf".to_string());
    let generics = def.generics.expect("two type parameters");
    assert_eq!(generics.len(), 2);
    assert_eq!(generics[0].name, "T".to_string());
    assert!(generics[0].traits.is_none());
    assert_eq!(generics[1].name, "I".to_string());
    assert_eq!(
        generics[1].traits.as_ref().expect("a bound"),
        &vec!["Clone".to_string()]
    );
}
