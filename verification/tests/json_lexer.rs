use ioveca::lexer::{LexError, Lexer, Token};

fn lex_err(input: &str) -> LexError {
    match Lexer::new(input) {
        Err(e) => e,
        Ok(_) => panic!("the input was expected to fail"),
    }
}

fn spans(lx: &Lexer) -> Vec<(usize, usize)> {
    let mut out = Vec::new();
    let mut k = 0;
    while let Some(t) = lx.peek(k) {
        out.push(t.span().as_tuple());
        k += 1;
    }
    out
}

#[test]
fn object_with_all_scalar_kinds_tokenizes_in_order() {
    let mut lx = Lexer::new("{\"a\":1,\"b\":2.5,\"c\":true,\"d\":null}").unwrap();
    let mut toks = Vec::new();
    while let Some(t) = lx.next() {
        toks.push(t);
    }
    assert_eq!(toks.len(), 17);
    assert!(matches!(toks[0], Token::LeftBrace(_)));
    assert!(matches!(&toks[1], Token::Str(s, _) if s == "a"));
    assert!(matches!(toks[2], Token::Colon(_)));
    assert!(matches!(toks[3], Token::Int(1, _)));
    assert!(matches!(toks[4], Token::Comma(_)));
    assert!(matches!(&toks[5], Token::Str(s, _) if s == "b"));
    assert!(matches!(toks[6], Token::Colon(_)));
    assert!(matches!(&toks[7], Token::Float(s, _) if s == "2.5"));
    assert!(matches!(toks[8], Token::Comma(_)));
    assert!(matches!(&toks[9], Token::Str(s, _) if s == "c"));
    assert!(matches!(toks[10], Token::Colon(_)));
    assert!(matches!(toks[11], Token::Bool(true, _)));
    assert!(matches!(toks[12], Token::Comma(_)));
    assert!(matches!(&toks[13], Token::Str(s, _) if s == "d"));
    assert!(matches!(toks[14], Token::Colon(_)));
    assert!(matches!(toks[15], Token::Null(_)));
    assert!(matches!(toks[16], Token::RightBrace(_)));
}

#[test]
fn spans_are_monotone_and_exact() {
    let lx = Lexer::new("{\"a\":1,\"b\":2.5,\"c\":true,\"d\":null}").unwrap();
    let got = spans(&lx);
    let expected = vec![
        (0, 1),
        (1, 4),
        (4, 5),
        (5, 6),
        (6, 7),
        (7, 10),
        (10, 11),
        (11, 14),
        (14, 15),
        (15, 18),
        (18, 19),
        (19, 23),
        (23, 24),
        (24, 27),
        (27, 28),
        (28, 32),
        (32, 33),
    ];
    assert_eq!(got, expected);
    for w in got.windows(2) {
        assert!(w[0].1 <= w[1].0);
    }
    for (a, b) in &got {
        assert!(a < b);
    }
}

#[test]
fn lone_open_brace_fails_with_end_of_input() {
    assert_eq!(lex_err("{"), LexError::UnexpectedEndOfInput(1));
}

#[test]
fn input_starting_with_bracket_fails_immediately() {
    assert_eq!(lex_err("[1,2]"), LexError::UnexpectedChar('[', 0));
}

#[test]
fn empty_input_fails_immediately() {
    assert_eq!(lex_err(""), LexError::UnexpectedEndOfInput(0));
}

#[test]
fn number_with_two_dots_fails() {
    // the number runs to the closing brace, which is not the comma the
    // digit scanner demands
    assert!(Lexer::new("{\"n\":12.34.56}").is_err());
    // with the comma in place, the second dot itself is reported
    assert_eq!(lex_err("{\"n\":12.34.56,\"x\":null}"), LexError::UnexpectedChar('.', 10));
}

#[test]
fn number_must_end_in_a_comma() {
    // the scanner accepts only a comma after a number; a brace is reported
    assert_eq!(lex_err("{\"a\":1}"), LexError::UnexpectedChar('}', 6));
}

#[test]
fn unterminated_string_fails_with_end_of_input() {
    assert_eq!(lex_err("{\"abc"), LexError::UnexpectedEndOfInput(5));
}

#[test]
fn unterminated_number_fails_with_end_of_input() {
    assert_eq!(lex_err("{\"a\":12"), LexError::UnexpectedEndOfInput(7));
}

#[test]
fn misspelled_keyword_is_reported() {
    assert_eq!(lex_err("{\"a\":trve,}"), LexError::UnexpectedChar('v', 7));
    assert_eq!(lex_err("{\"a\":nul}"), LexError::UnexpectedChar('}', 8));
}

#[test]
fn stray_character_is_reported() {
    assert_eq!(lex_err("{\"a\": @}"), LexError::UnexpectedChar('@', 6));
}

#[test]
fn integer_too_large_for_i64_is_reported() {
    assert_eq!(lex_err("{\"a\":99999999999999999999,}"), LexError::UnexpectedChar('9', 5));
}

#[test]
fn largest_i64_value_is_read_exactly() {
    let mut lx = Lexer::new("{\"a\":9223372036854775807,}").unwrap();
    let mut saw = None;
    while let Some(t) = lx.next() {
        if let Token::Int(v, _) = t {
            saw = Some(v);
        }
    }
    assert_eq!(saw, Some(9223372036854775807i64));
}

#[test]
fn nested_object_and_whitespace_tokenize() {
    let text = "{ \"outer\" : { \"inner\" : null } }";
    let mut lx = Lexer::new(text).unwrap();
    let mut kinds = Vec::new();
    while let Some(t) = lx.next() {
        kinds.push(match t {
            Token::LeftBrace(_) => "{",
            Token::RightBrace(_) => "}",
            Token::Colon(_) => ":",
            Token::Str(_, _) => "s",
            Token::Null(_) => "n",
            _ => "?",
        });
    }
    assert_eq!(kinds, vec!["{", "s", ":", "{", "s", ":", "n", "}", "}"]);
}

#[test]
fn unclosed_nested_brace_fails_with_end_of_input() {
    assert_eq!(lex_err("{\"a\":{\"b\":null}"), LexError::UnexpectedEndOfInput(15));
}

#[test]
fn peek_does_not_advance_and_next_does() {
    let mut lx = Lexer::new("{\"k\":null}").unwrap();
    assert!(matches!(lx.peek(0), Some(Token::LeftBrace(_))));
    assert!(matches!(lx.peek(1), Some(Token::Str(_, _))));
    assert!(matches!(lx.peek(0), Some(Token::LeftBrace(_))));
    assert!(matches!(lx.next(), Some(Token::LeftBrace(_))));
    assert!(matches!(lx.peek(0), Some(Token::Str(_, _))));
    assert!(lx.peek(9).is_none());
    let mut n = 0;
    while lx.next().is_some() {
        n += 1;
    }
    assert_eq!(n, 4);
    assert!(lx.next().is_none());
}

#[test]
fn string_token_excludes_its_quotes() {
    let mut lx = Lexer::new("{\"hello\":null}").unwrap();
    lx.next();
    match lx.next() {
        Some(Token::Str(s, sp)) => {
            assert_eq!(s, "hello".to_string());
            assert_eq!(sp.as_tuple(), (1, 8));
        },
        other => panic!("expected a string token, got {other:?}"),
    }
}
