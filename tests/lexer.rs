use ftl::lexer::{tokenize, LexErrorKind};
use ftl::token::TokenKind;

fn kinds(text: &str) -> Vec<TokenKind> {
    tokenize(text).unwrap().into_iter().map(|t| t.value).collect()
}

#[test]
fn keywords_and_symbols_read_back() {
    let cases: Vec<(&str, TokenKind)> = vec![
        ("function", TokenKind::Def),
        ("if", TokenKind::If),
        ("else", TokenKind::Else),
        ("while", TokenKind::While),
        ("var", TokenKind::Var),
        ("struct", TokenKind::Struct),
        ("ptr", TokenKind::Pointer),
        ("+", TokenKind::Plus),
        ("-", TokenKind::Minus),
        ("*", TokenKind::Star),
        ("/", TokenKind::Slash),
        ("<", TokenKind::Less),
        (">", TokenKind::Greater),
        ("=", TokenKind::Equal),
        ("==", TokenKind::EqualEqual),
        ("=/=", TokenKind::NotEqual),
        ("(", TokenKind::OpeningParentheses),
        (")", TokenKind::ClosingParentheses),
        ("{", TokenKind::OpeningCurlyBraces),
        ("}", TokenKind::ClosingCurlyBraces),
        ("[", TokenKind::OpeningSquareBrackets),
        ("]", TokenKind::ClosingSquareBrackets),
        (",", TokenKind::Comma),
        (";", TokenKind::Semicolon),
        (":", TokenKind::Colon),
        (".", TokenKind::Dot),
        ("|", TokenKind::BitOr),
        ("&", TokenKind::BitAnd),
        ("%", TokenKind::Modulus),
        ("\n", TokenKind::EndOfLine),
    ];
    for (text, kind) in cases {
        assert_eq!(kinds(text), vec![kind], "{:?}", text);
    }
}

#[test]
fn identifiers_keep_their_name() {
    assert_eq!(
        kinds("whilex a_b x_1"),
        vec![
            TokenKind::Identifier("whilex".to_string()),
            TokenKind::Identifier("a_b".to_string()),
            TokenKind::Identifier("x_1".to_string()),
        ]
    );
}

#[test]
fn integer_literal_has_its_value() {
    assert_eq!(kinds("0"), vec![TokenKind::Int(0)]);
    assert_eq!(kinds("42"), vec![TokenKind::Int(42)]);
    assert_eq!(kinds("007"), vec![TokenKind::Int(7)]);
    assert_eq!(kinds("9223372036854775807"), vec![TokenKind::Int(i64::MAX)]);
}

#[test]
fn integer_too_large_is_an_error() {
    let e = tokenize("x 9223372036854775808").unwrap_err();
    assert_eq!(e.kind, LexErrorKind::IntegerOverflow);
    assert_eq!((e.line, e.column), (1, 3));
}

#[test]
fn float_literal_keeps_its_text() {
    assert_eq!(kinds("3.25"), vec![TokenKind::Float("3.25".to_string())]);
}

#[test]
fn second_decimal_point_is_an_error() {
    let e = tokenize("a = 1.2.3").unwrap_err();
    assert_eq!(e.kind, LexErrorKind::MalformedNumber);
    assert_eq!((e.line, e.column), (1, 5));
    assert_eq!(tokenize("1.").unwrap_err().kind, LexErrorKind::MalformedNumber);
}

#[test]
fn unexpected_character_is_an_error() {
    let e = tokenize("a\n  b $").unwrap_err();
    assert_eq!(e.kind, LexErrorKind::UnexpectedCharacter);
    assert_eq!((e.line, e.column), (2, 5));
}

#[test]
fn comment_takes_rest_of_line() {
    assert_eq!(
        kinds("a // note = 1\nb"),
        vec![
            TokenKind::Identifier("a".to_string()),
            TokenKind::Comment(" note = 1".to_string()),
            TokenKind::EndOfLine,
            TokenKind::Identifier("b".to_string()),
        ]
    );
    assert_eq!(kinds("a/b"), vec![
        TokenKind::Identifier("a".to_string()),
        TokenKind::Slash,
        TokenKind::Identifier("b".to_string()),
    ]);
}

#[test]
fn equal_and_not_equal_lookahead() {
    assert_eq!(
        kinds("a=/b"),
        vec![
            TokenKind::Identifier("a".to_string()),
            TokenKind::Equal,
            TokenKind::Slash,
            TokenKind::Identifier("b".to_string()),
        ]
    );
    assert_eq!(kinds("===/="), vec![TokenKind::EqualEqual, TokenKind::NotEqual]);
}

#[test]
fn positions_count_lines_and_columns() {
    let tokens = tokenize("var x\n\tx = 10").unwrap();
    let positions: Vec<(usize, usize)> = tokens.iter().map(|t| (t.line, t.column)).collect();
    assert_eq!(positions, vec![(1, 1), (1, 5), (1, 6), (2, 2), (2, 4), (2, 6)]);
}

#[test]
fn empty_input_has_no_tokens() {
    assert!(tokenize("").unwrap().is_empty());
    assert!(tokenize("  \t ").unwrap().is_empty());
}
