use zephyr::errors::ErrorCode;
use zephyr::lexer::{lex, lex_classified};
use zephyr::tokens::{Additive, Comparison, Multiplicative, TokenType, Unary};

#[test]
fn numbers() {
    let result = lex("2", String::new()).unwrap();

    assert!(
        matches!(result[0].t, TokenType::Number),
        "Expected token 0 to be number"
    );
    assert_eq!(result[0].value, "2", "Expected token 0 value to be \"2\"");
}

#[test]
fn strings() {
    let result = lex(r#""test""#, String::new()).unwrap();

    assert!(
        matches!(result[0].t, TokenType::String),
        "Expected token 0 to be a string"
    );
    assert_eq!(
        result[0].value, "test",
        "Expected token 0 value to be \"test\""
    );
    assert_eq!(
        result[0].location.end, 6,
        "Expected token location end to be 6"
    );
}

#[test]
fn string_escaping() {
    let result = lex(r#""test \\\"""#, String::new()).unwrap();

    assert_eq!(result[0].value, r#"test \""#);
}

#[test]
fn string_newlines() {
    let result = lex("\"hello\n\"", String::new());
    assert!(result.is_err());
}

#[test]
fn identifiers() {
    let result = lex("test", String::new()).unwrap();
    assert_eq!(result[0].value, "test");
}

#[test]
fn identifier_mut() {
    let result = lex("test!", String::new()).unwrap();
    assert_eq!(result[0].value, "test!");
}

#[test]
fn lex_ends_with_single_eof() {
    let result = lex("let x = 1; // note\nx", "main.zr".to_string()).unwrap();
    let last = result.len() - 1;
    assert!(matches!(result[last].t, TokenType::EOF));
    for t in &result[..last] {
        assert!(!matches!(t.t, TokenType::EOF));
    }
    for t in &result {
        assert_eq!(t.location.file_name, Some("main.zr".to_string()));
    }
}

#[test]
fn lex_empty_source_is_only_eof() {
    let result = lex("", String::new()).unwrap();
    assert_eq!(result.len(), 1);
    assert!(matches!(result[0].t, TokenType::EOF));
    assert_eq!(result[0].value, "");
    assert_eq!(result[0].location.start, 0);
    assert_eq!(result[0].location.end, 0);
}

#[test]
fn lex_keywords_and_symbols() {
    let result = lex("let const func return enum expose foo_bar", String::new()).unwrap();
    let kinds: Vec<TokenType> = result.iter().map(|t| t.t).collect();
    assert_eq!(
        kinds,
        vec![
            TokenType::Let,
            TokenType::Const,
            TokenType::Function,
            TokenType::Return,
            TokenType::Enum,
            TokenType::Expose,
            TokenType::Symbol,
            TokenType::EOF
        ]
    );
    assert_eq!(result[6].value, "foo_bar");
}

#[test]
fn lex_operators() {
    let result = lex("..= .. . ** * ++ -> != == <= > $ && ||", String::new()).unwrap();
    let kinds: Vec<TokenType> = result.iter().map(|t| t.t).collect();
    assert_eq!(
        kinds,
        vec![
            TokenType::RangeInclusive,
            TokenType::Range,
            TokenType::Dot,
            TokenType::Multiplicative(Multiplicative::Exponent),
            TokenType::Multiplicative(Multiplicative::Multiply),
            TokenType::Unary(Unary::Increment),
            TokenType::Arrow,
            TokenType::Comparison(Comparison::Neq),
            TokenType::Comparison(Comparison::Eq),
            TokenType::Comparison(Comparison::LtEq),
            TokenType::Comparison(Comparison::Gt),
            TokenType::Unary(Unary::Length),
            TokenType::Logical(zephyr::tokens::Logical::And),
            TokenType::Logical(zephyr::tokens::Logical::Or),
            TokenType::EOF
        ]
    );
    assert_eq!(result[0].value, "..=");
}

#[test]
fn lex_locations_and_lines() {
    let result = lex("a +\n  bc", String::new()).unwrap();
    assert_eq!(result[0].location.start, 0);
    assert_eq!(result[0].location.end, 1);
    assert_eq!(result[0].location.line, 0);
    assert!(matches!(result[1].t, TokenType::Additive(Additive::Plus)));
    assert_eq!(result[1].location.start, 2);
    assert_eq!(result[1].location.end, 3);
    assert_eq!(result[2].value, "bc");
    assert_eq!(result[2].location.line, 1);
    assert_eq!(result[2].location.start, 2);
    assert_eq!(result[2].location.end, 4);
}

#[test]
fn lex_comments_are_skipped() {
    let result = lex("1 /* two\nlines */ 2 // rest\n3", String::new()).unwrap();
    let values: Vec<&str> = result.iter().map(|t| t.value.as_str()).collect();
    assert_eq!(values, vec!["1", "2", "3", ""]);
    assert_eq!(result[2].location.line, 2);
}

#[test]
fn lex_division() {
    let result = lex("4 / 2", String::new()).unwrap();
    assert!(matches!(
        result[1].t,
        TokenType::Multiplicative(Multiplicative::Divide)
    ));
}

#[test]
fn lex_unexpected_character() {
    let err = lex("a # b", String::new()).unwrap_err();
    assert_eq!(err.code, ErrorCode::UnexpectedCharacter);
    assert_eq!(err.message, "Unexpected '#'");
    let loc = err.location.unwrap();
    assert_eq!(loc.start, 2);
}

#[test]
fn lex_single_ampersand_is_unexpected() {
    let err = lex("a & b", String::new()).unwrap_err();
    assert_eq!(err.code, ErrorCode::UnexpectedCharacter);
}

#[test]
fn lex_bad_escape() {
    let err = lex(r#""a\q""#, String::new()).unwrap_err();
    assert_eq!(err.code, ErrorCode::CannotEscape);
    assert_eq!(err.message, "Cannot escape q");
}

#[test]
fn lex_unterminated_string() {
    let err = lex("\"abc", String::new()).unwrap_err();
    assert_eq!(err.code, ErrorCode::UnterminatedString);
    assert_eq!(err.message, "String not closed");
}

#[test]
fn lex_escapes() {
    let result = lex(r#""a\nb\t""#, String::new()).unwrap();
    assert_eq!(result[0].value, "a\nb\t");
}

#[test]
fn lex_unicode_digit_is_a_number_token() {
    let result = lex("\u{0663}", String::new()).unwrap();
    assert!(matches!(result[0].t, TokenType::Number));
    assert_eq!(result[0].location.end, 2);
}

#[test]
fn comparison_text() {
    assert_eq!(Comparison::Eq.to_string(), "==");
    assert_eq!(Comparison::Neq.to_string(), "!=");
    assert_eq!(Comparison::GtEq.to_string(), ">=");
    assert_eq!(Comparison::Lt.to_string(), "<");
}

#[test]
fn lex_tokens_are_at_least_one_byte_wide() {
    let result = lex("let s = \"\"; a..=b // c\n", String::new()).unwrap();
    let last = result.len() - 1;
    for t in &result[..last] {
        assert!(t.location.start < t.location.end);
    }
    assert_eq!(result[last].location.start, result[last].location.end);
    assert_eq!(result[last].value, "");
}

#[test]
fn lex_with_given_classes() {
    // `x1` with `1` counted as numeric; then with nothing counted at all.
    let src = "x1 1";
    let numeric = vec![false, true, false, true];
    let alphabetic = vec![true, false, false, false];
    let result = lex_classified(src, &numeric, &alphabetic, String::new()).unwrap();
    assert!(matches!(result[0].t, TokenType::Symbol));
    assert_eq!(result[0].value, "x1");
    assert!(matches!(result[1].t, TokenType::Number));
    let none = vec![false; 4];
    let err = lex_classified(src, &none, &none, String::new()).unwrap_err();
    assert_eq!(err.code, ErrorCode::UnexpectedCharacter);
    assert_eq!(err.message, "Unexpected 'x'");
}
