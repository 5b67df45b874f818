use zerotable::lexer::Lexer;
use zerotable::{tokenize, Keyword, Token};

fn s(x: &str) -> String {
    x.to_string()
}

#[test]
fn number_before_field_access() {
    assert_eq!(
        tokenize("10.field").unwrap(),
        vec![Token::Number(s("10")), Token::Dot, Token::Ident(s("field"))]
    );
    assert_eq!(tokenize("10.5").unwrap(), vec![Token::Number(s("10.5"))]);
}

#[test]
fn minus_folds_into_number_without_space() {
    assert_eq!(
        tokenize("a-1").unwrap(),
        vec![Token::Ident(s("a")), Token::Number(s("-1"))]
    );
    assert_eq!(
        tokenize("a - 1").unwrap(),
        vec![Token::Ident(s("a")), Token::Minus, Token::Number(s("1"))]
    );
    assert_eq!(
        tokenize("2 - -1").unwrap(),
        vec![Token::Number(s("2")), Token::Minus, Token::Number(s("-1"))]
    );
    assert_eq!(tokenize("-2.5").unwrap(), vec![Token::Number(s("-2.5"))]);
}

#[test]
fn backticks_defeat_keywords() {
    assert_eq!(tokenize("`where`").unwrap(), vec![Token::Ident(s("where"))]);
    assert_eq!(
        tokenize("where").unwrap(),
        vec![Token::Keyword(Keyword::Where)]
    );
    assert_eq!(tokenize("`a b`").unwrap(), vec![Token::Ident(s("a b"))]);
}

#[test]
fn bang_alone_is_an_error() {
    assert!(tokenize("!").is_err());
    assert_eq!(tokenize("!=").unwrap(), vec![Token::NotEqual]);
}

#[test]
fn fixed_tokens_render_and_relex() {
    let fixed = vec![
        Token::Equal,
        Token::NotEqual,
        Token::GreaterThan,
        Token::GreaterThanOrEqual,
        Token::LessThan,
        Token::LessThanOrEqual,
        Token::Plus,
        Token::Minus,
        Token::Asterisk,
        Token::Slash,
        Token::Percent,
        Token::ColonColon,
        Token::Colon,
        Token::OpenParen,
        Token::CloseParen,
        Token::OpenBrace,
        Token::CloseBrace,
        Token::OpenBracket,
        Token::CloseBracket,
        Token::Comma,
        Token::Dot,
        Token::Keyword(Keyword::And),
        Token::Keyword(Keyword::ContainsAny),
        Token::Keyword(Keyword::ContainsAll),
        Token::Keyword(Keyword::Returning),
        Token::Keyword(Keyword::Null),
    ];
    for t in fixed {
        let text = t.to_string();
        assert_eq!(tokenize(&text).unwrap(), vec![t]);
    }
}

#[test]
fn rendering_of_payload_tokens() {
    assert_eq!(Token::String(s("hi")).to_string(), "\"hi\"");
    assert_eq!(Token::Variable(s("x")).to_string(), "$x");
    assert_eq!(Token::ParentRef(s("a.b")).to_string(), "^a.b");
    assert_eq!(Token::GrandparentRef(s("a")).to_string(), "^^a");
    assert_eq!(Token::Keyword(Keyword::ContainsAll).to_string(), "containsAll");
}

#[test]
fn strings_and_escapes() {
    assert_eq!(
        tokenize(r#""a\"b\\c\nd\te\r""#).unwrap(),
        vec![Token::String(s("a\"b\\c\nd\te\r"))]
    );
    assert_eq!(tokenize("\"\"").unwrap(), vec![Token::String(s(""))]);
    assert!(tokenize(r#""bad \x escape""#).is_err());
    assert!(tokenize("\"unterminated").is_err());
    assert!(tokenize("\"ends in escape\\").is_err());
}

#[test]
fn quoted_identifier_errors() {
    assert!(tokenize("``").is_err());
    assert!(tokenize("`open").is_err());
}

#[test]
fn variables_and_parent_refs() {
    assert_eq!(
        tokenize("$name ^a.b ^^c").unwrap(),
        vec![
            Token::Variable(s("name")),
            Token::ParentRef(s("a.b")),
            Token::GrandparentRef(s("c"))
        ]
    );
    assert!(tokenize("$").is_err());
    assert!(tokenize("^ x").is_err());
    assert!(tokenize("^^").is_err());
}

#[test]
fn whitespace_and_comments_are_skipped() {
    assert_eq!(
        tokenize("  a -- comment\n\t>= -- another").unwrap(),
        vec![Token::Ident(s("a")), Token::GreaterThanOrEqual]
    );
    assert_eq!(tokenize("").unwrap(), vec![]);
    assert_eq!(tokenize("-- only a comment").unwrap(), vec![]);
}

#[test]
fn keywords_are_case_sensitive() {
    assert_eq!(tokenize("WHERE").unwrap(), vec![Token::Ident(s("WHERE"))]);
    assert_eq!(
        tokenize("containsAny").unwrap(),
        vec![Token::Keyword(Keyword::ContainsAny)]
    );
}

#[test]
fn error_carries_position() {
    let err = tokenize("a\n  #").unwrap_err();
    assert!(err.0.contains("line 2, col 3"), "{}", err.0);
    let err = tokenize("a !").unwrap_err();
    assert!(err.0.contains("line 1, col 3"), "{}", err.0);
}

#[test]
fn lexer_yields_tokens_one_by_one() {
    let mut lexer = Lexer::new("a :: b");
    assert_eq!(lexer.next_token(), Some(Ok(Token::Ident(s("a")))));
    assert_eq!(lexer.next_token(), Some(Ok(Token::ColonColon)));
    assert_eq!(lexer.next_token(), Some(Ok(Token::Ident(s("b")))));
    assert_eq!(lexer.next_token(), None);
}

#[test]
fn punctuation_and_unknown_characters() {
    assert_eq!(
        tokenize("{}[](),:").unwrap(),
        vec![
            Token::OpenBrace,
            Token::CloseBrace,
            Token::OpenBracket,
            Token::CloseBracket,
            Token::OpenParen,
            Token::CloseParen,
            Token::Comma,
            Token::Colon
        ]
    );
    assert!(tokenize("a # b").is_err());
}

#[test]
fn unicode_letters_and_spaces() {
    assert_eq!(
        tokenize("héllo\u{3000}名前 x٣").unwrap(),
        vec![
            Token::Ident(s("héllo")),
            Token::Ident(s("名前")),
            Token::Ident(s("x٣"))
        ]
    );
}
