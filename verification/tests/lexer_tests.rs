use pact::lexer::{DurationUnit, Lexer, TokenKind};

fn lex(input: &str) -> Vec<TokenKind> {
    let mut lexer = Lexer::new(input);
    lexer.tokenize()
        .unwrap()
        .into_iter()
        .map(|t| t.kind)
        .filter(|k| !matches!(k, TokenKind::Eof))
        .collect()
}

#[test]
fn test_delimiters() {
    assert_eq!(lex("()[]{}"), vec![
        TokenKind::LParen, TokenKind::RParen,
        TokenKind::LBracket, TokenKind::RBracket,
        TokenKind::LBrace, TokenKind::RBrace,
    ]);
}

#[test]
fn test_symbols() {
    assert_eq!(lex("foo bar-baz non-empty? insert!"), vec![
        TokenKind::Symbol("foo".into()),
        TokenKind::Symbol("bar-baz".into()),
        TokenKind::Symbol("non-empty?".into()),
        TokenKind::Symbol("insert!".into()),
    ]);
}

#[test]
fn test_symbol_with_slash() {
    assert_eq!(lex("api-router/handle-request"), vec![
        TokenKind::Symbol("api-router/handle-request".into()),
    ]);
}

#[test]
fn test_keywords() {
    assert_eq!(lex(":provenance :effects :total"), vec![
        TokenKind::Keyword("provenance".into()),
        TokenKind::Keyword("effects".into()),
        TokenKind::Keyword("total".into()),
    ]);
}

#[test]
fn test_strings() {
    assert_eq!(lex(r#""hello" "world""#), vec![
        TokenKind::StringLit("hello".into()),
        TokenKind::StringLit("world".into()),
    ]);
}

#[test]
fn test_string_escapes() {
    assert_eq!(lex(r#""hello\nworld""#), vec![
        TokenKind::StringLit("hello\nworld".into()),
    ]);
}

#[test]
fn test_integers() {
    assert_eq!(lex("42 -7 0"), vec![
        TokenKind::IntLit(42),
        TokenKind::IntLit(-7),
        TokenKind::IntLit(0),
    ]);
}

#[test]
fn test_booleans() {
    assert_eq!(lex("true false"), vec![
        TokenKind::BoolLit(true),
        TokenKind::BoolLit(false),
    ]);
}

#[test]
fn test_durations() {
    assert_eq!(lex("50ms 200ms"), vec![
        TokenKind::DurationLit(50, DurationUnit::Ms),
        TokenKind::DurationLit(200, DurationUnit::Ms),
    ]);
}

#[test]
fn test_regex() {
    assert_eq!(lex(r#"#/.+@.+\..+/"#), vec![
        TokenKind::RegexLit(r".+@.+\..+".into()),
    ]);
}

#[test]
fn test_comments_skipped() {
    assert_eq!(lex(";; this is a comment\nfoo"), vec![
        TokenKind::Symbol("foo".into()),
    ]);
}

#[test]
fn lexer_test_simple_list() {
    assert_eq!(lex("(module user-service)"), vec![
        TokenKind::LParen,
        TokenKind::Symbol("module".into()),
        TokenKind::Symbol("user-service".into()),
        TokenKind::RParen,
    ]);
}

#[test]
fn test_keyword_value_pair() {
    assert_eq!(lex(":version 7"), vec![
        TokenKind::Keyword("version".into()),
        TokenKind::IntLit(7),
    ]);
}

#[test]
fn test_field_declaration() {
    assert_eq!(lex("(field name String :min-len 1 :max-len 200)"), vec![
        TokenKind::LParen,
        TokenKind::Symbol("field".into()),
        TokenKind::Symbol("name".into()),
        TokenKind::Symbol("String".into()),
        TokenKind::Keyword("min-len".into()),
        TokenKind::IntLit(1),
        TokenKind::Keyword("max-len".into()),
        TokenKind::IntLit(200),
        TokenKind::RParen,
    ]);
}

#[test]
fn test_map_syntax() {
    assert_eq!(lex(r#"{req: "SPEC-2024-0042", author: "agent"}"#), vec![
        TokenKind::LBrace,
        TokenKind::Symbol("req".into()),
        TokenKind::Colon,
        TokenKind::StringLit("SPEC-2024-0042".into()),
        TokenKind::Comma,
        TokenKind::Symbol("author".into()),
        TokenKind::Colon,
        TokenKind::StringLit("agent".into()),
        TokenKind::RBrace,
    ]);
}

#[test]
fn test_dot_accessor() {
    assert_eq!(lex("(. input email)"), vec![
        TokenKind::LParen,
        TokenKind::Symbol(".".into()),
        TokenKind::Symbol("input".into()),
        TokenKind::Symbol("email".into()),
        TokenKind::RParen,
    ]);
}
