use krama_runtime::lexer::{Keyword, Lexer, TokenKind};
use krama_runtime::span::Span;

fn lexer_at(source: &str, position: usize) -> Lexer {
    let mut l = Lexer::new(source, None);
    l.position = position;
    l
}

#[test]
fn identifier_stops_at_first_other_byte() {
    let mut l = lexer_at("counter_1 = 5", 1);
    let t = l.identifier(0);
    assert_eq!(l.position, 9);
    assert_eq!(t.span, Span::new(0, 9));
    assert_eq!(t.kind, TokenKind::Identifier { text: Span::new(0, 9) });
}

#[test]
fn identifier_recognises_keywords() {
    let mut l = lexer_at("while x", 1);
    let t = l.identifier(0);
    assert_eq!(t.kind, TokenKind::Keyword(Keyword::While));
    let mut l = lexer_at("whiles", 1);
    let t = l.identifier(0);
    assert_eq!(t.kind, TokenKind::Identifier { text: Span::new(0, 6) });
    let mut l = lexer_at("continue;", 1);
    assert_eq!(l.identifier(0).kind, TokenKind::Keyword(Keyword::Continue));
}

#[test]
fn number_integer_with_underscores() {
    let mut l = lexer_at("1_000;", 1);
    let t = l.number(0);
    assert_eq!(l.position, 5);
    assert_eq!(t.kind, TokenKind::Integer { text: Span::new(0, 5) });
}

#[test]
fn number_float_and_exponent() {
    let mut l = lexer_at("3.25e-2 ", 1);
    let t = l.number(0);
    assert_eq!(l.position, 7);
    assert_eq!(t.kind, TokenKind::Float { text: Span::new(0, 7) });
    let mut l = lexer_at("2E5", 1);
    assert_eq!(l.number(0).kind, TokenKind::Float { text: Span::new(0, 3) });
}

#[test]
fn number_before_range_stays_integer() {
    let mut l = lexer_at("1..5", 1);
    let t = l.number(0);
    assert_eq!(l.position, 1);
    assert_eq!(t.kind, TokenKind::Integer { text: Span::new(0, 1) });
}

#[test]
fn number_second_dot_ends_float() {
    let mut l = lexer_at("1.2.3", 1);
    let t = l.number(0);
    assert_eq!(l.position, 3);
    assert_eq!(t.kind, TokenKind::Float { text: Span::new(0, 3) });
}

#[test]
fn string_with_escaped_quote() {
    let src = "\"a\\\"b\" rest";
    let mut l = lexer_at(src, 1);
    let t = l.string(0);
    assert_eq!(t.kind, TokenKind::String { text: Span::new(1, 5) });
    assert_eq!(t.span, Span::new(0, 6));
    assert_eq!(l.position, 6);
}

#[test]
fn unterminated_string_is_unknown() {
    let mut l = lexer_at("\"abc", 1);
    let t = l.string(0);
    assert_eq!(t.kind, TokenKind::Unknown);
    assert_eq!(t.span, Span::new(0, 4));
    assert_eq!(l.position, 4);
}

#[test]
fn lexer_accessors() {
    let l = Lexer::new("héllo", Some("main.km".to_string()));
    assert_eq!(l.source_len(), 6);
    assert_eq!(l.file(), &Some("main.km".to_string()));
    assert_eq!(l.source().len(), 6);
    assert_eq!(l.span(2), Span::new(2, 0));
}
