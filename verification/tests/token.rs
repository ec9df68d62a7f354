use sharc::lexer::{Token, TokenKind};
use sharc::render::{plain_text, Paint, Piece};
use sharc::span::Span;

#[test]
fn binding_powers() {
    assert_eq!(TokenKind::Minus.pbind_power(), Some(5));
    assert_eq!(TokenKind::Plus.pbind_power(), None);
    assert_eq!(TokenKind::Star.ibind_power(), Some(2));
    assert_eq!(TokenKind::Slash.ibind_power(), Some(2));
    assert_eq!(TokenKind::Percent.ibind_power(), Some(2));
    assert_eq!(TokenKind::Plus.ibind_power(), Some(1));
    assert_eq!(TokenKind::Minus.ibind_power(), Some(1));
    assert_eq!(TokenKind::Identifier.ibind_power(), None);
    assert_eq!(TokenKind::LParen.sbind_power(), Some(14));
    assert_eq!(TokenKind::LBracket.sbind_power(), Some(14));
    assert_eq!(TokenKind::LBrace.sbind_power(), None);
    assert!(TokenKind::Star.ibind_power() > TokenKind::Plus.ibind_power());
    assert!(TokenKind::LParen.sbind_power() > TokenKind::Star.ibind_power());
}

#[test]
fn delimiters() {
    for kind in [
        TokenKind::Semicolon,
        TokenKind::RParen,
        TokenKind::RBracket,
        TokenKind::RBrace,
        TokenKind::Comma,
    ] {
        assert!(kind.is_delim());
    }
    for kind in [TokenKind::LParen, TokenKind::Colon, TokenKind::EOF, TokenKind::Identifier] {
        assert!(!kind.is_delim());
    }
}

#[test]
fn names_of_kinds() {
    for kind in [
        TokenKind::Identifier,
        TokenKind::KWFn,
        TokenKind::KWExtern,
        TokenKind::DecimalIntLiteral,
        TokenKind::AmpersandAmpersand,
        TokenKind::FatArrowRight,
        TokenKind::Apostrophe,
        TokenKind::EOF,
    ] {
        assert_eq!(kind.name(), format!("{:?}", kind));
    }
    assert!(TokenKind::Identifier < TokenKind::EOF);
}

#[test]
fn a_token_in_a_dump() {
    let token = Token {
        kind: TokenKind::Identifier,
        span: Span::new("a.shd", 3, 6, 1, 4),
        text: "add",
    };
    assert_eq!(token.to_text(), "Token(Identifier, 3-6, \"add\")");
    let token = Token { kind: TokenKind::LParen, span: Span::new("a.shd", 6, 7, 1, 7), text: "" };
    assert_eq!(token.to_text(), "Token(LParen, 6-7)");
    let token = Token {
        kind: TokenKind::StringLiteral,
        span: Span::new("a.shd", 10, 120, 1, 11),
        text: "a\\tb \"q\"",
    };
    assert_eq!(token.to_text(), "Token(StringLiteral, 10-120, \"a\\\\tb \\\"q\\\"\")");
}

#[test]
fn a_token_painted_for_a_dump() {
    let piece = |paint, text: &str| Piece { paint, text: String::from(text) };
    let token = Token {
        kind: TokenKind::Identifier,
        span: Span::new("a.shd", 3, 6, 1, 4),
        text: "add",
    };
    assert_eq!(
        token.pieces(),
        vec![
            piece(Paint::Plain, "Token(Identifier, "),
            piece(Paint::Faint, "3-6"),
            piece(Paint::Plain, ", "),
            piece(Paint::Literal, "\"add\""),
            piece(Paint::Plain, ")"),
        ]
    );
    assert_eq!(plain_text(&token.pieces()), token.to_text());
    let token = Token { kind: TokenKind::EOF, span: Span::new("a.shd", 9, 9, 2, 1), text: "" };
    assert_eq!(
        token.pieces(),
        vec![
            piece(Paint::Plain, "Token(EOF, "),
            piece(Paint::Faint, "9-9"),
            piece(Paint::Plain, ")"),
        ]
    );
    assert_eq!(plain_text(&token.pieces()), token.to_text());
}
