use sharc::lexer::{Lexer, Token, TokenKind};
use sharc::report::{LogHandler, ReportKind};

fn lex(source: &'static str) -> (Vec<Token<'static>>, LogHandler) {
    let mut handler = LogHandler::new();
    let tokens = Lexer::lex(source, "main.shd", &mut handler);
    (tokens, handler)
}

fn kinds(tokens: &[Token]) -> Vec<TokenKind> {
    tokens.iter().map(|t| t.kind).collect()
}

#[test]
fn empty_source_is_one_eof() {
    let (tokens, handler) = lex("");
    assert_eq!(kinds(&tokens), vec![TokenKind::EOF]);
    assert_eq!(tokens[0].span.start, 0);
    assert_eq!(tokens[0].span.end, 0);
    assert_eq!(tokens[0].span.line_number, 1);
    assert_eq!(tokens[0].span.column, 1);
    assert_eq!(handler.len(), 0);
}

#[test]
fn lexes_a_function() {
    let (tokens, handler) = lex("fn add(a: u32, b: u32) u32 { ret a; }");
    assert_eq!(handler.len(), 0);
    assert_eq!(
        kinds(&tokens),
        vec![
            TokenKind::KWFn,
            TokenKind::Identifier,
            TokenKind::LParen,
            TokenKind::Identifier,
            TokenKind::Colon,
            TokenKind::Identifier,
            TokenKind::Comma,
            TokenKind::Identifier,
            TokenKind::Colon,
            TokenKind::Identifier,
            TokenKind::RParen,
            TokenKind::Identifier,
            TokenKind::LBrace,
            TokenKind::KWRet,
            TokenKind::Identifier,
            TokenKind::Semicolon,
            TokenKind::RBrace,
            TokenKind::EOF,
        ]
    );
    assert_eq!(tokens[1].text, "add");
    assert_eq!(tokens[5].text, "u32");
    assert_eq!(tokens[0].text, "");
    assert_eq!(tokens[2].text, "");
}

#[test]
fn keywords_are_told_from_identifiers() {
    let (tokens, _) = lex("fn export extern impl static let ret type fnx _ _x");
    assert_eq!(
        kinds(&tokens),
        vec![
            TokenKind::KWFn,
            TokenKind::KWExport,
            TokenKind::KWExtern,
            TokenKind::KWImpl,
            TokenKind::KWStatic,
            TokenKind::KWLet,
            TokenKind::KWRet,
            TokenKind::KWType,
            TokenKind::Identifier,
            TokenKind::Underscore,
            TokenKind::Identifier,
            TokenKind::EOF,
        ]
    );
    assert_eq!(tokens[8].text, "fnx");
    assert_eq!(tokens[10].text, "_x");
}

#[test]
fn punctuation_is_read_greedily() {
    let (tokens, handler) = lex("&& & || | ^^ ^ <- -> => >= == <= != << >> < > = - !");
    assert_eq!(handler.len(), 0);
    assert_eq!(
        kinds(&tokens),
        vec![
            TokenKind::AmpersandAmpersand,
            TokenKind::Ampersand,
            TokenKind::PipePipe,
            TokenKind::Pipe,
            TokenKind::CaretCaret,
            TokenKind::Caret,
            TokenKind::ArrowLeft,
            TokenKind::ArrowRight,
            TokenKind::FatArrowRight,
            TokenKind::GreaterThanEquals,
            TokenKind::EqualsEquals,
            TokenKind::LessThanEquals,
            TokenKind::NotEquals,
            TokenKind::ShiftLeft,
            TokenKind::ShiftRight,
            TokenKind::LessThan,
            TokenKind::GreaterThan,
            TokenKind::Equals,
            TokenKind::Minus,
            TokenKind::Bang,
            TokenKind::EOF,
        ]
    );
}

#[test]
fn every_single_punctuation() {
    let (tokens, handler) = lex("~ ! @ # $ % ^ & * ( ) - = + [ ] { } | ; : , . / ? > <");
    assert_eq!(handler.len(), 0);
    assert_eq!(
        kinds(&tokens),
        vec![
            TokenKind::Tilde,
            TokenKind::Bang,
            TokenKind::At,
            TokenKind::Pound,
            TokenKind::Dollar,
            TokenKind::Percent,
            TokenKind::Caret,
            TokenKind::Ampersand,
            TokenKind::Star,
            TokenKind::LParen,
            TokenKind::RParen,
            TokenKind::Minus,
            TokenKind::Equals,
            TokenKind::Plus,
            TokenKind::LBracket,
            TokenKind::RBracket,
            TokenKind::LBrace,
            TokenKind::RBrace,
            TokenKind::Pipe,
            TokenKind::Semicolon,
            TokenKind::Colon,
            TokenKind::Comma,
            TokenKind::Dot,
            TokenKind::Slash,
            TokenKind::Question,
            TokenKind::GreaterThan,
            TokenKind::LessThan,
            TokenKind::EOF,
        ]
    );
}

#[test]
fn numbers_by_radix() {
    let (tokens, handler) = lex("0b101 0o17 0x1F 123 1.5 0 0b 7.");
    assert_eq!(handler.len(), 0);
    assert_eq!(
        kinds(&tokens),
        vec![
            TokenKind::BinaryIntLiteral,
            TokenKind::OctalIntLiteral,
            TokenKind::HexadecimalIntLiteral,
            TokenKind::DecimalIntLiteral,
            TokenKind::FloatLiteral,
            TokenKind::DecimalIntLiteral,
            TokenKind::DecimalIntLiteral,
            TokenKind::Identifier,
            TokenKind::DecimalIntLiteral,
            TokenKind::Dot,
            TokenKind::EOF,
        ]
    );
    assert_eq!(tokens[0].text, "0b101");
    assert_eq!(tokens[1].text, "0o17");
    assert_eq!(tokens[2].text, "0x1F");
    assert_eq!(tokens[3].text, "123");
    assert_eq!(tokens[4].text, "1.5");
    assert_eq!(tokens[6].text, "0");
    assert_eq!(tokens[7].text, "b");
    assert_eq!(tokens[8].text, "7");
}

#[test]
fn string_text_is_kept_raw() {
    let (tokens, handler) = lex(r#""a\tb" "say \"hi\"" """#);
    assert_eq!(handler.len(), 0);
    assert_eq!(
        kinds(&tokens),
        vec![
            TokenKind::StringLiteral,
            TokenKind::StringLiteral,
            TokenKind::StringLiteral,
            TokenKind::EOF
        ]
    );
    assert_eq!(tokens[0].text, r"a\tb");
    assert_eq!(tokens[0].span.start, 0);
    assert_eq!(tokens[0].span.end, 6);
    assert_eq!(tokens[1].text, r#"say \"hi\""#);
    assert_eq!(tokens[2].text, "");
}

#[test]
fn unterminated_string_is_reported_and_passed_over() {
    let (tokens, handler) = lex("\"abc\nfn f(): void;");
    assert_eq!(handler.len(), 1);
    let shown = handler.terminate(sharc::report::Level::Note);
    assert_eq!(shown[0].report.kind, ReportKind::UnterminatedStringLiteral);
    assert_eq!(shown[0].filename, "main.shd");
    let span = shown[0].report.span.unwrap();
    assert_eq!((span.start, span.end, span.line_number, span.column), (0, 4, 1, 1));
    assert_eq!(
        kinds(&tokens),
        vec![
            TokenKind::KWFn,
            TokenKind::Identifier,
            TokenKind::LParen,
            TokenKind::RParen,
            TokenKind::Colon,
            TokenKind::Identifier,
            TokenKind::Semicolon,
            TokenKind::EOF,
        ]
    );
    assert_eq!(tokens[0].span.line_number, 2);
    assert_eq!(tokens[0].span.column, 1);
}

#[test]
fn unterminated_string_at_end_of_text() {
    let (tokens, handler) = lex("x \"abc\\");
    assert_eq!(kinds(&tokens), vec![TokenKind::Identifier, TokenKind::EOF]);
    assert_eq!(handler.len(), 1);
    let shown = handler.terminate(sharc::report::Level::Error);
    assert_eq!(shown[0].report.kind, ReportKind::UnterminatedStringLiteral);
}

#[test]
fn character_literals() {
    let (tokens, handler) = lex(r"'a' '\n' 'label x");
    assert_eq!(handler.len(), 0);
    assert_eq!(
        kinds(&tokens),
        vec![
            TokenKind::CharLiteral,
            TokenKind::CharLiteral,
            TokenKind::Apostrophe,
            TokenKind::Identifier,
            TokenKind::Identifier,
            TokenKind::EOF,
        ]
    );
    assert_eq!(tokens[0].text, "a");
    assert_eq!(tokens[1].text, r"\n");
    assert_eq!(tokens[3].text, "label");
}

#[test]
fn faulty_character_literals() {
    let (tokens, handler) = lex("'' '+ '");
    assert_eq!(kinds(&tokens), vec![TokenKind::Plus, TokenKind::EOF]);
    let shown = handler.terminate(sharc::report::Level::Error);
    let found: Vec<ReportKind> = shown.iter().map(|e| e.report.kind).collect();
    assert_eq!(
        found,
        vec![
            ReportKind::EmptyCharLiteral,
            ReportKind::UnterminatedCharLiteral,
            ReportKind::UnterminatedCharLiteral,
        ]
    );
}

#[test]
fn comments_are_passed_over() {
    let (tokens, handler) = lex("a // one\nb /* two\n three */ c / d");
    assert_eq!(handler.len(), 0);
    assert_eq!(
        kinds(&tokens),
        vec![
            TokenKind::Identifier,
            TokenKind::Identifier,
            TokenKind::Identifier,
            TokenKind::Slash,
            TokenKind::Identifier,
            TokenKind::EOF,
        ]
    );
    assert_eq!(tokens[2].text, "c");
    assert_eq!(tokens[2].span.line_number, 3);
    assert_eq!(tokens[2].span.column, 11);
}

#[test]
fn unterminated_block_comment() {
    let (tokens, handler) = lex("a /* b c");
    assert_eq!(kinds(&tokens), vec![TokenKind::Identifier, TokenKind::EOF]);
    let shown = handler.terminate(sharc::report::Level::Error);
    assert_eq!(shown.len(), 1);
    assert_eq!(shown[0].report.kind, ReportKind::UnterminatedMultilineComment);
    let span = shown[0].report.span.unwrap();
    assert_eq!((span.start, span.end), (2, 8));
}

#[test]
fn unexpected_character_is_named() {
    let (tokens, handler) = lex("a ` b \u{e9}");
    assert_eq!(
        kinds(&tokens),
        vec![TokenKind::Identifier, TokenKind::Identifier, TokenKind::EOF]
    );
    let shown = handler.terminate(sharc::report::Level::Error);
    assert_eq!(shown.len(), 2);
    assert_eq!(shown[0].report.kind, ReportKind::UnexpectedCharacter);
    assert_eq!(shown[0].report.title.as_deref(), Some("Unexpected character '`'"));
    assert_eq!(shown[1].report.title.as_deref(), Some("Unexpected character '\u{e9}'"));
    let span = shown[1].report.span.unwrap();
    assert_eq!((span.start, span.end, span.column), (6, 7, 7));
    assert_eq!(tokens[2].span.start, 7);
}

#[test]
fn lines_and_columns_are_counted() {
    let (tokens, _) = lex("fn\n  main\n\n    (");
    assert_eq!(
        tokens.iter().map(|t| (t.span.line_number, t.span.column)).collect::<Vec<_>>(),
        vec![(1, 1), (2, 3), (4, 5), (4, 6)]
    );
    assert_eq!(
        tokens.iter().map(|t| (t.span.start, t.span.end)).collect::<Vec<_>>(),
        vec![(0, 2), (5, 9), (15, 16), (16, 16)]
    );
}

#[test]
fn spans_slice_the_source() {
    let source = "export fn f(a: *u8) { ret $g(a, \"s\", 10); }";
    let (tokens, handler) = lex(source);
    assert_eq!(handler.len(), 0);
    let chars: Vec<char> = source.chars().collect();
    for pair in tokens.windows(2) {
        assert!(pair[0].span.start < pair[0].span.end);
        assert!(pair[0].span.end <= pair[1].span.start);
    }
    for token in &tokens {
        let slice: String = chars[token.span.start..token.span.end].iter().collect();
        match token.kind {
            TokenKind::Identifier | TokenKind::DecimalIntLiteral => assert_eq!(slice, token.text),
            TokenKind::StringLiteral => assert_eq!(slice, format!("\"{}\"", token.text)),
            _ => assert_eq!(token.text, ""),
        }
    }
    let last = tokens.last().unwrap();
    assert_eq!(last.kind, TokenKind::EOF);
    assert_eq!(last.span.start, chars.len());
    assert_eq!(tokens.iter().filter(|t| t.kind == TokenKind::EOF).count(), 1);
}
