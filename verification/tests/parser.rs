use sharc::bigint::IBig;
use sharc::lexer::{Lexer, Token, TokenKind};
use sharc::parser::ast::{Attrs, Node, Type};
use sharc::parser::{parse_char, resolve_escapes, Parser};
use sharc::report::{Level, LogHandler, Report, ReportKind};
use sharc::span::{Sp, Span};

fn parse(source: &'static str) -> (Vec<Sp<Node<'static>>>, Vec<Report>) {
    let mut handler = LogHandler::new();
    let tokens = Lexer::lex(source, "main.shd", &mut handler);
    let ast = Parser::parse(tokens, "main.shd", &mut handler);
    let reports = handler.terminate(Level::Note).into_iter().map(|e| e.report).collect();
    (ast, reports)
}

fn tok(kind: TokenKind, text: &'static str, at: usize) -> Token<'static> {
    Token { kind, span: Span::new("test.shd", at, at + 1, 1, at + 1), text }
}

fn func<'a>(node: &'a Sp<Node<'static>>) -> (
    &'static str,
    &'a Vec<(Sp<&'static str>, Sp<Type<'static>>)>,
    Option<&'a Type<'static>>,
    &'a Vec<Sp<Node<'static>>>,
    Vec<Attrs>,
) {
    match &node.elem {
        Node::Func { name, args, ret, body, attrs } => (
            name.elem,
            args,
            ret.as_ref().map(|t| &t.elem),
            body,
            attrs.iter().map(|a| a.elem).collect(),
        ),
        other => panic!("not a function: {:?}", other),
    }
}

/// The statements of `fn f() { <source> }`.
fn body_of(source: &'static str) -> (Vec<Sp<Node<'static>>>, Vec<Report>) {
    let (mut ast, reports) = parse(source);
    assert_eq!(ast.len(), 1, "{:?}", reports);
    match ast.remove(0).elem {
        Node::Func { body, .. } => (body, reports),
        other => panic!("not a function: {:?}", other),
    }
}

#[test]
fn function_with_parameters_return_type_and_block() {
    let source = "fn add(a: u32, b: u32) u32 { ret a; }";
    let (ast, reports) = parse(source);
    assert!(reports.is_empty(), "{:?}", reports);
    assert_eq!(ast.len(), 1);
    let (name, args, ret, body, attrs) = func(&ast[0]);
    assert_eq!(name, "add");
    assert!(attrs.is_empty());
    assert_eq!(args.len(), 2);
    assert_eq!(args[0].0.elem, "a");
    assert_eq!(args[0].1.elem, Type::U(32));
    assert_eq!(args[1].0.elem, "b");
    assert_eq!(args[1].1.elem, Type::U(32));
    assert_eq!(ret, Some(&Type::U(32)));
    assert_eq!(body.len(), 1);
    match &body[0].elem {
        Node::Ret(Some(value)) => assert_eq!(value.elem, Node::Ident("a")),
        other => panic!("not a ret: {:?}", other),
    }
    assert_eq!(ast[0].span.start, 0);
    assert_eq!(ast[0].span.end, source.len());
    assert_eq!(ast[0].span.line_number, 1);
    assert_eq!(ast[0].span.column, 1);
    assert_eq!((body[0].span.start, body[0].span.end), (29, 35));
}

#[test]
fn colon_after_the_parameters_opens_a_body_of_one_statement() {
    let (ast, reports) = parse("fn add(a: u32, b: u32): u32 { ret a; }");
    assert!(ast.is_empty());
    assert_eq!(reports.len(), 2);
    assert_eq!(reports[0].kind, ReportKind::UnexpectedToken);
    assert_eq!(reports[0].title.as_deref(), Some("Expected ';', got 'LBrace'"));
    assert_eq!(reports[1].title.as_deref(), Some("got 'RBrace'"));
}

#[test]
fn exported_declaration_without_body() {
    let (ast, reports) = parse("export fn main() void;");
    assert!(reports.is_empty(), "{:?}", reports);
    assert_eq!(ast.len(), 1);
    let (name, args, ret, body, attrs) = func(&ast[0]);
    assert_eq!(name, "main");
    assert!(args.is_empty());
    assert_eq!(ret, Some(&Type::Void));
    assert!(body.is_empty());
    assert_eq!(attrs, vec![Attrs::Export]);
    assert_eq!((ast[0].span.start, ast[0].span.end), (0, 22));
}

#[test]
fn exported_function_with_a_statement_after_the_colon() {
    let (ast, reports) = parse("export fn main(): void;");
    assert!(reports.is_empty(), "{:?}", reports);
    assert_eq!(ast.len(), 1);
    let (name, _, ret, body, attrs) = func(&ast[0]);
    assert_eq!(name, "main");
    assert_eq!(ret, None);
    assert_eq!(attrs, vec![Attrs::Export]);
    assert_eq!(body.len(), 1);
    assert_eq!(body[0].elem, Node::Ident("void"));
}

#[test]
fn modifiers_attach_from_the_inside_out() {
    let (ast, reports) = parse("export extern fn f();");
    assert!(reports.is_empty());
    let (_, _, ret, body, attrs) = func(&ast[0]);
    assert_eq!(ret, None);
    assert!(body.is_empty());
    assert_eq!(attrs, vec![Attrs::Extern, Attrs::Export]);
    match &ast[0].elem {
        Node::Func { attrs, .. } => {
            assert_eq!((attrs[0].span.start, attrs[0].span.end), (7, 13));
            assert_eq!((attrs[1].span.start, attrs[1].span.end), (0, 6));
        }
        _ => unreachable!(),
    }
    assert_eq!((ast[0].span.start, ast[0].span.end), (0, 21));
}

#[test]
fn assignment_keeps_a_number_of_any_size() {
    let (body, reports) = body_of("fn f() { let x: u8 = 999999; }");
    assert!(reports.is_empty(), "{:?}", reports);
    assert_eq!(body.len(), 1);
    match &body[0].elem {
        Node::Assign { name, ty, value } => {
            assert_eq!(name.elem, "x");
            assert_eq!(ty.elem, Type::U(8));
            assert_eq!(value.elem, Node::UIntLit(IBig::from_u64(999999)));
        }
        other => panic!("not an assignment: {:?}", other),
    }
    assert_eq!((body[0].span.start, body[0].span.end), (9, 28));
    let (body, _) = body_of("fn f() { let x: u8 = 123456789012345678901234567890; }");
    match &body[0].elem {
        Node::Assign { value, .. } => match &value.elem {
            Node::UIntLit(n) => assert_eq!(n.to_u64(), None),
            other => panic!("not a number: {:?}", other),
        },
        other => panic!("not an assignment: {:?}", other),
    }
}

#[test]
fn unterminated_string_costs_one_report_and_no_function() {
    let (ast, reports) = parse("\"abc\nfn f(): void;");
    assert_eq!(reports.len(), 1);
    assert_eq!(reports[0].kind, ReportKind::UnterminatedStringLiteral);
    assert_eq!(ast.len(), 1);
    let (name, _, _, _, _) = func(&ast[0]);
    assert_eq!(name, "f");
    let (ast, reports) = parse("\"abc\nfn f() void;");
    assert_eq!(reports.len(), 1);
    let (name, _, ret, body, _) = func(&ast[0]);
    assert_eq!(name, "f");
    assert_eq!(ret, Some(&Type::Void));
    assert!(body.is_empty());
}

#[test]
fn parsing_resumes_after_a_malformed_declaration() {
    let (ast, reports) = parse("fn (a: u8) void;\nfn good() void;\n+ ;\nfn also() { ret; }");
    assert_eq!(ast.len(), 2);
    assert_eq!(func(&ast[0]).0, "good");
    assert_eq!(func(&ast[1]).0, "also");
    assert_eq!(reports.len(), 2);
    assert_eq!(reports[0].title.as_deref(), Some("Expected identifier"));
    assert_eq!(reports[0].span.map(|s| (s.start, s.end)), Some((3, 4)));
    assert_eq!(reports[1].title.as_deref(), Some("got 'Plus'"));
    assert!(reports.iter().all(|r| r.kind == ReportKind::UnexpectedToken));
}

#[test]
fn parsing_resumes_after_the_first_delimiter() {
    let (ast, reports) = parse("fn (a) { x; }\nfn lost() void;\nfn kept() void;");
    assert_eq!(ast.len(), 1);
    assert_eq!(func(&ast[0]).0, "kept");
    assert_eq!(reports.len(), 2);
    assert_eq!(reports[0].title.as_deref(), Some("Expected identifier"));
    assert_eq!(reports[1].title.as_deref(), Some("got 'RBrace'"));
}

#[test]
fn an_error_in_a_block_costs_one_statement() {
    let (body, reports) = body_of("fn f() { let = 1; ret a; x }");
    assert_eq!(reports.len(), 2);
    assert_eq!(reports[0].title.as_deref(), Some("Expected identifier, got 'Equals'"));
    assert_eq!(reports[1].title.as_deref(), Some("Expected ';', got 'RBrace'"));
    assert_eq!(body.len(), 1);
    assert!(matches!(body[0].elem, Node::Ret(Some(_))));
}

#[test]
fn block_that_runs_into_the_end() {
    let (ast, reports) = parse("fn f() { ret a;");
    assert!(ast.is_empty());
    assert_eq!(reports.len(), 1);
    assert_eq!(reports[0].kind, ReportKind::UnexpectedEOF);
    assert_eq!(reports[0].title.as_deref(), Some("Expected '}'"));
    let span = reports[0].span.unwrap();
    assert_eq!((span.start, span.end), (14, 15));
    let (ast, reports) = parse("fn f() { let x");
    assert!(ast.is_empty());
    assert_eq!(reports.len(), 2);
    assert_eq!(reports[0].title.as_deref(), Some("Expected ':', got 'EOF'"));
    assert_eq!(reports[1].kind, ReportKind::UnexpectedEOF);
}

#[test]
fn modifier_before_the_end() {
    let (ast, reports) = parse("export");
    assert!(ast.is_empty());
    assert_eq!(reports.len(), 1);
    assert_eq!(reports[0].kind, ReportKind::UnexpectedEOF);
    assert_eq!(reports[0].title, None);
    assert_eq!(reports[0].span.map(|s| (s.start, s.end)), Some((0, 6)));
}

#[test]
fn every_spelling_of_a_type() {
    let (ast, reports) = parse(
        "fn f(a: *u8, b: [i64], c: opt b1, d: mut f32, e: usize, f: isize, g: Thing, h: **[never]) void;",
    );
    assert!(reports.is_empty(), "{:?}", reports);
    let (_, args, ret, _, _) = func(&ast[0]);
    assert_eq!(ret, Some(&Type::Void));
    let types: Vec<&Type> = args.iter().map(|a| &a.1.elem).collect();
    match types[0] {
        Type::Ptr(inner) => assert_eq!(inner.elem, Type::U(8)),
        other => panic!("{:?}", other),
    }
    match types[1] {
        Type::Arr(inner, None) => assert_eq!(inner.elem, Type::I(64)),
        other => panic!("{:?}", other),
    }
    match types[2] {
        Type::Opt(inner) => assert_eq!(inner.elem, Type::B(1)),
        other => panic!("{:?}", other),
    }
    match types[3] {
        Type::Mut(inner) => assert_eq!(inner.elem, Type::F(32)),
        other => panic!("{:?}", other),
    }
    assert_eq!(types[4], &Type::Usize);
    assert_eq!(types[5], &Type::Isize);
    assert_eq!(types[6], &Type::Ident("Thing"));
    match types[7] {
        Type::Ptr(a) => match &a.elem {
            Type::Ptr(b) => match &b.elem {
                Type::Arr(c, None) => assert_eq!(c.elem, Type::Never),
                other => panic!("{:?}", other),
            },
            other => panic!("{:?}", other),
        },
        other => panic!("{:?}", other),
    }
    assert_eq!((args[0].1.span.start, args[0].1.span.end), (8, 11));
    assert_eq!((args[1].1.span.start, args[1].1.span.end), (16, 21));
    assert_eq!((args[2].1.span.start, args[2].1.span.end), (26, 32));
    assert_eq!((args[7].1.span.start, args[7].1.span.end), (79, 88));
}

#[test]
fn width_that_is_no_number() {
    for (source, hint) in [
        ("fn f(a: uint) void;", "try 'u8'"),
        ("fn f(a: i) void;", "try 'i8'"),
        ("fn f(a: bool) void;", "try 'b8'"),
        ("fn f(a: float) void;", "try 'f8'"),
        ("fn f(a: u99999999999) void;", "try 'u8'"),
    ] {
        let (ast, reports) = parse(source);
        assert!(ast.is_empty());
        assert_eq!(reports[0].kind, ReportKind::InvalidNumber);
        assert_eq!(reports[0].title.as_deref(), Some("Invalid integer in primitive type"));
        assert_eq!(reports[0].label.as_deref(), Some(hint));
        assert_eq!(reports[0].span.map(|s| s.start), Some(8));
    }
    let (ast, reports) = parse("fn f(a: u4294967295, b: u007) void;");
    assert!(reports.is_empty());
    let (_, args, _, _, _) = func(&ast[0]);
    assert_eq!(args[0].1.elem, Type::U(4294967295));
    assert_eq!(args[1].1.elem, Type::U(7));
}

#[test]
fn parameters_are_separated_by_commas() {
    let (ast, reports) = parse("fn f(a: u8 b: u8) void;");
    assert!(ast.is_empty());
    assert_eq!(reports[0].title.as_deref(), Some("Expected ',' or ')'"));
    assert_eq!(reports[0].span.map(|s| s.start), Some(11));
    let (ast, reports) = parse("fn f(a: u8,) void;");
    assert!(reports.is_empty());
    assert_eq!(func(&ast[0]).1.len(), 1);
    let (_, reports) = parse("fn f(a u8) void;");
    assert_eq!(reports[0].title.as_deref(), Some("Expected ':'"));
    let (_, reports) = parse("fn f(1) void;");
    assert_eq!(reports[0].title.as_deref(), Some("Expected identifier"));
    let (_, reports) = parse("fn f a) void;");
    assert_eq!(reports[0].title.as_deref(), Some("Expected '('"));
    let (_, reports) = parse("fn f() void +");
    assert_eq!(reports[0].title.as_deref(), Some("Expected '{', ';', or ':'"));
    let (_, reports) = parse("fn f() +;");
    assert_eq!(reports[0].title.as_deref(), Some("Expected type"));
    let (_, reports) = parse("fn f(a: [u8) void;");
    assert_eq!(reports[0].title.as_deref(), Some("Expected ']'"));
}

#[test]
fn calls_and_their_arguments() {
    let (body, reports) = body_of("fn f() { $g(a, \"s\" 10,,); $h x; $p $q y; $e(); }");
    assert!(reports.is_empty(), "{:?}", reports);
    assert_eq!(body.len(), 4);
    match &body[0].elem {
        Node::FuncCall { name, args } => {
            assert_eq!(name.elem, "g");
            assert_eq!(args.len(), 3);
            assert_eq!(args[0].elem, Node::Ident("a"));
            assert_eq!(args[1].elem, Node::StrLit(String::from("s")));
            assert_eq!(args[2].elem, Node::UIntLit(IBig::from_u64(10)));
        }
        other => panic!("{:?}", other),
    }
    assert_eq!((body[0].span.start, body[0].span.end), (9, 24));
    match &body[1].elem {
        Node::FuncCall { name, args } => {
            assert_eq!(name.elem, "h");
            assert_eq!(args.len(), 1);
            assert_eq!(args[0].elem, Node::Ident("x"));
        }
        other => panic!("{:?}", other),
    }
    match &body[2].elem {
        Node::FuncCall { name, args } => {
            assert_eq!(name.elem, "p");
            match &args[0].elem {
                Node::FuncCall { name, args } => {
                    assert_eq!(name.elem, "q");
                    assert_eq!(args[0].elem, Node::Ident("y"));
                }
                other => panic!("{:?}", other),
            }
        }
        other => panic!("{:?}", other),
    }
    match &body[3].elem {
        Node::FuncCall { name, args } => {
            assert_eq!(name.elem, "e");
            assert!(args.is_empty());
        }
        other => panic!("{:?}", other),
    }
}

#[test]
fn faulty_calls() {
    let (_, reports) = body_of("fn f() { $1; }");
    assert_eq!(reports[0].title.as_deref(), Some("Expected identifier"));
    let (ast, reports) = parse("fn f() { $g(a, ");
    assert!(ast.is_empty());
    assert_eq!(reports[0].kind, ReportKind::UnexpectedEOF);
    assert_eq!(reports[0].title.as_deref(), Some("Expected ')'"));
    let (_, reports) = body_of("fn f() { ; }");
    assert_eq!(reports[0].title.as_deref(), Some("Expected expression"));
}

#[test]
fn statements_of_each_form() {
    let (body, reports) = body_of("fn f() { ret; ret 1; x; let y: T = $g; }");
    assert_eq!(reports.len(), 1, "{:?}", reports);
    assert_eq!(reports[0].title.as_deref(), Some("Expected expression"));
    assert_eq!(body.len(), 3);
    assert_eq!(body[0].elem, Node::Ret(None));
    assert_eq!((body[0].span.start, body[0].span.end), (9, 13));
    assert!(matches!(body[1].elem, Node::Ret(Some(_))));
    assert_eq!(body[2].elem, Node::Ident("x"));
    assert_eq!((body[2].span.start, body[2].span.end), (21, 22));
    let (body, reports) = body_of("fn f(): ret 5;");
    assert!(reports.is_empty());
    assert_eq!(body.len(), 1);
    let (_, reports) = body_of("fn f() { let x: u8 5; }");
    assert_eq!(reports[0].title.as_deref(), Some("Expected '=', got 'DecimalIntLiteral'"));
    let (_, reports) = body_of("fn f() { let x u8 = 5; }");
    assert_eq!(reports[0].title.as_deref(), Some("Expected ':', got 'Identifier'"));
}

#[test]
fn escapes_in_string_literals() {
    let (body, reports) = body_of(r#"fn f() { "a\tb"; "\0\@\a\n\r\e\?\A\Z\[\/\]\^\_"; }"#);
    assert!(reports.is_empty(), "{:?}", reports);
    assert_eq!(body[0].elem, Node::StrLit(String::from("a\tb")));
    match &body[0].elem {
        Node::StrLit(s) => assert_eq!(s.chars().collect::<Vec<_>>(), vec!['a', '\t', 'b']),
        _ => unreachable!(),
    }
    assert_eq!(
        body[1].elem,
        Node::StrLit(String::from(
            "\0\0\x07\n\r\x1b\x7f\x01\x1a\x1b\x1c\x1d\x1e\x1f"
        ))
    );
}

#[test]
fn faulty_escapes_are_reported() {
    let (body, reports) = body_of(r#"fn f() { "a\qb"; x; }"#);
    assert_eq!(reports.len(), 1);
    assert_eq!(reports[0].kind, ReportKind::InvalidEscapeSequence);
    assert_eq!(reports[0].title.as_deref(), Some("Invalid escape sequence"));
    assert_eq!(reports[0].span.map(|s| (s.start, s.end)), Some((9, 15)));
    assert_eq!(body.len(), 1);
    assert_eq!(resolve_escapes("a\\"), None);
    assert_eq!(resolve_escapes("\\\\"), None);
    assert_eq!(resolve_escapes("a\\tb"), Some(String::from("a\tb")));
    assert_eq!(resolve_escapes(""), Some(String::new()));
    let tokens = vec![
        tok(TokenKind::KWFn, "", 0),
        tok(TokenKind::Identifier, "f", 1),
        tok(TokenKind::LParen, "", 2),
        tok(TokenKind::RParen, "", 3),
        tok(TokenKind::Colon, "", 4),
        tok(TokenKind::StringLiteral, "tail\\", 5),
        tok(TokenKind::Semicolon, "", 6),
        tok(TokenKind::EOF, "", 7),
    ];
    let mut handler = LogHandler::new();
    let ast = Parser::parse(tokens, "test.shd", &mut handler);
    assert!(ast.is_empty());
    let shown = handler.terminate(Level::Error);
    assert_eq!(shown.len(), 1);
    assert_eq!(shown[0].report.kind, ReportKind::InvalidEscapeSequence);
    assert_eq!(shown[0].filename, "test.shd");
}

#[test]
fn escape_letters() {
    assert_eq!(parse_char('t'), '\t');
    assert_eq!(parse_char('n'), '\n');
    assert_eq!(parse_char('0'), '\0');
    assert_eq!(parse_char('@'), '\0');
    assert_eq!(parse_char('I'), '\t');
    assert_eq!(parse_char('?'), '\x7f');
    assert_eq!(parse_char('/'), '\x1c');
}

#[test]
fn invalid_decimal_literal_is_one_report_at_its_span() {
    let tokens = vec![
        tok(TokenKind::KWFn, "", 0),
        tok(TokenKind::Identifier, "f", 1),
        tok(TokenKind::LParen, "", 2),
        tok(TokenKind::RParen, "", 3),
        tok(TokenKind::Colon, "", 4),
        Token {
            kind: TokenKind::DecimalIntLiteral,
            span: Span::new("test.shd", 40, 44, 3, 7),
            text: "12ab",
        },
        tok(TokenKind::Semicolon, "", 6),
        tok(TokenKind::EOF, "", 7),
    ];
    let mut handler = LogHandler::new();
    let ast = Parser::parse(tokens, "test.shd", &mut handler);
    assert!(ast.is_empty());
    let shown = handler.terminate(Level::Note);
    assert_eq!(shown.len(), 1);
    assert_eq!(shown[0].report.kind, ReportKind::InvalidNumber);
    assert_eq!(shown[0].report.title.as_deref(), Some("Invalid integer literal"));
    assert_eq!(shown[0].report.span, Some(Span::new("test.shd", 40, 44, 3, 7)));
}

#[test]
fn decimal_literal_has_the_value_of_its_text() {
    for text in ["0", "7", "000123", "18446744073709551615"] {
        let (body, reports) = body_of(Box::leak(format!("fn f() {{ {}; }}", text).into_boxed_str()));
        assert!(reports.is_empty());
        assert_eq!(body[0].elem, Node::UIntLit(IBig::parse(text).unwrap()));
        match &body[0].elem {
            Node::UIntLit(n) => assert_eq!(n.to_u64(), Some(text.parse::<u64>().unwrap())),
            _ => unreachable!(),
        }
    }
}

#[test]
fn no_tokens_no_tree() {
    let mut handler = LogHandler::new();
    let ast = Parser::parse(Vec::new(), "test.shd", &mut handler);
    assert!(ast.is_empty());
    assert_eq!(handler.len(), 0);
}

#[test]
fn a_single_token() {
    for kind in [TokenKind::EOF, TokenKind::KWFn, TokenKind::Semicolon, TokenKind::KWExport] {
        let mut handler = LogHandler::new();
        let ast = Parser::parse(vec![tok(kind, "", 0)], "test.shd", &mut handler);
        assert!(ast.is_empty());
        assert_eq!(handler.len(), if kind == TokenKind::EOF { 0 } else { 1 });
    }
}

#[test]
fn tokens_without_a_closing_eof() {
    let tokens = vec![
        tok(TokenKind::KWFn, "", 0),
        tok(TokenKind::Identifier, "f", 1),
        tok(TokenKind::LParen, "", 2),
        tok(TokenKind::RParen, "", 3),
        tok(TokenKind::Semicolon, "", 4),
    ];
    let mut handler = LogHandler::new();
    let ast = Parser::parse(tokens, "test.shd", &mut handler);
    assert_eq!(ast.len(), 1);
    assert_eq!(handler.len(), 0);
    let tokens = vec![tok(TokenKind::KWFn, "", 0), tok(TokenKind::Identifier, "f", 1)];
    let ast = Parser::parse(tokens, "test.shd", &mut handler);
    assert!(ast.is_empty());
    let shown = handler.terminate(Level::Note);
    assert_eq!(shown.len(), 1);
    assert_eq!(shown[0].report.title.as_deref(), Some("Expected '('"));
    assert_eq!(shown[0].report.span.map(|s| s.start), Some(1));
}

#[test]
fn parsing_stops_at_the_first_eof() {
    let tokens = vec![
        tok(TokenKind::EOF, "", 0),
        tok(TokenKind::KWFn, "", 1),
        tok(TokenKind::Identifier, "f", 2),
        tok(TokenKind::LParen, "", 3),
        tok(TokenKind::RParen, "", 4),
        tok(TokenKind::Semicolon, "", 5),
    ];
    let mut handler = LogHandler::new();
    let ast = Parser::parse(tokens, "test.shd", &mut handler);
    assert!(ast.is_empty());
    assert_eq!(handler.len(), 0);
}

#[test]
fn any_sequence_of_kinds_is_parsed_to_an_end() {
    let kinds = [
        TokenKind::Identifier,
        TokenKind::KWFn,
        TokenKind::KWExport,
        TokenKind::KWExtern,
        TokenKind::KWLet,
        TokenKind::KWRet,
        TokenKind::DecimalIntLiteral,
        TokenKind::StringLiteral,
        TokenKind::Dollar,
        TokenKind::Star,
        TokenKind::LParen,
        TokenKind::RParen,
        TokenKind::LBracket,
        TokenKind::RBracket,
        TokenKind::LBrace,
        TokenKind::RBrace,
        TokenKind::Equals,
        TokenKind::Semicolon,
        TokenKind::Colon,
        TokenKind::Comma,
        TokenKind::Plus,
        TokenKind::EOF,
    ];
    let texts = ["x", "u8", "opt", "mut", "12", "1x", "a\\tb", "\\", "void", ""];
    let mut state: u64 = 0x2545F4914F6CDD1D;
    let mut next = move || {
        state ^= state << 13;
        state ^= state >> 7;
        state ^= state << 17;
        state
    };
    for round in 0..400 {
        let len = (next() % 60) as usize;
        let mut tokens = Vec::new();
        for at in 0..len {
            let kind = kinds[(next() % kinds.len() as u64) as usize];
            let kind = if kind == TokenKind::EOF && round % 4 != 0 { TokenKind::Semicolon } else { kind };
            let text = texts[(next() % texts.len() as u64) as usize];
            tokens.push(tok(kind, text, at));
        }
        if round % 2 == 0 {
            tokens.push(tok(TokenKind::EOF, "", len));
        }
        let count = tokens.len();
        let mut handler = LogHandler::new();
        let ast = Parser::parse(tokens, "test.shd", &mut handler);
        assert!(ast.len() <= count);
        assert!(handler.len() <= count + 1);
    }
    let deep: Vec<Token> = (0..2000).map(|at| tok(TokenKind::KWExport, "", at)).collect();
    let mut handler = LogHandler::new();
    assert!(Parser::parse(deep, "test.shd", &mut handler).is_empty());
    assert_eq!(handler.len(), 1);
}

#[test]
fn what_follows_a_failure_is_parsed_as_on_its_own() {
    let source = "fn (a: u8) void;\nfn good(x: *u8) void { ret $g(x); let = 1; }\nexport fn more();";
    let mut handler = LogHandler::new();
    let tokens = Lexer::lex(source, "main.shd", &mut handler);
    let resume = tokens.iter().position(|t| t.kind == TokenKind::Semicolon).unwrap() + 1;
    let rest: Vec<Token> = tokens[resume..].to_vec();
    let whole = Parser::parse(tokens, "main.shd", &mut handler);
    let mut alone_handler = LogHandler::new();
    let alone = Parser::parse(rest, "main.shd", &mut alone_handler);
    assert_eq!(whole.len(), 2);
    assert_eq!(whole, alone);
    let whole_reports = handler.terminate(Level::Note);
    let alone_reports = alone_handler.terminate(Level::Note);
    assert_eq!(whole_reports.len(), 2);
    assert_eq!(whole_reports[0].report.title.as_deref(), Some("Expected identifier"));
    assert_eq!(whole_reports[1..], alone_reports[..]);
}

#[test]
fn spans_run_from_the_first_token_to_the_last() {
    let source = "extern fn f(a: opt *[u8]) mut T {\n  let s: u8 = $g(a, 1);\n  ret \"x\";\n}\nfn h(): $k 2;";
    let chars: Vec<char> = source.chars().collect();
    let slice = |start: usize, end: usize| chars[start..end].iter().collect::<String>();
    let (ast, reports) = parse(source);
    assert!(reports.is_empty(), "{:?}", reports);
    assert_eq!(ast.len(), 2);
    let first = slice(ast[0].span.start, ast[0].span.end);
    assert!(first.starts_with("extern fn f("));
    assert!(first.ends_with("}"));
    assert_eq!(first.len(), source.find("\nfn h").unwrap());
    assert_eq!(slice(ast[1].span.start, ast[1].span.end), "fn h(): $k 2;");
    assert_eq!((ast[1].span.line_number, ast[1].span.column), (5, 1));
    let (_, args, ret, body, _) = func(&ast[0]);
    assert_eq!(slice(args[0].0.span.start, args[0].0.span.end), "a");
    assert_eq!(slice(args[0].1.span.start, args[0].1.span.end), "opt *[u8]");
    let ret_span = match &ast[0].elem {
        Node::Func { ret: Some(ret), .. } => ret.span,
        _ => unreachable!(),
    };
    assert_eq!(ret, Some(&Type::Mut(Box::new(Sp::new(Type::Ident("T"), Span::new("main.shd", 30, 31, 1, 31))))));
    assert_eq!(slice(ret_span.start, ret_span.end), "mut T");
    assert_eq!(slice(body[0].span.start, body[0].span.end), "let s: u8 = $g(a, 1);");
    assert_eq!((body[0].span.line_number, body[0].span.column), (2, 3));
    assert_eq!(slice(body[1].span.start, body[1].span.end), "ret \"x\";");
    match &body[0].elem {
        Node::Assign { value, ty, name } => {
            assert_eq!(slice(value.span.start, value.span.end), "$g(a, 1)");
            assert_eq!(slice(ty.span.start, ty.span.end), "u8");
            assert_eq!(slice(name.span.start, name.span.end), "s");
        }
        other => panic!("{:?}", other),
    }
    let (_, _, _, body, _) = func(&ast[1]);
    assert_eq!(slice(body[0].span.start, body[0].span.end), "$k 2");
}
