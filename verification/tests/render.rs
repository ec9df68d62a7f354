use sharc::paint::{join, paint_text, style_of, tint_of, to_ansi, Style, Tint};
use sharc::render::{plain_text, Paint, Piece};
use sharc::report::{Level, ReportKind};
use sharc::span::{HighlightKind, Span};

fn piece(paint: Paint, text: &str) -> Piece {
    Piece { paint, text: String::from(text) }
}

#[test]
fn a_report_with_place_label_and_advice() {
    let report = ReportKind::UnexpectedToken
        .title("Expected ';'")
        .span(Span::new("main.shd", 23, 26, 2, 9))
        .label("here")
        .help("end the statement")
        .note("statements end with ';'");
    assert!(report.renderable());
    let pieces = report.render(Some("let x = foo bar"));
    assert_eq!(
        plain_text(&pieces),
        "[Error] UnexpectedToken: Expected ';'\n\
         \x20---> main.shd:2:9\n\
         \x20 | let x = foo bar\n\
         \x20 |         ^^^ here\n\
         \x20 | HELP: end the statement\n\
         \x20 | NOTE: statements end with ';'\n"
    );
    let primary = Paint::Primary(Level::Error);
    let mut expected = vec![
        piece(primary, "[Error] UnexpectedToken:"),
        piece(Paint::Plain, " Expected ';'\n"),
        piece(Paint::Plain, " "),
        piece(Paint::Pointer, "--->"),
        piece(Paint::Plain, " main.shd:2:9\n"),
        piece(Paint::Plain, "  "),
        piece(Paint::Gutter, "|"),
        piece(Paint::Plain, " "),
    ];
    for (at, c) in "let x = foo bar".chars().enumerate() {
        let paint = if (8..11).contains(&at) { primary } else { Paint::Plain };
        expected.push(piece(paint, &c.to_string()));
    }
    expected.extend([
        piece(Paint::Plain, "\n"),
        piece(Paint::Plain, "  "),
        piece(Paint::Gutter, "|"),
        piece(Paint::Plain, " "),
        piece(primary, "        ^^^"),
        piece(Paint::Plain, " "),
        piece(Paint::Secondary(Level::Error), "here"),
        piece(Paint::Plain, "\n"),
        piece(Paint::Plain, "  "),
        piece(Paint::Gutter, "|"),
        piece(Paint::Plain, " "),
        piece(Paint::Footer, "HELP: end the statement"),
        piece(Paint::Plain, "\n"),
        piece(Paint::Plain, "  "),
        piece(Paint::Gutter, "|"),
        piece(Paint::Plain, " "),
        piece(Paint::Footer, "NOTE: statements end with ';'"),
        piece(Paint::Plain, "\n"),
    ]);
    assert_eq!(pieces, expected);
}

#[test]
fn a_line_that_could_not_be_had() {
    let report = ReportKind::UnexpectedEOF
        .title("Expected '}'")
        .span(Span::new("main.shd", 400, 401, 120, 1))
        .label("opened here")
        .help("never printed");
    let pieces = report.render(None);
    assert_eq!(
        plain_text(&pieces),
        "[Error] UnexpectedEOF: Expected '}'\n\
         \x20---> main.shd:120:1\n\
         \x20   | Could not fetch line.\n"
    );
    assert_eq!(pieces[pieces.len() - 2], piece(Paint::Failure, "Could not fetch line."));
}

#[test]
fn a_report_without_a_place() {
    let report = ReportKind::ArgumentParserError
        .title("expected file")
        .note("(Run with --help for usage information)");
    assert_eq!(
        plain_text(&report.render(Some("not looked at"))),
        "[Error] ArgumentParserError: expected file\n\
         NOTE: (Run with --help for usage information)\n"
    );
    assert_eq!(plain_text(&report.render(None)), plain_text(&report.render(Some(""))));
    let untitled = ReportKind::_ERROR_.untitled();
    assert_eq!(plain_text(&untitled.render(None)), "[Warning] _ERROR_: \n");
    let note = ReportKind::_WARNING_.title("by the way");
    assert_eq!(plain_text(&note.render(None)), "[Note] _WARNING_: by the way\n");
    assert_eq!(note.render(None)[0].paint, Paint::Primary(Level::Note));
}

#[test]
fn inserted_characters_stand_in_the_line() {
    let mask = vec![
        HighlightKind::Empty,
        HighlightKind::Empty,
        HighlightKind::Empty,
        HighlightKind::Empty,
        HighlightKind::Empty,
        HighlightKind::Phantom(' '),
        HighlightKind::Phantom(';'),
    ];
    let report = ReportKind::UnexpectedToken
        .title("Expected ';'")
        .span_with(Span::new("main.shd", 5, 6, 1, 6), mask);
    let pieces = report.render(Some("ret a }"));
    assert_eq!(
        plain_text(&pieces),
        "[Error] UnexpectedToken: Expected ';'\n\
         \x20---> main.shd:1:6\n\
         \x20 | ret a ; }\n\
         \x20 |      ^^ \n"
    );
    assert!(pieces.contains(&piece(Paint::Inserted, " ;")));
}

#[test]
fn marks_that_run_past_the_line() {
    let report = ReportKind::_ERROR_
        .title("long")
        .span(Span::new("main.shd", 2, 8, 1, 3));
    assert_eq!(
        plain_text(&report.render(Some("abcd"))),
        "[Warning] _ERROR_: long\n\
         \x20---> main.shd:1:3\n\
         \x20 | abcd    \n\
         \x20 |   ^^^^^^ \n"
    );
    assert_eq!(
        plain_text(&report.render(Some(""))),
        "[Warning] _ERROR_: long\n\
         \x20---> main.shd:1:3\n\
         \x20 |         \n\
         \x20 |   ^^^^^^ \n"
    );
}

#[test]
fn what_cannot_be_rendered() {
    assert!(!ReportKind::_NOTE_.untitled().renderable());
    assert!(!ReportKind::SyntaxError.untitled().label("nowhere").renderable());
    assert!(ReportKind::SyntaxError
        .untitled()
        .label("somewhere")
        .span(Span::new("a", 0, 1, 1, 1))
        .renderable());
    assert!(ReportKind::SyntaxError.untitled().renderable());
}

#[test]
fn paints_have_their_colours() {
    assert_eq!(tint_of(Paint::Plain), None);
    assert_eq!(tint_of(Paint::Primary(Level::Fatal)), Some(Tint::Red));
    assert_eq!(tint_of(Paint::Primary(Level::Error)), Some(Tint::Red));
    assert_eq!(tint_of(Paint::Primary(Level::Warn)), Some(Tint::Yellow));
    assert_eq!(tint_of(Paint::Primary(Level::Note)), Some(Tint::White));
    assert_eq!(tint_of(Paint::Secondary(Level::Error)), Some(Tint::BrightRed));
    assert_eq!(tint_of(Paint::Secondary(Level::Warn)), Some(Tint::BrightYellow));
    assert_eq!(tint_of(Paint::Secondary(Level::Note)), Some(Tint::White));
    assert_eq!(tint_of(Paint::Inserted), Some(Tint::Green));
    assert_eq!(tint_of(Paint::Pointer), Some(Tint::Cyan));
    assert_eq!(tint_of(Paint::Gutter), Some(Tint::Cyan));
    assert_eq!(tint_of(Paint::Failure), Some(Tint::Red));
    assert_eq!(tint_of(Paint::Footer), Some(Tint::BrightBlack));
    assert_eq!(tint_of(Paint::Faint), Some(Tint::BrightBlack));
    assert_eq!(tint_of(Paint::Keyword), Some(Tint::Yellow));
    assert_eq!(tint_of(Paint::Literal), Some(Tint::Green));
    assert_eq!(tint_of(Paint::Value), Some(Tint::Cyan));
    assert_eq!(tint_of(Paint::TypeName), Some(Tint::Magenta));
    assert_eq!(style_of(Paint::Keyword), Style::Dimmed);
    assert_eq!(style_of(Paint::Faint), Style::Regular);
    assert_eq!(style_of(Paint::TypeName), Style::Regular);
    assert_eq!(style_of(Paint::Primary(Level::Warn)), Style::Bold);
    assert_eq!(style_of(Paint::Secondary(Level::Warn)), Style::Regular);
    assert_eq!(style_of(Paint::Gutter), Style::Dimmed);
    assert_eq!(style_of(Paint::Footer), Style::Italic);
    assert_eq!(style_of(Paint::Pointer), Style::Regular);
    assert_eq!(style_of(Paint::Plain), Style::Regular);
}

#[test]
fn without_colours_the_painted_text_is_the_plain_text() {
    colored::control::set_override(false);
    let report = ReportKind::UnexpectedToken
        .title("Expected ';'")
        .span(Span::new("main.shd", 4, 5, 1, 5))
        .label("here")
        .info("more");
    let pieces = report.render(Some("ret a"));
    assert_eq!(to_ansi(&pieces), plain_text(&pieces));
    assert_eq!(paint_text(Paint::Footer, "advice"), "advice");
}

#[test]
fn with_colours_each_painted_piece_is_escaped() {
    colored::control::set_override(true);
    assert_eq!(paint_text(Paint::Plain, "as it is"), "as it is");
    assert_eq!(paint_text(Paint::Primary(Level::Error), "x"), "\x1b[1;31mx\x1b[0m");
    assert_eq!(paint_text(Paint::Primary(Level::Warn), "x"), "\x1b[1;33mx\x1b[0m");
    assert_eq!(paint_text(Paint::Primary(Level::Note), "x"), "\x1b[1;37mx\x1b[0m");
    assert_eq!(paint_text(Paint::Secondary(Level::Error), "x"), "\x1b[91mx\x1b[0m");
    assert_eq!(paint_text(Paint::Secondary(Level::Warn), "x"), "\x1b[93mx\x1b[0m");
    assert_eq!(paint_text(Paint::Inserted, ";"), "\x1b[1;32m;\x1b[0m");
    assert_eq!(paint_text(Paint::Pointer, "--->"), "\x1b[36m--->\x1b[0m");
    assert_eq!(paint_text(Paint::Gutter, "|"), "\x1b[2;36m|\x1b[0m");
    assert_eq!(paint_text(Paint::Failure, "no"), "\x1b[1;31mno\x1b[0m");
    assert_eq!(paint_text(Paint::Footer, "f"), "\x1b[3;90mf\x1b[0m");
    assert_eq!(paint_text(Paint::Faint, "f"), "\x1b[90mf\x1b[0m");
    assert_eq!(paint_text(Paint::Keyword, "fn"), "\x1b[2;33mfn\x1b[0m");
    assert_eq!(paint_text(Paint::Literal, "s"), "\x1b[32ms\x1b[0m");
    assert_eq!(paint_text(Paint::Value, "1"), "\x1b[36m1\x1b[0m");
    assert_eq!(paint_text(Paint::TypeName, "u8"), "\x1b[35mu8\x1b[0m");
    let pieces = vec![piece(Paint::Plain, "a "), piece(Paint::Pointer, "--->"), piece(Paint::Plain, " b")];
    assert_eq!(to_ansi(&pieces), "a \x1b[36m--->\x1b[0m b");
    assert_eq!(plain_text(&pieces), "a ---> b");
}

#[test]
fn texts_are_joined_in_order() {
    assert_eq!(join(&vec![String::from("ab"), String::new(), String::from("c")]), "abc");
    assert_eq!(join(&Vec::new()), "");
    assert_eq!(plain_text(&Vec::new()), "");
}
