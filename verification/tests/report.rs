use sharc::report::{Entry, Level, LogHandler, Report, ReportKind};
use sharc::span::{HighlightKind, Span};

const KINDS: [ReportKind; 23] = [
    ReportKind::_NOTE_,
    ReportKind::_WARNING_,
    ReportKind::_ERROR_,
    ReportKind::ArgumentParserError,
    ReportKind::UnexpectedCharacter,
    ReportKind::UnterminatedMultilineComment,
    ReportKind::UnterminatedStringLiteral,
    ReportKind::UnterminatedCharLiteral,
    ReportKind::EmptyCharLiteral,
    ReportKind::UndefinedMacro,
    ReportKind::InvalidTag,
    ReportKind::ExceededRecursionLimit,
    ReportKind::SelfReferentialMacro,
    ReportKind::UnexpectedToken,
    ReportKind::UnexpectedEOF,
    ReportKind::InvalidEscapeSequence,
    ReportKind::InvalidNumber,
    ReportKind::DuplicateAttribute,
    ReportKind::RegisterWithinHeap,
    ReportKind::MismatchedDelimeter,
    ReportKind::IOError,
    ReportKind::SyntaxError,
    ReportKind::_FATAL_,
];

fn names(entries: &[Entry]) -> Vec<&str> {
    entries.iter().map(|e| e.report.title.as_deref().unwrap()).collect()
}

#[test]
fn severities_are_ordered_from_the_worst() {
    assert!(Level::Fatal < Level::Error);
    assert!(Level::Error < Level::Warn);
    assert!(Level::Warn < Level::Note);
    assert!(Level::Note < Level::Silent);
    assert_eq!(
        [Level::Fatal, Level::Error, Level::Warn, Level::Note, Level::Silent].map(Level::rank),
        [0, 1, 2, 3, 4]
    );
    assert!(Level::Fatal.reaches(Level::Error));
    assert!(Level::Error.reaches(Level::Error));
    assert!(!Level::Warn.reaches(Level::Error));
    assert!(Level::Note.reaches(Level::Silent));
    assert_eq!(Level::Warn.prefix(), "Warning");
    assert_eq!(Level::Fatal.prefix(), "Fatal");
}

#[test]
fn severity_of_each_kind() {
    assert_eq!(ReportKind::_NOTE_.level(), Level::Silent);
    assert_eq!(ReportKind::_WARNING_.level(), Level::Note);
    assert_eq!(ReportKind::_ERROR_.level(), Level::Warn);
    for kind in &KINDS[3..] {
        assert_eq!(kind.level(), Level::Error, "{:?}", kind);
        assert_eq!(Level::from(*kind), Level::Error);
    }
    assert_eq!(Level::from(ReportKind::_NOTE_), Level::Silent);
    assert_eq!(ReportKind::UnexpectedToken.untitled().level(), Level::Error);
    assert_eq!(ReportKind::_ERROR_.untitled().level(), Level::Warn);
}

#[test]
fn severity_follows_the_place_among_the_boundaries() {
    let place = |k: ReportKind| KINDS.iter().position(|x| *x == k).unwrap();
    for (at, kind) in KINDS.iter().enumerate() {
        let expected = if at > place(ReportKind::_FATAL_) {
            Level::Fatal
        } else if at > place(ReportKind::_ERROR_) {
            Level::Error
        } else if at > place(ReportKind::_WARNING_) {
            Level::Warn
        } else if at > place(ReportKind::_NOTE_) {
            Level::Note
        } else {
            Level::Silent
        };
        assert_eq!(kind.level(), expected);
        assert_eq!(format!("{:?}", kind), kind.name());
    }
    for pair in KINDS.windows(2) {
        assert!(pair[0] < pair[1]);
        assert!(pair[1].level() <= pair[0].level());
    }
}

#[test]
fn a_report_is_built_by_chained_calls() {
    let report = ReportKind::SyntaxError.untitled();
    assert_eq!(report.kind, ReportKind::SyntaxError);
    assert_eq!(report.title, None);
    assert_eq!(report.span, None);
    assert!(report.span_mask.is_empty());
    assert_eq!(report.label, None);
    assert_eq!(report.footers, None);
    let first = Span::new("a.shd", 12, 14, 2, 3);
    let second = Span::new("b.shd", 30, 35, 4, 1);
    let report = ReportKind::InvalidNumber
        .title("Invalid integer in primitive type")
        .label("try 'u8'")
        .span(first)
        .help("widths are written in bits")
        .info("u8 is a byte")
        .note("seen twice")
        .footer("plain")
        .span(second);
    assert_eq!(report.title.as_deref(), Some("Invalid integer in primitive type"));
    assert_eq!(report.label.as_deref(), Some("try 'u8'"));
    assert_eq!(report.span, Some(first));
    assert_eq!(
        report.span_mask,
        vec![
            HighlightKind::Caret,
            HighlightKind::Caret,
            HighlightKind::Caret,
            HighlightKind::Caret,
            HighlightKind::Caret,
        ]
    );
    assert_eq!(
        report.footers,
        Some(vec![
            String::from("HELP: widths are written in bits"),
            String::from("INFO: u8 is a byte"),
            String::from("NOTE: seen twice"),
            String::from("plain"),
        ])
    );
    let label = report.label("other");
    assert_eq!(label.label.as_deref(), Some("other"));
}

#[test]
fn marks_chosen_by_the_caller() {
    let span = Span::new("a.shd", 5, 6, 1, 6);
    let report = ReportKind::UnexpectedToken
        .title("Expected ';'")
        .span_with(span, vec![HighlightKind::Empty, HighlightKind::Phantom(';')])
        .span(Span::new("a.shd", 0, 3, 1, 1));
    assert_eq!(report.span, Some(span));
    assert_eq!(
        report.span_mask,
        vec![HighlightKind::Caret, HighlightKind::Phantom(';'), HighlightKind::Caret]
    );
}

#[test]
fn a_report_as_the_error_of_a_result() {
    let result: Result<u8, Box<Report>> = ReportKind::IOError.title("gone").as_err();
    let report = result.unwrap_err();
    assert_eq!(report.kind, ReportKind::IOError);
    assert_eq!(report.title.as_deref(), Some("gone"));
}

fn filled() -> LogHandler {
    let mut handler = LogHandler::new();
    handler.log("a.shd", ReportKind::_WARNING_.title("note one"));
    handler.log("a.shd", ReportKind::SyntaxError.title("error one"));
    handler.log("b.shd", ReportKind::_ERROR_.title("warning one"));
    handler.log("b.shd", ReportKind::_NOTE_.title("silent one"));
    handler.log("c.shd", ReportKind::IOError.title("error two"));
    handler.log("c.shd", ReportKind::_WARNING_.title("note two"));
    handler
}

#[test]
fn the_handler_knows_whether_a_severity_was_reached() {
    let handler = LogHandler::new();
    assert_eq!(handler.len(), 0);
    assert!(!handler.test_ge_log(Level::Silent));
    let handler = filled();
    assert_eq!(handler.len(), 6);
    assert!(!handler.test_ge_log(Level::Fatal));
    assert!(handler.test_ge_log(Level::Error));
    assert!(handler.test_ge_log(Level::Warn));
    assert!(handler.test_ge_log(Level::Note));
    assert!(handler.test_ge_log(Level::Silent));
    let mut notes = LogHandler::new();
    notes.log("a.shd", ReportKind::_WARNING_.untitled());
    assert!(!notes.test_ge_log(Level::Warn));
    assert!(notes.test_ge_log(Level::Note));
}

#[test]
fn reports_come_out_worst_first_and_in_order_of_filing() {
    let shown = filled().terminate(Level::Note);
    assert_eq!(names(&shown), vec!["error one", "error two", "warning one", "note one", "note two"]);
    assert_eq!(shown[0].filename, "a.shd");
    assert_eq!(shown[1].filename, "c.shd");
    assert_eq!(shown[2].filename, "b.shd");
    let shown = filled().terminate(Level::Warn);
    assert_eq!(names(&shown), vec!["error one", "error two", "warning one"]);
    let shown = filled().terminate(Level::Error);
    assert_eq!(names(&shown), vec!["error one", "error two"]);
    assert!(filled().terminate(Level::Fatal).is_empty());
}

#[test]
fn nothing_comes_out_under_silence() {
    assert!(filled().terminate(Level::Silent).is_empty());
    assert!(filled().test_ge_log(Level::Silent));
    assert!(LogHandler::new().terminate(Level::Note).is_empty());
}
