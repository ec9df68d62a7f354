//! Diagnostics: kinds and severities, the report that is built up by
//! chained calls, and the handler that collects reports over a run.

use crate::span::{combine, spec_combine, HighlightKind, Span};
use vstd::prelude::*;
use vstd::std_specs::convert::FromSpecImpl;
use vstd::string::StringExecFns;

verus! {

/// How serious a report is. The order runs from the worst down:
/// `Fatal < Error < Warn < Note < Silent`.
#[derive(Debug, Copy, Clone, PartialEq, Eq, PartialOrd, Ord, Structural)]
pub enum Level {
    Fatal,
    Error,
    Warn,
    Note,
    Silent,
}

/// What a report is about. The four names in capitals are boundaries: a
/// kind's severity follows from the last boundary that stands before it.
#[allow(non_camel_case_types)]
#[derive(Clone, Copy, Debug, PartialEq, Eq, PartialOrd, Structural)]
pub enum ReportKind {
    /// Lower boundary of the notes.
    _NOTE_,
    /// Lower boundary of the warnings.
    _WARNING_,
    /// Lower boundary of the errors.
    _ERROR_,
    ArgumentParserError,
    // Lexer
    UnexpectedCharacter,
    UnterminatedMultilineComment,
    UnterminatedStringLiteral,
    UnterminatedCharLiteral,
    EmptyCharLiteral,
    // Preprocessor
    UndefinedMacro,
    InvalidTag,
    ExceededRecursionLimit,
    SelfReferentialMacro,
    // Parser
    UnexpectedToken,
    UnexpectedEOF,
    InvalidEscapeSequence,
    InvalidNumber,
    DuplicateAttribute,
    RegisterWithinHeap,
    MismatchedDelimeter,
    // General
    IOError,
    SyntaxError,
    /// Lower boundary of the fatal errors.
    _FATAL_,
}

impl Level {
    /// Place in the order of severities, 0 for the worst.
    pub open spec fn spec_rank(self) -> u8 {
        match self {
            Level::Fatal => 0,
            Level::Error => 1,
            Level::Warn => 2,
            Level::Note => 3,
            Level::Silent => 4,
        }
    }

    /// `self` is at least as severe as `threshold`.
    pub open spec fn spec_reaches(self, threshold: Level) -> bool {
        self.spec_rank() <= threshold.spec_rank()
    }

    /// The word that heads a rendered report of this severity.
    pub open spec fn spec_prefix(self) -> Seq<char> {
        match self {
            Level::Fatal => "Fatal"@,
            Level::Error => "Error"@,
            Level::Warn => "Warning"@,
            Level::Note => "Note"@,
            Level::Silent => "Silent"@,
        }
    }

    /// Place in the order of severities, 0 for the worst.
    #[verifier::when_used_as_spec(spec_rank)]
    pub fn rank(self) -> (r: u8)
        ensures
            r == self.spec_rank(),
    {
        match self {
            Level::Fatal => 0,
            Level::Error => 1,
            Level::Warn => 2,
            Level::Note => 3,
            Level::Silent => 4,
        }
    }

    /// `self` is at least as severe as `threshold`.
    #[verifier::when_used_as_spec(spec_reaches)]
    pub fn reaches(self, threshold: Level) -> (r: bool)
        ensures
            r == self.spec_reaches(threshold),
    {
        self.rank() <= threshold.rank()
    }

    /// The word that heads a rendered report of this severity.
    pub fn prefix(self) -> (r: &'static str)
        ensures
            r@ == self.spec_prefix(),
    {
        match self {
            Level::Fatal => "Fatal",
            Level::Error => "Error",
            Level::Warn => "Warning",
            Level::Note => "Note",
            Level::Silent => "Silent",
        }
    }
}

impl ReportKind {
    /// Place of the kind in the enumeration, counted from 0.
    pub open spec fn spec_ordinal(self) -> nat {
        match self {
            ReportKind::_NOTE_ => 0,
            ReportKind::_WARNING_ => 1,
            ReportKind::_ERROR_ => 2,
            ReportKind::ArgumentParserError => 3,
            ReportKind::UnexpectedCharacter => 4,
            ReportKind::UnterminatedMultilineComment => 5,
            ReportKind::UnterminatedStringLiteral => 6,
            ReportKind::UnterminatedCharLiteral => 7,
            ReportKind::EmptyCharLiteral => 8,
            ReportKind::UndefinedMacro => 9,
            ReportKind::InvalidTag => 10,
            ReportKind::ExceededRecursionLimit => 11,
            ReportKind::SelfReferentialMacro => 12,
            ReportKind::UnexpectedToken => 13,
            ReportKind::UnexpectedEOF => 14,
            ReportKind::InvalidEscapeSequence => 15,
            ReportKind::InvalidNumber => 16,
            ReportKind::DuplicateAttribute => 17,
            ReportKind::RegisterWithinHeap => 18,
            ReportKind::MismatchedDelimeter => 19,
            ReportKind::IOError => 20,
            ReportKind::SyntaxError => 21,
            ReportKind::_FATAL_ => 22,
        }
    }

    /// The severity of the kind.
    pub open spec fn spec_level(self) -> Level {
        match self {
            ReportKind::_NOTE_ => Level::Silent,
            ReportKind::_WARNING_ => Level::Note,
            ReportKind::_ERROR_ => Level::Warn,
            ReportKind::ArgumentParserError | ReportKind::UnexpectedCharacter | ReportKind::UnterminatedMultilineComment | ReportKind::UnterminatedStringLiteral | ReportKind::UnterminatedCharLiteral | ReportKind::EmptyCharLiteral | ReportKind::UndefinedMacro | ReportKind::InvalidTag | ReportKind::ExceededRecursionLimit | ReportKind::SelfReferentialMacro | ReportKind::UnexpectedToken | ReportKind::UnexpectedEOF | ReportKind::InvalidEscapeSequence | ReportKind::InvalidNumber | ReportKind::DuplicateAttribute | ReportKind::RegisterWithinHeap | ReportKind::MismatchedDelimeter | ReportKind::IOError | ReportKind::SyntaxError | ReportKind::_FATAL_ => Level::Error,
        }
    }

    /// The kind's name as it is written in a rendered report.
    pub open spec fn spec_name(self) -> Seq<char> {
        match self {
            ReportKind::_NOTE_ => "_NOTE_"@,
            ReportKind::_WARNING_ => "_WARNING_"@,
            ReportKind::_ERROR_ => "_ERROR_"@,
            ReportKind::ArgumentParserError => "ArgumentParserError"@,
            ReportKind::UnexpectedCharacter => "UnexpectedCharacter"@,
            ReportKind::UnterminatedMultilineComment => "UnterminatedMultilineComment"@,
            ReportKind::UnterminatedStringLiteral => "UnterminatedStringLiteral"@,
            ReportKind::UnterminatedCharLiteral => "UnterminatedCharLiteral"@,
            ReportKind::EmptyCharLiteral => "EmptyCharLiteral"@,
            ReportKind::UndefinedMacro => "UndefinedMacro"@,
            ReportKind::InvalidTag => "InvalidTag"@,
            ReportKind::ExceededRecursionLimit => "ExceededRecursionLimit"@,
            ReportKind::SelfReferentialMacro => "SelfReferentialMacro"@,
            ReportKind::UnexpectedToken => "UnexpectedToken"@,
            ReportKind::UnexpectedEOF => "UnexpectedEOF"@,
            ReportKind::InvalidEscapeSequence => "InvalidEscapeSequence"@,
            ReportKind::InvalidNumber => "InvalidNumber"@,
            ReportKind::DuplicateAttribute => "DuplicateAttribute"@,
            ReportKind::RegisterWithinHeap => "RegisterWithinHeap"@,
            ReportKind::MismatchedDelimeter => "MismatchedDelimeter"@,
            ReportKind::IOError => "IOError"@,
            ReportKind::SyntaxError => "SyntaxError"@,
            ReportKind::_FATAL_ => "_FATAL_"@,
        }
    }

    /// The severity of the kind.
    #[verifier::when_used_as_spec(spec_level)]
    pub fn level(self) -> (r: Level)
        ensures
            r == self.spec_level(),
    {
        match self {
            ReportKind::_NOTE_ => Level::Silent,
            ReportKind::_WARNING_ => Level::Note,
            ReportKind::_ERROR_ => Level::Warn,
            ReportKind::ArgumentParserError | ReportKind::UnexpectedCharacter | ReportKind::UnterminatedMultilineComment | ReportKind::UnterminatedStringLiteral | ReportKind::UnterminatedCharLiteral | ReportKind::EmptyCharLiteral | ReportKind::UndefinedMacro | ReportKind::InvalidTag | ReportKind::ExceededRecursionLimit | ReportKind::SelfReferentialMacro | ReportKind::UnexpectedToken | ReportKind::UnexpectedEOF | ReportKind::InvalidEscapeSequence | ReportKind::InvalidNumber | ReportKind::DuplicateAttribute | ReportKind::RegisterWithinHeap | ReportKind::MismatchedDelimeter | ReportKind::IOError | ReportKind::SyntaxError | ReportKind::_FATAL_ => Level::Error,
        }
    }

    /// The kind's name as it is written in a rendered report.
    pub fn name(self) -> (r: &'static str)
        ensures
            r@ == self.spec_name(),
    {
        match self {
            ReportKind::_NOTE_ => "_NOTE_",
            ReportKind::_WARNING_ => "_WARNING_",
            ReportKind::_ERROR_ => "_ERROR_",
            ReportKind::ArgumentParserError => "ArgumentParserError",
            ReportKind::UnexpectedCharacter => "UnexpectedCharacter",
            ReportKind::UnterminatedMultilineComment => "UnterminatedMultilineComment",
            ReportKind::UnterminatedStringLiteral => "UnterminatedStringLiteral",
            ReportKind::UnterminatedCharLiteral => "UnterminatedCharLiteral",
            ReportKind::EmptyCharLiteral => "EmptyCharLiteral",
            ReportKind::UndefinedMacro => "UndefinedMacro",
            ReportKind::InvalidTag => "InvalidTag",
            ReportKind::ExceededRecursionLimit => "ExceededRecursionLimit",
            ReportKind::SelfReferentialMacro => "SelfReferentialMacro",
            ReportKind::UnexpectedToken => "UnexpectedToken",
            ReportKind::UnexpectedEOF => "UnexpectedEOF",
            ReportKind::InvalidEscapeSequence => "InvalidEscapeSequence",
            ReportKind::InvalidNumber => "InvalidNumber",
            ReportKind::DuplicateAttribute => "DuplicateAttribute",
            ReportKind::RegisterWithinHeap => "RegisterWithinHeap",
            ReportKind::MismatchedDelimeter => "MismatchedDelimeter",
            ReportKind::IOError => "IOError",
            ReportKind::SyntaxError => "SyntaxError",
            ReportKind::_FATAL_ => "_FATAL_",
        }
    }
}

impl From<ReportKind> for Level {
    fn from(kind: ReportKind) -> (r: Level) {
        kind.level()
    }
}

impl FromSpecImpl<ReportKind> for Level {
    open spec fn obeys_from_spec() -> bool {
        true
    }

    open spec fn from_spec(kind: ReportKind) -> Level {
        kind.spec_level()
    }
}

/// A kind's severity is the one of the last boundary before it: a kind
/// after `_FATAL_` is fatal, else one after `_ERROR_` an error, else one
/// after `_WARNING_` a warning, else one after `_NOTE_` a note, and
/// nothing is left but `_NOTE_` itself, which is silent.
pub proof fn lemma_level_by_boundaries(kind: ReportKind)
    ensures
        kind.spec_level() == (if kind.spec_ordinal() > ReportKind::_FATAL_.spec_ordinal() {
            Level::Fatal
        } else if kind.spec_ordinal() > ReportKind::_ERROR_.spec_ordinal() {
            Level::Error
        } else if kind.spec_ordinal() > ReportKind::_WARNING_.spec_ordinal() {
            Level::Warn
        } else if kind.spec_ordinal() > ReportKind::_NOTE_.spec_ordinal() {
            Level::Note
        } else {
            Level::Silent
        }),
{
}

/// Severity never lessens along the enumeration: of two kinds, the later
/// one is at least as severe as the earlier one.
pub proof fn lemma_level_monotonic(a: ReportKind, b: ReportKind)
    requires
        a.spec_ordinal() <= b.spec_ordinal(),
    ensures
        b.spec_level().spec_reaches(a.spec_level()),
{
}

/// The order of the severities: `Fatal < Error < Warn < Note < Silent` by
/// rank, two severities of one rank are the same, and the order is total.
pub proof fn lemma_level_order(a: Level, b: Level)
    ensures
        Level::Fatal.spec_rank() < Level::Error.spec_rank() < Level::Warn.spec_rank()
            < Level::Note.spec_rank() < Level::Silent.spec_rank(),
        a.spec_rank() == b.spec_rank() <==> a == b,
        a.spec_reaches(b) || b.spec_reaches(a),
{
}

/// One diagnostic: what it is about, an optional title, the place it points
/// at with the marks to draw there, a label for that place, and lines of
/// advice to print below.
#[derive(Clone, Debug, PartialEq, Eq)]
pub struct Report {
    pub kind: ReportKind,
    pub title: Option<String>,
    pub span: Option<Span>,
    pub span_mask: Vec<HighlightKind>,
    pub label: Option<String>,
    pub footers: Option<Vec<String>>,
}

/// What a `Report` holds, as plain values.
pub struct ReportView {
    pub kind: ReportKind,
    pub title: Option<Seq<char>>,
    pub span: Option<Span>,
    pub span_mask: Seq<HighlightKind>,
    pub label: Option<Seq<char>>,
    pub footers: Option<Seq<Seq<char>>>,
}

/// The characters of each of some strings.
pub open spec fn lines_view(lines: Seq<String>) -> Seq<Seq<char>> {
    lines.map_values(|line: String| line@)
}

impl View for Report {
    type V = ReportView;

    open spec fn view(&self) -> ReportView {
        ReportView {
            kind: self.kind,
            title: match self.title {
                Some(title) => Some(title@),
                None => None,
            },
            span: self.span,
            span_mask: self.span_mask@,
            label: match self.label {
                Some(label) => Some(label@),
                None => None,
            },
            footers: match self.footers {
                Some(footers) => Some(lines_view(footers@)),
                None => None,
            },
        }
    }
}

impl ReportView {
    /// A report of `kind` with nothing else set.
    pub open spec fn untitled(kind: ReportKind) -> ReportView {
        ReportView {
            kind,
            title: None,
            span: None,
            span_mask: Seq::empty(),
            label: None,
            footers: None,
        }
    }

    /// A report of `kind` under a title.
    pub open spec fn titled(kind: ReportKind, title: Seq<char>) -> ReportView {
        ReportView { title: Some(title), ..ReportView::untitled(kind) }
    }

    /// The report after a place was attached with its marks: the first
    /// place stays, the marks are laid over those already there.
    pub open spec fn with_marks(self, span: Span, mask: Seq<HighlightKind>) -> ReportView {
        ReportView {
            span: if self.span is None { Some(span) } else { self.span },
            span_mask: spec_combine(self.span_mask, mask),
            ..self
        }
    }

    /// The report after a place was attached with the marks of the place.
    pub open spec fn with_span(self, span: Span) -> ReportView {
        self.with_marks(span, span.spec_mask())
    }

    /// The report under a new label.
    pub open spec fn with_label(self, label: Seq<char>) -> ReportView {
        ReportView { label: Some(label), ..self }
    }

    /// The report with one more line below it.
    pub open spec fn with_footer(self, text: Seq<char>) -> ReportView {
        ReportView {
            footers: match self.footers {
                Some(footers) => Some(footers.push(text)),
                None => Some(seq![text]),
            },
            ..self
        }
    }

    /// The severity of the report.
    pub open spec fn level(self) -> Level {
        self.kind.spec_level()
    }

    /// The report can be rendered: a label has a place to stand under, and
    /// the report is not silent.
    pub open spec fn renderable(self) -> bool {
        &&& self.span is Some || self.label is None
        &&& self.level() != Level::Silent
    }
}

impl ReportKind {
    /// A report of this kind without a title.
    pub fn untitled(self) -> (r: Report)
        ensures
            r@ == ReportView::untitled(self),
    {
        Report {
            kind: self,
            title: None,
            span: None,
            span_mask: Vec::new(),
            label: None,
            footers: None,
        }
    }

    /// A report of this kind under `title`, which is not empty.
    pub fn title(self, title: &str) -> (r: Report)
        requires
            title@.len() > 0,
        ensures
            r@ == ReportView::titled(self, title@),
    {
        Report {
            kind: self,
            title: Some(String::from_str(title)),
            span: None,
            span_mask: Vec::new(),
            label: None,
            footers: None,
        }
    }
}

impl Report {
    /// Attaches the place the report points at. The first place attached is
    /// the one that is kept; the carets of every place are laid over the
    /// marks already there.
    pub fn span(self, span: Span) -> (r: Report)
        ensures
            r@ == self@.with_span(span),
    {
        let mask = span.mask();
        self.span_with(span, mask)
    }

    /// Attaches a place together with marks chosen by the caller.
    pub fn span_with(self, span: Span, mask: Vec<HighlightKind>) -> (r: Report)
        ensures
            r@ == self@.with_marks(span, mask@),
    {
        let mut out = self;
        if out.span.is_none() {
            out.span = Some(span);
        }
        let marks = combine(out.span_mask, mask);
        out.span_mask = marks;
        out
    }

    /// Sets the label that is printed beside the carets.
    pub fn label(self, label: &str) -> (r: Report)
        ensures
            r@ == self@.with_label(label@),
    {
        let mut out = self;
        out.label = Some(String::from_str(label));
        out
    }

    /// Adds a line of help below the report.
    pub fn help(self, help: &str) -> (r: Report)
        ensures
            r@ == self@.with_footer("HELP: "@ + help@),
    {
        let line = String::from_str("HELP: ").concat(help);
        self.footer(line.as_str())
    }

    /// Adds a line of information below the report.
    pub fn info(self, info: &str) -> (r: Report)
        ensures
            r@ == self@.with_footer("INFO: "@ + info@),
    {
        let line = String::from_str("INFO: ").concat(info);
        self.footer(line.as_str())
    }

    /// Adds a note below the report.
    pub fn note(self, note: &str) -> (r: Report)
        ensures
            r@ == self@.with_footer("NOTE: "@ + note@),
    {
        let line = String::from_str("NOTE: ").concat(note);
        self.footer(line.as_str())
    }

    /// The report as the error of a result.
    pub fn as_err<T>(self) -> (r: Result<T, Box<Report>>)
        ensures
            r == Err::<T, Box<Report>>(Box::new(self)),
    {
        Err(Box::new(self))
    }

    /// Adds a line below the report, after those already there.
    pub fn footer(self, text: &str) -> (r: Report)
        ensures
            r@ == self@.with_footer(text@),
    {
        let mut out = self;
        let line = String::from_str(text);
        match out.footers {
            Some(mut footers) => {
                let ghost before = footers@;
                footers.push(line);
                assert(lines_view(footers@) =~= lines_view(before).push(text@));
                out.footers = Some(footers);
            },
            None => {
                let mut footers: Vec<String> = Vec::new();
                footers.push(line);
                assert(lines_view(footers@) =~= seq![text@]);
                out.footers = Some(footers);
            },
        }
        out
    }

    /// The severity of the report.
    pub fn level(&self) -> (r: Level)
        ensures
            r == self@.level(),
    {
        self.kind.level()
    }
}

/// A report together with the file it was filed against.
#[derive(Clone, Debug, PartialEq, Eq)]
pub struct Entry {
    pub filename: &'static str,
    pub report: Report,
}

/// What an `Entry` holds, as plain values.
pub struct EntryView {
    pub filename: &'static str,
    pub report: ReportView,
}

impl View for Entry {
    type V = EntryView;

    open spec fn view(&self) -> EntryView {
        EntryView { filename: self.filename, report: self.report@ }
    }
}

/// The views of some entries, in order.
pub open spec fn entries_view(entries: Seq<Entry>) -> Seq<EntryView> {
    entries.map_values(|e: Entry| e@)
}

/// Some reports, all filed against one file.
pub open spec fn filed_against(filename: &'static str, reports: Seq<ReportView>) -> Seq<EntryView> {
    reports.map_values(|report: ReportView| EntryView { filename, report })
}

/// One of the entries is at least as severe as `threshold`.
pub open spec fn any_reaches(entries: Seq<EntryView>, threshold: Level) -> bool {
    exists|i: int|
        0 <= i < entries.len() && (#[trigger] entries[i]).report.level().spec_reaches(threshold)
}

/// The entries of severity `level`, in the order they were filed.
pub open spec fn of_level(entries: Seq<EntryView>, level: Level) -> Seq<EntryView>
    decreases entries.len(),
{
    if entries.len() == 0 {
        Seq::empty()
    } else if entries.last().report.level() == level {
        of_level(entries.drop_last(), level).push(entries.last())
    } else {
        of_level(entries.drop_last(), level)
    }
}

/// The entries of severity `level` if that severity is shown under
/// `threshold`, else none.
pub open spec fn tier(entries: Seq<EntryView>, level: Level, threshold: Level) -> Seq<EntryView> {
    if level.spec_reaches(threshold) {
        of_level(entries, level)
    } else {
        Seq::empty()
    }
}

/// What is printed at the end of a run: the entries at least as severe as
/// `threshold`, the worst first, and within one severity in the order they
/// were filed. Under the threshold `Silent` nothing is printed, and a
/// silent report never is.
pub open spec fn shown(entries: Seq<EntryView>, threshold: Level) -> Seq<EntryView> {
    if threshold == Level::Silent {
        Seq::empty()
    } else {
        tier(entries, Level::Fatal, threshold) + tier(entries, Level::Error, threshold) + tier(
            entries,
            Level::Warn,
            threshold,
        ) + tier(entries, Level::Note, threshold)
    }
}

/// The collector of a run's reports.
#[derive(Debug)]
pub struct LogHandler {
    entries: Vec<Entry>,
}

impl View for LogHandler {
    type V = Seq<EntryView>;

    closed spec fn view(&self) -> Seq<EntryView> {
        entries_view(self.entries@)
    }
}

impl LogHandler {
    /// A handler that holds no report.
    pub fn new() -> (r: LogHandler)
        ensures
            r@ == Seq::<EntryView>::empty(),
    {
        let r = LogHandler { entries: Vec::new() };
        assert(r@ =~= Seq::<EntryView>::empty());
        r
    }

    /// Files `report` against `filename`, after the reports already filed.
    pub fn log(&mut self, filename: &'static str, report: Report)
        ensures
            final(self)@ == old(self)@.push(EntryView { filename, report: report@ }),
    {
        self.entries.push(Entry { filename, report });
        assert(self@ =~= old(self)@.push(EntryView { filename, report: report@ }));
    }

    /// Number of reports filed.
    pub fn len(&self) -> (r: usize)
        ensures
            r == self@.len(),
    {
        self.entries.len()
    }

    /// Some report filed is at least as severe as `threshold`.
    pub fn test_ge_log(&self, threshold: Level) -> (r: bool)
        ensures
            r == any_reaches(self@, threshold),
    {
        let mut i: usize = 0;
        while i < self.entries.len()
            invariant
                i <= self.entries.len(),
                !any_reaches(self@.take(i as int), threshold),
            decreases self.entries.len() - i,
        {
            if self.entries[i].report.level().reaches(threshold) {
                assert(self@[i as int].report.level().spec_reaches(threshold));
                return true;
            }
            i += 1;
            assert(!any_reaches(self@.take(i as int), threshold)) by {
                if any_reaches(self@.take(i as int), threshold) {
                    let k = choose|k: int|
                        0 <= k < self@.take(i as int).len() && (#[trigger] self@.take(
                            i as int,
                        )[k]).report.level().spec_reaches(threshold);
                    if k < i - 1 {
                        assert(self@.take(i - 1)[k].report.level().spec_reaches(threshold));
                    }
                }
            }
        }
        assert(self@.take(i as int) =~= self@);
        false
    }

    /// Ends the collecting and hands out what is to be printed, in the
    /// order in which it is printed.
    pub fn terminate(self, threshold: Level) -> (r: Vec<Entry>)
        ensures
            entries_view(r@) == shown(self@, threshold),
    {
        let ghost all = entries_view(self.entries@);
        let mut fatal: Vec<Entry> = Vec::new();
        let mut error: Vec<Entry> = Vec::new();
        let mut warn: Vec<Entry> = Vec::new();
        let mut note: Vec<Entry> = Vec::new();
        let entries = self.entries;
        for entry in it: entries
            invariant
                entries_view(it.seq()) == all,
                entries_view(fatal@) == of_level(all.take(it.index() as int), Level::Fatal),
                entries_view(error@) == of_level(all.take(it.index() as int), Level::Error),
                entries_view(warn@) == of_level(all.take(it.index() as int), Level::Warn),
                entries_view(note@) == of_level(all.take(it.index() as int), Level::Note),
        {
            proof {
                let n = it.index() as int;
                assert(all.take(n + 1).drop_last() =~= all.take(n));
                assert(all.take(n + 1).last() == entry@);
            }
            match entry.report.level() {
                Level::Fatal => {
                    fatal.push(entry);
                    assert(entries_view(fatal@) =~= of_level(
                        all.take(it.index() + 1),
                        Level::Fatal,
                    ));
                },
                Level::Error => {
                    error.push(entry);
                    assert(entries_view(error@) =~= of_level(
                        all.take(it.index() + 1),
                        Level::Error,
                    ));
                },
                Level::Warn => {
                    warn.push(entry);
                    assert(entries_view(warn@) =~= of_level(all.take(it.index() + 1), Level::Warn));
                },
                Level::Note => {
                    note.push(entry);
                    assert(entries_view(note@) =~= of_level(all.take(it.index() + 1), Level::Note));
                },
                Level::Silent => {},
            }
        }
        assert(all.take(all.len() as int) =~= all);
        let mut out: Vec<Entry> = Vec::new();
        if threshold.rank() == Level::Silent.rank() {
            assert(entries_view(out@) =~= Seq::<EntryView>::empty());
            return out;
        }
        if Level::Fatal.reaches(threshold) {
            out.append(&mut fatal);
        }
        if Level::Error.reaches(threshold) {
            out.append(&mut error);
        }
        if Level::Warn.reaches(threshold) {
            out.append(&mut warn);
        }
        if Level::Note.reaches(threshold) {
            out.append(&mut note);
        }
        assert(entries_view(out@) =~= shown(all, threshold));
        out
    }
}

/// Every entry of `of_level` has that level, and stood among the entries.
pub proof fn lemma_of_level(entries: Seq<EntryView>, level: Level, k: int)
    requires
        0 <= k < of_level(entries, level).len(),
    ensures
        of_level(entries, level)[k].report.level() == level,
        entries.contains(of_level(entries, level)[k]),
    decreases entries.len(),
{
    let rest = of_level(entries.drop_last(), level);
    if entries.last().report.level() == level && k == rest.len() {
        assert(entries[entries.len() - 1] == entries.last());
    } else {
        lemma_of_level(entries.drop_last(), level, k);
        let found = choose|j: int|
            0 <= j < entries.drop_last().len() && entries.drop_last()[j] == rest[k];
        assert(entries[found] == rest[k]);
    }
}

/// What is printed is in order of severity, the worst first; each entry
/// printed was filed, is at least as severe as the threshold, and is not
/// silent.
pub proof fn lemma_shown_worst_first(entries: Seq<EntryView>, threshold: Level, i: int, j: int)
    requires
        0 <= i <= j < shown(entries, threshold).len(),
    ensures
        shown(entries, threshold)[i].report.level().spec_rank() <= shown(
            entries,
            threshold,
        )[j].report.level().spec_rank(),
        shown(entries, threshold)[j].report.level().spec_reaches(threshold),
        shown(entries, threshold)[j].report.level() != Level::Silent,
        entries.contains(shown(entries, threshold)[j]),
{
    let a = tier(entries, Level::Fatal, threshold);
    let b = tier(entries, Level::Error, threshold);
    let c = tier(entries, Level::Warn, threshold);
    let d = tier(entries, Level::Note, threshold);
    let place = |k: int|
        if k < a.len() {
            Level::Fatal
        } else if k < a.len() + b.len() {
            Level::Error
        } else if k < a.len() + b.len() + c.len() {
            Level::Warn
        } else {
            Level::Note
        };
    assert forall|k: int| 0 <= k < shown(entries, threshold).len() implies (#[trigger] shown(
        entries,
        threshold,
    )[k]).report.level() == place(k) && place(k).spec_reaches(threshold) && entries.contains(
        shown(entries, threshold)[k],
    ) by {
        if k < a.len() {
            lemma_of_level(entries, Level::Fatal, k);
        } else if k < a.len() + b.len() {
            lemma_of_level(entries, Level::Error, k - a.len());
        } else if k < a.len() + b.len() + c.len() {
            lemma_of_level(entries, Level::Warn, k - a.len() - b.len());
        } else {
            lemma_of_level(entries, Level::Note, k - a.len() - b.len() - c.len());
        }
    }
}

} // verus!
