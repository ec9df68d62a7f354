//! Rendering a report: the head, the place it points at, the source line
//! with carets beneath it, the label and the lines of advice. The result is
//! a sequence of pieces of text, each under the paint it is to be set in.

use crate::report::{Level, Report, ReportView};
use crate::span::{HighlightKind, Span};
use crate::text::{chars_of, decimal_digits, decimal_text, push_char};
use vstd::prelude::*;
use vstd::string::StringExecFns;

verus! {

/// How a piece of rendered text is set off from the text around it.
#[derive(Clone, Copy, Debug, PartialEq, Eq)]
pub enum Paint {
    /// As it is.
    Plain,
    /// Head and carets of a report of the given severity.
    Primary(Level),
    /// Label of a report of the given severity.
    Secondary(Level),
    /// Characters shown in the line that the source does not hold.
    Inserted,
    /// The arrow in front of the place.
    Pointer,
    /// The bar in front of the source line.
    Gutter,
    /// The words that stand in for a line that could not be had.
    Failure,
    /// A line of advice below the report.
    Footer,
    /// A keyword in a dump.
    Keyword,
    /// A string in a dump.
    Literal,
    /// A number in a dump.
    Value,
    /// A type in a dump.
    TypeName,
    /// What matters less in a dump.
    Faint,
}

/// A piece of rendered text.
#[derive(Clone, Debug, PartialEq, Eq)]
pub struct Piece {
    pub paint: Paint,
    pub text: String,
}

/// What a `Piece` holds, as plain values.
pub struct PieceView {
    pub paint: Paint,
    pub text: Seq<char>,
}

impl View for Piece {
    type V = PieceView;

    open spec fn view(&self) -> PieceView {
        PieceView { paint: self.paint, text: self.text@ }
    }
}

/// The views of some pieces, in order.
pub open spec fn pieces_view(pieces: Seq<Piece>) -> Seq<PieceView> {
    pieces.map_values(|p: Piece| p@)
}

/// A piece of plain text.
pub open spec fn plain(text: Seq<char>) -> PieceView {
    PieceView { paint: Paint::Plain, text }
}

/// A piece of text under a paint.
pub open spec fn painted(paint: Paint, text: Seq<char>) -> PieceView {
    PieceView { paint, text }
}

/// The character `c`, `n` times.
pub open spec fn repeated(c: char, n: nat) -> Seq<char> {
    Seq::new(n, |i: int| c)
}

/// A place as it is written after the arrow: file, line and column.
pub open spec fn span_text(span: Span) -> Seq<char> {
    span.filename@ + seq![':'] + decimal_digits(span.line_number as nat) + seq![':']
        + decimal_digits(span.column as nat)
}

/// The text of all pieces, one after the other.
pub open spec fn flat_text(pieces: Seq<PieceView>) -> Seq<char>
    decreases pieces.len(),
{
    if pieces.len() == 0 {
        Seq::empty()
    } else {
        flat_text(pieces.drop_last()) + pieces.last().text
    }
}

/// The head of a report: severity and kind in brackets, then the title.
pub open spec fn spec_header(report: ReportView) -> Seq<PieceView> {
    seq![
        PieceView {
            paint: Paint::Primary(report.level()),
            text: seq!['['] + report.level().spec_prefix() + seq![']', ' ']
                + report.kind.spec_name() + seq![':'],
        },
        plain(
            seq![' '] + (match report.title {
                Some(title) => title,
                None => Seq::empty(),
            }) + seq!['\n'],
        ),
    ]
}

/// The line that names the place.
pub open spec fn spec_pointer(span: Span) -> Seq<PieceView> {
    seq![
        plain(seq![' ']),
        PieceView { paint: Paint::Pointer, text: "--->"@ },
        plain(seq![' '] + span_text(span) + seq!['\n']),
    ]
}

/// What stands in front of each line below the pointer: a gutter as wide
/// as the line number, and a bar. Nothing for a report without a place.
pub open spec fn spec_padding(span: Option<Span>) -> Seq<PieceView> {
    match span {
        Some(span) => seq![
            plain(repeated(' ', decimal_digits(span.line_number as nat).len()) + seq![' ']),
            PieceView { paint: Paint::Gutter, text: seq!['|'] },
            plain(seq![' ']),
        ],
        None => Seq::empty(),
    }
}

/// The characters of the run of inserted marks that starts at `j`.
pub open spec fn inserted_run(mask: Seq<HighlightKind>, j: int) -> Seq<char>
    decreases mask.len() - j,
{
    if 0 <= j < mask.len() && mask[j] is Phantom {
        seq![mask[j]->Phantom_0] + inserted_run(mask, j + 1)
    } else {
        Seq::empty()
    }
}

/// A source line under its marks: the pieces of the line, and the
/// characters that stand beneath them.
pub struct Marked {
    pub pieces: Seq<PieceView>,
    pub carets: Seq<char>,
}

/// The line from its `i`-th character on, under the marks from the `j`-th
/// on. A character without a mark is plain and has a blank beneath it; one
/// under a caret is painted and has `^` beneath it; a run of inserted
/// marks puts its characters into the line, each with `^` beneath it, and
/// takes no character of the line. Where the marks go on after the line,
/// the line is continued with blanks.
pub open spec fn marked(
    line: Seq<char>,
    mask: Seq<HighlightKind>,
    level: Level,
    i: int,
    j: int,
) -> Marked
    decreases line.len() - i + mask.len() - j,
{
    if 0 <= i <= line.len() && 0 <= j <= mask.len() && (i < line.len() || j < mask.len()) {
        let c = if i < line.len() { line[i] } else { ' ' };
        let next = if i < line.len() { i + 1 } else { i };
        let mark = if j < mask.len() { mask[j] } else { HighlightKind::Empty };
        match mark {
            HighlightKind::Empty => {
                let rest = marked(line, mask, level, next, if j < mask.len() { j + 1 } else { j });
                Marked { pieces: seq![plain(seq![c])] + rest.pieces, carets: seq![' '] + rest.carets }
            },
            HighlightKind::Caret => {
                let rest = marked(line, mask, level, next, j + 1);
                Marked {
                    pieces: seq![PieceView { paint: Paint::Primary(level), text: seq![c] }]
                        + rest.pieces,
                    carets: seq!['^'] + rest.carets,
                }
            },
            HighlightKind::Phantom(_) => {
                let run = inserted_run(mask, j);
                let rest = if 1 <= run.len() <= mask.len() - j {
                    marked(line, mask, level, i, j + run.len())
                } else {
                    Marked { pieces: Seq::empty(), carets: Seq::empty() }
                };
                Marked {
                    pieces: seq![PieceView { paint: Paint::Inserted, text: run }] + rest.pieces,
                    carets: repeated('^', run.len()) + rest.carets,
                }
            },
        }
    } else {
        Marked { pieces: Seq::empty(), carets: Seq::empty() }
    }
}

/// Number of characters of `s` that are left when the blanks at its end
/// are cut off.
pub open spec fn trimmed_len(s: Seq<char>) -> nat
    decreases s.len(),
{
    if s.len() > 0 && s.last() == ' ' {
        trimmed_len(s.drop_last())
    } else {
        s.len()
    }
}

/// `s` without the blanks at its end.
pub open spec fn trimmed(s: Seq<char>) -> Seq<char> {
    s.take(trimmed_len(s) as int)
}

/// The lines of advice, each behind the padding.
pub open spec fn spec_footers(padding: Seq<PieceView>, lines: Seq<Seq<char>>) -> Seq<PieceView>
    decreases lines.len(),
{
    if lines.len() == 0 {
        Seq::empty()
    } else {
        spec_footers(padding, lines.drop_last()) + padding + seq![
            PieceView { paint: Paint::Footer, text: lines.last() },
            plain(seq!['\n']),
        ]
    }
}

/// The source line and the line of carets with the label.
pub open spec fn spec_excerpt(report: ReportView, line: Seq<char>) -> Seq<PieceView> {
    let padding = spec_padding(report.span);
    let under = marked(line, report.span_mask, report.level(), 0, 0);
    padding + under.pieces + seq![plain(seq!['\n'])] + padding + seq![
        PieceView { paint: Paint::Primary(report.level()), text: trimmed(under.carets) },
        plain(seq![' ']),
        PieceView {
            paint: Paint::Secondary(report.level()),
            text: match report.label {
                Some(label) => label,
                None => Seq::empty(),
            },
        },
        plain(seq!['\n']),
    ]
}

/// A rendered report. `line` is the source line that the place of the
/// report starts in, if it could be had. Without it the report ends after
/// the words that say so.
pub open spec fn spec_render(report: ReportView, line: Option<Seq<char>>) -> Seq<PieceView> {
    let footers = match report.footers {
        Some(lines) => spec_footers(spec_padding(report.span), lines),
        None => Seq::empty(),
    };
    match report.span {
        None => spec_header(report) + footers,
        Some(span) => match line {
            None => spec_header(report) + spec_pointer(span) + spec_padding(report.span) + seq![
                PieceView { paint: Paint::Failure, text: "Could not fetch line."@ },
                plain(seq!['\n']),
            ],
            Some(text) => spec_header(report) + spec_pointer(span) + spec_excerpt(report, text)
                + footers,
        },
    }
}

/// Adds a piece at the end.
pub(crate) fn put(out: &mut Vec<Piece>, paint: Paint, text: String)
    ensures
        pieces_view(final(out)@) == pieces_view(old(out)@).push(PieceView { paint, text: text@ }),
{
    out.push(Piece { paint, text });
    assert(pieces_view(out@) =~= pieces_view(old(out)@).push(PieceView { paint, text: text@ }));
}

/// Adds some pieces at the end.
pub(crate) fn put_all(out: &mut Vec<Piece>, more: Vec<Piece>)
    ensures
        pieces_view(final(out)@) == pieces_view(old(out)@) + pieces_view(more@),
{
    let ghost added = more@;
    let mut more = more;
    out.append(&mut more);
    assert(pieces_view(out@) =~= pieces_view(old(out)@) + pieces_view(added));
}

/// The string of one character.
pub(crate) fn one_char(c: char) -> (r: String)
    ensures
        r@ == seq![c],
{
    let mut out = String::new();
    push_char(&mut out, c);
    assert(out@ =~= seq![c]);
    out
}

/// The character `c`, `n` times.
fn repeat_char(c: char, n: usize) -> (r: String)
    ensures
        r@ == repeated(c, n as nat),
{
    let mut out = String::new();
    let mut i: usize = 0;
    assert(out@ =~= repeated(c, 0));
    while i < n
        invariant
            i <= n,
            out@ == repeated(c, i as nat),
        decreases n - i,
    {
        push_char(&mut out, c);
        i += 1;
        assert(out@ =~= repeated(c, i as nat));
    }
    out
}

/// Number of decimal digits of `n`.
fn decimal_width(n: usize) -> (r: usize)
    ensures
        r == decimal_digits(n as nat).len(),
        r >= 1,
    decreases n,
{
    if n < 10 {
        1
    } else {
        let rest = decimal_width(n / 10);
        assert(rest <= n / 10 + 1) by {
            lemma_decimal_short(n / 10);
        }
        rest + 1
    }
}

/// A number has no more digits than its value plus one.
proof fn lemma_decimal_short(n: usize)
    ensures
        decimal_digits(n as nat).len() <= n + 1,
    decreases n,
{
    if n >= 10 {
        lemma_decimal_short(n / 10);
    }
}

fn header(report: &Report) -> (r: Vec<Piece>)
    ensures
        pieces_view(r@) == spec_header(report@),
{
    let level = report.level();
    let mut head = one_char('[');
    head.append(level.prefix());
    push_char(&mut head, ']');
    push_char(&mut head, ' ');
    head.append(report.kind.name());
    push_char(&mut head, ':');
    assert(head@ =~= seq!['['] + level.spec_prefix() + seq![']', ' '] + report.kind.spec_name()
        + seq![':']);
    let mut title = one_char(' ');
    match &report.title {
        Some(text) => {
            title.append(text.as_str());
        },
        None => {
            assert(title@ =~= seq![' '] + Seq::<char>::empty());
        },
    }
    push_char(&mut title, '\n');
    assert(title@ =~= seq![' '] + (match report@.title {
        Some(title) => title,
        None => Seq::empty(),
    }) + seq!['\n']);
    let mut out: Vec<Piece> = Vec::new();
    assert(pieces_view(out@) =~= Seq::<PieceView>::empty());
    put(&mut out, Paint::Primary(level), head);
    put(&mut out, Paint::Plain, title);
    assert(pieces_view(out@) =~= spec_header(report@));
    out
}

fn pointer(span: &Span) -> (r: Vec<Piece>)
    ensures
        pieces_view(r@) == spec_pointer(*span),
{
    let mut place = one_char(' ');
    place.append(span.filename);
    push_char(&mut place, ':');
    let line = decimal_text(span.line_number);
    place.append(line.as_str());
    push_char(&mut place, ':');
    let column = decimal_text(span.column);
    place.append(column.as_str());
    push_char(&mut place, '\n');
    assert(place@ =~= seq![' '] + span_text(*span) + seq!['\n']);
    let mut out: Vec<Piece> = Vec::new();
    assert(pieces_view(out@) =~= Seq::<PieceView>::empty());
    put(&mut out, Paint::Plain, one_char(' '));
    put(&mut out, Paint::Pointer, String::from_str("--->"));
    put(&mut out, Paint::Plain, place);
    assert(pieces_view(out@) =~= spec_pointer(*span));
    out
}

fn padding(span: &Option<Span>) -> (r: Vec<Piece>)
    ensures
        pieces_view(r@) == spec_padding(*span),
{
    let mut out: Vec<Piece> = Vec::new();
    assert(pieces_view(out@) =~= Seq::<PieceView>::empty());
    match span {
        Some(span) => {
            let mut gutter = repeat_char(' ', decimal_width(span.line_number));
            push_char(&mut gutter, ' ');
            assert(gutter@ =~= repeated(' ', decimal_digits(span.line_number as nat).len())
                + seq![' ']);
            put(&mut out, Paint::Plain, gutter);
            put(&mut out, Paint::Gutter, one_char('|'));
            put(&mut out, Paint::Plain, one_char(' '));
            assert(pieces_view(out@) =~= spec_padding(Some(*span)));
        },
        None => {},
    }
    out
}

/// The mark stands for an inserted character.
fn is_inserted(mark: &HighlightKind) -> (r: bool)
    ensures
        r == (*mark is Phantom),
{
    match mark {
        HighlightKind::Phantom(_) => true,
        _ => false,
    }
}

/// The character that an inserted mark stands for.
fn inserted_char(mark: &HighlightKind) -> (r: char)
    requires
        *mark is Phantom,
    ensures
        r == mark->Phantom_0,
{
    match mark {
        HighlightKind::Phantom(c) => *c,
        _ => ' ',
    }
}

/// `s` without the blanks at its end.
fn trim_end(s: &Vec<char>) -> (r: String)
    ensures
        r@ == trimmed(s@),
{
    let mut n: usize = s.len();
    assert(s@.take(n as int) =~= s@);
    while n > 0 && s[n - 1] == ' '
        invariant
            n <= s.len(),
            trimmed_len(s@) == trimmed_len(s@.take(n as int)),
        decreases n,
    {
        assert(s@.take(n as int).drop_last() =~= s@.take(n - 1));
        n -= 1;
    }
    crate::text::string_of(s, 0, n)
}

/// The pieces of a line under its marks, and the characters beneath them.
fn mark_line(line: &Vec<char>, mask: &Vec<HighlightKind>, level: Level) -> (r: (
    Vec<Piece>,
    Vec<char>,
))
    ensures
        pieces_view(r.0@) == marked(line@, mask@, level, 0, 0).pieces,
        r.1@ == marked(line@, mask@, level, 0, 0).carets,
{
    let mut pieces: Vec<Piece> = Vec::new();
    let mut carets: Vec<char> = Vec::new();
    let mut i: usize = 0;
    let mut j: usize = 0;
    proof {
        let whole = marked(line@, mask@, level, 0, 0);
        assert(pieces_view(pieces@) + whole.pieces =~= whole.pieces);
        assert(carets@ + whole.carets =~= whole.carets);
    }
    while i < line.len() || j < mask.len()
        invariant
            i <= line.len(),
            j <= mask.len(),
            marked(line@, mask@, level, 0, 0).pieces == pieces_view(pieces@) + marked(
                line@,
                mask@,
                level,
                i as int,
                j as int,
            ).pieces,
            marked(line@, mask@, level, 0, 0).carets == carets@ + marked(
                line@,
                mask@,
                level,
                i as int,
                j as int,
            ).carets,
        decreases line.len() - i + mask.len() - j,
    {
        let ghost done_pieces = pieces_view(pieces@);
        let ghost done_carets = carets@;
        let c: char = if i < line.len() { line[i] } else { ' ' };
        let mark = if j < mask.len() { mask[j] } else { HighlightKind::Empty };
        match mark {
            HighlightKind::Empty => {
                put(&mut pieces, Paint::Plain, one_char(c));
                carets.push(' ');
                if i < line.len() {
                    i += 1;
                }
                if j < mask.len() {
                    j += 1;
                }
                proof {
                    let rest = marked(line@, mask@, level, i as int, j as int);
                    assert(done_pieces + (seq![plain(seq![c])] + rest.pieces) =~= done_pieces.push(
                        plain(seq![c]),
                    ) + rest.pieces);
                    assert(done_carets + (seq![' '] + rest.carets) =~= done_carets.push(' ')
                        + rest.carets);
                }
            },
            HighlightKind::Caret => {
                put(&mut pieces, Paint::Primary(level), one_char(c));
                carets.push('^');
                if i < line.len() {
                    i += 1;
                }
                j += 1;
                proof {
                    let rest = marked(line@, mask@, level, i as int, j as int);
                    let piece = PieceView { paint: Paint::Primary(level), text: seq![c] };
                    assert(done_pieces + (seq![piece] + rest.pieces) =~= done_pieces.push(piece)
                        + rest.pieces);
                    assert(done_carets + (seq!['^'] + rest.carets) =~= done_carets.push('^')
                        + rest.carets);
                }
            },
            HighlightKind::Phantom(_) => {
                let ghost from = j as int;
                let mut run = String::new();
                assert(run@ + inserted_run(mask@, j as int) =~= inserted_run(mask@, from));
                assert(carets@ =~= done_carets + repeated('^', run@.len()));
                while j < mask.len() && is_inserted(&mask[j])
                    invariant
                        from <= j <= mask.len(),
                        i <= line.len(),
                        carets@ == done_carets + repeated('^', run@.len()),
                        run@ + inserted_run(mask@, j as int) == inserted_run(mask@, from),
                        j == from + run@.len(),
                    decreases mask.len() - j,
                {
                    let ghost before = run@;
                    let g: char = inserted_char(&mask[j]);
                    push_char(&mut run, g);
                    carets.push('^');
                    j += 1;
                    proof {
                        assert(before + (seq![g] + inserted_run(mask@, j as int)) =~= before.push(g)
                            + inserted_run(mask@, j as int));
                        assert(carets@ =~= done_carets + repeated('^', run@.len()));
                    }
                }
                proof {
                    assert(inserted_run(mask@, j as int) =~= Seq::<char>::empty());
                    assert(run@ =~= inserted_run(mask@, from));
                }
                put(&mut pieces, Paint::Inserted, run);
                proof {
                    let rest = marked(line@, mask@, level, i as int, j as int);
                    let piece = PieceView {
                        paint: Paint::Inserted,
                        text: inserted_run(mask@, from),
                    };
                    assert(done_pieces + (seq![piece] + rest.pieces) =~= done_pieces.push(piece)
                        + rest.pieces);
                    assert(done_carets + (repeated('^', inserted_run(mask@, from).len())
                        + rest.carets) =~= carets@ + rest.carets);
                }
            },
        }
    }
    proof {
        let rest = marked(line@, mask@, level, i as int, j as int);
        assert(pieces_view(pieces@) + rest.pieces =~= pieces_view(pieces@));
        assert(carets@ + rest.carets =~= carets@);
    }
    (pieces, carets)
}

/// The source line under its marks, and beneath it the carets and the label.
fn excerpt(report: &Report, line: &str) -> (r: Vec<Piece>)
    ensures
        pieces_view(r@) == spec_excerpt(report@, line@),
{
    let level = report.level();
    let chars = chars_of(line);
    let (marks, carets) = mark_line(&chars, &report.span_mask, level);
    let mut out = padding(&report.span);
    put_all(&mut out, marks);
    put(&mut out, Paint::Plain, one_char('\n'));
    put_all(&mut out, padding(&report.span));
    put(&mut out, Paint::Primary(level), trim_end(&carets));
    put(&mut out, Paint::Plain, one_char(' '));
    let label = match &report.label {
        Some(label) => label.clone(),
        None => String::new(),
    };
    put(&mut out, Paint::Secondary(level), label);
    put(&mut out, Paint::Plain, one_char('\n'));
    assert(pieces_view(out@) =~= spec_excerpt(report@, line@));
    out
}

/// The lines of advice, each behind the padding.
fn footers(report: &Report) -> (r: Vec<Piece>)
    ensures
        pieces_view(r@) == (match report@.footers {
            Some(lines) => spec_footers(spec_padding(report@.span), lines),
            None => Seq::empty(),
        }),
{
    let mut out: Vec<Piece> = Vec::new();
    assert(pieces_view(out@) =~= Seq::<PieceView>::empty());
    match &report.footers {
        Some(lines) => {
            let ghost all = crate::report::lines_view(lines@);
            let ghost pad = spec_padding(report@.span);
            let mut i: usize = 0;
            assert(all.take(0) =~= Seq::<Seq<char>>::empty());
            while i < lines.len()
                invariant
                    i <= lines.len(),
                    all == crate::report::lines_view(lines@),
                    pad == spec_padding(report@.span),
                    pieces_view(out@) == spec_footers(pad, all.take(i as int)),
                decreases lines.len() - i,
            {
                let ghost before = pieces_view(out@);
                put_all(&mut out, padding(&report.span));
                put(&mut out, Paint::Footer, lines[i].clone());
                put(&mut out, Paint::Plain, one_char('\n'));
                i += 1;
                proof {
                    assert(all.take(i as int).drop_last() =~= all.take(i - 1));
                    assert(all.take(i as int).last() == lines@[i - 1]@);
                    assert(pieces_view(out@) =~= before + pad + seq![
                        PieceView { paint: Paint::Footer, text: lines@[i - 1]@ },
                        plain(seq!['\n']),
                    ]);
                }
            }
            assert(all.take(i as int) =~= all);
        },
        None => {},
    }
    out
}

impl Report {
    /// The report can be rendered: a label has a place to stand under, and
    /// the report is not silent.
    pub fn renderable(&self) -> (r: bool)
        ensures
            r == self@.renderable(),
    {
        (self.span.is_some() || self.label.is_none()) && self.level().rank() != Level::Silent.rank()
    }

    /// Renders the report. `line` is the source line in which the place of
    /// the report starts, where the caller could get it; it is not looked
    /// at for a report without a place.
    pub fn render(&self, line: Option<&str>) -> (r: Vec<Piece>)
        requires
            self@.renderable(),
        ensures
            pieces_view(r@) == spec_render(
                self@,
                match line {
                    Some(text) => Some(text@),
                    None => None,
                },
            ),
    {
        let mut out = header(self);
        match &self.span {
            Some(span) => {
                put_all(&mut out, pointer(span));
                match line {
                    Some(text) => {
                        put_all(&mut out, excerpt(self, text));
                    },
                    None => {
                        put_all(&mut out, padding(&self.span));
                        put(&mut out, Paint::Failure, String::from_str("Could not fetch line."));
                        put(&mut out, Paint::Plain, one_char('\n'));
                        assert(pieces_view(out@) =~= spec_render(self@, None));
                        return out;
                    },
                }
            },
            None => {},
        }
        put_all(&mut out, footers(self));
        assert(pieces_view(out@) =~= spec_render(
            self@,
            match line {
                Some(text) => Some(text@),
                None => None,
            },
        ));
        out
    }
}

/// The text of all pieces, one after the other, without any paint.
pub fn plain_text(pieces: &Vec<Piece>) -> (r: String)
    ensures
        r@ == flat_text(pieces_view(pieces@)),
{
    let mut out = String::new();
    let mut i: usize = 0;
    let ghost all = pieces_view(pieces@);
    assert(all.take(0) =~= Seq::<PieceView>::empty());
    while i < pieces.len()
        invariant
            i <= pieces.len(),
            all == pieces_view(pieces@),
            out@ == flat_text(all.take(i as int)),
        decreases pieces.len() - i,
    {
        out.append(pieces[i].text.as_str());
        i += 1;
        assert(all.take(i as int).drop_last() =~= all.take(i - 1));
    }
    assert(all.take(i as int) =~= all);
    out
}

/// What is left of a line of carets has no blank at its end, and nothing
/// but blanks was cut off.
pub proof fn lemma_trimmed(s: Seq<char>)
    ensures
        trimmed_len(s) <= s.len(),
        trimmed_len(s) > 0 ==> trimmed(s).last() != ' ',
        forall|k: int| trimmed_len(s) <= k < s.len() ==> #[trigger] s[k] == ' ',
    decreases s.len(),
{
    if s.len() > 0 && s.last() == ' ' {
        let front = s.drop_last();
        lemma_trimmed(front);
        assert(trimmed(s) =~= trimmed(front));
        assert forall|k: int| trimmed_len(s) <= k < s.len() implies #[trigger] s[k] == ' ' by {
            if k < front.len() {
                assert(front[k] == ' ');
            }
        }
    }
}

} // verus!
