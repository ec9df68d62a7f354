//! What the lexer computes, as functions of the source text: where each
//! lexeme ends, what it is, and where in the file it stands.

use crate::lexer::token::TokenKind;
use crate::report::{ReportKind, ReportView};
use crate::span::Span;
use vstd::prelude::*;

verus! {

/// The classes of characters that make up the runs of a lexeme.
#[derive(Clone, Copy, Debug, PartialEq, Eq)]
pub enum CharClass {
    /// Letters, digits and `_`: the characters of a word after its first.
    Word,
    Binary,
    Octal,
    Decimal,
    Hex,
}

/// A blank, a tab or the end of a line.
pub open spec fn is_space(c: char) -> bool {
    c == ' ' || c == '\t' || c == '\r' || c == '\n'
}

/// One of the letters `a` to `z` and `A` to `Z`.
pub open spec fn is_letter(c: char) -> bool {
    'a' <= c <= 'z' || 'A' <= c <= 'Z'
}

/// A character that a word may start with: a letter or `_`.
pub open spec fn is_word_start(c: char) -> bool {
    is_letter(c) || c == '_'
}

/// The character belongs to the class.
pub open spec fn in_class(class: CharClass, c: char) -> bool {
    match class {
        CharClass::Word => is_letter(c) || c == '_' || '0' <= c <= '9',
        CharClass::Binary => c == '0' || c == '1',
        CharClass::Octal => '0' <= c <= '7',
        CharClass::Decimal => '0' <= c <= '9',
        CharClass::Hex => '0' <= c <= '9' || 'a' <= c <= 'f' || 'A' <= c <= 'F',
    }
}

/// The character at `i`, if there is one.
pub open spec fn char_at(src: Seq<char>, i: int) -> Option<char> {
    if 0 <= i < src.len() {
        Some(src[i])
    } else {
        None
    }
}

/// The end of the run of characters of `class` that starts at `i`.
pub open spec fn run_end(src: Seq<char>, i: int, class: CharClass) -> int
    decreases src.len() - i,
{
    if 0 <= i < src.len() && in_class(class, src[i]) {
        run_end(src, i + 1, class)
    } else {
        i
    }
}

/// The place of the line break at or after `i`, or the end of the text.
pub open spec fn line_end(src: Seq<char>, i: int) -> int
    decreases src.len() - i,
{
    if 0 <= i < src.len() && src[i] != '\n' {
        line_end(src, i + 1)
    } else {
        i
    }
}

/// The place of the `*/` at or after `i`, or the end of the text.
pub open spec fn comment_close(src: Seq<char>, i: int) -> int
    decreases src.len() - i,
{
    if 0 <= i < src.len() && !(src[i] == '*' && char_at(src, i + 1) == Some('/')) {
        comment_close(src, i + 1)
    } else {
        i
    }
}

/// The place at which a string that is open at `i` stops: its closing
/// quote, or the line break or end of text that comes first. A backslash
/// takes the character after it along, whatever it is but a line break.
pub open spec fn string_stop(src: Seq<char>, i: int) -> int
    decreases src.len() - i,
{
    if 0 <= i < src.len() && src[i] != '"' && src[i] != '\n' {
        if src[i] == '\\' && i + 1 < src.len() && src[i + 1] != '\n' {
            string_stop(src, i + 2)
        } else {
            string_stop(src, i + 1)
        }
    } else {
        i
    }
}

/// The line, counted from 1, in which the character at `i` stands.
pub open spec fn line_at(src: Seq<char>, i: int) -> int
    decreases i,
{
    if i <= 0 || i > src.len() {
        1
    } else if src[i - 1] == '\n' {
        line_at(src, i - 1) + 1
    } else {
        line_at(src, i - 1)
    }
}

/// The column, counted from 1, in which the character at `i` stands.
pub open spec fn column_at(src: Seq<char>, i: int) -> int
    decreases i,
{
    if i <= 0 || i > src.len() || src[i - 1] == '\n' {
        1
    } else {
        column_at(src, i - 1) + 1
    }
}

/// The span of the characters `from..to` of the text.
pub open spec fn span_of(src: Seq<char>, filename: &'static str, from: int, to: int) -> Span {
    Span {
        filename,
        start: from as usize,
        end: to as usize,
        line_number: line_at(src, from) as usize,
        column: column_at(src, from) as usize,
    }
}

/// The kind of a word: a keyword, a lone `_`, or an identifier.
pub open spec fn word_kind(word: Seq<char>) -> TokenKind {
    if word == "fn"@ {
        TokenKind::KWFn
    } else if word == "export"@ {
        TokenKind::KWExport
    } else if word == "ex\u{74}ern"@ {
        TokenKind::KWExtern
    } else if word == "impl"@ {
        TokenKind::KWImpl
    } else if word == "static"@ {
        TokenKind::KWStatic
    } else if word == "let"@ {
        TokenKind::KWLet
    } else if word == "ret"@ {
        TokenKind::KWRet
    } else if word == "type"@ {
        TokenKind::KWType
    } else if word == seq!['_'] {
        TokenKind::Underscore
    } else {
        TokenKind::Identifier
    }
}

/// The kind of the punctuation made of the two characters, if they make one.
pub open spec fn double_punct(a: char, b: char) -> Option<TokenKind> {
    if a == '^' && b == '^' {
        Some(TokenKind::CaretCaret)
    } else if a == '&' && b == '&' {
        Some(TokenKind::AmpersandAmpersand)
    } else if a == '|' && b == '|' {
        Some(TokenKind::PipePipe)
    } else if a == '<' && b == '-' {
        Some(TokenKind::ArrowLeft)
    } else if a == '-' && b == '>' {
        Some(TokenKind::ArrowRight)
    } else if a == '=' && b == '>' {
        Some(TokenKind::FatArrowRight)
    } else if a == '>' && b == '=' {
        Some(TokenKind::GreaterThanEquals)
    } else if a == '=' && b == '=' {
        Some(TokenKind::EqualsEquals)
    } else if a == '<' && b == '=' {
        Some(TokenKind::LessThanEquals)
    } else if a == '!' && b == '=' {
        Some(TokenKind::NotEquals)
    } else if a == '<' && b == '<' {
        Some(TokenKind::ShiftLeft)
    } else if a == '>' && b == '>' {
        Some(TokenKind::ShiftRight)
    } else {
        None
    }
}

/// The kind of the punctuation made of the one character, if it makes one.
pub open spec fn single_punct(c: char) -> Option<TokenKind> {
    match c {
        '~' => Some(TokenKind::Tilde),
        '!' => Some(TokenKind::Bang),
        '@' => Some(TokenKind::At),
        '#' => Some(TokenKind::Pound),
        '$' => Some(TokenKind::Dollar),
        '%' => Some(TokenKind::Percent),
        '^' => Some(TokenKind::Caret),
        '&' => Some(TokenKind::Ampersand),
        '*' => Some(TokenKind::Star),
        '(' => Some(TokenKind::LParen),
        ')' => Some(TokenKind::RParen),
        '-' => Some(TokenKind::Minus),
        '=' => Some(TokenKind::Equals),
        '+' => Some(TokenKind::Plus),
        '[' => Some(TokenKind::LBracket),
        ']' => Some(TokenKind::RBracket),
        '{' => Some(TokenKind::LBrace),
        '}' => Some(TokenKind::RBrace),
        '|' => Some(TokenKind::Pipe),
        ';' => Some(TokenKind::Semicolon),
        ':' => Some(TokenKind::Colon),
        ',' => Some(TokenKind::Comma),
        '.' => Some(TokenKind::Dot),
        '/' => Some(TokenKind::Slash),
        '?' => Some(TokenKind::Question),
        '>' => Some(TokenKind::GreaterThan),
        '<' => Some(TokenKind::LessThan),
        _ => None,
    }
}

/// What stands at a place of the text.
pub enum Lexeme {
    /// Blanks or a comment: nothing comes of it.
    Skip,
    /// A token of the kind, with the text `from..to` of the source.
    Emit(TokenKind, int, int),
    /// Something that is reported and passed over.
    Fault(ReportKind),
}

/// A lexeme and the place where it ends.
pub struct Scan {
    pub what: Lexeme,
    pub end: int,
}

/// The number that starts at `i`: binary, octal or hexadecimal after the
/// prefix `0b`, `0o` or `0x` and with a digit behind the prefix; else
/// decimal digits, which are a float where a `.` and a digit follow them.
pub open spec fn scan_number(src: Seq<char>, i: int) -> Scan {
    let marked = src[i] == '0' && (char_at(src, i + 1) == Some('b') || char_at(src, i + 1) == Some(
        'o',
    ) || char_at(src, i + 1) == Some('x'));
    let class = if char_at(src, i + 1) == Some('b') {
        CharClass::Binary
    } else if char_at(src, i + 1) == Some('o') {
        CharClass::Octal
    } else {
        CharClass::Hex
    };
    let kind = if char_at(src, i + 1) == Some('b') {
        TokenKind::BinaryIntLiteral
    } else if char_at(src, i + 1) == Some('o') {
        TokenKind::OctalIntLiteral
    } else {
        TokenKind::HexadecimalIntLiteral
    };
    if marked && i + 2 < src.len() && in_class(class, src[i + 2]) {
        let end = run_end(src, i + 2, class);
        Scan { what: Lexeme::Emit(kind, i, end), end }
    } else {
        let whole = run_end(src, i, CharClass::Decimal);
        if char_at(src, whole) == Some('.') && whole + 1 < src.len() && in_class(
            CharClass::Decimal,
            src[whole + 1],
        ) {
            let end = run_end(src, whole + 1, CharClass::Decimal);
            Scan { what: Lexeme::Emit(TokenKind::FloatLiteral, i, end), end }
        } else {
            Scan { what: Lexeme::Emit(TokenKind::DecimalIntLiteral, i, whole), end: whole }
        }
    }
}

/// What starts with the `'` at `i`: a character literal `'c'` or `'\c'`,
/// the fault of an empty one, an apostrophe in front of a word, or the
/// fault of a literal that is not closed.
pub open spec fn scan_quote(src: Seq<char>, i: int) -> Scan {
    let a = char_at(src, i + 1);
    let b = char_at(src, i + 2);
    let c = char_at(src, i + 3);
    if a == Some('\'') {
        Scan { what: Lexeme::Fault(ReportKind::EmptyCharLiteral), end: i + 2 }
    } else if a == Some('\\') && b is Some && b != Some('\n') && c == Some('\'') {
        Scan { what: Lexeme::Emit(TokenKind::CharLiteral, i + 1, i + 3), end: i + 4 }
    } else if a is Some && a != Some('\\') && a != Some('\n') && b == Some('\'') {
        Scan { what: Lexeme::Emit(TokenKind::CharLiteral, i + 1, i + 2), end: i + 3 }
    } else if a is Some && is_word_start(a->0) {
        Scan { what: Lexeme::Emit(TokenKind::Apostrophe, i, i), end: i + 1 }
    } else {
        Scan { what: Lexeme::Fault(ReportKind::UnterminatedCharLiteral), end: i + 1 }
    }
}

/// The lexeme that starts at `i`, a place inside the text.
pub open spec fn scan(src: Seq<char>, i: int) -> Scan {
    let c = src[i];
    let next = char_at(src, i + 1);
    if is_space(c) {
        Scan { what: Lexeme::Skip, end: i + 1 }
    } else if c == '/' && next == Some('/') {
        Scan { what: Lexeme::Skip, end: line_end(src, i + 2) }
    } else if c == '/' && next == Some('*') {
        let close = comment_close(src, i + 2);
        if close < src.len() {
            Scan { what: Lexeme::Skip, end: close + 2 }
        } else {
            Scan { what: Lexeme::Fault(ReportKind::UnterminatedMultilineComment), end: close }
        }
    } else if is_word_start(c) {
        let end = run_end(src, i + 1, CharClass::Word);
        let kind = word_kind(src.subrange(i, end));
        if kind == TokenKind::Identifier {
            Scan { what: Lexeme::Emit(kind, i, end), end }
        } else {
            Scan { what: Lexeme::Emit(kind, i, i), end }
        }
    } else if in_class(CharClass::Decimal, c) {
        scan_number(src, i)
    } else if c == '"' {
        let stop = string_stop(src, i + 1);
        if char_at(src, stop) == Some('"') {
            Scan { what: Lexeme::Emit(TokenKind::StringLiteral, i + 1, stop), end: stop + 1 }
        } else {
            Scan { what: Lexeme::Fault(ReportKind::UnterminatedStringLiteral), end: stop }
        }
    } else if c == '\'' {
        scan_quote(src, i)
    } else if next is Some && double_punct(c, next->0) is Some {
        Scan { what: Lexeme::Emit(double_punct(c, next->0)->0, i, i), end: i + 2 }
    } else if single_punct(c) is Some {
        Scan { what: Lexeme::Emit(single_punct(c)->0, i, i), end: i + 1 }
    } else {
        Scan { what: Lexeme::Fault(ReportKind::UnexpectedCharacter), end: i + 1 }
    }
}

/// What a token is, with the characters of its text.
pub struct TokenView {
    pub kind: TokenKind,
    pub span: Span,
    pub text: Seq<char>,
}

/// Outcome of lexing: the tokens and the reports, each in order.
pub struct Lexed {
    pub tokens: Seq<TokenView>,
    pub reports: Seq<ReportView>,
}

/// The report of a fault that spans `from..to`. An unexpected character
/// is named in the title.
pub open spec fn fault_report(
    src: Seq<char>,
    filename: &'static str,
    kind: ReportKind,
    from: int,
    to: int,
) -> ReportView {
    if kind == ReportKind::UnexpectedCharacter {
        ReportView::titled(kind, "Unexpected character '"@ + seq![src[from]] + seq!['\'']).with_span(
            span_of(src, filename, from, to),
        )
    } else {
        ReportView::untitled(kind).with_span(span_of(src, filename, from, to))
    }
}

/// The tokens and reports of the text from `i` on. The tokens end with
/// one `EOF` that stands at the end of the text.
#[verifier::opaque]
pub open spec fn spec_lex(src: Seq<char>, filename: &'static str, i: int) -> Lexed
    decreases src.len() - i,
{
    if 0 <= i < src.len() {
        let found = scan(src, i);
        let rest = if i < found.end <= src.len() {
            spec_lex(src, filename, found.end)
        } else {
            Lexed { tokens: Seq::empty(), reports: Seq::empty() }
        };
        match found.what {
            Lexeme::Skip => rest,
            Lexeme::Emit(kind, from, to) => Lexed {
                tokens: seq![
                    TokenView {
                        kind,
                        span: span_of(src, filename, i, found.end),
                        text: src.subrange(from, to),
                    },
                ] + rest.tokens,
                reports: rest.reports,
            },
            Lexeme::Fault(kind) => Lexed {
                tokens: rest.tokens,
                reports: seq![fault_report(src, filename, kind, i, found.end)] + rest.reports,
            },
        }
    } else {
        Lexed {
            tokens: seq![
                TokenView {
                    kind: TokenKind::EOF,
                    span: span_of(src, filename, src.len() as int, src.len() as int),
                    text: Seq::empty(),
                },
            ],
            reports: Seq::empty(),
        }
    }
}

/// A run ends at or after its start and within the text.
pub proof fn lemma_run_end(src: Seq<char>, i: int, class: CharClass)
    requires
        0 <= i <= src.len(),
    ensures
        i <= run_end(src, i, class) <= src.len(),
    decreases src.len() - i,
{
    if i < src.len() && in_class(class, src[i]) {
        lemma_run_end(src, i + 1, class);
    }
}

/// A line ends at or after its start and within the text.
pub proof fn lemma_line_end(src: Seq<char>, i: int)
    requires
        0 <= i <= src.len(),
    ensures
        i <= line_end(src, i) <= src.len(),
    decreases src.len() - i,
{
    if i < src.len() && src[i] != '\n' {
        lemma_line_end(src, i + 1);
    }
}

/// A comment closes at or after its start and within the text, and where
/// it closes before the end there is room for its `*/`.
pub proof fn lemma_comment_close(src: Seq<char>, i: int)
    requires
        0 <= i <= src.len(),
    ensures
        i <= comment_close(src, i) <= src.len(),
        comment_close(src, i) < src.len() ==> comment_close(src, i) + 2 <= src.len(),
    decreases src.len() - i,
{
    if i < src.len() && !(src[i] == '*' && char_at(src, i + 1) == Some('/')) {
        lemma_comment_close(src, i + 1);
    }
}

/// A string stops at or after its start and within the text.
pub proof fn lemma_string_stop(src: Seq<char>, i: int)
    requires
        0 <= i <= src.len(),
    ensures
        i <= string_stop(src, i) <= src.len(),
    decreases src.len() - i,
{
    if i < src.len() && src[i] != '"' && src[i] != '\n' {
        if src[i] == '\\' && i + 1 < src.len() && src[i + 1] != '\n' {
            lemma_string_stop(src, i + 2);
        } else {
            lemma_string_stop(src, i + 1);
        }
    }
}

/// Line and column are counted from 1 and are never more than one above
/// the place.
pub proof fn lemma_position_bounds(src: Seq<char>, i: int)
    requires
        0 <= i <= src.len(),
    ensures
        1 <= line_at(src, i) <= i + 1,
        1 <= column_at(src, i) <= i + 1,
    decreases i,
{
    if i > 0 {
        lemma_position_bounds(src, i - 1);
    }
}

/// Every lexeme takes at least one character and ends within the text.
/// The text of a token lies within the lexeme, and no token found in the
/// text is an `EOF`.
pub proof fn lemma_scan_bounds(src: Seq<char>, i: int)
    requires
        0 <= i < src.len(),
    ensures
        i < scan(src, i).end <= src.len(),
        scan(src, i).what matches Lexeme::Emit(kind, from, to) ==> i <= from <= to <= scan(
            src,
            i,
        ).end && kind != TokenKind::EOF,
{
    if i + 2 <= src.len() {
        lemma_line_end(src, i + 2);
        lemma_comment_close(src, i + 2);
        lemma_run_end(src, i + 2, CharClass::Binary);
        lemma_run_end(src, i + 2, CharClass::Octal);
        lemma_run_end(src, i + 2, CharClass::Hex);
    }
    lemma_run_end(src, i + 1, CharClass::Word);
    lemma_run_end(src, i + 1, CharClass::Decimal);
    lemma_string_stop(src, i + 1);
    if in_class(CharClass::Decimal, src[i]) {
        let whole = run_end(src, i, CharClass::Decimal);
        assert(whole == run_end(src, i + 1, CharClass::Decimal));
        if whole + 1 <= src.len() {
            lemma_run_end(src, whole + 1, CharClass::Decimal);
        }
    }
}

/// The tokens of a text are in order and lie within it: each but the
/// last takes at least one character and ends before the next starts;
/// the last is the only `EOF` and stands at the end of the text.
pub proof fn lemma_lex_tokens(src: Seq<char>, filename: &'static str, i: int, k: int)
    requires
        0 <= i <= src.len() < usize::MAX,
        0 <= k < spec_lex(src, filename, i).tokens.len(),
    ensures
        ({
            let tokens = spec_lex(src, filename, i).tokens;
            &&& i <= tokens[k].span.start <= tokens[k].span.end <= src.len()
            &&& tokens[k].span.filename == filename
            &&& tokens[k].span.line_number == line_at(src, tokens[k].span.start as int)
            &&& tokens[k].span.column == column_at(src, tokens[k].span.start as int)
            &&& k + 1 < tokens.len() ==> tokens[k].kind != TokenKind::EOF && tokens[k].span.start
                < tokens[k].span.end <= tokens[k + 1].span.start
            &&& k + 1 == tokens.len() ==> tokens[k].kind == TokenKind::EOF && tokens[k].span.start
                == src.len() && tokens[k].text.len() == 0
        }),
    decreases src.len() - i,
{
    reveal(spec_lex);
    if i < src.len() {
        lemma_scan_bounds(src, i);
        lemma_position_bounds(src, i);
        let found = scan(src, i);
        let rest = spec_lex(src, filename, found.end);
        lemma_lex_nonempty(src, filename, found.end);
        match found.what {
            Lexeme::Emit(kind, from, to) => {
                if k == 0 {
                    lemma_lex_tokens(src, filename, found.end, 0);
                } else {
                    lemma_lex_tokens(src, filename, found.end, k - 1);
                    if k + 1 < spec_lex(src, filename, i).tokens.len() {
                        assert(spec_lex(src, filename, i).tokens[k + 1] == rest.tokens[k]);
                    }
                }
            },
            _ => {
                lemma_lex_tokens(src, filename, found.end, k);
            },
        }
    } else {
        lemma_position_bounds(src, src.len() as int);
    }
}

/// Lexing always gives at least the closing `EOF`.
pub proof fn lemma_lex_nonempty(src: Seq<char>, filename: &'static str, i: int)
    requires
        0 <= i <= src.len(),
    ensures
        spec_lex(src, filename, i).tokens.len() >= 1,
    decreases src.len() - i,
{
    reveal(spec_lex);
    if i < src.len() {
        lemma_scan_bounds(src, i);
        lemma_lex_nonempty(src, filename, scan(src, i).end);
    }
}

} // verus!
