//! Tokens and the lexer that reads them from source text.

pub mod rules;
pub mod token;

pub use token::{Token, TokenKind};

use crate::report::{filed_against, LogHandler, Report, ReportKind, ReportView};
use crate::span::Span;
use crate::text::{chars_of, push_char, spells};
use rules::{
    char_at, column_at, comment_close, double_punct, fault_report, in_class, is_space,
    is_word_start, lemma_position_bounds, line_at, line_end, run_end, scan, scan_number,
    scan_quote, single_punct, span_of, spec_lex, string_stop, word_kind, CharClass, Lexed, Lexeme,
    TokenView,
};
use vstd::prelude::*;
use vstd::string::{StrSliceExecFns, StringExecFns};

verus! {

impl<'src> View for Token<'src> {
    type V = TokenView;

    open spec fn view(&self) -> TokenView {
        TokenView { kind: self.kind, span: self.span, text: self.text@ }
    }
}

/// The views of some tokens, in order.
pub open spec fn tokens_view(tokens: Seq<Token>) -> Seq<TokenView> {
    tokens.map_values(|t: Token| t@)
}

/// A lexing outcome with more tokens and reports in front of its own.
pub open spec fn lexed_after(front: Seq<TokenView>, filed: Seq<ReportView>, rest: Lexed) -> Lexed {
    Lexed { tokens: front + rest.tokens, reports: filed + rest.reports }
}

/// What the lexer found at a place.
enum Found {
    Skip,
    Emit(TokenKind, usize, usize),
    Fault(ReportKind),
}

impl Found {
    spec fn lexeme(self) -> Lexeme {
        match self {
            Found::Skip => Lexeme::Skip,
            Found::Emit(kind, from, to) => Lexeme::Emit(kind, from as int, to as int),
            Found::Fault(kind) => Lexeme::Fault(kind),
        }
    }
}

fn space(c: char) -> (r: bool)
    ensures
        r == is_space(c),
{
    c == ' ' || c == '\t' || c == '\r' || c == '\n'
}

fn word_start(c: char) -> (r: bool)
    ensures
        r == is_word_start(c),
{
    ('a' <= c && c <= 'z') || ('A' <= c && c <= 'Z') || c == '_'
}

fn class_has(class: CharClass, c: char) -> (r: bool)
    ensures
        r == in_class(class, c),
{
    match class {
        CharClass::Word => word_start(c) || ('0' <= c && c <= '9'),
        CharClass::Binary => c == '0' || c == '1',
        CharClass::Octal => '0' <= c && c <= '7',
        CharClass::Decimal => '0' <= c && c <= '9',
        CharClass::Hex => ('0' <= c && c <= '9') || ('a' <= c && c <= 'f') || ('A' <= c && c
            <= 'F'),
    }
}

/// The character `ahead` places after `i`, if there is one.
fn look(chars: &Vec<char>, i: usize, ahead: usize) -> (r: Option<char>)
    ensures
        r == char_at(chars@, i + ahead),
{
    if ahead < chars.len() && i < chars.len() - ahead {
        Some(chars[i + ahead])
    } else {
        None
    }
}

fn find_run_end(chars: &Vec<char>, i: usize, class: CharClass) -> (r: usize)
    requires
        i <= chars.len(),
    ensures
        r == run_end(chars@, i as int, class),
        i <= r <= chars.len(),
{
    let mut k: usize = i;
    while k < chars.len() && class_has(class, chars[k])
        invariant
            i <= k <= chars.len(),
            run_end(chars@, k as int, class) == run_end(chars@, i as int, class),
        decreases chars.len() - k,
    {
        k += 1;
    }
    k
}

fn find_line_end(chars: &Vec<char>, i: usize) -> (r: usize)
    requires
        i <= chars.len(),
    ensures
        r == line_end(chars@, i as int),
        i <= r <= chars.len(),
{
    let mut k: usize = i;
    while k < chars.len() && chars[k] != '\n'
        invariant
            i <= k <= chars.len(),
            line_end(chars@, k as int) == line_end(chars@, i as int),
        decreases chars.len() - k,
    {
        k += 1;
    }
    k
}

fn find_comment_close(chars: &Vec<char>, i: usize) -> (r: usize)
    requires
        i <= chars.len(),
    ensures
        r == comment_close(chars@, i as int),
        i <= r <= chars.len(),
        r < chars.len() ==> r + 2 <= chars.len(),
{
    let mut k: usize = i;
    while k < chars.len() && !(chars[k] == '*' && look(chars, k, 1) == Some('/'))
        invariant
            i <= k <= chars.len(),
            comment_close(chars@, k as int) == comment_close(chars@, i as int),
        decreases chars.len() - k,
    {
        k += 1;
    }
    k
}

fn find_string_stop(chars: &Vec<char>, i: usize) -> (r: usize)
    requires
        i <= chars.len(),
    ensures
        r == string_stop(chars@, i as int),
        i <= r <= chars.len(),
{
    let mut k: usize = i;
    while k < chars.len() && chars[k] != '"' && chars[k] != '\n'
        invariant
            i <= k <= chars.len(),
            string_stop(chars@, k as int) == string_stop(chars@, i as int),
        decreases chars.len() - k,
    {
        if chars[k] == '\\' && k + 1 < chars.len() && chars[k + 1] != '\n' {
            k += 2;
        } else {
            k += 1;
        }
    }
    k
}

fn kind_of_word(chars: &Vec<char>, from: usize, to: usize) -> (r: TokenKind)
    requires
        from <= to <= chars.len(),
    ensures
        r == word_kind(chars@.subrange(from as int, to as int)),
{
    if spells(chars, from, to, "fn") {
        TokenKind::KWFn
    } else if spells(chars, from, to, "export") {
        TokenKind::KWExport
    } else if spells(chars, from, to, "ex\u{74}ern") {
        TokenKind::KWExtern
    } else if spells(chars, from, to, "impl") {
        TokenKind::KWImpl
    } else if spells(chars, from, to, "static") {
        TokenKind::KWStatic
    } else if spells(chars, from, to, "let") {
        TokenKind::KWLet
    } else if spells(chars, from, to, "ret") {
        TokenKind::KWRet
    } else if spells(chars, from, to, "type") {
        TokenKind::KWType
    } else if to - from == 1 && chars[from] == '_' {
        assert(chars@.subrange(from as int, to as int) =~= seq!['_']);
        TokenKind::Underscore
    } else {
        assert(chars@.subrange(from as int, to as int) != seq!['_']) by {
            if chars@.subrange(from as int, to as int) == seq!['_'] {
                assert(seq!['_'].len() == 1);
                assert(chars@.subrange(from as int, to as int)[0] == '_');
            }
        }
        TokenKind::Identifier
    }
}

fn double(a: char, b: char) -> (r: Option<TokenKind>)
    ensures
        r == double_punct(a, b),
{
    if a == '^' && b == '^' {
        Some(TokenKind::CaretCaret)
    } else if a == '&' && b == '&' {
        Some(TokenKind::AmpersandAmpersand)
    } else if a == '|' && b == '|' {
        Some(TokenKind::PipePipe)
    } else if a == '<' && b == '-' {
        Some(TokenKind::ArrowLeft)
    } else if a == '-' && b == '>' {
        Some(TokenKind::ArrowRight)
    } else if a == '=' && b == '>' {
        Some(TokenKind::FatArrowRight)
    } else if a == '>' && b == '=' {
        Some(TokenKind::GreaterThanEquals)
    } else if a == '=' && b == '=' {
        Some(TokenKind::EqualsEquals)
    } else if a == '<' && b == '=' {
        Some(TokenKind::LessThanEquals)
    } else if a == '!' && b == '=' {
        Some(TokenKind::NotEquals)
    } else if a == '<' && b == '<' {
        Some(TokenKind::ShiftLeft)
    } else if a == '>' && b == '>' {
        Some(TokenKind::ShiftRight)
    } else {
        None
    }
}

fn single(c: char) -> (r: Option<TokenKind>)
    ensures
        r == single_punct(c),
{
    match c {
        '~' => Some(TokenKind::Tilde),
        '!' => Some(TokenKind::Bang),
        '@' => Some(TokenKind::At),
        '#' => Some(TokenKind::Pound),
        '$' => Some(TokenKind::Dollar),
        '%' => Some(TokenKind::Percent),
        '^' => Some(TokenKind::Caret),
        '&' => Some(TokenKind::Ampersand),
        '*' => Some(TokenKind::Star),
        '(' => Some(TokenKind::LParen),
        ')' => Some(TokenKind::RParen),
        '-' => Some(TokenKind::Minus),
        '=' => Some(TokenKind::Equals),
        '+' => Some(TokenKind::Plus),
        '[' => Some(TokenKind::LBracket),
        ']' => Some(TokenKind::RBracket),
        '{' => Some(TokenKind::LBrace),
        '}' => Some(TokenKind::RBrace),
        '|' => Some(TokenKind::Pipe),
        ';' => Some(TokenKind::Semicolon),
        ':' => Some(TokenKind::Colon),
        ',' => Some(TokenKind::Comma),
        '.' => Some(TokenKind::Dot),
        '/' => Some(TokenKind::Slash),
        '?' => Some(TokenKind::Question),
        '>' => Some(TokenKind::GreaterThan),
        '<' => Some(TokenKind::LessThan),
        _ => None,
    }
}

fn number_at(chars: &Vec<char>, i: usize) -> (r: (Found, usize))
    requires
        i < chars.len(),
        in_class(CharClass::Decimal, chars@[i as int]),
    ensures
        r.0.lexeme() == scan_number(chars@, i as int).what,
        r.1 == scan_number(chars@, i as int).end,
        i < r.1 <= chars.len(),
{
    let next = look(chars, i, 1);
    let marked: bool = chars[i] == '0' && (next == Some('b') || next == Some('o') || next == Some(
        'x',
    ));
    let class = if next == Some('b') {
        CharClass::Binary
    } else if next == Some('o') {
        CharClass::Octal
    } else {
        CharClass::Hex
    };
    let kind = if next == Some('b') {
        TokenKind::BinaryIntLiteral
    } else if next == Some('o') {
        TokenKind::OctalIntLiteral
    } else {
        TokenKind::HexadecimalIntLiteral
    };
    if marked && i + 2 < chars.len() && class_has(class, chars[i + 2]) {
        let end = find_run_end(chars, i + 2, class);
        (Found::Emit(kind, i, end), end)
    } else {
        let whole = find_run_end(chars, i + 1, CharClass::Decimal);
        assert(whole == run_end(chars@, i as int, CharClass::Decimal));
        if look(chars, whole, 0) == Some('.') && whole + 1 < chars.len() && class_has(
            CharClass::Decimal,
            chars[whole + 1],
        ) {
            let end = find_run_end(chars, whole + 1, CharClass::Decimal);
            (Found::Emit(TokenKind::FloatLiteral, i, end), end)
        } else {
            (Found::Emit(TokenKind::DecimalIntLiteral, i, whole), whole)
        }
    }
}

fn quote_at(chars: &Vec<char>, i: usize) -> (r: (Found, usize))
    requires
        i < chars.len(),
    ensures
        r.0.lexeme() == scan_quote(chars@, i as int).what,
        r.1 == scan_quote(chars@, i as int).end,
        i < r.1 <= chars.len(),
{
    let a = look(chars, i, 1);
    let b = look(chars, i, 2);
    let c = look(chars, i, 3);
    if a == Some('\'') {
        (Found::Fault(ReportKind::EmptyCharLiteral), i + 2)
    } else if a == Some('\\') && b.is_some() && b != Some('\n') && c == Some('\'') {
        (Found::Emit(TokenKind::CharLiteral, i + 1, i + 3), i + 4)
    } else if a.is_some() && a != Some('\\') && a != Some('\n') && b == Some('\'') {
        (Found::Emit(TokenKind::CharLiteral, i + 1, i + 2), i + 3)
    } else {
        match a {
            Some(first) => if word_start(first) {
                (Found::Emit(TokenKind::Apostrophe, i, i), i + 1)
            } else {
                (Found::Fault(ReportKind::UnterminatedCharLiteral), i + 1)
            },
            None => (Found::Fault(ReportKind::UnterminatedCharLiteral), i + 1),
        }
    }
}

/// The lexeme that starts at `i`.
fn scan_at(chars: &Vec<char>, i: usize) -> (r: (Found, usize))
    requires
        i < chars.len(),
    ensures
        r.0.lexeme() == scan(chars@, i as int).what,
        r.1 == scan(chars@, i as int).end,
        i < r.1 <= chars.len(),
        r.0 matches Found::Emit(_, from, to) ==> i <= from <= to <= r.1,
{
    let c: char = chars[i];
    let next = look(chars, i, 1);
    if space(c) {
        return (Found::Skip, i + 1);
    }
    if c == '/' && next == Some('/') {
        return (Found::Skip, find_line_end(chars, i + 2));
    }
    if c == '/' && next == Some('*') {
        let close = find_comment_close(chars, i + 2);
        return if close < chars.len() {
            (Found::Skip, close + 2)
        } else {
            (Found::Fault(ReportKind::UnterminatedMultilineComment), close)
        };
    }
    if word_start(c) {
        let end = find_run_end(chars, i + 1, CharClass::Word);
        let kind = kind_of_word(chars, i, end);
        return if kind == TokenKind::Identifier {
            (Found::Emit(kind, i, end), end)
        } else {
            (Found::Emit(kind, i, i), end)
        };
    }
    if class_has(CharClass::Decimal, c) {
        return number_at(chars, i);
    }
    if c == '"' {
        let stop = find_string_stop(chars, i + 1);
        return if look(chars, stop, 0) == Some('"') {
            (Found::Emit(TokenKind::StringLiteral, i + 1, stop), stop + 1)
        } else {
            (Found::Fault(ReportKind::UnterminatedStringLiteral), stop)
        };
    }
    if c == '\'' {
        return quote_at(chars, i);
    }
    match next {
        Some(second) => match double(c, second) {
            Some(kind) => {
                return (Found::Emit(kind, i, i), i + 2);
            },
            None => {},
        },
        None => {},
    }
    match single(c) {
        Some(kind) => (Found::Emit(kind, i, i), i + 1),
        None => (Found::Fault(ReportKind::UnexpectedCharacter), i + 1),
    }
}

/// Line and column of the place `to`, from those of the place `from`
/// before it.
fn locate(chars: &Vec<char>, from: usize, line: usize, column: usize, to: usize) -> (r: (
    usize,
    usize,
))
    requires
        from <= to <= chars.len() < usize::MAX,
        line == line_at(chars@, from as int),
        column == column_at(chars@, from as int),
    ensures
        r.0 == line_at(chars@, to as int),
        r.1 == column_at(chars@, to as int),
{
    let mut line: usize = line;
    let mut column: usize = column;
    let mut k: usize = from;
    while k < to
        invariant
            from <= k <= to <= chars.len() < usize::MAX,
            line == line_at(chars@, k as int),
            column == column_at(chars@, k as int),
        decreases to - k,
    {
        proof {
            lemma_position_bounds(chars@, k as int);
        }
        if chars[k] == '\n' {
            line += 1;
            column = 1;
        } else {
            column += 1;
        }
        k += 1;
    }
    (line, column)
}

/// The report of a fault at `span`, which starts with the character `first`.
fn fault(kind: ReportKind, first: char, span: Span) -> (r: Report)
    ensures
        r@ == (if kind == ReportKind::UnexpectedCharacter {
            ReportView::titled(kind, "Unexpected character '"@ + seq![first] + seq!['\'']).with_span(
                span,
            )
        } else {
            ReportView::untitled(kind).with_span(span)
        }),
{
    if kind == ReportKind::UnexpectedCharacter {
        let mut title = String::from_str("Unexpected character '");
        push_char(&mut title, first);
        push_char(&mut title, '\'');
        assert(title@ =~= "Unexpected character '"@ + seq![first] + seq!['\'']);
        kind.title(title.as_str()).span(span)
    } else {
        kind.untitled().span(span)
    }
}

/// Lexing from a place inside the text is the lexeme there and the
/// lexing from its end.
proof fn lemma_lex_step(src: Seq<char>, filename: &'static str, i: int)
    requires
        0 <= i < src.len(),
    ensures
        ({
            let found = scan(src, i);
            let rest = spec_lex(src, filename, found.end);
            spec_lex(src, filename, i) == (match found.what {
                Lexeme::Skip => lexed_after(Seq::empty(), Seq::empty(), rest),
                Lexeme::Emit(kind, from, to) => lexed_after(
                    seq![
                        TokenView {
                            kind,
                            span: span_of(src, filename, i, found.end),
                            text: src.subrange(from, to),
                        },
                    ],
                    Seq::empty(),
                    rest,
                ),
                Lexeme::Fault(kind) => lexed_after(
                    Seq::empty(),
                    seq![fault_report(src, filename, kind, i, found.end)],
                    rest,
                ),
            })
        }),
{
    reveal(spec_lex);
    rules::lemma_scan_bounds(src, i);
    let rest = spec_lex(src, filename, scan(src, i).end);
    assert(Seq::<TokenView>::empty() + rest.tokens =~= rest.tokens);
    assert(Seq::<ReportView>::empty() + rest.reports =~= rest.reports);
}

/// Lexing from the end of the text is the closing `EOF`.
proof fn lemma_lex_end(src: Seq<char>, filename: &'static str)
    ensures
        spec_lex(src, filename, src.len() as int) == (Lexed {
            tokens: seq![
                TokenView {
                    kind: TokenKind::EOF,
                    span: span_of(src, filename, src.len() as int, src.len() as int),
                    text: Seq::empty(),
                },
            ],
            reports: Seq::empty(),
        }),
{
    reveal(spec_lex);
}

/// Tokens and reports put in front twice are put in front at once.
proof fn lemma_lexed_after_twice(
    a: Seq<TokenView>,
    la: Seq<ReportView>,
    b: Seq<TokenView>,
    lb: Seq<ReportView>,
    rest: Lexed,
)
    ensures
        lexed_after(a, la, lexed_after(b, lb, rest)) == lexed_after(a + b, la + lb, rest),
{
    assert(a + (b + rest.tokens) =~= (a + b) + rest.tokens);
    assert(la + (lb + rest.reports) =~= (la + lb) + rest.reports);
}

/// The lexer.
pub struct Lexer {}

impl Lexer {
    /// Reads the whole of `source` into tokens. Blanks and comments are
    /// passed over. What is no lexeme is reported to `handler` against
    /// `filename` and passed over: a character that starts nothing, a
    /// string or character literal or a block comment that is not
    /// closed, an empty character literal. The tokens end with one `EOF`.
    pub fn lex<'src>(source: &'src str, filename: &'static str, handler: &mut LogHandler) -> (tokens:
        Vec<Token<'src>>)
        requires
            source@.len() < usize::MAX,
        ensures
            tokens_view(tokens@) == spec_lex(source@, filename, 0).tokens,
            final(handler)@ == old(handler)@ + filed_against(
                filename,
                spec_lex(source@, filename, 0).reports,
            ),
    {
        let chars = chars_of(source);
        let ghost src = source@;
        let mut tokens: Vec<Token<'src>> = Vec::new();
        let mut i: usize = 0;
        let mut line: usize = 1;
        let mut column: usize = 1;
        let ghost mut filed: Seq<ReportView> = Seq::empty();
        proof {
            let whole = spec_lex(src, filename, 0);
            assert(tokens_view(tokens@) + whole.tokens =~= whole.tokens);
            assert(filed + whole.reports =~= whole.reports);
            assert(old(handler)@ + filed_against(filename, filed) =~= old(handler)@);
        }
        while i < chars.len()
            invariant
                i <= chars.len(),
                chars@ == src,
                src == source@,
                src.len() < usize::MAX,
                line == line_at(src, i as int),
                column == column_at(src, i as int),
                spec_lex(src, filename, 0) == lexed_after(
                    tokens_view(tokens@),
                    filed,
                    spec_lex(src, filename, i as int),
                ),
                handler@ == old(handler)@ + filed_against(filename, filed),
            decreases chars.len() - i,
        {
            let ghost front = tokens_view(tokens@);
            let ghost before = handler@;
            let (found, end) = scan_at(&chars, i);
            let span = Span::new(filename, i, end, line, column);
            proof {
                lemma_lex_step(src, filename, i as int);
                assert(span == span_of(src, filename, i as int, end as int));
            }
            match found {
                Found::Skip => {
                    proof {
                        lemma_lexed_after_twice(
                            front,
                            filed,
                            Seq::empty(),
                            Seq::empty(),
                            spec_lex(src, filename, end as int),
                        );
                        assert(front + Seq::<TokenView>::empty() =~= front);
                        assert(filed + Seq::<ReportView>::empty() =~= filed);
                    }
                },
                Found::Emit(kind, from, to) => {
                    let text = source.substring_char(from, to);
                    let token = Token { kind, span, text };
                    tokens.push(token);
                    proof {
                        lemma_lexed_after_twice(
                            front,
                            filed,
                            seq![token@],
                            Seq::empty(),
                            spec_lex(src, filename, end as int),
                        );
                        assert(tokens_view(tokens@) =~= front + seq![token@]);
                        assert(filed + Seq::<ReportView>::empty() =~= filed);
                    }
                },
                Found::Fault(kind) => {
                    let report = fault(kind, chars[i], span);
                    proof {
                        lemma_lexed_after_twice(
                            front,
                            filed,
                            Seq::empty(),
                            seq![report@],
                            spec_lex(src, filename, end as int),
                        );
                        assert(front + Seq::<TokenView>::empty() =~= front);
                        assert(before.push(
                            crate::report::EntryView { filename, report: report@ },
                        ) =~= old(handler)@ + filed_against(filename, filed + seq![report@]));
                        filed = filed + seq![report@];
                    }
                    handler.log(filename, report);
                },
            }
            let place = locate(&chars, i, line, column, end);
            line = place.0;
            column = place.1;
            i = end;
        }
        let end = Token {
            kind: TokenKind::EOF,
            span: Span::new(filename, i, i, line, column),
            text: "",
        };
        proof {
            reveal_strlit("");
            lemma_lex_end(src, filename);
            assert(end@.text =~= Seq::<char>::empty());
            assert(tokens_view(tokens@.push(end)) =~= tokens_view(tokens@) + seq![end@]);
            assert(filed + Seq::<ReportView>::empty() =~= filed);
        }
        tokens.push(end);
        tokens
    }
}

} // verus!
