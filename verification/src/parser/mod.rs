//! The recursive-descent parser.

pub mod ast;
pub mod grammar;
pub mod laws;

use crate::bigint::IBig;
use crate::lexer::{Token, TokenKind};
use crate::report::{filed_against, LogHandler, Report, ReportKind, ReportView};
use crate::span::{Sp, Span};
use crate::text::{chars_of, parse_u32, push_char, same_chars};
use ast::{node_view, nodes_view, Attrs, Node, NodeView, Type};
use grammar::{
    after, attributed, bad_width, escape_code, expected_got, is_sync, kind_at, lemma_block_end,
    lemma_block_recovery, lemma_block_statement, lemma_logged_after_twice,
    lemma_program_after_twice, lemma_program_declaration, lemma_program_end,
    lemma_program_recovery, logged_after, program_after, recover, span_at, span_before,
    spec_block, spec_body, spec_call_args, spec_expr, spec_func, spec_global, spec_named_type,
    spec_params, spec_program, spec_stmt, spec_type, step, unescape, unexpected, unexpected_eof,
};
use vstd::prelude::*;
use vstd::string::StringExecFns;

verus! {

/// The views of some reports, in order.
pub open spec fn reports_view(reports: Seq<Report>) -> Seq<ReportView> {
    reports.map_values(|r: Report| r@)
}

/// What a parsed type or the report in its place is, as plain values.
pub open spec fn type_out<'src>(r: Result<Sp<Type<'src>>, Box<Report>>) -> Result<
    Sp<Type<'src>>,
    ReportView,
> {
    match r {
        Ok(t) => Ok(t),
        Err(e) => Err((*e)@),
    }
}

/// What a parsed node or the report in its place is, as plain values.
pub open spec fn node_out<'src>(r: Result<Sp<Node<'src>>, Box<Report>>) -> Result<
    Sp<NodeView<'src>>,
    ReportView,
> {
    match r {
        Ok(n) => Ok(node_view(n)),
        Err(e) => Err((*e)@),
    }
}

/// What some parsed nodes or the report in their place are, as plain values.
pub open spec fn nodes_out<'src>(r: Result<Vec<Sp<Node<'src>>>, Box<Report>>) -> Result<
    Seq<Sp<NodeView<'src>>>,
    ReportView,
> {
    match r {
        Ok(v) => Ok(nodes_view(v@)),
        Err(e) => Err((*e)@),
    }
}

/// What some parsed parameters or the report in their place are.
pub open spec fn params_out<'src>(
    r: Result<Vec<(Sp<&'src str>, Sp<Type<'src>>)>, Box<Report>>,
) -> Result<Seq<(Sp<&'src str>, Sp<Type<'src>>)>, ReportView> {
    match r {
        Ok(v) => Ok(v@),
        Err(e) => Err((*e)@),
    }
}

/// The control character for an escape letter that names one.
pub fn parse_char(chunk: char) -> (r: char)
    requires
        escape_code(chunk) is Some,
    ensures
        Some(r) == escape_code(chunk),
{
    match escape(chunk) {
        Some(c) => c,
        None => chunk,
    }
}

/// The control character that an escape letter stands for, if it names one.
pub fn escape(chunk: char) -> (r: Option<char>)
    ensures
        r == escape_code(chunk),
{
    match chunk {
        '0' | '@' => Some('\x00'),
        'A' => Some('\x01'),
        'B' => Some('\x02'),
        'C' => Some('\x03'),
        'D' => Some('\x04'),
        'E' => Some('\x05'),
        'F' => Some('\x06'),
        'G' | 'a' => Some('\x07'),
        'H' | 'b' => Some('\x08'),
        'I' | 't' => Some('\x09'),
        'J' | 'n' => Some('\x0A'),
        'K' | 'v' => Some('\x0B'),
        'L' | 'f' => Some('\x0C'),
        'M' | 'r' => Some('\x0D'),
        'N' => Some('\x0E'),
        'O' => Some('\x0F'),
        'P' => Some('\x10'),
        'Q' => Some('\x11'),
        'R' => Some('\x12'),
        'S' => Some('\x13'),
        'T' => Some('\x14'),
        'U' => Some('\x15'),
        'V' => Some('\x16'),
        'W' => Some('\x17'),
        'X' => Some('\x18'),
        'Y' => Some('\x19'),
        'Z' => Some('\x1A'),
        '[' | 'e' => Some('\x1B'),
        '/' => Some('\x1C'),
        ']' => Some('\x1D'),
        '^' => Some('\x1E'),
        '_' => Some('\x1F'),
        '?' => Some('\x7F'),
        _ => None,
    }
}

/// The text with more characters in front.
pub open spec fn prefixed(front: Seq<char>, rest: Option<Seq<char>>) -> Option<Seq<char>> {
    match rest {
        Some(text) => Some(front + text),
        None => None,
    }
}

/// The text of a string literal with its escapes resolved, or nothing
/// where an escape names no character or the text ends in a backslash.
pub fn resolve_escapes(text: &str) -> (r: Option<String>)
    ensures
        r is Some <==> unescape(text@) is Some,
        r matches Some(s) ==> Some(s@) == unescape(text@),
{
    let chars = chars_of(text);
    let mut out = String::new();
    let mut i: usize = 0;
    assert(chars@.skip(0) =~= chars@);
    assert(prefixed(out@, unescape(chars@)) =~= unescape(chars@));
    while i < chars.len()
        invariant
            i <= chars.len(),
            chars@ == text@,
            unescape(chars@) == prefixed(out@, unescape(chars@.skip(i as int))),
        decreases chars.len() - i,
    {
        let ghost rest = chars@.skip(i as int);
        let ghost before = out@;
        let c: char = chars[i];
        if c != '\\' {
            push_char(&mut out, c);
            i += 1;
            proof {
                assert(rest.skip(1) =~= chars@.skip(i as int));
                let tail = unescape(chars@.skip(i as int));
                if tail is Some {
                    assert(before + (seq![c] + tail->0) =~= out@ + tail->0);
                }
            }
        } else if i + 1 < chars.len() {
            match escape(chars[i + 1]) {
                Some(code) => {
                    push_char(&mut out, code);
                    i += 2;
                    proof {
                        assert(rest.skip(2) =~= chars@.skip(i as int));
                        let tail = unescape(chars@.skip(i as int));
                        if tail is Some {
                            assert(before + (seq![code] + tail->0) =~= out@ + tail->0);
                        }
                    }
                },
                None => {
                    return None;
                },
            }
        } else {
            return None;
        }
    }
    proof {
        assert(chars@.skip(i as int) =~= Seq::<char>::empty());
        assert(out@ + Seq::<char>::empty() =~= out@);
    }
    Some(out)
}

/// The kind is that of an identifier.
fn is_identifier(kind: TokenKind) -> (r: bool)
    ensures
        r == (kind == TokenKind::Identifier),
{
    kind == TokenKind::Identifier
}

/// The kind is `:`.
fn is_colon(kind: TokenKind) -> (r: bool)
    ensures
        r == (kind == TokenKind::Colon),
{
    kind == TokenKind::Colon
}

/// The kind is `=`.
fn is_equals(kind: TokenKind) -> (r: bool)
    ensures
        r == (kind == TokenKind::Equals),
{
    kind == TokenKind::Equals
}

/// The kind is `;`.
fn is_semicolon(kind: TokenKind) -> (r: bool)
    ensures
        r == (kind == TokenKind::Semicolon),
{
    kind == TokenKind::Semicolon
}

/// The kind is `]`.
fn is_rbracket(kind: TokenKind) -> (r: bool)
    ensures
        r == (kind == TokenKind::RBracket),
{
    kind == TokenKind::RBracket
}

/// The kind is one at which the parser takes up work again after an error.
fn is_sync_kind(kind: TokenKind) -> (r: bool)
    ensures
        r == is_sync(kind),
{
    kind == TokenKind::Semicolon || kind == TokenKind::RBrace || kind == TokenKind::EOF
}

/// A function with one more attribute, spanning from the attribute on.
fn add_attr<'src>(f: Sp<Node<'src>>, attr: Sp<Attrs>) -> (r: Sp<Node<'src>>)
    ensures
        node_view(r) == attributed(node_view(f), attr),
{
    let Sp { elem, span } = f;
    let elem = match elem {
        Node::Func { name, args, ret, body, attrs } => {
            let mut attrs = attrs;
            attrs.push(attr);
            Node::Func { name, args, ret, body, attrs }
        },
        other => other,
    };
    let r = Sp::new(elem, attr.span.extend(&span));
    proof {
        ast::lemma_node_view_children(f);
        ast::lemma_node_view_children(r);
        assert(node_view(r).elem == attributed(node_view(f), attr).elem);
    }
    r
}

/// `chars` spell `word`.
fn is_word(chars: &Vec<char>, word: &str) -> (r: bool)
    ensures
        r == (chars@ == word@),
{
    let other = chars_of(word);
    same_chars(chars, &other)
}

/// The title "Expected .., got '..'".
fn expected_got_title(what: &str, found: TokenKind) -> (r: String)
    ensures
        r@ == expected_got(what@, found),
        r@.len() > 0,
{
    proof {
        reveal(expected_got);
        reveal_strlit("Expected ");
    }
    String::from_str("Expected ").concat(what).concat(", got '").concat(found.name()).concat("'")
}

/// Report of a primitive type whose width is no number.
fn bad_width_report(hint: &str, span: Span) -> (r: Box<Report>)
    ensures
        (*r)@ == bad_width(hint@, span),
{
    proof {
        reveal(bad_width);
        reveal_strlit("Invalid integer in primitive type");
    }
    Box::new(
        ReportKind::InvalidNumber.title("Invalid integer in primitive type").label(hint).span(span),
    )
}

/// Report of a token that may not stand where it does.
fn unexpected_report(title: &str, span: Span) -> (r: Box<Report>)
    requires
        title@.len() > 0,
    ensures
        (*r)@ == unexpected(title@, span),
{
    reveal(unexpected);
    Box::new(ReportKind::UnexpectedToken.title(title).span(span))
}

/// Report of tokens that end before a construct does.
fn unexpected_eof_report(title: &str, span: Span) -> (r: Box<Report>)
    requires
        title@.len() > 0,
    ensures
        (*r)@ == unexpected_eof(title@, span),
{
    reveal(unexpected_eof);
    Box::new(ReportKind::UnexpectedEOF.title(title).span(span))
}

/// The type that an identifier names by itself.
fn named_type<'src>(text: &'src str, chars: &Vec<char>, span: Span) -> (r: Result<
    Type<'src>,
    Box<Report>,
>)
    requires
        chars@ == text@,
    ensures
        match r {
            Ok(t) => spec_named_type(text, span) == Ok::<Type<'src>, ReportView>(t),
            Err(e) => spec_named_type(text, span) == Err::<Type<'src>, ReportView>((*e)@),
        },
{
    if is_word(chars, "isize") {
        return Ok(Type::Isize);
    }
    if is_word(chars, "usize") {
        return Ok(Type::Usize);
    }
    if chars.len() > 0 {
        let first: char = chars[0];
        if first == 'u' {
            return match parse_u32(chars, 1) {
                Some(n) => Ok(Type::U(n)),
                None => Err(bad_width_report("try 'u8'", span)),
            };
        }
        if first == 'i' {
            return match parse_u32(chars, 1) {
                Some(n) => Ok(Type::I(n)),
                None => Err(bad_width_report("try 'i8'", span)),
            };
        }
        if first == 'b' {
            return match parse_u32(chars, 1) {
                Some(n) => Ok(Type::B(n)),
                None => Err(bad_width_report("try 'b8'", span)),
            };
        }
        if first == 'f' {
            return match parse_u32(chars, 1) {
                Some(n) => Ok(Type::F(n)),
                None => Err(bad_width_report("try 'f8'", span)),
            };
        }
    }
    if is_word(chars, "void") {
        Ok(Type::Void)
    } else if is_word(chars, "never") {
        Ok(Type::Never)
    } else {
        Ok(Type::Ident(text))
    }
}

/// The parser's state: the tokens, the cursor into them, and the reports
/// filed so far.
pub struct Parser<'src> {
    tokens: Vec<Token<'src>>,
    index: usize,
    reports: Vec<Report>,
    filename: &'static str,
}

impl<'src> Parser<'src> {
    /// There is a token, and the cursor stands at one or at the end.
    spec fn wf(&self) -> bool {
        self.tokens.len() > 0 && self.index <= self.tokens.len()
    }

    /// `self` differs from `old` by its cursor alone.
    spec fn moved_from(&self, old: &Parser<'src>) -> bool {
        &&& self.wf()
        &&& self.tokens == old.tokens
        &&& self.reports == old.reports
        &&& self.filename == old.filename
        &&& self.index >= old.index
    }

    /// `self` differs from `old` by its cursor and by `filed`, the reports
    /// filed since.
    spec fn filed_since(&self, old: &Parser<'src>, filed: Seq<ReportView>) -> bool {
        &&& self.wf()
        &&& self.tokens == old.tokens
        &&& self.filename == old.filename
        &&& self.index >= old.index
        &&& reports_view(self.reports@) == reports_view(old.reports@) + filed
    }

    /// The token at the cursor; past the end, an `EOF` at the last token.
    fn current(&self) -> (t: Token<'src>)
        requires
            self.wf(),
        ensures
            t.kind == kind_at(self.tokens@, self.index as int),
            t.span == span_at(self.tokens@, self.index as int),
            self.index < self.tokens.len() ==> t == self.tokens@[self.index as int],
    {
        if self.index < self.tokens.len() {
            self.tokens[self.index]
        } else {
            Token { kind: TokenKind::EOF, span: self.tokens[self.tokens.len() - 1].span, text: "" }
        }
    }

    /// The token `offset` places from the cursor, if there is one.
    fn peek(&self, offset: isize) -> (r: Option<Token<'src>>)
        requires
            self.wf(),
            self.index + offset >= 0,
        ensures
            r == (if self.index + offset < self.tokens.len() {
                Some(self.tokens@[self.index + offset])
            } else {
                None
            }),
    {
        let at: usize = if offset >= 0 {
            let forward: usize = offset as usize;
            if forward > self.tokens.len() - self.index {
                return None;
            }
            self.index + forward
        } else {
            let back: usize = (-(offset + 1)) as usize + 1;
            self.index - back
        };
        if at < self.tokens.len() {
            Some(self.tokens[at])
        } else {
            None
        }
    }

    /// The span of the token before the cursor.
    fn previous_span(&self) -> (r: Span)
        requires
            self.wf(),
        ensures
            r == span_before(self.tokens@, self.index as int),
    {
        if self.index >= 1 {
            match self.peek(-1) {
                Some(token) => token.span,
                None => self.current().span,
            }
        } else {
            self.current().span
        }
    }

    /// Moves the cursor by one token; at the end it stays.
    fn advance(&mut self)
        requires
            old(self).wf(),
        ensures
            final(self).moved_from(old(self)),
            final(self).index == step(old(self).tokens@, old(self).index as int),
    {
        if self.index < self.tokens.len() {
            self.index += 1;
        }
    }

    /// Moves the cursor by one token if `f` accepts the kind at the cursor.
    fn advance_if<F: FnOnce(TokenKind) -> bool>(&mut self, f: F) -> (r: bool)
        requires
            old(self).wf(),
            f.requires((kind_at(old(self).tokens@, old(self).index as int),)),
        ensures
            final(self).moved_from(old(self)),
            f.ensures((kind_at(old(self).tokens@, old(self).index as int),), r),
            final(self).index == (if r {
                step(old(self).tokens@, old(self).index as int)
            } else {
                old(self).index as int
            }),
    {
        if f(self.current().kind) {
            self.advance();
            true
        } else {
            false
        }
    }

    /// Files a report.
    fn log(&mut self, report: Report)
        requires
            old(self).wf(),
        ensures
            final(self).wf(),
            final(self).tokens == old(self).tokens,
            final(self).index == old(self).index,
            final(self).filename == old(self).filename,
            reports_view(final(self).reports@) == reports_view(old(self).reports@).push(report@),
    {
        let ghost before = self.reports@;
        self.reports.push(report);
        assert(reports_view(self.reports@) =~= reports_view(before).push(report@));
    }

    /// Passes over tokens up to the next `;`, `}` or the end.
    fn skip_to_sync(&mut self)
        requires
            old(self).wf(),
        ensures
            final(self).moved_from(old(self)),
            final(self).index == recover(old(self).tokens@, old(self).index as int),
            is_sync(kind_at(old(self).tokens@, final(self).index as int)),
    {
        while !is_sync_kind(self.current().kind)
            invariant
                self.moved_from(old(self)),
                recover(self.tokens@, self.index as int) == recover(
                    old(self).tokens@,
                    old(self).index as int,
                ),
            decreases self.tokens.len() - self.index,
        {
            self.advance();
        }
    }

    /// Parses a whole token sequence. The declarations that stand come
    /// back in order; every report of the parse is filed with `handler`
    /// against `filename`, in the order the errors were met. No sequence is
    /// refused: one without a closing `EOF` is read as if it had one.
    pub fn parse(
        tokens: Vec<Token<'src>>,
        filename: &'static str,
        handler: &mut LogHandler,
    ) -> (ast: Vec<Sp<Node<'src>>>)
        ensures
            nodes_view(ast@) == spec_program(tokens@, 0).nodes,
            final(handler)@ == old(handler)@ + filed_against(
                filename,
                spec_program(tokens@, 0).reports,
            ),
    {
        if tokens.is_empty() {
            let ast: Vec<Sp<Node<'src>>> = Vec::new();
            proof {
                assert(nodes_view(ast@) =~= Seq::<Sp<NodeView<'src>>>::empty());
                lemma_program_end(tokens@, 0);
                assert(old(handler)@ + filed_against(filename, Seq::empty()) =~= old(handler)@);
            }
            return ast;
        }
        let ghost toks = tokens@;
        let mut parser = Parser { tokens, index: 0, reports: Vec::new(), filename };
        assert(reports_view(parser.reports@) =~= Seq::<ReportView>::empty());
        let ast = parser.parse_program();
        let reports = parser.reports;
        let ghost filed = reports_view(reports@);
        assert(filed =~= spec_program(toks, 0).reports);
        assert(old(handler)@ + filed_against(filename, filed.take(0)) =~= old(handler)@);
        for report in it: reports
            invariant
                reports_view(it.seq()) == filed,
                handler@ == old(handler)@ + filed_against(filename, filed.take(it.index() as int)),
        {
            let ghost n = it.index() as int;
            handler.log(filename, report);
            assert(handler@ =~= old(handler)@ + filed_against(filename, filed.take(n + 1)));
        }
        assert(filed.take(filed.len() as int) =~= filed);
        ast
    }

    /// The declarations from the cursor to the end.
    fn parse_program(&mut self) -> (ast: Vec<Sp<Node<'src>>>)
        requires
            old(self).wf(),
        ensures
            final(self).filed_since(
                old(self),
                spec_program(old(self).tokens@, old(self).index as int).reports,
            ),
            nodes_view(ast@) == spec_program(old(self).tokens@, old(self).index as int).nodes,
    {
        let mut ast: Vec<Sp<Node<'src>>> = Vec::new();
        let ghost start = self.index as int;
        let ghost toks = self.tokens@;
        let ghost mut filed: Seq<ReportView> = Seq::empty();
        proof {
            assert(nodes_view(ast@) =~= Seq::<Sp<NodeView<'src>>>::empty());
            let whole = spec_program(toks, start);
            assert(reports_view(self.reports@) + filed =~= reports_view(self.reports@));
            assert(filed + whole.reports =~= whole.reports);
            assert(Seq::<Sp<NodeView<'src>>>::empty() + whole.nodes =~= whole.nodes);
        }
        while self.current().kind != TokenKind::EOF
            invariant
                self.filed_since(old(self), filed),
                toks == self.tokens@,
                start == old(self).index,
                spec_program(toks, start) == program_after(
                    nodes_view(ast@),
                    filed,
                    spec_program(toks, self.index as int),
                ),
            decreases self.tokens.len() - self.index,
        {
            let ghost front = nodes_view(ast@);
            let ghost from = self.index as int;
            let ghost global = spec_global(toks, from);
            match self.parse_global() {
                Ok(node) => {
                    proof {
                        ast::lemma_nodes_view_push(ast@, node);
                        lemma_program_declaration(toks, from);
                        lemma_program_after_twice(
                            front,
                            filed,
                            seq![node_view(node)],
                            global.logged,
                            spec_program(toks, self.index as int),
                        );
                        assert(front + seq![node_view(node)] =~= front.push(node_view(node)));
                        assert(reports_view(old(self).reports@) + (filed + global.logged)
                            =~= reports_view(old(self).reports@) + filed + global.logged);
                        filed = filed + global.logged;
                    }
                    ast.push(node);
                },
                Err(report) => {
                    let ghost failed = (*report)@;
                    self.log(*report);
                    self.skip_to_sync();
                    if self.current().kind != TokenKind::EOF {
                        self.advance();
                    }
                    proof {
                        lemma_program_recovery(toks, from);
                        lemma_program_after_twice(
                            front,
                            filed,
                            Seq::empty(),
                            global.logged.push(failed),
                            spec_program(toks, self.index as int),
                        );
                        assert(front + Seq::<Sp<NodeView<'src>>>::empty() =~= front);
                        assert(reports_view(self.reports@) =~= reports_view(old(self).reports@) + (
                        filed + global.logged.push(failed)));
                        filed = filed + global.logged.push(failed);
                    }
                },
            }
        }
        proof {
            lemma_program_end(toks, self.index as int);
            assert(nodes_view(ast@) + Seq::<Sp<NodeView<'src>>>::empty() =~= nodes_view(ast@));
            assert(filed + Seq::<ReportView>::empty() =~= filed);
        }
        ast
    }

    /// A declaration at the top of a file: a function, or a modifier in
    /// front of a declaration.
    fn parse_global(&mut self) -> (r: Result<Sp<Node<'src>>, Box<Report>>)
        requires
            old(self).wf(),
        ensures
            final(self).filed_since(
                old(self),
                spec_global(old(self).tokens@, old(self).index as int).logged,
            ),
            node_out(r) == spec_global(old(self).tokens@, old(self).index as int).out,
            final(self).index == spec_global(old(self).tokens@, old(self).index as int).next,
            kind_at(old(self).tokens@, old(self).index as int) != TokenKind::EOF
                ==> final(self).index > old(self).index,
        decreases old(self).tokens.len() - old(self).index,
    {
        let token = self.current();
        match token.kind {
            TokenKind::KWFn => self.parse_func(),
            TokenKind::KWExtern | TokenKind::KWExport => {
                self.advance();
                if self.current().kind == TokenKind::EOF {
                    assert(reports_view(self.reports@) + Seq::<ReportView>::empty()
                        =~= reports_view(self.reports@));
                    return Err(Box::new(ReportKind::UnexpectedEOF.untitled().span(token.span)));
                }
                match self.parse_global() {
                    Ok(f) => {
                        let attr = if token.kind == TokenKind::KWExtern {
                            Attrs::Extern
                        } else {
                            Attrs::Export
                        };
                        Ok(add_attr(f, Sp::new(attr, token.span)))
                    },
                    Err(e) => Err(e),
                }
            },
            found => {
                self.advance();
                assert(reports_view(self.reports@) + Seq::<ReportView>::empty() =~= reports_view(
                    self.reports@,
                ));
                proof {
                    reveal_strlit("got '");
                }
                let title = String::from_str("got '").concat(found.name()).concat("'");
                Err(unexpected_report(title.as_str(), token.span))
            },
        }
    }

    /// A function, from its `fn` on.
    fn parse_func(&mut self) -> (r: Result<Sp<Node<'src>>, Box<Report>>)
        requires
            old(self).wf(),
        ensures
            final(self).filed_since(
                old(self),
                spec_func(old(self).tokens@, old(self).index as int).logged,
            ),
            node_out(r) == spec_func(old(self).tokens@, old(self).index as int).out,
            final(self).index == spec_func(old(self).tokens@, old(self).index as int).next,
            kind_at(old(self).tokens@, old(self).index as int) != TokenKind::EOF
                ==> final(self).index > old(self).index,
    {
        let first = self.current();
        self.advance();
        assert(reports_view(self.reports@) + Seq::<ReportView>::empty() =~= reports_view(
            self.reports@,
        ));
        let name_token = self.current();
        if !self.advance_if(is_identifier) {
            proof {
                reveal_strlit("Expected identifier");
            }
            return Err(unexpected_report("Expected identifier", name_token.span));
        }
        let name = Sp::new(name_token.text, name_token.span);
        let open = self.current();
        if open.kind != TokenKind::LParen {
            proof {
                reveal_strlit("Expected '('");
            }
            return Err(unexpected_report("Expected '('", open.span));
        }
        self.advance();
        let args = match self.parse_params() {
            Ok(args) => args,
            Err(e) => {
                return Err(e);
            },
        };
        let marker = self.current().kind;
        let bare: bool = marker == TokenKind::Colon || marker == TokenKind::LBrace || marker
            == TokenKind::Semicolon;
        let ret: Option<Sp<Type<'src>>> = if bare {
            None
        } else {
            match self.parse_type() {
                Ok(ty) => Some(ty),
                Err(e) => {
                    return Err(e);
                },
            }
        };
        let body = match self.parse_body() {
            Ok(body) => body,
            Err(e) => {
                return Err(e);
            },
        };
        let span = first.span.extend(&self.previous_span());
        let node = Sp::new(Node::Func { name, args, ret, body, attrs: Vec::new() }, span);
        proof {
            ast::lemma_node_view_children(node);
        }
        Ok(node)
    }

    /// The parameters of a function, from after its `(` up to and with its `)`.
    fn parse_params(&mut self) -> (r: Result<Vec<(Sp<&'src str>, Sp<Type<'src>>)>, Box<Report>>)
        requires
            old(self).wf(),
        ensures
            final(self).moved_from(old(self)),
            params_out(r) == spec_params(old(self).tokens@, old(self).index as int).out,
            final(self).index == spec_params(old(self).tokens@, old(self).index as int).next,
    {
        let mut args: Vec<(Sp<&'src str>, Sp<Type<'src>>)> = Vec::new();
        let ghost start = self.index as int;
        let ghost toks = self.tokens@;
        proof {
            let whole = spec_params(toks, start);
            if whole.out is Ok {
                assert(args@ + whole.out->Ok_0 =~= whole.out->Ok_0);
            }
        }
        loop
            invariant
                self.moved_from(old(self)),
                toks == self.tokens@,
                start == old(self).index,
                spec_params(toks, start) == after(args@, spec_params(toks, self.index as int)),
            decreases self.tokens.len() - self.index,
        {
            let ghost front = args@;
            let token = self.current();
            match token.kind {
                TokenKind::RParen => {
                    self.advance();
                    assert(front + Seq::<(Sp<&'src str>, Sp<Type<'src>>)>::empty() =~= front);
                    return Ok(args);
                },
                TokenKind::Identifier => {
                    self.advance();
                    let colon = self.current();
                    if colon.kind != TokenKind::Colon {
                        proof {
                            reveal_strlit("Expected ':'");
                        }
                        return Err(unexpected_report("Expected ':'", colon.span));
                    }
                    self.advance();
                    let ty = match self.parse_type() {
                        Ok(ty) => ty,
                        Err(e) => {
                            return Err(e);
                        },
                    };
                    let param = (Sp::new(token.text, token.span), ty);
                    let close = self.current();
                    if close.kind == TokenKind::RParen {
                        self.advance();
                        args.push(param);
                        assert(front + seq![param] =~= args@);
                        return Ok(args);
                    } else if close.kind == TokenKind::Comma {
                        self.advance();
                        proof {
                            let rest = spec_params(toks, self.index as int);
                            if rest.out is Ok {
                                assert(front + (seq![param] + rest.out->Ok_0) =~= front.push(param)
                                    + rest.out->Ok_0);
                            }
                        }
                        args.push(param);
                    } else {
                        proof {
                            reveal_strlit("Expected ',' or ')'");
                        }
                        return Err(unexpected_report("Expected ',' or ')'", close.span));
                    }
                },
                _ => {
                    proof {
                        reveal_strlit("Expected identifier");
                    }
                    return Err(unexpected_report("Expected identifier", token.span));
                },
            }
        }
    }

    /// The body of a function from its marker on: `;`, `: stmt` or a block.
    fn parse_body(&mut self) -> (r: Result<Vec<Sp<Node<'src>>>, Box<Report>>)
        requires
            old(self).wf(),
        ensures
            final(self).filed_since(
                old(self),
                spec_body(old(self).tokens@, old(self).index as int).logged,
            ),
            nodes_out(r) == spec_body(old(self).tokens@, old(self).index as int).out,
            final(self).index == spec_body(old(self).tokens@, old(self).index as int).next,
    {
        let marker = self.current();
        self.advance();
        assert(reports_view(self.reports@) + Seq::<ReportView>::empty() =~= reports_view(
            self.reports@,
        ));
        match marker.kind {
            TokenKind::Colon => match self.parse_stmt() {
                Ok(stmt) => {
                    let mut body: Vec<Sp<Node<'src>>> = Vec::new();
                    body.push(stmt);
                    assert(nodes_view(body@) =~= seq![node_view(stmt)]);
                    Ok(body)
                },
                Err(e) => Err(e),
            },
            TokenKind::LBrace => self.parse_block(),
            TokenKind::Semicolon => {
                let body: Vec<Sp<Node<'src>>> = Vec::new();
                assert(nodes_view(body@) =~= Seq::<Sp<NodeView<'src>>>::empty());
                Ok(body)
            },
            _ => {
                proof {
                    reveal_strlit("Expected '{', ';', or ':'");
                }
                Err(unexpected_report("Expected '{', ';', or ':'", marker.span))
            },
        }
    }

    /// The statements of a block, from after its `{` up to and with its `}`.
    fn parse_block(&mut self) -> (r: Result<Vec<Sp<Node<'src>>>, Box<Report>>)
        requires
            old(self).wf(),
        ensures
            final(self).filed_since(
                old(self),
                spec_block(old(self).tokens@, old(self).index as int).logged,
            ),
            nodes_out(r) == spec_block(old(self).tokens@, old(self).index as int).out,
            final(self).index == spec_block(old(self).tokens@, old(self).index as int).next,
    {
        let mut body: Vec<Sp<Node<'src>>> = Vec::new();
        let ghost start = self.index as int;
        let ghost toks = self.tokens@;
        let ghost mut filed: Seq<ReportView> = Seq::empty();
        proof {
            assert(nodes_view(body@) =~= Seq::<Sp<NodeView<'src>>>::empty());
            let whole = spec_block(toks, start);
            assert(reports_view(self.reports@) + filed =~= reports_view(self.reports@));
            assert(filed + whole.logged =~= whole.logged);
            if whole.out is Ok {
                assert(Seq::<Sp<NodeView<'src>>>::empty() + whole.out->Ok_0 =~= whole.out->Ok_0);
            }
        }
        loop
            invariant
                self.filed_since(old(self), filed),
                toks == self.tokens@,
                start == old(self).index,
                spec_block(toks, start) == logged_after(
                    nodes_view(body@),
                    filed,
                    spec_block(toks, self.index as int),
                ),
            decreases self.tokens.len() - self.index,
        {
            let ghost front = nodes_view(body@);
            let ghost before = reports_view(self.reports@);
            let ghost from = self.index as int;
            let token = self.current();
            match token.kind {
                TokenKind::RBrace => {
                    self.advance();
                    proof {
                        lemma_block_end(toks, from);
                        assert(front + Seq::<Sp<NodeView<'src>>>::empty() =~= front);
                        assert(filed + Seq::<ReportView>::empty() =~= filed);
                    }
                    return Ok(body);
                },
                TokenKind::EOF => {
                    proof {
                        lemma_block_end(toks, from);
                        reveal_strlit("Expected '}'");
                        assert(filed + Seq::<ReportView>::empty() =~= filed);
                    }
                    return Err(unexpected_eof_report("Expected '}'", self.previous_span()));
                },
                _ => match self.parse_stmt() {
                    Ok(stmt) => {
                        proof {
                            ast::lemma_nodes_view_push(body@, stmt);
                            let rest = spec_block(toks, self.index as int);
                            lemma_block_statement(toks, from);
                            lemma_logged_after_twice(
                                front,
                                filed,
                                seq![node_view(stmt)],
                                Seq::empty(),
                                rest,
                            );
                            assert(front + seq![node_view(stmt)] =~= front.push(node_view(stmt)));
                            assert(filed + Seq::<ReportView>::empty() =~= filed);
                        }
                        body.push(stmt);
                    },
                    Err(report) => {
                        let ghost failed = (*report)@;
                        self.log(*report);
                        self.skip_to_sync();
                        proof {
                            lemma_block_recovery(toks, from);
                            assert(before.push(failed) =~= reports_view(old(self).reports@) + (
                            filed.push(failed)));
                            assert(filed + seq![failed] =~= filed.push(failed));
                            assert(front + Seq::<Sp<NodeView<'src>>>::empty() =~= front);
                        }
                        if self.current().kind == TokenKind::RBrace {
                            self.advance();
                            return Ok(body);
                        }
                        if self.current().kind == TokenKind::Semicolon {
                            self.advance();
                        }
                        proof {
                            lemma_logged_after_twice(
                                front,
                                filed,
                                Seq::empty(),
                                seq![failed],
                                spec_block(toks, self.index as int),
                            );
                            filed = filed.push(failed);
                        }
                    },
                },
            }
        }
    }

    /// A statement with the `;` that ends it.
    fn parse_stmt(&mut self) -> (r: Result<Sp<Node<'src>>, Box<Report>>)
        requires
            old(self).wf(),
        ensures
            final(self).moved_from(old(self)),
            node_out(r) == spec_stmt(old(self).tokens@, old(self).index as int).out,
            final(self).index == spec_stmt(old(self).tokens@, old(self).index as int).next,
            r is Ok ==> final(self).index > old(self).index,
    {
        let first = self.current();
        let node: Sp<Node<'src>> = match first.kind {
            TokenKind::KWLet => {
                self.advance();
                let name_token = self.current();
                if !self.advance_if(is_identifier) {
                    let title = expected_got_title("identifier", name_token.kind);
                    return Err(unexpected_report(title.as_str(), name_token.span));
                }
                let colon = self.current();
                if !self.advance_if(is_colon) {
                    let title = expected_got_title("':'", colon.kind);
                    return Err(unexpected_report(title.as_str(), colon.span));
                }
                let ty = match self.parse_type() {
                    Ok(ty) => ty,
                    Err(e) => {
                        return Err(e);
                    },
                };
                let equals = self.current();
                if !self.advance_if(is_equals) {
                    let title = expected_got_title("'='", equals.kind);
                    return Err(unexpected_report(title.as_str(), equals.span));
                }
                let value = match self.parse_expr() {
                    Ok(value) => value,
                    Err(e) => {
                        return Err(e);
                    },
                };
                let span = first.span.extend(&self.current().span);
                Sp::new(
                    Node::Assign {
                        name: Sp::new(name_token.text, name_token.span),
                        ty,
                        value: Box::new(value),
                    },
                    span,
                )
            },
            TokenKind::KWRet => {
                self.advance();
                if self.current().kind == TokenKind::Semicolon {
                    Sp::new(Node::Ret(None), first.span.extend(&self.current().span))
                } else {
                    let value = match self.parse_expr() {
                        Ok(value) => value,
                        Err(e) => {
                            return Err(e);
                        },
                    };
                    let span = first.span.extend(&self.current().span);
                    Sp::new(Node::Ret(Some(Box::new(value))), span)
                }
            },
            _ => match self.parse_expr() {
                Ok(value) => value,
                Err(e) => {
                    return Err(e);
                },
            },
        };
        let end = self.current();
        if self.advance_if(is_semicolon) {
            Ok(node)
        } else {
            let title = expected_got_title("';'", end.kind);
            Err(unexpected_report(title.as_str(), end.span))
        }
    }

    /// An expression: a call, a string or decimal literal, or a name.
    fn parse_expr(&mut self) -> (r: Result<Sp<Node<'src>>, Box<Report>>)
        requires
            old(self).wf(),
        ensures
            final(self).moved_from(old(self)),
            node_out(r) == spec_expr(old(self).tokens@, old(self).index as int).out,
            final(self).index == spec_expr(old(self).tokens@, old(self).index as int).next,
            r is Ok ==> final(self).index > old(self).index,
        decreases old(self).tokens.len() - old(self).index, 0int,
    {
        let token = self.current();
        match token.kind {
            TokenKind::Dollar => {
                self.advance();
                let name_token = self.current();
                if name_token.kind != TokenKind::Identifier {
                    proof {
                        reveal_strlit("Expected identifier");
                    }
                    return Err(unexpected_report("Expected identifier", name_token.span));
                }
                let name = Sp::new(name_token.text, name_token.span);
                self.advance();
                let args: Vec<Sp<Node<'src>>> = if self.current().kind == TokenKind::LParen {
                    self.advance();
                    match self.parse_call_args() {
                        Ok(list) => list,
                        Err(e) => {
                            return Err(e);
                        },
                    }
                } else {
                    match self.parse_expr() {
                        Ok(arg) => {
                            let mut list: Vec<Sp<Node<'src>>> = Vec::new();
                            list.push(arg);
                            assert(nodes_view(list@) =~= seq![node_view(arg)]);
                            list
                        },
                        Err(e) => {
                            return Err(e);
                        },
                    }
                };
                let span = token.span.extend(&self.previous_span());
                let node = Sp::new(Node::FuncCall { name, args }, span);
                proof {
                    ast::lemma_node_view_children(node);
                }
                Ok(node)
            },
            TokenKind::StringLiteral => {
                self.advance();
                match resolve_escapes(token.text) {
                    Some(text) => Ok(Sp::new(Node::StrLit(text), token.span)),
                    None => {
                        proof {
                            reveal_strlit("Invalid escape sequence");
                        }
                        Err(
                            Box::new(
                                ReportKind::InvalidEscapeSequence.title(
                                    "Invalid escape sequence",
                                ).span(token.span),
                            ),
                        )
                    },
                }
            },
            TokenKind::DecimalIntLiteral => {
                self.advance();
                match IBig::parse(token.text) {
                    Some(value) => Ok(Sp::new(Node::UIntLit(value), token.span)),
                    None => {
                        proof {
                            reveal_strlit("Invalid integer literal");
                        }
                        Err(
                            Box::new(
                                ReportKind::InvalidNumber.title("Invalid integer literal").span(
                                    token.span,
                                ),
                            ),
                        )
                    },
                }
            },
            TokenKind::Identifier => {
                self.advance();
                Ok(Sp::new(Node::Ident(token.text), token.span))
            },
            _ => {
                proof {
                    reveal_strlit("Expected expression");
                }
                Err(unexpected_report("Expected expression", token.span))
            },
        }
    }

    /// The arguments of a call, from after its `(` up to and with its `)`.
    fn parse_call_args(&mut self) -> (r: Result<Vec<Sp<Node<'src>>>, Box<Report>>)
        requires
            old(self).wf(),
        ensures
            final(self).moved_from(old(self)),
            nodes_out(r) == spec_call_args(old(self).tokens@, old(self).index as int).out,
            final(self).index == spec_call_args(old(self).tokens@, old(self).index as int).next,
        decreases old(self).tokens.len() - old(self).index, 1int,
    {
        let mut args: Vec<Sp<Node<'src>>> = Vec::new();
        let ghost start = self.index as int;
        let ghost toks = self.tokens@;
        proof {
            assert(nodes_view(args@) =~= Seq::<Sp<NodeView<'src>>>::empty());
            let whole = spec_call_args(toks, start);
            assert(after(nodes_view(args@), whole).out =~= whole.out) by {
                if whole.out is Ok {
                    assert(Seq::<Sp<NodeView<'src>>>::empty() + whole.out->Ok_0 =~= whole.out->Ok_0);
                }
            }
        }
        loop
            invariant
                self.moved_from(old(self)),
                toks == self.tokens@,
                start == old(self).index,
                spec_call_args(toks, start) == after(
                    nodes_view(args@),
                    spec_call_args(toks, self.index as int),
                ),
            decreases self.tokens.len() - self.index,
        {
            let ghost front = nodes_view(args@);
            let token = self.current();
            match token.kind {
                TokenKind::RParen => {
                    self.advance();
                    assert(front + Seq::<Sp<NodeView<'src>>>::empty() =~= front);
                    return Ok(args);
                },
                TokenKind::Comma => {
                    self.advance();
                },
                TokenKind::EOF => {
                    proof {
                        reveal_strlit("Expected ')'");
                    }
                    return Err(unexpected_eof_report("Expected ')'", self.previous_span()));
                },
                _ => match self.parse_expr() {
                    Ok(arg) => {
                        proof {
                            ast::lemma_nodes_view_push(args@, arg);
                            let rest = spec_call_args(toks, self.index as int);
                            if rest.out is Ok {
                                assert(front + (seq![node_view(arg)] + rest.out->Ok_0)
                                    =~= front.push(node_view(arg)) + rest.out->Ok_0);
                            }
                        }
                        args.push(arg);
                    },
                    Err(e) => {
                        return Err(e);
                    },
                },
            }
        }
    }

    /// A type. The first token is taken whatever it is.
    fn parse_type(&mut self) -> (r: Result<Sp<Type<'src>>, Box<Report>>)
        requires
            old(self).wf(),
        ensures
            final(self).moved_from(old(self)),
            type_out(r) == spec_type(old(self).tokens@, old(self).index as int).out,
            final(self).index == spec_type(old(self).tokens@, old(self).index as int).next,
        decreases old(self).tokens.len() - old(self).index,
    {
        let token = self.current();
        self.advance();
        match token.kind {
            TokenKind::Star => match self.parse_type() {
                Ok(inner) => {
                    let span = token.span.extend(&self.previous_span());
                    Ok(Sp::new(Type::Ptr(Box::new(inner)), span))
                },
                Err(e) => Err(e),
            },
            TokenKind::LBracket => match self.parse_type() {
                Ok(inner) => {
                    let close = self.current();
                    if self.advance_if(is_rbracket) {
                        let span = token.span.extend(&close.span);
                        Ok(Sp::new(Type::Arr(Box::new(inner), None), span))
                    } else {
                        proof {
                            reveal_strlit("Expected ']'");
                        }
                        Err(unexpected_report("Expected ']'", close.span))
                    }
                },
                Err(e) => Err(e),
            },
            TokenKind::Identifier => {
                let chars = chars_of(token.text);
                if is_word(&chars, "opt") {
                    match self.parse_type() {
                        Ok(inner) => {
                            let span = token.span.extend(&self.previous_span());
                            Ok(Sp::new(Type::Opt(Box::new(inner)), span))
                        },
                        Err(e) => Err(e),
                    }
                } else if is_word(&chars, "mut") {
                    match self.parse_type() {
                        Ok(inner) => {
                            let span = token.span.extend(&self.previous_span());
                            Ok(Sp::new(Type::Mut(Box::new(inner)), span))
                        },
                        Err(e) => Err(e),
                    }
                } else {
                    match named_type(token.text, &chars, token.span) {
                        Ok(t) => Ok(Sp::new(t, token.span)),
                        Err(e) => Err(e),
                    }
                }
            },
            _ => {
                proof {
                    reveal_strlit("Expected type");
                }
                Err(unexpected_report("Expected type", token.span))
            },
        }
    }
}

} // verus!
