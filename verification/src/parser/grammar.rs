//! What the parser computes, as functions of a token sequence and a place
//! in it. Each function says which tree or report comes out, where the
//! cursor stands afterwards, and which reports were filed on the way.
//!
//! A rule that repeats goes on only where the cursor has moved forward and
//! stands within the tokens. That is always so, as the module `laws`
//! shows; it is written down here because it is what makes the rules end.

use crate::bigint::{decimal_value, is_decimal};
use crate::lexer::{Token, TokenKind};
use crate::parser::ast::{Attrs, NodeView, Type};
use crate::report::{ReportKind, ReportView};
use crate::span::{Sp, Span};
use crate::text::spec_parse_u32;
use vstd::prelude::*;

verus! {

/// Outcome of a rule that files no report itself: the value or the report
/// it ends with, and the place of the cursor afterwards.
pub struct Step<T> {
    pub out: Result<T, ReportView>,
    pub next: int,
}

/// Outcome of a rule that may recover inside itself: as `Step`, and the
/// reports filed while it ran, in order.
pub struct Logged<T> {
    pub out: Result<T, ReportView>,
    pub next: int,
    pub logged: Seq<ReportView>,
}

/// Outcome of a whole parse.
pub struct Program<'src> {
    pub nodes: Seq<Sp<NodeView<'src>>>,
    pub reports: Seq<ReportView>,
}

/// A rule that stands, with its value and the place after it.
pub open spec fn done<T>(value: T, next: int) -> Step<T> {
    Step { out: Ok(value), next }
}

/// A rule that fails, with its report and the place where it gave up.
pub open spec fn fail<T>(report: ReportView, next: int) -> Step<T> {
    Step { out: Err(report), next }
}

/// The kind of the token at `i`; past the end there is nothing but `EOF`.
pub open spec fn kind_at(toks: Seq<Token>, i: int) -> TokenKind {
    if 0 <= i < toks.len() {
        toks[i].kind
    } else {
        TokenKind::EOF
    }
}

/// The span of the token at `i`; past the end, that of the last token.
pub open spec fn span_at(toks: Seq<Token>, i: int) -> Span {
    if 0 <= i < toks.len() {
        toks[i].span
    } else {
        toks[toks.len() - 1].span
    }
}

/// The span of the token before `i`.
pub open spec fn span_before(toks: Seq<Token>, i: int) -> Span {
    if i >= 1 {
        span_at(toks, i - 1)
    } else {
        span_at(toks, i)
    }
}

/// The place after `i`: the cursor moves by one token and stops at the end.
pub open spec fn step(toks: Seq<Token>, i: int) -> int {
    if i < toks.len() {
        i + 1
    } else {
        i
    }
}

/// A token at which the parser takes up work again after an error.
pub open spec fn is_sync(kind: TokenKind) -> bool {
    kind == TokenKind::Semicolon || kind == TokenKind::RBrace || kind == TokenKind::EOF
}

/// The first place at or after `i` that holds a `;`, a `}` or the end.
pub open spec fn recover(toks: Seq<Token>, i: int) -> int
    decreases toks.len() - i,
{
    if is_sync(kind_at(toks, i)) {
        i
    } else {
        recover(toks, i + 1)
    }
}

/// Report of a token that may not stand where it does.
#[verifier::opaque]
pub open spec fn unexpected(title: Seq<char>, span: Span) -> ReportView {
    ReportView::titled(ReportKind::UnexpectedToken, title).with_span(span)
}

/// Report of tokens that end before a construct does.
#[verifier::opaque]
pub open spec fn unexpected_eof(title: Seq<char>, span: Span) -> ReportView {
    ReportView::titled(ReportKind::UnexpectedEOF, title).with_span(span)
}

/// The title "Expected .., got '..'" that names the kind found.
#[verifier::opaque]
pub open spec fn expected_got(what: Seq<char>, found: TokenKind) -> Seq<char> {
    "Expected "@ + what + ", got '"@ + found.spec_name() + "'"@
}

/// Report of a primitive type whose width is no number.
#[verifier::opaque]
pub open spec fn bad_width(hint: Seq<char>, span: Span) -> ReportView {
    ReportView::titled(
        ReportKind::InvalidNumber,
        "Invalid integer in primitive type"@,
    ).with_label(hint).with_span(span)
}

/// The control character that an escape letter stands for.
pub open spec fn escape_code(c: char) -> Option<char> {
    match c {
        '0' | '@' => Some('\x00'),
        'A' => Some('\x01'),
        'B' => Some('\x02'),
        'C' => Some('\x03'),
        'D' => Some('\x04'),
        'E' => Some('\x05'),
        'F' => Some('\x06'),
        'G' | 'a' => Some('\x07'),
        'H' | 'b' => Some('\x08'),
        'I' | 't' => Some('\x09'),
        'J' | 'n' => Some('\x0A'),
        'K' | 'v' => Some('\x0B'),
        'L' | 'f' => Some('\x0C'),
        'M' | 'r' => Some('\x0D'),
        'N' => Some('\x0E'),
        'O' => Some('\x0F'),
        'P' => Some('\x10'),
        'Q' => Some('\x11'),
        'R' => Some('\x12'),
        'S' => Some('\x13'),
        'T' => Some('\x14'),
        'U' => Some('\x15'),
        'V' => Some('\x16'),
        'W' => Some('\x17'),
        'X' => Some('\x18'),
        'Y' => Some('\x19'),
        'Z' => Some('\x1A'),
        '[' | 'e' => Some('\x1B'),
        '/' => Some('\x1C'),
        ']' => Some('\x1D'),
        '^' => Some('\x1E'),
        '_' => Some('\x1F'),
        '?' => Some('\x7F'),
        _ => None,
    }
}

/// The text of a string literal with its escapes resolved: a backslash and
/// the letter after it give one control character. There is no result
/// where a backslash is followed by no letter, or by one that names none.
pub open spec fn unescape(s: Seq<char>) -> Option<Seq<char>>
    decreases s.len(),
{
    if s.len() == 0 {
        Some(Seq::empty())
    } else if s[0] != '\\' {
        match unescape(s.skip(1)) {
            Some(rest) => Some(seq![s[0]] + rest),
            None => None,
        }
    } else if s.len() >= 2 && escape_code(s[1]) is Some {
        match unescape(s.skip(2)) {
            Some(rest) => Some(seq![escape_code(s[1])->0] + rest),
            None => None,
        }
    } else {
        None
    }
}

/// The type that an identifier names by itself, or the report of a
/// primitive spelling gone wrong.
pub open spec fn spec_named_type<'src>(text: &'src str, span: Span) -> Result<
    Type<'src>,
    ReportView,
> {
    let s = text@;
    if s == "isize"@ {
        Ok(Type::Isize)
    } else if s == "usize"@ {
        Ok(Type::Usize)
    } else if s.len() > 0 && s[0] == 'u' {
        match spec_parse_u32(s.skip(1)) {
            Some(n) => Ok(Type::U(n)),
            None => Err(bad_width("try 'u8'"@, span)),
        }
    } else if s.len() > 0 && s[0] == 'i' {
        match spec_parse_u32(s.skip(1)) {
            Some(n) => Ok(Type::I(n)),
            None => Err(bad_width("try 'i8'"@, span)),
        }
    } else if s.len() > 0 && s[0] == 'b' {
        match spec_parse_u32(s.skip(1)) {
            Some(n) => Ok(Type::B(n)),
            None => Err(bad_width("try 'b8'"@, span)),
        }
    } else if s.len() > 0 && s[0] == 'f' {
        match spec_parse_u32(s.skip(1)) {
            Some(n) => Ok(Type::F(n)),
            None => Err(bad_width("try 'f8'"@, span)),
        }
    } else if s == "void"@ {
        Ok(Type::Void)
    } else if s == "never"@ {
        Ok(Type::Never)
    } else {
        Ok(Type::Ident(text))
    }
}

/// A type: `*T`, `[T]`, `opt T`, `mut T` or a name. The first token is
/// taken whatever it is. The span runs from the first to the last token.
pub open spec fn spec_type<'src>(toks: Seq<Token<'src>>, i: int) -> Step<Sp<Type<'src>>>
    decreases toks.len() - i,
{
    let span = span_at(toks, i);
    let j = step(toks, i);
    match kind_at(toks, i) {
        TokenKind::Star => {
            let inner = spec_type(toks, j);
            match inner.out {
                Ok(t) => done(
                    Sp {
                            elem: Type::Ptr(Box::new(t)),
                            span: span.spec_extend(span_before(toks, inner.next)),
                        },
                    inner.next,
                ),
                Err(e) => fail(e, inner.next),
            }
        },
        TokenKind::LBracket => {
            let inner = spec_type(toks, j);
            match inner.out {
                Ok(t) => if kind_at(toks, inner.next) == TokenKind::RBracket {
                    done(
                        Sp {
                            elem: Type::Arr(Box::new(t), None),
                            span: span.spec_extend(span_at(toks, inner.next)),
                        },
                        step(toks, inner.next),
                    )
                } else {
                    fail(unexpected("Expected ']'"@, span_at(toks, inner.next)), inner.next)
                },
                Err(e) => fail(e, inner.next),
            }
        },
        TokenKind::Identifier => {
            let text = toks[i].text;
            if text@ == "opt"@ {
                let inner = spec_type(toks, j);
                match inner.out {
                    Ok(t) => done(
                        Sp {
                            elem: Type::Opt(Box::new(t)),
                            span: span.spec_extend(span_before(toks, inner.next)),
                        },
                        inner.next,
                    ),
                    Err(e) => fail(e, inner.next),
                }
            } else if text@ == "mut"@ {
                let inner = spec_type(toks, j);
                match inner.out {
                    Ok(t) => done(
                        Sp {
                            elem: Type::Mut(Box::new(t)),
                            span: span.spec_extend(span_before(toks, inner.next)),
                        },
                        inner.next,
                    ),
                    Err(e) => fail(e, inner.next),
                }
            } else {
                match spec_named_type(text, span) {
                    Ok(t) => done(Sp { elem: t, span }, j),
                    Err(e) => fail(e, j),
                }
            }
        },
        _ => fail(unexpected("Expected type"@, span), j),
    }
}

/// An expression: a call `$name(args)` or `$name arg`, a string or decimal
/// literal, or a name. Its span runs from its first to its last token.
pub open spec fn spec_expr<'src>(toks: Seq<Token<'src>>, i: int) -> Step<Sp<NodeView<'src>>>
    decreases toks.len() - i, 0int,
{
    let span = span_at(toks, i);
    let j = step(toks, i);
    match kind_at(toks, i) {
        TokenKind::Dollar => {
            if kind_at(toks, j) != TokenKind::Identifier {
                fail(unexpected("Expected identifier"@, span_at(toks, j)), j)
            } else {
                let name = Sp { elem: toks[j].text, span: span_at(toks, j) };
                let k = step(toks, j);
                let args = if kind_at(toks, k) == TokenKind::LParen {
                    spec_call_args(toks, step(toks, k))
                } else {
                    let arg = spec_expr(toks, k);
                    match arg.out {
                        Ok(a) => done(seq![a], arg.next),
                        Err(e) => fail(e, arg.next),
                    }
                };
                match args.out {
                    Ok(list) => done(
                        Sp {
                            elem: NodeView::FuncCall { name, args: list },
                            span: span.spec_extend(span_before(toks, args.next)),
                        },
                        args.next,
                    ),
                    Err(e) => fail(e, args.next),
                }
            }
        },
        TokenKind::StringLiteral => match unescape(toks[i].text@) {
            Some(text) => done(Sp { elem: NodeView::StrLit(text), span }, j),
            None => fail(
                ReportView::titled(
                    ReportKind::InvalidEscapeSequence,
                    "Invalid escape sequence"@,
                ).with_span(span),
                j,
            ),
        },
        TokenKind::DecimalIntLiteral => if is_decimal(toks[i].text@) {
            done(Sp { elem: NodeView::UIntLit(decimal_value(toks[i].text@)), span }, j)
        } else {
            fail(
                ReportView::titled(ReportKind::InvalidNumber, "Invalid integer literal"@).with_span(
                    span,
                ),
                j,
            )
        },
        TokenKind::Identifier => done(Sp { elem: NodeView::Ident(toks[i].text), span }, j),
        _ => fail(unexpected("Expected expression"@, span), i),
    }
}

/// The arguments of a call after its `(`, up to and with the `)`. Commas
/// between them are passed over.
pub open spec fn spec_call_args<'src>(toks: Seq<Token<'src>>, i: int) -> Step<
    Seq<Sp<NodeView<'src>>>,
>
    decreases toks.len() - i, 1int,
{
    match kind_at(toks, i) {
        TokenKind::RParen => done(Seq::empty(), step(toks, i)),
        TokenKind::Comma => spec_call_args(toks, step(toks, i)),
        TokenKind::EOF => fail(unexpected_eof("Expected ')'"@, span_before(toks, i)), i),
        _ => {
            let arg = spec_expr(toks, i);
            match arg.out {
                Ok(a) => if i < arg.next <= toks.len() {
                    let rest = spec_call_args(toks, arg.next);
                    match rest.out {
                        Ok(list) => done(seq![a] + list, rest.next),
                        Err(e) => fail(e, rest.next),
                    }
                } else {
                    done(seq![a], arg.next)
                },
                Err(e) => fail(e, arg.next),
            }
        },
    }
}

/// The `;` that ends a statement: with it the statement stands, without it
/// the statement is an error at the token found instead.
pub open spec fn terminated<'src>(toks: Seq<Token<'src>>, at: int, node: Sp<NodeView<'src>>) -> Step<
    Sp<NodeView<'src>>,
> {
    if kind_at(toks, at) == TokenKind::Semicolon {
        done(node, step(toks, at))
    } else {
        fail(unexpected(expected_got("';'"@, kind_at(toks, at)), span_at(toks, at)), at)
    }
}

/// `let name: Type = expr;` from its `let` on. The statement spans from
/// the keyword to the `;`.
pub open spec fn spec_let<'src>(toks: Seq<Token<'src>>, i: int) -> Step<Sp<NodeView<'src>>> {
    let span = span_at(toks, i);
    let j = step(toks, i);
    let k = step(toks, j);
    if kind_at(toks, j) != TokenKind::Identifier {
        fail(unexpected(expected_got("identifier"@, kind_at(toks, j)), span_at(toks, j)), j)
    } else if kind_at(toks, k) != TokenKind::Colon {
        fail(unexpected(expected_got("':'"@, kind_at(toks, k)), span_at(toks, k)), k)
    } else {
        let ty = spec_type(toks, step(toks, k));
        match ty.out {
            Err(e) => fail(e, ty.next),
            Ok(t) => if kind_at(toks, ty.next) != TokenKind::Equals {
                fail(
                    unexpected(expected_got("'='"@, kind_at(toks, ty.next)), span_at(toks, ty.next)),
                    ty.next,
                )
            } else {
                let value = spec_expr(toks, step(toks, ty.next));
                match value.out {
                    Err(e) => fail(e, value.next),
                    Ok(v) => terminated(
                        toks,
                        value.next,
                        Sp {
                            elem: NodeView::Assign {
                                name: Sp { elem: toks[j].text, span: span_at(toks, j) },
                                ty: t,
                                value: Box::new(v),
                            },
                            span: span.spec_extend(span_at(toks, value.next)),
                        },
                    ),
                }
            },
        }
    }
}

/// `ret;` or `ret expr;` from its `ret` on. The statement spans from the
/// keyword to the `;`.
pub open spec fn spec_ret<'src>(toks: Seq<Token<'src>>, i: int) -> Step<Sp<NodeView<'src>>> {
    let span = span_at(toks, i);
    let j = step(toks, i);
    if kind_at(toks, j) == TokenKind::Semicolon {
        terminated(toks, j, Sp { elem: NodeView::Ret(None), span: span.spec_extend(span_at(toks, j)) })
    } else {
        let value = spec_expr(toks, j);
        match value.out {
            Err(e) => fail(e, value.next),
            Ok(v) => terminated(
                toks,
                value.next,
                Sp {
                    elem: NodeView::Ret(Some(Box::new(v))),
                    span: span.spec_extend(span_at(toks, value.next)),
                },
            ),
        }
    }
}

/// A statement: `let name: Type = expr;`, `ret;`, `ret expr;` or `expr;`.
/// An expression as a statement keeps the span of the expression.
pub open spec fn spec_stmt<'src>(toks: Seq<Token<'src>>, i: int) -> Step<Sp<NodeView<'src>>> {
    match kind_at(toks, i) {
        TokenKind::KWLet => spec_let(toks, i),
        TokenKind::KWRet => spec_ret(toks, i),
        _ => {
            let value = spec_expr(toks, i);
            match value.out {
                Err(e) => fail(e, value.next),
                Ok(v) => terminated(toks, value.next, v),
            }
        },
    }
}

/// The statements of a block after its `{`, up to and with the `}`. A
/// statement that fails is reported; the parser then passes over the
/// tokens up to the next `;`, after which the block goes on, or `}`, with
/// which it ends.
#[verifier::opaque]
pub open spec fn spec_block<'src>(toks: Seq<Token<'src>>, i: int) -> Logged<
    Seq<Sp<NodeView<'src>>>,
>
    decreases toks.len() - i,
{
    match kind_at(toks, i) {
        TokenKind::RBrace => Logged { out: Ok(Seq::empty()), next: step(toks, i), logged: Seq::empty() },
        TokenKind::EOF => Logged {
            out: Err(unexpected_eof("Expected '}'"@, span_before(toks, i))),
            next: i,
            logged: Seq::empty(),
        },
        _ => {
            let stmt = spec_stmt(toks, i);
            match stmt.out {
                Ok(s) => if i < stmt.next <= toks.len() {
                    let rest = spec_block(toks, stmt.next);
                    Logged {
                        out: match rest.out {
                            Ok(list) => Ok(seq![s] + list),
                            Err(e) => Err(e),
                        },
                        next: rest.next,
                        logged: rest.logged,
                    }
                } else {
                    Logged { out: Ok(seq![s]), next: stmt.next, logged: Seq::empty() }
                },
                Err(report) => {
                    let at = recover(toks, stmt.next);
                    if kind_at(toks, at) == TokenKind::RBrace {
                        Logged { out: Ok(Seq::empty()), next: step(toks, at), logged: seq![report] }
                    } else if kind_at(toks, at) == TokenKind::Semicolon && at >= i {
                        let rest = spec_block(toks, at + 1);
                        Logged { out: rest.out, next: rest.next, logged: seq![report] + rest.logged }
                    } else {
                        Logged {
                            out: Err(unexpected_eof("Expected '}'"@, span_before(toks, at))),
                            next: at,
                            logged: seq![report],
                        }
                    }
                },
            }
        },
    }
}

/// The parameters of a function after its `(`, up to and with the `)`:
/// `name: Type` pairs with a comma between them.
pub open spec fn spec_params<'src>(toks: Seq<Token<'src>>, i: int) -> Step<
    Seq<(Sp<&'src str>, Sp<Type<'src>>)>,
>
    decreases toks.len() - i,
{
    let j = step(toks, i);
    match kind_at(toks, i) {
        TokenKind::RParen => done(Seq::empty(), j),
        TokenKind::Identifier => if kind_at(toks, j) != TokenKind::Colon {
            fail(unexpected("Expected ':'"@, span_at(toks, j)), j)
        } else {
            let ty = spec_type(toks, step(toks, j));
            let name = Sp { elem: toks[i].text, span: span_at(toks, i) };
            match ty.out {
                Err(e) => fail(e, ty.next),
                Ok(t) => if kind_at(toks, ty.next) == TokenKind::RParen {
                    done(seq![(name, t)], step(toks, ty.next))
                } else if kind_at(toks, ty.next) == TokenKind::Comma && ty.next > i {
                    let rest = spec_params(toks, ty.next + 1);
                    match rest.out {
                        Ok(list) => done(seq![(name, t)] + list, rest.next),
                        Err(e) => fail(e, rest.next),
                    }
                } else {
                    fail(unexpected("Expected ',' or ')'"@, span_at(toks, ty.next)), ty.next)
                },
            }
        },
        _ => fail(unexpected("Expected identifier"@, span_at(toks, i)), i),
    }
}

/// What follows the parameters of a function: an optional return type
/// and the body. `i` is the place of the `fn`, `name` and `args` are what
/// was read so far, `at` is the place after the `)`.
pub open spec fn spec_func_rest<'src>(
    toks: Seq<Token<'src>>,
    i: int,
    name: Sp<&'src str>,
    args: Seq<(Sp<&'src str>, Sp<Type<'src>>)>,
    at: int,
) -> Logged<Sp<NodeView<'src>>> {
    let bare = kind_at(toks, at) == TokenKind::Colon || kind_at(toks, at) == TokenKind::LBrace
        || kind_at(toks, at) == TokenKind::Semicolon;
    let ret = spec_type(toks, at);
    if !bare && ret.out is Err {
        Logged { out: Err(ret.out->Err_0), next: ret.next, logged: Seq::empty() }
    } else {
        let body = spec_body(toks, if bare { at } else { ret.next });
        Logged {
            out: match body.out {
                Err(e) => Err(e),
                Ok(stmts) => Ok(
                    Sp {
                        elem: NodeView::Func {
                            name,
                            args,
                            ret: if bare { None } else { Some(ret.out->Ok_0) },
                            body: stmts,
                            attrs: Seq::empty(),
                        },
                        span: span_at(toks, i).spec_extend(span_before(toks, body.next)),
                    },
                ),
            },
            next: body.next,
            logged: body.logged,
        }
    }
}

/// A function from its `fn` on: name, parameters, an optional return type,
/// and then `;` for no body, `: stmt` for a body of one statement, or a
/// block. Its span runs from `fn` to the last token of the body.
pub open spec fn spec_func<'src>(toks: Seq<Token<'src>>, i: int) -> Logged<Sp<NodeView<'src>>> {
    let j = step(toks, i);
    let k = step(toks, j);
    if kind_at(toks, j) != TokenKind::Identifier {
        Logged {
            out: Err(unexpected("Expected identifier"@, span_at(toks, j))),
            next: j,
            logged: Seq::empty(),
        }
    } else if kind_at(toks, k) != TokenKind::LParen {
        Logged {
            out: Err(unexpected("Expected '('"@, span_at(toks, k))),
            next: k,
            logged: Seq::empty(),
        }
    } else {
        let params = spec_params(toks, step(toks, k));
        match params.out {
            Err(e) => Logged { out: Err(e), next: params.next, logged: Seq::empty() },
            Ok(args) => spec_func_rest(
                toks,
                i,
                Sp { elem: toks[j].text, span: span_at(toks, j) },
                args,
                params.next,
            ),
        }
    }
}

/// The body of a function from its marker on: `;`, `: stmt` or `{ .. }`.
/// The marker is taken whatever it is.
pub open spec fn spec_body<'src>(toks: Seq<Token<'src>>, mark: int) -> Logged<
    Seq<Sp<NodeView<'src>>>,
> {
    let start = step(toks, mark);
    match kind_at(toks, mark) {
        TokenKind::Colon => {
            let stmt = spec_stmt(toks, start);
            Logged {
                out: match stmt.out {
                    Ok(s) => Ok(seq![s]),
                    Err(e) => Err(e),
                },
                next: stmt.next,
                logged: Seq::empty(),
            }
        },
        TokenKind::LBrace => spec_block(toks, start),
        TokenKind::Semicolon => Logged { out: Ok(Seq::empty()), next: start, logged: Seq::empty() },
        _ => Logged {
            out: Err(unexpected("Expected '{', ';', or ':'"@, span_at(toks, mark))),
            next: start,
            logged: Seq::empty(),
        },
    }
}

/// The attribute that a modifier keyword stands for.
pub open spec fn attr_of(kind: TokenKind) -> Attrs {
    if kind == TokenKind::KWExtern {
        Attrs::Extern
    } else {
        Attrs::Export
    }
}

/// A function with one more attribute, spanning from the attribute on.
pub open spec fn attributed<'src>(f: Sp<NodeView<'src>>, attr: Sp<Attrs>) -> Sp<NodeView<'src>> {
    Sp {
        elem: match f.elem {
            NodeView::Func { name, args, ret, body, attrs } => NodeView::Func {
                name,
                args,
                ret,
                body,
                attrs: attrs.push(attr),
            },
            other => other,
        },
        span: attr.span.spec_extend(f.span),
    }
}

/// A declaration at the top of a file: a function, or `export` or `extern`
/// in front of a declaration. Any other token is taken and reported.
pub open spec fn spec_global<'src>(toks: Seq<Token<'src>>, i: int) -> Logged<Sp<NodeView<'src>>>
    decreases toks.len() - i,
{
    let j = step(toks, i);
    match kind_at(toks, i) {
        TokenKind::KWFn => spec_func(toks, i),
        TokenKind::KWExtern | TokenKind::KWExport => if kind_at(toks, j) == TokenKind::EOF {
            Logged {
                out: Err(
                    ReportView::untitled(ReportKind::UnexpectedEOF).with_span(span_at(toks, i)),
                ),
                next: j,
                logged: Seq::empty(),
            }
        } else {
            let inner = spec_global(toks, j);
            Logged {
                out: match inner.out {
                    Ok(f) => Ok(
                        attributed(f, Sp { elem: attr_of(kind_at(toks, i)), span: span_at(toks, i) }),
                    ),
                    Err(e) => Err(e),
                },
                next: inner.next,
                logged: inner.logged,
            }
        },
        found => Logged {
            out: Err(unexpected("got '"@ + found.spec_name() + "'"@, span_at(toks, i))),
            next: j,
            logged: Seq::empty(),
        },
    }
}

/// The declarations from `i` to the end. One that fails is reported after
/// what was filed inside it; the parser then passes over the tokens up to
/// and with the next `;` or `}` and goes on from there, or stops where the
/// tokens end first.
#[verifier::opaque]
pub open spec fn spec_program<'src>(toks: Seq<Token<'src>>, i: int) -> Program<'src>
    decreases toks.len() - i,
{
    if kind_at(toks, i) == TokenKind::EOF {
        Program { nodes: Seq::empty(), reports: Seq::empty() }
    } else {
        let global = spec_global(toks, i);
        match global.out {
            Ok(node) => {
                let rest = if i < global.next <= toks.len() {
                    spec_program(toks, global.next)
                } else {
                    Program { nodes: Seq::empty(), reports: Seq::empty() }
                };
                Program { nodes: seq![node] + rest.nodes, reports: global.logged + rest.reports }
            },
            Err(report) => {
                let at = recover(toks, global.next);
                let rest = if kind_at(toks, at) != TokenKind::EOF && i <= at {
                    spec_program(toks, at + 1)
                } else {
                    Program { nodes: Seq::empty(), reports: Seq::empty() }
                };
                Program {
                    nodes: rest.nodes,
                    reports: global.logged + seq![report] + rest.reports,
                }
            },
        }
    }
}

/// The place found by `recover` is not before `i`, holds a `;`, a `}` or
/// the end, and no such token stands between `i` and it.
pub proof fn lemma_recover(toks: Seq<Token>, i: int)
    requires
        0 <= i,
    ensures
        i <= recover(toks, i),
        i <= toks.len() ==> recover(toks, i) <= toks.len(),
        is_sync(kind_at(toks, recover(toks, i))),
        forall|k: int| i <= k < recover(toks, i) ==> !is_sync(#[trigger] kind_at(toks, k)),
    decreases toks.len() - i,
{
    if !is_sync(kind_at(toks, i)) {
        lemma_recover(toks, i + 1);
    }
}

/// A step with more values in front of those it ends with.
pub open spec fn after<T>(front: Seq<T>, rest: Step<Seq<T>>) -> Step<Seq<T>> {
    Step {
        out: match rest.out {
            Ok(list) => Ok(front + list),
            Err(e) => Err(e),
        },
        next: rest.next,
    }
}

/// An outcome with more values in front of those it ends with, and more
/// reports filed before its own.
pub open spec fn logged_after<T>(front: Seq<T>, filed: Seq<ReportView>, rest: Logged<Seq<T>>) -> Logged<
    Seq<T>,
> {
    Logged {
        out: match rest.out {
            Ok(list) => Ok(front + list),
            Err(e) => Err(e),
        },
        next: rest.next,
        logged: filed + rest.logged,
    }
}

/// A parse with more declarations and reports in front of its own.
pub open spec fn program_after<'src>(
    front: Seq<Sp<NodeView<'src>>>,
    filed: Seq<ReportView>,
    rest: Program<'src>,
) -> Program<'src> {
    Program { nodes: front + rest.nodes, reports: filed + rest.reports }
}

/// Values and reports put in front twice are put in front at once.
pub proof fn lemma_logged_after_twice<T>(
    a: Seq<T>,
    la: Seq<ReportView>,
    b: Seq<T>,
    lb: Seq<ReportView>,
    rest: Logged<Seq<T>>,
)
    ensures
        logged_after(a, la, logged_after(b, lb, rest)) == logged_after(a + b, la + lb, rest),
{
    assert(la + (lb + rest.logged) =~= (la + lb) + rest.logged);
    if rest.out is Ok {
        assert(a + (b + rest.out->Ok_0) =~= (a + b) + rest.out->Ok_0);
    }
}

/// Declarations and reports put in front twice are put in front at once.
pub proof fn lemma_program_after_twice<'src>(
    a: Seq<Sp<NodeView<'src>>>,
    la: Seq<ReportView>,
    b: Seq<Sp<NodeView<'src>>>,
    lb: Seq<ReportView>,
    rest: Program<'src>,
)
    ensures
        program_after(a, la, program_after(b, lb, rest)) == program_after(a + b, la + lb, rest),
{
    assert(la + (lb + rest.reports) =~= (la + lb) + rest.reports);
    assert(a + (b + rest.nodes) =~= (a + b) + rest.nodes);
}

/// A block whose first statement stands is that statement and the rest.
pub proof fn lemma_block_statement<'src>(toks: Seq<Token<'src>>, i: int)
    requires
        kind_at(toks, i) != TokenKind::RBrace,
        kind_at(toks, i) != TokenKind::EOF,
        spec_stmt(toks, i).out is Ok,
        i < spec_stmt(toks, i).next <= toks.len(),
    ensures
        spec_block(toks, i) == logged_after(
            seq![spec_stmt(toks, i).out->Ok_0],
            Seq::empty(),
            spec_block(toks, spec_stmt(toks, i).next),
        ),
{
    reveal(spec_block);
    let rest = spec_block(toks, spec_stmt(toks, i).next);
    assert(Seq::<ReportView>::empty() + rest.logged =~= rest.logged);
}

/// A block that starts with `}` is empty, and one that starts at the end
/// of the tokens is an error.
pub proof fn lemma_block_end<'src>(toks: Seq<Token<'src>>, i: int)
    ensures
        kind_at(toks, i) == TokenKind::RBrace ==> spec_block(toks, i) == (Logged {
            out: Ok(Seq::<Sp<NodeView<'src>>>::empty()),
            next: step(toks, i),
            logged: Seq::empty(),
        }),
        kind_at(toks, i) == TokenKind::EOF ==> spec_block(toks, i) == (Logged {
            out: Err::<Seq<Sp<NodeView<'src>>>, ReportView>(
                unexpected_eof("Expected '}'"@, span_before(toks, i)),
            ),
            next: i,
            logged: Seq::empty(),
        }),
{
    reveal(spec_block);
}

/// Where the tokens end, the program does.
pub proof fn lemma_program_end<'src>(toks: Seq<Token<'src>>, i: int)
    requires
        kind_at(toks, i) == TokenKind::EOF,
    ensures
        spec_program(toks, i) == (Program { nodes: Seq::empty(), reports: Seq::empty() }),
{
    reveal(spec_program);
}

/// A block whose first statement fails files its report and goes on after
/// the next `;`, ends with the next `}`, or runs into the end.
pub proof fn lemma_block_recovery<'src>(toks: Seq<Token<'src>>, i: int)
    requires
        0 <= i,
        kind_at(toks, i) != TokenKind::RBrace,
        kind_at(toks, i) != TokenKind::EOF,
        spec_stmt(toks, i).out is Err,
        i <= spec_stmt(toks, i).next,
    ensures
        ({
            let report = spec_stmt(toks, i).out->Err_0;
            let at = recover(toks, spec_stmt(toks, i).next);
            if kind_at(toks, at) == TokenKind::RBrace {
                spec_block(toks, i) == (Logged {
                    out: Ok(Seq::<Sp<NodeView<'src>>>::empty()),
                    next: step(toks, at),
                    logged: seq![report],
                })
            } else if kind_at(toks, at) == TokenKind::Semicolon {
                spec_block(toks, i) == logged_after(
                    Seq::empty(),
                    seq![report],
                    spec_block(toks, at + 1),
                )
            } else {
                spec_block(toks, i) == logged_after(
                    Seq::empty(),
                    seq![report],
                    spec_block(toks, at),
                )
            }
        }),
{
    reveal(spec_block);
    let report = spec_stmt(toks, i).out->Err_0;
    let at = recover(toks, spec_stmt(toks, i).next);
    lemma_recover(toks, spec_stmt(toks, i).next);
    if kind_at(toks, at) == TokenKind::RBrace {
    } else if kind_at(toks, at) == TokenKind::Semicolon {
        let rest = spec_block(toks, at + 1);
        if rest.out is Ok {
            assert(Seq::<Sp<NodeView<'src>>>::empty() + rest.out->Ok_0 =~= rest.out->Ok_0);
        }
    } else {
        let rest = spec_block(toks, at);
        assert(seq![report] + rest.logged =~= seq![report]);
    }
}

/// A program whose first declaration stands is that declaration, what was
/// filed inside it, and the rest.
pub proof fn lemma_program_declaration<'src>(toks: Seq<Token<'src>>, i: int)
    requires
        kind_at(toks, i) != TokenKind::EOF,
        spec_global(toks, i).out is Ok,
        i < spec_global(toks, i).next <= toks.len(),
    ensures
        spec_program(toks, i) == program_after(
            seq![spec_global(toks, i).out->Ok_0],
            spec_global(toks, i).logged,
            spec_program(toks, spec_global(toks, i).next),
        ),
{
    reveal(spec_program);
}

/// A program whose first declaration fails files its reports and goes on
/// after the next `;` or `}`, or stops at the end.
pub proof fn lemma_program_recovery<'src>(toks: Seq<Token<'src>>, i: int)
    requires
        0 <= i,
        kind_at(toks, i) != TokenKind::EOF,
        spec_global(toks, i).out is Err,
        i <= spec_global(toks, i).next,
    ensures
        ({
            let global = spec_global(toks, i);
            let at = recover(toks, global.next);
            spec_program(toks, i) == program_after(
                Seq::empty(),
                global.logged.push(global.out->Err_0),
                spec_program(toks, if kind_at(toks, at) != TokenKind::EOF { at + 1 } else { at }),
            )
        }),
{
    reveal(spec_program);
    let global = spec_global(toks, i);
    let at = recover(toks, global.next);
    lemma_recover(toks, global.next);
    let rest = spec_program(toks, if kind_at(toks, at) != TokenKind::EOF { at + 1 } else { at });
    assert(Seq::<Sp<NodeView<'src>>>::empty() + rest.nodes =~= rest.nodes);
    assert(global.logged + seq![global.out->Err_0] + rest.reports =~= global.logged.push(
        global.out->Err_0,
    ) + rest.reports);
}


} // verus!
