//! What holds of the grammar whatever the tokens are: every rule moves the
//! cursor forward only and never past the end, a failed declaration does
//! not reach into what follows it, and spans cover what was read.

use crate::bigint::{decimal_value, is_decimal};
use crate::lexer::{Token, TokenKind};
use crate::parser::ast::{NodeView, Type};
use crate::parser::grammar::{
    kind_at, lemma_block_end, lemma_block_recovery, lemma_block_statement,
    lemma_program_declaration, lemma_program_end, lemma_program_recovery, lemma_recover, recover, span_at, span_before, spec_block, spec_body, spec_call_args,
    spec_expr, spec_func, spec_func_rest, spec_global, spec_let, spec_params, spec_program,
    spec_ret, spec_stmt, spec_type, step, Logged, Step,
};
use crate::report::ReportKind;
use crate::span::Sp;
use vstd::prelude::*;

verus! {

/// A type takes its first token and stays within the tokens.
pub proof fn lemma_type_bounds(toks: Seq<Token>, i: int)
    requires
        0 <= i <= toks.len(),
    ensures
        i <= spec_type(toks, i).next <= toks.len(),
        i < toks.len() ==> i < spec_type(toks, i).next,
    decreases toks.len() - i,
{
    let j = step(toks, i);
    match kind_at(toks, i) {
        TokenKind::Star => {
            lemma_type_bounds(toks, j);
        },
        TokenKind::LBracket => {
            lemma_type_bounds(toks, j);
        },
        TokenKind::Identifier => {
            if toks[i].text@ == "opt"@ || toks[i].text@ == "mut"@ {
                lemma_type_bounds(toks, j);
            }
        },
        _ => {},
    }
}

/// An expression stays within the tokens, and one that stands has taken
/// at least one token.
pub proof fn lemma_expr_bounds(toks: Seq<Token>, i: int)
    requires
        0 <= i <= toks.len(),
    ensures
        i <= spec_expr(toks, i).next <= toks.len(),
        spec_expr(toks, i).out is Ok ==> i < spec_expr(toks, i).next,
    decreases toks.len() - i, 0int,
{
    let j = step(toks, i);
    if kind_at(toks, i) == TokenKind::Dollar && kind_at(toks, j) == TokenKind::Identifier {
        let k = step(toks, j);
        if kind_at(toks, k) == TokenKind::LParen {
            lemma_call_args_bounds(toks, step(toks, k));
        } else {
            lemma_expr_bounds(toks, k);
        }
    }
}

/// The arguments of a call stay within the tokens.
pub proof fn lemma_call_args_bounds(toks: Seq<Token>, i: int)
    requires
        0 <= i <= toks.len(),
    ensures
        i <= spec_call_args(toks, i).next <= toks.len(),
        spec_call_args(toks, i).out is Ok ==> i < spec_call_args(toks, i).next,
    decreases toks.len() - i, 1int,
{
    match kind_at(toks, i) {
        TokenKind::RParen => {},
        TokenKind::Comma => {
            lemma_call_args_bounds(toks, step(toks, i));
        },
        TokenKind::EOF => {},
        _ => {
            lemma_expr_bounds(toks, i);
            let arg = spec_expr(toks, i);
            if arg.out is Ok {
                lemma_call_args_bounds(toks, arg.next);
            }
        },
    }
}

/// A statement stays within the tokens, and one that stands ends with the
/// `;` it has taken.
pub proof fn lemma_stmt_bounds(toks: Seq<Token>, i: int)
    requires
        0 <= i <= toks.len(),
    ensures
        i <= spec_stmt(toks, i).next <= toks.len(),
        spec_stmt(toks, i).out is Ok ==> i < spec_stmt(toks, i).next && kind_at(
            toks,
            spec_stmt(toks, i).next - 1,
        ) == TokenKind::Semicolon,
{
    let j = step(toks, i);
    match kind_at(toks, i) {
        TokenKind::KWLet => {
            let k = step(toks, j);
            if kind_at(toks, j) == TokenKind::Identifier && kind_at(toks, k) == TokenKind::Colon {
                lemma_type_bounds(toks, step(toks, k));
                let ty = spec_type(toks, step(toks, k));
                if ty.out is Ok && kind_at(toks, ty.next) == TokenKind::Equals {
                    lemma_expr_bounds(toks, step(toks, ty.next));
                }
            }
        },
        TokenKind::KWRet => {
            if kind_at(toks, j) != TokenKind::Semicolon {
                lemma_expr_bounds(toks, j);
            }
        },
        _ => {
            lemma_expr_bounds(toks, i);
        },
    }
}

/// A block stays within the tokens, and one that stands ends with the `}`
/// it has taken.
pub proof fn lemma_block_bounds(toks: Seq<Token>, i: int)
    requires
        0 <= i <= toks.len(),
    ensures
        i <= spec_block(toks, i).next <= toks.len(),
        spec_block(toks, i).out is Ok ==> i < spec_block(toks, i).next && kind_at(
            toks,
            spec_block(toks, i).next - 1,
        ) == TokenKind::RBrace,
    decreases toks.len() - i,
{
    reveal(spec_block);
    match kind_at(toks, i) {
        TokenKind::RBrace => {},
        TokenKind::EOF => {},
        _ => {
            lemma_stmt_bounds(toks, i);
            let stmt = spec_stmt(toks, i);
            match stmt.out {
                Ok(_) => {
                    lemma_block_bounds(toks, stmt.next);
                },
                Err(_) => {
                    lemma_recover(toks, stmt.next);
                    let at = recover(toks, stmt.next);
                    if kind_at(toks, at) == TokenKind::Semicolon {
                        lemma_block_bounds(toks, at + 1);
                    }
                },
            }
        },
    }
}

/// The parameters of a function stay within the tokens.
pub proof fn lemma_params_bounds(toks: Seq<Token>, i: int)
    requires
        0 <= i <= toks.len(),
    ensures
        i <= spec_params(toks, i).next <= toks.len(),
    decreases toks.len() - i,
{
    let j = step(toks, i);
    if kind_at(toks, i) == TokenKind::Identifier && kind_at(toks, j) == TokenKind::Colon {
        lemma_type_bounds(toks, step(toks, j));
        let ty = spec_type(toks, step(toks, j));
        if ty.out is Ok && kind_at(toks, ty.next) == TokenKind::Comma {
            lemma_params_bounds(toks, ty.next + 1);
        }
    }
}

/// The body of a function stays within the tokens, and one that stands
/// ends with the `;` or `}` it has taken.
pub proof fn lemma_body_bounds(toks: Seq<Token>, mark: int)
    requires
        0 <= mark <= toks.len(),
    ensures
        mark <= spec_body(toks, mark).next <= toks.len(),
        spec_body(toks, mark).out is Ok ==> mark < spec_body(toks, mark).next && (kind_at(
            toks,
            spec_body(toks, mark).next - 1,
        ) == TokenKind::Semicolon || kind_at(toks, spec_body(toks, mark).next - 1)
            == TokenKind::RBrace),
{
    let start = step(toks, mark);
    match kind_at(toks, mark) {
        TokenKind::Colon => {
            lemma_stmt_bounds(toks, start);
        },
        TokenKind::LBrace => {
            lemma_block_bounds(toks, start);
        },
        _ => {},
    }
}

/// A function stays within the tokens and takes at least its first token.
pub proof fn lemma_func_bounds(toks: Seq<Token>, i: int)
    requires
        0 <= i <= toks.len(),
    ensures
        i <= spec_func(toks, i).next <= toks.len(),
        i < toks.len() ==> i < spec_func(toks, i).next,
{
    let j = step(toks, i);
    let k = step(toks, j);
    if kind_at(toks, j) == TokenKind::Identifier && kind_at(toks, k) == TokenKind::LParen {
        lemma_params_bounds(toks, step(toks, k));
        let params = spec_params(toks, step(toks, k));
        if params.out is Ok {
            lemma_type_bounds(toks, params.next);
            lemma_body_bounds(toks, params.next);
            lemma_body_bounds(toks, spec_type(toks, params.next).next);
        }
    }
}

/// Forward progress: a declaration stays within the tokens, and where a
/// token stands at the cursor, at least that token is taken, whether the
/// declaration stands or fails.
pub proof fn lemma_global_bounds(toks: Seq<Token>, i: int)
    requires
        0 <= i <= toks.len(),
    ensures
        i <= spec_global(toks, i).next <= toks.len(),
        i < toks.len() ==> i < spec_global(toks, i).next,
    decreases toks.len() - i,
{
    let j = step(toks, i);
    match kind_at(toks, i) {
        TokenKind::KWFn => {
            lemma_func_bounds(toks, i);
        },
        TokenKind::KWExtern | TokenKind::KWExport => {
            if kind_at(toks, j) != TokenKind::EOF {
                lemma_global_bounds(toks, j);
            }
        },
        _ => {},
    }
}

/// A declaration that stands is a function.
pub proof fn lemma_global_is_func(toks: Seq<Token>, i: int)
    requires
        0 <= i <= toks.len(),
        spec_global(toks, i).out is Ok,
    ensures
        spec_global(toks, i).out->Ok_0.elem is Func,
    decreases toks.len() - i,
{
    let j = step(toks, i);
    match kind_at(toks, i) {
        TokenKind::KWExtern | TokenKind::KWExport => {
            lemma_global_is_func(toks, j);
        },
        _ => {},
    }
}

/// Recovery: a declaration that fails costs only itself. Its reports are
/// filed, the tokens up to and with the next `;` or `}` are passed over,
/// and the outcome of the whole is the outcome of the parse that starts
/// after that token, with nothing lost from it and nothing added to it
/// but those reports.
pub proof fn lemma_parse_resumes(toks: Seq<Token>, i: int)
    requires
        0 <= i < toks.len(),
        kind_at(toks, i) != TokenKind::EOF,
        spec_global(toks, i).out is Err,
        kind_at(toks, recover(toks, spec_global(toks, i).next)) != TokenKind::EOF,
    ensures
        ({
            let failed = spec_global(toks, i);
            let resume = recover(toks, failed.next) + 1;
            &&& i < resume <= toks.len()
            &&& spec_program(toks, i).nodes == spec_program(toks, resume).nodes
            &&& spec_program(toks, i).reports == failed.logged.push(failed.out->Err_0)
                + spec_program(toks, resume).reports
        }),
{
    reveal(spec_program);
    let failed = spec_global(toks, i);
    lemma_global_bounds(toks, i);
    lemma_recover(toks, failed.next);
    let rest = spec_program(toks, recover(toks, failed.next) + 1);
    assert(failed.logged + seq![failed.out->Err_0] + rest.reports =~= failed.logged.push(
        failed.out->Err_0,
    ) + rest.reports);
}

/// A declaration that stands is followed by the parse of what comes after
/// it: the outcome of the whole is that declaration, what was filed inside
/// it, and the outcome of the parse that starts where it ends.
pub proof fn lemma_parse_continues(toks: Seq<Token>, i: int)
    requires
        0 <= i < toks.len(),
        kind_at(toks, i) != TokenKind::EOF,
        spec_global(toks, i).out is Ok,
    ensures
        ({
            let first = spec_global(toks, i);
            &&& i < first.next <= toks.len()
            &&& spec_program(toks, i).nodes == seq![first.out->Ok_0] + spec_program(
                toks,
                first.next,
            ).nodes
            &&& spec_program(toks, i).reports == first.logged + spec_program(
                toks,
                first.next,
            ).reports
        }),
{
    reveal(spec_program);
    lemma_global_bounds(toks, i);
}

/// The span of a type runs from its first token to its last.
pub proof fn lemma_type_span(toks: Seq<Token>, i: int)
    requires
        0 <= i < toks.len(),
        spec_type(toks, i).out is Ok,
    ensures
        spec_type(toks, i).out->Ok_0.span == span_at(toks, i).spec_extend(
            span_at(toks, spec_type(toks, i).next - 1),
        ),
{
    lemma_type_bounds(toks, i);
    lemma_type_bounds(toks, step(toks, i));
}

/// The span of an expression runs from its first token to its last.
pub proof fn lemma_expr_span(toks: Seq<Token>, i: int)
    requires
        0 <= i < toks.len(),
        spec_expr(toks, i).out is Ok,
    ensures
        spec_expr(toks, i).out->Ok_0.span == span_at(toks, i).spec_extend(
            span_at(toks, spec_expr(toks, i).next - 1),
        ),
{
    lemma_expr_bounds(toks, i);
}

/// The span of a `let` and of a `ret` runs from the keyword to the `;`.
/// Any other statement is an expression and has the span of that
/// expression, before the `;`.
pub proof fn lemma_stmt_span(toks: Seq<Token>, i: int)
    requires
        0 <= i < toks.len(),
        spec_stmt(toks, i).out is Ok,
    ensures
        kind_at(toks, i) == TokenKind::KWLet || kind_at(toks, i) == TokenKind::KWRet
            ==> spec_stmt(toks, i).out->Ok_0.span == span_at(toks, i).spec_extend(
            span_at(toks, spec_stmt(toks, i).next - 1),
        ),
        kind_at(toks, i) != TokenKind::KWLet && kind_at(toks, i) != TokenKind::KWRet
            ==> spec_stmt(toks, i).out->Ok_0.span == span_at(toks, i).spec_extend(
            span_at(toks, spec_stmt(toks, i).next - 2),
        ),
{
    lemma_stmt_bounds(toks, i);
    if kind_at(toks, i) != TokenKind::KWLet && kind_at(toks, i) != TokenKind::KWRet {
        lemma_expr_span(toks, i);
    }
}

/// The span of a function starts at its `fn` and runs to the `;` or `}`
/// that closes it.
pub proof fn lemma_func_span(toks: Seq<Token>, i: int)
    requires
        0 <= i < toks.len(),
        spec_func(toks, i).out is Ok,
    ensures
        ({
            let f = spec_func(toks, i);
            let last = f.next - 1;
            &&& i < last < toks.len()
            &&& f.out->Ok_0.span == toks[i].span.spec_extend(toks[last].span)
            &&& toks[last].kind == TokenKind::Semicolon || toks[last].kind == TokenKind::RBrace
        }),
{
    let j = step(toks, i);
    let k = step(toks, j);
    lemma_params_bounds(toks, step(toks, k));
    let params = spec_params(toks, step(toks, k));
    lemma_type_bounds(toks, params.next);
    lemma_body_bounds(toks, params.next);
    lemma_body_bounds(toks, spec_type(toks, params.next).next);
}

/// A decimal literal becomes the number that its text stands for, under
/// the span of its token. Text that is no decimal number becomes one
/// report of kind `InvalidNumber` that points at the span of the token,
/// and nothing else.
pub proof fn lemma_decimal_literal(toks: Seq<Token>, i: int)
    requires
        0 <= i < toks.len(),
        toks[i].kind == TokenKind::DecimalIntLiteral,
    ensures
        spec_expr(toks, i).next == i + 1,
        is_decimal(toks[i].text@) ==> spec_expr(toks, i).out is Ok && spec_expr(
            toks,
            i,
        ).out->Ok_0.elem == NodeView::UIntLit(decimal_value(toks[i].text@)) && spec_expr(
            toks,
            i,
        ).out->Ok_0.span == toks[i].span,
        !is_decimal(toks[i].text@) ==> spec_expr(toks, i).out is Err && spec_expr(
            toks,
            i,
        ).out->Err_0.kind == ReportKind::InvalidNumber && spec_expr(toks, i).out->Err_0.span
            == Some(toks[i].span),
{
}

/// An outcome found in the tokens from `k` on, told by places in the
/// whole sequence.
pub open spec fn shifted<T>(s: Step<T>, k: int) -> Step<T> {
    Step { out: s.out, next: s.next + k }
}

/// As `shifted`, for an outcome with reports.
pub open spec fn shifted_logged<T>(s: Logged<T>, k: int) -> Logged<T> {
    Logged { out: s.out, next: s.next + k, logged: s.logged }
}

/// The tokens from `k` on hold what the whole sequence holds from `k` on.
proof fn lemma_suffix_basics(toks: Seq<Token>, k: int)
    requires
        0 <= k < toks.len(),
    ensures
        forall|i: int| i >= k ==> #[trigger] kind_at(toks, i) == kind_at(toks.skip(k), i - k),
        forall|i: int| i >= k ==> #[trigger] span_at(toks, i) == span_at(toks.skip(k), i - k),
        forall|i: int| i >= k ==> #[trigger] step(toks, i) == step(toks.skip(k), i - k) + k,
        forall|i: int| i > k ==> #[trigger] span_before(toks, i) == span_before(toks.skip(k), i - k),
{
}

/// Recovery looks at no token before its start.
proof fn lemma_recover_local(toks: Seq<Token>, k: int, i: int)
    requires
        0 <= k < toks.len(),
        k <= i,
    ensures
        recover(toks, i) == recover(toks.skip(k), i - k) + k,
    decreases toks.len() - i,
{
    lemma_suffix_basics(toks, k);
    if !crate::parser::grammar::is_sync(kind_at(toks, i)) {
        lemma_recover_local(toks, k, i + 1);
    }
}

/// A type looks at no token before its start.
proof fn lemma_type_local(toks: Seq<Token>, k: int, i: int)
    requires
        0 <= k < toks.len(),
        k <= i <= toks.len(),
    ensures
        spec_type(toks, i) == shifted(spec_type(toks.skip(k), i - k), k),
    decreases toks.len() - i,
{
    lemma_suffix_basics(toks, k);
    let j = step(toks, i);
    match kind_at(toks, i) {
        TokenKind::Star | TokenKind::LBracket => {
            lemma_type_local(toks, k, j);
            lemma_type_bounds(toks, j);
        },
        TokenKind::Identifier => {
            if toks[i].text@ == "opt"@ || toks[i].text@ == "mut"@ {
                lemma_type_local(toks, k, j);
                lemma_type_bounds(toks, j);
            }
        },
        _ => {},
    }
}

/// An expression looks at no token before its start.
proof fn lemma_expr_local(toks: Seq<Token>, k: int, i: int)
    requires
        0 <= k < toks.len(),
        k <= i <= toks.len(),
    ensures
        spec_expr(toks, i) == shifted(spec_expr(toks.skip(k), i - k), k),
    decreases toks.len() - i, 0int,
{
    lemma_suffix_basics(toks, k);
    let j = step(toks, i);
    if kind_at(toks, i) == TokenKind::Dollar && kind_at(toks, j) == TokenKind::Identifier {
        let at = step(toks, j);
        if kind_at(toks, at) == TokenKind::LParen {
            lemma_call_args_local(toks, k, step(toks, at));
            lemma_call_args_bounds(toks, step(toks, at));
        } else {
            lemma_expr_local(toks, k, at);
            lemma_expr_bounds(toks, at);
        }
    }
}

/// The arguments of a call look at no token before the call.
proof fn lemma_call_args_local(toks: Seq<Token>, k: int, i: int)
    requires
        0 <= k < toks.len(),
        k < i <= toks.len(),
    ensures
        spec_call_args(toks, i) == shifted(spec_call_args(toks.skip(k), i - k), k),
    decreases toks.len() - i, 1int,
{
    lemma_suffix_basics(toks, k);
    match kind_at(toks, i) {
        TokenKind::RParen => {},
        TokenKind::Comma => {
            lemma_call_args_local(toks, k, step(toks, i));
        },
        TokenKind::EOF => {},
        _ => {
            lemma_expr_local(toks, k, i);
            lemma_expr_bounds(toks, i);
            let arg = spec_expr(toks, i);
            if arg.out is Ok {
                lemma_call_args_local(toks, k, arg.next);
            }
        },
    }
}

/// A `let` looks at no token before its start.
proof fn lemma_let_local(toks: Seq<Token>, k: int, i: int)
    requires
        0 <= k < toks.len(),
        k <= i <= toks.len(),
    ensures
        spec_let(toks, i) == shifted(spec_let(toks.skip(k), i - k), k),
{
    lemma_suffix_basics(toks, k);
    let j = step(toks, i);
    let at = step(toks, j);
    if kind_at(toks, j) == TokenKind::Identifier && kind_at(toks, at) == TokenKind::Colon {
        lemma_type_local(toks, k, step(toks, at));
        lemma_type_bounds(toks, step(toks, at));
        let ty = spec_type(toks, step(toks, at));
        if ty.out is Ok && kind_at(toks, ty.next) == TokenKind::Equals {
            lemma_expr_local(toks, k, step(toks, ty.next));
            lemma_expr_bounds(toks, step(toks, ty.next));
        }
    }
}

/// A `ret` looks at no token before its start.
proof fn lemma_ret_local(toks: Seq<Token>, k: int, i: int)
    requires
        0 <= k < toks.len(),
        k <= i <= toks.len(),
    ensures
        spec_ret(toks, i) == shifted(spec_ret(toks.skip(k), i - k), k),
{
    lemma_suffix_basics(toks, k);
    let j = step(toks, i);
    if kind_at(toks, j) != TokenKind::Semicolon {
        lemma_expr_local(toks, k, j);
        lemma_expr_bounds(toks, j);
    }
}

/// A statement looks at no token before its start.
proof fn lemma_stmt_local(toks: Seq<Token>, k: int, i: int)
    requires
        0 <= k < toks.len(),
        k <= i <= toks.len(),
    ensures
        spec_stmt(toks, i) == shifted(spec_stmt(toks.skip(k), i - k), k),
{
    lemma_suffix_basics(toks, k);
    match kind_at(toks, i) {
        TokenKind::KWLet => {
            lemma_let_local(toks, k, i);
        },
        TokenKind::KWRet => {
            lemma_ret_local(toks, k, i);
        },
        _ => {
            lemma_expr_local(toks, k, i);
            lemma_expr_bounds(toks, i);
        },
    }
}

/// A block looks at no token before the `{` that opens it.
proof fn lemma_block_local(toks: Seq<Token>, k: int, i: int)
    requires
        0 <= k < toks.len(),
        k < i <= toks.len(),
    ensures
        spec_block(toks, i) == shifted_logged(spec_block(toks.skip(k), i - k), k),
    decreases toks.len() - i,
{
    let rest = toks.skip(k);
    lemma_suffix_basics(toks, k);
    lemma_block_end(toks, i);
    lemma_block_end(rest, i - k);
    if kind_at(toks, i) != TokenKind::RBrace && kind_at(toks, i) != TokenKind::EOF {
        lemma_stmt_local(toks, k, i);
        lemma_stmt_bounds(toks, i);
        let stmt = spec_stmt(toks, i);
        if stmt.out is Ok {
            lemma_block_statement(toks, i);
            lemma_block_statement(rest, i - k);
            lemma_block_local(toks, k, stmt.next);
        } else {
            lemma_block_recovery(toks, i);
            lemma_block_recovery(rest, i - k);
            lemma_recover(toks, stmt.next);
            lemma_recover_local(toks, k, stmt.next);
            let at = recover(toks, stmt.next);
            if kind_at(toks, at) == TokenKind::Semicolon {
                lemma_block_local(toks, k, at + 1);
            } else if kind_at(toks, at) != TokenKind::RBrace {
                lemma_block_end(toks, at);
                lemma_block_end(rest, at - k);
            }
        }
    }
}

/// The parameters of a function look at no token before their start.
proof fn lemma_params_local(toks: Seq<Token>, k: int, i: int)
    requires
        0 <= k < toks.len(),
        k <= i <= toks.len(),
    ensures
        spec_params(toks, i) == shifted(spec_params(toks.skip(k), i - k), k),
    decreases toks.len() - i,
{
    lemma_suffix_basics(toks, k);
    let j = step(toks, i);
    if kind_at(toks, i) == TokenKind::Identifier && kind_at(toks, j) == TokenKind::Colon {
        lemma_type_local(toks, k, step(toks, j));
        lemma_type_bounds(toks, step(toks, j));
        let ty = spec_type(toks, step(toks, j));
        if ty.out is Ok && kind_at(toks, ty.next) == TokenKind::Comma {
            lemma_params_local(toks, k, ty.next + 1);
        }
    }
}

/// The body of a function looks at no token before its marker.
proof fn lemma_body_local(toks: Seq<Token>, k: int, mark: int)
    requires
        0 <= k < toks.len(),
        k <= mark <= toks.len(),
    ensures
        spec_body(toks, mark) == shifted_logged(spec_body(toks.skip(k), mark - k), k),
{
    lemma_suffix_basics(toks, k);
    let start = step(toks, mark);
    match kind_at(toks, mark) {
        TokenKind::Colon => {
            lemma_stmt_local(toks, k, start);
        },
        TokenKind::LBrace => {
            lemma_block_local(toks, k, start);
        },
        _ => {},
    }
}

/// What follows the parameters of a function looks at no token before
/// the `fn`.
proof fn lemma_func_rest_local<'src>(
    toks: Seq<Token<'src>>,
    k: int,
    i: int,
    name: Sp<&'src str>,
    args: Seq<(Sp<&'src str>, Sp<Type<'src>>)>,
    at: int,
)
    requires
        0 <= k < toks.len(),
        k <= i < at <= toks.len(),
    ensures
        spec_func_rest(toks, i, name, args, at) == shifted_logged(
            spec_func_rest(toks.skip(k), i - k, name, args, at - k),
            k,
        ),
{
    lemma_suffix_basics(toks, k);
    lemma_type_local(toks, k, at);
    lemma_type_bounds(toks, at);
    let bare = kind_at(toks, at) == TokenKind::Colon || kind_at(toks, at) == TokenKind::LBrace
        || kind_at(toks, at) == TokenKind::Semicolon;
    let mark = if bare { at } else { spec_type(toks, at).next };
    lemma_body_local(toks, k, mark);
    lemma_body_bounds(toks, mark);
}

/// A function looks at no token before its `fn`.
proof fn lemma_func_local(toks: Seq<Token>, k: int, i: int)
    requires
        0 <= k < toks.len(),
        k <= i <= toks.len(),
    ensures
        spec_func(toks, i) == shifted_logged(spec_func(toks.skip(k), i - k), k),
{
    lemma_suffix_basics(toks, k);
    let j = step(toks, i);
    let at = step(toks, j);
    if kind_at(toks, j) == TokenKind::Identifier && kind_at(toks, at) == TokenKind::LParen {
        lemma_params_local(toks, k, step(toks, at));
        lemma_params_bounds(toks, step(toks, at));
        let params = spec_params(toks, step(toks, at));
        if params.out is Ok {
            lemma_func_rest_local(
                toks,
                k,
                i,
                Sp { elem: toks[j].text, span: span_at(toks, j) },
                params.out->Ok_0,
                params.next,
            );
        }
    }
}

/// A declaration looks at no token before its start.
proof fn lemma_global_local(toks: Seq<Token>, k: int, i: int)
    requires
        0 <= k < toks.len(),
        k <= i <= toks.len(),
    ensures
        spec_global(toks, i) == shifted_logged(spec_global(toks.skip(k), i - k), k),
    decreases toks.len() - i,
{
    lemma_suffix_basics(toks, k);
    let j = step(toks, i);
    match kind_at(toks, i) {
        TokenKind::KWFn => {
            lemma_func_local(toks, k, i);
        },
        TokenKind::KWExtern | TokenKind::KWExport => {
            if kind_at(toks, j) != TokenKind::EOF {
                lemma_global_local(toks, k, j);
            }
        },
        _ => {},
    }
}

/// The parse from a place on looks at no token before it.
proof fn lemma_program_local(toks: Seq<Token>, k: int, i: int)
    requires
        0 <= k < toks.len(),
        k <= i <= toks.len(),
    ensures
        spec_program(toks, i) == spec_program(toks.skip(k), i - k),
    decreases toks.len() - i,
{
    let rest = toks.skip(k);
    lemma_suffix_basics(toks, k);
    if kind_at(toks, i) == TokenKind::EOF {
        lemma_program_end(toks, i);
        lemma_program_end(rest, i - k);
    } else {
        lemma_global_local(toks, k, i);
        lemma_global_bounds(toks, i);
        let global = spec_global(toks, i);
        if global.out is Ok {
            lemma_program_declaration(toks, i);
            lemma_program_declaration(rest, i - k);
            lemma_program_local(toks, k, global.next);
        } else {
            lemma_program_recovery(toks, i);
            lemma_program_recovery(rest, i - k);
            lemma_recover(toks, global.next);
            lemma_recover_local(toks, k, global.next);
            let at = recover(toks, global.next);
            if kind_at(toks, at) != TokenKind::EOF {
                lemma_program_local(toks, k, at + 1);
            } else {
                lemma_program_end(toks, at);
                lemma_program_end(rest, at - k);
            }
        }
    }
}

/// Locality: what is parsed from a place on is what would be parsed if the
/// tokens started there. Nothing before the place reaches into it.
pub proof fn lemma_parse_is_local(toks: Seq<Token>, k: int)
    requires
        0 <= k <= toks.len(),
    ensures
        spec_program(toks, k) == spec_program(toks.skip(k), 0),
{
    if k < toks.len() {
        lemma_program_local(toks, k, k);
    } else {
        lemma_program_end(toks, k);
        lemma_program_end(toks.skip(k), 0);
    }
}

/// Recovery, told by what follows: after a declaration that fails, the
/// declarations behind the next `;` or `}` are parsed exactly as they
/// would be in a file of their own, and the reports of the whole are the
/// reports of the failure and then theirs.
pub proof fn lemma_failure_is_local(toks: Seq<Token>, i: int)
    requires
        0 <= i < toks.len(),
        kind_at(toks, i) != TokenKind::EOF,
        spec_global(toks, i).out is Err,
        kind_at(toks, recover(toks, spec_global(toks, i).next)) != TokenKind::EOF,
    ensures
        ({
            let failed = spec_global(toks, i);
            let rest = toks.skip(recover(toks, failed.next) + 1);
            &&& spec_program(toks, i).nodes == spec_program(rest, 0).nodes
            &&& spec_program(toks, i).reports == failed.logged.push(failed.out->Err_0)
                + spec_program(rest, 0).reports
        }),
{
    lemma_parse_resumes(toks, i);
    lemma_parse_is_local(toks, recover(toks, spec_global(toks, i).next) + 1);
}

} // verus!
