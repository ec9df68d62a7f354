//! The typed middle representation: declarations and statements over
//! numbered values, and the text in which they are written out.

use crate::bigint::{spec_text, IBig};
use crate::render::{painted, pieces_view, plain, put, put_all, Paint, Piece, PieceView};
use crate::text::{debug_quoted, decimal_digits, decimal_text_u64, joined_with, push_char, quoted};
use vstd::prelude::*;
use vstd::string::StringExecFns;

verus! {

/// The number of a value.
#[derive(Clone, Copy, Default, Debug, Eq, Hash, PartialEq)]
pub struct ValId(pub u64);

/// A value as an operand.
#[derive(Debug, PartialEq, Eq)]
pub enum Var {
    /// A number written in place.
    Imm(IBig),
    Local(ValId),
    Glob(ValId),
}

/// A type of the middle representation.
#[derive(Debug, PartialEq, Eq)]
pub enum Type {
    U(u32),
    I(u32),
    B(u32),
    F(u32),
    Usize,
    Isize,
    /// An unsigned integer whose width is still open.
    Puint,
    /// A signed integer whose width is still open.
    Pint,
    /// A boolean whose width is still open.
    Pbool,
    /// A float whose width is still open.
    Pfloat,
    Void,
    Never,
    Ptr(Box<Type>),
    Arr(Box<Type>, Option<u64>),
    Mut(Box<Type>),
    Opt(Box<Type>),
    Fn(Vec<Type>, Box<Type>),
}

/// A declaration or statement of the middle representation.
#[allow(inconsistent_fields)]
#[derive(Debug, PartialEq, Eq)]
pub enum Node {
    Func { id: ValId, export: bool, args: Vec<(ValId, Type)>, ret: Type, body: Vec<Node> },
    FuncDecl { id: ValId, args: Vec<Type>, ret: Type },
    Assign { id: ValId, ty: Type, val: Box<Node> },
    Global { id: ValId, ty: Type, val: Box<Node> },
    Store { to: Var, from: (Var, Type) },
    Ret(Option<Var>, Type),
    FuncCall { id: Var, args: Vec<(Var, Type)> },
    StrLit(String),
    Var(Var),
}

impl ValId {
    /// The number itself.
    pub fn deref(&self) -> (r: &u64)
        ensures
            *r == self.0,
    {
        &self.0
    }

    /// The number in decimal digits.
    pub fn to_text(&self) -> (r: String)
        ensures
            r@ == decimal_digits(self.0 as nat),
    {
        decimal_text_u64(self.0)
    }
}

/// An operand as it is written: a number in place by its digits, a local
/// value after `%`, a global one after `@`.
pub open spec fn var_text(v: Var) -> Seq<char> {
    match v {
        Var::Imm(n) => spec_text(n@),
        Var::Local(id) => seq!['%'] + decimal_digits(id.0 as nat),
        Var::Glob(id) => seq!['@'] + decimal_digits(id.0 as nat),
    }
}

/// The texts of some types.
pub open spec fn types_text(types: Seq<Type>) -> Seq<Seq<char>>
    decreases types,
{
    Seq::new(
        types.len(),
        |k: int|
            if 0 <= k < types.len() {
                type_text(types[k])
            } else {
                Seq::empty()
            },
    )
}

/// A type as it is written.
pub open spec fn type_text(t: Type) -> Seq<char>
    decreases t,
{
    match t {
        Type::U(n) => seq!['u'] + decimal_digits(n as nat),
        Type::I(n) => seq!['i'] + decimal_digits(n as nat),
        Type::B(n) => seq!['b'] + decimal_digits(n as nat),
        Type::F(n) => seq!['f'] + decimal_digits(n as nat),
        Type::Puint => "{uint}"@,
        Type::Pint => "{int}"@,
        Type::Pbool => "{bool}"@,
        Type::Pfloat => "{float}"@,
        Type::Usize => "usize"@,
        Type::Isize => "isize"@,
        Type::Void => "void"@,
        Type::Never => "never"@,
        Type::Ptr(inner) => seq!['*'] + type_text(*inner),
        Type::Arr(inner, None) => seq!['['] + type_text(*inner) + seq![']'],
        Type::Arr(inner, Some(n)) => seq!['['] + type_text(*inner) + seq![';', ' ']
            + decimal_digits(n as nat) + seq![']'],
        Type::Mut(inner) => "mut "@ + type_text(*inner),
        Type::Opt(inner) => "opt "@ + type_text(*inner),
        Type::Fn(args, ret) => "fn("@ + joined_with(types_text(args@), seq![',', ' ']) + seq![
            ')',
            ' ',
        ] + type_text(*ret),
    }
}

/// An operand with its type: `operand: type`.
pub open spec fn typed_text(v: (Var, Type)) -> Seq<char> {
    var_text(v.0) + seq![':', ' '] + type_text(v.1)
}

/// A parameter with its type: `%id: type`.
pub open spec fn param_text(p: (ValId, Type)) -> Seq<char> {
    seq!['%'] + decimal_digits(p.0.0 as nat) + seq![':', ' '] + type_text(p.1)
}

/// The statements of a body, each on a line of its own, indented and
/// closed by `;`.
pub open spec fn body_text(body: Seq<Node>, k: int) -> Seq<char>
    decreases body, body.len() - k,
{
    if 0 <= k < body.len() {
        "   "@ + node_text(body[k]) + seq![';', '\n'] + body_text(body, k + 1)
    } else {
        Seq::empty()
    }
}

/// A declaration or statement as it is written.
pub open spec fn node_text(n: Node) -> Seq<char>
    decreases n,
{
    match n {
        Node::Func { id, export, args, ret, body } => (if export {
            "export "@
        } else {
            Seq::empty()
        }) + "fn "@ + decimal_digits(id.0 as nat) + seq!['('] + joined_with(
            args@.map_values(|p: (ValId, Type)| param_text(p)),
            seq![',', ' '],
        ) + seq![')', ' '] + type_text(ret) + (if body.len() == 0 {
            seq![';', '\n']
        } else {
            seq![' ', '{', '\n'] + body_text(body@, 0) + seq!['}']
        }),
        Node::FuncDecl { id, args, ret } => "fn "@ + decimal_digits(id.0 as nat) + seq!['(']
            + joined_with(types_text(args@), seq![',', ' ']) + seq![')', ' '] + type_text(ret),
        Node::Assign { id, ty, val } => seq!['%'] + decimal_digits(id.0 as nat) + seq![':', ' ']
            + type_text(ty) + seq![' ', '=', ' '] + node_text(*val),
        Node::Global { id, ty, val } => seq!['@'] + decimal_digits(id.0 as nat) + seq![':', ' ']
            + type_text(ty) + seq![' ', '=', ' '] + node_text(*val),
        Node::Store { to, from } => "store "@ + type_text(from.1) + seq![' '] + var_text(from.0)
            + ", ptr "@ + var_text(to),
        Node::Ret(Some(v), ty) => "ret "@ + var_text(v) + seq![':', ' '] + type_text(ty),
        Node::Ret(None, ty) => "ret "@ + type_text(ty),
        Node::FuncCall { id, args } => var_text(id) + seq!['('] + joined_with(
            args@.map_values(|a: (Var, Type)| typed_text(a)),
            seq![',', ' '],
        ) + seq![')'],
        Node::StrLit(s) => debug_quoted(s@),
        Node::Var(v) => var_text(v),
    }
}

impl Var {
    /// The operand as it is written.
    pub fn to_text(&self) -> (r: String)
        ensures
            r@ == var_text(*self),
    {
        match self {
            Var::Imm(n) => n.to_text(),
            Var::Local(id) => {
                let mut out = String::new();
                push_char(&mut out, '%');
                out.append(id.to_text().as_str());
                assert(out@ =~= seq!['%'] + decimal_digits(id.0 as nat));
                out
            },
            Var::Glob(id) => {
                let mut out = String::new();
                push_char(&mut out, '@');
                out.append(id.to_text().as_str());
                assert(out@ =~= seq!['@'] + decimal_digits(id.0 as nat));
                out
            },
        }
    }
}

/// Adds `text` to `out`, after `between` unless it is the first of the
/// texts joined.
fn join_next(out: &mut String, text: &str, first: bool, between: &str)
    ensures
        final(out)@ == (if first {
            old(out)@ + text@
        } else {
            old(out)@ + between@ + text@
        }),
{
    if !first {
        out.append(between);
    }
    out.append(text);
}

/// A letter and a number.
fn lettered(letter: char, n: u32) -> (r: String)
    ensures
        r@ == seq![letter] + decimal_digits(n as nat),
{
    let mut out = String::new();
    push_char(&mut out, letter);
    out.append(decimal_text_u64(n as u64).as_str());
    assert(out@ =~= seq![letter] + decimal_digits(n as nat));
    out
}

/// Joining is done text by text: what was joined so far, the text
/// between, and the next.
proof fn lemma_joined_with_push(texts: Seq<Seq<char>>, next: Seq<char>, between: Seq<char>)
    ensures
        joined_with(texts.push(next), between) == (if texts.len() == 0 {
            next
        } else {
            joined_with(texts, between) + between + next
        }),
{
    assert(texts.push(next).drop_last() =~= texts);
}

impl Type {
    /// The type as it is written.
    pub fn to_text(&self) -> (r: String)
        ensures
            r@ == type_text(*self),
        decreases self,
    {
        match self {
            Type::U(n) => lettered('u', *n),
            Type::I(n) => lettered('i', *n),
            Type::B(n) => lettered('b', *n),
            Type::F(n) => lettered('f', *n),
            Type::Puint => String::from_str("{uint}"),
            Type::Pint => String::from_str("{int}"),
            Type::Pbool => String::from_str("{bool}"),
            Type::Pfloat => String::from_str("{float}"),
            Type::Usize => String::from_str("usize"),
            Type::Isize => String::from_str("isize"),
            Type::Void => String::from_str("void"),
            Type::Never => String::from_str("never"),
            Type::Ptr(inner) => {
                let mut out = String::new();
                push_char(&mut out, '*');
                out.append(inner.to_text().as_str());
                assert(out@ =~= seq!['*'] + type_text(**inner));
                out
            },
            Type::Arr(inner, None) => {
                let mut out = String::new();
                push_char(&mut out, '[');
                out.append(inner.to_text().as_str());
                push_char(&mut out, ']');
                assert(out@ =~= seq!['['] + type_text(**inner) + seq![']']);
                out
            },
            Type::Arr(inner, Some(n)) => {
                let mut out = String::new();
                push_char(&mut out, '[');
                out.append(inner.to_text().as_str());
                push_char(&mut out, ';');
                push_char(&mut out, ' ');
                out.append(decimal_text_u64(*n).as_str());
                push_char(&mut out, ']');
                assert(out@ =~= seq!['['] + type_text(**inner) + seq![';', ' '] + decimal_digits(
                    *n as nat,
                ) + seq![']']);
                out
            },
            Type::Mut(inner) => String::from_str("mut ").concat(inner.to_text().as_str()),
            Type::Opt(inner) => String::from_str("opt ").concat(inner.to_text().as_str()),
            Type::Fn(args, ret) => {
                let list = types_to_text(args);
                let mut out = String::from_str("fn(");
                out.append(list.as_str());
                push_char(&mut out, ')');
                push_char(&mut out, ' ');
                out.append(ret.to_text().as_str());
                assert(out@ =~= "fn("@ + joined_with(types_text(args@), seq![',', ' ']) + seq![
                    ')',
                    ' ',
                ] + type_text(**ret));
                out
            },
        }
    }
}

/// The texts of some types with `, ` between them.
fn types_to_text(types: &Vec<Type>) -> (r: String)
    ensures
        r@ == joined_with(types_text(types@), seq![',', ' ']),
    decreases types,
{
    let mut out = String::new();
    let mut k: usize = 0;
    let ghost texts = types_text(types@);
    proof {
        reveal_strlit(", ");
        assert(", "@ =~= seq![',', ' ']);
        assert(texts.take(0) =~= Seq::<Seq<char>>::empty());
    }
    while k < types.len()
        invariant
            k <= types.len(),
            texts == types_text(types@),
            ", "@ == seq![',', ' '],
            out@ == joined_with(texts.take(k as int), seq![',', ' ']),
        decreases types.len() - k,
    {
        let text = types[k].to_text();
        proof {
            lemma_joined_with_push(texts.take(k as int), text@, seq![',', ' ']);
            assert(texts.take(k + 1) =~= texts.take(k as int).push(text@));
        }
        join_next(&mut out, text.as_str(), k == 0, ", ");
        k += 1;
    }
    assert(texts.take(k as int) =~= texts);
    out
}

/// The texts of some parameters with `, ` between them.
fn params_to_text(params: &Vec<(ValId, Type)>) -> (r: String)
    ensures
        r@ == joined_with(params@.map_values(|p: (ValId, Type)| param_text(p)), seq![',', ' ']),
{
    let mut out = String::new();
    let mut k: usize = 0;
    let ghost texts = params@.map_values(|p: (ValId, Type)| param_text(p));
    proof {
        reveal_strlit(", ");
        assert(", "@ =~= seq![',', ' ']);
        assert(texts.take(0) =~= Seq::<Seq<char>>::empty());
    }
    while k < params.len()
        invariant
            k <= params.len(),
            texts == params@.map_values(|p: (ValId, Type)| param_text(p)),
            ", "@ == seq![',', ' '],
            out@ == joined_with(texts.take(k as int), seq![',', ' ']),
        decreases params.len() - k,
    {
        let mut text = String::new();
        push_char(&mut text, '%');
        text.append(params[k].0.to_text().as_str());
        push_char(&mut text, ':');
        push_char(&mut text, ' ');
        text.append(params[k].1.to_text().as_str());
        proof {
            assert(text@ =~= param_text(params@[k as int]));
            lemma_joined_with_push(texts.take(k as int), text@, seq![',', ' ']);
            assert(texts.take(k + 1) =~= texts.take(k as int).push(text@));
        }
        join_next(&mut out, text.as_str(), k == 0, ", ");
        k += 1;
    }
    assert(texts.take(k as int) =~= texts);
    out
}

/// The texts of some operands, each with its type, with `, ` between them.
fn operands_to_text(operands: &Vec<(Var, Type)>) -> (r: String)
    ensures
        r@ == joined_with(operands@.map_values(|a: (Var, Type)| typed_text(a)), seq![',', ' ']),
{
    let mut out = String::new();
    let mut k: usize = 0;
    let ghost texts = operands@.map_values(|a: (Var, Type)| typed_text(a));
    proof {
        reveal_strlit(", ");
        assert(", "@ =~= seq![',', ' ']);
        assert(texts.take(0) =~= Seq::<Seq<char>>::empty());
    }
    while k < operands.len()
        invariant
            k <= operands.len(),
            texts == operands@.map_values(|a: (Var, Type)| typed_text(a)),
            ", "@ == seq![',', ' '],
            out@ == joined_with(texts.take(k as int), seq![',', ' ']),
        decreases operands.len() - k,
    {
        let mut text = operands[k].0.to_text();
        push_char(&mut text, ':');
        push_char(&mut text, ' ');
        text.append(operands[k].1.to_text().as_str());
        proof {
            assert(text@ =~= typed_text(operands@[k as int]));
            lemma_joined_with_push(texts.take(k as int), text@, seq![',', ' ']);
            assert(texts.take(k + 1) =~= texts.take(k as int).push(text@));
        }
        join_next(&mut out, text.as_str(), k == 0, ", ");
        k += 1;
    }
    assert(texts.take(k as int) =~= texts);
    out
}

/// The head of a definition: `%id: type = ` or `@id: type = `.
fn definition_head(sigil: char, id: &ValId, ty: &Type) -> (r: String)
    ensures
        r@ == seq![sigil] + decimal_digits(id.0 as nat) + seq![':', ' '] + type_text(*ty) + seq![
            ' ',
            '=',
            ' ',
        ],
{
    let mut out = String::new();
    push_char(&mut out, sigil);
    out.append(id.to_text().as_str());
    push_char(&mut out, ':');
    push_char(&mut out, ' ');
    out.append(ty.to_text().as_str());
    push_char(&mut out, ' ');
    push_char(&mut out, '=');
    push_char(&mut out, ' ');
    assert(out@ =~= seq![sigil] + decimal_digits(id.0 as nat) + seq![':', ' '] + type_text(*ty)
        + seq![' ', '=', ' ']);
    out
}

impl Node {
    /// The declaration or statement as it is written.
    pub fn to_text(&self) -> (r: String)
        ensures
            r@ == node_text(*self),
        decreases self,
    {
        match self {
            Node::Func { id, export, args, ret, body } => {
                let mut out = if *export {
                    String::from_str("export ")
                } else {
                    String::new()
                };
                out.append("fn ");
                out.append(id.to_text().as_str());
                push_char(&mut out, '(');
                out.append(params_to_text(args).as_str());
                push_char(&mut out, ')');
                push_char(&mut out, ' ');
                out.append(ret.to_text().as_str());
                let ghost head = out@;
                if body.len() == 0 {
                    push_char(&mut out, ';');
                    push_char(&mut out, '\n');
                    assert(out@ =~= head + seq![';', '\n']);
                } else {
                    push_char(&mut out, ' ');
                    push_char(&mut out, '{');
                    push_char(&mut out, '\n');
                    out.append(body_to_text(body).as_str());
                    push_char(&mut out, '}');
                    assert(out@ =~= head + (seq![' ', '{', '\n'] + body_text(body@, 0) + seq!['}']));
                }
                assert(head =~= (if *export {
                    "export "@
                } else {
                    Seq::empty()
                }) + "fn "@ + decimal_digits(id.0 as nat) + seq!['('] + joined_with(
                    args@.map_values(|p: (ValId, Type)| param_text(p)),
                    seq![',', ' '],
                ) + seq![')', ' '] + type_text(*ret));
                out
            },
            Node::FuncDecl { id, args, ret } => {
                let mut out = String::from_str("fn ");
                out.append(id.to_text().as_str());
                push_char(&mut out, '(');
                out.append(types_to_text(args).as_str());
                push_char(&mut out, ')');
                push_char(&mut out, ' ');
                out.append(ret.to_text().as_str());
                assert(out@ =~= "fn "@ + decimal_digits(id.0 as nat) + seq!['('] + joined_with(
                    types_text(args@),
                    seq![',', ' '],
                ) + seq![')', ' '] + type_text(*ret));
                out
            },
            Node::Assign { id, ty, val } => {
                let mut out = definition_head('%', id, ty);
                out.append(val.to_text().as_str());
                out
            },
            Node::Global { id, ty, val } => {
                let mut out = definition_head('@', id, ty);
                out.append(val.to_text().as_str());
                out
            },
            Node::Store { to, from } => {
                let mut out = String::from_str("store ");
                out.append(from.1.to_text().as_str());
                push_char(&mut out, ' ');
                out.append(from.0.to_text().as_str());
                out.append(", ptr ");
                out.append(to.to_text().as_str());
                assert(out@ =~= "store "@ + type_text(from.1) + seq![' '] + var_text(from.0)
                    + ", ptr "@ + var_text(*to));
                out
            },
            Node::Ret(Some(v), ty) => {
                let mut out = String::from_str("ret ");
                out.append(v.to_text().as_str());
                push_char(&mut out, ':');
                push_char(&mut out, ' ');
                out.append(ty.to_text().as_str());
                assert(out@ =~= "ret "@ + var_text(*v) + seq![':', ' '] + type_text(*ty));
                out
            },
            Node::Ret(None, ty) => String::from_str("ret ").concat(ty.to_text().as_str()),
            Node::FuncCall { id, args } => {
                let mut out = id.to_text();
                push_char(&mut out, '(');
                out.append(operands_to_text(args).as_str());
                push_char(&mut out, ')');
                assert(out@ =~= var_text(*id) + seq!['('] + joined_with(
                    args@.map_values(|a: (Var, Type)| typed_text(a)),
                    seq![',', ' '],
                ) + seq![')']);
                out
            },
            Node::StrLit(s) => quoted(s.as_str()),
            Node::Var(v) => v.to_text(),
        }
    }
}

/// The statements of a body, each on a line of its own.
fn body_to_text(body: &Vec<Node>) -> (r: String)
    ensures
        r@ == body_text(body@, 0),
    decreases body,
{
    let mut out = String::new();
    let mut k: usize = 0;
    proof {
        assert(out@ + body_text(body@, 0) =~= body_text(body@, 0));
    }
    while k < body.len()
        invariant
            k <= body.len(),
            out@ + body_text(body@, k as int) == body_text(body@, 0),
        decreases body.len() - k,
    {
        let ghost before = out@;
        let text = body[k].to_text();
        out.append("   ");
        out.append(text.as_str());
        push_char(&mut out, ';');
        push_char(&mut out, '\n');
        k += 1;
        proof {
            assert(before + ("   "@ + text@ + seq![';', '\n'] + body_text(body@, k as int)) =~= out@
                + body_text(body@, k as int));
        }
    }
    assert(out@ + body_text(body@, k as int) =~= out@);
    out
}

/// An operand as it is painted: a number in place is set off as a value.
pub open spec fn var_pieces(v: Var) -> Seq<PieceView> {
    match v {
        Var::Imm(_) => seq![painted(Paint::Value, var_text(v))],
        _ => seq![plain(var_text(v))],
    }
}

/// The types from the `k`-th on as they are painted, with `, ` between them.
pub open spec fn types_pieces(types: Seq<Type>, k: int) -> Seq<PieceView>
    decreases types, types.len() - k,
{
    if 0 <= k < types.len() {
        (if k > 0 {
            seq![plain(seq![',', ' '])]
        } else {
            Seq::empty()
        }) + type_pieces(types[k]) + types_pieces(types, k + 1)
    } else {
        Seq::empty()
    }
}

/// A type as it is painted: one piece, but for the type of a function,
/// where the keyword is set off and each type inside is painted by itself.
pub open spec fn type_pieces(t: Type) -> Seq<PieceView>
    decreases t,
{
    match t {
        Type::Fn(args, ret) => seq![painted(Paint::Keyword, "fn"@), plain(seq!['('])]
            + types_pieces(args@, 0) + seq![plain(seq![')', ' '])] + type_pieces(*ret),
        _ => seq![painted(Paint::TypeName, type_text(t))],
    }
}

/// The parameters from the `k`-th on as they are painted.
pub open spec fn params_pieces(params: Seq<(ValId, Type)>, k: int) -> Seq<PieceView>
    decreases params.len() - k,
{
    if 0 <= k < params.len() {
        seq![
            plain(
                (if k > 0 {
                    seq![',', ' ']
                } else {
                    Seq::empty()
                }) + seq!['%'] + decimal_digits(params[k].0.0 as nat) + seq![':', ' '],
            ),
        ] + type_pieces(params[k].1) + params_pieces(params, k + 1)
    } else {
        Seq::empty()
    }
}

/// The operands from the `k`-th on as they are painted, each with its type.
pub open spec fn operands_pieces(operands: Seq<(Var, Type)>, k: int) -> Seq<PieceView>
    decreases operands.len() - k,
{
    if 0 <= k < operands.len() {
        (if k > 0 {
            seq![plain(seq![',', ' '])]
        } else {
            Seq::empty()
        }) + var_pieces(operands[k].0) + seq![plain(seq![':', ' '])] + type_pieces(operands[k].1)
            + operands_pieces(operands, k + 1)
    } else {
        Seq::empty()
    }
}

/// The statements of a body from the `k`-th on as they are painted.
pub open spec fn body_pieces(body: Seq<Node>, k: int) -> Seq<PieceView>
    decreases body, body.len() - k,
{
    if 0 <= k < body.len() {
        seq![plain("   "@)] + node_pieces(body[k]) + seq![plain(seq![';', '\n'])] + body_pieces(
            body,
            k + 1,
        )
    } else {
        Seq::empty()
    }
}

/// The head of a definition as it is painted: `%id: type = `.
pub open spec fn definition_pieces(sigil: char, id: ValId, ty: Type) -> Seq<PieceView> {
    seq![plain(seq![sigil] + decimal_digits(id.0 as nat) + seq![':', ' '])] + type_pieces(ty)
        + seq![plain(seq![' ', '=', ' '])]
}

/// A declaration or statement as it is painted: keywords, types, strings
/// and numbers in place are set off from the rest.
pub open spec fn node_pieces(n: Node) -> Seq<PieceView>
    decreases n,
{
    match n {
        Node::Func { id, export, args, ret, body } => (if export {
            seq![painted(Paint::Keyword, "export"@), plain(seq![' '])]
        } else {
            Seq::empty()
        }) + seq![
            painted(Paint::Keyword, "fn"@),
            plain(seq![' '] + decimal_digits(id.0 as nat) + seq!['(']),
        ] + params_pieces(args@, 0) + seq![plain(seq![')', ' '])] + type_pieces(ret) + (if body.len()
            == 0 {
            seq![plain(seq![';', '\n'])]
        } else {
            seq![plain(seq![' ', '{', '\n'])] + body_pieces(body@, 0) + seq![plain(seq!['}'])]
        }),
        Node::FuncDecl { id, args, ret } => seq![
            painted(Paint::Keyword, "fn"@),
            plain(seq![' '] + decimal_digits(id.0 as nat) + seq!['(']),
        ] + types_pieces(args@, 0) + seq![plain(seq![')', ' '])] + type_pieces(ret),
        Node::Assign { id, ty, val } => definition_pieces('%', id, ty) + node_pieces(*val),
        Node::Global { id, ty, val } => definition_pieces('@', id, ty) + node_pieces(*val),
        Node::Store { to, from } => seq![plain("store "@)] + type_pieces(from.1) + seq![
            plain(seq![' ']),
        ] + var_pieces(from.0) + seq![
            plain(seq![',', ' ']),
            painted(Paint::Keyword, "ptr"@),
            plain(seq![' ']),
        ] + var_pieces(to),
        Node::Ret(Some(v), ty) => seq![plain("ret "@)] + var_pieces(v) + seq![
            plain(seq![':', ' ']),
        ] + type_pieces(ty),
        Node::Ret(None, ty) => seq![plain("ret "@)] + type_pieces(ty),
        Node::FuncCall { id, args } => var_pieces(id) + seq![plain(seq!['('])] + operands_pieces(
            args@,
            0,
        ) + seq![plain(seq![')'])],
        Node::StrLit(s) => seq![painted(Paint::Literal, debug_quoted(s@))],
        Node::Var(v) => seq![painted(Paint::Value, var_text(v))],
    }
}

/// A piece of the given characters.
fn put_chars(out: &mut Vec<Piece>, paint: Paint, a: char, b: Option<char>, c: Option<char>)
    ensures
        pieces_view(final(out)@) == pieces_view(old(out)@).push(
            painted(
                paint,
                seq![a] + (match b {
                    Some(b) => seq![b],
                    None => Seq::empty(),
                }) + (match c {
                    Some(c) => seq![c],
                    None => Seq::empty(),
                }),
            ),
        ),
{
    let mut text = String::new();
    push_char(&mut text, a);
    match b {
        Some(b) => {
            push_char(&mut text, b);
        },
        None => {},
    }
    match c {
        Some(c) => {
            push_char(&mut text, c);
        },
        None => {},
    }
    assert(text@ =~= seq![a] + (match b {
        Some(b) => seq![b],
        None => Seq::empty(),
    }) + (match c {
        Some(c) => seq![c],
        None => Seq::empty(),
    }));
    put(out, paint, text);
}

/// No pieces yet.
fn no_pieces() -> (r: Vec<Piece>)
    ensures
        pieces_view(r@) == Seq::<PieceView>::empty(),
{
    let out: Vec<Piece> = Vec::new();
    assert(pieces_view(out@) =~= Seq::<PieceView>::empty());
    out
}

impl Var {
    /// The operand as it is painted.
    pub fn pieces(&self) -> (r: Vec<Piece>)
        ensures
            pieces_view(r@) == var_pieces(*self),
    {
        let mut out = no_pieces();
        match self {
            Var::Imm(_) => {
                put(&mut out, Paint::Value, self.to_text());
            },
            _ => {
                put(&mut out, Paint::Plain, self.to_text());
            },
        }
        assert(pieces_view(out@) =~= var_pieces(*self));
        out
    }
}

impl Type {
    /// The type as it is painted.
    pub fn pieces(&self) -> (r: Vec<Piece>)
        ensures
            pieces_view(r@) == type_pieces(*self),
        decreases self,
    {
        let mut out = no_pieces();
        match self {
            Type::Fn(args, ret) => {
                put(&mut out, Paint::Keyword, String::from_str("fn"));
                put_chars(&mut out, Paint::Plain, '(', None, None);
                put_all(&mut out, types_to_pieces(args));
                put_chars(&mut out, Paint::Plain, ')', Some(' '), None);
                put_all(&mut out, ret.pieces());
                assert(seq!['('] + Seq::<char>::empty() + Seq::<char>::empty() =~= seq!['(']);
                assert(seq![')'] + seq![' '] + Seq::<char>::empty() =~= seq![')', ' ']);
                assert(pieces_view(out@) =~= type_pieces(*self));
            },
            _ => {
                put(&mut out, Paint::TypeName, self.to_text());
                assert(pieces_view(out@) =~= type_pieces(*self));
            },
        }
        out
    }
}

/// Some types as they are painted, with `, ` between them.
fn types_to_pieces(types: &Vec<Type>) -> (r: Vec<Piece>)
    ensures
        pieces_view(r@) == types_pieces(types@, 0),
    decreases types,
{
    let mut out = no_pieces();
    let mut k: usize = 0;
    assert(pieces_view(out@) + types_pieces(types@, 0) =~= types_pieces(types@, 0));
    while k < types.len()
        invariant
            k <= types.len(),
            pieces_view(out@) + types_pieces(types@, k as int) == types_pieces(types@, 0),
        decreases types.len() - k,
    {
        let ghost before = pieces_view(out@);
        if k > 0 {
            put_chars(&mut out, Paint::Plain, ',', Some(' '), None);
            assert(seq![','] + seq![' '] + Seq::<char>::empty() =~= seq![',', ' ']);
        }
        put_all(&mut out, types[k].pieces());
        k += 1;
        assert(before + ((if k - 1 > 0 {
            seq![plain(seq![',', ' '])]
        } else {
            Seq::empty()
        }) + type_pieces(types@[k - 1]) + types_pieces(types@, k as int)) =~= pieces_view(out@)
            + types_pieces(types@, k as int));
    }
    assert(pieces_view(out@) + types_pieces(types@, k as int) =~= pieces_view(out@));
    out
}

/// Some parameters as they are painted.
fn params_to_pieces(params: &Vec<(ValId, Type)>) -> (r: Vec<Piece>)
    ensures
        pieces_view(r@) == params_pieces(params@, 0),
{
    let mut out = no_pieces();
    let mut k: usize = 0;
    assert(pieces_view(out@) + params_pieces(params@, 0) =~= params_pieces(params@, 0));
    while k < params.len()
        invariant
            k <= params.len(),
            pieces_view(out@) + params_pieces(params@, k as int) == params_pieces(params@, 0),
        decreases params.len() - k,
    {
        let ghost before = pieces_view(out@);
        let mut head = String::new();
        if k > 0 {
            push_char(&mut head, ',');
            push_char(&mut head, ' ');
        }
        push_char(&mut head, '%');
        head.append(params[k].0.to_text().as_str());
        push_char(&mut head, ':');
        push_char(&mut head, ' ');
        let ghost text = (if k > 0 {
            seq![',', ' ']
        } else {
            Seq::empty()
        }) + seq!['%'] + decimal_digits(params@[k as int].0.0 as nat) + seq![':', ' '];
        assert(head@ =~= text);
        put(&mut out, Paint::Plain, head);
        put_all(&mut out, params[k].1.pieces());
        k += 1;
        assert(before + (seq![plain(text)] + type_pieces(params@[k - 1].1) + params_pieces(
            params@,
            k as int,
        )) =~= pieces_view(out@) + params_pieces(params@, k as int));
    }
    assert(pieces_view(out@) + params_pieces(params@, k as int) =~= pieces_view(out@));
    out
}

/// Some operands as they are painted, each with its type.
fn operands_to_pieces(operands: &Vec<(Var, Type)>) -> (r: Vec<Piece>)
    ensures
        pieces_view(r@) == operands_pieces(operands@, 0),
{
    let mut out = no_pieces();
    let mut k: usize = 0;
    assert(pieces_view(out@) + operands_pieces(operands@, 0) =~= operands_pieces(operands@, 0));
    while k < operands.len()
        invariant
            k <= operands.len(),
            pieces_view(out@) + operands_pieces(operands@, k as int) == operands_pieces(
                operands@,
                0,
            ),
        decreases operands.len() - k,
    {
        let ghost before = pieces_view(out@);
        if k > 0 {
            put_chars(&mut out, Paint::Plain, ',', Some(' '), None);
            assert(seq![','] + seq![' '] + Seq::<char>::empty() =~= seq![',', ' ']);
        }
        put_all(&mut out, operands[k].0.pieces());
        put_chars(&mut out, Paint::Plain, ':', Some(' '), None);
        assert(seq![':'] + seq![' '] + Seq::<char>::empty() =~= seq![':', ' ']);
        put_all(&mut out, operands[k].1.pieces());
        k += 1;
        assert(before + ((if k - 1 > 0 {
            seq![plain(seq![',', ' '])]
        } else {
            Seq::empty()
        }) + var_pieces(operands@[k - 1].0) + seq![plain(seq![':', ' '])] + type_pieces(
            operands@[k - 1].1,
        ) + operands_pieces(operands@, k as int)) =~= pieces_view(out@) + operands_pieces(
            operands@,
            k as int,
        ));
    }
    assert(pieces_view(out@) + operands_pieces(operands@, k as int) =~= pieces_view(out@));
    out
}

/// The head of a definition as it is painted.
fn definition_to_pieces(sigil: char, id: &ValId, ty: &Type) -> (r: Vec<Piece>)
    ensures
        pieces_view(r@) == definition_pieces(sigil, *id, *ty),
{
    let mut out = no_pieces();
    let mut head = String::new();
    push_char(&mut head, sigil);
    head.append(id.to_text().as_str());
    push_char(&mut head, ':');
    push_char(&mut head, ' ');
    assert(head@ =~= seq![sigil] + decimal_digits(id.0 as nat) + seq![':', ' ']);
    put(&mut out, Paint::Plain, head);
    put_all(&mut out, ty.pieces());
    put_chars(&mut out, Paint::Plain, ' ', Some('='), Some(' '));
    assert(seq![' '] + seq!['='] + seq![' '] =~= seq![' ', '=', ' ']);
    assert(pieces_view(out@) =~= definition_pieces(sigil, *id, *ty));
    out
}

/// The head of a function as it is painted: the keyword, and the number
/// with the `(` behind it.
fn function_head(out: &mut Vec<Piece>, id: &ValId)
    ensures
        pieces_view(final(out)@) == pieces_view(old(out)@) + seq![
            painted(Paint::Keyword, "fn"@),
            plain(seq![' '] + decimal_digits(id.0 as nat) + seq!['(']),
        ],
{
    put(out, Paint::Keyword, String::from_str("fn"));
    let mut name = String::new();
    push_char(&mut name, ' ');
    name.append(id.to_text().as_str());
    push_char(&mut name, '(');
    assert(name@ =~= seq![' '] + decimal_digits(id.0 as nat) + seq!['(']);
    put(out, Paint::Plain, name);
    assert(pieces_view(out@) =~= pieces_view(old(out)@) + seq![
        painted(Paint::Keyword, "fn"@),
        plain(seq![' '] + decimal_digits(id.0 as nat) + seq!['(']),
    ]);
}

impl Node {
    /// The declaration or statement as it is painted.
    pub fn pieces(&self) -> (r: Vec<Piece>)
        ensures
            pieces_view(r@) == node_pieces(*self),
        decreases self,
    {
        let mut out = no_pieces();
        proof {
            assert(seq!['('] + Seq::<char>::empty() + Seq::<char>::empty() =~= seq!['(']);
            assert(seq![')'] + Seq::<char>::empty() + Seq::<char>::empty() =~= seq![')']);
            assert(seq!['}'] + Seq::<char>::empty() + Seq::<char>::empty() =~= seq!['}']);
            assert(seq![' '] + Seq::<char>::empty() + Seq::<char>::empty() =~= seq![' ']);
            assert(seq![')'] + seq![' '] + Seq::<char>::empty() =~= seq![')', ' ']);
            assert(seq![','] + seq![' '] + Seq::<char>::empty() =~= seq![',', ' ']);
            assert(seq![':'] + seq![' '] + Seq::<char>::empty() =~= seq![':', ' ']);
            assert(seq![';'] + seq!['\n'] + Seq::<char>::empty() =~= seq![';', '\n']);
            assert(seq![' '] + seq!['{'] + seq!['\n'] =~= seq![' ', '{', '\n']);
        }
        match self {
            Node::Func { id, export, args, ret, body } => {
                if *export {
                    put(&mut out, Paint::Keyword, String::from_str("export"));
                    put_chars(&mut out, Paint::Plain, ' ', None, None);
                }
                function_head(&mut out, id);
                put_all(&mut out, params_to_pieces(args));
                put_chars(&mut out, Paint::Plain, ')', Some(' '), None);
                put_all(&mut out, ret.pieces());
                if body.len() == 0 {
                    put_chars(&mut out, Paint::Plain, ';', Some('\n'), None);
                } else {
                    put_chars(&mut out, Paint::Plain, ' ', Some('{'), Some('\n'));
                    put_all(&mut out, body_to_pieces(body));
                    put_chars(&mut out, Paint::Plain, '}', None, None);
                }
                assert(pieces_view(out@) =~= node_pieces(*self));
            },
            Node::FuncDecl { id, args, ret } => {
                function_head(&mut out, id);
                put_all(&mut out, types_to_pieces(args));
                put_chars(&mut out, Paint::Plain, ')', Some(' '), None);
                put_all(&mut out, ret.pieces());
                assert(pieces_view(out@) =~= node_pieces(*self));
            },
            Node::Assign { id, ty, val } => {
                put_all(&mut out, definition_to_pieces('%', id, ty));
                put_all(&mut out, val.pieces());
                assert(pieces_view(out@) =~= node_pieces(*self));
            },
            Node::Global { id, ty, val } => {
                put_all(&mut out, definition_to_pieces('@', id, ty));
                put_all(&mut out, val.pieces());
                assert(pieces_view(out@) =~= node_pieces(*self));
            },
            Node::Store { to, from } => {
                put(&mut out, Paint::Plain, String::from_str("store "));
                put_all(&mut out, from.1.pieces());
                put_chars(&mut out, Paint::Plain, ' ', None, None);
                put_all(&mut out, from.0.pieces());
                put_chars(&mut out, Paint::Plain, ',', Some(' '), None);
                put(&mut out, Paint::Keyword, String::from_str("ptr"));
                put_chars(&mut out, Paint::Plain, ' ', None, None);
                put_all(&mut out, to.pieces());
                assert(pieces_view(out@) =~= node_pieces(*self));
            },
            Node::Ret(Some(v), ty) => {
                put(&mut out, Paint::Plain, String::from_str("ret "));
                put_all(&mut out, v.pieces());
                put_chars(&mut out, Paint::Plain, ':', Some(' '), None);
                put_all(&mut out, ty.pieces());
                assert(pieces_view(out@) =~= node_pieces(*self));
            },
            Node::Ret(None, ty) => {
                put(&mut out, Paint::Plain, String::from_str("ret "));
                put_all(&mut out, ty.pieces());
                assert(pieces_view(out@) =~= node_pieces(*self));
            },
            Node::FuncCall { id, args } => {
                put_all(&mut out, id.pieces());
                put_chars(&mut out, Paint::Plain, '(', None, None);
                put_all(&mut out, operands_to_pieces(args));
                put_chars(&mut out, Paint::Plain, ')', None, None);
                assert(pieces_view(out@) =~= node_pieces(*self));
            },
            Node::StrLit(s) => {
                put(&mut out, Paint::Literal, quoted(s.as_str()));
                assert(pieces_view(out@) =~= node_pieces(*self));
            },
            Node::Var(v) => {
                put(&mut out, Paint::Value, v.to_text());
                assert(pieces_view(out@) =~= node_pieces(*self));
            },
        }
        out
    }
}

/// The statements of a body as they are painted, each on a line of its own.
fn body_to_pieces(body: &Vec<Node>) -> (r: Vec<Piece>)
    ensures
        pieces_view(r@) == body_pieces(body@, 0),
    decreases body,
{
    let mut out = no_pieces();
    let mut k: usize = 0;
    assert(pieces_view(out@) + body_pieces(body@, 0) =~= body_pieces(body@, 0));
    while k < body.len()
        invariant
            k <= body.len(),
            pieces_view(out@) + body_pieces(body@, k as int) == body_pieces(body@, 0),
        decreases body.len() - k,
    {
        let ghost before = pieces_view(out@);
        put(&mut out, Paint::Plain, String::from_str("   "));
        put_all(&mut out, body[k].pieces());
        put_chars(&mut out, Paint::Plain, ';', Some('\n'), None);
        k += 1;
        proof {
            assert(seq![';'] + seq!['\n'] + Seq::<char>::empty() =~= seq![';', '\n']);
            assert(before + (seq![plain("   "@)] + node_pieces(body@[k - 1]) + seq![
                plain(seq![';', '\n']),
            ] + body_pieces(body@, k as int)) =~= pieces_view(out@) + body_pieces(body@, k as int));
        }
    }
    assert(pieces_view(out@) + body_pieces(body@, k as int) =~= pieces_view(out@));
    out
}

} // verus!
