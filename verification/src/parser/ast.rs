//! The syntax tree that the parser builds.

use crate::bigint::IBig;
use crate::span::Sp;
use vstd::prelude::*;

verus! {

/// A modifier in front of a declaration.
#[derive(Debug, Clone, Copy, PartialEq, Eq)]
pub enum Attrs {
    Export,
    Extern,
}

/// A type as it is written in the source.
#[derive(Debug, PartialEq, Eq)]
pub enum Type<'src> {
    /// Unsigned integer of the given width in bits.
    U(u32),
    /// Signed integer of the given width in bits.
    I(u32),
    /// Boolean of the given width in bits.
    B(u32),
    /// Floating-point number of the given width in bits.
    F(u32),
    Usize,
    Isize,
    Void,
    Never,
    /// Pointer to a value of the inner type.
    Ptr(Box<Sp<Type<'src>>>),
    /// Array of the inner type, with its length where one is written.
    Arr(Box<Sp<Type<'src>>>, Option<u64>),
    Mut(Box<Sp<Type<'src>>>),
    Opt(Box<Sp<Type<'src>>>),
    /// A type named by the program.
    Ident(&'src str),
}

/// A declaration, statement or expression.
#[allow(inconsistent_fields)]
#[derive(Debug, PartialEq, Eq)]
pub enum Node<'src> {
    /// A function; one without a body is a declaration only.
    Func {
        name: Sp<&'src str>,
        args: Vec<(Sp<&'src str>, Sp<Type<'src>>)>,
        ret: Option<Sp<Type<'src>>>,
        body: Vec<Sp<Node<'src>>>,
        attrs: Vec<Sp<Attrs>>,
    },
    /// `let name: ty = value;`
    Assign { name: Sp<&'src str>, ty: Sp<Type<'src>>, value: Box<Sp<Node<'src>>> },
    /// `ret;` or `ret value;`
    Ret(Option<Box<Sp<Node<'src>>>>),
    /// `$name(args)` or `$name arg`
    FuncCall { name: Sp<&'src str>, args: Vec<Sp<Node<'src>>> },
    /// A string literal with its escapes resolved.
    StrLit(String),
    /// A decimal integer literal.
    UIntLit(IBig),
    Ident(&'src str),
}

/// What a `Node` is: sequences in place of vectors, the characters of a
/// string, the number of an integer.
#[allow(inconsistent_fields)]
pub enum NodeView<'src> {
    Func {
        name: Sp<&'src str>,
        args: Seq<(Sp<&'src str>, Sp<Type<'src>>)>,
        ret: Option<Sp<Type<'src>>>,
        body: Seq<Sp<NodeView<'src>>>,
        attrs: Seq<Sp<Attrs>>,
    },
    Assign { name: Sp<&'src str>, ty: Sp<Type<'src>>, value: Box<Sp<NodeView<'src>>> },
    Ret(Option<Box<Sp<NodeView<'src>>>>),
    FuncCall { name: Sp<&'src str>, args: Seq<Sp<NodeView<'src>>> },
    StrLit(Seq<char>),
    UIntLit(int),
    Ident(&'src str),
}

/// The view of a node with its span.
pub open spec fn node_view<'src>(n: Sp<Node<'src>>) -> Sp<NodeView<'src>>
    decreases n,
{
    Sp {
        span: n.span,
        elem: match n.elem {
            Node::Func { name, args, ret, body, attrs } => NodeView::Func {
                name,
                args: args@,
                ret,
                body: Seq::new(
                    body.len() as nat,
                    |k: int|
                        if 0 <= k < body.len() {
                            node_view(body[k])
                        } else {
                            arbitrary()
                        },
                ),
                attrs: attrs@,
            },
            Node::Assign { name, ty, value } => NodeView::Assign {
                name,
                ty,
                value: Box::new(node_view(*value)),
            },
            Node::Ret(None) => NodeView::Ret(None),
            Node::Ret(Some(value)) => NodeView::Ret(Some(Box::new(node_view(*value)))),
            Node::FuncCall { name, args } => NodeView::FuncCall {
                name,
                args: Seq::new(
                    args.len() as nat,
                    |k: int|
                        if 0 <= k < args.len() {
                            node_view(args[k])
                        } else {
                            arbitrary()
                        },
                ),
            },
            Node::StrLit(s) => NodeView::StrLit(s@),
            Node::UIntLit(n) => NodeView::UIntLit(n@),
            Node::Ident(s) => NodeView::Ident(s),
        },
    }
}

/// The views of a sequence of nodes.
pub open spec fn nodes_view<'src>(nodes: Seq<Sp<Node<'src>>>) -> Seq<Sp<NodeView<'src>>> {
    Seq::new(nodes.len(), |k: int| node_view(nodes[k]))
}

/// The view of a vector of nodes is taken node by node.
pub proof fn lemma_nodes_view_push<'src>(nodes: Seq<Sp<Node<'src>>>, node: Sp<Node<'src>>)
    ensures
        nodes_view(nodes.push(node)) == nodes_view(nodes).push(node_view(node)),
{
    assert(nodes_view(nodes.push(node)) =~= nodes_view(nodes).push(node_view(node)));
}

/// A function's body and a call's arguments are viewed node by node.
pub proof fn lemma_node_view_children<'src>(n: Sp<Node<'src>>)
    ensures
        n.elem matches Node::Func { body, .. } ==> node_view(n).elem->body == nodes_view(body@),
        n.elem matches Node::FuncCall { args, .. } ==> node_view(n).elem->FuncCall_args
            == nodes_view(args@),
{
    match n.elem {
        Node::Func { body, .. } => {
            assert(node_view(n).elem->body =~= nodes_view(body@));
        },
        Node::FuncCall { args, .. } => {
            assert(node_view(n).elem->FuncCall_args =~= nodes_view(args@));
        },
        _ => {},
    }
}

} // verus!
