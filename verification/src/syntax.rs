//! Syntax trees for types, paths, patterns and the elements of a method body.
//!
//! Every piece of syntax is a [`Node`]: a kind, which holds what is written at
//! the node itself, and the nodes below it in source order. The passes of the
//! engine read the few kinds they care about and walk through all others.

use crate::token::{clone_tokens, TokenTree, TokenTreeView};
use vstd::prelude::*;

verus! {

/// Where a path is written.
#[derive(Clone, Copy, Debug, PartialEq, Eq, Structural)]
pub enum Position {
    /// A path that names a type.
    Type,
    /// A path that is an expression.
    Expr,
    /// A path that is a pattern.
    Pat,
    /// The path of a struct literal, or of a struct or tuple-struct pattern:
    /// it names a constructor.
    Constructor,
    /// Any other path: the trait of a bound, the name of a macro.
    Other,
}

/// How the generic arguments of a path segment are written.
#[derive(Clone, Copy, Debug, PartialEq, Eq, Structural)]
pub enum Arguments {
    /// `Vec`: no arguments.
    Absent,
    /// `Vec<T>`; in an expression, `Vec::<T>`.
    AngleBracketed,
    /// `Fn(A) -> B`: inputs, then the output as the last child.
    Parenthesized,
}

/// Composite or atomic syntax that no pass looks into by itself.
#[derive(Clone, Copy, Debug, PartialEq, Eq, Structural)]
pub enum Shape {
    /// `(A, B)`, as a type or as a pattern.
    Tuple,
    /// `[T]`, as a type or as a pattern.
    Slice,
    /// `[T; n]`: the element type, then the length as tokens.
    Array,
    /// `(T)`.
    Paren,
    /// `*const T`.
    ConstPointer,
    /// `*mut T`.
    MutPointer,
    /// `_` as a type: left for the compiler to infer.
    Infer,
    /// `_` as a pattern.
    Wild,
    /// `&p` as a pattern.
    RefPat,
    /// `&mut p` as a pattern.
    RefMutPat,
    /// `P(a, b)`: the path, then the fields.
    TupleStruct,
    /// `P { a, b: c }`: the path, then the fields.
    Struct,
    /// `a: p` inside a struct pattern: the name, then the pattern.
    Field,
    /// `p | q`.
    Or,
    /// `p: T`.
    Typed,
    /// A statement or an expression: its parts in source order.
    Group,
}

/// What is written at a node.
#[derive(Debug, PartialEq, Eq)]
pub enum NodeKind {
    /// An identifier that stands alone: a binding, a field, a method name.
    Ident(String),
    /// A lifetime, without its apostrophe; `_` is the anonymous lifetime.
    /// `argument` says that it is written as a generic argument, and not as
    /// a bound or a label.
    Lifetime { ident: String, argument: bool },
    /// Syntax that is carried along unread.
    Tokens(Vec<TokenTree>),
    /// `&'a T` or `&'a mut T`; the only child is the referent.
    Reference { lifetime: Option<String>, mutable: bool },
    /// A path; its children are its segments. In a qualified path, such as
    /// `<T as Trait>::Name`, the first child is the qualified type, and
    /// `qself` counts the segments behind it that name the trait.
    Path { position: Position, leading_colon: bool, qself: Option<usize> },
    /// One segment of a path; the children are its generic arguments.
    Segment { ident: String, arguments: Arguments },
    /// `Name = T` or `Name: Bound` among generic arguments.
    Binding(String),
    /// `impl A + B`; the children are the bounds.
    ImplTrait,
    /// `dyn A + B`; the children are the bounds.
    TraitObject,
    /// A trait used as a bound; the last child is its path, and the children
    /// before it are the lifetimes that the bound introduces. `optional` is
    /// the `?` of `?Sized`.
    TraitBound { optional: bool },
    /// `ref mut x @ p`; the child, if any, is the pattern after `@`.
    PatIdent { by_ref: bool, mutable: bool, ident: String },
    /// The use of a macro-like construct; the only child is its path, and the
    /// tokens are its input.
    Macro(Vec<TokenTree>),
    /// A nested, self-contained item. `macro_rules` says that it defines a
    /// local macro.
    Item { macro_rules: bool, tokens: Vec<TokenTree> },
    /// Anything else.
    Shape(Shape),
}

/// A piece of syntax with the pieces below it.
#[derive(Debug, PartialEq, Eq)]
pub struct Node {
    pub kind: NodeKind,
    pub children: Vec<Node>,
}

/// The mathematical value of a [`NodeKind`].
pub enum NodeKindView {
    Ident(Seq<char>),
    Lifetime { ident: Seq<char>, argument: bool },
    Tokens(Seq<TokenTreeView>),
    Reference { lifetime: Option<Seq<char>>, mutable: bool },
    Path { position: Position, leading_colon: bool, qself: Option<usize> },
    Segment { ident: Seq<char>, arguments: Arguments },
    Binding(Seq<char>),
    ImplTrait,
    TraitObject,
    TraitBound { optional: bool },
    PatIdent { by_ref: bool, mutable: bool, ident: Seq<char> },
    Macro(Seq<TokenTreeView>),
    Item { macro_rules: bool, tokens: Seq<TokenTreeView> },
    Shape(Shape),
}

/// The mathematical value of a [`Node`].
pub struct NodeView {
    pub kind: NodeKindView,
    pub children: Seq<NodeView>,
}

impl DeepView for NodeKind {
    type V = NodeKindView;

    open spec fn deep_view(&self) -> NodeKindView {
        match *self {
            NodeKind::Ident(s) => NodeKindView::Ident(s@),
            NodeKind::Lifetime { ident, argument } => NodeKindView::Lifetime {
                ident: ident@,
                argument,
            },
            NodeKind::Tokens(ts) => NodeKindView::Tokens(ts.deep_view()),
            NodeKind::Reference { lifetime, mutable } => NodeKindView::Reference {
                lifetime: lifetime.deep_view(),
                mutable,
            },
            NodeKind::Path { position, leading_colon, qself } => NodeKindView::Path {
                position,
                leading_colon,
                qself,
            },
            NodeKind::Segment { ident, arguments } => NodeKindView::Segment {
                ident: ident@,
                arguments,
            },
            NodeKind::Binding(s) => NodeKindView::Binding(s@),
            NodeKind::ImplTrait => NodeKindView::ImplTrait,
            NodeKind::TraitObject => NodeKindView::TraitObject,
            NodeKind::TraitBound { optional } => NodeKindView::TraitBound { optional },
            NodeKind::PatIdent { by_ref, mutable, ident } => NodeKindView::PatIdent {
                by_ref,
                mutable,
                ident: ident@,
            },
            NodeKind::Macro(ts) => NodeKindView::Macro(ts.deep_view()),
            NodeKind::Item { macro_rules, tokens } => NodeKindView::Item {
                macro_rules,
                tokens: tokens.deep_view(),
            },
            NodeKind::Shape(s) => NodeKindView::Shape(s),
        }
    }
}

impl View for NodeKind {
    type V = NodeKindView;

    open spec fn view(&self) -> NodeKindView {
        self.deep_view()
    }
}

/// The value of one node.
pub open spec fn node_view(n: Node) -> NodeView
    decreases n,
{
    NodeView {
        kind: n.kind.deep_view(),
        children: Seq::new(
            n.children.len() as nat,
            |i: int|
                if 0 <= i < n.children.len() {
                    node_view(n.children[i])
                } else {
                    arbitrary()
                },
        ),
    }
}

impl DeepView for Node {
    type V = NodeView;

    open spec fn deep_view(&self) -> NodeView {
        node_view(*self)
    }
}

impl View for Node {
    type V = NodeView;

    open spec fn view(&self) -> NodeView {
        node_view(*self)
    }
}

/// The value of a node is made of the value of its kind and the values of
/// its children.
pub proof fn lemma_node_view(n: Node)
    ensures
        n@ == (NodeView { kind: n.kind@, children: n.children.deep_view() }),
{
    assert(n@.children =~= n.children.deep_view());
}

impl Clone for NodeKind {
    fn clone(&self) -> (r: NodeKind)
        ensures
            r@ == self@,
    {
        match self {
            NodeKind::Ident(s) => NodeKind::Ident(s.clone()),
            NodeKind::Lifetime { ident, argument } => NodeKind::Lifetime {
                ident: ident.clone(),
                argument: *argument,
            },
            NodeKind::Tokens(ts) => NodeKind::Tokens(clone_tokens(ts)),
            NodeKind::Reference { lifetime, mutable } => {
                let lifetime = match lifetime {
                    Some(l) => Some(l.clone()),
                    None => None,
                };
                NodeKind::Reference { lifetime, mutable: *mutable }
            },
            NodeKind::Path { position, leading_colon, qself } => NodeKind::Path {
                position: *position,
                leading_colon: *leading_colon,
                qself: *qself,
            },
            NodeKind::Segment { ident, arguments } => NodeKind::Segment {
                ident: ident.clone(),
                arguments: *arguments,
            },
            NodeKind::Binding(s) => NodeKind::Binding(s.clone()),
            NodeKind::ImplTrait => NodeKind::ImplTrait,
            NodeKind::TraitObject => NodeKind::TraitObject,
            NodeKind::TraitBound { optional } => NodeKind::TraitBound { optional: *optional },
            NodeKind::PatIdent { by_ref, mutable, ident } => NodeKind::PatIdent {
                by_ref: *by_ref,
                mutable: *mutable,
                ident: ident.clone(),
            },
            NodeKind::Macro(ts) => NodeKind::Macro(clone_tokens(ts)),
            NodeKind::Item { macro_rules, tokens } => NodeKind::Item {
                macro_rules: *macro_rules,
                tokens: clone_tokens(tokens),
            },
            NodeKind::Shape(s) => NodeKind::Shape(*s),
        }
    }
}

impl Clone for Node {
    fn clone(&self) -> (r: Node)
        ensures
            r@ == self@,
        decreases self,
    {
        let kind = self.kind.clone();
        let children = clone_nodes(&self.children);
        let r = Node { kind, children };
        proof {
            lemma_node_view(*self);
            lemma_node_view(r);
        }
        r
    }
}

/// A copy of a sequence of nodes.
pub fn clone_nodes(nodes: &Vec<Node>) -> (r: Vec<Node>)
    ensures
        r.deep_view() == nodes.deep_view(),
    decreases nodes,
{
    let mut out: Vec<Node> = Vec::new();
    let mut i: usize = 0;
    while i < nodes.len()
        invariant
            i <= nodes.len(),
            out.len() == i,
            forall|j: int| 0 <= j < i ==> (#[trigger] out[j])@ == nodes[j]@,
        decreases nodes.len() - i,
    {
        out.push(nodes[i].clone());
        i += 1;
    }
    assert(out.deep_view() =~= nodes.deep_view());
    out
}

impl Node {
    /// A node without children.
    pub fn leaf(kind: NodeKind) -> (r: Node)
        ensures
            r@ == (NodeView { kind: kind@, children: Seq::empty() }),
    {
        let r = Node { kind, children: Vec::new() };
        proof {
            lemma_node_view(r);
            assert(r.children.deep_view() =~= Seq::empty());
        }
        r
    }
}

} // verus!
