//! Replacing the owning-type placeholder `Self` by the concrete type of an
//! implementation.

use crate::decl::{
    Block, BlockView, Capture, CaptureView, FnArg, FnArgView, GenericParam, GenericParamView,
    Generics, GenericsView, ImplicitType, ImplicitTypeView, PatTypeView, ReceiverView,
    ResultBinding, ResultBindingView, ReturnType, ReturnTypeView, Signature, SignatureView,
    WherePredicate, WherePredicateView,
};
use crate::search::{heads_with_self, path_heads_with_self};
use crate::syntax::{clone_nodes, lemma_node_view, Node, NodeKind, NodeKindView, NodeView, Position};
use crate::text::is_text;
use crate::token::{
    clone_tokens, contains_ident, lemma_group_view, mentions, token_view, Delimiter, TokenTree,
    TokenTreeView,
};
use vstd::prelude::*;

verus! {

/// Replaces `Self` by the concrete type of an implementation.
#[derive(Debug, PartialEq, Eq)]
pub struct ReplaceSelfType<'a> {
    /// The concrete type.
    pub with: &'a Node,
    /// The concrete type as tokens, for the input of macro-like constructs.
    pub with_tokens: &'a Vec<TokenTree>,
    /// The interface that is implemented, as a path. Where it is given, an
    /// associated type `Self::Name` is looked up in this interface only.
    pub as_trait: Option<&'a Node>,
}

/// The mathematical value of a [`ReplaceSelfType`].
pub struct ReplaceSelfTypeView {
    pub with: NodeView,
    pub with_tokens: Seq<TokenTreeView>,
    pub as_trait: Option<NodeView>,
}

impl<'a> DeepView for ReplaceSelfType<'a> {
    type V = ReplaceSelfTypeView;

    open spec fn deep_view(&self) -> ReplaceSelfTypeView {
        ReplaceSelfTypeView {
            with: self.with@,
            with_tokens: self.with_tokens.deep_view(),
            as_trait: match self.as_trait {
                Some(p) => Some(p@),
                None => None,
            },
        }
    }
}

impl<'a> View for ReplaceSelfType<'a> {
    type V = ReplaceSelfTypeView;

    open spec fn view(&self) -> ReplaceSelfTypeView {
        self.deep_view()
    }
}

impl ReplaceSelfTypeView {
    /// The segments that name the interface.
    pub open spec fn trait_segments(self) -> Seq<NodeView> {
        match self.as_trait {
            Some(p) => p.children,
            None => Seq::empty(),
        }
    }
}

/// `<Concrete>::rest`, or `<Concrete as Interface>::rest` where `with_trait`
/// is set and the interface is given.
pub open spec fn qualified(
    s: ReplaceSelfTypeView,
    position: Position,
    with_trait: bool,
    rest: Seq<NodeView>,
) -> NodeView {
    let segments = if with_trait {
        s.trait_segments()
    } else {
        Seq::empty()
    };
    NodeView {
        kind: NodeKindView::Path {
            position,
            leading_colon: false,
            qself: Some(segments.len() as usize),
        },
        children: seq![s.with] + segments + rest,
    }
}

/// The path of the concrete type in place of a leading `Self`, followed by
/// `rest`. The number of arguments that the constructor takes is not touched.
/// Where the concrete type is not written as a path, the path stays as it is.
pub open spec fn constructed(
    s: ReplaceSelfTypeView,
    position: Position,
    head: NodeView,
    rest: Seq<NodeView>,
) -> NodeView {
    match s.with.kind {
        NodeKindView::Path { leading_colon, qself, .. } => NodeView {
            kind: NodeKindView::Path { position, leading_colon, qself },
            children: s.with.children + rest,
        },
        _ => NodeView {
            kind: NodeKindView::Path { position, leading_colon: false, qself: None },
            children: seq![head] + rest,
        },
    }
}

/// A token after the substitution: the word `Self` becomes the concrete type
/// in a group without brackets.
pub open spec fn substituted_token(s: ReplaceSelfTypeView, t: TokenTreeView) -> TokenTreeView
    decreases t,
{
    match t {
        TokenTreeView::Ident(w) => if w == "Self"@ {
            TokenTreeView::Group(Delimiter::Invisible, s.with_tokens)
        } else {
            t
        },
        TokenTreeView::Group(d, inner) => TokenTreeView::Group(
            d,
            Seq::new(
                inner.len(),
                |i: int|
                    if 0 <= i < inner.len() {
                        substituted_token(s, inner[i])
                    } else {
                        arbitrary()
                    },
            ),
        ),
        _ => t,
    }
}

/// Tokens after the substitution.
pub open spec fn substituted_tokens(s: ReplaceSelfTypeView, ts: Seq<TokenTreeView>) -> Seq<
    TokenTreeView,
> {
    Seq::new(ts.len(), |i: int| substituted_token(s, ts[i]))
}

/// What is written at a node after the substitution. The input of a
/// macro-like construct is rewritten unless the word `fn` occurs in it: a
/// construct that defines a function may mean another `Self`.
pub open spec fn substituted_kind(s: ReplaceSelfTypeView, kind: NodeKindView) -> NodeKindView {
    match kind {
        NodeKindView::Macro(tokens) => if mentions(tokens, "fn"@) {
            kind
        } else {
            NodeKindView::Macro(substituted_tokens(s, tokens))
        },
        _ => kind,
    }
}

/// A node after the substitution, given the nodes below it after theirs.
pub open spec fn substituted_here(
    s: ReplaceSelfTypeView,
    n: NodeView,
    below: Seq<NodeView>,
) -> NodeView {
    if heads_with_self(n) {
        match n.kind->Path_position {
            Position::Type => if n.children.len() == 1 {
                s.with
            } else {
                qualified(s, Position::Type, true, below.skip(1))
            },
            Position::Expr => if n.children.len() == 1 {
                constructed(s, Position::Expr, below[0], below.skip(1))
            } else {
                qualified(s, Position::Expr, false, below.skip(1))
            },
            Position::Pat => if n.children.len() == 1 {
                constructed(s, Position::Pat, below[0], below.skip(1))
            } else {
                qualified(s, Position::Pat, false, below.skip(1))
            },
            Position::Constructor => constructed(
                s,
                Position::Constructor,
                below[0],
                below.skip(1),
            ),
            Position::Other => NodeView { kind: n.kind, children: below },
        }
    } else {
        NodeView { kind: substituted_kind(s, n.kind), children: below }
    }
}

/// A node after `Self` was replaced in it and below it. A type `Self`
/// becomes the concrete type, and `Self::Name` a path that is qualified by
/// it. As a value, `Self` becomes the path of the concrete type. Nothing
/// inside a nested item is touched.
pub open spec fn substituted(s: ReplaceSelfTypeView, n: NodeView) -> NodeView
    decreases n, 1nat,
{
    if n.kind is Item {
        n
    } else {
        substituted_here(s, n, substituted_below(s, n))
    }
}

/// The nodes below `n` after the substitution in each of them.
pub open spec fn substituted_below(s: ReplaceSelfTypeView, n: NodeView) -> Seq<NodeView>
    decreases n, 0nat,
{
    Seq::new(
        n.children.len(),
        |i: int|
            if 0 <= i < n.children.len() {
                substituted(s, n.children[i])
            } else {
                arbitrary()
            },
    )
}

/// Nodes after the substitution in each of them.
pub open spec fn substituted_all(s: ReplaceSelfTypeView, ns: Seq<NodeView>) -> Seq<NodeView> {
    Seq::new(ns.len(), |i: int| substituted(s, ns[i]))
}

/// Moves all of `more` to the end of `list`.
fn extend_nodes(list: &mut Vec<Node>, more: Vec<Node>)
    ensures
        final(list).deep_view() == old(list).deep_view() + more.deep_view(),
{
    let mut more = more;
    let ghost a = *list;
    let ghost b = more;
    list.append(&mut more);
    proof {
        assert forall|j: int| 0 <= j < a.len() implies #[trigger] list.deep_view()[j]
            == a.deep_view()[j] by {
            assert(list@[j] == a@[j]);
        }
        assert forall|j: int| 0 <= j < b.len() implies #[trigger] list.deep_view()[a.len() + j]
            == b.deep_view()[j] by {
            assert(list@[a.len() + j] == b@[j]);
        }
        assert(list.deep_view() =~= a.deep_view() + b.deep_view());
    }
}

/// Takes the first node away and returns the others.
fn behind_first(nodes: &mut Vec<Node>) -> (r: Vec<Node>)
    requires
        old(nodes).len() >= 1,
    ensures
        r.deep_view() == old(nodes).deep_view().skip(1),
{
    let ghost before = *nodes;
    let _ = nodes.remove(0);
    let mut rest: Vec<Node> = Vec::new();
    core::mem::swap(nodes, &mut rest);
    proof {
        assert forall|j: int| 0 <= j < rest.len() implies #[trigger] rest.deep_view()[j]
            == before.deep_view().skip(1)[j] by {
            assert(rest@[j] == before@[j + 1]);
        }
        assert(rest.deep_view() =~= before.deep_view().skip(1));
    }
    rest
}

impl ReplaceSelfType<'_> {
    fn substitute_tokens(&self, tokens: &mut Vec<TokenTree>)
        ensures
            final(tokens).deep_view() == substituted_tokens(self@, old(tokens).deep_view()),
        decreases *old(tokens),
    {
        let ghost orig = *tokens;
        let ghost ov = tokens.deep_view();
        let mut i: usize = 0;
        while i < tokens.len()
            invariant
                i <= tokens.len(),
                tokens.len() == orig.len(),
                orig == *old(tokens),
                ov == orig.deep_view(),
                forall|j: int|
                    0 <= j < i ==> #[trigger] tokens.deep_view()[j] == substituted_token(
                        self@,
                        ov[j],
                    ),
                forall|j: int| i <= j < tokens.len() ==> #[trigger] tokens@[j] == orig@[j],
            decreases tokens.len() - i,
        {
            let ghost before = *tokens;
            let is_self = match &tokens[i] {
                TokenTree::Ident(w) => is_text(w, "Self"),
                _ => false,
            };
            if is_self {
                let inner = clone_tokens(self.with_tokens);
                proof {
                    lemma_group_view(Delimiter::Invisible, inner);
                }
                tokens[i] = TokenTree::Group(Delimiter::Invisible, inner);
            } else {
                match &mut tokens[i] {
                    TokenTree::Group(d, inner) => {
                        proof {
                            lemma_group_view(*d, *inner);
                        }
                        let ghost inner_before = *inner;
                        self.substitute_tokens(inner);
                        proof {
                            lemma_group_view(*d, *inner);
                            assert(substituted_token(
                                self@,
                                token_view(TokenTree::Group(*d, inner_before)),
                            )->Group_1 =~= substituted_tokens(self@, inner_before.deep_view()));
                        }
                    },
                    _ => {},
                }
            }
            proof {
                assert forall|j: int| 0 <= j < i implies #[trigger] tokens.deep_view()[j]
                    == substituted_token(self@, ov[j]) by {
                    assert(tokens@[j] == before@[j]);
                    assert(tokens.deep_view()[j] == before.deep_view()[j]);
                }
                assert(before@[i as int] == orig@[i as int]);
                assert(ov[i as int] == token_view(orig@[i as int]));
                assert(tokens.deep_view()[i as int] == token_view(tokens@[i as int]));
            }
            i += 1;
        }
        assert(tokens.deep_view() =~= substituted_tokens(self@, ov));
    }

    /// Replaces `Self` in a sequence of tokens, inside groups too.
    pub fn visit_token_stream(&self, tokens: Vec<TokenTree>) -> (r: Vec<TokenTree>)
        ensures
            r.deep_view() == substituted_tokens(self@, tokens.deep_view()),
    {
        let mut tokens = tokens;
        self.substitute_tokens(&mut tokens);
        tokens
    }

    fn trait_segments(&self) -> (r: Vec<Node>)
        ensures
            r.deep_view() == self@.trait_segments(),
    {
        match self.as_trait {
            Some(p) => {
                proof {
                    lemma_node_view(*p);
                }
                clone_nodes(&p.children)
            },
            None => {
                let r: Vec<Node> = Vec::new();
                assert(r.deep_view() =~= Seq::<NodeView>::empty());
                r
            },
        }
    }

    fn qualify(&self, position: Position, with_trait: bool, rest: Vec<Node>) -> (r: Node)
        ensures
            r@ == qualified(self@, position, with_trait, rest.deep_view()),
    {
        let segments = if with_trait {
            self.trait_segments()
        } else {
            let r: Vec<Node> = Vec::new();
            assert(r.deep_view() =~= Seq::<NodeView>::empty());
            r
        };
        let count = segments.len();
        assert(count == segments.deep_view().len());
        let mut children: Vec<Node> = Vec::new();
        children.push(self.with.clone());
        assert(children.deep_view() =~= seq![self.with@]);
        extend_nodes(&mut children, segments);
        extend_nodes(&mut children, rest);
        let r = Node {
            kind: NodeKind::Path { position, leading_colon: false, qself: Some(count) },
            children,
        };
        proof {
            lemma_node_view(r);
        }
        r
    }

    fn construct(&self, position: Position, head: Node, rest: Vec<Node>) -> (r: Node)
        ensures
            r@ == constructed(self@, position, head@, rest.deep_view()),
    {
        proof {
            lemma_node_view(*self.with);
        }
        match &self.with.kind {
            NodeKind::Path { leading_colon, qself, .. } => {
                let mut children = clone_nodes(&self.with.children);
                extend_nodes(&mut children, rest);
                let r = Node {
                    kind: NodeKind::Path {
                        position,
                        leading_colon: *leading_colon,
                        qself: *qself,
                    },
                    children,
                };
                proof {
                    lemma_node_view(r);
                }
                r
            },
            _ => {
                let mut children: Vec<Node> = Vec::new();
                children.push(head);
                assert(children.deep_view() =~= seq![head@]);
                extend_nodes(&mut children, rest);
                let r = Node {
                    kind: NodeKind::Path { position, leading_colon: false, qself: None },
                    children,
                };
                proof {
                    lemma_node_view(r);
                }
                r
            },
        }
    }

    /// Replaces `Self` in `node` and in the nodes below it.
    pub fn visit_node_mut(&self, node: &mut Node)
        ensures
            final(node)@ == substituted(self@, old(node)@),
        decreases *old(node),
    {
        let ghost before = old(node)@;
        proof {
            lemma_node_view(*old(node));
        }
        let nested = match &node.kind {
            NodeKind::Item { .. } => true,
            _ => false,
        };
        if nested {
            return ;
        }
        assert(!(before.kind is Item));
        let heads = path_heads_with_self(node);
        let ghost kind = node.kind;
        let ghost orig = node.children;
        let ghost ov = before.children;
        let mut i: usize = 0;
        while i < node.children.len()
            invariant
                i <= node.children.len(),
                node.children.len() == orig.len(),
                node.kind == kind,
                ov == orig.deep_view(),
                forall|j: int|
                    0 <= j < i ==> #[trigger] node.children.deep_view()[j] == substituted(
                        self@,
                        ov[j],
                    ),
                forall|j: int| i <= j < node.children.len() ==> #[trigger] node.children@[j] == orig@[j],
                decreases_to!(*old(node) => orig),
            decreases node.children.len() - i,
        {
            let ghost children_before = node.children;
            self.visit_node_mut(&mut node.children[i]);
            proof {
                assert forall|j: int| 0 <= j < i implies #[trigger] node.children.deep_view()[j]
                    == substituted(self@, ov[j]) by {
                    assert(node.children@[j] == children_before@[j]);
                    assert(node.children.deep_view()[j] == children_before.deep_view()[j]);
                }
            }
            i += 1;
        }
        let ghost below = node.children.deep_view();
        assert(below =~= substituted_below(self@, before));
        if heads {
            let position = match &node.kind {
                NodeKind::Path { position, .. } => *position,
                _ => Position::Other,
            };
            let alone = node.children.len() == 1;
            match position {
                Position::Type => {
                    if alone {
                        *node = self.with.clone();
                    } else {
                        let rest = behind_first(&mut node.children);
                        *node = self.qualify(Position::Type, true, rest);
                    }
                },
                Position::Expr | Position::Pat => {
                    let head = node.children[0].clone();
                    let rest = behind_first(&mut node.children);
                    if alone {
                        *node = self.construct(position, head, rest);
                    } else {
                        *node = self.qualify(position, false, rest);
                    }
                },
                Position::Constructor => {
                    let head = node.children[0].clone();
                    let rest = behind_first(&mut node.children);
                    *node = self.construct(position, head, rest);
                },
                Position::Other => {
                    proof {
                        lemma_node_view(*node);
                    }
                },
            }
        } else {
            match &mut node.kind {
                NodeKind::Macro(tokens) => {
                    if !contains_ident(tokens, "fn") {
                        self.substitute_tokens(tokens);
                    }
                },
                _ => {},
            }
            proof {
                lemma_node_view(*node);
            }
        }
    }

    /// Replaces `Self` in each of `nodes`.
    pub fn visit_nodes_mut(&self, nodes: &mut Vec<Node>)
        ensures
            final(nodes).deep_view() == substituted_all(self@, old(nodes).deep_view()),
    {
        let ghost ov = nodes.deep_view();
        let mut i: usize = 0;
        while i < nodes.len()
            invariant
                i <= nodes.len(),
                nodes.len() == ov.len(),
                forall|j: int|
                    0 <= j < i ==> #[trigger] nodes.deep_view()[j] == substituted(self@, ov[j]),
                forall|j: int| i <= j < nodes.len() ==> #[trigger] nodes.deep_view()[j] == ov[j],
            decreases nodes.len() - i,
        {
            let ghost before = *nodes;
            self.visit_node_mut(&mut nodes[i]);
            proof {
                assert forall|j: int| 0 <= j < nodes.len() && j != i implies #[trigger] nodes.deep_view()[j]
                    == before.deep_view()[j] by {
                    assert(nodes@[j] == before@[j]);
                }
                assert(before.deep_view()[i as int] == ov[i as int]);
            }
            i += 1;
        }
        assert(nodes.deep_view() =~= substituted_all(self@, ov));
    }
}

/// A node that may be absent, after the substitution.
pub open spec fn substituted_opt(s: ReplaceSelfTypeView, n: Option<NodeView>) -> Option<NodeView> {
    match n {
        Some(n) => Some(substituted(s, n)),
        None => None,
    }
}

/// A generic parameter after the substitution in its bounds and types.
pub open spec fn substituted_param(s: ReplaceSelfTypeView, p: GenericParamView) -> GenericParamView {
    match p {
        GenericParamView::Lifetime { .. } => p,
        GenericParamView::Type { ident, bounds, default } => GenericParamView::Type {
            ident,
            bounds: substituted_all(s, bounds),
            default: substituted_opt(s, default),
        },
        GenericParamView::Const { ident, ty, value } => GenericParamView::Const {
            ident,
            ty: substituted(s, ty),
            value,
        },
    }
}

/// A constraint after the substitution in its types and bounds.
pub open spec fn substituted_predicate(
    s: ReplaceSelfTypeView,
    p: WherePredicateView,
) -> WherePredicateView {
    match p {
        WherePredicateView::Lifetime { .. } => p,
        WherePredicateView::Type { lifetimes, bounded, bounds } => WherePredicateView::Type {
            lifetimes,
            bounded: substituted(s, bounded),
            bounds: substituted_all(s, bounds),
        },
    }
}

/// A parameter after the substitution in its pattern and its type.
pub open spec fn substituted_arg(s: ReplaceSelfTypeView, a: FnArgView) -> FnArgView {
    match a {
        FnArgView::Receiver(r) => FnArgView::Receiver(
            ReceiverView {
                reference: r.reference,
                mutable: r.mutable,
                ty: substituted_opt(s, r.ty),
            },
        ),
        FnArgView::Typed(t) => FnArgView::Typed(
            PatTypeView { attrs: t.attrs, pat: substituted(s, t.pat), ty: substituted(s, t.ty) },
        ),
    }
}

/// A return type after the substitution.
pub open spec fn substituted_output(s: ReplaceSelfTypeView, o: ReturnTypeView) -> ReturnTypeView {
    match o {
        ReturnTypeView::Type(t) => ReturnTypeView::Type(substituted(s, t)),
        ReturnTypeView::Boxed { output, bounds } => ReturnTypeView::Boxed {
            output: substituted_opt(s, output),
            bounds,
        },
        _ => o,
    }
}

/// A signature after `Self` was replaced everywhere in it.
pub open spec fn substituted_signature(s: ReplaceSelfTypeView, sig: SignatureView) -> SignatureView {
    SignatureView {
        asyncness: sig.asyncness,
        ident: sig.ident,
        generics: substituted_generics(s, sig.generics),
        inputs: Seq::new(sig.inputs.len(), |i: int| substituted_arg(s, sig.inputs[i])),
        output: substituted_output(s, sig.output),
    }
}

/// The generic parameters and constraints after the substitution.
pub open spec fn substituted_generics(s: ReplaceSelfTypeView, g: GenericsView) -> GenericsView {
    GenericsView {
        params: Seq::new(g.params.len(), |i: int| substituted_param(s, g.params[i])),
        predicates: Seq::new(
            g.predicates.len(),
            |i: int| substituted_predicate(s, g.predicates[i]),
        ),
    }
}

/// A binding at the start of a rewritten body after the substitution in its
/// pattern.
pub open spec fn substituted_capture(s: ReplaceSelfTypeView, c: CaptureView) -> CaptureView {
    match c {
        CaptureView::Destructured { attrs, pat, ident } => CaptureView::Destructured {
            attrs,
            pat: substituted(s, pat),
            ident,
        },
        _ => c,
    }
}

/// The binding of the result after the substitution in its type.
pub open spec fn substituted_result(
    s: ReplaceSelfTypeView,
    r: ResultBindingView,
) -> ResultBindingView {
    match r {
        ResultBindingView::Typed(t) => ResultBindingView::Typed(substituted(s, t)),
        _ => r,
    }
}

/// A body after `Self` was replaced in its statements and, where it was
/// rewritten, in its bindings.
pub open spec fn substituted_block(s: ReplaceSelfTypeView, b: BlockView) -> BlockView {
    match b {
        BlockView::Written(stmts) => BlockView::Written(substituted_all(s, stmts)),
        BlockView::Deferred { boxed, captures, result, stmts } => BlockView::Deferred {
            boxed,
            captures: Seq::new(captures.len(), |i: int| substituted_capture(s, captures[i])),
            result: substituted_result(s, result),
            stmts: substituted_all(s, stmts),
        },
    }
}

/// An emitted associated type after the substitution in its constraints and
/// in what its computation yields.
pub open spec fn substituted_type(s: ReplaceSelfTypeView, t: ImplicitTypeView) -> ImplicitTypeView {
    ImplicitTypeView {
        side: t.side,
        ident: t.ident,
        generics: substituted_generics(s, t.generics),
        output: substituted_opt(s, t.output),
        bounds: t.bounds,
        method: t.method,
    }
}

impl ReplaceSelfType<'_> {
    fn visit_opt_mut(&self, node: &mut Option<Node>)
        ensures
            final(node).deep_view() == substituted_opt(self@, old(node).deep_view()),
    {
        match node {
            Some(n) => {
                self.visit_node_mut(n);
            },
            None => {},
        }
    }

    fn visit_param_mut(&self, p: &mut GenericParam)
        ensures
            final(p)@ == substituted_param(self@, old(p)@),
    {
        match p {
            GenericParam::Lifetime { .. } => {},
            GenericParam::Type { bounds, default, .. } => {
                self.visit_nodes_mut(bounds);
                self.visit_opt_mut(default);
            },
            GenericParam::Const { ty, .. } => {
                self.visit_node_mut(ty);
            },
        }
    }

    fn visit_predicate_mut(&self, p: &mut WherePredicate)
        ensures
            final(p)@ == substituted_predicate(self@, old(p)@),
    {
        match p {
            WherePredicate::Lifetime { .. } => {},
            WherePredicate::Type { bounded, bounds, .. } => {
                self.visit_node_mut(bounded);
                self.visit_nodes_mut(bounds);
            },
        }
    }

    fn visit_arg_mut(&self, a: &mut FnArg)
        ensures
            final(a)@ == substituted_arg(self@, old(a)@),
    {
        match a {
            FnArg::Receiver(r) => {
                self.visit_opt_mut(&mut r.ty);
            },
            FnArg::Typed(t) => {
                self.visit_node_mut(&mut t.pat);
                self.visit_node_mut(&mut t.ty);
            },
        }
    }

    fn visit_generics_mut(&self, g: &mut Generics)
        ensures
            final(g)@ == substituted_generics(self@, old(g)@),
    {
        let ghost pv = g.params.deep_view();
        let mut i: usize = 0;
        while i < g.params.len()
            invariant
                i <= g.params.len(),
                g.params.len() == pv.len(),
                g.predicates == old(g).predicates,
                forall|j: int|
                    0 <= j < i ==> #[trigger] g.params.deep_view()[j] == substituted_param(
                        self@,
                        pv[j],
                    ),
                forall|j: int| i <= j < g.params.len() ==> #[trigger] g.params.deep_view()[j] == pv[j],
            decreases g.params.len() - i,
        {
            let ghost before = g.params;
            assert(before.deep_view()[i as int] == pv[i as int]);
            self.visit_param_mut(&mut g.params[i]);
            proof {
                assert forall|j: int| 0 <= j < g.params.len() && j != i implies #[trigger] g.params.deep_view()[j]
                    == before.deep_view()[j] by {
                    assert(g.params@[j] == before@[j]);
                }
            }
            i += 1;
        }
        assert(g.params.deep_view() =~= Seq::new(
            pv.len(),
            |i: int| substituted_param(self@, pv[i]),
        ));
        let ghost qv = g.predicates.deep_view();
        let ghost params_done = g.params;
        let mut k: usize = 0;
        while k < g.predicates.len()
            invariant
                k <= g.predicates.len(),
                g.predicates.len() == qv.len(),
                g.params == params_done,
                forall|j: int|
                    0 <= j < k ==> #[trigger] g.predicates.deep_view()[j] == substituted_predicate(
                        self@,
                        qv[j],
                    ),
                forall|j: int|
                    k <= j < g.predicates.len() ==> #[trigger] g.predicates.deep_view()[j] == qv[j],
            decreases g.predicates.len() - k,
        {
            let ghost before = g.predicates;
            assert(before.deep_view()[k as int] == qv[k as int]);
            self.visit_predicate_mut(&mut g.predicates[k]);
            proof {
                assert forall|j: int| 0 <= j < g.predicates.len() && j != k implies #[trigger] g.predicates.deep_view()[j]
                    == before.deep_view()[j] by {
                    assert(g.predicates@[j] == before@[j]);
                }
            }
            k += 1;
        }
        assert(g.predicates.deep_view() =~= Seq::new(
            qv.len(),
            |i: int| substituted_predicate(self@, qv[i]),
        ));
    }

    fn visit_inputs_mut(&self, inputs: &mut Vec<FnArg>)
        ensures
            final(inputs).deep_view() == Seq::new(
                old(inputs).len() as nat,
                |i: int| substituted_arg(self@, old(inputs).deep_view()[i]),
            ),
    {
        let ghost ov = inputs.deep_view();
        let mut i: usize = 0;
        while i < inputs.len()
            invariant
                i <= inputs.len(),
                inputs.len() == ov.len(),
                forall|j: int|
                    0 <= j < i ==> #[trigger] inputs.deep_view()[j] == substituted_arg(
                        self@,
                        ov[j],
                    ),
                forall|j: int| i <= j < inputs.len() ==> #[trigger] inputs.deep_view()[j] == ov[j],
            decreases inputs.len() - i,
        {
            let ghost before = *inputs;
            assert(before.deep_view()[i as int] == ov[i as int]);
            self.visit_arg_mut(&mut inputs[i]);
            proof {
                assert forall|j: int| 0 <= j < inputs.len() && j != i implies #[trigger] inputs.deep_view()[j]
                    == before.deep_view()[j] by {
                    assert(inputs@[j] == before@[j]);
                }
            }
            i += 1;
        }
        assert(inputs.deep_view() =~= Seq::new(ov.len(), |i: int| substituted_arg(self@, ov[i])));
    }

    /// Replaces `Self` everywhere in a signature: in the bounds of its
    /// generic parameters, in its constraints, in the patterns and types of
    /// its parameters, and in its return type.
    pub fn visit_signature_mut(&self, sig: &mut Signature)
        ensures
            final(sig)@ == substituted_signature(self@, old(sig)@),
    {
        self.visit_generics_mut(&mut sig.generics);
        self.visit_inputs_mut(&mut sig.inputs);
        match &mut sig.output {
            ReturnType::Type(t) => {
                self.visit_node_mut(t);
            },
            ReturnType::Boxed { output, .. } => {
                self.visit_opt_mut(output);
            },
            _ => {},
        }
    }

    fn visit_captures_mut(&self, captures: &mut Vec<Capture>)
        ensures
            final(captures).deep_view() == Seq::new(
                old(captures).len() as nat,
                |i: int| substituted_capture(self@, old(captures).deep_view()[i]),
            ),
    {
        let ghost ov = captures.deep_view();
        let mut i: usize = 0;
        while i < captures.len()
            invariant
                i <= captures.len(),
                captures.len() == ov.len(),
                forall|j: int|
                    0 <= j < i ==> #[trigger] captures.deep_view()[j] == substituted_capture(
                        self@,
                        ov[j],
                    ),
                forall|j: int| i <= j < captures.len() ==> #[trigger] captures.deep_view()[j] == ov[j],
            decreases captures.len() - i,
        {
            let ghost before = *captures;
            assert(before.deep_view()[i as int] == ov[i as int]);
            match &mut captures[i] {
                Capture::Destructured { pat, .. } => {
                    self.visit_node_mut(pat);
                },
                _ => {},
            }
            proof {
                assert forall|j: int| 0 <= j < captures.len() && j != i implies #[trigger] captures.deep_view()[j]
                    == before.deep_view()[j] by {
                    assert(captures@[j] == before@[j]);
                }
            }
            i += 1;
        }
        assert(captures.deep_view() =~= Seq::new(
            ov.len(),
            |i: int| substituted_capture(self@, ov[i]),
        ));
    }

    /// Replaces `Self` in every statement of a body and, where the body was
    /// rewritten, in its bindings.
    pub fn visit_block_mut(&self, block: &mut Block)
        ensures
            final(block)@ == substituted_block(self@, old(block)@),
    {
        match block {
            Block::Written(stmts) => {
                self.visit_nodes_mut(stmts);
            },
            Block::Deferred { captures, result, stmts, .. } => {
                self.visit_captures_mut(captures);
                match result {
                    ResultBinding::Typed(t) => {
                        self.visit_node_mut(t);
                    },
                    _ => {},
                }
                self.visit_nodes_mut(stmts);
            },
        }
    }

    /// Replaces `Self` in an emitted associated type.
    pub fn visit_type_mut(&self, ty: &mut ImplicitType)
        ensures
            final(ty)@ == substituted_type(self@, old(ty)@),
    {
        self.visit_generics_mut(&mut ty.generics);
        self.visit_opt_mut(&mut ty.output);
    }
}

} // verus!
