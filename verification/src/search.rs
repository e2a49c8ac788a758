//! Looking through a syntax tree for the first node of a wanted kind.

use crate::decl::{
    Block, BlockView, FnArg, FnArgView, GenericParam, GenericParamView, Generics, GenericsView,
    ReturnType, ReturnTypeView, Signature, SignatureView, WherePredicate, WherePredicateView,
};
use crate::syntax::{lemma_node_view, Arguments, Node, NodeKind, NodeKindView, NodeView, Position};
use crate::text::is_text;
use crate::token::{contains_ident, mentions};
use vstd::prelude::*;

verus! {

/// What a search looks for.
#[derive(Debug, PartialEq, Eq)]
pub enum Query<'a> {
    /// A lifetime with the name of the task lifetime.
    TaskLifetime,
    /// A use of the owning-type placeholder `Self`: at the head of a path
    /// that is a type, an expression or a pattern, or in the input of a
    /// macro-like construct.
    OwningType,
    /// A binding that is declared `mut`.
    MutableBinding,
    /// A type `Self::Name` where `Name` is one of the given names.
    AssociatedType(&'a Vec<String>),
    /// A use of `Self` as a value: as a constructor, or alone as an
    /// expression or a pattern.
    ValueSelf,
}

/// The mathematical value of a [`Query`].
pub enum QueryView {
    TaskLifetime,
    OwningType,
    MutableBinding,
    AssociatedType(Seq<Seq<char>>),
    ValueSelf,
}

impl<'a> DeepView for Query<'a> {
    type V = QueryView;

    open spec fn deep_view(&self) -> QueryView {
        match *self {
            Query::TaskLifetime => QueryView::TaskLifetime,
            Query::OwningType => QueryView::OwningType,
            Query::MutableBinding => QueryView::MutableBinding,
            Query::AssociatedType(names) => QueryView::AssociatedType(names.deep_view()),
            Query::ValueSelf => QueryView::ValueSelf,
        }
    }
}

impl<'a> View for Query<'a> {
    type V = QueryView;

    open spec fn view(&self) -> QueryView {
        self.deep_view()
    }
}

/// The name of the task lifetime, without its apostrophe.
pub open spec fn task_lifetime() -> Seq<char> {
    "async_trait"@
}

/// Whether the node is a path segment with the given name.
pub open spec fn is_segment(n: NodeView, name: Seq<char>) -> bool {
    n.kind matches NodeKindView::Segment { ident, .. } && ident == name
}

/// Whether the node is a path segment whose name is one of `names`.
pub open spec fn is_segment_among(n: NodeView, names: Seq<Seq<char>>) -> bool {
    n.kind matches NodeKindView::Segment { ident, .. } && names.contains(ident)
}

/// Whether `n` is a segment named `name` without generic arguments.
pub open spec fn is_plain_segment(n: NodeView, name: Seq<char>) -> bool {
    n.kind == (NodeKindView::Segment { ident: name, arguments: Arguments::Absent })
}

/// Whether `n` is an unqualified path that starts with the bare word `Self`.
pub open spec fn heads_with_self(n: NodeView) -> bool {
    n.kind matches NodeKindView::Path { leading_colon, qself, .. } && !leading_colon && qself is None
        && n.children.len() >= 1 && is_plain_segment(n.children[0], "Self"@)
}

/// Whether `n` is a path that uses `Self` as a value.
pub open spec fn is_value_self(n: NodeView) -> bool {
    heads_with_self(n) && (n.kind matches NodeKindView::Path { position, .. } && (position
        == Position::Constructor || ((position == Position::Expr || position == Position::Pat)
        && n.children.len() == 1)))
}

/// The place of the first segment among the children of a path.
pub open spec fn head_index(qself: Option<usize>) -> int {
    if qself is Some {
        1
    } else {
        0
    }
}

/// Whether the node itself is what the query looks for.
pub open spec fn hit(q: QueryView, n: NodeView) -> bool {
    match q {
        QueryView::TaskLifetime => match n.kind {
            NodeKindView::Reference { lifetime, .. } => lifetime == Some(task_lifetime()),
            NodeKindView::Lifetime { ident, .. } => ident == task_lifetime(),
            _ => false,
        },
        QueryView::OwningType => match n.kind {
            NodeKindView::Path { position, qself, .. } => (position == Position::Type
                || position == Position::Expr || position == Position::Pat) && head_index(qself) < n.children.len() && is_segment(
                n.children[head_index(qself)],
                "Self"@,
            ),
            NodeKindView::Macro(tokens) => !mentions(tokens, "fn"@) && mentions(tokens, "Self"@),
            _ => false,
        },
        QueryView::MutableBinding => n.kind matches NodeKindView::PatIdent { mutable, .. }
            && mutable,
        QueryView::AssociatedType(names) => n.kind matches NodeKindView::Path {
            position,
            qself,
            ..
        } && position == Position::Type && qself is None && n.children.len() == 2 && is_segment(
            n.children[0],
            "Self"@,
        ) && is_segment_among(n.children[1], names),
        QueryView::ValueSelf => is_value_self(n),
    }
}

/// Whether the search goes on below a node of this kind. A nested item is
/// self-contained; the input of a macro-like construct is judged as a whole.
pub open spec fn enters(q: QueryView, kind: NodeKindView) -> bool {
    match q {
        QueryView::TaskLifetime => !(kind is Item),
        QueryView::OwningType => !(kind is Item) && !(kind is Macro),
        QueryView::MutableBinding => true,
        QueryView::AssociatedType(_) => true,
        QueryView::ValueSelf => !(kind is Item) && !(kind is Macro),
    }
}

/// Whether `n`, or a node below it that the search reaches, is a hit.
pub open spec fn found(q: QueryView, n: NodeView) -> bool
    decreases n,
{
    hit(q, n) || (enters(q, n.kind) && exists|i: int|
        0 <= i < n.children.len() && found(q, #[trigger] n.children[i]))
}

/// Whether the search finds a hit in one of `ns`.
pub open spec fn found_any(q: QueryView, ns: Seq<NodeView>) -> bool {
    exists|i: int| 0 <= i < ns.len() && found(q, #[trigger] ns[i])
}

/// Whether one of `names` is spelled as `name`.
pub fn contains_name(names: &Vec<String>, name: &String) -> (r: bool)
    ensures
        r == names.deep_view().contains(name@),
{
    let mut i: usize = 0;
    while i < names.len()
        invariant
            i <= names.len(),
            forall|j: int| 0 <= j < i ==> names.deep_view()[j] != name@,
        decreases names.len() - i,
    {
        if names[i] == *name {
            assert(names.deep_view()[i as int] == name@);
            return true;
        }
        i += 1;
    }
    false
}

fn segment_is(n: &Node, name: &str) -> (r: bool)
    ensures
        r == is_segment(n@, name@),
{
    match &n.kind {
        NodeKind::Segment { ident, .. } => is_text(ident, name),
        _ => false,
    }
}

fn segment_among(n: &Node, names: &Vec<String>) -> (r: bool)
    ensures
        r == is_segment_among(n@, names.deep_view()),
{
    match &n.kind {
        NodeKind::Segment { ident, .. } => contains_name(names, ident),
        _ => false,
    }
}

/// Whether `n` is a segment named `name` without generic arguments.
pub fn plain_segment(n: &Node, name: &str) -> (r: bool)
    ensures
        r == is_plain_segment(n@, name@),
{
    match &n.kind {
        NodeKind::Segment { ident, arguments } => {
            let absent = match arguments {
                Arguments::Absent => true,
                _ => false,
            };
            absent && is_text(ident, name)
        },
        _ => false,
    }
}

/// Whether `n` is an unqualified path that starts with the bare word `Self`.
pub fn path_heads_with_self(n: &Node) -> (r: bool)
    ensures
        r == heads_with_self(n@),
{
    proof {
        lemma_node_view(*n);
    }
    match &n.kind {
        NodeKind::Path { leading_colon, qself, .. } => !*leading_colon && qself.is_none()
            && n.children.len() >= 1 && plain_segment(&n.children[0], "Self"),
        _ => false,
    }
}

fn value_self(n: &Node) -> (r: bool)
    ensures
        r == is_value_self(n@),
{
    proof {
        lemma_node_view(*n);
    }
    if !path_heads_with_self(n) {
        return false;
    }
    match &n.kind {
        NodeKind::Path { position, .. } => match position {
            Position::Constructor => true,
            Position::Expr | Position::Pat => n.children.len() == 1,
            _ => false,
        },
        _ => false,
    }
}

fn is_hit(n: &Node, q: &Query) -> (r: bool)
    ensures
        r == hit(q@, n@),
{
    proof {
        lemma_node_view(*n);
    }
    match q {
        Query::TaskLifetime => match &n.kind {
            NodeKind::Reference { lifetime, .. } => match lifetime {
                Some(l) => is_text(l, "async_trait"),
                None => false,
            },
            NodeKind::Lifetime { ident, .. } => is_text(ident, "async_trait"),
            _ => false,
        },
        Query::OwningType => match &n.kind {
            NodeKind::Path { position, qself, .. } => {
                let head: usize = if qself.is_some() {
                    1
                } else {
                    0
                };
                match position {
                    Position::Type | Position::Expr | Position::Pat => head < n.children.len()
                        && segment_is(&n.children[head], "Self"),
                    _ => false,
                }
            },
            NodeKind::Macro(tokens) => !contains_ident(tokens, "fn") && contains_ident(
                tokens,
                "Self",
            ),
            _ => false,
        },
        Query::MutableBinding => match &n.kind {
            NodeKind::PatIdent { mutable, .. } => *mutable,
            _ => false,
        },
        Query::AssociatedType(names) => match &n.kind {
            NodeKind::Path { position, qself, .. } => {
                let in_type = match position {
                    Position::Type => true,
                    _ => false,
                };
                in_type && qself.is_none() && n.children.len() == 2 && segment_is(&n.children[0], "Self")
                    && segment_among(&n.children[1], names)
            },
            _ => false,
        },
        Query::ValueSelf => value_self(n),
    }
}

fn goes_below(kind: &NodeKind, q: &Query) -> (r: bool)
    ensures
        r == enters(q@, kind@),
{
    match q {
        Query::TaskLifetime => match kind {
            NodeKind::Item { .. } => false,
            _ => true,
        },
        Query::OwningType => match kind {
            NodeKind::Item { .. } => false,
            NodeKind::Macro(_) => false,
            _ => true,
        },
        Query::MutableBinding => true,
        Query::AssociatedType(_) => true,
        Query::ValueSelf => match kind {
            NodeKind::Item { .. } => false,
            NodeKind::Macro(_) => false,
            _ => true,
        },
    }
}

/// Searches `n` and the nodes below it.
pub fn search(n: &Node, q: &Query) -> (r: bool)
    ensures
        r == found(q@, n@),
    decreases n,
{
    proof {
        lemma_node_view(*n);
    }
    if is_hit(n, q) {
        return true;
    }
    if !goes_below(&n.kind, q) {
        return false;
    }
    let r = search_any(&n.children, q);
    proof {
        let below = n.children.deep_view();
        if r {
            let i = choose|i: int| 0 <= i < below.len() && found(q@, #[trigger] below[i]);
            assert(found(q@, n@.children[i]));
        } else {
            assert forall|i: int| 0 <= i < n@.children.len() implies !found(
                q@,
                #[trigger] n@.children[i],
            ) by {
                assert(!found(q@, below[i]));
            }
        }
    }
    r
}

/// Searches each of `ns`.
pub fn search_any(ns: &Vec<Node>, q: &Query) -> (r: bool)
    ensures
        r == found_any(q@, ns.deep_view()),
    decreases ns,
{
    let mut i: usize = 0;
    while i < ns.len()
        invariant
            i <= ns.len(),
            forall|j: int| 0 <= j < i ==> !found(q@, #[trigger] ns.deep_view()[j]),
        decreases ns.len() - i,
    {
        if search(&ns[i], q) {
            assert(found(q@, ns.deep_view()[i as int]));
            return true;
        }
        i += 1;
    }
    false
}

/// Whether a lifetime that is written by name alone is what the query looks
/// for.
pub open spec fn name_hit(q: QueryView, name: Seq<char>) -> bool {
    q is TaskLifetime && name == task_lifetime()
}

/// Whether one of the lifetimes `names` is a hit.
pub open spec fn names_hit(q: QueryView, names: Seq<Seq<char>>) -> bool {
    exists|i: int| 0 <= i < names.len() && name_hit(q, #[trigger] names[i])
}

/// Whether the search finds a hit in a node that may be absent.
pub open spec fn found_opt(q: QueryView, n: Option<NodeView>) -> bool {
    n matches Some(n) && found(q, n)
}

/// Whether the search finds a hit in a generic parameter.
pub open spec fn param_found(q: QueryView, p: GenericParamView) -> bool {
    match p {
        GenericParamView::Lifetime { ident, outlives } => name_hit(q, ident) || names_hit(
            q,
            outlives,
        ),
        GenericParamView::Type { bounds, default, .. } => found_any(q, bounds) || found_opt(
            q,
            default,
        ),
        GenericParamView::Const { ty, .. } => found(q, ty),
    }
}

/// Whether the search finds a hit in a constraint.
pub open spec fn predicate_found(q: QueryView, p: WherePredicateView) -> bool {
    match p {
        WherePredicateView::Lifetime { ident, outlives } => name_hit(q, ident) || names_hit(
            q,
            outlives,
        ),
        WherePredicateView::Type { lifetimes, bounded, bounds } => names_hit(q, lifetimes)
            || found(q, bounded) || found_any(q, bounds),
    }
}

/// Whether the search finds a hit in the parameters or constraints.
pub open spec fn generics_found(q: QueryView, g: GenericsView) -> bool {
    ||| exists|i: int| 0 <= i < g.params.len() && param_found(q, #[trigger] g.params[i])
    ||| exists|i: int| 0 <= i < g.predicates.len() && predicate_found(q, #[trigger] g.predicates[i])
}

/// Whether the search finds a hit in a parameter of a method. A receiver is
/// itself a use of the owning type.
pub open spec fn arg_found(q: QueryView, a: FnArgView) -> bool {
    match a {
        FnArgView::Receiver(r) => q is OwningType || (r.reference matches Some(Some(l))
            && name_hit(q, l)) || found_opt(q, r.ty),
        FnArgView::Typed(t) => found(q, t.pat) || found(q, t.ty),
    }
}

/// Whether the search finds a hit in a return type.
pub open spec fn output_found(q: QueryView, o: ReturnTypeView) -> bool {
    match o {
        ReturnTypeView::Type(t) => found(q, t),
        ReturnTypeView::Boxed { output, .. } => found_opt(q, output),
        _ => false,
    }
}

/// Whether the search finds a hit anywhere in a signature.
pub open spec fn signature_found(q: QueryView, sig: SignatureView) -> bool {
    ||| generics_found(q, sig.generics)
    ||| exists|i: int| 0 <= i < sig.inputs.len() && arg_found(q, #[trigger] sig.inputs[i])
    ||| output_found(q, sig.output)
}

/// Whether the search finds a hit among the statements of a body.
pub open spec fn block_found(q: QueryView, b: BlockView) -> bool {
    match b {
        BlockView::Written(stmts) => found_any(q, stmts),
        BlockView::Deferred { stmts, .. } => found_any(q, stmts),
    }
}

fn is_name_hit(q: &Query, name: &String) -> (r: bool)
    ensures
        r == name_hit(q@, name@),
{
    match q {
        Query::TaskLifetime => is_text(name, "async_trait"),
        _ => false,
    }
}

fn any_name_hit(q: &Query, names: &Vec<String>) -> (r: bool)
    ensures
        r == names_hit(q@, names.deep_view()),
{
    let mut i: usize = 0;
    while i < names.len()
        invariant
            i <= names.len(),
            forall|j: int| 0 <= j < i ==> !name_hit(q@, #[trigger] names.deep_view()[j]),
        decreases names.len() - i,
    {
        if is_name_hit(q, &names[i]) {
            assert(name_hit(q@, names.deep_view()[i as int]));
            return true;
        }
        i += 1;
    }
    false
}

fn search_opt(n: &Option<Node>, q: &Query) -> (r: bool)
    ensures
        r == found_opt(q@, n.deep_view()),
{
    match n {
        Some(n) => search(n, q),
        None => false,
    }
}

fn search_param(p: &GenericParam, q: &Query) -> (r: bool)
    ensures
        r == param_found(q@, p@),
{
    match p {
        GenericParam::Lifetime { ident, outlives } => is_name_hit(q, ident) || any_name_hit(
            q,
            outlives,
        ),
        GenericParam::Type { bounds, default, .. } => search_any(bounds, q) || search_opt(
            default,
            q,
        ),
        GenericParam::Const { ty, .. } => search(ty, q),
    }
}

fn search_predicate(p: &WherePredicate, q: &Query) -> (r: bool)
    ensures
        r == predicate_found(q@, p@),
{
    match p {
        WherePredicate::Lifetime { ident, outlives } => is_name_hit(q, ident) || any_name_hit(
            q,
            outlives,
        ),
        WherePredicate::Type { lifetimes, bounded, bounds } => any_name_hit(q, lifetimes)
            || search(bounded, q) || search_any(bounds, q),
    }
}

/// Searches the parameters and the constraints of a declaration.
pub fn search_generics(g: &Generics, q: &Query) -> (r: bool)
    ensures
        r == generics_found(q@, g@),
{
    let mut i: usize = 0;
    while i < g.params.len()
        invariant
            i <= g.params.len(),
            forall|j: int| 0 <= j < i ==> !param_found(q@, #[trigger] g@.params[j]),
        decreases g.params.len() - i,
    {
        if search_param(&g.params[i], q) {
            assert(param_found(q@, g@.params[i as int]));
            return true;
        }
        i += 1;
    }
    let mut k: usize = 0;
    while k < g.predicates.len()
        invariant
            k <= g.predicates.len(),
            forall|j: int| 0 <= j < g.params.len() ==> !param_found(q@, #[trigger] g@.params[j]),
            forall|j: int| 0 <= j < k ==> !predicate_found(q@, #[trigger] g@.predicates[j]),
        decreases g.predicates.len() - k,
    {
        if search_predicate(&g.predicates[k], q) {
            assert(predicate_found(q@, g@.predicates[k as int]));
            return true;
        }
        k += 1;
    }
    false
}

fn search_arg(a: &FnArg, q: &Query) -> (r: bool)
    ensures
        r == arg_found(q@, a@),
{
    match a {
        FnArg::Receiver(receiver) => {
            let owning = match q {
                Query::OwningType => true,
                _ => false,
            };
            let named = match &receiver.reference {
                Some(Some(l)) => is_name_hit(q, l),
                _ => false,
            };
            owning || named || search_opt(&receiver.ty, q)
        },
        FnArg::Typed(t) => search(&t.pat, q) || search(&t.ty, q),
    }
}

fn search_output(o: &ReturnType, q: &Query) -> (r: bool)
    ensures
        r == output_found(q@, o@),
{
    match o {
        ReturnType::Type(t) => search(t, q),
        ReturnType::Boxed { output, .. } => search_opt(output, q),
        _ => false,
    }
}

/// Searches a whole signature: parameters, constraints, inputs and output.
pub fn search_signature(sig: &Signature, q: &Query) -> (r: bool)
    ensures
        r == signature_found(q@, sig@),
{
    if search_generics(&sig.generics, q) {
        return true;
    }
    let mut i: usize = 0;
    while i < sig.inputs.len()
        invariant
            i <= sig.inputs.len(),
            forall|j: int| 0 <= j < i ==> !arg_found(q@, #[trigger] sig@.inputs[j]),
        decreases sig.inputs.len() - i,
    {
        if search_arg(&sig.inputs[i], q) {
            assert(arg_found(q@, sig@.inputs[i as int]));
            return true;
        }
        i += 1;
    }
    search_output(&sig.output, q)
}

/// Searches the statements of a body.
pub fn search_block(block: &Block, q: &Query) -> (r: bool)
    ensures
        r == block_found(q@, block@),
{
    match block {
        Block::Written(stmts) => search_any(stmts, q),
        Block::Deferred { stmts, .. } => search_any(stmts, q),
    }
}

} // verus!
