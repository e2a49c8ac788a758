//! Rewriting the signature of a deferred method.

use crate::bound::{
    access_mode, access_mode_of, declares_bound, has_bound, infer_bounds, required_bounds,
    AccessMode, InferredBound,
};
use crate::decl::{
    FnArg, FnArgView, FutureBounds, GenericParam, GenericParamView, Generics, GenericsView,
    Outlives, ParamName, ParamNameView, PatTypeView, Receiver, ReceiverView, ReturnType,
    ReturnTypeView, Signature, SignatureView, WherePredicate, WherePredicateView,
};
use crate::expand::{used_lifetimes, Context, ContextView, FutureType};
use crate::implicit::{derive_implicit_type_name, implicit_type_name};
use crate::lifetime::{
    elided_count, explicit_names, fresh_names, lemma_advanced_empty, lemma_advanced_twice,
    lemma_bound_keeps_elisions, lemma_life_names_differ, lemma_named_leaves_no_elision,
    lemma_named_receiver_leaves_no_elision, life_name, lifetime_bound, named, named_receiver,
    receiver_elided_count, receiver_explicit_names, with_impl_trait_bound, AddLifetimeToImplTrait,
    CollectLifetimes,
};
use crate::receiver::mut_pat;
use crate::search::{found, task_lifetime, QueryView};
use crate::syntax::{lemma_node_view, Arguments, Node, NodeKind, NodeKindView, NodeView, Position};
use crate::text::{decimal, numbered};
use vstd::prelude::*;

verus! {

/// The name that stands for the parameter at place `i` where its pattern is
/// not a plain name.
pub open spec fn positional_name(i: nat) -> Seq<char> {
    "__arg"@ + decimal(i)
}

/// The name of the lifetime that bounds the produced computation.
pub open spec fn outlives_name(o: Outlives) -> Seq<char> {
    match o {
        Outlives::Static => "static"@,
        Outlives::Task => task_lifetime(),
    }
}

/// A path segment without generic arguments.
pub open spec fn segment(name: Seq<char>) -> NodeView {
    NodeView {
        kind: NodeKindView::Segment { ident: name, arguments: Arguments::Absent },
        children: Seq::empty(),
    }
}

/// The type that is written as the single word `name`.
pub open spec fn type_path(name: Seq<char>) -> NodeView {
    NodeView {
        kind: NodeKindView::Path { position: Position::Type, leading_colon: false, qself: None },
        children: seq![segment(name)],
    }
}

/// The bound `::core::marker::Send` or `::core::marker::Sync`.
pub open spec fn marker_bound(b: InferredBound) -> NodeView {
    NodeView {
        kind: NodeKindView::TraitBound { optional: false },
        children: seq![
            NodeView {
                kind: NodeKindView::Path {
                    position: Position::Other,
                    leading_colon: true,
                    qself: None,
                },
                children: seq![segment("core"@), segment("marker"@), segment(b.name())],
            },
        ],
    }
}

/// The number of elision sites in a parameter.
pub open spec fn arg_elided(a: FnArgView) -> nat {
    match a {
        FnArgView::Receiver(r) => receiver_elided_count(r),
        FnArgView::Typed(t) => elided_count(t.ty),
    }
}

/// The named lifetimes in a parameter.
pub open spec fn arg_explicit(a: FnArgView) -> Seq<Seq<char>> {
    match a {
        FnArgView::Receiver(r) => receiver_explicit_names(r),
        FnArgView::Typed(t) => explicit_names(t.ty),
    }
}

/// A parameter with each of its elision sites named, starting with the
/// `next`-th invented name.
pub open spec fn arg_named(a: FnArgView, next: nat) -> FnArgView {
    match a {
        FnArgView::Receiver(r) => FnArgView::Receiver(named_receiver(r, next)),
        FnArgView::Typed(t) => FnArgView::Typed(
            PatTypeView { attrs: t.attrs, pat: t.pat, ty: named(t.ty, next) },
        ),
    }
}

/// The number of elision sites in the first `k` parameters.
pub open spec fn inputs_elided(inputs: Seq<FnArgView>, k: nat) -> nat
    decreases k,
{
    if k == 0 || k > inputs.len() {
        0
    } else {
        inputs_elided(inputs, (k - 1) as nat) + arg_elided(inputs[k - 1])
    }
}

/// The named lifetimes in the first `k` parameters, in the order in which
/// they are written.
pub open spec fn inputs_explicit(inputs: Seq<FnArgView>, k: nat) -> Seq<Seq<char>>
    decreases k,
{
    if k == 0 || k > inputs.len() {
        Seq::empty()
    } else {
        inputs_explicit(inputs, (k - 1) as nat) + arg_explicit(inputs[k - 1])
    }
}

/// The parameters with every elision site named, in the order in which the
/// sites are written.
pub open spec fn inputs_named(inputs: Seq<FnArgView>) -> Seq<FnArgView> {
    Seq::new(inputs.len(), |i: int| arg_named(inputs[i], inputs_elided(inputs, i as nat)))
}

/// The constraint that a parameter of reference type adds under the fully
/// parameterized opaque strategy: the referent outlives the reference.
pub open spec fn reference_predicate(a: FnArgView) -> Option<WherePredicateView> {
    match a {
        FnArgView::Typed(t) => match t.ty.kind {
            NodeKindView::Reference { lifetime: Some(l), .. } => if t.ty.children.len() >= 1 {
                Some(
                    WherePredicateView::Type {
                        lifetimes: Seq::empty(),
                        bounded: t.ty.children[0],
                        bounds: seq![lifetime_bound(l)],
                    },
                )
            } else {
                None
            },
            _ => None,
        },
        _ => None,
    }
}

/// The constraints that the first `k` parameters add as references.
pub open spec fn reference_predicates(inputs: Seq<FnArgView>, k: nat) -> Seq<WherePredicateView>
    decreases k,
{
    if k == 0 || k > inputs.len() {
        Seq::empty()
    } else {
        let before = reference_predicates(inputs, (k - 1) as nat);
        match reference_predicate(inputs[k - 1]) {
            Some(p) => before.push(p),
            None => before,
        }
    }
}

/// A parameter under the collapsed opaque strategy: the lifetime of a
/// borrowed receiver, and of a parameter of reference type, is the task
/// lifetime.
pub open spec fn collapsed_arg(a: FnArgView) -> FnArgView {
    match a {
        FnArgView::Receiver(r) => FnArgView::Receiver(
            ReceiverView {
                reference: match r.reference {
                    Some(_) => Some(Some(task_lifetime())),
                    None => None,
                },
                mutable: r.mutable,
                ty: r.ty,
            },
        ),
        FnArgView::Typed(t) => match t.ty.kind {
            NodeKindView::Reference { mutable, .. } => FnArgView::Typed(
                PatTypeView {
                    attrs: t.attrs,
                    pat: t.pat,
                    ty: NodeView {
                        kind: NodeKindView::Reference {
                            lifetime: Some(task_lifetime()),
                            mutable,
                        },
                        children: t.ty.children,
                    },
                },
            ),
            _ => a,
        },
    }
}

/// A generic parameter without its bounds.
pub open spec fn unbounded(p: GenericParamView) -> GenericParamView {
    match p {
        GenericParamView::Lifetime { ident, .. } => GenericParamView::Lifetime {
            ident,
            outlives: Seq::empty(),
        },
        GenericParamView::Type { ident, default, .. } => GenericParamView::Type {
            ident,
            bounds: Seq::empty(),
            default,
        },
        GenericParamView::Const { .. } => p,
    }
}

/// The constraint that takes over the bounds of a generic parameter and
/// asks it to outlive the task lifetime.
pub open spec fn param_predicate(p: GenericParamView) -> Option<WherePredicateView> {
    match p {
        GenericParamView::Lifetime { ident, outlives } => Some(
            WherePredicateView::Lifetime { ident, outlives: seq![task_lifetime()] + outlives },
        ),
        GenericParamView::Type { ident, bounds, .. } => Some(
            WherePredicateView::Type {
                lifetimes: Seq::empty(),
                bounded: type_path(ident),
                bounds: seq![lifetime_bound(task_lifetime())] + bounds,
            },
        ),
        GenericParamView::Const { .. } => None,
    }
}

/// The constraints for the first `k` generic parameters.
pub open spec fn param_predicates(params: Seq<GenericParamView>, k: nat) -> Seq<
    WherePredicateView,
>
    decreases k,
{
    if k == 0 || k > params.len() {
        Seq::empty()
    } else {
        let before = param_predicates(params, (k - 1) as nat);
        match param_predicate(params[k - 1]) {
            Some(p) => before.push(p),
            None => before,
        }
    }
}

/// For each of `names`, the constraint that the lifetime outlives the task
/// lifetime.
pub open spec fn outlive_task(names: Seq<Seq<char>>) -> Seq<WherePredicateView> {
    Seq::new(
        names.len(),
        |i: int|
            WherePredicateView::Lifetime { ident: names[i], outlives: seq![task_lifetime()] },
    )
}

/// For each of `names`, a lifetime parameter without bounds.
pub open spec fn lifetime_params(names: Seq<Seq<char>>) -> Seq<GenericParamView> {
    Seq::new(
        names.len(),
        |i: int| GenericParamView::Lifetime { ident: names[i], outlives: Seq::empty() },
    )
}

/// The task lifetime as a generic parameter.
pub open spec fn task_param() -> GenericParamView {
    GenericParamView::Lifetime { ident: task_lifetime(), outlives: Seq::empty() }
}

/// Whether a lifetime parameter stands at place `k` or behind it.
pub open spec fn has_lifetime_from(params: Seq<GenericParamView>, k: int) -> bool {
    exists|j: int| k <= j < params.len() && (#[trigger] params[j]) is Lifetime
}

/// What one generic parameter becomes under the collapsed opaque strategy:
/// the last lifetime parameter becomes the task lifetime, every other
/// lifetime parameter goes, and any other parameter stays.
pub open spec fn collapsed_piece(params: Seq<GenericParamView>, i: int) -> Seq<GenericParamView> {
    if params[i] is Lifetime {
        if has_lifetime_from(params, i + 1) {
            Seq::empty()
        } else {
            seq![task_param()]
        }
    } else {
        seq![params[i]]
    }
}

/// What the first `k` generic parameters become under the collapsed opaque
/// strategy.
pub open spec fn collapsed_first(params: Seq<GenericParamView>, k: nat) -> Seq<GenericParamView>
    decreases k,
{
    if k == 0 || k > params.len() {
        Seq::empty()
    } else {
        collapsed_first(params, (k - 1) as nat) + collapsed_piece(params, k - 1)
    }
}

/// The generic parameters under the collapsed opaque strategy. Where no
/// lifetime parameter is declared, the task lifetime comes first.
pub open spec fn collapsed_params(params: Seq<GenericParamView>) -> Seq<GenericParamView> {
    (if has_lifetime_from(params, 0) {
        Seq::empty()
    } else {
        seq![task_param()]
    }) + collapsed_first(params, params.len())
}

/// The receiver of a method: its first parameter, where that is a receiver.
pub open spec fn receiver_of(inputs: Seq<FnArgView>) -> Option<ReceiverView> {
    if inputs.len() > 0 && inputs[0] is Receiver {
        Some(inputs[0]->Receiver_0)
    } else {
        None
    }
}

/// How the method takes its receiver, if it has one.
pub open spec fn mode_of(inputs: Seq<FnArgView>) -> Option<AccessMode> {
    match receiver_of(inputs) {
        Some(r) => Some(access_mode_of(r)),
        None => None,
    }
}

/// Whether the capability `b` is written into the signature. Nothing is
/// written where the computation stays on its thread. In an implementation
/// nothing is written either: the compiler sees the concrete type. In an
/// interface it is written for a method without a body, and for a method
/// with a default body unless the interface declares the capability as a
/// supertrait.
pub open spec fn bound_added(
    ctx: ContextView,
    has_default: bool,
    future_type: FutureType,
    b: InferredBound,
) -> bool {
    future_type.send() && match ctx {
        ContextView::Trait { supertraits, .. } => !has_default || !declares_bound(supertraits, b),
        ContextView::Impl { .. } => false,
    }
}

/// The capabilities among the first `k` of `required` that are written into
/// the signature, as bounds.
pub open spec fn added_bounds(
    ctx: ContextView,
    has_default: bool,
    future_type: FutureType,
    required: Seq<InferredBound>,
    k: nat,
) -> Seq<NodeView>
    decreases k,
{
    if k == 0 || k > required.len() {
        Seq::empty()
    } else {
        let before = added_bounds(ctx, has_default, future_type, required, (k - 1) as nat);
        if bound_added(ctx, has_default, future_type, required[k - 1]) {
            before.push(marker_bound(required[k - 1]))
        } else {
            before
        }
    }
}

/// The constraint on the owning type: the capabilities that are written,
/// and that it outlives the task lifetime.
pub open spec fn self_predicate(
    ctx: ContextView,
    mode: Option<AccessMode>,
    has_default: bool,
    future_type: FutureType,
) -> WherePredicateView {
    let required = required_bounds(mode);
    WherePredicateView::Type {
        lifetimes: Seq::empty(),
        bounded: type_path("Self"@),
        bounds: added_bounds(ctx, has_default, future_type, required, required.len()).push(
            lifetime_bound(task_lifetime()),
        ),
    }
}

/// A parameter as it stands in the rewritten signature, at place `i`. A
/// receiver by value loses its `mut`. A parameter whose type is not a
/// reference loses `ref` and `mut` where its pattern is a name, and gets a
/// positional name in place of any other pattern, `mut` where the pattern
/// declares a binding as `mut`. Every `impl Trait` in the type is bounded by
/// the lifetime `outlives`.
pub open spec fn normalized_arg(a: FnArgView, i: nat, outlives: Seq<char>) -> FnArgView {
    match a {
        FnArgView::Receiver(r) => FnArgView::Receiver(
            ReceiverView {
                reference: r.reference,
                mutable: r.reference is Some && r.mutable,
                ty: r.ty,
            },
        ),
        FnArgView::Typed(t) => FnArgView::Typed(
            PatTypeView {
                attrs: t.attrs,
                pat: if t.ty.kind is Reference {
                    t.pat
                } else {
                    match t.pat.kind {
                        NodeKindView::PatIdent { ident, .. } => NodeView {
                            kind: NodeKindView::PatIdent { by_ref: false, mutable: false, ident },
                            children: t.pat.children,
                        },
                        _ => NodeView {
                            kind: NodeKindView::PatIdent {
                                by_ref: false,
                                mutable: found(QueryView::MutableBinding, t.pat),
                                ident: positional_name(i),
                            },
                            children: Seq::empty(),
                        },
                    }
                },
                ty: with_impl_trait_bound(outlives, t.ty),
            },
        ),
    }
}

/// The parameters as they stand in the rewritten signature.
pub open spec fn normalized(inputs: Seq<FnArgView>, outlives: Seq<char>) -> Seq<FnArgView> {
    Seq::new(inputs.len(), |i: int| normalized_arg(inputs[i], i as nat, outlives))
}

/// The name of a generic parameter.
pub open spec fn param_name(p: GenericParamView) -> ParamNameView {
    match p {
        GenericParamView::Lifetime { ident, .. } => ParamNameView::Lifetime(ident),
        GenericParamView::Type { ident, .. } => ParamNameView::Type(ident),
        GenericParamView::Const { ident, .. } => ParamNameView::Const(ident),
    }
}

/// The names of generic parameters, in their order.
pub open spec fn param_names(params: Seq<GenericParamView>) -> Seq<ParamNameView> {
    Seq::new(params.len(), |i: int| param_name(params[i]))
}

/// The return type of the rewritten method: the boxed computation, or the
/// associated type of the method applied to all generic parameters of the
/// rewritten signature.
pub open spec fn output_of(
    ident: Seq<char>,
    params: Seq<GenericParamView>,
    ret: Option<NodeView>,
    future_type: FutureType,
    bounds: FutureBounds,
) -> ReturnTypeView {
    if future_type.boxed() {
        ReturnTypeView::Boxed { output: ret, bounds }
    } else {
        ReturnTypeView::Associated {
            ident: implicit_type_name(ident),
            arguments: param_names(params),
        }
    }
}

/// Whether the produced computation captures nothing that is borrowed: the
/// method has no generic parameters and no elided lifetimes, it does not
/// refer to the receiver or the owning type, and its parameters use no
/// lifetime of the declaration around it. Such a method needs no task
/// lifetime.
pub open spec fn captures_nothing(ctx: ContextView, sig: SignatureView, has_self: bool) -> bool {
    &&& sig.generics.params.len() == 0
    &&& inputs_elided(sig.inputs, sig.inputs.len()) == 0
    &&& !has_self
    &&& used_lifetimes(
        ctx.params(),
        inputs_explicit(sig.inputs, sig.inputs.len()),
        ctx.params().len(),
    ).len() == 0
}

/// The bounds of the computation that the rewritten method returns.
pub open spec fn bounds_of(
    ctx: ContextView,
    sig: SignatureView,
    has_self: bool,
    future_type: FutureType,
) -> FutureBounds {
    FutureBounds {
        send: future_type.send(),
        outlives: if captures_nothing(ctx, sig, has_self) {
            Outlives::Static
        } else {
            Outlives::Task
        },
    }
}

/// The generic parameters of a method whose computation captures borrowed
/// values: under the collapsed opaque strategy one lifetime for all; else
/// the declared parameters without their bounds, then the lifetimes that
/// were elided, then the task lifetime.
pub open spec fn constrained_params(
    params: Seq<GenericParamView>,
    elided: Seq<Seq<char>>,
    future_type: FutureType,
) -> Seq<GenericParamView> {
    if future_type == FutureType::UnboxedSimpleSend {
        collapsed_params(params)
    } else {
        Seq::new(params.len(), |i: int| unbounded(params[i])) + lifetime_params(elided).push(
            task_param(),
        )
    }
}

/// The constraints of a method whose computation captures borrowed values:
/// those that are written, then those of references, of the generic
/// parameters, of the lifetimes `used` from the declaration around the
/// method, of the lifetimes that were elided, and of the owning type.
pub open spec fn constrained_predicates(
    ctx: ContextView,
    generics: GenericsView,
    named: Seq<FnArgView>,
    elided: Seq<Seq<char>>,
    used: Seq<Seq<char>>,
    mode: Option<AccessMode>,
    has_self: bool,
    has_default: bool,
    future_type: FutureType,
) -> Seq<WherePredicateView> {
    generics.predicates + (if future_type == FutureType::UnboxedSend {
        reference_predicates(named, named.len())
    } else {
        Seq::empty()
    }) + (if future_type == FutureType::UnboxedSimpleSend {
        Seq::empty()
    } else {
        param_predicates(generics.params, generics.params.len()) + outlive_task(used)
            + outlive_task(elided)
    }) + (if has_self {
        seq![self_predicate(ctx, mode, has_default, future_type)]
    } else {
        Seq::empty()
    })
}

/// The parameters of a method whose computation captures borrowed values,
/// before they are brought into their final form.
pub open spec fn constrained_inputs(named: Seq<FnArgView>, future_type: FutureType) -> Seq<
    FnArgView,
> {
    if future_type == FutureType::UnboxedSimpleSend {
        Seq::new(named.len(), |i: int| collapsed_arg(named[i]))
    } else {
        named
    }
}

/// The lifetimes of the declaration around the method that its parameters
/// use.
pub open spec fn used_of(ctx: ContextView, sig: SignatureView) -> Seq<Seq<char>> {
    used_lifetimes(
        ctx.params(),
        inputs_explicit(sig.inputs, sig.inputs.len()),
        ctx.params().len(),
    )
}

/// The names that the elided lifetimes of the parameters get.
pub open spec fn elided_of(sig: SignatureView) -> Seq<Seq<char>> {
    fresh_names(0, inputs_elided(sig.inputs, sig.inputs.len()))
}

/// The generic parameters of the rewritten signature.
pub open spec fn params_of(
    ctx: ContextView,
    sig: SignatureView,
    has_self: bool,
    future_type: FutureType,
) -> Seq<GenericParamView> {
    if captures_nothing(ctx, sig, has_self) {
        sig.generics.params
    } else {
        constrained_params(sig.generics.params, elided_of(sig), future_type)
    }
}

/// The constraints of the rewritten signature.
pub open spec fn predicates_of(
    ctx: ContextView,
    sig: SignatureView,
    has_self: bool,
    has_default: bool,
    future_type: FutureType,
) -> Seq<WherePredicateView> {
    if captures_nothing(ctx, sig, has_self) {
        sig.generics.predicates
    } else {
        constrained_predicates(
            ctx,
            sig.generics,
            inputs_named(sig.inputs),
            elided_of(sig),
            used_of(ctx, sig),
            mode_of(sig.inputs),
            has_self,
            has_default,
            future_type,
        )
    }
}

/// The parameters of the rewritten signature.
pub open spec fn inputs_of(
    ctx: ContextView,
    sig: SignatureView,
    has_self: bool,
    future_type: FutureType,
) -> Seq<FnArgView> {
    let named = inputs_named(sig.inputs);
    if captures_nothing(ctx, sig, has_self) {
        normalized(named, outlives_name(Outlives::Static))
    } else {
        normalized(constrained_inputs(named, future_type), task_lifetime())
    }
}

/// The rewritten signature of a deferred method.
pub open spec fn transformed(
    ctx: ContextView,
    sig: SignatureView,
    has_self: bool,
    has_default: bool,
    future_type: FutureType,
) -> SignatureView {
    let params = params_of(ctx, sig, has_self, future_type);
    SignatureView {
        asyncness: false,
        ident: sig.ident,
        generics: GenericsView {
            params,
            predicates: predicates_of(ctx, sig, has_self, has_default, future_type),
        },
        inputs: inputs_of(ctx, sig, has_self, future_type),
        output: output_of(
            sig.ident,
            params,
            sig.written_output(),
            future_type,
            bounds_of(ctx, sig, has_self, future_type),
        ),
    }
}

fn segment_node(name: &str) -> (r: Node)
    ensures
        r@ == segment(name@),
{
    Node::leaf(NodeKind::Segment { ident: String::from_str(name), arguments: Arguments::Absent })
}

fn type_path_node(name: &str) -> (r: Node)
    ensures
        r@ == type_path(name@),
{
    let mut children: Vec<Node> = Vec::new();
    children.push(segment_node(name));
    let r = Node {
        kind: NodeKind::Path { position: Position::Type, leading_colon: false, qself: None },
        children,
    };
    proof {
        lemma_node_view(r);
        assert(r.children.deep_view() =~= seq![segment(name@)]);
    }
    r
}

fn lifetime_bound_node(name: &str) -> (r: Node)
    ensures
        r@ == lifetime_bound(name@),
{
    Node::leaf(NodeKind::Lifetime { ident: String::from_str(name), argument: false })
}

fn marker_bound_node(b: InferredBound) -> (r: Node)
    ensures
        r@ == marker_bound(b),
{
    let mut segments: Vec<Node> = Vec::new();
    segments.push(segment_node("core"));
    segments.push(segment_node("marker"));
    segments.push(segment_node(b.as_str()));
    let path = Node {
        kind: NodeKind::Path { position: Position::Other, leading_colon: true, qself: None },
        children: segments,
    };
    proof {
        lemma_node_view(path);
        assert(path.children.deep_view() =~= seq![
            segment("core"@),
            segment("marker"@),
            segment(b.name()),
        ]);
    }
    let mut children: Vec<Node> = Vec::new();
    children.push(path);
    let r = Node { kind: NodeKind::TraitBound { optional: false }, children };
    proof {
        lemma_node_view(r);
        assert(r.children.deep_view() =~= seq![path@]);
    }
    r
}

/// Names every elided lifetime of the parameters and records the named ones.
fn collect_inputs(inputs: &mut Vec<FnArg>) -> (r: CollectLifetimes)
    ensures
        final(inputs).deep_view() == inputs_named(old(inputs).deep_view()),
        r.elided.deep_view() == fresh_names(
            0,
            inputs_elided(old(inputs).deep_view(), old(inputs).len() as nat),
        ),
        r.explicit.deep_view() == inputs_explicit(
            old(inputs).deep_view(),
            old(inputs).len() as nat,
        ),
{
    let mut lifetimes = CollectLifetimes::new();
    let ghost start = lifetimes;
    let ghost ov = inputs.deep_view();
    proof {
        lemma_advanced_empty(&lifetimes);
        assert(start.elided.deep_view().len() == start.elided.len());
    }
    let mut i: usize = 0;
    while i < inputs.len()
        invariant
            i <= inputs.len(),
            inputs.len() == ov.len(),
            start.elided.len() == 0,
            start.elided.deep_view() == Seq::<Seq<char>>::empty(),
            start.explicit.deep_view() == Seq::<Seq<char>>::empty(),
            lifetimes.advanced(&start, inputs_elided(ov, i as nat), inputs_explicit(ov, i as nat)),
            forall|j: int|
                0 <= j < i ==> #[trigger] inputs.deep_view()[j] == arg_named(
                    ov[j],
                    inputs_elided(ov, j as nat),
                ),
            forall|j: int| i <= j < inputs.len() ==> #[trigger] inputs.deep_view()[j] == ov[j],
        decreases inputs.len() - i,
    {
        let ghost mid = lifetimes;
        let ghost before = *inputs;
        assert(before.deep_view()[i as int] == ov[i as int]);
        assert(mid.elided.deep_view().len() == inputs_elided(ov, i as nat));
        match &mut inputs[i] {
            FnArg::Receiver(arg) => {
                lifetimes.visit_receiver(arg);
            },
            FnArg::Typed(arg) => {
                lifetimes.visit_node(&mut arg.ty);
            },
        }
        proof {
            lemma_advanced_twice(
                &start,
                &mid,
                &lifetimes,
                inputs_elided(ov, i as nat),
                arg_elided(ov[i as int]),
                inputs_explicit(ov, i as nat),
                arg_explicit(ov[i as int]),
            );
            assert forall|j: int| 0 <= j < inputs.len() && j != i implies #[trigger] inputs.deep_view()[j]
                == before.deep_view()[j] by {
                assert(inputs@[j] == before@[j]);
            }
        }
        i += 1;
    }
    proof {
        assert(inputs.deep_view() =~= inputs_named(ov));
        assert(lifetimes.elided.deep_view() =~= fresh_names(0, inputs_elided(ov, ov.len())));
        assert(lifetimes.explicit.deep_view() =~= inputs_explicit(ov, ov.len()));
    }
    lifetimes
}

/// The constraints that parameters of reference type add.
fn reference_predicates_of(inputs: &Vec<FnArg>) -> (r: Vec<WherePredicate>)
    ensures
        r.deep_view() == reference_predicates(inputs.deep_view(), inputs.len() as nat),
{
    let mut out: Vec<WherePredicate> = Vec::new();
    assert(out.deep_view() =~= Seq::<WherePredicateView>::empty());
    let mut i: usize = 0;
    while i < inputs.len()
        invariant
            i <= inputs.len(),
            out.deep_view() == reference_predicates(inputs.deep_view(), i as nat),
        decreases inputs.len() - i,
    {
        let ghost before = out.deep_view();
        assert(inputs.deep_view()[i as int] == inputs[i as int]@);
        match &inputs[i] {
            FnArg::Typed(arg) => {
                proof {
                    lemma_node_view(arg.ty);
                }
                match &arg.ty.kind {
                    NodeKind::Reference { lifetime: Some(l), .. } => {
                        if arg.ty.children.len() >= 1 {
                            let elem = arg.ty.children[0].clone();
                            let mut bounds: Vec<Node> = Vec::new();
                            bounds.push(lifetime_bound_node(l.as_str()));
                            let p = WherePredicate::Type {
                                lifetimes: Vec::new(),
                                bounded: elem,
                                bounds,
                            };
                            proof {
                                assert(bounds.deep_view() =~= seq![lifetime_bound(l@)]);
                                assert(p@->lifetimes =~= Seq::<Seq<char>>::empty());
                            }
                            out.push(p);
                            assert(out.deep_view() =~= before.push(p@));
                        }
                    },
                    _ => {},
                }
            },
            _ => {},
        }
        i += 1;
    }
    out
}

/// Puts the task lifetime on every borrowed receiver and on every parameter
/// of reference type.
fn collapse_inputs(inputs: &mut Vec<FnArg>)
    ensures
        final(inputs).deep_view() == Seq::new(
            old(inputs).len() as nat,
            |i: int| collapsed_arg(old(inputs).deep_view()[i]),
        ),
{
    let ghost ov = inputs.deep_view();
    let mut i: usize = 0;
    while i < inputs.len()
        invariant
            i <= inputs.len(),
            inputs.len() == ov.len(),
            forall|j: int| 0 <= j < i ==> #[trigger] inputs.deep_view()[j] == collapsed_arg(ov[j]),
            forall|j: int| i <= j < inputs.len() ==> #[trigger] inputs.deep_view()[j] == ov[j],
        decreases inputs.len() - i,
    {
        let ghost before = *inputs;
        assert(before.deep_view()[i as int] == ov[i as int]);
        match &mut inputs[i] {
            FnArg::Receiver(arg) => {
                if arg.reference.is_some() {
                    arg.reference = Some(Some(String::from_str("async_trait")));
                }
            },
            FnArg::Typed(arg) => {
                proof {
                    lemma_node_view(arg.ty);
                }
                match &mut arg.ty.kind {
                    NodeKind::Reference { lifetime, .. } => {
                        *lifetime = Some(String::from_str("async_trait"));
                    },
                    _ => {},
                }
                proof {
                    lemma_node_view(arg.ty);
                }
            },
        }
        proof {
            assert forall|j: int| 0 <= j < inputs.len() && j != i implies #[trigger] inputs.deep_view()[j]
                == before.deep_view()[j] by {
                assert(inputs@[j] == before@[j]);
            }
        }
        i += 1;
    }
    assert(inputs.deep_view() =~= Seq::new(ov.len(), |i: int| collapsed_arg(ov[i])));
}

fn prepend_node(nodes: &mut Vec<Node>, first: Node)
    ensures
        final(nodes).deep_view() == seq![first@] + old(nodes).deep_view(),
{
    let ghost before = *nodes;
    nodes.insert(0, first);
    proof {
        assert forall|j: int| 0 <= j < before.len() implies #[trigger] nodes.deep_view()[j + 1]
            == before.deep_view()[j] by {
            assert(nodes@[j + 1] == before@[j]);
        }
        assert(nodes.deep_view() =~= seq![first@] + before.deep_view());
    }
}

fn prepend_name(names: &mut Vec<String>, first: String)
    ensures
        final(names).deep_view() == seq![first@] + old(names).deep_view(),
{
    let ghost before = *names;
    names.insert(0, first);
    proof {
        assert forall|j: int| 0 <= j < before.len() implies #[trigger] names.deep_view()[j + 1]
            == before.deep_view()[j] by {
            assert(names@[j + 1] == before@[j]);
        }
        assert(names.deep_view() =~= seq![first@] + before.deep_view());
    }
}

fn task_param_of() -> (r: GenericParam)
    ensures
        r@ == task_param(),
{
    let r = GenericParam::Lifetime { ident: String::from_str("async_trait"), outlives: Vec::new() };
    assert(r@->outlives =~= Seq::<Seq<char>>::empty());
    r
}

fn is_lifetime_param(p: &GenericParam) -> (r: bool)
    ensures
        r == (p@ is Lifetime),
{
    match p {
        GenericParam::Lifetime { .. } => true,
        _ => false,
    }
}

/// The generic parameters under the collapsed opaque strategy.
fn collapse_params(params: &Vec<GenericParam>) -> (r: Vec<GenericParam>)
    ensures
        r.deep_view() == collapsed_params(params.deep_view()),
{
    let ghost pv = params.deep_view();
    let mut last: Option<usize> = None;
    let mut i: usize = 0;
    while i < params.len()
        invariant
            i <= params.len(),
            pv == params.deep_view(),
            last is None ==> forall|j: int| 0 <= j < i ==> !((#[trigger] pv[j]) is Lifetime),
            last matches Some(l) ==> l < i && pv[l as int] is Lifetime && forall|j: int|
                l < j < i ==> !((#[trigger] pv[j]) is Lifetime),
        decreases params.len() - i,
    {
        assert(pv[i as int] == params[i as int]@);
        if is_lifetime_param(&params[i]) {
            last = Some(i);
        }
        i += 1;
    }
    let mut out: Vec<GenericParam> = Vec::new();
    match last {
        None => {
            out.push(task_param_of());
            assert(!has_lifetime_from(pv, 0));
            assert(out.deep_view() =~= seq![task_param()] + collapsed_first(pv, 0));
        },
        Some(l) => {
            assert(has_lifetime_from(pv, 0));
            assert(out.deep_view() =~= Seq::<GenericParamView>::empty() + collapsed_first(pv, 0));
        },
    }
    let ghost head: Seq<GenericParamView> = if has_lifetime_from(pv, 0) {
        Seq::empty()
    } else {
        seq![task_param()]
    };
    let mut k: usize = 0;
    while k < params.len()
        invariant
            k <= params.len(),
            pv == params.deep_view(),
            out.deep_view() == head + collapsed_first(pv, k as nat),
            last is None ==> forall|j: int| 0 <= j < pv.len() ==> !((#[trigger] pv[j]) is Lifetime),
            last matches Some(l) ==> l < pv.len() && pv[l as int] is Lifetime && forall|j: int|
                l < j < pv.len() ==> !((#[trigger] pv[j]) is Lifetime),
        decreases params.len() - k,
    {
        let ghost before = out.deep_view();
        assert(pv[k as int] == params[k as int]@);
        if is_lifetime_param(&params[k]) {
            let is_last = match last {
                Some(l) => l == k,
                None => false,
            };
            if is_last {
                out.push(task_param_of());
                assert(!has_lifetime_from(pv, k + 1));
                assert(out.deep_view() =~= before + collapsed_piece(pv, k as int));
            } else {
                assert(has_lifetime_from(pv, k + 1)) by {
                    let l = last->0;
                    assert(pv[l as int] is Lifetime);
                }
                assert(out.deep_view() =~= before + collapsed_piece(pv, k as int));
            }
        } else {
            let p = params[k].clone();
            out.push(p);
            assert(out.deep_view() =~= before + collapsed_piece(pv, k as int));
        }
        assert(before + collapsed_piece(pv, k as int) =~= head + (collapsed_first(
            pv,
            k as nat,
        ) + collapsed_piece(pv, k as int)));
        k += 1;
    }
    out
}

/// Moves the bounds of every generic parameter into a constraint of its own,
/// which also asks the parameter to outlive the task lifetime.
fn split_params(params: &mut Vec<GenericParam>) -> (r: Vec<WherePredicate>)
    ensures
        final(params).deep_view() == Seq::new(
            old(params).len() as nat,
            |i: int| unbounded(old(params).deep_view()[i]),
        ),
        r.deep_view() == param_predicates(old(params).deep_view(), old(params).len() as nat),
{
    let ghost pv = params.deep_view();
    let mut out: Vec<WherePredicate> = Vec::new();
    assert(out.deep_view() =~= Seq::<WherePredicateView>::empty());
    let mut i: usize = 0;
    while i < params.len()
        invariant
            i <= params.len(),
            params.len() == pv.len(),
            out.deep_view() == param_predicates(pv, i as nat),
            forall|j: int| 0 <= j < i ==> #[trigger] params.deep_view()[j] == unbounded(pv[j]),
            forall|j: int| i <= j < params.len() ==> #[trigger] params.deep_view()[j] == pv[j],
        decreases params.len() - i,
    {
        let ghost before = *params;
        let ghost out_before = out.deep_view();
        assert(before.deep_view()[i as int] == pv[i as int]);
        match &mut params[i] {
            GenericParam::Type { ident, bounds, .. } => {
                let mut taken: Vec<Node> = Vec::new();
                core::mem::swap(bounds, &mut taken);
                assert(bounds.deep_view() =~= Seq::<NodeView>::empty());
                prepend_node(&mut taken, lifetime_bound_node("async_trait"));
                let p = WherePredicate::Type {
                    lifetimes: Vec::new(),
                    bounded: type_path_node(ident.as_str()),
                    bounds: taken,
                };
                assert(p@->lifetimes =~= Seq::<Seq<char>>::empty());
                out.push(p);
                assert(out.deep_view() =~= out_before.push(p@));
            },
            GenericParam::Lifetime { ident, outlives } => {
                let mut taken: Vec<String> = Vec::new();
                core::mem::swap(outlives, &mut taken);
                assert(outlives.deep_view() =~= Seq::<Seq<char>>::empty());
                prepend_name(&mut taken, String::from_str("async_trait"));
                let p = WherePredicate::Lifetime { ident: ident.clone(), outlives: taken };
                out.push(p);
                assert(out.deep_view() =~= out_before.push(p@));
            },
            GenericParam::Const { .. } => {},
        }
        proof {
            assert forall|j: int| 0 <= j < params.len() && j != i implies #[trigger] params.deep_view()[j]
                == before.deep_view()[j] by {
                assert(params@[j] == before@[j]);
            }
        }
        i += 1;
    }
    assert(params.deep_view() =~= Seq::new(pv.len(), |i: int| unbounded(pv[i])));
    out
}

/// For each name, the constraint that the lifetime outlives the task
/// lifetime.
fn outlive_task_of(names: &Vec<String>) -> (r: Vec<WherePredicate>)
    ensures
        r.deep_view() == outlive_task(names.deep_view()),
{
    let mut out: Vec<WherePredicate> = Vec::new();
    let mut i: usize = 0;
    while i < names.len()
        invariant
            i <= names.len(),
            out.len() == i,
            forall|j: int|
                0 <= j < i ==> #[trigger] out.deep_view()[j] == outlive_task(names.deep_view())[j],
        decreases names.len() - i,
    {
        let mut outlives: Vec<String> = Vec::new();
        outlives.push(String::from_str("async_trait"));
        let p = WherePredicate::Lifetime { ident: names[i].clone(), outlives };
        assert(p@->outlives =~= seq![task_lifetime()]);
        let ghost before = out;
        out.push(p);
        proof {
            assert forall|j: int| 0 <= j < i implies #[trigger] out.deep_view()[j] == outlive_task(
                names.deep_view(),
            )[j] by {
                assert(out@[j] == before@[j]);
                assert(out.deep_view()[j] == before.deep_view()[j]);
            }
        }
        i += 1;
    }
    assert(out.deep_view() =~= outlive_task(names.deep_view()));
    out
}

/// For each name, a lifetime parameter without bounds.
fn lifetime_params_of(names: &Vec<String>) -> (r: Vec<GenericParam>)
    ensures
        r.deep_view() == lifetime_params(names.deep_view()),
{
    let mut out: Vec<GenericParam> = Vec::new();
    let mut i: usize = 0;
    while i < names.len()
        invariant
            i <= names.len(),
            out.len() == i,
            forall|j: int|
                0 <= j < i ==> #[trigger] out.deep_view()[j] == lifetime_params(
                    names.deep_view(),
                )[j],
        decreases names.len() - i,
    {
        let p = GenericParam::Lifetime { ident: names[i].clone(), outlives: Vec::new() };
        assert(p@->outlives =~= Seq::<Seq<char>>::empty());
        let ghost before = out;
        out.push(p);
        proof {
            assert forall|j: int| 0 <= j < i implies #[trigger] out.deep_view()[j]
                == lifetime_params(names.deep_view())[j] by {
                assert(out@[j] == before@[j]);
                assert(out.deep_view()[j] == before.deep_view()[j]);
            }
        }
        i += 1;
    }
    assert(out.deep_view() =~= lifetime_params(names.deep_view()));
    out
}

/// Moves all of `more` to the end of `list`.
fn extend_predicates(list: &mut Vec<WherePredicate>, more: Vec<WherePredicate>)
    ensures
        final(list).deep_view() == old(list).deep_view() + more.deep_view(),
{
    let mut more = more;
    let ghost a = *list;
    let ghost b = more;
    list.append(&mut more);
    proof {
        assert forall|j: int| 0 <= j < a.len() implies #[trigger] list.deep_view()[j]
            == a.deep_view()[j] by {
            assert(list@[j] == a@[j]);
        }
        assert forall|j: int| 0 <= j < b.len() implies #[trigger] list.deep_view()[a.len() + j]
            == b.deep_view()[j] by {
            assert(list@[a.len() + j] == b@[j]);
        }
        assert(list.deep_view() =~= a.deep_view() + b.deep_view());
    }
}

/// Moves all of `more` to the end of `list`.
fn extend_params(list: &mut Vec<GenericParam>, more: Vec<GenericParam>)
    ensures
        final(list).deep_view() == old(list).deep_view() + more.deep_view(),
{
    let mut more = more;
    let ghost a = *list;
    let ghost b = more;
    list.append(&mut more);
    proof {
        assert forall|j: int| 0 <= j < a.len() implies #[trigger] list.deep_view()[j]
            == a.deep_view()[j] by {
            assert(list@[j] == a@[j]);
        }
        assert forall|j: int| 0 <= j < b.len() implies #[trigger] list.deep_view()[a.len() + j]
            == b.deep_view()[j] by {
            assert(list@[a.len() + j] == b@[j]);
        }
        assert(list.deep_view() =~= a.deep_view() + b.deep_view());
    }
}

/// The name that stands for the parameter at place `i` where its pattern is
/// not a plain name.
pub fn positional_arg(i: usize) -> (r: String)
    ensures
        r@ == positional_name(i as nat),
{
    numbered("__arg", i)
}

/// The constraint on the owning type.
fn self_predicate_of(
    context: Context,
    mode: Option<AccessMode>,
    has_default: bool,
    future_type: FutureType,
) -> (r: WherePredicate)
    ensures
        r@ == self_predicate(context@, mode, has_default, future_type),
{
    let required = infer_bounds(mode);
    let mut bounds: Vec<Node> = Vec::new();
    assert(bounds.deep_view() =~= Seq::<NodeView>::empty());
    let mut i: usize = 0;
    while i < required.len()
        invariant
            i <= required.len(),
            required@ == required_bounds(mode),
            bounds.deep_view() == added_bounds(
                context@,
                has_default,
                future_type,
                required@,
                i as nat,
            ),
        decreases required.len() - i,
    {
        let bound = required[i];
        let declared = match context {
            Context::Trait { supertraits, .. } => has_default && has_bound(supertraits, bound),
            Context::Impl { .. } => true,
        };
        if future_type.is_send() && !declared {
            let ghost before = bounds.deep_view();
            let node = marker_bound_node(bound);
            bounds.push(node);
            assert(bounds.deep_view() =~= before.push(node@));
        }
        i += 1;
    }
    let ghost before = bounds.deep_view();
    let task = lifetime_bound_node("async_trait");
    bounds.push(task);
    assert(bounds.deep_view() =~= before.push(task@));
    let r = WherePredicate::Type {
        lifetimes: Vec::new(),
        bounded: type_path_node("Self"),
        bounds,
    };
    assert(r@->lifetimes =~= Seq::<Seq<char>>::empty());
    r
}

/// Brings every parameter into the form that it has in the rewritten
/// signature.
fn normalize_inputs(inputs: &mut Vec<FnArg>, outlives: &str)
    ensures
        final(inputs).deep_view() == normalized(old(inputs).deep_view(), outlives@),
{
    let ghost ov = inputs.deep_view();
    let mut i: usize = 0;
    while i < inputs.len()
        invariant
            i <= inputs.len(),
            inputs.len() == ov.len(),
            forall|j: int|
                0 <= j < i ==> #[trigger] inputs.deep_view()[j] == normalized_arg(
                    ov[j],
                    j as nat,
                    outlives@,
                ),
            forall|j: int| i <= j < inputs.len() ==> #[trigger] inputs.deep_view()[j] == ov[j],
        decreases inputs.len() - i,
    {
        let ghost before = *inputs;
        assert(before.deep_view()[i as int] == ov[i as int]);
        match &mut inputs[i] {
            FnArg::Receiver(receiver) => {
                if receiver.reference.is_none() {
                    receiver.mutable = false;
                }
            },
            FnArg::Typed(arg) => {
                proof {
                    lemma_node_view(arg.ty);
                    lemma_node_view(arg.pat);
                }
                let by_reference = match &arg.ty.kind {
                    NodeKind::Reference { .. } => true,
                    _ => false,
                };
                if !by_reference {
                    let named = match &arg.pat.kind {
                        NodeKind::PatIdent { .. } => true,
                        _ => false,
                    };
                    if named {
                        match &mut arg.pat.kind {
                            NodeKind::PatIdent { by_ref, mutable, .. } => {
                                *by_ref = false;
                                *mutable = false;
                            },
                            _ => {},
                        }
                        proof {
                            lemma_node_view(arg.pat);
                        }
                    } else {
                        let m = mut_pat(&arg.pat);
                        arg.pat = Node::leaf(
                            NodeKind::PatIdent {
                                by_ref: false,
                                mutable: m,
                                ident: positional_arg(i),
                            },
                        );
                    }
                }
                AddLifetimeToImplTrait(outlives).visit_node_mut(&mut arg.ty);
            },
        }
        proof {
            assert forall|j: int| 0 <= j < inputs.len() && j != i implies #[trigger] inputs.deep_view()[j]
                == before.deep_view()[j] by {
                assert(inputs@[j] == before@[j]);
            }
        }
        i += 1;
    }
    assert(inputs.deep_view() =~= normalized(ov, outlives@));
}

/// The names of the generic parameters, in their order.
fn param_names_of(params: &Vec<GenericParam>) -> (r: Vec<ParamName>)
    ensures
        r.deep_view() == param_names(params.deep_view()),
{
    let mut out: Vec<ParamName> = Vec::new();
    let mut i: usize = 0;
    while i < params.len()
        invariant
            i <= params.len(),
            out.len() == i,
            forall|j: int|
                0 <= j < i ==> #[trigger] out.deep_view()[j] == param_name(params.deep_view()[j]),
        decreases params.len() - i,
    {
        let name = match &params[i] {
            GenericParam::Lifetime { ident, .. } => ParamName::Lifetime(ident.clone()),
            GenericParam::Type { ident, .. } => ParamName::Type(ident.clone()),
            GenericParam::Const { ident, .. } => ParamName::Const(ident.clone()),
        };
        assert(name@ == param_name(params.deep_view()[i as int]));
        let ghost before = out;
        out.push(name);
        proof {
            assert forall|j: int| 0 <= j < i implies #[trigger] out.deep_view()[j] == param_name(
                params.deep_view()[j],
            ) by {
                assert(out@[j] == before@[j]);
                assert(out.deep_view()[j] == before.deep_view()[j]);
            }
        }
        i += 1;
    }
    assert(out.deep_view() =~= param_names(params.deep_view()));
    out
}

/// How the method takes its receiver, if it has one.
fn receiver_mode(inputs: &Vec<FnArg>) -> (r: Option<AccessMode>)
    ensures
        r == mode_of(inputs.deep_view()),
{
    if inputs.len() == 0 {
        return None;
    }
    assert(inputs.deep_view()[0] == inputs[0]@);
    match &inputs[0] {
        FnArg::Receiver(receiver) => Some(access_mode(receiver)),
        FnArg::Typed(_) => None,
    }
}

/// Adds the task lifetime and all constraints that go with it.
fn constrain(
    context: Context,
    generics: &mut Generics,
    inputs: &mut Vec<FnArg>,
    elided: &Vec<String>,
    used: &Vec<String>,
    mode: Option<AccessMode>,
    has_self: bool,
    has_default: bool,
    future_type: FutureType,
)
    ensures
        final(generics)@.params == constrained_params(
            old(generics)@.params,
            elided.deep_view(),
            future_type,
        ),
        final(generics)@.predicates == constrained_predicates(
            context@,
            old(generics)@,
            old(inputs).deep_view(),
            elided.deep_view(),
            used.deep_view(),
            mode,
            has_self,
            has_default,
            future_type,
        ),
        final(inputs).deep_view() == constrained_inputs(old(inputs).deep_view(), future_type),
{
    let ghost before = old(generics)@;
    let ghost named = old(inputs).deep_view();
    if future_type == FutureType::UnboxedSend {
        let predicates = reference_predicates_of(inputs);
        extend_predicates(&mut generics.predicates, predicates);
    } else if future_type == FutureType::UnboxedSimpleSend {
        collapse_inputs(inputs);
    }
    let ghost first = generics.predicates.deep_view();
    assert(first =~= before.predicates + (if future_type == FutureType::UnboxedSend {
        reference_predicates(named, named.len())
    } else {
        Seq::empty()
    }));

    if future_type == FutureType::UnboxedSimpleSend {
        let params = collapse_params(&generics.params);
        generics.params = params;
    } else {
        let predicates = split_params(&mut generics.params);
        extend_predicates(&mut generics.predicates, predicates);
        extend_predicates(&mut generics.predicates, outlive_task_of(used));
        extend_predicates(&mut generics.predicates, outlive_task_of(elided));
        extend_params(&mut generics.params, lifetime_params_of(elided));
        let ghost params_before = generics.params.deep_view();
        let task = task_param_of();
        generics.params.push(task);
        assert(generics.params.deep_view() =~= params_before.push(task@));
    }
    assert(generics.params.deep_view() =~= constrained_params(
        before.params,
        elided.deep_view(),
        future_type,
    ));
    let ghost second = generics.predicates.deep_view();
    assert(second =~= first + (if future_type == FutureType::UnboxedSimpleSend {
        Seq::empty()
    } else {
        param_predicates(before.params, before.params.len()) + outlive_task(used.deep_view())
            + outlive_task(elided.deep_view())
    }));

    if has_self {
        let predicate = self_predicate_of(context, mode, has_default, future_type);
        generics.predicates.push(predicate);
        assert(generics.predicates.deep_view() =~= second.push(predicate@));
    }
    assert(generics.predicates.deep_view() =~= second + (if has_self {
        seq![self_predicate(context@, mode, has_default, future_type)]
    } else {
        Seq::empty()
    }));
}

/// The return type of the rewritten method.
fn output_for(
    ident: &String,
    params: &Vec<GenericParam>,
    ret: Option<Node>,
    future_type: FutureType,
    bounds: FutureBounds,
) -> (r: ReturnType)
    ensures
        r@ == output_of(ident@, params.deep_view(), ret.deep_view(), future_type, bounds),
{
    if future_type.is_boxed() {
        ReturnType::Boxed { output: ret, bounds }
    } else {
        let ident = derive_implicit_type_name(ident);
        let arguments = param_names_of(params);
        ReturnType::Associated { ident, arguments }
    }
}

/// Rewrites the signature of a deferred method, and returns the bounds of the
/// computation that the rewritten method returns.
///
/// Every elided lifetime of the parameters gets a name. Unless the
/// computation captures nothing that is borrowed, the task lifetime becomes a
/// generic parameter behind all others, and every generic parameter, every
/// lifetime of the parameters and, where the method refers to it, the owning
/// type is constrained to outlive it. The return type becomes the boxed
/// computation or the associated type of the method.
///
/// The signature has to be that of a deferred method as its author wrote it:
/// marked as deferred, with its own return type.
pub fn transform_sig(
    context: Context,
    sig: &mut Signature,
    has_self: bool,
    has_default: bool,
    future_type: FutureType,
) -> (r: FutureBounds)
    requires
        old(sig)@.is_deferred(),
    ensures
        final(sig)@ == transformed(context@, old(sig)@, has_self, has_default, future_type),
        r == bounds_of(context@, old(sig)@, has_self, future_type),
{
    let ghost before = old(sig)@;
    let ghost ctx = context@;
    sig.asyncness = false;

    let mut output = ReturnType::Default;
    core::mem::swap(&mut sig.output, &mut output);
    let ret = match output {
        ReturnType::Type(ret) => Some(ret),
        _ => None,
    };
    assert(ret.deep_view() == before.written_output());

    let mode = receiver_mode(&sig.inputs);
    let lifetimes = collect_inputs(&mut sig.inputs);
    let used = context.lifetimes(&lifetimes.explicit);
    assert(lifetimes.elided.len() == lifetimes.elided.deep_view().len());
    assert(used.len() == used.deep_view().len());
    assert(sig.generics.params.len() == before.generics.params.len());
    assert(lifetimes.elided.deep_view() == elided_of(before));
    assert(used.deep_view() == used_of(ctx, before));

    let trivial = sig.generics.params.len() == 0 && lifetimes.elided.len() == 0 && !has_self
        && used.len() == 0;
    assert(trivial == captures_nothing(ctx, before, has_self));

    let outlives = if trivial {
        proof {
            reveal_strlit("static");
        }
        normalize_inputs(&mut sig.inputs, "static");
        Outlives::Static
    } else {
        constrain(
            context,
            &mut sig.generics,
            &mut sig.inputs,
            &lifetimes.elided,
            &used,
            mode,
            has_self,
            has_default,
            future_type,
        );
        normalize_inputs(&mut sig.inputs, "async_trait");
        Outlives::Task
    };
    let bounds = FutureBounds { send: future_type.is_send(), outlives };
    sig.output = output_for(&sig.ident, &sig.generics.params, ret, future_type, bounds);
    bounds
}

/// A method without generic parameters and without elided lifetimes that
/// does not refer to the receiver or the owning type, and whose parameters
/// use no lifetime of the declaration around it, gets no task lifetime: its
/// generic parameters and constraints stay as they are written, and the
/// computation it returns is bounded by `'static`.
pub proof fn lemma_nothing_captured_is_static(
    ctx: ContextView,
    sig: SignatureView,
    has_default: bool,
    future_type: FutureType,
)
    requires
        sig.generics.params.len() == 0,
        inputs_elided(sig.inputs, sig.inputs.len()) == 0,
        used_of(ctx, sig).len() == 0,
    ensures
        bounds_of(ctx, sig, false, future_type).outlives == Outlives::Static,
        transformed(ctx, sig, false, has_default, future_type).generics == sig.generics,
        future_type.boxed() ==> transformed(ctx, sig, false, has_default, future_type).output
            == (ReturnTypeView::Boxed {
            output: sig.written_output(),
            bounds: FutureBounds { send: future_type.send(), outlives: Outlives::Static },
        }),
{
}

/// A method that takes its receiver by shared borrow asks the owning type to
/// be thread-shareable; one that takes it by exclusive borrow or by value
/// asks it to be thread-sendable.
pub proof fn lemma_inferred_capability(mode: AccessMode)
    ensures
        mode == AccessMode::Reference ==> required_bounds(Some(mode)) == seq![InferredBound::Sync],
        mode == AccessMode::MutableReference || mode == AccessMode::Value ==> required_bounds(
            Some(mode),
        ) == seq![InferredBound::Send],
{
}

/// Every capability that is written into the signature is one that the
/// receiver asks for, and they are written in the order in which they are
/// asked for.
proof fn lemma_added_bounds_all(
    ctx: ContextView,
    has_default: bool,
    future_type: FutureType,
    required: Seq<InferredBound>,
    k: nat,
)
    requires
        k <= required.len(),
        forall|i: int|
            0 <= i < k ==> bound_added(ctx, has_default, future_type, #[trigger] required[i]),
    ensures
        added_bounds(ctx, has_default, future_type, required, k) == Seq::new(
            k,
            |i: int| marker_bound(required[i]),
        ),
    decreases k,
{
    if k > 0 {
        lemma_added_bounds_all(ctx, has_default, future_type, required, (k - 1) as nat);
    }
    assert(added_bounds(ctx, has_default, future_type, required, k) =~= Seq::new(
        k,
        |i: int| marker_bound(required[i]),
    ));
}

/// Where none of the first `k` capabilities is written, nothing is written.
proof fn lemma_added_bounds_none(
    ctx: ContextView,
    has_default: bool,
    future_type: FutureType,
    required: Seq<InferredBound>,
    k: nat,
)
    requires
        k <= required.len(),
        forall|i: int|
            0 <= i < k ==> !bound_added(ctx, has_default, future_type, #[trigger] required[i]),
    ensures
        added_bounds(ctx, has_default, future_type, required, k) == Seq::<NodeView>::empty(),
    decreases k,
{
    if k > 0 {
        lemma_added_bounds_none(ctx, has_default, future_type, required, (k - 1) as nat);
    }
}

/// The constraint on the owning type is the last constraint of a rewritten
/// method that refers to the receiver or the owning type.
pub proof fn lemma_self_predicate_is_last(
    ctx: ContextView,
    sig: SignatureView,
    has_default: bool,
    future_type: FutureType,
)
    ensures
        transformed(ctx, sig, true, has_default, future_type).generics.predicates.len() > 0,
        transformed(ctx, sig, true, has_default, future_type).generics.predicates.last()
            == self_predicate(ctx, mode_of(sig.inputs), has_default, future_type),
{
}

/// In an interface, a method without a default body whose computation can be
/// sent gets every capability that its receiver asks for written into its
/// signature: for a shared borrow the owning type is constrained to be
/// thread-shareable, for an exclusive borrow or a receiver by value to be
/// thread-sendable.
pub proof fn lemma_required_method_states_capability(
    ctx: ContextView,
    mode: Option<AccessMode>,
    future_type: FutureType,
)
    requires
        ctx is Trait,
        future_type.send(),
    ensures
        self_predicate(ctx, mode, false, future_type) == (WherePredicateView::Type {
            lifetimes: Seq::empty(),
            bounded: type_path("Self"@),
            bounds: Seq::new(
                required_bounds(mode).len(),
                |i: int| marker_bound(required_bounds(mode)[i]),
            ).push(lifetime_bound(task_lifetime())),
        }),
        mode == Some(AccessMode::Reference) ==> self_predicate(ctx, mode, false, future_type)
            ->bounds == seq![marker_bound(InferredBound::Sync), lifetime_bound(task_lifetime())],
        mode == Some(AccessMode::MutableReference) || mode == Some(AccessMode::Value)
            ==> self_predicate(ctx, mode, false, future_type)->bounds == seq![
            marker_bound(InferredBound::Send),
            lifetime_bound(task_lifetime()),
        ],
{
    let required = required_bounds(mode);
    lemma_added_bounds_all(ctx, false, future_type, required, required.len());
    let bounds = self_predicate(ctx, mode, false, future_type)->bounds;
    if mode == Some(AccessMode::Reference) {
        assert(bounds =~= seq![marker_bound(InferredBound::Sync), lifetime_bound(task_lifetime())]);
    }
    if mode == Some(AccessMode::MutableReference) || mode == Some(AccessMode::Value) {
        assert(bounds =~= seq![marker_bound(InferredBound::Send), lifetime_bound(task_lifetime())]);
    }
}

/// In an interface that declares every capability that the receiver asks for
/// as a supertrait, a method with a default body gets none of them written
/// into its signature: the owning type is only constrained to outlive the
/// task lifetime.
pub proof fn lemma_declared_capability_is_omitted(
    ctx: ContextView,
    mode: Option<AccessMode>,
    future_type: FutureType,
)
    requires
        ctx matches ContextView::Trait { supertraits, .. } && forall|i: int|
            0 <= i < required_bounds(mode).len() ==> declares_bound(
                supertraits,
                #[trigger] required_bounds(mode)[i],
            ),
    ensures
        self_predicate(ctx, mode, true, future_type)->bounds == seq![
            lifetime_bound(task_lifetime()),
        ],
{
    let required = required_bounds(mode);
    lemma_added_bounds_none(ctx, true, future_type, required, required.len());
    assert(self_predicate(ctx, mode, true, future_type)->bounds =~= seq![
        lifetime_bound(task_lifetime()),
    ]);
}

/// In an implementation no capability is written into the signature of a
/// method: the compiler sees what the concrete type allows.
pub proof fn lemma_implementation_states_no_capability(
    ctx: ContextView,
    mode: Option<AccessMode>,
    has_default: bool,
    future_type: FutureType,
)
    requires
        ctx is Impl,
    ensures
        self_predicate(ctx, mode, has_default, future_type)->bounds == seq![
            lifetime_bound(task_lifetime()),
        ],
{
    let required = required_bounds(mode);
    lemma_added_bounds_none(ctx, has_default, future_type, required, required.len());
    assert(self_predicate(ctx, mode, has_default, future_type)->bounds =~= seq![
        lifetime_bound(task_lifetime()),
    ]);
}

/// Where the computation stays on its thread, no capability is written into
/// the signature, however the method takes its receiver, and the computation
/// itself is not asked to be sendable.
pub proof fn lemma_local_states_no_capability(
    ctx: ContextView,
    sig: SignatureView,
    mode: Option<AccessMode>,
    has_self: bool,
    has_default: bool,
    future_type: FutureType,
)
    requires
        !future_type.send(),
    ensures
        self_predicate(ctx, mode, has_default, future_type)->bounds == seq![
            lifetime_bound(task_lifetime()),
        ],
        !bounds_of(ctx, sig, has_self, future_type).send,
{
    let required = required_bounds(mode);
    lemma_added_bounds_none(ctx, has_default, future_type, required, required.len());
    assert(self_predicate(ctx, mode, has_default, future_type)->bounds =~= seq![
        lifetime_bound(task_lifetime()),
    ]);
}

/// Where none of the parameters holds an elision site, none of their
/// prefixes does.
proof fn lemma_no_elision_in_inputs(inputs: Seq<FnArgView>, k: nat)
    requires
        forall|i: int| 0 <= i < inputs.len() ==> arg_elided(#[trigger] inputs[i]) == 0,
    ensures
        inputs_elided(inputs, k) == 0,
    decreases k,
{
    if k > 0 && k <= inputs.len() {
        lemma_no_elision_in_inputs(inputs, (k - 1) as nat);
    }
}

/// The lifetime of the task is not the anonymous lifetime.
proof fn lemma_task_lifetime_is_named()
    ensures
        task_lifetime() != "_"@,
{
    reveal_strlit("async_trait");
    reveal_strlit("_");
    assert(task_lifetime()[0] == 'a');
    assert("_"@[0] == '_');
}

/// No lifetime is left elided in the receiver and the parameter types of a
/// rewritten method.
pub proof fn lemma_no_elided_lifetime_remains(
    ctx: ContextView,
    sig: SignatureView,
    has_self: bool,
    has_default: bool,
    future_type: FutureType,
)
    ensures
        inputs_elided(
            transformed(ctx, sig, has_self, has_default, future_type).inputs,
            sig.inputs.len(),
        ) == 0,
{
    let named = inputs_named(sig.inputs);
    let out = transformed(ctx, sig, has_self, has_default, future_type).inputs;
    lemma_task_lifetime_is_named();
    assert forall|i: int| 0 <= i < out.len() implies arg_elided(#[trigger] out[i]) == 0 by {
        let next = inputs_elided(sig.inputs, i as nat);
        match sig.inputs[i] {
            FnArgView::Receiver(r) => {
                lemma_named_receiver_leaves_no_elision(r, next);
            },
            FnArgView::Typed(t) => {
                lemma_named_leaves_no_elision(t.ty, next);
            },
        }
        assert(arg_elided(named[i]) == 0);
        let middle = if captures_nothing(ctx, sig, has_self) {
            named[i]
        } else {
            constrained_inputs(named, future_type)[i]
        };
        assert(arg_elided(middle) == 0);
        let outlives = if captures_nothing(ctx, sig, has_self) {
            outlives_name(Outlives::Static)
        } else {
            task_lifetime()
        };
        assert(out[i] == normalized_arg(middle, i as nat, outlives));
        match middle {
            FnArgView::Receiver(_) => {},
            FnArgView::Typed(t) => {
                lemma_bound_keeps_elisions(outlives, t.ty);
            },
        }
    }
    lemma_no_elision_in_inputs(out, sig.inputs.len());
}

/// Under every strategy but the collapsed one, a method whose computation
/// captures borrowed values gets one new lifetime parameter for every
/// elision site of its receiver and parameter types, behind the parameters
/// that it declares and before the task lifetime. The site that is written
/// `i`-th gets the `i`-th invented name, and no two sites get the same name.
pub proof fn lemma_one_name_for_each_elision(
    ctx: ContextView,
    sig: SignatureView,
    has_self: bool,
    has_default: bool,
    future_type: FutureType,
)
    requires
        !captures_nothing(ctx, sig, has_self),
        future_type != FutureType::UnboxedSimpleSend,
    ensures
        ({
            let sites = inputs_elided(sig.inputs, sig.inputs.len());
            let declared = sig.generics.params.len();
            let params = transformed(ctx, sig, has_self, has_default, future_type).generics.params;
            &&& params.len() == declared + sites + 1
            &&& forall|i: int|
                0 <= i < sites ==> #[trigger] params[declared + i] == (GenericParamView::Lifetime {
                    ident: life_name(i as nat),
                    outlives: Seq::empty(),
                })
            &&& params.last() == task_param()
            &&& forall|i: nat, j: nat|
                #![trigger life_name(i), life_name(j)]
                i != j ==> life_name(i) != life_name(j)
        }),
{
    assert forall|i: nat, j: nat| #![trigger life_name(i), life_name(j)] i != j implies life_name(
        i,
    ) != life_name(j) by {
        lemma_life_names_differ(i, j);
    }
}

/// The constraint of a generic parameter stands among the constraints of
/// the parameters up to it.
proof fn lemma_param_predicate_is_held(params: Seq<GenericParamView>, k: nat, i: int)
    requires
        0 <= i < k <= params.len(),
        param_predicate(params[i]) is Some,
    ensures
        param_predicates(params, k).contains(param_predicate(params[i])->0),
    decreases k,
{
    let before = param_predicates(params, (k - 1) as nat);
    if i == k - 1 {
        let all = param_predicates(params, k);
        assert(all == before.push(param_predicate(params[i])->0));
        assert(all[all.len() - 1] == param_predicate(params[i])->0);
    } else {
        lemma_param_predicate_is_held(params, (k - 1) as nat, i);
        let j = choose|j: int| 0 <= j < before.len() && before[j] == param_predicate(params[i])->0;
        let all = param_predicates(params, k);
        assert(all[j] == before[j]);
    }
}

/// Under every strategy but the collapsed one, a method whose computation
/// captures borrowed values constrains each of its generic type and lifetime
/// parameters, and each lifetime that was elided in its parameters, to
/// outlive the task lifetime.
pub proof fn lemma_parameters_outlive_task(
    ctx: ContextView,
    sig: SignatureView,
    has_self: bool,
    has_default: bool,
    future_type: FutureType,
    i: int,
)
    requires
        !captures_nothing(ctx, sig, has_self),
        future_type != FutureType::UnboxedSimpleSend,
    ensures
        ({
            let predicates = transformed(
                ctx,
                sig,
                has_self,
                has_default,
                future_type,
            ).generics.predicates;
            &&& 0 <= i < sig.generics.params.len() ==> match sig.generics.params[i] {
                GenericParamView::Lifetime { ident, outlives } => predicates.contains(
                    WherePredicateView::Lifetime {
                        ident,
                        outlives: seq![task_lifetime()] + outlives,
                    },
                ),
                GenericParamView::Type { ident, bounds, .. } => predicates.contains(
                    WherePredicateView::Type {
                        lifetimes: Seq::empty(),
                        bounded: type_path(ident),
                        bounds: seq![lifetime_bound(task_lifetime())] + bounds,
                    },
                ),
                GenericParamView::Const { .. } => true,
            }
            &&& 0 <= i < inputs_elided(sig.inputs, sig.inputs.len()) ==> predicates.contains(
                WherePredicateView::Lifetime {
                    ident: life_name(i as nat),
                    outlives: seq![task_lifetime()],
                },
            )
        }),
{
    let params = sig.generics.params;
    let named = inputs_named(sig.inputs);
    let predicates = transformed(ctx, sig, has_self, has_default, future_type).generics.predicates;
    let first = sig.generics.predicates + (if future_type == FutureType::UnboxedSend {
        reference_predicates(named, named.len())
    } else {
        Seq::empty()
    });
    let own = param_predicates(params, params.len());
    let used = outlive_task(used_of(ctx, sig));
    let elided = outlive_task(elided_of(sig));
    let last: Seq<WherePredicateView> = if has_self {
        seq![self_predicate(ctx, mode_of(sig.inputs), has_default, future_type)]
    } else {
        Seq::empty()
    };
    assert(predicates == first + (own + used + elided) + last);
    if 0 <= i < params.len() && param_predicate(params[i]) is Some {
        lemma_param_predicate_is_held(params, params.len(), i);
        let j = choose|j: int| 0 <= j < own.len() && own[j] == param_predicate(params[i])->0;
        assert(predicates[first.len() + j] == own[j]);
    }
    if 0 <= i < inputs_elided(sig.inputs, sig.inputs.len()) {
        assert(elided[i] == (WherePredicateView::Lifetime {
            ident: life_name(i as nat),
            outlives: seq![task_lifetime()],
        }));
        assert(predicates[first.len() + own.len() + used.len() + i] == elided[i]);
    }
}

/// The capabilities that are written for the first `k` that are asked for
/// hold every one of them that is to be written.
proof fn lemma_added_bound_is_held(
    ctx: ContextView,
    has_default: bool,
    future_type: FutureType,
    required: Seq<InferredBound>,
    k: nat,
    i: int,
)
    requires
        0 <= i < k <= required.len(),
        bound_added(ctx, has_default, future_type, required[i]),
    ensures
        added_bounds(ctx, has_default, future_type, required, k).contains(
            marker_bound(required[i]),
        ),
    decreases k,
{
    let before = added_bounds(ctx, has_default, future_type, required, (k - 1) as nat);
    let all = added_bounds(ctx, has_default, future_type, required, k);
    if i == k - 1 {
        assert(all == before.push(marker_bound(required[i])));
        assert(all[all.len() - 1] == marker_bound(required[i]));
    } else {
        lemma_added_bound_is_held(ctx, has_default, future_type, required, (k - 1) as nat, i);
        let j = choose|j: int| 0 <= j < before.len() && before[j] == marker_bound(required[i]);
        assert(all[j] == before[j]);
    }
}

/// In an interface, every capability that the receiver of a sendable method
/// asks for is declared by the interface as a supertrait or written into the
/// constraint on the owning type: the method never asks for less than its
/// body needs.
pub proof fn lemma_capability_is_declared_or_written(
    ctx: ContextView,
    mode: Option<AccessMode>,
    has_default: bool,
    future_type: FutureType,
    i: int,
)
    requires
        ctx is Trait,
        future_type.send(),
        0 <= i < required_bounds(mode).len(),
    ensures
        declares_bound(ctx->Trait_supertraits, required_bounds(mode)[i]) || self_predicate(
            ctx,
            mode,
            has_default,
            future_type,
        )->bounds.contains(marker_bound(required_bounds(mode)[i])),
{
    let required = required_bounds(mode);
    if !declares_bound(ctx->Trait_supertraits, required[i]) {
        lemma_added_bound_is_held(ctx, has_default, future_type, required, required.len(), i);
        let written = added_bounds(ctx, has_default, future_type, required, required.len());
        let j = choose|j: int| 0 <= j < written.len() && written[j] == marker_bound(required[i]);
        let bounds = self_predicate(ctx, mode, has_default, future_type)->bounds;
        assert(bounds[j] == written[j]);
    }
}

} // verus!
