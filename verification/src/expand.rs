//! The engine: rewriting every deferred method of a declaration.

use crate::body::{transform_block, transformed_block};
use crate::decl::{
    lemma_deep_view_concat, lemma_deep_view_push, Attribute, AttributeView, Block, BlockView, FnArg,
    FnArgView, GenericParam, GenericParamView, Generics, GenericsView, ImplItem, ImplItemFn,
    ImplItemFnView, ImplItemView, ImplicitType, ImplicitTypeView, Item, ItemImpl, ItemImplView,
    ItemTrait, ItemTraitView, ItemView, ReturnTypeView, Side, Signature, SignatureView, TraitItem,
    TraitItemFn, TraitItemFnView, TraitItemView,
};
use crate::implicit::{
    assign_implicit_associated_type, define_implicit_associated_type, implicit_type,
    ret_token_stream,
};
use crate::receiver::{has_self_in_block, has_self_in_sig};
use crate::search::{
    block_found, contains_name, search_block, search_signature, signature_found, Query, QueryView,
};
use crate::signature::{bounds_of, transform_sig, transformed};
use crate::substitute::{
    substituted_block, substituted_signature, substituted_type, ReplaceSelfType,
    ReplaceSelfTypeView,
};
use crate::syntax::{lemma_node_view, Node, NodeKind, NodeKindView, NodeView, Shape};
use crate::text::is_text;
use vstd::prelude::*;

verus! {

/// The form of the computation that a rewritten method returns.
#[derive(Clone, Copy, Debug, PartialEq, Eq, Structural)]
pub enum FutureType {
    /// Heap-allocated and dynamically dispatched; can be sent to another
    /// thread.
    BoxedSend,
    /// Heap-allocated and dynamically dispatched; stays on its thread.
    BoxedLocal,
    /// An opaque associated type with every lifetime of the method as a
    /// parameter; can be sent.
    UnboxedSend,
    /// An opaque associated type with every lifetime of the method as a
    /// parameter; stays on its thread.
    UnboxedLocal,
    /// An opaque associated type with one lifetime for all references and
    /// for the computation; can be sent.
    UnboxedSimpleSend,
    /// An opaque associated type with one lifetime for all references and
    /// for the computation; stays on its thread.
    UnboxedSimpleLocal,
}

impl FutureType {
    /// Whether the computation is returned behind a heap allocation.
    pub open spec fn boxed(self) -> bool {
        self == FutureType::BoxedSend || self == FutureType::BoxedLocal
    }

    /// Whether the computation can be sent to another thread.
    pub open spec fn send(self) -> bool {
        self == FutureType::BoxedSend || self == FutureType::UnboxedSend || self
            == FutureType::UnboxedSimpleSend
    }

    /// Whether the computation is returned behind a heap allocation.
    pub fn is_boxed(self) -> (r: bool)
        ensures
            r == self.boxed(),
    {
        match self {
            FutureType::BoxedSend | FutureType::BoxedLocal => true,
            FutureType::UnboxedSend
            | FutureType::UnboxedLocal
            | FutureType::UnboxedSimpleSend
            | FutureType::UnboxedSimpleLocal => false,
        }
    }

    /// Whether the computation can be sent to another thread.
    pub fn is_send(self) -> (r: bool)
        ensures
            r == self.send(),
    {
        match self {
            FutureType::BoxedSend | FutureType::UnboxedSend | FutureType::UnboxedSimpleSend => true,
            FutureType::BoxedLocal
            | FutureType::UnboxedLocal
            | FutureType::UnboxedSimpleLocal => false,
        }
    }
}

/// The output strategy that a single annotation selects, if it selects one.
pub open spec fn selected_by(attr: AttributeView, is_local: bool) -> Option<FutureType> {
    if attr.path.len() == 0 {
        None
    } else if attr.path.last() == "unboxed"@ {
        Some(
            if is_local {
                FutureType::UnboxedLocal
            } else {
                FutureType::UnboxedSend
            },
        )
    } else if attr.path.last() == "unboxed_simple"@ {
        Some(
            if is_local {
                FutureType::UnboxedSimpleLocal
            } else {
                FutureType::UnboxedSimpleSend
            },
        )
    } else {
        None
    }
}

/// The output strategy of a method: that of the first of its annotations,
/// from `from` on, that selects one; the boxed strategy where none does.
pub open spec fn selected(attrs: Seq<AttributeView>, is_local: bool, from: int) -> FutureType
    decreases attrs.len() - from,
{
    if from < 0 || from >= attrs.len() {
        if is_local {
            FutureType::BoxedLocal
        } else {
            FutureType::BoxedSend
        }
    } else {
        match selected_by(attrs[from], is_local) {
            Some(t) => t,
            None => selected(attrs, is_local, from + 1),
        }
    }
}

/// Determines the output strategy of a method from its annotations.
pub fn future_type_attr(attrs: &Vec<Attribute>, is_local: bool) -> (r: FutureType)
    ensures
        r == selected(attrs.deep_view(), is_local, 0),
{
    let mut i: usize = 0;
    while i < attrs.len()
        invariant
            i <= attrs.len(),
            selected(attrs.deep_view(), is_local, 0) == selected(
                attrs.deep_view(),
                is_local,
                i as int,
            ),
        decreases attrs.len() - i,
    {
        let attr = &attrs[i];
        assert(attrs.deep_view()[i as int] == attr@);
        if attr.path.len() > 0 {
            let last = &attr.path[attr.path.len() - 1];
            assert(attr@.path.last() == last@);
            if is_text(last, "unboxed") {
                return if is_local {
                    FutureType::UnboxedLocal
                } else {
                    FutureType::UnboxedSend
                };
            }
            if is_text(last, "unboxed_simple") {
                return if is_local {
                    FutureType::UnboxedSimpleLocal
                } else {
                    FutureType::UnboxedSimpleSend
                };
            }
        }
        i += 1;
    }
    if is_local {
        FutureType::BoxedLocal
    } else {
        FutureType::BoxedSend
    }
}

/// The declaration around a method.
#[derive(Clone, Copy, Debug)]
pub enum Context<'a> {
    /// An interface, with the capabilities that it declares as supertraits.
    Trait { generics: &'a Generics, supertraits: &'a Vec<Node> },
    /// An implementation, with the names of its associated types that are
    /// written as opaque types.
    Impl { impl_generics: &'a Generics, associated_type_impl_traits: &'a Vec<String> },
}

/// The mathematical value of a [`Context`].
pub enum ContextView {
    Trait { generics: GenericsView, supertraits: Seq<NodeView> },
    Impl { impl_generics: GenericsView, associated_type_impl_traits: Seq<Seq<char>> },
}

impl<'a> DeepView for Context<'a> {
    type V = ContextView;

    open spec fn deep_view(&self) -> ContextView {
        match *self {
            Context::Trait { generics, supertraits } => ContextView::Trait {
                generics: generics@,
                supertraits: supertraits.deep_view(),
            },
            Context::Impl { impl_generics, associated_type_impl_traits } => ContextView::Impl {
                impl_generics: impl_generics@,
                associated_type_impl_traits: associated_type_impl_traits.deep_view(),
            },
        }
    }
}

impl<'a> View for Context<'a> {
    type V = ContextView;

    open spec fn view(&self) -> ContextView {
        self.deep_view()
    }
}

impl ContextView {
    /// The generic parameters of the declaration.
    pub open spec fn params(self) -> Seq<GenericParamView> {
        match self {
            ContextView::Trait { generics, .. } => generics.params,
            ContextView::Impl { impl_generics, .. } => impl_generics.params,
        }
    }
}

/// The lifetime parameters among the first `k` of `params` whose names occur
/// in `used`, in the order in which they are declared.
pub open spec fn used_lifetimes(
    params: Seq<GenericParamView>,
    used: Seq<Seq<char>>,
    k: nat,
) -> Seq<Seq<char>>
    decreases k,
{
    if k == 0 || k > params.len() {
        Seq::empty()
    } else {
        let before = used_lifetimes(params, used, (k - 1) as nat);
        match params[k - 1] {
            GenericParamView::Lifetime { ident, .. } => if used.contains(ident) {
                before.push(ident)
            } else {
                before
            },
            _ => before,
        }
    }
}

impl Context<'_> {
    /// The lifetime parameters of the declaration that the method uses.
    pub fn lifetimes(&self, used: &Vec<String>) -> (r: Vec<String>)
        ensures
            r.deep_view() == used_lifetimes(
                self@.params(),
                used.deep_view(),
                self@.params().len(),
            ),
    {
        let generics = match self {
            Context::Trait { generics, .. } => generics,
            Context::Impl { impl_generics, .. } => impl_generics,
        };
        let mut out: Vec<String> = Vec::new();
        let mut i: usize = 0;
        assert(out.deep_view() =~= Seq::<Seq<char>>::empty());
        while i < generics.params.len()
            invariant
                i <= generics.params.len(),
                generics@.params == self@.params(),
                out.deep_view() == used_lifetimes(self@.params(), used.deep_view(), i as nat),
            decreases generics.params.len() - i,
        {
            let ghost before = out.deep_view();
            assert(generics@.params[i as int] == generics.params[i as int]@);
            match &generics.params[i] {
                GenericParam::Lifetime { ident, .. } => {
                    if contains_name(used, ident) {
                        out.push(ident.clone());
                        assert(out.deep_view() =~= before.push(ident@));
                    }
                },
                _ => {},
            }
            i += 1;
        }
        out
    }
}

/// Why the engine cannot rewrite a method.
#[derive(Clone, Copy, Debug, PartialEq, Eq, Structural)]
pub enum Unsupported {
    /// The type of a parameter is left for the compiler to infer.
    InferredParameter,
    /// `Self` is used as a value, and the concrete type of the
    /// implementation is not written as a path.
    SelfValue,
}

/// A method that was left as it is.
#[derive(Clone, Copy, Debug, PartialEq, Eq, Structural)]
pub struct Rejected {
    /// The place of the method among the members of the declaration.
    pub index: usize,
    pub reason: Unsupported,
}

/// Whether the type of one of the parameters is left to be inferred.
pub open spec fn has_inferred_parameter(inputs: Seq<FnArgView>) -> bool {
    exists|i: int|
        0 <= i < inputs.len() && ((#[trigger] inputs[i]) matches FnArgView::Typed(t) && t.ty.kind
            == NodeKindView::Shape(Shape::Infer))
}

/// Whether the method refers to the receiver or to the owning type, in its
/// signature or in its body.
pub open spec fn method_has_self(sig: SignatureView, body: Option<BlockView>) -> bool {
    signature_found(QueryView::OwningType, sig) || (body matches Some(b) && block_found(
        QueryView::OwningType,
        b,
    ))
}

/// Whether the method uses `Self` as a value, in its signature or in its
/// body.
pub open spec fn method_has_value_self(sig: SignatureView, body: Option<BlockView>) -> bool {
    signature_found(QueryView::ValueSelf, sig) || (body matches Some(b) && block_found(
        QueryView::ValueSelf,
        b,
    ))
}

/// The body of a method after it was rewritten.
pub open spec fn expanded_body(
    ctx: ContextView,
    sig: SignatureView,
    body: Option<BlockView>,
    future_type: FutureType,
) -> Option<BlockView> {
    match body {
        Some(b) => Some(transformed_block(ctx, sig, b, future_type)),
        None => None,
    }
}

/// A deferred method of an interface after it was rewritten.
pub open spec fn expanded_trait_fn(
    ctx: ContextView,
    m: TraitItemFnView,
    is_local: bool,
) -> TraitItemFnView {
    let future_type = selected(m.attrs, is_local, 0);
    TraitItemFnView {
        attrs: m.attrs,
        sig: transformed(
            ctx,
            m.sig,
            method_has_self(m.sig, m.default),
            m.default is Some,
            future_type,
        ),
        default: expanded_body(ctx, m.sig, m.default, future_type),
    }
}

/// The associated type that is emitted for a method with the signature
/// `sig`, under an opaque strategy.
pub open spec fn emitted_type(
    side: Side,
    ctx: ContextView,
    sig: SignatureView,
    has_self: bool,
    has_default: bool,
    future_type: FutureType,
) -> Option<ImplicitTypeView> {
    if future_type.boxed() {
        None
    } else {
        Some(
            implicit_type(
                side,
                transformed(ctx, sig, has_self, has_default, future_type),
                sig.written_output(),
                bounds_of(ctx, sig, has_self, future_type),
            ),
        )
    }
}

/// The associated type that is declared for a deferred method of an
/// interface.
pub open spec fn trait_fn_type(ctx: ContextView, m: TraitItemFnView, is_local: bool) -> Option<
    ImplicitTypeView,
> {
    emitted_type(
        Side::Declared,
        ctx,
        m.sig,
        method_has_self(m.sig, m.default),
        m.default is Some,
        selected(m.attrs, is_local, 0),
    )
}

/// Why a member of an interface is rejected, if it is.
pub open spec fn trait_item_rejection(item: TraitItemView) -> Option<Unsupported> {
    match item {
        TraitItemView::Fn(m) => if m.sig.is_deferred() && has_inferred_parameter(m.sig.inputs) {
            Some(Unsupported::InferredParameter)
        } else {
            None
        },
        _ => None,
    }
}

/// Whether a member of an interface is rewritten: it is a deferred method,
/// and it is not rejected.
pub open spec fn trait_item_rewritten(item: TraitItemView) -> bool {
    item matches TraitItemView::Fn(m) && m.sig.is_deferred() && !has_inferred_parameter(
        m.sig.inputs,
    )
}

/// A member of an interface after the engine has run.
pub open spec fn expanded_trait_item(
    ctx: ContextView,
    item: TraitItemView,
    is_local: bool,
) -> TraitItemView {
    if trait_item_rewritten(item) {
        TraitItemView::Fn(expanded_trait_fn(ctx, item->Fn_0, is_local))
    } else {
        item
    }
}

/// The associated type that is emitted for a member of an interface.
pub open spec fn trait_item_type(ctx: ContextView, item: TraitItemView, is_local: bool) -> Option<
    ImplicitTypeView,
> {
    if trait_item_rewritten(item) {
        trait_fn_type(ctx, item->Fn_0, is_local)
    } else {
        None
    }
}

/// The associated types that are emitted for the first `k` members of an
/// interface, in the order of the methods.
pub open spec fn emitted_trait_types(
    ctx: ContextView,
    items: Seq<TraitItemView>,
    is_local: bool,
    k: nat,
) -> Seq<TraitItemView>
    decreases k,
{
    if k == 0 || k > items.len() {
        Seq::empty()
    } else {
        let before = emitted_trait_types(ctx, items, is_local, (k - 1) as nat);
        match trait_item_type(ctx, items[k - 1], is_local) {
            Some(t) => before.push(TraitItemView::Type(t)),
            None => before,
        }
    }
}

/// The rejections among the first `k` members of an interface.
pub open spec fn trait_rejections(items: Seq<TraitItemView>, k: nat) -> Seq<Rejected>
    decreases k,
{
    if k == 0 || k > items.len() {
        Seq::empty()
    } else {
        let before = trait_rejections(items, (k - 1) as nat);
        match trait_item_rejection(items[k - 1]) {
            Some(reason) => before.push(Rejected { index: (k - 1) as usize, reason }),
            None => before,
        }
    }
}

/// The context that an interface gives to its methods.
pub open spec fn trait_context(t: ItemTraitView) -> ContextView {
    ContextView::Trait { generics: t.generics, supertraits: t.supertraits }
}

/// An interface after the engine has run: every member in its place, and
/// behind them the associated types that were emitted.
pub open spec fn expanded_trait(t: ItemTraitView, is_local: bool) -> ItemTraitView {
    let ctx = trait_context(t);
    ItemTraitView {
        generics: t.generics,
        supertraits: t.supertraits,
        items: Seq::new(t.items.len(), |i: int| expanded_trait_item(ctx, t.items[i], is_local))
            + emitted_trait_types(ctx, t.items, is_local, t.items.len()),
    }
}

/// The names of the associated types among the first `k` members of an
/// implementation that are assigned an opaque type.
pub open spec fn opaque_names(items: Seq<ImplItemView>, k: nat) -> Seq<Seq<char>>
    decreases k,
{
    if k == 0 || k > items.len() {
        Seq::empty()
    } else {
        let before = opaque_names(items, (k - 1) as nat);
        match items[k - 1] {
            ImplItemView::Associated { ident, impl_trait } => if impl_trait {
                before.push(ident)
            } else {
                before
            },
            _ => before,
        }
    }
}

/// The context that an implementation gives to its methods.
pub open spec fn impl_context(i: ItemImplView) -> ContextView {
    ContextView::Impl {
        impl_generics: i.generics,
        associated_type_impl_traits: opaque_names(i.items, i.items.len()),
    }
}

/// The substitution that an implementation asks for.
pub open spec fn impl_substitution(i: ItemImplView) -> ReplaceSelfTypeView {
    ReplaceSelfTypeView { with: i.self_ty, with_tokens: i.self_tokens, as_trait: i.trait_path }
}

/// Why a method of an implementation is rejected, if it is.
pub open spec fn impl_fn_rejection(s: ReplaceSelfTypeView, m: ImplItemFnView) -> Option<
    Unsupported,
> {
    if has_inferred_parameter(m.sig.inputs) {
        Some(Unsupported::InferredParameter)
    } else if !(s.with.kind is Path) && method_has_value_self(m.sig, m.block) {
        Some(Unsupported::SelfValue)
    } else {
        None
    }
}

/// Why a member of an implementation is rejected, if it is.
pub open spec fn impl_item_rejection(s: ReplaceSelfTypeView, item: ImplItemView) -> Option<
    Unsupported,
> {
    match item {
        ImplItemView::Fn(m) => if m.sig.is_deferred() {
            impl_fn_rejection(s, m)
        } else {
            None
        },
        _ => None,
    }
}

/// Whether a member of an implementation is rewritten.
pub open spec fn impl_item_rewritten(s: ReplaceSelfTypeView, item: ImplItemView) -> bool {
    item matches ImplItemView::Fn(m) && m.sig.is_deferred() && impl_fn_rejection(s, m) is None
}

/// A deferred method of an implementation after it was rewritten and `Self`
/// was replaced by the concrete type.
pub open spec fn expanded_impl_fn(
    ctx: ContextView,
    s: ReplaceSelfTypeView,
    m: ImplItemFnView,
    is_local: bool,
) -> ImplItemFnView {
    let future_type = selected(m.attrs, is_local, 0);
    ImplItemFnView {
        attrs: m.attrs,
        sig: substituted_signature(
            s,
            transformed(ctx, m.sig, method_has_self(m.sig, m.block), false, future_type),
        ),
        block: match expanded_body(ctx, m.sig, m.block, future_type) {
            Some(b) => Some(substituted_block(s, b)),
            None => None,
        },
    }
}

/// The associated type that is assigned for a deferred method of an
/// implementation.
pub open spec fn impl_fn_type(
    ctx: ContextView,
    s: ReplaceSelfTypeView,
    m: ImplItemFnView,
    is_local: bool,
) -> Option<ImplicitTypeView> {
    match emitted_type(
        Side::Assigned,
        ctx,
        m.sig,
        method_has_self(m.sig, m.block),
        false,
        selected(m.attrs, is_local, 0),
    ) {
        Some(t) => Some(substituted_type(s, t)),
        None => None,
    }
}

/// A member of an implementation after the engine has run.
pub open spec fn expanded_impl_item(
    ctx: ContextView,
    s: ReplaceSelfTypeView,
    item: ImplItemView,
    is_local: bool,
) -> ImplItemView {
    if impl_item_rewritten(s, item) {
        ImplItemView::Fn(expanded_impl_fn(ctx, s, item->Fn_0, is_local))
    } else {
        item
    }
}

/// The associated type that is emitted for a member of an implementation.
pub open spec fn impl_item_type(
    ctx: ContextView,
    s: ReplaceSelfTypeView,
    item: ImplItemView,
    is_local: bool,
) -> Option<ImplicitTypeView> {
    if impl_item_rewritten(s, item) {
        impl_fn_type(ctx, s, item->Fn_0, is_local)
    } else {
        None
    }
}

/// The associated types that are emitted for the first `k` members of an
/// implementation, in the order of the methods.
pub open spec fn emitted_impl_types(
    ctx: ContextView,
    s: ReplaceSelfTypeView,
    items: Seq<ImplItemView>,
    is_local: bool,
    k: nat,
) -> Seq<ImplItemView>
    decreases k,
{
    if k == 0 || k > items.len() {
        Seq::empty()
    } else {
        let before = emitted_impl_types(ctx, s, items, is_local, (k - 1) as nat);
        match impl_item_type(ctx, s, items[k - 1], is_local) {
            Some(t) => before.push(ImplItemView::Type(t)),
            None => before,
        }
    }
}

/// The rejections among the first `k` members of an implementation.
pub open spec fn impl_rejections(
    s: ReplaceSelfTypeView,
    items: Seq<ImplItemView>,
    k: nat,
) -> Seq<Rejected>
    decreases k,
{
    if k == 0 || k > items.len() {
        Seq::empty()
    } else {
        let before = impl_rejections(s, items, (k - 1) as nat);
        match impl_item_rejection(s, items[k - 1]) {
            Some(reason) => before.push(Rejected { index: (k - 1) as usize, reason }),
            None => before,
        }
    }
}

/// An implementation after the engine has run.
pub open spec fn expanded_impl(i: ItemImplView, is_local: bool) -> ItemImplView {
    let ctx = impl_context(i);
    let s = impl_substitution(i);
    ItemImplView {
        generics: i.generics,
        trait_path: i.trait_path,
        self_ty: i.self_ty,
        self_tokens: i.self_tokens,
        items: Seq::new(i.items.len(), |k: int| expanded_impl_item(ctx, s, i.items[k], is_local))
            + emitted_impl_types(ctx, s, i.items, is_local, i.items.len()),
    }
}

/// A declaration after the engine has run.
pub open spec fn expanded(item: ItemView, is_local: bool) -> ItemView {
    match item {
        ItemView::Trait(t) => ItemView::Trait(expanded_trait(t, is_local)),
        ItemView::Impl(i) => ItemView::Impl(expanded_impl(i, is_local)),
    }
}

/// The methods of a declaration that the engine rejects.
pub open spec fn rejections(item: ItemView) -> Seq<Rejected> {
    match item {
        ItemView::Trait(t) => trait_rejections(t.items, t.items.len()),
        ItemView::Impl(i) => impl_rejections(impl_substitution(i), i.items, i.items.len()),
    }
}

fn inferred_parameter(inputs: &Vec<FnArg>) -> (r: bool)
    ensures
        r == has_inferred_parameter(inputs.deep_view()),
{
    let mut i: usize = 0;
    while i < inputs.len()
        invariant
            i <= inputs.len(),
            forall|j: int|
                0 <= j < i ==> !((#[trigger] inputs.deep_view()[j]) matches FnArgView::Typed(t)
                    && t.ty.kind == NodeKindView::Shape(Shape::Infer)),
        decreases inputs.len() - i,
    {
        assert(inputs.deep_view()[i as int] == inputs[i as int]@);
        match &inputs[i] {
            FnArg::Typed(arg) => {
                proof {
                    lemma_node_view(arg.ty);
                }
                match &arg.ty.kind {
                    NodeKind::Shape(Shape::Infer) => {
                        return true;
                    },
                    _ => {},
                }
            },
            _ => {},
        }
        i += 1;
    }
    false
}

fn is_deferred(sig: &Signature) -> (r: bool)
    ensures
        r == sig@.is_deferred(),
{
    sig.asyncness && match &sig.output {
        crate::decl::ReturnType::Default => true,
        crate::decl::ReturnType::Type(_) => true,
        _ => false,
    }
}

fn has_self_in(sig: &Signature, body: &Option<Block>) -> (r: bool)
    ensures
        r == method_has_self(sig@, body.deep_view()),
{
    if has_self_in_sig(sig) {
        return true;
    }
    match body {
        Some(block) => has_self_in_block(block),
        None => false,
    }
}

fn has_value_self_in(sig: &Signature, body: &Option<Block>) -> (r: bool)
    ensures
        r == method_has_value_self(sig@, body.deep_view()),
{
    if search_signature(sig, &Query::ValueSelf) {
        return true;
    }
    match body {
        Some(block) => search_block(block, &Query::ValueSelf),
        None => false,
    }
}

/// Rewrites one deferred method of an interface, and returns the associated
/// type that goes with it under an opaque strategy.
fn expand_trait_fn(context: Context, method: &mut TraitItemFn, is_local: bool) -> (r: Option<
    ImplicitType,
>)
    requires
        old(method)@.sig.is_deferred(),
    ensures
        final(method)@ == expanded_trait_fn(context@, old(method)@, is_local),
        r.deep_view() == trait_fn_type(context@, old(method)@, is_local),
{
    let future_type = future_type_attr(&method.attrs, is_local);
    let ret = ret_token_stream(&method.sig.output);
    let has_self = has_self_in(&method.sig, &method.default);
    let has_default = method.default.is_some();
    match &mut method.default {
        Some(block) => {
            transform_block(context, &method.sig, block, future_type);
        },
        None => {},
    }
    let bounds = transform_sig(context, &mut method.sig, has_self, has_default, future_type);
    if !future_type.is_boxed() {
        Some(define_implicit_associated_type(&method.sig, &ret, bounds))
    } else {
        None
    }
}

/// Rewrites one deferred method of an implementation, replaces `Self` by
/// the concrete type, and returns the associated type that goes with the
/// method under an opaque strategy.
fn expand_impl_fn(
    context: Context,
    substitution: &ReplaceSelfType,
    method: &mut ImplItemFn,
    is_local: bool,
) -> (r: Option<ImplicitType>)
    requires
        old(method)@.sig.is_deferred(),
    ensures
        final(method)@ == expanded_impl_fn(context@, substitution@, old(method)@, is_local),
        r.deep_view() == impl_fn_type(context@, substitution@, old(method)@, is_local),
{
    let future_type = future_type_attr(&method.attrs, is_local);
    let ret = ret_token_stream(&method.sig.output);
    let has_self = has_self_in(&method.sig, &method.block);
    match &mut method.block {
        Some(block) => {
            transform_block(context, &method.sig, block, future_type);
            substitution.visit_block_mut(block);
        },
        None => {},
    }
    let bounds = transform_sig(context, &mut method.sig, has_self, false, future_type);
    let emitted = if !future_type.is_boxed() {
        let mut ty = assign_implicit_associated_type(&method.sig, &ret, bounds);
        substitution.visit_type_mut(&mut ty);
        Some(ty)
    } else {
        None
    };
    substitution.visit_signature_mut(&mut method.sig);
    emitted
}

fn opaque_names_of(items: &Vec<ImplItem>) -> (r: Vec<String>)
    ensures
        r.deep_view() == opaque_names(items.deep_view(), items.len() as nat),
{
    let mut out: Vec<String> = Vec::new();
    assert(out.deep_view() =~= Seq::<Seq<char>>::empty());
    let mut i: usize = 0;
    while i < items.len()
        invariant
            i <= items.len(),
            out.deep_view() == opaque_names(items.deep_view(), i as nat),
        decreases items.len() - i,
    {
        assert(items.deep_view()[i as int] == items[i as int]@);
        match &items[i] {
            ImplItem::Associated { ident, impl_trait } => {
                if *impl_trait {
                    let ghost before = out;
                    out.push(ident.clone());
                    proof {
                        lemma_deep_view_push(before, *ident, out);
                    }
                }
            },
            _ => {},
        }
        i += 1;
    }
    out
}

fn expand_trait(input: &mut ItemTrait, is_local: bool) -> (r: Vec<Rejected>)
    ensures
        final(input)@ == expanded_trait(old(input)@, is_local),
        r@ == trait_rejections(old(input)@.items, old(input)@.items.len()),
{
    let ghost before = old(input)@;
    let ghost ctx = trait_context(before);
    let ghost ov = before.items;
    let mut implicit: Vec<TraitItem> = Vec::new();
    let mut rejected: Vec<Rejected> = Vec::new();
    assert(implicit.deep_view() =~= Seq::<TraitItemView>::empty());
    let context = Context::Trait { generics: &input.generics, supertraits: &input.supertraits };
    let mut i: usize = 0;
    while i < input.items.len()
        invariant
            i <= input.items.len(),
            input.items.len() == ov.len(),
            context@ == ctx,
            input.generics@ == before.generics,
            input.supertraits.deep_view() == before.supertraits,
            implicit.deep_view() == emitted_trait_types(ctx, ov, is_local, i as nat),
            rejected@ == trait_rejections(ov, i as nat),
            forall|j: int|
                0 <= j < i ==> #[trigger] input.items.deep_view()[j] == expanded_trait_item(
                    ctx,
                    ov[j],
                    is_local,
                ),
            forall|j: int| i <= j < input.items.len() ==> #[trigger] input.items.deep_view()[j] == ov[j],
        decreases input.items.len() - i,
    {
        let ghost items_before = input.items;
        assert(items_before.deep_view()[i as int] == ov[i as int]);
        match &mut input.items[i] {
            TraitItem::Fn(method) => {
                if is_deferred(&method.sig) {
                    if inferred_parameter(&method.sig.inputs) {
                        rejected.push(
                            Rejected { index: i, reason: Unsupported::InferredParameter },
                        );
                    } else {
                        match expand_trait_fn(context, method, is_local) {
                            Some(ty) => {
                                let ghost list = implicit;
                                let member = TraitItem::Type(ty);
                                implicit.push(member);
                                proof {
                                    lemma_deep_view_push(list, member, implicit);
                                }
                            },
                            None => {},
                        }
                    }
                }
            },
            _ => {},
        }
        proof {
            assert forall|j: int| 0 <= j < input.items.len() && j != i implies #[trigger] input.items.deep_view()[j]
                == items_before.deep_view()[j] by {
                assert(input.items@[j] == items_before@[j]);
            }
        }
        i += 1;
    }
    let ghost done = input.items;
    let ghost emitted = implicit;
    input.items.append(&mut implicit);
    proof {
        lemma_deep_view_concat(done, emitted, input.items);
        assert(done.deep_view() =~= Seq::new(
            ov.len(),
            |i: int| expanded_trait_item(ctx, ov[i], is_local),
        ));
    }
    rejected
}

fn expand_impl(input: &mut ItemImpl, is_local: bool) -> (r: Vec<Rejected>)
    ensures
        final(input)@ == expanded_impl(old(input)@, is_local),
        r@ == impl_rejections(
            impl_substitution(old(input)@),
            old(input)@.items,
            old(input)@.items.len(),
        ),
{
    let ghost before = old(input)@;
    let ghost ctx = impl_context(before);
    let ghost s = impl_substitution(before);
    let ghost ov = before.items;
    let associated_type_impl_traits = opaque_names_of(&input.items);
    let mut implicit: Vec<ImplItem> = Vec::new();
    let mut rejected: Vec<Rejected> = Vec::new();
    assert(implicit.deep_view() =~= Seq::<ImplItemView>::empty());
    let context = Context::Impl {
        impl_generics: &input.generics,
        associated_type_impl_traits: &associated_type_impl_traits,
    };
    let substitution = ReplaceSelfType {
        with: &input.self_ty,
        with_tokens: &input.self_tokens,
        as_trait: match &input.trait_path {
            Some(p) => Some(p),
            None => None,
        },
    };
    proof {
        lemma_node_view(input.self_ty);
    }
    let by_path = match &input.self_ty.kind {
        NodeKind::Path { .. } => true,
        _ => false,
    };
    let mut i: usize = 0;
    while i < input.items.len()
        invariant
            i <= input.items.len(),
            input.items.len() == ov.len(),
            context@ == ctx,
            substitution@ == s,
            by_path == (s.with.kind is Path),
            input.generics@ == before.generics,
            input.self_ty@ == before.self_ty,
            input.self_tokens.deep_view() == before.self_tokens,
            input.trait_path.deep_view() == before.trait_path,
            implicit.deep_view() == emitted_impl_types(ctx, s, ov, is_local, i as nat),
            rejected@ == impl_rejections(s, ov, i as nat),
            forall|j: int|
                0 <= j < i ==> #[trigger] input.items.deep_view()[j] == expanded_impl_item(
                    ctx,
                    s,
                    ov[j],
                    is_local,
                ),
            forall|j: int| i <= j < input.items.len() ==> #[trigger] input.items.deep_view()[j] == ov[j],
        decreases input.items.len() - i,
    {
        let ghost items_before = input.items;
        assert(items_before.deep_view()[i as int] == ov[i as int]);
        match &mut input.items[i] {
            ImplItem::Fn(method) => {
                if is_deferred(&method.sig) {
                    if inferred_parameter(&method.sig.inputs) {
                        rejected.push(
                            Rejected { index: i, reason: Unsupported::InferredParameter },
                        );
                    } else if !by_path && has_value_self_in(&method.sig, &method.block) {
                        rejected.push(Rejected { index: i, reason: Unsupported::SelfValue });
                    } else {
                        match expand_impl_fn(context, &substitution, method, is_local) {
                            Some(ty) => {
                                let ghost list = implicit;
                                let member = ImplItem::Type(ty);
                                implicit.push(member);
                                proof {
                                    lemma_deep_view_push(list, member, implicit);
                                }
                            },
                            None => {},
                        }
                    }
                }
            },
            _ => {},
        }
        proof {
            assert forall|j: int| 0 <= j < input.items.len() && j != i implies #[trigger] input.items.deep_view()[j]
                == items_before.deep_view()[j] by {
                assert(input.items@[j] == items_before@[j]);
            }
        }
        i += 1;
    }
    let ghost done = input.items;
    let ghost emitted = implicit;
    input.items.append(&mut implicit);
    proof {
        lemma_deep_view_concat(done, emitted, input.items);
        assert(done.deep_view() =~= Seq::new(
            ov.len(),
            |k: int| expanded_impl_item(ctx, s, ov[k], is_local),
        ));
    }
    rejected
}

/// Rewrites every deferred method of an interface or of an implementation,
/// and returns the methods that were rejected.
///
/// A rewritten method has the signature and the body that the strategy of
/// the method asks for; in an implementation `Self` is replaced by the
/// concrete type. Under an opaque strategy the associated type of the method
/// is added behind the members of the declaration. A method that the engine
/// cannot rewrite stays exactly as it was and is reported; every other
/// member stays as it was too.
pub fn expand(input: &mut Item, is_local: bool) -> (r: Vec<Rejected>)
    ensures
        final(input)@ == expanded(old(input)@, is_local),
        r@ == rejections(old(input)@),
{
    match input {
        Item::Trait(input) => expand_trait(input, is_local),
        Item::Impl(input) => expand_impl(input, is_local),
    }
}

/// Under the configuration for computations that stay on their thread,
/// every method gets a strategy that does not ask the computation to be
/// sendable.
pub proof fn lemma_local_is_never_send(attrs: Seq<AttributeView>, from: int)
    ensures
        !selected(attrs, true, from).send(),
    decreases attrs.len() - from,
{
    if 0 <= from < attrs.len() {
        lemma_local_is_never_send(attrs, from + 1);
    }
}

/// The name of the associated type of a method depends on the name of the
/// method alone: the rewritten method returns the type under the same name
/// under which the interface declares it and the implementation assigns it,
/// in whatever declaration the method stands and whatever else its signature
/// holds.
pub proof fn lemma_type_name_is_shared(
    declared_in: ContextView,
    declared: SignatureView,
    declared_self: bool,
    has_default: bool,
    assigned_in: ContextView,
    assigned: SignatureView,
    assigned_self: bool,
    future_type: FutureType,
)
    requires
        !future_type.boxed(),
        declared.ident == assigned.ident,
    ensures
        ({
            let in_trait = transformed(
                declared_in,
                declared,
                declared_self,
                has_default,
                future_type,
            );
            let in_impl = transformed(assigned_in, assigned, assigned_self, false, future_type);
            let name = crate::implicit::implicit_type_name(declared.ident);
            &&& in_trait.output is Associated
            &&& in_trait.output->Associated_ident == name
            &&& in_impl.output is Associated
            &&& in_impl.output->Associated_ident == name
            &&& emitted_type(
                Side::Declared,
                declared_in,
                declared,
                declared_self,
                has_default,
                future_type,
            )->0.ident == name
            &&& emitted_type(
                Side::Assigned,
                assigned_in,
                assigned,
                assigned_self,
                false,
                future_type,
            )->0.ident == name
        }),
{
}

/// A method of an implementation that is declared to return `Self` returns,
/// once rewritten under the boxed strategy, a computation that yields the
/// concrete type of the implementation.
pub proof fn lemma_returns_concrete_type(
    ctx: ContextView,
    s: ReplaceSelfTypeView,
    m: ImplItemFnView,
    is_local: bool,
)
    requires
        m.sig.output == ReturnTypeView::Type(crate::signature::type_path("Self"@)),
        selected(m.attrs, is_local, 0).boxed(),
    ensures
        expanded_impl_fn(ctx, s, m, is_local).sig.output is Boxed,
        expanded_impl_fn(ctx, s, m, is_local).sig.output->Boxed_output == Some(s.with),
{
    let self_type = crate::signature::type_path("Self"@);
    assert(crate::search::heads_with_self(self_type));
    assert(crate::substitute::substituted(s, self_type) == s.with);
}

} // verus!
