//! Declarations: signatures, methods, and the interfaces and implementations
//! that hold them.

use crate::syntax::{clone_nodes, Node, NodeView};
use crate::token::{clone_tokens, TokenTree, TokenTreeView};
use vstd::prelude::*;

verus! {

/// The values of a list that is made of two lists are the values of the
/// first followed by the values of the second.
pub proof fn lemma_deep_view_concat<T: DeepView>(a: Vec<T>, b: Vec<T>, c: Vec<T>)
    requires
        c@ == a@ + b@,
    ensures
        c.deep_view() == a.deep_view() + b.deep_view(),
{
    assert forall|j: int| 0 <= j < a.len() implies #[trigger] c.deep_view()[j] == a.deep_view()[j] by {
        assert(c@[j] == a@[j]);
    }
    assert forall|j: int| 0 <= j < b.len() implies #[trigger] c.deep_view()[a.len() + j]
        == b.deep_view()[j] by {
        assert(c@[a.len() + j] == b@[j]);
    }
    assert(c.deep_view() =~= a.deep_view() + b.deep_view());
}

/// The values of a list with one more item are the values of the list
/// followed by the value of the item.
pub proof fn lemma_deep_view_push<T: DeepView>(a: Vec<T>, x: T, c: Vec<T>)
    requires
        c@ == a@.push(x),
    ensures
        c.deep_view() == a.deep_view().push(x.deep_view()),
{
    assert forall|j: int| 0 <= j < a.len() implies #[trigger] c.deep_view()[j] == a.deep_view()[j] by {
        assert(c@[j] == a@[j]);
    }
    assert(c.deep_view() =~= a.deep_view().push(x.deep_view()));
}

/// A copy of a list of names.
pub fn clone_names(names: &Vec<String>) -> (r: Vec<String>)
    ensures
        r.deep_view() == names.deep_view(),
{
    let mut out: Vec<String> = Vec::new();
    let mut i: usize = 0;
    while i < names.len()
        invariant
            i <= names.len(),
            out.len() == i,
            forall|j: int| 0 <= j < i ==> (#[trigger] out[j])@ == names[j]@,
        decreases names.len() - i,
    {
        out.push(names[i].clone());
        i += 1;
    }
    assert(out.deep_view() =~= names.deep_view());
    out
}

/// A copy of an optional node.
pub fn clone_opt_node(node: &Option<Node>) -> (r: Option<Node>)
    ensures
        r.deep_view() == node.deep_view(),
{
    match node {
        Some(n) => Some(n.clone()),
        None => None,
    }
}

/// An annotation attached to a method or to a parameter.
#[derive(Debug, PartialEq, Eq)]
pub struct Attribute {
    /// The segments of the annotation's name.
    pub path: Vec<String>,
    /// What follows the name.
    pub tokens: Vec<TokenTree>,
}

/// The mathematical value of a [`Attribute`].
pub struct AttributeView {
    pub path: Seq<Seq<char>>,
    pub tokens: Seq<TokenTreeView>,
}

impl DeepView for Attribute {
    type V = AttributeView;

    open spec fn deep_view(&self) -> AttributeView {
        AttributeView { path: self.path.deep_view(), tokens: self.tokens.deep_view() }
    }
}

impl View for Attribute {
    type V = AttributeView;

    open spec fn view(&self) -> AttributeView {
        self.deep_view()
    }
}

impl Clone for Attribute {
    fn clone(&self) -> (r: Attribute)
        ensures
            r@ == self@,
    {
        Attribute { path: clone_names(&self.path), tokens: clone_tokens(&self.tokens) }
    }
}

/// The receiver of a method: `self`, `&self`, `&'a mut self`, `self: T`.
#[derive(Debug, PartialEq, Eq)]
pub struct Receiver {
    /// The `&` of a borrowed receiver, with the lifetime written after it.
    pub reference: Option<Option<String>>,
    /// The `mut` before `self`.
    pub mutable: bool,
    /// The type written after `self:`.
    pub ty: Option<Node>,
}

/// The mathematical value of a [`Receiver`].
pub struct ReceiverView {
    pub reference: Option<Option<Seq<char>>>,
    pub mutable: bool,
    pub ty: Option<NodeView>,
}

impl DeepView for Receiver {
    type V = ReceiverView;

    open spec fn deep_view(&self) -> ReceiverView {
        ReceiverView {
            reference: self.reference.deep_view(),
            mutable: self.mutable,
            ty: self.ty.deep_view(),
        }
    }
}

impl View for Receiver {
    type V = ReceiverView;

    open spec fn view(&self) -> ReceiverView {
        self.deep_view()
    }
}

/// A parameter that is written as a pattern and a type.
#[derive(Debug, PartialEq, Eq)]
pub struct PatType {
    pub attrs: Vec<Attribute>,
    pub pat: Node,
    pub ty: Node,
}

/// The mathematical value of a [`PatType`].
pub struct PatTypeView {
    pub attrs: Seq<AttributeView>,
    pub pat: NodeView,
    pub ty: NodeView,
}

impl DeepView for PatType {
    type V = PatTypeView;

    open spec fn deep_view(&self) -> PatTypeView {
        PatTypeView { attrs: self.attrs.deep_view(), pat: self.pat@, ty: self.ty@ }
    }
}

impl View for PatType {
    type V = PatTypeView;

    open spec fn view(&self) -> PatTypeView {
        self.deep_view()
    }
}

/// One parameter of a method.
#[derive(Debug, PartialEq, Eq)]
pub enum FnArg {
    Receiver(Receiver),
    Typed(PatType),
}

/// The mathematical value of a [`FnArg`].
pub enum FnArgView {
    Receiver(ReceiverView),
    Typed(PatTypeView),
}

impl DeepView for FnArg {
    type V = FnArgView;

    open spec fn deep_view(&self) -> FnArgView {
        match *self {
            FnArg::Receiver(r) => FnArgView::Receiver(r@),
            FnArg::Typed(t) => FnArgView::Typed(t@),
        }
    }
}

impl View for FnArg {
    type V = FnArgView;

    open spec fn view(&self) -> FnArgView {
        self.deep_view()
    }
}

/// One generic parameter of a declaration.
#[derive(Debug, PartialEq, Eq)]
pub enum GenericParam {
    /// `'a: 'b + 'c`.
    Lifetime { ident: String, outlives: Vec<String> },
    /// `T: Bound = Default`.
    Type { ident: String, bounds: Vec<Node>, default: Option<Node> },
    /// `const N: T = value`.
    Const { ident: String, ty: Node, value: Vec<TokenTree> },
}

/// The mathematical value of a [`GenericParam`].
pub enum GenericParamView {
    Lifetime { ident: Seq<char>, outlives: Seq<Seq<char>> },
    Type { ident: Seq<char>, bounds: Seq<NodeView>, default: Option<NodeView> },
    Const { ident: Seq<char>, ty: NodeView, value: Seq<TokenTreeView> },
}

impl DeepView for GenericParam {
    type V = GenericParamView;

    open spec fn deep_view(&self) -> GenericParamView {
        match *self {
            GenericParam::Lifetime { ident, outlives } => GenericParamView::Lifetime {
                ident: ident@,
                outlives: outlives.deep_view(),
            },
            GenericParam::Type { ident, bounds, default } => GenericParamView::Type {
                ident: ident@,
                bounds: bounds.deep_view(),
                default: default.deep_view(),
            },
            GenericParam::Const { ident, ty, value } => GenericParamView::Const {
                ident: ident@,
                ty: ty@,
                value: value.deep_view(),
            },
        }
    }
}

impl View for GenericParam {
    type V = GenericParamView;

    open spec fn view(&self) -> GenericParamView {
        self.deep_view()
    }
}

impl Clone for GenericParam {
    fn clone(&self) -> (r: GenericParam)
        ensures
            r@ == self@,
    {
        match self {
            GenericParam::Lifetime { ident, outlives } => GenericParam::Lifetime {
                ident: ident.clone(),
                outlives: clone_names(outlives),
            },
            GenericParam::Type { ident, bounds, default } => GenericParam::Type {
                ident: ident.clone(),
                bounds: clone_nodes(bounds),
                default: clone_opt_node(default),
            },
            GenericParam::Const { ident, ty, value } => GenericParam::Const {
                ident: ident.clone(),
                ty: ty.clone(),
                value: clone_tokens(value),
            },
        }
    }
}

/// One constraint of a `where` clause.
#[derive(Debug, PartialEq, Eq)]
pub enum WherePredicate {
    /// `'a: 'b + 'c`.
    Lifetime { ident: String, outlives: Vec<String> },
    /// `for<'x> T: Bound + 'a`.
    Type { lifetimes: Vec<String>, bounded: Node, bounds: Vec<Node> },
}

/// The mathematical value of a [`WherePredicate`].
pub enum WherePredicateView {
    Lifetime { ident: Seq<char>, outlives: Seq<Seq<char>> },
    Type { lifetimes: Seq<Seq<char>>, bounded: NodeView, bounds: Seq<NodeView> },
}

impl DeepView for WherePredicate {
    type V = WherePredicateView;

    open spec fn deep_view(&self) -> WherePredicateView {
        match *self {
            WherePredicate::Lifetime { ident, outlives } => WherePredicateView::Lifetime {
                ident: ident@,
                outlives: outlives.deep_view(),
            },
            WherePredicate::Type { lifetimes, bounded, bounds } => WherePredicateView::Type {
                lifetimes: lifetimes.deep_view(),
                bounded: bounded@,
                bounds: bounds.deep_view(),
            },
        }
    }
}

impl View for WherePredicate {
    type V = WherePredicateView;

    open spec fn view(&self) -> WherePredicateView {
        self.deep_view()
    }
}

impl Clone for WherePredicate {
    fn clone(&self) -> (r: WherePredicate)
        ensures
            r@ == self@,
    {
        match self {
            WherePredicate::Lifetime { ident, outlives } => WherePredicate::Lifetime {
                ident: ident.clone(),
                outlives: clone_names(outlives),
            },
            WherePredicate::Type { lifetimes, bounded, bounds } => WherePredicate::Type {
                lifetimes: clone_names(lifetimes),
                bounded: bounded.clone(),
                bounds: clone_nodes(bounds),
            },
        }
    }
}

/// The generic parameters of a declaration and its `where` clause.
#[derive(Debug, PartialEq, Eq)]
pub struct Generics {
    pub params: Vec<GenericParam>,
    /// The constraints after `where`; empty where there is no clause.
    pub predicates: Vec<WherePredicate>,
}

/// The mathematical value of a [`Generics`].
pub struct GenericsView {
    pub params: Seq<GenericParamView>,
    pub predicates: Seq<WherePredicateView>,
}

impl DeepView for Generics {
    type V = GenericsView;

    open spec fn deep_view(&self) -> GenericsView {
        GenericsView {
            params: self.params.deep_view(),
            predicates: self.predicates.deep_view(),
        }
    }
}

impl View for Generics {
    type V = GenericsView;

    open spec fn view(&self) -> GenericsView {
        self.deep_view()
    }
}

impl Clone for Generics {
    fn clone(&self) -> (r: Generics)
        ensures
            r@ == self@,
    {
        let mut params: Vec<GenericParam> = Vec::new();
        let mut i: usize = 0;
        while i < self.params.len()
            invariant
                i <= self.params.len(),
                params.len() == i,
                forall|j: int| 0 <= j < i ==> (#[trigger] params[j])@ == self.params[j]@,
            decreases self.params.len() - i,
        {
            params.push(self.params[i].clone());
            i += 1;
        }
        let mut predicates: Vec<WherePredicate> = Vec::new();
        let mut k: usize = 0;
        while k < self.predicates.len()
            invariant
                k <= self.predicates.len(),
                predicates.len() == k,
                forall|j: int| 0 <= j < k ==> (#[trigger] predicates[j])@ == self.predicates[j]@,
            decreases self.predicates.len() - k,
        {
            predicates.push(self.predicates[k].clone());
            k += 1;
        }
        assert(params.deep_view() =~= self.params.deep_view());
        assert(predicates.deep_view() =~= self.predicates.deep_view());
        Generics { params, predicates }
    }
}

impl Generics {
    /// No parameters and no constraints.
    pub fn new() -> (r: Generics)
        ensures
            r@ == (GenericsView { params: Seq::empty(), predicates: Seq::empty() }),
    {
        let r = Generics { params: Vec::new(), predicates: Vec::new() };
        assert(r.params.deep_view() =~= Seq::empty());
        assert(r.predicates.deep_view() =~= Seq::empty());
        r
    }
}

/// How long the produced computation may be kept.
#[derive(Clone, Copy, Debug, PartialEq, Eq, Structural)]
pub enum Outlives {
    /// Without limit: the computation has captured nothing that is borrowed.
    Static,
    /// As long as the task lifetime of the method.
    Task,
}

/// The bounds on the computation that a rewritten method returns.
#[derive(Clone, Copy, Debug, PartialEq, Eq, Structural)]
pub struct FutureBounds {
    /// The computation can be moved to another thread.
    pub send: bool,
    pub outlives: Outlives,
}

/// The name of a generic parameter, used as an argument.
#[derive(Debug, PartialEq, Eq)]
pub enum ParamName {
    Lifetime(String),
    Type(String),
    Const(String),
}

/// The mathematical value of a [`ParamName`].
pub enum ParamNameView {
    Lifetime(Seq<char>),
    Type(Seq<char>),
    Const(Seq<char>),
}

impl DeepView for ParamName {
    type V = ParamNameView;

    open spec fn deep_view(&self) -> ParamNameView {
        match *self {
            ParamName::Lifetime(s) => ParamNameView::Lifetime(s@),
            ParamName::Type(s) => ParamNameView::Type(s@),
            ParamName::Const(s) => ParamNameView::Const(s@),
        }
    }
}

impl View for ParamName {
    type V = ParamNameView;

    open spec fn view(&self) -> ParamNameView {
        self.deep_view()
    }
}

/// What a method returns.
#[derive(Debug, PartialEq, Eq)]
pub enum ReturnType {
    /// Nothing is written: the method returns no value.
    Default,
    /// The type that is written after the arrow.
    Type(Node),
    /// A heap-allocated, pinned, dynamically dispatched computation that
    /// yields `output` (no value where it is `None`).
    Boxed { output: Option<Node>, bounds: FutureBounds },
    /// The associated type `ident` of the owning type, applied to
    /// `arguments`.
    Associated { ident: String, arguments: Vec<ParamName> },
}

/// The mathematical value of a [`ReturnType`].
pub enum ReturnTypeView {
    Default,
    Type(NodeView),
    Boxed { output: Option<NodeView>, bounds: FutureBounds },
    Associated { ident: Seq<char>, arguments: Seq<ParamNameView> },
}

impl DeepView for ReturnType {
    type V = ReturnTypeView;

    open spec fn deep_view(&self) -> ReturnTypeView {
        match *self {
            ReturnType::Default => ReturnTypeView::Default,
            ReturnType::Type(t) => ReturnTypeView::Type(t@),
            ReturnType::Boxed { output, bounds } => ReturnTypeView::Boxed {
                output: output.deep_view(),
                bounds,
            },
            ReturnType::Associated { ident, arguments } => ReturnTypeView::Associated {
                ident: ident@,
                arguments: arguments.deep_view(),
            },
        }
    }
}

impl View for ReturnType {
    type V = ReturnTypeView;

    open spec fn view(&self) -> ReturnTypeView {
        self.deep_view()
    }
}

/// The signature of a method.
#[derive(Debug, PartialEq, Eq)]
pub struct Signature {
    /// The method is declared as a deferred computation.
    pub asyncness: bool,
    pub ident: String,
    pub generics: Generics,
    pub inputs: Vec<FnArg>,
    pub output: ReturnType,
}

/// The mathematical value of a [`Signature`].
pub struct SignatureView {
    pub asyncness: bool,
    pub ident: Seq<char>,
    pub generics: GenericsView,
    pub inputs: Seq<FnArgView>,
    pub output: ReturnTypeView,
}

impl DeepView for Signature {
    type V = SignatureView;

    open spec fn deep_view(&self) -> SignatureView {
        SignatureView {
            asyncness: self.asyncness,
            ident: self.ident@,
            generics: self.generics@,
            inputs: self.inputs.deep_view(),
            output: self.output@,
        }
    }
}

impl View for Signature {
    type V = SignatureView;

    open spec fn view(&self) -> SignatureView {
        self.deep_view()
    }
}

impl SignatureView {
    /// The type that is written after the arrow, if any.
    pub open spec fn written_output(self) -> Option<NodeView> {
        match self.output {
            ReturnTypeView::Type(t) => Some(t),
            _ => None,
        }
    }

    /// Whether the signature is as its author wrote it: marked as deferred,
    /// with its own return type.
    pub open spec fn is_deferred(self) -> bool {
        self.asyncness && (self.output is Default || self.output is Type)
    }
}

/// A binding at the start of a rewritten body. It takes hold of a parameter
/// when the method is called, not when the computation first runs.
#[derive(Debug, PartialEq, Eq)]
pub enum Capture {
    /// `let __self = self;`
    Receiver { mutable: bool },
    /// `let x = x;`
    Named { attrs: Vec<Attribute>, mutable: bool, ident: String },
    /// `let __arg1 = __arg1;` for a parameter written as `_`.
    Positional { attrs: Vec<Attribute>, ident: String },
    /// `let (a, b) = { let __arg1 = __arg1; __arg1 };`
    Destructured { attrs: Vec<Attribute>, pat: Node, ident: String },
}

/// The mathematical value of a [`Capture`].
pub enum CaptureView {
    Receiver { mutable: bool },
    Named { attrs: Seq<AttributeView>, mutable: bool, ident: Seq<char> },
    Positional { attrs: Seq<AttributeView>, ident: Seq<char> },
    Destructured { attrs: Seq<AttributeView>, pat: NodeView, ident: Seq<char> },
}

impl DeepView for Capture {
    type V = CaptureView;

    open spec fn deep_view(&self) -> CaptureView {
        match *self {
            Capture::Receiver { mutable } => CaptureView::Receiver { mutable },
            Capture::Named { attrs, mutable, ident } => CaptureView::Named {
                attrs: attrs.deep_view(),
                mutable,
                ident: ident@,
            },
            Capture::Positional { attrs, ident } => CaptureView::Positional {
                attrs: attrs.deep_view(),
                ident: ident@,
            },
            Capture::Destructured { attrs, pat, ident } => CaptureView::Destructured {
                attrs: attrs.deep_view(),
                pat: pat@,
                ident: ident@,
            },
        }
    }
}

impl View for Capture {
    type V = CaptureView;

    open spec fn view(&self) -> CaptureView {
        self.deep_view()
    }
}

/// How the value of the written statements leaves a rewritten body.
#[derive(Debug, PartialEq, Eq)]
pub enum ResultBinding {
    /// `let () = { statements };`
    Unit,
    /// `let __ret: T = { statements }; __ret`, after a check that lets the
    /// compiler see the type where the statements never return.
    Typed(Node),
    /// The statements themselves, in a block of their own where captures
    /// come before them.
    Bare,
}

/// The mathematical value of a [`ResultBinding`].
pub enum ResultBindingView {
    Unit,
    Typed(NodeView),
    Bare,
}

impl DeepView for ResultBinding {
    type V = ResultBindingView;

    open spec fn deep_view(&self) -> ResultBindingView {
        match *self {
            ResultBinding::Unit => ResultBindingView::Unit,
            ResultBinding::Typed(t) => ResultBindingView::Typed(t@),
            ResultBinding::Bare => ResultBindingView::Bare,
        }
    }
}

impl View for ResultBinding {
    type V = ResultBindingView;

    open spec fn view(&self) -> ResultBindingView {
        self.deep_view()
    }
}

/// The body of a method.
#[derive(Debug, PartialEq, Eq)]
pub enum Block {
    /// The statements as their author wrote them.
    Written(Vec<Node>),
    /// A block that builds a deferred computation: `async move { .. }`, inside
    /// `Box::pin(..)` where `boxed` is set.
    Deferred { boxed: bool, captures: Vec<Capture>, result: ResultBinding, stmts: Vec<Node> },
}

/// The mathematical value of a [`Block`].
pub enum BlockView {
    Written(Seq<NodeView>),
    Deferred {
        boxed: bool,
        captures: Seq<CaptureView>,
        result: ResultBindingView,
        stmts: Seq<NodeView>,
    },
}

impl DeepView for Block {
    type V = BlockView;

    open spec fn deep_view(&self) -> BlockView {
        match *self {
            Block::Written(stmts) => BlockView::Written(stmts.deep_view()),
            Block::Deferred { boxed, captures, result, stmts } => BlockView::Deferred {
                boxed,
                captures: captures.deep_view(),
                result: result@,
                stmts: stmts.deep_view(),
            },
        }
    }
}

impl View for Block {
    type V = BlockView;

    open spec fn view(&self) -> BlockView {
        self.deep_view()
    }
}

/// On which side an associated type stands.
#[derive(Clone, Copy, Debug, PartialEq, Eq, Structural)]
pub enum Side {
    /// In the interface: the type is declared, with its bounds.
    Declared,
    /// In the implementation: the type is assigned an opaque computation.
    Assigned,
}

/// The associated type that stands for the computation of one method.
#[derive(Debug, PartialEq, Eq)]
pub struct ImplicitType {
    pub side: Side,
    pub ident: String,
    /// The generic parameters and constraints of the rewritten method, and
    /// the constraint that ties the owning type to the lifetime of a
    /// borrowed receiver.
    pub generics: Generics,
    /// What the computation yields; no value where it is `None`.
    pub output: Option<Node>,
    pub bounds: FutureBounds,
    /// The name of the method that returns this type.
    pub method: String,
}

/// The mathematical value of a [`ImplicitType`].
pub struct ImplicitTypeView {
    pub side: Side,
    pub ident: Seq<char>,
    pub generics: GenericsView,
    pub output: Option<NodeView>,
    pub bounds: FutureBounds,
    pub method: Seq<char>,
}

impl DeepView for ImplicitType {
    type V = ImplicitTypeView;

    open spec fn deep_view(&self) -> ImplicitTypeView {
        ImplicitTypeView {
            side: self.side,
            ident: self.ident@,
            generics: self.generics@,
            output: self.output.deep_view(),
            bounds: self.bounds,
            method: self.method@,
        }
    }
}

impl View for ImplicitType {
    type V = ImplicitTypeView;

    open spec fn view(&self) -> ImplicitTypeView {
        self.deep_view()
    }
}

/// A method of an interface.
#[derive(Debug, PartialEq, Eq)]
pub struct TraitItemFn {
    pub attrs: Vec<Attribute>,
    pub sig: Signature,
    /// The default body, if the interface provides one.
    pub default: Option<Block>,
}

/// The mathematical value of a [`TraitItemFn`].
pub struct TraitItemFnView {
    pub attrs: Seq<AttributeView>,
    pub sig: SignatureView,
    pub default: Option<BlockView>,
}

impl DeepView for TraitItemFn {
    type V = TraitItemFnView;

    open spec fn deep_view(&self) -> TraitItemFnView {
        TraitItemFnView {
            attrs: self.attrs.deep_view(),
            sig: self.sig@,
            default: self.default.deep_view(),
        }
    }
}

impl View for TraitItemFn {
    type V = TraitItemFnView;

    open spec fn view(&self) -> TraitItemFnView {
        self.deep_view()
    }
}

/// A member of an interface.
#[derive(Debug, PartialEq, Eq)]
pub enum TraitItem {
    Fn(TraitItemFn),
    /// An associated type that the engine has emitted.
    Type(ImplicitType),
    /// Any other member; the engine does not look at it.
    Other,
}

/// The mathematical value of a [`TraitItem`].
pub enum TraitItemView {
    Fn(TraitItemFnView),
    Type(ImplicitTypeView),
    Other,
}

impl DeepView for TraitItem {
    type V = TraitItemView;

    open spec fn deep_view(&self) -> TraitItemView {
        match *self {
            TraitItem::Fn(f) => TraitItemView::Fn(f@),
            TraitItem::Type(t) => TraitItemView::Type(t@),
            TraitItem::Other => TraitItemView::Other,
        }
    }
}

impl View for TraitItem {
    type V = TraitItemView;

    open spec fn view(&self) -> TraitItemView {
        self.deep_view()
    }
}

/// A method of an implementation. A method that is written without a body
/// has none here either.
#[derive(Debug, PartialEq, Eq)]
pub struct ImplItemFn {
    pub attrs: Vec<Attribute>,
    pub sig: Signature,
    pub block: Option<Block>,
}

/// The mathematical value of a [`ImplItemFn`].
pub struct ImplItemFnView {
    pub attrs: Seq<AttributeView>,
    pub sig: SignatureView,
    pub block: Option<BlockView>,
}

impl DeepView for ImplItemFn {
    type V = ImplItemFnView;

    open spec fn deep_view(&self) -> ImplItemFnView {
        ImplItemFnView {
            attrs: self.attrs.deep_view(),
            sig: self.sig@,
            block: self.block.deep_view(),
        }
    }
}

impl View for ImplItemFn {
    type V = ImplItemFnView;

    open spec fn view(&self) -> ImplItemFnView {
        self.deep_view()
    }
}

/// A member of an implementation.
#[derive(Debug, PartialEq, Eq)]
pub enum ImplItem {
    Fn(ImplItemFn),
    /// An associated type that the engine has emitted.
    Type(ImplicitType),
    /// An associated type that the author has written; `impl_trait` says
    /// that it is assigned an opaque type.
    Associated { ident: String, impl_trait: bool },
    /// Any other member; the engine does not look at it.
    Other,
}

/// The mathematical value of a [`ImplItem`].
pub enum ImplItemView {
    Fn(ImplItemFnView),
    Type(ImplicitTypeView),
    Associated { ident: Seq<char>, impl_trait: bool },
    Other,
}

impl DeepView for ImplItem {
    type V = ImplItemView;

    open spec fn deep_view(&self) -> ImplItemView {
        match *self {
            ImplItem::Fn(f) => ImplItemView::Fn(f@),
            ImplItem::Type(t) => ImplItemView::Type(t@),
            ImplItem::Associated { ident, impl_trait } => ImplItemView::Associated {
                ident: ident@,
                impl_trait,
            },
            ImplItem::Other => ImplItemView::Other,
        }
    }
}

impl View for ImplItem {
    type V = ImplItemView;

    open spec fn view(&self) -> ImplItemView {
        self.deep_view()
    }
}

/// The declaration of an interface.
#[derive(Debug, PartialEq, Eq)]
pub struct ItemTrait {
    pub generics: Generics,
    /// The bounds that every implementor meets.
    pub supertraits: Vec<Node>,
    pub items: Vec<TraitItem>,
}

/// The mathematical value of a [`ItemTrait`].
pub struct ItemTraitView {
    pub generics: GenericsView,
    pub supertraits: Seq<NodeView>,
    pub items: Seq<TraitItemView>,
}

impl DeepView for ItemTrait {
    type V = ItemTraitView;

    open spec fn deep_view(&self) -> ItemTraitView {
        ItemTraitView {
            generics: self.generics@,
            supertraits: self.supertraits.deep_view(),
            items: self.items.deep_view(),
        }
    }
}

impl View for ItemTrait {
    type V = ItemTraitView;

    open spec fn view(&self) -> ItemTraitView {
        self.deep_view()
    }
}

/// The declaration of an implementation.
#[derive(Debug, PartialEq, Eq)]
pub struct ItemImpl {
    pub generics: Generics,
    /// The interface that is implemented, as a path.
    pub trait_path: Option<Node>,
    /// The concrete type that implements it.
    pub self_ty: Node,
    /// The concrete type once more, as tokens.
    pub self_tokens: Vec<TokenTree>,
    pub items: Vec<ImplItem>,
}

/// The mathematical value of a [`ItemImpl`].
pub struct ItemImplView {
    pub generics: GenericsView,
    pub trait_path: Option<NodeView>,
    pub self_ty: NodeView,
    pub self_tokens: Seq<TokenTreeView>,
    pub items: Seq<ImplItemView>,
}

impl DeepView for ItemImpl {
    type V = ItemImplView;

    open spec fn deep_view(&self) -> ItemImplView {
        ItemImplView {
            generics: self.generics@,
            trait_path: self.trait_path.deep_view(),
            self_ty: self.self_ty@,
            self_tokens: self.self_tokens.deep_view(),
            items: self.items.deep_view(),
        }
    }
}

impl View for ItemImpl {
    type V = ItemImplView;

    open spec fn view(&self) -> ItemImplView {
        self.deep_view()
    }
}

/// What the engine is handed: an interface or an implementation.
#[derive(Debug, PartialEq, Eq)]
pub enum Item {
    Trait(ItemTrait),
    Impl(ItemImpl),
}

/// The mathematical value of a [`Item`].
pub enum ItemView {
    Trait(ItemTraitView),
    Impl(ItemImplView),
}

impl DeepView for Item {
    type V = ItemView;

    open spec fn deep_view(&self) -> ItemView {
        match *self {
            Item::Trait(t) => ItemView::Trait(t@),
            Item::Impl(i) => ItemView::Impl(i@),
        }
    }
}

impl View for Item {
    type V = ItemView;

    open spec fn view(&self) -> ItemView {
        self.deep_view()
    }
}

} // verus!
