#![allow(dead_code)]

use async_trait::decl::{
    Attribute, Block, Capture, FnArg, FutureBounds, GenericParam, Generics, ImplItem, ImplItemFn,
    ImplicitType, Item, ItemImpl, ItemTrait, Outlives, ParamName, PatType, Receiver,
    ResultBinding, ReturnType, Side, Signature, TraitItem, TraitItemFn, WherePredicate,
};
use async_trait::syntax::{Arguments, Node, NodeKind, Position, Shape};
use async_trait::token::{Delimiter, TokenTree};

// ---------------------------------------------------------------- builders

fn s(text: &str) -> String {
    text.to_string()
}

fn node(kind: NodeKind, children: Vec<Node>) -> Node {
    Node { kind, children }
}

fn seg(name: &str) -> Node {
    node(NodeKind::Segment { ident: s(name), arguments: Arguments::Absent }, vec![])
}

fn seg_args(name: &str, args: Vec<Node>) -> Node {
    node(NodeKind::Segment { ident: s(name), arguments: Arguments::AngleBracketed }, args)
}

fn path(position: Position, segments: Vec<Node>) -> Node {
    node(NodeKind::Path { position, leading_colon: false, qself: None }, segments)
}

/// The type `a::b::c`.
fn ty(name: &str) -> Node {
    path(Position::Type, name.split("::").map(seg).collect())
}

/// The type `Name<args>`.
fn generic(name: &str, args: Vec<Node>) -> Node {
    path(Position::Type, vec![seg_args(name, args)])
}

/// The expression `a::b`.
fn expr(name: &str) -> Node {
    path(Position::Expr, name.split("::").map(seg).collect())
}

fn reference(lifetime: Option<&str>, mutable: bool, elem: Node) -> Node {
    node(NodeKind::Reference { lifetime: lifetime.map(s), mutable }, vec![elem])
}

fn shape(shape: Shape, children: Vec<Node>) -> Node {
    node(NodeKind::Shape(shape), children)
}

fn tuple(elems: Vec<Node>) -> Node {
    shape(Shape::Tuple, elems)
}

fn lifetime_arg(name: &str) -> Node {
    node(NodeKind::Lifetime { ident: s(name), argument: true }, vec![])
}

fn lifetime_bound(name: &str) -> Node {
    node(NodeKind::Lifetime { ident: s(name), argument: false }, vec![])
}

fn trait_bound(name: &str) -> Node {
    node(
        NodeKind::TraitBound { optional: false },
        vec![path(Position::Other, name.split("::").map(seg).collect())],
    )
}

fn impl_trait(bounds: Vec<Node>) -> Node {
    node(NodeKind::ImplTrait, bounds)
}

fn pat(name: &str) -> Node {
    node(NodeKind::PatIdent { by_ref: false, mutable: false, ident: s(name) }, vec![])
}

fn pat_mut(name: &str) -> Node {
    node(NodeKind::PatIdent { by_ref: false, mutable: true, ident: s(name) }, vec![])
}

fn ident(name: &str) -> Node {
    node(NodeKind::Ident(s(name)), vec![])
}

fn word(name: &str) -> TokenTree {
    TokenTree::Ident(s(name))
}

fn punct(ch: char) -> TokenTree {
    TokenTree::Punct { ch, joint: false }
}

fn tokens(ts: Vec<TokenTree>) -> Node {
    node(NodeKind::Tokens(ts), vec![])
}

fn stmt(parts: Vec<Node>) -> Node {
    shape(Shape::Group, parts)
}

fn by_ref() -> FnArg {
    FnArg::Receiver(Receiver { reference: Some(None), mutable: false, ty: None })
}

fn by_ref_named(lifetime: &str) -> FnArg {
    FnArg::Receiver(Receiver { reference: Some(Some(s(lifetime))), mutable: false, ty: None })
}

fn by_mut() -> FnArg {
    FnArg::Receiver(Receiver { reference: Some(None), mutable: true, ty: None })
}

fn by_value() -> FnArg {
    FnArg::Receiver(Receiver { reference: None, mutable: false, ty: None })
}

fn typed_self(ty: Node) -> FnArg {
    FnArg::Receiver(Receiver { reference: None, mutable: false, ty: Some(ty) })
}

fn arg(name: &str, ty: Node) -> FnArg {
    FnArg::Typed(PatType { attrs: vec![], pat: pat(name), ty })
}

fn arg_pat(pat: Node, ty: Node) -> FnArg {
    FnArg::Typed(PatType { attrs: vec![], pat, ty })
}

fn type_param(name: &str, bounds: Vec<Node>) -> GenericParam {
    GenericParam::Type { ident: s(name), bounds, default: None }
}

fn lifetime_param(name: &str) -> GenericParam {
    GenericParam::Lifetime { ident: s(name), outlives: vec![] }
}

fn generics(params: Vec<GenericParam>) -> Generics {
    Generics { params, predicates: vec![] }
}

fn sig(name: &str, params: Vec<GenericParam>, inputs: Vec<FnArg>, output: Option<Node>) -> Signature {
    Signature {
        asyncness: true,
        ident: s(name),
        generics: generics(params),
        inputs,
        output: match output {
            Some(t) => ReturnType::Type(t),
            None => ReturnType::Default,
        },
    }
}

fn attr(name: &str) -> Attribute {
    Attribute { path: vec![s(name)], tokens: vec![] }
}

fn required(attrs: Vec<Attribute>, sig: Signature) -> TraitItem {
    TraitItem::Fn(TraitItemFn { attrs, sig, default: None })
}

fn provided(attrs: Vec<Attribute>, sig: Signature, stmts: Vec<Node>) -> TraitItem {
    TraitItem::Fn(TraitItemFn { attrs, sig, default: Some(Block::Written(stmts)) })
}

fn method(attrs: Vec<Attribute>, sig: Signature, stmts: Vec<Node>) -> ImplItem {
    ImplItem::Fn(ImplItemFn { attrs, sig, block: Some(Block::Written(stmts)) })
}

fn interface(supertraits: Vec<Node>, items: Vec<TraitItem>) -> Item {
    Item::Trait(ItemTrait { generics: generics(vec![]), supertraits, items })
}

fn implementation(trait_name: &str, self_name: &str, items: Vec<ImplItem>) -> Item {
    Item::Impl(ItemImpl {
        generics: generics(vec![]),
        trait_path: Some(path(Position::Other, vec![seg(trait_name)])),
        self_ty: ty(self_name),
        self_tokens: vec![word(self_name)],
        items,
    })
}

// ---------------------------------------------------------------- printing

fn show_tokens(ts: &[TokenTree]) -> String {
    let mut out = String::new();
    for (i, t) in ts.iter().enumerate() {
        if i > 0 {
            out.push(' ');
        }
        match t {
            TokenTree::Ident(w) => out.push_str(w),
            TokenTree::Punct { ch, .. } => out.push(*ch),
            TokenTree::Literal(l) => out.push_str(l),
            TokenTree::Group(d, inner) => {
                let (open, close) = match d {
                    Delimiter::Parenthesis => ("(", ")"),
                    Delimiter::Brace => ("{", "}"),
                    Delimiter::Bracket => ("[", "]"),
                    Delimiter::Invisible => ("", ""),
                };
                out.push_str(open);
                out.push_str(&show_tokens(inner));
                out.push_str(close);
            }
        }
    }
    out
}

fn show_all(nodes: &[Node], between: &str) -> String {
    nodes.iter().map(show).collect::<Vec<_>>().join(between)
}

fn show(n: &Node) -> String {
    match &n.kind {
        NodeKind::Ident(w) => w.clone(),
        NodeKind::Lifetime { ident, .. } => format!("'{}", ident),
        NodeKind::Tokens(ts) => show_tokens(ts),
        NodeKind::Reference { lifetime, mutable } => {
            let mut out = s("&");
            if let Some(l) = lifetime {
                out.push_str(&format!("'{} ", l));
            }
            if *mutable {
                out.push_str("mut ");
            }
            out.push_str(&show_all(&n.children, " "));
            out
        }
        NodeKind::Path { leading_colon, qself, .. } => {
            let mut out = String::new();
            let mut segments = &n.children[..];
            if let Some(count) = qself {
                out.push('<');
                out.push_str(&show(&segments[0]));
                if *count > 0 {
                    out.push_str(" as ");
                    out.push_str(&show_all(&segments[1..1 + count], "::"));
                }
                out.push_str(">::");
                segments = &segments[1 + count..];
            } else if *leading_colon {
                out.push_str("::");
            }
            out.push_str(&show_all(segments, "::"));
            out
        }
        NodeKind::Segment { ident, arguments } => match arguments {
            Arguments::Absent => ident.clone(),
            Arguments::AngleBracketed => format!("{}<{}>", ident, show_all(&n.children, ", ")),
            Arguments::Parenthesized => format!("{}({})", ident, show_all(&n.children, ", ")),
        },
        NodeKind::Binding(name) => format!("{} = {}", name, show_all(&n.children, " + ")),
        NodeKind::ImplTrait => format!("impl {}", show_all(&n.children, " + ")),
        NodeKind::TraitObject => format!("dyn {}", show_all(&n.children, " + ")),
        NodeKind::TraitBound { optional } => {
            format!("{}{}", if *optional { "?" } else { "" }, show(n.children.last().unwrap()))
        }
        NodeKind::PatIdent { by_ref, mutable, ident } => {
            let mut out = String::new();
            if *by_ref {
                out.push_str("ref ");
            }
            if *mutable {
                out.push_str("mut ");
            }
            out.push_str(ident);
            if let Some(sub) = n.children.first() {
                out.push_str(" @ ");
                out.push_str(&show(sub));
            }
            out
        }
        NodeKind::Macro(ts) => format!("{}!({})", show_all(&n.children, "::"), show_tokens(ts)),
        NodeKind::Item { tokens, .. } => show_tokens(tokens),
        NodeKind::Shape(shape) => match shape {
            Shape::Tuple => format!("({})", show_all(&n.children, ", ")),
            Shape::Slice => format!("[{}]", show_all(&n.children, ", ")),
            Shape::Array => format!("[{}]", show_all(&n.children, "; ")),
            Shape::Paren => format!("({})", show_all(&n.children, " ")),
            Shape::ConstPointer => format!("*const {}", show_all(&n.children, " ")),
            Shape::MutPointer => format!("*mut {}", show_all(&n.children, " ")),
            Shape::Infer | Shape::Wild => s("_"),
            Shape::RefPat => format!("&{}", show_all(&n.children, " ")),
            Shape::RefMutPat => format!("&mut {}", show_all(&n.children, " ")),
            Shape::TupleStruct => {
                format!("{}({})", show(&n.children[0]), show_all(&n.children[1..], ", "))
            }
            Shape::Struct => {
                format!("{} {{ {} }}", show(&n.children[0]), show_all(&n.children[1..], ", "))
            }
            Shape::Field => show_all(&n.children, ": "),
            Shape::Or => show_all(&n.children, " | "),
            Shape::Typed => show_all(&n.children, ": "),
            Shape::Group => show_all(&n.children, " "),
        },
    }
}

fn show_names(names: &[String]) -> String {
    names.iter().map(|l| format!("'{}", l)).collect::<Vec<_>>().join(" + ")
}

fn show_param(p: &GenericParam) -> String {
    match p {
        GenericParam::Lifetime { ident, outlives } => {
            if outlives.is_empty() {
                format!("'{}", ident)
            } else {
                format!("'{}: {}", ident, show_names(outlives))
            }
        }
        GenericParam::Type { ident, bounds, .. } => {
            if bounds.is_empty() {
                ident.clone()
            } else {
                format!("{}: {}", ident, show_all(bounds, " + "))
            }
        }
        GenericParam::Const { ident, ty, .. } => format!("const {}: {}", ident, show(ty)),
    }
}

fn show_predicate(p: &WherePredicate) -> String {
    match p {
        WherePredicate::Lifetime { ident, outlives } => {
            format!("'{}: {}", ident, show_names(outlives))
        }
        WherePredicate::Type { bounded, bounds, .. } => {
            format!("{}: {}", show(bounded), show_all(bounds, " + "))
        }
    }
}

/// Lifetimes are written before all other parameters, whatever their place
/// in the list.
fn show_generics(g: &Generics) -> (String, String) {
    let is_lifetime = |p: &&GenericParam| matches!(p, GenericParam::Lifetime { .. });
    let lifetimes = g.params.iter().filter(is_lifetime);
    let others = g.params.iter().filter(|p| !is_lifetime(p));
    let params = if g.params.is_empty() {
        String::new()
    } else {
        format!("<{}>", lifetimes.chain(others).map(show_param).collect::<Vec<_>>().join(", "))
    };
    let clause = if g.predicates.is_empty() {
        String::new()
    } else {
        format!(
            " where {}",
            g.predicates.iter().map(show_predicate).collect::<Vec<_>>().join(", ")
        )
    };
    (params, clause)
}

fn show_bounds(b: &FutureBounds) -> String {
    let outlives = match b.outlives {
        Outlives::Static => "'static",
        Outlives::Task => "'async_trait",
    };
    if b.send {
        format!("Send + {}", outlives)
    } else {
        s(outlives)
    }
}

fn show_output(o: &Option<Node>) -> String {
    match o {
        Some(t) => show(t),
        None => s("()"),
    }
}

fn show_arg(a: &FnArg) -> String {
    match a {
        FnArg::Receiver(r) => {
            let mut out = String::new();
            if let Some(lifetime) = &r.reference {
                out.push('&');
                if let Some(l) = lifetime {
                    out.push_str(&format!("'{} ", l));
                }
            }
            if r.mutable {
                out.push_str("mut ");
            }
            out.push_str("self");
            if let Some(t) = &r.ty {
                out.push_str(&format!(": {}", show(t)));
            }
            out
        }
        FnArg::Typed(t) => format!("{}: {}", show(&t.pat), show(&t.ty)),
    }
}

fn show_sig(sig: &Signature) -> String {
    let (params, clause) = show_generics(&sig.generics);
    let inputs = sig.inputs.iter().map(show_arg).collect::<Vec<_>>().join(", ");
    let output = match &sig.output {
        ReturnType::Default => String::new(),
        ReturnType::Type(t) => format!(" -> {}", show(t)),
        ReturnType::Boxed { output, bounds } => format!(
            " -> Pin<Box<dyn Future<Output = {}> + {}>>",
            show_output(output),
            show_bounds(bounds)
        ),
        ReturnType::Associated { ident, arguments } => {
            let args = arguments
                .iter()
                .map(|a| match a {
                    ParamName::Lifetime(l) => format!("'{}", l),
                    ParamName::Type(t) => t.clone(),
                    ParamName::Const(c) => c.clone(),
                })
                .collect::<Vec<_>>()
                .join(", ");
            format!(" -> Self::{}<{}>", ident, args)
        }
    };
    format!(
        "{}fn {}{}({}){}{}",
        if sig.asyncness { "async " } else { "" },
        sig.ident,
        params,
        inputs,
        output,
        clause
    )
}

fn show_capture(c: &Capture) -> String {
    match c {
        Capture::Receiver { mutable } => {
            format!("let {}__self = self;", if *mutable { "mut " } else { "" })
        }
        Capture::Named { mutable, ident, .. } => {
            format!("let {}{} = {};", if *mutable { "mut " } else { "" }, ident, ident)
        }
        Capture::Positional { ident, .. } => format!("let {} = {};", ident, ident),
        Capture::Destructured { pat, ident, .. } => {
            format!("let {} = {{ let {} = {}; {} }};", show(pat), ident, ident, ident)
        }
    }
}

fn show_block(b: &Block) -> String {
    match b {
        Block::Written(stmts) => format!("{{ {} }}", show_all(stmts, " ")),
        Block::Deferred { boxed, captures, result, stmts } => {
            let prologue = captures.iter().map(show_capture).collect::<Vec<_>>().join(" ");
            let body = show_all(stmts, " ");
            let inner = match result {
                ResultBinding::Unit => format!("{} let () = {{ {} }};", prologue, body),
                ResultBinding::Typed(t) => format!(
                    "{} let __ret: {} = {{ {} }}; __ret",
                    prologue,
                    show(t),
                    body
                ),
                ResultBinding::Bare => {
                    if captures.is_empty() {
                        body
                    } else {
                        format!("{} {{ {} }}", prologue, body)
                    }
                }
            };
            let inner = inner.trim().to_string();
            if *boxed {
                format!("{{ Box::pin(async move {{ {} }}) }}", inner)
            } else {
                format!("{{ async move {{ {} }} }}", inner)
            }
        }
    }
}

fn show_type(t: &ImplicitType) -> String {
    let (params, clause) = show_generics(&t.generics);
    match t.side {
        Side::Declared => format!(
            "type {}{}: Future<Output = {}> + {}{};",
            t.ident,
            params,
            show_output(&t.output),
            show_bounds(&t.bounds),
            clause
        ),
        Side::Assigned => format!(
            "type {}{}{} = impl Future<Output = {}> + {};",
            t.ident,
            params,
            clause,
            show_output(&t.output),
            show_bounds(&t.bounds)
        ),
    }
}

fn trait_fn(item: &Item, index: usize) -> &TraitItemFn {
    match item {
        Item::Trait(t) => match &t.items[index] {
            TraitItem::Fn(f) => f,
            other => panic!("member {} is no method: {:?}", index, other),
        },
        Item::Impl(_) => panic!("an interface was expected"),
    }
}

fn impl_fn(item: &Item, index: usize) -> &ImplItemFn {
    match item {
        Item::Impl(i) => match &i.items[index] {
            ImplItem::Fn(f) => f,
            other => panic!("member {} is no method: {:?}", index, other),
        },
        Item::Trait(_) => panic!("an implementation was expected"),
    }
}

use async_trait::expand::expand;
use std::future::Future;
use std::pin::Pin;
use std::sync::Arc;
use std::task::{Poll, Wake, Waker};

// ---------------------------------------------------------------- running

struct Idle;

impl Wake for Idle {
    fn wake(self: Arc<Self>) {}
}

fn block_on_simple<F: Future>(future: F) -> F::Output {
    let mut future = Box::pin(future);
    let waker = Waker::from(Arc::new(Idle));
    let mut cx = std::task::Context::from_waker(&waker);
    loop {
        if let Poll::Ready(value) = future.as_mut().poll(&mut cx) {
            return value;
        }
    }
}

fn run<R, F: Future<Output = R> + Send>(f: F) -> R {
    block_on_simple(f)
}

#[derive(Default)]
struct F(usize);

// ----------------------------------------- a second interface, with a lifetime

trait Dep<'l> {
    fn create(y: &'l usize) -> Self;
    fn inc_usize(&self, x: &'l mut usize) -> &'l mut usize;
}

struct DepDefault<'l> {
    y: &'l usize,
}

impl<'l> Dep<'l> for DepDefault<'l> {
    fn create(y: &'l usize) -> Self {
        DepDefault { y }
    }

    fn inc_usize(&self, x: &'l mut usize) -> &'l mut usize {
        (*x) += self.y;
        x
    }
}

struct I<'l> {
    _y: &'l F,
}

impl<'l> Iterator for I<'l> {
    type Item = DepDefault<'l>;

    fn next(&mut self) -> Option<Self::Item> {
        None
    }
}

trait FastAsyncDep {
    type D<'l>: Dep<'l> + Send;
    type DI<'l>: Iterator<Item = Self::D<'l>> + Send
    where
        Self: 'l;

    fn get_dep<'l, 'async_trait>(
        &'l self,
    ) -> Pin<Box<dyn Future<Output = Self::D<'l>> + Send + 'async_trait>>
    where
        'l: 'async_trait,
        Self: Sync + 'async_trait;

    fn call_dep<'d, 'life0, 'life1, 'async_trait>(
        &'life0 self,
        d: Self::D<'d>,
        x: &'life1 mut usize,
    ) -> Pin<Box<dyn Future<Output = usize> + Send + 'async_trait>>
    where
        'd: 'async_trait,
        'life0: 'async_trait,
        'life1: 'async_trait,
        Self: Sync + 'async_trait;

    fn iter<'i, 'async_trait>(
        &'i self,
    ) -> Pin<Box<dyn Future<Output = Self::DI<'i>> + Send + 'async_trait>>
    where
        'i: 'async_trait,
        Self: Sync + 'async_trait;
}

impl FastAsyncDep for F {
    type D<'l> = DepDefault<'l>;
    type DI<'l> = I<'l>;

    fn get_dep<'l, 'async_trait>(
        &'l self,
    ) -> Pin<Box<dyn Future<Output = <F as FastAsyncDep>::D<'l>> + Send + 'async_trait>>
    where
        'l: 'async_trait,
        F: 'async_trait,
    {
        Box::pin(async move {
            let __self = self;
            let __ret: <F as FastAsyncDep>::D<'l> = { DepDefault::create(&__self.0) };
            __ret
        })
    }

    fn call_dep<'d, 'life0, 'life1, 'async_trait>(
        &'life0 self,
        d: <F as FastAsyncDep>::D<'d>,
        x: &'life1 mut usize,
    ) -> Pin<Box<dyn Future<Output = usize> + Send + 'async_trait>>
    where
        'd: 'async_trait,
        'life0: 'async_trait,
        'life1: 'async_trait,
        F: 'async_trait,
    {
        Box::pin(async move {
            let __self = self;
            let d = d;
            let __ret: usize = { *d.inc_usize(x) };
            let _ = __self;
            __ret
        })
    }

    fn iter<'i, 'async_trait>(
        &'i self,
    ) -> Pin<Box<dyn Future<Output = <F as FastAsyncDep>::DI<'i>> + Send + 'async_trait>>
    where
        'i: 'async_trait,
        F: 'async_trait,
    {
        Box::pin(async move {
            let __self = self;
            let __ret: <F as FastAsyncDep>::DI<'i> = { I { _y: __self } };
            __ret
        })
    }
}

fn associated(name: &str, lifetime: &str) -> Node {
    path(Position::Type, vec![seg("Self"), seg_args(name, vec![lifetime_arg(lifetime)])])
}

fn dep_signatures() -> Vec<Signature> {
    vec![
        sig("get_dep", vec![lifetime_param("l")], vec![by_ref_named("l")], Some(associated("D", "l"))),
        sig(
            "call_dep",
            vec![lifetime_param("d")],
            vec![
                by_ref(),
                arg("d", associated("D", "d")),
                arg("x", reference(None, true, ty("usize"))),
            ],
            Some(ty("usize")),
        ),
        sig("iter", vec![lifetime_param("i")], vec![by_ref_named("i")], Some(associated("DI", "i"))),
    ]
}

fn check_fast_async_dep() {
    let mut declared = interface(
        vec![],
        dep_signatures().into_iter().map(|sig| required(vec![], sig)).collect(),
    );
    assert!(expand(&mut declared, false).is_empty());
    assert_eq!(
        show_sig(&trait_fn(&declared, 0).sig),
        "fn get_dep<'l, 'async_trait>(&'l self) \
         -> Pin<Box<dyn Future<Output = Self::D<'l>> + Send + 'async_trait>> \
         where 'l: 'async_trait, Self: ::core::marker::Sync + 'async_trait"
    );
    assert_eq!(
        show_sig(&trait_fn(&declared, 1).sig),
        "fn call_dep<'d, 'life0, 'life1, 'async_trait>\
         (&'life0 self, d: Self::D<'d>, x: &'life1 mut usize) \
         -> Pin<Box<dyn Future<Output = usize> + Send + 'async_trait>> \
         where 'd: 'async_trait, 'life0: 'async_trait, 'life1: 'async_trait, \
         Self: ::core::marker::Sync + 'async_trait"
    );

    let body = || vec![stmt(vec![expr("self")])];
    let mut implemented = implementation(
        "FastAsyncDep",
        "F",
        dep_signatures().into_iter().map(|sig| method(vec![], sig, body())).collect(),
    );
    assert!(expand(&mut implemented, false).is_empty());
    assert_eq!(
        show_sig(&impl_fn(&implemented, 0).sig),
        "fn get_dep<'l, 'async_trait>(&'l self) \
         -> Pin<Box<dyn Future<Output = <F as FastAsyncDep>::D<'l>> + Send + 'async_trait>> \
         where 'l: 'async_trait, F: 'async_trait"
    );
    assert_eq!(
        show_sig(&impl_fn(&implemented, 1).sig),
        "fn call_dep<'d, 'life0, 'life1, 'async_trait>\
         (&'life0 self, d: <F as FastAsyncDep>::D<'d>, x: &'life1 mut usize) \
         -> Pin<Box<dyn Future<Output = usize> + Send + 'async_trait>> \
         where 'd: 'async_trait, 'life0: 'async_trait, 'life1: 'async_trait, F: 'async_trait"
    );
    assert_eq!(
        show_block(impl_fn(&implemented, 2).block.as_ref().unwrap()),
        "{ Box::pin(async move { let __self = self; \
         let __ret: <F as FastAsyncDep>::DI<'i> = { __self }; __ret }) }"
    );
}

// ------------------------------------------- a third, with a constant parameter

struct Struct;

trait ConstGeneric {
    fn const_generic<'async_trait, T, const C: usize>(
        __arg0: [T; C],
    ) -> Pin<Box<dyn Future<Output = ()> + Send + 'async_trait>>
    where
        T: 'async_trait + Send,
    {
        Box::pin(async move {
            let __arg0 = __arg0;
            let () = {};
        })
    }
}

impl ConstGeneric for Struct {
    fn const_generic<'async_trait, T, const C: usize>(
        __arg0: [T; C],
    ) -> Pin<Box<dyn Future<Output = ()> + Send + 'async_trait>>
    where
        T: 'async_trait + Send,
    {
        Box::pin(async move {
            let __arg0 = __arg0;
            let () = {};
        })
    }
}

fn const_generic_signature() -> Signature {
    sig(
        "const_generic",
        vec![
            type_param("T", vec![trait_bound("Send")]),
            GenericParam::Const { ident: s("C"), ty: ty("usize"), value: vec![] },
        ],
        vec![arg_pat(
            shape(Shape::Wild, vec![]),
            shape(Shape::Array, vec![ty("T"), tokens(vec![word("C")])]),
        )],
        None,
    )
}

fn check_const_generic() {
    let expected_sig = "fn const_generic<'async_trait, T, const C: usize>(__arg0: [T; C]) \
                        -> Pin<Box<dyn Future<Output = ()> + Send + 'async_trait>> \
                        where T: 'async_trait + Send";
    let expected_body = "{ Box::pin(async move { let __arg0 = __arg0; let () = {  }; }) }";

    let mut declared = interface(vec![], vec![provided(vec![], const_generic_signature(), vec![])]);
    assert!(expand(&mut declared, false).is_empty());
    assert_eq!(show_sig(&trait_fn(&declared, 0).sig), expected_sig);
    assert_eq!(show_block(trait_fn(&declared, 0).default.as_ref().unwrap()), expected_body);

    let mut implemented =
        implementation("ConstGeneric", "Struct", vec![method(vec![], const_generic_signature(), vec![])]);
    assert!(expand(&mut implemented, false).is_empty());
    assert_eq!(show_sig(&impl_fn(&implemented, 0).sig), expected_sig);
    assert_eq!(show_block(impl_fn(&implemented, 0).block.as_ref().unwrap()), expected_body);
}

#[test]
fn test() {
    check_fast_async_dep();

    let f = F(10);
    let fut_get_dep = f.get_dep();
    let dep = run(fut_get_dep);
    let mut x = 19;
    let fut_res = f.call_dep(dep, &mut x);
    let res = run(fut_res);
    assert_eq!(res, 29);
    let fut_iter = f.iter();
    let mut iter = run(fut_iter);
    assert!(iter.next().is_none());

    check_const_generic();

    let fut = Struct::const_generic([0; 10]);
    block_on_simple(fut);
}
