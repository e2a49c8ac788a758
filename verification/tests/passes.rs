#![allow(dead_code)]

use async_trait::decl::{
    Attribute, Block, Capture, FnArg, FutureBounds, GenericParam, Generics, ImplItem, ImplItemFn,
    ImplicitType, Item, ItemImpl, ItemTrait, Outlives, ParamName, PatType, Receiver,
    ResultBinding, ReturnType, Side, Signature, TraitItem, TraitItemFn, WherePredicate,
};
use async_trait::syntax::{Arguments, Node, NodeKind, Position, Shape};
use async_trait::token::{Delimiter, TokenTree};

// ---------------------------------------------------------------- builders

fn s(text: &str) -> String {
    text.to_string()
}

fn node(kind: NodeKind, children: Vec<Node>) -> Node {
    Node { kind, children }
}

fn seg(name: &str) -> Node {
    node(NodeKind::Segment { ident: s(name), arguments: Arguments::Absent }, vec![])
}

fn seg_args(name: &str, args: Vec<Node>) -> Node {
    node(NodeKind::Segment { ident: s(name), arguments: Arguments::AngleBracketed }, args)
}

fn path(position: Position, segments: Vec<Node>) -> Node {
    node(NodeKind::Path { position, leading_colon: false, qself: None }, segments)
}

/// The type `a::b::c`.
fn ty(name: &str) -> Node {
    path(Position::Type, name.split("::").map(seg).collect())
}

/// The type `Name<args>`.
fn generic(name: &str, args: Vec<Node>) -> Node {
    path(Position::Type, vec![seg_args(name, args)])
}

/// The expression `a::b`.
fn expr(name: &str) -> Node {
    path(Position::Expr, name.split("::").map(seg).collect())
}

fn reference(lifetime: Option<&str>, mutable: bool, elem: Node) -> Node {
    node(NodeKind::Reference { lifetime: lifetime.map(s), mutable }, vec![elem])
}

fn shape(shape: Shape, children: Vec<Node>) -> Node {
    node(NodeKind::Shape(shape), children)
}

fn tuple(elems: Vec<Node>) -> Node {
    shape(Shape::Tuple, elems)
}

fn lifetime_arg(name: &str) -> Node {
    node(NodeKind::Lifetime { ident: s(name), argument: true }, vec![])
}

fn lifetime_bound(name: &str) -> Node {
    node(NodeKind::Lifetime { ident: s(name), argument: false }, vec![])
}

fn trait_bound(name: &str) -> Node {
    node(
        NodeKind::TraitBound { optional: false },
        vec![path(Position::Other, name.split("::").map(seg).collect())],
    )
}

fn impl_trait(bounds: Vec<Node>) -> Node {
    node(NodeKind::ImplTrait, bounds)
}

fn pat(name: &str) -> Node {
    node(NodeKind::PatIdent { by_ref: false, mutable: false, ident: s(name) }, vec![])
}

fn pat_mut(name: &str) -> Node {
    node(NodeKind::PatIdent { by_ref: false, mutable: true, ident: s(name) }, vec![])
}

fn ident(name: &str) -> Node {
    node(NodeKind::Ident(s(name)), vec![])
}

fn word(name: &str) -> TokenTree {
    TokenTree::Ident(s(name))
}

fn punct(ch: char) -> TokenTree {
    TokenTree::Punct { ch, joint: false }
}

fn tokens(ts: Vec<TokenTree>) -> Node {
    node(NodeKind::Tokens(ts), vec![])
}

fn stmt(parts: Vec<Node>) -> Node {
    shape(Shape::Group, parts)
}

fn by_ref() -> FnArg {
    FnArg::Receiver(Receiver { reference: Some(None), mutable: false, ty: None })
}

fn by_ref_named(lifetime: &str) -> FnArg {
    FnArg::Receiver(Receiver { reference: Some(Some(s(lifetime))), mutable: false, ty: None })
}

fn by_mut() -> FnArg {
    FnArg::Receiver(Receiver { reference: Some(None), mutable: true, ty: None })
}

fn by_value() -> FnArg {
    FnArg::Receiver(Receiver { reference: None, mutable: false, ty: None })
}

fn typed_self(ty: Node) -> FnArg {
    FnArg::Receiver(Receiver { reference: None, mutable: false, ty: Some(ty) })
}

fn arg(name: &str, ty: Node) -> FnArg {
    FnArg::Typed(PatType { attrs: vec![], pat: pat(name), ty })
}

fn arg_pat(pat: Node, ty: Node) -> FnArg {
    FnArg::Typed(PatType { attrs: vec![], pat, ty })
}

fn type_param(name: &str, bounds: Vec<Node>) -> GenericParam {
    GenericParam::Type { ident: s(name), bounds, default: None }
}

fn lifetime_param(name: &str) -> GenericParam {
    GenericParam::Lifetime { ident: s(name), outlives: vec![] }
}

fn generics(params: Vec<GenericParam>) -> Generics {
    Generics { params, predicates: vec![] }
}

fn sig(name: &str, params: Vec<GenericParam>, inputs: Vec<FnArg>, output: Option<Node>) -> Signature {
    Signature {
        asyncness: true,
        ident: s(name),
        generics: generics(params),
        inputs,
        output: match output {
            Some(t) => ReturnType::Type(t),
            None => ReturnType::Default,
        },
    }
}

fn attr(name: &str) -> Attribute {
    Attribute { path: vec![s(name)], tokens: vec![] }
}

fn required(attrs: Vec<Attribute>, sig: Signature) -> TraitItem {
    TraitItem::Fn(TraitItemFn { attrs, sig, default: None })
}

fn provided(attrs: Vec<Attribute>, sig: Signature, stmts: Vec<Node>) -> TraitItem {
    TraitItem::Fn(TraitItemFn { attrs, sig, default: Some(Block::Written(stmts)) })
}

fn method(attrs: Vec<Attribute>, sig: Signature, stmts: Vec<Node>) -> ImplItem {
    ImplItem::Fn(ImplItemFn { attrs, sig, block: Some(Block::Written(stmts)) })
}

fn interface(supertraits: Vec<Node>, items: Vec<TraitItem>) -> Item {
    Item::Trait(ItemTrait { generics: generics(vec![]), supertraits, items })
}

fn implementation(trait_name: &str, self_name: &str, items: Vec<ImplItem>) -> Item {
    Item::Impl(ItemImpl {
        generics: generics(vec![]),
        trait_path: Some(path(Position::Other, vec![seg(trait_name)])),
        self_ty: ty(self_name),
        self_tokens: vec![word(self_name)],
        items,
    })
}

// ---------------------------------------------------------------- printing

fn show_tokens(ts: &[TokenTree]) -> String {
    let mut out = String::new();
    for (i, t) in ts.iter().enumerate() {
        if i > 0 {
            out.push(' ');
        }
        match t {
            TokenTree::Ident(w) => out.push_str(w),
            TokenTree::Punct { ch, .. } => out.push(*ch),
            TokenTree::Literal(l) => out.push_str(l),
            TokenTree::Group(d, inner) => {
                let (open, close) = match d {
                    Delimiter::Parenthesis => ("(", ")"),
                    Delimiter::Brace => ("{", "}"),
                    Delimiter::Bracket => ("[", "]"),
                    Delimiter::Invisible => ("", ""),
                };
                out.push_str(open);
                out.push_str(&show_tokens(inner));
                out.push_str(close);
            }
        }
    }
    out
}

fn show_all(nodes: &[Node], between: &str) -> String {
    nodes.iter().map(show).collect::<Vec<_>>().join(between)
}

fn show(n: &Node) -> String {
    match &n.kind {
        NodeKind::Ident(w) => w.clone(),
        NodeKind::Lifetime { ident, .. } => format!("'{}", ident),
        NodeKind::Tokens(ts) => show_tokens(ts),
        NodeKind::Reference { lifetime, mutable } => {
            let mut out = s("&");
            if let Some(l) = lifetime {
                out.push_str(&format!("'{} ", l));
            }
            if *mutable {
                out.push_str("mut ");
            }
            out.push_str(&show_all(&n.children, " "));
            out
        }
        NodeKind::Path { leading_colon, qself, .. } => {
            let mut out = String::new();
            let mut segments = &n.children[..];
            if let Some(count) = qself {
                out.push('<');
                out.push_str(&show(&segments[0]));
                if *count > 0 {
                    out.push_str(" as ");
                    out.push_str(&show_all(&segments[1..1 + count], "::"));
                }
                out.push_str(">::");
                segments = &segments[1 + count..];
            } else if *leading_colon {
                out.push_str("::");
            }
            out.push_str(&show_all(segments, "::"));
            out
        }
        NodeKind::Segment { ident, arguments } => match arguments {
            Arguments::Absent => ident.clone(),
            Arguments::AngleBracketed => format!("{}<{}>", ident, show_all(&n.children, ", ")),
            Arguments::Parenthesized => format!("{}({})", ident, show_all(&n.children, ", ")),
        },
        NodeKind::Binding(name) => format!("{} = {}", name, show_all(&n.children, " + ")),
        NodeKind::ImplTrait => format!("impl {}", show_all(&n.children, " + ")),
        NodeKind::TraitObject => format!("dyn {}", show_all(&n.children, " + ")),
        NodeKind::TraitBound { optional } => {
            format!("{}{}", if *optional { "?" } else { "" }, show(n.children.last().unwrap()))
        }
        NodeKind::PatIdent { by_ref, mutable, ident } => {
            let mut out = String::new();
            if *by_ref {
                out.push_str("ref ");
            }
            if *mutable {
                out.push_str("mut ");
            }
            out.push_str(ident);
            if let Some(sub) = n.children.first() {
                out.push_str(" @ ");
                out.push_str(&show(sub));
            }
            out
        }
        NodeKind::Macro(ts) => format!("{}!({})", show_all(&n.children, "::"), show_tokens(ts)),
        NodeKind::Item { tokens, .. } => show_tokens(tokens),
        NodeKind::Shape(shape) => match shape {
            Shape::Tuple => format!("({})", show_all(&n.children, ", ")),
            Shape::Slice => format!("[{}]", show_all(&n.children, ", ")),
            Shape::Array => format!("[{}]", show_all(&n.children, "; ")),
            Shape::Paren => format!("({})", show_all(&n.children, " ")),
            Shape::ConstPointer => format!("*const {}", show_all(&n.children, " ")),
            Shape::MutPointer => format!("*mut {}", show_all(&n.children, " ")),
            Shape::Infer | Shape::Wild => s("_"),
            Shape::RefPat => format!("&{}", show_all(&n.children, " ")),
            Shape::RefMutPat => format!("&mut {}", show_all(&n.children, " ")),
            Shape::TupleStruct => {
                format!("{}({})", show(&n.children[0]), show_all(&n.children[1..], ", "))
            }
            Shape::Struct => {
                format!("{} {{ {} }}", show(&n.children[0]), show_all(&n.children[1..], ", "))
            }
            Shape::Field => show_all(&n.children, ": "),
            Shape::Or => show_all(&n.children, " | "),
            Shape::Typed => show_all(&n.children, ": "),
            Shape::Group => show_all(&n.children, " "),
        },
    }
}

fn show_names(names: &[String]) -> String {
    names.iter().map(|l| format!("'{}", l)).collect::<Vec<_>>().join(" + ")
}

fn show_param(p: &GenericParam) -> String {
    match p {
        GenericParam::Lifetime { ident, outlives } => {
            if outlives.is_empty() {
                format!("'{}", ident)
            } else {
                format!("'{}: {}", ident, show_names(outlives))
            }
        }
        GenericParam::Type { ident, bounds, .. } => {
            if bounds.is_empty() {
                ident.clone()
            } else {
                format!("{}: {}", ident, show_all(bounds, " + "))
            }
        }
        GenericParam::Const { ident, ty, .. } => format!("const {}: {}", ident, show(ty)),
    }
}

fn show_predicate(p: &WherePredicate) -> String {
    match p {
        WherePredicate::Lifetime { ident, outlives } => {
            format!("'{}: {}", ident, show_names(outlives))
        }
        WherePredicate::Type { bounded, bounds, .. } => {
            format!("{}: {}", show(bounded), show_all(bounds, " + "))
        }
    }
}

/// Lifetimes are written before all other parameters, whatever their place
/// in the list.
fn show_generics(g: &Generics) -> (String, String) {
    let is_lifetime = |p: &&GenericParam| matches!(p, GenericParam::Lifetime { .. });
    let lifetimes = g.params.iter().filter(is_lifetime);
    let others = g.params.iter().filter(|p| !is_lifetime(p));
    let params = if g.params.is_empty() {
        String::new()
    } else {
        format!("<{}>", lifetimes.chain(others).map(show_param).collect::<Vec<_>>().join(", "))
    };
    let clause = if g.predicates.is_empty() {
        String::new()
    } else {
        format!(
            " where {}",
            g.predicates.iter().map(show_predicate).collect::<Vec<_>>().join(", ")
        )
    };
    (params, clause)
}

fn show_bounds(b: &FutureBounds) -> String {
    let outlives = match b.outlives {
        Outlives::Static => "'static",
        Outlives::Task => "'async_trait",
    };
    if b.send {
        format!("Send + {}", outlives)
    } else {
        s(outlives)
    }
}

fn show_output(o: &Option<Node>) -> String {
    match o {
        Some(t) => show(t),
        None => s("()"),
    }
}

fn show_arg(a: &FnArg) -> String {
    match a {
        FnArg::Receiver(r) => {
            let mut out = String::new();
            if let Some(lifetime) = &r.reference {
                out.push('&');
                if let Some(l) = lifetime {
                    out.push_str(&format!("'{} ", l));
                }
            }
            if r.mutable {
                out.push_str("mut ");
            }
            out.push_str("self");
            if let Some(t) = &r.ty {
                out.push_str(&format!(": {}", show(t)));
            }
            out
        }
        FnArg::Typed(t) => format!("{}: {}", show(&t.pat), show(&t.ty)),
    }
}

fn show_sig(sig: &Signature) -> String {
    let (params, clause) = show_generics(&sig.generics);
    let inputs = sig.inputs.iter().map(show_arg).collect::<Vec<_>>().join(", ");
    let output = match &sig.output {
        ReturnType::Default => String::new(),
        ReturnType::Type(t) => format!(" -> {}", show(t)),
        ReturnType::Boxed { output, bounds } => format!(
            " -> Pin<Box<dyn Future<Output = {}> + {}>>",
            show_output(output),
            show_bounds(bounds)
        ),
        ReturnType::Associated { ident, arguments } => {
            let args = arguments
                .iter()
                .map(|a| match a {
                    ParamName::Lifetime(l) => format!("'{}", l),
                    ParamName::Type(t) => t.clone(),
                    ParamName::Const(c) => c.clone(),
                })
                .collect::<Vec<_>>()
                .join(", ");
            format!(" -> Self::{}<{}>", ident, args)
        }
    };
    format!(
        "{}fn {}{}({}){}{}",
        if sig.asyncness { "async " } else { "" },
        sig.ident,
        params,
        inputs,
        output,
        clause
    )
}

fn show_capture(c: &Capture) -> String {
    match c {
        Capture::Receiver { mutable } => {
            format!("let {}__self = self;", if *mutable { "mut " } else { "" })
        }
        Capture::Named { mutable, ident, .. } => {
            format!("let {}{} = {};", if *mutable { "mut " } else { "" }, ident, ident)
        }
        Capture::Positional { ident, .. } => format!("let {} = {};", ident, ident),
        Capture::Destructured { pat, ident, .. } => {
            format!("let {} = {{ let {} = {}; {} }};", show(pat), ident, ident, ident)
        }
    }
}

fn show_block(b: &Block) -> String {
    match b {
        Block::Written(stmts) => format!("{{ {} }}", show_all(stmts, " ")),
        Block::Deferred { boxed, captures, result, stmts } => {
            let prologue = captures.iter().map(show_capture).collect::<Vec<_>>().join(" ");
            let body = show_all(stmts, " ");
            let inner = match result {
                ResultBinding::Unit => format!("{} let () = {{ {} }};", prologue, body),
                ResultBinding::Typed(t) => format!(
                    "{} let __ret: {} = {{ {} }}; __ret",
                    prologue,
                    show(t),
                    body
                ),
                ResultBinding::Bare => {
                    if captures.is_empty() {
                        body
                    } else {
                        format!("{} {{ {} }}", prologue, body)
                    }
                }
            };
            let inner = inner.trim().to_string();
            if *boxed {
                format!("{{ Box::pin(async move {{ {} }}) }}", inner)
            } else {
                format!("{{ async move {{ {} }} }}", inner)
            }
        }
    }
}

fn show_type(t: &ImplicitType) -> String {
    let (params, clause) = show_generics(&t.generics);
    match t.side {
        Side::Declared => format!(
            "type {}{}: Future<Output = {}> + {}{};",
            t.ident,
            params,
            show_output(&t.output),
            show_bounds(&t.bounds),
            clause
        ),
        Side::Assigned => format!(
            "type {}{}{} = impl Future<Output = {}> + {};",
            t.ident,
            params,
            clause,
            show_output(&t.output),
            show_bounds(&t.bounds)
        ),
    }
}

fn trait_fn(item: &Item, index: usize) -> &TraitItemFn {
    match item {
        Item::Trait(t) => match &t.items[index] {
            TraitItem::Fn(f) => f,
            other => panic!("member {} is no method: {:?}", index, other),
        },
        Item::Impl(_) => panic!("an interface was expected"),
    }
}

fn impl_fn(item: &Item, index: usize) -> &ImplItemFn {
    match item {
        Item::Impl(i) => match &i.items[index] {
            ImplItem::Fn(f) => f,
            other => panic!("member {} is no method: {:?}", index, other),
        },
        Item::Trait(_) => panic!("an implementation was expected"),
    }
}

use async_trait::args::{Args, ArgsError};
use async_trait::async_trait;
use async_trait::body::{contains_associated_type_impl_trait, transform_block};
use async_trait::expand::{expand, Context, FutureType, Rejected};
use async_trait::lifetime::{has_async_lifetime, AddLifetimeToImplTrait, CollectLifetimes};
use async_trait::receiver::{
    contains_fn, has_self_in_block, has_self_in_sig, has_self_in_token_stream, mut_pat,
    ReplaceSelf,
};
use async_trait::bound::path_is_ident;
use async_trait::decl::{clone_names, clone_opt_node};
use async_trait::search::{
    contains_name, path_heads_with_self, plain_segment, search, search_any, search_generics,
    Query,
};
use async_trait::syntax::clone_nodes;
use async_trait::substitute::ReplaceSelfType;
use async_trait::text::{is_text, numbered, push_decimal};
use async_trait::token::{clone_tokens, contains_ident};

fn group(delimiter: Delimiter, inner: Vec<TokenTree>) -> TokenTree {
    TokenTree::Group(delimiter, inner)
}

fn macro_call(name: &str, input: Vec<TokenTree>) -> Node {
    node(NodeKind::Macro(input), vec![path(Position::Other, vec![seg(name)])])
}

fn nested(macro_rules: bool, tokens: Vec<TokenTree>) -> Node {
    node(NodeKind::Item { macro_rules, tokens }, vec![])
}

fn written(stmts: Vec<Node>) -> Block {
    Block::Written(stmts)
}

// ------------------------------------------------------------ configuration

#[test]
fn configuration_marker_is_read() {
    assert_eq!(Args::parse(&vec![]), Ok(Args { local: false, sync: false }));
    assert_eq!(Args::new(), Args { local: false, sync: false });
    assert_eq!(
        Args::parse(&vec![punct('?'), word("Send")]),
        Ok(Args { local: true, sync: false })
    );
    assert_eq!(
        Args::parse(&vec![punct('+'), word("Sync")]),
        Ok(Args { local: false, sync: true })
    );
    for malformed in [
        vec![word("Send")],
        vec![punct('?')],
        vec![punct('?'), word("Sync")],
        vec![punct('+'), word("Send")],
        vec![punct('?'), word("Send"), punct(',')],
        vec![punct('?'), TokenTree::Literal(s("Send"))],
        vec![group(Delimiter::Parenthesis, vec![punct('?'), word("Send")])],
        vec![punct('!'), word("Send")],
    ] {
        assert_eq!(Args::parse(&malformed), Err(ArgsError));
    }
    assert_eq!(ArgsError.message(), "expected #[async_trait] or #[async_trait(?Send)]");
}

#[test]
fn malformed_marker_leaves_the_declaration_untouched() {
    let declared = || interface(vec![], vec![required(vec![], sig("f", vec![], vec![by_ref()], None))]);
    let mut input = declared();
    assert_eq!(async_trait(&vec![word("nonsense")], &mut input), Err(ArgsError));
    assert_eq!(input, declared());

    let mut input = declared();
    assert_eq!(async_trait(&vec![punct('?'), word("Send")], &mut input), Ok(vec![]));
    assert_eq!(
        show_sig(&trait_fn(&input, 0).sig),
        "fn f<'life0, 'async_trait>(&'life0 self) \
         -> Pin<Box<dyn Future<Output = ()> + 'async_trait>> \
         where 'life0: 'async_trait, Self: 'async_trait"
    );

    let mut input = declared();
    assert_eq!(async_trait(&vec![], &mut input), Ok(Vec::<Rejected>::new()));
    assert!(show_sig(&trait_fn(&input, 0).sig).ends_with("Self: ::core::marker::Sync + 'async_trait"));
}

// -------------------------------------------------------------------- names

#[test]
fn names_and_numerals() {
    assert!(is_text(&s("Self"), "Self"));
    assert!(!is_text(&s("self"), "Self"));
    assert!(!is_text(&s("Sel"), "Self"));
    assert_eq!(numbered("life", 0), "life0");
    assert_eq!(numbered("life", 9), "life9");
    assert_eq!(numbered("life", 10), "life10");
    assert_eq!(numbered("", 4096), "4096");
    assert_eq!(numbered("n", usize::MAX), format!("n{}", usize::MAX));
    let mut out = s("x");
    push_decimal(&mut out, 120);
    assert_eq!(out, "x120");
    assert!(contains_name(&vec![s("a"), s("b")], &s("b")));
    assert!(!contains_name(&vec![s("a"), s("b")], &s("ab")));
    assert!(!contains_name(&vec![], &s("")));
}

// ------------------------------------------------------------------- tokens

#[test]
fn words_are_found_at_any_depth() {
    let flat = vec![word("a"), punct('+'), word("Self")];
    let deep = vec![
        word("a"),
        group(Delimiter::Brace, vec![group(Delimiter::Parenthesis, vec![word("fn"), word("f")])]),
    ];
    assert!(has_self_in_token_stream(&flat));
    assert!(!has_self_in_token_stream(&deep));
    assert!(!has_self_in_token_stream(&vec![word("self"), TokenTree::Literal(s("Self"))]));
    assert!(!has_self_in_token_stream(&vec![]));
    assert!(contains_fn(&deep));
    assert!(!contains_fn(&flat));
    assert!(contains_ident(&deep, "f"));
    assert!(!contains_ident(&deep, "g"));
    assert_eq!(clone_tokens(&deep), deep);
    assert_eq!(deep[1].clone(), deep[1]);
}

// ----------------------------------------------------------------- receiver

#[test]
fn owning_type_is_found_in_a_signature() {
    let with = |inputs, output| has_self_in_sig(&sig("f", vec![], inputs, output));
    assert!(with(vec![by_ref()], None));
    assert!(with(vec![by_value()], None));
    assert!(!with(vec![arg("x", ty("u8"))], Some(ty("u8"))));
    assert!(with(vec![], Some(ty("Self"))));
    assert!(with(vec![], Some(ty("Self::Assoc"))));
    assert!(with(vec![arg("x", generic("Vec", vec![reference(None, false, ty("Self"))]))], None));
    assert!(!with(vec![arg("x", ty("other::Self"))], None));
    assert!(!with(vec![arg("x", ty("Selfish"))], None));
    // A pattern that names the owning type.
    assert!(with(vec![arg_pat(path(Position::Pat, vec![seg("Self"), seg("A")]), ty("u8"))], None));
    // The constructor of a struct pattern is no use that is looked for.
    let constructor = shape(Shape::TupleStruct, vec![path(Position::Constructor, vec![seg("Self")]), pat("a")]);
    assert!(!with(vec![arg_pat(constructor, ty("u8"))], None));

    let mut bounded = sig("f", vec![type_param("T", vec![])], vec![], None);
    assert!(!has_self_in_sig(&bounded));
    bounded.generics.params[0] =
        type_param("T", vec![node(NodeKind::TraitBound { optional: false }, vec![path(
            Position::Other,
            vec![seg_args("Into", vec![ty("Self")])],
        )])]);
    assert!(has_self_in_sig(&bounded));
    let mut constrained = sig("f", vec![], vec![], None);
    constrained.generics.predicates.push(WherePredicate::Type {
        lifetimes: vec![],
        bounded: ty("Self"),
        bounds: vec![trait_bound("Sized")],
    });
    assert!(has_self_in_sig(&constrained));
}

#[test]
fn owning_type_is_found_in_a_body() {
    assert!(has_self_in_block(&written(vec![stmt(vec![expr("Self::new")])])));
    assert!(has_self_in_block(&written(vec![stmt(vec![ident("x")]), stmt(vec![ty("Self")])])));
    assert!(!has_self_in_block(&written(vec![stmt(vec![expr("self"), ident("Self")])])));
    assert!(!has_self_in_block(&written(vec![])));
    // Nested items are self-contained.
    assert!(!has_self_in_block(&written(vec![node(
        NodeKind::Item { macro_rules: false, tokens: vec![word("Self")] },
        vec![expr("Self::new")],
    )])));
    // The input of a macro-like construct counts, unless it defines a function.
    assert!(has_self_in_block(&written(vec![macro_call("m", vec![word("Self")])])));
    assert!(has_self_in_block(&written(vec![macro_call(
        "m",
        vec![group(Delimiter::Bracket, vec![word("Self"), punct(':'), punct(':'), word("X")])],
    )])));
    assert!(!has_self_in_block(&written(vec![macro_call(
        "m",
        vec![word("fn"), word("f"), group(Delimiter::Brace, vec![word("Self")])],
    )])));
    assert!(!has_self_in_block(&written(vec![macro_call("Self", vec![word("x")])])));
}

#[test]
fn mutable_bindings_are_found_in_patterns() {
    assert!(mut_pat(&pat_mut("x")));
    assert!(!mut_pat(&pat("x")));
    assert!(mut_pat(&tuple(vec![pat("a"), tuple(vec![pat_mut("b")])])));
    assert!(!mut_pat(&tuple(vec![pat("a"), shape(Shape::Wild, vec![])])));
    let bound_to = |inner: Node| {
        node(NodeKind::PatIdent { by_ref: false, mutable: false, ident: s("whole") }, vec![inner])
    };
    assert!(mut_pat(&bound_to(pat_mut("part"))));
    assert!(!mut_pat(&bound_to(pat("part"))));
    assert!(!mut_pat(&shape(Shape::RefMutPat, vec![pat("x")])));
}

#[test]
fn receiver_is_renamed() {
    let rename = ReplaceSelf("__");
    let mut name = s("self");
    rename.visit_ident_mut(&mut name);
    assert_eq!(name, "__self");
    let mut other = s("Self");
    rename.visit_ident_mut(&mut other);
    assert_eq!(other, "Self");
    let mut prefixed = s("self");
    ReplaceSelf("my_").visit_ident_mut(&mut prefixed);
    assert_eq!(prefixed, "my_self");

    let input = vec![
        word("self"),
        punct('.'),
        word("x"),
        group(Delimiter::Parenthesis, vec![word("self"), word("Self"), TokenTree::Literal(s("self"))]),
    ];
    assert_eq!(
        show_tokens(&rename.visit_token_stream(input)),
        "__self . x (__self Self self)"
    );
    assert_eq!(rename.visit_token_stream(vec![]), vec![]);

    let mut body = written(vec![
        stmt(vec![expr("self"), ident("self"), ident("other")]),
        macro_call("println", vec![word("self"), word("fn")]),
        nested(true, vec![word("self")]),
        node(NodeKind::Item { macro_rules: false, tokens: vec![word("self")] }, vec![expr("self")]),
        stmt(vec![pat("self"), path(Position::Expr, vec![seg("self"), seg("self")])]),
    ]);
    rename.visit_block_mut(&mut body);
    assert_eq!(
        show_block(&body),
        "{ __self __self other println!(__self fn) __self self __self __self::__self }"
    );
    let Block::Written(stmts) = &body else { panic!("a written body was expected") };
    assert_eq!(stmts[3].children, vec![expr("self")]);

    let mut tokens = vec![word("self")];
    rename.visit_item_mut(false, &mut tokens);
    assert_eq!(tokens, vec![word("self")]);
    rename.visit_item_mut(true, &mut tokens);
    assert_eq!(tokens, vec![word("__self")]);
    rename.visit_macro_mut(&mut tokens);
    assert_eq!(tokens, vec![word("__self")]);
}

// ---------------------------------------------------------------- lifetimes

#[test]
fn elided_lifetimes_are_collected() {
    let mut lifetimes = CollectLifetimes::new();
    assert!(lifetimes.elided.is_empty() && lifetimes.explicit.is_empty());

    let mut first = reference(
        None,
        false,
        generic("Cow", vec![lifetime_arg("a"), reference(Some("_"), true, ty("str"))]),
    );
    lifetimes.visit_node(&mut first);
    assert_eq!(show(&first), "&'life0 Cow<'a, &'life1 mut str>");

    let mut receiver = Receiver { reference: Some(None), mutable: true, ty: None };
    lifetimes.visit_receiver(&mut receiver);
    assert_eq!(receiver.reference, Some(Some(s("life2"))));

    let mut named = Receiver { reference: Some(Some(s("r"))), mutable: false, ty: None };
    lifetimes.visit_receiver(&mut named);
    assert_eq!(named.reference, Some(Some(s("r"))));

    let mut typed = Receiver {
        reference: None,
        mutable: false,
        ty: Some(generic("Pin", vec![reference(None, true, ty("Self"))])),
    };
    lifetimes.visit_receiver(&mut typed);
    assert_eq!(show(typed.ty.as_ref().unwrap()), "Pin<&'life3 mut Self>");

    let mut by_value = Receiver { reference: None, mutable: false, ty: None };
    lifetimes.visit_receiver(&mut by_value);

    // A lifetime that is a bound is no generic argument, and what stands in a
    // nested item is not looked at.
    let mut rest = tuple(vec![
        impl_trait(vec![trait_bound("T"), lifetime_bound("_")]),
        node(NodeKind::Item { macro_rules: false, tokens: vec![] }, vec![reference(None, false, ty("u8"))]),
        generic("X", vec![lifetime_arg("_"), lifetime_arg("static")]),
    ]);
    lifetimes.visit_node(&mut rest);
    assert_eq!(show(&rest.children[0]), "impl T + '_");
    assert_eq!(rest.children[1].children, vec![reference(None, false, ty("u8"))]);
    assert_eq!(show(&rest.children[2]), "X<'life4, 'static>");

    assert_eq!(lifetimes.elided, vec![s("life0"), s("life1"), s("life2"), s("life3"), s("life4")]);
    assert_eq!(lifetimes.explicit, vec![s("a"), s("r"), s("static")]);
}

#[test]
fn task_lifetime_is_found_where_it_is_written() {
    let empty = || written(vec![]);
    let plain = sig("f", vec![], vec![by_ref(), arg("x", reference(Some("a"), false, ty("u8")))], None);
    assert!(!has_async_lifetime(&plain, &empty()));
    let in_type = sig("f", vec![], vec![arg("x", reference(Some("async_trait"), false, ty("u8")))], None);
    assert!(has_async_lifetime(&in_type, &empty()));
    let on_receiver = sig("f", vec![], vec![by_ref_named("async_trait")], None);
    assert!(has_async_lifetime(&on_receiver, &empty()));
    let declared = sig("f", vec![lifetime_param("async_trait")], vec![], None);
    assert!(has_async_lifetime(&declared, &empty()));
    let outlived = sig(
        "f",
        vec![GenericParam::Lifetime { ident: s("a"), outlives: vec![s("async_trait")] }],
        vec![],
        None,
    );
    assert!(has_async_lifetime(&outlived, &empty()));
    let in_output = sig("f", vec![], vec![], Some(generic("X", vec![lifetime_arg("async_trait")])));
    assert!(has_async_lifetime(&in_output, &empty()));
    let as_bound = written(vec![stmt(vec![impl_trait(vec![lifetime_bound("async_trait")])])]);
    assert!(has_async_lifetime(&plain, &as_bound));
    let in_item = written(vec![node(
        NodeKind::Item { macro_rules: false, tokens: vec![] },
        vec![lifetime_bound("async_trait")],
    )]);
    assert!(!has_async_lifetime(&plain, &in_item));
    let as_word = written(vec![stmt(vec![ident("async_trait")])]);
    assert!(!has_async_lifetime(&plain, &as_word));
}

#[test]
fn impl_trait_gets_the_lifetime_as_its_first_bound() {
    let add = AddLifetimeToImplTrait("async_trait");
    let display = || impl_trait(vec![trait_bound("Display")]);
    let mut plain = display();
    add.visit_node_mut(&mut plain);
    assert_eq!(show(&plain), "impl 'async_trait + Display");

    let mut behind_reference = reference(Some("a"), false, display());
    add.visit_node_mut(&mut behind_reference);
    assert_eq!(show(&behind_reference), "&'a (impl 'async_trait + Display)");

    let inner = impl_trait(vec![node(NodeKind::TraitBound { optional: false }, vec![path(
        Position::Other,
        vec![seg_args("Iterator", vec![node(NodeKind::Binding(s("Item")), vec![display()])])],
    )])]);
    let mut nested = generic("Vec", vec![inner]);
    AddLifetimeToImplTrait("x").visit_node_mut(&mut nested);
    assert_eq!(show(&nested), "Vec<impl 'x + Iterator<Item = impl 'x + Display>>");

    let mut none = generic("Vec", vec![reference(None, false, ty("u8"))]);
    add.visit_node_mut(&mut none);
    assert_eq!(none, generic("Vec", vec![reference(None, false, ty("u8"))]));
}

// --------------------------------------------------------------------- body

fn in_impl_with<'a>(generics: &'a Generics, names: &'a Vec<String>) -> Context<'a> {
    Context::Impl { impl_generics: generics, associated_type_impl_traits: names }
}

#[test]
fn destructured_parameter_is_rebuilt_in_the_body() {
    // async fn f<T>(&self, x: &T, (a, b): (A, B)) -> Ret { self + x + a + b }
    let pair = || tuple(vec![pat("a"), pat("b")]);
    let declared = || {
        sig(
            "f",
            vec![type_param("T", vec![])],
            vec![
                by_ref(),
                arg("x", reference(None, false, ty("T"))),
                arg_pat(pair(), tuple(vec![ty("A"), ty("B")])),
            ],
            Some(ty("Ret")),
        )
    };
    let plus = || tokens(vec![punct('+')]);
    let body = || {
        vec![stmt(vec![expr("self"), plus(), expr("x"), plus(), expr("a"), plus(), expr("b")])]
    };
    let mut item = interface(vec![], vec![provided(vec![], declared(), body())]);
    assert_eq!(expand(&mut item, false), vec![]);
    let rewritten = trait_fn(&item, 0);
    assert_eq!(
        show_sig(&rewritten.sig),
        "fn f<'life0, 'life1, 'async_trait, T>(&'life0 self, x: &'life1 T, __arg2: (A, B)) \
         -> Pin<Box<dyn Future<Output = Ret> + Send + 'async_trait>> \
         where T: 'async_trait, 'life0: 'async_trait, 'life1: 'async_trait, \
         Self: ::core::marker::Sync + 'async_trait"
    );
    assert_eq!(
        show_block(rewritten.default.as_ref().unwrap()),
        "{ Box::pin(async move { let __self = self; \
         let (a, b) = { let __arg2 = __arg2; __arg2 }; \
         let __ret: Ret = { __self + x + a + b }; __ret }) }"
    );
    let Some(Block::Deferred { captures, .. }) = &rewritten.default else {
        panic!("a rewritten body was expected")
    };
    assert_eq!(
        captures,
        &vec![
            Capture::Receiver { mutable: false },
            Capture::Destructured { attrs: vec![], pat: pair(), ident: s("__arg2") },
        ]
    );

    // The rebuilt method behaves as the declared one: the tuple that the
    // caller hands over under the positional name is taken apart by the
    // declared pattern.
    let declared_method = |this: i64, x: &i64, (a, b): (i64, i64)| this + x + a + b;
    let rebuilt_method = |this: i64, x: &i64, __arg2: (i64, i64)| {
        let __self = this;
        let (a, b) = {
            let __arg2 = __arg2;
            __arg2
        };
        __self + x + a + b
    };
    assert_eq!(declared_method(1, &20, (300, 4000)), 4321);
    assert_eq!(rebuilt_method(1, &20, (300, 4000)), declared_method(1, &20, (300, 4000)));
}

#[test]
fn body_is_wrapped_as_the_strategy_asks() {
    let around = generics(vec![]);
    let supertraits = vec![];
    let context = Context::Trait { generics: &around, supertraits: &supertraits };
    let cfg = |name: &str| Attribute { path: vec![s(name)], tokens: vec![word("unix")] };
    let declared = Signature {
        inputs: vec![
            FnArg::Receiver(Receiver { reference: Some(None), mutable: true, ty: None }),
            FnArg::Typed(PatType {
                attrs: vec![cfg("cfg"), cfg("allow")],
                pat: pat_mut("x"),
                ty: ty("u8"),
            }),
            arg_pat(shape(Shape::Wild, vec![]), ty("u8")),
            arg_pat(shape(Shape::Wild, vec![]), reference(None, false, ty("u8"))),
            arg("r", reference(None, false, ty("u8"))),
        ],
        ..sig("f", vec![], vec![], None)
    };
    let mut unit = written(vec![stmt(vec![expr("self"), ident("go")])]);
    transform_block(context, &declared, &mut unit, FutureType::UnboxedSend);
    assert_eq!(
        show_block(&unit),
        "{ async move { let mut __self = self; let mut x = x; let __arg2 = __arg2; \
         let () = { __self go }; } }"
    );
    let Block::Deferred { boxed, captures, result, .. } = &unit else {
        panic!("a rewritten body was expected")
    };
    assert!(!boxed);
    assert_eq!(result, &ResultBinding::Unit);
    assert_eq!(
        captures[1],
        Capture::Named { attrs: vec![cfg("cfg")], mutable: true, ident: s("x") }
    );
    assert_eq!(captures[2], Capture::Positional { attrs: vec![], ident: s("__arg2") });
    assert_eq!(captures.len(), 3);

    // Rewriting again changes nothing.
    let once = show_block(&unit);
    transform_block(context, &declared, &mut unit, FutureType::BoxedSend);
    assert_eq!(show_block(&unit), once);

    // Without a receiver nothing is renamed.
    let free = sig("g", vec![], vec![], Some(ty("u8")));
    let mut typed = written(vec![stmt(vec![expr("self")])]);
    transform_block(context, &free, &mut typed, FutureType::BoxedLocal);
    assert_eq!(show_block(&typed), "{ Box::pin(async move { let __ret: u8 = { self }; __ret }) }");
}

#[test]
fn body_without_implementation_is_left_as_it_is() {
    let around = generics(vec![]);
    let supertraits = vec![];
    let context = Context::Trait { generics: &around, supertraits: &supertraits };
    let declared = sig("f", vec![], vec![by_ref()], None);
    let mark = || written(vec![tokens(vec![punct(';')])]);
    let mut body = mark();
    transform_block(context, &declared, &mut body, FutureType::BoxedSend);
    assert_eq!(body, mark());

    for other in [
        vec![tokens(vec![punct(';')]), tokens(vec![punct(';')])],
        vec![tokens(vec![punct(',')])],
        vec![tokens(vec![punct(';'), punct(';')])],
        vec![tokens(vec![word("x")])],
        vec![node(NodeKind::Tokens(vec![punct(';')]), vec![ident("x")])],
        vec![],
    ] {
        let mut body = written(other);
        transform_block(context, &declared, &mut body, FutureType::BoxedSend);
        assert!(matches!(body, Block::Deferred { .. }));
    }
}

#[test]
fn opaque_associated_type_is_not_annotated() {
    let around = generics(vec![]);
    let names = vec![s("Fut"), s("Other")];
    let context = in_impl_with(&around, &names);
    let supertraits = vec![];
    let in_interface = Context::Trait { generics: &around, supertraits: &supertraits };
    assert!(contains_associated_type_impl_trait(context, &ty("Self::Fut")));
    assert!(contains_associated_type_impl_trait(context, &generic("Box", vec![ty("Self::Other")])));
    assert!(!contains_associated_type_impl_trait(context, &ty("Self::Missing")));
    assert!(!contains_associated_type_impl_trait(context, &ty("Fut")));
    assert!(!contains_associated_type_impl_trait(context, &ty("Self::Fut::Deeper")));
    assert!(!contains_associated_type_impl_trait(context, &expr("Self::Fut")));
    assert!(!contains_associated_type_impl_trait(in_interface, &ty("Self::Fut")));

    let declared = sig("f", vec![], vec![arg("x", ty("u8"))], Some(ty("Self::Fut")));
    let mut body = written(vec![stmt(vec![ident("make")])]);
    transform_block(context, &declared, &mut body, FutureType::BoxedSend);
    assert_eq!(show_block(&body), "{ Box::pin(async move { let x = x; { make } }) }");
    let bare = sig("g", vec![], vec![], Some(ty("Self::Fut")));
    let mut body = written(vec![stmt(vec![ident("make")])]);
    transform_block(context, &bare, &mut body, FutureType::UnboxedLocal);
    assert_eq!(show_block(&body), "{ async move { make } }");

    // The names are those of the associated types that are written as
    // opaque types.
    let mut implemented = Item::Impl(ItemImpl {
        generics: generics(vec![]),
        trait_path: None,
        self_ty: ty("Widget"),
        self_tokens: vec![word("Widget")],
        items: vec![
            ImplItem::Associated { ident: s("Fut"), impl_trait: true },
            ImplItem::Associated { ident: s("Plain"), impl_trait: false },
            method(vec![], sig("a", vec![], vec![], Some(ty("Self::Fut"))), vec![]),
            method(vec![], sig("b", vec![], vec![], Some(ty("Self::Plain"))), vec![]),
        ],
    });
    assert_eq!(expand(&mut implemented, true), vec![]);
    assert_eq!(
        show_block(impl_fn(&implemented, 2).block.as_ref().unwrap()),
        "{ Box::pin(async move {  }) }"
    );
    assert_eq!(
        show_block(impl_fn(&implemented, 3).block.as_ref().unwrap()),
        "{ Box::pin(async move { let __ret: <Widget>::Plain = {  }; __ret }) }"
    );
}

// ------------------------------------------------------------- substitution

#[test]
fn owning_type_is_replaced_by_the_concrete_type() {
    let widget = generic("Widget", vec![ty("T")]);
    let widget_tokens = vec![word("Widget"), punct('<'), word("T"), punct('>')];
    let interface = path(Position::Other, vec![seg("Interface")]);
    let replace =
        ReplaceSelfType { with: &widget, with_tokens: &widget_tokens, as_trait: Some(&interface) };
    let unqualified = ReplaceSelfType { with: &widget, with_tokens: &widget_tokens, as_trait: None };
    let replaced = |n: Node| {
        let mut n = n;
        replace.visit_node_mut(&mut n);
        show(&n)
    };
    assert_eq!(replaced(ty("Self")), "Widget<T>");
    assert_eq!(replaced(ty("Self::Assoc")), "<Widget<T> as Interface>::Assoc");
    assert_eq!(replaced(ty("Self::A::B")), "<Widget<T> as Interface>::A::B");
    assert_eq!(replaced(generic("Vec", vec![reference(None, false, ty("Self"))])), "Vec<&Widget<T>>");
    assert_eq!(replaced(ty("Other")), "Other");
    assert_eq!(replaced(ty("other::Self")), "other::Self");
    assert_eq!(replaced(generic("Self", vec![ty("u8")])), "Self<u8>");
    assert_eq!(replaced(expr("Self::new")), "<Widget<T>>::new");
    assert_eq!(replaced(expr("Self")), "Widget<T>");
    assert_eq!(replaced(path(Position::Pat, vec![seg("Self")])), "Widget<T>");
    assert_eq!(replaced(path(Position::Pat, vec![seg("Self"), seg("A")])), "<Widget<T>>::A");
    assert_eq!(replaced(path(Position::Other, vec![seg("Self")])), "Self");
    let literal = shape(
        Shape::Struct,
        vec![
            path(Position::Constructor, vec![seg("Self"), seg("Variant")]),
            shape(Shape::Field, vec![ident("x"), expr("Self::ZERO")]),
        ],
    );
    assert_eq!(replaced(literal), "Widget<T>::Variant { x: <Widget<T>>::ZERO }");
    let call = shape(
        Shape::TupleStruct,
        vec![path(Position::Constructor, vec![seg("Self")]), pat("a"), pat("b")],
    );
    assert_eq!(replaced(call), "Widget<T>(a, b)");
    assert_eq!(replaced(nested(false, vec![word("Self")])), "Self");
    assert_eq!(replaced(macro_call("m", vec![word("Self"), word("x")])), "m!(Widget < T > x)");
    assert_eq!(
        replaced(macro_call("m", vec![word("fn"), group(Delimiter::Brace, vec![word("Self")])])),
        "m!(fn {Self})"
    );
    assert_eq!(
        show_tokens(&replace.visit_token_stream(vec![
            word("Self"),
            group(Delimiter::Parenthesis, vec![word("Self"), word("self")]),
        ])),
        "Widget < T > (Widget < T > self)"
    );

    let mut associated = ty("Self::Assoc");
    unqualified.visit_node_mut(&mut associated);
    assert_eq!(show(&associated), "<Widget<T>>::Assoc");

    let mut nodes = vec![ty("Self"), ident("Self"), expr("self")];
    replace.visit_nodes_mut(&mut nodes);
    assert_eq!(show_all(&nodes, " "), "Widget<T> Self self");

    let mut declared = sig(
        "f",
        vec![type_param("U", vec![node(NodeKind::TraitBound { optional: false }, vec![path(
            Position::Other,
            vec![seg_args("Into", vec![ty("Self")])],
        )])])],
        vec![typed_self(generic("Box", vec![ty("Self")])), arg("x", ty("Self::Assoc"))],
        Some(ty("Self")),
    );
    declared.generics.predicates.push(WherePredicate::Type {
        lifetimes: vec![],
        bounded: ty("Self"),
        bounds: vec![trait_bound("Sized")],
    });
    replace.visit_signature_mut(&mut declared);
    assert_eq!(
        show_sig(&declared),
        "async fn f<U: Into<Widget<T>>>(self: Box<Widget<T>>, x: <Widget<T> as Interface>::Assoc) \
         -> Widget<T> where Widget<T>: Sized"
    );
}

#[test]
fn implementation_returns_the_concrete_type() {
    // trait Interface { async fn f() -> Self; }
    // impl Interface for Widget { async fn f() -> Self { Self } }
    let declared = || sig("f", vec![], vec![], Some(ty("Self")));
    let mut implemented =
        implementation("Interface", "Widget", vec![method(vec![], declared(), vec![stmt(vec![expr("Self")])])]);
    assert_eq!(expand(&mut implemented, false), vec![]);
    let rewritten = impl_fn(&implemented, 0);
    assert_eq!(
        rewritten.sig.output,
        ReturnType::Boxed { output: Some(ty("Widget")), bounds: FutureBounds { send: true, outlives: Outlives::Task } }
    );
    assert_eq!(
        show_sig(&rewritten.sig),
        "fn f<'async_trait>() -> Pin<Box<dyn Future<Output = Widget> + Send + 'async_trait>> \
         where Widget: 'async_trait"
    );
    assert_eq!(
        show_block(rewritten.block.as_ref().unwrap()),
        "{ Box::pin(async move { let __ret: Widget = { Widget }; __ret }) }"
    );

    let mut in_interface = interface(vec![], vec![required(vec![], declared())]);
    assert_eq!(expand(&mut in_interface, false), vec![]);
    assert_eq!(
        show_sig(&trait_fn(&in_interface, 0).sig),
        "fn f<'async_trait>() -> Pin<Box<dyn Future<Output = Self> + Send + 'async_trait>> \
         where Self: ::core::marker::Send + 'async_trait"
    );

    // Under an opaque strategy the assigned type yields the concrete type.
    let mut opaque = implementation(
        "Interface",
        "Widget",
        vec![method(vec![attr("unboxed")], declared(), vec![]), ImplItem::Other],
    );
    assert_eq!(expand(&mut opaque, false), vec![]);
    let Item::Impl(i) = &opaque else { panic!("an implementation was expected") };
    assert_eq!(i.items.len(), 3);
    assert_eq!(i.items[1], ImplItem::Other);
    let ImplItem::Type(assigned) = &i.items[2] else { panic!("a type was expected") };
    assert_eq!(
        show_type(assigned),
        "type RetTypeOfF<'async_trait> where Widget: 'async_trait \
         = impl Future<Output = Widget> + Send + 'async_trait;"
    );
    assert_eq!(show_sig(&impl_fn(&opaque, 0).sig), "fn f<'async_trait>() -> Self::RetTypeOfF<'async_trait> where Widget: 'async_trait");
}

#[test]
fn method_without_body_in_an_implementation_is_rewritten_too() {
    let mut implemented = implementation(
        "Interface",
        "Widget",
        vec![ImplItem::Fn(ImplItemFn {
            attrs: vec![],
            sig: sig("f", vec![], vec![by_ref()], None),
            block: None,
        })],
    );
    assert_eq!(expand(&mut implemented, false), vec![]);
    assert_eq!(impl_fn(&implemented, 0).block, None);
    assert_eq!(
        show_sig(&impl_fn(&implemented, 0).sig),
        "fn f<'life0, 'async_trait>(&'life0 self) \
         -> Pin<Box<dyn Future<Output = ()> + Send + 'async_trait>> \
         where 'life0: 'async_trait, Widget: 'async_trait"
    );
}

// ------------------------------------------------------------------- search

#[test]
fn search_reaches_every_node_that_it_may_enter() {
    let tree = tuple(vec![ty("A"), reference(Some("async_trait"), false, ty("B"))]);
    assert!(search(&tree, &Query::TaskLifetime));
    assert!(!search(&tree, &Query::OwningType));
    assert!(!search(&tree, &Query::MutableBinding));
    assert!(!search(&tree, &Query::ValueSelf));
    assert!(!search_any(&vec![], &Query::TaskLifetime));
    assert!(search_any(&vec![ty("A"), tree.clone()], &Query::TaskLifetime));
    assert_eq!(tree.clone(), tree);

    let qualified = node(
        NodeKind::Path { position: Position::Type, leading_colon: false, qself: Some(1) },
        vec![ty("T"), seg("Self"), seg("X")],
    );
    assert!(search(&qualified, &Query::OwningType));
    let names = vec![s("X")];
    assert!(!search(&qualified, &Query::AssociatedType(&names)));
    assert!(search(&ty("Self::X"), &Query::AssociatedType(&names)));

    assert!(search(&expr("Self"), &Query::ValueSelf));
    assert!(!search(&expr("Self::f"), &Query::ValueSelf));
    assert!(search(&path(Position::Constructor, vec![seg("Self"), seg("V")]), &Query::ValueSelf));
    assert!(!search(&ty("Self"), &Query::ValueSelf));
    assert!(!search(&macro_call("m", vec![word("Self")]), &Query::ValueSelf));
}

// ------------------------------------------------------------------- copies

#[test]
fn copies_are_equal_to_what_they_copy() {
    assert_eq!(Generics::new(), generics(vec![]));
    assert_eq!(Node::leaf(NodeKind::ImplTrait), impl_trait(vec![]));
    let nodes = vec![
        ty("a::B"),
        reference(Some("x"), true, tuple(vec![pat_mut("m"), tokens(vec![word("w")])])),
        macro_call("m", vec![group(Delimiter::Brace, vec![punct(';')])]),
        nested(true, vec![TokenTree::Literal(s("1"))]),
        node(NodeKind::Binding(s("Item")), vec![lifetime_arg("a"), lifetime_bound("b")]),
        node(NodeKind::TraitObject, vec![node(NodeKind::TraitBound { optional: true }, vec![])]),
        ident("i"),
    ];
    assert_eq!(clone_nodes(&nodes), nodes);
    assert_eq!(clone_nodes(&vec![]), vec![]);
    assert_eq!(clone_names(&vec![s("a"), s("")]), vec![s("a"), s("")]);
    assert_eq!(clone_opt_node(&Some(ty("T"))), Some(ty("T")));
    assert_eq!(clone_opt_node(&None), None);
    let declared = Generics {
        params: vec![
            GenericParam::Lifetime { ident: s("a"), outlives: vec![s("b")] },
            GenericParam::Type { ident: s("T"), bounds: vec![trait_bound("X")], default: Some(ty("D")) },
            GenericParam::Const { ident: s("N"), ty: ty("usize"), value: vec![word("v")] },
        ],
        predicates: vec![
            WherePredicate::Lifetime { ident: s("a"), outlives: vec![s("c")] },
            WherePredicate::Type { lifetimes: vec![s("l")], bounded: ty("T"), bounds: vec![] },
        ],
    };
    assert_eq!(declared.clone(), declared);
    assert_eq!(attr("cfg").clone(), attr("cfg"));

    assert!(path_is_ident(&ty("Self"), "Self"));
    assert!(!path_is_ident(&ty("a::Self"), "Self"));
    assert!(!path_is_ident(&generic("Self", vec![]), "Self"));
    assert!(!path_is_ident(&seg("Self"), "Self"));
    assert!(plain_segment(&seg("x"), "x"));
    assert!(!plain_segment(&seg_args("x", vec![]), "x"));
    assert!(path_heads_with_self(&ty("Self::A")));
    assert!(!path_heads_with_self(&ty("A::Self")));
    assert!(search_generics(&declared, &Query::TaskLifetime) == false);
    let around = generics(vec![GenericParam::Lifetime {
        ident: s("a"),
        outlives: vec![s("async_trait")],
    }]);
    assert!(search_generics(&around, &Query::TaskLifetime));
}
