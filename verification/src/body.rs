//! Rewriting the body of a deferred method into a block that builds the
//! computation.

use crate::decl::{
    Attribute, AttributeView, Block, BlockView, Capture, CaptureView, FnArg, FnArgView, PatTypeView,
    ResultBinding, ResultBindingView, Signature, SignatureView,
};
use crate::expand::{Context, ContextView, FutureType};
use crate::receiver::{renamed_all, ReplaceSelf};
use crate::search::{found, search, Query, QueryView};
use crate::signature::{normalized_arg, positional_arg, positional_name};
use crate::syntax::{lemma_node_view, Node, NodeKind, NodeKindView, NodeView, Shape};
use crate::text::is_text;
use crate::token::{TokenTree, TokenTreeView};
use vstd::prelude::*;

verus! {

/// Whether the return type names an associated type of the implementation
/// that is written as an opaque type: `Self::Name` for one of the recorded
/// names. In an interface there is none.
pub open spec fn names_opaque_type(ctx: ContextView, ret: NodeView) -> bool {
    match ctx {
        ContextView::Trait { .. } => false,
        ContextView::Impl { associated_type_impl_traits, .. } => found(
            QueryView::AssociatedType(associated_type_impl_traits),
            ret,
        ),
    }
}

/// Looks through a return type for an opaque associated type of the
/// implementation.
pub fn contains_associated_type_impl_trait(context: Context, ret: &Node) -> (r: bool)
    ensures
        r == names_opaque_type(context@, ret@),
{
    match context {
        Context::Trait { .. } => false,
        Context::Impl { associated_type_impl_traits, .. } => search(
            ret,
            &Query::AssociatedType(associated_type_impl_traits),
        ),
    }
}

/// Whether the annotation is a condition on the build: `cfg` and nothing
/// before it.
pub open spec fn is_cfg(a: AttributeView) -> bool {
    a.path.len() == 1 && a.path[0] == "cfg"@
}

/// The build conditions among the first `k` annotations.
pub open spec fn cfg_attrs(attrs: Seq<AttributeView>, k: nat) -> Seq<AttributeView>
    decreases k,
{
    if k == 0 || k > attrs.len() {
        Seq::empty()
    } else {
        let before = cfg_attrs(attrs, (k - 1) as nat);
        if is_cfg(attrs[k - 1]) {
            before.push(attrs[k - 1])
        } else {
            before
        }
    }
}

/// The binding that takes hold of the parameter at place `i`. A parameter
/// of reference type needs none. A build condition on the parameter goes
/// over to the binding.
pub open spec fn capture_of(a: FnArgView, i: nat) -> Option<CaptureView> {
    match a {
        FnArgView::Receiver(r) => Some(CaptureView::Receiver { mutable: r.mutable }),
        FnArgView::Typed(t) => {
            let attrs = cfg_attrs(t.attrs, t.attrs.len());
            if t.ty.kind is Reference {
                None
            } else {
                match t.pat.kind {
                    NodeKindView::PatIdent { ident, mutable, .. } => Some(
                        CaptureView::Named { attrs, mutable, ident },
                    ),
                    NodeKindView::Shape(Shape::Wild) => Some(
                        CaptureView::Positional { attrs, ident: positional_name(i) },
                    ),
                    _ => Some(
                        CaptureView::Destructured {
                            attrs,
                            pat: t.pat,
                            ident: positional_name(i),
                        },
                    ),
                }
            }
        },
    }
}

/// The bindings for the first `k` parameters, in their order.
pub open spec fn captures_of(inputs: Seq<FnArgView>, k: nat) -> Seq<CaptureView>
    decreases k,
{
    if k == 0 || k > inputs.len() {
        Seq::empty()
    } else {
        let before = captures_of(inputs, (k - 1) as nat);
        match capture_of(inputs[k - 1], (k - 1) as nat) {
            Some(c) => before.push(c),
            None => before,
        }
    }
}

/// Whether one of the parameters is a receiver.
pub open spec fn has_receiver(inputs: Seq<FnArgView>) -> bool {
    exists|i: int| 0 <= i < inputs.len() && (#[trigger] inputs[i]) is Receiver
}

/// How the value of the statements leaves the rewritten body.
pub open spec fn result_of(ctx: ContextView, sig: SignatureView) -> ResultBindingView {
    match sig.written_output() {
        None => ResultBindingView::Unit,
        Some(ret) => if names_opaque_type(ctx, ret) {
            ResultBindingView::Bare
        } else {
            ResultBindingView::Typed(ret)
        },
    }
}

/// Whether the body holds nothing but the mark of a method without an
/// implementation: a lone `;`.
pub open spec fn is_placeholder(stmts: Seq<NodeView>) -> bool {
    stmts.len() == 1 && stmts[0].children.len() == 0 && (stmts[0].kind matches NodeKindView::Tokens(
        ts,
    ) && ts.len() == 1 && (ts[0] matches TokenTreeView::Punct { ch, .. } && ch == ';'))
}

/// The name under which the receiver is known inside the computation is
/// `self` behind this prefix.
pub open spec fn receiver_prefix() -> Seq<char> {
    "__"@
}

/// The rewritten body of a deferred method. A body that holds only the mark
/// of a missing implementation, and one that was rewritten before, stays as
/// it is.
pub open spec fn transformed_block(
    ctx: ContextView,
    sig: SignatureView,
    block: BlockView,
    future_type: FutureType,
) -> BlockView {
    match block {
        BlockView::Written(stmts) => if is_placeholder(stmts) {
            block
        } else {
            BlockView::Deferred {
                boxed: future_type.boxed(),
                captures: captures_of(sig.inputs, sig.inputs.len()),
                result: result_of(ctx, sig),
                stmts: if has_receiver(sig.inputs) {
                    renamed_all(receiver_prefix(), stmts)
                } else {
                    stmts
                },
            }
        },
        BlockView::Deferred { .. } => block,
    }
}

fn cfg_attrs_of(attrs: &Vec<Attribute>) -> (r: Vec<Attribute>)
    ensures
        r.deep_view() == cfg_attrs(attrs.deep_view(), attrs.len() as nat),
{
    let mut out: Vec<Attribute> = Vec::new();
    assert(out.deep_view() =~= Seq::<AttributeView>::empty());
    let mut i: usize = 0;
    while i < attrs.len()
        invariant
            i <= attrs.len(),
            out.deep_view() == cfg_attrs(attrs.deep_view(), i as nat),
        decreases attrs.len() - i,
    {
        let attr = &attrs[i];
        assert(attrs.deep_view()[i as int] == attr@);
        if attr.path.len() == 1 && is_text(&attr.path[0], "cfg") {
            assert(attr@.path[0] == attr.path[0]@);
            let ghost before = out.deep_view();
            let copy = attr.clone();
            out.push(copy);
            assert(out.deep_view() =~= before.push(copy@));
        } else {
            assert(attr.path.len() == 1 ==> attr@.path[0] == attr.path[0]@);
        }
        i += 1;
    }
    out
}

fn capture_for(a: &FnArg, i: usize) -> (r: Option<Capture>)
    ensures
        r.deep_view() == capture_of(a@, i as nat),
{
    match a {
        FnArg::Receiver(receiver) => Some(Capture::Receiver { mutable: receiver.mutable }),
        FnArg::Typed(arg) => {
            proof {
                lemma_node_view(arg.ty);
                lemma_node_view(arg.pat);
            }
            let by_reference = match &arg.ty.kind {
                NodeKind::Reference { .. } => true,
                _ => false,
            };
            if by_reference {
                return None;
            }
            let attrs = cfg_attrs_of(&arg.attrs);
            match &arg.pat.kind {
                NodeKind::PatIdent { ident, mutable, .. } => Some(
                    Capture::Named { attrs, mutable: *mutable, ident: ident.clone() },
                ),
                NodeKind::Shape(Shape::Wild) => Some(
                    Capture::Positional { attrs, ident: positional_arg(i) },
                ),
                _ => Some(
                    Capture::Destructured {
                        attrs,
                        pat: arg.pat.clone(),
                        ident: positional_arg(i),
                    },
                ),
            }
        },
    }
}

fn captures_for(inputs: &Vec<FnArg>) -> (r: Vec<Capture>)
    ensures
        r.deep_view() == captures_of(inputs.deep_view(), inputs.len() as nat),
{
    let mut out: Vec<Capture> = Vec::new();
    assert(out.deep_view() =~= Seq::<CaptureView>::empty());
    let mut i: usize = 0;
    while i < inputs.len()
        invariant
            i <= inputs.len(),
            out.deep_view() == captures_of(inputs.deep_view(), i as nat),
        decreases inputs.len() - i,
    {
        assert(inputs.deep_view()[i as int] == inputs[i as int]@);
        match capture_for(&inputs[i], i) {
            Some(c) => {
                let ghost before = out.deep_view();
                out.push(c);
                assert(out.deep_view() =~= before.push(c@));
            },
            None => {},
        }
        i += 1;
    }
    out
}

fn any_receiver(inputs: &Vec<FnArg>) -> (r: bool)
    ensures
        r == has_receiver(inputs.deep_view()),
{
    let mut i: usize = 0;
    while i < inputs.len()
        invariant
            i <= inputs.len(),
            forall|j: int| 0 <= j < i ==> !((#[trigger] inputs.deep_view()[j]) is Receiver),
        decreases inputs.len() - i,
    {
        assert(inputs.deep_view()[i as int] == inputs[i as int]@);
        match &inputs[i] {
            FnArg::Receiver(_) => {
                return true;
            },
            _ => {},
        }
        i += 1;
    }
    false
}

fn placeholder(stmts: &Vec<Node>) -> (r: bool)
    ensures
        r == is_placeholder(stmts.deep_view()),
{
    if stmts.len() != 1 {
        return false;
    }
    let stmt = &stmts[0];
    proof {
        lemma_node_view(*stmt);
        assert(stmts.deep_view()[0] == stmt@);
    }
    if stmt.children.len() != 0 {
        return false;
    }
    match &stmt.kind {
        NodeKind::Tokens(ts) => {
            if ts.len() != 1 {
                return false;
            }
            assert(ts.deep_view()[0] == ts[0]@);
            match &ts[0] {
                TokenTree::Punct { ch, .. } => *ch == ';',
                _ => false,
            }
        },
        _ => false,
    }
}

fn result_for(context: Context, sig: &Signature) -> (r: ResultBinding)
    ensures
        r@ == result_of(context@, sig@),
{
    match &sig.output {
        crate::decl::ReturnType::Type(ret) => {
            if contains_associated_type_impl_trait(context, ret) {
                ResultBinding::Bare
            } else {
                ResultBinding::Typed(ret.clone())
            }
        },
        _ => ResultBinding::Unit,
    }
}

/// Rewrites the body of a deferred method.
///
/// The new body first takes hold of every parameter, so that arguments are
/// evaluated when the method is called. Inside it the receiver goes by a
/// name of its own, and every `self` of the written statements is renamed
/// to it. The value of the statements is bound with the declared return
/// type. The whole is a deferred block, boxed where the strategy says so.
pub fn transform_block(
    context: Context,
    sig: &Signature,
    block: &mut Block,
    future_type: FutureType,
)
    ensures
        final(block)@ == transformed_block(context@, sig@, old(block)@, future_type),
{
    let rewrite = match block {
        Block::Written(stmts) => !placeholder(stmts),
        Block::Deferred { .. } => false,
    };
    if !rewrite {
        return ;
    }
    let captures = captures_for(&sig.inputs);
    if any_receiver(&sig.inputs) {
        ReplaceSelf("__").visit_block_mut(block);
    }
    let result = result_for(context, sig);
    let mut taken = Block::Written(Vec::new());
    core::mem::swap(block, &mut taken);
    match taken {
        Block::Written(stmts) => {
            *block = Block::Deferred { boxed: future_type.is_boxed(), captures, result, stmts };
        },
        Block::Deferred { .. } => {},
    }
}

/// A parameter that is written as a pattern other than a name or `_`, and
/// whose type is not a reference, goes by a positional name in the rewritten
/// signature, and the rewritten body takes it apart again: the binding for it
/// matches the value under that same positional name against the pattern as
/// it was written.
pub proof fn lemma_destructured_parameter_is_rebuilt(t: PatTypeView, i: nat, outlives: Seq<char>)
    requires
        !(t.ty.kind is Reference),
        !(t.pat.kind is PatIdent),
        t.pat.kind != NodeKindView::Shape(Shape::Wild),
    ensures
        normalized_arg(FnArgView::Typed(t), i, outlives)->Typed_0.pat.kind
            matches NodeKindView::PatIdent { ident, by_ref, .. } && ident == positional_name(i)
            && !by_ref,
        capture_of(FnArgView::Typed(t), i) == Some(
            CaptureView::Destructured {
                attrs: cfg_attrs(t.attrs, t.attrs.len()),
                pat: t.pat,
                ident: positional_name(i),
            },
        ),
{
}

} // verus!
