//! Capability bounds: what the owning type must allow so that the produced
//! computation can cross a thread boundary.

use crate::decl::{Receiver, ReceiverView};
use crate::search::{is_plain_segment, is_segment, plain_segment};
use crate::syntax::{lemma_node_view, Arguments, Node, NodeKind, NodeKindView, NodeView, Position};
use crate::text::is_text;
use vstd::prelude::*;

verus! {

/// A marker requirement on the owning type.
#[derive(Clone, Copy, Debug, PartialEq, Eq, Structural)]
pub enum InferredBound {
    /// Safe to move across a thread boundary.
    Send,
    /// Safe to share between threads.
    Sync,
}

impl InferredBound {
    /// The name of the marker trait.
    pub open spec fn name(self) -> Seq<char> {
        match self {
            InferredBound::Send => "Send"@,
            InferredBound::Sync => "Sync"@,
        }
    }

    /// The name of the marker trait, as it is written.
    pub fn as_str(&self) -> (r: &'static str)
        ensures
            r@ == self.name(),
    {
        match self {
            InferredBound::Send => "Send",
            InferredBound::Sync => "Sync",
        }
    }
}

/// How a method takes its receiver.
#[derive(Clone, Copy, Debug, PartialEq, Eq, Structural)]
pub enum AccessMode {
    /// `self`, or `self: T` for any `T` that is not named below.
    Value,
    /// `&self` or `self: &Self`.
    Reference,
    /// `&mut self` or `self: &mut Self`.
    MutableReference,
    /// `self: Arc<Self>`: shared ownership.
    Shared,
}

/// Whether `n` is a path that consists of the single word `name`.
pub open spec fn is_ident_path(n: NodeView, name: Seq<char>) -> bool {
    n.kind matches NodeKindView::Path { leading_colon, qself, .. } && !leading_colon && qself is None
        && n.children.len() == 1 && is_plain_segment(n.children[0], name)
}

/// Whether `n` is the type `Arc<Self>`, under any path that ends in `Arc`.
pub open spec fn is_shared_self(n: NodeView) -> bool {
    n.kind matches NodeKindView::Path { position, qself, .. } && position == Position::Type
        && n.children.len() >= 1 && (qself is Some ==> n.children.len() >= 2) && {
        let last = n.children.last();
        &&& last.kind == (NodeKindView::Segment {
            ident: "Arc"@,
            arguments: Arguments::AngleBracketed,
        })
        &&& last.children.len() == 1
        &&& last.children[0].kind matches NodeKindView::Path { position: p, .. } && p
            == Position::Type
        &&& is_ident_path(last.children[0], "Self"@)
    }
}

/// How the receiver is taken.
pub open spec fn access_mode_of(r: ReceiverView) -> AccessMode {
    match r.reference {
        Some(_) => if r.mutable {
            AccessMode::MutableReference
        } else {
            AccessMode::Reference
        },
        None => match r.ty {
            Some(ty) => match ty.kind {
                NodeKindView::Reference { mutable, .. } => if mutable {
                    AccessMode::MutableReference
                } else {
                    AccessMode::Reference
                },
                _ => if is_shared_self(ty) {
                    AccessMode::Shared
                } else {
                    AccessMode::Value
                },
            },
            None => AccessMode::Value,
        },
    }
}

/// The capabilities that the owning type needs for the produced computation
/// to be thread-sendable. A method that refers to the owning type without a
/// receiver is treated as one that takes it by value.
pub open spec fn required_bounds(mode: Option<AccessMode>) -> Seq<InferredBound> {
    match mode {
        Some(AccessMode::Reference) => seq![InferredBound::Sync],
        Some(AccessMode::Shared) => seq![InferredBound::Sync, InferredBound::Send],
        _ => seq![InferredBound::Send],
    }
}

/// Whether `n` is a path that consists of the single word `name`.
pub fn path_is_ident(n: &Node, name: &str) -> (r: bool)
    ensures
        r == is_ident_path(n@, name@),
{
    proof {
        lemma_node_view(*n);
    }
    match &n.kind {
        NodeKind::Path { leading_colon, qself, .. } => !*leading_colon && qself.is_none()
            && n.children.len() == 1 && plain_segment(&n.children[0], name),
        _ => false,
    }
}

fn shared_self(n: &Node) -> (r: bool)
    ensures
        r == is_shared_self(n@),
{
    proof {
        lemma_node_view(*n);
    }
    match &n.kind {
        NodeKind::Path { position, qself, .. } => {
            let in_type = match position {
                Position::Type => true,
                _ => false,
            };
            if !in_type || n.children.len() == 0 || (qself.is_some() && n.children.len() < 2) {
                return false;
            }
            let last = &n.children[n.children.len() - 1];
            proof {
                lemma_node_view(*last);
                assert(n@.children.last() == last@);
            }
            let is_arc = match &last.kind {
                NodeKind::Segment { ident, arguments } => {
                    let angle = match arguments {
                        Arguments::AngleBracketed => true,
                        _ => false,
                    };
                    angle && is_text(ident, "Arc")
                },
                _ => false,
            };
            if !is_arc || last.children.len() != 1 {
                return false;
            }
            let arg = &last.children[0];
            proof {
                lemma_node_view(*arg);
            }
            let arg_is_type = match &arg.kind {
                NodeKind::Path { position: Position::Type, .. } => true,
                _ => false,
            };
            arg_is_type && path_is_ident(arg, "Self")
        },
        _ => false,
    }
}

/// Classifies the receiver of a method.
pub fn access_mode(receiver: &Receiver) -> (r: AccessMode)
    ensures
        r == access_mode_of(receiver@),
{
    match &receiver.reference {
        Some(_) => if receiver.mutable {
            AccessMode::MutableReference
        } else {
            AccessMode::Reference
        },
        None => match &receiver.ty {
            Some(ty) => {
                proof {
                    lemma_node_view(*ty);
                }
                match &ty.kind {
                    NodeKind::Reference { mutable, .. } => if *mutable {
                        AccessMode::MutableReference
                    } else {
                        AccessMode::Reference
                    },
                    _ => if shared_self(ty) {
                        AccessMode::Shared
                    } else {
                        AccessMode::Value
                    },
                }
            },
            None => AccessMode::Value,
        },
    }
}

/// The capabilities that a method with this receiver asks of the owning
/// type: thread-shareable for a shared borrow, both for shared ownership,
/// thread-sendable in every other case.
pub fn infer_bounds(mode: Option<AccessMode>) -> (r: Vec<InferredBound>)
    ensures
        r@ == required_bounds(mode),
{
    let mut out: Vec<InferredBound> = Vec::new();
    match mode {
        Some(AccessMode::Reference) => {
            out.push(InferredBound::Sync);
        },
        Some(AccessMode::Shared) => {
            out.push(InferredBound::Sync);
            out.push(InferredBound::Send);
        },
        _ => {
            out.push(InferredBound::Send);
        },
    }
    assert(out@ =~= required_bounds(mode));
    out
}

/// Whether a bound on the interface names the marker trait `bound`: by the
/// bare word, or by its full path under `std::marker` or `core::marker`.
pub open spec fn names_bound(supertrait: NodeView, bound: InferredBound) -> bool {
    supertrait.kind is TraitBound && supertrait.children.len() >= 1 && {
        let path = supertrait.children.last();
        path.kind matches NodeKindView::Path { qself, .. } && qself is None && (is_ident_path(
            path,
            bound.name(),
        ) || (path.children.len() == 3 && (is_segment(path.children[0], "std"@) || is_segment(
            path.children[0],
            "core"@,
        )) && is_segment(path.children[1], "marker"@) && is_segment(
            path.children[2],
            bound.name(),
        )))
    }
}

/// Whether one of the bounds on the interface names the marker trait.
pub open spec fn declares_bound(supertraits: Seq<NodeView>, bound: InferredBound) -> bool {
    exists|i: int| 0 <= i < supertraits.len() && names_bound(#[trigger] supertraits[i], bound)
}

fn segment_named(n: &Node, name: &str) -> (r: bool)
    ensures
        r == is_segment(n@, name@),
{
    match &n.kind {
        NodeKind::Segment { ident, .. } => is_text(ident, name),
        _ => false,
    }
}

fn bound_names(supertrait: &Node, bound: InferredBound) -> (r: bool)
    ensures
        r == names_bound(supertrait@, bound),
{
    proof {
        lemma_node_view(*supertrait);
    }
    let is_trait = match &supertrait.kind {
        NodeKind::TraitBound { .. } => true,
        _ => false,
    };
    if !is_trait || supertrait.children.len() == 0 {
        return false;
    }
    let path = &supertrait.children[supertrait.children.len() - 1];
    proof {
        lemma_node_view(*path);
        assert(supertrait@.children.last() == path@);
    }
    match &path.kind {
        NodeKind::Path { qself, .. } => {
            if qself.is_some() {
                return false;
            }
            if path_is_ident(path, bound.as_str()) {
                return true;
            }
            path.children.len() == 3 && (segment_named(&path.children[0], "std") || segment_named(
                &path.children[0],
                "core",
            )) && segment_named(&path.children[1], "marker") && segment_named(
                &path.children[2],
                bound.as_str(),
            )
        },
        _ => false,
    }
}

/// Whether the interface already declares the capability as a supertrait.
pub fn has_bound(supertraits: &Vec<Node>, bound: InferredBound) -> (r: bool)
    ensures
        r == declares_bound(supertraits.deep_view(), bound),
{
    let mut i: usize = 0;
    while i < supertraits.len()
        invariant
            i <= supertraits.len(),
            forall|j: int| 0 <= j < i ==> !names_bound(#[trigger] supertraits.deep_view()[j], bound),
        decreases supertraits.len() - i,
    {
        if bound_names(&supertraits[i], bound) {
            assert(names_bound(supertraits.deep_view()[i as int], bound));
            return true;
        }
        i += 1;
    }
    false
}

} // verus!
