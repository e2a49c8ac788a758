//! Lifetimes of a signature: naming the elided ones, recording the named
//! ones, and looking for the task lifetime.

use crate::decl::{Block, Receiver, ReceiverView, Signature};
use crate::search::{block_found, search_block, search_signature, signature_found, Query, QueryView};
use crate::syntax::{lemma_node_view, Node, NodeKind, NodeKindView, NodeView, Shape};
use crate::text::{decimal, is_text, lemma_decimal_injective, numbered};
use vstd::prelude::*;

verus! {

/// The name of the `i`-th lifetime that the engine invents, without its
/// apostrophe.
pub open spec fn life_name(i: nat) -> Seq<char> {
    "life"@ + decimal(i)
}

/// The names `life_name(start)`, `life_name(start + 1)`, ... : `count` of them.
pub open spec fn fresh_names(start: nat, count: nat) -> Seq<Seq<char>> {
    Seq::new(count, |i: int| life_name(start + i as nat))
}

/// Whether a lifetime is missing at this node: a reference without one, or
/// the anonymous lifetime `'_` on a reference or as a generic argument.
pub open spec fn elision_site(kind: NodeKindView) -> bool {
    match kind {
        NodeKindView::Reference { lifetime, .. } => reference_elided(lifetime),
        NodeKindView::Lifetime { ident, argument } => argument && ident == "_"@,
        _ => false,
    }
}

/// The named lifetime written at this node, on a reference or as a generic
/// argument.
pub open spec fn explicit_site(kind: NodeKindView) -> Option<Seq<char>> {
    match kind {
        NodeKindView::Reference { lifetime: Some(l), .. } => if l == "_"@ {
            None
        } else {
            Some(l)
        },
        NodeKindView::Lifetime { ident, argument: true } => if ident == "_"@ {
            None
        } else {
            Some(ident)
        },
        _ => None,
    }
}

/// Whether the syntax below this node is walked: a nested item is
/// self-contained and is not.
pub open spec fn descends(kind: NodeKindView) -> bool {
    !(kind is Item)
}

/// The number of elision sites in `n`.
pub open spec fn elided_count(n: NodeView) -> nat
    decreases n, 1nat, 0nat,
{
    (if elision_site(n.kind) {
        1nat
    } else {
        0nat
    }) + (if descends(n.kind) {
        elided_count_first(n.children, n.children.len())
    } else {
        0nat
    })
}

/// The number of elision sites in the first `k` of `ns`.
pub open spec fn elided_count_first(ns: Seq<NodeView>, k: nat) -> nat
    decreases ns, 0nat, k,
{
    if k == 0 || k > ns.len() {
        0
    } else {
        elided_count_first(ns, (k - 1) as nat) + elided_count(ns[k - 1])
    }
}

/// The named lifetimes in `n`, in the order in which they are written.
pub open spec fn explicit_names(n: NodeView) -> Seq<Seq<char>>
    decreases n, 1nat, 0nat,
{
    (match explicit_site(n.kind) {
        Some(l) => seq![l],
        None => Seq::empty(),
    }) + (if descends(n.kind) {
        explicit_names_first(n.children, n.children.len())
    } else {
        Seq::empty()
    })
}

/// The named lifetimes in the first `k` of `ns`.
pub open spec fn explicit_names_first(ns: Seq<NodeView>, k: nat) -> Seq<Seq<char>>
    decreases ns, 0nat, k,
{
    if k == 0 || k > ns.len() {
        Seq::empty()
    } else {
        explicit_names_first(ns, (k - 1) as nat) + explicit_names(ns[k - 1])
    }
}

/// What is written at a node once its missing lifetime, if any, is named
/// `life_name(next)`.
pub open spec fn named_kind(kind: NodeKindView, next: nat) -> NodeKindView {
    if elision_site(kind) {
        match kind {
            NodeKindView::Reference { lifetime, mutable } => NodeKindView::Reference {
                lifetime: Some(life_name(next)),
                mutable,
            },
            NodeKindView::Lifetime { ident, argument } => NodeKindView::Lifetime {
                ident: life_name(next),
                argument,
            },
            _ => kind,
        }
    } else {
        kind
    }
}

/// `n` with each of its elision sites named, in the order in which they are
/// written, starting with `life_name(next)`.
pub open spec fn named(n: NodeView, next: nat) -> NodeView
    decreases n,
{
    NodeView {
        kind: named_kind(n.kind, next),
        children: if descends(n.kind) {
            Seq::new(
                n.children.len(),
                |i: int|
                    if 0 <= i < n.children.len() {
                        named(
                            n.children[i],
                            next + (if elision_site(n.kind) {
                                1nat
                            } else {
                                0nat
                            }) + elided_count_first(n.children, i as nat),
                        )
                    } else {
                        arbitrary()
                    },
            )
        } else {
            n.children
        },
    }
}

/// Gives a name to every elided lifetime that it is shown, and records the
/// named ones.
#[derive(Debug, PartialEq, Eq)]
pub struct CollectLifetimes {
    /// The names given so far, in the order in which they were given.
    pub elided: Vec<String>,
    /// The named lifetimes met so far, in the order in which they were met.
    pub explicit: Vec<String>,
}

impl CollectLifetimes {
    /// A collector that has seen nothing yet.
    pub fn new() -> (r: CollectLifetimes)
        ensures
            r.elided.deep_view() == Seq::<Seq<char>>::empty(),
            r.explicit.deep_view() == Seq::<Seq<char>>::empty(),
    {
        let r = CollectLifetimes { elided: Vec::new(), explicit: Vec::new() };
        assert(r.elided.deep_view() =~= Seq::<Seq<char>>::empty());
        assert(r.explicit.deep_view() =~= Seq::<Seq<char>>::empty());
        r
    }

    /// The state after `count` more names were given and `more` was recorded.
    pub open spec fn advanced(
        &self,
        before: &CollectLifetimes,
        count: nat,
        more: Seq<Seq<char>>,
    ) -> bool {
        &&& self.elided.deep_view() == before.elided.deep_view() + fresh_names(
            before.elided.len() as nat,
            count,
        )
        &&& self.explicit.deep_view() == before.explicit.deep_view() + more
    }

    fn next_lifetime(&mut self) -> (r: String)
        ensures
            r@ == life_name(old(self).elided.len() as nat),
            final(self).advanced(old(self), 1, Seq::empty()),
    {
        let name = numbered("life", self.elided.len());
        self.elided.push(name.clone());
        proof {
            assert(self.elided.deep_view() =~= old(self).elided.deep_view() + fresh_names(
                old(self).elided.len() as nat,
                1,
            ));
            assert(self.explicit.deep_view() =~= old(self).explicit.deep_view() + Seq::empty());
        }
        name
    }

    fn visit_lifetime(&mut self, lifetime: &mut String)
        ensures
            old(lifetime)@ == "_"@ ==> final(lifetime)@ == life_name(old(self).elided.len() as nat)
                && final(self).advanced(old(self), 1, Seq::empty()),
            old(lifetime)@ != "_"@ ==> final(lifetime)@ == old(lifetime)@ && final(self).advanced(
                old(self),
                0,
                seq![old(lifetime)@],
            ),
    {
        if is_text(lifetime, "_") {
            *lifetime = self.next_lifetime();
        } else {
            self.explicit.push(lifetime.clone());
            proof {
                assert(self.elided.deep_view() =~= old(self).elided.deep_view() + fresh_names(
                    old(self).elided.len() as nat,
                    0,
                ));
                assert(self.explicit.deep_view() =~= old(self).explicit.deep_view()
                    + seq![old(lifetime)@]);
            }
        }
    }

    fn visit_opt_lifetime(&mut self, lifetime: &mut Option<String>)
        ensures
            reference_elided(old(lifetime).deep_view()) ==> final(lifetime).deep_view() == Some(
                life_name(old(self).elided.len() as nat),
            ) && final(self).advanced(old(self), 1, Seq::empty()),
            !reference_elided(old(lifetime).deep_view()) ==> final(lifetime).deep_view() == old(
                lifetime,
            ).deep_view() && final(self).advanced(old(self), 0, seq![old(lifetime).unwrap()@]),
    {
        match lifetime {
            None => {
                *lifetime = Some(self.next_lifetime());
            },
            Some(lifetime) => {
                self.visit_lifetime(lifetime);
            },
        }
    }
}

/// Names given one after the other add up.
pub proof fn lemma_advanced_twice(
    first: &CollectLifetimes,
    second: &CollectLifetimes,
    third: &CollectLifetimes,
    a: nat,
    b: nat,
    x: Seq<Seq<char>>,
    y: Seq<Seq<char>>,
)
    requires
        second.advanced(first, a, x),
        third.advanced(second, b, y),
    ensures
        third.advanced(first, a + b, x + y),
{
    let start = first.elided.len() as nat;
    assert(second.elided.deep_view().len() == start + a);
    assert(second.elided.len() == start + a);
    assert(third.elided.deep_view() =~= first.elided.deep_view() + fresh_names(start, a + b));
    assert(third.explicit.deep_view() =~= first.explicit.deep_view() + (x + y));
}

impl CollectLifetimes {
    /// Walks through `node` and names every elided lifetime in it.
    pub fn visit_node(&mut self, node: &mut Node)
        ensures
            final(node)@ == named(old(node)@, old(self).elided.len() as nat),
            final(self).advanced(
                old(self),
                elided_count(old(node)@),
                explicit_names(old(node)@),
            ),
        decreases *old(node),
    {
        let ghost start = self.elided.len() as nat;
        let ghost before = old(node)@;
        proof {
            lemma_node_view(*old(node));
        }
        match &mut node.kind {
            NodeKind::Reference { lifetime, .. } => {
                self.visit_opt_lifetime(lifetime);
            },
            NodeKind::Lifetime { ident, argument } => {
                if *argument {
                    self.visit_lifetime(ident);
                } else {
                    proof {
                        lemma_advanced_empty(self);
                    }
                }
            },
            NodeKind::Item { .. } => {
                proof {
                    lemma_advanced_empty(self);
                    lemma_node_view(*node);
                    assert(self.explicit.deep_view() =~= old(self).explicit.deep_view()
                        + explicit_names(before));
                }
                return ;
            },
            _ => {
                proof {
                    lemma_advanced_empty(self);
                }
            },
        }
        let ghost own: nat = if elision_site(before.kind) {
            1
        } else {
            0
        };
        let ghost own_names: Seq<Seq<char>> = match explicit_site(before.kind) {
            Some(l) => seq![l],
            None => Seq::empty(),
        };
        assert(node.kind@ == named_kind(before.kind, start));
        assert(self.advanced(old(self), own, own_names));
        let ghost kind = node.kind;
        let ghost orig = node.children;
        let ghost ov = before.children;
        assert(ov == orig.deep_view());
        proof {
            assert(self.explicit.deep_view() =~= old(self).explicit.deep_view() + (own_names
                + explicit_names_first(ov, 0)));
        }
        let mut i: usize = 0;
        while i < node.children.len()
            invariant
                i <= node.children.len(),
                node.children.len() == orig.len(),
                node.kind == kind,
                ov == orig.deep_view(),
                self.advanced(
                    old(self),
                    own + elided_count_first(ov, i as nat),
                    own_names + explicit_names_first(ov, i as nat),
                ),
                start == old(self).elided.len(),
                forall|j: int|
                    0 <= j < i ==> #[trigger] node.children.deep_view()[j] == named(
                        ov[j],
                        start + own + elided_count_first(ov, j as nat),
                    ),
                forall|j: int| i <= j < node.children.len() ==> #[trigger] node.children@[j] == orig@[j],
                decreases_to!(*old(node) => orig),
            decreases node.children.len() - i,
        {
            let ghost mid = *self;
            let ghost children_before = node.children;
            self.visit_node(&mut node.children[i]);
            proof {
                lemma_advanced_twice(
                    old(self),
                    &mid,
                    self,
                    own + elided_count_first(ov, i as nat),
                    elided_count(ov[i as int]),
                    own_names + explicit_names_first(ov, i as nat),
                    explicit_names(ov[i as int]),
                );
                assert(own_names + explicit_names_first(ov, i as nat) + explicit_names(
                    ov[i as int],
                ) =~= own_names + explicit_names_first(ov, i as nat + 1));
                assert forall|j: int| 0 <= j < i implies #[trigger] node.children.deep_view()[j]
                    == named(ov[j], start + own + elided_count_first(ov, j as nat)) by {
                    assert(node.children@[j] == children_before@[j]);
                    assert(node.children.deep_view()[j] == children_before.deep_view()[j]);
                }
                assert(mid.elided.len() == start + own + elided_count_first(ov, i as nat));
            }
            i += 1;
        }
        proof {
            lemma_node_view(*node);
            assert(node.children.deep_view() =~= named(before, start).children);
        }
    }

    /// Names the elided lifetime of a borrowed receiver, or walks through the
    /// type that is written for the receiver.
    pub fn visit_receiver(&mut self, arg: &mut Receiver)
        ensures
            final(arg)@ == named_receiver(old(arg)@, old(self).elided.len() as nat),
            final(self).advanced(
                old(self),
                receiver_elided_count(old(arg)@),
                receiver_explicit_names(old(arg)@),
            ),
    {
        match &mut arg.reference {
            Some(lifetime) => {
                self.visit_opt_lifetime(lifetime);
            },
            None => {
                match &mut arg.ty {
                    Some(ty) => {
                        self.visit_node(ty);
                    },
                    None => {
                        proof {
                            lemma_advanced_empty(self);
                        }
                    },
                }
            },
        }
    }
}

/// Nothing given and nothing recorded leaves the state as it is.
pub proof fn lemma_advanced_empty(state: &CollectLifetimes)
    ensures
        state.advanced(state, 0, Seq::empty()),
{
    assert(state.elided.deep_view() =~= state.elided.deep_view() + fresh_names(
        state.elided.len() as nat,
        0,
    ));
    assert(state.explicit.deep_view() =~= state.explicit.deep_view() + Seq::empty());
}

/// Whether the lifetime after the `&` of a borrowed receiver is missing.
pub open spec fn reference_elided(lifetime: Option<Seq<char>>) -> bool {
    lifetime is None || lifetime == Some("_"@)
}

/// The number of elision sites in a receiver.
pub open spec fn receiver_elided_count(r: ReceiverView) -> nat {
    match r.reference {
        Some(lifetime) => if reference_elided(lifetime) {
            1
        } else {
            0
        },
        None => match r.ty {
            Some(ty) => elided_count(ty),
            None => 0,
        },
    }
}

/// The named lifetimes in a receiver.
pub open spec fn receiver_explicit_names(r: ReceiverView) -> Seq<Seq<char>> {
    match r.reference {
        Some(lifetime) => if reference_elided(lifetime) {
            Seq::empty()
        } else {
            seq![lifetime.unwrap()]
        },
        None => match r.ty {
            Some(ty) => explicit_names(ty),
            None => Seq::empty(),
        },
    }
}

/// A receiver with each of its elision sites named, starting with
/// `life_name(next)`.
pub open spec fn named_receiver(r: ReceiverView, next: nat) -> ReceiverView {
    match r.reference {
        Some(lifetime) => ReceiverView {
            reference: Some(
                if reference_elided(lifetime) {
                    Some(life_name(next))
                } else {
                    lifetime
                },
            ),
            mutable: r.mutable,
            ty: r.ty,
        },
        None => ReceiverView {
            reference: None,
            mutable: r.mutable,
            ty: match r.ty {
                Some(ty) => Some(named(ty, next)),
                None => None,
            },
        },
    }
}

/// Whether the task lifetime is already written somewhere in the signature
/// or in the body, outside nested items.
pub fn has_async_lifetime(sig: &Signature, block: &Block) -> (r: bool)
    ensures
        r == (signature_found(QueryView::TaskLifetime, sig@) || block_found(
            QueryView::TaskLifetime,
            block@,
        )),
{
    search_signature(sig, &Query::TaskLifetime) || search_block(block, &Query::TaskLifetime)
}

/// The lifetime `name`, written as a bound.
pub open spec fn lifetime_bound(name: Seq<char>) -> NodeView {
    NodeView {
        kind: NodeKindView::Lifetime { ident: name, argument: false },
        children: Seq::empty(),
    }
}

/// `n` in parentheses.
pub open spec fn parenthesized(n: NodeView) -> NodeView {
    NodeView { kind: NodeKindView::Shape(Shape::Paren), children: seq![n] }
}

/// `n` with the lifetime `name` as the first bound of every `impl Trait` in
/// it. An `impl Trait` directly behind a reference is put in parentheses, so
/// that the added bound belongs to it and not to the reference.
pub open spec fn with_impl_trait_bound(name: Seq<char>, n: NodeView) -> NodeView
    decreases n,
{
    let below = Seq::new(
        n.children.len(),
        |i: int|
            if 0 <= i < n.children.len() {
                with_impl_trait_bound(name, n.children[i])
            } else {
                arbitrary()
            },
    );
    match n.kind {
        NodeKindView::ImplTrait => NodeView {
            kind: n.kind,
            children: seq![lifetime_bound(name)] + below,
        },
        NodeKindView::Reference { .. } => NodeView {
            kind: n.kind,
            children: Seq::new(
                below.len(),
                |i: int|
                    if below[i].kind is ImplTrait {
                        parenthesized(below[i])
                    } else {
                        below[i]
                    },
            ),
        },
        _ => NodeView { kind: n.kind, children: below },
    }
}

/// Adds a lifetime to the bounds of every `impl Trait` of a type, so that a
/// value of that type may be captured by the produced computation.
#[derive(Debug, PartialEq, Eq)]
pub struct AddLifetimeToImplTrait<'a>(pub &'a str);

impl AddLifetimeToImplTrait<'_> {
    fn parenthesize_impl_trait(children: &mut Vec<Node>, i: usize)
        requires
            i < old(children).len(),
        ensures
            final(children).len() == old(children).len(),
            forall|j: int|
                0 <= j < old(children).len() && j != i ==> #[trigger] final(children)@[j] == old(
                    children,
                )@[j],
            old(children)@[i as int].kind is ImplTrait ==> final(children)@[i as int]@
                == parenthesized(old(children)@[i as int]@),
            !(old(children)@[i as int].kind is ImplTrait) ==> final(children)@[i as int] == old(
                children,
            )@[i as int],
    {
        let is_impl_trait = match &children[i].kind {
            NodeKind::ImplTrait => true,
            _ => false,
        };
        if is_impl_trait {
            let elem = children.remove(i);
            let mut inner: Vec<Node> = Vec::new();
            inner.push(elem);
            let paren = Node { kind: NodeKind::Shape(Shape::Paren), children: inner };
            proof {
                lemma_node_view(paren);
                assert(paren.children.deep_view() =~= seq![elem@]);
            }
            children.insert(i, paren);
        }
    }

    /// Walks through a type and adds the lifetime to every `impl Trait`.
    pub fn visit_node_mut(&self, node: &mut Node)
        ensures
            final(node)@ == with_impl_trait_bound(self.0@, old(node)@),
        decreases *old(node),
    {
        let ghost before = old(node)@;
        proof {
            lemma_node_view(*old(node));
        }
        let ghost kind = node.kind;
        let ghost orig = node.children;
        let ghost ov = before.children;
        let mut i: usize = 0;
        while i < node.children.len()
            invariant
                i <= node.children.len(),
                node.children.len() == orig.len(),
                node.kind == kind,
                ov == orig.deep_view(),
                forall|j: int|
                    0 <= j < i ==> #[trigger] node.children.deep_view()[j]
                        == with_impl_trait_bound(self.0@, ov[j]),
                forall|j: int| i <= j < node.children.len() ==> #[trigger] node.children@[j] == orig@[j],
                decreases_to!(*old(node) => orig),
            decreases node.children.len() - i,
        {
            let ghost children_before = node.children;
            self.visit_node_mut(&mut node.children[i]);
            proof {
                assert forall|j: int| 0 <= j < i implies #[trigger] node.children.deep_view()[j]
                    == with_impl_trait_bound(self.0@, ov[j]) by {
                    assert(node.children@[j] == children_before@[j]);
                    assert(node.children.deep_view()[j] == children_before.deep_view()[j]);
                }
            }
            i += 1;
        }
        let ghost below = node.children.deep_view();
        assert(below =~= Seq::new(
            ov.len(),
            |i: int|
                if 0 <= i < ov.len() {
                    with_impl_trait_bound(self.0@, ov[i])
                } else {
                    arbitrary()
                },
        ));
        match &node.kind {
            NodeKind::ImplTrait => {
                let bound = Node::leaf(
                    NodeKind::Lifetime { ident: String::from_str(self.0), argument: false },
                );
                let ghost children_before = node.children;
                node.children.insert(0, bound);
                proof {
                    lemma_node_view(*node);
                    assert(bound@ == lifetime_bound(self.0@));
                    assert(node.children.deep_view()[0] == bound@);
                    assert forall|j: int| 0 <= j < below.len() implies #[trigger] node.children.deep_view()[j + 1]
                        == below[j] by {
                        assert(node.children@[j + 1] == children_before@[j]);
                        assert(children_before.deep_view()[j] == below[j]);
                    }
                    assert(node.children.deep_view() =~= seq![lifetime_bound(self.0@)] + below);
                    assert(node.children.deep_view() =~= with_impl_trait_bound(
                        self.0@,
                        before,
                    ).children);
                }
            },
            NodeKind::Reference { .. } => {
                let mut k: usize = 0;
                while k < node.children.len()
                    invariant
                        k <= node.children.len(),
                        node.children.len() == below.len(),
                        node.kind == kind,
                        forall|j: int|
                            0 <= j < k ==> #[trigger] node.children.deep_view()[j] == (if below[j].kind is ImplTrait {
                                parenthesized(below[j])
                            } else {
                                below[j]
                            }),
                        forall|j: int|
                            k <= j < node.children.len() ==> #[trigger] node.children.deep_view()[j]
                                == below[j],
                    decreases node.children.len() - k,
                {
                    let ghost children_before = node.children;
                    assert(children_before.deep_view()[k as int] == below[k as int]);
                    proof {
                        lemma_node_view(children_before@[k as int]);
                    }
                    Self::parenthesize_impl_trait(&mut node.children, k);
                    proof {
                        assert forall|j: int| 0 <= j < node.children.len() && j != k implies #[trigger] node.children.deep_view()[j]
                            == children_before.deep_view()[j] by {
                            assert(node.children@[j] == children_before@[j]);
                        }
                    }
                    k += 1;
                }
                proof {
                    lemma_node_view(*node);
                    assert(node.children.deep_view() =~= with_impl_trait_bound(
                        self.0@,
                        before,
                    ).children);
                }
            },
            _ => {
                proof {
                    lemma_node_view(*node);
                    assert(node.children.deep_view() =~= with_impl_trait_bound(
                        self.0@,
                        before,
                    ).children);
                }
            },
        }
    }
}

/// Invented names with different numbers differ.
pub proof fn lemma_life_names_differ(i: nat, j: nat)
    requires
        i != j,
    ensures
        life_name(i) != life_name(j),
{
    if life_name(i) == life_name(j) {
        let prefix = "life"@;
        assert(decimal(i) =~= life_name(i).skip(prefix.len() as int));
        assert(decimal(j) =~= life_name(j).skip(prefix.len() as int));
        lemma_decimal_injective(i, j);
    }
}

/// An invented name is never the anonymous lifetime.
pub proof fn lemma_life_name_is_named(i: nat)
    ensures
        life_name(i) != "_"@,
{
    reveal_strlit("life");
    reveal_strlit("_");
    assert(life_name(i)[0] == 'l');
    assert("_"@[0] == '_');
}

/// Where none of the nodes holds an elision site, none of their prefixes
/// does.
pub proof fn lemma_no_elision_in_any(ns: Seq<NodeView>, k: nat)
    requires
        forall|i: int| 0 <= i < ns.len() ==> elided_count(#[trigger] ns[i]) == 0,
    ensures
        elided_count_first(ns, k) == 0,
    decreases k,
{
    if k > 0 && k <= ns.len() {
        lemma_no_elision_in_any(ns, (k - 1) as nat);
    }
}

/// Once the elided lifetimes of a node are named, no elision site is left in
/// it.
pub proof fn lemma_named_leaves_no_elision(n: NodeView, next: nat)
    ensures
        elided_count(named(n, next)) == 0,
    decreases n,
{
    lemma_life_name_is_named(next);
    let m = named(n, next);
    assert(!elision_site(m.kind));
    if descends(n.kind) {
        assert forall|i: int| 0 <= i < m.children.len() implies elided_count(
            #[trigger] m.children[i],
        ) == 0 by {
            lemma_named_leaves_no_elision(
                n.children[i],
                next + (if elision_site(n.kind) {
                    1nat
                } else {
                    0nat
                }) + elided_count_first(n.children, i as nat),
            );
        }
        lemma_no_elision_in_any(m.children, m.children.len());
    }
}

/// Once the elided lifetime of a receiver is named, no elision site is left
/// in it.
pub proof fn lemma_named_receiver_leaves_no_elision(r: ReceiverView, next: nat)
    ensures
        receiver_elided_count(named_receiver(r, next)) == 0,
{
    lemma_life_name_is_named(next);
    match r.reference {
        Some(_) => {},
        None => {
            match r.ty {
                Some(ty) => {
                    lemma_named_leaves_no_elision(ty, next);
                },
                None => {},
            }
        },
    }
}

/// A bound on every `impl Trait` of a type adds no elision site and takes
/// none away.
pub proof fn lemma_bound_keeps_elisions(name: Seq<char>, n: NodeView)
    ensures
        elided_count(with_impl_trait_bound(name, n)) == elided_count(n),
    decreases n,
{
    let m = with_impl_trait_bound(name, n);
    let below = Seq::new(
        n.children.len(),
        |i: int|
            if 0 <= i < n.children.len() {
                with_impl_trait_bound(name, n.children[i])
            } else {
                arbitrary()
            },
    );
    assert forall|i: int| 0 <= i < n.children.len() implies elided_count(#[trigger] below[i])
        == elided_count(n.children[i]) by {
        lemma_bound_keeps_elisions(name, n.children[i]);
    }
    assert(m.kind == n.kind);
    if descends(n.kind) {
        match n.kind {
            NodeKindView::ImplTrait => {
                assert(m.children =~= seq![lifetime_bound(name)] + below);
                lemma_same_count_shifted(n.children, below, name, n.children.len());
            },
            NodeKindView::Reference { .. } => {
                let wrapped = Seq::new(
                    below.len(),
                    |i: int|
                        if below[i].kind is ImplTrait {
                            parenthesized(below[i])
                        } else {
                            below[i]
                        },
                );
                assert(m.children =~= wrapped);
                assert forall|i: int| 0 <= i < wrapped.len() implies elided_count(
                    #[trigger] wrapped[i],
                ) == elided_count(n.children[i]) by {
                    if below[i].kind is ImplTrait {
                        let inner = parenthesized(below[i]);
                        assert(inner.children.len() == 1);
                        assert(elided_count_first(inner.children, 0) == 0);
                        assert(elided_count_first(inner.children, 1) == elided_count(below[i]));
                    }
                }
                lemma_same_count(n.children, wrapped, n.children.len());
            },
            _ => {
                assert(m.children =~= below);
                lemma_same_count(n.children, below, n.children.len());
            },
        }
    }
}

/// Lists whose nodes hold the same number of elision sites, place by place,
/// hold the same number in every prefix.
pub proof fn lemma_same_count(a: Seq<NodeView>, b: Seq<NodeView>, k: nat)
    requires
        a.len() == b.len(),
        forall|i: int| 0 <= i < a.len() ==> elided_count(#[trigger] b[i]) == elided_count(a[i]),
    ensures
        elided_count_first(b, k) == elided_count_first(a, k),
    decreases k,
{
    if k > 0 && k <= a.len() {
        lemma_same_count(a, b, (k - 1) as nat);
    }
}

/// A lifetime bound in front of a list adds no elision site.
proof fn lemma_same_count_shifted(a: Seq<NodeView>, b: Seq<NodeView>, name: Seq<char>, k: nat)
    requires
        a.len() == b.len(),
        k <= a.len(),
        forall|i: int| 0 <= i < a.len() ==> elided_count(#[trigger] b[i]) == elided_count(a[i]),
    ensures
        elided_count_first(seq![lifetime_bound(name)] + b, k + 1) == elided_count_first(a, k),
    decreases k,
{
    let c = seq![lifetime_bound(name)] + b;
    if k == 0 {
        assert(elided_count_first(c, 0) == 0);
        assert(c[0] == lifetime_bound(name));
        assert(elided_count_first(lifetime_bound(name).children, 0) == 0);
        assert(elided_count(c[0]) == 0);
    } else {
        lemma_same_count_shifted(a, b, name, (k - 1) as nat);
        assert(c[k as int] == b[k - 1]);
    }
}

/// Two walks through the same syntax that start from the same state give
/// the same names in the same order, record the same lifetimes, and leave the
/// same syntax behind.
pub proof fn lemma_same_walk_same_names(
    n: NodeView,
    start_one: &CollectLifetimes,
    end_one: &CollectLifetimes,
    start_two: &CollectLifetimes,
    end_two: &CollectLifetimes,
)
    requires
        start_one.elided.deep_view() == start_two.elided.deep_view(),
        start_one.explicit.deep_view() == start_two.explicit.deep_view(),
        end_one.advanced(start_one, elided_count(n), explicit_names(n)),
        end_two.advanced(start_two, elided_count(n), explicit_names(n)),
    ensures
        end_one.elided.deep_view() == end_two.elided.deep_view(),
        end_one.explicit.deep_view() == end_two.explicit.deep_view(),
        named(n, start_one.elided.len() as nat) == named(n, start_two.elided.len() as nat),
{
    assert(start_one.elided.deep_view().len() == start_one.elided.len());
    assert(start_two.elided.deep_view().len() == start_two.elided.len());
}

} // verus!
