//! The opaque associated type that stands for the computation of one method.

use crate::decl::{
    clone_opt_node, FnArg, FnArgView, FutureBounds, GenericsView, ImplicitType, ImplicitTypeView,
    ReturnType, ReturnTypeView, Side, Signature, SignatureView, WherePredicate, WherePredicateView,
};
use crate::lifetime::lifetime_bound;
use crate::signature::type_path;
use crate::syntax::{lemma_node_view, Arguments, Node, NodeKind, NodeView, Position};
use vstd::prelude::*;

verus! {

/// The first character of the uppercase form of `c`, as the standard library
/// maps it.
pub uninterp spec fn uppercase_first(c: char) -> Option<char>;

/// The uppercase form of each character of a name.
pub open spec fn uppercase_all(name: Seq<char>) -> Seq<Option<char>> {
    Seq::new(name.len(), |i: int| uppercase_first(name[i]))
}

/// What one character of a method name contributes to the type name: an
/// underscore nothing, a character at the start of a word its uppercase form
/// as `upper` gives it, any other character itself.
pub open spec fn camel_piece(name: Seq<char>, upper: Seq<Option<char>>, i: int) -> Seq<char> {
    if name[i] == '_' {
        Seq::empty()
    } else if i == 0 || name[i - 1] == '_' {
        if i < upper.len() && upper[i] is Some {
            seq![upper[i]->0]
        } else {
            Seq::empty()
        }
    } else {
        seq![name[i]]
    }
}

/// The first `k` characters of a method name in upper camel case.
pub open spec fn camel(name: Seq<char>, upper: Seq<Option<char>>, k: nat) -> Seq<char>
    decreases k,
{
    if k == 0 || k > name.len() {
        Seq::empty()
    } else {
        camel(name, upper, (k - 1) as nat) + camel_piece(name, upper, k - 1)
    }
}

/// The name of the associated type of the method `name`.
pub open spec fn implicit_type_name(name: Seq<char>) -> Seq<char> {
    "RetTypeOf"@ + camel(name, uppercase_all(name), name.len())
}

/// `char::to_uppercase`, of which the first character is taken. The standard
/// library documents the result as the uppercase mapping of the character
/// under the Unicode character database; it depends on the character alone.
#[verifier::external_body]
fn first_uppercase(c: char) -> (r: Option<char>)
    ensures
        r == uppercase_first(c),
{
    c.to_uppercase().next()
}

/// `String::push`: appends one character to the end of the string.
#[verifier::external_body]
fn push_char(s: &mut String, c: char)
    ensures
        final(s)@ == old(s)@.push(c),
{
    s.push(c)
}

/// The uppercase form of each character of `name`.
pub fn uppercased(name: &str) -> (r: Vec<Option<char>>)
    ensures
        r@ == uppercase_all(name@),
{
    let mut out: Vec<Option<char>> = Vec::new();
    let n = name.unicode_len();
    let mut i: usize = 0;
    while i < n
        invariant
            i <= n,
            n == name@.len(),
            out.len() == i,
            forall|j: int| 0 <= j < i ==> #[trigger] out@[j] == uppercase_first(name@[j]),
        decreases n - i,
    {
        out.push(first_uppercase(name.get_char(i)));
        i += 1;
    }
    assert(out@ =~= uppercase_all(name@));
    out
}

/// A method name in upper camel case: underscores are dropped, and each
/// character at the start of the name or behind an underscore is replaced by
/// its uppercase form, taken from `upper` at the same place. A character for
/// which `upper` holds nothing is dropped.
pub fn upper_camel_case(name: &str, upper: &Vec<Option<char>>) -> (r: String)
    ensures
        r@ == camel(name@, upper@, name@.len()),
{
    let mut out = String::new();
    let n = name.unicode_len();
    let mut to_upper = true;
    let mut i: usize = 0;
    while i < n
        invariant
            i <= n,
            n == name@.len(),
            out@ == camel(name@, upper@, i as nat),
            to_upper == (i == 0 || name@[i - 1] == '_'),
        decreases n - i,
    {
        let c = name.get_char(i);
        let ghost before = out@;
        if c == '_' {
            to_upper = true;
        } else if to_upper {
            to_upper = false;
            if i < upper.len() {
                match upper[i] {
                    Some(u) => {
                        push_char(&mut out, u);
                    },
                    None => {},
                }
            }
        } else {
            push_char(&mut out, c);
        }
        assert(out@ =~= before + camel_piece(name@, upper@, i as int));
        i += 1;
    }
    out
}

/// Derives the name of the associated type from the name of the method:
/// `RetTypeOf` followed by the method name in upper camel case.
pub fn derive_implicit_type_name(id: &String) -> (r: String)
    ensures
        r@ == implicit_type_name(id@),
{
    let upper = uppercased(id.as_str());
    let camel = upper_camel_case(id.as_str(), &upper);
    let mut out = String::from_str("RetTypeOf");
    out.append(camel.as_str());
    out
}

/// The lifetime of the first borrowed receiver among the parameters from
/// place `from` on, where one is written.
pub open spec fn receiver_lifetime_from(inputs: Seq<FnArgView>, from: int) -> Option<Seq<char>>
    decreases inputs.len() - from,
{
    if from < 0 || from >= inputs.len() {
        None
    } else {
        match inputs[from] {
            FnArgView::Receiver(r) => match r.reference {
                Some(lifetime) => lifetime,
                None => receiver_lifetime_from(inputs, from + 1),
            },
            _ => receiver_lifetime_from(inputs, from + 1),
        }
    }
}

/// The lifetime of the borrowed receiver of a method, where one is written.
pub fn receiver_lifetime(sig: &Signature) -> (r: Option<String>)
    ensures
        r.deep_view() == receiver_lifetime_from(sig@.inputs, 0),
{
    let mut i: usize = 0;
    while i < sig.inputs.len()
        invariant
            i <= sig.inputs.len(),
            receiver_lifetime_from(sig@.inputs, 0) == receiver_lifetime_from(
                sig@.inputs,
                i as int,
            ),
        decreases sig.inputs.len() - i,
    {
        assert(sig@.inputs[i as int] == sig.inputs[i as int]@);
        match &sig.inputs[i] {
            FnArg::Receiver(arg) => {
                match &arg.reference {
                    Some(lifetime) => {
                        return match lifetime {
                            Some(l) => Some(l.clone()),
                            None => None,
                        };
                    },
                    None => {},
                }
            },
            _ => {},
        }
        i += 1;
    }
    None
}

/// What a method yields, as its author wrote it: `None` where no type is
/// written.
pub fn ret_token_stream(ret_type: &ReturnType) -> (r: Option<Node>)
    ensures
        r.deep_view() == (match ret_type@ {
            ReturnTypeView::Type(t) => Some(t),
            _ => None,
        }),
{
    match ret_type {
        ReturnType::Type(ret) => Some(ret.clone()),
        _ => None,
    }
}

/// The generic parameters and constraints of the associated type: those of
/// the rewritten method, and for a borrowed receiver with a written lifetime
/// the constraint that the owning type outlives that lifetime.
pub open spec fn implicit_generics(sig: SignatureView) -> GenericsView {
    GenericsView {
        params: sig.generics.params,
        predicates: match receiver_lifetime_from(sig.inputs, 0) {
            Some(l) => sig.generics.predicates.push(
                WherePredicateView::Type {
                    lifetimes: Seq::empty(),
                    bounded: type_path("Self"@),
                    bounds: seq![lifetime_bound(l)],
                },
            ),
            None => sig.generics.predicates,
        },
    }
}

/// The associated type of the rewritten method `sig`, whose computation
/// yields `ret` under `bounds`.
pub open spec fn implicit_type(
    side: Side,
    sig: SignatureView,
    ret: Option<NodeView>,
    bounds: FutureBounds,
) -> ImplicitTypeView {
    ImplicitTypeView {
        side,
        ident: implicit_type_name(sig.ident),
        generics: implicit_generics(sig),
        output: ret,
        bounds,
        method: sig.ident,
    }
}

fn implicit_type_of(side: Side, sig: &Signature, ret: &Option<Node>, bounds: FutureBounds) -> (r:
    ImplicitType)
    ensures
        r@ == implicit_type(side, sig@, ret.deep_view(), bounds),
{
    let mut generics = sig.generics.clone();
    match receiver_lifetime(sig) {
        Some(l) => {
            let mut segments: Vec<Node> = Vec::new();
            segments.push(
                Node::leaf(
                    NodeKind::Segment {
                        ident: String::from_str("Self"),
                        arguments: Arguments::Absent,
                    },
                ),
            );
            let bounded = Node {
                kind: NodeKind::Path {
                    position: Position::Type,
                    leading_colon: false,
                    qself: None,
                },
                children: segments,
            };
            proof {
                lemma_node_view(bounded);
                assert(bounded.children.deep_view() =~= type_path("Self"@).children);
            }
            let mut bounds: Vec<Node> = Vec::new();
            bounds.push(Node::leaf(NodeKind::Lifetime { ident: l, argument: false }));
            assert(bounds.deep_view() =~= seq![lifetime_bound(l@)]);
            let predicate = WherePredicate::Type { lifetimes: Vec::new(), bounded, bounds };
            assert(predicate@->lifetimes =~= Seq::<Seq<char>>::empty());
            let ghost before = generics.predicates.deep_view();
            generics.predicates.push(predicate);
            assert(generics.predicates.deep_view() =~= before.push(predicate@));
        },
        None => {},
    }
    ImplicitType {
        side,
        ident: derive_implicit_type_name(&sig.ident),
        generics,
        output: clone_opt_node(ret),
        bounds,
        method: sig.ident.clone(),
    }
}

/// The declaration of the associated type in the interface: a type that is
/// bounded by "a computation that yields `ret`" and by `bounds`.
pub fn define_implicit_associated_type(
    sig: &Signature,
    ret: &Option<Node>,
    bounds: FutureBounds,
) -> (r: ImplicitType)
    ensures
        r@ == implicit_type(Side::Declared, sig@, ret.deep_view(), bounds),
{
    implicit_type_of(Side::Declared, sig, ret, bounds)
}

/// The assignment of the associated type in the implementation: an opaque
/// computation that yields `ret`, under `bounds`.
pub fn assign_implicit_associated_type(
    sig: &Signature,
    ret: &Option<Node>,
    bounds: FutureBounds,
) -> (r: ImplicitType)
    ensures
        r@ == implicit_type(Side::Assigned, sig@, ret.deep_view(), bounds),
{
    implicit_type_of(Side::Assigned, sig, ret, bounds)
}

} // verus!
