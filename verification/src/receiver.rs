//! The receiver of a method: whether a method refers to it, and renaming it
//! inside a body.

use crate::decl::{Block, BlockView, Signature};
use crate::search::{
    block_found, found, search, search_block, search_signature, signature_found, Query, QueryView,
};
use crate::syntax::{lemma_node_view, Node, NodeKind, NodeKindView, NodeView};
use crate::text::is_text;
use crate::token::{
    contains_ident, lemma_group_view, mentions, token_view, TokenTree, TokenTreeView,
};
use vstd::prelude::*;

verus! {

/// Whether the signature refers to the receiver or to the owning type: it
/// has a receiver, or `Self` heads a path in it or occurs in the input of a
/// macro-like construct of it.
pub fn has_self_in_sig(sig: &Signature) -> (r: bool)
    ensures
        r == signature_found(QueryView::OwningType, sig@),
{
    search_signature(sig, &Query::OwningType)
}

/// Whether the body refers to the owning type. Nested items are not looked
/// into. The input of a macro-like construct counts where `Self` occurs in it
/// and `fn` does not: one that defines a function may mean another `Self`.
pub fn has_self_in_block(block: &Block) -> (r: bool)
    ensures
        r == block_found(QueryView::OwningType, block@),
{
    search_block(block, &Query::OwningType)
}

/// Whether the word `Self` occurs among the tokens, at any depth.
pub fn has_self_in_token_stream(tokens: &Vec<TokenTree>) -> (r: bool)
    ensures
        r == mentions(tokens.deep_view(), "Self"@),
{
    contains_ident(tokens, "Self")
}

/// Whether the word `fn` occurs among the tokens, at any depth.
pub fn contains_fn(tokens: &Vec<TokenTree>) -> (r: bool)
    ensures
        r == mentions(tokens.deep_view(), "fn"@),
{
    contains_ident(tokens, "fn")
}

/// Whether the pattern declares a binding as `mut`.
pub fn mut_pat(pat: &Node) -> (r: bool)
    ensures
        r == found(QueryView::MutableBinding, pat@),
{
    search(pat, &Query::MutableBinding)
}

/// A name after the receiver was renamed: `self` gets `prefix` in front, and
/// every other name stays.
pub open spec fn renamed_ident(prefix: Seq<char>, name: Seq<char>) -> Seq<char> {
    if name == "self"@ {
        prefix + name
    } else {
        name
    }
}

/// A token after the receiver was renamed in it.
pub open spec fn renamed_token(prefix: Seq<char>, t: TokenTreeView) -> TokenTreeView
    decreases t,
{
    match t {
        TokenTreeView::Ident(s) => TokenTreeView::Ident(renamed_ident(prefix, s)),
        TokenTreeView::Group(d, inner) => TokenTreeView::Group(
            d,
            Seq::new(
                inner.len(),
                |i: int|
                    if 0 <= i < inner.len() {
                        renamed_token(prefix, inner[i])
                    } else {
                        arbitrary()
                    },
            ),
        ),
        _ => t,
    }
}

/// Tokens after the receiver was renamed in each of them.
pub open spec fn renamed_tokens(prefix: Seq<char>, ts: Seq<TokenTreeView>) -> Seq<TokenTreeView> {
    Seq::new(ts.len(), |i: int| renamed_token(prefix, ts[i]))
}

/// What is written at a node after the receiver was renamed. The input of a
/// macro-like construct is renamed token by token, and so is a nested item
/// that defines a local macro; any other nested item stays as it is.
pub open spec fn renamed_kind(prefix: Seq<char>, kind: NodeKindView) -> NodeKindView {
    match kind {
        NodeKindView::Ident(s) => NodeKindView::Ident(renamed_ident(prefix, s)),
        NodeKindView::Segment { ident, arguments } => NodeKindView::Segment {
            ident: renamed_ident(prefix, ident),
            arguments,
        },
        NodeKindView::PatIdent { by_ref, mutable, ident } => NodeKindView::PatIdent {
            by_ref,
            mutable,
            ident: renamed_ident(prefix, ident),
        },
        NodeKindView::Macro(tokens) => NodeKindView::Macro(renamed_tokens(prefix, tokens)),
        NodeKindView::Item { macro_rules, tokens } => if macro_rules {
            NodeKindView::Item { macro_rules, tokens: renamed_tokens(prefix, tokens) }
        } else {
            kind
        },
        _ => kind,
    }
}

/// A node after the receiver was renamed in it and below it. Nothing below a
/// nested item is touched.
pub open spec fn renamed(prefix: Seq<char>, n: NodeView) -> NodeView
    decreases n,
{
    NodeView {
        kind: renamed_kind(prefix, n.kind),
        children: if n.kind is Item {
            n.children
        } else {
            Seq::new(
                n.children.len(),
                |i: int|
                    if 0 <= i < n.children.len() {
                        renamed(prefix, n.children[i])
                    } else {
                        arbitrary()
                    },
            )
        },
    }
}

/// Nodes after the receiver was renamed in each of them.
pub open spec fn renamed_all(prefix: Seq<char>, ns: Seq<NodeView>) -> Seq<NodeView> {
    Seq::new(ns.len(), |i: int| renamed(prefix, ns[i]))
}

/// A body after the receiver was renamed in its statements.
pub open spec fn renamed_block(prefix: Seq<char>, b: BlockView) -> BlockView {
    match b {
        BlockView::Written(stmts) => BlockView::Written(renamed_all(prefix, stmts)),
        BlockView::Deferred { boxed, captures, result, stmts } => BlockView::Deferred {
            boxed,
            captures,
            result,
            stmts: renamed_all(prefix, stmts),
        },
    }
}

/// Renames the receiver: every `self` becomes the prefix followed by `self`.
#[derive(Debug, PartialEq, Eq)]
pub struct ReplaceSelf<'a>(pub &'a str);

impl ReplaceSelf<'_> {
    /// Renames one identifier.
    pub fn visit_ident_mut(&self, i: &mut String)
        ensures
            final(i)@ == renamed_ident(self.0@, old(i)@),
    {
        if is_text(i, "self") {
            let mut name = String::from_str(self.0);
            name.append(i.as_str());
            *i = name;
        }
    }

    fn rename_tokens(&self, tokens: &mut Vec<TokenTree>)
        ensures
            final(tokens).deep_view() == renamed_tokens(self.0@, old(tokens).deep_view()),
        decreases *old(tokens),
    {
        let ghost orig = *tokens;
        let ghost ov = tokens.deep_view();
        let mut i: usize = 0;
        while i < tokens.len()
            invariant
                i <= tokens.len(),
                tokens.len() == orig.len(),
                orig == *old(tokens),
                ov == orig.deep_view(),
                forall|j: int|
                    0 <= j < i ==> #[trigger] tokens.deep_view()[j] == renamed_token(
                        self.0@,
                        ov[j],
                    ),
                forall|j: int| i <= j < tokens.len() ==> #[trigger] tokens@[j] == orig@[j],
            decreases tokens.len() - i,
        {
            let ghost before = *tokens;
            match &mut tokens[i] {
                TokenTree::Ident(s) => {
                    self.visit_ident_mut(s);
                },
                TokenTree::Group(d, inner) => {
                    proof {
                        lemma_group_view(*d, *inner);
                    }
                    let ghost inner_before = *inner;
                    self.rename_tokens(inner);
                    proof {
                        lemma_group_view(*d, *inner);
                        assert(renamed_token(self.0@, token_view(TokenTree::Group(*d, inner_before)))
                            ->Group_1 =~= renamed_tokens(self.0@, inner_before.deep_view()));
                    }
                },
                _ => {},
            }
            proof {
                assert forall|j: int| 0 <= j < i implies #[trigger] tokens.deep_view()[j]
                    == renamed_token(self.0@, ov[j]) by {
                    assert(tokens@[j] == before@[j]);
                    assert(tokens.deep_view()[j] == before.deep_view()[j]);
                }
                assert(before@[i as int] == orig@[i as int]);
                assert(ov[i as int] == token_view(orig@[i as int]));
                assert(tokens.deep_view()[i as int] == token_view(tokens@[i as int]));
            }
            i += 1;
        }
        assert(tokens.deep_view() =~= renamed_tokens(self.0@, ov));
    }

    /// Renames the receiver in a sequence of tokens, inside groups too.
    pub fn visit_token_stream(&self, tokens: Vec<TokenTree>) -> (r: Vec<TokenTree>)
        ensures
            r.deep_view() == renamed_tokens(self.0@, tokens.deep_view()),
    {
        let mut tokens = tokens;
        self.rename_tokens(&mut tokens);
        tokens
    }
}

impl ReplaceSelf<'_> {
    /// Renames the receiver in the input of a macro-like construct.
    pub fn visit_macro_mut(&self, tokens: &mut Vec<TokenTree>)
        ensures
            final(tokens).deep_view() == renamed_tokens(self.0@, old(tokens).deep_view()),
    {
        self.rename_tokens(tokens);
    }

    /// Renames the receiver in a nested item that defines a local macro, which
    /// can refer to the receiver of the method around it. Any other nested
    /// item is left as it is.
    pub fn visit_item_mut(&self, macro_rules: bool, tokens: &mut Vec<TokenTree>)
        ensures
            macro_rules ==> final(tokens).deep_view() == renamed_tokens(
                self.0@,
                old(tokens).deep_view(),
            ),
            !macro_rules ==> final(tokens).deep_view() == old(tokens).deep_view(),
    {
        if macro_rules {
            self.visit_macro_mut(tokens);
        }
    }

    /// Renames the receiver in `node` and in the nodes below it.
    pub fn visit_node_mut(&self, node: &mut Node)
        ensures
            final(node)@ == renamed(self.0@, old(node)@),
        decreases *old(node),
    {
        let ghost before = old(node)@;
        proof {
            lemma_node_view(*old(node));
        }
        match &mut node.kind {
            NodeKind::Ident(s) => {
                self.visit_ident_mut(s);
            },
            NodeKind::Segment { ident, .. } => {
                self.visit_ident_mut(ident);
            },
            NodeKind::PatIdent { ident, .. } => {
                self.visit_ident_mut(ident);
            },
            NodeKind::Macro(tokens) => {
                self.visit_macro_mut(tokens);
            },
            NodeKind::Item { macro_rules, tokens } => {
                self.visit_item_mut(*macro_rules, tokens);
                proof {
                    lemma_node_view(*node);
                }
                return ;
            },
            _ => {},
        }
        assert(node.kind@ == renamed_kind(self.0@, before.kind));
        let ghost kind = node.kind;
        let ghost orig = node.children;
        let ghost ov = before.children;
        let mut i: usize = 0;
        while i < node.children.len()
            invariant
                i <= node.children.len(),
                node.children.len() == orig.len(),
                node.kind == kind,
                ov == orig.deep_view(),
                forall|j: int|
                    0 <= j < i ==> #[trigger] node.children.deep_view()[j] == renamed(
                        self.0@,
                        ov[j],
                    ),
                forall|j: int| i <= j < node.children.len() ==> #[trigger] node.children@[j] == orig@[j],
                decreases_to!(*old(node) => orig),
            decreases node.children.len() - i,
        {
            let ghost children_before = node.children;
            self.visit_node_mut(&mut node.children[i]);
            proof {
                assert forall|j: int| 0 <= j < i implies #[trigger] node.children.deep_view()[j]
                    == renamed(self.0@, ov[j]) by {
                    assert(node.children@[j] == children_before@[j]);
                    assert(node.children.deep_view()[j] == children_before.deep_view()[j]);
                }
            }
            i += 1;
        }
        proof {
            lemma_node_view(*node);
            assert(node.children.deep_view() =~= renamed(self.0@, before).children);
        }
    }

    fn rename_all(&self, nodes: &mut Vec<Node>)
        ensures
            final(nodes).deep_view() == renamed_all(self.0@, old(nodes).deep_view()),
    {
        let ghost ov = nodes.deep_view();
        let mut i: usize = 0;
        while i < nodes.len()
            invariant
                i <= nodes.len(),
                nodes.len() == ov.len(),
                forall|j: int|
                    0 <= j < i ==> #[trigger] nodes.deep_view()[j] == renamed(self.0@, ov[j]),
                forall|j: int| i <= j < nodes.len() ==> #[trigger] nodes.deep_view()[j] == ov[j],
            decreases nodes.len() - i,
        {
            let ghost before = *nodes;
            self.visit_node_mut(&mut nodes[i]);
            proof {
                assert forall|j: int| 0 <= j < nodes.len() && j != i implies #[trigger] nodes.deep_view()[j]
                    == before.deep_view()[j] by {
                    assert(nodes@[j] == before@[j]);
                }
                assert(before.deep_view()[i as int] == ov[i as int]);
            }
            i += 1;
        }
        assert(nodes.deep_view() =~= renamed_all(self.0@, ov));
    }

    /// Renames the receiver in every statement of a body.
    pub fn visit_block_mut(&self, block: &mut Block)
        ensures
            final(block)@ == renamed_block(self.0@, old(block)@),
    {
        match block {
            Block::Written(stmts) => {
                self.rename_all(stmts);
            },
            Block::Deferred { stmts, .. } => {
                self.rename_all(stmts);
            },
        }
    }
}

} // verus!
