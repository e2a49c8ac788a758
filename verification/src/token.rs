//! Token trees: syntax that is carried along without being interpreted, and
//! the input of macro-like constructs.

use crate::text::is_text;
use vstd::prelude::*;

verus! {

/// The brackets around a group of tokens.
#[derive(Clone, Copy, Debug, PartialEq, Eq, Structural)]
pub enum Delimiter {
    Parenthesis,
    Brace,
    Bracket,
    /// A group without written brackets.
    Invisible,
}

/// A single token, or a bracketed group of tokens.
#[derive(Debug, PartialEq, Eq)]
pub enum TokenTree {
    /// A word: an identifier or a keyword.
    Ident(String),
    /// A punctuation character; `joint` says that the next token continues
    /// the same operator.
    Punct { ch: char, joint: bool },
    /// A literal, as it is written.
    Literal(String),
    /// A bracketed sequence of tokens.
    Group(Delimiter, Vec<TokenTree>),
}

/// The mathematical value of a [`TokenTree`].
pub enum TokenTreeView {
    Ident(Seq<char>),
    Punct { ch: char, joint: bool },
    Literal(Seq<char>),
    Group(Delimiter, Seq<TokenTreeView>),
}

/// The value of one token tree.
pub open spec fn token_view(t: TokenTree) -> TokenTreeView
    decreases t,
{
    match t {
        TokenTree::Ident(s) => TokenTreeView::Ident(s@),
        TokenTree::Punct { ch, joint } => TokenTreeView::Punct { ch, joint },
        TokenTree::Literal(s) => TokenTreeView::Literal(s@),
        TokenTree::Group(d, ts) => TokenTreeView::Group(
            d,
            Seq::new(
                ts.len() as nat,
                |i: int|
                    if 0 <= i < ts.len() {
                        token_view(ts[i])
                    } else {
                        arbitrary()
                    },
            ),
        ),
    }
}

impl DeepView for TokenTree {
    type V = TokenTreeView;

    open spec fn deep_view(&self) -> TokenTreeView {
        token_view(*self)
    }
}

impl View for TokenTree {
    type V = TokenTreeView;

    open spec fn view(&self) -> TokenTreeView {
        token_view(*self)
    }
}

/// The value of a group is made of the values of its members.
pub proof fn lemma_group_view(d: Delimiter, ts: Vec<TokenTree>)
    ensures
        token_view(TokenTree::Group(d, ts)) == TokenTreeView::Group(d, ts.deep_view()),
{
    assert(token_view(TokenTree::Group(d, ts))->Group_1 =~= ts.deep_view());
}

impl Clone for TokenTree {
    fn clone(&self) -> (r: TokenTree)
        ensures
            r@ == self@,
        decreases self,
    {
        match self {
            TokenTree::Ident(s) => TokenTree::Ident(s.clone()),
            TokenTree::Punct { ch, joint } => TokenTree::Punct { ch: *ch, joint: *joint },
            TokenTree::Literal(s) => TokenTree::Literal(s.clone()),
            TokenTree::Group(d, ts) => {
                let out = clone_tokens(ts);
                proof {
                    lemma_group_view(*d, *ts);
                    lemma_group_view(*d, out);
                }
                TokenTree::Group(*d, out)
            },
        }
    }
}

/// A copy of a sequence of tokens.
pub fn clone_tokens(tokens: &Vec<TokenTree>) -> (r: Vec<TokenTree>)
    ensures
        r.deep_view() == tokens.deep_view(),
    decreases tokens,
{
    let mut out: Vec<TokenTree> = Vec::new();
    let mut i: usize = 0;
    while i < tokens.len()
        invariant
            i <= tokens.len(),
            out.len() == i,
            forall|j: int| 0 <= j < i ==> (#[trigger] out[j])@ == tokens[j]@,
        decreases tokens.len() - i,
    {
        out.push(tokens[i].clone());
        i += 1;
    }
    assert(out.deep_view() =~= tokens.deep_view());
    out
}

/// Whether the word `name` occurs among `tokens`, at any depth of nesting.
pub open spec fn mentions(tokens: Seq<TokenTreeView>, name: Seq<char>) -> bool
    decreases tokens,
{
    exists|i: int| 0 <= i < tokens.len() && token_mentions(#[trigger] tokens[i], name)
}

/// Whether the token is the word `name` or a group in which it occurs.
pub open spec fn token_mentions(token: TokenTreeView, name: Seq<char>) -> bool
    decreases token,
{
    match token {
        TokenTreeView::Ident(s) => s == name,
        TokenTreeView::Group(_, inner) => mentions(inner, name),
        _ => false,
    }
}

/// Searches `tokens`, and every group nested in them, for the word `name`.
pub fn contains_ident(tokens: &Vec<TokenTree>, name: &str) -> (r: bool)
    ensures
        r == mentions(tokens.deep_view(), name@),
    decreases tokens,
{
    let mut i: usize = 0;
    while i < tokens.len()
        invariant
            i <= tokens.len(),
            forall|j: int| 0 <= j < i ==> !token_mentions(#[trigger] tokens.deep_view()[j], name@),
        decreases tokens.len() - i,
    {
        let found = match &tokens[i] {
            TokenTree::Ident(s) => is_text(s, name),
            TokenTree::Group(d, inner) => {
                proof {
                    lemma_group_view(*d, *inner);
                }
                contains_ident(inner, name)
            },
            _ => false,
        };
        assert(found == token_mentions(tokens.deep_view()[i as int], name@));
        if found {
            return true;
        }
        i += 1;
    }
    false
}

} // verus!
