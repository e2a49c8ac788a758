//! The configuration that is written for a whole interface or
//! implementation.

use crate::text::is_text;
use crate::token::{TokenTree, TokenTreeView};
use vstd::prelude::*;

verus! {

/// Configuration given for a whole interface or implementation declaration.
#[derive(Clone, Copy, Debug, PartialEq, Eq, Structural)]
pub struct Args {
    /// The produced computations need not be thread-sendable: no capability
    /// bound is added.
    pub local: bool,
    /// The produced computations are asked to be thread-shareable as well.
    pub sync: bool,
}

/// The configuration marker is not one of the accepted forms.
#[derive(Clone, Copy, Debug, PartialEq, Eq, Structural)]
pub struct ArgsError;

impl ArgsError {
    /// What to tell the author of the declaration.
    pub fn message(&self) -> (r: String)
        ensures
            r@ == "expected #[async_trait] or #[async_trait(?Send)]"@,
    {
        String::from_str("expected #[async_trait] or #[async_trait(?Send)]")
    }
}

/// Whether the token is the punctuation character `ch`.
pub open spec fn is_punct(t: TokenTreeView, ch: char) -> bool {
    t matches TokenTreeView::Punct { ch: c, .. } && c == ch
}

/// Whether the token is the word `word`.
pub open spec fn is_word(t: TokenTreeView, word: Seq<char>) -> bool {
    t matches TokenTreeView::Ident(s) && s == word
}

/// The configuration that the tokens of a marker stand for: nothing, `?Send`
/// or `+Sync`. Anything else is malformed.
pub open spec fn parsed(tokens: Seq<TokenTreeView>) -> Option<Args> {
    if tokens.len() == 0 {
        Some(Args { local: false, sync: false })
    } else if tokens.len() == 2 && is_punct(tokens[0], '?') && is_word(tokens[1], "Send"@) {
        Some(Args { local: true, sync: false })
    } else if tokens.len() == 2 && is_punct(tokens[0], '+') && is_word(tokens[1], "Sync"@) {
        Some(Args { local: false, sync: true })
    } else {
        None
    }
}

fn punct_is(t: &TokenTree, ch: char) -> (r: bool)
    ensures
        r == is_punct(t@, ch),
{
    match t {
        TokenTree::Punct { ch: c, .. } => *c == ch,
        _ => false,
    }
}

fn word_is(t: &TokenTree, word: &str) -> (r: bool)
    ensures
        r == is_word(t@, word@),
{
    match t {
        TokenTree::Ident(s) => is_text(s, word),
        _ => false,
    }
}

/// Reads the marker as far as it is well-formed: `Ok` with the
/// configuration and the number of tokens that were read, or `Err` where a
/// `?` or a `+` is not followed by its keyword.
fn try_parse(tokens: &Vec<TokenTree>) -> (r: Result<(Args, usize), ArgsError>)
    ensures
        match r {
            Ok((args, used)) => used <= tokens.len() && (used == tokens.len() ==> parsed(
                tokens.deep_view(),
            ) == Some(args)) && (used != tokens.len() ==> parsed(tokens.deep_view()) is None),
            Err(_) => parsed(tokens.deep_view()) is None,
        },
{
    if tokens.len() == 0 {
        return Ok((Args { local: false, sync: false }, 0));
    }
    if punct_is(&tokens[0], '?') {
        if tokens.len() >= 2 && word_is(&tokens[1], "Send") {
            Ok((Args { local: true, sync: false }, 2))
        } else {
            Err(ArgsError)
        }
    } else if punct_is(&tokens[0], '+') {
        if tokens.len() >= 2 && word_is(&tokens[1], "Sync") {
            Ok((Args { local: false, sync: true }, 2))
        } else {
            Err(ArgsError)
        }
    } else {
        Ok((Args { local: false, sync: false }, 0))
    }
}

impl Args {
    /// The configuration of a declaration without a marker.
    pub fn new() -> (r: Args)
        ensures
            r == (Args { local: false, sync: false }),
    {
        Args { local: false, sync: false }
    }

    /// Reads the tokens of a configuration marker. Fails on every marker that
    /// is not empty, `?Send` or `+Sync`.
    pub fn parse(tokens: &Vec<TokenTree>) -> (r: Result<Args, ArgsError>)
        ensures
            match r {
                Ok(args) => parsed(tokens.deep_view()) == Some(args),
                Err(_) => parsed(tokens.deep_view()) is None,
            },
    {
        match try_parse(tokens) {
            Ok((args, used)) => if used == tokens.len() {
                Ok(args)
            } else {
                Err(ArgsError)
            },
            Err(e) => Err(e),
        }
    }
}

} // verus!
