//! Rewrites methods that are declared as deferred computations into methods
//! that return an explicit, concrete lazy-computation type.
//!
//! The engine works on structured declarations only: it is handed the
//! declaration of an interface or of an implementation, rewrites every method
//! that is marked as deferred, and hands the declaration back.

pub mod args;
pub mod body;
pub mod bound;
pub mod decl;
pub mod expand;
pub mod implicit;
pub mod lifetime;
pub mod receiver;
pub mod search;
pub mod signature;
pub mod substitute;
pub mod syntax;
pub mod text;
pub mod token;

use crate::args::{parsed, Args, ArgsError};
use crate::decl::Item;
use crate::expand::{expand, expanded, rejections, Rejected};
use crate::token::TokenTree;
use vstd::prelude::*;

verus! {

/// Reads the configuration marker of a declaration and rewrites the
/// declaration under it.
///
/// A malformed marker is an error, and the declaration is then left
/// untouched. Else every deferred method is rewritten as [`expand`] says, and
/// the methods that it rejects are returned.
pub fn async_trait(args: &Vec<TokenTree>, input: &mut Item) -> (r: Result<
    Vec<Rejected>,
    ArgsError,
>)
    ensures
        match r {
            Ok(rejected) => parsed(args.deep_view()) matches Some(config) && final(input)@
                == expanded(old(input)@, config.local) && rejected@ == rejections(old(input)@),
            Err(_) => parsed(args.deep_view()) is None && *final(input) == *old(input),
        },
{
    match Args::parse(args) {
        Ok(config) => Ok(expand(input, config.local)),
        Err(e) => Err(e),
    }
}

} // verus!
