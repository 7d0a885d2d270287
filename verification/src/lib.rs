//! Lexical front end for a small programming language: a cursor over
//! source text, an ordered-alternation combinator over character-matching
//! rules, and the token and error taxonomy those rules produce.

use vstd::prelude::*;

pub mod laws;
pub mod model;
pub mod scanner;
pub mod token;
pub mod unicode;

verus! {

/// The location of a token in the source text: a half-open range
/// `[start, end)` of character offsets.
#[derive(Clone, Copy, Debug, Hash, PartialEq, Eq, Structural)]
pub struct Span {
    pub start: usize,
    pub end: usize,
}

} // verus!
