//! Character classes the scanner depends on.
//!
//! The Unicode character properties themselves (XID identifier classes,
//! the White_Space property, the lowercase mapping) are computed by
//! outside code; each is given a name here, and the scanner's contracts
//! are stated over those names.

use vstd::prelude::*;

verus! {

/// What `char::is_whitespace` returns for a character.
pub uninterp spec fn is_whitespace(c: char) -> bool;

/// What `parseme::xid::is_start` returns for a character.
pub uninterp spec fn is_xid_start(c: char) -> bool;

/// What `parseme::xid::is_continue` returns for a character.
pub uninterp spec fn is_xid_continue(c: char) -> bool;

/// What `str::to_lowercase` returns for a sequence of characters.
pub uninterp spec fn lowered(s: Seq<char>) -> Seq<char>;

/// Relies on `char::is_whitespace`: whether the character has the Unicode
/// White_Space property, a function of the character alone.
#[verifier::external_body]
pub(crate) fn whitespace_char(c: char) -> (r: bool)
    ensures
        r == is_whitespace(c),
{
    c.is_whitespace()
}

/// Relies on `parseme::xid::is_start`: whether the character has the
/// Unicode XID_Start property, a function of the character alone.
#[verifier::external_body]
pub(crate) fn xid_start_char(c: char) -> (r: bool)
    ensures
        r == is_xid_start(c),
{
    parseme::xid::is_start(c)
}

/// Relies on `parseme::xid::is_continue`: whether the character has the
/// Unicode XID_Continue property, a function of the character alone.
#[verifier::external_body]
pub(crate) fn xid_continue_char(c: char) -> (r: bool)
    ensures
        r == is_xid_continue(c),
{
    parseme::xid::is_continue(c)
}

/// Relies on `str::to_lowercase`: the Unicode lowercase mapping of the
/// characters, a function of the characters alone.
#[verifier::external_body]
pub(crate) fn lowercase_chars(v: &Vec<char>) -> (r: Vec<char>)
    ensures
        r@ == lowered(v@),
{
    v.iter().collect::<String>().to_lowercase().chars().collect()
}

} // verus!
