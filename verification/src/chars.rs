//! Character classification and string building.
//!
//! Unicode character classes are far too large to state here, so the
//! two classifiers are given names that the rest of the crate reasons
//! with; appending a single character to a `String` is likewise left to
//! the standard library.

use vstd::prelude::*;

verus! {

/// Whether `char::is_alphanumeric` accepts `c`.
pub uninterp spec fn alphanumeric(c: char) -> bool;

/// Whether `char::is_whitespace` accepts `c`.
pub uninterp spec fn whitespace(c: char) -> bool;

/// Relies on `char::is_alphanumeric`: the result depends on the
/// character alone (Unicode classes Alphabetic and Nd, Nl, No).
#[verifier::external_body]
pub fn is_alphanumeric_char(c: char) -> (r: bool)
    ensures
        r == alphanumeric(c),
{
    c.is_alphanumeric()
}

/// Relies on `char::is_whitespace`: the result depends on the
/// character alone (Unicode property White_Space).
#[verifier::external_body]
pub fn is_whitespace_char(c: char) -> (r: bool)
    ensures
        r == whitespace(c),
{
    c.is_whitespace()
}

/// Relies on `String::push`: appends the given character to the end of
/// the string.
#[verifier::external_body]
pub fn push_char(s: &mut String, c: char)
    ensures
        final(s)@ == old(s)@.push(c),
{
    s.push(c)
}

} // verus!
