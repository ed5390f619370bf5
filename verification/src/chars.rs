//! Unicode character classes, as the standard library tells them.

use vstd::prelude::*;

verus! {

/// Whether the character has the Unicode property Alphabetic, as
/// `char::is_alphabetic` tells.
pub uninterp spec fn alphabetic(c: char) -> bool;

/// `char::is_alphabetic`. The result is only named.
#[verifier::external_body]
pub(crate) fn is_alphabetic(c: char) -> (r: bool)
    ensures
        r == alphabetic(c),
{
    c.is_alphabetic()
}

/// Whether the character is in one of the Unicode categories of numbers,
/// as `char::is_numeric` tells.
pub uninterp spec fn numeric(c: char) -> bool;

/// `char::is_numeric`. The result is only named.
#[verifier::external_body]
pub(crate) fn is_numeric(c: char) -> (r: bool)
    ensures
        r == numeric(c),
{
    c.is_numeric()
}

/// Whether the character is alphabetic or numeric.
pub open spec fn alphanumeric(c: char) -> bool {
    alphabetic(c) || numeric(c)
}

/// Whether the character is alphabetic or numeric, as
/// `char::is_alphanumeric` tells.
pub fn is_alphanumeric(c: char) -> (r: bool)
    ensures
        r == alphanumeric(c),
{
    is_alphabetic(c) || is_numeric(c)
}

/// The character in upper case, which may take several characters, as
/// `char::to_uppercase` gives it.
pub uninterp spec fn uppercase(c: char) -> Seq<char>;

/// `char::to_uppercase`, its characters collected. The result is only
/// named.
#[verifier::external_body]
pub(crate) fn to_uppercase(c: char) -> (r: Vec<char>)
    ensures
        r@ == uppercase(c),
{
    c.to_uppercase().collect()
}

} // verus!
