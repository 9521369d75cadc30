//! The character classes of Unicode that the lexer asks about, as `char`
//! answers them.

use vstd::prelude::*;

verus! {

/// What `char::is_alphabetic` answers: whether the character has the
/// Unicode `Alphabetic` property.
pub uninterp spec fn spec_is_alphabetic(c: char) -> bool;

/// What `char::is_numeric` answers: whether the character's general
/// category is a number (`Nd`, `Nl` or `No`).
pub uninterp spec fn spec_is_numeric(c: char) -> bool;

/// What `char::is_uppercase` answers: whether the character has the
/// Unicode `Uppercase` property.
pub uninterp spec fn spec_is_uppercase(c: char) -> bool;

/// What `char::is_lowercase` answers: whether the character has the
/// Unicode `Lowercase` property.
pub uninterp spec fn spec_is_lowercase(c: char) -> bool;

/// `char::is_alphabetic`; its result depends on the character alone.
#[verifier::external_body]
pub(crate) fn is_alphabetic(c: char) -> (r: bool)
    ensures
        r == spec_is_alphabetic(c),
{
    c.is_alphabetic()
}

/// `char::is_numeric`; its result depends on the character alone.
#[verifier::external_body]
pub(crate) fn is_numeric(c: char) -> (r: bool)
    ensures
        r == spec_is_numeric(c),
{
    c.is_numeric()
}

/// `char::is_alphanumeric`, documented as `is_alphabetic() || is_numeric()`.
#[verifier::external_body]
pub(crate) fn is_alphanumeric(c: char) -> (r: bool)
    ensures
        r == (spec_is_alphabetic(c) || spec_is_numeric(c)),
{
    c.is_alphanumeric()
}

/// `char::is_uppercase`; its result depends on the character alone.
#[verifier::external_body]
pub(crate) fn is_uppercase(c: char) -> (r: bool)
    ensures
        r == spec_is_uppercase(c),
{
    c.is_uppercase()
}

/// `char::is_lowercase`; its result depends on the character alone.
#[verifier::external_body]
pub(crate) fn is_lowercase(c: char) -> (r: bool)
    ensures
        r == spec_is_lowercase(c),
{
    c.is_lowercase()
}

} // verus!
