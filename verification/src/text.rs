//! Small helpers on text.

use vstd::prelude::*;

verus! {

/// Calls `str::starts_with` with a string as the pattern.
///
/// Trusted: the answer is whether `text` begins with the characters of
/// `prefix`.
#[verifier::external_body]
pub(crate) fn starts_with(text: &str, prefix: &str) -> (found: bool)
    ensures
        found == prefix@.is_prefix_of(text@),
{
    text.starts_with(prefix)
}

/// Calls `str::ends_with` with a string as the pattern.
///
/// Trusted: the answer is whether `text` ends with the characters of
/// `suffix`.
#[verifier::external_body]
pub(crate) fn ends_with(text: &str, suffix: &str) -> (found: bool)
    ensures
        found == suffix@.is_suffix_of(text@),
{
    text.ends_with(suffix)
}

} // verus!
