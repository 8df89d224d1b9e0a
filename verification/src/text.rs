//! Small helpers on strings.

use vstd::prelude::*;

verus! {

/// Whether two string slices hold the same characters.
///
/// Trusted: this is `==` on `str`, which std documents as comparing the
/// contents of the two slices.
#[verifier::external_body]
pub(crate) fn same_text(a: &str, b: &str) -> (same: bool)
    ensures
        same == (a@ == b@),
{
    a == b
}

/// `prefix`, then `middle`, then `suffix`.
pub(crate) fn join3(prefix: &str, middle: &str, suffix: &str) -> (text: String)
    ensures
        text@ == prefix@ + middle@ + suffix@,
{
    let mut text = String::from_str(prefix);
    text.append(middle);
    text.append(suffix);
    text
}

} // verus!
