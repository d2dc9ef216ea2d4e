//! Comparing and folding the texts that name a strategy or a unit.

use vstd::prelude::*;
use vstd::string::StringExecFns;

verus! {

/// What `str::to_lowercase` makes of `text`.
pub uninterp spec fn lowercase_of(text: Seq<char>) -> Seq<char>;

/// Folds `text` to lower case with `str::to_lowercase`.
///
/// The contract names the outcome and claims nothing else of it: the
/// folding follows the Unicode tables alone, with no locale.
#[verifier::external_body]
pub(crate) fn to_lowercase(text: &str) -> (lower: String)
    ensures
        lower@ == lowercase_of(text@),
{
    text.to_lowercase()
}

/// Whether the two texts hold the same characters.
pub fn same_text(left: &str, right: &str) -> (same: bool)
    ensures
        same == (left@ == right@),
{
    let left: String = String::from_str(left);
    let right: String = String::from_str(right);
    left == right
}

} // verus!
