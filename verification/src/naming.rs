//! Table names derived from the names of record types.

use convert_case::{Case, Casing};
use vstd::prelude::*;

verus! {

/// The upper snake case form of `name`, as `convert_case` computes it.
pub uninterp spec fn upper_snake_case(name: Seq<char>) -> Seq<char>;

/// Calls `convert_case::Casing::to_case` on `name` with `Case::UpperSnake`.
/// Unproved: that the call returns for every `name`, and that its result
/// depends on the characters of `name` alone. What the result is on a given
/// name is not claimed.
#[verifier::external_body]
pub(crate) fn to_upper_snake(name: &str) -> (out: String)
    ensures
        out@ == upper_snake_case(name@),
{
    name.to_case(Case::UpperSnake)
}

} // verus!
