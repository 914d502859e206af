//! Randomness for wave spawning, wall generation and destination jitter,
//! drawn through the `rand` crate.

use vstd::prelude::*;

verus! {

/// Relies on `rand::random_range`: returns a uniform sample from the
/// half-open range `lo..hi`. The callee asserts that the range is
/// non-empty, so an empty range is excluded here; nothing more than
/// membership in the range can be promised of a random draw.
#[verifier::external_body]
pub(crate) fn random_in_range(lo: i64, hi: i64) -> (r: i64)
    requires
        lo < hi,
    ensures
        lo <= r < hi,
{
    rand::random_range(lo..hi)
}

} // verus!
