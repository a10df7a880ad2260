//! Draws of random numbers.

use vstd::prelude::*;

verus! {

/// A number drawn uniformly from `0..bound` (`rand::random_range`); the
/// contract claims only that it lies in that range.
#[verifier::external_body]
pub(crate) fn random_below(bound: u32) -> (r: u32)
    requires
        bound > 0,
    ensures
        r < bound,
{
    rand::random_range(0..bound)
}

} // verus!
