//! Randomness for the initial particle placement.

use vstd::prelude::*;

use rand::Rng;

verus! {

/// Relies on rand's `thread_rng().gen_range(0..n)`: it samples the
/// half-open range below `n` (and panics only on an empty range, which the
/// precondition rules out).  Nothing more is assumed of the draw.
#[verifier::external_body]
pub(crate) fn random_below(n: u64) -> (r: u64)
    requires
        0 < n,
    ensures
        r < n,
{
    rand::thread_rng().gen_range(0..n)
}

} // verus!
