//! The one randomized ingredient of the controller: an index drawn below a
//! bound, used to pick a probe quadrant and to diversify the agent's position
//! after a probe. Everything decided from the drawn index is verified for
//! every value the draw can produce.

use vstd::prelude::*;

use rand::Rng;

verus! {

/// Relies on rand::thread_rng and rand::Rng::gen_range over `0..n`: the
/// sample comes from the half-open range, so it is strictly below `n`;
/// gen_range panics on an empty range, which `n >= 1` rules out. Nothing
/// more is promised of a random value.
#[verifier::external_body]
pub(crate) fn rand_below(n: usize) -> (r: usize)
    requires
        n >= 1,
    ensures
        r < n,
{
    rand::thread_rng().gen_range(0..n)
}

} // verus!
