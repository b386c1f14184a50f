//! Randomness for the engine: the fair coin that breaks diagonal-movement
//! ties and the uniform ranges behind confusion headings and map generation.

use rand::Rng;
use vstd::prelude::*;

verus! {

/// Relies on `rand::random::<bool>`, which draws from the `Standard`
/// distribution: a fair coin. Either outcome may come back, so nothing
/// more can be promised of the result.
#[verifier::external_body]
pub(crate) fn coin_flip() -> bool {
    rand::random::<bool>()
}

/// Relies on `rand::Rng::gen_range`, which returns a uniformly drawn value
/// in `[lo, hi)` and panics only on an empty range; the precondition
/// excludes that.
#[verifier::external_body]
pub(crate) fn rand_range(lo: i32, hi: i32) -> (r: i32)
    requires
        lo < hi,
    ensures
        lo <= r < hi,
{
    rand::thread_rng().gen_range(lo..hi)
}

} // verus!
