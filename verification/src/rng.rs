//! Randomness used by dungeon generation: a uniform integer range
//! sampler and a fair coin flip. Generation is verified for every value
//! these can return, so nothing is assumed about the distribution.

use vstd::prelude::*;

verus! {

/// Relies on `rand::Rng::gen_range` on an `i32` range: it returns a
/// value in `[lo, hi)` and panics only on an empty range, which the
/// precondition rules out.
#[verifier::external_body]
pub(crate) fn rand_range(lo: i32, hi: i32) -> (r: i32)
    requires
        lo < hi,
    ensures
        lo <= r < hi,
{
    rand::Rng::gen_range(&mut rand::thread_rng(), lo..hi)
}

/// Relies on `rand::random::<bool>`: a coin flip; nothing is promised
/// of the outcome.
#[verifier::external_body]
pub(crate) fn rand_coin() -> bool {
    rand::random::<bool>()
}

} // verus!
