//! Trusted wrappers around the random number generator.

use vstd::prelude::*;
use rand::Rng;

verus! {

/// Relies on rand::random::<bool>: a fair coin flip. Nothing is promised of
/// the outcome; every caller must be correct for both.
#[verifier::external_body]
pub(crate) fn random_bool() -> bool {
    rand::random::<bool>()
}

/// Relies on rand::Rng::gen_range on a half-open integer range: the sampled
/// value lies in the range. The range must be non-empty, since gen_range
/// panics on an empty one.
#[verifier::external_body]
pub(crate) fn random_in_range(lo: i64, hi: i64) -> (r: i64)
    requires
        lo < hi,
    ensures
        lo <= r < hi,
{
    rand::thread_rng().gen_range(lo..hi)
}

} // verus!
