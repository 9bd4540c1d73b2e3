//! Random raw values from the thread-local generator of the `rand` crate.

use vstd::prelude::*;
use rand::Rng;

verus! {

/// `Rng::gen_range` on `rand::thread_rng()` with the half-open range
/// `low..high`. The range must not be empty; the value drawn lies in it.
/// Nothing else is known of the value: two calls may differ.
#[verifier::external_body]
pub(crate) fn random_between(low: i64, high: i64) -> (r: i64)
    requires
        low < high,
    ensures
        low <= r < high,
{
    rand::thread_rng().gen_range(low..high)
}

} // verus!
