//! The source of randomness.

use rand::Rng;
use vstd::prelude::*;

verus! {

/// Draws one number with `rand::Rng::gen_range` on the thread-local generator
/// `rand::thread_rng()`, over the inclusive range `low..=high`.
///
/// Trusted, not proved: the drawn number lies within the two bounds. Nothing
/// is claimed about which number comes, so two calls with the same bounds may
/// differ. `gen_range` panics on an empty range, which `low <= high` excludes.
#[verifier::external_body]
pub(crate) fn draw_inclusive(low: usize, high: usize) -> (value: usize)
    requires
        low <= high,
    ensures
        low <= value <= high,
{
    rand::thread_rng().gen_range(low..=high)
}

} // verus!
