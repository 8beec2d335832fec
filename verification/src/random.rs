//! The simulation's only source of randomness.

use vstd::prelude::*;

verus! {

/// Draws a number from the thread-local generator with `rand::Rng::gen_range`.
///
/// Trusted: the draw lies in `low..high`. Nothing else is known of it, and two
/// draws with the same bounds may differ. `gen_range` panics on an empty
/// range, which the precondition excludes.
#[verifier::external_body]
pub(crate) fn random_in_range(low: u32, high: u32) -> (drawn: u32)
    requires
        low < high,
    ensures
        low <= drawn < high,
{
    rand::Rng::gen_range(&mut rand::thread_rng(), low, high)
}

} // verus!
