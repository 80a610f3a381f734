//! The random source of the map generator and of the spawner.

use vstd::prelude::*;
use rand::Rng;

verus! {

/// Draws an integer from the thread-local generator of the `rand` crate:
/// `rand::thread_rng().gen_range(low..high)`.
///
/// Trusted, not proved: the value lies in the half-open range it was asked
/// from. Nothing else is known of it, and two draws may differ. The range
/// must not be empty.
#[verifier::external_body]
pub(crate) fn draw(low: i32, high: i32) -> (r: i32)
    requires
        low < high,
    ensures
        low <= r < high,
{
    rand::thread_rng().gen_range(low..high)
}

} // verus!
