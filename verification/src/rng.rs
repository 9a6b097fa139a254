//! The one randomised choice of the game: drawing the next pending tier.

use vstd::prelude::*;
use rand::Rng;
use crate::LOW_TIER_RANGE;

verus! {

/// Draws the tier of the next user-triggered spawn, uniformly from the low
/// tiers `0 .. LOW_TIER_RANGE`.
///
/// Relies on rand: `Rng::gen_range(0..LOW_TIER_RANGE)` on the thread-local
/// generator returns a value of the given range, which is not empty, so the
/// call does not panic and the result is a low tier. Nothing more is assumed
/// of which value comes back.
#[verifier::external_body]
pub fn roll_low_tier() -> (r: usize)
    ensures
        r < LOW_TIER_RANGE,
{
    rand::thread_rng().gen_range(0..LOW_TIER_RANGE)
}

} // verus!
