//! The tier catalog: a fixed, ordered table of piece tiers.
//!
//! Tier 0 is the smallest piece; tier `MAX_TIER` is the largest and wins the
//! game when two pieces of it merge. The catalog is built once at startup and
//! never changes. Sizes are kept as per-mille ratios of the maximum piece
//! radius, so that the table is exact integer data.

use vstd::prelude::*;
use crate::{TIER_COUNT, MAX_TIER, MAX_PIECE_RADIUS};

verus! {

/// One rank in the ordered piece hierarchy.
///
/// `size_per_mille` is the piece's size as a fraction of the maximum piece
/// radius, in thousandths; `visual_id` selects the sprite the display layer
/// draws for this tier.
#[derive(Clone, Copy, Debug, PartialEq, Eq, Structural)]
pub struct Tier {
    pub index: usize,
    pub size_per_mille: u32,
    pub visual_id: usize,
}

/// Error of a catalog lookup with an index outside `[0, TIER_COUNT)`.
#[derive(Clone, Copy, Debug, PartialEq, Eq, Structural)]
pub enum TierError {
    OutOfRange,
}

/// The size table of the catalog, in thousandths of the maximum radius.
pub open spec fn size_per_mille_spec(i: int) -> u32 {
    if i == 0 { 100 }
    else if i == 1 { 200 }
    else if i == 2 { 300 }
    else if i == 3 { 400 }
    else if i == 4 { 500 }
    else if i == 5 { 550 }
    else if i == 6 { 600 }
    else if i == 7 { 650 }
    else if i == 8 { 700 }
    else if i == 9 { 800 }
    else if i == 10 { 900 }
    else { 1000 }
}

/// The catalog entry for a valid tier index.
pub open spec fn tier_spec(i: int) -> Tier {
    Tier { index: i as usize, size_per_mille: size_per_mille_spec(i), visual_id: i as usize }
}

/// The catalog entry for tier `i`, for an index known to be in range.
pub fn tier_of(i: usize) -> (t: Tier)
    requires
        i < TIER_COUNT,
    ensures
        t == tier_spec(i as int),
{
    let size_per_mille: u32 = match i {
        0 => 100,
        1 => 200,
        2 => 300,
        3 => 400,
        4 => 500,
        5 => 550,
        6 => 600,
        7 => 650,
        8 => 700,
        9 => 800,
        10 => 900,
        _ => 1000,
    };
    Tier { index: i, size_per_mille, visual_id: i }
}

/// Catalog lookup. Fails with `OutOfRange` exactly when `i` is not a tier.
pub fn tier_at(i: usize) -> (r: Result<Tier, TierError>)
    ensures
        i < TIER_COUNT ==> r == Ok::<Tier, TierError>(tier_spec(i as int)),
        i >= TIER_COUNT ==> r == Err::<Tier, TierError>(TierError::OutOfRange),
{
    if i < TIER_COUNT {
        Ok(tier_of(i))
    } else {
        Err(TierError::OutOfRange)
    }
}

/// The tier a merge of two tier-`i` pieces produces: `i + 1`, saturating at
/// the top tier. A maximum-tier index is its own next tier, which the
/// collision resolver uses to detect the winning merge.
pub fn next_tier(i: usize) -> (r: usize)
    requires
        i < TIER_COUNT,
    ensures
        r < TIER_COUNT,
        i < MAX_TIER ==> r == i + 1,
        i == MAX_TIER ==> r == i,
{
    if i < MAX_TIER {
        i + 1
    } else {
        MAX_TIER
    }
}

/// Builds the whole catalog, smallest tier first.
pub fn catalog() -> (v: Vec<Tier>)
    ensures
        v@.len() == TIER_COUNT,
        forall|i: int| 0 <= i < TIER_COUNT ==> v@[i] == tier_spec(i),
{
    let mut v: Vec<Tier> = Vec::new();
    let mut i: usize = 0;
    while i < TIER_COUNT
        invariant
            i <= TIER_COUNT,
            v@.len() == i,
            forall|k: int| 0 <= k < i ==> v@[k] == tier_spec(k),
        decreases TIER_COUNT - i,
    {
        v.push(tier_of(i));
        i += 1;
    }
    v
}

impl Tier {
    /// The physical radius of a piece of this tier, derived from the
    /// per-mille size ratio and the global maximum piece radius.
    pub fn radius(&self) -> (r: u32)
        requires
            self.size_per_mille <= 1000,
        ensures
            r == self.size_per_mille * MAX_PIECE_RADIUS / 1000,
    {
        self.size_per_mille * MAX_PIECE_RADIUS / 1000
    }
}

} // verus!
