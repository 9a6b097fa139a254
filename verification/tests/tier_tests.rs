use suika_core::tier::{catalog, next_tier, tier_at, tier_of, Tier, TierError};
use suika_core::{MAX_TIER, TIER_COUNT};

#[test]
fn tier_at_returns_catalog_entries() {
    let t0 = tier_at(0).unwrap();
    assert_eq!(
        t0,
        Tier {
            index: 0,
            size_per_mille: 100,
            visual_id: 0
        }
    );
    let t5 = tier_at(5).unwrap();
    assert_eq!(t5.size_per_mille, 550);
    let top = tier_at(MAX_TIER).unwrap();
    assert_eq!(top.index, 11);
    assert_eq!(top.size_per_mille, 1000);
}

#[test]
fn tier_at_rejects_out_of_range_indices() {
    assert_eq!(tier_at(TIER_COUNT), Err(TierError::OutOfRange));
    assert_eq!(tier_at(100), Err(TierError::OutOfRange));
    assert_eq!(tier_at(usize::MAX), Err(TierError::OutOfRange));
}

#[test]
fn next_tier_increments_below_the_top() {
    assert_eq!(next_tier(0), 1);
    assert_eq!(next_tier(5), 6);
    assert_eq!(next_tier(MAX_TIER - 1), MAX_TIER);
}

#[test]
fn next_tier_saturates_at_the_top() {
    assert_eq!(next_tier(MAX_TIER), MAX_TIER);
}

#[test]
fn catalog_lists_every_tier_in_order() {
    let tiers = catalog();
    assert_eq!(tiers.len(), TIER_COUNT);
    let sizes = [100, 200, 300, 400, 500, 550, 600, 650, 700, 800, 900, 1000];
    for (i, t) in tiers.iter().enumerate() {
        assert_eq!(t.index, i);
        assert_eq!(t.visual_id, i);
        assert_eq!(t.size_per_mille, sizes[i]);
    }
    for w in tiers.windows(2) {
        assert!(w[0].size_per_mille < w[1].size_per_mille);
    }
}

#[test]
fn radius_scales_the_maximum_piece_size() {
    assert_eq!(tier_of(0).radius(), 20);
    assert_eq!(tier_of(5).radius(), 110);
    assert_eq!(tier_of(MAX_TIER).radius(), 200);
}
