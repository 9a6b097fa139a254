//! Pieces, collision events, and the handle-addressed piece arena.
//!
//! The arena is a sequence of piece records addressed by opaque handles. The
//! core never holds references into the physics world across ticks, only
//! handles; a handle is issued once and never reused, so a lookup of a
//! destroyed piece's handle simply fails and the event that named it is
//! recognised as stale.

use vstd::prelude::*;
use crate::TIER_COUNT;

verus! {

/// A piece in the arena, as the core sees it: the handle issued at creation,
/// the piece's tier, and its position. Velocity and the rest of the physical
/// state live in the physics collaborator and are never read by the core.
#[derive(Clone, Copy, Debug, PartialEq, Eq, Structural)]
pub struct Piece {
    pub handle: u64,
    pub tier: usize,
    pub x: i64,
    pub y: i64,
}

/// A contact reported by the physics collaborator for one simulation tick:
/// the two colliding handles, and whether the contact is with the kill-zone
/// sensor rather than a solid body.
#[derive(Clone, Copy, Debug, PartialEq, Eq, Structural)]
pub struct CollisionEvent {
    pub a: u64,
    pub b: u64,
    pub is_sensor: bool,
}

/// The first piece with handle `h`, if any.
pub open spec fn find_spec(s: Seq<Piece>, h: u64) -> Option<Piece>
    decreases s.len(),
{
    if s.len() == 0 {
        None
    } else if s[0].handle == h {
        Some(s[0])
    } else {
        find_spec(s.drop_first(), h)
    }
}

/// `s` with the first piece of handle `h` removed; `s` itself if none.
pub open spec fn remove_handle(s: Seq<Piece>, h: u64) -> Seq<Piece>
    decreases s.len(),
{
    if s.len() == 0 {
        s
    } else if s[0].handle == h {
        s.drop_first()
    } else {
        seq![s[0]] + remove_handle(s.drop_first(), h)
    }
}

/// No two pieces share a handle.
pub open spec fn handles_unique(s: Seq<Piece>) -> bool {
    forall|i: int, j: int|
        #![trigger s[i].handle, s[j].handle]
        0 <= i < j < s.len() ==> s[i].handle != s[j].handle
}

/// Every handle in the arena is below `bound` (the next fresh handle).
pub open spec fn handles_below(s: Seq<Piece>, bound: int) -> bool {
    forall|i: int| 0 <= i < s.len() ==> #[trigger] s[i].handle < bound
}

/// Every piece's tier is a valid catalog index.
pub open spec fn tiers_valid(s: Seq<Piece>) -> bool {
    forall|i: int| 0 <= i < s.len() ==> #[trigger] s[i].tier < TIER_COUNT
}

/// A find resolves to the first index whose handle matches.
pub proof fn lemma_find_spec_first(s: Seq<Piece>, h: u64, i: int)
    requires
        0 <= i < s.len(),
        s[i].handle == h,
        forall|k: int| 0 <= k < i ==> s[k].handle != h,
    ensures
        find_spec(s, h) == Some(s[i]),
    decreases i,
{
    if i > 0 {
        lemma_find_spec_first(s.drop_first(), h, i - 1);
    }
}

/// A find over a sequence with no matching handle fails.
pub proof fn lemma_find_spec_none(s: Seq<Piece>, h: u64)
    requires
        forall|k: int| 0 <= k < s.len() ==> s[k].handle != h,
    ensures
        find_spec(s, h) is None,
    decreases s.len(),
{
    if s.len() > 0 {
        lemma_find_spec_none(s.drop_first(), h);
    }
}

/// A found piece carries the handle it was found by, and is in the arena.
pub proof fn lemma_find_spec_some(s: Seq<Piece>, h: u64)
    ensures
        find_spec(s, h) matches Some(p) ==> p.handle == h && s.contains(p),
    decreases s.len(),
{
    if s.len() > 0 && s[0].handle != h {
        lemma_find_spec_some(s.drop_first(), h);
        if find_spec(s, h) is Some {
            let p = find_spec(s, h)->Some_0;
            assert(s.drop_first().contains(p));
            let k = choose|k: int| 0 <= k < s.drop_first().len() && s.drop_first()[k] == p;
            assert(s[k + 1] == p);
        }
    }
}

/// Removing by handle at the first matching index `i` splices the sequence.
pub proof fn lemma_remove_handle_at(s: Seq<Piece>, h: u64, i: int)
    requires
        0 <= i < s.len(),
        s[i].handle == h,
        forall|k: int| 0 <= k < i ==> s[k].handle != h,
    ensures
        remove_handle(s, h) == s.subrange(0, i) + s.subrange(i + 1, s.len() as int),
        remove_handle(s, h).len() == s.len() - 1,
    decreases i,
{
    if i == 0 {
        assert(remove_handle(s, h) =~= s.subrange(0, 0) + s.subrange(1, s.len() as int));
    } else {
        lemma_remove_handle_at(s.drop_first(), h, i - 1);
        assert(seq![s[0]] + remove_handle(s.drop_first(), h) =~= s.subrange(0, i) + s.subrange(
            i + 1,
            s.len() as int,
        ));
    }
}

/// How removal relates to lookup: a present handle shrinks the arena by one
/// piece, an absent handle leaves it unchanged.
pub proof fn lemma_remove_handle_len(s: Seq<Piece>, h: u64)
    ensures
        find_spec(s, h) is Some ==> remove_handle(s, h).len() == s.len() - 1,
        find_spec(s, h) is None ==> remove_handle(s, h) == s,
    decreases s.len(),
{
    if s.len() > 0 && s[0].handle != h {
        lemma_remove_handle_len(s.drop_first(), h);
        if find_spec(s, h) is None {
            assert(seq![s[0]] + s.drop_first() =~= s);
        }
    }
}

/// The index the first match for `h` sits at, or `-1` if there is none.
pub open spec fn first_index_spec(s: Seq<Piece>, h: u64) -> int
    decreases s.len(),
{
    if s.len() == 0 {
        -1
    } else if s[0].handle == h {
        0
    } else if first_index_spec(s.drop_first(), h) == -1 {
        -1
    } else {
        first_index_spec(s.drop_first(), h) + 1
    }
}

/// `first_index_spec` agrees with `find_spec`: a successful find resolves to
/// the first matching index, with no match before it.
pub proof fn lemma_first_index(s: Seq<Piece>, h: u64)
    ensures
        find_spec(s, h) is None ==> first_index_spec(s, h) == -1,
        find_spec(s, h) is None ==> (forall|k: int| 0 <= k < s.len() ==> s[k].handle != h),
        find_spec(s, h) is Some ==> 0 <= first_index_spec(s, h) < s.len(),
        find_spec(s, h) is Some ==> s[first_index_spec(s, h)].handle == h,
        find_spec(s, h) is Some ==> (forall|k: int|
            0 <= k < first_index_spec(s, h) ==> s[k].handle != h),
        find_spec(s, h) is Some ==> find_spec(s, h) == Some(s[first_index_spec(s, h)]),
    decreases s.len(),
{
    if s.len() > 0 && s[0].handle != h {
        lemma_first_index(s.drop_first(), h);
        if find_spec(s, h) is None {
            assert forall|k: int| 0 <= k < s.len() implies s[k].handle != h by {
                if k > 0 {
                    assert(s.drop_first()[k - 1] == s[k]);
                }
            }
        } else {
            let i = first_index_spec(s, h);
            assert forall|k: int| 0 <= k < i implies s[k].handle != h by {
                if k > 0 {
                    assert(s.drop_first()[k - 1] == s[k]);
                }
            }
        }
    }
}

/// Every surviving piece of a removal is a piece of the arena before it,
/// shifted down by at most one index past the removal point.
proof fn lemma_remove_handle_splice(s: Seq<Piece>, h: u64)
    requires
        find_spec(s, h) is Some,
    ensures
        forall|k: int|
            0 <= k < remove_handle(s, h).len() ==> #[trigger] remove_handle(s, h)[k] == (if k
                < first_index_spec(s, h) {
                s[k]
            } else {
                s[k + 1]
            }),
        remove_handle(s, h).len() == s.len() - 1,
{
    lemma_first_index(s, h);
    let i = first_index_spec(s, h);
    lemma_remove_handle_at(s, h, i);
}

/// Removal preserves the arena's well-formedness bounds.
pub proof fn lemma_remove_handle_preserves(s: Seq<Piece>, h: u64, bound: int)
    ensures
        handles_unique(s) ==> handles_unique(remove_handle(s, h)),
        handles_below(s, bound) ==> handles_below(remove_handle(s, h), bound),
        tiers_valid(s) ==> tiers_valid(remove_handle(s, h)),
        remove_handle(s, h).len() <= s.len(),
{
    if find_spec(s, h) is None {
        lemma_remove_handle_len(s, h);
    } else {
        lemma_remove_handle_splice(s, h);
        let r = remove_handle(s, h);
        let i = first_index_spec(s, h);
        if handles_unique(s) {
            assert forall|p: int, q: int| 0 <= p < q < r.len() implies r[p].handle != r[q].handle by {
                let sp: int = if p < i { p } else { p + 1 };
                let sq: int = if q < i { q } else { q + 1 };
                assert(r[p] == s[sp]);
                assert(r[q] == s[sq]);
            }
        }
        if handles_below(s, bound) {
            assert forall|k: int| 0 <= k < r.len() implies #[trigger] r[k].handle < bound by {
                let sk: int = if k < i { k } else { k + 1 };
                assert(r[k] == s[sk]);
            }
        }
        if tiers_valid(s) {
            assert forall|k: int| 0 <= k < r.len() implies #[trigger] r[k].tier < TIER_COUNT by {
                let sk: int = if k < i { k } else { k + 1 };
                assert(r[k] == s[sk]);
            }
        }
    }
}

/// With unique handles, removal by handle leaves no piece of that handle.
pub proof fn lemma_remove_handle_gone(s: Seq<Piece>, h: u64)
    requires
        handles_unique(s),
    ensures
        forall|k: int|
            0 <= k < remove_handle(s, h).len() ==> #[trigger] remove_handle(s, h)[k].handle != h,
{
    if find_spec(s, h) is None {
        lemma_remove_handle_len(s, h);
        lemma_first_index(s, h);
        assert(remove_handle(s, h) == s);
    } else {
        lemma_first_index(s, h);
        lemma_remove_handle_splice(s, h);
        let r = remove_handle(s, h);
        let i = first_index_spec(s, h);
        assert forall|k: int| 0 <= k < r.len() implies #[trigger] r[k].handle != h by {
            let sk: int = if k < i { k } else { k + 1 };
            assert(r[k] == s[sk]);
            if sk > i {
                assert(s[i].handle == h);
            }
        }
    }
}

/// Removing one handle does not change what a different handle resolves to.
pub proof fn lemma_find_after_remove(s: Seq<Piece>, a: u64, b: u64)
    requires
        a != b,
    ensures
        find_spec(remove_handle(s, a), b) == find_spec(s, b),
    decreases s.len(),
{
    if s.len() > 0 {
        if s[0].handle == a {
            // the removed head cannot be the first match for b
        } else {
            lemma_find_after_remove(s.drop_first(), a, b);
            let r = seq![s[0]] + remove_handle(s.drop_first(), a);
            assert(r.drop_first() =~= remove_handle(s.drop_first(), a));
        }
    }
}

/// Removal keeps an arena free of a handle it was already free of.
pub proof fn lemma_remove_handle_free(s: Seq<Piece>, h: u64, h2: u64)
    requires
        forall|k: int| 0 <= k < s.len() ==> s[k].handle != h2,
    ensures
        forall|k: int|
            0 <= k < remove_handle(s, h).len() ==> #[trigger] remove_handle(s, h)[k].handle != h2,
    decreases s.len(),
{
    if s.len() > 0 {
        let r = remove_handle(s, h);
        if s[0].handle == h {
            assert forall|k: int| 0 <= k < r.len() implies #[trigger] r[k].handle != h2 by {
                assert(r[k] == s[k + 1]);
            }
        } else {
            assert forall|k: int| 0 <= k < s.drop_first().len() implies s.drop_first()[k].handle
                != h2 by {
                assert(s.drop_first()[k] == s[k + 1]);
            }
            lemma_remove_handle_free(s.drop_first(), h, h2);
            let rec = remove_handle(s.drop_first(), h);
            assert forall|k: int| 0 <= k < r.len() implies #[trigger] r[k].handle != h2 by {
                if k == 0 {
                    assert(r[0] == s[0]);
                } else {
                    assert(r[k] == rec[k - 1]);
                }
            }
        }
    }
}

/// A handle that resolves to a piece is itself below the arena's bound.
pub proof fn lemma_found_handle_below(s: Seq<Piece>, h: u64, bound: int)
    requires
        handles_below(s, bound),
        find_spec(s, h) is Some,
    ensures
        h < bound,
{
    lemma_find_spec_some(s, h);
    let p = find_spec(s, h)->Some_0;
    let k = choose|k: int| 0 <= k < s.len() && s[k] == p;
    assert(s[k].handle < bound);
}

/// In a well-formed arena, a found piece carries a valid tier.
pub proof fn lemma_find_spec_tier(s: Seq<Piece>, h: u64)
    requires
        tiers_valid(s),
        find_spec(s, h) is Some,
    ensures
        find_spec(s, h)->Some_0.tier < TIER_COUNT,
{
    lemma_find_spec_some(s, h);
    let p = find_spec(s, h)->Some_0;
    let k = choose|k: int| 0 <= k < s.len() && s[k] == p;
    assert(s[k].tier < TIER_COUNT);
}

/// First matching index of `h`, scanning from the front.
pub fn find_index(v: &Vec<Piece>, h: u64) -> (r: Option<usize>)
    ensures
        (match r {
            Some(i) => i < v@.len() && v@[i as int].handle == h && (forall|k: int|
                0 <= k < i ==> v@[k].handle != h) && find_spec(v@, h) == Some(v@[i as int]),
            None => find_spec(v@, h) is None,
        }),
{
    let mut i: usize = 0;
    while i < v.len()
        invariant
            i <= v@.len(),
            forall|k: int| 0 <= k < i ==> v@[k].handle != h,
        decreases v@.len() - i,
    {
        if v[i].handle == h {
            proof {
                lemma_find_spec_first(v@, h, i as int);
            }
            return Some(i);
        }
        i += 1;
    }
    proof {
        lemma_find_spec_none(v@, h);
    }
    None
}

/// Looks a piece up by handle; fails exactly when the handle is stale.
pub fn find_piece(v: &Vec<Piece>, h: u64) -> (r: Option<Piece>)
    ensures
        r == find_spec(v@, h),
{
    match find_index(v, h) {
        Some(i) => Some(v[i]),
        None => None,
    }
}

/// Destroys the piece with handle `h`, if it exists.
pub fn remove_piece(v: &mut Vec<Piece>, h: u64)
    ensures
        final(v)@ == remove_handle(old(v)@, h),
{
    match find_index(v, h) {
        Some(i) => {
            proof {
                lemma_remove_handle_at(v@, h, i as int);
            }
            v.remove(i);
            assert(v@ =~= old(v)@.subrange(0, i as int) + old(v)@.subrange(
                i as int + 1,
                old(v)@.len() as int,
            ));
        },
        None => {
            proof {
                lemma_remove_handle_len(v@, h);
            }
        },
    }
}

} // verus!
