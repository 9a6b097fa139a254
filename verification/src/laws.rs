//! The general guarantees of the tick-processing rules, stated and proved
//! over the world model. Each is a consequence of `tick_spec`, which
//! `Game::process_tick` is proved to implement exactly.

use vstd::prelude::*;
use crate::game::{GameModel, merged_piece, tick_spec, wf_model};
use crate::piece::{
    CollisionEvent, find_spec, lemma_find_after_remove, lemma_found_handle_below,
    lemma_remove_handle_free, lemma_remove_handle_gone, lemma_remove_handle_len,
    lemma_remove_handle_preserves, remove_handle,
};
use crate::state::GameState;
use crate::MAX_TIER;

verus! {

/// Processing a tick with no collision events changes no core state, in
/// whatever state and with whatever consumed set the tick starts.
pub proof fn lemma_empty_tick(g: GameModel, consumed: Seq<u64>)
    ensures
        tick_spec(g, Seq::<CollisionEvent>::empty(), consumed) == g,
{
}

/// A kill-zone sensor contact loses the round regardless of which pieces
/// triggered it: the state becomes `Lost`, the arena, score, pending tier
/// and paddle are untouched, and none of the remaining events of the tick is
/// processed — in particular, a merge event ordered after it has no effect.
pub proof fn lemma_kill_zone(
    g: GameModel,
    ev: CollisionEvent,
    rest: Seq<CollisionEvent>,
    consumed: Seq<u64>,
)
    requires
        g.state == GameState::InGame,
        ev.is_sensor,
    ensures
        tick_spec(g, seq![ev] + rest, consumed) == (GameModel { state: GameState::Lost, ..g }),
{
    let events = seq![ev] + rest;
    assert(events[0] == ev);
}

/// A stale or malformed event is skipped without any effect: one that names
/// a handle already consumed by an earlier merge of the same tick, one piece
/// twice, a piece that no longer exists, or two pieces of different tiers.
/// The rest of the tick proceeds as if the event were not there.
pub proof fn lemma_stale_skip(
    g: GameModel,
    ev: CollisionEvent,
    rest: Seq<CollisionEvent>,
    consumed: Seq<u64>,
)
    requires
        g.state == GameState::InGame,
        !ev.is_sensor,
        ev.a == ev.b || consumed.contains(ev.a) || consumed.contains(ev.b) || find_spec(
            g.pieces,
            ev.a,
        ) is None || find_spec(g.pieces, ev.b) is None || find_spec(g.pieces, ev.a)->Some_0.tier
            != find_spec(g.pieces, ev.b)->Some_0.tier,
    ensures
        tick_spec(g, seq![ev] + rest, consumed) == tick_spec(g, rest, consumed),
{
    let events = seq![ev] + rest;
    assert(events[0] == ev);
    assert(events.drop_first() =~= rest);
}

/// For every tier below the maximum: merging two pieces of that tier
/// destroys both, creates exactly one piece — of the next tier, at the first
/// piece's position, under a fresh handle — and adds `(t + 2) * 10` to the
/// score, where `t + 1` is the created tier. State, pending tier and paddle
/// are untouched.
pub proof fn lemma_merge(g: GameModel, ev: CollisionEvent)
    requires
        wf_model(g),
        g.state == GameState::InGame,
        g.next_handle < u64::MAX,
        !ev.is_sensor,
        ev.a != ev.b,
        find_spec(g.pieces, ev.a) is Some,
        find_spec(g.pieces, ev.b) is Some,
        find_spec(g.pieces, ev.a)->Some_0.tier == find_spec(g.pieces, ev.b)->Some_0.tier,
        find_spec(g.pieces, ev.a)->Some_0.tier < MAX_TIER,
    ensures
        ({
            let r = tick_spec(g, seq![ev], Seq::<u64>::empty());
            let a = find_spec(g.pieces, ev.a)->Some_0;
            let merged = merged_piece(g, a);
            &&& r.pieces == remove_handle(remove_handle(g.pieces, ev.a), ev.b).push(merged)
            &&& r.pieces.len() == g.pieces.len() - 1
            &&& r.pieces.last() == merged
            &&& merged.tier == a.tier + 1
            &&& merged.x == a.x
            &&& merged.y == a.y
            &&& forall|k: int|
                0 <= k < r.pieces.len() ==> #[trigger] r.pieces[k].handle != ev.a
                    && r.pieces[k].handle != ev.b
            &&& r.score == g.score + (a.tier + 2) * 10
            &&& r.state == GameState::InGame
            &&& r.pending == g.pending
            &&& r.next_handle == g.next_handle + 1
        }),
{
    let events = seq![ev];
    assert(events[0] == ev);
    assert(events.drop_first() =~= Seq::<CollisionEvent>::empty());
    assert(!Seq::<u64>::empty().contains(ev.a));
    assert(!Seq::<u64>::empty().contains(ev.b));
    let a = find_spec(g.pieces, ev.a)->Some_0;
    let s1 = remove_handle(g.pieces, ev.a);
    let s2 = remove_handle(s1, ev.b);
    let merged = merged_piece(g, a);
    let g2 = GameModel {
        pieces: s2.push(merged),
        score: g.score + (a.tier + 2) * 10,
        next_handle: g.next_handle + 1,
        ..g
    };
    assert(tick_spec(g, events, Seq::<u64>::empty()) == tick_spec(
        g2,
        events.drop_first(),
        Seq::<u64>::empty().push(ev.a).push(ev.b),
    ));
    assert(tick_spec(g2, events.drop_first(), Seq::<u64>::empty().push(ev.a).push(ev.b)) == g2);
    lemma_remove_handle_len(g.pieces, ev.a);
    lemma_find_after_remove(g.pieces, ev.a, ev.b);
    lemma_remove_handle_len(s1, ev.b);
    lemma_remove_handle_preserves(g.pieces, ev.a, g.next_handle);
    lemma_remove_handle_gone(g.pieces, ev.a);
    lemma_remove_handle_free(s1, ev.b, ev.a);
    lemma_remove_handle_gone(s1, ev.b);
    lemma_found_handle_below(g.pieces, ev.a, g.next_handle);
    lemma_found_handle_below(g.pieces, ev.b, g.next_handle);
    let r = tick_spec(g, events, Seq::<u64>::empty());
    let merged = merged_piece(g, a);
    assert(r.pieces == s2.push(merged));
    assert forall|k: int|
        0 <= k < r.pieces.len() implies #[trigger] r.pieces[k].handle != ev.a
            && r.pieces[k].handle != ev.b by {
        if k < s2.len() {
            assert(r.pieces[k] == s2[k]);
        } else {
            assert(r.pieces[k] == merged);
        }
    }
}

/// Merging two pieces of the maximum tier destroys both, creates no new
/// piece, adds no score, and wins the round. Pending tier, paddle and the
/// handle counter are untouched.
pub proof fn lemma_max_merge(g: GameModel, ev: CollisionEvent)
    requires
        wf_model(g),
        g.state == GameState::InGame,
        !ev.is_sensor,
        ev.a != ev.b,
        find_spec(g.pieces, ev.a) is Some,
        find_spec(g.pieces, ev.b) is Some,
        find_spec(g.pieces, ev.a)->Some_0.tier == find_spec(g.pieces, ev.b)->Some_0.tier,
        find_spec(g.pieces, ev.a)->Some_0.tier == MAX_TIER,
    ensures
        ({
            let r = tick_spec(g, seq![ev], Seq::<u64>::empty());
            &&& r.pieces == remove_handle(remove_handle(g.pieces, ev.a), ev.b)
            &&& r.pieces.len() == g.pieces.len() - 2
            &&& forall|k: int|
                0 <= k < r.pieces.len() ==> #[trigger] r.pieces[k].handle != ev.a
                    && r.pieces[k].handle != ev.b
            &&& r.score == g.score
            &&& r.state == GameState::Win
            &&& r.pending == g.pending
            &&& r.next_handle == g.next_handle
        }),
{
    let events = seq![ev];
    assert(events[0] == ev);
    assert(events.drop_first() =~= Seq::<CollisionEvent>::empty());
    assert(!Seq::<u64>::empty().contains(ev.a));
    assert(!Seq::<u64>::empty().contains(ev.b));
    let s1 = remove_handle(g.pieces, ev.a);
    let s2 = remove_handle(s1, ev.b);
    let g2 = GameModel { pieces: s2, state: GameState::Win, ..g };
    assert(tick_spec(g, events, Seq::<u64>::empty()) == tick_spec(
        g2,
        events.drop_first(),
        Seq::<u64>::empty().push(ev.a).push(ev.b),
    ));
    assert(tick_spec(g2, events.drop_first(), Seq::<u64>::empty().push(ev.a).push(ev.b)) == g2);
    lemma_remove_handle_len(g.pieces, ev.a);
    lemma_find_after_remove(g.pieces, ev.a, ev.b);
    lemma_remove_handle_len(s1, ev.b);
    lemma_remove_handle_preserves(g.pieces, ev.a, g.next_handle);
    lemma_remove_handle_gone(g.pieces, ev.a);
    lemma_remove_handle_free(s1, ev.b, ev.a);
    lemma_remove_handle_gone(s1, ev.b);
}

} // verus!
