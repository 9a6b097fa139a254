//! The game world and its tick-processing rules: the piece arena, the score,
//! the pending tier, the paddle, and the state machine, driven by the
//! collision events the physics collaborator delivers each simulation tick.

use vstd::prelude::*;
use crate::piece::{
    CollisionEvent, Piece, find_piece, find_spec, handles_below, handles_unique,
    lemma_find_spec_tier, lemma_remove_handle_preserves, remove_handle, remove_piece, tiers_valid,
};
use crate::rng::roll_low_tier;
use crate::score::ScoreTracker;
use crate::state::GameState;
use crate::{DROP_HEIGHT, LOW_TIER_RANGE, MAX_TIER, SPAWN_HALF_WIDTH, TIER_COUNT};

verus! {

/// The mathematical model of the whole game world.
#[verifier::ext_equal]
pub ghost struct GameModel {
    pub pieces: Seq<Piece>,
    pub score: int,
    pub pending: int,
    pub state: GameState,
    pub next_handle: int,
    pub paddle_x: int,
}

/// Well-formedness of the game world: the score is non-negative, the pending
/// tier is a low tier, handles are unique, below the next fresh handle and of
/// machine size, every tier is a catalog index, and the paddle sits inside
/// the spawn band.
pub open spec fn wf_model(g: GameModel) -> bool {
    &&& 0 <= g.score
    &&& 0 <= g.pending < LOW_TIER_RANGE
    &&& 0 <= g.next_handle <= u64::MAX
    &&& -SPAWN_HALF_WIDTH <= g.paddle_x <= SPAWN_HALF_WIDTH
    &&& handles_unique(g.pieces)
    &&& handles_below(g.pieces, g.next_handle)
    &&& tiers_valid(g.pieces)
}

/// A horizontal position clamped to the spawn band.
pub open spec fn clamp_spec(x: int) -> int {
    if x < -SPAWN_HALF_WIDTH {
        -SPAWN_HALF_WIDTH as int
    } else if x > SPAWN_HALF_WIDTH {
        SPAWN_HALF_WIDTH as int
    } else {
        x
    }
}

/// The piece a merge creates: the next tier up, at the position of the first
/// piece of the pair, under the world's next fresh handle.
pub open spec fn merged_piece(g: GameModel, a: Piece) -> Piece {
    Piece { handle: g.next_handle as u64, tier: (a.tier + 1) as usize, x: a.x, y: a.y }
}

/// What one simulation tick does to the world, processing `events` in
/// delivery order with `consumed` the handles already resolved this tick.
///
/// Following the per-event rules: a kill-zone sensor contact loses the round
/// and stops the tick; an event naming a consumed or unknown handle, one
/// piece twice, or two pieces of different tiers is stale and skipped; a
/// same-tier contact at the maximum tier destroys both pieces and wins the
/// round; any other same-tier contact is a merge, which destroys both
/// pieces, creates one piece of the next tier at the first piece's position
/// and scores it. Once the state has left `InGame`, remaining events are not
/// processed.
pub open spec fn tick_spec(g: GameModel, events: Seq<CollisionEvent>, consumed: Seq<u64>) -> GameModel
    decreases events.len(),
{
    if g.state != GameState::InGame || events.len() == 0 {
        g
    } else {
        let ev = events[0];
        let rest = events.drop_first();
        if ev.is_sensor {
            GameModel { state: GameState::Lost, ..g }
        } else if ev.a == ev.b || consumed.contains(ev.a) || consumed.contains(ev.b) {
            tick_spec(g, rest, consumed)
        } else {
            let pa = find_spec(g.pieces, ev.a);
            let pb = find_spec(g.pieces, ev.b);
            if pa is None || pb is None {
                tick_spec(g, rest, consumed)
            } else if pa->Some_0.tier != pb->Some_0.tier {
                tick_spec(g, rest, consumed)
            } else if pa->Some_0.tier == MAX_TIER {
                let g2 = GameModel {
                    pieces: remove_handle(remove_handle(g.pieces, ev.a), ev.b),
                    state: GameState::Win,
                    ..g
                };
                tick_spec(g2, rest, consumed.push(ev.a).push(ev.b))
            } else {
                let a = pa->Some_0;
                let g2 = GameModel {
                    pieces: remove_handle(remove_handle(g.pieces, ev.a), ev.b).push(
                        merged_piece(g, a),
                    ),
                    score: g.score + (a.tier + 2) * 10,
                    next_handle: g.next_handle + 1,
                    ..g
                };
                tick_spec(g2, rest, consumed.push(ev.a).push(ev.b))
            }
        }
    }
}

/// The game world. All mutation goes through the tick-processing routines
/// and the discrete user actions below; the display and physics layers only
/// read it.
pub struct Game {
    pieces: Vec<Piece>,
    score: ScoreTracker,
    pending_tier: usize,
    state: GameState,
    next_handle: u64,
    paddle_x: i64,
}

impl View for Game {
    type V = GameModel;

    closed spec fn view(&self) -> GameModel {
        GameModel {
            pieces: self.pieces@,
            score: self.score@,
            pending: self.pending_tier as int,
            state: self.state,
            next_handle: self.next_handle as int,
            paddle_x: self.paddle_x as int,
        }
    }
}

/// Clamps a drop or paddle position to the spawn band.
pub fn clamp_spawn_x(x: i64) -> (r: i64)
    ensures
        r as int == clamp_spec(x as int),
        -SPAWN_HALF_WIDTH <= r <= SPAWN_HALF_WIDTH,
{
    if x < -SPAWN_HALF_WIDTH {
        -SPAWN_HALF_WIDTH
    } else if x > SPAWN_HALF_WIDTH {
        SPAWN_HALF_WIDTH
    } else {
        x
    }
}

/// Whether `h` is in the per-tick consumed set.
fn contains_handle(v: &Vec<u64>, h: u64) -> (r: bool)
    ensures
        r == v@.contains(h),
{
    let mut i: usize = 0;
    while i < v.len()
        invariant
            i <= v@.len(),
            forall|k: int| 0 <= k < i ==> v@[k] != h,
        decreases v@.len() - i,
    {
        if v[i] == h {
            assert(v@[i as int] == h);
            return true;
        }
        i += 1;
    }
    false
}

impl Game {
    /// The world is well formed.
    pub open spec fn wf(&self) -> bool {
        wf_model(self@)
    }

    /// A fresh session with the given pending tier: no pieces, score zero,
    /// in game, paddle centred.
    pub fn new_with(pending: usize) -> (g: Game)
        requires
            pending < LOW_TIER_RANGE,
        ensures
            g.wf(),
            g@ == (GameModel {
                pieces: Seq::<Piece>::empty(),
                score: 0,
                pending: pending as int,
                state: GameState::InGame,
                next_handle: 0,
                paddle_x: 0,
            }),
    {
        Game {
            pieces: Vec::new(),
            score: ScoreTracker::new(),
            pending_tier: pending,
            state: GameState::InGame,
            next_handle: 0,
            paddle_x: 0,
        }
    }

    /// A fresh session, with the pending tier drawn from the low tiers.
    pub fn new() -> (g: Game)
        ensures
            g.wf(),
            g@.pieces == Seq::<Piece>::empty(),
            g@.score == 0,
            g@.state == GameState::InGame,
            0 <= g@.pending < LOW_TIER_RANGE,
            g@.next_handle == 0,
            g@.paddle_x == 0,
    {
        Game::new_with(roll_low_tier())
    }

    /// The score the display layer shows.
    pub fn score(&self) -> (r: u64)
        ensures
            r as int == self@.score,
    {
        self.score.current()
    }

    /// The active game state.
    pub fn state(&self) -> (r: GameState)
        ensures
            r == self@.state,
    {
        self.state
    }

    /// The tier the next user-triggered spawn will create.
    pub fn pending_tier(&self) -> (r: usize)
        ensures
            r as int == self@.pending,
    {
        self.pending_tier
    }

    /// The paddle's horizontal position.
    pub fn paddle_x(&self) -> (r: i64)
        ensures
            r as int == self@.paddle_x,
    {
        self.paddle_x
    }

    /// How many handles have ever been issued. Handles are never reused, so
    /// this only grows; it is also the next handle a created piece will get.
    pub fn handles_issued(&self) -> (r: u64)
        ensures
            r as int == self@.next_handle,
    {
        self.next_handle
    }

    /// How many pieces are in the arena.
    pub fn piece_count(&self) -> (r: usize)
        ensures
            r as int == self@.pieces.len(),
    {
        self.pieces.len()
    }

    /// The piece at arena position `i`, in creation order.
    pub fn piece_at(&self, i: usize) -> (r: Option<Piece>)
        ensures
            i < self@.pieces.len() ==> r == Some(self@.pieces[i as int]),
            i >= self@.pieces.len() ==> r is None,
    {
        if i < self.pieces.len() {
            Some(self.pieces[i])
        } else {
            None
        }
    }

    /// Looks a piece up by handle; `None` exactly when the handle is stale.
    pub fn get_piece(&self, h: u64) -> (r: Option<Piece>)
        ensures
            r == find_spec(self@.pieces, h),
    {
        find_piece(&self.pieces, h)
    }

    /// Tracks the pointer: moves the paddle to the pointer's position,
    /// clamped to the spawn band.
    pub fn set_paddle(&mut self, pointer_x: i64)
        requires
            old(self).wf(),
        ensures
            final(self).wf(),
            final(self)@ == (GameModel { paddle_x: clamp_spec(pointer_x as int), ..old(self)@ }),
    {
        self.paddle_x = clamp_spawn_x(pointer_x);
    }

    /// The external restart action. From `Win` or `Lost` it starts a new
    /// round: every piece is destroyed, the score is reset to zero, the
    /// paddle returns to its default, and play resumes. From `InGame` it is
    /// a no-op. Handles are never reused, so the fresh-handle counter keeps
    /// its value.
    pub fn restart(&mut self)
        requires
            old(self).wf(),
        ensures
            final(self).wf(),
            old(self)@.state == GameState::InGame ==> final(self)@ == old(self)@,
            old(self)@.state != GameState::InGame ==> final(self)@ == (GameModel {
                pieces: Seq::<Piece>::empty(),
                score: 0,
                state: GameState::InGame,
                paddle_x: 0,
                ..old(self)@
            }),
    {
        if self.state == GameState::InGame {
            return;
        }
        self.pieces = Vec::new();
        self.score.reset();
        self.state = GameState::InGame;
        self.paddle_x = 0;
    }

    /// The shared piece-creation routine: issues the next fresh handle and
    /// puts a piece of the given tier at the given position into the arena.
    /// Both the user's drop action and the collision resolver's merges go
    /// through it; it neither scores nor decides the game — creating a
    /// maximum-tier piece is not itself a win, since the win condition is
    /// defined at merge time only.
    pub fn create_piece(&mut self, tier: usize, x: i64, y: i64)
        requires
            old(self).wf(),
            tier < TIER_COUNT,
            old(self)@.next_handle < u64::MAX,
        ensures
            final(self).wf(),
            final(self)@ == (GameModel {
                pieces: old(self)@.pieces.push(
                    Piece { handle: old(self)@.next_handle as u64, tier, x, y },
                ),
                next_handle: old(self)@.next_handle + 1,
                ..old(self)@
            }),
    {
        let p = Piece { handle: self.next_handle, tier, x, y };
        self.pieces.push(p);
        self.next_handle = self.next_handle + 1;
        proof {
            let s = old(self)@.pieces;
            let r = self.pieces@;
            assert forall|i: int, j: int| 0 <= i < j < r.len() implies r[i].handle
                != r[j].handle by {
                if j < s.len() {
                    assert(r[i] == s[i]);
                    assert(r[j] == s[j]);
                } else {
                    assert(r[i] == s[i]);
                    assert(r[j] == p);
                }
            }
            assert forall|k: int| 0 <= k < r.len() implies #[trigger] r[k].handle
                < self@.next_handle by {
                if k < s.len() {
                    assert(r[k] == s[k]);
                }
            }
            assert forall|k: int| 0 <= k < r.len() implies #[trigger] r[k].tier < TIER_COUNT by {
                if k < s.len() {
                    assert(r[k] == s[k]);
                }
            }
        }
    }

    /// One simulation tick of the collision resolver: processes the tick's
    /// collision events in delivery order, exactly as `tick_spec` states.
    ///
    /// A per-tick consumed set makes merge resolution exactly-once per piece
    /// per tick: the physics collaborator batches removals until the end of
    /// its step, so one piece can appear in several events of the same tick,
    /// and without de-duplication a piece could be merged twice. Outside
    /// `InGame` the events are not processed at all. The two arithmetic
    /// bounds only keep the score and the handle counter inside machine
    /// integers: a merge scores at most 120 points and issues one handle.
    pub fn process_tick(&mut self, events: &Vec<CollisionEvent>)
        requires
            old(self).wf(),
            old(self)@.score + 120 * events@.len() <= u64::MAX,
            old(self)@.next_handle + events@.len() <= u64::MAX,
        ensures
            final(self).wf(),
            final(self)@ == tick_spec(old(self)@, events@, Seq::<u64>::empty()),
    {
        let ghost g0 = self@;
        let ghost all = events@;
        let mut consumed: Vec<u64> = Vec::new();
        let mut idx: usize = 0;
        proof {
            assert(all.skip(0) =~= all);
        }
        while idx < events.len()
            invariant
                self.wf(),
                idx <= all.len(),
                events@ == all,
                g0.score + 120 * all.len() <= u64::MAX,
                g0.next_handle + all.len() <= u64::MAX,
                self@.score <= g0.score + 120 * idx,
                self@.next_handle <= g0.next_handle + idx,
                tick_spec(g0, all, Seq::<u64>::empty()) == tick_spec(
                    self@,
                    all.skip(idx as int),
                    consumed@,
                ),
            decreases all.len() - idx,
        {
            let ghost pre = self@;
            let ghost cpre = consumed@;
            let ghost rem = all.skip(idx as int);
            proof {
                assert(rem[0] == all[idx as int]);
                assert(rem.drop_first() =~= all.skip(idx as int + 1));
            }
            let ev = events[idx];
            let in_game = self.state == GameState::InGame;
            if in_game {
                if ev.is_sensor {
                    // a loss ends the round at once; the remaining events of
                    // this tick are irrelevant
                    self.state = GameState::Lost;
                    proof {
                        assert(self@ =~= (GameModel { state: GameState::Lost, ..pre }));
                    }
                } else {
                    let stale = ev.a == ev.b || contains_handle(&consumed, ev.a)
                        || contains_handle(&consumed, ev.b);
                    if !stale {
                        let pa = find_piece(&self.pieces, ev.a);
                        let pb = find_piece(&self.pieces, ev.b);
                        match (pa, pb) {
                            (Some(a), Some(b)) => {
                                if a.tier == b.tier {
                                    proof {
                                        lemma_find_spec_tier(pre.pieces, ev.a);
                                    }
                                    if a.tier == MAX_TIER {
                                        // the winning merge: both pieces go,
                                        // nothing replaces them, no score
                                        remove_piece(&mut self.pieces, ev.a);
                                        remove_piece(&mut self.pieces, ev.b);
                                        self.state = GameState::Win;
                                        consumed.push(ev.a);
                                        consumed.push(ev.b);
                                        proof {
                                            lemma_remove_handle_preserves(
                                                pre.pieces,
                                                ev.a,
                                                pre.next_handle,
                                            );
                                            lemma_remove_handle_preserves(
                                                remove_handle(pre.pieces, ev.a),
                                                ev.b,
                                                pre.next_handle,
                                            );
                                            assert(self@ =~= (GameModel {
                                                pieces: remove_handle(
                                                    remove_handle(pre.pieces, ev.a),
                                                    ev.b,
                                                ),
                                                state: GameState::Win,
                                                ..pre
                                            }));
                                            assert(consumed@ == cpre.push(ev.a).push(ev.b));
                                        }
                                    } else {
                                        // an ordinary merge: both pieces go,
                                        // one piece of the next tier appears
                                        // at the first piece's position
                                        remove_piece(&mut self.pieces, ev.a);
                                        remove_piece(&mut self.pieces, ev.b);
                                        proof {
                                            lemma_remove_handle_preserves(
                                                pre.pieces,
                                                ev.a,
                                                pre.next_handle,
                                            );
                                            lemma_remove_handle_preserves(
                                                remove_handle(pre.pieces, ev.a),
                                                ev.b,
                                                pre.next_handle,
                                            );
                                        }
                                        self.create_piece(a.tier + 1, a.x, a.y);
                                        self.score.add((a.tier as u64 + 2) * 10);
                                        consumed.push(ev.a);
                                        consumed.push(ev.b);
                                        proof {
                                            assert(self@ =~= (GameModel {
                                                pieces: remove_handle(
                                                    remove_handle(pre.pieces, ev.a),
                                                    ev.b,
                                                ).push(merged_piece(pre, a)),
                                                score: pre.score + (a.tier + 2) * 10,
                                                next_handle: pre.next_handle + 1,
                                                ..pre
                                            }));
                                            assert(consumed@ == cpre.push(ev.a).push(ev.b));
                                        }
                                    }
                                }
                            },
                            _ => {},
                        }
                    }
                }
            }
            idx += 1;
        }
        proof {
            assert(all.skip(all.len() as int) =~= Seq::<CollisionEvent>::empty());
        }
    }

    /// The user's drop action, with the re-rolled pending tier passed in.
    ///
    /// Creates exactly one piece of the pending tier at the clamped drop
    /// position and the drop height, scores `(pendingTier + 1) * 10`, and
    /// then makes `next_pending` the new pending tier. A drop never wins by
    /// itself: the win condition is defined at merge time only, and the
    /// pending tier is always a low tier.
    pub fn request_spawn_with(&mut self, drop_x: i64, next_pending: usize)
        requires
            old(self).wf(),
            old(self)@.state == GameState::InGame,
            next_pending < LOW_TIER_RANGE,
            old(self)@.score + 30 <= u64::MAX,
            old(self)@.next_handle < u64::MAX,
        ensures
            final(self).wf(),
            final(self)@.pieces == old(self)@.pieces.push(
                Piece {
                    handle: old(self)@.next_handle as u64,
                    tier: old(self)@.pending as usize,
                    x: clamp_spec(drop_x as int) as i64,
                    y: DROP_HEIGHT,
                },
            ),
            final(self)@.score == old(self)@.score + (old(self)@.pending + 1) * 10,
            final(self)@.pending == next_pending as int,
            final(self)@.next_handle == old(self)@.next_handle + 1,
            final(self)@.state == old(self)@.state,
            final(self)@.paddle_x == old(self)@.paddle_x,
    {
        let x = clamp_spawn_x(drop_x);
        let tier = self.pending_tier;
        self.create_piece(tier, x, DROP_HEIGHT);
        self.score.add((tier as u64 + 1) * 10);
        self.pending_tier = next_pending;
    }

    /// The user's drop action: spawns the pending tier at the clamped drop
    /// position, scores it, and re-rolls the pending tier from the low
    /// tiers.
    pub fn request_spawn(&mut self, drop_x: i64)
        requires
            old(self).wf(),
            old(self)@.state == GameState::InGame,
            old(self)@.score + 30 <= u64::MAX,
            old(self)@.next_handle < u64::MAX,
        ensures
            final(self).wf(),
            final(self)@.pieces == old(self)@.pieces.push(
                Piece {
                    handle: old(self)@.next_handle as u64,
                    tier: old(self)@.pending as usize,
                    x: clamp_spec(drop_x as int) as i64,
                    y: DROP_HEIGHT,
                },
            ),
            final(self)@.score == old(self)@.score + (old(self)@.pending + 1) * 10,
            0 <= final(self)@.pending < LOW_TIER_RANGE,
            final(self)@.next_handle == old(self)@.next_handle + 1,
            final(self)@.state == old(self)@.state,
            final(self)@.paddle_x == old(self)@.paddle_x,
    {
        let next_pending = roll_low_tier();
        self.request_spawn_with(drop_x, next_pending);
    }
}

} // verus!
