use suika_core::game::{clamp_spawn_x, Game};
use suika_core::piece::CollisionEvent;
use suika_core::state::GameState;
use suika_core::{DROP_HEIGHT, LOW_TIER_RANGE, MAX_TIER, SPAWN_HALF_WIDTH};

fn solid(a: u64, b: u64) -> CollisionEvent {
    CollisionEvent {
        a,
        b,
        is_sensor: false,
    }
}

fn sensor(a: u64, b: u64) -> CollisionEvent {
    CollisionEvent {
        a,
        b,
        is_sensor: true,
    }
}

#[test]
fn a_fresh_session_is_empty_and_in_game() {
    let g = Game::new_with(1);
    assert_eq!(g.score(), 0);
    assert_eq!(g.piece_count(), 0);
    assert_eq!(g.state(), GameState::InGame);
    assert_eq!(g.pending_tier(), 1);
    assert_eq!(g.paddle_x(), 0);
}

#[test]
fn a_random_session_pends_a_low_tier() {
    let g = Game::new();
    assert!(g.pending_tier() < LOW_TIER_RANGE);
    assert_eq!(g.score(), 0);
    assert_eq!(g.piece_count(), 0);
    assert_eq!(g.state(), GameState::InGame);
}

#[test]
fn drop_a_tier0_piece_at_the_center() {
    let mut g = Game::new_with(0);
    g.request_spawn_with(0, 2);
    assert_eq!(g.piece_count(), 1);
    let p = g.piece_at(0).unwrap();
    assert_eq!(p.tier, 0);
    assert_eq!(p.x, 0);
    assert_eq!(p.y, DROP_HEIGHT);
    assert_eq!(g.score(), 10);
    assert!(g.pending_tier() < LOW_TIER_RANGE);
}

#[test]
fn spawns_score_by_the_pending_tier() {
    let mut g = Game::new_with(2);
    g.request_spawn_with(50, 0);
    assert_eq!(g.score(), 30);
    let p = g.piece_at(0).unwrap();
    assert_eq!(p.tier, 2);
    assert_eq!(g.pending_tier(), 0);
}

#[test]
fn drop_positions_are_clamped_to_the_spawn_band() {
    assert_eq!(clamp_spawn_x(10_000), SPAWN_HALF_WIDTH);
    assert_eq!(clamp_spawn_x(-10_000), -SPAWN_HALF_WIDTH);
    assert_eq!(clamp_spawn_x(17), 17);
    assert_eq!(clamp_spawn_x(SPAWN_HALF_WIDTH), SPAWN_HALF_WIDTH);

    let mut g = Game::new_with(0);
    g.request_spawn_with(99_999, 0);
    g.request_spawn_with(-99_999, 0);
    assert_eq!(g.piece_at(0).unwrap().x, SPAWN_HALF_WIDTH);
    assert_eq!(g.piece_at(1).unwrap().x, -SPAWN_HALF_WIDTH);
}

#[test]
fn rerolled_pending_tiers_cover_the_low_tiers() {
    let mut g = Game::new_with(0);
    let mut seen = [false; 3];
    for _ in 0..200 {
        g.request_spawn(0);
        let pending = g.pending_tier();
        assert!(pending < LOW_TIER_RANGE);
        seen[pending] = true;
    }
    assert!(seen[0] && seen[1] && seen[2]);
}

#[test]
fn the_paddle_tracks_the_pointer_clamped() {
    let mut g = Game::new_with(0);
    g.set_paddle(123);
    assert_eq!(g.paddle_x(), 123);
    g.set_paddle(4_000);
    assert_eq!(g.paddle_x(), SPAWN_HALF_WIDTH);
    g.set_paddle(-4_000);
    assert_eq!(g.paddle_x(), -SPAWN_HALF_WIDTH);
}

#[test]
fn two_tier0_pieces_merge_into_one_tier1_piece() {
    let mut g = Game::new_with(0);
    g.request_spawn_with(-100, 0);
    g.request_spawn_with(100, 0);
    assert_eq!(g.score(), 20);
    g.process_tick(&vec![solid(0, 1)]);
    assert_eq!(g.piece_count(), 1);
    let p = g.piece_at(0).unwrap();
    assert_eq!(p.tier, 1);
    // at the first piece's position, under a fresh handle
    assert_eq!(p.x, -100);
    assert_eq!(p.y, DROP_HEIGHT);
    assert_eq!(p.handle, 2);
    assert!(g.get_piece(0).is_none());
    assert!(g.get_piece(1).is_none());
    // score += (0 + 2) * 10
    assert_eq!(g.score(), 40);
    assert_eq!(g.state(), GameState::InGame);
}

#[test]
fn the_merged_piece_sits_at_the_events_first_handle() {
    let mut g = Game::new_with(0);
    g.request_spawn_with(-100, 0);
    g.request_spawn_with(100, 0);
    g.process_tick(&vec![solid(1, 0)]);
    let p = g.piece_at(0).unwrap();
    assert_eq!(p.x, 100);
}

#[test]
fn contacts_of_different_tiers_are_ignored() {
    let mut g = Game::new_with(0);
    g.request_spawn_with(0, 1);
    g.request_spawn_with(0, 0);
    assert_eq!(g.piece_at(0).unwrap().tier, 0);
    assert_eq!(g.piece_at(1).unwrap().tier, 1);
    let score = g.score();
    g.process_tick(&vec![solid(0, 1)]);
    assert_eq!(g.piece_count(), 2);
    assert_eq!(g.score(), score);
    assert_eq!(g.state(), GameState::InGame);
}

#[test]
fn stale_and_malformed_events_are_ignored() {
    let mut g = Game::new_with(0);
    g.request_spawn_with(0, 0);
    let score = g.score();
    // unknown handles, and an event naming one piece twice
    g.process_tick(&vec![solid(5, 7), solid(0, 0)]);
    assert_eq!(g.piece_count(), 1);
    assert_eq!(g.score(), score);
    assert_eq!(g.state(), GameState::InGame);
}

#[test]
fn three_way_contact_merges_exactly_once() {
    let mut g = Game::new_with(0);
    g.request_spawn_with(-200, 0);
    g.request_spawn_with(0, 0);
    g.request_spawn_with(200, 0);
    assert_eq!(g.score(), 30);
    // three tier-0 pieces in mutual contact; only the first event merges,
    // the other two name consumed pieces and are skipped as stale
    g.process_tick(&vec![solid(0, 1), solid(1, 2), solid(0, 2)]);
    assert_eq!(g.piece_count(), 2);
    let survivor = g.piece_at(0).unwrap();
    assert_eq!(survivor.handle, 2);
    assert_eq!(survivor.tier, 0);
    let merged = g.piece_at(1).unwrap();
    assert_eq!(merged.handle, 3);
    assert_eq!(merged.tier, 1);
    assert_eq!(merged.x, -200);
    assert_eq!(g.score(), 50);
    assert_eq!(g.state(), GameState::InGame);
}

#[test]
fn an_empty_tick_changes_nothing() {
    let mut g = Game::new_with(1);
    g.request_spawn_with(42, 2);
    let score = g.score();
    let count = g.piece_count();
    let pending = g.pending_tier();
    g.process_tick(&Vec::new());
    assert_eq!(g.score(), score);
    assert_eq!(g.piece_count(), count);
    assert_eq!(g.pending_tier(), pending);
    assert_eq!(g.state(), GameState::InGame);
}

#[test]
fn a_kill_zone_contact_loses_the_round() {
    let mut g = Game::new_with(0);
    g.request_spawn_with(0, 0);
    g.process_tick(&vec![sensor(0, 99)]);
    assert_eq!(g.state(), GameState::Lost);
    // the arena is cleared on restart, not on the loss itself
    assert_eq!(g.piece_count(), 1);
    assert_eq!(g.score(), 10);
}

#[test]
fn the_kill_zone_loses_whatever_pieces_triggered_it() {
    let mut g = Game::new_with(0);
    g.process_tick(&vec![sensor(123, 456)]);
    assert_eq!(g.state(), GameState::Lost);
}

#[test]
fn a_loss_stops_the_ticks_event_processing() {
    let mut g = Game::new_with(0);
    g.request_spawn_with(-50, 0);
    g.request_spawn_with(50, 0);
    let score = g.score();
    // an unrelated same-tier merge event is ordered after the sensor
    // contact; it must not be processed
    g.process_tick(&vec![sensor(7, 8), solid(0, 1)]);
    assert_eq!(g.state(), GameState::Lost);
    assert_eq!(g.piece_count(), 2);
    assert_eq!(g.score(), score);
    assert_eq!(g.piece_at(0).unwrap().tier, 0);
    assert_eq!(g.piece_at(1).unwrap().tier, 0);
}

#[test]
fn merging_two_maximum_tier_pieces_wins() {
    let mut g = Game::new_with(0);
    g.create_piece(MAX_TIER, -10, 0);
    g.create_piece(MAX_TIER, 10, 0);
    assert_eq!(g.score(), 0);
    g.process_tick(&vec![solid(0, 1)]);
    assert_eq!(g.state(), GameState::Win);
    // both destroyed, no replacement piece, no score
    assert_eq!(g.piece_count(), 0);
    assert!(g.get_piece(0).is_none());
    assert!(g.get_piece(1).is_none());
    assert!(g.get_piece(2).is_none());
    assert_eq!(g.score(), 0);
}

#[test]
fn events_after_the_winning_merge_are_not_processed() {
    let mut g = Game::new_with(0);
    g.create_piece(MAX_TIER, -10, 0);
    g.create_piece(MAX_TIER, 10, 0);
    g.request_spawn_with(-50, 0);
    g.request_spawn_with(50, 0);
    g.process_tick(&vec![solid(0, 1), solid(2, 3)]);
    assert_eq!(g.state(), GameState::Win);
    // the winning merge ends the round; the tier-0 pair is left alone
    assert_eq!(g.piece_count(), 2);
    assert_eq!(g.piece_at(0).unwrap().tier, 0);
    assert_eq!(g.piece_at(1).unwrap().tier, 0);
    assert_eq!(g.score(), 20);
}

#[test]
fn ticks_outside_in_game_are_not_processed() {
    let mut g = Game::new_with(0);
    g.request_spawn_with(-50, 0);
    g.request_spawn_with(50, 0);
    g.process_tick(&vec![sensor(0, 1)]);
    assert_eq!(g.state(), GameState::Lost);
    let score = g.score();
    g.process_tick(&vec![solid(0, 1)]);
    assert_eq!(g.state(), GameState::Lost);
    assert_eq!(g.piece_count(), 2);
    assert_eq!(g.score(), score);
}

#[test]
fn restart_from_lost_starts_a_fresh_round() {
    let mut g = Game::new_with(2);
    g.request_spawn_with(0, 1);
    g.set_paddle(300);
    g.process_tick(&vec![sensor(0, 1)]);
    assert_eq!(g.state(), GameState::Lost);
    g.restart();
    assert_eq!(g.state(), GameState::InGame);
    assert_eq!(g.score(), 0);
    assert_eq!(g.piece_count(), 0);
    assert_eq!(g.paddle_x(), 0);
    // the pending tier carries over
    assert_eq!(g.pending_tier(), 1);
}

#[test]
fn restart_from_win_starts_a_fresh_round() {
    let mut g = Game::new_with(0);
    g.create_piece(MAX_TIER, -10, 0);
    g.create_piece(MAX_TIER, 10, 0);
    g.request_spawn_with(0, 0);
    g.process_tick(&vec![solid(0, 1)]);
    assert_eq!(g.state(), GameState::Win);
    g.restart();
    assert_eq!(g.state(), GameState::InGame);
    assert_eq!(g.score(), 0);
    assert_eq!(g.piece_count(), 0);
}

#[test]
fn restart_in_game_is_a_no_op() {
    let mut g = Game::new_with(0);
    g.request_spawn_with(25, 1);
    g.set_paddle(100);
    g.restart();
    assert_eq!(g.state(), GameState::InGame);
    assert_eq!(g.score(), 10);
    assert_eq!(g.piece_count(), 1);
    assert_eq!(g.piece_at(0).unwrap().x, 25);
    assert_eq!(g.paddle_x(), 100);
    assert_eq!(g.pending_tier(), 1);
}

#[test]
fn handles_are_never_reused_across_a_restart() {
    let mut g = Game::new_with(0);
    g.request_spawn_with(0, 0);
    g.process_tick(&vec![sensor(0, 0)]);
    g.restart();
    g.request_spawn_with(0, 0);
    // the piece of the new round continues the handle sequence
    assert_eq!(g.piece_at(0).unwrap().handle, 1);
}

#[test]
fn merges_climb_one_tier_at_a_time() {
    let mut g = Game::new_with(1);
    g.request_spawn_with(-100, 1);
    g.request_spawn_with(100, 0);
    g.process_tick(&vec![solid(0, 1)]);
    // two tier-1 pieces became one tier-2 piece: 20 + 20 spawn points
    // and (1 + 2) * 10 merge points
    assert_eq!(g.score(), 70);
    let p = g.piece_at(0).unwrap();
    assert_eq!(p.tier, 2);
    g.create_piece(2, 0, 0);
    g.process_tick(&vec![solid(2, 3)]);
    assert_eq!(g.piece_at(0).unwrap().tier, 3);
    // the tier-2 merge adds (2 + 2) * 10
    assert_eq!(g.score(), 110);
}
