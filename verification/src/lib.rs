//! Core logic of a physics-driven merge puzzle game: the player drops tiered
//! circular pieces into a walled arena; two colliding pieces of the same tier
//! fuse into one piece of the next tier; reaching the top tier wins, while a
//! piece settling in the kill-zone below the arena loses.
//!
//! This crate holds the merge/collision-resolution engine and the game state
//! machine. Physics simulation, rendering and input are external
//! collaborators: they hand the core plain values (collision events, a drop
//! position) and read plain values back (the piece arena, the score, the
//! game state).

use vstd::prelude::*;

pub mod game;
pub mod laws;
pub mod piece;
pub mod rng;
pub mod score;
pub mod state;
pub mod tier;

verus! {

/// Number of tiers in the catalog; the highest tier wins the game.
pub const TIER_COUNT: usize = 12;

/// Index of the highest (winning) tier.
pub const MAX_TIER: usize = 11;

/// Radius of a maximum-size piece, in world units; a tier's piece radius is
/// its per-mille size ratio applied to this.
pub const MAX_PIECE_RADIUS: u32 = 200;

/// Half-width of the horizontal band in which pieces may be dropped; drop
/// positions are clamped to `[-SPAWN_HALF_WIDTH, SPAWN_HALF_WIDTH]`.
pub const SPAWN_HALF_WIDTH: i64 = 425;

/// Height, in world units, at which a user-dropped piece appears.
pub const DROP_HEIGHT: i64 = 1000;

/// Number of low tiers the pending tier is drawn from: the next user drop is
/// always one of tiers `0 .. LOW_TIER_RANGE`.
pub const LOW_TIER_RANGE: usize = 3;

} // verus!
