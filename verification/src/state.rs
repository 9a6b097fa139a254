//! The game state machine's states.

use vstd::prelude::*;

verus! {

/// The three mutually exclusive game states.
///
/// The round starts in `InGame`. A merge of two maximum-tier pieces moves to
/// `Win`; a kill-zone sensor contact moves to `Lost`. Both are terminal until
/// an external restart action moves back to `InGame`.
#[derive(Clone, Copy, Debug, PartialEq, Eq, Structural)]
pub enum GameState {
    InGame,
    Win,
    Lost,
}

} // verus!
