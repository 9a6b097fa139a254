//! The score counter: a single non-negative integer for one game session.

use vstd::prelude::*;

verus! {

/// The session's score. Spawns and merges add points; a session reset puts
/// it back to zero. The display layer only reads it.
pub struct ScoreTracker {
    total: u64,
}

impl View for ScoreTracker {
    type V = int;

    closed spec fn view(&self) -> int {
        self.total as int
    }
}

impl ScoreTracker {
    /// A fresh counter at zero.
    pub fn new() -> (s: ScoreTracker)
        ensures
            s@ == 0,
    {
        ScoreTracker { total: 0 }
    }

    /// Adds points to the counter. The bound only keeps the total inside a
    /// machine integer.
    pub fn add(&mut self, points: u64)
        requires
            old(self)@ + points <= u64::MAX,
        ensures
            final(self)@ == old(self)@ + points,
    {
        self.total = self.total + points;
    }

    /// Resets the counter to zero.
    pub fn reset(&mut self)
        ensures
            final(self)@ == 0,
    {
        self.total = 0;
    }

    /// The current score.
    pub fn current(&self) -> (r: u64)
        ensures
            r as int == self@,
    {
        self.total
    }
}

} // verus!
