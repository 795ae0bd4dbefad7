//! The state of a match that outlives a single frame.

use vstd::prelude::*;

verus! {

/// Whether the simulation stands still.
#[derive(Clone, Copy, Debug, PartialEq, Eq, Structural)]
pub struct PauseState {
    pub paused: bool,
}

impl Default for PauseState {
    fn default() -> (s: PauseState)
        ensures
            !s.paused,
    {
        PauseState { paused: false }
    }
}

/// The score. It never decreases.
#[derive(Clone, Copy, Debug, PartialEq, Eq, Structural)]
pub struct ScoreBoard {
    pub current_score: u32,
}

impl Default for ScoreBoard {
    fn default() -> (s: ScoreBoard)
        ensures
            s.current_score == 0,
    {
        ScoreBoard { current_score: 0 }
    }
}

impl ScoreBoard {
    /// The score as it is shown: a hundred points for each hit a destroyed
    /// block could take.
    pub open spec fn spec_displayed(&self) -> int {
        self.current_score * 100
    }

    pub fn displayed(&self) -> (shown: u64)
        ensures
            shown == self.spec_displayed(),
    {
        self.current_score as u64 * 100
    }
}

/// What is left of the level: blocks to destroy and lives to lose.
#[derive(Clone, Copy, Debug, PartialEq, Eq, Structural)]
pub struct LevelInfo {
    pub num_blocks_remaining: usize,
    pub num_lives_remaining: u32,
}

impl Default for LevelInfo {
    fn default() -> (s: LevelInfo)
        ensures
            s.num_blocks_remaining == 0,
            s.num_lives_remaining == 0,
    {
        LevelInfo { num_blocks_remaining: 0, num_lives_remaining: 0 }
    }
}

impl LevelInfo {
    /// The level is over when no life or no block is left.
    pub open spec fn spec_level_ended(&self) -> bool {
        self.num_lives_remaining == 0 || self.num_blocks_remaining == 0
    }

    #[verifier::when_used_as_spec(spec_level_ended)]
    pub fn level_ended(&self) -> (ended: bool)
        ensures
            ended == self.spec_level_ended(),
    {
        self.num_lives_remaining == 0 || self.num_blocks_remaining == 0
    }
}

} // verus!
