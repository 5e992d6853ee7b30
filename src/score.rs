//! The match score.
use vstd::prelude::*;
use crate::reset::Reset;

verus! {

/// Goals scored by each side.
#[derive(Clone, Copy, Debug, PartialEq, Eq, Structural)]
pub struct Score {
    pub left: u64,
    pub right: u64,
}

impl Default for Score {
    fn default() -> (r: Score)
        ensures
            r.left == 0,
            r.right == 0,
    {
        Score { left: 0, right: 0 }
    }
}

/// Score systems.
pub struct ScorePlugin;

impl ScorePlugin {
    /// A hard reset clears both counters; a soft reset, or none, keeps them.
    pub fn handle_reset(reset: Option<Reset>, score: &mut Score)
        ensures
            reset == Some(Reset::Hard) ==> final(score).left == 0 && final(score).right == 0,
            reset != Some(Reset::Hard) ==> *final(score) == *old(score),
    {
        if let Some(Reset::Hard) = reset {
            score.left = 0;
            score.right = 0;
        }
    }
}

} // verus!
