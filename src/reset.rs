//! Reset signals: a re-serve after a goal, or a full match restart.
use vstd::prelude::*;
use crate::state::GameState;

verus! {

/// A reset request. `Soft` re-serves the ball; `Hard` also restores the paddles
/// and clears the score.
#[derive(Clone, Copy, Debug, PartialEq, Eq, Structural)]
pub enum Reset {
    Soft,
    Hard,
}

/// The reset that is honoured among those queued in one step: the last one.
pub open spec fn honoured(queue: Seq<Reset>) -> Option<Reset> {
    if queue.len() == 0 {
        None
    } else {
        Some(queue.last())
    }
}

/// Drains a step's reset queue: only the most recent request counts.
pub fn last_reset(queue: &Vec<Reset>) -> (r: Option<Reset>)
    ensures
        r == honoured(queue@),
{
    if queue.len() == 0 {
        None
    } else {
        Some(queue[queue.len() - 1])
    }
}

/// The full-reset control.
pub struct ResetPlugin;

impl ResetPlugin {
    /// The full-reset control asks for a hard reset, during play only.
    pub fn hard_reset_on_keypress(state: GameState, pressed: bool) -> (r: Option<Reset>)
        ensures
            r == (if pressed && state == GameState::Playing {
                Some(Reset::Hard)
            } else {
                None
            }),
    {
        if pressed && state == GameState::Playing {
            Some(Reset::Hard)
        } else {
            None
        }
    }
}

} // verus!
