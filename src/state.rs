//! The game phase state machine and the wait between a goal and the next round.
use vstd::prelude::*;
use crate::field::WAIT_BEFORE_ROUND;

verus! {

/// The current high-level mode of the match.
#[derive(Clone, Copy, Debug, PartialEq, Eq, Structural)]
pub enum GameState {
    Menu,
    Playing,
    Paused,
    WaitBeforeRound,
}

/// The phase after one step, from the phase at its start and what happened in
/// it. The menu gives way to play on any key; the pause control toggles between
/// play and pause; a goal during play starts the wait, and the end of the wait
/// resumes play. Everything else leaves the phase alone.
pub open spec fn next_phase(state: GameState, any_key: bool, pause: bool, goal: bool, wait_over: bool) -> GameState {
    match state {
        GameState::Menu => if any_key {
            GameState::Playing
        } else {
            GameState::Menu
        },
        GameState::Playing => if goal {
            GameState::WaitBeforeRound
        } else if pause {
            GameState::Paused
        } else {
            GameState::Playing
        },
        GameState::Paused => if pause {
            GameState::Playing
        } else {
            GameState::Paused
        },
        GameState::WaitBeforeRound => if wait_over {
            GameState::Playing
        } else {
            GameState::WaitBeforeRound
        },
    }
}

/// Phase predicates that gate the systems.
pub struct PongPlugin;

impl PongPlugin {
    pub fn is_playing(state: GameState) -> (r: bool)
        ensures
            r == (state == GameState::Playing),
    {
        state == GameState::Playing
    }

    pub fn in_menu(state: GameState) -> (r: bool)
        ensures
            r == (state == GameState::Menu),
    {
        state == GameState::Menu
    }

    /// Movement and collision run in the menu (as a preview) and during play.
    pub fn in_menu_or_playing(state: GameState) -> (r: bool)
        ensures
            r == (state == GameState::Menu || state == GameState::Playing),
    {
        state == GameState::Menu || state == GameState::Playing
    }

    /// The phase transition of one step.
    pub fn next_state(state: GameState, any_key: bool, pause: bool, goal: bool, wait_over: bool) -> (r: GameState)
        ensures
            r == next_phase(state, any_key, pause, goal, wait_over),
    {
        match state {
            GameState::Menu => if any_key {
                SplashScreenPlugin::toggle_splash(state, any_key)
            } else {
                state
            },
            GameState::Playing => if goal {
                GameState::WaitBeforeRound
            } else {
                PausePlugin::toggle_pause(state, pause)
            },
            GameState::Paused => PausePlugin::toggle_pause(state, pause),
            GameState::WaitBeforeRound => if wait_over {
                GameState::Playing
            } else {
                state
            },
        }
    }
}

/// The pause control.
pub struct PausePlugin;

impl PausePlugin {
    /// Toggles between play and pause when the control is pressed; in any other
    /// phase it does nothing.
    pub fn toggle_pause(state: GameState, pressed: bool) -> (r: GameState)
        ensures
            pressed && state == GameState::Playing ==> r == GameState::Paused,
            pressed && state == GameState::Paused ==> r == GameState::Playing,
            !pressed || (state != GameState::Playing && state != GameState::Paused) ==> r == state,
    {
        if pressed {
            match state {
                GameState::Playing => GameState::Paused,
                GameState::Paused => GameState::Playing,
                _ => state,
            }
        } else {
            state
        }
    }
}

/// The title screen.
pub struct SplashScreenPlugin;

impl SplashScreenPlugin {
    /// Any key pressed in the menu starts play.
    pub fn toggle_splash(state: GameState, key_pressed: bool) -> (r: GameState)
        ensures
            r == (if state == GameState::Menu && key_pressed {
                GameState::Playing
            } else {
                state
            }),
    {
        if state == GameState::Menu && key_pressed {
            GameState::Playing
        } else {
            state
        }
    }
}

/// Time spent waiting after a goal, in microseconds.
#[derive(Clone, Copy, Debug, PartialEq, Eq, Structural)]
pub struct WaitAfterGoalTimer {
    pub elapsed: u64,
}

/// One step of the wait: the phase and the elapsed time after a step of `dt`
/// microseconds. Only the wait phase advances the timer; reaching the full wait
/// resumes play and rewinds the timer.
pub open spec fn wait_step(state: GameState, elapsed: int, dt: int) -> (GameState, int) {
    if state == GameState::WaitBeforeRound {
        if elapsed + dt >= WAIT_BEFORE_ROUND {
            (GameState::Playing, 0)
        } else {
            (GameState::WaitBeforeRound, elapsed + dt)
        }
    } else {
        (state, elapsed)
    }
}

/// The phase and elapsed time after `k` steps of `dt` microseconds from the
/// start of a wait.
pub open spec fn waited(dt: int, k: nat) -> (GameState, int)
    decreases k,
{
    if k == 0 {
        (GameState::WaitBeforeRound, 0)
    } else {
        let prev = waited(dt, (k - 1) as nat);
        wait_step(prev.0, prev.1, dt)
    }
}

/// With steps of a fixed length, the wait after a goal is still on while less
/// than the full wait has elapsed, and play resumes at the first step that
/// reaches it: never before, and at most one step after.
pub proof fn lemma_wait_lasts(dt: int, k: nat)
    requires
        dt > 0,
    ensures
        k * dt < WAIT_BEFORE_ROUND ==> waited(dt, k) == (GameState::WaitBeforeRound, k * dt),
        k >= 1 && (k - 1) * dt < WAIT_BEFORE_ROUND <= k * dt ==> waited(dt, k).0 == GameState::Playing,
    decreases k,
{
    if k > 0 {
        let j = (k - 1) as nat;
        lemma_wait_lasts(dt, j);
        assert(k * dt == j * dt + dt) by (nonlinear_arith)
            requires
                j == k - 1,
        ;
        assert(j * dt >= 0) by (nonlinear_arith)
            requires
                dt > 0,
        ;
    } else {
        assert(k * dt == 0) by (nonlinear_arith)
            requires
                k == 0,
        ;
    }
}

impl WaitAfterGoalTimer {
    pub fn new() -> (r: WaitAfterGoalTimer)
        ensures
            r.elapsed == 0,
    {
        WaitAfterGoalTimer { elapsed: 0 }
    }

    /// Less than the full wait has elapsed.
    pub open spec fn wf(self) -> bool {
        self.elapsed < WAIT_BEFORE_ROUND
    }

    /// Advances the timer; reports whether the wait is over, and if so rewinds it.
    pub fn tick(&mut self, dt: u64) -> (finished: bool)
        requires
            old(self).wf(),
        ensures
            finished == (old(self).elapsed + dt >= WAIT_BEFORE_ROUND),
            finished ==> final(self).elapsed == 0,
            !finished ==> final(self).elapsed == old(self).elapsed + dt,
            final(self).wf(),
    {
        if dt >= WAIT_BEFORE_ROUND - self.elapsed {
            self.elapsed = 0;
            true
        } else {
            self.elapsed = self.elapsed + dt;
            false
        }
    }

    /// Runs the wait after a goal: in the wait phase, advances the timer and
    /// resumes play once the full wait has elapsed.
    pub fn pause_after_goal(state: GameState, timer: &mut WaitAfterGoalTimer, dt: u64) -> (r: GameState)
        requires
            old(timer).wf(),
        ensures
            (r, final(timer).elapsed as int) == wait_step(state, old(timer).elapsed as int, dt as int),
            final(timer).wf(),
    {
        if state == GameState::WaitBeforeRound {
            if timer.tick(dt) {
                GameState::Playing
            } else {
                state
            }
        } else {
            state
        }
    }
}

} // verus!
