//! Deterministic fixed-point simulation core of a two-player paddle-and-ball game.
//!
//! Every length is an integer number of milli-pixels, every duration an integer
//! number of microseconds, and every unit direction is scaled by [`trig::UNIT`].
//! [`pong::Pong`] holds the whole state; [`pong::Pong::advance`] runs one fixed
//! step in order: controls, movement, collisions, then resets and phase changes.
pub mod ai_paddle;
pub mod ball;
pub mod collider;
pub mod field;
pub mod geometry;
pub mod paddle;
pub mod player;
pub mod pong;
pub mod reset;
pub mod rng;
pub mod score;
pub mod state;
pub mod trig;
pub mod wall;
