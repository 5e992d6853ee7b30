//! Fixed dimensions and speeds of the playing field, in milli-pixels and
//! microseconds.
use vstd::prelude::*;

verus! {

/// Width of the field.
pub const WINDOW_WIDTH: i64 = 1_280_000;

/// Height of the field.
pub const WINDOW_HEIGHT: i64 = 720_000;

/// Thickness of a wall; also the width of a paddle and the size of the ball.
pub const WALL_WIDTH: i64 = 20_000;

/// Edge length of the square ball.
pub const BALL_SIZE: i64 = WALL_WIDTH;

/// Width of a paddle.
pub const PADDLE_WIDTH: i64 = WALL_WIDTH;

/// Height of a paddle: a fifth of the field height.
pub const PADDLE_HEIGHT: i64 = 144_000;

/// Gap between a side wall and the paddle in front of it.
pub const PADDLE_MARGIN: i64 = WALL_WIDTH * 2;

/// Horizontal distance of each paddle's centre from the field centre: half the
/// field width, less the margin and half a wall.
pub const PADDLE_X: i64 = 590_000;

/// Largest distance of a paddle's centre from the horizontal mid-line: half the
/// field height, less half a paddle and a wall.
pub const PADDLE_Y_LIMIT: i64 = 268_000;

/// Speed of a served ball, in milli-pixels per second.
pub const BALL_SPEED: i64 = 400_000;

/// Default paddle speed, in milli-pixels per second: half the field height.
pub const PADDLE_SPEED: i64 = 360_000;

/// Largest deflection of the ball off a paddle, in tenths of a degree.
pub const MAX_BOUNCE_ANGLE: i64 = 750;

/// Length of the pause after a goal, in microseconds.
pub const WAIT_BEFORE_ROUND: u64 = 2_000_000;

/// Duration of one fixed simulation step (60 per second), in microseconds.
pub const TIME_STEP: u64 = 16_667;

/// Microseconds per second.
pub const MICROS: i64 = 1_000_000;

/// Largest speed, in milli-pixels per second, that the integration accepts.
pub const SPEED_LIMIT: i64 = 0x1_0000_0000;

/// Longest step, in microseconds, that the integration accepts.
pub const STEP_LIMIT: u64 = 0x10_0000;

/// Largest coordinate magnitude of the ball at the start of a step.
pub const POSITION_LIMIT: i64 = 0x80_0000_0000;

/// The literal dimensions agree with the field proportions they stand for.
pub proof fn lemma_field_dimensions()
    ensures
        PADDLE_HEIGHT == WINDOW_HEIGHT / 5,
        PADDLE_X == WINDOW_WIDTH / 2 - PADDLE_MARGIN - WALL_WIDTH / 2,
        PADDLE_Y_LIMIT == WINDOW_HEIGHT / 2 - PADDLE_HEIGHT / 2 - WALL_WIDTH,
        PADDLE_SPEED == WINDOW_HEIGHT / 2,
{
}

} // verus!
