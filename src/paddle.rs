//! Paddles: input to velocity, integration of the vertical position, and the
//! clamp that keeps them inside the field.
use vstd::prelude::*;
use crate::field::{MICROS, PADDLE_SPEED, PADDLE_X, PADDLE_Y_LIMIT, SPEED_LIMIT, STEP_LIMIT};
use crate::geometry::{Vec2, COORD_LIMIT};
use crate::player::Player;
use crate::reset::Reset;
use crate::trig::{scale_trunc, tdiv};

verus! {

/// A paddle's motion: its maximal speed and its current velocity, in
/// milli-pixels per second.
#[derive(Clone, Copy, Debug, PartialEq, Eq, Structural)]
pub struct Paddle {
    pub speed: i64,
    pub velocity: Vec2,
}

impl Paddle {
    pub fn new(speed: i64, velocity: Vec2) -> (r: Paddle)
        ensures
            r.speed == speed,
            r.velocity == velocity,
    {
        Paddle { speed, velocity }
    }

    /// The speed is within the integration's range and the velocity is
    /// vertical and no faster than the speed.
    pub open spec fn wf(self) -> bool {
        &&& 0 <= self.speed <= SPEED_LIMIT
        &&& self.velocity.x == 0
        &&& -self.speed <= self.velocity.y <= self.speed
    }
}

/// Distance covered in `dt` microseconds at `v` milli-pixels per second,
/// rounded toward zero.
pub open spec fn travel(v: int, dt: int) -> int {
    tdiv(v * dt, MICROS as int)
}

/// Distance covered in `dt` microseconds at `v` milli-pixels per second.
pub fn step_distance(v: i64, dt: u64) -> (r: i64)
    requires
        -2 * SPEED_LIMIT <= v <= 2 * SPEED_LIMIT,
        dt <= STEP_LIMIT,
    ensures
        r == travel(v as int, dt as int),
        -0x4_0000_0000 <= r <= 0x4_0000_0000,
{
    let r = scale_trunc(v, dt as i64, MICROS);
    proof {
        lemma_travel_bound(v as int, dt as int);
    }
    r
}

proof fn lemma_travel_bound(v: int, dt: int)
    requires
        -2 * SPEED_LIMIT <= v <= 2 * SPEED_LIMIT,
        0 <= dt <= STEP_LIMIT,
    ensures
        -0x4_0000_0000 <= travel(v, dt) <= 0x4_0000_0000,
{
    let a = if v < 0 { -v } else { v };
    assert(0 <= a * dt <= 2 * SPEED_LIMIT * STEP_LIMIT) by (nonlinear_arith)
        requires
            0 <= a <= 2 * SPEED_LIMIT,
            0 <= dt <= STEP_LIMIT,
    ;
    vstd::arithmetic::div_mod::lemma_div_is_ordered(a * dt, 2 * SPEED_LIMIT * STEP_LIMIT, MICROS as int);
    vstd::arithmetic::div_mod::lemma_div_pos_is_pos(a * dt, MICROS as int);
    if v < 0 {
        assert(-(v * dt) == a * dt) by (nonlinear_arith)
            requires
                a == -v,
        ;
    }
}

/// A vertical paddle coordinate held within the field's bounds.
pub open spec fn clamp_y(y: int) -> int {
    if y < -PADDLE_Y_LIMIT {
        -PADDLE_Y_LIMIT as int
    } else if y > PADDLE_Y_LIMIT {
        PADDLE_Y_LIMIT as int
    } else {
        y
    }
}

/// Where a paddle of the given side stands at the start of a match.
pub open spec fn home(player: Player) -> Vec2 {
    match player {
        Player::Left => Vec2 { x: (-PADDLE_X) as i64, y: 0 },
        Player::Right => Vec2 { x: PADDLE_X, y: 0 },
    }
}

/// The paddle at the start of a match: default speed, at rest.
pub open spec fn default_paddle() -> Paddle {
    Paddle { speed: PADDLE_SPEED, velocity: Vec2 { x: 0, y: 0 } }
}

/// The velocity that the manual controls ask for: up wins over down.
pub open spec fn input_velocity(speed: int, up: bool, down: bool) -> int {
    if up {
        speed
    } else if down {
        -speed
    } else {
        0
    }
}

/// A paddle's position after a step: moved by its velocity, then clamped.
pub open spec fn paddle_moved(y: int, v: int, dt: int) -> int {
    clamp_y(y + travel(v, dt))
}

/// However far a step would carry a paddle, it ends inside the field, and
/// clamping an already clamped coordinate changes nothing.
pub proof fn lemma_paddle_stays_in_field(y: int, v: int, dt: int)
    ensures
        -PADDLE_Y_LIMIT <= paddle_moved(y, v, dt) <= PADDLE_Y_LIMIT,
        clamp_y(paddle_moved(y, v, dt)) == paddle_moved(y, v, dt),
        -PADDLE_Y_LIMIT <= y <= PADDLE_Y_LIMIT ==> clamp_y(y) == y,
{
}

/// Paddle systems.
pub struct PaddlePlugin;

impl PaddlePlugin {
    /// The paddle of one side at the start of a match, with its position.
    pub fn setup(player: Player) -> (r: (Paddle, Vec2))
        ensures
            r.0 == default_paddle(),
            r.1 == home(player),
    {
        let x = match player {
            Player::Left => -PADDLE_X,
            Player::Right => PADDLE_X,
        };
        (Paddle::new(PADDLE_SPEED, Vec2::new(0, 0)), Vec2::new(x, 0))
    }

    /// On a hard reset, restores the default speed and the home position; any
    /// other reset leaves the paddle alone.
    pub fn handle_reset(reset: Option<Reset>, paddle: &mut Paddle, position: &mut Vec2, player: Player)
        ensures
            reset == Some(Reset::Hard) ==> final(paddle).speed == PADDLE_SPEED && *final(position) == home(player)
                && final(paddle).velocity == old(paddle).velocity,
            reset != Some(Reset::Hard) ==> *final(paddle) == *old(paddle) && *final(position) == *old(position),
    {
        if let Some(Reset::Hard) = reset {
            paddle.speed = PADDLE_SPEED;
            *position = Self::setup(player).1;
        }
    }

    /// Sets the velocity from the up and down controls; up takes precedence.
    pub fn handle_input(paddle: &mut Paddle, up: bool, down: bool)
        requires
            old(paddle).speed >= 0,
        ensures
            final(paddle).speed == old(paddle).speed,
            final(paddle).velocity.x == old(paddle).velocity.x,
            final(paddle).velocity.y == input_velocity(old(paddle).speed as int, up, down),
    {
        if up {
            paddle.velocity.y = paddle.speed;
        } else if down {
            paddle.velocity.y = -paddle.speed;
        } else {
            paddle.velocity.y = 0;
        }
    }

    /// Moves the paddle vertically by its velocity over `dt` microseconds and
    /// clamps it to the field.
    pub fn update_position(paddle: &Paddle, position: &mut Vec2, dt: u64)
        requires
            paddle.wf(),
            dt <= STEP_LIMIT,
            -COORD_LIMIT <= old(position).y <= COORD_LIMIT,
        ensures
            final(position).x == old(position).x,
            final(position).y == paddle_moved(old(position).y as int, paddle.velocity.y as int, dt as int),
    {
        let d = step_distance(paddle.velocity.y, dt);
        let y = position.y + d;
        position.y = if y < -PADDLE_Y_LIMIT {
            -PADDLE_Y_LIMIT
        } else if y > PADDLE_Y_LIMIT {
            PADDLE_Y_LIMIT
        } else {
            y
        };
    }
}

} // verus!
