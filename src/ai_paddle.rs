//! The computer-controlled paddle: it mirrors the ball's vertical velocity
//! while the ball approaches its half of the field.
use vstd::prelude::*;
use crate::field::WINDOW_WIDTH;
use crate::geometry::Vec2;
use crate::paddle::Paddle;
use crate::player::Player;

verus! {

/// The ball is heading toward the given side and has reached its three
/// quarters of the field.
pub open spec fn approaching(player: Player, ball_position: Vec2, ball_velocity: Vec2) -> bool {
    match player {
        Player::Left => ball_velocity.x < 0 && ball_position.x < WINDOW_WIDTH / 4,
        Player::Right => ball_velocity.x > 0 && ball_position.x > -WINDOW_WIDTH / 4,
    }
}

/// The vertical velocity that the computer chooses: the ball's own, limited to
/// the paddle's speed, while the ball approaches and is not level with the
/// paddle; otherwise rest.
pub open spec fn ai_velocity(
    speed: int,
    paddle_y: int,
    player: Player,
    ball_position: Vec2,
    ball_velocity: Vec2,
) -> int {
    if approaching(player, ball_position, ball_velocity) && ball_position.y != paddle_y {
        if ball_velocity.y < -speed {
            -speed
        } else if ball_velocity.y > speed {
            speed
        } else {
            ball_velocity.y as int
        }
    } else {
        0
    }
}

/// Computer control of a paddle.
pub struct AiPaddlePlugin;

impl AiPaddlePlugin {
    /// Sets the paddle's vertical velocity from the ball's position and velocity.
    pub fn process_player(
        paddle: &mut Paddle,
        paddle_position: Vec2,
        player: Player,
        ball_position: Vec2,
        ball_velocity: Vec2,
    )
        requires
            old(paddle).speed >= 0,
        ensures
            final(paddle).speed == old(paddle).speed,
            final(paddle).velocity.x == old(paddle).velocity.x,
            final(paddle).velocity.y == ai_velocity(
                old(paddle).speed as int,
                paddle_position.y as int,
                player,
                ball_position,
                ball_velocity,
            ),
    {
        let towards = match player {
            Player::Left => ball_velocity.x < 0 && ball_position.x < WINDOW_WIDTH / 4,
            Player::Right => ball_velocity.x > 0 && ball_position.x > -(WINDOW_WIDTH / 4),
        };
        if towards && ball_position.y != paddle_position.y {
            paddle.velocity.y = if ball_velocity.y < -paddle.speed {
                -paddle.speed
            } else if ball_velocity.y > paddle.speed {
                paddle.speed
            } else {
                ball_velocity.y
            };
        } else {
            paddle.velocity.y = 0;
        }
    }
}

} // verus!
