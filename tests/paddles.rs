use bevy_pong::ai_paddle::AiPaddlePlugin;
use bevy_pong::field::{PADDLE_SPEED, PADDLE_X, PADDLE_Y_LIMIT, STEP_LIMIT, TIME_STEP};
use bevy_pong::geometry::Vec2;
use bevy_pong::paddle::{Paddle, PaddlePlugin};
use bevy_pong::player::Player;
use bevy_pong::reset::Reset;

#[test]
fn setup_places_paddles_at_home() {
    let (left, left_pos) = PaddlePlugin::setup(Player::Left);
    let (right, right_pos) = PaddlePlugin::setup(Player::Right);
    assert_eq!(left, Paddle::new(PADDLE_SPEED, Vec2::new(0, 0)));
    assert_eq!(right.speed, 360_000);
    assert_eq!(left_pos, Vec2::new(-590_000, 0));
    assert_eq!(right_pos, Vec2::new(PADDLE_X, 0));
}

#[test]
fn input_up_takes_precedence() {
    let mut p = Paddle::new(PADDLE_SPEED, Vec2::new(0, 0));
    PaddlePlugin::handle_input(&mut p, true, true);
    assert_eq!(p.velocity.y, PADDLE_SPEED);
    PaddlePlugin::handle_input(&mut p, false, true);
    assert_eq!(p.velocity.y, -PADDLE_SPEED);
    PaddlePlugin::handle_input(&mut p, false, false);
    assert_eq!(p.velocity.y, 0);
}

#[test]
fn update_position_integrates_one_step() {
    let p = Paddle::new(PADDLE_SPEED, Vec2::new(0, PADDLE_SPEED));
    let mut pos = Vec2::new(-590_000, 0);
    PaddlePlugin::update_position(&p, &mut pos, TIME_STEP);
    assert_eq!(pos, Vec2::new(-590_000, 6_000));
}

#[test]
fn paddle_is_clamped_to_the_field() {
    let up = Paddle::new(PADDLE_SPEED, Vec2::new(0, PADDLE_SPEED));
    let mut pos = Vec2::new(590_000, 0);
    PaddlePlugin::update_position(&up, &mut pos, STEP_LIMIT);
    assert_eq!(pos.y, PADDLE_Y_LIMIT);
    PaddlePlugin::update_position(&up, &mut pos, STEP_LIMIT);
    assert_eq!(pos.y, 268_000);
    let down = Paddle::new(PADDLE_SPEED, Vec2::new(0, -PADDLE_SPEED));
    let mut low = Vec2::new(590_000, -265_000);
    PaddlePlugin::update_position(&down, &mut low, TIME_STEP);
    assert_eq!(low.y, -PADDLE_Y_LIMIT);
}

#[test]
fn paddle_at_rest_in_bounds_stays() {
    let still = Paddle::new(PADDLE_SPEED, Vec2::new(0, 0));
    let mut pos = Vec2::new(590_000, -123_456);
    PaddlePlugin::update_position(&still, &mut pos, TIME_STEP);
    assert_eq!(pos, Vec2::new(590_000, -123_456));
}

#[test]
fn hard_reset_restores_paddle() {
    let mut p = Paddle::new(1_000, Vec2::new(0, 500));
    let mut pos = Vec2::new(590_000, 200_000);
    PaddlePlugin::handle_reset(Some(Reset::Soft), &mut p, &mut pos, Player::Right);
    assert_eq!(p.speed, 1_000);
    assert_eq!(pos, Vec2::new(590_000, 200_000));
    PaddlePlugin::handle_reset(Some(Reset::Hard), &mut p, &mut pos, Player::Right);
    assert_eq!(p.speed, PADDLE_SPEED);
    assert_eq!(pos, Vec2::new(590_000, 0));
}

#[test]
fn ai_mirrors_approaching_ball() {
    let mut p = Paddle::new(PADDLE_SPEED, Vec2::new(0, 0));
    let pos = Vec2::new(-590_000, 0);
    AiPaddlePlugin::process_player(&mut p, pos, Player::Left, Vec2::new(0, 50_000), Vec2::new(-300_000, 120_000));
    assert_eq!(p.velocity.y, 120_000);
    AiPaddlePlugin::process_player(&mut p, pos, Player::Left, Vec2::new(0, 50_000), Vec2::new(-300_000, -900_000));
    assert_eq!(p.velocity.y, -PADDLE_SPEED);
}

#[test]
fn ai_rests_when_ball_moves_away_or_is_level() {
    let mut p = Paddle::new(PADDLE_SPEED, Vec2::new(0, 77));
    let pos = Vec2::new(590_000, 10_000);
    AiPaddlePlugin::process_player(&mut p, pos, Player::Right, Vec2::new(0, 50_000), Vec2::new(-300_000, 120_000));
    assert_eq!(p.velocity.y, 0);
    p.velocity.y = 77;
    AiPaddlePlugin::process_player(&mut p, pos, Player::Right, Vec2::new(0, 10_000), Vec2::new(300_000, 120_000));
    assert_eq!(p.velocity.y, 0);
    AiPaddlePlugin::process_player(&mut p, pos, Player::Right, Vec2::new(-400_000, 0), Vec2::new(300_000, 120_000));
    assert_eq!(p.velocity.y, 0);
}
