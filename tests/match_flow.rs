use bevy_pong::ball::CollisionEvent;
use bevy_pong::field::{BALL_SPEED, PADDLE_SPEED, TIME_STEP};
use bevy_pong::geometry::Vec2;
use bevy_pong::paddle::Paddle;
use bevy_pong::player::Player;
use bevy_pong::pong::{Input, PaddleInput, Pong};
use bevy_pong::reset::{last_reset, Reset};
use bevy_pong::score::{Score, ScorePlugin};
use bevy_pong::state::{GameState, PausePlugin, PongPlugin, SplashScreenPlugin, WaitAfterGoalTimer};
use bevy_pong::trig::{UNIT, UNIT_TOL};
use bevy_turborand::GlobalRng;

fn idle() -> Input {
    let none = PaddleInput { up: false, down: false };
    Input { left: none, right: none, pause: false, hard_reset: false, any_key: false }
}

fn playing() -> Pong {
    let mut p = Pong::new(None, true, true);
    p.state = GameState::Playing;
    p
}

#[test]
fn new_match_starts_in_menu() {
    let p = Pong::new(Some(Player::Right), false, true);
    assert_eq!(p.state, GameState::Menu);
    assert_eq!(p.score, Score::default());
    assert_eq!(p.ball_position, Vec2::new(0, 0));
    assert_eq!(p.ball.speed, BALL_SPEED);
    assert_eq!(p.left_position, Vec2::new(-590_000, 0));
    assert_eq!(p.ai, Some(Player::Right));
}

#[test]
fn any_key_leaves_menu() {
    let mut p = Pong::new(None, true, true);
    let mut input = idle();
    p.advance(input, TIME_STEP, true, true);
    assert_eq!(p.state, GameState::Menu);
    input.any_key = true;
    p.advance(input, TIME_STEP, true, true);
    assert_eq!(p.state, GameState::Playing);
}

#[test]
fn pause_toggles_and_freezes() {
    let mut p = playing();
    let mut input = idle();
    input.pause = true;
    p.advance(input, TIME_STEP, true, true);
    assert_eq!(p.state, GameState::Paused);
    let frozen = p;
    let t = p.advance(idle(), TIME_STEP, true, true);
    assert_eq!(p, frozen);
    assert!(t.events.is_empty());
    p.advance(input, TIME_STEP, true, true);
    assert_eq!(p.state, GameState::Playing);
}

#[test]
fn pause_toggle_elsewhere_is_ignored() {
    assert_eq!(PausePlugin::toggle_pause(GameState::Menu, true), GameState::Menu);
    assert_eq!(PausePlugin::toggle_pause(GameState::WaitBeforeRound, true), GameState::WaitBeforeRound);
    assert_eq!(PausePlugin::toggle_pause(GameState::Playing, false), GameState::Playing);
    assert_eq!(SplashScreenPlugin::toggle_splash(GameState::Paused, true), GameState::Paused);
    assert!(PongPlugin::in_menu_or_playing(GameState::Menu));
    assert!(!PongPlugin::in_menu_or_playing(GameState::Paused));
}

#[test]
fn playing_moves_ball_and_paddles() {
    let mut p = playing();
    let mut input = idle();
    input.left.up = true;
    input.right.down = true;
    let t = p.advance(input, TIME_STEP, true, true);
    assert!(t.events.is_empty());
    assert_eq!(p.ball_position, Vec2::new(5_962, 2_981));
    assert_eq!(p.left.velocity.y, PADDLE_SPEED);
    assert_eq!(p.left_position.y, 6_000);
    assert_eq!(p.right_position.y, -6_000);
}

#[test]
fn goal_scenario_right_wall() {
    let mut p = playing();
    p.score = Score { left: 4, right: 7 };
    p.ball_position = Vec2::new(615_000, 0);
    let t = p.advance(idle(), TIME_STEP, false, false);
    assert_eq!(t.events, vec![CollisionEvent::Goal]);
    assert_eq!(t.resets, vec![Reset::Soft]);
    assert_eq!(p.score, Score { left: 5, right: 7 });
    assert_eq!(p.state, GameState::WaitBeforeRound);
    assert_eq!(p.ball_position, Vec2::new(0, 0));
    assert_eq!(p.ball.direction, Vec2::new(-894_427, -447_213));
}

#[test]
fn goal_scenario_left_wall() {
    let mut p = Pong::new(None, false, false);
    p.state = GameState::Playing;
    p.ball_position = Vec2::new(-615_000, 0);
    let t = p.advance(idle(), TIME_STEP, true, true);
    assert_eq!(t.events, vec![CollisionEvent::Goal]);
    assert_eq!(p.score, Score { left: 0, right: 1 });
    assert_eq!(p.state, GameState::WaitBeforeRound);
}

#[test]
fn goal_in_menu_keeps_the_phase() {
    let mut p = Pong::new(None, true, true);
    p.ball_position = Vec2::new(615_000, 0);
    let t = p.advance(idle(), TIME_STEP, true, true);
    assert_eq!(t.events, vec![CollisionEvent::Goal]);
    assert_eq!(p.state, GameState::Menu);
    assert_eq!(p.score.left, 1);
}

#[test]
fn wait_lasts_exactly_two_seconds() {
    let mut p = playing();
    p.state = GameState::WaitBeforeRound;
    for _ in 0..119 {
        let before = p.ball_position;
        p.advance(idle(), TIME_STEP, true, true);
        assert_eq!(p.state, GameState::WaitBeforeRound);
        assert_eq!(p.ball_position, before);
    }
    assert_eq!(p.timer.elapsed, 119 * TIME_STEP);
    p.advance(idle(), TIME_STEP, true, true);
    assert_eq!(p.state, GameState::Playing);
    assert_eq!(p.timer.elapsed, 0);
}

#[test]
fn timer_finishes_on_reaching_the_wait() {
    let mut timer = WaitAfterGoalTimer::new();
    assert!(!timer.tick(1_999_999));
    assert!(timer.tick(1));
    assert_eq!(timer.elapsed, 0);
    assert!(timer.tick(5_000_000));
    assert_eq!(WaitAfterGoalTimer::pause_after_goal(GameState::Paused, &mut timer, 3_000_000), GameState::Paused);
    assert_eq!(timer.elapsed, 0);
}

#[test]
fn hard_reset_restores_everything() {
    let mut p = playing();
    p.score = Score { left: 3, right: 5 };
    p.left_position = Vec2::new(-590_000, 100_000);
    p.right_position = Vec2::new(590_000, -50_000);
    p.ball_position = Vec2::new(100_000, 100_000);
    let mut input = idle();
    input.hard_reset = true;
    let t = p.advance(input, TIME_STEP, false, true);
    assert_eq!(t.resets, vec![Reset::Hard]);
    assert_eq!(p.score, Score { left: 0, right: 0 });
    assert_eq!(p.left_position, Vec2::new(-590_000, 0));
    assert_eq!(p.right_position, Vec2::new(590_000, 0));
    assert_eq!(p.left.speed, PADDLE_SPEED);
    assert_eq!(p.ball_position, Vec2::new(0, 0));
    assert_eq!(p.ball.speed, BALL_SPEED);
}

#[test]
fn hard_reset_outside_play_is_ignored() {
    let mut p = playing();
    p.state = GameState::Paused;
    p.score = Score { left: 3, right: 5 };
    let mut input = idle();
    input.hard_reset = true;
    let t = p.advance(input, TIME_STEP, false, true);
    assert!(t.resets.is_empty());
    assert_eq!(p.score, Score { left: 3, right: 5 });
}

#[test]
fn soft_reset_keeps_score() {
    let mut s = Score { left: 2, right: 9 };
    ScorePlugin::handle_reset(Some(Reset::Soft), &mut s);
    assert_eq!(s, Score { left: 2, right: 9 });
    ScorePlugin::handle_reset(None, &mut s);
    assert_eq!(s, Score { left: 2, right: 9 });
    ScorePlugin::handle_reset(Some(Reset::Hard), &mut s);
    assert_eq!(s, Score { left: 0, right: 0 });
}

#[test]
fn last_reset_wins() {
    assert_eq!(last_reset(&vec![]), None);
    assert_eq!(last_reset(&vec![Reset::Hard, Reset::Soft]), Some(Reset::Soft));
    assert_eq!(last_reset(&vec![Reset::Soft, Reset::Hard]), Some(Reset::Hard));
}

#[test]
fn goal_and_hard_reset_in_one_step_honour_the_soft_reset() {
    let mut p = playing();
    p.score = Score { left: 3, right: 5 };
    p.ball_position = Vec2::new(615_000, 0);
    let mut input = idle();
    input.hard_reset = true;
    let t = p.advance(input, TIME_STEP, true, true);
    assert_eq!(t.resets, vec![Reset::Hard, Reset::Soft]);
    assert_eq!(p.score, Score { left: 4, right: 5 });
}

#[test]
fn direction_stays_unit_over_a_rally() {
    let mut p = playing();
    p.ai = Some(Player::Left);
    let mut rng = GlobalRng::with_seed(42);
    let u = (UNIT as i128) * (UNIT as i128);
    for _ in 0..2_000 {
        p.tick(&mut rng, idle(), TIME_STEP);
        if p.state == GameState::WaitBeforeRound {
            continue;
        }
        let d = p.ball.direction;
        let n = (d.x as i128) * (d.x as i128) + (d.y as i128) * (d.y as i128);
        assert!(n >= u - UNIT_TOL as i128 && n <= u + UNIT_TOL as i128);
        assert!(p.left_position.y.abs() <= 268_000);
    }
}

#[test]
fn tick_serves_in_one_of_four_directions() {
    let mut p = playing();
    p.ball_position = Vec2::new(615_000, 0);
    let mut rng = GlobalRng::with_seed(7);
    let t = p.tick(&mut rng, idle(), TIME_STEP);
    assert_eq!(t.events, vec![CollisionEvent::Goal]);
    let d = p.ball.direction;
    assert_eq!(d.x.abs(), 894_427);
    assert_eq!(d.y.abs(), 447_213);
    assert_eq!(p.ball_position, Vec2::new(0, 0));
}

#[test]
fn paddle_new_keeps_fields() {
    let p = Paddle::new(5, Vec2::new(0, -3));
    assert_eq!(p.speed, 5);
    assert_eq!(p.velocity, Vec2::new(0, -3));
}
