use bevy_pong::ball::{Ball, BallPlugin, CollisionEvent, LastCollision};
use bevy_pong::collider::{Collider, ColliderKind};
use bevy_pong::field::{BALL_SPEED, MAX_BOUNCE_ANGLE, PADDLE_HEIGHT, PADDLE_WIDTH, TIME_STEP};
use bevy_pong::geometry::{Collision, Vec2};
use bevy_pong::reset::Reset;
use bevy_pong::score::Score;
use bevy_pong::trig::{UNIT, UNIT_TOL};
use bevy_pong::wall::{Wall, WallPlugin};

fn norm2(v: Vec2) -> i128 {
    (v.x as i128) * (v.x as i128) + (v.y as i128) * (v.y as i128)
}

fn is_unit(v: Vec2) -> bool {
    let u = (UNIT as i128) * (UNIT as i128);
    let n = norm2(v);
    n >= u - UNIT_TOL as i128 && n <= u + UNIT_TOL as i128
}

fn wall_collider(wall: Wall) -> Collider {
    let (position, size) = WallPlugin::spawn_wall(wall);
    Collider { position, size, kind: ColliderKind::Wall(wall) }
}

fn paddle_collider(position: Vec2) -> Collider {
    Collider { position, size: Vec2::new(PADDLE_WIDTH, PADDLE_HEIGHT), kind: ColliderKind::Paddle }
}

#[test]
fn serve_directions_are_unit_and_signed() {
    for &(right, up) in &[(true, true), (true, false), (false, true), (false, false)] {
        let d = BallPlugin::serve(right, up);
        assert!(is_unit(d));
        assert_eq!(d.x > 0, right);
        assert_eq!(d.y > 0, up);
    }
}

#[test]
fn velocity_is_direction_times_speed() {
    let (ball, _) = BallPlugin::setup(true, true);
    assert_eq!(ball.speed, BALL_SPEED);
    assert_eq!(ball.velocity(), Vec2::new(357_770, 178_885));
    let stopped = Ball { direction: ball.direction, speed: 0 };
    assert_eq!(stopped.velocity(), Vec2::new(0, 0));
}

#[test]
fn update_position_moves_by_one_step() {
    let (ball, mut position) = BallPlugin::setup(true, true);
    BallPlugin::update_position(&ball, &mut position, TIME_STEP);
    assert_eq!(position, Vec2::new(5_962, 2_981));
}

#[test]
fn wall_bounce_flips_vertical_direction() {
    let mut ball = Ball { direction: BallPlugin::serve(true, true), speed: BALL_SPEED };
    let before = ball.direction;
    let mut last = LastCollision(None);
    let mut score = Score::default();
    let colliders = vec![wall_collider(Wall::Top)];
    let events = BallPlugin::check_collision(&mut ball, Vec2::new(0, 334_981), &colliders, &mut last, &mut score);
    assert_eq!(events, vec![CollisionEvent::Wall]);
    assert_eq!(ball.direction, Vec2::new(before.x, -before.y));
    assert_eq!(last.0, Some(Collision::Bottom));
    assert_eq!(score, Score { left: 0, right: 0 });
}

#[test]
fn ball_moving_away_is_not_reflected_again() {
    let away = Vec2::new(894_427, -447_213);
    let mut ball = Ball { direction: away, speed: BALL_SPEED };
    let mut last = LastCollision(None);
    let mut score = Score::default();
    let colliders = vec![wall_collider(Wall::Top)];
    let events = BallPlugin::check_collision(&mut ball, Vec2::new(0, 334_981), &colliders, &mut last, &mut score);
    assert_eq!(events, vec![CollisionEvent::Wall]);
    assert_eq!(ball.direction, away);
}

#[test]
fn repeated_contact_is_deduplicated() {
    let mut ball = Ball { direction: BallPlugin::serve(true, true), speed: BALL_SPEED };
    let mut last = LastCollision(None);
    let mut score = Score::default();
    let colliders = vec![wall_collider(Wall::Top)];
    BallPlugin::check_collision(&mut ball, Vec2::new(0, 334_981), &colliders, &mut last, &mut score);
    let after_first = ball;
    let events = BallPlugin::check_collision(&mut ball, Vec2::new(0, 332_000), &colliders, &mut last, &mut score);
    assert!(events.is_empty());
    assert_eq!(ball, after_first);
    assert_eq!(last.0, Some(Collision::Bottom));
}

#[test]
fn no_contact_clears_the_cache() {
    let mut ball = Ball { direction: BallPlugin::serve(true, true), speed: BALL_SPEED };
    let mut last = LastCollision(Some(Collision::Bottom));
    let mut score = Score::default();
    let colliders = WallPlugin::setup().into_iter().map(wall_collider).collect::<Vec<_>>();
    let events = BallPlugin::check_collision(&mut ball, Vec2::new(0, 0), &colliders, &mut last, &mut score);
    assert!(events.is_empty());
    assert_eq!(last.0, None);
}

#[test]
fn right_wall_goal_scores_for_left() {
    let mut ball = Ball { direction: BallPlugin::serve(true, true), speed: BALL_SPEED };
    let mut last = LastCollision(None);
    let mut score = Score { left: 2, right: 4 };
    let colliders = vec![wall_collider(Wall::Right)];
    let events = BallPlugin::check_collision(&mut ball, Vec2::new(620_962, 2_981), &colliders, &mut last, &mut score);
    assert_eq!(events, vec![CollisionEvent::Goal]);
    assert_eq!(score, Score { left: 3, right: 4 });
    assert_eq!(ball.speed, 0);
}

#[test]
fn left_wall_goal_scores_for_right() {
    let mut ball = Ball { direction: BallPlugin::serve(false, false), speed: BALL_SPEED };
    let mut last = LastCollision(None);
    let mut score = Score::default();
    let colliders = vec![wall_collider(Wall::Left)];
    let events = BallPlugin::check_collision(&mut ball, Vec2::new(-620_962, -2_981), &colliders, &mut last, &mut score);
    assert_eq!(events, vec![CollisionEvent::Goal]);
    assert_eq!(score, Score { left: 0, right: 1 });
    assert_eq!(ball.speed, 0);
}

#[test]
fn centre_contact_returns_straight_back() {
    let d = BallPlugin::calculate_bounce_angle(Vec2::new(-590_000, 0), Vec2::new(-570_000, 0));
    assert_eq!(d, Vec2::new(UNIT, 0));
}

#[test]
fn top_edge_contact_deflects_by_half_the_largest_angle() {
    // The offset is half a paddle height, so the angle is half of 75 degrees.
    let d = BallPlugin::calculate_bounce_angle(Vec2::new(0, 0), Vec2::new(0, PADDLE_HEIGHT / 2));
    assert_eq!(d, Vec2::new(854_462, -519_513));
    assert!(is_unit(d));
    assert_eq!(MAX_BOUNCE_ANGLE / 2, 375);
}

#[test]
fn bounce_vertical_component_grows_with_offset() {
    let paddle = Vec2::new(-590_000, 0);
    let mut prev = i64::MAX;
    let mut offset = -PADDLE_HEIGHT / 2;
    while offset <= PADDLE_HEIGHT / 2 {
        let d = BallPlugin::calculate_bounce_angle(paddle, Vec2::new(-570_000, offset));
        assert!(is_unit(d));
        assert!(d.x > 0);
        // the candidate's vertical component is the negated sine
        assert!(d.y <= prev, "not monotonic at offset {}", offset);
        prev = d.y;
        offset += 1_000;
    }
}

#[test]
fn paddle_face_contact_sends_ball_away() {
    let mut ball = Ball { direction: BallPlugin::serve(false, true), speed: BALL_SPEED };
    let mut last = LastCollision(None);
    let mut score = Score::default();
    let colliders = vec![paddle_collider(Vec2::new(-590_000, 0))];
    let events = BallPlugin::check_collision(&mut ball, Vec2::new(-571_000, 30_000), &colliders, &mut last, &mut score);
    assert_eq!(events, vec![CollisionEvent::Paddle]);
    assert_eq!(last.0, Some(Collision::Right));
    assert!(ball.direction.x > 0);
    assert!(ball.direction.y > 0);
    assert!(is_unit(ball.direction));
}

#[test]
fn paddle_top_contact_reflects_fully() {
    let dir = Vec2::new(447_213, -894_427);
    let mut ball = Ball { direction: dir, speed: BALL_SPEED };
    let mut last = LastCollision(None);
    let mut score = Score::default();
    let colliders = vec![paddle_collider(Vec2::new(0, 0))];
    let events = BallPlugin::check_collision(&mut ball, Vec2::new(0, 81_000), &colliders, &mut last, &mut score);
    assert_eq!(events, vec![CollisionEvent::Paddle]);
    assert_eq!(last.0, Some(Collision::Top));
    assert_eq!(ball.direction, Vec2::new(-dir.x, -dir.y));
}

#[test]
fn handle_reset_reserves_the_ball() {
    let mut ball = Ball { direction: BallPlugin::serve(true, true), speed: 0 };
    let mut position = Vec2::new(630_000, 5_000);
    BallPlugin::handle_reset(None, &mut ball, &mut position, false, false);
    assert_eq!(ball.speed, 0);
    assert_eq!(position, Vec2::new(630_000, 5_000));
    BallPlugin::handle_reset(Some(Reset::Soft), &mut ball, &mut position, false, false);
    assert_eq!(ball.speed, BALL_SPEED);
    assert_eq!(ball.direction, Vec2::new(-894_427, -447_213));
    assert_eq!(position, Vec2::new(0, 0));
}
