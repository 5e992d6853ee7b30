//! The ball: its direction and speed, its integration, the serve, and the
//! bounce-angle law on paddle contact.
use vstd::prelude::*;
use crate::collider::{Collider, ColliderKind};
use crate::field::{
    BALL_SIZE, BALL_SPEED, MAX_BOUNCE_ANGLE, PADDLE_HEIGHT, POSITION_LIMIT, SPEED_LIMIT, STEP_LIMIT,
};
use crate::geometry::{collide, contact, Collision, Vec2, COORD_LIMIT};
use crate::score::Score;
use crate::wall::Wall;
use crate::paddle::{step_distance, travel};
use crate::reset::Reset;
use crate::trig::{
    cos_deci, cosine, is_unit, lemma_cosine_floor, lemma_sine_monotonic, lemma_tdiv_bound,
    lemma_tdiv_monotonic, lemma_unit_bounds, normalize, normalized, scale_trunc, sin_deci, sine,
    tdiv, UNIT,
};

verus! {

/// The ball's motion: a unit direction (scaled by `UNIT`) and a speed in
/// milli-pixels per second.
#[derive(Clone, Copy, Debug, PartialEq, Eq, Structural)]
pub struct Ball {
    pub direction: Vec2,
    pub speed: i64,
}

/// What the ball touched, reported once per resolved contact.
#[derive(Clone, Copy, Debug, PartialEq, Eq, Structural)]
pub enum CollisionEvent {
    Paddle,
    Wall,
    Goal,
}

/// The classification of the most recently resolved contact. A contact that
/// classifies the same way is taken as the continuation of that one.
#[derive(Clone, Copy, Debug, PartialEq, Eq, Structural)]
pub struct LastCollision(pub Option<Collision>);

/// The ball's velocity in milli-pixels per second: its direction normalised,
/// times its speed.
pub open spec fn velocity_of(ball: Ball) -> Vec2 {
    let n = normalized(ball.direction.x as int, ball.direction.y as int);
    Vec2 {
        x: tdiv(n.x * ball.speed, UNIT as int) as i64,
        y: tdiv(n.y * ball.speed, UNIT as int) as i64,
    }
}

impl Ball {
    /// The direction has unit length and the speed is within range.
    pub open spec fn wf(self) -> bool {
        &&& is_unit(self.direction)
        &&& 0 <= self.speed <= SPEED_LIMIT
    }

    /// The velocity, derived from the direction and the speed.
    pub fn velocity(&self) -> (r: Vec2)
        requires
            self.wf(),
        ensures
            r == velocity_of(*self),
            -2 * SPEED_LIMIT <= r.x <= 2 * SPEED_LIMIT,
            -2 * SPEED_LIMIT <= r.y <= 2 * SPEED_LIMIT,
    {
        proof {
            lemma_unit_bounds(self.direction);
        }
        let n = normalize(self.direction.x, self.direction.y);
        proof {
            lemma_unit_bounds(n);
            lemma_speed_scale(n.x as int, self.speed as int);
            lemma_speed_scale(n.y as int, self.speed as int);
        }
        Vec2::new(scale_trunc(n.x, self.speed, UNIT), scale_trunc(n.y, self.speed, UNIT))
    }
}

proof fn lemma_speed_scale(c: int, speed: int)
    requires
        -2 * UNIT <= c <= 2 * UNIT,
        0 <= speed <= SPEED_LIMIT,
    ensures
        -2 * SPEED_LIMIT <= tdiv(c * speed, UNIT as int) <= 2 * SPEED_LIMIT,
{
    assert(-(2 * UNIT * SPEED_LIMIT) <= c * speed <= 2 * UNIT * SPEED_LIMIT) by (nonlinear_arith)
        requires
            -2 * UNIT <= c <= 2 * UNIT,
            0 <= speed <= SPEED_LIMIT,
    ;
    lemma_tdiv_bound(c * speed, 2 * UNIT * SPEED_LIMIT, UNIT as int);
}

/// Direction of a serve: right or left, up or down, at the slope of one half,
/// normalised.
pub open spec fn serve_direction(right: bool, up: bool) -> Vec2 {
    normalized(if right { UNIT as int } else { -UNIT }, if up { UNIT / 2 } else { -UNIT / 2 })
}

/// The ball as served: the serve direction at the nominal speed.
pub open spec fn served(right: bool, up: bool) -> Ball {
    Ball { direction: serve_direction(right, up), speed: BALL_SPEED }
}

/// Deflection angle, in tenths of a degree, for a contact at the given offset
/// from the paddle's centre: the offset over the paddle height, times the
/// largest bounce angle.
pub open spec fn bounce_angle(offset: int) -> int {
    tdiv(offset * MAX_BOUNCE_ANGLE, PADDLE_HEIGHT as int)
}

/// Outgoing unit direction candidate off a paddle at `paddle` for a ball at
/// `hit`: the cosine of the horizontal offset's angle and the negated sine of
/// the vertical offset's angle, normalised.
pub open spec fn bounce_direction(paddle: Vec2, hit: Vec2) -> Vec2 {
    normalized(
        cosine(bounce_angle(hit.x - paddle.x)),
        -sine(bounce_angle(hit.y - paddle.y)),
    )
}

/// The deflection angle grows with the contact offset, stays within 75 degrees
/// either side for contacts within a paddle height of the centre, is zero at
/// the centre and 37.5 degrees at either end of the paddle; the vertical
/// component that the angle gives (its sine) grows with it too.
pub proof fn lemma_bounce_angle_law(d1: int, d2: int)
    requires
        -PADDLE_HEIGHT <= d1 <= d2 <= PADDLE_HEIGHT,
    ensures
        -MAX_BOUNCE_ANGLE <= bounce_angle(d1) <= bounce_angle(d2) <= MAX_BOUNCE_ANGLE,
        sine(bounce_angle(d1)) <= sine(bounce_angle(d2)),
        bounce_angle(0) == 0,
        bounce_angle(PADDLE_HEIGHT / 2) == MAX_BOUNCE_ANGLE / 2,
        bounce_angle(-PADDLE_HEIGHT / 2) == -(MAX_BOUNCE_ANGLE / 2),
{
    lemma_angle_range(d1);
    lemma_angle_range(d2);
    lemma_tdiv_monotonic(d1 * MAX_BOUNCE_ANGLE, d2 * MAX_BOUNCE_ANGLE, PADDLE_HEIGHT as int);
    lemma_sine_monotonic(bounce_angle(d1), bounce_angle(d2));
    assert(bounce_angle(PADDLE_HEIGHT / 2) == MAX_BOUNCE_ANGLE / 2) by {
        vstd::arithmetic::div_mod::lemma_div_multiples_vanish(375, PADDLE_HEIGHT as int);
    }
    assert(bounce_angle(-PADDLE_HEIGHT / 2) == -(MAX_BOUNCE_ANGLE / 2)) by {
        vstd::arithmetic::div_mod::lemma_div_multiples_vanish(375, PADDLE_HEIGHT as int);
    }
}

proof fn lemma_angle_range(d: int)
    requires
        -PADDLE_HEIGHT <= d <= PADDLE_HEIGHT,
    ensures
        -MAX_BOUNCE_ANGLE <= bounce_angle(d) <= MAX_BOUNCE_ANGLE,
{
    lemma_tdiv_bound(d * MAX_BOUNCE_ANGLE, PADDLE_HEIGHT * MAX_BOUNCE_ANGLE, PADDLE_HEIGHT as int);
    vstd::arithmetic::div_mod::lemma_div_multiples_vanish(MAX_BOUNCE_ANGLE as int, PADDLE_HEIGHT as int);
}

/// A ball level with the paddle's centre leaves straight back: the candidate
/// direction is horizontal and of full length.
pub proof fn lemma_centre_hit_is_horizontal(paddle: Vec2, hit: Vec2)
    requires
        hit.y == paddle.y,
        -PADDLE_HEIGHT <= hit.x - paddle.x <= PADDLE_HEIGHT,
    ensures
        bounce_direction(paddle, hit) == (Vec2 { x: UNIT, y: 0 }),
{
    let c = cosine(bounce_angle(hit.x - paddle.x));
    lemma_angle_range(hit.x - paddle.x);
    lemma_cosine_floor(bounce_angle(hit.x - paddle.x));
    assert(bounce_angle(0) == 0);
    lemma_sine_monotonic(0, 0);
    assert(sine(0) == 0);
    assert(crate::trig::is_root(c, c * c + 0 * 0)) by {
        assert(c * c < (c + 1) * (c + 1)) by (nonlinear_arith)
            requires
                c > 0,
        ;
    }
    crate::trig::lemma_root_is(c, c * c + 0 * 0);
    vstd::arithmetic::div_mod::lemma_div_multiples_vanish(UNIT as int, c);
    assert(c * UNIT == UNIT * c) by (nonlinear_arith);
}


/// The square extent of the ball.
pub open spec fn ball_extent() -> Vec2 {
    Vec2 { x: BALL_SIZE, y: BALL_SIZE }
}

/// The direction after touching a wall on the given side: the component
/// perpendicular to that side is negated only if the ball moves into the wall.
pub open spec fn reflect(d: Vec2, side: Collision) -> Vec2 {
    match side {
        Collision::Top => if d.y < 0 {
            Vec2 { x: d.x, y: (-d.y) as i64 }
        } else {
            d
        },
        Collision::Bottom => if d.y > 0 {
            Vec2 { x: d.x, y: (-d.y) as i64 }
        } else {
            d
        },
        Collision::Right => if d.x < 0 {
            Vec2 { x: (-d.x) as i64, y: d.y }
        } else {
            d
        },
        Collision::Left => if d.x > 0 {
            Vec2 { x: (-d.x) as i64, y: d.y }
        } else {
            d
        },
        Collision::Inside => d,
    }
}

/// The direction after touching a paddle on the given side: off either face the
/// bounce-angle candidate, sent away from the paddle with its vertical
/// component negated; off any other part a full reflection.
pub open spec fn paddle_rebound(direction: Vec2, paddle: Vec2, hit: Vec2, side: Collision) -> Vec2 {
    let a = bounce_direction(paddle, hit);
    match side {
        Collision::Right => Vec2 { x: a.x, y: (-a.y) as i64 },
        Collision::Left => Vec2 { x: (-a.x) as i64, y: (-a.y) as i64 },
        _ => Vec2 { x: (-direction.x) as i64, y: (-direction.y) as i64 },
    }
}

/// The effect of one collider on the ball, the contact cache and the score:
/// the new ball, cache and score, the event emitted if any, and whether the
/// ball overlapped the collider at all.
pub open spec fn contact_outcome(
    ball: Ball,
    position: Vec2,
    collider: Collider,
    last: Option<Collision>,
    score: Score,
) -> (Ball, Option<Collision>, Score, Option<CollisionEvent>, bool) {
    match contact(position, ball_extent(), collider.position, collider.size) {
        None => (ball, last, score, None, false),
        Some(side) => if last == Some(side) {
            (ball, last, score, None, true)
        } else {
            match collider.kind {
                ColliderKind::Paddle => (
                    Ball {
                        direction: paddle_rebound(ball.direction, collider.position, position, side),
                        speed: ball.speed,
                    },
                    Some(side),
                    score,
                    Some(CollisionEvent::Paddle),
                    true,
                ),
                ColliderKind::Wall(wall) => {
                    let d = reflect(ball.direction, side);
                    match wall {
                        Wall::Right => (
                            Ball { direction: d, speed: 0 },
                            Some(side),
                            Score { left: (score.left + 1) as u64, right: score.right },
                            Some(CollisionEvent::Goal),
                            true,
                        ),
                        Wall::Left => (
                            Ball { direction: d, speed: 0 },
                            Some(side),
                            Score { left: score.left, right: (score.right + 1) as u64 },
                            Some(CollisionEvent::Goal),
                            true,
                        ),
                        _ => (
                            Ball { direction: d, speed: ball.speed },
                            Some(side),
                            score,
                            Some(CollisionEvent::Wall),
                            true,
                        ),
                    }
                },
            }
        },
    }
}

/// The colliders applied one after another, in order: the final ball, cache
/// and score, the events emitted, and whether any collider was touched.
pub open spec fn resolve(
    ball: Ball,
    position: Vec2,
    colliders: Seq<Collider>,
    last: Option<Collision>,
    score: Score,
) -> (Ball, Option<Collision>, Score, Seq<CollisionEvent>, bool)
    decreases colliders.len(),
{
    if colliders.len() == 0 {
        (ball, last, score, Seq::empty(), false)
    } else {
        let prev = resolve(ball, position, colliders.drop_last(), last, score);
        let out = contact_outcome(prev.0, position, colliders.last(), prev.1, prev.2);
        let events = match out.3 {
            Some(e) => prev.3.push(e),
            None => prev.3,
        };
        (out.0, out.1, out.2, events, prev.4 || out.4)
    }
}

/// A ball that touches nothing in a step forgets its last contact.
pub open spec fn cache_after(resolved: (Ball, Option<Collision>, Score, Seq<CollisionEvent>, bool)) -> Option<Collision> {
    if resolved.4 {
        resolved.1
    } else {
        None
    }
}

proof fn lemma_negation_keeps_unit(d: Vec2, e: Vec2)
    requires
        is_unit(d),
        -2 * UNIT <= d.x <= 2 * UNIT,
        -2 * UNIT <= d.y <= 2 * UNIT,
        e.x == d.x || e.x == -d.x,
        e.y == d.y || e.y == -d.y,
    ensures
        is_unit(e),
{
    assert(e.x * e.x == d.x * d.x) by (nonlinear_arith)
        requires
            e.x == d.x || e.x == -d.x,
    ;
    assert(e.y * e.y == d.y * d.y) by (nonlinear_arith)
        requires
            e.y == d.y || e.y == -d.y,
    ;
}

fn reflect_exec(d: Vec2, side: Collision) -> (r: Vec2)
    requires
        is_unit(d),
    ensures
        r == reflect(d, side),
        is_unit(r),
{
    proof {
        lemma_unit_bounds(d);
    }
    let r = match side {
        Collision::Top => if d.y < 0 {
            Vec2::new(d.x, -d.y)
        } else {
            d
        },
        Collision::Bottom => if d.y > 0 {
            Vec2::new(d.x, -d.y)
        } else {
            d
        },
        Collision::Right => if d.x < 0 {
            Vec2::new(-d.x, d.y)
        } else {
            d
        },
        Collision::Left => if d.x > 0 {
            Vec2::new(-d.x, d.y)
        } else {
            d
        },
        Collision::Inside => d,
    };
    proof {
        lemma_negation_keeps_unit(d, r);
    }
    r
}

proof fn lemma_contact_is_near(position: Vec2, collider: Collider)
    requires
        contact(position, ball_extent(), collider.position, collider.size) is Some,
        collider.wf(),
        collider.kind is Paddle,
    ensures
        -PADDLE_HEIGHT <= position.x - collider.position.x <= PADDLE_HEIGHT,
{
}

fn resolve_contact(
    ball: &mut Ball,
    position: Vec2,
    collider: Collider,
    last: &mut Option<Collision>,
    score: &mut Score,
) -> (r: (Option<CollisionEvent>, bool))
    requires
        old(ball).wf(),
        position.bounded(),
        collider.wf(),
        old(score).left < u64::MAX,
        old(score).right < u64::MAX,
    ensures
        contact_outcome(*old(ball), position, collider, *old(last), *old(score)) == (
            *final(ball),
            *final(last),
            *final(score),
            r.0,
            r.1,
        ),
        final(ball).wf(),
{
    let c = collide(position, Vec2::new(BALL_SIZE, BALL_SIZE), collider.position, collider.size);
    let side = match c {
        None => {
            return (None, false);
        },
        Some(side) => side,
    };
    if *last == Some(side) {
        return (None, true);
    }
    *last = Some(side);
    match collider.kind {
        ColliderKind::Paddle => {
            proof {
                lemma_contact_is_near(position, collider);
                lemma_unit_bounds(ball.direction);
            }
            let a = BallPlugin::calculate_bounce_angle(collider.position, position);
            proof {
                lemma_unit_bounds(a);
            }
            let d = match side {
                Collision::Right => Vec2::new(a.x, -a.y),
                Collision::Left => Vec2::new(-a.x, -a.y),
                _ => Vec2::new(-ball.direction.x, -ball.direction.y),
            };
            proof {
                if side == Collision::Right || side == Collision::Left {
                    lemma_negation_keeps_unit(a, d);
                } else {
                    lemma_negation_keeps_unit(ball.direction, d);
                }
            }
            ball.direction = d;
            (Some(CollisionEvent::Paddle), true)
        },
        ColliderKind::Wall(wall) => {
            ball.direction = reflect_exec(ball.direction, side);
            match wall {
                Wall::Right => {
                    score.left = score.left + 1;
                    ball.speed = 0;
                    (Some(CollisionEvent::Goal), true)
                },
                Wall::Left => {
                    score.right = score.right + 1;
                    ball.speed = 0;
                    (Some(CollisionEvent::Goal), true)
                },
                _ => (Some(CollisionEvent::Wall), true),
            }
        },
    }
}


/// Off the top or bottom wall, a ball moving into the wall has its vertical
/// direction negated and its horizontal direction kept, with a wall event; a
/// ball already moving away from the face it overlaps is not reflected again,
/// and a contact classified as the cached one changes nothing.
pub proof fn lemma_wall_bounce(ball: Ball, position: Vec2, collider: Collider, last: Option<Collision>, score: Score)
    requires
        ball.wf(),
        collider.kind == ColliderKind::Wall(Wall::Top) || collider.kind == ColliderKind::Wall(Wall::Bottom),
    ensures
        ({
            let side = contact(position, ball_extent(), collider.position, collider.size);
            let out = contact_outcome(ball, position, collider, last, score);
            let d = ball.direction;
            let e = out.0.direction;
            &&& side == Some(Collision::Top) && last != side && d.y < 0 ==> e.x == d.x && e.y == -d.y
                && out.3 == Some(CollisionEvent::Wall)
            &&& side == Some(Collision::Bottom) && last != side && d.y > 0 ==> e.x == d.x && e.y == -d.y
                && out.3 == Some(CollisionEvent::Wall)
            &&& side == Some(Collision::Top) && d.y >= 0 ==> e == d
            &&& side == Some(Collision::Bottom) && d.y <= 0 ==> e == d
            &&& side is Some && last == side ==> out.0 == ball && out.3 is None
            &&& out.0.speed == ball.speed
            &&& out.2 == score
        }),
{
    lemma_unit_bounds(ball.direction);
}

/// Negating a direction's vertical component negates the vertical velocity and
/// keeps the horizontal one.
pub proof fn lemma_vertical_flip_velocity(ball: Ball)
    requires
        ball.wf(),
    ensures
        ({
            let flipped = Ball { direction: Vec2 { x: ball.direction.x, y: (-ball.direction.y) as i64 }, speed: ball.speed };
            &&& velocity_of(flipped).x == velocity_of(ball).x
            &&& velocity_of(flipped).y == -velocity_of(ball).y
        }),
{
    let x = ball.direction.x as int;
    let y = ball.direction.y as int;
    let f = Vec2 { x: ball.direction.x, y: (-ball.direction.y) as i64 };
    lemma_unit_bounds(ball.direction);
    assert((-y) * (-y) == y * y) by (nonlinear_arith);
    assert(is_unit(f));
    crate::trig::lemma_normalized_of_unit(ball.direction);
    crate::trig::lemma_normalized_of_unit(f);
    let n = crate::trig::root(x * x + y * y);
    assert((-y) * UNIT == -(y * UNIT)) by (nonlinear_arith);
    lemma_tdiv_negate(y * UNIT, n);
    let nx = tdiv(x * UNIT, n);
    let ny = tdiv(y * UNIT, n);
    assert((-ny) * ball.speed == -(ny * ball.speed)) by (nonlinear_arith);
    lemma_tdiv_negate(ny * ball.speed, UNIT as int);
    lemma_speed_scale(ny, ball.speed as int);
    lemma_speed_scale(nx, ball.speed as int);
}

/// Truncating division commutes with negation.
pub proof fn lemma_tdiv_negate(a: int, d: int)
    requires
        d > 0,
    ensures
        tdiv(-a, d) == -tdiv(a, d),
{
    if a == 0 {
        vstd::arithmetic::div_mod::lemma_div_basics_2(d);
    }
}

/// A ball that reaches the right wall scores one for the left side, stops and
/// emits a goal; one that reaches the left wall scores one for the right side.
pub proof fn lemma_goal(ball: Ball, position: Vec2, collider: Collider, last: Option<Collision>, score: Score)
    requires
        collider.kind == ColliderKind::Wall(Wall::Right) || collider.kind == ColliderKind::Wall(Wall::Left),
        score.left < u64::MAX,
        score.right < u64::MAX,
        contact(position, ball_extent(), collider.position, collider.size) is Some,
        last != contact(position, ball_extent(), collider.position, collider.size),
    ensures
        ({
            let out = contact_outcome(ball, position, collider, last, score);
            &&& out.0.speed == 0
            &&& out.3 == Some(CollisionEvent::Goal)
            &&& collider.kind == ColliderKind::Wall(Wall::Right) ==> out.2.left == score.left + 1
                && out.2.right == score.right
            &&& collider.kind == ColliderKind::Wall(Wall::Left) ==> out.2.right == score.right + 1
                && out.2.left == score.left
        }),
{
}

/// Resolving contacts never lowers either counter.
pub proof fn lemma_resolve_score_grows(
    ball: Ball,
    position: Vec2,
    colliders: Seq<Collider>,
    last: Option<Collision>,
    score: Score,
)
    requires
        score.left + colliders.len() <= u64::MAX,
        score.right + colliders.len() <= u64::MAX,
    ensures
        score.left <= resolve(ball, position, colliders, last, score).2.left <= score.left + colliders.len(),
        score.right <= resolve(ball, position, colliders, last, score).2.right <= score.right + colliders.len(),
    decreases colliders.len(),
{
    if colliders.len() > 0 {
        lemma_resolve_score_grows(ball, position, colliders.drop_last(), last, score);
    }
}

/// Ball systems.
pub struct BallPlugin;

impl BallPlugin {
    /// The serve direction for the two coin flips.
    pub fn serve(right: bool, up: bool) -> (r: Vec2)
        ensures
            r == serve_direction(right, up),
            is_unit(r),
    {
        let x: i64 = if right { UNIT } else { -UNIT };
        let y: i64 = if up { UNIT / 2 } else { -(UNIT / 2) };
        normalize(x, y)
    }

    /// The ball at the start of a match: served from the centre.
    pub fn setup(right: bool, up: bool) -> (r: (Ball, Vec2))
        ensures
            r.0 == served(right, up),
            r.0.wf(),
            r.1 == (Vec2 { x: 0, y: 0 }),
    {
        (Ball { direction: Self::serve(right, up), speed: BALL_SPEED }, Vec2::new(0, 0))
    }

    /// On any reset, serves the ball again from the centre.
    pub fn handle_reset(reset: Option<Reset>, ball: &mut Ball, position: &mut Vec2, right: bool, up: bool)
        requires
            old(ball).wf(),
        ensures
            final(ball).wf(),
            reset is Some ==> *final(ball) == served(right, up) && *final(position) == (Vec2 { x: 0, y: 0 }),
            reset is None ==> *final(ball) == *old(ball) && *final(position) == *old(position),
    {
        if reset.is_some() {
            let (b, p) = Self::setup(right, up);
            *ball = b;
            *position = p;
        }
    }

    /// Tests the ball against every collider in order, bouncing, scoring and
    /// reporting each new contact; a contact classified as the cached one is
    /// skipped, and a step that touches nothing clears the cache.
    pub fn check_collision(
        ball: &mut Ball,
        ball_position: Vec2,
        colliders: &Vec<Collider>,
        last_collision: &mut LastCollision,
        score: &mut Score,
    ) -> (events: Vec<CollisionEvent>)
        requires
            old(ball).wf(),
            ball_position.bounded(),
            forall|i: int| 0 <= i < colliders.len() ==> (#[trigger] colliders@[i]).wf(),
            old(score).left + colliders.len() <= u64::MAX,
            old(score).right + colliders.len() <= u64::MAX,
        ensures
            ({
                let r = resolve(*old(ball), ball_position, colliders@, old(last_collision).0, *old(score));
                &&& *final(ball) == r.0
                &&& final(last_collision).0 == cache_after(r)
                &&& *final(score) == r.2
                &&& events@ == r.3
            }),
            final(ball).wf(),
    {
        let ghost ball0 = *ball;
        let ghost last0 = last_collision.0;
        let ghost score0 = *score;
        let mut events: Vec<CollisionEvent> = Vec::new();
        let mut touched = false;
        let mut i: usize = 0;
        while i < colliders.len()
            invariant
                0 <= i <= colliders.len(),
                ball.wf(),
                ball_position.bounded(),
                forall|j: int| 0 <= j < colliders.len() ==> (#[trigger] colliders@[j]).wf(),
                score0.left + colliders.len() <= u64::MAX,
                score0.right + colliders.len() <= u64::MAX,
                score.left <= score0.left + i,
                score.right <= score0.right + i,
                resolve(ball0, ball_position, colliders@.take(i as int), last0, score0) == (
                    *ball,
                    last_collision.0,
                    *score,
                    events@,
                    touched,
                ),
            decreases colliders.len() - i,
        {
            let collider = colliders[i];
            let ghost before = *score;
            let (event, hit) = resolve_contact(ball, ball_position, collider, &mut last_collision.0, score);
            proof {
                assert(colliders@.take(i + 1).drop_last() =~= colliders@.take(i as int));
                assert(colliders@.take(i + 1).last() == collider);
                assert(score.left <= before.left + 1 && score.right <= before.right + 1);
            }
            if let Some(e) = event {
                events.push(e);
            }
            touched = touched || hit;
            i = i + 1;
        }
        proof {
            assert(colliders@.take(colliders.len() as int) =~= colliders@);
        }
        if !touched {
            last_collision.0 = None;
        }
        events
    }

    /// Moves the ball by its velocity over `dt` microseconds.
    pub fn update_position(ball: &Ball, position: &mut Vec2, dt: u64)
        requires
            ball.wf(),
            dt <= STEP_LIMIT,
            -POSITION_LIMIT <= old(position).x <= POSITION_LIMIT,
            -POSITION_LIMIT <= old(position).y <= POSITION_LIMIT,
        ensures
            final(position).x == old(position).x + travel(velocity_of(*ball).x as int, dt as int),
            final(position).y == old(position).y + travel(velocity_of(*ball).y as int, dt as int),
            final(position).bounded(),
    {
        let v = ball.velocity();
        let dx = step_distance(v.x, dt);
        let dy = step_distance(v.y, dt);
        position.x = position.x + dx;
        position.y = position.y + dy;
    }

    /// The outgoing direction candidate for a ball at `hit_pos` touching the
    /// paddle at `paddle_pos`.
    pub fn calculate_bounce_angle(paddle_pos: Vec2, hit_pos: Vec2) -> (r: Vec2)
        requires
            paddle_pos.bounded(),
            hit_pos.bounded(),
            -PADDLE_HEIGHT <= hit_pos.x - paddle_pos.x <= PADDLE_HEIGHT,
        ensures
            r == bounce_direction(paddle_pos, hit_pos),
            is_unit(r),
    {
        let dx = hit_pos.x - paddle_pos.x;
        let dy = hit_pos.y - paddle_pos.y;
        let ax = scale_trunc(dx, MAX_BOUNCE_ANGLE, PADDLE_HEIGHT);
        let ay = scale_trunc(dy, MAX_BOUNCE_ANGLE, PADDLE_HEIGHT);
        proof {
            lemma_angle_range(dx as int);
            lemma_tdiv_bound(dy * MAX_BOUNCE_ANGLE, 2 * COORD_LIMIT * MAX_BOUNCE_ANGLE, PADDLE_HEIGHT as int);
        }
        let c = cos_deci(ax);
        let s = sin_deci(ay);
        proof {
            lemma_cosine_floor(ax as int);
            assert(c * c + (-s) * (-s) >= UNIT * UNIT / 16) by (nonlinear_arith)
                requires
                    c >= UNIT / 4,
            ;
        }
        normalize(c, -s)
    }
}

} // verus!
