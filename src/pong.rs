//! The whole simulation state and its fixed-order step: controls, movement,
//! collisions, then resets and phase transitions.
use vstd::prelude::*;
use crate::ai_paddle::{ai_velocity, AiPaddlePlugin};
use crate::ball::{
    cache_after, resolve, served, velocity_of, Ball, BallPlugin, CollisionEvent, LastCollision,
};
use crate::collider::{Collider, ColliderKind};
use crate::field::{
    PADDLE_HEIGHT, PADDLE_SPEED, PADDLE_WIDTH, PADDLE_X, PADDLE_Y_LIMIT, POSITION_LIMIT, STEP_LIMIT,
};
use crate::geometry::Vec2;
use crate::paddle::{home, input_velocity, paddle_moved, travel, Paddle, PaddlePlugin};
use crate::player::Player;
use crate::reset::{honoured, last_reset, Reset, ResetPlugin};
use crate::rng::coin_flip;
use bevy_turborand::GlobalRng;
use crate::score::{Score, ScorePlugin};
use crate::state::{next_phase, wait_step, GameState, PongPlugin, WaitAfterGoalTimer};
use crate::wall::{wall_rect, Wall, WallPlugin};

verus! {

/// The up and down controls of one paddle.
#[derive(Clone, Copy, Debug, PartialEq, Eq, Structural)]
pub struct PaddleInput {
    pub up: bool,
    pub down: bool,
}

/// Everything the players asserted during one step.
#[derive(Clone, Copy, Debug, PartialEq, Eq, Structural)]
pub struct Input {
    pub left: PaddleInput,
    pub right: PaddleInput,
    pub pause: bool,
    pub hard_reset: bool,
    pub any_key: bool,
}

/// What one step emitted: the collision events in order, and the reset queue.
pub struct Tick {
    pub events: Vec<CollisionEvent>,
    pub resets: Vec<Reset>,
}

/// The simulation: phase, ball, both paddles, score, contact cache and the wait
/// timer; `ai` names the side, if any, that the computer plays.
#[derive(Clone, Copy, Debug, PartialEq, Eq, Structural)]
pub struct Pong {
    pub state: GameState,
    pub ball: Ball,
    pub ball_position: Vec2,
    pub left: Paddle,
    pub left_position: Vec2,
    pub right: Paddle,
    pub right_position: Vec2,
    pub score: Score,
    pub last_collision: LastCollision,
    pub timer: WaitAfterGoalTimer,
    pub ai: Option<Player>,
}

/// Movement and collisions run in the menu, as a preview, and during play.
pub open spec fn active(state: GameState) -> bool {
    state == GameState::Menu || state == GameState::Playing
}

/// A paddle's motion after the controls of a step: the computer's choice on its
/// side while the simulation runs, the manual controls during play.
pub open spec fn controlled(
    paddle: Paddle,
    position: Vec2,
    player: Player,
    ai: Option<Player>,
    state: GameState,
    input: PaddleInput,
    ball_velocity: Vec2,
    ball_position: Vec2,
) -> Paddle {
    if ai == Some(player) {
        if active(state) {
            Paddle {
                speed: paddle.speed,
                velocity: Vec2 {
                    x: paddle.velocity.x,
                    y: ai_velocity(paddle.speed as int, position.y as int, player, ball_position, ball_velocity) as i64,
                },
            }
        } else {
            paddle
        }
    } else if state == GameState::Playing {
        Paddle {
            speed: paddle.speed,
            velocity: Vec2 { x: paddle.velocity.x, y: input_velocity(paddle.speed as int, input.up, input.down) as i64 },
        }
    } else {
        paddle
    }
}

/// The collider of a paddle at the given position.
pub open spec fn paddle_collider(position: Vec2) -> Collider {
    Collider { position, size: Vec2 { x: PADDLE_WIDTH, y: PADDLE_HEIGHT }, kind: ColliderKind::Paddle }
}

/// The collider of a wall.
pub open spec fn wall_collider(wall: Wall) -> Collider {
    Collider { position: wall_rect(wall).0, size: wall_rect(wall).1, kind: ColliderKind::Wall(wall) }
}

/// All colliders, in the order in which the ball is tested against them.
pub open spec fn collider_list(left: Vec2, right: Vec2) -> Seq<Collider> {
    seq![
        paddle_collider(left),
        paddle_collider(right),
        wall_collider(Wall::Top),
        wall_collider(Wall::Right),
        wall_collider(Wall::Bottom),
        wall_collider(Wall::Left),
    ]
}

/// One soft reset for each goal, in order.
pub open spec fn goal_resets(events: Seq<CollisionEvent>) -> Seq<Reset>
    decreases events.len(),
{
    if events.len() == 0 {
        Seq::empty()
    } else if events.last() == CollisionEvent::Goal {
        goal_resets(events.drop_last()).push(Reset::Soft)
    } else {
        goal_resets(events.drop_last())
    }
}

/// A position moved by a velocity over `dt` microseconds.
pub open spec fn moved(position: Vec2, velocity: Vec2, dt: int) -> Vec2 {
    Vec2 {
        x: (position.x + travel(velocity.x as int, dt)) as i64,
        y: (position.y + travel(velocity.y as int, dt)) as i64,
    }
}

/// A paddle position after a step of its motion.
pub open spec fn paddle_step(position: Vec2, paddle: Paddle, dt: int) -> Vec2 {
    Vec2 { x: position.x, y: paddle_moved(position.y as int, paddle.velocity.y as int, dt) as i64 }
}

/// The state after one step of `dt` microseconds with the given input, where
/// `right` and `up` are the coin flips of a serve; also the collision events and
/// the reset queue of the step.
pub open spec fn step(p: Pong, input: Input, dt: int, right: bool, up: bool) -> (Pong, Seq<CollisionEvent>, Seq<Reset>) {
    let s0 = p.state;
    let go = active(s0);
    let v = velocity_of(p.ball);
    let lp = controlled(p.left, p.left_position, Player::Left, p.ai, s0, input.left, v, p.ball_position);
    let rp = controlled(p.right, p.right_position, Player::Right, p.ai, s0, input.right, v, p.ball_position);
    let bpos = if go { moved(p.ball_position, velocity_of(p.ball), dt) } else { p.ball_position };
    let lpos = if go { paddle_step(p.left_position, lp, dt) } else { p.left_position };
    let rpos = if go { paddle_step(p.right_position, rp, dt) } else { p.right_position };
    let r = resolve(p.ball, bpos, collider_list(lpos, rpos), p.last_collision.0, p.score);
    let ball = if go { r.0 } else { p.ball };
    let last = if go { cache_after(r) } else { p.last_collision.0 };
    let score = if go { r.2 } else { p.score };
    let events = if go { r.3 } else { Seq::<CollisionEvent>::empty() };
    let hard = if input.hard_reset && s0 == GameState::Playing { seq![Reset::Hard] } else { Seq::<Reset>::empty() };
    let queue = hard + goal_resets(events);
    let reset = honoured(queue);
    let is_hard = reset == Some(Reset::Hard);
    let goal = events.contains(CollisionEvent::Goal);
    let wait = wait_step(s0, p.timer.elapsed as int, dt);
    let next = Pong {
        state: next_phase(s0, input.any_key, input.pause, goal, wait.0 == GameState::Playing),
        ball: if reset is Some { served(right, up) } else { ball },
        ball_position: if reset is Some { Vec2 { x: 0, y: 0 } } else { bpos },
        left: if is_hard { Paddle { speed: PADDLE_SPEED, velocity: lp.velocity } } else { lp },
        left_position: if is_hard { home(Player::Left) } else { lpos },
        right: if is_hard { Paddle { speed: PADDLE_SPEED, velocity: rp.velocity } } else { rp },
        right_position: if is_hard { home(Player::Right) } else { rpos },
        score: if is_hard { Score { left: 0, right: 0 } } else { score },
        last_collision: LastCollision(last),
        timer: WaitAfterGoalTimer { elapsed: wait.1 as u64 },
        ai: p.ai,
    };
    (next, events, queue)
}


/// A goal during play starts the wait before the next round, and the step's
/// honoured reset is a soft one.
pub proof fn lemma_goal_starts_wait(p: Pong, input: Input, dt: int, right: bool, up: bool)
    requires
        p.state == GameState::Playing,
        step(p, input, dt, right, up).1.contains(CollisionEvent::Goal),
    ensures
        step(p, input, dt, right, up).0.state == GameState::WaitBeforeRound,
        honoured(step(p, input, dt, right, up).2) == Some(Reset::Soft),
{
    let events = step(p, input, dt, right, up).1;
    lemma_goal_resets_end_soft(events);
}

proof fn lemma_goal_resets_end_soft(events: Seq<CollisionEvent>)
    requires
        events.contains(CollisionEvent::Goal),
    ensures
        goal_resets(events).len() > 0,
        goal_resets(events).last() == Reset::Soft,
    decreases events.len(),
{
    if events.last() != CollisionEvent::Goal {
        let j = choose|j: int| 0 <= j < events.len() && events[j] == CollisionEvent::Goal;
        assert(events.drop_last()[j] == CollisionEvent::Goal);
        lemma_goal_resets_end_soft(events.drop_last());
    }
}

/// After a step whose honoured reset is hard, both counters are zero and both
/// paddles are at home at the default speed, whatever the state before; after
/// one whose honoured reset is soft, neither counter is lower than before.
pub proof fn lemma_reset_effects(p: Pong, input: Input, dt: int, right: bool, up: bool)
    requires
        p.score.left + 6 <= u64::MAX,
        p.score.right + 6 <= u64::MAX,
    ensures
        ({
            let s = step(p, input, dt, right, up);
            &&& honoured(s.2) == Some(Reset::Hard) ==> s.0.score == (Score { left: 0, right: 0 })
                && s.0.left_position == home(Player::Left) && s.0.right_position == home(Player::Right)
                && s.0.left.speed == PADDLE_SPEED && s.0.right.speed == PADDLE_SPEED
            &&& honoured(s.2) == Some(Reset::Soft) ==> s.0.score.left >= p.score.left
                && s.0.score.right >= p.score.right
            &&& honoured(s.2) is Some ==> s.0.ball == served(right, up) && s.0.ball_position == (Vec2 { x: 0, y: 0 })
        }),
{
    let s0 = p.state;
    let v = velocity_of(p.ball);
    let lp = controlled(p.left, p.left_position, Player::Left, p.ai, s0, input.left, v, p.ball_position);
    let rp = controlled(p.right, p.right_position, Player::Right, p.ai, s0, input.right, v, p.ball_position);
    let bpos = moved(p.ball_position, v, dt);
    let lpos = paddle_step(p.left_position, lp, dt);
    let rpos = paddle_step(p.right_position, rp, dt);
    crate::ball::lemma_resolve_score_grows(p.ball, bpos, collider_list(lpos, rpos), p.last_collision.0, p.score);
}

/// A hard reset asked for during play, in a step without a goal, is honoured.
pub proof fn lemma_hard_reset_honoured(p: Pong, input: Input, dt: int, right: bool, up: bool)
    requires
        p.state == GameState::Playing,
        input.hard_reset,
        !step(p, input, dt, right, up).1.contains(CollisionEvent::Goal),
    ensures
        honoured(step(p, input, dt, right, up).2) == Some(Reset::Hard),
{
    let events = step(p, input, dt, right, up).1;
    lemma_no_goal_no_resets(events);
    assert(seq![Reset::Hard] + goal_resets(events) =~= seq![Reset::Hard]);
}

proof fn lemma_no_goal_no_resets(events: Seq<CollisionEvent>)
    requires
        !events.contains(CollisionEvent::Goal),
    ensures
        goal_resets(events) == Seq::<Reset>::empty(),
    decreases events.len(),
{
    if events.len() > 0 {
        assert(events.last() == events[events.len() - 1]);
        assert(!events.drop_last().contains(CollisionEvent::Goal)) by {
            if events.drop_last().contains(CollisionEvent::Goal) {
                let j = choose|j: int| 0 <= j < events.drop_last().len() && events.drop_last()[j] == CollisionEvent::Goal;
                assert(events[j] == CollisionEvent::Goal);
            }
        }
        lemma_no_goal_no_resets(events.drop_last());
    }
}

impl Pong {
    /// The invariant of the simulation: a unit ball direction, paddles at the
    /// default speed on their own side inside the field, a running wait timer.
    pub open spec fn wf(self) -> bool {
        &&& self.ball.wf()
        &&& self.left.wf()
        &&& self.right.wf()
        &&& self.left.speed == PADDLE_SPEED
        &&& self.right.speed == PADDLE_SPEED
        &&& self.left_position.x == -PADDLE_X
        &&& self.right_position.x == PADDLE_X
        &&& -PADDLE_Y_LIMIT <= self.left_position.y <= PADDLE_Y_LIMIT
        &&& -PADDLE_Y_LIMIT <= self.right_position.y <= PADDLE_Y_LIMIT
        &&& self.timer.wf()
    }

    /// A step may start from this state: it is well formed, the ball is within
    /// the representable range, and neither counter is about to overflow.
    pub open spec fn steppable(self) -> bool {
        &&& self.wf()
        &&& -POSITION_LIMIT <= self.ball_position.x <= POSITION_LIMIT
        &&& -POSITION_LIMIT <= self.ball_position.y <= POSITION_LIMIT
        &&& self.score.left + 6 <= u64::MAX
        &&& self.score.right + 6 <= u64::MAX
    }

    /// A new match in the menu: the ball served by the two coin flips, paddles
    /// at home, no score.
    pub fn new(ai: Option<Player>, right: bool, up: bool) -> (r: Pong)
        ensures
            r.wf(),
            r.state == GameState::Menu,
            r.ball == served(right, up),
            r.ball_position == (Vec2 { x: 0, y: 0 }),
            r.left == (Paddle { speed: PADDLE_SPEED, velocity: Vec2 { x: 0, y: 0 } }),
            r.right == (Paddle { speed: PADDLE_SPEED, velocity: Vec2 { x: 0, y: 0 } }),
            r.left_position == home(Player::Left),
            r.right_position == home(Player::Right),
            r.score == (Score { left: 0, right: 0 }),
            r.last_collision.0 is None,
            r.timer.elapsed == 0,
            r.ai == ai,
    {
        let (ball, ball_position) = BallPlugin::setup(right, up);
        let (left, left_position) = PaddlePlugin::setup(Player::Left);
        let (right, right_position) = PaddlePlugin::setup(Player::Right);
        Pong {
            state: GameState::Menu,
            ball,
            ball_position,
            left,
            left_position,
            right,
            right_position,
            score: Score::default(),
            last_collision: LastCollision(None),
            timer: WaitAfterGoalTimer::new(),
            ai,
        }
    }

    /// Applies the controls of one step to a paddle.
    fn control(
        paddle: &mut Paddle,
        position: Vec2,
        player: Player,
        ai: Option<Player>,
        state: GameState,
        input: PaddleInput,
        ball_velocity: Vec2,
        ball_position: Vec2,
    )
        requires
            old(paddle).wf(),
        ensures
            *final(paddle) == controlled(*old(paddle), position, player, ai, state, input, ball_velocity, ball_position),
            final(paddle).wf(),
    {
        if ai == Some(player) {
            if PongPlugin::in_menu_or_playing(state) {
                AiPaddlePlugin::process_player(paddle, position, player, ball_position, ball_velocity);
            }
        } else if PongPlugin::is_playing(state) {
            PaddlePlugin::handle_input(paddle, input.up, input.down);
        }
    }

    /// Appends one soft reset for each goal among the events, and reports
    /// whether there was a goal.
    fn queue_goal_resets(events: &Vec<CollisionEvent>, resets: &mut Vec<Reset>) -> (goal: bool)
        ensures
            final(resets)@ == old(resets)@ + goal_resets(events@),
            goal == events@.contains(CollisionEvent::Goal),
    {
        let ghost start = resets@;
        let mut goal = false;
        let mut i: usize = 0;
        while i < events.len()
            invariant
                0 <= i <= events.len(),
                resets@ == start + goal_resets(events@.take(i as int)),
                goal == events@.take(i as int).contains(CollisionEvent::Goal),
            decreases events.len() - i,
        {
            let ghost prefix = events@.take(i as int);
            let ghost next = events@.take(i + 1);
            proof {
                assert(next.drop_last() =~= prefix);
                assert(next.last() == events@[i as int]);
            }
            if events[i] == CollisionEvent::Goal {
                resets.push(Reset::Soft);
                goal = true;
                proof {
                    assert(next[i as int] == CollisionEvent::Goal);
                }
            } else {
                proof {
                    if next.contains(CollisionEvent::Goal) {
                        let j = choose|j: int| 0 <= j < next.len() && next[j] == CollisionEvent::Goal;
                        assert(prefix[j] == CollisionEvent::Goal);
                    }
                    if prefix.contains(CollisionEvent::Goal) {
                        let j = choose|j: int| 0 <= j < prefix.len() && prefix[j] == CollisionEvent::Goal;
                        assert(next[j] == CollisionEvent::Goal);
                    }
                }
            }
            proof {
                assert(start + goal_resets(next) =~= resets@);
            }
            i = i + 1;
        }
        proof {
            assert(events@.take(events.len() as int) =~= events@);
        }
        goal
    }

    /// One step of `dt` microseconds, with `right` and `up` as the coin flips
    /// of any serve that the step makes.
    pub fn advance(&mut self, input: Input, dt: u64, right: bool, up: bool) -> (t: Tick)
        requires
            old(self).steppable(),
            dt <= STEP_LIMIT,
        ensures
            ({
                let s = step(*old(self), input, dt as int, right, up);
                &&& *final(self) == s.0
                &&& t.events@ == s.1
                &&& t.resets@ == s.2
            }),
            final(self).wf(),
    {
        let s0 = self.state;
        let go = PongPlugin::in_menu_or_playing(s0);
        let ball_velocity = self.ball.velocity();
        Self::control(&mut self.left, self.left_position, Player::Left, self.ai, s0, input.left, ball_velocity, self.ball_position);
        Self::control(&mut self.right, self.right_position, Player::Right, self.ai, s0, input.right, ball_velocity, self.ball_position);
        let events = if go {
            BallPlugin::update_position(&self.ball, &mut self.ball_position, dt);
            PaddlePlugin::update_position(&self.left, &mut self.left_position, dt);
            PaddlePlugin::update_position(&self.right, &mut self.right_position, dt);
            let colliders = Self::colliders(self.left_position, self.right_position);
            proof {
                let cs = colliders@;
                assert(cs[0].wf());
                assert(cs[1].wf());
                assert(cs[2].wf());
                assert(cs[3].wf());
                assert(cs[4].wf());
                assert(cs[5].wf());
                assert(forall|i: int| 0 <= i < colliders.len() ==> (#[trigger] colliders@[i]).wf());
            }
            BallPlugin::check_collision(&mut self.ball, self.ball_position, &colliders, &mut self.last_collision, &mut self.score)
        } else {
            Vec::new()
        };
        let mut resets: Vec<Reset> = Vec::new();
        if let Some(hard) = ResetPlugin::hard_reset_on_keypress(s0, input.hard_reset) {
            resets.push(hard);
        }
        let goal = Self::queue_goal_resets(&events, &mut resets);
        let reset = last_reset(&resets);
        BallPlugin::handle_reset(reset, &mut self.ball, &mut self.ball_position, right, up);
        PaddlePlugin::handle_reset(reset, &mut self.left, &mut self.left_position, Player::Left);
        PaddlePlugin::handle_reset(reset, &mut self.right, &mut self.right_position, Player::Right);
        ScorePlugin::handle_reset(reset, &mut self.score);
        let waited = WaitAfterGoalTimer::pause_after_goal(s0, &mut self.timer, dt);
        self.state = PongPlugin::next_state(s0, input.any_key, input.pause, goal, waited == GameState::Playing);
        proof {
            assert(resets@ =~= step(*old(self), input, dt as int, right, up).2);
        }
        Tick { events, resets }
    }

    /// One step of `dt` microseconds; a serve in it goes in a direction drawn
    /// from `rng`. The result is the step for some pair of coin flips.
    pub fn tick(&mut self, rng: &mut GlobalRng, input: Input, dt: u64) -> (t: Tick)
        requires
            old(self).steppable(),
            dt <= STEP_LIMIT,
        ensures
            exists|right: bool, up: bool|
                {
                    let s = #[trigger] step(*old(self), input, dt as int, right, up);
                    &&& *final(self) == s.0
                    &&& t.events@ == s.1
                    &&& t.resets@ == s.2
                },
            final(self).wf(),
    {
        let right = coin_flip(rng);
        let up = coin_flip(rng);
        self.advance(input, dt, right, up)
    }

    /// The colliders for paddles at the given positions.
    pub fn colliders(left: Vec2, right: Vec2) -> (r: Vec<Collider>)
        ensures
            r@ == collider_list(left, right),
    {
        let mut r: Vec<Collider> = Vec::new();
        let size = Vec2::new(PADDLE_WIDTH, PADDLE_HEIGHT);
        r.push(Collider { position: left, size, kind: ColliderKind::Paddle });
        r.push(Collider { position: right, size, kind: ColliderKind::Paddle });
        let walls = WallPlugin::setup();
        let mut i: usize = 0;
        while i < walls.len()
            invariant
                0 <= i <= walls.len(),
                walls@ == seq![Wall::Top, Wall::Right, Wall::Bottom, Wall::Left],
                r@ == collider_list(left, right).take(2 + i),
            decreases walls.len() - i,
        {
            let wall = walls[i];
            let (position, size) = WallPlugin::spawn_wall(wall);
            r.push(Collider { position, size, kind: ColliderKind::Wall(wall) });
            proof {
                assert(collider_list(left, right).take(2 + i + 1) =~= collider_list(left, right).take(2 + i).push(wall_collider(wall)));
            }
            i = i + 1;
        }
        proof {
            assert(collider_list(left, right).take(6) =~= collider_list(left, right));
        }
        r
    }
}

} // verus!
