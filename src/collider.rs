//! Static and moving bodies that the ball can touch.
use vstd::prelude::*;
use crate::field::PADDLE_WIDTH;
use crate::geometry::Vec2;
use crate::wall::Wall;

verus! {

/// What a collider is.
#[derive(Clone, Copy, Debug, PartialEq, Eq, Structural)]
pub enum ColliderKind {
    Paddle,
    Wall(Wall),
}

/// A rectangle that the ball bounces off: its centre, its size and its kind.
#[derive(Clone, Copy, Debug, PartialEq, Eq, Structural)]
pub struct Collider {
    pub position: Vec2,
    pub size: Vec2,
    pub kind: ColliderKind,
}

impl Collider {
    /// Its coordinates are in range, and a paddle is no wider than a paddle.
    pub open spec fn wf(self) -> bool {
        &&& self.position.bounded()
        &&& self.size.is_extent()
        &&& (self.kind is Paddle ==> self.size.x <= PADDLE_WIDTH)
    }
}

} // verus!
