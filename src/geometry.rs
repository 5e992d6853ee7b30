//! Integer vectors and axis-aligned rectangle contact classification.
use vstd::prelude::*;

verus! {

/// Largest coordinate or extent magnitude accepted by the geometry routines.
pub const COORD_LIMIT: i64 = 0x100_0000_0000;

/// A 2D vector of fixed-point integers.
#[derive(Clone, Copy, Debug, PartialEq, Eq, Structural)]
pub struct Vec2 {
    pub x: i64,
    pub y: i64,
}

impl Vec2 {
    pub fn new(x: i64, y: i64) -> (r: Vec2)
        ensures
            r.x == x,
            r.y == y,
    {
        Vec2 { x, y }
    }

    /// Both components lie within `COORD_LIMIT` in magnitude.
    pub open spec fn bounded(self) -> bool {
        -COORD_LIMIT <= self.x <= COORD_LIMIT && -COORD_LIMIT <= self.y <= COORD_LIMIT
    }

    /// Both components are non-negative and within `COORD_LIMIT`.
    pub open spec fn is_extent(self) -> bool {
        0 <= self.x <= COORD_LIMIT && 0 <= self.y <= COORD_LIMIT
    }
}

/// Which side of the second rectangle the first one touches.
#[derive(Clone, Copy, Debug, PartialEq, Eq, Structural)]
pub enum Collision {
    Left,
    Right,
    Top,
    Bottom,
    Inside,
}

/// Classification of the contact along one axis, from the doubled interval ends
/// of the moving rectangle `a` and the fixed rectangle `b`.  The depth is `None`
/// when `a` is not crossing one of `b`'s edges (an unbounded depth).
pub open spec fn axis_contact(
    a_min: int,
    a_max: int,
    b_min: int,
    b_max: int,
    low: Collision,
    high: Collision,
) -> (Collision, Option<int>) {
    if a_min < b_min && a_max > b_min && a_max < b_max {
        (low, Some(b_min - a_max))
    } else if a_min > b_min && a_min < b_max && a_max > b_max {
        (high, Some(a_min - b_max))
    } else {
        (Collision::Inside, None)
    }
}

pub open spec fn abs(v: int) -> int {
    if v < 0 {
        -v
    } else {
        v
    }
}

/// Depth `d` is strictly shallower than depth `e` (an absent depth is unbounded).
pub open spec fn shallower(d: Option<int>, e: Option<int>) -> bool {
    match d {
        None => false,
        Some(dv) => match e {
            None => true,
            Some(ev) => abs(dv) < abs(ev),
        },
    }
}

/// Contact of rectangle `a` (centre `a_pos`, size `a_size`) with rectangle `b`:
/// `None` unless their interiors overlap; otherwise the side of `b` that `a`
/// crosses, preferring the axis of shallower penetration.
pub open spec fn contact(a_pos: Vec2, a_size: Vec2, b_pos: Vec2, b_size: Vec2) -> Option<Collision> {
    let a_min_x = 2 * a_pos.x - a_size.x;
    let a_max_x = 2 * a_pos.x + a_size.x;
    let a_min_y = 2 * a_pos.y - a_size.y;
    let a_max_y = 2 * a_pos.y + a_size.y;
    let b_min_x = 2 * b_pos.x - b_size.x;
    let b_max_x = 2 * b_pos.x + b_size.x;
    let b_min_y = 2 * b_pos.y - b_size.y;
    let b_max_y = 2 * b_pos.y + b_size.y;
    if a_min_x < b_max_x && a_max_x > b_min_x && a_min_y < b_max_y && a_max_y > b_min_y {
        let (xc, xd) = axis_contact(a_min_x, a_max_x, b_min_x, b_max_x, Collision::Left, Collision::Right);
        let (yc, yd) = axis_contact(a_min_y, a_max_y, b_min_y, b_max_y, Collision::Bottom, Collision::Top);
        if shallower(yd, xd) {
            Some(yc)
        } else {
            Some(xc)
        }
    } else {
        None
    }
}

fn axis_contact_exec(
    a_min: i64,
    a_max: i64,
    b_min: i64,
    b_max: i64,
    low: Collision,
    high: Collision,
) -> (r: (Collision, Option<i64>))
    requires
        -4 * COORD_LIMIT <= a_min <= 4 * COORD_LIMIT,
        -4 * COORD_LIMIT <= a_max <= 4 * COORD_LIMIT,
        -4 * COORD_LIMIT <= b_min <= 4 * COORD_LIMIT,
        -4 * COORD_LIMIT <= b_max <= 4 * COORD_LIMIT,
    ensures
        r.0 == axis_contact(a_min as int, a_max as int, b_min as int, b_max as int, low, high).0,
        r.1 == (match axis_contact(a_min as int, a_max as int, b_min as int, b_max as int, low, high).1 {
            Some(d) => Some(d as i64),
            None => None::<i64>,
        }),
{
    if a_min < b_min && a_max > b_min && a_max < b_max {
        (low, Some(b_min - a_max))
    } else if a_min > b_min && a_min < b_max && a_max > b_max {
        (high, Some(a_min - b_max))
    } else {
        (Collision::Inside, None)
    }
}

fn shallower_exec(d: Option<i64>, e: Option<i64>) -> (r: bool)
    requires
        d matches Some(v) ==> v > i64::MIN,
        e matches Some(v) ==> v > i64::MIN,
    ensures
        r == shallower(
            match d {
                Some(v) => Some(v as int),
                None => None::<int>,
            },
            match e {
                Some(v) => Some(v as int),
                None => None::<int>,
            },
        ),
{
    match d {
        None => false,
        Some(dv) => match e {
            None => true,
            Some(ev) => {
                let da = if dv < 0 { -dv } else { dv };
                let ea = if ev < 0 { -ev } else { ev };
                da < ea
            },
        },
    }
}

/// Classifies the contact of rectangle `a` against rectangle `b`.
pub fn collide(a_pos: Vec2, a_size: Vec2, b_pos: Vec2, b_size: Vec2) -> (r: Option<Collision>)
    requires
        a_pos.bounded(),
        b_pos.bounded(),
        a_size.is_extent(),
        b_size.is_extent(),
    ensures
        r == contact(a_pos, a_size, b_pos, b_size),
{
    let a_min_x = 2 * a_pos.x - a_size.x;
    let a_max_x = 2 * a_pos.x + a_size.x;
    let a_min_y = 2 * a_pos.y - a_size.y;
    let a_max_y = 2 * a_pos.y + a_size.y;
    let b_min_x = 2 * b_pos.x - b_size.x;
    let b_max_x = 2 * b_pos.x + b_size.x;
    let b_min_y = 2 * b_pos.y - b_size.y;
    let b_max_y = 2 * b_pos.y + b_size.y;
    if a_min_x < b_max_x && a_max_x > b_min_x && a_min_y < b_max_y && a_max_y > b_min_y {
        let (xc, xd) = axis_contact_exec(a_min_x, a_max_x, b_min_x, b_max_x, Collision::Left, Collision::Right);
        let (yc, yd) = axis_contact_exec(a_min_y, a_max_y, b_min_y, b_max_y, Collision::Bottom, Collision::Top);
        if shallower_exec(yd, xd) {
            Some(yc)
        } else {
            Some(xc)
        }
    } else {
        None
    }
}

} // verus!
