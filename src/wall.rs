//! The four boundary walls of the field.
use vstd::prelude::*;
use crate::field::{WALL_WIDTH, WINDOW_HEIGHT, WINDOW_WIDTH};
use crate::geometry::Vec2;

verus! {

/// One of the field's boundary walls.
#[derive(Clone, Copy, Debug, PartialEq, Eq, Structural)]
pub enum Wall {
    Top,
    Bottom,
    Right,
    Left,
}

/// The fixed rectangle of a wall: its centre and its size.
pub open spec fn wall_rect(wall: Wall) -> (Vec2, Vec2) {
    let wall_y = ((WINDOW_HEIGHT - WALL_WIDTH) / 2) as i64;
    let wall_x = ((WINDOW_WIDTH - WALL_WIDTH) / 2) as i64;
    match wall {
        Wall::Top => (Vec2 { x: 0, y: wall_y }, Vec2 { x: WINDOW_WIDTH, y: WALL_WIDTH }),
        Wall::Bottom => (Vec2 { x: 0, y: (-wall_y) as i64 }, Vec2 { x: WINDOW_WIDTH, y: WALL_WIDTH }),
        Wall::Right => (Vec2 { x: wall_x, y: 0 }, Vec2 { x: WALL_WIDTH, y: WINDOW_HEIGHT }),
        Wall::Left => (Vec2 { x: (-wall_x) as i64, y: 0 }, Vec2 { x: WALL_WIDTH, y: WINDOW_HEIGHT }),
    }
}

/// Builds the wall layout.
pub struct WallPlugin;

impl WallPlugin {
    /// All four walls, in the order in which they are tested for contact.
    pub fn setup() -> (r: Vec<Wall>)
        ensures
            r@ == seq![Wall::Top, Wall::Right, Wall::Bottom, Wall::Left],
    {
        vec![Wall::Top, Wall::Right, Wall::Bottom, Wall::Left]
    }

    /// The centre and the size of a wall.
    pub fn spawn_wall(wall: Wall) -> (r: (Vec2, Vec2))
        ensures
            r == wall_rect(wall),
    {
        let wall_y = (WINDOW_HEIGHT - WALL_WIDTH) / 2;
        let wall_x = (WINDOW_WIDTH - WALL_WIDTH) / 2;
        let translation = match wall {
            Wall::Top => Vec2::new(0, wall_y),
            Wall::Bottom => Vec2::new(0, -wall_y),
            Wall::Right => Vec2::new(wall_x, 0),
            Wall::Left => Vec2::new(-wall_x, 0),
        };
        let size = match wall {
            Wall::Top | Wall::Bottom => Vec2::new(WINDOW_WIDTH, WALL_WIDTH),
            Wall::Right | Wall::Left => Vec2::new(WALL_WIDTH, WINDOW_HEIGHT),
        };
        (translation, size)
    }
}

} // verus!
