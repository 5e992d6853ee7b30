//! The two sides of the match.
use vstd::prelude::*;

verus! {

/// A side of the field, and the player who defends it.
#[derive(Clone, Copy, Debug, PartialEq, Eq, Structural)]
pub enum Player {
    Left,
    Right,
}

} // verus!
