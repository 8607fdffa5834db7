//! The directions in which the active piece can be moved.

use vstd::prelude::*;

verus! {

/// A move of the active piece: one row down, or one column to the side.
#[derive(Debug, Clone, Copy, PartialEq, Eq, Structural)]
pub enum MoveDirection {
    Down,
    Left,
    Right,
}

} // verus!
