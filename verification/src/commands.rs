//! The commands the autoplayer emits and the driver replays.

use vstd::prelude::*;

verus! {

/// One discrete input to the game: a move in a direction, or a
/// clockwise rotation.
#[derive(Debug, Clone, Copy, PartialEq, Eq, Structural)]
pub enum Command {
    Down,
    Left,
    Right,
    RotateClockWise,
}

} // verus!
