//! The tags of the seven canonical piece shapes, plus the "no piece" tag.

use vstd::prelude::*;

verus! {

/// The shape tag of a piece. `Empty` marks the absence of a piece: the
/// empty board cell, and the placeholder piece a game starts with.
#[derive(Debug, Clone, Copy, PartialEq, Eq, Structural)]
pub enum PieceType {
    I,
    J,
    L,
    O,
    S,
    T,
    Z,
    Empty,
}

} // verus!
