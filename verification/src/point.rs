//! A two-dimensional coordinate, used both as an absolute board location
//! and as a piece-local rotation anchor.

use vstd::prelude::*;

verus! {

/// Mathematical model of a `Point`: an unsigned coordinate pair.
pub struct PointView {
    pub x: nat,
    pub y: nat,
}

/// A simple two-dimensional point with `usize` coordinates.
///
/// The pair `(1000000, 1000000)` is reserved as a sentinel meaning
/// "no piece": it lies outside every board this engine works with and
/// is never dereferenced into a grid.
#[derive(Debug, Clone, Copy, PartialEq, Eq, Structural)]
pub struct Point {
    pub x_coordinate: usize,
    pub y_coordinate: usize,
}

impl View for Point {
    type V = PointView;

    open spec fn view(&self) -> PointView {
        PointView { x: self.x_coordinate as nat, y: self.y_coordinate as nat }
    }
}

/// The coordinate value reserved for the "no piece" sentinel.
pub open spec fn sentinel_coordinate() -> nat {
    1000000
}

impl Point {
    pub fn new(x_coordinate: usize, y_coordinate: usize) -> (r: Point)
        ensures
            r@.x == x_coordinate,
            r@.y == y_coordinate,
    {
        Point { x_coordinate, y_coordinate }
    }

    /// The sentinel point: both coordinates far outside any board, so that
    /// no placement or removal ever accepts it as an on-board location.
    pub fn empty_point() -> (r: Point)
        ensures
            r@.x == sentinel_coordinate(),
            r@.y == sentinel_coordinate(),
    {
        Point::new(1000000, 1000000)
    }

    /// Overwrites both coordinates.
    pub fn set(&mut self, x_coordinate: usize, y_coordinate: usize)
        ensures
            final(self)@.x == x_coordinate,
            final(self)@.y == y_coordinate,
    {
        self.x_coordinate = x_coordinate;
        self.y_coordinate = y_coordinate;
    }
}

} // verus!
