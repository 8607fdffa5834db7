//! A piece: a shape tag, a boolean occupancy grid and the pivot, the
//! grid-local anchor around which the piece rotates and by which it is
//! addressed on the board.

use vstd::prelude::*;

use crate::matrix::{Matrix, MatrixView, lemma_rotations_inverse, lemma_four_clockwise,
    lemma_four_counter_clockwise};
use crate::piece_type::PieceType;
use crate::point::{Point, PointView, sentinel_coordinate};

verus! {

/// Mathematical model of a `Piece`.
#[verifier::ext_equal]
pub struct PieceView {
    pub piece_type: PieceType,
    pub body: MatrixView,
    pub point: PointView,
}

impl PieceView {
    /// A piece is well formed when its body is a real (non-degenerate)
    /// grid and its pivot lies strictly inside the body; the placeholder
    /// piece (tag `Empty`) instead carries the sentinel pivot, which lies
    /// outside every board.
    pub open spec fn wf(self) -> bool {
        &&& self.body.wf()
        &&& self.body.rows >= 1
        &&& self.body.columns >= 1
        &&& if self.piece_type == PieceType::Empty {
            self.point.x == sentinel_coordinate() && self.point.y == sentinel_coordinate()
        } else {
            self.point.x < self.body.rows && self.point.y < self.body.columns
        }
    }

    /// The pivot lies strictly inside the body.
    pub open spec fn pivot_in_body(self) -> bool {
        self.point.x < self.body.rows && self.point.y < self.body.columns
    }

    /// The piece turned a quarter turn clockwise: the pivot `(x, y)`
    /// moves to `(y, rows - 1 - x)`, computed from the dimensions before
    /// the body itself is turned.
    pub open spec fn rotated_clockwise(self) -> PieceView {
        PieceView {
            piece_type: self.piece_type,
            body: self.body.rotated_clockwise(),
            point: PointView {
                x: self.point.y,
                y: (self.body.rows - 1 - self.point.x) as nat,
            },
        }
    }

    /// The piece turned a quarter turn counter-clockwise: the pivot
    /// `(x, y)` moves to `(columns - 1 - y, x)`, computed from the
    /// dimensions before the body itself is turned.
    pub open spec fn rotated_counter_clockwise(self) -> PieceView {
        PieceView {
            piece_type: self.piece_type,
            body: self.body.rotated_counter_clockwise(),
            point: PointView {
                x: (self.body.columns - 1 - self.point.y) as nat,
                y: self.point.x,
            },
        }
    }
}

/// The two piece rotations undo each other: rotating clockwise and then
/// counter-clockwise (or the other way round) returns any piece whose
/// pivot lies inside its well-formed body unchanged, body and pivot both.
pub proof fn lemma_piece_rotations_inverse(p: PieceView)
    requires
        p.body.wf(),
        p.pivot_in_body(),
    ensures
        p.rotated_clockwise().rotated_counter_clockwise() == p,
        p.rotated_counter_clockwise().rotated_clockwise() == p,
{
    lemma_rotations_inverse(p.body);
    assert(p.rotated_clockwise().rotated_counter_clockwise() =~= p);
    assert(p.rotated_counter_clockwise().rotated_clockwise() =~= p);
}

/// Four successive clockwise rotations return any piece whose pivot lies
/// inside its well-formed body unchanged, body and pivot both.
pub proof fn lemma_piece_four_clockwise(p: PieceView)
    requires
        p.body.wf(),
        p.pivot_in_body(),
    ensures
        p.rotated_clockwise().rotated_clockwise().rotated_clockwise().rotated_clockwise() == p,
{
    lemma_four_clockwise(p.body);
    assert(p.rotated_clockwise().rotated_clockwise().rotated_clockwise().rotated_clockwise()
        =~= p);
}

/// Four successive counter-clockwise rotations return any piece whose
/// pivot lies inside its well-formed body unchanged, body and pivot both.
pub proof fn lemma_piece_four_counter_clockwise(p: PieceView)
    requires
        p.body.wf(),
        p.pivot_in_body(),
    ensures
        p.rotated_counter_clockwise().rotated_counter_clockwise().rotated_counter_clockwise()
            .rotated_counter_clockwise() == p,
{
    lemma_four_counter_clockwise(p.body);
    assert(p.rotated_counter_clockwise().rotated_counter_clockwise()
        .rotated_counter_clockwise().rotated_counter_clockwise() =~= p);
}

/// The placeholder piece's model: tag `Empty`, a one-cell unoccupied
/// body and the sentinel pivot.
pub open spec fn empty_piece_view() -> PieceView {
    PieceView {
        piece_type: PieceType::Empty,
        body: MatrixView { rows: 1, columns: 1, data: seq![seq![false]] },
        point: PointView { x: sentinel_coordinate(), y: sentinel_coordinate() },
    }
}

/// A piece: shape tag, occupancy grid and pivot.
#[derive(Debug, PartialEq)]
pub struct Piece {
    pub piece_type: PieceType,
    pub body: Matrix,
    pub point: Point,
}

impl View for Piece {
    type V = PieceView;

    open spec fn view(&self) -> PieceView {
        PieceView { piece_type: self.piece_type, body: self.body@, point: self.point@ }
    }
}

impl Clone for Piece {
    fn clone(&self) -> (r: Self)
        ensures
            r@ == self@,
    {
        Piece { piece_type: self.piece_type, body: self.body.clone(), point: self.point }
    }
}

impl Piece {
    pub fn new(piece_type: PieceType, body: Matrix, point: Point) -> (r: Piece)
        ensures
            r@ == (PieceView { piece_type, body: body@, point: point@ }),
    {
        Piece { piece_type, body, point }
    }

    /// The placeholder for "no piece": tag `Empty`, a one-cell empty body
    /// and the sentinel pivot.
    pub fn empty_piece() -> (r: Piece)
        ensures
            r@ == empty_piece_view(),
            r@.wf(),
    {
        let r = Piece::new(PieceType::Empty, Matrix::new(1, 1), Point::empty_point());
        proof {
            assert(r@.body.data =~~= empty_piece_view().body.data);
            assert(r@ =~= empty_piece_view());
        }
        r
    }

    /// Turns the piece a quarter turn clockwise: first the pivot moves to
    /// `(y, rows - 1 - x)`, computed from the body's dimensions before the
    /// turn, then the body itself is turned.
    pub fn perform_clockwise_rotation(&mut self)
        requires
            old(self)@.body.wf(),
            old(self)@.pivot_in_body(),
        ensures
            final(self)@ == old(self)@.rotated_clockwise(),
    {
        let x_coordinate = self.point.x_coordinate;
        let y_coordinate = self.point.y_coordinate;

        self.point.set(y_coordinate, self.body.rows - 1 - x_coordinate);
        self.body.rotate_clockwise();
        proof {
            assert(self@ =~= old(self)@.rotated_clockwise());
        }
    }

    /// Turns the piece a quarter turn counter-clockwise: first the pivot
    /// moves to `(columns - 1 - y, x)`, computed from the body's
    /// dimensions before the turn, then the body itself is turned.
    pub fn perform_counter_clockwise_rotation(&mut self)
        requires
            old(self)@.body.wf(),
            old(self)@.pivot_in_body(),
        ensures
            final(self)@ == old(self)@.rotated_counter_clockwise(),
    {
        let x_coordinate = self.point.x_coordinate;
        let y_coordinate = self.point.y_coordinate;

        self.point.set(self.body.columns - 1 - y_coordinate, x_coordinate);
        self.body.rotate_counter_clockwise();
        proof {
            assert(self@ =~= old(self)@.rotated_counter_clockwise());
        }
    }
}

} // verus!
