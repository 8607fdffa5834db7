//! The piece factory: the seven canonical shapes, and a random draw
//! among them.

use vstd::prelude::*;

use crate::matrix::{Matrix, MatrixView};
use crate::piece::{Piece, PieceView};
use crate::piece_type::PieceType;
use crate::point::{Point, PointView};

verus! {

/// The canonical I piece: a 4 by 1 column, pivot on its second cell.
pub open spec fn i_piece_view() -> PieceView {
    PieceView {
        piece_type: PieceType::I,
        body: MatrixView {
            rows: 4,
            columns: 1,
            data: seq![seq![true], seq![true], seq![true], seq![true]],
        },
        point: PointView { x: 1, y: 0 },
    }
}

/// The canonical J piece on a 3 by 2 grid, pivot at `(1, 1)`.
pub open spec fn j_piece_view() -> PieceView {
    PieceView {
        piece_type: PieceType::J,
        body: MatrixView {
            rows: 3,
            columns: 2,
            data: seq![seq![false, true], seq![false, true], seq![true, true]],
        },
        point: PointView { x: 1, y: 1 },
    }
}

/// The canonical L piece on a 3 by 2 grid, pivot at `(1, 0)`.
pub open spec fn l_piece_view() -> PieceView {
    PieceView {
        piece_type: PieceType::L,
        body: MatrixView {
            rows: 3,
            columns: 2,
            data: seq![seq![true, false], seq![true, false], seq![true, true]],
        },
        point: PointView { x: 1, y: 0 },
    }
}

/// The canonical O piece: a full 2 by 2 square, pivot at `(1, 1)`.
pub open spec fn o_piece_view() -> PieceView {
    PieceView {
        piece_type: PieceType::O,
        body: MatrixView {
            rows: 2,
            columns: 2,
            data: seq![seq![true, true], seq![true, true]],
        },
        point: PointView { x: 1, y: 1 },
    }
}

/// The canonical S piece on a 2 by 3 grid, pivot at `(1, 1)`.
pub open spec fn s_piece_view() -> PieceView {
    PieceView {
        piece_type: PieceType::S,
        body: MatrixView {
            rows: 2,
            columns: 3,
            data: seq![seq![false, true, true], seq![true, true, false]],
        },
        point: PointView { x: 1, y: 1 },
    }
}

/// The canonical T piece on a 2 by 3 grid, pivot at `(0, 1)`.
pub open spec fn t_piece_view() -> PieceView {
    PieceView {
        piece_type: PieceType::T,
        body: MatrixView {
            rows: 2,
            columns: 3,
            data: seq![seq![true, true, true], seq![false, true, false]],
        },
        point: PointView { x: 0, y: 1 },
    }
}

/// The canonical Z piece on a 2 by 3 grid, pivot at `(1, 1)`.
pub open spec fn z_piece_view() -> PieceView {
    PieceView {
        piece_type: PieceType::Z,
        body: MatrixView {
            rows: 2,
            columns: 3,
            data: seq![seq![true, true, false], seq![false, true, true]],
        },
        point: PointView { x: 1, y: 1 },
    }
}

/// One of the seven canonical pieces, exactly as the factory builds them.
pub open spec fn is_canonical_piece(p: PieceView) -> bool {
    ||| p == i_piece_view()
    ||| p == j_piece_view()
    ||| p == l_piece_view()
    ||| p == o_piece_view()
    ||| p == s_piece_view()
    ||| p == t_piece_view()
    ||| p == z_piece_view()
}

/// Every canonical piece is well formed: real dimensions, pivot inside
/// the body, and a tag other than `Empty`.
pub proof fn lemma_canonical_piece_wf(p: PieceView)
    requires
        is_canonical_piece(p),
    ensures
        p.wf(),
        p.piece_type != PieceType::Empty,
{
}

/// Builds the I piece.
pub fn get_i_piece() -> (r: Piece)
    ensures
        r@ == i_piece_view(),
{
    let point = Point::new(1, 0);
    let mut matrix = Matrix::new(4, 1);
    matrix.set(0, 0, true);
    matrix.set(1, 0, true);
    matrix.set(2, 0, true);
    matrix.set(3, 0, true);

    let r = Piece::new(PieceType::I, matrix, point);
    proof {
        assert(r@.body.data =~~= i_piece_view().body.data);
        assert(r@ =~= i_piece_view());
    }
    r
}

/// Builds the J piece.
pub fn get_j_piece() -> (r: Piece)
    ensures
        r@ == j_piece_view(),
{
    let point = Point::new(1, 1);
    let mut matrix = Matrix::new(3, 2);
    matrix.set(0, 0, false);
    matrix.set(0, 1, true);
    matrix.set(1, 0, false);
    matrix.set(1, 1, true);
    matrix.set(2, 0, true);
    matrix.set(2, 1, true);

    let r = Piece::new(PieceType::J, matrix, point);
    proof {
        assert(r@.body.data =~~= j_piece_view().body.data);
        assert(r@ =~= j_piece_view());
    }
    r
}

/// Builds the L piece.
pub fn get_l_piece() -> (r: Piece)
    ensures
        r@ == l_piece_view(),
{
    let point = Point::new(1, 0);
    let mut matrix = Matrix::new(3, 2);
    matrix.set(0, 0, true);
    matrix.set(0, 1, false);
    matrix.set(1, 0, true);
    matrix.set(1, 1, false);
    matrix.set(2, 0, true);
    matrix.set(2, 1, true);

    let r = Piece::new(PieceType::L, matrix, point);
    proof {
        assert(r@.body.data =~~= l_piece_view().body.data);
        assert(r@ =~= l_piece_view());
    }
    r
}

/// Builds the O piece.
pub fn get_o_piece() -> (r: Piece)
    ensures
        r@ == o_piece_view(),
{
    let point = Point::new(1, 1);
    let mut matrix = Matrix::new(2, 2);
    matrix.set(0, 0, true);
    matrix.set(0, 1, true);
    matrix.set(1, 0, true);
    matrix.set(1, 1, true);

    let r = Piece::new(PieceType::O, matrix, point);
    proof {
        assert(r@.body.data =~~= o_piece_view().body.data);
        assert(r@ =~= o_piece_view());
    }
    r
}

/// Builds the S piece.
pub fn get_s_piece() -> (r: Piece)
    ensures
        r@ == s_piece_view(),
{
    let point = Point::new(1, 1);
    let mut matrix = Matrix::new(2, 3);
    matrix.set(0, 0, false);
    matrix.set(0, 1, true);
    matrix.set(0, 2, true);
    matrix.set(1, 0, true);
    matrix.set(1, 1, true);
    matrix.set(1, 2, false);

    let r = Piece::new(PieceType::S, matrix, point);
    proof {
        assert(r@.body.data =~~= s_piece_view().body.data);
        assert(r@ =~= s_piece_view());
    }
    r
}

/// Builds the T piece.
pub fn get_t_piece() -> (r: Piece)
    ensures
        r@ == t_piece_view(),
{
    let point = Point::new(0, 1);
    let mut matrix = Matrix::new(2, 3);
    matrix.set(0, 0, true);
    matrix.set(0, 1, true);
    matrix.set(0, 2, true);
    matrix.set(1, 0, false);
    matrix.set(1, 1, true);
    matrix.set(1, 2, false);

    let r = Piece::new(PieceType::T, matrix, point);
    proof {
        assert(r@.body.data =~~= t_piece_view().body.data);
        assert(r@ =~= t_piece_view());
    }
    r
}

/// Builds the Z piece.
pub fn get_z_piece() -> (r: Piece)
    ensures
        r@ == z_piece_view(),
{
    let point = Point::new(1, 1);
    let mut matrix = Matrix::new(2, 3);
    matrix.set(0, 0, true);
    matrix.set(0, 1, true);
    matrix.set(0, 2, false);
    matrix.set(1, 0, false);
    matrix.set(1, 1, true);
    matrix.set(1, 2, true);

    let r = Piece::new(PieceType::Z, matrix, point);
    proof {
        assert(r@.body.data =~~= z_piece_view().body.data);
        assert(r@ =~= z_piece_view());
    }
    r
}

/// Relies on rand::random_range: a value drawn from the non-empty range
/// `0..7` lies within it, so the result is always below 7.
#[verifier::external_body]
fn random_piece_index() -> (r: usize)
    ensures
        r < 7,
{
    rand::random_range(0..7)
}

/// Draws one of the seven canonical pieces at random.
pub fn get_next_random_piece() -> (r: Piece)
    ensures
        is_canonical_piece(r@),
{
    let random_number = random_piece_index();
    match random_number {
        0 => get_i_piece(),
        1 => get_j_piece(),
        2 => get_l_piece(),
        3 => get_o_piece(),
        4 => get_s_piece(),
        5 => get_t_piece(),
        _ => get_z_piece(),
    }
}

} // verus!
