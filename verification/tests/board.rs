use tetris::board::Board;
use tetris::piece::Piece;
use tetris::piece_type::PieceType;
use tetris::pieces::{get_i_piece, get_o_piece};
use tetris::point::Point;

#[test]
fn new_board_is_empty() {
    let b = Board::new(4, 3);
    assert_eq!(b.rows, 4);
    assert_eq!(b.columns, 3);
    for x in 0..4 {
        for y in 0..3 {
            assert_eq!(b.board[x][y], PieceType::Empty);
        }
    }
}

#[test]
fn can_add_rejects_out_of_bounds() {
    let b = Board::new(20, 11);
    let piece = get_o_piece();
    // pivot row beyond the board
    assert!(!b.can_add_piece(&piece, 20, 5));
    // pivot column beyond the board
    assert!(!b.can_add_piece(&piece, 5, 11));
    // pivot above the piece's own anchor: the top-left corner would go
    // negative (the O piece's pivot is at (1, 1) inside its body)
    assert!(!b.can_add_piece(&piece, 0, 5));
    assert!(!b.can_add_piece(&piece, 5, 0));
}

#[test]
fn can_add_rejects_bottom_overflow() {
    let b = Board::new(20, 11);
    let piece = get_i_piece();
    // the I piece is 4 tall with its pivot on the second cell: with the
    // pivot at row 18 its bottom cell would land on row 20, one past the
    // board; row 17 is the lowest pivot row that fits
    assert!(!b.can_add_piece(&piece, 19, 5));
    assert!(!b.can_add_piece(&piece, 18, 5));
    assert!(b.can_add_piece(&piece, 17, 5));
}

#[test]
fn can_add_rejects_collision() {
    let mut b = Board::new(20, 11);
    let piece = get_o_piece();
    assert!(b.add_piece(&piece, 5, 5));
    // overlapping placement must be rejected
    assert!(!b.can_add_piece(&piece, 5, 5));
    assert!(!b.can_add_piece(&piece, 6, 5));
    // a disjoint placement is still fine
    assert!(b.can_add_piece(&piece, 5, 8));
}

#[test]
fn add_writes_piece_cells() {
    let mut b = Board::new(20, 11);
    let piece = get_o_piece();
    assert!(b.add_piece(&piece, 5, 5));
    // the O piece's pivot (1, 1) sits at (5, 5), so its square covers
    // rows 4..=5, columns 4..=5
    for x in 4..6 {
        for y in 4..6 {
            assert_eq!(b.board[x][y], PieceType::O);
        }
    }
    assert_eq!(b.board[3][4], PieceType::Empty);
    assert_eq!(b.board[6][5], PieceType::Empty);
}

#[test]
fn place_remove_round_trip() {
    let mut b = Board::new(20, 11);
    let before = b.clone();
    let piece = get_i_piece();
    assert!(b.add_piece(&piece, 10, 3));
    assert!(b.can_remove_piece(&piece, 10, 3));
    assert!(b.remove_piece(&piece, 10, 3));
    assert_eq!(b, before);
}

#[test]
fn remove_refuses_other_piece() {
    let mut b = Board::new(20, 11);
    let o_piece = get_o_piece();
    assert!(b.add_piece(&o_piece, 5, 5));
    // an I piece over the same cells must not be removable
    let i_piece = get_i_piece();
    assert!(!b.can_remove_piece(&i_piece, 5, 5));
    assert!(!b.remove_piece(&i_piece, 5, 5));
    // the board is untouched
    assert_eq!(b.board[4][4], PieceType::O);
}

#[test]
fn clear_empty_board_returns_zero() {
    let mut b = Board::new(4, 4);
    let before = b.clone();
    assert_eq!(b.delete_complete_rows(), 0);
    assert_eq!(b, before);
}

#[test]
fn clear_single_bottom_row() {
    // a 4 by 4 board whose bottom row is fully occupied, with one marker
    // cell above it
    let mut b = Board::new(4, 4);
    for y in 0..4 {
        b.board[3][y] = PieceType::I;
    }
    b.board[2][1] = PieceType::O;

    assert_eq!(b.delete_complete_rows(), 1);

    // the top row is now all Empty and the marker shifted down one row
    for y in 0..4 {
        assert_eq!(b.board[0][y], PieceType::Empty);
    }
    assert_eq!(b.board[3][1], PieceType::O);
    for y in 0..4 {
        if y != 1 {
            assert_eq!(b.board[3][y], PieceType::Empty);
        }
    }
    for y in 0..4 {
        assert_eq!(b.board[1][y], PieceType::Empty);
        assert_eq!(b.board[2][y], PieceType::Empty);
    }
}

#[test]
fn clear_keeps_row_order() {
    let mut b = Board::new(4, 2);
    // row 0: marker S | row 1: full | row 2: marker Z | row 3: full
    b.board[0][0] = PieceType::S;
    b.board[1][0] = PieceType::I;
    b.board[1][1] = PieceType::I;
    b.board[2][1] = PieceType::Z;
    b.board[3][0] = PieceType::T;
    b.board[3][1] = PieceType::T;

    let filled_before = count_filled(&b);
    assert_eq!(b.delete_complete_rows(), 2);

    // two fresh Empty rows on top, then the two markers in order
    assert_eq!(b.board[0], vec![PieceType::Empty, PieceType::Empty]);
    assert_eq!(b.board[1], vec![PieceType::Empty, PieceType::Empty]);
    assert_eq!(b.board[2], vec![PieceType::S, PieceType::Empty]);
    assert_eq!(b.board[3], vec![PieceType::Empty, PieceType::Z]);

    // the occupied-cell count fell by rows-cleared times columns
    assert_eq!(count_filled(&b), filled_before - 2 * 2);
}

#[test]
fn clear_full_board() {
    let mut b = Board::new(3, 2);
    for x in 0..3 {
        for y in 0..2 {
            b.board[x][y] = PieceType::L;
        }
    }
    assert_eq!(b.delete_complete_rows(), 3);
    for x in 0..3 {
        for y in 0..2 {
            assert_eq!(b.board[x][y], PieceType::Empty);
        }
    }
}

#[test]
fn empty_piece_places_nowhere_visible() {
    // the placeholder piece carries the sentinel pivot, which no board
    // position can satisfy, so placement and removal are both refused
    let mut b = Board::new(20, 11);
    let piece = Piece::empty_piece();
    assert_eq!(piece.point, Point::new(1000000, 1000000));
    assert!(!b.can_add_piece(&piece, 2, 5));
    assert!(!b.add_piece(&piece, 2, 5));
    assert!(!b.remove_piece(&piece, 2, 5));
}

fn count_filled(b: &Board) -> usize {
    let mut n = 0;
    for x in 0..b.rows {
        for y in 0..b.columns {
            if b.board[x][y] != PieceType::Empty {
                n += 1;
            }
        }
    }
    n
}
