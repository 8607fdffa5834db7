//! The game: one active piece, one preview piece and the board, driven
//! through a spawn, move, rotate, lock and clear cycle.

use vstd::prelude::*;

use crate::board::{Board, BoardView};
use crate::move_direction::MoveDirection;
use crate::piece::{Piece, PieceView, empty_piece_view};
use crate::piece_type::PieceType;
use crate::pieces::{get_next_random_piece, is_canonical_piece, lemma_canonical_piece_wf,
    i_piece_view};
use crate::point::{Point, PointView, sentinel_coordinate};
use crate::board::lemma_remove_place_roundtrip;

verus! {

/// Mathematical model of a `Game`.
#[verifier::ext_equal]
pub struct GameView {
    pub board: BoardView,
    pub rows: nat,
    pub points: nat,
    pub spawn_position: PointView,
    pub actual_piece: PieceView,
    pub next_piece: PieceView,
    pub piece_landed: bool,
    pub actual_piece_coordinates: PointView,
}

impl GameView {
    /// The board is well formed and small enough that the sentinel
    /// coordinate stays off it, and both pieces are well formed.
    pub open spec fn wf(self) -> bool {
        &&& self.board.wf()
        &&& self.board.rows <= sentinel_coordinate()
        &&& self.board.columns <= sentinel_coordinate()
        &&& self.actual_piece.wf()
        &&& self.next_piece.wf()
    }
}

/// Whether a move in the given direction stays inside the board's edges,
/// and the coordinates it targets. The edge test mirrors the game's:
/// a piece on the last row cannot move down, one on column zero cannot
/// move left, one on the last column cannot move right.
pub open spec fn moved_coordinates(g: GameView, d: MoveDirection) -> (bool, PointView) {
    let x = g.actual_piece_coordinates.x;
    let y = g.actual_piece_coordinates.y;
    match d {
        MoveDirection::Down => if x >= g.board.rows - 1 {
            (false, g.actual_piece_coordinates)
        } else {
            (true, PointView { x: (x + 1) as nat, y })
        },
        MoveDirection::Left => if y <= 0 {
            (false, g.actual_piece_coordinates)
        } else {
            (true, PointView { x, y: (y - 1) as nat })
        },
        MoveDirection::Right => if y >= g.board.columns - 1 {
            (false, g.actual_piece_coordinates)
        } else {
            (true, PointView { x, y: (y + 1) as nat })
        },
    }
}

/// The outcome of moving the active piece one step: whether the move
/// succeeded, and the game afterwards. The piece is lifted off the
/// board, the target is checked, and the piece is put down again at the
/// target on success or exactly where it was on failure.
pub open spec fn move_spec(g: GameView, d: MoveDirection) -> (bool, GameView) {
    let x = g.actual_piece_coordinates.x as int;
    let y = g.actual_piece_coordinates.y as int;
    if !g.board.can_remove(g.actual_piece, x, y) {
        (false, g)
    } else {
        let (in_range, target) = moved_coordinates(g, d);
        if !in_range {
            (false, g)
        } else {
            let lifted = g.board.remove(g.actual_piece, x, y);
            if lifted.can_place(g.actual_piece, target.x as int, target.y as int) {
                (
                    true,
                    GameView {
                        board: lifted.place(g.actual_piece, target.x as int, target.y as int),
                        actual_piece_coordinates: target,
                        ..g
                    },
                )
            } else {
                (false, g)
            }
        }
    }
}

/// The outcome of rotating the active piece clockwise in place: the
/// piece is lifted off the board, the rotated piece is tried at the same
/// coordinates, and on failure the original piece is put back unchanged.
pub open spec fn rotate_clockwise_spec(g: GameView) -> (bool, GameView) {
    let x = g.actual_piece_coordinates.x as int;
    let y = g.actual_piece_coordinates.y as int;
    if !g.board.can_remove(g.actual_piece, x, y) {
        (false, g)
    } else {
        let lifted = g.board.remove(g.actual_piece, x, y);
        let rotated = g.actual_piece.rotated_clockwise();
        if lifted.can_place(rotated, x, y) {
            (true, GameView { board: lifted.place(rotated, x, y), actual_piece: rotated, ..g })
        } else {
            (false, g)
        }
    }
}

/// The outcome of rotating the active piece counter-clockwise in place.
pub open spec fn rotate_counter_clockwise_spec(g: GameView) -> (bool, GameView) {
    let x = g.actual_piece_coordinates.x as int;
    let y = g.actual_piece_coordinates.y as int;
    if !g.board.can_remove(g.actual_piece, x, y) {
        (false, g)
    } else {
        let lifted = g.board.remove(g.actual_piece, x, y);
        let rotated = g.actual_piece.rotated_counter_clockwise();
        if lifted.can_place(rotated, x, y) {
            (true, GameView { board: lifted.place(rotated, x, y), actual_piece: rotated, ..g })
        } else {
            (false, g)
        }
    }
}

/// The fixed score table: points awarded for clearing `k` rows at once.
pub open spec fn score_for(k: int) -> nat
    recommends
        0 <= k <= 4,
{
    if k == 0 {
        0
    } else if k == 1 {
        100
    } else if k == 2 {
        300
    } else if k == 3 {
        500
    } else {
        1000
    }
}

/// The lock sequence: full rows are cleared, the cleared-row counter and
/// the score advance by the fixed table, and the active piece is spawned
/// at the spawn position. The flag says whether the spawn fit on the
/// cleared board.
pub open spec fn new_piece_spec(g: GameView) -> (bool, GameView) {
    let cleared = g.board.cleared();
    let k = g.board.cleared_row_count();
    let scored = GameView {
        board: cleared,
        rows: (g.rows + k) as nat,
        points: (g.points + score_for(k)) as nat,
        ..g
    };
    let sx = g.spawn_position.x as int;
    let sy = g.spawn_position.y as int;
    if cleared.can_place(g.actual_piece, sx, sy) {
        (
            true,
            GameView {
                board: cleared.place(g.actual_piece, sx, sy),
                actual_piece_coordinates: g.spawn_position,
                piece_landed: false,
                ..scored
            },
        )
    } else {
        (false, scored)
    }
}

/// One logical game step, given the pieces `d1`, `d2`, `d3` that the
/// random supply handed out (used only on the paths that draw): `d1` and
/// `d2` fill the active and preview slots of a game that has no piece
/// yet; on a landing down-step the preview piece becomes active, `d3`
/// becomes the preview, and the lock sequence runs.
pub open spec fn step_rel(
    pre: GameView, post: GameView, d: MoveDirection, ret: bool,
    d1: PieceView, d2: PieceView, d3: PieceView,
) -> bool {
    let g0 = if pre.actual_piece.piece_type == PieceType::Empty {
        GameView { actual_piece: d1, next_piece: d2, ..pre }
    } else {
        pre
    };
    if d == MoveDirection::Down {
        let (moved, g1) = move_spec(g0, MoveDirection::Down);
        if moved {
            post == g1 && ret == false
        } else {
            let locked = GameView {
                piece_landed: true,
                actual_piece: g1.next_piece,
                next_piece: d3,
                ..g1
            };
            post == new_piece_spec(locked).1 && ret == true
        }
    } else {
        post == move_spec(g0, d).1 && ret == false
    }
}

/// The game state: board, counters, spawn position, active and preview
/// pieces, and where the active piece sits.
#[derive(Debug, PartialEq)]
pub struct Game {
    pub board: Board,
    pub rows: usize,
    pub points: usize,
    pub spawn_position: Point,
    pub actual_piece: Piece,
    pub next_piece: Piece,
    pub piece_landed: bool,
    pub actual_piece_coordinates: Point,
}

impl View for Game {
    type V = GameView;

    open spec fn view(&self) -> GameView {
        GameView {
            board: self.board@,
            rows: self.rows as nat,
            points: self.points as nat,
            spawn_position: self.spawn_position@,
            actual_piece: self.actual_piece@,
            next_piece: self.next_piece@,
            piece_landed: self.piece_landed,
            actual_piece_coordinates: self.actual_piece_coordinates@,
        }
    }
}

impl Clone for Game {
    fn clone(&self) -> (r: Self)
        ensures
            r@ == self@,
    {
        let r = Game {
            board: self.board.clone(),
            rows: self.rows,
            points: self.points,
            spawn_position: self.spawn_position,
            actual_piece: self.actual_piece.clone(),
            next_piece: self.next_piece.clone(),
            piece_landed: self.piece_landed,
            actual_piece_coordinates: self.actual_piece_coordinates,
        };
        proof {
            assert(r@ =~= self@);
        }
        r
    }
}

impl Game {
    /// A fresh game over the given board: counters at zero, the spawn
    /// position fixed at `(2, columns / 2)`, both piece slots holding the
    /// placeholder, and the sentinel as the active piece's coordinates.
    pub fn new(board: Board) -> (r: Game)
        requires
            board@.wf(),
            board@.rows <= sentinel_coordinate(),
            board@.columns <= sentinel_coordinate(),
        ensures
            r@ == (GameView {
                board: board@,
                rows: 0,
                points: 0,
                spawn_position: PointView { x: 2, y: board@.columns / 2 },
                actual_piece: empty_piece_view(),
                next_piece: empty_piece_view(),
                piece_landed: false,
                actual_piece_coordinates: PointView {
                    x: sentinel_coordinate(),
                    y: sentinel_coordinate(),
                },
            }),
            r@.wf(),
    {
        let columns = board.columns;
        let r = Game {
            board,
            rows: 0,
            points: 0,
            spawn_position: Point::new(2, columns / 2),
            actual_piece: Piece::empty_piece(),
            next_piece: Piece::empty_piece(),
            piece_landed: false,
            actual_piece_coordinates: Point::empty_point(),
        };
        proof {
            assert(r@ =~= (GameView {
                board: r@.board,
                rows: 0,
                points: 0,
                spawn_position: PointView { x: 2, y: r@.board.columns / 2 },
                actual_piece: empty_piece_view(),
                next_piece: empty_piece_view(),
                piece_landed: false,
                actual_piece_coordinates: PointView {
                    x: sentinel_coordinate(),
                    y: sentinel_coordinate(),
                },
            }));
        }
        r
    }

    /// The game is over when a piece has locked and the active piece no
    /// longer fits at the spawn position; before any piece has locked it
    /// never reports game over.
    pub fn is_game_over(&self) -> (r: bool)
        requires
            self@.wf(),
        ensures
            r == (!self@.board.can_place(
                self@.actual_piece,
                self@.spawn_position.x as int,
                self@.spawn_position.y as int,
            ) && self@.piece_landed),
    {
        !self.board.can_add_piece(
            &self.actual_piece,
            self.spawn_position.x_coordinate,
            self.spawn_position.y_coordinate,
        ) && self.piece_landed
    }

    /// The lock sequence: clears full rows, advances the cleared-row
    /// counter and the score by the fixed table, then spawns the active
    /// piece at the spawn position. Returns whether the spawn fit.
    pub fn new_piece(&mut self) -> (r: bool)
        requires
            old(self)@.wf(),
            old(self)@.board.cleared_row_count() <= 4,
            old(self)@.points + 1000 <= usize::MAX,
            old(self)@.rows + 4 <= usize::MAX,
        ensures
            (r, final(self)@) == new_piece_spec(old(self)@),
            final(self)@.wf(),
    {
        let amount_of_deleted_rows = self.board.delete_complete_rows();

        self.rows = self.rows + amount_of_deleted_rows;

        if amount_of_deleted_rows == 1 {
            self.points = self.points + 100;
        } else if amount_of_deleted_rows == 2 {
            self.points = self.points + 300;
        } else if amount_of_deleted_rows == 3 {
            self.points = self.points + 500;
        } else if amount_of_deleted_rows == 4 {
            self.points = self.points + 1000;
        }

        if self.board.add_piece(
            &self.actual_piece,
            self.spawn_position.x_coordinate,
            self.spawn_position.y_coordinate,
        ) {
            self.actual_piece_coordinates = self.spawn_position;
            self.piece_landed = false;
            proof {
                assert(self@ =~= new_piece_spec(old(self)@).1);
            }
            return true;
        }

        proof {
            assert(self@ =~= new_piece_spec(old(self)@).1);
        }
        false
    }

    /// When removal of the active piece from a well-formed game succeeds,
    /// the piece's pivot lies inside its body, so it may be rotated.
    proof fn lemma_removable_piece_has_pivot(g: GameView)
        requires
            g.wf(),
            g.board.can_remove(
                g.actual_piece,
                g.actual_piece_coordinates.x as int,
                g.actual_piece_coordinates.y as int,
            ),
        ensures
            g.actual_piece.pivot_in_body(),
    {
        if g.actual_piece.piece_type == PieceType::Empty {
            // the sentinel pivot would demand coordinates at or beyond the
            // sentinel, which the board, being no larger, cannot offer
            assert(g.actual_piece_coordinates.x >= sentinel_coordinate());
            assert(g.actual_piece_coordinates.x < g.board.rows);
            assert(false);
        }
    }

    /// Rotates the active piece clockwise in place: lifts it, tries the
    /// rotated piece at the same coordinates, and restores the original
    /// on failure. Returns whether the rotation took effect.
    pub fn rotate_piece_clockwise(&mut self) -> (r: bool)
        requires
            old(self)@.wf(),
        ensures
            (r, final(self)@) == rotate_clockwise_spec(old(self)@),
            final(self)@.wf(),
    {
        let row = self.actual_piece_coordinates.x_coordinate;
        let column = self.actual_piece_coordinates.y_coordinate;
        if self.board.remove_piece(&self.actual_piece, row, column) {
            proof {
                Self::lemma_removable_piece_has_pivot(old(self)@);
            }
            let mut rotated_piece = self.actual_piece.clone();
            rotated_piece.perform_clockwise_rotation();

            if self.board.add_piece(&rotated_piece, row, column) {
                self.actual_piece = rotated_piece;
                proof {
                    assert(self@ =~= rotate_clockwise_spec(old(self)@).1);
                }
                return true;
            } else {
                proof {
                    lemma_remove_place_roundtrip(
                        old(self)@.board,
                        old(self)@.actual_piece,
                        row as int,
                        column as int,
                    );
                }
                self.board.add_piece(&self.actual_piece, row, column);
                proof {
                    assert(self@ =~= old(self)@);
                }
            }
        }

        false
    }

    /// Rotates the active piece counter-clockwise in place, restoring the
    /// original on failure. Returns whether the rotation took effect.
    pub fn rotate_piece_counter_clockwise(&mut self) -> (r: bool)
        requires
            old(self)@.wf(),
        ensures
            (r, final(self)@) == rotate_counter_clockwise_spec(old(self)@),
            final(self)@.wf(),
    {
        let row = self.actual_piece_coordinates.x_coordinate;
        let column = self.actual_piece_coordinates.y_coordinate;
        if self.board.remove_piece(&self.actual_piece, row, column) {
            proof {
                Self::lemma_removable_piece_has_pivot(old(self)@);
            }
            let mut rotated_piece = self.actual_piece.clone();
            rotated_piece.perform_counter_clockwise_rotation();

            if self.board.add_piece(&rotated_piece, row, column) {
                self.actual_piece = rotated_piece;
                proof {
                    assert(self@ =~= rotate_counter_clockwise_spec(old(self)@).1);
                }
                return true;
            } else {
                proof {
                    lemma_remove_place_roundtrip(
                        old(self)@.board,
                        old(self)@.actual_piece,
                        row as int,
                        column as int,
                    );
                }
                self.board.add_piece(&self.actual_piece, row, column);
                proof {
                    assert(self@ =~= old(self)@);
                }
            }
        }

        false
    }

    /// Moves the active piece one step in the given direction: lifts it,
    /// rejects a move past the board edge, tries the new coordinates, and
    /// restores the old position on failure. Returns whether it moved.
    pub fn move_in_direction(&mut self, move_direction: MoveDirection) -> (r: bool)
        requires
            old(self)@.wf(),
        ensures
            (r, final(self)@) == move_spec(old(self)@, move_direction),
            final(self)@.wf(),
    {
        let mut x_coordinate = self.actual_piece_coordinates.x_coordinate;
        let mut y_coordinate = self.actual_piece_coordinates.y_coordinate;

        if self.board.remove_piece(&self.actual_piece, x_coordinate, y_coordinate) {
            proof {
                lemma_remove_place_roundtrip(
                    old(self)@.board,
                    old(self)@.actual_piece,
                    x_coordinate as int,
                    y_coordinate as int,
                );
            }
            match move_direction {
                MoveDirection::Down => {
                    if x_coordinate >= self.board.rows - 1 {
                        self.board.add_piece(&self.actual_piece, x_coordinate, y_coordinate);
                        proof {
                            assert(self@ =~= old(self)@);
                        }
                        return false;
                    }
                    x_coordinate = x_coordinate + 1;
                },
                MoveDirection::Left => {
                    if y_coordinate == 0 {
                        self.board.add_piece(&self.actual_piece, x_coordinate, y_coordinate);
                        proof {
                            assert(self@ =~= old(self)@);
                        }
                        return false;
                    }
                    y_coordinate = y_coordinate - 1;
                },
                MoveDirection::Right => {
                    if y_coordinate >= self.board.columns - 1 {
                        self.board.add_piece(&self.actual_piece, x_coordinate, y_coordinate);
                        proof {
                            assert(self@ =~= old(self)@);
                        }
                        return false;
                    }
                    y_coordinate = y_coordinate + 1;
                },
            }

            if self.board.add_piece(&self.actual_piece, x_coordinate, y_coordinate) {
                self.actual_piece_coordinates = Point::new(x_coordinate, y_coordinate);
                proof {
                    assert(self@ =~= move_spec(old(self)@, move_direction).1);
                }
                return true;
            } else {
                self.board.add_piece(
                    &self.actual_piece,
                    self.actual_piece_coordinates.x_coordinate,
                    self.actual_piece_coordinates.y_coordinate,
                );
                proof {
                    assert(self@ =~= old(self)@);
                }
            }
        }

        false
    }

    /// One logical game step. A game without pieces first draws an active
    /// and a preview piece. A sideways step just moves. A down step that
    /// cannot move marks the piece landed, promotes the preview piece,
    /// draws a new preview, and runs the lock sequence; only then does the
    /// step return true.
    pub fn step(&mut self, move_direction: MoveDirection) -> (r: bool)
        requires
            old(self)@.wf(),
            old(self)@.board.cleared_row_count() <= 4,
            old(self)@.points + 1000 <= usize::MAX,
            old(self)@.rows + 4 <= usize::MAX,
        ensures
            final(self)@.wf(),
            exists|d1: PieceView, d2: PieceView, d3: PieceView|
                is_canonical_piece(d1) && is_canonical_piece(d2) && is_canonical_piece(d3)
                    && #[trigger] step_rel(
                        old(self)@, final(self)@, move_direction, r, d1, d2, d3,
                    ),
    {
        let ghost mut w1 = i_piece_view();
        let ghost mut w2 = i_piece_view();
        let ghost mut w3 = i_piece_view();

        if self.actual_piece.piece_type == PieceType::Empty {
            self.actual_piece = get_next_random_piece();
            self.next_piece = get_next_random_piece();
            proof {
                w1 = self.actual_piece@;
                w2 = self.next_piece@;
                lemma_canonical_piece_wf(w1);
                lemma_canonical_piece_wf(w2);
            }
        }
        let ghost g0 = self@;

        if move_direction == MoveDirection::Down {
            if !self.move_in_direction(MoveDirection::Down) {
                self.piece_landed = true;
                self.actual_piece = self.next_piece.clone();
                self.next_piece = get_next_random_piece();
                proof {
                    w3 = self.next_piece@;
                    lemma_canonical_piece_wf(w3);
                    assert(self@ =~= (GameView {
                        piece_landed: true,
                        actual_piece: g0.next_piece,
                        next_piece: w3,
                        ..g0
                    }));
                }
                self.new_piece();
                proof {
                    assert(step_rel(
                        old(self)@, self@, move_direction, true, w1, w2, w3,
                    ));
                }
                return true;
            }
        } else {
            self.move_in_direction(move_direction);
        }

        proof {
            assert(step_rel(old(self)@, self@, move_direction, false, w1, w2, w3));
        }
        false
    }
}

} // verus!
