//! The board: a grid of cell labels with placement, removal, collision
//! testing and line clearing.

use vstd::prelude::*;

use crate::piece::{Piece, PieceView};
use crate::piece_type::PieceType;

verus! {

/// Mathematical model of a `Board`: the dimensions together with the
/// cell labels as a sequence of rows.
#[verifier::ext_equal]
pub struct BoardView {
    pub rows: nat,
    pub columns: nat,
    pub cells: Seq<Seq<PieceType>>,
}

/// The board cell `(i, j)` lies under an occupied cell of the piece
/// whose pivot sits at board position `(row, col)`: the piece's top-left
/// corner is at `(row - pivot.x, col - pivot.y)`, and the body cell over
/// `(i, j)` is true.
pub open spec fn piece_covers(p: PieceView, row: int, col: int, i: int, j: int) -> bool {
    let sx = row - p.point.x;
    let sy = col - p.point.y;
    &&& sx <= i < sx + p.body.rows
    &&& sy <= j < sy + p.body.columns
    &&& p.body.data[i - sx][j - sy]
}

/// Every cell of the row is occupied (no `Empty` label).
pub open spec fn row_full(r: Seq<PieceType>) -> bool {
    forall|j: int| 0 <= j < r.len() ==> #[trigger] r[j] != PieceType::Empty
}

/// A row of `columns` cells, all `Empty`.
pub open spec fn empty_row(columns: nat) -> Seq<PieceType> {
    Seq::new(columns, |j: int| PieceType::Empty)
}

/// The rows that survive line clearing: the full rows dropped, the rest
/// kept in their original top-to-bottom order.
pub open spec fn kept_of(cells: Seq<Seq<PieceType>>) -> Seq<Seq<PieceType>>
    decreases cells.len(),
{
    if cells.len() == 0 {
        Seq::empty()
    } else {
        let rest = kept_of(cells.drop_last());
        if row_full(cells.last()) {
            rest
        } else {
            rest.push(cells.last())
        }
    }
}

/// How many cells of the row are occupied.
pub open spec fn row_filled_count(r: Seq<PieceType>) -> int
    decreases r.len(),
{
    if r.len() == 0 {
        0
    } else {
        row_filled_count(r.drop_last()) + if r.last() != PieceType::Empty { 1int } else { 0 }
    }
}

/// How many cells of the whole grid are occupied.
pub open spec fn filled_count(cells: Seq<Seq<PieceType>>) -> int
    decreases cells.len(),
{
    if cells.len() == 0 {
        0
    } else {
        filled_count(cells.drop_last()) + row_filled_count(cells.last())
    }
}

impl BoardView {
    /// The dimensions describe the cells: `rows` rows of `columns` labels.
    pub open spec fn wf(self) -> bool {
        &&& self.cells.len() == self.rows
        &&& forall|i: int| 0 <= i < self.rows ==> (#[trigger] self.cells[i]).len() == self.columns
    }

    /// The piece's pivot sits on the board, its bounding box stays on the
    /// board (in particular the top-left corner does not go negative),
    /// and every occupied body cell lands on an `Empty` board cell.
    pub open spec fn can_place(self, p: PieceView, row: int, col: int) -> bool {
        &&& 0 <= row < self.rows
        &&& 0 <= col < self.columns
        &&& p.point.x <= row
        &&& p.point.y <= col
        &&& row - p.point.x + p.body.rows <= self.rows
        &&& col - p.point.y + p.body.columns <= self.columns
        &&& forall|i: int, j: int|
            #[trigger] piece_covers(p, row, col, i, j) ==> self.cells[i][j] == PieceType::Empty
    }

    /// The same bounds as `can_place`, but every occupied body cell must
    /// land on a board cell that carries exactly this piece's tag, so
    /// removal can never erase a different piece.
    pub open spec fn can_remove(self, p: PieceView, row: int, col: int) -> bool {
        &&& 0 <= row < self.rows
        &&& 0 <= col < self.columns
        &&& p.point.x <= row
        &&& p.point.y <= col
        &&& row - p.point.x + p.body.rows <= self.rows
        &&& col - p.point.y + p.body.columns <= self.columns
        &&& forall|i: int, j: int|
            #[trigger] piece_covers(p, row, col, i, j) ==> self.cells[i][j] == p.piece_type
    }

    /// The board with the label `v` written into every cell the piece
    /// covers from pivot position `(row, col)`.
    pub open spec fn stamped(self, p: PieceView, row: int, col: int, v: PieceType) -> BoardView {
        BoardView {
            rows: self.rows,
            columns: self.columns,
            cells: Seq::new(
                self.rows,
                |i: int| Seq::new(
                    self.columns,
                    |j: int| if piece_covers(p, row, col, i, j) { v } else { self.cells[i][j] },
                ),
            ),
        }
    }

    /// The board after placing the piece: its tag written under every
    /// occupied body cell.
    pub open spec fn place(self, p: PieceView, row: int, col: int) -> BoardView {
        self.stamped(p, row, col, p.piece_type)
    }

    /// The board after removing the piece: `Empty` written under every
    /// occupied body cell.
    pub open spec fn remove(self, p: PieceView, row: int, col: int) -> BoardView {
        self.stamped(p, row, col, PieceType::Empty)
    }

    /// The rows that survive line clearing, in order.
    pub open spec fn kept_rows(self) -> Seq<Seq<PieceType>> {
        kept_of(self.cells)
    }

    /// How many rows line clearing deletes: the full ones.
    pub open spec fn cleared_row_count(self) -> int {
        self.rows - self.kept_rows().len()
    }

    /// The board after line clearing: the full rows gone, the remaining
    /// rows in their original order at the bottom, and as many fresh
    /// `Empty` rows at the top as were deleted.
    pub open spec fn cleared(self) -> BoardView {
        BoardView {
            rows: self.rows,
            columns: self.columns,
            cells: Seq::new(
                (self.rows - self.kept_rows().len()) as nat,
                |i: int| empty_row(self.columns),
            ) + self.kept_rows(),
        }
    }
}

/// How many rows of the grid are fully occupied.
pub open spec fn count_full(cells: Seq<Seq<PieceType>>) -> int
    decreases cells.len(),
{
    if cells.len() == 0 {
        0
    } else {
        count_full(cells.drop_last()) + if row_full(cells.last()) { 1int } else { 0 }
    }
}

/// Clearing keeps all rows but the full ones.
pub proof fn lemma_kept_count(cells: Seq<Seq<PieceType>>)
    ensures
        kept_of(cells).len() == cells.len() - count_full(cells),
    decreases cells.len(),
{
    if cells.len() > 0 {
        lemma_kept_count(cells.drop_last());
    }
}

/// Line clearing deletes exactly the full rows: the deleted-row count
/// equals the number of fully occupied rows.
pub proof fn lemma_cleared_count_is_full_count(b: BoardView)
    requires
        b.wf(),
    ensures
        b.cleared_row_count() == count_full(b.cells),
{
    lemma_kept_count(b.cells);
}

/// Clearing never keeps more rows than the grid has.
pub proof fn lemma_kept_len(cells: Seq<Seq<PieceType>>)
    ensures
        kept_of(cells).len() <= cells.len(),
    decreases cells.len(),
{
    if cells.len() > 0 {
        lemma_kept_len(cells.drop_last());
    }
}

/// Unfolds `kept_of` over a push at the end.
pub proof fn lemma_kept_push(s: Seq<Seq<PieceType>>, a: Seq<PieceType>)
    ensures
        kept_of(s.push(a)) == if row_full(a) { kept_of(s) } else { kept_of(s).push(a) },
{
    assert(s.push(a).drop_last() =~= s);
    assert(s.push(a).last() == a);
}

/// A full row of length `n` holds exactly `n` occupied cells.
pub proof fn lemma_row_full_count(r: Seq<PieceType>)
    requires
        row_full(r),
    ensures
        row_filled_count(r) == r.len(),
    decreases r.len(),
{
    if r.len() > 0 {
        assert(row_full(r.drop_last()));
        lemma_row_full_count(r.drop_last());
    }
}

/// An all-`Empty` row holds no occupied cell.
pub proof fn lemma_empty_row_count(columns: nat)
    ensures
        row_filled_count(empty_row(columns)) == 0,
    decreases columns,
{
    if columns > 0 {
        assert(empty_row(columns).drop_last() =~= empty_row((columns - 1) as nat));
        assert(empty_row(columns).last() == PieceType::Empty);
        lemma_empty_row_count((columns - 1) as nat);
    }
}

/// Occupied-cell counting distributes over concatenation of grids.
pub proof fn lemma_filled_count_concat(a: Seq<Seq<PieceType>>, b: Seq<Seq<PieceType>>)
    ensures
        filled_count(a + b) == filled_count(a) + filled_count(b),
    decreases b.len(),
{
    if b.len() == 0 {
        assert(a + b =~= a);
    } else {
        assert((a + b).drop_last() =~= a + b.drop_last());
        assert((a + b).last() == b.last());
        lemma_filled_count_concat(a, b.drop_last());
    }
}

/// A stack of `k` all-`Empty` rows holds no occupied cell.
pub proof fn lemma_empty_rows_count(k: nat, columns: nat)
    ensures
        filled_count(Seq::new(k, |i: int| empty_row(columns))) == 0,
    decreases k,
{
    if k > 0 {
        let s = Seq::new(k, |i: int| empty_row(columns));
        assert(s.drop_last() =~= Seq::new((k - 1) as nat, |i: int| empty_row(columns)));
        assert(s.last() == empty_row(columns));
        lemma_empty_row_count(columns);
        lemma_empty_rows_count((k - 1) as nat, columns);
    }
}

/// Dropping the full rows removes exactly `columns` occupied cells per
/// dropped row.
pub proof fn lemma_kept_filled_count(cells: Seq<Seq<PieceType>>, columns: nat)
    requires
        forall|i: int| 0 <= i < cells.len() ==> (#[trigger] cells[i]).len() == columns,
    ensures
        filled_count(kept_of(cells)) == filled_count(cells) - (cells.len() - kept_of(cells).len())
            * columns,
    decreases cells.len(),
{
    if cells.len() == 0 {
        assert(kept_of(cells).len() == 0);
        assert((cells.len() - kept_of(cells).len()) * columns == 0) by (nonlinear_arith)
            requires cells.len() == 0 && kept_of(cells).len() == 0,
        ;
    } else {
        let dl = cells.drop_last();
        let last = cells.last();
        assert(forall|i: int| 0 <= i < dl.len() ==> (#[trigger] dl[i]).len() == columns);
        lemma_kept_filled_count(dl, columns);
        lemma_kept_len(dl);
        let kl = kept_of(dl).len() as int;
        assert(last == cells[cells.len() - 1]);
        assert(last.len() == columns);
        assert(filled_count(cells) == filled_count(dl) + row_filled_count(last));
        if row_full(last) {
            lemma_row_full_count(last);
            assert(row_filled_count(last) == columns);
            assert(kept_of(cells) == kept_of(dl));
            assert(kept_of(cells).len() == kl);
            assert((cells.len() - kl) * columns == (dl.len() - kl) * columns + columns)
                by (nonlinear_arith)
                requires cells.len() == dl.len() + 1,
            ;
            assert(filled_count(kept_of(cells)) == filled_count(cells) - (cells.len()
                - kept_of(cells).len()) * columns);
        } else {
            assert(kept_of(cells) == kept_of(dl).push(last));
            assert(kept_of(cells).len() == kl + 1);
            assert(kept_of(cells).drop_last() =~= kept_of(dl));
            assert(kept_of(cells).last() == last);
            assert(filled_count(kept_of(cells)) == filled_count(kept_of(dl))
                + row_filled_count(last));
            assert((cells.len() - (kl + 1)) * columns == (dl.len() - kl) * columns)
                by (nonlinear_arith)
                requires cells.len() == dl.len() + 1,
            ;
            assert(filled_count(kept_of(cells)) == filled_count(cells) - (cells.len()
                - kept_of(cells).len()) * columns);
        }
    }
}

/// Every surviving row keeps its length.
pub proof fn lemma_kept_row_lens(cells: Seq<Seq<PieceType>>, columns: nat)
    requires
        forall|i: int| 0 <= i < cells.len() ==> (#[trigger] cells[i]).len() == columns,
    ensures
        forall|i: int|
            0 <= i < kept_of(cells).len() ==> (#[trigger] kept_of(cells)[i]).len() == columns,
    decreases cells.len(),
{
    if cells.len() > 0 {
        let dl = cells.drop_last();
        assert(forall|i: int| 0 <= i < dl.len() ==> (#[trigger] dl[i]).len() == columns);
        lemma_kept_row_lens(dl, columns);
        assert(cells.last() == cells[cells.len() - 1]);
        assert forall|i: int|
            0 <= i < kept_of(cells).len()
            implies (#[trigger] kept_of(cells)[i]).len() == columns by {
            if row_full(cells.last()) {
                assert(kept_of(cells) == kept_of(dl));
                assert(kept_of(cells)[i] == kept_of(dl)[i]);
            } else {
                assert(kept_of(cells) == kept_of(dl).push(cells.last()));
                if i < kept_of(dl).len() {
                    assert(kept_of(cells)[i] == kept_of(dl)[i]);
                } else {
                    assert(kept_of(cells)[i] == cells.last());
                }
            }
        }
    }
}

/// Line clearing lowers the occupied-cell count by exactly the number of
/// deleted rows times the column count.
pub proof fn lemma_cleared_filled_count(b: BoardView)
    requires
        b.wf(),
    ensures
        filled_count(b.cleared().cells) == filled_count(b.cells) - b.cleared_row_count()
            * b.columns,
{
    lemma_kept_len(b.cells);
    let k = (b.rows - b.kept_rows().len()) as nat;
    lemma_filled_count_concat(Seq::new(k, |i: int| empty_row(b.columns)), b.kept_rows());
    lemma_empty_rows_count(k, b.columns);
    lemma_kept_filled_count(b.cells, b.columns);
}

/// Like `piece_covers`, restricted to the body cells strictly before
/// `(x, y)` in row-major order; describes a stamp in progress.
pub open spec fn covers_before(
    p: PieceView, row: int, col: int, i: int, j: int, x: int, y: int,
) -> bool {
    let a = i - (row - p.point.x);
    let b = j - (col - p.point.y);
    &&& piece_covers(p, row, col, i, j)
    &&& (a < x || (a == x && b < y))
}

/// The cells of a stamp in progress: `v` written under the occupied body
/// cells strictly before `(x, y)` in row-major order, the rest as in `b`.
pub open spec fn stamped_upto(
    b: BoardView, p: PieceView, row: int, col: int, v: PieceType, x: int, y: int,
) -> Seq<Seq<PieceType>> {
    Seq::new(
        b.rows,
        |i: int| Seq::new(
            b.columns,
            |j: int| if covers_before(p, row, col, i, j, x, y) { v } else { b.cells[i][j] },
        ),
    )
}

/// Placing a piece and then removing it restores the board exactly: the
/// placement is removable, and the removal undoes it cell for cell.
pub proof fn lemma_place_remove_roundtrip(b: BoardView, p: PieceView, row: int, col: int)
    requires
        b.wf(),
        b.can_place(p, row, col),
    ensures
        b.place(p, row, col).can_remove(p, row, col),
        b.place(p, row, col).remove(p, row, col) == b,
{
    let placed = b.place(p, row, col);
    assert forall|i: int, j: int|
        #[trigger] piece_covers(p, row, col, i, j) implies placed.cells[i][j] == p.piece_type by {
    }
    assert(placed.remove(p, row, col).cells =~~= b.cells);
    assert(placed.remove(p, row, col) =~= b);
}

/// Removing a piece that sits on the board and then placing it back
/// restores the board exactly.
pub proof fn lemma_remove_place_roundtrip(b: BoardView, p: PieceView, row: int, col: int)
    requires
        b.wf(),
        b.can_remove(p, row, col),
    ensures
        b.remove(p, row, col).can_place(p, row, col),
        b.remove(p, row, col).place(p, row, col) == b,
{
    let removed = b.remove(p, row, col);
    assert forall|i: int, j: int|
        #[trigger] piece_covers(p, row, col, i, j) implies removed.cells[i][j] == PieceType::Empty by {
    }
    assert(removed.place(p, row, col).cells =~~= b.cells);
    assert(removed.place(p, row, col) =~= b);
}

/// A board of cell labels stored row-major as a `Vec` of rows.
#[derive(Debug, PartialEq)]
pub struct Board {
    pub rows: usize,
    pub columns: usize,
    pub board: Vec<Vec<PieceType>>,
}

impl View for Board {
    type V = BoardView;

    open spec fn view(&self) -> BoardView {
        BoardView {
            rows: self.rows as nat,
            columns: self.columns as nat,
            cells: self.board@.map_values(|r: Vec<PieceType>| r@),
        }
    }
}

impl Clone for Board {
    fn clone(&self) -> (r: Self)
        ensures
            r@ == self@,
    {
        let mut board: Vec<Vec<PieceType>> = Vec::new();
        let mut i: usize = 0;
        while i < self.board.len()
            invariant
                i <= self.board.len(),
                board@.len() == i,
                forall|k: int| 0 <= k < i ==> board@[k]@ == self.board@[k]@,
            decreases self.board.len() - i,
        {
            let mut row: Vec<PieceType> = Vec::new();
            let mut j: usize = 0;
            let src = &self.board[i];
            while j < src.len()
                invariant
                    j <= src.len(),
                    row@ == src@.subrange(0, j as int),
                decreases src.len() - j,
            {
                row.push(src[j]);
                proof {
                    assert(row@ =~= src@.subrange(0, j + 1));
                }
                j = j + 1;
            }
            proof {
                assert(row@ =~= src@);
            }
            board.push(row);
            i = i + 1;
        }
        let r = Board { rows: self.rows, columns: self.columns, board };
        proof {
            assert(r@.cells =~= self@.cells);
            assert(r@ =~= self@);
        }
        r
    }
}

impl Board {
    /// A `rows` by `columns` board with every cell `Empty`.
    pub fn new(rows: usize, columns: usize) -> (r: Board)
        ensures
            r@.wf(),
            r@.rows == rows,
            r@.columns == columns,
            forall|i: int, j: int|
                0 <= i < rows && 0 <= j < columns
                    ==> #[trigger] r@.cells[i][j] == PieceType::Empty,
    {
        let mut board: Vec<Vec<PieceType>> = Vec::new();
        let mut i: usize = 0;
        while i < rows
            invariant
                i <= rows,
                board@.len() == i,
                forall|k: int| 0 <= k < i ==> (#[trigger] board@[k])@.len() == columns,
                forall|k: int, j: int|
                    0 <= k < i && 0 <= j < columns
                        ==> #[trigger] board@[k]@[j] == PieceType::Empty,
            decreases rows - i,
        {
            let mut row: Vec<PieceType> = Vec::new();
            let mut j: usize = 0;
            while j < columns
                invariant
                    j <= columns,
                    row@.len() == j,
                    forall|k: int| 0 <= k < j ==> #[trigger] row@[k] == PieceType::Empty,
                decreases columns - j,
            {
                row.push(PieceType::Empty);
                j = j + 1;
            }
            board.push(row);
            i = i + 1;
        }
        Board { rows, columns, board }
    }

    /// Reads one cell label.
    pub fn get_cell(&self, x: usize, y: usize) -> (r: PieceType)
        requires
            self@.wf(),
            x < self@.rows,
            y < self@.columns,
        ensures
            r == self@.cells[x as int][y as int],
    {
        proof {
            assert(self@.cells[x as int] == self.board@[x as int]@);
        }
        self.board[x][y]
    }

    /// Writes one cell label.
    fn set_cell(&mut self, x: usize, y: usize, v: PieceType)
        requires
            old(self)@.wf(),
            x < old(self)@.rows,
            y < old(self)@.columns,
        ensures
            final(self)@.rows == old(self)@.rows,
            final(self)@.columns == old(self)@.columns,
            final(self)@.wf(),
            final(self)@.cells == old(self)@.cells.update(
                x as int,
                old(self)@.cells[x as int].update(y as int, v),
            ),
    {
        proof {
            assert(self@.cells[x as int] == self.board@[x as int]@);
        }
        let row: &mut Vec<PieceType> = &mut self.board[x];
        row.set(y, v);
        proof {
            assert(self@.cells =~= old(self)@.cells.update(
                x as int,
                old(self)@.cells[x as int].update(y as int, v),
            ));
        }
    }

    /// Collision and bounds test for placing a piece with its pivot at
    /// `(row, column)`: true exactly when the pivot is on the board, the
    /// piece's bounding box stays on the board, and every occupied body
    /// cell would land on an `Empty` cell.
    pub fn can_add_piece(&self, piece: &Piece, row: usize, column: usize) -> (r: bool)
        requires
            self@.wf(),
            piece@.body.wf(),
            piece@.body.rows >= 1,
            piece@.body.columns >= 1,
        ensures
            r == self@.can_place(piece@, row as int, column as int),
    {
        let rows = piece.body.rows;
        let columns = piece.body.columns;

        if row >= self.rows || column >= self.columns || row < piece.point.x_coordinate
            || column < piece.point.y_coordinate {
            return false;
        }

        let start_x = row - piece.point.x_coordinate;
        let start_y = column - piece.point.y_coordinate;

        // the bottom-right corner (start + dims - 1) must stay on the
        // board; compared by subtraction so that nothing can overflow
        if rows > self.rows - start_x || columns > self.columns - start_y {
            return false;
        }

        let mut x: usize = 0;
        while x < rows
            invariant
                x <= rows,
                self@.wf(),
                piece@.body.wf(),
                rows == piece@.body.rows,
                columns == piece@.body.columns,
                row < self@.rows,
                column < self@.columns,
                piece@.point.x <= row,
                piece@.point.y <= column,
                start_x == row - piece@.point.x,
                start_y == column - piece@.point.y,
                start_x + rows <= self@.rows,
                start_y + columns <= self@.columns,
                forall|a: int, b: int|
                    0 <= a < x && 0 <= b < columns && #[trigger] piece@.body.data[a][b]
                        ==> self@.cells[start_x + a][start_y + b] == PieceType::Empty,
            decreases rows - x,
        {
            let mut y: usize = 0;
            while y < columns
                invariant
                    x < rows,
                    y <= columns,
                    self@.wf(),
                    piece@.body.wf(),
                    rows == piece@.body.rows,
                    columns == piece@.body.columns,
                    row < self@.rows,
                    column < self@.columns,
                    piece@.point.x <= row,
                    piece@.point.y <= column,
                    start_x == row - piece@.point.x,
                    start_y == column - piece@.point.y,
                    start_x + rows <= self@.rows,
                    start_y + columns <= self@.columns,
                    forall|a: int, b: int|
                        0 <= a < x && 0 <= b < columns && #[trigger] piece@.body.data[a][b]
                            ==> self@.cells[start_x + a][start_y + b] == PieceType::Empty,
                    forall|b: int|
                        0 <= b < y && #[trigger] piece@.body.data[x as int][b]
                            ==> self@.cells[start_x + x][start_y + b] == PieceType::Empty,
                decreases columns - y,
            {
                if piece.body.get(x, y) {
                    if self.get_cell(start_x + x, start_y + y) != PieceType::Empty {
                        proof {
                            assert(piece_covers(
                                piece@, row as int, column as int,
                                start_x + x, start_y + y,
                            ));
                        }
                        return false;
                    }
                }
                y = y + 1;
            }
            x = x + 1;
        }
        proof {
            assert forall|i: int, j: int|
                piece_covers(piece@, row as int, column as int, i, j)
                implies self@.cells[i][j] == PieceType::Empty by {
                let a = i - (row - piece@.point.x);
                let b = j - (column - piece@.point.y);
                assert(piece@.body.data[a][b]);
            }
        }
        true
    }

    /// Writes `v` into every board cell under an occupied body cell; the
    /// caller has already established that the piece's box is on the board.
    fn stamp(&mut self, piece: &Piece, row: usize, column: usize, v: PieceType)
        requires
            old(self)@.wf(),
            piece@.body.wf(),
            piece@.point.x <= row < old(self)@.rows,
            piece@.point.y <= column < old(self)@.columns,
            row - piece@.point.x + piece@.body.rows <= old(self)@.rows,
            column - piece@.point.y + piece@.body.columns <= old(self)@.columns,
        ensures
            final(self)@ == old(self)@.stamped(piece@, row as int, column as int, v),
            final(self)@.wf(),
    {
        let rows = piece.body.rows;
        let columns = piece.body.columns;
        let start_x = row - piece.point.x_coordinate;
        let start_y = column - piece.point.y_coordinate;

        let ghost b0 = old(self)@;
        let ghost pv = piece@;
        let ghost r0 = row as int;
        let ghost c0 = column as int;

        proof {
            assert(stamped_upto(b0, pv, r0, c0, v, 0, 0) =~~= b0.cells);
        }
        let mut x: usize = 0;
        while x < rows
            invariant
                x <= rows,
                self@.wf(),
                pv == piece@,
                r0 == row as int,
                c0 == column as int,
                pv.body.wf(),
                rows == pv.body.rows,
                columns == pv.body.columns,
                pv.point.x <= r0 < b0.rows,
                pv.point.y <= c0 < b0.columns,
                start_x == r0 - pv.point.x,
                start_y == c0 - pv.point.y,
                start_x + rows <= b0.rows,
                start_y + columns <= b0.columns,
                b0.wf(),
                self@.rows == b0.rows,
                self@.columns == b0.columns,
                self@.cells == stamped_upto(b0, pv, r0, c0, v, x as int, 0),
            decreases rows - x,
        {
            let mut y: usize = 0;
            while y < columns
                invariant
                    x < rows,
                    y <= columns,
                    self@.wf(),
                    pv == piece@,
                    r0 == row as int,
                    c0 == column as int,
                    pv.body.wf(),
                    rows == pv.body.rows,
                    columns == pv.body.columns,
                    pv.point.x <= r0 < b0.rows,
                    pv.point.y <= c0 < b0.columns,
                    start_x == r0 - pv.point.x,
                    start_y == c0 - pv.point.y,
                    start_x + rows <= b0.rows,
                    start_y + columns <= b0.columns,
                    b0.wf(),
                    self@.rows == b0.rows,
                    self@.columns == b0.columns,
                    self@.cells == stamped_upto(b0, pv, r0, c0, v, x as int, y as int),
                decreases columns - y,
            {
                let ghost before = self@.cells;
                if piece.body.get(x, y) {
                    self.set_cell(start_x + x, start_y + y, v);
                    proof {
                        assert(piece_covers(pv, r0, c0, start_x + x, start_y + y));
                        assert(self@.cells
                            =~~= stamped_upto(b0, pv, r0, c0, v, x as int, y + 1));
                    }
                } else {
                    proof {
                        assert(self@.cells
                            =~~= stamped_upto(b0, pv, r0, c0, v, x as int, y + 1));
                    }
                }
                y = y + 1;
            }
            proof {
                assert(stamped_upto(b0, pv, r0, c0, v, x as int, columns as int)
                    =~~= stamped_upto(b0, pv, r0, c0, v, x + 1, 0));
            }
            x = x + 1;
        }
        proof {
            assert(self@.cells =~~= b0.stamped(pv, r0, c0, v).cells);
            assert(self@ =~= b0.stamped(pv, r0, c0, v));
        }
    }

    /// Places the piece with its pivot at `(row, column)` if `can_place`
    /// holds there, writing its tag under every occupied body cell;
    /// otherwise leaves the board untouched.
    pub fn add_piece(&mut self, piece: &Piece, row: usize, column: usize) -> (r: bool)
        requires
            old(self)@.wf(),
            piece@.body.wf(),
            piece@.body.rows >= 1,
            piece@.body.columns >= 1,
        ensures
            r == old(self)@.can_place(piece@, row as int, column as int),
            r ==> final(self)@ == old(self)@.place(piece@, row as int, column as int),
            !r ==> final(self)@ == old(self)@,
            final(self)@.wf(),
            final(self)@.rows == old(self)@.rows,
            final(self)@.columns == old(self)@.columns,
    {
        if !self.can_add_piece(piece, row, column) {
            return false;
        }
        self.stamp(piece, row, column, piece.piece_type);
        true
    }

    /// Bounds and occupancy test for removing a piece whose pivot sits at
    /// `(row, column)`: the same bounds as `can_add_piece`, and every
    /// occupied body cell must carry exactly this piece's tag.
    pub fn can_remove_piece(&self, piece: &Piece, row: usize, column: usize) -> (r: bool)
        requires
            self@.wf(),
            piece@.body.wf(),
            piece@.body.rows >= 1,
            piece@.body.columns >= 1,
        ensures
            r == self@.can_remove(piece@, row as int, column as int),
    {
        let rows = piece.body.rows;
        let columns = piece.body.columns;
        let piece_type = piece.piece_type;

        if row >= self.rows || column >= self.columns || row < piece.point.x_coordinate
            || column < piece.point.y_coordinate {
            return false;
        }

        let start_x = row - piece.point.x_coordinate;
        let start_y = column - piece.point.y_coordinate;

        // the bottom-right corner (start + dims - 1) must stay on the
        // board; compared by subtraction so that nothing can overflow
        if rows > self.rows - start_x || columns > self.columns - start_y {
            return false;
        }

        let mut x: usize = 0;
        while x < rows
            invariant
                x <= rows,
                self@.wf(),
                piece@.body.wf(),
                rows == piece@.body.rows,
                columns == piece@.body.columns,
                piece_type == piece@.piece_type,
                row < self@.rows,
                column < self@.columns,
                piece@.point.x <= row,
                piece@.point.y <= column,
                start_x == row - piece@.point.x,
                start_y == column - piece@.point.y,
                start_x + rows <= self@.rows,
                start_y + columns <= self@.columns,
                forall|a: int, b: int|
                    0 <= a < x && 0 <= b < columns && #[trigger] piece@.body.data[a][b]
                        ==> self@.cells[start_x + a][start_y + b] == piece@.piece_type,
            decreases rows - x,
        {
            let mut y: usize = 0;
            while y < columns
                invariant
                    x < rows,
                    y <= columns,
                    self@.wf(),
                    piece@.body.wf(),
                    rows == piece@.body.rows,
                    columns == piece@.body.columns,
                    piece_type == piece@.piece_type,
                    row < self@.rows,
                    column < self@.columns,
                    piece@.point.x <= row,
                    piece@.point.y <= column,
                    start_x == row - piece@.point.x,
                    start_y == column - piece@.point.y,
                    start_x + rows <= self@.rows,
                    start_y + columns <= self@.columns,
                    forall|a: int, b: int|
                        0 <= a < x && 0 <= b < columns && #[trigger] piece@.body.data[a][b]
                            ==> self@.cells[start_x + a][start_y + b] == piece@.piece_type,
                    forall|b: int|
                        0 <= b < y && #[trigger] piece@.body.data[x as int][b]
                            ==> self@.cells[start_x + x][start_y + b] == piece@.piece_type,
                decreases columns - y,
            {
                if piece.body.get(x, y) {
                    if self.get_cell(start_x + x, start_y + y) != piece_type {
                        proof {
                            assert(piece_covers(
                                piece@, row as int, column as int,
                                start_x + x, start_y + y,
                            ));
                        }
                        return false;
                    }
                }
                y = y + 1;
            }
            x = x + 1;
        }
        proof {
            assert forall|i: int, j: int|
                piece_covers(piece@, row as int, column as int, i, j)
                implies self@.cells[i][j] == piece@.piece_type by {
                let a = i - (row - piece@.point.x);
                let b = j - (column - piece@.point.y);
                assert(piece@.body.data[a][b]);
            }
        }
        true
    }

    /// Removes the piece from pivot position `(row, column)` if
    /// `can_remove` holds there, writing `Empty` under every occupied body
    /// cell; otherwise leaves the board untouched.
    pub fn remove_piece(&mut self, piece: &Piece, row: usize, column: usize) -> (r: bool)
        requires
            old(self)@.wf(),
            piece@.body.wf(),
            piece@.body.rows >= 1,
            piece@.body.columns >= 1,
        ensures
            r == old(self)@.can_remove(piece@, row as int, column as int),
            r ==> final(self)@ == old(self)@.remove(piece@, row as int, column as int),
            !r ==> final(self)@ == old(self)@,
            final(self)@.wf(),
            final(self)@.rows == old(self)@.rows,
            final(self)@.columns == old(self)@.columns,
    {
        if !self.can_remove_piece(piece, row, column) {
            return false;
        }
        self.stamp(piece, row, column, PieceType::Empty);
        true
    }

    /// True exactly when every cell of row `x` is occupied.
    fn row_is_full(&self, x: usize) -> (r: bool)
        requires
            self@.wf(),
            x < self@.rows,
        ensures
            r == row_full(self@.cells[x as int]),
    {
        let mut y: usize = 0;
        while y < self.columns
            invariant
                y <= self@.columns,
                self@.wf(),
                x < self@.rows,
                forall|b: int|
                    0 <= b < y ==> #[trigger] self@.cells[x as int][b] != PieceType::Empty,
            decreases self@.columns - y,
        {
            if self.get_cell(x, y) == PieceType::Empty {
                return false;
            }
            y = y + 1;
        }
        true
    }

    /// A copy of row `x` of the board.
    fn clone_row_at(&self, x: usize) -> (r: Vec<PieceType>)
        requires
            self@.wf(),
            x < self@.rows,
        ensures
            r@ == self@.cells[x as int],
    {
        let mut r: Vec<PieceType> = Vec::new();
        let mut y: usize = 0;
        while y < self.columns
            invariant
                y <= self@.columns,
                self@.wf(),
                x < self@.rows,
                r@.len() == y,
                forall|b: int| 0 <= b < y ==> #[trigger] r@[b] == self@.cells[x as int][b],
            decreases self@.columns - y,
        {
            r.push(self.get_cell(x, y));
            y = y + 1;
        }
        proof {
            assert(r@ =~= self@.cells[x as int]);
        }
        r
    }

    /// Deletes every full row, keeps the rest in order at the bottom,
    /// pads the top with fresh `Empty` rows, and returns how many rows
    /// were deleted.
    pub fn delete_complete_rows(&mut self) -> (r: usize)
        requires
            old(self)@.wf(),
        ensures
            r == old(self)@.cleared_row_count(),
            final(self)@ == old(self)@.cleared(),
            final(self)@.wf(),
            final(self)@.rows == old(self)@.rows,
            final(self)@.columns == old(self)@.columns,
    {
        let ghost b0 = old(self)@;
        let rows = self.rows;
        let columns = self.columns;

        // collect the rows that are not full, in order
        let mut kept: Vec<Vec<PieceType>> = Vec::new();
        let mut x: usize = 0;
        proof {
            assert(b0.cells.take(0) =~= Seq::<Seq<PieceType>>::empty());
        }
        while x < rows
            invariant
                x <= rows,
                self@ == b0,
                b0.wf(),
                rows == b0.rows,
                columns == b0.columns,
                kept@.map_values(|v: Vec<PieceType>| v@) == kept_of(b0.cells.take(x as int)),
            decreases rows - x,
        {
            let full = self.row_is_full(x);
            if !full {
                let row = self.clone_row_at(x);
                kept.push(row);
            }
            proof {
                lemma_kept_push(b0.cells.take(x as int), b0.cells[x as int]);
                assert(b0.cells.take(x + 1) =~= b0.cells.take(x as int).push(b0.cells[x as int]));
                assert(kept@.map_values(|v: Vec<PieceType>| v@)
                    =~= kept_of(b0.cells.take(x + 1)));
            }
            x = x + 1;
        }
        proof {
            assert(b0.cells.take(rows as int) =~= b0.cells);
            lemma_kept_len(b0.cells);
        }

        // rebuild: the deleted count of fresh Empty rows on top, then the
        // kept rows in their original order
        let deleted = rows - kept.len();
        let mut new_board: Vec<Vec<PieceType>> = Vec::new();
        let mut i: usize = 0;
        while i < deleted
            invariant
                i <= deleted,
                columns == b0.columns,
                new_board@.len() == i,
                forall|a: int| 0 <= a < i ==> (#[trigger] new_board@[a])@ == empty_row(b0.columns),
            decreases deleted - i,
        {
            let mut row: Vec<PieceType> = Vec::new();
            let mut j: usize = 0;
            while j < columns
                invariant
                    j <= columns,
                    columns == b0.columns,
                    row@.len() == j,
                    forall|b: int| 0 <= b < j ==> #[trigger] row@[b] == PieceType::Empty,
                decreases columns - j,
            {
                row.push(PieceType::Empty);
                j = j + 1;
            }
            proof {
                assert(row@ =~= empty_row(b0.columns));
            }
            new_board.push(row);
            i = i + 1;
        }
        let mut j: usize = 0;
        while j < kept.len()
            invariant
                j <= kept@.len(),
                new_board@.len() == deleted + j,
                deleted == rows - kept@.len(),
                kept@.map_values(|v: Vec<PieceType>| v@) == kept_of(b0.cells),
                forall|a: int|
                    0 <= a < deleted ==> (#[trigger] new_board@[a])@ == empty_row(b0.columns),
                forall|a: int|
                    deleted <= a < deleted + j
                        ==> (#[trigger] new_board@[a])@ == kept_of(b0.cells)[a - deleted],
            decreases kept@.len() - j,
        {
            let mut row: Vec<PieceType> = Vec::new();
            let mut y: usize = 0;
            let src = &kept[j];
            while y < src.len()
                invariant
                    y <= src@.len(),
                    row@ == src@.subrange(0, y as int),
                decreases src@.len() - y,
            {
                row.push(src[y]);
                proof {
                    assert(row@ =~= src@.subrange(0, y + 1));
                }
                y = y + 1;
            }
            proof {
                assert(row@ =~= src@);
                assert(kept@.map_values(|v: Vec<PieceType>| v@)[j as int] == kept@[j as int]@);
            }
            new_board.push(row);
            j = j + 1;
        }

        self.board = new_board;
        proof {
            lemma_kept_row_lens(b0.cells, b0.columns);
            assert(self@.cells =~~= b0.cleared().cells);
            assert(self@ =~= b0.cleared());
        }
        deleted
    }
}

} // verus!
