//! The automatic player: simulates drops of the active piece over all
//! reachable rotation/shift combinations, scores each outcome with a
//! fixed heuristic, and queues the command sequence of the best one.

use vstd::prelude::*;

use crate::board::{Board, BoardView, row_full, count_full, lemma_cleared_count_is_full_count};
use crate::commands::Command;
use crate::end_board_with_moves::{EndBoardWithMoves, EndBoardView, views_of, lemma_views_push};
use crate::game::{Game, GameView, move_spec, rotate_clockwise_spec};
use crate::move_direction::MoveDirection;
use crate::piece_type::PieceType;

verus! {

/// The row index of the topmost occupied cell of column `c`, looking
/// from row `r` downwards; `rows` when the column is empty from `r` on.
pub open spec fn column_top_from(b: BoardView, c: int, r: int) -> int
    decreases b.rows - r
        when 0 <= r <= b.rows
{
    if r >= b.rows {
        b.rows as int
    } else if b.cells[r][c] != PieceType::Empty {
        r
    } else {
        column_top_from(b, c, r + 1)
    }
}

/// The height of column `c`: how far its topmost occupied cell stands
/// above the floor; 0 for an empty column.
pub open spec fn column_height(b: BoardView, c: int) -> int {
    b.rows - column_top_from(b, c, 0)
}

/// The empty cells of column `c` in rows `[r, rows)`.
pub open spec fn empty_below(b: BoardView, c: int, r: int) -> int
    decreases b.rows - r
        when 0 <= r <= b.rows
{
    if r >= b.rows {
        0
    } else {
        (if b.cells[r][c] == PieceType::Empty { 1int } else { 0 }) + empty_below(b, c, r + 1)
    }
}

/// The holes of column `c`: empty cells lying below its topmost occupied
/// cell.
pub open spec fn holes_in_column(b: BoardView, c: int) -> int {
    empty_below(b, c, column_top_from(b, c, 0))
}

/// The wall and floor contact of column `c` in rows `[r, rows)`: one per
/// occupied cell in the leftmost or rightmost column, plus two per
/// occupied cell in the bottom row.
pub open spec fn wall_contact_from(b: BoardView, c: int, r: int) -> int
    decreases b.rows - r
        when 0 <= r <= b.rows
{
    if r >= b.rows {
        0
    } else {
        let occupied = b.cells[r][c] != PieceType::Empty;
        (if occupied && (c == 0 || c == b.columns - 1) { 1int } else { 0 })
            + (if occupied && r == b.rows - 1 { 2int } else { 0 })
            + wall_contact_from(b, c, r + 1)
    }
}

/// The summed column heights over columns `[c, columns)`.
pub open spec fn heights_from(b: BoardView, c: int) -> int
    decreases b.columns - c
        when 0 <= c <= b.columns
{
    if c >= b.columns {
        0
    } else {
        column_height(b, c) + heights_from(b, c + 1)
    }
}

/// The summed hole counts over columns `[c, columns)`.
pub open spec fn holes_from(b: BoardView, c: int) -> int
    decreases b.columns - c
        when 0 <= c <= b.columns
{
    if c >= b.columns {
        0
    } else {
        holes_in_column(b, c) + holes_from(b, c + 1)
    }
}

/// The summed wall and floor contact over columns `[c, columns)`.
pub open spec fn wall_from(b: BoardView, c: int) -> int
    decreases b.columns - c
        when 0 <= c <= b.columns
{
    if c >= b.columns {
        0
    } else {
        wall_contact_from(b, c, 0) + wall_from(b, c + 1)
    }
}

/// The adjacency score of cell `(r, c)`: one per occupied orthogonal
/// neighbour of an occupied cell; pairs count once from each side.
pub open spec fn touch_cell(b: BoardView, r: int, c: int) -> int {
    if b.cells[r][c] == PieceType::Empty {
        0
    } else {
        (if r + 1 < b.rows && b.cells[r + 1][c] != PieceType::Empty { 1int } else { 0 })
            + (if r > 0 && b.cells[r - 1][c] != PieceType::Empty { 1int } else { 0 })
            + (if c + 1 < b.columns && b.cells[r][c + 1] != PieceType::Empty { 1int } else { 0 })
            + (if c > 0 && b.cells[r][c - 1] != PieceType::Empty { 1int } else { 0 })
    }
}

/// The summed adjacency of row `r` over columns `[c, columns)`.
pub open spec fn touch_row_from(b: BoardView, r: int, c: int) -> int
    decreases b.columns - c
        when 0 <= c <= b.columns
{
    if c >= b.columns {
        0
    } else {
        touch_cell(b, r, c) + touch_row_from(b, r, c + 1)
    }
}

/// The summed adjacency over rows `[r, rows)`.
pub open spec fn touch_from(b: BoardView, r: int) -> int
    decreases b.rows - r
        when 0 <= r <= b.rows
{
    if r >= b.rows {
        0
    } else {
        touch_row_from(b, r, 0) + touch_from(b, r + 1)
    }
}

/// How many rows in `[r, rows)` are fully occupied.
pub open spec fn full_rows_from(b: BoardView, r: int) -> int
    decreases b.rows - r
        when 0 <= r <= b.rows
{
    if r >= b.rows {
        0
    } else {
        (if row_full(b.cells[r]) { 1int } else { 0 }) + full_rows_from(b, r + 1)
    }
}

/// The heuristic value of a board, scaled by ten so that every weight is
/// an integer: ten times
/// `-2.5*heights + 8*full rows - 4.5*holes + 4.2*wall contact + 4*adjacency`.
pub open spec fn heuristic_spec(b: BoardView) -> int {
    (-25) * heights_from(b, 0) + 80 * full_rows_from(b, 0) + (-45) * holes_from(b, 0)
        + 42 * wall_from(b, 0) + 40 * touch_from(b, 0)
}

/// The topmost occupied cell lies between `r` and the floor.
pub proof fn lemma_column_top_bounds(b: BoardView, c: int, r: int)
    requires
        0 <= r <= b.rows,
    ensures
        r <= column_top_from(b, c, r) <= b.rows,
    decreases b.rows - r,
{
    if r < b.rows && b.cells[r][c] == PieceType::Empty {
        lemma_column_top_bounds(b, c, r + 1);
    }
}

/// A column holds between zero and `rows - r` empty cells below `r`.
pub proof fn lemma_empty_below_bounds(b: BoardView, c: int, r: int)
    requires
        0 <= r <= b.rows,
    ensures
        0 <= empty_below(b, c, r) <= b.rows - r,
    decreases b.rows - r,
{
    if r < b.rows {
        lemma_empty_below_bounds(b, c, r + 1);
    }
}

/// Wall and floor contact contributes at most three per cell.
pub proof fn lemma_wall_contact_bounds(b: BoardView, c: int, r: int)
    requires
        0 <= r <= b.rows,
    ensures
        0 <= wall_contact_from(b, c, r) <= 3 * (b.rows - r),
    decreases b.rows - r,
{
    if r < b.rows {
        lemma_wall_contact_bounds(b, c, r + 1);
    }
}

/// The summed heights lie between zero and columns times rows.
pub proof fn lemma_heights_from_bounds(b: BoardView, c: int)
    requires
        0 <= c <= b.columns,
    ensures
        0 <= heights_from(b, c) <= (b.columns - c) * b.rows,
    decreases b.columns - c,
{
    if c < b.columns {
        lemma_column_top_bounds(b, c, 0);
        lemma_heights_from_bounds(b, c + 1);
        assert((b.columns - c) * b.rows == (b.columns - c - 1) * b.rows + b.rows)
            by (nonlinear_arith);
    }
}

/// The summed hole counts lie between zero and columns times rows.
pub proof fn lemma_holes_from_bounds(b: BoardView, c: int)
    requires
        0 <= c <= b.columns,
    ensures
        0 <= holes_from(b, c) <= (b.columns - c) * b.rows,
    decreases b.columns - c,
{
    if c < b.columns {
        lemma_column_top_bounds(b, c, 0);
        lemma_empty_below_bounds(b, c, column_top_from(b, c, 0));
        lemma_holes_from_bounds(b, c + 1);
        assert((b.columns - c) * b.rows == (b.columns - c - 1) * b.rows + b.rows)
            by (nonlinear_arith);
    }
}

/// The summed wall and floor contact lies between zero and three times
/// columns times rows.
pub proof fn lemma_wall_from_bounds(b: BoardView, c: int)
    requires
        0 <= c <= b.columns,
    ensures
        0 <= wall_from(b, c) <= (b.columns - c) * (3 * b.rows),
    decreases b.columns - c,
{
    if c < b.columns {
        lemma_wall_contact_bounds(b, c, 0);
        lemma_wall_from_bounds(b, c + 1);
        assert((b.columns - c) * (3 * b.rows) == (b.columns - c - 1) * (3 * b.rows) + 3 * b.rows)
            by (nonlinear_arith);
    }
}

/// A row's summed adjacency contributes at most four per cell.
pub proof fn lemma_touch_row_bounds(b: BoardView, r: int, c: int)
    requires
        0 <= c <= b.columns,
    ensures
        0 <= touch_row_from(b, r, c) <= 4 * (b.columns - c),
    decreases b.columns - c,
{
    if c < b.columns {
        lemma_touch_row_bounds(b, r, c + 1);
    }
}

/// The summed adjacency lies between zero and four times rows times
/// columns.
pub proof fn lemma_touch_from_bounds(b: BoardView, r: int)
    requires
        0 <= r <= b.rows,
    ensures
        0 <= touch_from(b, r) <= (b.rows - r) * (4 * b.columns),
    decreases b.rows - r,
{
    if r < b.rows {
        lemma_touch_row_bounds(b, r, 0);
        lemma_touch_from_bounds(b, r + 1);
        assert((b.rows - r) * (4 * b.columns) == (b.rows - r - 1) * (4 * b.columns)
            + 4 * b.columns) by (nonlinear_arith);
    }
}

/// The full rows in `[r, rows)` are the grid's full rows less those
/// above `r`.
proof fn lemma_full_rows_take(b: BoardView, r: int)
    requires
        b.wf(),
        0 <= r <= b.rows,
    ensures
        full_rows_from(b, r) == count_full(b.cells) - count_full(b.cells.take(r)),
    decreases b.rows - r,
{
    if r == b.rows {
        assert(b.cells.take(r) =~= b.cells);
    } else {
        lemma_full_rows_take(b, r + 1);
        assert(b.cells.take(r + 1) =~= b.cells.take(r).push(b.cells[r]));
        assert(b.cells.take(r + 1).drop_last() =~= b.cells.take(r));
        assert(b.cells.take(r + 1).last() == b.cells[r]);
        assert(count_full(b.cells.take(r + 1)) == count_full(b.cells.take(r)) + (
            if row_full(b.cells[r]) { 1int } else { 0 }
        ));
    }
}

/// The rows that line clearing deletes are exactly the rows the
/// heuristic counts as complete.
pub proof fn lemma_cleared_count_matches_full_rows(b: BoardView)
    requires
        b.wf(),
    ensures
        b.cleared_row_count() == full_rows_from(b, 0),
{
    lemma_cleared_count_is_full_count(b);
    lemma_full_rows_take(b, 0);
    assert(b.cells.take(0) =~= Seq::<Seq<PieceType>>::empty());
}

/// At most `rows - r` rows in `[r, rows)` are full.
pub proof fn lemma_full_rows_bounds(b: BoardView, r: int)
    requires
        0 <= r <= b.rows,
    ensures
        0 <= full_rows_from(b, r) <= b.rows - r,
    decreases b.rows - r,
{
    if r < b.rows {
        lemma_full_rows_bounds(b, r + 1);
    }
}

/// The board a game reaches by at most `fuel` further down-steps: the
/// recursion stops as soon as a down-step fails.
pub open spec fn drop_fuel(g: GameView, fuel: nat) -> BoardView
    decreases fuel,
{
    if fuel == 0 {
        g.board
    } else {
        let (moved, g1) = move_spec(g, MoveDirection::Down);
        if moved {
            drop_fuel(g1, (fuel - 1) as nat)
        } else {
            g.board
        }
    }
}

/// The board the game's active piece ends on when dropped straight down:
/// down-steps are taken until one fails. A budget of one more step than
/// the board has rows always suffices, because every successful
/// down-step moves the piece one row further down the board.
pub open spec fn drop_spec(g: GameView) -> BoardView {
    drop_fuel(g, g.board.rows + 1)
}

/// Only the `Left` commands of the sequence, in order.
pub open spec fn keep_left(s: Seq<Command>) -> Seq<Command>
    decreases s.len(),
{
    if s.len() == 0 {
        Seq::empty()
    } else {
        let rest = keep_left(s.drop_last());
        if s.last() == Command::Left {
            rest.push(s.last())
        } else {
            rest
        }
    }
}

/// Only the `Right` commands of the sequence, in order.
pub open spec fn keep_right(s: Seq<Command>) -> Seq<Command>
    decreases s.len(),
{
    if s.len() == 0 {
        Seq::empty()
    } else {
        let rest = keep_right(s.drop_last());
        if s.last() == Command::Right {
            rest.push(s.last())
        } else {
            rest
        }
    }
}

/// Unfolds `keep_left` over a push at the end.
pub proof fn lemma_keep_left_push(s: Seq<Command>, a: Command)
    ensures
        keep_left(s.push(a)) == if a == Command::Left {
            keep_left(s).push(a)
        } else {
            keep_left(s)
        },
{
    assert(s.push(a).drop_last() =~= s);
    assert(s.push(a).last() == a);
}

/// Unfolds `keep_right` over a push at the end.
pub proof fn lemma_keep_right_push(s: Seq<Command>, a: Command)
    ensures
        keep_right(s.push(a)) == if a == Command::Right {
            keep_right(s).push(a)
        } else {
            keep_right(s)
        },
{
    assert(s.push(a).drop_last() =~= s);
    assert(s.push(a).last() == a);
}

/// One round of the search: four clockwise rotation attempts from
/// attempt number `i` on. The first three successes each record a
/// command and a candidate (the board the piece would drop onto); the
/// fourth success, which turns the piece back towards its original
/// orientation, records nothing. Returns the game and command list the
/// round ends with and the candidates it recorded.
pub open spec fn rotation_round(
    g: GameView, cmds: Seq<Command>, i: int,
) -> (GameView, Seq<Command>, Seq<EndBoardView>)
    decreases 4 - i
        when 0 <= i <= 4
{
    if i >= 4 {
        (g, cmds, Seq::empty())
    } else {
        let (ok, g1) = rotate_clockwise_spec(g);
        if ok && i < 3 {
            let cmds1 = cmds.push(Command::RotateClockWise);
            let (g2, cmds2, rest) = rotation_round(g1, cmds1, i + 1);
            (
                g2,
                cmds2,
                seq![EndBoardView { board: drop_spec(g1), commands: cmds1 }] + rest,
            )
        } else {
            rotation_round(g1, cmds, i + 1)
        }
    }
}

/// The leftward half of the search: starting from `g` with `cmds`
/// pending, repeat `loc` times: a rotation round, then keep only the
/// `Left` commands, then try one move left, recording a candidate when
/// it succeeds. Returns all candidates recorded, in order.
pub open spec fn left_phase(g: GameView, cmds: Seq<Command>, loc: nat) -> Seq<EndBoardView>
    decreases loc,
{
    if loc == 0 {
        Seq::empty()
    } else {
        let (g1, cmds1, cands1) = rotation_round(g, cmds, 0);
        let kept = keep_left(cmds1);
        let (moved, g2) = move_spec(g1, MoveDirection::Left);
        if moved {
            let cmds2 = kept.push(Command::Left);
            cands1 + seq![EndBoardView { board: drop_spec(g2), commands: cmds2 }]
                + left_phase(g2, cmds2, (loc - 1) as nat)
        } else {
            cands1 + left_phase(g2, kept, (loc - 1) as nat)
        }
    }
}

/// The rightward half of the search: like the leftward half with
/// `Right`, except that it runs only while `loc` stays above one and
/// stops outright at the first failed move right.
pub open spec fn right_phase(g: GameView, cmds: Seq<Command>, loc: nat) -> Seq<EndBoardView>
    decreases loc,
{
    if loc <= 1 {
        Seq::empty()
    } else {
        let (g1, cmds1, cands1) = rotation_round(g, cmds, 0);
        let kept = keep_right(cmds1);
        let (moved, g2) = move_spec(g1, MoveDirection::Right);
        if moved {
            let cmds2 = kept.push(Command::Right);
            cands1 + seq![EndBoardView { board: drop_spec(g2), commands: cmds2 }]
                + right_phase(g2, cmds2, (loc - 1) as nat)
        } else {
            cands1
        }
    }
}

/// Every candidate the search enumerates, in the order it records them:
/// the straight drop with no commands; the leftward half over half the
/// board width plus one; one unconditional step right; and the
/// rightward half from there.
pub open spec fn planned_candidates(g: GameView) -> Seq<EndBoardView> {
    let base = EndBoardView { board: drop_spec(g), commands: Seq::empty() };
    let lefts = left_phase(g, Seq::empty(), g.board.columns / 2 + 1);
    let g_right = move_spec(g, MoveDirection::Right).1;
    let first_right = EndBoardView {
        board: drop_spec(g_right),
        commands: seq![Command::Right],
    };
    let rights = right_phase(g_right, seq![Command::Right], g.board.columns / 2 + 1);
    seq![base] + lefts + seq![first_right] + rights
}

/// The commands of the best candidate from index `i` on, given the best
/// score and commands seen so far: a strictly greater score wins, so
/// the earliest of equally scored candidates is kept.
pub open spec fn best_commands_from(
    cands: Seq<EndBoardView>, i: int, best_score: int, best: Seq<Command>,
) -> Seq<Command>
    decreases cands.len() - i
        when 0 <= i <= cands.len()
{
    if i >= cands.len() {
        best
    } else {
        let sc = heuristic_spec(cands[i].board);
        if sc > best_score {
            best_commands_from(cands, i + 1, sc, cands[i].commands)
        } else {
            best_commands_from(cands, i + 1, best_score, best)
        }
    }
}

/// The command sequence of the best-scoring candidate, ties going to
/// the earliest; empty when no candidate beats the least score.
pub open spec fn selected_commands(cands: Seq<EndBoardView>) -> Seq<Command> {
    best_commands_from(cands, 0, i64::MIN as int, Seq::empty())
}

/// Every candidate board in the sequence is well formed and has the
/// given dimensions.
pub open spec fn boards_sized(s: Seq<EndBoardWithMoves>, rows: nat, columns: nat) -> bool {
    forall|k: int|
        0 <= k < s.len() ==> (#[trigger] s[k]).board@.wf() && s[k].board@.rows == rows
            && s[k].board@.columns == columns
}

/// A copy of a command list.
fn clone_commands(v: &Vec<Command>) -> (r: Vec<Command>)
    ensures
        r@ == v@,
{
    let mut r: Vec<Command> = Vec::new();
    let mut i: usize = 0;
    while i < v.len()
        invariant
            i <= v.len(),
            r@ == v@.subrange(0, i as int),
        decreases v.len() - i,
    {
        r.push(v[i]);
        proof {
            assert(r@ =~= v@.subrange(0, i + 1));
        }
        i = i + 1;
    }
    proof {
        assert(r@ =~= v@);
    }
    r
}

/// The `Left` commands of the list, in order.
fn filter_left(v: &Vec<Command>) -> (r: Vec<Command>)
    ensures
        r@ == keep_left(v@),
{
    let mut r: Vec<Command> = Vec::new();
    let mut i: usize = 0;
    proof {
        assert(v@.take(0) =~= Seq::<Command>::empty());
    }
    while i < v.len()
        invariant
            i <= v.len(),
            r@ == keep_left(v@.take(i as int)),
        decreases v.len() - i,
    {
        let c = v[i];
        if c == Command::Left {
            r.push(c);
        }
        proof {
            lemma_keep_left_push(v@.take(i as int), v@[i as int]);
            assert(v@.take(i + 1) =~= v@.take(i as int).push(v@[i as int]));
        }
        i = i + 1;
    }
    proof {
        assert(v@.take(v@.len() as int) =~= v@);
    }
    r
}

/// The `Right` commands of the list, in order.
fn filter_right(v: &Vec<Command>) -> (r: Vec<Command>)
    ensures
        r@ == keep_right(v@),
{
    let mut r: Vec<Command> = Vec::new();
    let mut i: usize = 0;
    proof {
        assert(v@.take(0) =~= Seq::<Command>::empty());
    }
    while i < v.len()
        invariant
            i <= v.len(),
            r@ == keep_right(v@.take(i as int)),
        decreases v.len() - i,
    {
        let c = v[i];
        if c == Command::Right {
            r.push(c);
        }
        proof {
            lemma_keep_right_push(v@.take(i as int), v@[i as int]);
            assert(v@.take(i + 1) =~= v@.take(i as int).push(v@[i as int]));
        }
        i = i + 1;
    }
    proof {
        assert(v@.take(v@.len() as int) =~= v@);
    }
    r
}

/// The autoplayer: a queue of pending commands, consumed from the end.
#[derive(Debug)]
pub struct Autoplayer {
    pub commands: Vec<Command>,
}

impl Clone for Autoplayer {
    fn clone(&self) -> (r: Self)
        ensures
            r.commands@ == self.commands@,
    {
        let mut commands: Vec<Command> = Vec::new();
        let mut i: usize = 0;
        while i < self.commands.len()
            invariant
                i <= self.commands.len(),
                commands@ == self.commands@.subrange(0, i as int),
            decreases self.commands.len() - i,
        {
            commands.push(self.commands[i]);
            proof {
                assert(commands@ =~= self.commands@.subrange(0, i + 1));
            }
            i = i + 1;
        }
        proof {
            assert(commands@ =~= self.commands@);
        }
        Autoplayer { commands }
    }
}

impl Autoplayer {
    /// An autoplayer with nothing queued.
    pub fn new() -> (r: Autoplayer)
        ensures
            r.commands@ == Seq::<Command>::empty(),
    {
        let r = Autoplayer { commands: Vec::new() };
        proof {
            assert(r.commands@ =~= Seq::<Command>::empty());
        }
        r
    }

    /// Pops and returns the most recently queued command, or `Down` when
    /// nothing is queued (the default gravity action). The game itself is
    /// not touched.
    pub fn perform_move(&mut self, _game: &mut Game) -> (r: Command)
        ensures
            final(_game)@ == old(_game)@,
            old(self).commands@.len() > 0 ==> r == old(self).commands@.last()
                && final(self).commands@ == old(self).commands@.drop_last(),
            old(self).commands@.len() == 0 ==> r == Command::Down
                && final(self).commands@ == old(self).commands@,
    {
        if self.commands.len() != 0 {
            self.commands.pop().unwrap()
        } else {
            Command::Down
        }
    }

    /// Drops the active piece of a copy of the game straight down until
    /// it can fall no further, and returns the board it ends on.
    pub fn drop(&self, game: &Game) -> (r: Board)
        requires
            game@.wf(),
        ensures
            r@ == drop_spec(game@),
            r@.wf(),
            r@.rows == game@.board.rows,
            r@.columns == game@.board.columns,
    {
        let mut game_copy = game.clone();
        let ghost g_init = game@;
        let ghost mut fuel: nat = g_init.board.rows + 1;

        loop
            invariant_except_break
                game_copy@.wf(),
                game_copy@.board.rows == g_init.board.rows,
                game_copy@.board.columns == g_init.board.columns,
                drop_spec(g_init) == drop_fuel(game_copy@, fuel),
                fuel >= 1,
                game_copy@.actual_piece_coordinates.x < g_init.board.rows
                    ==> fuel >= g_init.board.rows - game_copy@.actual_piece_coordinates.x,
            ensures
                game_copy@.wf(),
                game_copy@.board.rows == g_init.board.rows,
                game_copy@.board.columns == g_init.board.columns,
                drop_spec(g_init) == game_copy@.board,
            decreases fuel,
        {
            let ghost g_before = game_copy@;
            let ghost fuel_before = fuel;
            let moved = game_copy.move_in_direction(MoveDirection::Down);
            if !moved {
                proof {
                    assert(game_copy@ == g_before);
                    assert(drop_fuel(g_before, fuel) == g_before.board);
                }
                break;
            }
            proof {
                // a successful down-step lands strictly above the bottom,
                // so one budget unit is spent and enough remain
                let x0 = g_before.actual_piece_coordinates.x;
                assert(g_before.board.can_remove(
                    g_before.actual_piece,
                    x0 as int,
                    g_before.actual_piece_coordinates.y as int,
                ));
                assert(x0 < g_before.board.rows);
                assert(game_copy@.actual_piece_coordinates.x == x0 + 1);
                assert(fuel >= g_init.board.rows - x0);
                fuel = (fuel - 1) as nat;
                assert(drop_fuel(g_before, fuel_before) == drop_fuel(game_copy@, fuel));
            }
        }

        let r = game_copy.board;
        r
    }

    /// Scores a board with the fixed heuristic, scaled by ten so that
    /// every weight is an integer: ten times `-2.5` per unit of summed
    /// column height, `8` per full row, `-4.5` per hole, `4.2` per unit
    /// of wall and floor contact, and `4` per touching pair side. The
    /// board is only read. The size bound keeps the scaled sums far
    /// inside `i64`.
    pub fn heuristic(&self, board: &mut Board) -> (r: i64)
        requires
            old(board)@.wf(),
            old(board)@.rows <= 0x8000000,
            old(board)@.columns <= 0x8000000,
            old(board)@.columns * old(board)@.rows <= 0x8000000,
        ensures
            final(board)@ == old(board)@,
            r as int == heuristic_spec(old(board)@),
    {
        let ghost b = old(board)@;
        let rows = board.rows;
        let columns = board.columns;

        let mut sum_of_heights: i64 = 0;
        let mut number_of_holes: i64 = 0;
        let mut wall_touched: i64 = 0;

        let mut column: usize = 0;
        while column < columns
            invariant
                board@ == b,
                b.wf(),
                b.rows <= 0x8000000,
                b.columns <= 0x8000000,
                b.columns * b.rows <= 0x8000000,
                rows == b.rows,
                columns == b.columns,
                column <= columns,
                0 <= sum_of_heights,
                0 <= number_of_holes,
                0 <= wall_touched,
                sum_of_heights + heights_from(b, column as int) == heights_from(b, 0),
                number_of_holes + holes_from(b, column as int) == holes_from(b, 0),
                wall_touched + wall_from(b, column as int) == wall_from(b, 0),
            decreases columns - column,
        {
            let ghost c = column as int;
            let ghost top0 = column_top_from(b, c, 0);
            proof {
                lemma_column_top_bounds(b, c, 0);
            }
            let mut first_piece_found = false;
            let mut row: usize = 0;
            while row < rows
                invariant
                    board@ == b,
                    b.wf(),
                    b.rows <= 0x8000000,
                    b.columns <= 0x8000000,
                    b.columns * b.rows <= 0x8000000,
                    rows == b.rows,
                    columns == b.columns,
                    column < columns,
                    c == column as int,
                    row <= rows,
                    top0 == column_top_from(b, c, 0),
                    0 <= top0 <= rows,
                    first_piece_found == (top0 < row),
                    !first_piece_found ==> column_top_from(b, c, row as int) == top0,
                    0 <= sum_of_heights,
                    0 <= number_of_holes,
                    0 <= wall_touched,
                    sum_of_heights == heights_from(b, 0) - heights_from(b, c) + (
                        if first_piece_found { b.rows - top0 } else { 0int }
                    ),
                    number_of_holes == holes_from(b, 0) - holes_from(b, c) + (
                        if first_piece_found {
                            empty_below(b, c, top0) - empty_below(b, c, row as int)
                        } else { 0int }
                    ),
                    wall_touched == wall_from(b, 0) - wall_from(b, c) + (
                        wall_contact_from(b, c, 0) - wall_contact_from(b, c, row as int)
                    ),
                decreases rows - row,
            {
                proof {
                    lemma_heights_from_bounds(b, 0);
                    lemma_heights_from_bounds(b, c);
                    lemma_holes_from_bounds(b, 0);
                    lemma_holes_from_bounds(b, c);
                    lemma_wall_from_bounds(b, 0);
                    lemma_wall_from_bounds(b, c);
                    lemma_empty_below_bounds(b, c, top0);
                    lemma_empty_below_bounds(b, c, row as int);
                    lemma_column_top_bounds(b, c, row as int);
                    lemma_column_top_bounds(b, c, row + 1);
                    lemma_wall_contact_bounds(b, c, 0);
                    lemma_wall_contact_bounds(b, c, row as int);
                    assert(wall_from(b, 0) <= 0x18000000) by (nonlinear_arith)
                        requires
                            wall_from(b, 0) <= (b.columns - 0) * (3 * b.rows),
                            b.columns * b.rows <= 0x8000000,
                            b.columns >= 0,
                            b.rows >= 0,
                    ;
                }
                let cell = board.get_cell(row, column);
                if (column == 0 || column == columns - 1) && cell != PieceType::Empty {
                    wall_touched = wall_touched + 1;
                }
                if row == rows - 1 && cell != PieceType::Empty {
                    wall_touched = wall_touched + 2;
                }
                if cell == PieceType::Empty {
                    if first_piece_found {
                        number_of_holes = number_of_holes + 1;
                    }
                } else {
                    if !first_piece_found {
                        sum_of_heights = sum_of_heights + (rows - row) as i64;
                    }
                    first_piece_found = true;
                }
                row = row + 1;
            }
            proof {
                assert(empty_below(b, c, rows as int) == 0);
                assert(wall_contact_from(b, c, rows as int) == 0);
                assert(column_top_from(b, c, rows as int) == rows);
                assert(heights_from(b, c) == column_height(b, c) + heights_from(b, c + 1));
                assert(holes_from(b, c) == holes_in_column(b, c) + holes_from(b, c + 1));
                assert(wall_from(b, c) == wall_contact_from(b, c, 0) + wall_from(b, c + 1));
            }
            column = column + 1;
        }

        let mut touching_pieces_score: i64 = 0;
        let mut completed_rows: i64 = 0;

        let mut x: usize = 0;
        while x < rows
            invariant
                board@ == b,
                b.wf(),
                b.rows <= 0x8000000,
                b.columns <= 0x8000000,
                b.columns * b.rows <= 0x8000000,
                rows == b.rows,
                columns == b.columns,
                x <= rows,
                0 <= touching_pieces_score,
                0 <= completed_rows,
                touching_pieces_score + touch_from(b, x as int) == touch_from(b, 0),
                completed_rows + full_rows_from(b, x as int) == full_rows_from(b, 0),
            decreases rows - x,
        {
            let ghost xi = x as int;
            let mut row_completed = true;
            let mut y: usize = 0;
            while y < columns
                invariant
                    board@ == b,
                    b.wf(),
                    b.rows <= 0x8000000,
                    b.columns <= 0x8000000,
                    b.columns * b.rows <= 0x8000000,
                    rows == b.rows,
                    columns == b.columns,
                    x < rows,
                    xi == x as int,
                    y <= columns,
                    0 <= touching_pieces_score,
                    row_completed == (forall|j: int|
                        0 <= j < y ==> b.cells[xi][j] != PieceType::Empty),
                    touching_pieces_score == touch_from(b, 0) - touch_from(b, xi) + (
                        touch_row_from(b, xi, 0) - touch_row_from(b, xi, y as int)
                    ),
                decreases columns - y,
            {
                proof {
                    lemma_touch_from_bounds(b, 0);
                    lemma_touch_from_bounds(b, xi);
                    lemma_touch_row_bounds(b, xi, 0);
                    lemma_touch_row_bounds(b, xi, y as int);
                    assert(touch_from(b, 0) <= 0x20000000) by (nonlinear_arith)
                        requires
                            touch_from(b, 0) <= (b.rows - 0) * (4 * b.columns),
                            b.columns * b.rows <= 0x8000000,
                            b.columns >= 0,
                            b.rows >= 0,
                    ;
                }
                if board.get_cell(x, y) != PieceType::Empty {
                    if x < rows - 1 {
                        if board.get_cell(x + 1, y) != PieceType::Empty {
                            touching_pieces_score = touching_pieces_score + 1;
                        }
                    }
                    if x > 0 {
                        if board.get_cell(x - 1, y) != PieceType::Empty {
                            touching_pieces_score = touching_pieces_score + 1;
                        }
                    }
                    if y < columns - 1 {
                        if board.get_cell(x, y + 1) != PieceType::Empty {
                            touching_pieces_score = touching_pieces_score + 1;
                        }
                    }
                    if y > 0 {
                        if board.get_cell(x, y - 1) != PieceType::Empty {
                            touching_pieces_score = touching_pieces_score + 1;
                        }
                    }
                } else {
                    row_completed = false;
                }
                proof {
                    assert(touch_row_from(b, xi, y as int) == touch_cell(b, xi, y as int)
                        + touch_row_from(b, xi, y + 1));
                }
                y = y + 1;
            }
            proof {
                lemma_full_rows_bounds(b, 0);
                lemma_full_rows_bounds(b, xi);
                assert(touch_row_from(b, xi, columns as int) == 0);
                assert(row_completed == row_full(b.cells[xi]));
                assert(touch_from(b, xi) == touch_row_from(b, xi, 0) + touch_from(b, xi + 1));
                assert(full_rows_from(b, xi) == (if row_full(b.cells[xi]) { 1int } else { 0 })
                    + full_rows_from(b, xi + 1));
            }
            if row_completed {
                completed_rows = completed_rows + 1;
            }
            x = x + 1;
        }

        proof {
            lemma_heights_from_bounds(b, 0);
            lemma_holes_from_bounds(b, 0);
            lemma_wall_from_bounds(b, 0);
            lemma_touch_from_bounds(b, 0);
            lemma_full_rows_bounds(b, 0);
            assert(wall_from(b, 0) <= 0x18000000) by (nonlinear_arith)
                requires
                    wall_from(b, 0) <= (b.columns - 0) * (3 * b.rows),
                    b.columns * b.rows <= 0x8000000,
                    b.columns >= 0,
                    b.rows >= 0,
            ;
            assert(touch_from(b, 0) <= 0x20000000) by (nonlinear_arith)
                requires
                    touch_from(b, 0) <= (b.rows - 0) * (4 * b.columns),
                    b.columns * b.rows <= 0x8000000,
                    b.columns >= 0,
                    b.rows >= 0,
            ;
            assert(heights_from(b, columns as int) == 0);
            assert(holes_from(b, columns as int) == 0);
            assert(wall_from(b, columns as int) == 0);
            assert(touch_from(b, rows as int) == 0);
            assert(full_rows_from(b, rows as int) == 0);
            assert(0 <= sum_of_heights <= 0x8000000);
            assert(0 <= number_of_holes <= 0x8000000);
            assert(0 <= wall_touched <= 0x18000000);
            assert(0 <= touching_pieces_score <= 0x20000000);
            assert(0 <= completed_rows <= 0x8000000);
        }

        completed_rows * 80 + wall_touched * 42 + touching_pieces_score * 40
            - sum_of_heights * 25 - number_of_holes * 45
    }

    /// One rotation round of the search, from attempt `i` on: each
    /// successful rotation among the first three records a command and
    /// the board a straight drop would reach.
    fn plan_rotations(
        &self,
        game: &mut Game,
        commands: &mut Vec<Command>,
        all_boards: &mut Vec<EndBoardWithMoves>,
        i: usize,
    )
        requires
            old(game)@.wf(),
            i <= 4,
            boards_sized(
                old(all_boards)@,
                old(game)@.board.rows,
                old(game)@.board.columns,
            ),
        ensures
            final(game)@ == rotation_round(old(game)@, old(commands)@, i as int).0,
            final(commands)@ == rotation_round(old(game)@, old(commands)@, i as int).1,
            views_of(final(all_boards)@) == views_of(old(all_boards)@) + rotation_round(
                old(game)@, old(commands)@, i as int,
            ).2,
            final(game)@.wf(),
            final(game)@.board.rows == old(game)@.board.rows,
            final(game)@.board.columns == old(game)@.board.columns,
            boards_sized(
                final(all_boards)@,
                old(game)@.board.rows,
                old(game)@.board.columns,
            ),
        decreases 4 - i,
    {
        if i >= 4 {
            proof {
                assert(views_of(all_boards@) =~= views_of(all_boards@)
                    + Seq::<EndBoardView>::empty());
            }
            return;
        }
        let ghost g0 = game@;
        let ghost c0 = commands@;
        let rotated = game.rotate_piece_clockwise();
        if rotated && i < 3 {
            commands.push(Command::RotateClockWise);
            let ghost g1 = game@;
            let ghost c1 = commands@;
            let dropped = self.drop(game);
            let snapshot = clone_commands(commands);
            let ghost before = all_boards@;
            all_boards.push(EndBoardWithMoves::new(dropped, snapshot));
            proof {
                lemma_views_push(before, all_boards@.last());
                assert(all_boards@[all_boards@.len() - 1]@
                    == (EndBoardView { board: drop_spec(g1), commands: c1 }));
            }
            let ghost mid = all_boards@;
            self.plan_rotations(game, commands, all_boards, i + 1);
            proof {
                let r = rotation_round(g0, c0, i as int);
                let rest = rotation_round(g1, c1, i + 1).2;
                assert(views_of(mid) =~= views_of(before).push(
                    EndBoardView { board: drop_spec(g1), commands: c1 },
                ));
                assert(views_of(all_boards@) =~= views_of(before) + (
                    seq![EndBoardView { board: drop_spec(g1), commands: c1 }] + rest
                ));
                assert(views_of(all_boards@) == views_of(before) + r.2);
            }
        } else {
            self.plan_rotations(game, commands, all_boards, i + 1);
        }
    }

    /// The leftward half of the search: `piece_location` repetitions of
    /// a rotation round, a restriction of the pending commands to the
    /// `Left` ones, and one attempted move left.
    fn plan_left(
        &self,
        game: &mut Game,
        commands: &mut Vec<Command>,
        all_boards: &mut Vec<EndBoardWithMoves>,
        piece_location: usize,
    )
        requires
            old(game)@.wf(),
            boards_sized(
                old(all_boards)@,
                old(game)@.board.rows,
                old(game)@.board.columns,
            ),
        ensures
            views_of(final(all_boards)@) == views_of(old(all_boards)@) + left_phase(
                old(game)@, old(commands)@, piece_location as nat,
            ),
            boards_sized(
                final(all_boards)@,
                old(game)@.board.rows,
                old(game)@.board.columns,
            ),
        decreases piece_location,
    {
        if piece_location == 0 {
            proof {
                assert(views_of(all_boards@) =~= views_of(all_boards@)
                    + Seq::<EndBoardView>::empty());
            }
            return;
        }
        let ghost g0 = game@;
        let ghost c0 = commands@;
        let ghost before = all_boards@;
        self.plan_rotations(game, commands, all_boards, 0);
        let filtered = filter_left(commands);
        *commands = filtered;
        let ghost g1 = game@;
        let ghost kept = commands@;
        let ghost mid1 = all_boards@;
        if game.move_in_direction(MoveDirection::Left) {
            commands.push(Command::Left);
            let ghost g2 = game@;
            let ghost c2 = commands@;
            let dropped = self.drop(game);
            all_boards.push(EndBoardWithMoves::new(dropped, clone_commands(commands)));
            proof {
                lemma_views_push(mid1, all_boards@.last());
            }
            let ghost mid2 = all_boards@;
            self.plan_left(game, commands, all_boards, piece_location - 1);
            proof {
                let cands1 = rotation_round(g0, c0, 0).2;
                let rest = left_phase(g2, c2, (piece_location - 1) as nat);
                assert(views_of(mid2) =~= views_of(mid1).push(
                    EndBoardView { board: drop_spec(g2), commands: c2 },
                ));
                assert(views_of(all_boards@) =~= views_of(before) + (
                    cands1 + seq![EndBoardView { board: drop_spec(g2), commands: c2 }]
                        + rest
                ));
            }
        } else {
            self.plan_left(game, commands, all_boards, piece_location - 1);
            proof {
                let cands1 = rotation_round(g0, c0, 0).2;
                let rest = left_phase(g1, kept, (piece_location - 1) as nat);
                assert(views_of(all_boards@) =~= views_of(before) + (cands1 + rest));
            }
        }
    }

    /// The rightward half of the search: like the leftward half with
    /// `Right`, running while `piece_location` stays above one and
    /// stopping outright at the first failed move right.
    fn plan_right(
        &self,
        game: &mut Game,
        commands: &mut Vec<Command>,
        all_boards: &mut Vec<EndBoardWithMoves>,
        piece_location: usize,
    )
        requires
            old(game)@.wf(),
            boards_sized(
                old(all_boards)@,
                old(game)@.board.rows,
                old(game)@.board.columns,
            ),
        ensures
            views_of(final(all_boards)@) == views_of(old(all_boards)@) + right_phase(
                old(game)@, old(commands)@, piece_location as nat,
            ),
            boards_sized(
                final(all_boards)@,
                old(game)@.board.rows,
                old(game)@.board.columns,
            ),
        decreases piece_location,
    {
        if piece_location <= 1 {
            proof {
                assert(views_of(all_boards@) =~= views_of(all_boards@)
                    + Seq::<EndBoardView>::empty());
            }
            return;
        }
        let ghost g0 = game@;
        let ghost c0 = commands@;
        let ghost before = all_boards@;
        self.plan_rotations(game, commands, all_boards, 0);
        let filtered = filter_right(commands);
        *commands = filtered;
        let ghost mid1 = all_boards@;
        if game.move_in_direction(MoveDirection::Right) {
            commands.push(Command::Right);
            let ghost g2 = game@;
            let ghost c2 = commands@;
            let dropped = self.drop(game);
            all_boards.push(EndBoardWithMoves::new(dropped, clone_commands(commands)));
            proof {
                lemma_views_push(mid1, all_boards@.last());
            }
            let ghost mid2 = all_boards@;
            self.plan_right(game, commands, all_boards, piece_location - 1);
            proof {
                let cands1 = rotation_round(g0, c0, 0).2;
                let rest = right_phase(g2, c2, (piece_location - 1) as nat);
                assert(views_of(mid2) =~= views_of(mid1).push(
                    EndBoardView { board: drop_spec(g2), commands: c2 },
                ));
                assert(views_of(all_boards@) =~= views_of(before) + (
                    cands1 + seq![EndBoardView { board: drop_spec(g2), commands: c2 }]
                        + rest
                ));
            }
        } else {
            proof {
                let cands1 = rotation_round(g0, c0, 0).2;
                assert(views_of(all_boards@) =~= views_of(before) + cands1);
            }
        }
    }

    /// Enumerates every candidate final board the active piece can reach
    /// by rotations and sideways shifts followed by a straight drop,
    /// together with the commands that reach it.
    fn get_all_boards(&self, game: &Game) -> (r: Vec<EndBoardWithMoves>)
        requires
            game@.wf(),
        ensures
            views_of(r@) == planned_candidates(game@),
            boards_sized(r@, game@.board.rows, game@.board.columns),
    {
        let mut game_copy = game.clone();
        let mut all_boards: Vec<EndBoardWithMoves> = Vec::new();
        let mut commands: Vec<Command> = Vec::new();

        let ghost g = game@;

        let ghost none_yet = all_boards@;
        let base = self.drop(&game_copy);
        all_boards.push(EndBoardWithMoves::new(base, clone_commands(&commands)));
        proof {
            assert(none_yet =~= Seq::<EndBoardWithMoves>::empty());
            lemma_views_push(none_yet, all_boards@.last());
            assert(views_of(none_yet) =~= Seq::<EndBoardView>::empty());
        }

        let piece_location = (game.board.columns / 2) + 1;
        let ghost after_base = all_boards@;
        self.plan_left(&mut game_copy, &mut commands, &mut all_boards, piece_location);
        let ghost after_left = all_boards@;

        commands = Vec::new();
        game_copy = game.clone();
        game_copy.move_in_direction(MoveDirection::Right);
        commands.push(Command::Right);
        let ghost g_right = game_copy@;
        let first_right = self.drop(&game_copy);
        all_boards.push(EndBoardWithMoves::new(first_right, clone_commands(&commands)));
        proof {
            lemma_views_push(after_left, all_boards@.last());
            assert(commands@ =~= seq![Command::Right]);
        }
        let ghost after_right_base = all_boards@;
        self.plan_right(&mut game_copy, &mut commands, &mut all_boards, piece_location);

        proof {
            let base_cand = EndBoardView { board: drop_spec(g), commands: Seq::empty() };
            let lefts = left_phase(g, Seq::empty(), g.board.columns / 2 + 1);
            let first_right_cand = EndBoardView {
                board: drop_spec(g_right),
                commands: seq![Command::Right],
            };
            let rights = right_phase(g_right, seq![Command::Right], g.board.columns / 2 + 1);
            assert(views_of(after_base) =~= seq![base_cand]);
            assert(views_of(after_left) =~= seq![base_cand] + lefts);
            assert(views_of(after_right_base)
                =~= (seq![base_cand] + lefts).push(first_right_cand));
            assert(views_of(all_boards@)
                =~= seq![base_cand] + lefts + seq![first_right_cand] + rights);
            assert(views_of(all_boards@) =~= planned_candidates(g));
        }
        all_boards
    }

    /// Plans ahead: enumerates every reachable drop outcome of the
    /// current piece, scores each with the heuristic, and appends the
    /// command sequence of the best-scoring candidate (ties going to the
    /// earliest) to the pending queue. The game is only read; the size
    /// bound is the heuristic's.
    pub fn compute_move(&mut self, game: &mut Game)
        requires
            old(game)@.wf(),
            old(game)@.board.rows <= 0x8000000,
            old(game)@.board.columns <= 0x8000000,
            old(game)@.board.columns * old(game)@.board.rows <= 0x8000000,
        ensures
            final(game)@ == old(game)@,
            final(self).commands@ == old(self).commands@ + selected_commands(
                planned_candidates(old(game)@),
            ),
    {
        let all_boards = self.get_all_boards(game);
        let ghost cands = views_of(all_boards@);

        let mut max: i64 = i64::MIN;
        let mut best_moves: Vec<Command> = Vec::new();
        let mut i: usize = 0;
        proof {
            assert(best_moves@ =~= Seq::<Command>::empty());
        }
        while i < all_boards.len()
            invariant
                i <= all_boards@.len(),
                cands == views_of(all_boards@),
                cands.len() == all_boards@.len(),
                boards_sized(all_boards@, old(game)@.board.rows, old(game)@.board.columns),
                old(game)@.board.rows <= 0x8000000,
                old(game)@.board.columns <= 0x8000000,
                old(game)@.board.columns * old(game)@.board.rows <= 0x8000000,
                selected_commands(cands) == best_commands_from(
                    cands, i as int, max as int, best_moves@,
                ),
            decreases all_boards@.len() - i,
        {
            proof {
                assert(views_of(all_boards@)[i as int] == all_boards@[i as int]@);
            }
            let entry = &all_boards[i];
            let mut candidate_board = entry.board.clone();
            let sc = self.heuristic(&mut candidate_board);
            if sc > max {
                max = sc;
                best_moves = clone_commands(&entry.commands);
            }
            i = i + 1;
        }

        proof {
            assert(self.commands@ + best_moves@.subrange(0, 0) =~= self.commands@);
        }
        let mut j: usize = 0;
        while j < best_moves.len()
            invariant
                j <= best_moves@.len(),
                self.commands@ == old(self).commands@ + best_moves@.subrange(0, j as int),
            decreases best_moves@.len() - j,
        {
            self.commands.push(best_moves[j]);
            proof {
                assert(old(self).commands@ + best_moves@.subrange(0, j + 1)
                    =~= (old(self).commands@ + best_moves@.subrange(0, j as int)).push(
                        best_moves@[j as int],
                    ));
            }
            j = j + 1;
        }
        proof {
            assert(best_moves@.subrange(0, best_moves@.len() as int) =~= best_moves@);
            assert(old(self).commands@ + Seq::<Command>::empty() =~= old(self).commands@);
        }
    }
}

} // verus!
