//! A rectangular boolean grid with quarter-turn rotations.

use vstd::prelude::*;

verus! {

/// Mathematical model of a `Matrix`: the dimensions together with the
/// grid contents as a sequence of rows.
#[verifier::ext_equal]
pub struct MatrixView {
    pub rows: nat,
    pub columns: nat,
    pub data: Seq<Seq<bool>>,
}

impl MatrixView {
    /// The dimensions describe the data: `rows` rows, each of `columns` cells.
    pub open spec fn wf(self) -> bool {
        &&& self.data.len() == self.rows
        &&& forall|i: int| 0 <= i < self.rows ==> (#[trigger] self.data[i]).len() == self.columns
    }

    /// The grid turned a quarter turn clockwise: cell `(x, y)` of the
    /// source lands at `(y, rows - 1 - x)` of the result.
    pub open spec fn rotated_clockwise(self) -> MatrixView {
        MatrixView {
            rows: self.columns,
            columns: self.rows,
            data: Seq::new(
                self.columns,
                |i: int| Seq::new(self.rows, |j: int| self.data[self.rows - 1 - j][i]),
            ),
        }
    }

    /// The grid turned a quarter turn counter-clockwise: cell `(x, y)` of
    /// the source lands at `(columns - 1 - y, x)` of the result.
    pub open spec fn rotated_counter_clockwise(self) -> MatrixView {
        MatrixView {
            rows: self.columns,
            columns: self.rows,
            data: Seq::new(
                self.columns,
                |i: int| Seq::new(self.rows, |j: int| self.data[j][self.columns - 1 - i]),
            ),
        }
    }
}

/// The two quarter turns undo each other: rotating clockwise and then
/// counter-clockwise (or the other way round) returns any well-formed
/// grid unchanged.
pub proof fn lemma_rotations_inverse(m: MatrixView)
    requires
        m.wf(),
    ensures
        m.rotated_clockwise().rotated_counter_clockwise() == m,
        m.rotated_counter_clockwise().rotated_clockwise() == m,
{
    assert(m.rotated_clockwise().rotated_counter_clockwise().data =~~= m.data);
    assert(m.rotated_clockwise().rotated_counter_clockwise() =~= m);
    assert(m.rotated_counter_clockwise().rotated_clockwise().data =~~= m.data);
    assert(m.rotated_counter_clockwise().rotated_clockwise() =~= m);
}

/// Four successive clockwise quarter turns return any well-formed grid
/// unchanged.
pub proof fn lemma_four_clockwise(m: MatrixView)
    requires
        m.wf(),
    ensures
        m.rotated_clockwise().rotated_clockwise().rotated_clockwise().rotated_clockwise() == m,
{
    let r4 = m.rotated_clockwise().rotated_clockwise().rotated_clockwise().rotated_clockwise();
    assert(r4.data =~~= m.data);
    assert(r4 =~= m);
}

/// Four successive counter-clockwise quarter turns return any
/// well-formed grid unchanged.
pub proof fn lemma_four_counter_clockwise(m: MatrixView)
    requires
        m.wf(),
    ensures
        m.rotated_counter_clockwise().rotated_counter_clockwise().rotated_counter_clockwise()
            .rotated_counter_clockwise() == m,
{
    let r4 = m.rotated_counter_clockwise().rotated_counter_clockwise()
        .rotated_counter_clockwise().rotated_counter_clockwise();
    assert(r4.data =~~= m.data);
    assert(r4 =~= m);
}

/// A boolean matrix stored row-major as a `Vec` of rows.
#[derive(Debug, PartialEq)]
pub struct Matrix {
    pub rows: usize,
    pub columns: usize,
    pub data: Vec<Vec<bool>>,
}

impl View for Matrix {
    type V = MatrixView;

    open spec fn view(&self) -> MatrixView {
        MatrixView {
            rows: self.rows as nat,
            columns: self.columns as nat,
            data: self.data@.map_values(|r: Vec<bool>| r@),
        }
    }
}

impl Clone for Matrix {
    fn clone(&self) -> (r: Self)
        ensures
            r@ == self@,
    {
        let mut data: Vec<Vec<bool>> = Vec::new();
        let mut i: usize = 0;
        while i < self.data.len()
            invariant
                i <= self.data.len(),
                data@.len() == i,
                forall|k: int| 0 <= k < i ==> data@[k]@ == self.data@[k]@,
            decreases self.data.len() - i,
        {
            let mut row: Vec<bool> = Vec::new();
            let mut j: usize = 0;
            let src = &self.data[i];
            while j < src.len()
                invariant
                    j <= src.len(),
                    row@ == src@.subrange(0, j as int),
                decreases src.len() - j,
            {
                row.push(src[j]);
                proof {
                    assert(row@ =~= src@.subrange(0, j + 1));
                }
                j = j + 1;
            }
            proof {
                assert(row@ =~= src@);
            }
            data.push(row);
            i = i + 1;
        }
        let r = Matrix { rows: self.rows, columns: self.columns, data };
        proof {
            assert(r@.data =~= self@.data);
            assert(r@ =~= self@);
        }
        r
    }
}

impl Matrix {
    /// A `rows` by `columns` grid with every cell false.
    pub fn new(rows: usize, columns: usize) -> (r: Matrix)
        ensures
            r@.wf(),
            r@.rows == rows,
            r@.columns == columns,
            forall|i: int, j: int|
                0 <= i < rows && 0 <= j < columns ==> !(#[trigger] r@.data[i][j]),
    {
        let mut data: Vec<Vec<bool>> = Vec::new();
        let mut i: usize = 0;
        while i < rows
            invariant
                i <= rows,
                data@.len() == i,
                forall|k: int| 0 <= k < i ==> (#[trigger] data@[k])@.len() == columns,
                forall|k: int, j: int|
                    0 <= k < i && 0 <= j < columns ==> !(#[trigger] data@[k]@[j]),
            decreases rows - i,
        {
            let mut row: Vec<bool> = Vec::new();
            let mut j: usize = 0;
            while j < columns
                invariant
                    j <= columns,
                    row@.len() == j,
                    forall|k: int| 0 <= k < j ==> !(#[trigger] row@[k]),
                decreases columns - j,
            {
                row.push(false);
                j = j + 1;
            }
            data.push(row);
            i = i + 1;
        }
        Matrix { rows, columns, data }
    }

    /// Reads one cell.
    pub fn get(&self, x: usize, y: usize) -> (r: bool)
        requires
            self@.wf(),
            x < self@.rows,
            y < self@.columns,
        ensures
            r == self@.data[x as int][y as int],
    {
        proof {
            assert(self@.data[x as int] == self.data@[x as int]@);
        }
        self.data[x][y]
    }

    /// Writes one cell.
    pub fn set(&mut self, x: usize, y: usize, value: bool)
        requires
            old(self)@.wf(),
            x < old(self)@.rows,
            y < old(self)@.columns,
        ensures
            final(self)@.rows == old(self)@.rows,
            final(self)@.columns == old(self)@.columns,
            final(self)@.wf(),
            final(self)@.data == old(self)@.data.update(
                x as int,
                old(self)@.data[x as int].update(y as int, value),
            ),
    {
        proof {
            assert(self@.data[x as int] == self.data@[x as int]@);
        }
        let row: &mut Vec<bool> = &mut self.data[x];
        row.set(y, value);
        proof {
            assert(self@.data =~= old(self)@.data.update(
                x as int,
                old(self)@.data[x as int].update(y as int, value),
            ));
        }
    }

    /// Replaces the grid by its clockwise quarter turn; `rows` and
    /// `columns` swap.
    pub fn rotate_clockwise(&mut self)
        requires
            old(self)@.wf(),
        ensures
            final(self)@ == old(self)@.rotated_clockwise(),
            final(self)@.wf(),
    {
        let rows = self.rows;
        let columns = self.columns;
        let mut data: Vec<Vec<bool>> = Vec::new();
        let mut i: usize = 0;
        while i < columns
            invariant
                i <= columns,
                rows == self@.rows,
                columns == self@.columns,
                self@.wf(),
                data@.len() == i,
                forall|k: int| 0 <= k < i ==> (#[trigger] data@[k])@ == old(self)@.rotated_clockwise().data[k],
                self@ == old(self)@,
            decreases columns - i,
        {
            let mut row: Vec<bool> = Vec::new();
            let mut j: usize = 0;
            while j < rows
                invariant
                    j <= rows,
                    i < columns,
                    rows == self@.rows,
                    columns == self@.columns,
                    self@.wf(),
                    row@.len() == j,
                    forall|k: int| 0 <= k < j ==> row@[k] == self@.data[rows - 1 - k][i as int],
                    self@ == old(self)@,
                decreases rows - j,
            {
                proof {
                    assert(self@.data[rows - 1 - j as int] == self.data@[rows - 1 - j as int]@);
                }
                row.push(self.data[rows - 1 - j][i]);
                j = j + 1;
            }
            proof {
                assert(row@ =~= old(self)@.rotated_clockwise().data[i as int]);
            }
            data.push(row);
            i = i + 1;
        }
        self.rows = columns;
        self.columns = rows;
        self.data = data;
        proof {
            assert(self@.data =~= old(self)@.rotated_clockwise().data);
            assert(self@ =~= old(self)@.rotated_clockwise());
        }
    }

    /// Replaces the grid by its counter-clockwise quarter turn; `rows`
    /// and `columns` swap.
    pub fn rotate_counter_clockwise(&mut self)
        requires
            old(self)@.wf(),
        ensures
            final(self)@ == old(self)@.rotated_counter_clockwise(),
            final(self)@.wf(),
    {
        let rows = self.rows;
        let columns = self.columns;
        let mut data: Vec<Vec<bool>> = Vec::new();
        let mut i: usize = 0;
        while i < columns
            invariant
                i <= columns,
                rows == self@.rows,
                columns == self@.columns,
                self@.wf(),
                data@.len() == i,
                forall|k: int| 0 <= k < i ==> (#[trigger] data@[k])@ == old(self)@.rotated_counter_clockwise().data[k],
                self@ == old(self)@,
            decreases columns - i,
        {
            let mut row: Vec<bool> = Vec::new();
            let mut j: usize = 0;
            while j < rows
                invariant
                    j <= rows,
                    i < columns,
                    rows == self@.rows,
                    columns == self@.columns,
                    self@.wf(),
                    row@.len() == j,
                    forall|k: int| 0 <= k < j ==> row@[k] == self@.data[k][columns - 1 - i],
                    self@ == old(self)@,
                decreases rows - j,
            {
                proof {
                    assert(self@.data[j as int] == self.data@[j as int]@);
                }
                row.push(self.data[j][columns - 1 - i]);
                j = j + 1;
            }
            proof {
                assert(row@ =~= old(self)@.rotated_counter_clockwise().data[i as int]);
            }
            data.push(row);
            i = i + 1;
        }
        self.rows = columns;
        self.columns = rows;
        self.data = data;
        proof {
            assert(self@.data =~= old(self)@.rotated_counter_clockwise().data);
            assert(self@ =~= old(self)@.rotated_counter_clockwise());
        }
    }
}

} // verus!
