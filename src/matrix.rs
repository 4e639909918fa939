use vstd::prelude::*;

use crate::error::MatrixError;
use crate::vector::{dot_product, dot_value, Vector};

verus! {

/// A dense matrix stored row by row: the element in row `r` and column `c`
/// (both counted from 1) sits at `data[(r - 1) * column + (c - 1)]`.
#[derive(Debug)]
pub struct Matrix<T> {
    pub data: Vec<T>,
    pub row: usize,
    pub column: usize,
}

/// `i * n + j` lies below `m * n` when `i < m` and `j < n`.
pub proof fn lemma_cell_index_bound(i: int, j: int, m: int, n: int)
    requires
        0 <= i < m,
        0 <= j < n,
    ensures
        0 <= i * n + j < m * n,
        i * n + j + 1 <= m * n,
{
    assert(0 <= i * n) by (nonlinear_arith)
        requires
            0 <= i,
            0 <= n,
    ;
    assert(i * n + n <= m * n) by (nonlinear_arith)
        requires
            i + 1 <= m,
            0 <= n,
    ;
}

/// A row of a well-formed matrix has one element per column.
pub proof fn lemma_row_seq_len<T>(m: Matrix<T>, i: int)
    requires
        m.wf(),
        0 <= i < m.row,
    ensures
        m.row_seq(i).len() == m.column,
{
    assert(0 <= i * m.column) by (nonlinear_arith)
        requires
            0 <= i,
    ;
    assert((i + 1) * m.column <= m.row * m.column) by (nonlinear_arith)
        requires
            i + 1 <= m.row,
    ;
    assert((i + 1) * m.column == i * m.column + m.column) by (nonlinear_arith);
}

impl<T> Matrix<T> {
    /// The buffer holds exactly one element per cell.
    pub open spec fn wf(&self) -> bool {
        self.data@.len() == self.row * self.column
    }

    /// The element in row `i` and column `j`, both counted from 0.
    pub open spec fn at(&self, i: int, j: int) -> T {
        self.data@[i * self.column + j]
    }

    /// Row `i`, counted from 0.
    pub open spec fn row_seq(&self, i: int) -> Seq<T> {
        self.data@.subrange(i * self.column, (i + 1) * self.column)
    }

    /// Column `j`, counted from 0.
    pub open spec fn column_seq(&self, j: int) -> Seq<T> {
        Seq::new(self.row as nat, |k: int| self.at(k, j))
    }

    pub fn new(data: Vec<T>, row: usize, column: usize) -> (r: Self)
        requires
            data@.len() == row * column,
        ensures
            r.wf(),
            r.data@ == data@,
            r.row == row,
            r.column == column,
    {
        Matrix { data, row, column }
    }

    /// The element at `row` and `column`, counted from 1; `None` when either
    /// lies outside the matrix.
    pub fn value(&self, row: usize, column: usize) -> (r: Option<&T>)
        requires
            self.wf(),
        ensures
            (1 <= row <= self.row && 1 <= column <= self.column) <==> r is Some,
            r matches Some(v) ==> *v == self.at(row - 1, column - 1),
    {
        if row == 0 || column == 0 || row > self.row || column > self.column {
            None
        } else {
            let len = self.data.len();
            proof {
                lemma_cell_index_bound(row - 1, column - 1, self.row as int, self.column as int);
                assert(len == self.row * self.column);
            }
            let row = row - 1;
            let column = column - 1;
            Some(&self.data[row * self.column + column])
        }
    }

    /// Mutable access to the element at `row` and `column`, counted from 1;
    /// `None` when either lies outside the matrix.
    pub fn mut_value(&mut self, row: usize, column: usize) -> (r: Option<&mut T>)
        requires
            old(self).wf(),
        ensures
            (1 <= row <= old(self).row && 1 <= column <= old(self).column) <==> r is Some,
            r matches Some(v) ==> *v == old(self).at(row - 1, column - 1) && final(self).data@
                == old(self).data@.update((row - 1) * old(self).column + (column - 1), *final(v)),
            r is None ==> *final(self) == *old(self),
            final(self).row == old(self).row,
            final(self).column == old(self).column,
    {
        if row == 0 || column == 0 || row > self.row || column > self.column {
            None
        } else {
            let len = self.data.len();
            proof {
                lemma_cell_index_bound(row - 1, column - 1, self.row as int, self.column as int);
                assert(len == self.row * self.column);
            }
            let row = row - 1;
            let column = column - 1;
            let idx = row * self.column + column;
            Some(&mut self.data[idx])
        }
    }

    /// A copy of row `row`, counted from 1; `None` when it lies outside the
    /// matrix.
    pub fn row(&self, row: usize) -> (r: Option<Vec<T>>)
        where
            T: Copy,
        requires
            self.wf(),
        ensures
            (1 <= row <= self.row) <==> r is Some,
            r matches Some(v) ==> v@ == self.row_seq(row - 1),
    {
        if row == 0 || row > self.row {
            return None;
        }
        let len = self.data.len();
        proof {
            assert(0 <= (row - 1) * self.column) by (nonlinear_arith)
                requires
                    row >= 1,
            ;
            assert((row - 1) * self.column + self.column == row * self.column) by (nonlinear_arith);
            assert(row * self.column <= self.row * self.column) by (nonlinear_arith)
                requires
                    row <= self.row,
            ;
        }
        let start = (row - 1) * self.column;
        let end = start + self.column;
        let mut out: Vec<T> = Vec::new();
        let mut k: usize = start;
        while k < end
            invariant
                start <= k <= end,
                end <= len == self.data@.len(),
                start == (row - 1) * self.column,
                end == row * self.column,
                out@ == self.data@.subrange(start as int, k as int),
            decreases end - k,
        {
            out.push(self.data[k]);
            k = k + 1;
            assert(out@ =~= self.data@.subrange(start as int, k as int));
        }
        Some(out)
    }

    /// A copy of column `column`, counted from 1; `None` when it lies outside
    /// the matrix.
    pub fn column(&self, column: usize) -> (r: Option<Vec<T>>)
        where
            T: Copy,
        requires
            self.wf(),
        ensures
            (1 <= column <= self.column) <==> r is Some,
            r matches Some(v) ==> v@ == self.column_seq(column - 1),
    {
        if column == 0 || column > self.column {
            return None;
        }
        let len = self.data.len();
        let j = column - 1;
        let mut out: Vec<T> = Vec::new();
        let mut k: usize = 0;
        while k < self.row
            invariant
                self.wf(),
                len == self.data@.len(),
                j < self.column,
                k <= self.row,
                out@ == self.column_seq(j as int).subrange(0, k as int),
            decreases self.row - k,
        {
            proof {
                lemma_cell_index_bound(k as int, j as int, self.row as int, self.column as int);
            }
            out.push(self.data[k * self.column + j]);
            k = k + 1;
            assert(out@ =~= self.column_seq(j as int).subrange(0, k as int));
        }
        assert(out@ =~= self.column_seq(j as int));
        Some(out)
    }
}

/// The value of cell `(i, j)` (counted from 0) of the product of `a` and `b`,
/// when computing it stays within `i64`.
pub open spec fn cell_value(a: Matrix<i64>, b: Matrix<i64>, i: int, j: int) -> Option<int> {
    dot_value(a.row_seq(i), b.column_seq(j))
}

/// Every cell of the product of `a` and `b` can be computed within `i64`.
pub open spec fn cells_fit(a: Matrix<i64>, b: Matrix<i64>) -> bool {
    forall|i: int, j: int|
        0 <= i < a.row && 0 <= j < b.column ==> (#[trigger] cell_value(a, b, i, j)) is Some
}

/// `m` is the product of `a` and `b`: its shape is `a.row` by `b.column` and
/// each cell holds the dot product of a row of `a` with a column of `b`.
pub open spec fn is_product(m: Matrix<i64>, a: Matrix<i64>, b: Matrix<i64>) -> bool {
    &&& m.wf()
    &&& m.row == a.row
    &&& m.column == b.column
    &&& forall|i: int, j: int|
        0 <= i < a.row && 0 <= j < b.column ==> cell_value(a, b, i, j) == Some(
            #[trigger] m.at(i, j) as int,
        )
}

/// Product of `a` (n by m) and `b` (m by p), one dot product per cell.
pub fn multiply(a: &Matrix<i64>, b: &Matrix<i64>) -> (r: Result<Matrix<i64>, MatrixError>)
    requires
        a.wf(),
        b.wf(),
        a.row * b.column <= usize::MAX,
    ensures
        a.column != b.row ==> r == Err::<Matrix<i64>, MatrixError>(MatrixError::DimensionMismatch),
        a.column == b.row && !cells_fit(*a, *b) ==> r == Err::<Matrix<i64>, MatrixError>(
            MatrixError::Overflow,
        ),
        a.column == b.row && cells_fit(*a, *b) ==> r is Ok,
        r matches Ok(m) ==> is_product(m, *a, *b),
{
    if a.column != b.row {
        return Err(MatrixError::DimensionMismatch);
    }
    let mut data: Vec<i64> = Vec::new();
    let mut i: usize = 0;
    while i < a.row
        invariant
            a.wf(),
            b.wf(),
            a.column == b.row,
            a.row * b.column <= usize::MAX,
            i <= a.row,
            data@.len() == i * b.column,
            forall|ii: int, jj: int|
                0 <= ii < i && 0 <= jj < b.column ==> cell_value(*a, *b, ii, jj) == Some(
                    #[trigger] data@[ii * b.column + jj] as int,
                ),
        decreases a.row - i,
    {
        let mut j: usize = 0;
        while j < b.column
            invariant
                a.wf(),
                b.wf(),
                a.column == b.row,
                i < a.row,
                j <= b.column,
                data@.len() == i * b.column + j,
                forall|ii: int, jj: int|
                    0 <= ii < i && 0 <= jj < b.column ==> cell_value(*a, *b, ii, jj) == Some(
                        #[trigger] data@[ii * b.column + jj] as int,
                    ),
                forall|jj: int|
                    0 <= jj < j ==> cell_value(*a, *b, i as int, jj) == Some(
                        #[trigger] data@[i * b.column + jj] as int,
                    ),
            decreases b.column - j,
        {
            let row_data = Vector::new(a.row(i + 1).unwrap());
            let column_data = Vector::new(b.column(j + 1).unwrap());
            proof {
                lemma_row_seq_len(*a, i as int);
            }
            let v = match dot_product(row_data, column_data) {
                Ok(v) => v,
                Err(e) => {
                    assert(!cells_fit(*a, *b)) by {
                        assert(cell_value(*a, *b, i as int, j as int) is None);
                    }
                    return Err(e);
                },
            };
            proof {
                lemma_cell_index_bound(i as int, j as int, a.row as int, b.column as int);
            }
            let ghost old_data = data@;
            data.push(v);
            proof {
                assert forall|ii: int, jj: int|
                    0 <= ii < i && 0 <= jj < b.column implies cell_value(*a, *b, ii, jj) == Some(
                        #[trigger] data@[ii * b.column + jj] as int,
                    ) by {
                    lemma_cell_index_bound(ii, jj, i as int, b.column as int);
                    assert(data@[ii * b.column + jj] == old_data[ii * b.column + jj]);
                }
            }
            j = j + 1;
        }
        proof {
            assert((i + 1) * b.column == i * b.column + b.column) by (nonlinear_arith);
        }
        i = i + 1;
    }
    proof {
        assert(a.row * b.column == data@.len());
    }
    let m = Matrix::new(data, a.row, b.column);
    assert forall|ii: int, jj: int|
        0 <= ii < a.row && 0 <= jj < b.column implies cell_value(*a, *b, ii, jj) == Some(
            #[trigger] m.at(ii, jj) as int,
        ) by {
        lemma_cell_index_bound(ii, jj, a.row as int, b.column as int);
        assert(m.at(ii, jj) == data@[ii * b.column + jj]);
    }
    assert forall|ii: int, jj: int|
        0 <= ii < a.row && 0 <= jj < b.column implies (#[trigger] cell_value(*a, *b, ii, jj)) is Some by {
        lemma_cell_index_bound(ii, jj, a.row as int, b.column as int);
        assert(cell_value(*a, *b, ii, jj) == Some(data@[ii * b.column + jj] as int));
    }
    Ok(m)
}

} // verus!
