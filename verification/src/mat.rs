//! Dense matrix storage, backed by nalgebra's `DMatrix`.
//!
//! Both the table of accumulated values and the dense matrix source hold
//! their cells in a [`DMat`]. The backing `nalgebra::DMatrix<u64>` is opaque
//! to verification, so its contents are named by the uninterpreted function
//! [`mat_grid`], which gives the matrix as a sequence of rows, and every
//! nalgebra call goes through a private wrapper whose contract states what
//! nalgebra's documentation and source show. The public methods of `DMat`
//! are verified against those wrappers.

use vstd::prelude::*;

use crate::grid::grid_width;
use crate::grid::lemma_row_major_index_in_range;

verus! {

/// A dense matrix of `u64` cells with dynamic dimensions.
///
/// Cell `(row, col)` of a matrix `m` is `mat_grid(m)[row][col]` in
/// specifications.
#[verifier::external_body]
pub struct DMat {
    inner: nalgebra::DMatrix<u64>,
}

/// The contents of a matrix, as a sequence of rows of cells.
pub uninterp spec fn mat_grid(m: DMat) -> Seq<Seq<u64>>;

/// Relies on nalgebra's `DMatrix::zeros`: an `nrows` by `ncols` matrix with
/// every component zero.
#[verifier::external_body]
fn mat_zeros(nrows: usize, ncols: usize) -> (m: DMat)
    requires
        nrows * ncols <= usize::MAX,
    ensures
        mat_grid(m).len() == nrows,
        forall|r: int| 0 <= r < nrows ==> #[trigger] mat_grid(m)[r].len() == ncols,
        forall|r: int, c: int|
            0 <= r < nrows && 0 <= c < ncols ==> mat_grid(m)[r][c] == 0u64,
{
    DMat { inner: nalgebra::DMatrix::zeros(nrows, ncols) }
}

/// Relies on nalgebra's `Index<(usize, usize)>` for matrices: returns the
/// component at the given `(row, column)` pair.
#[verifier::external_body]
fn mat_get(m: &DMat, row: usize, col: usize) -> (v: u64)
    requires
        row < mat_grid(*m).len(),
        col < mat_grid(*m)[row as int].len(),
    ensures
        v == mat_grid(*m)[row as int][col as int],
{
    m.inner[(row, col)]
}

/// Relies on nalgebra's `IndexMut<(usize, usize)>` for matrices: replaces
/// the component at the given `(row, column)` pair and nothing else.
#[verifier::external_body]
fn mat_set(m: &mut DMat, row: usize, col: usize, v: u64)
    requires
        row < mat_grid(*old(m)).len(),
        col < mat_grid(*old(m))[row as int].len(),
    ensures
        mat_grid(*final(m)) == mat_grid(*old(m)).update(
            row as int,
            mat_grid(*old(m))[row as int].update(col as int, v),
        ),
{
    m.inner[(row, col)] = v;
}

/// Relies on nalgebra's `Matrix::nrows`: the number of rows of the matrix.
#[verifier::external_body]
fn mat_nrows(m: &DMat) -> (n: usize)
    ensures
        n == mat_grid(*m).len(),
{
    m.inner.nrows()
}

/// Relies on nalgebra's `Matrix::ncols`: the number of columns; every row of
/// a matrix has exactly `ncols` components.
#[verifier::external_body]
fn mat_ncols(m: &DMat) -> (n: usize)
    ensures
        forall|r: int| 0 <= r < mat_grid(*m).len() ==> #[trigger] mat_grid(*m)[r].len() == n,
{
    m.inner.ncols()
}

impl DMat {
    /// An `nrows` by `ncols` matrix with every cell zero.
    pub fn zeros(nrows: usize, ncols: usize) -> (m: DMat)
        requires
            nrows * ncols <= usize::MAX,
        ensures
            mat_grid(m).len() == nrows,
            forall|r: int| 0 <= r < nrows ==> #[trigger] mat_grid(m)[r].len() == ncols,
            forall|r: int, c: int|
                0 <= r < nrows && 0 <= c < ncols ==> mat_grid(m)[r][c] == 0u64,
    {
        mat_zeros(nrows, ncols)
    }

    /// The cell at the given `(row, column)` position.
    pub fn get(&self, row: usize, col: usize) -> (v: u64)
        requires
            row < mat_grid(*self).len(),
            col < mat_grid(*self)[row as int].len(),
        ensures
            v == mat_grid(*self)[row as int][col as int],
    {
        mat_get(self, row, col)
    }

    /// Replaces the cell at the given `(row, column)` position.
    pub fn set(&mut self, row: usize, col: usize, v: u64)
        requires
            row < mat_grid(*old(self)).len(),
            col < mat_grid(*old(self))[row as int].len(),
        ensures
            mat_grid(*final(self)) == mat_grid(*old(self)).update(
                row as int,
                mat_grid(*old(self))[row as int].update(col as int, v),
            ),
    {
        mat_set(self, row, col, v);
    }

    /// The number of rows.
    pub fn nrows(&self) -> (n: usize)
        ensures
            n == mat_grid(*self).len(),
    {
        mat_nrows(self)
    }

    /// The number of columns: the length that every row of the matrix has.
    pub fn ncols(&self) -> (n: usize)
        ensures
            forall|r: int| 0 <= r < mat_grid(*self).len() ==> #[trigger] mat_grid(*self)[r].len() == n,
            mat_grid(*self).len() > 0 ==> n == grid_width(mat_grid(*self)),
    {
        let n = mat_ncols(self);
        n
    }

    /// An `nrows` by `ncols` matrix with every cell equal to `value`.
    pub fn from_element(nrows: usize, ncols: usize, value: u64) -> (m: DMat)
        requires
            nrows * ncols <= usize::MAX,
        ensures
            mat_grid(m).len() == nrows,
            forall|r: int| 0 <= r < nrows ==> #[trigger] mat_grid(m)[r].len() == ncols,
            forall|r: int, c: int|
                0 <= r < nrows && 0 <= c < ncols ==> mat_grid(m)[r][c] == value,
    {
        let mut m = mat_zeros(nrows, ncols);
        let mut row: usize = 0;
        while row < nrows
            invariant
                row <= nrows,
                nrows * ncols <= usize::MAX,
                mat_grid(m).len() == nrows,
                forall|r: int| 0 <= r < nrows ==> #[trigger] mat_grid(m)[r].len() == ncols,
                forall|r: int, c: int|
                    0 <= r < row && 0 <= c < ncols ==> mat_grid(m)[r][c] == value,
            decreases nrows - row,
        {
            let mut col: usize = 0;
            while col < ncols
                invariant
                    row < nrows,
                    col <= ncols,
                    mat_grid(m).len() == nrows,
                    forall|r: int| 0 <= r < nrows ==> #[trigger] mat_grid(m)[r].len() == ncols,
                    forall|r: int, c: int|
                        0 <= r < row && 0 <= c < ncols ==> mat_grid(m)[r][c] == value,
                    forall|c: int| 0 <= c < col ==> mat_grid(m)[row as int][c] == value,
                decreases ncols - col,
            {
                mat_set(&mut m, row, col, value);
                col = col + 1;
            }
            row = row + 1;
        }
        m
    }

    /// An `nrows` by `ncols` matrix whose cells are read from `data` row by
    /// row: cell `(row, col)` is `data[row * ncols + col]`.
    pub fn from_row_slice(nrows: usize, ncols: usize, data: &[u64]) -> (m: DMat)
        requires
            nrows * ncols == data@.len(),
        ensures
            mat_grid(m).len() == nrows,
            forall|r: int| 0 <= r < nrows ==> #[trigger] mat_grid(m)[r].len() == ncols,
            forall|r: int, c: int|
                0 <= r < nrows && 0 <= c < ncols
                    ==> #[trigger] mat_grid(m)[r][c] == data@[r * ncols + c],
    {
        let total: usize = data.len();
        let mut m = mat_zeros(nrows, ncols);
        let mut row: usize = 0;
        while row < nrows
            invariant
                row <= nrows,
                nrows * ncols == data@.len(),
                data@.len() <= usize::MAX,
                mat_grid(m).len() == nrows,
                forall|r: int| 0 <= r < nrows ==> #[trigger] mat_grid(m)[r].len() == ncols,
                forall|r: int, c: int|
                    0 <= r < row && 0 <= c < ncols
                        ==> #[trigger] mat_grid(m)[r][c] == data@[r * ncols + c],
            decreases nrows - row,
        {
            let mut col: usize = 0;
            while col < ncols
                invariant
                    row < nrows,
                    col <= ncols,
                    nrows * ncols == data@.len(),
                    data@.len() <= usize::MAX,
                    mat_grid(m).len() == nrows,
                    forall|r: int| 0 <= r < nrows ==> #[trigger] mat_grid(m)[r].len() == ncols,
                    forall|r: int, c: int|
                        0 <= r < row && 0 <= c < ncols
                            ==> #[trigger] mat_grid(m)[r][c] == data@[r * ncols + c],
                    forall|c: int|
                        0 <= c < col
                            ==> #[trigger] mat_grid(m)[row as int][c] == data@[row as int * ncols + c],
                decreases ncols - col,
            {
                proof {
                    lemma_row_major_index_in_range(row as int, col as int, nrows as int, ncols as int);
                }
                let v = data[row * ncols + col];
                mat_set(&mut m, row, col, v);
                col = col + 1;
            }
            row = row + 1;
        }
        m
    }

    /// The cells of the matrix as one flat vector, row by row: entry
    /// `row * ncols + col` is cell `(row, col)`.
    pub fn as_vec(&self) -> (v: Vec<u64>)
        ensures
            v@.len() == mat_grid(*self).len() * grid_width(mat_grid(*self)),
            forall|r: int, c: int|
                0 <= r < mat_grid(*self).len() && 0 <= c < grid_width(mat_grid(*self))
                    ==> v@[r * grid_width(mat_grid(*self)) + c] == #[trigger] mat_grid(*self)[r][c],
    {
        let nrows = mat_nrows(self);
        let ncols = mat_ncols(self);
        let mut v: Vec<u64> = Vec::new();
        let mut row: usize = 0;
        while row < nrows
            invariant
                row <= nrows,
                nrows == mat_grid(*self).len(),
                forall|r: int| 0 <= r < nrows ==> #[trigger] mat_grid(*self)[r].len() == ncols,
                v@.len() == row * ncols,
                forall|r: int, c: int|
                    0 <= r < row && 0 <= c < ncols
                        ==> v@[r * ncols + c] == #[trigger] mat_grid(*self)[r][c],
            decreases nrows - row,
        {
            let mut col: usize = 0;
            while col < ncols
                invariant
                    row < nrows,
                    col <= ncols,
                    nrows == mat_grid(*self).len(),
                    forall|r: int| 0 <= r < nrows ==> #[trigger] mat_grid(*self)[r].len() == ncols,
                    v@.len() == row * ncols + col,
                    forall|r: int, c: int|
                        0 <= r < row && 0 <= c < ncols
                            ==> v@[r * ncols + c] == #[trigger] mat_grid(*self)[r][c],
                    forall|c: int|
                        0 <= c < col
                            ==> v@[row as int * ncols + c] == #[trigger] mat_grid(*self)[row as int][c],
                decreases ncols - col,
            {
                let cell = mat_get(self, row, col);
                proof {
                    lemma_row_major_index_in_range(
                        row as int, col as int, nrows as int, ncols as int);
                }
                v.push(cell);
                col = col + 1;
                proof {
                    assert forall|r: int, c: int|
                        0 <= r < row && 0 <= c < ncols implies v@[r * ncols + c]
                        == #[trigger] mat_grid(*self)[r][c] by {
                        lemma_row_major_index_in_range(r, c, row as int, ncols as int);
                    };
                }
            }
            proof {
                assert((row + 1) * (ncols as int) == row * (ncols as int) + ncols)
                    by (nonlinear_arith);
            }
            row = row + 1;
        }
        proof {
            if nrows > 0 {
                assert(grid_width(mat_grid(*self)) == ncols);
            }
        }
        v
    }
}

} // verus!
