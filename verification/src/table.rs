//! The summed-area table and its rectangle queries.
//!
//! A [`SummedAreaTable`] owns a dense grid of accumulated values: cell
//! `(row, col)` holds the sum of all source cells with column in `0..=col`
//! and row in `0..=row`. Any inclusive rectangle sum is then recovered in
//! constant time by inclusion-exclusion over at most four table cells.

use vstd::prelude::*;

use crate::grid::grid_wf;
use crate::grid::grid_width;
use crate::grid::lemma_prefix_monotone;
use crate::grid::lemma_rect_split_cols;
use crate::grid::lemma_rect_split_rows;
use crate::grid::lemma_rect_sum_empty_cols;
use crate::grid::lemma_rect_sum_nonneg;
use crate::grid::rect_count;
use crate::grid::rect_sum;
use crate::mat::mat_grid;
use crate::mat::DMat;

verus! {

/// Why a checked query was rejected.
#[derive(Clone, Copy, Debug, PartialEq, Eq, Structural)]
pub enum QueryError {
    /// `from` lies to the right of or below `to`.
    InvalidOrder,
    /// A coordinate lies outside the table.
    OutOfBounds,
    /// An inclusion-exclusion subtraction would wrap: the table's cells are
    /// not the monotone cumulative sums a correctly built table holds.
    Underflow,
}

/// The result of a summed-area table calculation.
pub struct SummedAreaTable {
    /// The dense grid of accumulated values: cell `(row, col)` holds the
    /// cumulative sum over columns `0..=col` of rows `0..=row` of the source.
    pub table: DMat,
    /// The source grid the table was built over.
    pub src: Ghost<Seq<Seq<u64>>>,
}

impl SummedAreaTable {
    /// The source grid the table was built over, as a sequence of rows.
    pub open spec fn source_grid(&self) -> Seq<Seq<u64>> {
        self.src@
    }

    /// Width of the table (and of its source grid).
    pub open spec fn spec_width(&self) -> int {
        grid_width(self.src@)
    }

    /// Height of the table (and of its source grid).
    pub open spec fn spec_height(&self) -> int {
        self.src@.len() as int
    }

    /// The rectangle `from ..= to` is ordered and lies within the table.
    pub open spec fn valid_rect(&self, from: (usize, usize), to: (usize, usize)) -> bool {
        &&& from.0 <= to.0
        &&& from.1 <= to.1
        &&& to.0 < self.spec_width()
        &&& to.1 < self.spec_height()
    }

    /// A well-formed table: its grid of accumulated values has the source's
    /// dimensions, and each cell `(row, col)` holds the sum of the source
    /// rectangle from `(0, 0)` to `(col, row)`.
    pub open spec fn wf(&self) -> bool {
        &&& grid_wf(self.src@)
        &&& self.spec_width() * self.spec_height() <= usize::MAX
        &&& mat_grid(self.table).len() == self.spec_height()
        &&& forall|r: int|
            0 <= r < self.spec_height() ==> #[trigger] mat_grid(self.table)[r].len()
                == self.spec_width()
        &&& forall|r: int, c: int|
            0 <= r < self.spec_height() && 0 <= c < self.spec_width()
                ==> #[trigger] mat_grid(self.table)[r][c] == rect_sum(self.src@, 0, 0, c, r)
    }

    /// Returns the sum for a given area, described by its upper left point
    /// `from` and lower right point `to`, both inclusive `(x, y)` pairs.
    pub fn get_sum(&self, from: (usize, usize), to: (usize, usize)) -> (s: u64)
        requires
            self.wf(),
            self.valid_rect(from, to),
        ensures
            s == rect_sum(self.source_grid(), from.0 as int, from.1 as int, to.0 as int, to.1 as int),
    {
        match self.try_get_sum(from, to) {
            Ok(s) => s,
            Err(_) => vstd::pervasive::unreached(),
        }
    }

    /// Returns the sum for a given area after validating it: the rectangle
    /// must be ordered (`from` not to the right of or below `to`) and lie
    /// within the table's bounds. The defensive `Underflow` error can only
    /// arise on a table whose cells are not cumulative sums; a well-formed
    /// table never produces it.
    pub fn try_get_sum(&self, from: (usize, usize), to: (usize, usize)) -> (res: Result<
        u64,
        QueryError,
    >)
        ensures
            res == Err::<u64, QueryError>(QueryError::InvalidOrder) <==> !(from.0 <= to.0
                && from.1 <= to.1),
            res == Err::<u64, QueryError>(QueryError::OutOfBounds) <==> (from.0 <= to.0 && from.1
                <= to.1 && !(to.1 < mat_grid(self.table).len() && (to.0 as int) < grid_width(
                mat_grid(self.table),
            ))),
            res is Ok ==> from.0 <= to.0 && from.1 <= to.1 && to.1 < mat_grid(self.table).len()
                && (to.0 as int) < grid_width(mat_grid(self.table)),
            self.wf() && self.valid_rect(from, to) ==> (res matches Ok(s) && s == rect_sum(
                self.source_grid(),
                from.0 as int,
                from.1 as int,
                to.0 as int,
                to.1 as int,
            )),
            self.wf() ==> res != Err::<u64, QueryError>(QueryError::Underflow),
    {
        let (x1, y1) = from;
        let (x2, y2) = to;
        if x2 < x1 || y2 < y1 {
            return Err(QueryError::InvalidOrder);
        }
        let nrows = self.table.nrows();
        let ncols = self.table.ncols();
        if !(y2 < nrows && x2 < ncols) {
            return Err(QueryError::OutOfBounds);
        }
        // Inclusion-exclusion over the four prefix sums around the
        // rectangle, grouped as (a - b) - (c - d): with an unsigned
        // accumulator each subtraction stays within a containment, so on a
        // well-formed table no intermediate value wraps.
        let a = self.table.get(y2, x2);
        let b = if x1 > 0 {
            self.table.get(y2, x1 - 1)
        } else {
            0
        };
        let c = if y1 > 0 {
            self.table.get(y1 - 1, x2)
        } else {
            0
        };
        let d = if x1 > 0 && y1 > 0 {
            self.table.get(y1 - 1, x1 - 1)
        } else {
            0
        };
        proof {
            if self.wf() {
                self.lemma_query_cells(x1 as int, y1 as int, x2 as int, y2 as int, a, b, c, d);
            }
        }
        if a < b || c < d {
            return Err(QueryError::Underflow);
        }
        let outer = a - b;
        let upper = c - d;
        if outer < upper {
            return Err(QueryError::Underflow);
        }
        Ok(outer - upper)
    }

    /// Under well-formedness the four cells read by a query are prefix
    /// sums, the two strip sums subtract without wrapping, and their
    /// difference is the queried rectangle sum.
    proof fn lemma_query_cells(&self, x1: int, y1: int, x2: int, y2: int, a: u64, b: u64, c: u64, d: u64)
        requires
            self.wf(),
            0 <= x1 <= x2 < self.spec_width(),
            0 <= y1 <= y2 < self.spec_height(),
            a == mat_grid(self.table)[y2][x2],
            b == if x1 > 0 {
                mat_grid(self.table)[y2][x1 - 1]
            } else {
                0u64
            },
            c == if y1 > 0 {
                mat_grid(self.table)[y1 - 1][x2]
            } else {
                0u64
            },
            d == if x1 > 0 && y1 > 0 {
                mat_grid(self.table)[y1 - 1][x1 - 1]
            } else {
                0u64
            },
        ensures
            b <= a,
            d <= c,
            c - d <= a - b,
            (a - b) - (c - d) == rect_sum(self.source_grid(), x1, y1, x2, y2),
    {
        let g = self.src@;
        assert(a == rect_sum(g, 0, 0, x2, y2));
        if x1 > 0 {
            assert(b == rect_sum(g, 0, 0, x1 - 1, y2));
        } else {
            lemma_rect_sum_empty_cols(g, 0, 0, -1, y2);
        }
        if y1 > 0 {
            assert(c == rect_sum(g, 0, 0, x2, y1 - 1));
        }
        if x1 > 0 && y1 > 0 {
            assert(d == rect_sum(g, 0, 0, x1 - 1, y1 - 1));
        } else if y1 > 0 {
            lemma_rect_sum_empty_cols(g, 0, 0, -1, y1 - 1);
        }
        lemma_prefix_monotone(g, x1 - 1, y2, x2, y2);
        lemma_prefix_monotone(g, x1 - 1, y1 - 1, x2, y1 - 1);
        lemma_rect_split_cols(g, 0, x1 - 1, 0, x2, y2);
        lemma_rect_split_cols(g, 0, x1 - 1, 0, x2, y1 - 1);
        lemma_rect_split_rows(g, x1, 0, y1 - 1, x2, y2);
        lemma_rect_sum_nonneg(g, x1, y1, x2, y2);
    }

    /// Returns the number of data points of the given area.
    pub fn get_data_count(&self, from: (usize, usize), to: (usize, usize)) -> (n: usize)
        requires
            self.wf(),
            self.valid_rect(from, to),
        ensures
            n == rect_count(from.0 as int, from.1 as int, to.0 as int, to.1 as int),
    {
        let (from_x, from_y) = from;
        let (to_x, to_y) = to;
        proof {
            self.lemma_rect_count_fits(from_x as int, from_y as int, to_x as int, to_y as int);
        }
        (to_x - from_x + 1) * (to_y - from_y + 1)
    }

    /// The cell count of a rectangle within the table fits in `usize`.
    proof fn lemma_rect_count_fits(&self, x1: int, y1: int, x2: int, y2: int)
        requires
            self.wf(),
            0 <= x1 <= x2 < self.spec_width(),
            0 <= y1 <= y2 < self.spec_height(),
        ensures
            0 <= (x2 - x1 + 1) * (y2 - y1 + 1) <= usize::MAX,
            x2 + 1 <= usize::MAX,
            y2 + 1 <= usize::MAX,
    {
        let w = self.spec_width();
        let h = self.spec_height();
        assert((x2 - x1 + 1) * (y2 - y1 + 1) <= w * h && 0 <= (x2 - x1 + 1) * (y2 - y1 + 1)
            && w <= w * h && h <= w * h) by (nonlinear_arith)
            requires
                0 <= x1 <= x2 < w,
                0 <= y1 <= y2 < h,
        ;
    }

    /// Returns the sum for the whole area of the table.
    pub fn get_overall_sum(&self) -> (s: u64)
        requires
            self.wf(),
        ensures
            s == rect_sum(
                self.source_grid(),
                0,
                0,
                self.spec_width() - 1,
                self.spec_height() - 1,
            ),
    {
        let ncols = self.table.ncols();
        let nrows = self.table.nrows();
        proof {
            assert(mat_grid(self.table)[0].len() == self.spec_width());
        }
        self.get_sum((0, 0), (ncols - 1, nrows - 1))
    }

    /// Returns the number of data points of the whole area of the table.
    pub fn get_overall_data_count(&self) -> (n: usize)
        requires
            self.wf(),
        ensures
            n == self.spec_width() * self.spec_height(),
            n == rect_count(0, 0, self.spec_width() - 1, self.spec_height() - 1),
    {
        let ncols = self.table.ncols();
        let nrows = self.table.nrows();
        proof {
            assert(mat_grid(self.table)[0].len() == self.spec_width());
        }
        ncols * nrows
    }
}

} // verus!
