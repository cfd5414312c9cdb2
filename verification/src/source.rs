//! Sources of sample values and construction of summed-area tables.
//!
//! A [`SummedAreaTableSource`] is any read-only rectangular grid of `u64`
//! samples; implementing the trait for a type makes it usable as the data
//! source of a table. The trait's provided methods build the table by the
//! standard two-dimensional prefix-sum recurrence, in row-major order, each
//! cell combining its up and left neighbours and subtracting their
//! double-counted overlap.

use vstd::prelude::*;

use crate::grid::grid_rect;
use crate::grid::grid_width;
use crate::grid::lemma_prefix_monotone;
use crate::grid::lemma_rect_sum_nonneg;
use crate::grid::lemma_row_major_index_in_range;
use crate::grid::lemma_row_sum_nonneg;
use crate::grid::lemma_subgrid_full;
use crate::grid::lemma_subgrid_rect_sum;
use crate::grid::rect_sum;
use crate::grid::row_sum;
use crate::grid::subgrid;
use crate::mat::mat_grid;
use crate::mat::DMat;
use crate::table::SummedAreaTable;
use crate::util::map_2d_to_1d;

verus! {

/// A read-only rectangular grid of `u64` samples, the data source for a
/// summed-area table.
pub trait SummedAreaTableSource: Sized {
    /// Mathematical view of the source: a sequence of rows of cells.
    spec fn grid(&self) -> Seq<Seq<u64>>;

    /// The source's runtime representation matches its grid view.
    spec fn src_inv(&self) -> bool;

    /// The grid view of a valid source is rectangular.
    proof fn lemma_grid_rect(&self)
        requires
            self.src_inv(),
        ensures
            grid_rect(self.grid()),
    ;

    /// The sample at column `x` of row `y`.
    fn at(&self, x: usize, y: usize) -> (v: u64)
        requires
            self.src_inv(),
            y < self.grid().len(),
            x < self.grid()[y as int].len(),
        ensures
            v == self.grid()[y as int][x as int],
    ;

    /// The number of rows of the source.
    fn height(&self) -> (h: usize)
        requires
            self.src_inv(),
        ensures
            h == self.grid().len(),
    ;

    /// The number of columns of the source.
    fn width(&self) -> (w: usize)
        requires
            self.src_inv(),
        ensures
            w == grid_width(self.grid()),
    ;

    /// Calculates and returns the summed-area table for a given rectangle of
    /// the source. The arguments `from` and `to` are the rectangle's
    /// top-left and bottom-right points, both inclusive `(x, y)` pairs; the
    /// table has the rectangle's dimensions and its own local coordinates.
    /// The rectangle's total must fit the `u64` accumulator and its cell
    /// count must fit `usize`.
    fn calculate_summed_area_table(&self, from: (usize, usize), to: (usize, usize)) -> (t:
        SummedAreaTable)
        requires
            self.src_inv(),
            from.0 <= to.0,
            from.1 <= to.1,
            to.1 < self.grid().len(),
            to.0 < grid_width(self.grid()),
            (to.0 - from.0 + 1) * (to.1 - from.1 + 1) <= usize::MAX,
            rect_sum(self.grid(), from.0 as int, from.1 as int, to.0 as int, to.1 as int)
                <= u64::MAX,
        ensures
            t.wf(),
            t.source_grid() == subgrid(
                self.grid(),
                from.0 as int,
                from.1 as int,
                to.0 as int,
                to.1 as int,
            ),
    {
        let (from_x, from_y) = from;
        let (to_x, to_y) = to;
        let ghost g = self.grid();
        let ghost sub = subgrid(g, from_x as int, from_y as int, to_x as int, to_y as int);
        proof {
            self.lemma_grid_rect();
            lemma_factors_fit(to_x - from_x + 1, to_y - from_y + 1);
        }
        let w: usize = to_x - from_x + 1;
        let h: usize = to_y - from_y + 1;
        proof {
            assert(sub.len() == h);
            assert forall|r: int| 0 <= r < h implies #[trigger] sub[r].len() == w by {
                assert(sub[r] == g[from_y + r].subrange(from_x as int, to_x + 1));
            }
            assert forall|r: int, c: int| 0 <= r < h && 0 <= c < w implies #[trigger] sub[r][c]
                == g[from_y + r][from_x + c] by {
                assert(sub[r] == g[from_y + r].subrange(from_x as int, to_x + 1));
            }
            lemma_subgrid_rect_sum(
                g,
                from_x as int,
                from_y as int,
                to_x as int,
                to_y as int,
                w - 1,
                h - 1,
            );
            assert(h * w == w * h) by (nonlinear_arith);
        }
        let mut table = DMat::zeros(h, w);
        let mut row: usize = 0;
        while row < h
            invariant
                row <= h,
                1 <= w,
                1 <= h,
                w * h <= usize::MAX,
                sub.len() == h,
                forall|r: int| 0 <= r < h ==> #[trigger] sub[r].len() == w,
                rect_sum(sub, 0, 0, w - 1, h - 1) <= u64::MAX,
                self.src_inv(),
                self.grid() == g,
                from_x + w - 1 == to_x,
                from_y + h - 1 == to_y,
                to_x < grid_width(g),
                to_y < g.len(),
                forall|r: int, c: int|
                    0 <= r < h && 0 <= c < w ==> #[trigger] sub[r][c] == g[from_y + r][from_x + c],
                mat_grid(table).len() == h,
                forall|r: int| 0 <= r < h ==> #[trigger] mat_grid(table)[r].len() == w,
                forall|r: int, c: int|
                    0 <= r < row && 0 <= c < w ==> #[trigger] mat_grid(table)[r][c] == rect_sum(
                        sub,
                        0,
                        0,
                        c,
                        r,
                    ),
            decreases h - row,
        {
            let mut col: usize = 0;
            while col < w
                invariant
                    row < h,
                    col <= w,
                    1 <= w,
                    1 <= h,
                    w * h <= usize::MAX,
                    sub.len() == h,
                    forall|r: int| 0 <= r < h ==> #[trigger] sub[r].len() == w,
                    rect_sum(sub, 0, 0, w - 1, h - 1) <= u64::MAX,
                    self.src_inv(),
                    self.grid() == g,
                    from_x + w - 1 == to_x,
                    from_y + h - 1 == to_y,
                    to_x < grid_width(g),
                    to_y < g.len(),
                    forall|r: int, c: int|
                        0 <= r < h && 0 <= c < w ==> #[trigger] sub[r][c] == g[from_y + r][from_x
                            + c],
                    mat_grid(table).len() == h,
                    forall|r: int| 0 <= r < h ==> #[trigger] mat_grid(table)[r].len() == w,
                    forall|r: int, c: int|
                        0 <= r < row && 0 <= c < w ==> #[trigger] mat_grid(table)[r][c]
                            == rect_sum(sub, 0, 0, c, r),
                    forall|c: int|
                        0 <= c < col ==> #[trigger] mat_grid(table)[row as int][c] == rect_sum(
                            sub,
                            0,
                            0,
                            c,
                            row as int,
                        ),
                decreases w - col,
            {
                proof {
                    self.lemma_grid_rect();
                }
                let val = self.at(from_x + col, from_y + row);
                let ghost r = row as int;
                let ghost c = col as int;
                proof {
                    assert(val == sub[r][c]);
                    lemma_cell_recurrence(sub, c, r);
                    lemma_cell_fits(sub, c, r, w - 1, h - 1);
                }
                let mut s = val;
                if col > 0 {
                    let left = table.get(row, col - 1);
                    let strip: u64 = if row > 0 {
                        let corner = table.get(row - 1, col - 1);
                        proof {
                            lemma_prefix_monotone(sub, c - 1, r - 1, c - 1, r);
                        }
                        left - corner
                    } else {
                        left
                    };
                    proof {
                        assert(strip == row_sum(sub[r], 0, c - 1));
                    }
                    s = s + strip;
                }
                if row > 0 {
                    let up = table.get(row - 1, col);
                    s = s + up;
                }
                proof {
                    assert(s == rect_sum(sub, 0, 0, c, r));
                }
                table.set(row, col, s);
                col = col + 1;
            }
            row = row + 1;
        }
        SummedAreaTable { table, src: Ghost(sub) }
    }

    /// Calculates and returns the summed-area table for the whole source.
    fn calculate_full_summed_area_table(&self) -> (t: SummedAreaTable)
        requires
            self.src_inv(),
            self.grid().len() > 0,
            grid_width(self.grid()) > 0,
            grid_width(self.grid()) * self.grid().len() <= usize::MAX,
            rect_sum(self.grid(), 0, 0, grid_width(self.grid()) - 1, self.grid().len() - 1)
                <= u64::MAX,
        ensures
            t.wf(),
            t.source_grid() == self.grid(),
    {
        let ncols = self.width();
        let nrows = self.height();
        proof {
            self.lemma_grid_rect();
            lemma_subgrid_full(self.grid());
        }
        self.calculate_summed_area_table((0, 0), (ncols - 1, nrows - 1))
    }
}

impl SummedAreaTableSource for DMat {
    /// The matrix's own contents.
    open spec fn grid(&self) -> Seq<Seq<u64>> {
        mat_grid(*self)
    }

    /// A matrix source must have at least one row, and a matrix is
    /// rectangular.
    open spec fn src_inv(&self) -> bool {
        &&& mat_grid(*self).len() > 0
        &&& grid_rect(mat_grid(*self))
    }

    proof fn lemma_grid_rect(&self) {
    }

    fn at(&self, x: usize, y: usize) -> (v: u64) {
        self.get(y, x)
    }

    fn height(&self) -> (h: usize) {
        self.nrows()
    }

    fn width(&self) -> (w: usize) {
        self.ncols()
    }
}

/// A source over a flat, row-major buffer of samples with an explicit
/// width: element `(x, y)` lies at linear index `y * width + x`.
pub struct VecSource<'a> {
    vec: &'a [u64],
    height: usize,
    width: usize,
}

impl<'a> VecSource<'a> {
    /// The backing buffer.
    pub closed spec fn spec_vec(&self) -> Seq<u64> {
        self.vec@
    }

    /// The declared width.
    pub closed spec fn spec_width(&self) -> int {
        self.width as int
    }

    /// The declared height.
    pub closed spec fn spec_height(&self) -> int {
        self.height as int
    }

    /// Wraps a flat buffer of `width * height` samples as a source.
    pub fn new(vec: &'a [u64], width: usize, height: usize) -> (s: VecSource<'a>)
        ensures
            s.spec_vec() == vec@,
            s.spec_width() == width,
            s.spec_height() == height,
    {
        VecSource { vec, width, height }
    }
}

impl<'a> SummedAreaTableSource for VecSource<'a> {
    /// Row `y` of the grid is the buffer segment starting at `y * width`.
    open spec fn grid(&self) -> Seq<Seq<u64>> {
        Seq::new(
            self.spec_height() as nat,
            |r: int|
                Seq::new(
                    self.spec_width() as nat,
                    |c: int| self.spec_vec()[r * self.spec_width() + c],
                ),
        )
    }

    /// The buffer holds exactly `width * height` samples, arranged in at
    /// least one row.
    open spec fn src_inv(&self) -> bool {
        &&& self.spec_vec().len() == self.spec_width() * self.spec_height()
        &&& self.spec_height() > 0
    }

    proof fn lemma_grid_rect(&self) {
    }

    fn at(&self, x: usize, y: usize) -> (v: u64) {
        proof {
            lemma_row_major_index_in_range(
                y as int,
                x as int,
                self.height as int,
                self.width as int,
            );
        }
        let n = self.vec.len();
        proof {
            assert((self.height as int) * (self.width as int) == (self.width as int) * (
            self.height as int)) by (nonlinear_arith);
        }
        let i = map_2d_to_1d(x, y, self.width);
        self.vec[i]
    }

    fn height(&self) -> (h: usize) {
        self.height
    }

    fn width(&self) -> (w: usize) {
        proof {
            assert(self.grid()[0].len() == self.spec_width());
        }
        self.width
    }
}

/// Both factors of a product of positive terms are bounded by the product.
proof fn lemma_factors_fit(a: int, b: int)
    requires
        1 <= a,
        1 <= b,
        a * b <= usize::MAX,
    ensures
        a <= usize::MAX,
        b <= usize::MAX,
{
    assert(a <= a * b && b <= a * b) by (nonlinear_arith)
        requires
            1 <= a,
            1 <= b,
    ;
}

/// The prefix-sum recurrence for one cell: the prefix rectangle ending at
/// `(c, r)` is the cell plus the prefix rectangle above, plus the row
/// segment to the left.
proof fn lemma_cell_recurrence(g: Seq<Seq<u64>>, c: int, r: int)
    requires
        0 <= c,
        0 <= r,
    ensures
        rect_sum(g, 0, 0, c - 1, r) - rect_sum(g, 0, 0, c - 1, r - 1) == row_sum(g[r], 0, c - 1),
        rect_sum(g, 0, 0, c, r) == g[r][c] + row_sum(g[r], 0, c - 1) + rect_sum(g, 0, 0, c, r - 1),
{
    assert(rect_sum(g, 0, 0, c - 1, r) == rect_sum(g, 0, 0, c - 1, r - 1) + row_sum(g[r], 0, c - 1));
    assert(rect_sum(g, 0, 0, c, r) == rect_sum(g, 0, 0, c, r - 1) + row_sum(g[r], 0, c));
    assert(row_sum(g[r], 0, c) == row_sum(g[r], 0, c - 1) + g[r][c]);
}

/// Within a grid whose total fits the accumulator, every intermediate value
/// of the cell recurrence fits as well.
proof fn lemma_cell_fits(g: Seq<Seq<u64>>, c: int, r: int, xmax: int, ymax: int)
    requires
        0 <= c <= xmax,
        0 <= r <= ymax,
        rect_sum(g, 0, 0, xmax, ymax) <= u64::MAX,
    ensures
        0 <= row_sum(g[r], 0, c - 1),
        g[r][c] + row_sum(g[r], 0, c - 1) <= u64::MAX,
        g[r][c] + row_sum(g[r], 0, c - 1) + rect_sum(g, 0, 0, c, r - 1) <= u64::MAX,
        0 <= rect_sum(g, 0, 0, c, r - 1),
        0 <= rect_sum(g, 0, 0, c, r) <= u64::MAX,
{
    lemma_cell_recurrence(g, c, r);
    lemma_row_sum_nonneg(g[r], 0, c - 1);
    lemma_rect_sum_nonneg(g, 0, 0, c, r - 1);
    lemma_prefix_monotone(g, c, r, xmax, ymax);
}

} // verus!
