//! Mathematical model of a grid of sample values and of rectangle sums.
//!
//! A grid is a sequence of rows, each row a sequence of `u64` cells. All
//! contracts of the crate are stated over this model: `rect_sum` gives the
//! sum of the cells of an inclusive, axis-aligned rectangle.

use vstd::prelude::*;

verus! {

/// Width of a grid: the length of its first row (0 for an empty grid).
pub open spec fn grid_width(g: Seq<Seq<u64>>) -> int {
    if g.len() > 0 {
        g[0].len() as int
    } else {
        0
    }
}

/// Every row of the grid has the same length.
pub open spec fn grid_rect(g: Seq<Seq<u64>>) -> bool {
    forall|r: int| 0 <= r < g.len() ==> #[trigger] g[r].len() == grid_width(g)
}

/// A well-formed grid: at least one row, at least one column, rectangular.
pub open spec fn grid_wf(g: Seq<Seq<u64>>) -> bool {
    &&& g.len() > 0
    &&& grid_width(g) > 0
    &&& grid_rect(g)
}

/// Sum of the cells of `row` at columns `x1..=x2` (0 when `x2 < x1`).
pub open spec fn row_sum(row: Seq<u64>, x1: int, x2: int) -> int
    decreases x2 - x1 + 1,
{
    if x2 < x1 {
        0
    } else {
        row_sum(row, x1, x2 - 1) + row[x2]
    }
}

/// Sum of the cells of `g` with column in `x1..=x2` and row in `y1..=y2`
/// (0 when either range is empty).
pub open spec fn rect_sum(g: Seq<Seq<u64>>, x1: int, y1: int, x2: int, y2: int) -> int
    decreases y2 - y1 + 1,
{
    if y2 < y1 {
        0
    } else {
        rect_sum(g, x1, y1, x2, y2 - 1) + row_sum(g[y2], x1, x2)
    }
}

/// Number of cells of the rectangle with column in `x1..=x2` and row in
/// `y1..=y2`.
pub open spec fn rect_count(x1: int, y1: int, x2: int, y2: int) -> int {
    (x2 - x1 + 1) * (y2 - y1 + 1)
}

/// The sub-grid of `g` with column in `x1..=x2` and row in `y1..=y2`, in its
/// own local coordinates.
pub open spec fn subgrid(g: Seq<Seq<u64>>, x1: int, y1: int, x2: int, y2: int) -> Seq<Seq<u64>> {
    Seq::new((y2 - y1 + 1) as nat, |r: int| g[y1 + r].subrange(x1, x2 + 1))
}

/// A row segment of unsigned cells sums to a non-negative value.
pub proof fn lemma_row_sum_nonneg(row: Seq<u64>, x1: int, x2: int)
    ensures
        row_sum(row, x1, x2) >= 0,
    decreases x2 - x1 + 1,
{
    if x2 >= x1 {
        lemma_row_sum_nonneg(row, x1, x2 - 1);
    }
}

/// A rectangle of unsigned cells sums to a non-negative value.
pub proof fn lemma_rect_sum_nonneg(g: Seq<Seq<u64>>, x1: int, y1: int, x2: int, y2: int)
    ensures
        rect_sum(g, x1, y1, x2, y2) >= 0,
    decreases y2 - y1 + 1,
{
    if y2 >= y1 {
        lemma_rect_sum_nonneg(g, x1, y1, x2, y2 - 1);
        lemma_row_sum_nonneg(g[y2], x1, x2);
    }
}

/// Splitting a row segment at column `xm` splits its sum.
pub proof fn lemma_row_sum_split(row: Seq<u64>, x1: int, xm: int, x2: int)
    requires
        x1 - 1 <= xm <= x2,
    ensures
        row_sum(row, x1, x2) == row_sum(row, x1, xm) + row_sum(row, xm + 1, x2),
    decreases x2 - xm,
{
    if x2 > xm {
        lemma_row_sum_split(row, x1, xm, x2 - 1);
    }
}

/// Splitting a rectangle at row `ym` splits its sum.
pub proof fn lemma_rect_split_rows(g: Seq<Seq<u64>>, x1: int, y1: int, ym: int, x2: int, y2: int)
    requires
        y1 - 1 <= ym <= y2,
    ensures
        rect_sum(g, x1, y1, x2, y2) == rect_sum(g, x1, y1, x2, ym) + rect_sum(g, x1, ym + 1, x2, y2),
    decreases y2 - ym,
{
    if y2 > ym {
        lemma_rect_split_rows(g, x1, y1, ym, x2, y2 - 1);
    }
}

/// Splitting a rectangle at column `xm` splits its sum.
pub proof fn lemma_rect_split_cols(g: Seq<Seq<u64>>, x1: int, xm: int, y1: int, x2: int, y2: int)
    requires
        x1 - 1 <= xm <= x2,
    ensures
        rect_sum(g, x1, y1, x2, y2) == rect_sum(g, x1, y1, xm, y2) + rect_sum(g, xm + 1, y1, x2, y2),
    decreases y2 - y1 + 1,
{
    if y2 >= y1 {
        lemma_rect_split_cols(g, x1, xm, y1, x2, y2 - 1);
        lemma_row_sum_split(g[y2], x1, xm, x2);
    }
}

/// A rectangle with an empty column range sums to zero.
pub proof fn lemma_rect_sum_empty_cols(g: Seq<Seq<u64>>, x1: int, y1: int, x2: int, y2: int)
    requires
        x2 < x1,
    ensures
        rect_sum(g, x1, y1, x2, y2) == 0,
    decreases y2 - y1 + 1,
{
    if y2 >= y1 {
        lemma_rect_sum_empty_cols(g, x1, y1, x2, y2 - 1);
    }
}

/// A row-major index stays within an `nrows * ncols` buffer.
pub proof fn lemma_row_major_index_in_range(row: int, col: int, nrows: int, ncols: int)
    requires
        0 <= row < nrows,
        0 <= col < ncols,
    ensures
        0 <= row * ncols + col < nrows * ncols,
{
    assert(row * ncols + col < nrows * ncols) by (nonlinear_arith)
        requires
            0 <= row < nrows,
            0 <= col < ncols,
    ;
    assert(0 <= row * ncols) by (nonlinear_arith)
        requires
            0 <= row,
            0 <= col < ncols,
    ;
}

/// Summing a segment of a row slice equals summing the slice's cells in the
/// original row.
pub proof fn lemma_row_sum_offset(row: Seq<u64>, x1: int, x2: int, c: int)
    requires
        0 <= x1 <= x2 + 1 <= row.len(),
        c <= x2 - x1,
    ensures
        row_sum(row.subrange(x1, x2 + 1), 0, c) == row_sum(row, x1, x1 + c),
    decreases c + 1,
{
    if c >= 0 {
        lemma_row_sum_offset(row, x1, x2, c - 1);
    }
}

/// Summing a prefix rectangle of a sub-grid equals summing the matching
/// rectangle of the grid it was taken from.
pub proof fn lemma_subgrid_rect_sum(
    g: Seq<Seq<u64>>,
    x1: int,
    y1: int,
    x2: int,
    y2: int,
    c: int,
    r: int,
)
    requires
        grid_rect(g),
        0 <= x1 <= x2 < grid_width(g),
        0 <= y1 <= y2 < g.len(),
        c <= x2 - x1,
        r <= y2 - y1,
    ensures
        rect_sum(subgrid(g, x1, y1, x2, y2), 0, 0, c, r) == rect_sum(g, x1, y1, x1 + c, y1 + r),
    decreases r + 1,
{
    let sub = subgrid(g, x1, y1, x2, y2);
    if r >= 0 {
        lemma_subgrid_rect_sum(g, x1, y1, x2, y2, c, r - 1);
        if c >= 0 {
            lemma_row_sum_offset(g[y1 + r], x1, x2, c);
            assert(sub[r] == g[y1 + r].subrange(x1, x2 + 1));
        } else {
            assert(row_sum(sub[r], 0, c) == 0);
            assert(row_sum(g[y1 + r], x1, x1 + c) == 0);
        }
    }
}

/// The full-grid sub-grid of a well-formed grid is the grid itself.
pub proof fn lemma_subgrid_full(g: Seq<Seq<u64>>)
    requires
        grid_wf(g),
    ensures
        subgrid(g, 0, 0, grid_width(g) - 1, g.len() - 1) == g,
{
    let s = subgrid(g, 0, 0, grid_width(g) - 1, g.len() - 1);
    assert forall|r: int| 0 <= r < g.len() implies s[r] == g[r] by {
        assert(g[r].len() == grid_width(g));
        assert(s[r] == g[r].subrange(0, grid_width(g)));
        assert(g[r].subrange(0, grid_width(g)) =~= g[r]);
    }
    assert(s =~= g);
}

/// Growing a prefix rectangle in either direction cannot decrease its sum.
pub proof fn lemma_prefix_monotone(g: Seq<Seq<u64>>, x1: int, y1: int, x2: int, y2: int)
    requires
        -1 <= x1 <= x2,
        -1 <= y1 <= y2,
    ensures
        rect_sum(g, 0, 0, x1, y1) <= rect_sum(g, 0, 0, x2, y2),
{
    if x1 < x2 {
        lemma_rect_split_cols(g, 0, x1, 0, x2, y1);
        lemma_rect_sum_nonneg(g, x1 + 1, 0, x2, y1);
    }
    if y1 < y2 {
        lemma_rect_split_rows(g, 0, 0, y1, x2, y2);
        lemma_rect_sum_nonneg(g, 0, y1 + 1, x2, y2);
    }
}

} // verus!
