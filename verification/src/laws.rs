//! General laws of rectangle sums, stated over the same grid model that the
//! query contracts use: `get_sum` returns `rect_sum` of the source grid,
//! `get_data_count` returns `rect_count`, and `at` returns the grid cell, so
//! each law below transfers directly to the executable operations.

use vstd::prelude::*;

use crate::grid::grid_wf;
use crate::grid::grid_width;
use crate::grid::lemma_prefix_monotone;
use crate::grid::lemma_rect_split_cols;
use crate::grid::lemma_rect_split_rows;
use crate::grid::rect_count;
use crate::grid::rect_sum;
use crate::grid::row_sum;

verus! {

/// Every cell of the grid holds `k`.
pub open spec fn grid_filled_with(g: Seq<Seq<u64>>, k: u64) -> bool {
    forall|r: int, c: int| 0 <= r < g.len() && 0 <= c < g[r].len() ==> #[trigger] g[r][c] == k
}

proof fn lemma_const_row_sum(row: Seq<u64>, k: u64, x1: int, x2: int)
    requires
        0 <= x1,
        x2 < row.len(),
        forall|c: int| 0 <= c < row.len() ==> #[trigger] row[c] == k,
    ensures
        row_sum(row, x1, x2) == if x2 < x1 {
            0
        } else {
            k * (x2 - x1 + 1)
        },
    decreases x2 - x1 + 1,
{
    if x2 >= x1 {
        lemma_const_row_sum(row, k, x1, x2 - 1);
        assert(k * (x2 - x1 + 1) == k * (x2 - x1) + k) by (nonlinear_arith);
    } else {
        assert(k * 0 == 0) by (nonlinear_arith);
    }
}

proof fn lemma_const_rect_sum(g: Seq<Seq<u64>>, k: u64, x1: int, y1: int, x2: int, y2: int)
    requires
        grid_wf(g),
        grid_filled_with(g, k),
        0 <= x1 <= x2 < grid_width(g),
        0 <= y1,
        y2 < g.len(),
    ensures
        rect_sum(g, x1, y1, x2, y2) == if y2 < y1 {
            0
        } else {
            k * rect_count(x1, y1, x2, y2)
        },
    decreases y2 - y1 + 1,
{
    if y2 >= y1 {
        lemma_const_rect_sum(g, k, x1, y1, x2, y2 - 1);
        lemma_const_row_sum(g[y2], k, x1, x2);
        assert(k * ((x2 - x1 + 1) * (y2 - y1 + 1)) == k * ((x2 - x1 + 1) * (y2 - y1)) + k * (x2 - x1
            + 1)) by (nonlinear_arith);
    }
}

/// Constant-fill law: in a grid whose every cell is `k`, any valid
/// rectangle sums to `k` times its cell count.
pub proof fn lemma_constant_fill(g: Seq<Seq<u64>>, k: u64, x1: int, y1: int, x2: int, y2: int)
    requires
        grid_wf(g),
        grid_filled_with(g, k),
        0 <= x1 <= x2 < grid_width(g),
        0 <= y1 <= y2 < g.len(),
    ensures
        rect_sum(g, x1, y1, x2, y2) == k * rect_count(x1, y1, x2, y2),
{
    lemma_const_rect_sum(g, k, x1, y1, x2, y2);
}

/// Zero-source law: in a grid whose every cell is zero, any valid rectangle
/// sums to zero.
pub proof fn lemma_zero_source(g: Seq<Seq<u64>>, x1: int, y1: int, x2: int, y2: int)
    requires
        grid_wf(g),
        grid_filled_with(g, 0u64),
        0 <= x1 <= x2 < grid_width(g),
        0 <= y1 <= y2 < g.len(),
    ensures
        rect_sum(g, x1, y1, x2, y2) == 0,
{
    lemma_constant_fill(g, 0u64, x1, y1, x2, y2);
    assert(0 * rect_count(x1, y1, x2, y2) == 0) by (nonlinear_arith);
}

/// Additivity (partition) law: splitting the full grid into four disjoint
/// quadrants at an interior point `(xm, ym)`, the four quadrant sums add up
/// to the overall sum. A quadrant whose range is empty contributes zero.
pub proof fn lemma_quadrant_partition(g: Seq<Seq<u64>>, xm: int, ym: int)
    requires
        grid_wf(g),
        0 <= xm < grid_width(g),
        0 <= ym < g.len(),
    ensures
        rect_sum(g, 0, 0, xm, ym) + rect_sum(g, xm + 1, 0, grid_width(g) - 1, ym) + rect_sum(
            g,
            0,
            ym + 1,
            xm,
            g.len() - 1,
        ) + rect_sum(g, xm + 1, ym + 1, grid_width(g) - 1, g.len() - 1) == rect_sum(
            g,
            0,
            0,
            grid_width(g) - 1,
            g.len() - 1,
        ),
{
    let xmax = grid_width(g) - 1;
    let ymax = g.len() - 1;
    lemma_rect_split_rows(g, 0, 0, ym, xmax, ymax);
    lemma_rect_split_cols(g, 0, xm, 0, xmax, ym);
    lemma_rect_split_cols(g, 0, xm, ym + 1, xmax, ymax);
}

/// Single-cell law: the rectangle from a point to itself sums to the cell
/// at that point.
pub proof fn lemma_single_cell(g: Seq<Seq<u64>>, x: int, y: int)
    requires
        grid_wf(g),
        0 <= x < grid_width(g),
        0 <= y < g.len(),
    ensures
        rect_sum(g, x, y, x, y) == g[y][x],
{
    assert(rect_sum(g, x, y, x, y - 1) == 0);
    assert(row_sum(g[y], x, x - 1) == 0);
}

/// Monotonic-prefix law: cell values are unsigned, so the prefix sum from
/// the origin is non-decreasing as the rectangle's bottom-right corner
/// moves right or down.
pub proof fn lemma_monotonic_prefix(g: Seq<Seq<u64>>, to1: (int, int), to2: (int, int))
    requires
        grid_wf(g),
        0 <= to1.0 <= to2.0 < grid_width(g),
        0 <= to1.1 <= to2.1 < g.len(),
    ensures
        rect_sum(g, 0, 0, to1.0, to1.1) <= rect_sum(g, 0, 0, to2.0, to2.1),
{
    lemma_prefix_monotone(g, to1.0, to1.1, to2.0, to2.1);
}

} // verus!
