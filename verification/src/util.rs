//! Small helpers: flat-buffer index arithmetic and building a column matrix
//! from a vector.

use vstd::prelude::*;

use crate::mat::mat_grid;
use crate::mat::DMat;

verus! {

/// Maps a two-dimensional `(x, y)` coordinate to the index of a flat,
/// row-major buffer of the given width.
pub fn map_2d_to_1d(x: usize, y: usize, width: usize) -> (i: usize)
    requires
        y * width + x <= usize::MAX,
    ensures
        i == y * width + x,
{
    y * width + x
}

/// Turns a vector of values into a single-column matrix: cell `(r, 0)` is
/// `vec[r]`.
pub fn vec_to_dmat(vec: &Vec<u64>) -> (m: DMat)
    ensures
        mat_grid(m).len() == vec@.len(),
        forall|r: int| 0 <= r < vec@.len() ==> #[trigger] mat_grid(m)[r].len() == 1,
        forall|r: int| 0 <= r < vec@.len() ==> #[trigger] mat_grid(m)[r][0] == vec@[r],
{
    let n = vec.len();
    proof {
        assert(n * 1 == n) by (nonlinear_arith);
    }
    let mut m = DMat::zeros(n, 1);
    let mut i: usize = 0;
    while i < n
        invariant
            i <= n,
            n == vec@.len(),
            mat_grid(m).len() == n,
            forall|r: int| 0 <= r < n ==> #[trigger] mat_grid(m)[r].len() == 1,
            forall|r: int| 0 <= r < i ==> #[trigger] mat_grid(m)[r][0] == vec@[r],
        decreases n - i,
    {
        let v = vec[i];
        m.set(i, 0, v);
        i = i + 1;
    }
    m
}

} // verus!
