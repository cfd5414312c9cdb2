//! Summed-area tables (integral images) over a two-dimensional grid of
//! unsigned sample values.
//!
//! A table is built once from a source grid (or a sub-rectangle of one) and
//! then answers inclusive rectangle sum and count queries in constant time.
//! Coordinates are `(x, y)` pairs, `x` being the column and `y` the row,
//! both zero-based.

pub mod grid;
pub mod laws;
pub mod mat;
pub mod source;
pub mod table;
pub mod util;

pub use source::SummedAreaTableSource;
pub use source::VecSource;
pub use table::QueryError;
pub use table::SummedAreaTable;
