//! Verified discrete core of a two-dimensional staggered-grid (MAC) flow solver:
//! grid geometry, the sampling layout of each field, the cell and face sets that
//! the solver phases act on, the boundary and obstacle passes that move field
//! values, and the per-step schedule.
//!
//! Field storage is row-major over the grid, ghost layer included; the passes
//! are generic over the stored value, so they act on the solver's own arrays.
pub mod boundary;
pub mod cells;
pub mod grid;
pub mod obstacle;
pub mod sampling;
pub mod schedule;
