//! Cell indexing for the fixed-size Eulerian grid.

pub mod math;

use vstd::prelude::*;

verus! {

/// Grid width in cells.
pub const GRID_X: u32 = 96;

/// Grid height in cells.
pub const GRID_Y: u32 = 72;

} // verus!
