//! Row-major cell indices on the fixed `GRID_X × GRID_Y` grid.

use vstd::prelude::*;
use crate::ns::{GRID_X, GRID_Y};

verus! {

/// `val` clamped into `[min, max]`: `min` below it, `max` at or above it.
pub open spec fn constrain_spec(val: u32, min: u32, max: u32) -> u32 {
    if val < min {
        min
    } else if val >= max {
        max
    } else {
        val
    }
}

fn constrain(val: u32, min: u32, max: u32) -> (r: u32)
    ensures
        r == constrain_spec(val, min, max),
{
    if val < min {
        min
    } else if val >= max {
        max
    } else {
        val
    }
}

/// The row-major index of cell `(x, y)`, each coordinate clamped onto the grid.
pub fn index(x: u32, y: u32) -> (r: usize)
    ensures
        r == constrain_spec(x, 0, (GRID_X - 1) as u32) + constrain_spec(y, 0, (GRID_Y - 1) as u32) * GRID_X,
        r < GRID_X * GRID_Y,
{
    let cx = constrain(x, 0, GRID_X - 1);
    let cy = constrain(y, 0, GRID_Y - 1);
    (cx + cy * GRID_X) as usize
}

} // verus!
