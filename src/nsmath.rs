//! Row-major cell indices on a square grid of side `n`.

use vstd::prelude::*;

verus! {

/// `val` clamped into `[min, max]`: `min` below it, `max` at or above it.
pub open spec fn constrain_spec(val: u32, min: u32, max: u32) -> u32 {
    if val < min {
        min
    } else if val >= max {
        max
    } else {
        val
    }
}

fn constrain(val: u32, min: u32, max: u32) -> (r: u32)
    ensures
        r == constrain_spec(val, min, max),
{
    if val < min {
        min
    } else if val >= max {
        max
    } else {
        val
    }
}

/// The row-major index of cell `(x, y)` on an `n × n` grid, each coordinate
/// clamped onto the grid. The grid must have at least one cell and at most
/// `2^32`.
pub fn index(n: u32, x: u32, y: u32) -> (r: usize)
    requires
        n >= 1,
        n * n <= 0x1_0000_0000,
    ensures
        r == constrain_spec(x, 0, (n - 1) as u32) + constrain_spec(y, 0, (n - 1) as u32) * n,
        r < n * n,
{
    let cx = constrain(x, 0, n - 1);
    let cy = constrain(y, 0, n - 1);
    proof {
        assert(cx + cy * n <= (n - 1) + (n - 1) * n) by (nonlinear_arith)
            requires
                cx <= n - 1,
                cy <= n - 1,
                n >= 1,
        ;
        assert((n - 1) + (n - 1) * n == n * n - 1) by (nonlinear_arith);
    }
    (cx + cy * n) as usize
}

} // verus!
