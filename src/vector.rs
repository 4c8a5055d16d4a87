//! Fixed-point 2D vectors.

use vstd::prelude::*;
use crate::fixed::{add_spec, sub_spec, mul_spec, in_range, fx_add, fx_sub, fx_mul};

verus! {

/// A point or a displacement; each coordinate is a fixed-point scalar.
#[derive(Clone, Copy, Debug, PartialEq, Eq, Structural)]
pub struct Vec2 {
    pub x: i64,
    pub y: i64,
}

impl Vec2 {
    pub open spec fn zero_spec() -> Vec2 {
        Vec2 { x: 0, y: 0 }
    }

    pub open spec fn add_spec(self, o: Vec2) -> Vec2 {
        Vec2 { x: add_spec(self.x as int, o.x as int) as i64, y: add_spec(self.y as int, o.y as int) as i64 }
    }

    pub open spec fn sub_spec(self, o: Vec2) -> Vec2 {
        Vec2 { x: sub_spec(self.x as int, o.x as int) as i64, y: sub_spec(self.y as int, o.y as int) as i64 }
    }

    pub open spec fn neg_spec(self) -> Vec2 {
        Vec2 { x: -self.x as i64, y: -self.y as i64 }
    }

    /// Each coordinate times the scalar `s`.
    pub open spec fn scale_spec(self, s: int) -> Vec2 {
        Vec2 { x: mul_spec(self.x as int, s) as i64, y: mul_spec(self.y as int, s) as i64 }
    }

    /// The squared Euclidean length, in raw units squared.
    pub open spec fn len2(self) -> int {
        self.x * self.x + self.y * self.y
    }

    /// Both coordinates lie in `[-i64::MAX, i64::MAX]`, so the vector can be negated.
    pub open spec fn in_range(self) -> bool {
        in_range(self.x as int) && in_range(self.y as int)
    }

    pub fn new(x: i64, y: i64) -> (r: Vec2)
        ensures
            r == (Vec2 { x, y }),
    {
        Vec2 { x, y }
    }

    pub fn zero() -> (r: Vec2)
        ensures
            r == Vec2::zero_spec(),
    {
        Vec2 { x: 0, y: 0 }
    }

    pub fn add(self, o: Vec2) -> (r: Vec2)
        ensures
            r == self.add_spec(o),
    {
        Vec2 { x: fx_add(self.x, o.x), y: fx_add(self.y, o.y) }
    }

    pub fn sub(self, o: Vec2) -> (r: Vec2)
        ensures
            r == self.sub_spec(o),
    {
        Vec2 { x: fx_sub(self.x, o.x), y: fx_sub(self.y, o.y) }
    }

    pub fn neg(self) -> (r: Vec2)
        requires
            self.in_range(),
        ensures
            r == self.neg_spec(),
    {
        Vec2 { x: -self.x, y: -self.y }
    }

    pub fn scale(self, s: i64) -> (r: Vec2)
        ensures
            r == self.scale_spec(s as int),
    {
        Vec2 { x: fx_mul(self.x, s), y: fx_mul(self.y, s) }
    }

    /// The squared length, which always fits in a `u128`.
    pub fn length_squared(self) -> (r: u128)
        ensures
            r == self.len2(),
    {
        let x: i128 = self.x as i128;
        let y: i128 = self.y as i128;
        proof {
            assert(0 <= x * x <= 0x4000_0000_0000_0000_0000_0000_0000_0000) by (nonlinear_arith)
                requires
                    -0x8000_0000_0000_0000 <= x <= 0x8000_0000_0000_0000,
            ;
            assert(0 <= y * y <= 0x4000_0000_0000_0000_0000_0000_0000_0000) by (nonlinear_arith)
                requires
                    -0x8000_0000_0000_0000 <= y <= 0x8000_0000_0000_0000,
            ;
        }
        (x * x) as u128 + (y * y) as u128
    }
}

/// Subtraction is odd: `b - a` is the negation of `a - b`.
pub proof fn lemma_sub_antisymmetric(a: Vec2, b: Vec2)
    ensures
        b.sub_spec(a) == a.sub_spec(b).neg_spec(),
        a.sub_spec(b).in_range(),
{
    crate::fixed::lemma_clamp_odd(a.x - b.x);
    crate::fixed::lemma_clamp_odd(a.y - b.y);
}

/// Scaling commutes with negation.
pub proof fn lemma_scale_neg(v: Vec2, s: int)
    requires
        v.in_range(),
    ensures
        v.neg_spec().scale_spec(s) == v.scale_spec(s).neg_spec(),
        v.scale_spec(s).in_range(),
{
    let sc = crate::fixed::SCALE as int;
    assert((-v.x) * s == -(v.x * s)) by (nonlinear_arith);
    assert((-v.y) * s == -(v.y * s)) by (nonlinear_arith);
    crate::fixed::lemma_tdiv_odd(v.x * s, sc);
    crate::fixed::lemma_tdiv_odd(v.y * s, sc);
    crate::fixed::lemma_clamp_odd(crate::fixed::tdiv(v.x * s, sc));
    crate::fixed::lemma_clamp_odd(crate::fixed::tdiv(v.y * s, sc));
}

} // verus!
