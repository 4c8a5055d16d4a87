//! The three SPH smoothing kernels, in fixed point.
//!
//! Each kernel has a support radius `h` (raw units) and vanishes for any
//! displacement longer than `h`. Normalisation constants use 355/113 for pi.

use vstd::prelude::*;
use crate::fixed::{SCALE, FX_MAX, clamp, tdiv, sqrt_floor, isqrt, clamp_wide, tdiv_wide};
use crate::vector::Vec2;

verus! {

/// Numerator of the rational approximation of pi.
pub const PI_NUM: u128 = 355;

/// Denominator of the rational approximation of pi.
pub const PI_DEN: u128 = 113;

/// `SCALE` as a `u128`.
const S: u128 = 1_000_000;

/// The largest support radius, in raw units: the squared radius times
/// `SCALE` must fit in a `u128`.
pub const MAX_RADIUS: u128 = 9_007_199_254_740_992;

/// `4 * PI_DEN * SCALE^3`.
pub const POLY6_NUM: u128 = 452_000_000_000_000_000_000;

/// `10 * PI_DEN * SCALE^2`.
pub const SPIKY_NUM: u128 = 1_130_000_000_000_000;

/// `40 * PI_DEN * SCALE^4`.
pub const VISCOSITY_NUM: u128 = 4_520_000_000_000_000_000_000_000_000;

/// Whether `r` lies in the closed disk of radius `h`.
pub open spec fn in_support(h: int, r: Vec2) -> bool {
    r.len2() <= h * h
}

/// `a / b` as a fixed-point fraction, for `0 <= a <= b`.
pub open spec fn fraction(a: int, b: int) -> int {
    a * SCALE / b
}

/// `4 / (pi h^2)`, the density kernel's peak.
pub open spec fn poly6_coefficient(h: int) -> int {
    POLY6_NUM as int / (PI_NUM * h) / h
}

/// `4 / (pi h^2) * (1 - |r|^2 / h^2)^3` inside the support, else zero.
pub open spec fn poly6_value(h: int, r: Vec2) -> int {
    if in_support(h, r) {
        let t = fraction(h * h - r.len2(), h * h);
        poly6_coefficient(h) * (t * t * t) / (SCALE * SCALE * SCALE)
    } else {
        0
    }
}

/// `10 / (pi h^5) * (h - len)^2`, the length of the pressure kernel's gradient.
pub open spec fn spiky_magnitude(h: int, len: int) -> int {
    let q = fraction(h - len, h);
    clamp(SPIKY_NUM as int * (q * q) / (PI_NUM * h) / h / h)
}

/// `-10 / (pi h^5) * (h - |r|)^2 * r / |r|` for `0 < |r| <= h`, else zero.
pub open spec fn spiky_gradient(h: int, r: Vec2) -> Vec2 {
    if in_support(h, r) && r.len2() != 0 {
        let len = sqrt_floor(r.len2() as nat) as int;
        let m = spiky_magnitude(h, len);
        Vec2 { x: clamp(-tdiv(m * r.x, len)) as i64, y: clamp(-tdiv(m * r.y, len)) as i64 }
    } else {
        Vec2 { x: 0, y: 0 }
    }
}

/// `40 / (pi h^5) * (h - |r|)` inside the support, else zero.
pub open spec fn viscosity_value(h: int, r: Vec2) -> int {
    if in_support(h, r) {
        let len = sqrt_floor(r.len2() as nat) as int;
        let q = fraction(h - len, h);
        clamp(VISCOSITY_NUM as int * q / (PI_NUM * h) / h / h / h)
    } else {
        0
    }
}

/// `a * SCALE / b` for `0 <= a <= b`, which is at most `SCALE`.
fn fraction_exec(a: u128, b: u128) -> (r: u128)
    requires
        a <= b,
        0 < b <= MAX_RADIUS * MAX_RADIUS,
    ensures
        r == fraction(a as int, b as int),
        r <= S,
{
    proof {
        assert(a * S <= b * S <= MAX_RADIUS * MAX_RADIUS * S) by (nonlinear_arith)
            requires
                a <= b <= MAX_RADIUS * MAX_RADIUS,
        ;
        vstd::arithmetic::mul::lemma_mul_inequality(a as int, b as int, S as int);
        vstd::arithmetic::div_mod::lemma_div_is_ordered(a * S, b * S, b as int);
        vstd::arithmetic::div_mod::lemma_div_by_multiple(S as int, b as int);
        assert(b * S == S * b) by (nonlinear_arith);
    }
    a * S / b
}

/// `sqrt_floor(len2) <= h` when `len2 <= h * h`.
proof fn lemma_root_within(len2: nat, h: nat)
    requires
        len2 <= h * h,
    ensures
        sqrt_floor(len2) <= h,
{
    crate::fixed::lemma_sqrt_floor(len2);
    let s = sqrt_floor(len2);
    if s > h {
        assert((h + 1) * (h + 1) <= s * s) by (nonlinear_arith)
            requires
                h + 1 <= s,
        ;
        assert(h * h < (h + 1) * (h + 1)) by (nonlinear_arith);
    }
}

/// `0 <= x / d <= x` for `x >= 0` and `d >= 1`.
pub proof fn lemma_div_le(x: int, d: int)
    requires
        x >= 0,
        d >= 1,
    ensures
        0 <= x / d <= x,
{
    vstd::arithmetic::div_mod::lemma_div_is_ordered_by_denominator(x, 1, d);
    vstd::arithmetic::div_mod::lemma_div_pos_is_pos(x, d);
}

/// Converts a non-negative `u128` to a scalar, saturating.
fn clamp_unsigned(x: u128) -> (r: i64)
    ensures
        r == clamp(x as int),
{
    if x > FX_MAX as u128 {
        FX_MAX
    } else {
        x as i64
    }
}

/// Whether `r` lies in the support of radius `h`.
fn support_contains(h: i64, r: Vec2) -> (b: bool)
    requires
        h > 0,
    ensures
        b == in_support(h as int, r),
{
    assert(0 < h * h < 0x4000_0000_0000_0000_0000_0000_0000_0000) by (nonlinear_arith)
        requires
            0 < h < 0x8000_0000_0000_0000,
    ;
    let hh: u128 = (h as u128) * (h as u128);
    r.length_squared() <= hh
}

/// The density (poly6) kernel.
#[derive(Clone, Copy, Debug)]
pub struct Poly6Kernel {
    pub h: i64,
}

impl Poly6Kernel {
    pub fn new(h: i64) -> (k: Poly6Kernel)
        requires
            0 < h <= MAX_RADIUS,
        ensures
            k.h == h,
    {
        Poly6Kernel { h }
    }

    /// The normalisation `4 / (pi h^2)` where `r` is in the support, else zero.
    pub fn coefficient(&self, r: Vec2) -> (c: i64)
        requires
            0 < self.h <= MAX_RADIUS,
        ensures
            c == (if in_support(self.h as int, r) { poly6_coefficient(self.h as int) } else { 0 }),
            0 <= c <= POLY6_NUM as int / PI_NUM as int,
    {
        if support_contains(self.h, r) {
            let h: u128 = self.h as u128;
            proof {
                vstd::arithmetic::div_mod::lemma_div_is_ordered_by_denominator(POLY6_NUM as int, PI_NUM as int, PI_NUM * h);
                lemma_div_le(POLY6_NUM as int / (PI_NUM as int * h as int), h as int);
            }
            (POLY6_NUM / (PI_NUM * h) / h) as i64
        } else {
            0
        }
    }

    /// The kernel weight at displacement `r`.
    pub fn evaluate(&self, r: Vec2) -> (w: i64)
        requires
            0 < self.h <= MAX_RADIUS,
        ensures
            w == poly6_value(self.h as int, r),
            w >= 0,
    {
        let c = self.coefficient(r);
        if c == 0 && !support_contains(self.h, r) {
            return 0;
        }
        let h: u128 = self.h as u128;
        assert(0 < h * h <= MAX_RADIUS * MAX_RADIUS) by (nonlinear_arith)
            requires
                0 < h <= MAX_RADIUS,
        ;
        let hh: u128 = h * h;
        let t = fraction_exec(hh - r.length_squared(), hh);
        proof {
            assert(t * t <= S * S && t * t * t <= S * S * S) by (nonlinear_arith)
                requires
                    t <= S,
            ;
            assert(c * (t * t * t) <= 1_273_239_436_619_718_309 * (S * S * S)) by (nonlinear_arith)
                requires
                    t * t * t <= S * S * S,
                    0 <= c <= 1_273_239_436_619_718_309,
            ;
            assert(c * (t * t * t) <= c * (S * S * S)) by (nonlinear_arith)
                requires
                    t * t * t <= S * S * S,
                    c >= 0,
            ;
            assert(c * (S * S * S) / (S * S * S) == c) by {
                vstd::arithmetic::div_mod::lemma_div_multiples_vanish(c as int, (S * S * S) as int);
                assert(c * (S * S * S) == (S * S * S) * c) by (nonlinear_arith);
            }
            vstd::arithmetic::div_mod::lemma_div_is_ordered((c as int) * (t * t * t), (c as int) * (S * S * S), (S * S * S) as int);
            vstd::arithmetic::div_mod::lemma_div_pos_is_pos((c as int) * (t * t * t), (S * S * S) as int);
        }
        let cu: u128 = c as u128;
        (cu * (t * t * t) / (S * S * S)) as i64
    }
}

/// Facts on the length `sqrt_floor(r.len2())` of a displacement inside the support.
proof fn lemma_support_length(h: int, r: Vec2)
    requires
        0 < h,
        in_support(h, r),
    ensures
        sqrt_floor(r.len2() as nat) <= h,
        r.len2() != 0 ==> sqrt_floor(r.len2() as nat) >= 1,
{
    assert(r.len2() >= 0) by (nonlinear_arith);
    lemma_root_within(r.len2() as nat, h as nat);
    crate::fixed::lemma_sqrt_floor(r.len2() as nat);
    let s = sqrt_floor(r.len2() as nat);
    if s == 0 {
        assert((s + 1) * (s + 1) == 1) by (nonlinear_arith)
            requires
                s == 0,
        ;
    }
}

/// The pressure (spiky) kernel.
#[derive(Clone, Copy, Debug)]
pub struct SpikyKernel {
    pub h: i64,
}

impl SpikyKernel {
    pub fn new(h: i64) -> (k: SpikyKernel)
        requires
            0 < h <= MAX_RADIUS,
        ensures
            k.h == h,
    {
        SpikyKernel { h }
    }

    /// The kernel gradient at displacement `r`: zero outside the support and
    /// at `r = 0`, else pointing against `r`.
    pub fn gradient(&self, r: Vec2) -> (g: Vec2)
        requires
            0 < self.h <= MAX_RADIUS,
        ensures
            g == spiky_gradient(self.h as int, r),
    {
        let l2 = r.length_squared();
        if !support_contains(self.h, r) || l2 == 0 {
            return Vec2::zero();
        }
        proof {
            lemma_support_length(self.h as int, r);
        }
        let len = isqrt(l2);
        let h: u128 = self.h as u128;
        let q = fraction_exec(h - len, h);
        proof {
            assert(q * q <= S * S) by (nonlinear_arith)
                requires
                    q <= S,
            ;
            assert(SPIKY_NUM * (q * q) <= SPIKY_NUM * (S * S)) by (nonlinear_arith)
                requires
                    q * q <= S * S,
            ;
        }
        let m = clamp_unsigned(SPIKY_NUM * (q * q) / (PI_NUM * h) / h / h);
        proof {
            crate::fixed::lemma_mul_abs_bound(m as int, r.x as int, 0x8000_0000_0000_0000, 0x8000_0000_0000_0000);
            crate::fixed::lemma_mul_abs_bound(m as int, r.y as int, 0x8000_0000_0000_0000, 0x8000_0000_0000_0000);
            crate::fixed::lemma_tdiv_bound(m * r.x, len as int);
            crate::fixed::lemma_tdiv_bound(m * r.y, len as int);
        }
        let gx = tdiv_wide(m as i128 * r.x as i128, len as i128);
        let gy = tdiv_wide(m as i128 * r.y as i128, len as i128);
        Vec2 { x: clamp_wide(-gx), y: clamp_wide(-gy) }
    }
}

/// The viscosity kernel.
#[derive(Clone, Copy, Debug)]
pub struct ViscosityKernel {
    pub h: i64,
}

impl ViscosityKernel {
    pub fn new(h: i64) -> (k: ViscosityKernel)
        requires
            0 < h <= MAX_RADIUS,
        ensures
            k.h == h,
    {
        ViscosityKernel { h }
    }

    /// The kernel Laplacian at displacement `r`.
    pub fn laplacian(&self, r: Vec2) -> (l: i64)
        requires
            0 < self.h <= MAX_RADIUS,
        ensures
            l == viscosity_value(self.h as int, r),
            l >= 0,
    {
        if !support_contains(self.h, r) {
            return 0;
        }
        proof {
            lemma_support_length(self.h as int, r);
        }
        let len = isqrt(r.length_squared());
        let h: u128 = self.h as u128;
        let q = fraction_exec(h - len, h);
        proof {
            assert(VISCOSITY_NUM * q <= VISCOSITY_NUM * S) by (nonlinear_arith)
                requires
                    q <= S,
            ;
        }
        clamp_unsigned(VISCOSITY_NUM * q / (PI_NUM * h) / h / h / h)
    }
}

/// One of the three kernels. A method that has no meaning for a variant
/// returns zero: only the density kernel evaluates, only the pressure kernel
/// has a gradient, only the viscosity kernel has a Laplacian.
#[derive(Clone, Copy, Debug)]
pub enum Kernel {
    Poly6(Poly6Kernel),
    Spiky(SpikyKernel),
    Viscosity(ViscosityKernel),
}

impl Kernel {
    pub open spec fn radius(&self) -> int {
        match self {
            Kernel::Poly6(k) => k.h as int,
            Kernel::Spiky(k) => k.h as int,
            Kernel::Viscosity(k) => k.h as int,
        }
    }

    pub open spec fn wf(&self) -> bool {
        0 < self.radius() <= MAX_RADIUS
    }

    pub open spec fn evaluate_spec(&self, r: Vec2) -> int {
        match self {
            Kernel::Poly6(k) => poly6_value(k.h as int, r),
            _ => 0,
        }
    }

    pub open spec fn gradient_spec(&self, r: Vec2) -> Vec2 {
        match self {
            Kernel::Spiky(k) => spiky_gradient(k.h as int, r),
            _ => Vec2 { x: 0, y: 0 },
        }
    }

    pub open spec fn laplacian_spec(&self, r: Vec2) -> int {
        match self {
            Kernel::Viscosity(k) => viscosity_value(k.h as int, r),
            _ => 0,
        }
    }

    pub fn evaluate(&self, r: Vec2) -> (w: i64)
        requires
            self.wf(),
        ensures
            w == self.evaluate_spec(r),
    {
        match self {
            Kernel::Poly6(k) => k.evaluate(r),
            _ => 0,
        }
    }

    pub fn gradient(&self, r: Vec2) -> (g: Vec2)
        requires
            self.wf(),
        ensures
            g == self.gradient_spec(r),
    {
        match self {
            Kernel::Spiky(k) => k.gradient(r),
            _ => Vec2::zero(),
        }
    }

    pub fn laplacian(&self, r: Vec2) -> (l: i64)
        requires
            self.wf(),
        ensures
            l == self.laplacian_spec(r),
    {
        match self {
            Kernel::Viscosity(k) => k.laplacian(r),
            _ => 0,
        }
    }
}

/// Beyond its support radius every kernel is exactly zero: its weight, its
/// gradient and its Laplacian.
pub proof fn lemma_support_cutoff(k: Kernel, r: Vec2)
    requires
        k.wf(),
        r.len2() > k.radius() * k.radius(),
    ensures
        k.evaluate_spec(r) == 0,
        k.gradient_spec(r) == Vec2::zero_spec(),
        k.laplacian_spec(r) == 0,
{
}

/// The kernels vanish continuously: at `|r| = h` the density kernel's weight,
/// the pressure kernel's gradient and the viscosity kernel's Laplacian are zero.
pub proof fn lemma_boundary_value(h: int, r: Vec2)
    requires
        0 < h <= MAX_RADIUS,
        r.len2() == h * h,
    ensures
        poly6_value(h, r) == 0,
        spiky_gradient(h, r) == Vec2::zero_spec(),
        viscosity_value(h, r) == 0,
{
    let c = poly6_coefficient(h);
    assert(0 * SCALE == 0);
    assert(h * h > 0) by (nonlinear_arith)
        requires
            h > 0,
    ;
    assert(0int / (h * h) == 0);
    assert(fraction(0, h * h) == 0);
    assert(c * (0 * 0 * 0) == 0) by (nonlinear_arith);
    assert((h + 1) * (h + 1) == h * h + 2 * h + 1) by (nonlinear_arith);
    crate::fixed::lemma_sqrt_floor_unique((h * h) as nat, h as nat);
    assert(fraction(h - h, h) == 0);
    assert(SPIKY_NUM as int * (0 * 0) == 0) by (nonlinear_arith);
    assert(spiky_magnitude(h, h) == 0) by {
        assert(0int / (PI_NUM * h) == 0);
    }
    assert(0 * r.x == 0 && 0 * r.y == 0) by (nonlinear_arith);
}

/// The pressure kernel's gradient is odd: `gradient(-r) = -gradient(r)`.
pub proof fn lemma_gradient_antisymmetric(h: int, r: Vec2)
    requires
        0 < h <= MAX_RADIUS,
        r.in_range(),
    ensures
        spiky_gradient(h, r.neg_spec()) == spiky_gradient(h, r).neg_spec(),
        spiky_gradient(h, r).in_range(),
{
    let n = r.neg_spec();
    assert(n.len2() == r.len2()) by (nonlinear_arith)
        requires
            n.x == -r.x,
            n.y == -r.y,
    ;
    if in_support(h, r) && r.len2() != 0 {
        let len = sqrt_floor(r.len2() as nat) as int;
        let m = spiky_magnitude(h, len);
        lemma_support_length(h, r);
        assert(m * n.x == -(m * r.x)) by (nonlinear_arith)
            requires
                n.x == -r.x,
        ;
        assert(m * n.y == -(m * r.y)) by (nonlinear_arith)
            requires
                n.y == -r.y,
        ;
        crate::fixed::lemma_tdiv_odd(m * r.x, len);
        crate::fixed::lemma_tdiv_odd(m * r.y, len);
        crate::fixed::lemma_clamp_odd(-tdiv(m * r.x, len));
        crate::fixed::lemma_clamp_odd(-tdiv(m * r.y, len));
    }
}

} // verus!
