//! Fixed-point scalar arithmetic and small vector types.
//!
//! Every real-valued quantity of the renderer (clip-space coordinates,
//! colors, texture coordinates, depth values) is stored as an `i128`
//! holding the quantity times `SCALE`, and all arithmetic is exact
//! integer arithmetic with quotients rounded toward zero.

use vstd::prelude::*;
use vstd::arithmetic::div_mod::lemma_div_pos_is_pos;
use vstd::arithmetic::div_mod::lemma_div_nonincreasing;
use vstd::arithmetic::div_mod::lemma_div_is_ordered;
use vstd::arithmetic::div_mod::lemma_div_multiples_vanish;
use vstd::math::abs;

verus! {

/// Number of integer units per whole unit: a real quantity `x` is stored
/// as the integer nearest `x * SCALE` in the direction of zero.
pub const SCALE: i128 = 65536;

/// Quotient of `n` by `d`, rounded toward zero.
pub open spec fn quot(n: int, d: int) -> int {
    if (n >= 0) == (d >= 0) {
        abs(n) as int / abs(d) as int
    } else {
        -(abs(n) as int / abs(d) as int)
    }
}

/// Product of two fixed-point values, rescaled back into fixed point.
pub open spec fn fmul(a: int, b: int) -> int {
    quot(a * b, SCALE as int)
}

/// Quotient of two fixed-point values, kept in fixed point.
pub open spec fn fdiv(a: int, b: int) -> int {
    quot(a * (SCALE as int), b)
}

/// `v` forced into the interval `[lo, hi]`.
pub open spec fn clamp_spec(v: int, lo: int, hi: int) -> int {
    if v < lo {
        lo
    } else if v > hi {
        hi
    } else {
        v
    }
}

/// The rounded quotient never exceeds the dividend in magnitude, and a
/// nonnegative dividend with positive divisor gives the plain
/// (Euclidean) quotient.
pub proof fn lemma_quot_bounds(n: int, d: int)
    requires
        d != 0,
    ensures
        -abs(n) <= quot(n, d) <= abs(n),
        0 <= n && 0 < d ==> quot(n, d) == n / d,
{
    lemma_div_pos_is_pos(abs(n) as int, abs(d) as int);
    lemma_div_nonincreasing(abs(n) as int, abs(d) as int);
}

/// Magnitude bound on a product from magnitude bounds on its factors.
pub proof fn lemma_mul_bound(x: int, y: int, bx: int, by: int)
    by (nonlinear_arith)
    requires
        -bx <= x <= bx,
        -by <= y <= by,
        0 <= bx,
        0 <= by,
    ensures
        -(bx * by) <= x * y <= bx * by,
{
}

/// A quotient of a nonnegative dividend bounded by `k` times a positive
/// divisor is bounded by `k`.
pub proof fn lemma_quot_le(n: int, d: int, k: int)
    requires
        0 <= n,
        0 < d,
        0 <= k,
        n <= d * k,
    ensures
        0 <= quot(n, d) <= k,
{
    lemma_div_pos_is_pos(n, d);
    lemma_div_is_ordered(n, d * k, d);
    lemma_div_multiples_vanish(k, d);
}

/// Quotient rounded toward zero, computed exactly.
pub fn divt(n: i128, d: i128) -> (r: i128)
    requires
        d != 0,
        n != i128::MIN,
        d != i128::MIN,
    ensures
        r == quot(n as int, d as int),
{
    let nn: i128 = if n >= 0 { n } else { -n };
    let dd: i128 = if d >= 0 { d } else { -d };
    proof {
        lemma_div_pos_is_pos(nn as int, dd as int);
        lemma_div_nonincreasing(nn as int, dd as int);
    }
    let q: i128 = nn.checked_div_euclid(dd).unwrap();
    if (n >= 0) == (d >= 0) {
        q
    } else {
        -q
    }
}

/// Fixed-point multiplication; exact per `fmul`.
pub fn fx_mul(a: i128, b: i128) -> (r: i128)
    requires
        -i128::MAX <= a * b <= i128::MAX,
    ensures
        r == fmul(a as int, b as int),
{
    let p: i128 = a.checked_mul(b).unwrap();
    divt(p, SCALE)
}

/// Fixed-point division; exact per `fdiv`.
pub fn fx_div(a: i128, b: i128) -> (r: i128)
    requires
        b != 0,
        b != i128::MIN,
        -i128::MAX <= a * SCALE <= i128::MAX,
    ensures
        r == fdiv(a as int, b as int),
{
    let p: i128 = a.checked_mul(SCALE).unwrap();
    divt(p, b)
}

/// `v` forced into the interval `[lo, hi]`.
pub fn clamp_i(v: i128, lo: i128, hi: i128) -> (r: i128)
    requires
        lo <= hi,
    ensures
        r == clamp_spec(v as int, lo as int, hi as int),
{
    if v < lo {
        lo
    } else if v > hi {
        hi
    } else {
        v
    }
}

/// Two-component fixed-point vector.
#[derive(Clone, Copy, PartialEq, Eq, Debug)]
pub struct Vec2Fx {
    pub x: i128,
    pub y: i128,
}

/// Three-component fixed-point vector.
#[derive(Clone, Copy, PartialEq, Eq, Debug)]
pub struct Vec3Fx {
    pub x: i128,
    pub y: i128,
    pub z: i128,
}

/// Four-component fixed-point vector.
#[derive(Clone, Copy, PartialEq, Eq, Debug)]
pub struct Vec4Fx {
    pub x: i128,
    pub y: i128,
    pub z: i128,
    pub w: i128,
}

} // verus!
