//! Fixed-point scalars and the small pieces of integer arithmetic that the
//! rest of the crate builds on: truncating and rounding division, and an
//! integer square root.
//!
//! World positions and density values are carried as `i64` fixed-point
//! numbers with [`FP_ONE`] steps per world unit, so that the geometry of the
//! polygonizer can be reasoned about exactly.

use vstd::arithmetic::div_mod::{
    lemma_div_is_ordered, lemma_div_multiples_vanish, lemma_div_nonincreasing,
    lemma_div_pos_is_pos,
};
use vstd::arithmetic::mul::{lemma_mul_inequality, lemma_mul_nonnegative};
use vstd::prelude::*;

verus! {

/// Fixed-point steps per world unit.
pub const FP_ONE: i64 = 1024;

/// Largest magnitude of a position component the library works with.
pub const POS_LIMIT: i64 = 0x4000_0000_0000;

/// Largest magnitude of a density value or iso-level the library works with.
pub const VAL_LIMIT: i64 = 0x4000_0000_0000;

/// A point or direction in fixed-point world coordinates.
#[derive(Clone, Copy, PartialEq, Eq, Structural, Debug)]
pub struct Vec3Fx {
    pub x: i64,
    pub y: i64,
    pub z: i64,
}

impl Vec3Fx {
    pub fn new(x: i64, y: i64, z: i64) -> (v: Vec3Fx)
        ensures
            v == (Vec3Fx { x, y, z }),
    {
        Vec3Fx { x, y, z }
    }

    /// The origin, also used as the placeholder for degenerate normals.
    pub fn zero() -> (v: Vec3Fx)
        ensures
            v == (Vec3Fx { x: 0i64, y: 0i64, z: 0i64 }),
    {
        Vec3Fx { x: 0, y: 0, z: 0 }
    }
}

/// All components of `p` stay within [`POS_LIMIT`].
pub open spec fn pos_in_range(p: Vec3Fx) -> bool {
    &&& -POS_LIMIT <= p.x <= POS_LIMIT
    &&& -POS_LIMIT <= p.y <= POS_LIMIT
    &&& -POS_LIMIT <= p.z <= POS_LIMIT
}

/// A density value or iso-level within [`VAL_LIMIT`].
pub open spec fn val_in_range(v: i64) -> bool {
    -VAL_LIMIT <= v <= VAL_LIMIT
}

/// `v` lies (inclusively) between `a` and `b`, whichever order they are in.
pub open spec fn lies_between(a: int, b: int, v: int) -> bool {
    (a <= v <= b) || (b <= v <= a)
}

/// Division that rounds towards zero, the rounding mode of the executable
/// code; on the mathematical integers `/` rounds towards negative infinity
/// instead, so the negative case is spelled out through magnitudes.
pub open spec fn spec_div_trunc(a: int, b: int) -> int
    recommends
        b > 0,
{
    if a >= 0 {
        a / b
    } else {
        -((-a) / b)
    }
}

/// `a / b` rounded to the nearest integer, ties away from zero.
pub open spec fn spec_round_div(a: int, b: int) -> int
    recommends
        b > 0,
{
    if a >= 0 {
        spec_div_trunc(2 * a + b, 2 * b)
    } else {
        spec_div_trunc(2 * a - b, 2 * b)
    }
}

/// Truncating division stays on the dividend's side of zero and never grows
/// past it in magnitude.
pub proof fn lemma_div_trunc_bounds(a: int, b: int)
    requires
        b > 0,
    ensures
        a >= 0 ==> 0 <= spec_div_trunc(a, b) <= a,
        a < 0 ==> a <= spec_div_trunc(a, b) <= 0,
{
    if a >= 0 {
        lemma_div_pos_is_pos(a, b);
        lemma_div_nonincreasing(a, b);
    } else {
        lemma_div_pos_is_pos(-a, b);
        lemma_div_nonincreasing(-a, b);
    }
}

/// The interpolation kernel `delta * num / den` with `num/den` in [0, 1]
/// lies between 0 and `delta`.
pub proof fn lemma_lerp_step_between(delta: int, num: int, den: int)
    requires
        den > 0,
        0 <= num <= den,
    ensures
        delta >= 0 ==> 0 <= spec_div_trunc(delta * num, den) <= delta,
        delta < 0 ==> delta <= spec_div_trunc(delta * num, den) <= 0,
{
    if delta >= 0 {
        lemma_mul_nonnegative(delta, num);
        lemma_div_pos_is_pos(delta * num, den);
        lemma_mul_inequality(num, den, delta);
        assert(num * delta == delta * num) by (nonlinear_arith);
        assert(den * delta == delta * den) by (nonlinear_arith);
        lemma_div_is_ordered(delta * num, delta * den, den);
        lemma_div_multiples_vanish(delta, den);
        assert(den * delta / den == delta);
    } else {
        let m = -delta;
        lemma_mul_nonnegative(m, num);
        lemma_div_pos_is_pos(m * num, den);
        lemma_mul_inequality(num, den, m);
        assert(num * m == m * num) by (nonlinear_arith);
        assert(den * m == m * den) by (nonlinear_arith);
        lemma_div_is_ordered(m * num, m * den, den);
        lemma_div_multiples_vanish(m, den);
        assert(delta * num == -((-delta) * num)) by (nonlinear_arith);
    }
}

/// Truncating division on `i128`, carried out through unsigned magnitudes so
/// that its rounding mode is stated rather than inherited.
pub fn div_trunc_i128(a: i128, b: i128) -> (q: i128)
    requires
        b > 0,
        a > i128::MIN,
    ensures
        q == spec_div_trunc(a as int, b as int),
{
    if a >= 0 {
        proof {
            lemma_div_pos_is_pos(a as int, b as int);
            lemma_div_nonincreasing(a as int, b as int);
        }
        ((a as u128) / (b as u128)) as i128
    } else {
        proof {
            lemma_div_pos_is_pos(-(a as int), b as int);
            lemma_div_nonincreasing(-(a as int), b as int);
        }
        let m: u128 = ((-a) as u128) / (b as u128);
        -(m as i128)
    }
}

/// `a / b` rounded to the nearest integer, ties away from zero: the grid
/// snapping used when a world position is turned into a chunk coordinate.
pub fn round_div(a: i64, b: i64) -> (q: i64)
    requires
        b > 0,
        -POS_LIMIT <= a <= POS_LIMIT,
        b <= POS_LIMIT,
    ensures
        q == spec_round_div(a as int, b as int),
{
    let wa: i128 = a as i128;
    let wb: i128 = b as i128;
    let num: i128 = if a >= 0 {
        2 * wa + wb
    } else {
        2 * wa - wb
    };
    proof {
        lemma_div_trunc_bounds(num as int, 2 * wb as int);
    }
    div_trunc_i128(num, 2 * wb) as i64
}

/// Rounding to the nearest multiple lands within half a step: twice the
/// distance between `a` and the chosen multiple of `b` never exceeds `b`.
pub proof fn lemma_round_div_close(a: int, b: int)
    requires
        b > 0,
    ensures
        2 * (a - spec_round_div(a, b) * b) <= b,
        2 * (spec_round_div(a, b) * b - a) <= b,
{
    if a >= 0 {
        let q = (2 * a + b) / (2 * b);
        lemma_div_pos_is_pos(2 * a + b, 2 * b);
        vstd::arithmetic::div_mod::lemma_fundamental_div_mod(2 * a + b, 2 * b);
        vstd::arithmetic::div_mod::lemma_mod_division_less_than_divisor(2 * a + b, 2 * b);
        vstd::arithmetic::div_mod::lemma_remainder_lower(2 * a + b, 2 * b);
        assert(2 * a + b == 2 * b * q + (2 * a + b) % (2 * b));
        assert(spec_round_div(a, b) == q);
        assert(2 * (a - q * b) == (2 * a + b) % (2 * b) - b) by (nonlinear_arith)
            requires
                2 * a + b == 2 * b * q + (2 * a + b) % (2 * b),
        ;
    } else {
        let m = -a;
        let q = (2 * m + b) / (2 * b);
        lemma_div_pos_is_pos(2 * m + b, 2 * b);
        vstd::arithmetic::div_mod::lemma_fundamental_div_mod(2 * m + b, 2 * b);
        vstd::arithmetic::div_mod::lemma_mod_division_less_than_divisor(2 * m + b, 2 * b);
        assert(2 * m + b == 2 * b * q + (2 * m + b) % (2 * b));
        assert(spec_round_div(a, b) == -q);
        assert(2 * (m - q * b) == (2 * m + b) % (2 * b) - b) by (nonlinear_arith)
            requires
                2 * m + b == 2 * b * q + (2 * m + b) % (2 * b),
        ;
        assert((-q) * b == -(q * b)) by (nonlinear_arith);
    }
}

/// `r` is the integer square root of `n`.
pub open spec fn is_sqrt(n: int, r: int) -> bool {
    &&& 0 <= r
    &&& r * r <= n
    &&& n < (r + 1) * (r + 1)
}

/// The integer square root, defined by counting up; executable code meets it
/// by binary search.
pub open spec fn spec_isqrt(n: nat) -> nat
    decreases n,
{
    if n == 0 {
        0
    } else {
        let r = spec_isqrt((n - 1) as nat);
        if (r + 1) * (r + 1) <= n {
            r + 1
        } else {
            r
        }
    }
}

pub proof fn lemma_isqrt_is_sqrt(n: nat)
    ensures
        is_sqrt(n as int, spec_isqrt(n) as int),
    decreases n,
{
    if n == 0 {
    } else {
        lemma_isqrt_is_sqrt((n - 1) as nat);
        let r = spec_isqrt((n - 1) as nat);
        if (r + 1) * (r + 1) <= n {
            assert((r + 2) * (r + 2) > (r + 1) * (r + 1)) by (nonlinear_arith);
        }
    }
}

/// Two integer square roots of the same number are equal.
pub proof fn lemma_sqrt_unique(n: int, r1: int, r2: int)
    requires
        is_sqrt(n, r1),
        is_sqrt(n, r2),
    ensures
        r1 == r2,
{
    if r1 < r2 {
        assert((r1 + 1) * (r1 + 1) <= r2 * r2) by (nonlinear_arith)
            requires 0 <= r1 && 0 <= r2 && r1 < r2,
        ;
    }
    if r2 < r1 {
        assert((r2 + 1) * (r2 + 1) <= r1 * r1) by (nonlinear_arith)
            requires 0 <= r1 && 0 <= r2 && r2 < r1,
        ;
    }
}

/// Integer square root by binary search.
pub fn isqrt_u128(n: u128) -> (r: u128)
    requires
        n < 0x10000000000000000000000000,
    ensures
        is_sqrt(n as int, r as int),
        r == spec_isqrt(n as nat),
{
    let mut lo: u128 = 0;
    let mut hi: u128 = 0x4000000000000;
    assert(hi * hi == 0x10000000000000000000000000) by (nonlinear_arith)
        requires
            hi == 0x4000000000000,
    ;
    while hi - lo > 1
        invariant
            lo < hi,
            hi <= 0x4000000000000,
            lo * lo <= n,
            n < hi * hi,
        decreases hi - lo,
    {
        let mid: u128 = lo + (hi - lo) / 2;
        assert(lo < mid < hi);
        assert(mid * mid <= 0x10000000000000000000000000) by (nonlinear_arith)
            requires
                mid <= 0x4000000000000,
        ;
        if mid * mid <= n {
            lo = mid;
        } else {
            hi = mid;
        }
    }
    proof {
        lemma_isqrt_is_sqrt(n as nat);
        lemma_sqrt_unique(n as int, lo as int, spec_isqrt(n as nat) as int);
    }
    lo
}

} // verus!
