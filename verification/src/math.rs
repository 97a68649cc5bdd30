//! Fixed-point arithmetic for the render model.
//!
//! All world-space quantities are held in micro-units: the integer `SCALE`
//! stands for 1.0.  Angles are micro-radians.  The module provides the
//! verified numeric kernels the mesh needs: truncating scaled division, an
//! integer square root, and a fixed-point sine (the rational approximation
//! `16 x (pi - x) / (5 pi^2 - 4 x (pi - x))` on `[0, pi]`, extended by odd
//! symmetry and periodicity).

use vstd::prelude::*;

verus! {

use vstd::arithmetic::div_mod::lemma_div_is_ordered;
use vstd::arithmetic::div_mod::lemma_div_multiples_vanish;

/// Fixed-point unit: this many integer steps stand for 1.0.
pub const SCALE: i64 = 1_000_000;

/// Pi in micro-radians.
pub const PI_FP: i64 = 3_141_593;

/// Two pi in micro-radians.
pub const TAU_FP: i64 = 2 * PI_FP;

/// The ripple frequency scale, `3 * pi`, in micro-radians.
pub const FREQ_FP: i64 = 3 * PI_FP;

/// Division that truncates toward zero (the fixed-point convention used
/// throughout), defined for positive divisors.
pub open spec fn div_trunc(a: int, b: int) -> int {
    if a >= 0 {
        a / b
    } else {
        -((-a) / b)
    }
}

/// `r` is the integer square root of `x` rounded down.
pub open spec fn is_sqrt_floor(x: int, r: int) -> bool {
    0 <= r && r * r <= x && x < (r + 1) * (r + 1)
}

/// The integer square root of `x`, rounded down.
pub open spec fn sqrt_floor(x: int) -> int {
    choose|r: int| is_sqrt_floor(x, r)
}

/// The rounded-down integer square root is unique.
pub proof fn lemma_sqrt_floor_unique(x: int, r1: int, r2: int)
    requires
        is_sqrt_floor(x, r1),
        is_sqrt_floor(x, r2),
    ensures
        r1 == r2,
{
    if r1 < r2 {
        assert((r1 + 1) * (r1 + 1) <= r2 * r2) by (nonlinear_arith)
            requires
                0 <= r1,
                r1 < r2,
        ;
    }
    if r2 < r1 {
        assert((r2 + 1) * (r2 + 1) <= r1 * r1) by (nonlinear_arith)
            requires
                0 <= r2,
                r2 < r1,
        ;
    }
}

/// Every non-negative integer has a rounded-down square root.
pub proof fn lemma_sqrt_floor_exists(x: int)
    requires
        x >= 0,
    ensures
        is_sqrt_floor(x, sqrt_floor(x)),
    decreases x,
{
    if x == 0 {
        assert(is_sqrt_floor(0, 0));
    } else {
        lemma_sqrt_floor_exists(x - 1);
        let r = sqrt_floor(x - 1);
        if (r + 1) * (r + 1) <= x {
            assert(x - 1 < (r + 1) * (r + 1));
            assert(x == (r + 1) * (r + 1));
            assert((r + 1) * (r + 1) < (r + 2) * (r + 2)) by (nonlinear_arith)
                requires
                    r >= 0,
            ;
            assert(is_sqrt_floor(x, r + 1));
        } else {
            assert(is_sqrt_floor(x, r));
        }
    }
    assert(exists|s: int| is_sqrt_floor(x, s));
}

/// A witness makes `sqrt_floor` concrete.
pub proof fn lemma_sqrt_floor_of(x: int, r: int)
    requires
        is_sqrt_floor(x, r),
    ensures
        sqrt_floor(x) == r,
{
    assert(is_sqrt_floor(x, sqrt_floor(x))) by {
        assert(exists|s: int| is_sqrt_floor(x, s));
    }
    lemma_sqrt_floor_unique(x, sqrt_floor(x), r);
}

/// Integer square root, rounded down.
pub fn isqrt(x: u128) -> (r: u128)
    ensures
        is_sqrt_floor(x as int, r as int),
        r == sqrt_floor(x as int),
{
    let mut lo: u128 = 0;
    let mut hi: u128 = 0x1_0000_0000_0000_0000;
    proof {
        assert((hi as int) * (hi as int) > x as int) by (nonlinear_arith)
            requires
                hi == 0x1_0000_0000_0000_0000u128,
                x <= u128::MAX,
        ;
    }
    while lo + 1 < hi
        invariant
            lo < hi <= 0x1_0000_0000_0000_0000u128,
            (lo as int) * (lo as int) <= x as int,
            (x as int) < (hi as int) * (hi as int),
        decreases hi - lo,
    {
        let mid: u128 = lo + (hi - lo) / 2;
        proof {
            assert((mid as int) * (mid as int) <= (0xffff_ffff_ffff_ffffu128 as int) * (
            0xffff_ffff_ffff_ffffu128 as int)) by (nonlinear_arith)
                requires
                    0 <= mid as int <= 0xffff_ffff_ffff_ffffu128 as int,
            ;
        }
        if mid * mid <= x {
            lo = mid;
        } else {
            hi = mid;
        }
    }
    proof {
        lemma_sqrt_floor_of(x as int, lo as int);
    }
    lo
}

/// The rational sine approximation on `[0, PI_FP]`, in fixed point:
/// `16 x (pi - x) * SCALE / (5 pi^2 - 4 x (pi - x))`.
pub open spec fn bhaskara(x: int) -> int {
    (16 * x * (PI_FP - x) * SCALE) / (5 * PI_FP * PI_FP - 4 * x * (PI_FP - x))
}

/// Fixed-point sine of a non-negative micro-radian angle: the angle is
/// reduced modulo `TAU_FP`, and the second half-turn is the negated first.
pub open spec fn sin_fp(phase: int) -> int {
    let r = phase % (TAU_FP as int);
    if r < PI_FP {
        bhaskara(r)
    } else {
        -bhaskara(r - PI_FP)
    }
}

/// On `[0, PI_FP)` the approximation stays within `[0, SCALE]`.
proof fn lemma_bhaskara_range(x: int)
    requires
        0 <= x < PI_FP,
    ensures
        0 <= bhaskara(x) <= SCALE,
{
    let t = x * (PI_FP - x);
    assert(0 <= t && 4 * t <= PI_FP * PI_FP) by (nonlinear_arith)
        requires
            0 <= x < PI_FP,
            t == x * (PI_FP - x),
    ;
    let num = 16 * x * (PI_FP - x) * SCALE;
    let den = 5 * PI_FP * PI_FP - 4 * x * (PI_FP - x);
    assert(num == 16 * t * SCALE && den == 5 * PI_FP * PI_FP - 4 * t) by (nonlinear_arith)
        requires
            num == 16 * x * (PI_FP - x) * SCALE,
            den == 5 * PI_FP * PI_FP - 4 * x * (PI_FP - x),
            t == x * (PI_FP - x),
    ;
    assert(den >= PI_FP * PI_FP);
    assert(bhaskara(x) == num / den);
    assert(num >= 0) by (nonlinear_arith)
        requires
            t >= 0,
            num == 16 * t * SCALE,
    ;
    assert(num / den >= 0) by {
        vstd::arithmetic::div_mod::lemma_div_pos_is_pos(num, den);
    }
    // 16 t SCALE <= SCALE * (5 pi^2 - 4 t)  <=>  20 t <= 5 pi^2  <=>  4 t <= pi^2
    assert(num <= SCALE * den) by (nonlinear_arith)
        requires
            num == 16 * t * SCALE,
            den == 5 * PI_FP * PI_FP - 4 * t,
            4 * t <= PI_FP * PI_FP,
            t >= 0,
    ;
    assert(num / den <= (SCALE * den) / den) by {
        lemma_div_is_ordered(num, SCALE * den, den);
    }
    assert((SCALE * den) / den == SCALE) by {
        lemma_div_multiples_vanish(SCALE as int, den);
    }
}

/// Fixed-point sine of a non-negative micro-radian angle.
pub fn sin_fixed(phase: i64) -> (s: i64)
    requires
        0 <= phase,
    ensures
        s == sin_fp(phase as int),
        -SCALE <= s <= SCALE,
{
    let tau_u: u64 = TAU_FP as u64;
    let pi_u: u64 = PI_FP as u64;
    let r: u64 = (phase as u64) % tau_u;
    assert(r < tau_u);
    let (x, neg): (u64, bool) = if r < pi_u {
        (r, false)
    } else {
        (r - pi_u, true)
    };
    assert(x < pi_u);
    let diff: u64 = pi_u - x;
    proof {
        assert((x as int) * (diff as int) <= PI_FP * PI_FP) by (nonlinear_arith)
            requires
                0 <= (x as int) <= PI_FP,
                0 <= (diff as int) <= PI_FP,
        ;
    }
    let t: u128 = (x as u128) * (diff as u128);
    proof {
        assert(t == (x as int) * (PI_FP - (x as int)) && 4 * (t as int) <= PI_FP * PI_FP && t
            <= PI_FP * PI_FP) by (nonlinear_arith)
            requires
                0 <= (x as int) < PI_FP,
                t == (x as int) * (PI_FP - (x as int)),
        ;
    }
    let num: u128 = 16 * t * (SCALE as u128);
    let den: u128 = 5 * (PI_FP as u128) * (PI_FP as u128) - 4 * t;
    let q: u128 = num / den;
    proof {
        let xi = x as int;
        lemma_bhaskara_range(xi);
        assert(16 * xi * (PI_FP - xi) * SCALE == 16 * (t as int) * SCALE && 5 * PI_FP * PI_FP - 4
            * xi * (PI_FP - xi) == 5 * PI_FP * PI_FP - 4 * (t as int)) by (nonlinear_arith)
            requires
                t == xi * (PI_FP - xi),
        ;
        assert(q == bhaskara(xi));
        assert(r == (phase as int) % (TAU_FP as int));
    }
    let s = if neg {
        -(q as i64)
    } else {
        q as i64
    };
    s
}

/// Truncating division of a product by a positive divisor, for moderate
/// magnitudes: computes `div_trunc(a * b, d)`.
pub fn mul_div_trunc(a: i64, b: i64, d: i64) -> (q: i64)
    requires
        0 < d,
        0 <= b,
        -0x4000_0000_0000_0000 < a < 0x4000_0000_0000_0000,
        -0x4000_0000_0000_0000 < (a as int) * (b as int) < 0x4000_0000_0000_0000,
    ensures
        q == div_trunc((a as int) * (b as int), d as int),
        (a as int) * (b as int) >= 0 ==> 0 <= q <= (a as int) * (b as int),
        (a as int) * (b as int) < 0 ==> (a as int) * (b as int) <= q <= 0,
{
    let (mag, neg): (u64, bool) = if a >= 0 {
        ((a as u64), false)
    } else {
        (((-a) as u64), true)
    };
    proof {
        assert((mag as int) * (b as int) == if a >= 0 {
            (a as int) * (b as int)
        } else {
            -((a as int) * (b as int))
        }) by (nonlinear_arith)
            requires
                mag == if a >= 0 {
                    a as int
                } else {
                    -(a as int)
                },
                0 <= b,
        ;
    }
    let prod: u128 = (mag as u128) * (b as u128);
    let qu: u128 = prod / (d as u128);
    proof {
        lemma_div_is_ordered(prod as int, prod as int, d as int);
        assert(qu <= prod) by {
            vstd::arithmetic::div_mod::lemma_div_nonincreasing(prod as int, d as int);
        }
    }
    if neg {
        -(qu as i64)
    } else {
        qu as i64
    }
}

} // verus!
