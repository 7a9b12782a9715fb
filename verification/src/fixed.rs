//! Saturating fixed-point arithmetic on `i64` values.
//!
//! The physics core stores positions, velocities and angles as `i64`
//! fixed-point numbers. Every arithmetic step saturates at the `i64`
//! limits, so each operation is total and its result is pinned exactly
//! by the spec functions below.

use vstd::prelude::*;

verus! {

/// Saturate a mathematical integer into the `i64` range.
pub open spec fn clip(x: int) -> int {
    if x < i64::MIN as int {
        i64::MIN as int
    } else if x > i64::MAX as int {
        i64::MAX as int
    } else {
        x
    }
}

/// Division truncating toward zero (the `/` of the executable code),
/// defined for a positive divisor.
pub open spec fn tdiv(x: int, d: int) -> int {
    if x >= 0 {
        x / d
    } else {
        -((-x) / d)
    }
}

/// Saturating sum.
pub open spec fn sadd(a: int, b: int) -> int {
    clip(a + b)
}

/// Saturating difference.
pub open spec fn ssub(a: int, b: int) -> int {
    clip(a - b)
}

/// Saturating `a * b / d` with truncating division.
pub open spec fn muldiv(a: int, b: int, d: int) -> int {
    clip(tdiv(a * b, d))
}

/// Saturate a mathematical integer at the `u128` maximum.
pub open spec fn cap_u128(x: int) -> int {
    if x > u128::MAX as int {
        u128::MAX as int
    } else {
        x
    }
}

/// Clamp `x` into `[lo, hi]` (`lo` wins when the interval is empty).
pub open spec fn clamp_val(x: int, lo: int, hi: int) -> int {
    if x < lo {
        lo
    } else if x > hi {
        hi
    } else {
        x
    }
}

/// Saturate an `i128` intermediate into `i64`.
pub fn clip128(x: i128) -> (r: i64)
    ensures
        r as int == clip(x as int),
{
    if x < i64::MIN as i128 {
        i64::MIN
    } else if x > i64::MAX as i128 {
        i64::MAX
    } else {
        x as i64
    }
}

/// Saturating addition of two fixed-point values.
pub fn sat_add(a: i64, b: i64) -> (r: i64)
    ensures
        r as int == sadd(a as int, b as int),
{
    clip128(a as i128 + b as i128)
}

/// Saturating subtraction of two fixed-point values.
pub fn sat_sub(a: i64, b: i64) -> (r: i64)
    ensures
        r as int == ssub(a as int, b as int),
{
    clip128(a as i128 - b as i128)
}

/// Saturating `a * b / d` with truncating division; the workhorse of
/// every fixed-point rescaling step.
pub fn mul_div(a: i64, b: i64, d: i64) -> (r: i64)
    requires
        d > 0,
    ensures
        r as int == muldiv(a as int, b as int, d as int),
{
    proof {
        assert((a as int) * (b as int) <= 0x4000_0000_0000_0000_0000_0000_0000_0000int
            && (a as int) * (b as int) >= -0x4000_0000_0000_0000_0000_0000_0000_0000int)
            by (nonlinear_arith)
            requires
                i64::MIN as int <= a as int <= i64::MAX as int,
                i64::MIN as int <= b as int <= i64::MAX as int,
        ;
    }
    let p: i128 = a as i128 * b as i128;
    let q: i128 = p / (d as i128);
    clip128(q)
}

/// Truncating division cannot grow past a bound on the quotient:
/// `|a| <= b * d` gives `|a / d| <= b`.
pub proof fn lemma_tdiv_bound(a: int, d: int, b: int)
    requires
        d > 0,
        b >= 0,
        -(b * d) <= a <= b * d,
    ensures
        -b <= tdiv(a, d) <= b,
{
    if a >= 0 {
        vstd::arithmetic::div_mod::lemma_div_is_ordered(a, b * d, d);
        vstd::arithmetic::div_mod::lemma_div_by_multiple(b, d);
        vstd::arithmetic::div_mod::lemma_div_pos_is_pos(a, d);
    } else {
        vstd::arithmetic::div_mod::lemma_div_is_ordered(-a, b * d, d);
        vstd::arithmetic::div_mod::lemma_div_by_multiple(b, d);
        vstd::arithmetic::div_mod::lemma_div_pos_is_pos(-a, d);
    }
}

/// Truncating division recovers an exact multiple: `(m * d) / d == m`.
pub proof fn lemma_tdiv_exact(m: int, d: int)
    requires
        d > 0,
    ensures
        tdiv(m * d, d) == m,
{
    if m >= 0 {
        vstd::arithmetic::div_mod::lemma_div_by_multiple(m, d);
    } else {
        vstd::arithmetic::div_mod::lemma_div_by_multiple(-m, d);
        assert(-(m * d) == (-m) * d) by (nonlinear_arith);
    }
}

/// The integer square root: the greatest `r` with `r * r <= n`.
pub open spec fn sqrt_floor(n: nat) -> nat
    decreases n,
{
    if n == 0 {
        0
    } else {
        let r = sqrt_floor((n - 1) as nat);
        if (r + 1) * (r + 1) <= n {
            r + 1
        } else {
            r
        }
    }
}

/// `sqrt_floor(n)` squares to at most `n`, and is the greatest such value.
pub proof fn lemma_sqrt_floor_bounds(n: nat)
    ensures
        sqrt_floor(n) * sqrt_floor(n) <= n,
        n < (sqrt_floor(n) + 1) * (sqrt_floor(n) + 1),
    decreases n,
{
    if n == 0 {
        assert(sqrt_floor(n) == 0);
        assert((sqrt_floor(n) + 1) * (sqrt_floor(n) + 1) == 1) by (nonlinear_arith)
            requires
                sqrt_floor(n) == 0,
        ;
    } else {
        lemma_sqrt_floor_bounds((n - 1) as nat);
        let r = sqrt_floor((n - 1) as nat);
        assert(sqrt_floor(n) == if (r + 1) * (r + 1) <= n {
            r + 1
        } else {
            r
        });
        if (r + 1) * (r + 1) <= n {
            assert(n == (r + 1) * (r + 1));
            assert((r + 1) * (r + 1) < (r + 2) * (r + 2)) by (nonlinear_arith)
                requires
                    r >= 0,
            ;
        } else {
        }
    }
}

/// Any `r` bracketed by the square bounds is the integer square root.
pub proof fn lemma_sqrt_floor_unique(n: nat, r: nat)
    requires
        r * r <= n,
        n < (r + 1) * (r + 1),
    ensures
        r == sqrt_floor(n),
{
    lemma_sqrt_floor_bounds(n);
    let s = sqrt_floor(n);
    if r < s {
        assert((r + 1) * (r + 1) <= s * s) by (nonlinear_arith)
            requires
                r + 1 <= s,
        ;
    } else if s < r {
        assert((s + 1) * (s + 1) <= r * r) by (nonlinear_arith)
            requires
                s + 1 <= r,
        ;
    }
}

/// Integer square root of a 128-bit value, by bisection.
pub fn isqrt_u128(n: u128) -> (r: u64)
    ensures
        r as nat == sqrt_floor(n as nat),
{
    if n == 0 {
        proof {
            assert((0nat + 1) * (0nat + 1) == 1) by (nonlinear_arith);
            lemma_sqrt_floor_unique(n as nat, 0);
        }
        return 0;
    }
    let mut lo: u128 = 0;
    let mut hi: u128 = 0x1_0000_0000_0000_0000;
    proof {
        assert((hi as int) * (hi as int) > n as int) by (nonlinear_arith)
            requires
                hi as int == 0x1_0000_0000_0000_0000int,
                n as int <= 0xffff_ffff_ffff_ffff_ffff_ffff_ffff_ffffint,
        ;
    }
    while lo + 1 < hi
        invariant
            0 <= lo < hi <= 0x1_0000_0000_0000_0000,
            (lo as int) * (lo as int) <= n as int,
            (hi as int) * (hi as int) > n as int,
        decreases hi - lo,
    {
        let mid: u128 = lo + (hi - lo) / 2;
        proof {
            assert((mid as int) * (mid as int) < 0x1_0000_0000_0000_0000_0000_0000_0000_0000int) by (nonlinear_arith)
                requires
                    0 <= (mid as int) && (mid as int) < 0x1_0000_0000_0000_0000int,
            ;
        }
        if mid * mid <= n {
            lo = mid;
        } else {
            hi = mid;
        }
    }
    proof {
        lemma_sqrt_floor_unique(n as nat, lo as nat);
    }
    lo as u64
}

/// Clamp a fixed-point value into `[lo, hi]`.
pub fn clamp_i64(x: i64, lo: i64, hi: i64) -> (r: i64)
    ensures
        r as int == clamp_val(x as int, lo as int, hi as int),
{
    if x < lo {
        lo
    } else if x > hi {
        hi
    } else {
        x
    }
}

} // verus!
