//! Fixed-point helpers: truncating signed division, clamping, and an exact
//! integer square root. The simulation's arithmetic is built from these.

use vstd::prelude::*;

verus! {

/// Truncating (round-toward-zero) division, the semantics of Rust's `/` on
/// signed integers, stated over mathematical integers. `d` must be positive.
pub open spec fn tdiv(n: int, d: int) -> int
    recommends
        d > 0,
{
    if n >= 0 {
        n / d
    } else {
        -((-n) / d)
    }
}

/// Clamp `v` into the closed interval `[lo, hi]`.
pub open spec fn clamp_spec(v: int, lo: int, hi: int) -> int
    recommends
        lo <= hi,
{
    if v < lo {
        lo
    } else if v > hi {
        hi
    } else {
        v
    }
}

pub fn clamp64(v: i64, lo: i64, hi: i64) -> (r: i64)
    requires
        lo <= hi,
    ensures
        r == clamp_spec(v as int, lo as int, hi as int),
        lo <= r <= hi,
{
    if v < lo {
        lo
    } else if v > hi {
        hi
    } else {
        v
    }
}

/// Truncating division of an `i128` by a positive divisor, computed through
/// unsigned division so that every arithmetic step is visibly in range.
pub fn tdiv128(n: i128, d: i128) -> (r: i128)
    requires
        d > 0,
        n > i128::MIN,
    ensures
        r == tdiv(n as int, d as int),
        n >= 0 ==> 0 <= r <= n,
        n < 0 ==> n <= r <= 0,
{
    if n >= 0 {
        let q = (n as u128) / (d as u128);
        proof {
            vstd::arithmetic::div_mod::lemma_div_is_ordered_by_denominator(
                n as int,
                1,
                d as int,
            );
        }
        q as i128
    } else {
        let m = -n;
        let q = (m as u128) / (d as u128);
        proof {
            vstd::arithmetic::div_mod::lemma_div_is_ordered_by_denominator(
                m as int,
                1,
                d as int,
            );
        }
        -(q as i128)
    }
}

/// `(a * b) / d` with truncation, the scaled multiply at the heart of the
/// fixed-point force and velocity updates.
pub open spec fn muldiv(a: int, b: int, d: int) -> int
    recommends
        d > 0,
{
    tdiv(a * b, d)
}

pub fn muldiv64(a: i64, b: i64, d: i64) -> (r: i64)
    requires
        d > 0,
        -0x2000_0000_0000_0000 <= a as int * b as int <= 0x2000_0000_0000_0000,
    ensures
        r == muldiv(a as int, b as int, d as int),
        -0x2000_0000_0000_0000 <= r <= 0x2000_0000_0000_0000,
{
    let p: i128 = (a as i128) * (b as i128);
    let q = tdiv128(p, d as i128);
    q as i64
}

/// The floor of the square root, as a mathematical function.
pub open spec fn sqrt_floor(n: int) -> int {
    choose|r: int| #![trigger r * r] 0 <= r && r * r <= n && n < (r + 1) * (r + 1)
}

/// Any witness of the square-root property is `sqrt_floor`.
pub proof fn lemma_sqrt_floor_unique(n: int, r: int)
    requires
        0 <= r,
        r * r <= n,
        n < (r + 1) * (r + 1),
    ensures
        sqrt_floor(n) == r,
{
    assert(exists|q: int| #![trigger q * q] 0 <= q && q * q <= n && n < (q + 1) * (q + 1));
    let q = sqrt_floor(n);
    assert(0 <= q && q * q <= n && n < (q + 1) * (q + 1));
    if q < r {
        lemma_sq_le(q + 1, r);
        assert(false);
    }
    if r < q {
        lemma_sq_le(r + 1, q);
        assert(false);
    }
}

/// Floor of the square root: `r * r <= x < (r + 1) * (r + 1)`.
pub fn isqrt(x: u128) -> (r: u64)
    ensures
        (r as int) * (r as int) <= x as int,
        (x as int) < (r as int + 1) * (r as int + 1),
        r as int == sqrt_floor(x as int),
{
    let mut lo: u64 = 0;
    let mut hi: u64 = u64::MAX;
    proof {
        assert((u64::MAX as int + 1) * (u64::MAX as int + 1) > u128::MAX as int)
            by (nonlinear_arith);
    }
    while lo < hi
        invariant
            (lo as int) * (lo as int) <= x as int,
            (x as int) < (hi as int + 1) * (hi as int + 1),
            lo <= hi,
        decreases hi - lo,
    {
        let mid = ((lo as u128 + hi as u128 + 1) / 2) as u64;
        proof {
            lemma_sq_le(mid as int, u64::MAX as int);
            assert((u64::MAX as int) * (u64::MAX as int) < u128::MAX as int)
                by (nonlinear_arith);
        }
        let sq = (mid as u128) * (mid as u128);
        if sq <= x {
            lo = mid;
        } else {
            hi = mid - 1;
        }
    }
    proof {
        lemma_sqrt_floor_unique(x as int, lo as int);
    }
    lo
}

/// A maximum of two integers.
pub open spec fn max2(a: int, b: int) -> int {
    if a >= b {
        a
    } else {
        b
    }
}

/// A truncating quotient is bounded once the dividend is bounded by a
/// multiple of the divisor: `|n| <= b * d` gives `|n / d| <= b`.
pub proof fn lemma_tdiv_le(n: int, d: int, b: int)
    requires
        d > 0,
        b >= 0,
        -(b * d) <= n <= b * d,
    ensures
        -b <= tdiv(n, d) <= b,
{
    if n >= 0 {
        vstd::arithmetic::div_mod::lemma_div_is_ordered(n, b * d, d);
        vstd::arithmetic::div_mod::lemma_div_by_multiple(b, d);
        vstd::arithmetic::div_mod::lemma_div_pos_is_pos(n, d);
    } else {
        vstd::arithmetic::div_mod::lemma_div_is_ordered(-n, b * d, d);
        vstd::arithmetic::div_mod::lemma_div_by_multiple(b, d);
        vstd::arithmetic::div_mod::lemma_div_pos_is_pos(-n, d);
    }
}

/// Multiplication keeps order when the right factor is non-negative.
pub proof fn lemma_mul_le(a: int, b: int, c: int)
    requires
        a <= b,
        c >= 0,
    ensures
        a * c <= b * c,
{
    assert(a * c <= b * c) by (nonlinear_arith)
        requires
            a <= b,
            c >= 0,
    ;
}

/// Squares respect order on non-negative integers.
pub proof fn lemma_sq_le(a: int, b: int)
    requires
        0 <= a <= b,
    ensures
        a * a <= b * b,
{
    assert(a * a <= b * b) by (nonlinear_arith)
        requires
            0 <= a <= b,
    ;
}

/// A bound on a number gives a bound on its square.
pub proof fn lemma_sq_bound(a: int, b: int)
    requires
        -b <= a <= b,
    ensures
        0 <= a * a <= b * b,
{
    assert(0 <= a * a <= b * b) by (nonlinear_arith)
        requires
            -b <= a <= b,
    ;
}

/// The floor square root of a sum of squares is at least each side's
/// absolute value: `|a| <= isqrt(a*a + b*b)`.
pub proof fn lemma_isqrt_component(a: int, t: int, r: int)
    requires
        a * a <= t,
        r >= 0,
        t < (r + 1) * (r + 1),
    ensures
        a <= r,
        -a <= r,
{
    if a > r {
        lemma_sq_le(r + 1, a);
        assert(false);
    }
    if -a > r {
        lemma_sq_le(r + 1, -a);
        assert((-a) * (-a) == a * a) by (nonlinear_arith);
        assert(false);
    }
}

} // verus!
