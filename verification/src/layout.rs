//! Angular placement of newly expanded children: angular slots evenly
//! divided among siblings, on a ring around the parent.
//!
//! The sine is a rational approximation (exact at 0, 90 and 180 degrees,
//! within about half a percent elsewhere), which keeps the whole layout in
//! integer arithmetic. Results are in permille of the radius.

use vstd::prelude::*;
use crate::math::{lemma_tdiv_le, tdiv};

verus! {

/// Rational approximation of `1000 * sin(d degrees)` for `d` in `[0, 180]`.
pub open spec fn half_sine_milli(d: int) -> int {
    (4000 * d * (180 - d)) / (40500 - d * (180 - d))
}

/// `1000 * sin(d degrees)` for `d` in `[0, 360]`.
pub open spec fn sine_milli(d: int) -> int {
    if d <= 180 {
        half_sine_milli(d)
    } else {
        -half_sine_milli(d - 180)
    }
}

/// `1000 * cos(d degrees)` for `d` in `[0, 360]`.
pub open spec fn cosine_milli(d: int) -> int {
    sine_milli((d + 90) % 360)
}

/// The product `d * (180 - d)` stays within `[0, 8100]` on `[0, 180]`.
proof fn lemma_arch_bound(d: int)
    requires
        0 <= d <= 180,
    ensures
        0 <= d * (180 - d) <= 8100,
{
    assert(0 <= d * (180 - d) <= 8100) by (nonlinear_arith)
        requires
            0 <= d <= 180,
    ;
}

/// Compute `1000 * sin(d degrees)`, within `[-1000, 1000]`.
pub fn sine_milli_of(d: u64) -> (r: i64)
    requires
        d <= 360,
    ensures
        r == sine_milli(d as int),
        -1000 <= r <= 1000,
{
    let (dd, neg) = if d <= 180 {
        (d, false)
    } else {
        (d - 180, true)
    };
    proof {
        lemma_arch_bound(dd as int);
    }
    let q = (dd as i64) * (180 - dd as i64);
    proof {
        assert(4000 * ((dd as int) * (180 - dd as int)) == 4000 * (dd as int) * (180 - dd
            as int)) by (nonlinear_arith);
    }
    let num = 4000 * q;
    let den = 40500 - q;
    let v = ((num as u64) / (den as u64)) as i64;
    proof {
        vstd::arithmetic::div_mod::lemma_div_is_ordered(num as int, 1000 * den as int, den as int);
        vstd::arithmetic::div_mod::lemma_div_by_multiple(1000, den as int);
        vstd::arithmetic::div_mod::lemma_div_pos_is_pos(num as int, den as int);
    }
    if neg {
        -v
    } else {
        v
    }
}

/// Compute `1000 * cos(d degrees)`, within `[-1000, 1000]`.
pub fn cosine_milli_of(d: u64) -> (r: i64)
    requires
        d <= 360,
    ensures
        r == cosine_milli(d as int),
        -1000 <= r <= 1000,
{
    let shifted = (d + 90) % 360;
    sine_milli_of(shifted)
}

/// The angular slot of child `k` among `n` siblings, in degrees.
pub open spec fn slot_degrees(k: int, n: int) -> int {
    k * 360 / n
}

/// Compute the slot angle; for `k < n` it lies in `[0, 360)`.
pub fn slot_degrees_of(k: usize, n: usize) -> (r: u64)
    requires
        0 < n,
        k < n,
        n <= 0x1000_0000,
    ensures
        r == slot_degrees(k as int, n as int),
        r < 360,
{
    let num = (k as u64) * 360;
    let r = num / (n as u64);
    proof {
        assert((k as int) * 360 <= ((n as int) - 1) * 360) by (nonlinear_arith)
            requires
                k as int <= n as int - 1,
        ;
        assert(((n as int) - 1) * 360 < (n as int) * 360) by (nonlinear_arith)
            requires
                0 < n as int,
        ;
        vstd::arithmetic::div_mod::lemma_multiply_divide_lt(
            (k as int) * 360,
            n as int,
            360,
        );
    }
    r
}

} // verus!
