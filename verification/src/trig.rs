//! Fixed-point sine and cosine in milliradians.
//!
//! The values are a parabolic approximation of the trigonometric functions,
//! exact enough to drive the spiral search and the corner rotation. They are
//! pure functions of the angle, so every layout run traces the same path.

use vstd::prelude::*;
use crate::units;

verus! {

/// Reduces an angle in milliradians to the window `[-PI_FP, PI_FP]`.
pub open spec fn spec_reduce(t: int) -> int {
    let m = if t >= 0 {
        t % (units::TWO_PI_FP as int)
    } else {
        units::TWO_PI_FP - 1 - ((-(t + 1)) % (units::TWO_PI_FP as int))
    };
    if m > units::PI_FP {
        m - units::TWO_PI_FP
    } else {
        m
    }
}

/// Parabolic sine on the reduced window: `4 m (PI_FP - m)` scaled, odd-extended.
pub open spec fn spec_sin_window(m: int) -> int {
    if m >= 0 {
        4 * (m * (units::PI_FP - m)) * (units::SCALE as int) / (units::PI_FP * units::PI_FP)
    } else {
        -(4 * ((-m) * (units::PI_FP + m)) * (units::SCALE as int) / (units::PI_FP * units::PI_FP))
    }
}

/// Sine of an angle in milliradians, scaled by `SCALE`.
pub open spec fn spec_sin_fp(t: int) -> int {
    spec_sin_window(spec_reduce(t))
}

/// Cosine of an angle in milliradians, scaled by `SCALE`: the sine shifted
/// a quarter turn.
pub open spec fn spec_cos_fp(t: int) -> int {
    let m = spec_reduce(t);
    let s = if m + units::HALF_PI_FP > units::PI_FP {
        m + units::HALF_PI_FP - units::TWO_PI_FP
    } else {
        m + units::HALF_PI_FP
    };
    spec_sin_window(s)
}

pub fn reduce(t: i64) -> (m: i64)
    ensures
        m == spec_reduce(t as int),
        -units::PI_FP <= m <= units::PI_FP,
{
    let r: i64 = if t >= 0 {
        t % units::TWO_PI_FP
    } else {
        units::TWO_PI_FP - 1 - ((-(t + 1)) % units::TWO_PI_FP)
    };
    if r > units::PI_FP {
        r - units::TWO_PI_FP
    } else {
        r
    }
}

/// The parabola value is at most `SCALE` in magnitude.
proof fn lemma_window_product_bounds(m: int)
    requires
        0 <= m <= units::PI_FP,
    ensures
        0 <= m * (units::PI_FP - m),
        m * (units::PI_FP - m) <= units::HALF_PI_FP * units::HALF_PI_FP,
{
    assert(0 <= m * (3142 - m) && m * (3142 - m) <= 1571 * 1571) by (nonlinear_arith)
        requires
            0 <= m <= 3142,
    ;
}

fn sin_window(m: i64) -> (s: i64)
    requires
        -units::PI_FP <= m <= units::PI_FP,
    ensures
        s == spec_sin_window(m as int),
        -units::SCALE <= s <= units::SCALE,
{
    if m >= 0 {
        proof {
            lemma_window_product_bounds(m as int);
        }
        let p: i64 = m * (units::PI_FP - m);
        let num: i64 = 4 * p * units::SCALE;
        num / (units::PI_FP * units::PI_FP)
    } else {
        proof {
            lemma_window_product_bounds(-m as int);
        }
        let p: i64 = (-m) * (units::PI_FP + m);
        let num: i64 = 4 * p * units::SCALE;
        -(num / (units::PI_FP * units::PI_FP))
    }
}

/// Fixed-point sine: `SCALE`-scaled, within `[-SCALE, SCALE]`.
pub fn sin_fp(t: i64) -> (s: i64)
    ensures
        s == spec_sin_fp(t as int),
        -units::SCALE <= s <= units::SCALE,
{
    let m = reduce(t);
    sin_window(m)
}

/// Fixed-point cosine: `SCALE`-scaled, within `[-SCALE, SCALE]`.
pub fn cos_fp(t: i64) -> (c: i64)
    ensures
        c == spec_cos_fp(t as int),
        -units::SCALE <= c <= units::SCALE,
{
    let m = reduce(t);
    let s = if m + units::HALF_PI_FP > units::PI_FP {
        m + units::HALF_PI_FP - units::TWO_PI_FP
    } else {
        m + units::HALF_PI_FP
    };
    sin_window(s)
}

} // verus!
