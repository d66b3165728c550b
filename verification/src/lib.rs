//! Word-cloud layout: places weighted text labels inside a fixed canvas so
//! that no two rotated label boxes overlap and every placed box stays inside
//! the canvas.
//!
//! All geometry is carried out in fixed-point arithmetic: lengths and
//! coordinates are `i64` values in thousandths of a canvas pixel, angles are
//! `i64` values in milliradians.

use vstd::prelude::*;

pub mod engine;
pub mod geom;
pub mod grid;
pub mod rng;
pub mod spiral;
pub mod sizing;
pub mod trig;
pub mod units;

verus! {

/// Truncating fixed-point division by the scale, toward zero.
pub open spec fn spec_div_scale(n: int) -> int {
    if n >= 0 {
        n / (units::SCALE as int)
    } else {
        -((-n) / (units::SCALE as int))
    }
}

/// Divides a scaled product back down by the scale, truncating toward zero.
pub fn div_scale(n: i64) -> (q: i64)
    requires
        -0x4000_0000_0000_0000 <= n <= 0x4000_0000_0000_0000,
    ensures
        q == spec_div_scale(n as int),
{
    if n >= 0 {
        n / units::SCALE
    } else {
        -((-n) / units::SCALE)
    }
}

} // verus!
