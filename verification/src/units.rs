//! Fixed-point units and the tuning constants of the layout algorithm.
//!
//! Lengths and coordinates are `i64` values in `SCALE`-ths of a canvas pixel
//! ("milli-pixels"); angles are `i64` values in `SCALE`-ths of a radian
//! (milliradians).

use vstd::prelude::*;

verus! {

/// Fixed-point sub-units per canvas pixel and per radian.
pub const SCALE: i64 = 1000;

/// Side of an occupancy-grid cell, in canvas pixels.
pub const CELL_PX: u32 = 4;

/// Side of an occupancy-grid cell, in milli-pixels.
pub const CELL_FP: i64 = 4000;

/// Largest accepted canvas width or height, in pixels. Keeps every grid
/// index and every coordinate product inside the machine integer range.
pub const CANVAS_MAX_PX: u32 = 65_000;

/// Largest accepted font size, in milli-pixels (10 000 pixels).
pub const SIZE_MAX_FP: i64 = 10_000_000;

/// Largest accepted label length, in characters. Keeps the estimated label
/// width inside the fixed-point range.
pub const TEXT_LEN_MAX: usize = 1_000_000;

/// Largest accepted rotation range, in milliradians.
pub const ROTATION_RANGE_MAX_FP: i64 = 1_000_000_000_000;

/// Pi, half pi and two pi in milliradians.
pub const PI_FP: i64 = 3142;

pub const HALF_PI_FP: i64 = 1571;

pub const TWO_PI_FP: i64 = 6284;

/// Candidate positions probed per label before it is given up.
pub const MAX_ATTEMPTS: u32 = 1000;

/// Radius (milli-pixels) and angle (milliradians) growth per spiral step.
pub const SPIRAL_STEP_FP: i64 = 100;

/// Angle advance per step of the rectangular spiral, in milliradians.
pub const RECT_DT_FP: i64 = 2000;

/// Largest estimated label width or height, in milli-pixels:
/// `SIZE_MAX_FP * 6 * TEXT_LEN_MAX / 10`.
pub const DIM_MAX_FP: i64 = 6_000_000_000_000;

} // verus!
