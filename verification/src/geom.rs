//! Rotated-rectangle geometry: corners, axis-aligned bounds, canvas
//! containment, overlap, and the mapping of bounds to occupancy-grid cells.

use vstd::prelude::*;
use crate::spec_div_scale;
use crate::div_scale;
use crate::trig;
use crate::units;
use vstd::math::abs;

verus! {

/// Axis-aligned bounds of a rotated rectangle, in milli-pixels.
/// Spec-level only; the executable side passes the four values as a tuple.
pub struct BoxFp {
    pub x0: int,
    pub y0: int,
    pub x1: int,
    pub y1: int,
}

pub open spec fn min2(a: int, b: int) -> int {
    if a <= b {
        a
    } else {
        b
    }
}

pub open spec fn max2(a: int, b: int) -> int {
    if a <= b {
        b
    } else {
        a
    }
}

/// The x coordinate of a corner `(cx, cy)` rotated by an angle of cosine `c`
/// and sine `s` (both `SCALE`-scaled).
pub open spec fn spec_rot_x(cx: int, cy: int, c: int, s: int) -> int {
    spec_div_scale(cx * c - cy * s)
}

/// The y coordinate of the rotated corner.
pub open spec fn spec_rot_y(cx: int, cy: int, c: int, s: int) -> int {
    spec_div_scale(cx * s + cy * c)
}

/// Axis-aligned bounds of a `w` by `h` rectangle centered at `(x, y)` and
/// rotated by `rot` milliradians: the min/max over the four rotated corners.
pub open spec fn spec_bbox(x: int, y: int, w: int, h: int, rot: int) -> BoxFp {
    let c = trig::spec_cos_fp(rot);
    let s = trig::spec_sin_fp(rot);
    let hw = w / 2;
    let hh = h / 2;
    let xa = spec_rot_x(-hw, -hh, c, s);
    let xb = spec_rot_x(hw, -hh, c, s);
    let xc = spec_rot_x(hw, hh, c, s);
    let xd = spec_rot_x(-hw, hh, c, s);
    let ya = spec_rot_y(-hw, -hh, c, s);
    let yb = spec_rot_y(hw, -hh, c, s);
    let yc = spec_rot_y(hw, hh, c, s);
    let yd = spec_rot_y(-hw, hh, c, s);
    BoxFp {
        x0: x + min2(min2(xa, xb), min2(xc, xd)),
        y0: y + min2(min2(ya, yb), min2(yc, yd)),
        x1: x + max2(max2(xa, xb), max2(xc, xd)),
        y1: y + max2(max2(ya, yb), max2(yc, yd)),
    }
}

/// The bounds lie inside the canvas `[0, width_px] x [0, height_px]`
/// (canvas given in pixels, bounds in milli-pixels).
pub open spec fn box_in_canvas(b: BoxFp, width_px: int, height_px: int) -> bool {
    &&& 0 <= b.x0
    &&& b.x1 <= width_px * (units::SCALE as int)
    &&& 0 <= b.y0
    &&& b.y1 <= height_px * (units::SCALE as int)
}

/// Two bounds rectangles share at least one point.
pub open spec fn boxes_overlap(a: BoxFp, b: BoxFp) -> bool {
    &&& a.x0 <= b.x1
    &&& b.x0 <= a.x1
    &&& a.y0 <= b.y1
    &&& b.y0 <= a.y1
}

/// The bounds cover grid cell `(i, j)`: the cell-index ranges of the box
/// include it.
pub open spec fn covers_cell(b: BoxFp, i: int, j: int) -> bool {
    &&& b.x0 / (units::CELL_FP as int) <= i <= b.x1 / (units::CELL_FP as int)
    &&& b.y0 / (units::CELL_FP as int) <= j <= b.y1 / (units::CELL_FP as int)
}

/// A fixed-point quotient is no larger in magnitude than a bound on the
/// numerator, divided by the scale.
proof fn lemma_div_scale_bound(n: int, b: int)
    requires
        0 <= b,
        -(b * (units::SCALE as int)) <= n <= b * (units::SCALE as int),
    ensures
        -b <= spec_div_scale(n) <= b,
{
    if n >= 0 {
        vstd::arithmetic::div_mod::lemma_div_is_ordered(n, b * (units::SCALE as int),
            units::SCALE as int);
        vstd::arithmetic::div_mod::lemma_div_multiples_vanish(b, units::SCALE as int);
        vstd::arithmetic::div_mod::lemma_div_is_ordered(0, n, units::SCALE as int);
        assert((b * (units::SCALE as int)) / (units::SCALE as int) == b) by {
            vstd::arithmetic::mul::lemma_mul_is_commutative(b, units::SCALE as int);
        }
    } else {
        vstd::arithmetic::div_mod::lemma_div_is_ordered(-n, b * (units::SCALE as int),
            units::SCALE as int);
        vstd::arithmetic::div_mod::lemma_div_multiples_vanish(b, units::SCALE as int);
        vstd::arithmetic::div_mod::lemma_div_is_ordered(0, -n, units::SCALE as int);
        assert((b * (units::SCALE as int)) / (units::SCALE as int) == b) by {
            vstd::arithmetic::mul::lemma_mul_is_commutative(b, units::SCALE as int);
        }
    }
}

/// Rotates a corner `(cx, cy)` by the `SCALE`-scaled cosine and sine.
fn rot_point(cx: i64, cy: i64, c: i64, s: i64) -> (p: (i64, i64))
    requires
        -units::DIM_MAX_FP <= cx <= units::DIM_MAX_FP,
        -units::DIM_MAX_FP <= cy <= units::DIM_MAX_FP,
        -units::SCALE <= c <= units::SCALE,
        -units::SCALE <= s <= units::SCALE,
    ensures
        p.0 == spec_rot_x(cx as int, cy as int, c as int, s as int),
        p.1 == spec_rot_y(cx as int, cy as int, c as int, s as int),
        -(abs(cx as int) + abs(cy as int)) <= p.0 <= abs(cx as int) + abs(cy as int),
        -(abs(cx as int) + abs(cy as int)) <= p.1 <= abs(cx as int) + abs(cy as int),
{
    proof {
        assert(-(6_000_000_000_000 * 1000) <= cx * c <= 6_000_000_000_000 * 1000
            && -(abs(cx as int) * 1000) <= cx * c <= abs(cx as int) * 1000 && -(6_000_000_000_000 * 1000) <= cy
            * s <= 6_000_000_000_000 * 1000 && -(abs(cy as int) * 1000) <= cy * s <= abs(cy as int) * 1000 && -(
        6_000_000_000_000 * 1000) <= cx * s <= 6_000_000_000_000 * 1000 && -(abs(cx as int) * 1000) <= cx
            * s <= abs(cx as int) * 1000 && -(6_000_000_000_000 * 1000) <= cy * c <= 6_000_000_000_000
            * 1000 && -(abs(cy as int) * 1000) <= cy * c <= abs(cy as int) * 1000) by (nonlinear_arith)
            requires
                -6_000_000_000_000 <= cx <= 6_000_000_000_000,
                -6_000_000_000_000 <= cy <= 6_000_000_000_000,
                -1000 <= c <= 1000,
                -1000 <= s <= 1000,
        ;
        lemma_div_scale_bound(cx * c - cy * s, (abs(cx as int) + abs(cy as int)) as int);
        lemma_div_scale_bound(cx * s + cy * c, (abs(cx as int) + abs(cy as int)) as int);
    }
    let px = div_scale(cx * c - cy * s);
    let py = div_scale(cx * s + cy * c);
    (px, py)
}

/// Computes the axis-aligned bounds of the rotated rectangle. Returns
/// `(x0, y0, x1, y1)` in milli-pixels.
pub fn compute_bbox(x: i64, y: i64, w: i64, h: i64, rot: i64) -> (b: (i64, i64, i64, i64))
    requires
        -100_000_000 <= x <= 100_000_000,
        -100_000_000 <= y <= 100_000_000,
        0 <= w <= units::DIM_MAX_FP,
        0 <= h <= units::DIM_MAX_FP,
    ensures
        b.0 == spec_bbox(x as int, y as int, w as int, h as int, rot as int).x0,
        b.1 == spec_bbox(x as int, y as int, w as int, h as int, rot as int).y0,
        b.2 == spec_bbox(x as int, y as int, w as int, h as int, rot as int).x1,
        b.3 == spec_bbox(x as int, y as int, w as int, h as int, rot as int).y1,
        x - (w / 2 + h / 2) <= b.0 <= b.2 <= x + (w / 2 + h / 2),
        y - (w / 2 + h / 2) <= b.1 <= b.3 <= y + (w / 2 + h / 2),
{
    let c = trig::cos_fp(rot);
    let s = trig::sin_fp(rot);
    let hw = w / 2;
    let hh = h / 2;
    let pa = rot_point(-hw, -hh, c, s);
    let pb = rot_point(hw, -hh, c, s);
    let pc = rot_point(hw, hh, c, s);
    let pd = rot_point(-hw, hh, c, s);
    let min_x = min4(pa.0, pb.0, pc.0, pd.0);
    let max_x = max4(pa.0, pb.0, pc.0, pd.0);
    let min_y = min4(pa.1, pb.1, pc.1, pd.1);
    let max_y = max4(pa.1, pb.1, pc.1, pd.1);
    (x + min_x, y + min_y, x + max_x, y + max_y)
}

fn min4(a: i64, b: i64, c: i64, d: i64) -> (m: i64)
    ensures
        m == min2(min2(a as int, b as int), min2(c as int, d as int)),
{
    let ab = if a <= b {
        a
    } else {
        b
    };
    let cd = if c <= d {
        c
    } else {
        d
    };
    if ab <= cd {
        ab
    } else {
        cd
    }
}

fn max4(a: i64, b: i64, c: i64, d: i64) -> (m: i64)
    ensures
        m == max2(max2(a as int, b as int), max2(c as int, d as int)),
{
    let ab = if a <= b {
        b
    } else {
        a
    };
    let cd = if c <= d {
        d
    } else {
        c
    };
    if ab <= cd {
        cd
    } else {
        ab
    }
}

/// The bounds are ordered: the minimum over the corners is at most the
/// maximum.
pub proof fn lemma_bbox_ordered(x: int, y: int, w: int, h: int, rot: int)
    ensures
        spec_bbox(x, y, w, h, rot).x0 <= spec_bbox(x, y, w, h, rot).x1,
        spec_bbox(x, y, w, h, rot).y0 <= spec_bbox(x, y, w, h, rot).y1,
{
}

/// Overlapping in-canvas boxes cover a common grid cell: the cell index map
/// is monotone, so a shared point maps to a shared cell.
pub proof fn lemma_overlap_shares_cell(a: BoxFp, b: BoxFp)
    requires
        a.x0 <= a.x1 && a.y0 <= a.y1,
        b.x0 <= b.x1 && b.y0 <= b.y1,
        0 <= a.x0 && 0 <= a.y0,
        0 <= b.x0 && 0 <= b.y0,
        boxes_overlap(a, b),
    ensures
        exists|i: int, j: int| covers_cell(a, i, j) && covers_cell(b, i, j),
{
    let px = max2(a.x0, b.x0);
    let py = max2(a.y0, b.y0);
    let i = px / (units::CELL_FP as int);
    let j = py / (units::CELL_FP as int);
    vstd::arithmetic::div_mod::lemma_div_is_ordered(a.x0, px, units::CELL_FP as int);
    vstd::arithmetic::div_mod::lemma_div_is_ordered(b.x0, px, units::CELL_FP as int);
    vstd::arithmetic::div_mod::lemma_div_is_ordered(px, a.x1, units::CELL_FP as int);
    vstd::arithmetic::div_mod::lemma_div_is_ordered(px, b.x1, units::CELL_FP as int);
    vstd::arithmetic::div_mod::lemma_div_is_ordered(a.y0, py, units::CELL_FP as int);
    vstd::arithmetic::div_mod::lemma_div_is_ordered(b.y0, py, units::CELL_FP as int);
    vstd::arithmetic::div_mod::lemma_div_is_ordered(py, a.y1, units::CELL_FP as int);
    vstd::arithmetic::div_mod::lemma_div_is_ordered(py, b.y1, units::CELL_FP as int);
    assert(covers_cell(a, i, j) && covers_cell(b, i, j));
}

/// An in-canvas coordinate maps to a cell index inside the grid: at most
/// `limit_px / CELL_PX`.
pub proof fn lemma_cell_index_in_grid(v: int, limit_px: int)
    requires
        0 <= v <= limit_px * (units::SCALE as int),
        0 <= limit_px,
    ensures
        0 <= v / (units::CELL_FP as int) <= limit_px / (units::CELL_PX as int),
{
    let q = limit_px / (units::CELL_PX as int);
    let r = limit_px % (units::CELL_PX as int);
    vstd::arithmetic::div_mod::lemma_fundamental_div_mod(limit_px, units::CELL_PX as int);
    assert(limit_px * 1000 == 4000 * q + 1000 * r) by (nonlinear_arith)
        requires
            limit_px == 4 * q + r,
    ;
    assert((4000 * q + 1000 * r) / 4000 == q) by {
        vstd::arithmetic::div_mod::lemma_div_multiples_vanish_fancy(q, 1000 * r, 4000);
    }
    vstd::arithmetic::div_mod::lemma_div_is_ordered(v, limit_px * 1000, units::CELL_FP as int);
    vstd::arithmetic::div_mod::lemma_div_is_ordered(0, v, units::CELL_FP as int);
}

} // verus!
