//! Expanding-spiral candidate offsets.
//!
//! A path yields a deterministic, restartable sequence of `(dx, dy)` offsets
//! from an anchor. Both kinds start at radius and angle zero, so the first
//! offset is always `(0, 0)`: the anchor itself is the first candidate.

use vstd::prelude::*;
use crate::spec_div_scale;
use crate::div_scale;
use crate::trig;
use crate::units;

verus! {

#[derive(Clone, Copy, PartialEq, Eq, Structural, Debug)]
pub enum SpiralKind {
    Archimedean,
    Rectangular,
}

/// Angle advance per step, in milliradians.
pub open spec fn spec_dt(kind: SpiralKind) -> int {
    match kind {
        SpiralKind::Archimedean => units::SPIRAL_STEP_FP as int,
        SpiralKind::Rectangular => units::RECT_DT_FP as int,
    }
}

/// Sign factor: -1 for negative values, else 1.
pub open spec fn spec_sign(v: int) -> int {
    if v < 0 {
        -1
    } else {
        1
    }
}

/// The offset produced at step `n` (counting from zero). The radius at step
/// `n` is `SPIRAL_STEP_FP * n` and the angle is `spec_dt(kind) * n`.
///
/// - Archimedean: `(a cos t, a sin t)`, radius and angle growing together.
/// - Rectangular: the radius scaled by the sign of the cosine or sine,
///   horizontal-dominant and vertical-dominant steps alternating with the
///   parity of `t / dt`, tracing an expanding square.
pub open spec fn spec_offset(kind: SpiralKind, n: int) -> (int, int) {
    let a = (units::SPIRAL_STEP_FP as int) * n;
    let t = spec_dt(kind) * n;
    match kind {
        SpiralKind::Archimedean => (
            spec_div_scale(a * trig::spec_cos_fp(t)),
            spec_div_scale(a * trig::spec_sin_fp(t)),
        ),
        SpiralKind::Rectangular => {
            let k = t / (units::RECT_DT_FP as int);
            if k % 2 == 0 {
                (spec_sign(trig::spec_cos_fp(t)) * a, spec_sign(trig::spec_sin_fp(t)) * a)
            } else {
                (spec_sign(trig::spec_sin_fp(t)) * a, spec_sign(trig::spec_cos_fp(t)) * a)
            }
        },
    }
}

/// Step zero of either kind offsets by nothing: the first candidate of a
/// fresh path is the anchor itself.
pub proof fn lemma_offset_zero(kind: SpiralKind)
    ensures
        spec_offset(kind, 0) == (0int, 0int),
{
    vstd::arithmetic::div_mod::lemma_div_of0(units::SCALE as int);
    assert((units::SPIRAL_STEP_FP as int) * 0 == 0);
    assert(spec_dt(kind) * 0 == 0);
    match kind {
        SpiralKind::Archimedean => {
            assert(0 * trig::spec_cos_fp(0) == 0) by (nonlinear_arith);
            assert(0 * trig::spec_sin_fp(0) == 0) by (nonlinear_arith);
        },
        SpiralKind::Rectangular => {
            assert(spec_sign(trig::spec_cos_fp(0)) * 0 == 0) by (nonlinear_arith);
            assert(spec_sign(trig::spec_sin_fp(0)) * 0 == 0) by (nonlinear_arith);
        },
    }
}

/// The candidate offsets are a function of the spiral kind and the step
/// index alone: two paths of the same kind trace the same sequence.
pub proof fn lemma_spiral_deterministic(p: SpiralPath, q: SpiralPath, n: int)
    requires
        p.spec_kind() == q.spec_kind(),
    ensures
        spec_offset(p.spec_kind(), n) == spec_offset(q.spec_kind(), n),
{
}

pub struct SpiralPath {
    kind: SpiralKind,
    steps: u32,
    radius: i64,
    angle: i64,
}

impl SpiralPath {
    pub closed spec fn wf(self) -> bool {
        &&& self.steps <= units::MAX_ATTEMPTS
        &&& self.radius == (units::SPIRAL_STEP_FP as int) * (self.steps as int)
        &&& self.angle == spec_dt(self.kind) * (self.steps as int)
    }

    pub closed spec fn spec_kind(self) -> SpiralKind {
        self.kind
    }

    pub closed spec fn spec_steps(self) -> int {
        self.steps as int
    }

    /// A fresh path at radius and angle zero.
    pub fn new(kind: SpiralKind) -> (p: SpiralPath)
        ensures
            p.wf(),
            p.spec_kind() == kind,
            p.spec_steps() == 0,
    {
        SpiralPath { kind, steps: 0, radius: 0, angle: 0 }
    }

    /// Yields the offset of the current step and advances the path.
    pub fn next(&mut self) -> (offset: (i64, i64))
        requires
            old(self).wf(),
            old(self).spec_steps() < units::MAX_ATTEMPTS,
        ensures
            final(self).wf(),
            final(self).spec_kind() == old(self).spec_kind(),
            final(self).spec_steps() == old(self).spec_steps() + 1,
            (offset.0 as int, offset.1 as int) == spec_offset(old(self).spec_kind(),
                old(self).spec_steps()),
            -100_000 <= offset.0 <= 100_000,
            -100_000 <= offset.1 <= 100_000,
    {
        let a = self.radius;
        let t = self.angle;
        let offset: (i64, i64) = match self.kind {
            SpiralKind::Archimedean => {
                let c = trig::cos_fp(t);
                let s = trig::sin_fp(t);
                proof {
                    assert(-(100_000 * 1000) <= a * c <= 100_000 * 1000 && -(100_000 * 1000) <= a
                        * s <= 100_000 * 1000) by (nonlinear_arith)
                        requires
                            0 <= a <= 100_000,
                            -1000 <= c <= 1000,
                            -1000 <= s <= 1000,
                    ;
                    lemma_div_scale_small(a * c);
                    lemma_div_scale_small(a * s);
                }
                (div_scale(a * c), div_scale(a * s))
            },
            SpiralKind::Rectangular => {
                let c = trig::cos_fp(t);
                let s = trig::sin_fp(t);
                let k = t / units::RECT_DT_FP;
                let horiz: i64 = if c < 0 {
                    -a
                } else {
                    a
                };
                let vert: i64 = if s < 0 {
                    -a
                } else {
                    a
                };
                if k % 2 == 0 {
                    (horiz, vert)
                } else {
                    (vert, horiz)
                }
            },
        };
        let dt: i64 = match self.kind {
            SpiralKind::Archimedean => units::SPIRAL_STEP_FP,
            SpiralKind::Rectangular => units::RECT_DT_FP,
        };
        proof {
            let n = self.steps as int;
            vstd::arithmetic::mul::lemma_mul_is_distributive_add(spec_dt(self.kind), n, 1);
            vstd::arithmetic::mul::lemma_mul_is_distributive_add(units::SPIRAL_STEP_FP as int, n,
                1);
            if self.kind == SpiralKind::Archimedean {
                assert(self.angle == 100 * n);
            } else {
                assert(self.angle == 2000 * n);
            }
        }
        self.radius = self.radius + units::SPIRAL_STEP_FP;
        self.angle = self.angle + dt;
        self.steps = self.steps + 1;
        offset
    }
}

/// A scaled product of a radius at most 100 000 stays within that radius
/// after the fixed-point division.
proof fn lemma_div_scale_small(n: int)
    requires
        -(100_000 * 1000) <= n <= 100_000 * 1000,
    ensures
        -100_000 <= spec_div_scale(n) <= 100_000,
{
    if n >= 0 {
        vstd::arithmetic::div_mod::lemma_div_is_ordered(n, 100_000int * 1000, units::SCALE as int);
        vstd::arithmetic::div_mod::lemma_div_is_ordered(0, n, units::SCALE as int);
    } else {
        vstd::arithmetic::div_mod::lemma_div_is_ordered(-n, 100_000int * 1000, units::SCALE as int);
        vstd::arithmetic::div_mod::lemma_div_is_ordered(0, -n, units::SCALE as int);
    }
}

} // verus!
