//! Weight-to-size interpolation and the crude label extent estimate.

use vstd::prelude::*;
use crate::units;

verus! {

/// Linear interpolation of a font size from a weight. A uniform-weight batch
/// (`min_w == max_w`) takes the largest size by policy, not the midpoint.
pub open spec fn spec_map_size(
    weight: int,
    min_w: int,
    max_w: int,
    min_size: int,
    max_size: int,
) -> int {
    if min_w == max_w {
        max_size
    } else {
        min_size + (weight - min_w) * (max_size - min_size) / (max_w - min_w)
    }
}

/// Estimated width of a label: six tenths of the size per character.
pub open spec fn spec_estimate_width(size: int, chars: int) -> int {
    size * 6 * chars / 10
}

/// Maps a weight to a font size; the result stays inside `[min_size, max_size]`
/// for a weight inside `[min_w, max_w]`.
pub fn map_size(weight: i64, min_w: i64, max_w: i64, min_size: i64, max_size: i64) -> (size: i64)
    requires
        min_w <= weight <= max_w,
        0 < min_size <= max_size <= units::SIZE_MAX_FP,
    ensures
        size == spec_map_size(weight as int, min_w as int, max_w as int, min_size as int,
            max_size as int),
        min_size <= size <= max_size,
{
    if min_w == max_w {
        max_size
    } else {
        proof {
            assert(0 <= (weight - min_w) * ((max_size - min_size) as int) <= 0x4_0000_0000_0000_0000
                * 10_000_000) by (nonlinear_arith)
                requires
                    0 <= weight - min_w <= 0x4_0000_0000_0000_0000,
                    0 <= max_size - min_size <= 10_000_000,
            ;
        }
        let num: i128 = (weight as i128 - min_w as i128) * ((max_size - min_size) as i128);
        let den: i128 = max_w as i128 - min_w as i128;
        proof {
            lemma_interpolation_bounds(weight as int, min_w as int, max_w as int,
                (max_size - min_size) as int);
        }
        let q: i128 = num / den;
        min_size + (q as i64)
    }
}

/// The interpolated offset stays within `[0, span]` for an in-range weight.
proof fn lemma_interpolation_bounds(weight: int, min_w: int, max_w: int, span: int)
    requires
        min_w <= weight <= max_w,
        min_w < max_w,
        0 <= span,
    ensures
        0 <= (weight - min_w) * span / (max_w - min_w) <= span,
{
    let num = (weight - min_w) * span;
    let den = max_w - min_w;
    assert(0 <= num <= den * span) by (nonlinear_arith)
        requires
            0 <= weight - min_w <= den,
            0 <= span,
            num == (weight - min_w) * span,
    ;
    assert(num / den <= (den * span) / den) by {
        vstd::arithmetic::div_mod::lemma_div_is_ordered(num, den * span, den);
    }
    assert((den * span) / den == span) by {
        vstd::arithmetic::div_mod::lemma_div_multiples_vanish(span, den);
    }
    assert(0 <= num / den) by {
        vstd::arithmetic::div_mod::lemma_div_is_ordered(0, num, den);
    }
}

/// Estimated extent of a label of `chars` characters at `size`:
/// width `size * 0.6 * chars`, height `size`.
pub fn estimate_box(chars: usize, size: i64) -> (dims: (i64, i64))
    requires
        chars <= units::TEXT_LEN_MAX,
        0 < size <= units::SIZE_MAX_FP,
    ensures
        dims.0 == spec_estimate_width(size as int, chars as int),
        dims.1 == size,
        0 <= dims.0 <= units::DIM_MAX_FP,
        0 < dims.1 <= units::DIM_MAX_FP,
{
    let c: i64 = chars as i64;
    proof {
        assert(0 <= (size * 6) * c <= 6_000_000_000_000_0) by (nonlinear_arith)
            requires
                0 < size <= 10_000_000,
                0 <= c <= 1_000_000,
        ;
    }
    let w: i64 = size * 6 * c / 10;
    (w, size)
}

} // verus!
