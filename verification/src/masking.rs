//! Psychovisual masking helpers.
//!
//! The masking response curves themselves are floating-point lookup tables;
//! verified here is the exact arithmetic around them: the dead-zone
//! subtraction and amplification applied to channel differences, and the
//! index clamping that every table lookup goes through (negative indices
//! clamp to the first entry, indices beyond the end to the last).

use vstd::prelude::*;

verus! {

/// Largest magnitude accepted by the dead-zone helpers; keeps the doubled
/// and shifted results within `i64`.
pub const RANGE_BOUND: i64 = 0x2000_0000_0000_0000;

/// Subtraction of a dead zone of half-width `w` around zero.
pub open spec fn remove_range_spec(w: int, x: int) -> int {
    if x > w {
        x - w
    } else if x < -w {
        x + w
    } else {
        0
    }
}

/// Amplification around the same zone: doubled inside, widened by `w` outside.
pub open spec fn amplify_range_spec(w: int, x: int) -> int {
    if x > w {
        x + w
    } else if x < -w {
        x - w
    } else {
        2 * x
    }
}

/// Subtracts a dead zone of half-width `w` from `x`: differences within the
/// zone vanish, larger ones shrink by `w` toward zero, and the sign is kept.
pub fn remove_range_around_zero(w: i64, x: i64) -> (r: i64)
    requires
        0 <= w <= RANGE_BOUND,
        -RANGE_BOUND <= x <= RANGE_BOUND,
    ensures
        r == remove_range_spec(w as int, x as int),
        r == 0 <==> -w <= x <= w,
        x >= 0 ==> 0 <= r <= x,
        x <= 0 ==> x <= r <= 0,
{
    if x > w {
        x - w
    } else if x < -w {
        x + w
    } else {
        0
    }
}

/// Widens the response outside the `w` zone by `w` and doubles it inside,
/// so the magnitude never shrinks and the sign is kept.
pub fn amplify_range_around_zero(w: i64, x: i64) -> (r: i64)
    requires
        0 <= w <= RANGE_BOUND,
        -RANGE_BOUND <= x <= RANGE_BOUND,
    ensures
        r == amplify_range_spec(w as int, x as int),
        -w <= x <= w ==> r == 2 * x,
        x > w ==> r == x + w,
        x < -w ==> r == x - w,
        x >= 0 ==> r >= x,
        x <= 0 ==> r <= x,
{
    if x > w {
        x + w
    } else if x < -w {
        x - w
    } else {
        2 * x
    }
}

/// Clamps a lookup index into a table of `size` entries: negative indices map
/// to the first entry, indices at or beyond the last entry to the last, and
/// in-range indices to themselves.
pub fn lut_index_clamp(ix: i64, size: usize) -> (r: usize)
    requires
        1 <= size,
        size <= 0x7fff_ffff_ffff_ffff,
    ensures
        r < size,
        ix <= 0 ==> r == 0,
        ix >= size - 1 ==> r == size - 1,
        0 <= ix < size ==> r == ix,
{
    if ix <= 0 {
        0
    } else if ix >= (size - 1) as i64 {
        size - 1
    } else {
        ix as usize
    }
}

} // verus!
