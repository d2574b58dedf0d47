//! Directional structural-difference ("Malta") filters.
//!
//! Each filter variant probes the 9x9 window around a pixel with sixteen fixed
//! geometric line patterns (horizontal, vertical, diagonals and broken
//! diagonals), sums the window samples along each pattern and accumulates the
//! square of every such sum.  The dense variant reads up to nine taps per
//! pattern, the low-frequency variant five.  This module holds the pattern
//! tables, the window indexing they induce, integer evaluators of both
//! variants, and the proof that the response depends only on the samples the
//! window presents - the filters are translation-invariant.

use vstd::prelude::*;

verus! {

/// Number of directional patterns in each filter variant.
pub const MALTA_PATTERN_COUNT: usize = 16;

/// Largest sample magnitude the integer evaluators accept; it keeps every
/// pattern sum and the total of their squares within `i64`.
pub const MALTA_SAMPLE_BOUND: i64 = 100000;

/// Tap `t` of pattern `p`, as a `(dx, dy)` offset from the centre pixel;
/// `lf` selects the sparse low-frequency variant over the dense one.
/// A pattern index outside the tables maps to the centre tap; a tap index
/// beyond a pattern's count repeats its last tap.
pub open spec fn malta_tap(lf: bool, p: int, t: int) -> (int, int) {
    if lf {
        if p == 0 {
            if t == 0 { (-4, 0) } else if t == 1 { (-2, 0) } else if t == 2 { (0, 0) } else if t == 3 { (2, 0) } else { (4, 0) }
        } else if p == 1 {
            if t == 0 { (0, -4) } else if t == 1 { (0, -2) } else if t == 2 { (0, 0) } else if t == 3 { (0, 2) } else { (0, 4) }
        } else if p == 2 {
            if t == 0 { (-3, -3) } else if t == 1 { (-2, -2) } else if t == 2 { (0, 0) } else if t == 3 { (2, 2) } else { (3, 3) }
        } else if p == 3 {
            if t == 0 { (3, -3) } else if t == 1 { (2, -2) } else if t == 2 { (0, 0) } else if t == 3 { (-2, 2) } else { (-3, 3) }
        } else if p == 4 {
            if t == 0 { (1, -4) } else if t == 1 { (1, -2) } else if t == 2 { (0, 0) } else if t == 3 { (-1, 2) } else { (-1, 4) }
        } else if p == 5 {
            if t == 0 { (-1, -4) } else if t == 1 { (-1, -2) } else if t == 2 { (0, 0) } else if t == 3 { (1, 2) } else { (1, 4) }
        } else if p == 6 {
            if t == 0 { (-4, -1) } else if t == 1 { (-2, -1) } else if t == 2 { (0, 0) } else if t == 3 { (2, 1) } else { (4, 1) }
        } else if p == 7 {
            if t == 0 { (-4, 1) } else if t == 1 { (-2, 1) } else if t == 2 { (0, 0) } else if t == 3 { (2, -1) } else { (4, -1) }
        } else if p == 8 {
            if t == 0 { (-2, -3) } else if t == 1 { (-1, -2) } else if t == 2 { (0, 0) } else if t == 3 { (1, 2) } else { (2, 3) }
        } else if p == 9 {
            if t == 0 { (2, -3) } else if t == 1 { (1, -2) } else if t == 2 { (0, 0) } else if t == 3 { (-1, 2) } else { (-2, 3) }
        } else if p == 10 {
            if t == 0 { (-3, -2) } else if t == 1 { (-2, -1) } else if t == 2 { (0, 0) } else if t == 3 { (2, 1) } else { (3, 2) }
        } else if p == 11 {
            if t == 0 { (3, -2) } else if t == 1 { (2, -1) } else if t == 2 { (0, 0) } else if t == 3 { (-2, 1) } else { (-3, 2) }
        } else if p == 12 {
            if t == 0 { (-4, 2) } else if t == 1 { (-2, 1) } else if t == 2 { (0, 0) } else if t == 3 { (2, -1) } else { (4, -2) }
        } else if p == 13 {
            if t == 0 { (-4, -2) } else if t == 1 { (-2, -1) } else if t == 2 { (0, 0) } else if t == 3 { (2, 1) } else { (4, 2) }
        } else if p == 14 {
            if t == 0 { (-2, -4) } else if t == 1 { (-1, -2) } else if t == 2 { (0, 0) } else if t == 3 { (1, 2) } else { (2, 4) }
        } else if p == 15 {
            if t == 0 { (2, -4) } else if t == 1 { (1, -2) } else if t == 2 { (0, 0) } else if t == 3 { (-1, 2) } else { (-2, 4) }
        } else {
            (0, 0)
        }
    } else {
        if p == 0 {
            if t == 0 { (-4, 0) } else if t == 1 { (-3, 0) } else if t == 2 { (-2, 0) } else if t == 3 { (-1, 0) } else if t == 4 { (0, 0) } else if t == 5 { (1, 0) } else if t == 6 { (2, 0) } else if t == 7 { (3, 0) } else { (4, 0) }
        } else if p == 1 {
            if t == 0 { (0, -4) } else if t == 1 { (0, -3) } else if t == 2 { (0, -2) } else if t == 3 { (0, -1) } else if t == 4 { (0, 0) } else if t == 5 { (0, 1) } else if t == 6 { (0, 2) } else if t == 7 { (0, 3) } else { (0, 4) }
        } else if p == 2 {
            if t == 0 { (-3, -3) } else if t == 1 { (-2, -2) } else if t == 2 { (-1, -1) } else if t == 3 { (0, 0) } else if t == 4 { (1, 1) } else if t == 5 { (2, 2) } else { (3, 3) }
        } else if p == 3 {
            if t == 0 { (3, -3) } else if t == 1 { (2, -2) } else if t == 2 { (1, -1) } else if t == 3 { (0, 0) } else if t == 4 { (-1, 1) } else if t == 5 { (-2, 2) } else { (-3, 3) }
        } else if p == 4 {
            if t == 0 { (1, -4) } else if t == 1 { (1, -3) } else if t == 2 { (1, -2) } else if t == 3 { (0, -1) } else if t == 4 { (0, 0) } else if t == 5 { (0, 1) } else if t == 6 { (-1, 2) } else if t == 7 { (-1, 3) } else { (-1, 4) }
        } else if p == 5 {
            if t == 0 { (-1, -4) } else if t == 1 { (-1, -3) } else if t == 2 { (-1, -2) } else if t == 3 { (0, -1) } else if t == 4 { (0, 0) } else if t == 5 { (0, 1) } else if t == 6 { (1, 2) } else if t == 7 { (1, 3) } else { (1, 4) }
        } else if p == 6 {
            if t == 0 { (-4, -1) } else if t == 1 { (-3, -1) } else if t == 2 { (-2, -1) } else if t == 3 { (-1, 0) } else if t == 4 { (0, 0) } else if t == 5 { (1, 0) } else if t == 6 { (2, 1) } else if t == 7 { (3, 1) } else { (4, 1) }
        } else if p == 7 {
            if t == 0 { (-4, 1) } else if t == 1 { (-3, 1) } else if t == 2 { (-2, 1) } else if t == 3 { (-1, 0) } else if t == 4 { (0, 0) } else if t == 5 { (1, 0) } else if t == 6 { (2, -1) } else if t == 7 { (3, -1) } else { (4, -1) }
        } else if p == 8 {
            if t == 0 { (-2, -3) } else if t == 1 { (-1, -2) } else if t == 2 { (-1, -1) } else if t == 3 { (0, 0) } else if t == 4 { (1, 1) } else if t == 5 { (1, 2) } else { (2, 3) }
        } else if p == 9 {
            if t == 0 { (2, -3) } else if t == 1 { (1, -2) } else if t == 2 { (1, -1) } else if t == 3 { (0, 0) } else if t == 4 { (-1, 1) } else if t == 5 { (-1, 2) } else { (-2, 3) }
        } else if p == 10 {
            if t == 0 { (-3, -2) } else if t == 1 { (-2, -1) } else if t == 2 { (-1, -1) } else if t == 3 { (0, 0) } else if t == 4 { (1, 1) } else if t == 5 { (2, 1) } else { (3, 2) }
        } else if p == 11 {
            if t == 0 { (3, -2) } else if t == 1 { (2, -1) } else if t == 2 { (1, -1) } else if t == 3 { (0, 0) } else if t == 4 { (-1, 1) } else if t == 5 { (-2, 1) } else { (-3, 2) }
        } else if p == 12 {
            if t == 0 { (-4, 2) } else if t == 1 { (-3, 2) } else if t == 2 { (-2, 1) } else if t == 3 { (-1, 1) } else if t == 4 { (0, 0) } else if t == 5 { (1, 0) } else if t == 6 { (2, -1) } else { (3, -1) }
        } else if p == 13 {
            if t == 0 { (-4, -2) } else if t == 1 { (-3, -2) } else if t == 2 { (-2, -1) } else if t == 3 { (-1, -1) } else if t == 4 { (0, 0) } else if t == 5 { (1, 0) } else if t == 6 { (2, 1) } else { (3, 1) }
        } else if p == 14 {
            if t == 0 { (-2, -4) } else if t == 1 { (-2, -3) } else if t == 2 { (-1, -2) } else if t == 3 { (-1, -1) } else if t == 4 { (0, 0) } else if t == 5 { (0, 1) } else if t == 6 { (1, 2) } else { (1, 3) }
        } else if p == 15 {
            if t == 0 { (2, -4) } else if t == 1 { (2, -3) } else if t == 2 { (1, -2) } else if t == 3 { (1, -1) } else if t == 4 { (0, 0) } else if t == 5 { (0, 1) } else if t == 6 { (-1, 2) } else { (-1, 3) }
        } else {
            (0, 0)
        }
    }
}

/// Number of taps in pattern `p` of a variant: five in the low-frequency
/// variant, between seven and nine in the dense one.
pub open spec fn malta_tap_count(lf: bool, p: int) -> int {
    if lf {
        5
    } else {
        if p == 0 { 9 } else if p == 1 { 9 } else if p == 2 { 7 } else if p == 3 { 7 } else if p == 4 { 9 } else if p == 5 { 9 } else if p == 6 { 9 } else if p == 7 { 9 } else if p == 8 { 7 } else if p == 9 { 7 } else if p == 10 { 7 } else if p == 11 { 7 } else if p == 12 { 8 } else if p == 13 { 8 } else if p == 14 { 8 } else { 8 }
    }
}

/// Every tap of every pattern stays within the 9x9 window around the centre.
pub proof fn lemma_malta_tap_in_window(lf: bool, p: int, t: int)
    ensures
        -4 <= malta_tap(lf, p, t).0 <= 4,
        -4 <= malta_tap(lf, p, t).1 <= 4,
{
}

/// Row-major index of the sample one tap away from the centre `(x, y)`.
pub open spec fn tap_index(xsize: int, x: int, y: int, tap: (int, int)) -> int {
    (y + tap.1) * xsize + (x + tap.0)
}

/// The sample `(dx, dy)` away from the centre `(x, y)`.
pub open spec fn window_sample(img: Seq<int>, xsize: int, x: int, y: int, dx: int, dy: int) -> int {
    img[tap_index(xsize, x, y, (dx, dy))]
}

/// A centre at least four pixels away from every edge, so that the whole
/// 9x9 window lies inside the plane.
pub open spec fn interior(xsize: int, ysize: int, x: int, y: int) -> bool {
    &&& 4 <= x && x + 4 < xsize
    &&& 4 <= y && y + 4 < ysize
}

/// Sum of the first `n` taps of pattern `p` read from `img` around `(x, y)`.
pub open spec fn pattern_sum(img: Seq<int>, xsize: int, x: int, y: int, lf: bool, p: int, n: int) -> int
    decreases n,
{
    if n <= 0 {
        0
    } else {
        pattern_sum(img, xsize, x, y, lf, p, n - 1) + img[tap_index(xsize, x, y, malta_tap(lf, p, n - 1))]
    }
}

/// Response of pattern `p`: the square of its full tap sum.
pub open spec fn pattern_response(img: Seq<int>, xsize: int, x: int, y: int, lf: bool, p: int) -> int {
    let s = pattern_sum(img, xsize, x, y, lf, p, malta_tap_count(lf, p));
    s * s
}

/// Total response of the first `p` patterns.
pub open spec fn malta_total_upto(img: Seq<int>, xsize: int, x: int, y: int, lf: bool, p: int) -> int
    decreases p,
{
    if p <= 0 {
        0
    } else {
        malta_total_upto(img, xsize, x, y, lf, p - 1) + pattern_response(img, xsize, x, y, lf, p - 1)
    }
}

/// The Malta unit at `(x, y)`: the summed squared response of all sixteen
/// directional patterns of one variant.
pub open spec fn malta_total(img: Seq<int>, xsize: int, x: int, y: int, lf: bool) -> int {
    malta_total_upto(img, xsize, x, y, lf, 16)
}

/// An `i64` sample buffer viewed as unbounded integers.
pub open spec fn sample_ints(s: Seq<i64>) -> Seq<int> {
    s.map_values(|v: i64| v as int)
}

fn pattern_tap_dense(p: usize, t: usize) -> (r: (i32, i32))
    ensures
        (r.0 as int, r.1 as int) == malta_tap(false, p as int, t as int),
{
    if p == 0 {
        if t == 0 { (-4, 0) } else if t == 1 { (-3, 0) } else if t == 2 { (-2, 0) } else if t == 3 { (-1, 0) } else if t == 4 { (0, 0) } else if t == 5 { (1, 0) } else if t == 6 { (2, 0) } else if t == 7 { (3, 0) } else { (4, 0) }
    } else if p == 1 {
        if t == 0 { (0, -4) } else if t == 1 { (0, -3) } else if t == 2 { (0, -2) } else if t == 3 { (0, -1) } else if t == 4 { (0, 0) } else if t == 5 { (0, 1) } else if t == 6 { (0, 2) } else if t == 7 { (0, 3) } else { (0, 4) }
    } else if p == 2 {
        if t == 0 { (-3, -3) } else if t == 1 { (-2, -2) } else if t == 2 { (-1, -1) } else if t == 3 { (0, 0) } else if t == 4 { (1, 1) } else if t == 5 { (2, 2) } else { (3, 3) }
    } else if p == 3 {
        if t == 0 { (3, -3) } else if t == 1 { (2, -2) } else if t == 2 { (1, -1) } else if t == 3 { (0, 0) } else if t == 4 { (-1, 1) } else if t == 5 { (-2, 2) } else { (-3, 3) }
    } else if p == 4 {
        if t == 0 { (1, -4) } else if t == 1 { (1, -3) } else if t == 2 { (1, -2) } else if t == 3 { (0, -1) } else if t == 4 { (0, 0) } else if t == 5 { (0, 1) } else if t == 6 { (-1, 2) } else if t == 7 { (-1, 3) } else { (-1, 4) }
    } else if p == 5 {
        if t == 0 { (-1, -4) } else if t == 1 { (-1, -3) } else if t == 2 { (-1, -2) } else if t == 3 { (0, -1) } else if t == 4 { (0, 0) } else if t == 5 { (0, 1) } else if t == 6 { (1, 2) } else if t == 7 { (1, 3) } else { (1, 4) }
    } else if p == 6 {
        if t == 0 { (-4, -1) } else if t == 1 { (-3, -1) } else if t == 2 { (-2, -1) } else if t == 3 { (-1, 0) } else if t == 4 { (0, 0) } else if t == 5 { (1, 0) } else if t == 6 { (2, 1) } else if t == 7 { (3, 1) } else { (4, 1) }
    } else if p == 7 {
        if t == 0 { (-4, 1) } else if t == 1 { (-3, 1) } else if t == 2 { (-2, 1) } else if t == 3 { (-1, 0) } else if t == 4 { (0, 0) } else if t == 5 { (1, 0) } else if t == 6 { (2, -1) } else if t == 7 { (3, -1) } else { (4, -1) }
    } else if p == 8 {
        if t == 0 { (-2, -3) } else if t == 1 { (-1, -2) } else if t == 2 { (-1, -1) } else if t == 3 { (0, 0) } else if t == 4 { (1, 1) } else if t == 5 { (1, 2) } else { (2, 3) }
    } else if p == 9 {
        if t == 0 { (2, -3) } else if t == 1 { (1, -2) } else if t == 2 { (1, -1) } else if t == 3 { (0, 0) } else if t == 4 { (-1, 1) } else if t == 5 { (-1, 2) } else { (-2, 3) }
    } else if p == 10 {
        if t == 0 { (-3, -2) } else if t == 1 { (-2, -1) } else if t == 2 { (-1, -1) } else if t == 3 { (0, 0) } else if t == 4 { (1, 1) } else if t == 5 { (2, 1) } else { (3, 2) }
    } else if p == 11 {
        if t == 0 { (3, -2) } else if t == 1 { (2, -1) } else if t == 2 { (1, -1) } else if t == 3 { (0, 0) } else if t == 4 { (-1, 1) } else if t == 5 { (-2, 1) } else { (-3, 2) }
    } else if p == 12 {
        if t == 0 { (-4, 2) } else if t == 1 { (-3, 2) } else if t == 2 { (-2, 1) } else if t == 3 { (-1, 1) } else if t == 4 { (0, 0) } else if t == 5 { (1, 0) } else if t == 6 { (2, -1) } else { (3, -1) }
    } else if p == 13 {
        if t == 0 { (-4, -2) } else if t == 1 { (-3, -2) } else if t == 2 { (-2, -1) } else if t == 3 { (-1, -1) } else if t == 4 { (0, 0) } else if t == 5 { (1, 0) } else if t == 6 { (2, 1) } else { (3, 1) }
    } else if p == 14 {
        if t == 0 { (-2, -4) } else if t == 1 { (-2, -3) } else if t == 2 { (-1, -2) } else if t == 3 { (-1, -1) } else if t == 4 { (0, 0) } else if t == 5 { (0, 1) } else if t == 6 { (1, 2) } else { (1, 3) }
    } else if p == 15 {
        if t == 0 { (2, -4) } else if t == 1 { (2, -3) } else if t == 2 { (1, -2) } else if t == 3 { (1, -1) } else if t == 4 { (0, 0) } else if t == 5 { (0, 1) } else if t == 6 { (-1, 2) } else { (-1, 3) }
    } else {
        (0, 0)
    }
}

fn pattern_tap_lf(p: usize, t: usize) -> (r: (i32, i32))
    ensures
        (r.0 as int, r.1 as int) == malta_tap(true, p as int, t as int),
{
    if p == 0 {
        if t == 0 { (-4, 0) } else if t == 1 { (-2, 0) } else if t == 2 { (0, 0) } else if t == 3 { (2, 0) } else { (4, 0) }
    } else if p == 1 {
        if t == 0 { (0, -4) } else if t == 1 { (0, -2) } else if t == 2 { (0, 0) } else if t == 3 { (0, 2) } else { (0, 4) }
    } else if p == 2 {
        if t == 0 { (-3, -3) } else if t == 1 { (-2, -2) } else if t == 2 { (0, 0) } else if t == 3 { (2, 2) } else { (3, 3) }
    } else if p == 3 {
        if t == 0 { (3, -3) } else if t == 1 { (2, -2) } else if t == 2 { (0, 0) } else if t == 3 { (-2, 2) } else { (-3, 3) }
    } else if p == 4 {
        if t == 0 { (1, -4) } else if t == 1 { (1, -2) } else if t == 2 { (0, 0) } else if t == 3 { (-1, 2) } else { (-1, 4) }
    } else if p == 5 {
        if t == 0 { (-1, -4) } else if t == 1 { (-1, -2) } else if t == 2 { (0, 0) } else if t == 3 { (1, 2) } else { (1, 4) }
    } else if p == 6 {
        if t == 0 { (-4, -1) } else if t == 1 { (-2, -1) } else if t == 2 { (0, 0) } else if t == 3 { (2, 1) } else { (4, 1) }
    } else if p == 7 {
        if t == 0 { (-4, 1) } else if t == 1 { (-2, 1) } else if t == 2 { (0, 0) } else if t == 3 { (2, -1) } else { (4, -1) }
    } else if p == 8 {
        if t == 0 { (-2, -3) } else if t == 1 { (-1, -2) } else if t == 2 { (0, 0) } else if t == 3 { (1, 2) } else { (2, 3) }
    } else if p == 9 {
        if t == 0 { (2, -3) } else if t == 1 { (1, -2) } else if t == 2 { (0, 0) } else if t == 3 { (-1, 2) } else { (-2, 3) }
    } else if p == 10 {
        if t == 0 { (-3, -2) } else if t == 1 { (-2, -1) } else if t == 2 { (0, 0) } else if t == 3 { (2, 1) } else { (3, 2) }
    } else if p == 11 {
        if t == 0 { (3, -2) } else if t == 1 { (2, -1) } else if t == 2 { (0, 0) } else if t == 3 { (-2, 1) } else { (-3, 2) }
    } else if p == 12 {
        if t == 0 { (-4, 2) } else if t == 1 { (-2, 1) } else if t == 2 { (0, 0) } else if t == 3 { (2, -1) } else { (4, -2) }
    } else if p == 13 {
        if t == 0 { (-4, -2) } else if t == 1 { (-2, -1) } else if t == 2 { (0, 0) } else if t == 3 { (2, 1) } else { (4, 2) }
    } else if p == 14 {
        if t == 0 { (-2, -4) } else if t == 1 { (-1, -2) } else if t == 2 { (0, 0) } else if t == 3 { (1, 2) } else { (2, 4) }
    } else if p == 15 {
        if t == 0 { (2, -4) } else if t == 1 { (1, -2) } else if t == 2 { (0, 0) } else if t == 3 { (-1, 2) } else { (-2, 4) }
    } else {
        (0, 0)
    }
}

/// Tap `t` of pattern `p` as executable data; mirrors [`malta_tap`].
pub fn pattern_tap(lf: bool, p: usize, t: usize) -> (r: (i32, i32))
    ensures
        (r.0 as int, r.1 as int) == malta_tap(lf, p as int, t as int),
{
    if lf {
        pattern_tap_lf(p, t)
    } else {
        pattern_tap_dense(p, t)
    }
}

/// Number of taps in pattern `p` as executable data; mirrors
/// [`malta_tap_count`].
pub fn pattern_tap_count(lf: bool, p: usize) -> (r: usize)
    requires
        p < 16,
    ensures
        r as int == malta_tap_count(lf, p as int),
        1 <= r <= 9,
{
    if lf {
        5
    } else {
        if p == 0 { 9 } else if p == 1 { 9 } else if p == 2 { 7 } else if p == 3 { 7 } else if p == 4 { 9 } else if p == 5 { 9 } else if p == 6 { 9 } else if p == 7 { 9 } else if p == 8 { 7 } else if p == 9 { 7 } else if p == 10 { 7 } else if p == 11 { 7 } else if p == 12 { 8 } else if p == 13 { 8 } else if p == 14 { 8 } else { 8 }
    }
}

/// Row-major index of the sample `(dx, dy)` away from the centre `(x, y)`;
/// in bounds whenever the centre is interior.
pub fn window_index(xsize: usize, ysize: usize, x: usize, y: usize, dx: i32, dy: i32) -> (r: usize)
    requires
        interior(xsize as int, ysize as int, x as int, y as int),
        -4 <= dx <= 4,
        -4 <= dy <= 4,
        xsize * ysize <= usize::MAX,
    ensures
        r == tap_index(xsize as int, x as int, y as int, (dx as int, dy as int)),
        r < xsize * ysize,
{
    let ax: usize = if dx < 0 { x - ((-dx) as usize) } else { x + (dx as usize) };
    let ay: usize = if dy < 0 { y - ((-dy) as usize) } else { y + (dy as usize) };
    proof {
        assert(ay as int == y as int + dy as int && ax as int == x as int + dx as int);
        assert((ay as int) * (xsize as int) + (ax as int) < (xsize as int) * (ysize as int))
            by (nonlinear_arith)
            requires ax < xsize, ay < ysize;
        assert((y as int + dy as int) * (xsize as int) + (x as int + dx as int)
            == (ay as int) * (xsize as int) + (ax as int)) by (nonlinear_arith)
            requires ay as int == y as int + dy as int, ax as int == x as int + dx as int;
    }
    ay * xsize + ax
}

fn malta_sums(d: &Vec<i64>, xsize: usize, ysize: usize, x: usize, y: usize, lf: bool) -> (r: i64)
    requires
        d@.len() == xsize * ysize,
        interior(xsize as int, ysize as int, x as int, y as int),
        forall|i: int| 0 <= i < d@.len() ==> -MALTA_SAMPLE_BOUND <= #[trigger] d@[i] <= MALTA_SAMPLE_BOUND,
    ensures
        r == malta_total(sample_ints(d@), xsize as int, x as int, y as int, lf),
        0 <= r,
{
    let n = d.len();
    let ghost img = sample_ints(d@);
    let mut total: i64 = 0;
    let mut p: usize = 0;
    while p < 16
        invariant
            p <= 16,
            n == d@.len(),
            d@.len() == xsize * ysize,
            interior(xsize as int, ysize as int, x as int, y as int),
            forall|i: int| 0 <= i < d@.len() ==> -MALTA_SAMPLE_BOUND <= #[trigger] d@[i] <= MALTA_SAMPLE_BOUND,
            img == sample_ints(d@),
            total == malta_total_upto(img, xsize as int, x as int, y as int, lf, p as int),
            0 <= total <= p as int * 810000000000,
        decreases 16 - p,
    {
        let count = pattern_tap_count(lf, p);
        let mut s: i64 = 0;
        let mut t: usize = 0;
        while t < count
            invariant
                t <= count,
                p < 16,
                count as int == malta_tap_count(lf, p as int),
                count <= 9,
                n == d@.len(),
                d@.len() == xsize * ysize,
                interior(xsize as int, ysize as int, x as int, y as int),
                forall|i: int| 0 <= i < d@.len() ==> -MALTA_SAMPLE_BOUND <= #[trigger] d@[i] <= MALTA_SAMPLE_BOUND,
                img == sample_ints(d@),
                s == pattern_sum(img, xsize as int, x as int, y as int, lf, p as int, t as int),
                -(t as int) * 100000 <= s <= (t as int) * 100000,
            decreases count - t,
        {
            let tap = pattern_tap(lf, p, t);
            proof {
                lemma_malta_tap_in_window(lf, p as int, t as int);
            }
            let idx = window_index(xsize, ysize, x, y, tap.0, tap.1);
            let v = d[idx];
            proof {
                assert(img[idx as int] == v as int);
            }
            s = s + v;
            t = t + 1;
        }
        proof {
            assert(0 <= s * s <= 810000000000) by (nonlinear_arith)
                requires -900000 <= s <= 900000;
        }
        let resp = s * s;
        total = total + resp;
        p = p + 1;
    }
    total
}

/// Sample of a row-major plane at `(x, y)`.
pub open spec fn plane_at(s: Seq<i64>, xsize: int, x: int, y: int) -> i64 {
    s[y * xsize + x]
}

/// What a finished Malta pass owes at every pixel processed so far, in row
/// order up to (but not including) column `x0` of row `y0`: an interior pixel
/// holds the unit's response, every other pixel holds zero.
pub open spec fn diffmap_done_upto(
    out: Seq<i64>,
    d: Seq<i64>,
    xsize: int,
    ysize: int,
    lf: bool,
    y0: int,
    x0: int,
) -> bool {
    forall|x: int, y: int| 0 <= x < xsize && 0 <= y < ysize
        ==> #[trigger] plane_at(out, xsize, x, y) as int == (
            if interior(xsize, ysize, x, y) && (y < y0 || (y == y0 && x < x0)) {
                malta_total(sample_ints(d), xsize, x, y, lf)
            } else {
                0
            }
        )
}

/// Distinct pixels of a plane have distinct row-major indices.
proof fn lemma_flat_index_injective(xsize: int, x1: int, y1: int, x2: int, y2: int)
    requires
        0 <= x1 < xsize,
        0 <= x2 < xsize,
        0 <= y1,
        0 <= y2,
        y1 * xsize + x1 == y2 * xsize + x2,
    ensures
        x1 == x2 && y1 == y2,
{
    assert(x1 == x2 && y1 == y2) by (nonlinear_arith)
        requires
            0 <= x1 < xsize,
            0 <= x2 < xsize,
            0 <= y1,
            0 <= y2,
            y1 * xsize + x1 == y2 * xsize + x2;
}

/// A plane of zeroes satisfies the pass's obligation before any pixel has
/// been processed.
proof fn lemma_zero_plane_done(out: Seq<i64>, d: Seq<i64>, xsize: int, ysize: int, lf: bool)
    requires
        out.len() == xsize * ysize,
        forall|j: int| 0 <= j < out.len() ==> #[trigger] out[j] == 0,
    ensures
        diffmap_done_upto(out, d, xsize, ysize, lf, 4, 4),
{
    assert forall|x: int, y: int| 0 <= x < xsize && 0 <= y < ysize
        implies #[trigger] plane_at(out, xsize, x, y) as int == (
            if interior(xsize, ysize, x, y) && (y < 4 || (y == 4 && x < 4)) {
                malta_total(sample_ints(d), xsize, x, y, lf)
            } else {
                0
            }
        ) by {
        assert(0 <= y * xsize + x < xsize * ysize) by (nonlinear_arith)
            requires 0 <= x < xsize, 0 <= y < ysize;
    }
}

/// One Malta pass over a whole plane of per-pixel differences: the unit of
/// the chosen variant is evaluated at every interior pixel; border pixels,
/// whose 9x9 window would leave the plane, carry no structural term and are
/// zero.
pub fn malta_diffmap(d: &Vec<i64>, xsize: usize, ysize: usize, lf: bool) -> (out: Vec<i64>)
    requires
        d@.len() == xsize * ysize,
        forall|i: int| 0 <= i < d@.len() ==> -MALTA_SAMPLE_BOUND <= #[trigger] d@[i] <= MALTA_SAMPLE_BOUND,
    ensures
        out@.len() == xsize * ysize,
        forall|x: int, y: int| 0 <= x < xsize && 0 <= y < ysize
            ==> #[trigger] plane_at(out@, xsize as int, x, y) as int == (
                if interior(xsize as int, ysize as int, x, y) {
                    malta_total(sample_ints(d@), xsize as int, x, y, lf)
                } else {
                    0
                }
            ),
{
    let n = d.len();
    let mut out: Vec<i64> = Vec::new();
    while out.len() < n
        invariant
            out@.len() <= n,
            n == d@.len(),
            forall|j: int| 0 <= j < out@.len() ==> #[trigger] out@[j] == 0,
        decreases n - out@.len(),
    {
        out.push(0);
    }
    proof {
        lemma_zero_plane_done(out@, d@, xsize as int, ysize as int, lf);
    }
    if xsize < 9 || ysize < 9 {
        return out;
    }
    let mut y: usize = 4;
    while y < ysize - 4
        invariant
            4 <= y <= ysize - 4,
            9 <= xsize,
            9 <= ysize,
            n == d@.len(),
            d@.len() == xsize * ysize,
            out@.len() == n,
            forall|i: int| 0 <= i < d@.len() ==> -MALTA_SAMPLE_BOUND <= #[trigger] d@[i] <= MALTA_SAMPLE_BOUND,
            diffmap_done_upto(out@, d@, xsize as int, ysize as int, lf, y as int, 4),
        decreases ysize - y,
    {
        let mut x: usize = 4;
        while x < xsize - 4
            invariant
                4 <= x <= xsize - 4,
                4 <= y < ysize - 4,
                9 <= xsize,
                9 <= ysize,
                n == d@.len(),
                d@.len() == xsize * ysize,
                out@.len() == n,
                forall|i: int| 0 <= i < d@.len() ==> -MALTA_SAMPLE_BOUND <= #[trigger] d@[i] <= MALTA_SAMPLE_BOUND,
                diffmap_done_upto(out@, d@, xsize as int, ysize as int, lf, y as int, x as int),
            decreases xsize - x,
        {
            let v = malta_sums(d, xsize, ysize, x, y, lf);
            proof {
                assert(((y as int) * (xsize as int) + x as int) < ((xsize as int) * (ysize as int)))
                    by (nonlinear_arith)
                    requires x < xsize, y < ysize;
            }
            let idx = y * xsize + x;
            let ghost out0 = out@;
            out.set(idx, v);
            proof {
                assert forall|xx: int, yy: int| 0 <= xx < xsize && 0 <= yy < ysize
                    implies #[trigger] plane_at(out@, xsize as int, xx, yy) as int == (
                        if interior(xsize as int, ysize as int, xx, yy)
                            && (yy < y as int || (yy == y as int && xx < x as int + 1)) {
                            malta_total(sample_ints(d@), xsize as int, xx, yy, lf)
                        } else {
                            0
                        }
                    ) by {
                    let flat = yy * (xsize as int) + xx;
                    assert(0 <= flat < ((xsize as int) * (ysize as int))) by (nonlinear_arith)
                        requires 0 <= xx < xsize, 0 <= yy < ysize, flat == yy * (xsize as int) + xx;
                    assert(plane_at(out0, xsize as int, xx, yy) as int == (
                        if interior(xsize as int, ysize as int, xx, yy)
                            && (yy < y as int || (yy == y as int && xx < x as int)) {
                            malta_total(sample_ints(d@), xsize as int, xx, yy, lf)
                        } else {
                            0
                        }
                    ));
                    if flat == idx as int {
                        lemma_flat_index_injective(xsize as int, xx, yy, x as int, y as int);
                    }
                }
            }
            x = x + 1;
        }
        y = y + 1;
    }
    out
}

/// Dense-variant Malta unit at `(x, y)` of a row-major `xsize * ysize` sample
/// plane: for each of the sixteen dense patterns, sums the samples along the
/// pattern and accumulates the square of that sum.
pub fn malta_unit(d: &Vec<i64>, xsize: usize, ysize: usize, x: usize, y: usize) -> (r: i64)
    requires
        d@.len() == xsize * ysize,
        interior(xsize as int, ysize as int, x as int, y as int),
        forall|i: int| 0 <= i < d@.len() ==> -MALTA_SAMPLE_BOUND <= #[trigger] d@[i] <= MALTA_SAMPLE_BOUND,
    ensures
        r == malta_total(sample_ints(d@), xsize as int, x as int, y as int, false),
        0 <= r,
{
    malta_sums(d, xsize, ysize, x, y, false)
}

/// Low-frequency-variant Malta unit at `(x, y)`; five taps per pattern.
pub fn malta_unit_lf(d: &Vec<i64>, xsize: usize, ysize: usize, x: usize, y: usize) -> (r: i64)
    requires
        d@.len() == xsize * ysize,
        interior(xsize as int, ysize as int, x as int, y as int),
        forall|i: int| 0 <= i < d@.len() ==> -MALTA_SAMPLE_BOUND <= #[trigger] d@[i] <= MALTA_SAMPLE_BOUND,
    ensures
        r == malta_total(sample_ints(d@), xsize as int, x as int, y as int, true),
        0 <= r,
{
    malta_sums(d, xsize, ysize, x, y, true)
}

proof fn lemma_pattern_sum_zero(
    img: Seq<int>,
    xsize: int,
    x: int,
    y: int,
    lf: bool,
    p: int,
    n: int,
)
    requires
        forall|dx: int, dy: int| -4 <= dx <= 4 && -4 <= dy <= 4
            ==> #[trigger] window_sample(img, xsize, x, y, dx, dy) == 0,
    ensures
        pattern_sum(img, xsize, x, y, lf, p, n) == 0,
    decreases n,
{
    if n > 0 {
        lemma_pattern_sum_zero(img, xsize, x, y, lf, p, n - 1);
        lemma_malta_tap_in_window(lf, p, n - 1);
        let tap = malta_tap(lf, p, n - 1);
        assert(window_sample(img, xsize, x, y, tap.0, tap.1) == 0);
    }
}

proof fn lemma_total_upto_zero(img: Seq<int>, xsize: int, x: int, y: int, lf: bool, p: int)
    requires
        forall|dx: int, dy: int| -4 <= dx <= 4 && -4 <= dy <= 4
            ==> #[trigger] window_sample(img, xsize, x, y, dx, dy) == 0,
    ensures
        malta_total_upto(img, xsize, x, y, lf, p) == 0,
    decreases p,
{
    if p > 0 {
        lemma_total_upto_zero(img, xsize, x, y, lf, p - 1);
        lemma_pattern_sum_zero(img, xsize, x, y, lf, p - 1, malta_tap_count(lf, p - 1));
    }
}

/// Comparing an image to itself leaves no structural difference: the filters
/// run on the per-pixel difference of the two images, so when every sample
/// the window presents is zero, every pattern sum and hence the whole unit's
/// response is zero.
pub proof fn lemma_malta_zero_window(img: Seq<int>, xsize: int, x: int, y: int, lf: bool)
    requires
        forall|dx: int, dy: int| -4 <= dx <= 4 && -4 <= dy <= 4
            ==> #[trigger] window_sample(img, xsize, x, y, dx, dy) == 0,
    ensures
        malta_total(img, xsize, x, y, lf) == 0,
{
    lemma_total_upto_zero(img, xsize, x, y, lf, 16);
}

proof fn lemma_pattern_sum_shift(
    img1: Seq<int>,
    img2: Seq<int>,
    xsize1: int,
    xsize2: int,
    x1: int,
    y1: int,
    x2: int,
    y2: int,
    lf: bool,
    p: int,
    n: int,
)
    requires
        forall|dx: int, dy: int| -4 <= dx <= 4 && -4 <= dy <= 4
            ==> #[trigger] window_sample(img1, xsize1, x1, y1, dx, dy)
                == window_sample(img2, xsize2, x2, y2, dx, dy),
        n <= malta_tap_count(lf, p),
    ensures
        pattern_sum(img1, xsize1, x1, y1, lf, p, n) == pattern_sum(img2, xsize2, x2, y2, lf, p, n),
    decreases n,
{
    if n > 0 {
        lemma_pattern_sum_shift(img1, img2, xsize1, xsize2, x1, y1, x2, y2, lf, p, n - 1);
        lemma_malta_tap_in_window(lf, p, n - 1);
        let tap = malta_tap(lf, p, n - 1);
        assert(window_sample(img1, xsize1, x1, y1, tap.0, tap.1)
            == window_sample(img2, xsize2, x2, y2, tap.0, tap.1));
    }
}

proof fn lemma_total_upto_shift(
    img1: Seq<int>,
    img2: Seq<int>,
    xsize1: int,
    xsize2: int,
    x1: int,
    y1: int,
    x2: int,
    y2: int,
    lf: bool,
    p: int,
)
    requires
        forall|dx: int, dy: int| -4 <= dx <= 4 && -4 <= dy <= 4
            ==> #[trigger] window_sample(img1, xsize1, x1, y1, dx, dy)
                == window_sample(img2, xsize2, x2, y2, dx, dy),
    ensures
        malta_total_upto(img1, xsize1, x1, y1, lf, p) == malta_total_upto(img2, xsize2, x2, y2, lf, p),
    decreases p,
{
    if p > 0 {
        lemma_total_upto_shift(img1, img2, xsize1, xsize2, x1, y1, x2, y2, lf, p - 1);
        lemma_pattern_sum_shift(img1, img2, xsize1, xsize2, x1, y1, x2, y2, lf, p - 1, malta_tap_count(lf, p - 1));
    }
}

/// Translation invariance of the Malta unit: the response depends only on the
/// samples the 9x9 window presents around the centre, so when two images show
/// the same window contents at two centres - in particular, when both images
/// are shifted by the same integer offset - the unit's response is identical.
pub proof fn lemma_malta_translation_invariant(
    img1: Seq<int>,
    img2: Seq<int>,
    xsize1: int,
    xsize2: int,
    x1: int,
    y1: int,
    x2: int,
    y2: int,
    lf: bool,
)
    requires
        forall|dx: int, dy: int| -4 <= dx <= 4 && -4 <= dy <= 4
            ==> #[trigger] window_sample(img1, xsize1, x1, y1, dx, dy)
                == window_sample(img2, xsize2, x2, y2, dx, dy),
    ensures
        malta_total(img1, xsize1, x1, y1, lf) == malta_total(img2, xsize2, x2, y2, lf),
{
    lemma_total_upto_shift(img1, img2, xsize1, xsize2, x1, y1, x2, y2, lf, 16);
}

} // verus!
