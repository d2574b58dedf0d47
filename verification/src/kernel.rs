//! Gaussian blur-kernel geometry.
//!
//! A kernel of half-width `diff` weights the taps `-diff ..= diff`, so it has
//! odd length `2 * diff + 1` and is centred on offset zero.  The weight of a
//! tap is a function of the squared offset alone; this module provides the
//! tap ladder and the proof that mirrored taps have equal squared offsets,
//! which makes every generated kernel symmetric.

use vstd::prelude::*;

verus! {

/// Tap offsets of a blur kernel of half-width `diff`: the integers
/// `-diff ..= diff` in order.  The ladder has odd length `2 * diff + 1`,
/// offset zero at its centre, and mirrored entries summing to zero.
pub fn kernel_taps(diff: usize) -> (r: Vec<i64>)
    requires
        1 <= diff,
        diff <= 0x1000_0000,
    ensures
        r@.len() == 2 * diff + 1,
        forall|i: int| 0 <= i < r@.len() ==> #[trigger] r@[i] == i - diff,
        r@[diff as int] == 0,
        forall|i: int| 0 <= i < r@.len() ==> #[trigger] r@[i] + r@[2 * diff - i] == 0,
{
    let len = 2 * diff + 1;
    let mut r: Vec<i64> = Vec::new();
    let mut i: usize = 0;
    while i < len
        invariant
            i <= len,
            len == 2 * diff + 1,
            diff <= 0x1000_0000,
            r@.len() == i,
            forall|j: int| 0 <= j < i ==> #[trigger] r@[j] == j - diff,
        decreases len - i,
    {
        r.push(i as i64 - diff as i64);
        i = i + 1;
    }
    r
}

/// In-bounds tap interval of a kernel of half-width `offset` centred at
/// `pos` on an axis of `len` samples: the convolution near a border reads
/// exactly the taps `[lo, hi]`, truncating the kernel instead of reading
/// outside the axis, and the centre tap is always kept.
pub fn border_tap_range(pos: usize, offset: usize, len: usize) -> (r: (usize, usize))
    requires
        pos < len,
    ensures
        r.0 == if pos >= offset { (pos - offset) as int } else { 0int },
        r.1 == if pos + offset < len { (pos + offset) as int } else { (len - 1) as int },
        r.0 <= pos <= r.1,
        r.1 < len,
{
    let lo = if pos >= offset { pos - offset } else { 0 };
    let hi = if offset < len - pos { pos + offset } else { len - 1 };
    (lo, hi)
}

/// Mirrored taps of the ladder have opposite offsets and hence equal squared
/// offsets.  The Gaussian weight of a tap depends on the offset only through
/// its square, so every kernel built over the ladder satisfies
/// `kernel[i] == kernel[len - 1 - i]`.
pub proof fn lemma_kernel_taps_symmetric(diff: int, i: int)
    requires
        0 <= i <= 2 * diff,
    ensures
        (i - diff) + ((2 * diff - i) - diff) == 0,
        (i - diff) * (i - diff) == ((2 * diff - i) - diff) * ((2 * diff - i) - diff),
{
    assert((i - diff) * (i - diff) == ((2 * diff - i) - diff) * ((2 * diff - i) - diff))
        by (nonlinear_arith);
}

} // verus!
