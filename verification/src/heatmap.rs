//! Heatmap colour-ramp data.
//!
//! The per-pixel distances of a comparison are rendered through a fixed ramp
//! of twelve RGB stops.  A score at the caller's good-quality threshold is
//! mapped near the green stop, one at the bad-quality threshold near the red
//! stop, and the range beyond fades through pastels to white.  Channel values
//! are held in half-units (0, 1 or 2 standing for 0.0, 0.5 and 1.0) so the
//! data can be stated and checked exactly.

use vstd::prelude::*;

verus! {

/// Number of stops in the heatmap colour ramp.
pub const HEAT_RAMP_STOPS: usize = 12;

/// Ramp stop that a score equal to the good-quality threshold lands on.
pub const HEAT_RAMP_GOOD: usize = 3;

/// Ramp stop that a score equal to the bad-quality threshold lands on.
pub const HEAT_RAMP_BAD: usize = 5;

/// RGB of ramp stop `i` in half-units: black, blue, cyan, green (good level),
/// yellow, red (bad level), magenta, then pastel colours up to white for the
/// very bad quality range.  Indices outside the ramp stay white.
pub open spec fn heat_ramp(i: int) -> (int, int, int) {
    if i == 0 {
        (0, 0, 0)
    } else if i == 1 {
        (0, 0, 2)
    } else if i == 2 {
        (0, 2, 2)
    } else if i == 3 {
        (0, 2, 0)
    } else if i == 4 {
        (2, 2, 0)
    } else if i == 5 {
        (2, 0, 0)
    } else if i == 6 {
        (2, 0, 2)
    } else if i == 7 {
        (1, 1, 2)
    } else if i == 8 {
        (2, 1, 1)
    } else if i == 9 {
        (2, 2, 1)
    } else {
        (2, 2, 2)
    }
}

/// Ramp stop `i` as executable data; mirrors [`heat_ramp`].
pub fn heat_ramp_stop(i: usize) -> (r: (u8, u8, u8))
    ensures
        (r.0 as int, r.1 as int, r.2 as int) == heat_ramp(i as int),
{
    if i == 0 {
        (0, 0, 0)
    } else if i == 1 {
        (0, 0, 2)
    } else if i == 2 {
        (0, 2, 2)
    } else if i == 3 {
        (0, 2, 0)
    } else if i == 4 {
        (2, 2, 0)
    } else if i == 5 {
        (2, 0, 0)
    } else if i == 6 {
        (2, 0, 2)
    } else if i == 7 {
        (1, 1, 2)
    } else if i == 8 {
        (2, 1, 1)
    } else if i == 9 {
        (2, 2, 1)
    } else {
        (2, 2, 2)
    }
}

/// The good-threshold stop is pure green and the bad-threshold stop pure red:
/// a score at a calibration threshold lands on its named colour.
pub proof fn lemma_heat_ramp_anchors()
    ensures
        heat_ramp(HEAT_RAMP_GOOD as int) == (0int, 2int, 0int),
        heat_ramp(HEAT_RAMP_BAD as int) == (2int, 0int, 0int),
{
}

} // verus!
