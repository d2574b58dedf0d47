//! Plane geometry: the row-major sample grid that every pipeline stage reads
//! and writes, and the padded row stride it is allocated with.

use vstd::prelude::*;

verus! {

/// Shape of one channel's sample plane: `xsize_ * ysize_` samples stored
/// row-major, each row starting `bytes_per_row` bytes after the previous one.
pub struct ImageF {
    pub xsize_: usize,
    pub ysize_: usize,
    pub bytes_per_row: usize,
}

/// `row_size` rounded up to the next multiple of 64.
pub open spec fn round_up_to_64(row_size: nat) -> nat {
    ((row_size + 63) / 64) * 64
}

/// The stride chosen for a row of `xsize` samples: the width plus one spare
/// sample and 32 bytes of slack, rounded up to a 64-byte boundary, then bumped
/// by a further 64 bytes when it would land on a multiple of 2048 (which would
/// put every row in the same cache set).
pub open spec fn bytes_per_row_spec(xsize: nat) -> nat {
    let aligned = round_up_to_64(xsize + 40);
    if aligned % 2048 == 0 {
        aligned + 64
    } else {
        aligned
    }
}

impl ImageF {
    /// Row stride in bytes for a plane of width `xsize`: 64-byte aligned,
    /// wide enough for the row, and never a multiple of 2048.
    pub fn bytes_per_row(xsize: usize) -> (r: usize)
        requires
            xsize <= usize::MAX - 167,
        ensures
            r == bytes_per_row_spec(xsize as nat),
            r % 64 == 0,
            r % 2048 != 0,
            xsize + 40 <= r,
    {
        let row_size = xsize + 8 + 32;
        let aligned = ((row_size + 63) / 64) * 64;
        proof {
            lemma_round_up_to_64(row_size as nat);
        }
        if aligned % 2048 == 0 {
            proof {
                assert((aligned + 64) % 64 == 0 && (aligned + 64) % 2048 == 64) by (nonlinear_arith)
                    requires aligned % 64 == 0, aligned % 2048 == 0, aligned + 64 <= usize::MAX;
            }
            aligned + 64
        } else {
            aligned
        }
    }
}

/// Rounding a row size up to a 64-byte boundary yields a multiple of 64 that
/// is at least the row size and less than 64 bytes beyond it.
proof fn lemma_round_up_to_64(row_size: nat)
    ensures
        round_up_to_64(row_size) % 64 == 0,
        row_size <= round_up_to_64(row_size) < row_size + 64,
{
    assert(((row_size + 63) / 64) * 64 % 64 == 0 && row_size <= ((row_size + 63) / 64) * 64
        < row_size + 64) by (nonlinear_arith);
}

} // verus!
