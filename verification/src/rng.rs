//! Sequence generator: a pseudo-random stream of quadrant indices. The
//! generator is seeded once by the driver, at process start, from a
//! wall-clock reading, so that every run gets its own sequences.

use vstd::prelude::*;

verus! {

/// Relies on `macroquad::rand::rand` (quad-rand): a pseudo-random `u32`.
/// The value depends on hidden generator state, so nothing is promised of
/// it.
#[verifier::external_body]
fn next_raw() -> u32 {
    macroquad::rand::rand()
}

/// A pseudo-random quadrant index in 0 to 3: the top two bits of the
/// generator's output, so that each outcome is equally likely.
pub fn next_quadrant() -> (q: u8)
    ensures
        q < 4,
{
    let r: u32 = next_raw();
    proof {
        assert(r >> 30u32 < 4) by (bit_vector);
    }
    (r >> 30) as u8
}

} // verus!
