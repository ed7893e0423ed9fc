//! Conversion of a concentration value to an eight-bit grayscale intensity.
//!
//! A cell value `v` in micro-units stands for the concentration `v / SCALE`;
//! its intensity is that concentration times 255, rounded to the nearest
//! integer (half rounds up) and saturated at 255.

use vstd::prelude::*;
use crate::params::{SCALE, HALF_SCALE, CAP};
use vstd::arithmetic::div_mod::lemma_div_is_ordered;
use vstd::arithmetic::div_mod::lemma_div_pos_is_pos;

verus! {

/// The grayscale intensity of the cell value `v`: the concentration scaled
/// to `[0, 255]`, rounded half up, and capped at 255.
pub open spec fn intensity_of(v: u64) -> int {
    let q = (255 * v + HALF_SCALE) / (SCALE as int);
    if q > 255 {
        255
    } else {
        q
    }
}

/// Compute the intensity of one cell value.
pub fn intensity(v: u64) -> (b: u8)
    requires
        v <= CAP,
    ensures
        b as int == intensity_of(v),
{
    let q: u64 = (255 * v + HALF_SCALE) / SCALE;
    if q > 255 {
        255u8
    } else {
        q as u8
    }
}

/// The intensity of any cell value lies in `[0, 255]`.
pub proof fn lemma_intensity_range(v: u64)
    ensures
        0 <= intensity_of(v) <= 255,
{
    lemma_div_pos_is_pos(255 * v + HALF_SCALE, SCALE as int);
}

/// The intensity mapping is monotonic: a larger cell value never maps to a
/// smaller intensity.
pub proof fn lemma_intensity_monotone(v1: u64, v2: u64)
    requires
        v1 <= v2,
    ensures
        intensity_of(v1) <= intensity_of(v2),
{
    lemma_div_is_ordered(255 * v1 + HALF_SCALE, 255 * v2 + HALF_SCALE, SCALE as int);
}

} // verus!
