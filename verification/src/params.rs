//! Fixed-point representation and the Gray-Scott rate constants.
//!
//! A concentration value is stored in micro-units: the integer `SCALE`
//! stands for a concentration of one. The four rate constants are likewise
//! given in micro-units, so a rate constant `k` stands for the real rate
//! `k / SCALE`. Cell values are kept in the range `[0, CAP]`; the update
//! saturates at the ends of that range instead of drifting without bound.

use vstd::prelude::*;

verus! {

/// Micro-units per unit of concentration.
pub const SCALE: u64 = 1_000_000;

/// Half of `SCALE`; the rounding offset, and the split point of the two
/// initial random ranges.
pub const HALF_SCALE: u64 = 500_000;

/// `SCALE * SCALE`: the divisor that brings a product of two scaled values
/// back to micro-units.
pub const SCALE_SQUARED: u64 = 1_000_000_000_000;

/// Largest representable cell value (a concentration of one million).
pub const CAP: u64 = 1_000_000_000_000;

/// Diffusion rate of species A, in micro-units.
pub const DIFF_A_NUM: u64 = 160_000;

/// Diffusion rate of species B, in micro-units.
pub const DIFF_B_NUM: u64 = 40_000;

/// Feed rate, in micro-units.
pub const FEED_NUM: u64 = 70_000;

/// Kill rate, in micro-units.
pub const KILL_NUM: u64 = 62_000;

/// The drain rate of species B: the kill rate plus the feed rate.
pub const DRAIN_NUM: u64 = 132_000;

/// Side length of the default simulation grid.
pub const DEFAULT_SIZE: usize = 256;

/// Most cells a grid may hold: with eight-byte cells, an allocation of
/// more would overflow `isize::MAX` bytes and abort. The value is
/// `isize::MAX / 8` on a 64-bit machine.
pub const MAX_CELLS: u64 = 1_152_921_504_606_846_975;

} // verus!
