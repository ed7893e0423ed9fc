//! The synchronous Gray-Scott update of one cell.
//!
//! With concentrations `a`, `b` and Laplacian value `lap` (all in
//! micro-units), the continuous update is
//!
//! ```text
//! a' = a + diffA * lap - a * b * b + feed * (1 - a)
//! b' = b + diffB * lap + a * b * b - (kill + feed) * b
//! ```
//!
//! In micro-units every product of two scaled factors carries an extra
//! `SCALE` each, so the whole right-hand side is formed as one integer
//! numerator in units of `SCALE_SQUARED`, divided once (flooring), and
//! saturated into the representable range `[0, CAP]`.

use vstd::prelude::*;
use crate::params::{SCALE, SCALE_SQUARED, CAP, DIFF_A_NUM, DIFF_B_NUM, FEED_NUM, DRAIN_NUM};
use vstd::arithmetic::div_mod::lemma_hoist_over_denominator;
use vstd::arithmetic::div_mod::lemma_div_is_ordered;

verus! {

/// Shift added to an update numerator so that the division is done on a
/// nonnegative number; equal to `SHIFT_QUOT * SCALE_SQUARED`.
pub const SHIFT_NUM: i128 = 2_000_000_000_000_000_000_000_000_000_000_000_000;

/// The shift as seen after the division.
pub const SHIFT_QUOT: i128 = 2_000_000_000_000_000_000_000_000;

/// Saturate a cell value into the representable range `[0, CAP]`.
pub open spec fn clamp_cell(x: int) -> int {
    if x < 0 {
        0
    } else if x > CAP {
        CAP as int
    } else {
        x
    }
}

/// Numerator of the update of A at one cell, in units of `SCALE_SQUARED`:
/// the old value, plus diffusion, minus the reaction `a * b * b`, plus the
/// feed term `feed * (1 - a)`.
pub open spec fn raw_a(a: int, b: int, lap: int) -> int {
    a * SCALE * SCALE + DIFF_A_NUM * lap * SCALE - a * b * b + FEED_NUM * (SCALE - a) * SCALE
}

/// Numerator of the update of B at one cell, in units of `SCALE_SQUARED`:
/// the old value, plus diffusion, plus the reaction `a * b * b`, minus the
/// kill-and-feed drain `drain * b`, where `drain` is kill plus feed.
pub open spec fn raw_b(a: int, b: int, lap: int) -> int {
    b * SCALE * SCALE + DIFF_B_NUM * lap * SCALE + a * b * b - DRAIN_NUM * b * SCALE
}

/// The post-step value of A at a cell: the numerator brought back to
/// micro-units (flooring division) and saturated into `[0, CAP]`.
pub open spec fn step_a_val(a: int, b: int, lap: int) -> int {
    clamp_cell(raw_a(a, b, lap) / (SCALE_SQUARED as int))
}

/// The post-step value of B at a cell.
pub open spec fn step_b_val(a: int, b: int, lap: int) -> int {
    clamp_cell(raw_b(a, b, lap) / (SCALE_SQUARED as int))
}

/// Divide an update numerator by `SCALE_SQUARED` (flooring) and saturate
/// into `[0, CAP]`. The numerator is first shifted into nonnegative range
/// so that the machine division is the flooring one.
fn div_and_clamp(x: i128) -> (r: u64)
    requires
        -2_000_000_000_000_000_000_000_000_000_000_000_000 <= x
            <= 2_000_000_000_000_000_000_000_000_000_000_000_000,
    ensures
        r == clamp_cell(x as int / (SCALE_SQUARED as int)),
{
    let shifted: i128 = x + SHIFT_NUM;
    let q: u128 = (shifted as u128) / (SCALE_SQUARED as u128);
    proof {
        assert(shifted >= 0);
        assert((shifted as u128) as int == shifted as int);
        lemma_div_is_ordered(
            shifted as int,
            4_000_000_000_000_000_000_000_000_000_000_000_000,
            SCALE_SQUARED as int,
        );
        lemma_hoist_over_denominator(x as int, SHIFT_QUOT as int, SCALE_SQUARED as nat);
    }
    let y: i128 = (q as i128) - SHIFT_QUOT;
    assert(y == x as int / (SCALE_SQUARED as int));
    if y < 0 {
        0
    } else if y > CAP as i128 {
        CAP
    } else {
        y as u64
    }
}

/// The synchronous update of species A at one cell, from the pre-step
/// values of A and B at that cell and A's Laplacian there.
pub fn update_cell_a(a: u64, b: u64, lap: i64) -> (r: u64)
    requires
        a <= CAP,
        b <= CAP,
        -4 * (CAP as int) <= lap <= 4 * (CAP as int),
    ensures
        r == step_a_val(a as int, b as int, lap as int),
        r <= CAP,
{
    let ai: i128 = a as i128;
    let bi: i128 = b as i128;
    let li: i128 = lap as i128;
    proof {
        assert(0 <= ai * bi <= 1_000_000_000_000_000_000_000_000i128) by (nonlinear_arith)
            requires
                0 <= ai <= 1_000_000_000_000i128,
                0 <= bi <= 1_000_000_000_000i128,
        ;
    }
    let ab: i128 = ai * bi;
    proof {
        assert(0 <= ab * bi <= 1_000_000_000_000_000_000_000_000_000_000_000_000i128)
            by (nonlinear_arith)
            requires
                0 <= ab <= 1_000_000_000_000_000_000_000_000i128,
                0 <= bi <= 1_000_000_000_000i128,
        ;
    }
    let reaction: i128 = ab * bi;
    let t1: i128 = ai * (SCALE as i128) * (SCALE as i128);
    let t2: i128 = (DIFF_A_NUM as i128) * li * (SCALE as i128);
    let t4: i128 = (FEED_NUM as i128) * ((SCALE as i128) - ai) * (SCALE as i128);
    let x: i128 = t1 + t2 - reaction + t4;
    let r = div_and_clamp(x);
    assert(x == raw_a(a as int, b as int, lap as int));
    r
}

/// The synchronous update of species B at one cell, from the pre-step
/// values of A and B at that cell and B's Laplacian there.
pub fn update_cell_b(a: u64, b: u64, lap: i64) -> (r: u64)
    requires
        a <= CAP,
        b <= CAP,
        -4 * (CAP as int) <= lap <= 4 * (CAP as int),
    ensures
        r == step_b_val(a as int, b as int, lap as int),
        r <= CAP,
{
    let ai: i128 = a as i128;
    let bi: i128 = b as i128;
    let li: i128 = lap as i128;
    proof {
        assert(0 <= ai * bi <= 1_000_000_000_000_000_000_000_000i128) by (nonlinear_arith)
            requires
                0 <= ai <= 1_000_000_000_000i128,
                0 <= bi <= 1_000_000_000_000i128,
        ;
    }
    let ab: i128 = ai * bi;
    proof {
        assert(0 <= ab * bi <= 1_000_000_000_000_000_000_000_000_000_000_000_000i128)
            by (nonlinear_arith)
            requires
                0 <= ab <= 1_000_000_000_000_000_000_000_000i128,
                0 <= bi <= 1_000_000_000_000i128,
        ;
    }
    let reaction: i128 = ab * bi;
    let t1: i128 = bi * (SCALE as i128) * (SCALE as i128);
    let t2: i128 = (DIFF_B_NUM as i128) * li * (SCALE as i128);
    proof {
        assert(0 <= (DRAIN_NUM as i128) * bi <= 132_000_000_000_000_000i128)
            by (nonlinear_arith)
            requires
                0 <= bi <= 1_000_000_000_000i128,
                DRAIN_NUM == 132_000u64,
        ;
    }
    let t4: i128 = (DRAIN_NUM as i128) * bi * (SCALE as i128);
    let x: i128 = t1 + t2 + reaction - t4;
    let r = div_and_clamp(x);
    assert(x == raw_b(a as int, b as int, lap as int));
    r
}

} // verus!
