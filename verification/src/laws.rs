//! Properties of the simulation, stated over the spec functions that the
//! executable functions' contracts use, and proved once for all inputs.

use vstd::prelude::*;
use crate::stencil::{lap_rc, lap_at};
use crate::update::{step_a_val, step_b_val};
use crate::sim::{step_a_at, step_b_at};
use crate::params::SCALE;
use vstd::arithmetic::div_mod::lemma_multiply_divide_lt;
use vstd::arithmetic::div_mod::lemma_mod_bound;

verus! {

/// No-flux boundary: the Laplacian of any snapshot is zero at every cell
/// of the outermost ring.
pub proof fn lemma_boundary_laplacian_zero(s: Seq<u64>, n: nat, r: nat, c: nat)
    requires
        r < n,
        c < n,
        r == 0 || c == 0 || r + 1 == n || c + 1 == n,
    ensures
        lap_rc(s, n, r, c) == 0,
{
}

/// A boundary cell is untouched by diffusion: its post-step values equal
/// the update with a zero Laplacian, so edge cells change only through the
/// reaction, feed and kill terms.
pub proof fn lemma_boundary_no_diffusion(a: int, b: int, s: Seq<u64>, n: nat, r: nat, c: nat)
    requires
        r < n,
        c < n,
        r == 0 || c == 0 || r + 1 == n || c + 1 == n,
    ensures
        step_a_val(a, b, lap_rc(s, n, r, c)) == step_a_val(a, b, 0),
        step_b_val(a, b, lap_rc(s, n, r, c)) == step_b_val(a, b, 0),
{
}

/// Synchronous update: the post-step values at a cell depend only on the
/// pre-step values of A and B at that cell and the two Laplacian values
/// there. Two pairs of snapshots that agree on those five numbers give the
/// same post-step values, whatever their other cells hold.
pub proof fn lemma_synchronous_update(
    sa1: Seq<u64>,
    sb1: Seq<u64>,
    sa2: Seq<u64>,
    sb2: Seq<u64>,
    n: nat,
    i: int,
)
    requires
        sa1[i] == sa2[i],
        sb1[i] == sb2[i],
        lap_at(sa1, n, i) == lap_at(sa2, n, i),
        lap_at(sb1, n, i) == lap_at(sb2, n, i),
    ensures
        step_a_at(sa1, sb1, n, i) == step_a_at(sa2, sb2, n, i),
        step_b_at(sa1, sb1, n, i) == step_b_at(sa2, sb2, n, i),
{
}

/// Steady state: on uniform fields with A at one and B at zero, the
/// Laplacians vanish, the reaction is zero, the feed term is zero because
/// A is already one, and the kill term is zero because B is zero — so one
/// step leaves every cell exactly unchanged.
pub proof fn lemma_uniform_steady_state(sa: Seq<u64>, sb: Seq<u64>, n: nat, i: int)
    requires
        3 <= n,
        sa.len() == n * n,
        sb.len() == n * n,
        forall|j: int| 0 <= j < sa.len() ==> #[trigger] sa[j] == SCALE,
        forall|j: int| 0 <= j < sb.len() ==> #[trigger] sb[j] == 0,
        0 <= i < n * n,
    ensures
        step_a_at(sa, sb, n, i) == SCALE,
        step_b_at(sa, sb, n, i) == 0,
{
    let r = i / n as int;
    let c = i % n as int;
    lemma_multiply_divide_lt(i, n as int, n as int);
    lemma_mod_bound(i, n as int);
    lemma_uniform_lap_zero(sa, n, SCALE, r as nat, c as nat);
    lemma_uniform_lap_zero(sb, n, 0, r as nat, c as nat);
    assert(step_a_val(SCALE as int, 0, 0) == SCALE);
    assert(step_b_val(SCALE as int, 0, 0) == 0);
}

/// The Laplacian of a uniform snapshot is zero everywhere: on the boundary
/// by the no-flux rule, in the interior because the four neighbours cancel
/// the centre.
pub proof fn lemma_uniform_lap_zero(s: Seq<u64>, n: nat, v: u64, r: nat, c: nat)
    requires
        3 <= n,
        s.len() == n * n,
        forall|j: int| 0 <= j < s.len() ==> #[trigger] s[j] == v,
        r < n,
        c < n,
    ensures
        lap_rc(s, n, r, c) == 0,
{
    if !(r == 0 || c == 0 || r + 1 == n || c + 1 == n) {
        assert((r - 1) * n + c < n * n && (r + 1) * n + c < n * n && r * n + (c - 1) < n * n && r
            * n + (c + 1) < n * n && r * n + c < n * n) by (nonlinear_arith)
            requires
                1 <= r < n - 1,
                1 <= c < n - 1,
        ;
        assert(s[((r - 1) * n + c) as int] == v);
        assert(s[((r + 1) * n + c) as int] == v);
        assert(s[(r * n + (c - 1)) as int] == v);
        assert(s[(r * n + (c + 1)) as int] == v);
        assert(s[(r * n + c) as int] == v);
    }
}

} // verus!
