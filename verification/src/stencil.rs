//! The discrete five-point Laplacian of a square grid.
//!
//! Interior cells get `up + down + left + right - 4 * center`, read from one
//! unmodified snapshot of the grid. The outermost ring gets zero: the
//! no-flux boundary neither diffuses in nor out.

use vstd::prelude::*;
use crate::grid::{Grid, grid_seq, grid_side, grid_get};
use crate::params::CAP;
use vstd::arithmetic::div_mod::lemma_fundamental_div_mod_converse;

verus! {

/// The five-point Laplacian of the row-major snapshot `s` of an `n` by `n`
/// grid, at row `r`, column `c`: zero on the boundary ring, and
/// `up + down + left + right - 4 * center` in the interior.
pub open spec fn lap_rc(s: Seq<u64>, n: nat, r: nat, c: nat) -> int
    recommends
        s.len() == n * n,
        r < n,
        c < n,
{
    if r == 0 || c == 0 || r + 1 == n || c + 1 == n {
        0
    } else {
        s[((r - 1) * n + c) as int] + s[((r + 1) * n + c) as int] + s[(r * n + (c - 1)) as int]
            + s[(r * n + (c + 1)) as int] - 4 * s[(r * n + c) as int]
    }
}

/// The Laplacian at the cell whose row-major index is `i`.
pub open spec fn lap_at(s: Seq<u64>, n: nat, i: int) -> int
    recommends
        s.len() == n * n,
        0 <= i < n * n,
{
    lap_rc(s, n, (i / n as int) as nat, (i % n as int) as nat)
}

/// Compute the Laplacian of every cell of the grid, row-major, from the
/// grid as it stands when the call is made.
pub fn laplacian(g: &Grid, n: usize) -> (lap: Vec<i64>)
    requires
        grid_side(*g) == n,
        grid_seq(*g).len() == n * n,
        3 <= n,
        n * n <= usize::MAX,
        forall|i: int| 0 <= i < grid_seq(*g).len() ==> #[trigger] grid_seq(*g)[i] <= CAP,
    ensures
        lap@.len() == n * n,
        forall|i: int| 0 <= i < lap@.len() ==> #[trigger] lap@[i] == lap_at(grid_seq(*g), n as nat, i),
        forall|i: int|
            0 <= i < lap@.len() ==> -4 * (CAP as int) <= #[trigger] lap@[i] <= 4 * (CAP as int),
{
    let ghost s = grid_seq(*g);
    let mut lap: Vec<i64> = Vec::new();
    let mut r: usize = 0;
    while r < n
        invariant
            grid_side(*g) == n,
            s == grid_seq(*g),
            s.len() == n * n,
            3 <= n,
            n * n <= usize::MAX,
            forall|i: int| 0 <= i < s.len() ==> #[trigger] s[i] <= CAP,
            r <= n,
            lap@.len() == r * n,
            forall|i: int| 0 <= i < lap@.len() ==> #[trigger] lap@[i] == lap_at(s, n as nat, i),
            forall|i: int|
                0 <= i < lap@.len() ==> -4 * (CAP as int) <= #[trigger] lap@[i] <= 4 * (
                CAP as int),
        decreases n - r,
    {
        let mut c: usize = 0;
        while c < n
            invariant
                grid_side(*g) == n,
                s == grid_seq(*g),
                s.len() == n * n,
                3 <= n,
                n * n <= usize::MAX,
                forall|i: int| 0 <= i < s.len() ==> #[trigger] s[i] <= CAP,
                r < n,
                c <= n,
                lap@.len() == r * n + c,
                forall|i: int| 0 <= i < lap@.len() ==> #[trigger] lap@[i] == lap_at(s, n as nat, i),
                forall|i: int|
                    0 <= i < lap@.len() ==> -4 * (CAP as int) <= #[trigger] lap@[i] <= 4 * (
                    CAP as int),
            decreases n - c,
        {
            let v: i64 = if r == 0 || c == 0 || r == n - 1 || c == n - 1 {
                proof {
                    assert(lap_rc(s, n as nat, r as nat, c as nat) == 0);
                }
                0i64
            } else {
                proof {
                    assert((r - 1) * n + c < n * n && (r + 1) * n + c < n * n && r * n + (c - 1)
                        < n * n && r * n + (c + 1) < n * n && r * n + c < n * n)
                        by (nonlinear_arith)
                        requires
                            1 <= r < n - 1,
                            1 <= c < n - 1,
                    ;
                    assert(s[((r - 1) * n + c) as int] <= CAP);
                    assert(s[((r + 1) * n + c) as int] <= CAP);
                    assert(s[(r * n + (c - 1)) as int] <= CAP);
                    assert(s[(r * n + (c + 1)) as int] <= CAP);
                    assert(s[(r * n + c) as int] <= CAP);
                }
                let up = grid_get(g, r - 1, c);
                let down = grid_get(g, r + 1, c);
                let left = grid_get(g, r, c - 1);
                let right = grid_get(g, r, c + 1);
                let center = grid_get(g, r, c);
                (up as i64) + (down as i64) + (left as i64) + (right as i64) - 4 * (center as i64)
            };
            proof {
                assert(v == lap_rc(s, n as nat, r as nat, c as nat));
                lemma_fundamental_div_mod_converse(
                    (r * n + c) as int,
                    n as int,
                    r as int,
                    c as int,
                );
                assert(lap_at(s, n as nat, (r * n + c) as int) == v);
            }
            lap.push(v);
            c += 1;
        }
        proof {
            assert((r + 1) * n == r * n + n) by (nonlinear_arith);
        }
        r += 1;
    }
    lap
}

} // verus!
