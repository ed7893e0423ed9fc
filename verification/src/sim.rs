//! The simulator: two coupled concentration grids and the synchronous
//! Gray-Scott step.
//!
//! Both Laplacians are computed from the full pre-step snapshot before any
//! cell is overwritten, and each cell's new value depends only on the
//! pre-step values of A, B and the two Laplacians at that cell.

use vstd::prelude::*;
use crate::grid::{Grid, grid_seq, grid_side, grid_get, grid_set, grid_zeros, grid_random};
use crate::stencil::{lap_at, laplacian};
use crate::update::{step_a_val, step_b_val, update_cell_a, update_cell_b};
use crate::intensity::{intensity, intensity_of};
use crate::params::{SCALE, HALF_SCALE, CAP, MAX_CELLS};

verus! {

/// Which of the two concentration fields to read.
#[derive(Clone, Copy, PartialEq, Eq, Debug)]
pub enum Species {
    A,
    B,
}

/// The simulator's one failure: a grid that would not be square with side
/// at least 3, or whose cell count would not fit in memory.
#[derive(Clone, Copy, PartialEq, Eq, Debug)]
pub enum SimError {
    InvalidDimensions,
}

/// The post-step value of A at flat index `i`, as a function of the
/// pre-step snapshots `sa`, `sb` alone.
pub open spec fn step_a_at(sa: Seq<u64>, sb: Seq<u64>, n: nat, i: int) -> int {
    step_a_val(sa[i] as int, sb[i] as int, lap_at(sa, n, i))
}

/// The post-step value of B at flat index `i`, as a function of the
/// pre-step snapshots `sa`, `sb` alone.
pub open spec fn step_b_at(sa: Seq<u64>, sb: Seq<u64>, n: nat, i: int) -> int {
    step_b_val(sa[i] as int, sb[i] as int, lap_at(sb, n, i))
}

/// Two coupled concentration fields of the same square shape.
pub struct Simulator {
    n: usize,
    conc_a: Grid,
    conc_b: Grid,
}

impl Simulator {
    /// Side length of the two square grids.
    pub closed spec fn side(self) -> nat {
        self.n as nat
    }

    /// Number of cells in each grid.
    pub open spec fn grid_len(self) -> nat {
        self.side() * self.side()
    }

    /// The cells of concentration A, row-major.
    pub closed spec fn a_cells(self) -> Seq<u64> {
        grid_seq(self.conc_a)
    }

    /// The cells of concentration B, row-major.
    pub closed spec fn b_cells(self) -> Seq<u64> {
        grid_seq(self.conc_b)
    }

    /// The cells of the requested field.
    pub open spec fn cells_of(self, which: Species) -> Seq<u64> {
        match which {
            Species::A => self.a_cells(),
            Species::B => self.b_cells(),
        }
    }

    /// Well-formed state: both grids square with the same side, at least 3,
    /// the cell count within the allocation bound, and every cell value
    /// representable.
    pub closed spec fn wf(self) -> bool {
        &&& 3 <= self.n
        &&& self.n * self.n <= usize::MAX
        &&& self.n * self.n <= MAX_CELLS
        &&& grid_side(self.conc_a) == self.n
        &&& grid_side(self.conc_b) == self.n
        &&& grid_seq(self.conc_a).len() == self.n * self.n
        &&& grid_seq(self.conc_b).len() == self.n * self.n
        &&& (forall|i: int|
            0 <= i < grid_seq(self.conc_a).len() ==> #[trigger] grid_seq(self.conc_a)[i] <= CAP)
        &&& (forall|i: int|
            0 <= i < grid_seq(self.conc_b).len() ==> #[trigger] grid_seq(self.conc_b)[i] <= CAP)
    }

    /// Side length, for callers.
    pub fn size(&self) -> (n: usize)
        ensures
            n == self.side(),
    {
        self.n
    }

    /// Create a simulator with both fields drawn at random: A uniformly
    /// from `[1/2, 1)` and B uniformly from `[0, 1/2)`, in concentration
    /// units. Fails exactly when the side is under 3 or the cell count
    /// overflows the allocation bound.
    pub fn new(n: usize) -> (r: Result<Simulator, SimError>)
        ensures
            r is Ok <==> (3 <= n && n * n <= usize::MAX && n * n <= MAX_CELLS),
            r is Err ==> r == Err::<Simulator, SimError>(SimError::InvalidDimensions),
            r is Ok ==> ({
                let sim = r->Ok_0;
                &&& sim.wf()
                &&& sim.side() == n
                &&& (forall|i: int|
                    0 <= i < sim.a_cells().len() ==> HALF_SCALE <= #[trigger] sim.a_cells()[i]
                        < SCALE)
                &&& (forall|i: int|
                    0 <= i < sim.b_cells().len() ==> #[trigger] sim.b_cells()[i] < HALF_SCALE)
            }),
    {
        if n < 3 {
            return Err(SimError::InvalidDimensions);
        }
        match n.checked_mul(n) {
            Some(total) if total as u64 <= MAX_CELLS => {
                let conc_a = grid_random(n, HALF_SCALE, SCALE);
                let conc_b = grid_random(n, 0, HALF_SCALE);
                Ok(Simulator { n, conc_a, conc_b })
            },
            _ => Err(SimError::InvalidDimensions),
        }
    }

    /// Create a simulator from explicit cell values, row-major. Fails
    /// exactly when the side is under 3, the cell count overflows the
    /// allocation bound, or either vector has the wrong length.
    pub fn from_cells(n: usize, a_vals: Vec<u64>, b_vals: Vec<u64>) -> (r: Result<
        Simulator,
        SimError,
    >)
        requires
            forall|i: int| 0 <= i < a_vals@.len() ==> #[trigger] a_vals@[i] <= CAP,
            forall|i: int| 0 <= i < b_vals@.len() ==> #[trigger] b_vals@[i] <= CAP,
        ensures
            r is Ok <==> (3 <= n && n * n <= usize::MAX && n * n <= MAX_CELLS
                && a_vals@.len() == n * n && b_vals@.len() == n * n),
            r is Err ==> r == Err::<Simulator, SimError>(SimError::InvalidDimensions),
            r is Ok ==> ({
                let sim = r->Ok_0;
                &&& sim.wf()
                &&& sim.side() == n
                &&& sim.a_cells() == a_vals@
                &&& sim.b_cells() == b_vals@
            }),
    {
        if n < 3 {
            return Err(SimError::InvalidDimensions);
        }
        let total = match n.checked_mul(n) {
            None => {
                return Err(SimError::InvalidDimensions);
            },
            Some(t) => t,
        };
        if total as u64 > MAX_CELLS || a_vals.len() != total || b_vals.len() != total {
            return Err(SimError::InvalidDimensions);
        }
        let conc_a = fill_grid(n, &a_vals);
        let conc_b = fill_grid(n, &b_vals);
        Ok(Simulator { n, conc_a, conc_b })
    }

    /// Read one cell of the requested field.
    pub fn get_cell(&self, which: Species, r: usize, c: usize) -> (v: u64)
        requires
            self.wf(),
            r < self.side(),
            c < self.side(),
        ensures
            v == self.cells_of(which)[r * self.side() + c],
    {
        match which {
            Species::A => grid_get(&self.conc_a, r, c),
            Species::B => grid_get(&self.conc_b, r, c),
        }
    }

    /// Advance the simulation by one step. Both Laplacians are taken from
    /// the pre-step snapshot; every cell is then updated synchronously, so
    /// each post-step value is a function of the pre-step values of A, B
    /// and the two Laplacians at that cell alone.
    pub fn step(&mut self)
        requires
            old(self).wf(),
        ensures
            final(self).wf(),
            final(self).side() == old(self).side(),
            final(self).a_cells().len() == old(self).a_cells().len(),
            final(self).b_cells().len() == old(self).b_cells().len(),
            forall|i: int|
                0 <= i < old(self).a_cells().len() ==> final(self).a_cells()[i]
                    == #[trigger] step_a_at(
                    old(self).a_cells(),
                    old(self).b_cells(),
                    old(self).side(),
                    i,
                ),
            forall|i: int|
                0 <= i < old(self).b_cells().len() ==> final(self).b_cells()[i]
                    == #[trigger] step_b_at(
                    old(self).a_cells(),
                    old(self).b_cells(),
                    old(self).side(),
                    i,
                ),
    {
        let n = self.n;
        let lap_a = laplacian(&self.conc_a, n);
        let lap_b = laplacian(&self.conc_b, n);
        let ghost a0 = grid_seq(self.conc_a);
        let ghost b0 = grid_seq(self.conc_b);
        let mut r: usize = 0;
        let mut k: usize = 0;
        while r < n
            invariant
                3 <= n,
                n * n <= usize::MAX,
                self.n == n,
                grid_side(self.conc_a) == n,
                grid_side(self.conc_b) == n,
                grid_seq(self.conc_a).len() == n * n,
                grid_seq(self.conc_b).len() == n * n,
                a0.len() == n * n,
                b0.len() == n * n,
                forall|i: int| 0 <= i < a0.len() ==> #[trigger] a0[i] <= CAP,
                forall|i: int| 0 <= i < b0.len() ==> #[trigger] b0[i] <= CAP,
                lap_a@.len() == n * n,
                lap_b@.len() == n * n,
                forall|i: int|
                    0 <= i < lap_a@.len() ==> #[trigger] lap_a@[i] == lap_at(a0, n as nat, i),
                forall|i: int|
                    0 <= i < lap_b@.len() ==> #[trigger] lap_b@[i] == lap_at(b0, n as nat, i),
                forall|i: int|
                    0 <= i < lap_a@.len() ==> -4 * (CAP as int) <= #[trigger] lap_a@[i] <= 4 * (
                    CAP as int),
                forall|i: int|
                    0 <= i < lap_b@.len() ==> -4 * (CAP as int) <= #[trigger] lap_b@[i] <= 4 * (
                    CAP as int),
                r <= n,
                k == r * n,
                forall|i: int|
                    0 <= i < k ==> #[trigger] grid_seq(self.conc_a)[i] == step_a_at(
                        a0,
                        b0,
                        n as nat,
                        i,
                    ),
                forall|i: int|
                    0 <= i < k ==> #[trigger] grid_seq(self.conc_b)[i] == step_b_at(
                        a0,
                        b0,
                        n as nat,
                        i,
                    ),
                forall|i: int| k <= i < n * n ==> #[trigger] grid_seq(self.conc_a)[i] == a0[i],
                forall|i: int| k <= i < n * n ==> #[trigger] grid_seq(self.conc_b)[i] == b0[i],
                forall|i: int| 0 <= i < n * n ==> #[trigger] grid_seq(self.conc_a)[i] <= CAP,
                forall|i: int| 0 <= i < n * n ==> #[trigger] grid_seq(self.conc_b)[i] <= CAP,
            decreases n - r,
        {
            let mut c: usize = 0;
            while c < n
                invariant
                    3 <= n,
                    n * n <= usize::MAX,
                    self.n == n,
                    grid_side(self.conc_a) == n,
                    grid_side(self.conc_b) == n,
                    grid_seq(self.conc_a).len() == n * n,
                    grid_seq(self.conc_b).len() == n * n,
                    a0.len() == n * n,
                    b0.len() == n * n,
                    forall|i: int| 0 <= i < a0.len() ==> #[trigger] a0[i] <= CAP,
                    forall|i: int| 0 <= i < b0.len() ==> #[trigger] b0[i] <= CAP,
                    lap_a@.len() == n * n,
                    lap_b@.len() == n * n,
                    forall|i: int|
                        0 <= i < lap_a@.len() ==> #[trigger] lap_a@[i] == lap_at(a0, n as nat, i),
                    forall|i: int|
                        0 <= i < lap_b@.len() ==> #[trigger] lap_b@[i] == lap_at(b0, n as nat, i),
                    forall|i: int|
                        0 <= i < lap_a@.len() ==> -4 * (CAP as int) <= #[trigger] lap_a@[i] <= 4 * (
                        CAP as int),
                    forall|i: int|
                        0 <= i < lap_b@.len() ==> -4 * (CAP as int) <= #[trigger] lap_b@[i] <= 4 * (
                        CAP as int),
                    r < n,
                    c <= n,
                    k == r * n + c,
                    forall|i: int|
                        0 <= i < k ==> #[trigger] grid_seq(self.conc_a)[i] == step_a_at(
                            a0,
                            b0,
                            n as nat,
                            i,
                        ),
                    forall|i: int|
                        0 <= i < k ==> #[trigger] grid_seq(self.conc_b)[i] == step_b_at(
                            a0,
                            b0,
                            n as nat,
                            i,
                        ),
                    forall|i: int| k <= i < n * n ==> #[trigger] grid_seq(self.conc_a)[i] == a0[i],
                    forall|i: int| k <= i < n * n ==> #[trigger] grid_seq(self.conc_b)[i] == b0[i],
                    forall|i: int| 0 <= i < n * n ==> #[trigger] grid_seq(self.conc_a)[i] <= CAP,
                    forall|i: int| 0 <= i < n * n ==> #[trigger] grid_seq(self.conc_b)[i] <= CAP,
                decreases n - c,
            {
                proof {
                    assert(r * n + c < n * n) by (nonlinear_arith)
                        requires
                            0 <= r < n,
                            0 <= c < n,
                    ;
                }
                let a_old = grid_get(&self.conc_a, r, c);
                let b_old = grid_get(&self.conc_b, r, c);
                let la = lap_a[k];
                let lb = lap_b[k];
                let na = update_cell_a(a_old, b_old, la);
                let nb = update_cell_b(a_old, b_old, lb);
                grid_set(&mut self.conc_a, r, c, na);
                grid_set(&mut self.conc_b, r, c, nb);
                proof {
                    assert(grid_seq(self.conc_a)[k as int] == step_a_at(a0, b0, n as nat, k as int));
                    assert(grid_seq(self.conc_b)[k as int] == step_b_at(a0, b0, n as nat, k as int));
                }
                k += 1;
                c += 1;
            }
            proof {
                assert((r + 1) * n == r * n + n) by (nonlinear_arith);
            }
            r += 1;
        }
    }

    /// Read the requested field as eight-bit grayscale intensities,
    /// row-major.
    pub fn read_intensities(&self, which: Species) -> (out: Vec<u8>)
        requires
            self.wf(),
        ensures
            out@.len() == self.grid_len(),
            forall|i: int|
                0 <= i < out@.len() ==> #[trigger] out@[i] as int == intensity_of(
                    self.cells_of(which)[i],
                ),
    {
        let g: &Grid = match which {
            Species::A => &self.conc_a,
            Species::B => &self.conc_b,
        };
        let n = self.n;
        let mut out: Vec<u8> = Vec::new();
        let mut r: usize = 0;
        let mut k: usize = 0;
        while r < n
            invariant
                3 <= n,
                n * n <= usize::MAX,
                grid_side(*g) == n,
                grid_seq(*g).len() == n * n,
                grid_seq(*g) == self.cells_of(which),
                forall|i: int| 0 <= i < grid_seq(*g).len() ==> #[trigger] grid_seq(*g)[i] <= CAP,
                r <= n,
                k == r * n,
                out@.len() == k,
                forall|i: int|
                    0 <= i < k ==> #[trigger] out@[i] as int == intensity_of(grid_seq(*g)[i]),
            decreases n - r,
        {
            let mut c: usize = 0;
            while c < n
                invariant
                    3 <= n,
                    n * n <= usize::MAX,
                    grid_side(*g) == n,
                    grid_seq(*g).len() == n * n,
                    grid_seq(*g) == self.cells_of(which),
                    forall|i: int|
                        0 <= i < grid_seq(*g).len() ==> #[trigger] grid_seq(*g)[i] <= CAP,
                    r < n,
                    c <= n,
                    k == r * n + c,
                    out@.len() == k,
                    forall|i: int|
                        0 <= i < k ==> #[trigger] out@[i] as int == intensity_of(grid_seq(*g)[i]),
                decreases n - c,
            {
                proof {
                    assert(r * n + c < n * n) by (nonlinear_arith)
                        requires
                            0 <= r < n,
                            0 <= c < n,
                    ;
                }
                let v = grid_get(g, r, c);
                out.push(intensity(v));
                k += 1;
                c += 1;
            }
            proof {
                assert((r + 1) * n == r * n + n) by (nonlinear_arith);
            }
            r += 1;
        }
        out
    }
}

/// Build a grid from explicit cell values, row-major.
fn fill_grid(n: usize, vals: &Vec<u64>) -> (g: Grid)
    requires
        1 <= n,
        n * n <= usize::MAX,
        n * n <= MAX_CELLS,
        vals@.len() == n * n,
    ensures
        grid_side(g) == n,
        grid_seq(g) == vals@,
{
    let mut g = grid_zeros(n);
    let mut r: usize = 0;
    let mut k: usize = 0;
    while r < n
        invariant
            1 <= n,
            n * n <= usize::MAX,
            n * n <= MAX_CELLS,
            vals@.len() == n * n,
            grid_side(g) == n,
            grid_seq(g).len() == n * n,
            r <= n,
            k == r * n,
            forall|i: int| 0 <= i < k ==> #[trigger] grid_seq(g)[i] == vals@[i],
        decreases n - r,
    {
        let mut c: usize = 0;
        while c < n
            invariant
                1 <= n,
                n * n <= usize::MAX,
                n * n <= MAX_CELLS,
                vals@.len() == n * n,
                grid_side(g) == n,
                grid_seq(g).len() == n * n,
                r < n,
                c <= n,
                k == r * n + c,
                forall|i: int| 0 <= i < k ==> #[trigger] grid_seq(g)[i] == vals@[i],
            decreases n - c,
        {
            proof {
                assert(r * n + c < n * n) by (nonlinear_arith)
                    requires
                        0 <= r < n,
                        0 <= c < n,
                ;
            }
            let v = vals[k];
            grid_set(&mut g, r, c, v);
            k += 1;
            c += 1;
        }
        proof {
            assert((r + 1) * n == r * n + n) by (nonlinear_arith);
        }
        r += 1;
    }
    proof {
        assert(grid_seq(g) =~= vals@);
    }
    g
}

/// Dimension invariant: a well-formed simulator's two fields hold the same
/// number of cells, the square of the side length.
pub proof fn lemma_dimension_invariant(s: Simulator)
    requires
        s.wf(),
    ensures
        s.a_cells().len() == s.b_cells().len(),
        s.a_cells().len() == s.grid_len(),
        3 <= s.side(),
{
}

} // verus!
