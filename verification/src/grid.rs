//! Square grids of fixed-point concentration values, stored in `ndarray`
//! arrays. The array is held in an opaque struct: its contents and side
//! length are named by uninterpreted spec functions, and every array
//! operation the simulation needs goes through a trusted wrapper whose
//! contract states what `ndarray` documents.

use vstd::prelude::*;
use crate::params::MAX_CELLS;
use ndarray_rand::RandomExt;

verus! {

/// A square grid of cells, backed by an owned `ndarray::Array2<u64>`.
#[verifier::external_body]
pub struct Grid {
    cells: ndarray::Array2<u64>,
}

/// The cells of the grid as one row-major sequence (the memory order of a
/// freshly created owned `ndarray` array).
pub uninterp spec fn grid_seq(g: Grid) -> Seq<u64>;

/// The side length the square grid was created with.
pub uninterp spec fn grid_side(g: Grid) -> nat;

/// Relies on `ndarray::ArrayBase::zeros`: an `(n, n)` array filled with
/// zero. The cell-count bound keeps the allocation within `isize::MAX`
/// bytes, below which `zeros` is documented not to panic.
#[verifier::external_body]
pub(crate) fn grid_zeros(n: usize) -> (g: Grid)
    requires
        n * n <= MAX_CELLS,
    ensures
        grid_side(g) == n,
        grid_seq(g) == Seq::new((n * n) as nat, |i: int| 0u64),
{
    Grid { cells: ndarray::Array2::zeros((n, n)) }
}

/// Relies on indexing an `ndarray` array with `[row, col]`
/// (`ndarray`'s `Index` impl): the element at that position.
#[verifier::external_body]
pub(crate) fn grid_get(g: &Grid, r: usize, c: usize) -> (v: u64)
    requires
        r < grid_side(*g),
        c < grid_side(*g),
        grid_seq(*g).len() == grid_side(*g) * grid_side(*g),
    ensures
        v == grid_seq(*g)[r * grid_side(*g) + c],
{
    g.cells[[r, c]]
}

/// Relies on assigning through `ndarray`'s `IndexMut` impl: the element at
/// `[row, col]` is replaced and nothing else changes.
#[verifier::external_body]
pub(crate) fn grid_set(g: &mut Grid, r: usize, c: usize, v: u64)
    requires
        r < grid_side(*old(g)),
        c < grid_side(*old(g)),
    ensures
        grid_side(*final(g)) == grid_side(*old(g)),
        grid_seq(*final(g)) == grid_seq(*old(g)).update(
            (r * grid_side(*old(g)) + c) as int,
            v,
        ),
{
    g.cells[[r, c]] = v;
}

/// Relies on `ndarray_rand`'s `RandomExt::random` with `rand`'s integer
/// `Uniform` distribution: an `(n, n)` array whose entries are all drawn
/// from the half-open range `[lo, hi)`. A nonempty range and a nonempty
/// shape within the allocation bound keep the call from panicking.
#[verifier::external_body]
pub(crate) fn grid_random(n: usize, lo: u64, hi: u64) -> (g: Grid)
    requires
        1 <= n,
        n * n <= MAX_CELLS,
        lo < hi,
    ensures
        grid_side(g) == n,
        grid_seq(g).len() == n * n,
        forall|i: int|
            0 <= i < grid_seq(g).len() ==> lo <= #[trigger] grid_seq(g)[i] < hi,
{
    let dist = ndarray_rand::rand_distr::Uniform::new(lo, hi).unwrap();
    Grid { cells: ndarray::Array2::random((n, n), dist) }
}

} // verus!
