//! Integer geometry helpers for the terrain grid that consumes track data.

use vstd::prelude::*;

verus! {

/// Total number of triangles in a square terrain grid with `subs`
/// subdivisions per side; zero subdivisions mean no grid at all.
pub fn get_number_triangles(subs: usize) -> (n: usize)
    requires
        (subs + 1) * (subs + 1) * 2 <= usize::MAX,
    ensures
        n == if subs == 0 { 0int } else { (subs + 1) * (subs + 1) * 2 },
{
    if subs == 0 {
        return 0;
    }
    proof {
        assert(subs + 1 <= (subs + 1) * (subs + 1) * 2) by (nonlinear_arith);
        assert((subs + 1) * (subs + 1) <= (subs + 1) * (subs + 1) * 2) by (nonlinear_arith);
    }
    let side: usize = subs + 1;
    side * side * 2
}

/// Number of triangles in one row of the grid.
pub fn get_number_of_triangles_row(subs: usize) -> (n: usize)
    requires
        (subs + 1) * 2 <= usize::MAX,
    ensures
        n == if subs == 0 { 0int } else { (subs + 1) * 2 },
{
    if subs == 0 {
        return 0;
    }
    (subs + 1) * 2
}

/// Number of mesh subdivisions that a row of `data_points_row` samples
/// supports: half the samples, minus one for the shared edge.
pub fn get_num_subdivisions(data_points_row: u32) -> (n: u32)
    requires
        data_points_row >= 2,
    ensures
        n == data_points_row / 2 - 1,
{
    data_points_row / 2 - 1
}

} // verus!
