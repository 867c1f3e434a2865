//! Chunk dimensions and the linear layout of the padded grid.

use vstd::prelude::*;

verus! {

/// Edge length of the logical chunk.
pub const CS: usize = 62;

/// Number of columns in one plane of the logical chunk.
pub const CS_2: usize = 3844;

/// Edge length of the padded grid: the chunk plus one border cell on each side.
pub const CS_P: usize = 64;

/// Number of cells in one plane of the padded grid.
pub const CS_P2: usize = 4096;

/// Number of cells in the padded grid.
pub const CS_P3: usize = 262144;

/// Linear offset of the padded cell with padded coordinates `(a, b, c)`,
/// where `a` has the largest stride and `c` is the scan coordinate.
pub open spec fn cell(a: int, b: int, c: int) -> int {
    a * CS_P2 + b * CS_P + c
}

/// Linear offset in the padded grid of the voxel with logical coordinates `(x, y, z)`.
pub open spec fn pad_index(x: int, y: int, z: int) -> int {
    z + 1 + (x + 1) * CS_P + (y + 1) * CS_P2
}

/// Maps logical coordinates to the offset of that voxel in the padded grid.
pub fn pad_linearize(x: usize, y: usize, z: usize) -> (offset: usize)
    requires
        pad_index(x as int, y as int, z as int) <= usize::MAX,
    ensures
        offset == pad_index(x as int, y as int, z as int),
{
    z + 1 + (x + 1) * CS_P + (y + 1) * CS_P2
}

/// The per-axis permutation of `(a, b, c)` into a padded offset.
pub open spec fn axis_index(axis: int, a: int, b: int, c: int) -> int {
    if axis == 0 {
        b + a * CS_P + c * CS_P2
    } else if axis == 1 {
        b + c * CS_P + a * CS_P2
    } else {
        c + a * CS_P + b * CS_P2
    }
}

/// Padded offset addressed by `(a, b, c)` under the permutation of `axis`.
pub fn get_axis_index(axis: usize, a: usize, b: usize, c: usize) -> (offset: usize)
    requires
        axis_index(axis as int, a as int, b as int, c as int) <= usize::MAX,
    ensures
        offset == axis_index(axis as int, a as int, b as int, c as int),
{
    match axis {
        0 => b + (a * CS_P) + (c * CS_P2),
        1 => b + (c * CS_P) + (a * CS_P2),
        _ => c + (a * CS_P) + (b * CS_P2),
    }
}

} // verus!
