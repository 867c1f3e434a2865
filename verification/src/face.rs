//! Face directions and the rule that decides whether a unit face is drawn.
//!
//! The six directions come in three pairs. Directions 0 and 1 look along the
//! axis with the largest stride of the padded grid, 2 and 3 along the middle
//! one, 4 and 5 along the scan axis. The even direction of a pair looks towards
//! larger offsets.

use crate::grid::{CS_P, CS_P2};
use std::collections::BTreeSet;
use vstd::prelude::*;

verus! {

/// Whether the face of a voxel of material `v1` towards a neighbour of
/// material `v2` is drawn: the neighbour is empty, or it is another material
/// and transparent.
pub open spec fn face_visible(v1: u16, v2: u16, transparents: Set<u16>) -> bool {
    v2 == 0 || (v1 != v2 && transparents.contains(v2))
}

/// Offset from a padded cell to its neighbour in direction `face`.
pub open spec fn neighbor_step(face: int) -> int {
    if face == 0 {
        CS_P2 as int
    } else if face == 1 {
        -(CS_P2 as int)
    } else if face == 2 {
        CS_P as int
    } else if face == 3 {
        -(CS_P as int)
    } else if face == 4 {
        1
    } else {
        -1
    }
}

/// The direction that looks back from the neighbour in direction `face`.
pub open spec fn opposite(face: int) -> int {
    if face % 2 == 0 {
        face + 1
    } else {
        face - 1
    }
}

/// The normal tag stamped on quads of direction `face`. The scan-axis pair
/// reuses the tags of the first pair.
pub open spec fn normal_tag(face: int) -> u16 {
    if face == 0 || face == 4 {
        1
    } else if face == 1 || face == 5 {
        2
    } else if face == 2 {
        4
    } else {
        8
    }
}

/// Whether the padded cell at offset `at` shows its face in direction `face`:
/// the cell is solid and the rule admits the face towards its neighbour.
pub open spec fn face_shown_at(grid: Seq<u16>, transparents: Set<u16>, at: int, face: int) -> bool {
    grid[at] != 0 && face_visible(grid[at], grid[at + neighbor_step(face)], transparents)
}

/// The visibility rule as a bit: 1 where the face is drawn, 0 where it is culled.
pub fn face_value(v1: u16, v2: u16, transparents: &BTreeSet<u16>) -> (bit: u64)
    ensures
        bit == (if face_visible(v1, v2, transparents@) {
            1u64
        } else {
            0u64
        }),
{
    if v2 == 0 || (v1 != v2 && transparents.contains(&v2)) {
        1
    } else {
        0
    }
}

/// The normal tag of direction `face`.
pub(crate) fn face_normal(face: usize) -> (tag: u16)
    requires
        face < 6,
    ensures
        tag == normal_tag(face as int),
{
    match face {
        0 => 0b0001,
        1 => 0b0010,
        2 => 0b0100,
        3 => 0b1000,
        4 => 0b0001,
        _ => 0b0010,
    }
}

/// A solid voxel never shows a face towards a neighbour of its own material,
/// whatever the transparency set holds.
pub proof fn lemma_same_material_hidden(v: u16, transparents: Set<u16>)
    requires
        v != 0,
    ensures
        !face_visible(v, v, transparents),
{
}

/// Where two neighbouring cells hold the same material, neither shows the
/// face that they share.
pub proof fn lemma_shared_face_hidden(grid: Seq<u16>, transparents: Set<u16>, at: int, face: int)
    requires
        0 <= face < 6,
        grid[at] != 0,
        grid[at + neighbor_step(face)] == grid[at],
    ensures
        !face_shown_at(grid, transparents, at, face),
        !face_shown_at(grid, transparents, at + neighbor_step(face), opposite(face)),
{
}

} // verus!
