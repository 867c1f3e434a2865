//! What meshing produces, stated over the grid as a sequence of materials.
//!
//! The chunk is cut into columns along the scan axis. A column is named by a
//! direction and two in-plane coordinates, `layer` and `forward`; a position
//! in it by the scan coordinate `k`. The quads of a mesh are those of the
//! faces shown, ordered by direction, then layer, then forward, then `k`.
//!
//! A quad stores the coordinates of its column: `forward` in `x`, `layer` in
//! `y`, `k` in `z`. For the first and the scan-axis pair of directions these
//! are the logical coordinates of the voxel. For the middle pair `forward`
//! runs along the logical `y` and `layer` along the logical `x`, so the quads
//! tagged 4 and 8 hold the first two coordinates exchanged.

use crate::face::{face_shown_at, lemma_shared_face_hidden, neighbor_step, normal_tag};
use crate::grid::{pad_index, CS, CS_P3};
use crate::quad::PackedQuad;
use vstd::prelude::*;

verus! {

/// Padded offset of the voxel at scan position `k` of column `(layer, forward)`
/// of direction `face`. The middle pair of directions exchanges the two
/// in-plane coordinates.
pub open spec fn column_cell(face: int, layer: int, forward: int, k: int) -> int {
    if face == 2 || face == 3 {
        pad_index(layer, forward, k)
    } else {
        pad_index(forward, layer, k)
    }
}

/// Whether the voxel at `(layer, forward, k)` shows its face in direction `face`.
pub open spec fn face_shown(
    grid: Seq<u16>,
    transparents: Set<u16>,
    face: int,
    layer: int,
    forward: int,
    k: int,
) -> bool {
    face_shown_at(grid, transparents, column_cell(face, layer, forward, k), face)
}

/// The unit quad of that face: placed at `(forward, layer, k)`, one by one,
/// with the material of the voxel that owns the face.
pub open spec fn unit_quad(
    grid: Seq<u16>,
    face: int,
    layer: int,
    forward: int,
    k: int,
) -> PackedQuad {
    PackedQuad::pack(
        forward as nat,
        layer as nat,
        k as nat,
        1,
        1,
        grid[column_cell(face, layer, forward, k)],
        normal_tag(face),
    )
}

/// The quads of one column for scan positions below `n`, in rising order.
pub open spec fn column_quads(
    grid: Seq<u16>,
    transparents: Set<u16>,
    face: int,
    layer: int,
    forward: int,
    n: int,
) -> Seq<PackedQuad>
    decreases n,
{
    if n <= 0 {
        Seq::empty()
    } else {
        let below = column_quads(grid, transparents, face, layer, forward, n - 1);
        if face_shown(grid, transparents, face, layer, forward, n - 1) {
            below.push(unit_quad(grid, face, layer, forward, n - 1))
        } else {
            below
        }
    }
}

/// The quads of the first `n` columns of one layer.
pub open spec fn layer_quads(
    grid: Seq<u16>,
    transparents: Set<u16>,
    face: int,
    layer: int,
    n: int,
) -> Seq<PackedQuad>
    decreases n,
{
    if n <= 0 {
        Seq::empty()
    } else {
        layer_quads(grid, transparents, face, layer, n - 1) + column_quads(
            grid,
            transparents,
            face,
            layer,
            n - 1,
            CS as int,
        )
    }
}

/// The quads of the first `n` layers of one direction.
pub open spec fn face_quads(grid: Seq<u16>, transparents: Set<u16>, face: int, n: int) -> Seq<
    PackedQuad,
>
    decreases n,
{
    if n <= 0 {
        Seq::empty()
    } else {
        face_quads(grid, transparents, face, n - 1) + layer_quads(
            grid,
            transparents,
            face,
            n - 1,
            CS as int,
        )
    }
}

/// The quads of the first `n` directions.
pub open spec fn faces_quads(grid: Seq<u16>, transparents: Set<u16>, n: int) -> Seq<PackedQuad>
    decreases n,
{
    if n <= 0 {
        Seq::empty()
    } else {
        faces_quads(grid, transparents, n - 1) + face_quads(
            grid,
            transparents,
            n - 1,
            CS as int,
        )
    }
}

/// The quads of the whole chunk.
pub open spec fn mesh_quads(grid: Seq<u16>, transparents: Set<u16>) -> Seq<PackedQuad> {
    faces_quads(grid, transparents, 6)
}

/// A voxel of the chunk and its six neighbours lie inside the padded grid.
pub proof fn lemma_column_cell_bounds(face: int, layer: int, forward: int, k: int)
    requires
        0 <= face < 6,
        0 <= layer < CS,
        0 <= forward < CS,
        0 <= k < CS,
    ensures
        4161 <= column_cell(face, layer, forward, k) < 257983,
        0 <= column_cell(face, layer, forward, k) + neighbor_step(face) < CS_P3,
{
}

/// A column gains no quad over a stretch of positions that show no face.
pub proof fn lemma_column_quads_skip(
    grid: Seq<u16>,
    transparents: Set<u16>,
    face: int,
    layer: int,
    forward: int,
    from: int,
    to: int,
)
    requires
        0 <= from <= to,
        forall|k: int| from <= k < to ==> !face_shown(grid, transparents, face, layer, forward, k),
    ensures
        column_quads(grid, transparents, face, layer, forward, to) == column_quads(
            grid,
            transparents,
            face,
            layer,
            forward,
            from,
        ),
    decreases to - from,
{
    if from < to {
        lemma_column_quads_skip(grid, transparents, face, layer, forward, from, to - 1);
    }
}

/// A face between two voxels of one material adds no quad to its column.
pub proof fn lemma_shared_face_no_quad(
    grid: Seq<u16>,
    transparents: Set<u16>,
    face: int,
    layer: int,
    forward: int,
    k: int,
)
    requires
        0 <= face < 6,
        0 <= k,
        grid[column_cell(face, layer, forward, k)] != 0,
        grid[column_cell(face, layer, forward, k) + neighbor_step(face)] == grid[column_cell(
            face,
            layer,
            forward,
            k,
        )],
    ensures
        !face_shown(grid, transparents, face, layer, forward, k),
        column_quads(grid, transparents, face, layer, forward, k + 1) == column_quads(
            grid,
            transparents,
            face,
            layer,
            forward,
            k,
        ),
{
    lemma_shared_face_hidden(grid, transparents, column_cell(face, layer, forward, k), face);
}

/// A grid without solid voxels has no quads.
pub proof fn lemma_empty_grid_no_quads(grid: Seq<u16>, transparents: Set<u16>)
    requires
        grid.len() == CS_P3,
        forall|i: int| 0 <= i < grid.len() ==> grid[i] == 0,
    ensures
        mesh_quads(grid, transparents) == Seq::<PackedQuad>::empty(),
{
    assert forall|face: int, layer: int, forward: int|
        0 <= face < 6 && 0 <= layer < CS && 0 <= forward < CS implies #[trigger] column_quads(
        grid,
        transparents,
        face,
        layer,
        forward,
        62,
    ) == Seq::<PackedQuad>::empty() by {
        assert forall|k: int| 0 <= k < 62 implies !face_shown(
            grid,
            transparents,
            face,
            layer,
            forward,
            k,
        ) by {
            lemma_column_cell_bounds(face, layer, forward, k);
        }
        lemma_column_quads_skip(grid, transparents, face, layer, forward, 0, 62);
    }
    assert forall|face: int, layer: int|
        0 <= face < 6 && 0 <= layer < 62 implies #[trigger] layer_quads(
        grid,
        transparents,
        face,
        layer,
        62,
    ) == Seq::<PackedQuad>::empty() by {
        lemma_layer_empty(grid, transparents, face, layer, 62);
    }
    assert forall|face: int| 0 <= face < 6 implies #[trigger] face_quads(
        grid,
        transparents,
        face,
        62,
    ) == Seq::<PackedQuad>::empty() by {
        lemma_face_empty(grid, transparents, face, 62);
    }
    reveal_with_fuel(faces_quads, 7);
}

/// A layer in which one column alone has quads has the quads of that column.
proof fn lemma_layer_one_column(
    grid: Seq<u16>,
    transparents: Set<u16>,
    face: int,
    layer: int,
    only: int,
    n: int,
)
    requires
        0 <= only < CS,
        0 <= n <= CS,
        forall|forward: int|
            0 <= forward < 62 && forward != only ==> #[trigger] column_quads(
                grid,
                transparents,
                face,
                layer,
                forward,
                62,
            ) == Seq::<PackedQuad>::empty(),
    ensures
        layer_quads(grid, transparents, face, layer, n) == (if n > only {
            column_quads(grid, transparents, face, layer, only, 62)
        } else {
            Seq::<PackedQuad>::empty()
        }),
    decreases n,
{
    if n > 0 {
        lemma_layer_one_column(grid, transparents, face, layer, only, n - 1);
        assert(layer_quads(grid, transparents, face, layer, n) =~= (if n > only {
            column_quads(grid, transparents, face, layer, only, 62)
        } else {
            Seq::<PackedQuad>::empty()
        }));
    }
}

/// A direction in which one layer alone has quads has the quads of that layer.
proof fn lemma_face_one_layer(
    grid: Seq<u16>,
    transparents: Set<u16>,
    face: int,
    only: int,
    n: int,
)
    requires
        0 <= only < CS,
        0 <= n <= CS,
        forall|layer: int|
            0 <= layer < 62 && layer != only ==> #[trigger] layer_quads(
                grid,
                transparents,
                face,
                layer,
                62,
            ) == Seq::<PackedQuad>::empty(),
    ensures
        face_quads(grid, transparents, face, n) == (if n > only {
            layer_quads(grid, transparents, face, only, 62)
        } else {
            Seq::<PackedQuad>::empty()
        }),
    decreases n,
{
    if n > 0 {
        lemma_face_one_layer(grid, transparents, face, only, n - 1);
        assert(face_quads(grid, transparents, face, n) =~= (if n > only {
            layer_quads(grid, transparents, face, only, 62)
        } else {
            Seq::<PackedQuad>::empty()
        }));
    }
}

/// Two voxels of the chunk with the same padded offset are the same voxel.
pub proof fn lemma_pad_index_one_to_one(x1: int, y1: int, z1: int, x2: int, y2: int, z2: int)
    requires
        0 <= x1 < CS,
        0 <= y1 < CS,
        0 <= z1 < CS,
        0 <= x2 < CS,
        0 <= y2 < CS,
        0 <= z2 < CS,
        pad_index(x1, y1, z1) == pad_index(x2, y2, z2),
    ensures
        x1 == x2,
        y1 == y2,
        z1 == z2,
{
}

/// In a grid with a single solid voxel, that voxel shows all six faces and
/// no other position shows any.
proof fn lemma_single_voxel_shown(
    grid: Seq<u16>,
    transparents: Set<u16>,
    face: int,
    x: int,
    y: int,
    z: int,
    layer: int,
    forward: int,
    k: int,
)
    requires
        grid.len() == CS_P3,
        0 <= face < 6,
        0 <= x < CS,
        0 <= y < CS,
        0 <= z < CS,
        0 <= layer < CS,
        0 <= forward < CS,
        0 <= k < CS,
        grid[pad_index(x, y, z)] != 0,
        forall|i: int| 0 <= i < grid.len() && i != pad_index(x, y, z) ==> grid[i] == 0,
    ensures
        face_shown(grid, transparents, face, layer, forward, k) <==> k == z && (if face == 2 || face
            == 3 {
            layer == x && forward == y
        } else {
            layer == y && forward == x
        }),
{
    lemma_column_cell_bounds(face, layer, forward, k);
    let at = column_cell(face, layer, forward, k);
    if at == pad_index(x, y, z) {
        if face == 2 || face == 3 {
            lemma_pad_index_one_to_one(layer, forward, k, x, y, z);
        } else {
            lemma_pad_index_one_to_one(forward, layer, k, x, y, z);
        }
        assert(grid[at + neighbor_step(face)] == 0);
    } else {
        assert(grid[at] == 0);
    }
}

/// The quads of one direction of a grid with a single solid voxel.
proof fn lemma_single_voxel_face(
    grid: Seq<u16>,
    transparents: Set<u16>,
    face: int,
    x: int,
    y: int,
    z: int,
)
    requires
        grid.len() == CS_P3,
        0 <= face < 6,
        0 <= x < CS,
        0 <= y < CS,
        0 <= z < CS,
        grid[pad_index(x, y, z)] != 0,
        forall|i: int| 0 <= i < grid.len() && i != pad_index(x, y, z) ==> grid[i] == 0,
    ensures
        face_quads(grid, transparents, face, 62) == seq![
            unit_quad(
                grid,
                face,
                if face == 2 || face == 3 {
                    x
                } else {
                    y
                },
                if face == 2 || face == 3 {
                    y
                } else {
                    x
                },
                z,
            ),
        ],
{
    let home_layer = if face == 2 || face == 3 {
        x
    } else {
        y
    };
    let home_forward = if face == 2 || face == 3 {
        y
    } else {
        x
    };
    assert forall|layer: int, forward: int, k: int|
        0 <= layer < 62 && 0 <= forward < 62 && 0 <= k < 62 implies (#[trigger] face_shown(
        grid,
        transparents,
        face,
        layer,
        forward,
        k,
    ) <==> layer == home_layer && forward == home_forward && k == z) by {
        lemma_single_voxel_shown(grid, transparents, face, x, y, z, layer, forward, k);
    }
    assert forall|layer: int, forward: int|
        0 <= layer < 62 && 0 <= forward < 62 && !(layer == home_layer && forward
            == home_forward) implies #[trigger] column_quads(
        grid,
        transparents,
        face,
        layer,
        forward,
        62,
    ) == Seq::<PackedQuad>::empty() by {
        lemma_column_quads_skip(grid, transparents, face, layer, forward, 0, 62);
    }
    assert(column_quads(grid, transparents, face, home_layer, home_forward, 62) == seq![
        unit_quad(grid, face, home_layer, home_forward, z),
    ]) by {
        lemma_column_quads_skip(grid, transparents, face, home_layer, home_forward, 0, z);
        lemma_column_quads_skip(grid, transparents, face, home_layer, home_forward, z + 1, 62);
        assert(column_quads(grid, transparents, face, home_layer, home_forward, z + 1)
            =~= seq![unit_quad(grid, face, home_layer, home_forward, z)]);
    }
    assert forall|layer: int| 0 <= layer < 62 && layer != home_layer implies #[trigger] layer_quads(
        grid,
        transparents,
        face,
        layer,
        62,
    ) == Seq::<PackedQuad>::empty() by {
        lemma_layer_empty(grid, transparents, face, layer, 62);
    }
    lemma_layer_one_column(grid, transparents, face, home_layer, home_forward, 62);
    lemma_face_one_layer(grid, transparents, face, home_layer, 62);
}

/// A grid whose only solid voxel lies at logical `(x, y, z)` has six quads,
/// one per direction in the order of the directions. Each is one by one,
/// carries the voxel's material, and lies at the voxel; the quads of the
/// middle pair of directions hold `x` and `y` exchanged.
pub proof fn lemma_single_voxel_quads(
    grid: Seq<u16>,
    transparents: Set<u16>,
    x: int,
    y: int,
    z: int,
)
    requires
        grid.len() == CS_P3,
        0 <= x < CS,
        0 <= y < CS,
        0 <= z < CS,
        grid[pad_index(x, y, z)] != 0,
        forall|i: int| 0 <= i < grid.len() && i != pad_index(x, y, z) ==> grid[i] == 0,
    ensures
        mesh_quads(grid, transparents) == seq![
            PackedQuad::pack(x as nat, y as nat, z as nat, 1, 1, grid[pad_index(x, y, z)], 1),
            PackedQuad::pack(x as nat, y as nat, z as nat, 1, 1, grid[pad_index(x, y, z)], 2),
            PackedQuad::pack(y as nat, x as nat, z as nat, 1, 1, grid[pad_index(x, y, z)], 4),
            PackedQuad::pack(y as nat, x as nat, z as nat, 1, 1, grid[pad_index(x, y, z)], 8),
            PackedQuad::pack(x as nat, y as nat, z as nat, 1, 1, grid[pad_index(x, y, z)], 1),
            PackedQuad::pack(x as nat, y as nat, z as nat, 1, 1, grid[pad_index(x, y, z)], 2),
        ],
{
    lemma_single_voxel_face(grid, transparents, 0, x, y, z);
    lemma_single_voxel_face(grid, transparents, 1, x, y, z);
    lemma_single_voxel_face(grid, transparents, 2, x, y, z);
    lemma_single_voxel_face(grid, transparents, 3, x, y, z);
    lemma_single_voxel_face(grid, transparents, 4, x, y, z);
    lemma_single_voxel_face(grid, transparents, 5, x, y, z);
    reveal_with_fuel(faces_quads, 7);
    assert(mesh_quads(grid, transparents) =~= seq![
        PackedQuad::pack(x as nat, y as nat, z as nat, 1, 1, grid[pad_index(x, y, z)], 1),
        PackedQuad::pack(x as nat, y as nat, z as nat, 1, 1, grid[pad_index(x, y, z)], 2),
        PackedQuad::pack(y as nat, x as nat, z as nat, 1, 1, grid[pad_index(x, y, z)], 4),
        PackedQuad::pack(y as nat, x as nat, z as nat, 1, 1, grid[pad_index(x, y, z)], 8),
        PackedQuad::pack(x as nat, y as nat, z as nat, 1, 1, grid[pad_index(x, y, z)], 1),
        PackedQuad::pack(x as nat, y as nat, z as nat, 1, 1, grid[pad_index(x, y, z)], 2),
    ]);
}

proof fn lemma_layer_empty(grid: Seq<u16>, transparents: Set<u16>, face: int, layer: int, n: int)
    requires
        0 <= n <= CS,
        forall|forward: int|
            0 <= forward < 62 ==> #[trigger] column_quads(
                grid,
                transparents,
                face,
                layer,
                forward,
                62,
            ) == Seq::<PackedQuad>::empty(),
    ensures
        layer_quads(grid, transparents, face, layer, n) == Seq::<PackedQuad>::empty(),
    decreases n,
{
    if n > 0 {
        lemma_layer_empty(grid, transparents, face, layer, n - 1);
    }
}

proof fn lemma_face_empty(grid: Seq<u16>, transparents: Set<u16>, face: int, n: int)
    requires
        0 <= n <= CS,
        forall|layer: int|
            0 <= layer < 62 ==> #[trigger] layer_quads(grid, transparents, face, layer, 62)
                == Seq::<PackedQuad>::empty(),
    ensures
        face_quads(grid, transparents, face, n) == Seq::<PackedQuad>::empty(),
    decreases n,
{
    if n > 0 {
        lemma_face_empty(grid, transparents, face, n - 1);
    }
}

} // verus!
