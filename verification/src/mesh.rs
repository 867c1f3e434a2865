//! The reusable meshing state and the meshing entry point.
//!
//! Every face is emitted as a unit quad: one shown face of one voxel gives one
//! quad of width and height 1. Runs of equal faces are not merged into larger
//! rectangles. The two merge buffers of [`MeshBuffers`] are set aside for such
//! a pass; they are allocated, kept zero, and read nowhere.

use crate::bits::{bit_set, lemma_clear_word, lemma_lowest_bit, lemma_zero_word};
use crate::face::{face_normal, normal_tag};
use crate::grid::{get_axis_index, CS, CS_2, CS_P3};
use crate::mask::{build_face_masks, mask_shift, masks_built, word_holds, word_index};
use crate::model::{
    column_quads,
    face_quads,
    face_shown,
    faces_quads,
    layer_quads,
    lemma_column_cell_bounds,
    lemma_column_quads_skip,
    lemma_empty_grid_no_quads,
    mesh_quads,
    unit_quad,
};
use crate::quad::PackedQuad;
use std::collections::BTreeSet;
use vstd::prelude::*;

verus! {

/// The working buffers of the mesher: the face masks and the two buffers
/// set aside for merging runs of equal faces. They are zero between calls.
#[derive(Debug)]
pub struct MeshBuffers {
    face_masks: Vec<u64>,
    forward_merged: Vec<u8>,
    right_merged: Vec<u8>,
}

impl MeshBuffers {
    /// Each buffer has its fixed length: six planes of mask words, one plane
    /// of run lengths, one row of merge marks.
    pub closed spec fn sized(&self) -> bool {
        &&& self.face_masks@.len() == 6 * CS_2
        &&& self.forward_merged@.len() == CS_2
        &&& self.right_merged@.len() == CS
    }

    /// Every mask word and every merge byte is zero.
    pub closed spec fn zeroed(&self) -> bool {
        &&& forall|i: int| 0 <= i < self.face_masks@.len() ==> self.face_masks@[i] == 0
        &&& forall|i: int| 0 <= i < self.forward_merged@.len() ==> self.forward_merged@[i] == 0
        &&& forall|i: int| 0 <= i < self.right_merged@.len() ==> self.right_merged@[i] == 0
    }

    /// The state of the buffers whenever no call is running.
    pub open spec fn idle(&self) -> bool {
        self.sized() && self.zeroed()
    }

    fn new() -> (buffers: Self)
        ensures
            buffers.idle(),
    {
        Self {
            face_masks: vec![0; CS_2 * 6],
            forward_merged: vec![0; CS_2],
            right_merged: vec![0; CS],
        }
    }

    fn clear(&mut self)
        ensures
            final(self).zeroed(),
            old(self).sized() ==> final(self).sized(),
    {
        zero_words(&mut self.face_masks);
        zero_bytes(&mut self.forward_merged);
        zero_bytes(&mut self.right_merged);
    }
}

/// The state that meshing works in, kept between calls so that a worker
/// meshes many chunks without allocating anew.
#[derive(Debug)]
pub struct MeshData {
    /// The quads of the chunks meshed since the last `clear`.
    pub quads: Vec<PackedQuad>,
    /// The working buffers.
    pub buffers: MeshBuffers,
}

impl View for MeshData {
    type V = Seq<PackedQuad>;

    /// The quad list.
    open spec fn view(&self) -> Seq<PackedQuad> {
        self.quads@
    }
}

impl MeshData {
    /// The working buffers are idle.
    pub open spec fn wf(&self) -> bool {
        self.buffers.idle()
    }

    /// Zeroed buffers and an empty quad list.
    pub fn new() -> (mesh_data: Self)
        ensures
            mesh_data.wf(),
            mesh_data@ == Seq::<PackedQuad>::empty(),
    {
        Self { quads: Vec::new(), buffers: MeshBuffers::new() }
    }

    /// Zeroes the buffers and empties the quad list; the storage is kept.
    pub fn clear(&mut self)
        requires
            old(self).buffers.sized(),
        ensures
            final(self).wf(),
            final(self)@ == Seq::<PackedQuad>::empty(),
    {
        self.buffers.clear();
        self.quads.clear();
    }
}

/// Meshing is a function of what the state holds, the grid and the
/// transparency set: two calls that agree on these leave the same quads in
/// the same order.
pub proof fn lemma_mesh_deterministic(
    before1: MeshData,
    after1: MeshData,
    before2: MeshData,
    after2: MeshData,
    grid1: Seq<u16>,
    grid2: Seq<u16>,
    transparents1: Set<u16>,
    transparents2: Set<u16>,
)
    requires
        before1@ == before2@,
        grid1 =~= grid2,
        transparents1 =~= transparents2,
        after1@ == before1@ + mesh_quads(grid1, transparents1),
        after2@ == before2@ + mesh_quads(grid2, transparents2),
    ensures
        after1@ == after2@,
{
}

/// Nothing of an earlier mesh survives `clear`: a cleared state that then
/// meshes a grid without solid voxels holds no quads.
pub proof fn lemma_clear_forgets(
    cleared: MeshData,
    after: MeshData,
    grid: Seq<u16>,
    transparents: Set<u16>,
)
    requires
        cleared@ == Seq::<PackedQuad>::empty(),
        after@ == cleared@ + mesh_quads(grid, transparents),
        grid.len() == CS_P3,
        forall|i: int| 0 <= i < grid.len() ==> grid[i] == 0,
    ensures
        after@ == Seq::<PackedQuad>::empty(),
{
    lemma_empty_grid_no_quads(grid, transparents);
}

/// Sets every word of the buffer to zero.
fn zero_words(buffer: &mut Vec<u64>)
    ensures
        final(buffer)@.len() == old(buffer)@.len(),
        forall|i: int| 0 <= i < final(buffer)@.len() ==> final(buffer)@[i] == 0,
{
    let len = buffer.len();
    for i in 0..len
        invariant
            buffer@.len() == len,
            forall|j: int| 0 <= j < i ==> buffer@[j] == 0,
    {
        buffer[i] = 0;
    }
}

/// Sets every byte of the buffer to zero.
fn zero_bytes(buffer: &mut Vec<u8>)
    ensures
        final(buffer)@.len() == old(buffer)@.len(),
        forall|i: int| 0 <= i < final(buffer)@.len() ==> final(buffer)@[i] == 0,
{
    let len = buffer.len();
    for i in 0..len
        invariant
            buffer@.len() == len,
            forall|j: int| 0 <= j < i ==> buffer@[j] == 0,
    {
        buffer[i] = 0;
    }
}

/// The words below `cursor` are drained; the others still record their columns.
spec fn masks_drained(
    masks: Seq<u64>,
    grid: Seq<u16>,
    transparents: Set<u16>,
    cursor: int,
) -> bool {
    &&& masks.len() == 6 * CS_2
    &&& forall|i: int| 0 <= i < cursor && i < masks.len() ==> masks[i] == 0
    &&& forall|face: int, layer: int, forward: int|
        0 <= face < 6 && 0 <= layer < CS && 0 <= forward < CS && cursor <= word_index(
            face,
            layer,
            forward,
        ) ==> word_holds(
            masks[#[trigger] word_index(face, layer, forward)],
            grid,
            transparents,
            face,
            layer,
            forward,
            CS as int,
        )
}

/// `bits` is `word` without its bits below `cursor`.
spec fn remaining(bits: u64, word: u64, cursor: int) -> bool {
    forall|p: int|
        0 <= p < 64 ==> (#[trigger] bit_set(bits, p) <==> cursor <= p && bit_set(word, p))
}

/// Before a word is drained, nothing of it is missing.
proof fn lemma_emit_start(
    word: u64,
    grid: Seq<u16>,
    transparents: Set<u16>,
    face: int,
    layer: int,
    forward: int,
)
    requires
        word_holds(word, grid, transparents, face, layer, forward, CS as int),
    ensures
        remaining(word, word, mask_shift(face)),
{
    reveal(word_holds);
}

/// The lowest bit left in a word is the next face of its column.
proof fn lemma_emit_step(
    bits: u64,
    word: u64,
    grid: Seq<u16>,
    transparents: Set<u16>,
    face: int,
    layer: int,
    forward: int,
    n: int,
)
    requires
        0 <= face < 6,
        0 <= n <= CS,
        bits != 0,
        word_holds(word, grid, transparents, face, layer, forward, CS as int),
        remaining(bits, word, n + mask_shift(face)),
    ensures
        bits.trailing_zeros() < 64,
        n <= bits.trailing_zeros() - mask_shift(face) < CS,
        face_shown(
            grid,
            transparents,
            face,
            layer,
            forward,
            bits.trailing_zeros() - mask_shift(face),
        ),
        column_quads(
            grid,
            transparents,
            face,
            layer,
            forward,
            bits.trailing_zeros() - mask_shift(face) + 1,
        ) == column_quads(grid, transparents, face, layer, forward, n).push(
            unit_quad(grid, face, layer, forward, bits.trailing_zeros() - mask_shift(face)),
        ),
        remaining(
            bits & !(1u64 << (bits.trailing_zeros() as u64)),
            word,
            bits.trailing_zeros() + 1,
        ),
{
    reveal(word_holds);
    let tz = bits.trailing_zeros() as int;
    let k = tz - mask_shift(face);
    lemma_lowest_bit(bits);
    lemma_clear_word(bits, tz);
    assert(bit_set(bits, tz));
    assert(bit_set(word, tz));
    assert forall|j: int| n <= j < k implies !face_shown(
        grid,
        transparents,
        face,
        layer,
        forward,
        j,
    ) by {
        let p = j + mask_shift(face);
        assert(!bit_set(bits, p));
        assert(!bit_set(word, p));
    }
    lemma_column_quads_skip(grid, transparents, face, layer, forward, n, k);
}

/// A word with no bit left has given all the quads of its column.
proof fn lemma_emit_done(
    word: u64,
    grid: Seq<u16>,
    transparents: Set<u16>,
    face: int,
    layer: int,
    forward: int,
    n: int,
)
    requires
        0 <= face < 6,
        0 <= n <= CS,
        word_holds(word, grid, transparents, face, layer, forward, CS as int),
        remaining(0, word, n + mask_shift(face)),
    ensures
        column_quads(grid, transparents, face, layer, forward, 62) == column_quads(
            grid,
            transparents,
            face,
            layer,
            forward,
            n,
        ),
{
    reveal(word_holds);
    lemma_zero_word();
    assert forall|j: int| n <= j < 62 implies !face_shown(
        grid,
        transparents,
        face,
        layer,
        forward,
        j,
    ) by {
        let p = j + mask_shift(face);
        assert(!bit_set(0, p));
        assert(!bit_set(word, p));
    }
    lemma_column_quads_skip(grid, transparents, face, layer, forward, n, 62);
}

/// Drains the face masks into quads, appended to `quads` by direction, layer,
/// column and scan position. The masks are zero afterwards.
fn emit_quads(
    voxels: &[u16],
    face_masks: &mut Vec<u64>,
    quads: &mut Vec<PackedQuad>,
    Ghost(transparents): Ghost<Set<u16>>,
)
    requires
        voxels@.len() == CS_P3,
        masks_built(old(face_masks)@, voxels@, transparents),
    ensures
        final(face_masks)@.len() == 6 * CS_2,
        forall|i: int| 0 <= i < final(face_masks)@.len() ==> final(face_masks)@[i] == 0,
        final(quads)@ == old(quads)@ + mesh_quads(voxels@, transparents),
{
    let ghost grid = voxels@;
    let ghost start = quads@;
    assert(quads@ =~= start + faces_quads(grid, transparents, 0));
    for face in 0..6
        invariant
            voxels@ == grid,
            grid.len() == CS_P3,
            masks_drained(face_masks@, grid, transparents, face * CS_2),
            quads@ == start + faces_quads(grid, transparents, face as int),
    {
        let normal = face_normal(face);
        let ghost face_start = quads@;
        assert(quads@ =~= face_start + face_quads(grid, transparents, face as int, 0));
        for layer in 0..CS
            invariant
                0 <= face < 6,
                normal == normal_tag(face as int),
                voxels@ == grid,
                grid.len() == CS_P3,
                masks_drained(face_masks@, grid, transparents, face * CS_2 + layer * CS),
                quads@ == face_start + face_quads(grid, transparents, face as int, layer as int),
        {
            let bits_location = layer * CS + face * CS_2;
            let ghost layer_start = quads@;
            assert(quads@ =~= layer_start + layer_quads(
                grid,
                transparents,
                face as int,
                layer as int,
                0,
            ));
            for forward in 0..CS
                invariant
                    0 <= face < 6,
                    0 <= layer < CS,
                    bits_location == layer * CS + face * CS_2,
                    normal == normal_tag(face as int),
                    voxels@ == grid,
                    grid.len() == CS_P3,
                    masks_drained(face_masks@, grid, transparents, bits_location + forward),
                    quads@ == layer_start + layer_quads(
                        grid,
                        transparents,
                        face as int,
                        layer as int,
                        forward as int,
                    ),
            {
                let mut bits_here = face_masks[forward + bits_location];
                let ghost word = bits_here;
                let ghost column_start = quads@;
                let ghost n: int = 0;
                proof {
                    assert(word == face_masks@[word_index(
                        face as int,
                        layer as int,
                        forward as int,
                    )]);
                    lemma_emit_start(
                        word,
                        grid,
                        transparents,
                        face as int,
                        layer as int,
                        forward as int,
                    );
                    assert(quads@ =~= column_start + column_quads(
                        grid,
                        transparents,
                        face as int,
                        layer as int,
                        forward as int,
                        0,
                    ));
                }
                while bits_here != 0
                    invariant
                        0 <= face < 6,
                        0 <= layer < CS,
                        0 <= forward < CS,
                        0 <= n <= CS,
                        normal == normal_tag(face as int),
                        voxels@ == grid,
                        grid.len() == CS_P3,
                        word_holds(
                            word,
                            grid,
                            transparents,
                            face as int,
                            layer as int,
                            forward as int,
                            62,
                        ),
                        remaining(bits_here, word, n + mask_shift(face as int)),
                        quads@ == column_start + column_quads(
                            grid,
                            transparents,
                            face as int,
                            layer as int,
                            forward as int,
                            n,
                        ),
                    decreases CS - n,
                {
                    let bit_pos = bits_here.trailing_zeros() as usize;
                    proof {
                        lemma_emit_step(
                            bits_here,
                            word,
                            grid,
                            transparents,
                            face as int,
                            layer as int,
                            forward as int,
                            n,
                        );
                        lemma_column_cell_bounds(
                            face as int,
                            layer as int,
                            forward as int,
                            bit_pos - mask_shift(face as int),
                        );
                    }
                    let (k, at) = if face < 4 {
                        (bit_pos, get_axis_index(face / 2, forward + 1, bit_pos + 1, layer + 1))
                    } else {
                        (bit_pos - 1, get_axis_index(face / 2, forward + 1, layer + 1, bit_pos))
                    };
                    let v_type = voxels[at];
                    let quad = PackedQuad::new(forward, layer, k, 1, 1, v_type, normal);
                    quads.push(quad);
                    bits_here &= !(1 << bit_pos);
                    proof {
                        assert(quad == unit_quad(
                            grid,
                            face as int,
                            layer as int,
                            forward as int,
                            k as int,
                        ));
                        n = k + 1;
                    }
                }
                face_masks[forward + bits_location] = bits_here;
                proof {
                    lemma_emit_done(
                        word,
                        grid,
                        transparents,
                        face as int,
                        layer as int,
                        forward as int,
                        n,
                    );
                    assert(quads@ =~= layer_start + layer_quads(
                        grid,
                        transparents,
                        face as int,
                        layer as int,
                        forward + 1,
                    ));
                }
            }
            assert(quads@ =~= face_start + face_quads(grid, transparents, face as int, layer + 1));
        }
        assert(quads@ =~= start + faces_quads(grid, transparents, face + 1));
    }
}

/// Meshes one chunk: appends to `mesh_data.quads` one unit quad for every
/// face that the grid shows, ordered by direction, layer, column and scan
/// position. Faces are not merged: every quad has width and height 1. The
/// working buffers are idle again when the call returns.
pub fn mesh(voxels: &[u16], mesh_data: &mut MeshData, transparents: BTreeSet<u16>)
    requires
        voxels@.len() == CS_P3,
        old(mesh_data).wf(),
    ensures
        final(mesh_data).wf(),
        final(mesh_data)@ == old(mesh_data)@ + mesh_quads(voxels@, transparents@),
{
    build_face_masks(voxels, &mut mesh_data.buffers.face_masks, &transparents);
    emit_quads(
        voxels,
        &mut mesh_data.buffers.face_masks,
        &mut mesh_data.quads,
        Ghost(transparents@),
    );
}

} // verus!
