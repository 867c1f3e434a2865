//! The face masks: one 64-bit word per direction and column, one bit per
//! scan position.
//!
//! The words of direction `face` start at `face * CS_2`; within a direction,
//! column `(layer, forward)` is word `forward + layer * CS`. Scan position `k`
//! is bit `k` in the first two pairs of directions and bit `k + 1` in the
//! scan-axis pair.

use crate::bits::{bit_set, lemma_or_word, lemma_zero_word};
use crate::face::{face_value, face_visible, lemma_shared_face_hidden, neighbor_step};
use crate::grid::{cell, CS, CS_2, CS_P, CS_P2, CS_P3};
use crate::model::{column_cell, face_shown};
use std::collections::BTreeSet;
use vstd::prelude::*;

verus! {

/// Bit position of scan position 0 in the words of direction `face`.
pub open spec fn mask_shift(face: int) -> int {
    if face >= 4 {
        1
    } else {
        0
    }
}

/// Index of the word of column `(layer, forward)` of direction `face`.
pub open spec fn word_index(face: int, layer: int, forward: int) -> int {
    forward + layer * CS + face * CS_2
}

/// `word` records the faces that the column shows at scan positions below
/// `n`, and nothing else.
#[verifier::opaque]
pub open spec fn word_holds(
    word: u64,
    grid: Seq<u16>,
    transparents: Set<u16>,
    face: int,
    layer: int,
    forward: int,
    n: int,
) -> bool {
    forall|p: int|
        0 <= p < 64 ==> (#[trigger] bit_set(word, p) <==> 0 <= p - mask_shift(face) < n
            && face_shown(grid, transparents, face, layer, forward, p - mask_shift(face)))
}

/// Every word records its whole column.
pub open spec fn masks_built(masks: Seq<u64>, grid: Seq<u16>, transparents: Set<u16>) -> bool {
    &&& masks.len() == 6 * CS_2
    &&& forall|face: int, layer: int, forward: int|
        0 <= face < 6 && 0 <= layer < CS && 0 <= forward < CS ==> word_holds(
            masks[#[trigger] word_index(face, layer, forward)],
            grid,
            transparents,
            face,
            layer,
            forward,
            CS as int,
        )
}

/// In built masks the bit of a face between two voxels of one material is
/// clear. Read from the neighbour, whose face back is the same face, it is
/// clear on both sides.
pub proof fn lemma_shared_face_bit_clear(
    masks: Seq<u64>,
    grid: Seq<u16>,
    transparents: Set<u16>,
    face: int,
    layer: int,
    forward: int,
    k: int,
)
    requires
        masks_built(masks, grid, transparents),
        0 <= face < 6,
        0 <= layer < CS,
        0 <= forward < CS,
        0 <= k < CS,
        grid[column_cell(face, layer, forward, k)] != 0,
        grid[column_cell(face, layer, forward, k) + neighbor_step(face)] == grid[column_cell(
            face,
            layer,
            forward,
            k,
        )],
    ensures
        !bit_set(masks[word_index(face, layer, forward)], k + mask_shift(face)),
{
    reveal(word_holds);
    lemma_shared_face_hidden(grid, transparents, column_cell(face, layer, forward, k), face);
}

/// How many scan positions of a column have been recorded when the scan
/// stands before padded cell `(a, b, c)`.
spec fn recorded(face: int, layer: int, forward: int, a: int, b: int, c: int) -> int {
    let wa = if face == 2 || face == 3 {
        forward + 1
    } else {
        layer + 1
    };
    let wb = if face == 2 || face == 3 {
        layer + 1
    } else {
        forward + 1
    };
    if wa < a || (wa == a && wb < b) {
        62
    } else if wa == a && wb == b {
        c - 1
    } else {
        0
    }
}

/// The masks while the scan stands before padded cell `(a, b, c)`.
spec fn masks_partial(
    masks: Seq<u64>,
    grid: Seq<u16>,
    transparents: Set<u16>,
    a: int,
    b: int,
    c: int,
) -> bool {
    &&& masks.len() == 6 * CS_2
    &&& forall|face: int, layer: int, forward: int|
        0 <= face < 6 && 0 <= layer < CS && 0 <= forward < CS ==> word_holds(
            masks[#[trigger] word_index(face, layer, forward)],
            grid,
            transparents,
            face,
            layer,
            forward,
            recorded(face, layer, forward, a, b, c),
        )
}

/// Recording scan position `n` of a column: the bit for it is or-ed in.
proof fn lemma_word_step(
    word: u64,
    value: u64,
    grid: Seq<u16>,
    transparents: Set<u16>,
    face: int,
    layer: int,
    forward: int,
    n: int,
)
    requires
        0 <= face < 6,
        0 <= n < 62,
        word_holds(word, grid, transparents, face, layer, forward, n),
        value == (if face_shown(grid, transparents, face, layer, forward, n) {
            1u64
        } else {
            0u64
        }),
    ensures
        word_holds(
            word | (value << ((n + mask_shift(face)) as u64)),
            grid,
            transparents,
            face,
            layer,
            forward,
            n + 1,
        ),
{
    reveal(word_holds);
    lemma_or_word(word, value, n + mask_shift(face));
}

/// Passing scan position `n` of a column that shows no face there.
proof fn lemma_word_skip(
    word: u64,
    grid: Seq<u16>,
    transparents: Set<u16>,
    face: int,
    layer: int,
    forward: int,
    n: int,
)
    requires
        word_holds(word, grid, transparents, face, layer, forward, n),
        !face_shown(grid, transparents, face, layer, forward, n),
    ensures
        word_holds(word, grid, transparents, face, layer, forward, n + 1),
{
    reveal(word_holds);
}

/// The word of direction `face` that padded cell `(a, b, _)` writes to.
spec fn home(face: int, a: int, b: int) -> int {
    if face == 2 || face == 3 {
        word_index(face, b - 1, a - 1)
    } else {
        word_index(face, a - 1, b - 1)
    }
}

/// The bit that a solid cell at offset `at` contributes for direction `face`.
spec fn face_bit(grid: Seq<u16>, transparents: Set<u16>, at: int, face: int) -> u64 {
    if face_visible(grid[at], grid[at + neighbor_step(face)], transparents) {
        1
    } else {
        0
    }
}

/// `after` differs from `before` in the home word of `face` by the bit of
/// padded cell `(a, b, c)`.
spec fn marked(
    before: Seq<u64>,
    after: Seq<u64>,
    grid: Seq<u16>,
    transparents: Set<u16>,
    face: int,
    a: int,
    b: int,
    c: int,
) -> bool {
    after[home(face, a, b)] == before[home(face, a, b)] | (face_bit(
        grid,
        transparents,
        cell(a, b, c),
        face,
    ) << ((c - 1 + mask_shift(face)) as u64))
}

/// The scan passes an empty cell.
proof fn lemma_skip_voxel(
    masks: Seq<u64>,
    grid: Seq<u16>,
    transparents: Set<u16>,
    a: int,
    b: int,
    c: int,
)
    requires
        1 <= a < 63,
        1 <= b < 63,
        1 <= c < 63,
        grid[cell(a, b, c)] == 0,
        masks_partial(masks, grid, transparents, a, b, c),
    ensures
        masks_partial(masks, grid, transparents, a, b, c + 1),
{
    assert forall|face: int, layer: int, forward: int|
        0 <= face < 6 && 0 <= layer < CS && 0 <= forward < CS implies word_holds(
        masks[#[trigger] word_index(face, layer, forward)],
        grid,
        transparents,
        face,
        layer,
        forward,
        recorded(face, layer, forward, a, b, c + 1),
    ) by {
        let n = recorded(face, layer, forward, a, b, c);
        if recorded(face, layer, forward, a, b, c + 1) != n {
            lemma_word_skip(
                masks[word_index(face, layer, forward)],
                grid,
                transparents,
                face,
                layer,
                forward,
                n,
            );
        }
    }
}

/// The scan records the six faces of a solid cell.
proof fn lemma_record_voxel(
    before: Seq<u64>,
    after: Seq<u64>,
    grid: Seq<u16>,
    transparents: Set<u16>,
    a: int,
    b: int,
    c: int,
)
    requires
        1 <= a < 63,
        1 <= b < 63,
        1 <= c < 63,
        grid[cell(a, b, c)] != 0,
        masks_partial(before, grid, transparents, a, b, c),
        after.len() == before.len(),
        marked(before, after, grid, transparents, 0, a, b, c),
        marked(before, after, grid, transparents, 1, a, b, c),
        marked(before, after, grid, transparents, 2, a, b, c),
        marked(before, after, grid, transparents, 3, a, b, c),
        marked(before, after, grid, transparents, 4, a, b, c),
        marked(before, after, grid, transparents, 5, a, b, c),
        forall|i: int|
            0 <= i < before.len() && i != home(0, a, b) && i != home(1, a, b) && i != home(2, a, b)
                && i != home(3, a, b) && i != home(4, a, b) && i != home(5, a, b) ==> after[i]
                == before[i],
    ensures
        masks_partial(after, grid, transparents, a, b, c + 1),
{
    assert forall|face: int, layer: int, forward: int|
        0 <= face < 6 && 0 <= layer < CS && 0 <= forward < CS implies word_holds(
        after[#[trigger] word_index(face, layer, forward)],
        grid,
        transparents,
        face,
        layer,
        forward,
        recorded(face, layer, forward, a, b, c + 1),
    ) by {
        let at = word_index(face, layer, forward);
        let n = recorded(face, layer, forward, a, b, c);
        assert(word_holds(before[at], grid, transparents, face, layer, forward, n));
        if recorded(face, layer, forward, a, b, c + 1) != n {
            assert(at == home(face, a, b));
            assert(n == c - 1);
            assert(column_cell(face, layer, forward, c - 1) == cell(a, b, c));
            assert(marked(before, after, grid, transparents, face, a, b, c));
            lemma_word_step(
                before[at],
                face_bit(grid, transparents, cell(a, b, c), face),
                grid,
                transparents,
                face,
                layer,
                forward,
                c - 1,
            );
        } else {
            assert(after[at] == before[at]);
        }
    }
}

/// Fills the face masks from the grid: after the call each word records the
/// faces that its column shows.
pub fn build_face_masks(
    voxels: &[u16],
    face_masks: &mut Vec<u64>,
    transparents: &BTreeSet<u16>,
)
    requires
        voxels@.len() == CS_P3,
        old(face_masks)@.len() == 6 * CS_2,
        forall|i: int| 0 <= i < old(face_masks)@.len() ==> old(face_masks)@[i] == 0,
    ensures
        masks_built(final(face_masks)@, voxels@, transparents@),
{
    proof {
        lemma_masks_start(face_masks@, voxels@, transparents@);
    }
    for a in 1..(CS_P - 1)
        invariant
            voxels@.len() == CS_P3,
            masks_partial(face_masks@, voxels@, transparents@, a as int, 1, 1),
    {
        let a_cs_p = a * CS_P;
        for b in 1..(CS_P - 1)
            invariant
                1 <= a < 63,
                a_cs_p == a * 64,
                voxels@.len() == CS_P3,
                masks_partial(face_masks@, voxels@, transparents@, a as int, b as int, 1),
        {
            let ab = (a_cs_p + b) * CS_P;
            let ba_index = (b - 1) + (a - 1) * CS;
            let ab_index = (a - 1) + (b - 1) * CS;
            for c in 1..(CS_P - 1)
                invariant
                    1 <= a < 63,
                    1 <= b < 63,
                    ab == a * 4096 + b * 64,
                    ba_index == (b - 1) + (a - 1) * 62,
                    ab_index == (a - 1) + (b - 1) * 62,
                    voxels@.len() == CS_P3,
                    masks_partial(
                        face_masks@,
                        voxels@,
                        transparents@,
                        a as int,
                        b as int,
                        c as int,
                    ),
            {
                let abc = ab + c;
                let v1 = voxels[abc];
                if v1 != 0 {
                    let ghost before = face_masks@;
                    face_masks[ba_index + 0 * CS_2] |= face_value(
                        v1,
                        voxels[abc + CS_P2],
                        transparents,
                    ) << (c - 1);
                    face_masks[ba_index + 1 * CS_2] |= face_value(
                        v1,
                        voxels[abc - CS_P2],
                        transparents,
                    ) << (c - 1);
                    face_masks[ab_index + 2 * CS_2] |= face_value(
                        v1,
                        voxels[abc + CS_P],
                        transparents,
                    ) << (c - 1);
                    face_masks[ab_index + 3 * CS_2] |= face_value(
                        v1,
                        voxels[abc - CS_P],
                        transparents,
                    ) << (c - 1);
                    face_masks[ba_index + 4 * CS_2] |= face_value(
                        v1,
                        voxels[abc + 1],
                        transparents,
                    ) << c;
                    face_masks[ba_index + 5 * CS_2] |= face_value(
                        v1,
                        voxels[abc - 1],
                        transparents,
                    ) << c;
                    proof {
                        lemma_record_voxel(
                            before,
                            face_masks@,
                            voxels@,
                            transparents@,
                            a as int,
                            b as int,
                            c as int,
                        );
                    }
                } else {
                    proof {
                        lemma_skip_voxel(
                            face_masks@,
                            voxels@,
                            transparents@,
                            a as int,
                            b as int,
                            c as int,
                        );
                    }
                }
            }
            proof {
                lemma_masks_next_row(face_masks@, voxels@, transparents@, a as int, b as int);
            }
        }
        proof {
            lemma_masks_next_plane(face_masks@, voxels@, transparents@, a as int);
        }
    }
    proof {
        lemma_masks_done(face_masks@, voxels@, transparents@);
    }
}

/// Zeroed masks are those of a scan that has not begun.
proof fn lemma_masks_start(masks: Seq<u64>, grid: Seq<u16>, transparents: Set<u16>)
    requires
        masks.len() == 6 * CS_2,
        forall|i: int| 0 <= i < masks.len() ==> masks[i] == 0,
    ensures
        masks_partial(masks, grid, transparents, 1, 1, 1),
{
    reveal(word_holds);
    lemma_zero_word();
}

/// The end of a run along the scan axis is the start of the next run.
proof fn lemma_masks_next_row(
    masks: Seq<u64>,
    grid: Seq<u16>,
    transparents: Set<u16>,
    a: int,
    b: int,
)
    requires
        masks_partial(masks, grid, transparents, a, b, 63),
    ensures
        masks_partial(masks, grid, transparents, a, b + 1, 1),
{
    assert forall|face: int, layer: int, forward: int|
        0 <= face < 6 && 0 <= layer < CS && 0 <= forward < CS implies recorded(
        face,
        layer,
        forward,
        a,
        b + 1,
        1,
    ) == recorded(face, layer, forward, a, b, 63) by {}
}

/// The end of a plane is the start of the next plane.
proof fn lemma_masks_next_plane(masks: Seq<u64>, grid: Seq<u16>, transparents: Set<u16>, a: int)
    requires
        masks_partial(masks, grid, transparents, a, 63, 1),
    ensures
        masks_partial(masks, grid, transparents, a + 1, 1, 1),
{
    assert forall|face: int, layer: int, forward: int|
        0 <= face < 6 && 0 <= layer < CS && 0 <= forward < CS implies recorded(
        face,
        layer,
        forward,
        a + 1,
        1,
        1,
    ) == recorded(face, layer, forward, a, 63, 1) by {}
}

/// After the last plane every column is recorded in full.
proof fn lemma_masks_done(masks: Seq<u64>, grid: Seq<u16>, transparents: Set<u16>)
    requires
        masks_partial(masks, grid, transparents, 63, 1, 1),
    ensures
        masks_built(masks, grid, transparents),
{
    assert forall|face: int, layer: int, forward: int|
        0 <= face < 6 && 0 <= layer < CS && 0 <= forward < CS implies recorded(
        face,
        layer,
        forward,
        63,
        1,
        1,
    ) == 62 by {}
}

} // verus!
