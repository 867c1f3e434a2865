//! The triangle index buffer that renders a list of quads.
//!
//! Quad `i` owns the four corner vertices `4 * i .. 4 * i + 3` and is drawn as
//! two triangles over them.

use vstd::prelude::*;

verus! {

/// The corner that the `slot`-th index of a quad refers to.
pub open spec fn corner(slot: int) -> u32 {
    if slot == 0 {
        2
    } else if slot == 1 {
        0
    } else if slot == 2 {
        1
    } else if slot == 3 {
        1
    } else if slot == 4 {
        3
    } else {
        2
    }
}

/// The `slot`-th index of quad `quad`, as a 32-bit value: the quad's number
/// shifted left by two, with the corner in the two low bits.
pub open spec fn index_value(quad: int, slot: int) -> u32 {
    ((quad as u32) << 2) | corner(slot)
}

proof fn lemma_shift_or(v: u32, c: u32)
    by (bit_vector)
    requires
        v < 0x4000_0000,
        c < 4,
    ensures
        (v << 2) | c == 4 * v + c,
{
}

/// Below 2^30 quads no index wraps: each is four times the quad's number plus
/// the corner.
pub proof fn lemma_index_value_plain(quad: int, slot: int)
    requires
        0 <= quad < 0x4000_0000,
        0 <= slot < 6,
    ensures
        index_value(quad, slot) == 4 * quad + corner(slot),
{
    lemma_shift_or(quad as u32, corner(slot));
}

/// Six indices per quad, in the order 2, 0, 1, 1, 3, 2 over the quad's corners.
pub fn indices(num_quads: usize) -> (res: Vec<u32>)
    requires
        num_quads * 6 <= usize::MAX,
    ensures
        res@.len() == 6 * num_quads,
        forall|n: int| 0 <= n < res@.len() ==> res@[n] == index_value(n / 6, n % 6),
{
    let mut res: Vec<u32> = Vec::with_capacity(num_quads * 6);
    let mut i: usize = 0;
    while i < num_quads
        invariant
            i <= num_quads,
            num_quads * 6 <= usize::MAX,
            res@.len() == 6 * i,
            forall|n: int| 0 <= n < res@.len() ==> res@[n] == index_value(n / 6, n % 6),
        decreases num_quads - i,
    {
        let base: u32 = (#[verifier::truncate] (i as u32)) << 2;
        res.push(base | 2);
        res.push(base | 0);
        res.push(base | 1);
        res.push(base | 1);
        res.push(base | 3);
        res.push(base | 2);
        i += 1;
    }
    res
}

} // verus!
