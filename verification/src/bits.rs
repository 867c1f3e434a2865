//! Single bits of a 64-bit mask word.

use vstd::prelude::*;

verus! {

/// Whether bit `p` of `word` is set.
pub open spec fn bit_set(word: u64, p: int) -> bool {
    (word >> (p as u64)) & 1 == 1
}

proof fn lemma_zero_bit(p: u64)
    by (bit_vector)
    requires
        p < 64,
    ensures
        (0u64 >> p) & 1 == 0,
{
}

proof fn lemma_or_bit(word: u64, value: u64, q: u64, p: u64)
    by (bit_vector)
    requires
        value <= 1,
        q < 64,
        p < 64,
    ensures
        ((word | (value << q)) >> p) & 1 == (if p == q && value == 1 {
            1u64
        } else {
            (word >> p) & 1
        }),
{
}

proof fn lemma_clear_bit(word: u64, q: u64, p: u64)
    by (bit_vector)
    requires
        q < 64,
        p < 64,
    ensures
        ((word & !(1u64 << q)) >> p) & 1 == (if p == q {
            0u64
        } else {
            (word >> p) & 1
        }),
{
}

/// The zero word has no bit set.
pub proof fn lemma_zero_word()
    ensures
        forall|p: int| 0 <= p < 64 ==> !#[trigger] bit_set(0, p),
{
    assert forall|p: int| 0 <= p < 64 implies !#[trigger] bit_set(0, p) by {
        lemma_zero_bit(p as u64);
    }
}

/// Or-ing `value << q` into a word sets bit `q` where `value` is 1 and
/// changes no other bit.
pub proof fn lemma_or_word(word: u64, value: u64, q: int)
    requires
        value <= 1,
        0 <= q < 64,
    ensures
        forall|p: int|
            0 <= p < 64 ==> (#[trigger] bit_set(word | (value << (q as u64)), p) <==> (p == q
                && value == 1) || bit_set(word, p)),
{
    assert forall|p: int| 0 <= p < 64 implies (#[trigger] bit_set(
        word | (value << (q as u64)),
        p,
    ) <==> (p == q && value == 1) || bit_set(word, p)) by {
        lemma_or_bit(word, value, q as u64, p as u64);
    }
}

/// Masking bit `q` out of a word clears it and changes no other bit.
pub proof fn lemma_clear_word(word: u64, q: int)
    requires
        0 <= q < 64,
    ensures
        forall|p: int|
            0 <= p < 64 ==> (#[trigger] bit_set(word & !(1u64 << (q as u64)), p) <==> p != q
                && bit_set(word, p)),
{
    assert forall|p: int| 0 <= p < 64 implies (#[trigger] bit_set(
        word & !(1u64 << (q as u64)),
        p,
    ) <==> p != q && bit_set(word, p)) by {
        lemma_clear_bit(word, q as u64, p as u64);
    }
}

/// The lowest set bit of a nonzero word: its position is below 64, it is set,
/// and every bit below it is clear.
pub proof fn lemma_lowest_bit(word: u64)
    requires
        word != 0,
    ensures
        word.trailing_zeros() < 64,
        bit_set(word, word.trailing_zeros() as int),
        forall|p: int| 0 <= p < word.trailing_zeros() ==> !#[trigger] bit_set(word, p),
{
    vstd::std_specs::bits::axiom_u64_trailing_zeros(word);
    let tz = word.trailing_zeros();
    assert forall|p: int| 0 <= p < tz implies !#[trigger] bit_set(word, p) by {
        let j = p as u64;
        assert((word >> j) & 1u64 == 0u64);
    }
}

} // verus!
