//! What setting, clearing, writing and reading named bits does to a word,
//! bit by bit and as a whole.

use crate::memory::{
    bit_is_set, bits_cleared, bits_in_word, bits_read, bits_set, bits_toggled, bits_written,
};
use vstd::prelude::*;

verus! {

/// The word in which exactly the named bits are set.
pub open spec fn mask_of(bits: Seq<u32>) -> u32
    decreases bits.len(),
{
    if bits.len() == 0 {
        0
    } else {
        mask_of(bits.drop_last()) | (1u32 << bits.last())
    }
}

/// A bit of the mask is set exactly when it is named.
pub proof fn lemma_mask_bit(bits: Seq<u32>, position: u32)
    requires
        bits_in_word(bits),
        position < 32,
    ensures
        bit_is_set(mask_of(bits), position) == bits.contains(position),
    decreases bits.len(),
{
    if bits.len() == 0 {
        assert(0u32 & (1u32 << position) == 0) by (bit_vector);
    } else {
        let rest = bits.drop_last();
        let last = bits.last();
        lemma_mask_bit(rest, position);
        let mask = mask_of(rest);
        assert(((mask | (1u32 << last)) & (1u32 << position) != 0) == ((mask & (1u32 << position)
            != 0) || last == position)) by (bit_vector)
            requires
                last < 32,
                position < 32,
        ;
        if bits.contains(position) {
            let i = choose|i: int| 0 <= i < bits.len() && bits[i] == position;
            if i < bits.len() - 1 {
                assert(rest[i] == position);
            }
        }
        if rest.contains(position) {
            let i = choose|i: int| 0 <= i < rest.len() && rest[i] == position;
            assert(bits[i] == position);
        }
        if last == position {
            assert(bits[bits.len() - 1] == position);
        }
    }
}

/// Setting named bits is an `or` with their mask.
pub proof fn lemma_bits_set_is_or(word: u32, bits: Seq<u32>)
    ensures
        bits_set(word, bits) == word | mask_of(bits),
    decreases bits.len(),
{
    if bits.len() == 0 {
        assert(word | 0 == word) by (bit_vector);
    } else {
        lemma_bits_set_is_or(word, bits.drop_last());
        let mask = mask_of(bits.drop_last());
        let one = 1u32 << bits.last();
        assert((word | mask) | one == word | (mask | one)) by (bit_vector);
    }
}

/// Clearing named bits is an `and` with the complement of their mask.
pub proof fn lemma_bits_cleared_is_and(word: u32, bits: Seq<u32>)
    ensures
        bits_cleared(word, bits) == word & !mask_of(bits),
    decreases bits.len(),
{
    if bits.len() == 0 {
        assert(word & !0u32 == word) by (bit_vector);
    } else {
        lemma_bits_cleared_is_and(word, bits.drop_last());
        let mask = mask_of(bits.drop_last());
        let one = 1u32 << bits.last();
        assert((word & !mask) & !one == word & !(mask | one)) by (bit_vector);
    }
}

/// After named bits were set, each of them is set and every other bit is as
/// it was.
pub proof fn lemma_bits_set_bit(word: u32, bits: Seq<u32>, position: u32)
    requires
        bits_in_word(bits),
        position < 32,
    ensures
        bit_is_set(bits_set(word, bits), position) == (bits.contains(position) || bit_is_set(
            word,
            position,
        )),
{
    lemma_bits_set_is_or(word, bits);
    lemma_mask_bit(bits, position);
    let mask = mask_of(bits);
    assert(((word | mask) & (1u32 << position) != 0) == ((mask & (1u32 << position) != 0) || (word
        & (1u32 << position) != 0))) by (bit_vector);
}

/// After named bits were cleared, each of them is clear and every other bit
/// is as it was.
pub proof fn lemma_bits_cleared_bit(word: u32, bits: Seq<u32>, position: u32)
    requires
        bits_in_word(bits),
        position < 32,
    ensures
        bit_is_set(bits_cleared(word, bits), position) == (!bits.contains(position) && bit_is_set(
            word,
            position,
        )),
{
    lemma_bits_cleared_is_and(word, bits);
    lemma_mask_bit(bits, position);
    let mask = mask_of(bits);
    assert(((word & !mask) & (1u32 << position) != 0) == (!(mask & (1u32 << position) != 0) && (
    word & (1u32 << position) != 0))) by (bit_vector);
}

/// After named bits were written, a bit that is not named is as it was, and
/// a named bit has the value given for the last position that names it.
pub proof fn lemma_bits_written_bit(word: u32, bits: Seq<u32>, values: Seq<bool>, position: u32)
    requires
        bits_in_word(bits),
        position < 32,
    ensures
        !bits.contains(position) ==> bit_is_set(bits_written(word, bits, values), position)
            == bit_is_set(word, position),
        forall|i: int|
            0 <= i < bits.len() && bits[i] == position && (forall|j: int|
                i < j < bits.len() ==> bits[j] != position) ==> bit_is_set(
                bits_written(word, bits, values),
                position,
            ) == values[i],
    decreases bits.len(),
{
    if bits.len() > 0 {
        let rest = bits.drop_last();
        let last = bits.last();
        let value = values[bits.len() - 1];
        let inner = bits_written(word, rest, values);
        lemma_bits_written_bit(word, rest, values, position);
        assert(((inner | (1u32 << last)) & (1u32 << position) != 0) == (last == position || (inner
            & (1u32 << position) != 0))) by (bit_vector)
            requires
                last < 32,
                position < 32,
        ;
        assert(((inner & !(1u32 << last)) & (1u32 << position) != 0) == (last != position && (inner
            & (1u32 << position) != 0))) by (bit_vector)
            requires
                last < 32,
                position < 32,
        ;
        if !bits.contains(position) {
            assert(bits[bits.len() - 1] != position);
            if rest.contains(position) {
                let i = choose|i: int| 0 <= i < rest.len() && rest[i] == position;
                assert(bits[i] == position);
            }
        }
        assert forall|i: int|
            0 <= i < bits.len() && bits[i] == position && (forall|j: int|
                i < j < bits.len() ==> bits[j] != position) implies bit_is_set(
            bits_written(word, bits, values),
            position,
        ) == values[i] by {
            if i < bits.len() - 1 {
                assert(bits[bits.len() - 1] != position);
                assert(rest[i] == position);
                assert forall|j: int| i < j < rest.len() implies rest[j] != position by {
                    assert(bits[j] != position);
                }
            }
        }
    }
}

/// Reading named bits back right after writing them gives the values that
/// were written, provided that no bit is named twice.
pub proof fn lemma_read_after_write(word: u32, bits: Seq<u32>, values: Seq<bool>)
    requires
        bits_in_word(bits),
        bits.no_duplicates(),
        values.len() == bits.len(),
    ensures
        bits_read(bits_written(word, bits, values), bits) == values,
{
    let written = bits_written(word, bits, values);
    assert forall|i: int| 0 <= i < bits.len() implies bit_is_set(written, bits[i]) == values[i] by {
        lemma_bits_written_bit(word, bits, values, bits[i]);
    }
    assert(bits_read(written, bits) =~= values);
}

/// Setting the same bits a second time changes nothing.
pub proof fn lemma_bits_set_twice(word: u32, bits: Seq<u32>)
    ensures
        bits_set(bits_set(word, bits), bits) == bits_set(word, bits),
{
    lemma_bits_set_is_or(word, bits);
    lemma_bits_set_is_or(bits_set(word, bits), bits);
    let mask = mask_of(bits);
    assert((word | mask) | mask == word | mask) by (bit_vector);
}

/// Clearing the same bits a second time changes nothing.
pub proof fn lemma_bits_cleared_twice(word: u32, bits: Seq<u32>)
    ensures
        bits_cleared(bits_cleared(word, bits), bits) == bits_cleared(word, bits),
{
    lemma_bits_cleared_is_and(word, bits);
    lemma_bits_cleared_is_and(bits_cleared(word, bits), bits);
    let mask = mask_of(bits);
    assert((word & !mask) & !mask == word & !mask) by (bit_vector);
}

/// Toggling the same bits a second time brings the word back.
pub proof fn law_bits_toggled_twice(word: u32, bits: Seq<u32>)
    ensures
        bits_toggled(bits_toggled(word, bits), bits) == word,
{
    lemma_bits_toggled_is_xor(word, bits);
    lemma_bits_toggled_is_xor(bits_toggled(word, bits), bits);
    let parity = bits_toggled(0, bits);
    assert((word ^ parity) ^ parity == word) by (bit_vector);
}

/// Toggling named bits is an `xor` with what toggling them makes of zero.
pub proof fn lemma_bits_toggled_is_xor(word: u32, bits: Seq<u32>)
    ensures
        bits_toggled(word, bits) == word ^ bits_toggled(0, bits),
    decreases bits.len(),
{
    if bits.len() == 0 {
        assert(word ^ 0 == word) by (bit_vector);
    } else {
        lemma_bits_toggled_is_xor(word, bits.drop_last());
        let parity = bits_toggled(0, bits.drop_last());
        let one = 1u32 << bits.last();
        assert((word ^ parity) ^ one == word ^ (parity ^ one)) by (bit_vector);
    }
}

/// An operation on a group of bits does to the word what the same operation
/// does bit by bit, in the order in which the bits are named.
pub proof fn law_group_is_bit_by_bit(word: u32, bits: Seq<u32>, bit: u32, value: bool)
    ensures
        bits_set(word, bits.push(bit)) == bits_set(bits_set(word, bits), seq![bit]),
        bits_cleared(word, bits.push(bit)) == bits_cleared(bits_cleared(word, bits), seq![bit]),
        bits_toggled(word, bits.push(bit)) == bits_toggled(bits_toggled(word, bits), seq![bit]),
        forall|values: Seq<bool>|
            values.len() == bits.len() ==> #[trigger] bits_written(
                word,
                bits.push(bit),
                values.push(value),
            ) == bits_written(bits_written(word, bits, values), seq![bit], seq![value]),
{
    let single = seq![bit];
    assert(bits.push(bit).drop_last() =~= bits);
    assert(single.drop_last().len() == 0);
    assert(bits_set(bits_set(word, bits), single.drop_last()) == bits_set(word, bits));
    assert(bits_cleared(bits_cleared(word, bits), single.drop_last()) == bits_cleared(
        word,
        bits,
    ));
    assert(bits_toggled(bits_toggled(word, bits), single.drop_last()) == bits_toggled(
        word,
        bits,
    ));
    assert forall|values: Seq<bool>| values.len() == bits.len() implies #[trigger] bits_written(
        word,
        bits.push(bit),
        values.push(value),
    ) == bits_written(bits_written(word, bits, values), seq![bit], seq![value]) by {
        let inner = bits_written(word, bits, values);
        assert(bits_written(inner, single.drop_last(), seq![value]) == inner);
        lemma_bits_written_ignores_later_values(word, bits, values, values.push(value));
    }
}

/// Writing named bits looks at the values only at the positions of the bits.
pub proof fn lemma_bits_written_ignores_later_values(
    word: u32,
    bits: Seq<u32>,
    first: Seq<bool>,
    second: Seq<bool>,
)
    requires
        forall|i: int| 0 <= i < bits.len() ==> first[i] == second[i],
    ensures
        bits_written(word, bits, first) == bits_written(word, bits, second),
    decreases bits.len(),
{
    if bits.len() > 0 {
        lemma_bits_written_ignores_later_values(word, bits.drop_last(), first, second);
    }
}

} // verus!
