//! Single-bit operations on 64-bit bitmap words.

use vstd::prelude::*;

verus! {

/// Whether bit `bit` of `word` is set. Bits are numbered from the least
/// significant one.
pub open spec fn bit_is_set(word: u64, bit: u64) -> bool {
    word & (1u64 << bit) != 0
}

/// The word whose `count` lowest bits are set and whose other bits are clear.
pub open spec fn low_mask(count: u64) -> u64 {
    if count >= 64 {
        u64::MAX
    } else {
        ((1u64 << count) - 1) as u64
    }
}

/// Setting one bit changes that bit and no other.
pub proof fn lemma_set_bit(word: u64, bit: u64, other: u64)
    requires
        bit < 64,
        other < 64,
    ensures
        bit_is_set(word | (1u64 << bit), other) == (bit_is_set(word, other) || other == bit),
{
    assert(((word | (1u64 << bit)) & (1u64 << other) != 0) == ((word & (1u64 << other) != 0)
        || other == bit)) by (bit_vector)
        requires
            bit < 64,
            other < 64,
    ;
}

/// Clearing one bit changes that bit and no other.
pub proof fn lemma_clear_bit(word: u64, bit: u64, other: u64)
    requires
        bit < 64,
        other < 64,
    ensures
        bit_is_set(word & !(1u64 << bit), other) == (bit_is_set(word, other) && other != bit),
{
    assert(((word & !(1u64 << bit)) & (1u64 << other) != 0) == ((word & (1u64 << other) != 0)
        && other != bit)) by (bit_vector)
        requires
            bit < 64,
            other < 64,
    ;
}

/// Setting a bit and clearing it again restores a word in which the bit was
/// clear; setting an already set bit, or clearing an already clear one,
/// changes nothing.
pub proof fn lemma_set_clear_round_trip(word: u64, bit: u64)
    requires
        bit < 64,
    ensures
        !bit_is_set(word, bit) ==> (word | (1u64 << bit)) & !(1u64 << bit) == word,
        bit_is_set(word, bit) ==> word | (1u64 << bit) == word,
        !bit_is_set(word, bit) ==> word & !(1u64 << bit) == word,
        word == u64::MAX ==> bit_is_set(word, bit),
        (word | (1u64 << bit)) != u64::MAX ==> word != u64::MAX,
{
    assert(word & (1u64 << bit) == 0 ==> (word | (1u64 << bit)) & !(1u64 << bit) == word)
        by (bit_vector)
        requires
            bit < 64,
    ;
    assert(word & (1u64 << bit) != 0 ==> word | (1u64 << bit) == word) by (bit_vector)
        requires
            bit < 64,
    ;
    assert(word & (1u64 << bit) == 0 ==> word & !(1u64 << bit) == word) by (bit_vector)
        requires
            bit < 64,
    ;
    assert(word == u64::MAX ==> word & (1u64 << bit) != 0) by (bit_vector)
        requires
            bit < 64,
    ;
    assert(word == u64::MAX ==> (word | (1u64 << bit)) == u64::MAX) by (bit_vector);
}

/// A word with all 64 bits from `from` upwards set covers, together with the
/// bits below `from`, the whole word.
proof fn lemma_high_bits_set(word: u64, from: u64)
    requires
        from <= 64,
        forall|bit: u64| from <= bit < 64 ==> bit_is_set(word, bit),
    ensures
        word | low_mask(from) == u64::MAX,
    decreases 64 - from,
{
    if from >= 64 {
        assert(word | u64::MAX == u64::MAX) by (bit_vector);
    } else {
        lemma_high_bits_set(word, (from + 1) as u64);
        let next: u64 = (from + 1) as u64;
        assert(bit_is_set(word, from));
        if next == 64 {
            assert(word & (1u64 << from) != 0 && (word | u64::MAX == u64::MAX) ==> (word | (((1u64
                << from) - 1) as u64)) == u64::MAX) by (bit_vector)
                requires
                    from == 63,
            ;
        } else {
            assert(word & (1u64 << from) != 0 && (word | (((1u64 << next) - 1) as u64))
                == u64::MAX ==> (word | (((1u64 << from) - 1) as u64)) == u64::MAX)
                by (bit_vector)
                requires
                    from < 63,
                    next == from + 1,
            ;
        }
    }
}

/// A word is all-ones exactly when each of its 64 bits is set.
pub proof fn lemma_full_word(word: u64)
    ensures
        word == u64::MAX <==> (forall|bit: u64| bit < 64 ==> bit_is_set(word, bit)),
{
    if word == u64::MAX {
        assert forall|bit: u64| bit < 64 implies bit_is_set(word, bit) by {
            lemma_set_clear_round_trip(word, bit);
        }
    }
    if forall|bit: u64| bit < 64 ==> bit_is_set(word, bit) {
        lemma_high_bits_set(word, 0);
        assert(word | (((1u64 << 0u64) - 1) as u64) == word) by (bit_vector);
    }
}

/// The lowest clear bit of `word` at or above `from`, or 64 when every bit
/// from `from` upwards is set.
pub open spec fn lowest_clear_bit(word: u64, from: int) -> int
    decreases 64 - from,
{
    if from >= 64 {
        64
    } else if from >= 0 && !bit_is_set(word, from as u64) {
        from
    } else {
        lowest_clear_bit(word, from + 1)
    }
}

/// What `lowest_clear_bit` returns is clear if it is a bit at all, and every
/// bit between `from` and it is set.
pub proof fn lemma_lowest_clear_bit(word: u64, from: int)
    requires
        0 <= from <= 64,
    ensures
        from <= lowest_clear_bit(word, from) <= 64,
        lowest_clear_bit(word, from) < 64 ==> !bit_is_set(
            word,
            lowest_clear_bit(word, from) as u64,
        ),
        forall|other: u64| from <= other < lowest_clear_bit(word, from) ==> bit_is_set(word, other),
        from == 0 ==> (lowest_clear_bit(word, from) == 64 <==> word == u64::MAX),
    decreases 64 - from,
{
    if from < 64 && bit_is_set(word, from as u64) {
        lemma_lowest_clear_bit(word, from + 1);
    }
    if from == 0 {
        lemma_full_word(word);
    }
}

/// Finds the lowest clear bit of `word` at or above `from`; gives 64 when
/// every bit from `from` upwards is set.
pub fn first_free_bit(word: u64, from: u8) -> (bit: u8)
    ensures
        bit == lowest_clear_bit(word, from as int),
        from <= 64 ==> from <= bit <= 64,
        bit < 64 ==> !bit_is_set(word, bit as u64),
        forall|other: u64| from <= other < bit ==> bit_is_set(word, other),
        from == 0 ==> (bit == 64 <==> word == u64::MAX),
{
    if from >= 64 {
        return 64;
    }
    let mut bit: u8 = from;
    while bit < 64
        invariant
            from <= bit <= 64,
            lowest_clear_bit(word, from as int) == lowest_clear_bit(word, bit as int),
        decreases 64 - bit,
    {
        if word & (1u64 << (bit as u64)) == 0 {
            proof {
                lemma_lowest_clear_bit(word, from as int);
            }
            return bit;
        }
        bit = bit + 1;
    }
    proof {
        lemma_lowest_clear_bit(word, from as int);
    }
    bit
}

} // verus!
