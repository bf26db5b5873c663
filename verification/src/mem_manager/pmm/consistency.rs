//! What it means for the bitmap tree to be consistent, and why marking
//! frames keeps it so.
//!
//! Everything here speaks of the words of the bitmap area as a sequence;
//! the functions that change a tree state their results in these terms.

use super::super::bit_ops::{
    bit_is_set, lemma_clear_bit, lemma_set_bit, lemma_set_clear_round_trip,
};
use super::super::bitmap_layout::{
    frame_bit, frame_node, lemma_frame_path, lemma_word_index_injective, valid_node, word_index,
    ARENA_WORDS, FRAME_COUNT,
};
use vstd::prelude::*;

verus! {

/// The bitmap word `node` of `level` in the bitmap area `words`.
pub open spec fn node_word(words: Seq<u64>, level: int, node: int) -> u64 {
    words[word_index(level, node)]
}

/// Whether `frame` is marked used in `words`.
pub open spec fn frame_used(words: Seq<u64>, frame: int) -> bool {
    bit_is_set(node_word(words, 1, frame / 64), (frame % 64) as u64)
}

/// Whether `bit` of the word `node` of `level` names a word of the level
/// below.
pub open spec fn is_link(level: int, node: int, bit: int) -> bool {
    2 <= level <= 5 && valid_node(level, node) && 0 <= bit < 64
}

/// The summary bit `bit` of the word `node` of `level` is set exactly when
/// the word below it is all-ones.
pub open spec fn summary_holds(words: Seq<u64>, level: int, node: int, bit: int) -> bool {
    bit_is_set(node_word(words, level, node), bit as u64) == (node_word(
        words,
        level - 1,
        node * 64 + bit,
    ) == u64::MAX)
}

/// Every summary bit of every level agrees with the word below it.
pub open spec fn tree_consistent(words: Seq<u64>) -> bool {
    &&& words.len() == ARENA_WORDS
    &&& forall|level: int, node: int, bit: int|
        is_link(level, node, bit) ==> #[trigger] summary_holds(words, level, node, bit)
}

/// Whether the link `(level, node, bit)` is the one that leads to `frame`
/// from its word at `at`.
pub open spec fn on_path(frame: int, at: int, level: int, node: int, bit: int) -> bool {
    level == at && node == frame_node(at, frame) && bit == frame_bit(at, frame)
}

/// Every summary bit agrees with the word below it, except possibly the one
/// that leads to `frame` from level `at`.
pub open spec fn consistent_except(words: Seq<u64>, frame: int, at: int) -> bool {
    &&& words.len() == ARENA_WORDS
    &&& forall|level: int, node: int, bit: int|
        is_link(level, node, bit) && !on_path(frame, at, level, node, bit)
            ==> #[trigger] summary_holds(words, level, node, bit)
}

/// The bitmap area after the bit of `frame` has been set at `level` and, as
/// long as a word became all-ones, at each level above it.
pub open spec fn set_path(words: Seq<u64>, frame: int, level: int) -> Seq<u64>
    decreases 6 - level,
{
    let index = word_index(level, frame_node(level, frame));
    let word = words[index] | (1u64 << (frame_bit(level, frame) as u64));
    let updated = words.update(index, word);
    if word == u64::MAX && 1 <= level < 5 {
        set_path(updated, frame, level + 1)
    } else {
        updated
    }
}

/// The bitmap area after the bit of `frame` has been cleared at `level`
/// and, as long as the word was all-ones before, at each level above it.
pub open spec fn clear_path(words: Seq<u64>, frame: int, level: int) -> Seq<u64>
    decreases 6 - level,
{
    let index = word_index(level, frame_node(level, frame));
    let before = words[index];
    let updated = words.update(index, before & !(1u64 << (frame_bit(level, frame) as u64)));
    if before == u64::MAX && 1 <= level < 5 {
        clear_path(updated, frame, level + 1)
    } else {
        updated
    }
}

/// The bitmap area after `frame` has been marked used.
pub open spec fn mark_used(words: Seq<u64>, frame: int) -> Seq<u64> {
    set_path(words, frame, 1)
}

/// The bitmap area after `frame` has been marked free.
pub open spec fn mark_free(words: Seq<u64>, frame: int) -> Seq<u64> {
    clear_path(words, frame, 1)
}

/// Replacing the word of `frame` at level `at` by one that differs from it
/// in the frame's bit only leaves every other word as it was, and every
/// summary as true or false as it was, but for the two links that touch the
/// word: the one into it and the one out of it towards `frame`.
proof fn lemma_update_path_word(words: Seq<u64>, frame: int, at: int, word: u64)
    requires
        words.len() == ARENA_WORDS,
        0 <= frame < FRAME_COUNT,
        1 <= at <= 5,
        forall|other: u64|
            other < 64 && other != frame_bit(at, frame) ==> bit_is_set(word, other) == bit_is_set(
                node_word(words, at, frame_node(at, frame)),
                other,
            ),
    ensures
        forall|level: int, node: int|
            valid_node(level, node) && !(level == at && node == frame_node(at, frame))
                ==> #[trigger] node_word(
                words.update(word_index(at, frame_node(at, frame)), word),
                level,
                node,
            ) == node_word(words, level, node),
        node_word(
            words.update(word_index(at, frame_node(at, frame)), word),
            at,
            frame_node(at, frame),
        ) == word,
        forall|level: int, node: int, bit: int|
            is_link(level, node, bit) && !on_path(frame, at, level, node, bit) && !on_path(
                frame,
                at + 1,
                level,
                node,
                bit,
            ) ==> #[trigger] summary_holds(
                words.update(word_index(at, frame_node(at, frame)), word),
                level,
                node,
                bit,
            ) == summary_holds(words, level, node, bit),
{
    let target = frame_node(at, frame);
    let index = word_index(at, target);
    let updated = words.update(index, word);
    if at < 5 {
        lemma_frame_path(at, frame);
    } else {
        lemma_frame_path(4, frame);
    }
    lemma_word_index_injective(at, target, at, target);
    assert forall|level: int, node: int|
        valid_node(level, node) && !(level == at && node == target) implies #[trigger] node_word(
        updated,
        level,
        node,
    ) == node_word(words, level, node) by {
        lemma_word_index_injective(level, node, at, target);
    }
    assert forall|level: int, node: int, bit: int|
        is_link(level, node, bit) && !on_path(frame, at, level, node, bit) && !on_path(
            frame,
            at + 1,
            level,
            node,
            bit,
        ) implies #[trigger] summary_holds(updated, level, node, bit) == summary_holds(
        words,
        level,
        node,
        bit,
    ) by {
        let child = node * 64 + bit;
        assert(valid_node(level - 1, child));
        lemma_word_index_injective(level, node, at, target);
        lemma_word_index_injective(level - 1, child, at, target);
        if level - 1 == at && child == target {
            // the link into the replaced word is the frame's link at `at + 1`
            assert(node == frame_node(at + 1, frame) && bit == frame_bit(at + 1, frame));
        }
        assert(node_word(updated, level - 1, child) == node_word(words, level - 1, child));
        if level == at && node == target {
            assert(bit != frame_bit(at, frame));
            assert(node_word(updated, level, node) == word);
            assert(bit_is_set(word, bit as u64) == bit_is_set(
                node_word(words, at, target),
                bit as u64,
            ));
        } else {
            assert(node_word(updated, level, node) == node_word(words, level, node));
        }
    }
}

/// Setting the bit of `frame` from level `at` upwards repairs the one link
/// that may be broken, keeps every other one, and changes no leaf word but,
/// when it starts at the leaves, the frame's own.
proof fn lemma_set_path(words: Seq<u64>, frame: int, at: int)
    requires
        0 <= frame < FRAME_COUNT,
        1 <= at <= 5,
        consistent_except(words, frame, at),
        at >= 2 ==> node_word(words, at - 1, frame_node(at - 1, frame)) == u64::MAX,
    ensures
        tree_consistent(set_path(words, frame, at)),
        forall|node: int|
            valid_node(1, node) && !(at == 1 && node == frame / 64) ==> #[trigger] node_word(
                set_path(words, frame, at),
                1,
                node,
            ) == node_word(words, 1, node),
        at == 1 ==> node_word(set_path(words, frame, at), 1, frame / 64) == node_word(
            words,
            1,
            frame / 64,
        ) | (1u64 << ((frame % 64) as u64)),
    decreases 6 - at,
{
    let target = frame_node(at, frame);
    let bit = frame_bit(at, frame);
    let index = word_index(at, target);
    let before = words[index];
    let word = before | (1u64 << (bit as u64));
    let updated = words.update(index, word);
    if at < 5 {
        lemma_frame_path(at, frame);
    } else {
        lemma_frame_path(4, frame);
    }
    if at >= 2 {
        lemma_frame_path(at - 1, frame);
    }
    assert forall|other: u64| other < 64 && other != bit implies bit_is_set(word, other)
        == bit_is_set(before, other) by {
        lemma_set_bit(before, bit as u64, other);
    }
    lemma_set_bit(before, bit as u64, bit as u64);
    lemma_set_clear_round_trip(before, bit as u64);
    lemma_update_path_word(words, frame, at, word);
    // the link out of the replaced word now holds
    if at >= 2 {
        assert(valid_node(at - 1, target * 64 + bit));
        assert(node_word(updated, at - 1, target * 64 + bit) == node_word(
            words,
            at - 1,
            target * 64 + bit,
        ));
        assert(summary_holds(updated, at, target, bit));
    }
    if word == u64::MAX && at < 5 {
        assert forall|level: int, node: int, b: int|
            is_link(level, node, b) && !on_path(
                frame,
                at + 1,
                level,
                node,
                b,
            ) implies #[trigger] summary_holds(updated, level, node, b) by {
            if !on_path(frame, at, level, node, b) {
                assert(summary_holds(words, level, node, b));
            }
        }
        lemma_set_path(updated, frame, at + 1);
        assert forall|node: int|
            valid_node(1, node) && !(at == 1 && node == frame / 64) implies #[trigger] node_word(
            set_path(words, frame, at),
            1,
            node,
        ) == node_word(words, 1, node) by {
            assert(node_word(set_path(updated, frame, at + 1), 1, node) == node_word(
                updated,
                1,
                node,
            ));
        }
        if at == 1 {
            assert(node_word(set_path(updated, frame, at + 1), 1, frame / 64) == node_word(
                updated,
                1,
                frame / 64,
            ));
        }
    } else {
        assert forall|level: int, node: int, b: int|
            is_link(level, node, b) implies #[trigger] summary_holds(updated, level, node, b) by {
            if on_path(frame, at, level, node, b) {
            } else if on_path(frame, at + 1, level, node, b) {
                // the word below did not become all-ones, and was not before
                assert(summary_holds(words, level, node, b));
                assert(node * 64 + b == target);
                lemma_word_index_injective(level, node, at, target);
                assert(node_word(updated, level, node) == node_word(words, level, node));
                assert(before != u64::MAX);
            } else {
                assert(summary_holds(words, level, node, b));
            }
        }
    }
}

/// Clearing the bit of `frame` from level `at` upwards repairs the one link
/// that may be broken, keeps every other one, and changes no leaf word but,
/// when it starts at the leaves, the frame's own.
proof fn lemma_clear_path(words: Seq<u64>, frame: int, at: int)
    requires
        0 <= frame < FRAME_COUNT,
        1 <= at <= 5,
        consistent_except(words, frame, at),
        at >= 2 ==> node_word(words, at - 1, frame_node(at - 1, frame)) != u64::MAX,
    ensures
        tree_consistent(clear_path(words, frame, at)),
        forall|node: int|
            valid_node(1, node) && !(at == 1 && node == frame / 64) ==> #[trigger] node_word(
                clear_path(words, frame, at),
                1,
                node,
            ) == node_word(words, 1, node),
        at == 1 ==> node_word(clear_path(words, frame, at), 1, frame / 64) == node_word(
            words,
            1,
            frame / 64,
        ) & !(1u64 << ((frame % 64) as u64)),
    decreases 6 - at,
{
    let target = frame_node(at, frame);
    let bit = frame_bit(at, frame);
    let index = word_index(at, target);
    let before = words[index];
    let word = before & !(1u64 << (bit as u64));
    let updated = words.update(index, word);
    if at < 5 {
        lemma_frame_path(at, frame);
    } else {
        lemma_frame_path(4, frame);
    }
    if at >= 2 {
        lemma_frame_path(at - 1, frame);
    }
    assert forall|other: u64| other < 64 && other != bit implies bit_is_set(word, other)
        == bit_is_set(before, other) by {
        lemma_clear_bit(before, bit as u64, other);
    }
    lemma_clear_bit(before, bit as u64, bit as u64);
    lemma_set_clear_round_trip(word, bit as u64);
    assert(word != u64::MAX);
    lemma_update_path_word(words, frame, at, word);
    if at >= 2 {
        assert(valid_node(at - 1, target * 64 + bit));
        assert(node_word(updated, at - 1, target * 64 + bit) == node_word(
            words,
            at - 1,
            target * 64 + bit,
        ));
        assert(summary_holds(updated, at, target, bit));
    }
    if before == u64::MAX && at < 5 {
        assert forall|level: int, node: int, b: int|
            is_link(level, node, b) && !on_path(
                frame,
                at + 1,
                level,
                node,
                b,
            ) implies #[trigger] summary_holds(updated, level, node, b) by {
            if !on_path(frame, at, level, node, b) {
                assert(summary_holds(words, level, node, b));
            }
        }
        lemma_clear_path(updated, frame, at + 1);
        assert forall|node: int|
            valid_node(1, node) && !(at == 1 && node == frame / 64) implies #[trigger] node_word(
            clear_path(words, frame, at),
            1,
            node,
        ) == node_word(words, 1, node) by {
            assert(node_word(clear_path(updated, frame, at + 1), 1, node) == node_word(
                updated,
                1,
                node,
            ));
        }
        if at == 1 {
            assert(node_word(clear_path(updated, frame, at + 1), 1, frame / 64) == node_word(
                updated,
                1,
                frame / 64,
            ));
        }
    } else {
        assert forall|level: int, node: int, b: int|
            is_link(level, node, b) implies #[trigger] summary_holds(updated, level, node, b) by {
            if on_path(frame, at, level, node, b) {
            } else if on_path(frame, at + 1, level, node, b) {
                // the word below was not all-ones, and is not now
                assert(summary_holds(words, level, node, b));
                assert(node * 64 + b == target);
                lemma_word_index_injective(level, node, at, target);
                assert(node_word(updated, level, node) == node_word(words, level, node));
            } else {
                assert(summary_holds(words, level, node, b));
            }
        }
    }
}

/// Marking a frame used keeps the tree consistent and changes the state of
/// that frame only.
pub proof fn lemma_mark_used(words: Seq<u64>, frame: int)
    requires
        tree_consistent(words),
        0 <= frame < FRAME_COUNT,
    ensures
        tree_consistent(mark_used(words, frame)),
        forall|other: int|
            0 <= other < FRAME_COUNT ==> #[trigger] frame_used(mark_used(words, frame), other) == (
            frame_used(words, other) || other == frame),
{
    lemma_set_path(words, frame, 1);
    assert forall|other: int| 0 <= other < FRAME_COUNT implies #[trigger] frame_used(
        mark_used(words, frame),
        other,
    ) == (frame_used(words, other) || other == frame) by {
        assert(valid_node(1, other / 64));
        if other / 64 == frame / 64 {
            lemma_set_bit(
                node_word(words, 1, frame / 64),
                (frame % 64) as u64,
                (other % 64) as u64,
            );
        }
    }
}

/// Marking a frame free keeps the tree consistent and changes the state of
/// that frame only.
pub proof fn lemma_mark_free(words: Seq<u64>, frame: int)
    requires
        tree_consistent(words),
        0 <= frame < FRAME_COUNT,
    ensures
        tree_consistent(mark_free(words, frame)),
        forall|other: int|
            0 <= other < FRAME_COUNT ==> #[trigger] frame_used(mark_free(words, frame), other) == (
            frame_used(words, other) && other != frame),
{
    lemma_clear_path(words, frame, 1);
    assert forall|other: int| 0 <= other < FRAME_COUNT implies #[trigger] frame_used(
        mark_free(words, frame),
        other,
    ) == (frame_used(words, other) && other != frame) by {
        assert(valid_node(1, other / 64));
        if other / 64 == frame / 64 {
            lemma_clear_bit(
                node_word(words, 1, frame / 64),
                (frame % 64) as u64,
                (other % 64) as u64,
            );
        }
    }
}

/// Every frame below an all-ones word is used.
pub proof fn lemma_full_node(words: Seq<u64>, level: int, frame: int)
    requires
        tree_consistent(words),
        1 <= level <= 5,
        0 <= frame < FRAME_COUNT,
        node_word(words, level, frame_node(level, frame)) == u64::MAX,
    ensures
        frame_used(words, frame),
    decreases level,
{
    let node = frame_node(level, frame);
    let bit = frame_bit(level, frame);
    if level < 5 {
        lemma_frame_path(level, frame);
    } else {
        lemma_frame_path(4, frame);
    }
    lemma_set_clear_round_trip(node_word(words, level, node), bit as u64);
    if level > 1 {
        lemma_frame_path(level - 1, frame);
        assert(is_link(level, node, bit));
        assert(summary_holds(words, level, node, bit));
        lemma_full_node(words, level - 1, frame);
    }
}

/// Whether the word at position `index` is one of those above `frame` at
/// level `at` or higher.
pub open spec fn above_frame(index: int, frame: int, at: int) -> bool {
    exists|level: int| at <= level <= 5 && index == #[trigger] word_index(
        level,
        frame_node(level, frame),
    )
}

/// Setting the bit of `frame` from level `at` upwards changes no word but
/// those above the frame at these levels.
proof fn lemma_set_path_elsewhere(words: Seq<u64>, frame: int, at: int)
    requires
        words.len() == ARENA_WORDS,
        0 <= frame < FRAME_COUNT,
        1 <= at <= 5,
    ensures
        set_path(words, frame, at).len() == words.len(),
        forall|index: int|
            0 <= index < words.len() && !above_frame(index, frame, at) ==> #[trigger] set_path(
                words,
                frame,
                at,
            )[index] == words[index],
    decreases 6 - at,
{
    let index = word_index(at, frame_node(at, frame));
    let word = words[index] | (1u64 << (frame_bit(at, frame) as u64));
    let updated = words.update(index, word);
    if at < 5 {
        lemma_frame_path(at, frame);
    } else {
        lemma_frame_path(4, frame);
    }
    lemma_word_index_injective(at, frame_node(at, frame), at, frame_node(at, frame));
    if word == u64::MAX && at < 5 {
        lemma_set_path_elsewhere(updated, frame, at + 1);
        assert(set_path(words, frame, at) == set_path(updated, frame, at + 1));
        assert forall|other: int|
            0 <= other < words.len() && !above_frame(other, frame, at) implies #[trigger] set_path(
            words,
            frame,
            at,
        )[other] == words[other] by {
            assert(other != word_index(at, frame_node(at, frame)));
            if above_frame(other, frame, at + 1) {
                let level = choose|level: int|
                    at + 1 <= level <= 5 && other == #[trigger] word_index(
                        level,
                        frame_node(level, frame),
                    );
                assert(at <= level <= 5 && other == word_index(level, frame_node(level, frame)));
            }
            assert(set_path(updated, frame, at + 1)[other] == updated[other]);
        }
    } else {
        assert(set_path(words, frame, at) == updated);
        assert forall|other: int|
            0 <= other < words.len() && !above_frame(other, frame, at) implies #[trigger] set_path(
            words,
            frame,
            at,
        )[other] == words[other] by {
            assert(other != word_index(at, frame_node(at, frame)));
        }
    }
}

/// Setting the bit of `frame` from level `at` upwards does not read the
/// words below: replacing one of them before or after gives the same area.
proof fn lemma_set_path_commutes(words: Seq<u64>, frame: int, at: int, index: int, word: u64)
    requires
        words.len() == ARENA_WORDS,
        0 <= frame < FRAME_COUNT,
        1 <= at <= 5,
        0 <= index < words.len(),
        !above_frame(index, frame, at),
    ensures
        set_path(words.update(index, word), frame, at) == set_path(words, frame, at).update(
            index,
            word,
        ),
    decreases 6 - at,
{
    let place = word_index(at, frame_node(at, frame));
    if at < 5 {
        lemma_frame_path(at, frame);
    } else {
        lemma_frame_path(4, frame);
    }
    lemma_word_index_injective(at, frame_node(at, frame), at, frame_node(at, frame));
    assert(index != place);
    let changed = words.update(index, word);
    let new_word = words[place] | (1u64 << (frame_bit(at, frame) as u64));
    assert(changed[place] == words[place]);
    assert(changed.update(place, new_word) =~= words.update(place, new_word).update(index, word));
    if new_word == u64::MAX && at < 5 {
        if above_frame(index, frame, at + 1) {
            let level = choose|level: int|
                at + 1 <= level <= 5 && index == #[trigger] word_index(
                    level,
                    frame_node(level, frame),
                );
            assert(at <= level <= 5 && index == word_index(level, frame_node(level, frame)));
        }
        lemma_set_path_commutes(words.update(place, new_word), frame, at + 1, index, word);
    }
}

/// Marking a free frame used and then free again restores, from level `at`
/// upwards, the words as they were.
proof fn lemma_round_trip_from(words: Seq<u64>, frame: int, at: int)
    requires
        words.len() == ARENA_WORDS,
        0 <= frame < FRAME_COUNT,
        1 <= at <= 5,
        !bit_is_set(node_word(words, at, frame_node(at, frame)), frame_bit(at, frame) as u64),
        forall|level: int|
            at < level <= 5 ==> #[trigger] summary_holds(
                words,
                level,
                frame_node(level, frame),
                frame_bit(level, frame),
            ),
    ensures
        clear_path(set_path(words, frame, at), frame, at) == words,
    decreases 6 - at,
{
    let target = frame_node(at, frame);
    let bit = frame_bit(at, frame);
    let place = word_index(at, target);
    let before = words[place];
    let word = before | (1u64 << (bit as u64));
    let updated = words.update(place, word);
    if at < 5 {
        lemma_frame_path(at, frame);
    } else {
        lemma_frame_path(4, frame);
    }
    lemma_word_index_injective(at, target, at, target);
    lemma_set_clear_round_trip(before, bit as u64);
    assert(word & !(1u64 << (bit as u64)) == before);
    if word == u64::MAX && at < 5 {
        let raised = set_path(updated, frame, at + 1);
        // the words of the levels above do not depend on this one
        assert(!above_frame(place, frame, at + 1)) by {
            if above_frame(place, frame, at + 1) {
                let level = choose|level: int|
                    at + 1 <= level <= 5 && place == #[trigger] word_index(
                        level,
                        frame_node(level, frame),
                    );
                if level < 5 {
                    lemma_frame_path(level, frame);
                }
                lemma_word_index_injective(level, frame_node(level, frame), at, target);
            }
        }
        lemma_set_path_elsewhere(updated, frame, at + 1);
        assert(raised[place] == word);
        lemma_set_path_commutes(words, frame, at + 1, place, word);
        assert(raised == set_path(words, frame, at + 1).update(place, word));
        lemma_set_path_elsewhere(words, frame, at + 1);
        assert(raised.update(place, before) =~= set_path(words, frame, at + 1));
        // one level up the frame's bit is clear, since this word was not full
        let parent = frame_node(at + 1, frame);
        assert(summary_holds(words, at + 1, parent, frame_bit(at + 1, frame)));
        assert(parent * 64 + frame_bit(at + 1, frame) == target);
        assert(before != u64::MAX);
        assert forall|level: int| at + 1 < level <= 5 implies #[trigger] summary_holds(
            words,
            level,
            frame_node(level, frame),
            frame_bit(level, frame),
        ) by {}
        lemma_round_trip_from(words, frame, at + 1);
    } else {
        assert(updated.update(place, before) =~= words);
    }
}

/// Marking a free frame used and then free again restores the bitmap area
/// word for word.
pub proof fn lemma_mark_round_trip(words: Seq<u64>, frame: int)
    requires
        tree_consistent(words),
        0 <= frame < FRAME_COUNT,
        !frame_used(words, frame),
    ensures
        mark_free(mark_used(words, frame), frame) == words,
{
    lemma_frame_path(1, frame);
    lemma_frame_path(2, frame);
    lemma_frame_path(3, frame);
    lemma_frame_path(4, frame);
    assert forall|level: int| 1 < level <= 5 implies #[trigger] summary_holds(
        words,
        level,
        frame_node(level, frame),
        frame_bit(level, frame),
    ) by {
        assert(is_link(level, frame_node(level, frame), frame_bit(level, frame)));
    }
    lemma_round_trip_from(words, frame, 1);
}

/// One marking of a frame: as used if `used` holds, else as free.
pub struct Mark {
    /// Whether the frame is marked used.
    pub used: bool,
    /// The frame that is marked.
    pub frame: int,
}

/// The bitmap area after the markings `marks` have been made one after the
/// other.
pub open spec fn marked(words: Seq<u64>, marks: Seq<Mark>) -> Seq<u64>
    decreases marks.len(),
{
    if marks.len() == 0 {
        words
    } else if marks.last().used {
        mark_used(marked(words, marks.drop_last()), marks.last().frame)
    } else {
        mark_free(marked(words, marks.drop_last()), marks.last().frame)
    }
}

/// Whatever frames are marked used or free, in whatever order, a
/// consistent tree stays consistent: each summary bit is set exactly when
/// the word below it is all-ones.
pub proof fn lemma_marks_keep_consistency(words: Seq<u64>, marks: Seq<Mark>)
    requires
        tree_consistent(words),
        forall|i: int| 0 <= i < marks.len() ==> 0 <= (#[trigger] marks[i]).frame < FRAME_COUNT,
    ensures
        tree_consistent(marked(words, marks)),
    decreases marks.len(),
{
    if marks.len() > 0 {
        let earlier = marks.drop_last();
        assert forall|i: int| 0 <= i < earlier.len() implies 0 <= (#[trigger] earlier[i]).frame
            < FRAME_COUNT by {
            assert(earlier[i] == marks[i]);
        }
        lemma_marks_keep_consistency(words, earlier);
        assert(0 <= marks[marks.len() - 1].frame < FRAME_COUNT);
        if marks.last().used {
            lemma_mark_used(marked(words, earlier), marks.last().frame);
        } else {
            lemma_mark_free(marked(words, earlier), marks.last().frame);
        }
    }
}

/// Handing out `frame` takes the bitmap area from `before` to `after`: the
/// frame was free, and it is marked used.
pub open spec fn hands_out(before: Seq<u64>, after: Seq<u64>, frame: int) -> bool {
    &&& 0 <= frame < FRAME_COUNT
    &&& !frame_used(before, frame)
    &&& after == mark_used(before, frame)
}

/// After the first `done` of a series of hand-outs the tree is consistent,
/// and a frame is used exactly if it was used at the start or has been
/// handed out since.
proof fn lemma_hand_outs(states: Seq<Seq<u64>>, frames: Seq<int>, done: int)
    requires
        states.len() == frames.len() + 1,
        tree_consistent(states[0]),
        forall|i: int|
            0 <= i < frames.len() ==> #[trigger] hands_out(states[i], states[i + 1], frames[i]),
        0 <= done <= frames.len(),
    ensures
        tree_consistent(states[done]),
        forall|frame: int|
            0 <= frame < FRAME_COUNT ==> #[trigger] frame_used(states[done], frame) == (frame_used(
                states[0],
                frame,
            ) || exists|i: int| 0 <= i < done && #[trigger] frames[i] == frame),
    decreases done,
{
    if done > 0 {
        lemma_hand_outs(states, frames, done - 1);
        assert(hands_out(states[done - 1], states[done - 1 + 1], frames[done - 1]));
        lemma_mark_used(states[done - 1], frames[done - 1]);
        assert forall|frame: int| 0 <= frame < FRAME_COUNT implies #[trigger] frame_used(
            states[done],
            frame,
        ) == (frame_used(states[0], frame) || exists|i: int|
            0 <= i < done && #[trigger] frames[i] == frame) by {
            if frame == frames[done - 1] {
            }
            if exists|i: int| 0 <= i < done - 1 && #[trigger] frames[i] == frame {
                let i = choose|i: int| 0 <= i < done - 1 && #[trigger] frames[i] == frame;
                assert(0 <= i < done && frames[i] == frame);
            }
            if exists|i: int| 0 <= i < done && #[trigger] frames[i] == frame {
                let i = choose|i: int| 0 <= i < done && #[trigger] frames[i] == frame;
                if i < done - 1 {
                    assert(0 <= i < done - 1 && frames[i] == frame);
                }
            }
        }
    }
}

/// No frame is handed out twice. When a series of hand-outs takes a
/// consistent tree through `states`, giving `frames` one by one, then the
/// frames differ from one another, each of them was free at the start, and
/// all of them are used at the end.
pub proof fn lemma_no_double_allocation(states: Seq<Seq<u64>>, frames: Seq<int>)
    requires
        states.len() == frames.len() + 1,
        tree_consistent(states[0]),
        forall|i: int|
            0 <= i < frames.len() ==> #[trigger] hands_out(states[i], states[i + 1], frames[i]),
    ensures
        forall|i: int, j: int| 0 <= i < j < frames.len() ==> frames[i] != frames[j],
        forall|i: int| 0 <= i < frames.len() ==> !frame_used(states[0], #[trigger] frames[i]),
        forall|i: int| 0 <= i < frames.len() ==> frame_used(states.last(), #[trigger] frames[i]),
        tree_consistent(states.last()),
{
    assert forall|i: int, j: int| 0 <= i < j < frames.len() implies frames[i] != frames[j] by {
        lemma_hand_outs(states, frames, j);
        assert(hands_out(states[j], states[j + 1], frames[j]));
        assert(hands_out(states[i], states[i + 1], frames[i]));
    }
    assert forall|i: int| 0 <= i < frames.len() implies !frame_used(
        states[0],
        #[trigger] frames[i],
    ) by {
        lemma_hand_outs(states, frames, i);
        assert(hands_out(states[i], states[i + 1], frames[i]));
    }
    lemma_hand_outs(states, frames, frames.len() as int);
    assert forall|i: int| 0 <= i < frames.len() implies frame_used(
        states.last(),
        #[trigger] frames[i],
    ) by {
        assert(hands_out(states[i], states[i + 1], frames[i]));
    }
}

} // verus!
