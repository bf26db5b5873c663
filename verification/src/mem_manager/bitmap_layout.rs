//! Where each bitmap word of the five-level tree lives.
//!
//! A bitmap word at level `k` (5 is the root, 1 the leaves) summarises 64
//! ranges of the level below: one bit of a level-1 word stands for a single
//! 4 KiB frame, one bit of a level-2 word for the 64 frames of a level-1
//! word, and so on up to the root, whose bits stand for 64 GiB each.
//!
//! A word is named either by the path of bit indices that leads to it from
//! the root, or by its *node number*: the path read as a base-64 number.
//! Every word sits at a fixed byte offset from the base of the bitmap area.
//! The root is at offset 0. The words of level 4 follow their parent at a
//! stride of `0x24_0000` bytes, those of level 3 at `0x9000` bytes (one
//! 36 KiB section per GiB), those of level 2 at `0x208` bytes (the word
//! itself and the `0x200` bytes of its 64 leaves) and the leaves at 8 bytes;
//! each child area starts 8 bytes after its parent's word.

use vstd::arithmetic::div_mod::lemma_fundamental_div_mod_converse;
use vstd::prelude::*;

verus! {

/// Bytes in one physical frame.
pub const FRAME_SIZE: u64 = 0x1000;

/// Number of frames the tree tracks: 4 TiB of 4 KiB frames.
pub const FRAME_COUNT: u64 = 0x4000_0000;

/// First physical address beyond the tracked range (4 TiB).
pub const MEMORY_CEILING: u64 = 0x400_0000_0000;

/// Distance in bytes between two neighbouring level-4 words.
pub const LEVEL4_STRIDE: u64 = 0x24_0000;

/// Distance in bytes between two neighbouring level-3 words.
pub const LEVEL3_STRIDE: u64 = 0x9000;

/// Distance in bytes between two neighbouring level-2 words.
pub const LEVEL2_STRIDE: u64 = 0x208;

/// Distance in bytes between two neighbouring level-1 words.
pub const LEVEL1_STRIDE: u64 = 8;

/// Number of 64-bit words in the bitmap area.
pub const ARENA_WORDS: usize = 18_874_369;

/// Number of bitmap words at `level`.
pub open spec fn node_count(level: int) -> int {
    if level >= 5 {
        1
    } else if level == 4 {
        64
    } else if level == 3 {
        4096
    } else if level == 2 {
        262144
    } else {
        16777216
    }
}

/// Whether `node` names a bitmap word of `level`.
pub open spec fn valid_node(level: int, node: int) -> bool {
    1 <= level <= 5 && 0 <= node < node_count(level)
}

/// Position, counted in 64-bit words from the base of the bitmap area, of
/// the word `node` of `level`.
pub open spec fn word_index(level: int, node: int) -> int {
    if level >= 5 {
        0
    } else if level == 4 {
        1 + node * 294912
    } else if level == 3 {
        2 + (node / 64) * 294912 + (node % 64) * 4608
    } else if level == 2 {
        3 + (node / 4096) * 294912 + (node / 64 % 64) * 4608 + (node % 64) * 65
    } else {
        4 + (node / 262144) * 294912 + (node / 4096 % 64) * 4608 + (node / 64 % 64) * 65 + node
            % 64
    }
}

/// The level-`level` word that summarises `frame`, as a node number.
pub open spec fn frame_node(level: int, frame: int) -> int {
    if level <= 1 {
        frame / 64
    } else if level == 2 {
        frame / 4096
    } else if level == 3 {
        frame / 262144
    } else if level == 4 {
        frame / 16777216
    } else {
        frame / 1073741824
    }
}

/// The bit of the word `frame_node(level, frame)` under which `frame` lies.
pub open spec fn frame_bit(level: int, frame: int) -> int {
    if level <= 1 {
        frame % 64
    } else if level == 2 {
        frame / 64 % 64
    } else if level == 3 {
        frame / 4096 % 64
    } else if level == 4 {
        frame / 262144 % 64
    } else {
        frame / 16777216 % 64
    }
}

/// The level of the word at position `index`, the inverse of `word_index`
/// in its first argument.
pub open spec fn index_level(index: int) -> int {
    if index <= 0 {
        5
    } else if (index - 1) % 294912 == 0 {
        4
    } else if ((index - 1) % 294912 - 1) % 4608 == 0 {
        3
    } else if (((index - 1) % 294912 - 1) % 4608 - 1) % 65 == 0 {
        2
    } else {
        1
    }
}

/// The node number of the word at position `index`, the inverse of
/// `word_index` in its second argument.
pub open spec fn index_node(index: int) -> int {
    let group = (index - 1) / 294912;
    let section = ((index - 1) % 294912 - 1) / 4608;
    let block = (((index - 1) % 294912 - 1) % 4608 - 1) / 65;
    let leaf = (((index - 1) % 294912 - 1) % 4608 - 1) % 65 - 1;
    if index_level(index) == 5 {
        0
    } else if index_level(index) == 4 {
        group
    } else if index_level(index) == 3 {
        group * 64 + section
    } else if index_level(index) == 2 {
        (group * 64 + section) * 64 + block
    } else {
        ((group * 64 + section) * 64 + block) * 64 + leaf
    }
}

/// A word's position tells its level and node number.
pub proof fn lemma_word_index_inverse(level: int, node: int)
    requires
        valid_node(level, node),
    ensures
        0 <= word_index(level, node) < ARENA_WORDS,
        index_level(word_index(level, node)) == level,
        index_node(word_index(level, node)) == node,
{
    let index = word_index(level, node);
    if level == 4 {
        lemma_fundamental_div_mod_converse(index - 1, 294912, node, 0);
    } else if level == 3 {
        let a = node / 64;
        let b = node % 64;
        lemma_fundamental_div_mod_converse(index - 1, 294912, a, 1 + b * 4608);
        lemma_fundamental_div_mod_converse(b * 4608, 4608, b, 0);
    } else if level == 2 {
        let a = node / 4096;
        let b = node / 64 % 64;
        let c = node % 64;
        lemma_fundamental_div_mod_converse(index - 1, 294912, a, 2 + b * 4608 + c * 65);
        lemma_fundamental_div_mod_converse(1 + b * 4608 + c * 65, 4608, b, 1 + c * 65);
        lemma_fundamental_div_mod_converse(c * 65, 65, c, 0);
        assert(node == (a * 64 + b) * 64 + c);
    } else if level == 1 {
        let a = node / 262144;
        let b = node / 4096 % 64;
        let c = node / 64 % 64;
        let d = node % 64;
        lemma_fundamental_div_mod_converse(index - 1, 294912, a, 3 + b * 4608 + c * 65 + d);
        lemma_fundamental_div_mod_converse(2 + b * 4608 + c * 65 + d, 4608, b, 2 + c * 65 + d);
        lemma_fundamental_div_mod_converse(1 + c * 65 + d, 65, c, 1 + d);
        assert(node == ((a * 64 + b) * 64 + c) * 64 + d);
    }
}

/// Every word lies inside the bitmap area, and no two words share a place.
pub proof fn lemma_word_index_injective(level_a: int, node_a: int, level_b: int, node_b: int)
    requires
        valid_node(level_a, node_a),
        valid_node(level_b, node_b),
    ensures
        0 <= word_index(level_a, node_a) < ARENA_WORDS,
        word_index(level_a, node_a) == word_index(level_b, node_b) ==> level_a == level_b
            && node_a == node_b,
{
    lemma_word_index_inverse(level_a, node_a);
    lemma_word_index_inverse(level_b, node_b);
}

/// The word above `frame` at `level + 1` is the parent of the one at
/// `level`, and the bit that leads from parent to child is the frame's bit
/// at `level + 1`.
pub proof fn lemma_frame_path(level: int, frame: int)
    requires
        1 <= level < 5,
        0 <= frame < FRAME_COUNT,
    ensures
        valid_node(level, frame_node(level, frame)),
        valid_node(level + 1, frame_node(level + 1, frame)),
        frame_node(level, frame) == frame_node(level + 1, frame) * 64 + frame_bit(
            level + 1,
            frame,
        ),
        0 <= frame_bit(level, frame) < 64,
        0 <= frame_bit(level + 1, frame) < 64,
{
}

/// The node number of the level-`level` word reached from the root through
/// the bit indices in `path`: `path[4]` is the bit taken in the root word,
/// `path[3]` the one taken at level 4, down to `path[level]`.
pub open spec fn path_node(level: int, path: Seq<u8>) -> int {
    if level >= 5 {
        0
    } else if level == 4 {
        path[4] as int
    } else if level == 3 {
        path[4] * 64 + path[3]
    } else if level == 2 {
        (path[4] * 64 + path[3]) * 64 + path[2]
    } else {
        ((path[4] * 64 + path[3]) * 64 + path[2]) * 64 + path[1]
    }
}

/// Whether `path` leads from the root to a word of `level`: the indices of
/// the levels above `level` are all below 64.
pub open spec fn valid_path(level: int, path: Seq<u8>) -> bool {
    &&& path.len() == 5
    &&& 1 <= level <= 5
    &&& forall|k: int| level <= k < 5 ==> path[k] < 64
}

/// A valid path names a word of its level, the path to the level above
/// names that word's parent, and the word's position is a fixed linear
/// function of the indices on the path.
pub proof fn lemma_path_node(level: int, path: Seq<u8>)
    requires
        valid_path(level, path),
    ensures
        valid_node(level, path_node(level, path)),
        level < 5 ==> path_node(level, path) == path_node(level + 1, path) * 64 + path[level],
        level == 4 ==> word_index(level, path_node(level, path)) == 1 + path[4] * 294912,
        level == 3 ==> word_index(level, path_node(level, path)) == 2 + path[4] * 294912
            + path[3] * 4608,
        level == 2 ==> word_index(level, path_node(level, path)) == 3 + path[4] * 294912
            + path[3] * 4608 + path[2] * 65,
        level == 1 ==> word_index(level, path_node(level, path)) == 4 + path[4] * 294912
            + path[3] * 4608 + path[2] * 65 + path[1],
{
    let node = path_node(level, path);
    if level < 5 {
        assert(path[4] < 64);
    }
    if level < 4 {
        assert(path[3] < 64);
    }
    if level < 3 {
        assert(path[2] < 64);
    }
    if level < 2 {
        assert(path[1] < 64);
    }
    let p4 = path[4] as int;
    let p3 = path[3] as int;
    let p2 = path[2] as int;
    let p1 = path[1] as int;
    if level == 3 {
        lemma_fundamental_div_mod_converse(node, 64, p4, p3);
    } else if level == 2 {
        lemma_fundamental_div_mod_converse(node, 64, p4 * 64 + p3, p2);
        lemma_fundamental_div_mod_converse(node, 4096, p4, p3 * 64 + p2);
        lemma_fundamental_div_mod_converse(p4 * 64 + p3, 64, p4, p3);
    } else if level == 1 {
        lemma_fundamental_div_mod_converse(node, 64, (p4 * 64 + p3) * 64 + p2, p1);
        lemma_fundamental_div_mod_converse(node, 4096, p4 * 64 + p3, p2 * 64 + p1);
        lemma_fundamental_div_mod_converse(node, 262144, p4, (p3 * 64 + p2) * 64 + p1);
        lemma_fundamental_div_mod_converse((p4 * 64 + p3) * 64 + p2, 64, p4 * 64 + p3, p2);
        lemma_fundamental_div_mod_converse(p4 * 64 + p3, 64, p4, p3);
    }
}

/// Splits a physical address into its five bit indices, leaf first:
/// element `k` is the bit that the address takes in its level-`k + 1` word.
/// An address at or beyond the 4 TiB ceiling is out of range and gives five
/// zeros.
pub fn get_tables_indices(addr: u64) -> (indices: [u64; 5])
    ensures
        addr >= MEMORY_CEILING ==> forall|k: int| 0 <= k < 5 ==> indices[k] == 0,
        addr < MEMORY_CEILING ==> forall|k: int|
            0 <= k < 5 ==> indices[k] == frame_bit(k + 1, (addr / FRAME_SIZE) as int),
        forall|k: int| 0 <= k < 5 ==> indices[k] < 64,
{
    if addr / 0x10_0000_0000 >= 64 {
        return [0, 0, 0, 0, 0];
    }
    let frame: u64 = addr / 0x1000;
    [frame % 64, frame / 64 % 64, frame / 4096 % 64, frame / 262144 % 64, frame / 16777216 % 64]
}

/// The physical address of the frame reached through `path` and then bit
/// `path[0]` of the leaf word.
pub fn frame_address(path: &[u8; 5]) -> (addr: u64)
    requires
        valid_path(1, path@),
        path[0] < 64,
    ensures
        addr == (path_node(1, path@) * 64 + path[0]) * FRAME_SIZE,
        addr < MEMORY_CEILING,
{
    proof {
        lemma_path_node(1, path@);
    }
    path[4] as u64 * 0x10_0000_0000 + path[3] as u64 * 0x00_4000_0000 + path[2] as u64
        * 0x00_0100_0000 + path[1] as u64 * 0x4_0000 + path[0] as u64 * 0x1000
}

/// Byte offset, from the base of the bitmap area, of the level-`level` word
/// reached through `path`.
pub fn bitmap_offset(level: u8, path: &[u8; 5]) -> (offset: u64)
    requires
        valid_path(level as int, path@),
    ensures
        offset == 8 * word_index(level as int, path_node(level as int, path@)),
        offset < 8 * ARENA_WORDS,
{
    proof {
        lemma_path_node(level as int, path@);
    }
    let mut offset: u64 = 0;
    if level <= 4 {
        offset = offset + 8 + path[4] as u64 * LEVEL4_STRIDE;
    }
    if level <= 3 {
        offset = offset + 8 + path[3] as u64 * LEVEL3_STRIDE;
    }
    if level <= 2 {
        offset = offset + 8 + path[2] as u64 * LEVEL2_STRIDE;
    }
    if level <= 1 {
        offset = offset + 8 + path[1] as u64 * LEVEL1_STRIDE;
    }
    offset
}

/// Position in the bitmap area, counted in words, of the word `node` of
/// `level`.
pub fn word_position(level: u8, node: u64) -> (index: usize)
    requires
        valid_node(level as int, node as int),
    ensures
        index == word_index(level as int, node as int),
        index < ARENA_WORDS,
{
    let index: u64 = if level >= 5 {
        0
    } else if level == 4 {
        1 + node * 294912
    } else if level == 3 {
        2 + (node / 64) * 294912 + (node % 64) * 4608
    } else if level == 2 {
        3 + (node / 4096) * 294912 + (node / 64 % 64) * 4608 + (node % 64) * 65
    } else {
        4 + (node / 262144) * 294912 + (node / 4096 % 64) * 4608 + (node / 64 % 64) * 65 + node
            % 64
    };
    index as usize
}

/// The node number of the level-`level` word above `frame`.
pub fn node_of_frame(level: u8, frame: u64) -> (node: u64)
    requires
        1 <= level <= 5,
        frame < FRAME_COUNT,
    ensures
        node == frame_node(level as int, frame as int),
        valid_node(level as int, node as int),
{
    if level <= 1 {
        frame / 64
    } else if level == 2 {
        frame / 4096
    } else if level == 3 {
        frame / 262144
    } else if level == 4 {
        frame / 16777216
    } else {
        frame / 1073741824
    }
}

/// The bit that `frame` takes in its level-`level` word.
pub fn bit_of_frame(level: u8, frame: u64) -> (bit: u64)
    requires
        1 <= level <= 5,
        frame < FRAME_COUNT,
    ensures
        bit == frame_bit(level as int, frame as int),
        bit < 64,
{
    if level <= 1 {
        frame % 64
    } else if level == 2 {
        frame / 64 % 64
    } else if level == 3 {
        frame / 4096 % 64
    } else if level == 4 {
        frame / 262144 % 64
    } else {
        frame / 16777216 % 64
    }
}

} // verus!
