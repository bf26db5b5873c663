//! The physical frame bitmap tree: which 4 KiB frames are in use.
//!
//! The tree has five levels of 64-bit words. A set bit in a level-1 word
//! means that the frame is used; a set bit in a word of a higher level
//! means that the word below it is all-ones, so that whole range is used.
//! A tree in which every summary bit agrees with the word below it is
//! *consistent*; every operation here keeps a consistent tree consistent.
//!
//! An address at or beyond the 4 TiB ceiling is out of range: marking it
//! changes nothing, and it reads as used.

use super::bit_ops::{bit_is_set, lemma_set_bit};
use super::bitmap_layout::{
    bit_of_frame, bitmap_offset, get_tables_indices, lemma_frame_path, lemma_path_node,
    lemma_word_index_injective, node_count, node_of_frame, path_node, valid_node, word_position,
    ARENA_WORDS, FRAME_COUNT, FRAME_SIZE, MEMORY_CEILING,
};
use crate::boot_info::memory_map::{
    entries_of_bytes, is_map_size_aligned, read_memory_map, record_count, MemoryMapEntry,
    ENTRY_SIZE,
};
use vstd::prelude::*;

pub mod consistency;
pub mod frame_allocator;

pub use self::consistency::{
    clear_path, frame_used, hands_out, is_link, lemma_full_node, lemma_mark_free,
    lemma_mark_round_trip, lemma_mark_used, lemma_marks_keep_consistency,
    lemma_no_double_allocation, mark_free, mark_used, marked, node_word, set_path, summary_holds,
    tree_consistent, Mark,
};
pub use self::frame_allocator::{
    free_run, get_next_free_table, mark_run, no_run_below, FrameDataResumed, PageFrameAllocator,
};

verus! {

/// The five-level bitmap tree over all frames below the 4 TiB ceiling, kept
/// in one buffer of 64-bit words laid out as the module `bitmap_layout`
/// says.
pub struct BitmapTree {
    words: Vec<u64>,
}

impl View for BitmapTree {
    type V = Seq<u64>;

    /// The words of the bitmap area, in the order of their positions.
    closed spec fn view(&self) -> Seq<u64> {
        self.words@
    }
}

impl BitmapTree {
    /// The tree is consistent: every summary bit agrees with the word below.
    pub open spec fn wf(&self) -> bool {
        tree_consistent(self@)
    }

    /// Whether `frame` is marked used.
    pub open spec fn is_used(&self, frame: int) -> bool {
        frame_used(self@, frame)
    }

    /// A tree in which every frame is free.
    pub fn new() -> (tree: BitmapTree)
        ensures
            tree.wf(),
            tree@ == Seq::new(ARENA_WORDS as nat, |index: int| 0u64),
            forall|frame: int| 0 <= frame < FRAME_COUNT ==> !tree.is_used(frame),
    {
        let words: Vec<u64> = vec![0u64; ARENA_WORDS];
        let tree = BitmapTree { words };
        proof {
            assert(tree@ =~= Seq::new(ARENA_WORDS as nat, |index: int| 0u64));
            assert forall|level: int, node: int, bit: int|
                is_link(level, node, bit) implies #[trigger] summary_holds(
                tree@,
                level,
                node,
                bit,
            ) by {
                lemma_word_index_injective(level, node, level, node);
                assert(valid_node(level - 1, node * 64 + bit));
                lemma_word_index_injective(level - 1, node * 64 + bit, level, node);
                lemma_zero_word(bit as u64);
            }
            assert forall|frame: int| 0 <= frame < FRAME_COUNT implies !tree.is_used(frame) by {
                assert(valid_node(1, frame / 64));
                lemma_word_index_injective(1, frame / 64, 1, frame / 64);
                lemma_zero_word((frame % 64) as u64);
            }
        }
        tree
    }

    /// The words of the bitmap area, in the order of their positions.
    pub fn words(&self) -> (words: &Vec<u64>)
        ensures
            words@ == self@,
    {
        &self.words
    }

    /// The bitmap word `node` of `level`.
    pub fn word(&self, level: u8, node: u64) -> (word: u64)
        requires
            self.wf(),
            valid_node(level as int, node as int),
        ensures
            word == node_word(self@, level as int, node as int),
    {
        self.words[word_position(level, node)]
    }

    /// Whether the frame that holds `phys_addr` reads as used. An address at
    /// or beyond the 4 TiB ceiling is never available, so it reads as used.
    pub fn is_page_used(&self, phys_addr: u64) -> (used: bool)
        requires
            self.wf(),
        ensures
            used == (phys_addr >= MEMORY_CEILING || self.is_used((phys_addr / FRAME_SIZE) as int)),
    {
        if phys_addr >= MEMORY_CEILING {
            return true;
        }
        let indices: [u64; 5] = get_tables_indices(phys_addr);
        let path: [u8; 5] = [
            indices[0] as u8,
            indices[1] as u8,
            indices[2] as u8,
            indices[3] as u8,
            indices[4] as u8,
        ];
        proof {
            let frame = (phys_addr / FRAME_SIZE) as int;
            lemma_frame_path(1, frame);
            lemma_frame_path(2, frame);
            lemma_frame_path(3, frame);
            lemma_frame_path(4, frame);
            assert(path_node(1, path@) == frame / 64);
            lemma_path_node(1, path@);
            lemma_word_index_injective(1, frame / 64, 5, 0);
        }
        let offset: u64 = bitmap_offset(1, &path);
        let word: u64 = self.words[(offset / 8) as usize];
        word & (1u64 << indices[0]) != 0
    }
}

/// No bit of the zero word is set.
proof fn lemma_zero_word(bit: u64)
    requires
        bit < 64,
    ensures
        !bit_is_set(0, bit),
{
    assert(0u64 & (1u64 << bit) == 0) by (bit_vector);
}

/// Marks the frame that holds `phys_addr` as used: sets its level-1 bit
/// and, for as long as the word just written has become all-ones, the bit
/// above it. An address at or beyond the 4 TiB ceiling is out of range and
/// leaves the tree as it is.
pub fn mark_page_used(tree: &mut BitmapTree, phys_addr: u64)
    requires
        old(tree).wf(),
    ensures
        final(tree).wf(),
        phys_addr >= MEMORY_CEILING ==> final(tree)@ == old(tree)@,
        phys_addr < MEMORY_CEILING ==> final(tree)@ == mark_used(
            old(tree)@,
            (phys_addr / FRAME_SIZE) as int,
        ),
        forall|frame: int|
            0 <= frame < FRAME_COUNT ==> #[trigger] final(tree).is_used(frame) == (old(
                tree,
            ).is_used(frame) || (phys_addr < MEMORY_CEILING && frame == phys_addr / FRAME_SIZE)),
{
    if phys_addr >= MEMORY_CEILING {
        return ;
    }
    let frame: u64 = phys_addr / FRAME_SIZE;
    let ghost before = tree@;
    let mut level: u8 = 1;
    loop
        invariant_except_break
            1 <= level <= 5,
            mark_used(before, frame as int) == set_path(tree@, frame as int, level as int),
        invariant
            frame < FRAME_COUNT,
            tree@.len() == ARENA_WORDS,
        ensures
            mark_used(before, frame as int) == tree@,
        decreases 6 - level,
    {
        let node: u64 = node_of_frame(level, frame);
        let bit: u64 = bit_of_frame(level, frame);
        let index: usize = word_position(level, node);
        let word: u64 = tree.words[index] | (1u64 << bit);
        tree.words[index] = word;
        if word != u64::MAX || level >= 5 {
            break ;
        }
        level = level + 1;
    }
    proof {
        lemma_mark_used(before, frame as int);
    }
}

/// Marks the frame that holds `phys_addr` as free: clears its level-1 bit
/// and, for as long as the word just written was all-ones before, the bit
/// above it. An address at or beyond the 4 TiB ceiling is out of range and
/// leaves the tree as it is.
pub fn mark_page_free(tree: &mut BitmapTree, phys_addr: u64)
    requires
        old(tree).wf(),
    ensures
        final(tree).wf(),
        phys_addr >= MEMORY_CEILING ==> final(tree)@ == old(tree)@,
        phys_addr < MEMORY_CEILING ==> final(tree)@ == mark_free(
            old(tree)@,
            (phys_addr / FRAME_SIZE) as int,
        ),
        forall|frame: int|
            0 <= frame < FRAME_COUNT ==> #[trigger] final(tree).is_used(frame) == (old(
                tree,
            ).is_used(frame) && !(phys_addr < MEMORY_CEILING && frame == phys_addr / FRAME_SIZE)),
{
    if phys_addr >= MEMORY_CEILING {
        return ;
    }
    let frame: u64 = phys_addr / FRAME_SIZE;
    let ghost before = tree@;
    let mut level: u8 = 1;
    loop
        invariant_except_break
            1 <= level <= 5,
            mark_free(before, frame as int) == clear_path(tree@, frame as int, level as int),
        invariant
            frame < FRAME_COUNT,
            tree@.len() == ARENA_WORDS,
        ensures
            mark_free(before, frame as int) == tree@,
        decreases 6 - level,
    {
        let node: u64 = node_of_frame(level, frame);
        let bit: u64 = bit_of_frame(level, frame);
        let index: usize = word_position(level, node);
        let word: u64 = tree.words[index];
        tree.words[index] = word & !(1u64 << bit);
        if word != u64::MAX || level >= 5 {
            break ;
        }
        level = level + 1;
    }
    proof {
        lemma_mark_free(before, frame as int);
    }
}

/// Setting all bits of a word from `from` upwards changes these bits and
/// no other.
proof fn lemma_set_high_bits(word: u64, from: u64, bit: u64)
    requires
        from < 64,
        bit < 64,
    ensures
        bit_is_set(word | (u64::MAX << from), bit) == (bit_is_set(word, bit) || bit >= from),
        bit_is_set(u64::MAX, bit),
{
    assert(((word | (u64::MAX << from)) & (1u64 << bit) != 0) == ((word & (1u64 << bit) != 0)
        || bit >= from)) by (bit_vector)
        requires
            from < 64,
            bit < 64,
    ;
    assert(u64::MAX & (1u64 << bit) != 0) by (bit_vector)
        requires
            bit < 64,
    ;
}

/// Sets the level-1 bit of every frame from `from` upwards, and leaves the
/// words of the levels above as they are.
fn mark_tail_leaves(tree: &mut BitmapTree, from: u64)
    requires
        old(tree)@.len() == ARENA_WORDS,
    ensures
        final(tree)@.len() == ARENA_WORDS,
        forall|frame: int|
            0 <= frame < FRAME_COUNT ==> #[trigger] frame_used(final(tree)@, frame) == (frame_used(
                old(tree)@,
                frame,
            ) || frame >= from),
{
    if from >= FRAME_COUNT {
        return ;
    }
    let ghost before = tree@;
    let first: u64 = from / 64;
    let index: usize = word_position(1, first);
    let word: u64 = tree.words[index];
    tree.words[index] = word | (u64::MAX << (from % 64));
    proof {
        assert forall|frame: int| 0 <= frame < FRAME_COUNT implies #[trigger] frame_used(
            tree@,
            frame,
        ) == (frame_used(before, frame) || from <= frame < (first + 1) * 64) by {
            lemma_word_index_injective(1, frame / 64, 1, first as int);
            if frame / 64 == first {
                lemma_set_high_bits(word, from % 64, (frame % 64) as u64);
            }
        }
    }
    let mut node: u64 = first + 1;
    while node < 16777216
        invariant
            first < node <= 16777216,
            first == from / 64,
            tree@.len() == ARENA_WORDS,
            forall|frame: int|
                0 <= frame < FRAME_COUNT ==> #[trigger] frame_used(tree@, frame) == (frame_used(
                    before,
                    frame,
                ) || from <= frame < node * 64),
        decreases 16777216 - node,
    {
        let ghost earlier = tree@;
        let index: usize = word_position(1, node);
        tree.words[index] = u64::MAX;
        proof {
            assert forall|frame: int| 0 <= frame < FRAME_COUNT implies #[trigger] frame_used(
                tree@,
                frame,
            ) == (frame_used(before, frame) || from <= frame < (node + 1) * 64) by {
                lemma_word_index_injective(1, frame / 64, 1, node as int);
                assert(frame_used(earlier, frame) == (frame_used(before, frame) || from <= frame
                    < node * 64));
                if frame / 64 == node {
                    lemma_set_high_bits(0, 0, (frame % 64) as u64);
                }
            }
        }
        node = node + 1;
    }
}

/// Number of bitmap words at `level`.
fn words_at_level(level: u8) -> (count: u64)
    requires
        1 <= level <= 5,
    ensures
        count == node_count(level as int),
{
    if level >= 5 {
        1
    } else if level == 4 {
        64
    } else if level == 3 {
        4096
    } else if level == 2 {
        262144
    } else {
        16777216
    }
}

/// Computes every summary bit anew from the word below it, level by level
/// from the leaves' parents up to the root. The leaf words stay as they
/// are.
fn rebuild_summaries(tree: &mut BitmapTree)
    requires
        old(tree)@.len() == ARENA_WORDS,
    ensures
        final(tree).wf(),
        forall|node: int|
            valid_node(1, node) ==> #[trigger] node_word(final(tree)@, 1, node) == node_word(
                old(tree)@,
                1,
                node,
            ),
{
    let ghost before = tree@;
    let mut level: u8 = 2;
    while level <= 5
        invariant
            2 <= level <= 6,
            tree@.len() == ARENA_WORDS,
            forall|node: int|
                valid_node(1, node) ==> #[trigger] node_word(tree@, 1, node) == node_word(
                    before,
                    1,
                    node,
                ),
            forall|l: int, n: int, b: int|
                is_link(l, n, b) && l < level ==> #[trigger] summary_holds(tree@, l, n, b),
        decreases 6 - level,
    {
        let count: u64 = words_at_level(level);
        let mut node: u64 = 0;
        while node < count
            invariant
                2 <= level <= 5,
                node <= count,
                count == node_count(level as int),
                tree@.len() == ARENA_WORDS,
                forall|node: int|
                    valid_node(1, node) ==> #[trigger] node_word(tree@, 1, node) == node_word(
                        before,
                        1,
                        node,
                    ),
                forall|l: int, n: int, b: int|
                    is_link(l, n, b) && (l < level || (l == level && n < node))
                        ==> #[trigger] summary_holds(tree@, l, n, b),
            decreases count - node,
        {
            let ghost earlier = tree@;
            let mut word: u64 = 0;
            let mut bit: u8 = 0;
            proof {
                assert forall|b: u64| b < 64 implies !bit_is_set(word, b) by {
                    lemma_zero_word(b);
                }
            }
            while bit < 64
                invariant
                    2 <= level <= 5,
                    bit <= 64,
                    node < count,
                    count == node_count(level as int),
                    tree@ == earlier,
                    tree@.len() == ARENA_WORDS,
                    forall|b: u64|
                        b < 64 ==> bit_is_set(word, b) == (b < bit && node_word(
                            earlier,
                            level - 1,
                            node * 64 + b,
                        ) == u64::MAX),
                decreases 64 - bit,
            {
                let below: u64 = tree.words[word_position(level - 1, node * 64 + bit as u64)];
                let ghost shorter = word;
                if below == u64::MAX {
                    word = word | (1u64 << (bit as u64));
                }
                proof {
                    assert forall|b: u64| b < 64 implies bit_is_set(word, b) == (b < bit + 1
                        && node_word(earlier, level - 1, node * 64 + b) == u64::MAX) by {
                        lemma_set_bit(shorter, bit as u64, b);
                    }
                }
                bit = bit + 1;
            }
            let index: usize = word_position(level, node);
            tree.words[index] = word;
            proof {
                lemma_word_index_injective(level as int, node as int, level as int, node as int);
                assert forall|leaf: int| valid_node(1, leaf) implies #[trigger] node_word(
                    tree@,
                    1,
                    leaf,
                ) == node_word(before, 1, leaf) by {
                    lemma_word_index_injective(1, leaf, level as int, node as int);
                    assert(node_word(earlier, 1, leaf) == node_word(before, 1, leaf));
                }
                assert forall|l: int, n: int, b: int|
                    is_link(l, n, b) && (l < level || (l == level && n < node + 1))
                        implies #[trigger] summary_holds(tree@, l, n, b) by {
                    assert(valid_node(l - 1, n * 64 + b));
                    lemma_word_index_injective(l, n, level as int, node as int);
                    lemma_word_index_injective(l - 1, n * 64 + b, level as int, node as int);
                    if l == level && n == node {
                        assert(bit_is_set(word, b as u64) == (node_word(
                            earlier,
                            level - 1,
                            node * 64 + b,
                        ) == u64::MAX));
                    } else {
                        assert(summary_holds(earlier, l, n, b));
                    }
                }
            }
            node = node + 1;
        }
        level = level + 1;
    }
}

/// Whether `frame` is one of the frames of the region that `entry`
/// describes: the frame that holds the region's first byte and the next
/// `num_pages - 1`.
pub open spec fn entry_covers(entry: MemoryMapEntry, frame: int) -> bool {
    entry.physical_addr / FRAME_SIZE <= frame < entry.physical_addr / FRAME_SIZE + entry.num_pages
}

/// Whether `frame` lies in a region of `entries` that the kernel may not
/// take for itself: one that is neither conventional memory nor code or
/// data of the boot services.
pub open spec fn reserved_by(entries: Seq<MemoryMapEntry>, frame: int) -> bool {
    exists|i: int|
        0 <= i < entries.len() && !entries[i].mem_type.reclaimable() && #[trigger] entry_covers(
            entries[i],
            frame,
        )
}

/// The first frame beyond the last region of `entries`: where memory ends.
/// With no region at all, memory ends where it starts.
pub open spec fn memory_end(entries: Seq<MemoryMapEntry>) -> int {
    if entries.len() == 0 {
        0
    } else {
        entries.last().physical_addr / FRAME_SIZE + entries.last().num_pages
    }
}

/// Seeds the tree from the entries of a memory map. Every frame of a region
/// that is neither conventional memory nor code or data of the boot
/// services is marked used, and so is every frame from the end of the last
/// region up to the 4 TiB ceiling, so that addresses beyond the installed
/// memory are never handed out. Frames that were used before stay used.
pub fn init_from_entries(tree: &mut BitmapTree, entries: &[MemoryMapEntry])
    requires
        old(tree).wf(),
    ensures
        final(tree).wf(),
        forall|frame: int|
            0 <= frame < FRAME_COUNT ==> #[trigger] final(tree).is_used(frame) == (old(
                tree,
            ).is_used(frame) || reserved_by(entries@, frame) || frame >= memory_end(entries@)),
{
    let ghost before = *tree;
    let mut i: usize = 0;
    while i < entries.len()
        invariant
            i <= entries@.len(),
            tree.wf(),
            forall|frame: int|
                0 <= frame < FRAME_COUNT ==> #[trigger] tree.is_used(frame) == (before.is_used(frame)
                    || reserved_by(entries@.take(i as int), frame)),
        decreases entries@.len() - i,
    {
        let data: MemoryMapEntry = entries[i];
        let ghost earlier = *tree;
        let first: u64 = data.physical_addr() / FRAME_SIZE;
        let count: u64 = if data.mem_type().is_reclaimable() || first >= FRAME_COUNT {
            0
        } else if data.num_pages() < FRAME_COUNT - first {
            data.num_pages()
        } else {
            FRAME_COUNT - first
        };
        let mut j: u64 = 0;
        while j < count
            invariant
                tree.wf(),
                j <= count,
                first + count <= FRAME_COUNT || count == 0,
                forall|frame: int|
                    0 <= frame < FRAME_COUNT ==> #[trigger] tree.is_used(frame) == (earlier.is_used(
                        frame,
                    ) || first <= frame < first + j),
            decreases count - j,
        {
            mark_page_used(tree, (first + j) * FRAME_SIZE);
            j = j + 1;
        }
        proof {
            let shorter = entries@.take(i as int);
            let longer = entries@.take(i + 1);
            assert(longer[i as int] == data);
            assert forall|frame: int| 0 <= frame < FRAME_COUNT implies #[trigger] tree.is_used(
                frame,
            ) == (before.is_used(frame) || reserved_by(longer, frame)) by {
                assert(earlier.is_used(frame) == (before.is_used(frame) || reserved_by(
                    shorter,
                    frame,
                )));
                assert(tree.is_used(frame) == (earlier.is_used(frame) || first <= frame < first
                    + count));
                assert((first <= frame < first + count) == (!data.mem_type.reclaimable()
                    && entry_covers(data, frame)));
                if reserved_by(shorter, frame) {
                    let k = choose|k: int|
                        0 <= k < shorter.len() && !shorter[k].mem_type.reclaimable()
                            && #[trigger] entry_covers(shorter[k], frame);
                    assert(longer[k] == shorter[k]);
                    assert(entry_covers(longer[k], frame));
                }
                if reserved_by(longer, frame) {
                    let k = choose|k: int|
                        0 <= k < longer.len() && !longer[k].mem_type.reclaimable()
                            && #[trigger] entry_covers(longer[k], frame);
                    if k < i {
                        assert(shorter[k] == longer[k]);
                        assert(entry_covers(shorter[k], frame));
                    } else {
                        assert(entry_covers(data, frame));
                    }
                }
                if !data.mem_type.reclaimable() && entry_covers(data, frame) {
                    assert(entry_covers(longer[i as int], frame));
                }
            }
        }
        i = i + 1;
    }
    proof {
        assert(entries@.take(entries@.len() as int) =~= entries@);
    }
    let end: u64 = if entries.len() == 0 {
        0
    } else {
        let last: MemoryMapEntry = entries[entries.len() - 1];
        let first: u64 = last.physical_addr() / FRAME_SIZE;
        if last.num_pages() >= FRAME_COUNT || first + last.num_pages() >= FRAME_COUNT {
            FRAME_COUNT
        } else {
            first + last.num_pages()
        }
    };
    assert(end == memory_end(entries@) || (end == FRAME_COUNT && memory_end(entries@)
        >= FRAME_COUNT));
    if end < FRAME_COUNT {
        let ghost seeded = *tree;
        mark_tail_leaves(tree, end);
        let ghost filled = tree@;
        rebuild_summaries(tree);
        proof {
            assert forall|frame: int| 0 <= frame < FRAME_COUNT implies #[trigger] tree.is_used(
                frame,
            ) == (seeded.is_used(frame) || frame >= end) by {
                assert(valid_node(1, frame / 64));
                assert(node_word(tree@, 1, frame / 64) == node_word(filled, 1, frame / 64));
                assert(frame_used(filled, frame) == (frame_used(seeded@, frame) || frame >= end));
            }
            assert forall|frame: int| 0 <= frame < FRAME_COUNT implies #[trigger] tree.is_used(
                frame,
            ) == (before.is_used(frame) || reserved_by(entries@, frame) || frame >= memory_end(
                entries@,
            )) by {
                assert(seeded.is_used(frame) == (before.is_used(frame) || reserved_by(
                    entries@,
                    frame,
                )));
            }
        }
    }
}

/// Seeds the tree from the raw memory map: the first `mem_map_size` bytes
/// of `mem_map`, one 40-byte record per region. See `init_from_entries` for
/// what is marked. Returns whether `mem_map_size` is a whole number of
/// records; when it is not, the bytes behind the last whole record are left
/// out, and the caller may report the anomaly.
pub fn init_from_mem_map(tree: &mut BitmapTree, mem_map: &[u8], mem_map_size: u32) -> (aligned:
    bool)
    requires
        old(tree).wf(),
    ensures
        final(tree).wf(),
        aligned == (mem_map_size as int % ENTRY_SIZE as int == 0),
        ({
            let entries = entries_of_bytes(
                mem_map@,
                record_count(mem_map@.len() as int, mem_map_size as int),
            );
            forall|frame: int|
                0 <= frame < FRAME_COUNT ==> #[trigger] final(tree).is_used(frame) == (old(
                    tree,
                ).is_used(frame) || reserved_by(entries, frame) || frame >= memory_end(entries))
        }),
{
    let aligned: bool = is_map_size_aligned(mem_map_size);
    let entries: Vec<MemoryMapEntry> = read_memory_map(mem_map, mem_map_size);
    init_from_entries(tree, entries.as_slice());
    aligned
}

} // verus!
