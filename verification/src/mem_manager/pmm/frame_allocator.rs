//! Finding free frames: one at a time with a cursor that remembers where
//! it stopped, or a run of frames in a row.

use super::super::bit_ops::{
    bit_is_set, first_free_bit, lemma_lowest_clear_bit, lowest_clear_bit,
};
use super::super::bitmap_layout::{
    bitmap_offset, frame_address, frame_bit, frame_node, lemma_frame_path, lemma_path_node,
    lemma_word_index_injective, path_node, valid_node, valid_path, word_index, ARENA_WORDS,
    FRAME_COUNT, FRAME_SIZE, MEMORY_CEILING,
};
use super::consistency::{
    frame_used, is_link, lemma_full_node, mark_free, mark_used, node_word, summary_holds,
};
use super::{mark_page_free, mark_page_used, BitmapTree};
use vstd::arithmetic::div_mod::lemma_fundamental_div_mod_converse;
use vstd::prelude::*;

verus! {

/// Distance in bytes between two neighbouring children of a level-`level`
/// word; 0 for a level that has no child words.
pub open spec fn child_stride(level: int) -> int {
    if level == 5 {
        0x24_0000
    } else if level == 4 {
        0x9000
    } else if level == 3 {
        0x208
    } else if level == 2 {
        8
    } else {
        0
    }
}

/// Where a search for a free table resumes: a bitmap word of one of the
/// upper levels and the bit to start from.
pub struct FrameDataResumed {
    /// The level of the bitmap word, 5 for the root.
    pub current_level: u8,
    /// The bit of the bitmap word at which the search starts.
    pub idx_in_bitmap: u8,
    /// Byte offset of the bitmap word from the base of the bitmap area.
    pub bitmap_virt_addr: u64,
}

/// The byte offset of the bitmap word of the next table that is not full:
/// the child under the lowest clear bit, at or after `idx_in_bitmap`, of the
/// bitmap word at `bitmap_virt_addr`. Gives 0 when no bit from there on is
/// clear, or when `current_level` is not one of the upper levels 2 to 5.
pub fn get_next_free_table(tree: &BitmapTree, resume: &FrameDataResumed) -> (offset: u64)
    requires
        tree.wf(),
        resume.bitmap_virt_addr % 8 == 0,
        resume.bitmap_virt_addr / 8 < ARENA_WORDS,
    ensures
        ({
            let bit = lowest_clear_bit(
                tree@[(resume.bitmap_virt_addr / 8) as int],
                resume.idx_in_bitmap as int,
            );
            if bit < 64 && 2 <= resume.current_level <= 5 {
                offset == resume.bitmap_virt_addr + 8 + bit * child_stride(
                    resume.current_level as int,
                )
            } else {
                offset == 0
            }
        }),
{
    let word: u64 = tree.words()[(resume.bitmap_virt_addr / 8) as usize];
    let bit: u8 = first_free_bit(word, resume.idx_in_bitmap);
    if bit >= 64 {
        return 0;
    }
    let index: u64 = bit as u64;
    if resume.current_level == 5 {
        resume.bitmap_virt_addr + 8 + index * 0x24_0000
    } else if resume.current_level == 4 {
        resume.bitmap_virt_addr + 8 + index * 0x9000
    } else if resume.current_level == 3 {
        resume.bitmap_virt_addr + 8 + index * 0x208
    } else if resume.current_level == 2 {
        resume.bitmap_virt_addr + 8 + index * 8
    } else {
        0
    }
}

/// The lowest frame below the word `node` of `level`.
pub open spec fn node_first_frame(level: int, node: int) -> int {
    if level <= 1 {
        node * 64
    } else if level == 2 {
        node * 4096
    } else if level == 3 {
        node * 262144
    } else if level == 4 {
        node * 16777216
    } else {
        node * 1073741824
    }
}

/// The bitmap area after the `count` frames from `first` on have been marked
/// used, the lowest first.
pub open spec fn mark_run(words: Seq<u64>, first: int, count: int) -> Seq<u64>
    decreases count,
{
    if count <= 0 {
        words
    } else {
        mark_used(mark_run(words, first, count - 1), first + count - 1)
    }
}

/// The `count` frames from `start` on are all inside the tracked range and
/// all free.
pub open spec fn free_run(words: Seq<u64>, start: int, count: int) -> bool {
    &&& 0 <= start
    &&& start + count <= FRAME_COUNT
    &&& forall|frame: int| start <= frame < start + count ==> !#[trigger] frame_used(words, frame)
}

/// No run of `count` free frames starts below `bound`.
pub open spec fn no_run_below(words: Seq<u64>, count: int, bound: int) -> bool {
    forall|start: int| 0 <= start < bound ==> !#[trigger] free_run(words, start, count)
}

/// A search for `count` free frames in a row has looked at every frame
/// below `position`: the `count - remaining` frames just below `position`
/// are free and `start_addr` is the address of the first of them, and no
/// run of `count` free frames starts before them.
pub open spec fn search_state(
    words: Seq<u64>,
    count: int,
    position: int,
    start_addr: int,
    remaining: int,
) -> bool {
    let found = count - remaining;
    &&& 1 <= remaining <= count
    &&& found <= position <= FRAME_COUNT
    &&& free_run(words, position - found, found)
    &&& no_run_below(words, count, position - found)
    &&& found > 0 ==> start_addr == (position - found) * FRAME_SIZE
}

/// A search that meets `length` used frames in a row, with at least one,
/// starts over behind them.
proof fn lemma_search_skips_used(
    words: Seq<u64>,
    count: int,
    position: int,
    start_addr: int,
    remaining: int,
    length: int,
)
    requires
        search_state(words, count, position, start_addr, remaining),
        length >= 1,
        position + length <= FRAME_COUNT,
        forall|frame: int| position <= frame < position + length ==> frame_used(words, frame),
    ensures
        search_state(words, count, position + length, start_addr, count),
{
    let found = count - remaining;
    assert forall|start: int| 0 <= start < position + length implies !#[trigger] free_run(
        words,
        start,
        count,
    ) by {
        if start < position - found {
        } else if start <= position {
            assert(frame_used(words, position));
        } else {
            assert(frame_used(words, start));
        }
    }
}

/// A frame below a word on a path is below every word higher up the path.
pub proof fn lemma_covers_up(path: Seq<u8>, frame: int, level: int, upper: int)
    requires
        valid_path(level, path),
        0 <= frame < FRAME_COUNT,
        level <= upper <= 5,
        frame_node(level, frame) == path_node(level, path),
    ensures
        frame_node(upper, frame) == path_node(upper, path),
    decreases upper - level,
{
    if level < upper {
        lemma_frame_path(level, frame);
        lemma_path_node(level, path);
        assert(path[level] < 64);
        assert(frame_node(level + 1, frame) == path_node(level + 1, path));
        lemma_covers_up(path, frame, level + 1, upper);
    }
}

/// The number of the lowest frame below the level-1 word that `path` leads
/// to.
fn first_frame_of_leaf(path: &[u8; 5]) -> (frame: u64)
    requires
        valid_path(1, path@),
    ensures
        frame == path_node(1, path@) * 64,
        frame + 64 <= FRAME_COUNT,
{
    proof {
        lemma_path_node(1, path@);
    }
    ((path[4] as u64 * 64 + path[3] as u64) * 64 + path[2] as u64) * 4096 + path[1] as u64 * 64
}

/// A cursor over the bitmap tree that hands out free frames one by one.
/// It remembers the bitmap word it stopped at, so that the next search
/// starts there instead of at the root.
pub struct PageFrameAllocator {
    /// The level of the bitmap word at which the search stands.
    last_level: u8,
    /// The bit of the frame handed out last, within its level-1 word.
    last_index: u8,
    /// Byte offset of the bitmap word at which the search stands.
    last_bitmap_virt_addr: u64,
    /// The bit indices that lead from the root to that word: element 4 is
    /// the bit taken in the root word, element 0 the bit of the frame handed
    /// out last.
    bitmap_indices: [u8; 5],
}

impl PageFrameAllocator {
    /// The level of the bitmap word at which the search stands.
    pub closed spec fn level(&self) -> int {
        self.last_level as int
    }

    /// The bit indices that lead from the root to the cursor's word.
    pub closed spec fn path(&self) -> Seq<u8> {
        self.bitmap_indices@
    }

    /// The cursor stands at a word of the tree.
    pub closed spec fn wf(&self) -> bool {
        &&& valid_path(self.last_level as int, self.bitmap_indices@)
        &&& self.last_bitmap_virt_addr == 8 * word_index(
            self.last_level as int,
            path_node(self.last_level as int, self.bitmap_indices@),
        )
    }

    /// Whether `frame` lies below the word that the cursor's path passes at
    /// `level`.
    pub open spec fn covers(&self, level: int, frame: int) -> bool {
        frame_node(level, frame) == path_node(level, self.path())
    }

    /// How far `frame` is from the cursor: the lowest level, from the
    /// cursor's own upwards, at which the cursor's path passes a word that
    /// has the frame below it.
    pub open spec fn distance(&self, frame: int) -> int {
        if self.level() <= 1 && self.covers(1, frame) {
            1
        } else if self.level() <= 2 && self.covers(2, frame) {
            2
        } else if self.level() <= 3 && self.covers(3, frame) {
            3
        } else if self.level() <= 4 && self.covers(4, frame) {
            4
        } else {
            5
        }
    }

    /// Whether `frame` is the one that the cursor hands out next from the
    /// bitmap area `words`: it is free, no free frame is nearer to the
    /// cursor, and of those that are as near none has a lower address.
    pub open spec fn hands_next(&self, words: Seq<u64>, frame: int) -> bool {
        &&& 0 <= frame < FRAME_COUNT
        &&& !frame_used(words, frame)
        &&& forall|other: int|
            0 <= other < FRAME_COUNT && !frame_used(words, other) ==> self.distance(frame)
                < #[trigger] self.distance(other) || (self.distance(frame) == self.distance(other)
                && frame <= other)
    }

    /// The cursor that stands at the root, as `new` makes it.
    pub closed spec fn fresh() -> Self {
        Self {
            last_level: 5,
            last_index: 0,
            last_bitmap_virt_addr: 0,
            bitmap_indices: [255u8, 255u8, 255u8, 255u8, 255u8],
        }
    }

    /// A cursor that stands at the root.
    pub fn new() -> (allocator: Self)
        ensures
            allocator == Self::fresh(),
            allocator.wf(),
            allocator.level() == 5,
    {
        Self {
            last_level: 5,
            last_index: 0,
            last_bitmap_virt_addr: 0,
            bitmap_indices: [255u8, 255u8, 255u8, 255u8, 255u8],
        }
    }

    /// Marks the frame that holds `phys_addr` as free, as the function
    /// `mark_page_free` of the tree's module does.
    pub fn mark_page_free(tree: &mut BitmapTree, phys_addr: u64)
        requires
            old(tree).wf(),
        ensures
            final(tree).wf(),
            phys_addr >= MEMORY_CEILING ==> final(tree)@ == old(tree)@,
            phys_addr < MEMORY_CEILING ==> final(tree)@ == mark_free(
                old(tree)@,
                (phys_addr / FRAME_SIZE) as int,
            ),
            forall|frame: int|
                0 <= frame < FRAME_COUNT ==> #[trigger] final(tree).is_used(frame) == (old(
                    tree,
                ).is_used(frame) && !(phys_addr < MEMORY_CEILING && frame == phys_addr
                    / FRAME_SIZE)),
    {
        mark_page_free(tree, phys_addr)
    }

    /// Marks as used the frame that the cursor's indices name.
    pub fn mark_page_used(&self, tree: &mut BitmapTree)
        requires
            old(tree).wf(),
            valid_path(1, self.path()),
            self.path()[0] < 64,
        ensures
            final(tree).wf(),
            final(tree)@ == mark_used(old(tree)@, path_node(1, self.path()) * 64 + self.path()[0]),
            forall|frame: int|
                0 <= frame < FRAME_COUNT ==> #[trigger] final(tree).is_used(frame) == (old(
                    tree,
                ).is_used(frame) || frame == path_node(1, self.path()) * 64 + self.path()[0]),
    {
        let addr: u64 = frame_address(&self.bitmap_indices);
        mark_page_used(tree, addr);
    }

    /// Hands out the next free frame: returns its physical address and marks
    /// it used. The search starts at the bitmap word where the last one
    /// ended: it climbs for as long as the word it stands at is all-ones,
    /// then follows the lowest clear bit of each word down to a frame. So
    /// the frame is the lowest free one below the nearest word, on the way
    /// from the cursor to the root, that has a free frame below it; for a
    /// new cursor, the lowest free frame of all. Returns `None`, and changes
    /// nothing, when no frame is free.
    pub fn next(&mut self, tree: &mut BitmapTree) -> (result: Option<u64>)
        requires
            old(self).wf(),
            old(tree).wf(),
        ensures
            final(self).wf(),
            final(tree).wf(),
            match result {
                None => {
                    &&& final(tree)@ == old(tree)@
                    &&& final(self).level() == 5
                    &&& forall|frame: int| 0 <= frame < FRAME_COUNT ==> old(tree).is_used(frame)
                },
                Some(addr) => {
                    let frame = (addr / FRAME_SIZE) as int;
                    &&& addr % FRAME_SIZE == 0
                    &&& addr < MEMORY_CEILING
                    &&& old(self).hands_next(old(tree)@, frame)
                    &&& final(tree)@ == mark_used(old(tree)@, frame)
                    &&& forall|other: int|
                        0 <= other < FRAME_COUNT ==> #[trigger] final(tree).is_used(other) == (old(
                            tree,
                        ).is_used(other) || other == frame)
                    &&& final(self).level() == 1
                    &&& final(self).covers(1, frame)
                },
            },
    {
        let ghost start = *self;
        let ghost before = tree@;
        // climb for as long as the word at hand is full
        loop
            invariant_except_break
                true,
            invariant
                self.wf(),
                tree.wf(),
                tree@ == before,
                start.wf(),
                start.level() <= self.level() <= 5,
                self.path() == start.path(),
                forall|level: int, frame: int|
                    start.level() <= level < self.level() && 0 <= frame < FRAME_COUNT
                        && #[trigger] start.covers(level, frame) ==> frame_used(before, frame),
            ensures
                node_word(before, self.level(), path_node(self.level(), self.path())) != u64::MAX,
            decreases 5 - self.last_level,
        {
            proof {
                lemma_path_node(self.level(), self.path());
                lemma_word_index_injective(
                    self.level(),
                    path_node(self.level(), self.path()),
                    5,
                    0,
                );
            }
            let word: u64 = tree.words()[(self.last_bitmap_virt_addr / 8) as usize];
            if word != u64::MAX {
                break ;
            }
            proof {
                assert forall|frame: int|
                    0 <= frame < FRAME_COUNT && #[trigger] start.covers(
                        self.level(),
                        frame,
                    ) implies frame_used(before, frame) by {
                    lemma_full_node(before, self.level(), frame);
                }
            }
            if self.last_level >= 5 {
                proof {
                    assert forall|frame: int| 0 <= frame < FRAME_COUNT implies frame_used(
                        before,
                        frame,
                    ) by {
                        assert(start.covers(5, frame));
                    }
                }
                return None;
            }
            self.last_level = self.last_level + 1;
            self.last_index = 0;
            self.last_bitmap_virt_addr = bitmap_offset(self.last_level, &self.bitmap_indices);
        }
        // follow the lowest clear bit of each word down to a leaf word
        let ghost top = self.level();
        while self.last_level > 1
            invariant
                self.wf(),
                tree.wf(),
                tree@ == before,
                start.wf(),
                1 <= self.level() <= top <= 5,
                start.level() <= top,
                forall|k: int| top <= k < 5 ==> self.path()[k] == start.path()[k],
                node_word(before, self.level(), path_node(self.level(), self.path())) != u64::MAX,
                forall|level: int, frame: int|
                    start.level() <= level < top && 0 <= frame < FRAME_COUNT
                        && #[trigger] start.covers(level, frame) ==> frame_used(before, frame),
                forall|frame: int|
                    0 <= frame < FRAME_COUNT && frame_node(top, frame) == path_node(
                        top,
                        start.path(),
                    ) && #[trigger] frame_node(self.level(), frame) < path_node(
                        self.level(),
                        self.path(),
                    ) ==> frame_used(before, frame),
            decreases self.last_level,
        {
            let level: u8 = self.last_level;
            let offset: u64 = self.last_bitmap_virt_addr;
            let ghost path = self.path();
            let ghost node = path_node(level as int, path);
            proof {
                lemma_path_node(level as int, path);
                lemma_word_index_injective(level as int, node, 5, 0);
                lemma_lowest_clear_bit(node_word(before, level as int, node), 0);
            }
            let child: u64 = get_next_free_table(
                tree,
                &FrameDataResumed {
                    current_level: level,
                    idx_in_bitmap: 0,
                    bitmap_virt_addr: offset,
                },
            );
            let ghost bit = lowest_clear_bit(node_word(before, level as int, node), 0);
            let index: u64 = if level == 5 {
                (child - offset - 8) / 0x24_0000
            } else if level == 4 {
                (child - offset - 8) / 0x9000
            } else if level == 3 {
                (child - offset - 8) / 0x208
            } else {
                (child - offset - 8) / 8
            };
            proof {
                lemma_fundamental_div_mod_converse(
                    child - offset - 8,
                    child_stride(level as int),
                    bit,
                    0,
                );
                assert(index == bit);
            }
            self.bitmap_indices[(level - 1) as usize] = index as u8;
            self.last_level = level - 1;
            self.last_index = 0;
            self.last_bitmap_virt_addr = child;
            proof {
                let below = self.path();
                assert(below == path.update(level - 1, bit as u8));
                assert(valid_path(level - 1, below));
                lemma_path_node(level - 1, below);
                assert(path_node(level as int, below) == node);
                let child_node = node * 64 + bit;
                assert(path_node(level - 1, below) == child_node);
                assert(is_link(level as int, node, bit));
                assert(summary_holds(before, level as int, node, bit));
                assert forall|frame: int|
                    0 <= frame < FRAME_COUNT && frame_node(top, frame) == path_node(
                        top,
                        start.path(),
                    ) && #[trigger] frame_node(level - 1, frame) < child_node implies frame_used(
                    before,
                    frame,
                ) by {
                    lemma_frame_path(level - 1, frame);
                    let above = frame_node(level as int, frame);
                    let taken = frame_bit(level as int, frame);
                    if above == node {
                        assert(taken < bit);
                        assert(bit_is_set(node_word(before, level as int, node), taken as u64));
                        assert(is_link(level as int, node, taken));
                        assert(summary_holds(before, level as int, node, taken));
                        lemma_full_node(before, level - 1, frame);
                    } else {
                        assert(above < node);
                    }
                }
            }
        }
        proof {
            lemma_path_node(1, self.path());
            lemma_word_index_injective(1, path_node(1, self.path()), 5, 0);
        }
        let word: u64 = tree.words()[(self.last_bitmap_virt_addr / 8) as usize];
        let bit: u8 = first_free_bit(word, 0);
        self.bitmap_indices[0] = bit;
        self.last_index = bit;
        let addr: u64 = frame_address(&self.bitmap_indices);
        let ghost leaf = path_node(1, self.path());
        let ghost frame = leaf * 64 + bit;
        proof {
            assert(frame == addr / FRAME_SIZE);
            lemma_fundamental_div_mod_converse(frame, 64, leaf, bit as int);
            assert(!frame_used(before, frame));
            lemma_covers_up(self.path(), frame, 1, top);
            assert(path_node(top, self.path()) == path_node(top, start.path()));
            assert(start.covers(top, frame));
            assert forall|other: int|
                0 <= other < FRAME_COUNT && !frame_used(before, other) implies start.distance(frame)
                < #[trigger] start.distance(other) || (start.distance(frame) == start.distance(
                other,
            ) && frame <= other) by {
                assert(start.distance(frame) == top);
                assert(start.distance(other) >= top);
                if start.distance(other) == top {
                    assert(start.covers(top, other));
                    if other < frame {
                        if other / 64 == leaf {
                            assert(bit_is_set(word, (other % 64) as u64));
                        } else {
                            assert(frame_node(1, other) < leaf);
                        }
                    }
                }
            }
        }
        self.mark_page_used(tree);
        Some(addr)
    }

    /// Carries a search for `num_frames` free frames in a row through the
    /// range below the level-`level` word that `indices` leads to, from its
    /// lowest frame to its highest. `remaining_frames` counts the frames
    /// still missing from the run at hand and `start_phys_addr` is where
    /// that run starts. A range whose summary bit is set is skipped as a
    /// whole, and the run starts over behind it; a range whose bit is clear
    /// is searched in turn. Returns `true` as soon as the run is complete.
    pub fn go_to_level(
        tree: &BitmapTree,
        level: usize,
        indices: &mut [u8; 5],
        start_phys_addr: &mut u64,
        remaining_frames: &mut u64,
        num_frames: u64,
    ) -> (found: bool)
        requires
            tree.wf(),
            valid_path(level as int, old(indices)@),
            search_state(
                tree@,
                num_frames as int,
                node_first_frame(level as int, path_node(level as int, old(indices)@)),
                *old(start_phys_addr) as int,
                *old(remaining_frames) as int,
            ),
        ensures
            forall|k: int| level <= k < 5 ==> final(indices)[k] == old(indices)[k],
            found ==> {
                &&& *final(remaining_frames) == 0
                &&& *final(start_phys_addr) % FRAME_SIZE == 0
                &&& free_run(
                    tree@,
                    (*final(start_phys_addr) / FRAME_SIZE) as int,
                    num_frames as int,
                )
                &&& no_run_below(
                    tree@,
                    num_frames as int,
                    (*final(start_phys_addr) / FRAME_SIZE) as int,
                )
            },
            !found ==> search_state(
                tree@,
                num_frames as int,
                node_first_frame(level as int, path_node(level as int, old(indices)@) + 1),
                *final(start_phys_addr) as int,
                *final(remaining_frames) as int,
            ),
        decreases level,
    {
        let ghost words = tree@;
        let ghost path = indices@;
        let ghost node = path_node(level as int, path);
        proof {
            lemma_path_node(level as int, path);
            lemma_word_index_injective(level as int, node, 5, 0);
        }
        let offset: u64 = bitmap_offset(level as u8, indices);
        let bitmap: u64 = tree.words()[(offset / 8) as usize];
        let mut i: u8 = 0;
        if level > 1 {
            while i < 64
                invariant
                    tree.wf(),
                    tree@ == words,
                    2 <= level <= 5,
                    i <= 64,
                    valid_path(level as int, path),
                    node == path_node(level as int, path),
                    valid_node(level as int, node),
                    bitmap == node_word(words, level as int, node),
                    indices@.len() == 5,
                    path == old(indices)@,
                    forall|k: int| level <= k < 5 ==> indices[k] == path[k],
                    search_state(
                        words,
                        num_frames as int,
                        node_first_frame(level - 1, node * 64 + i),
                        *start_phys_addr as int,
                        *remaining_frames as int,
                    ),
                decreases 64 - i,
            {
                let ghost child = node * 64 + i;
                if (bitmap & (1u64 << (i as u64))) != 0 {
                    proof {
                        assert(is_link(level as int, node, i as int));
                        assert(summary_holds(words, level as int, node, i as int));
                        assert forall|frame: int|
                            node_first_frame(level - 1, child) <= frame < node_first_frame(
                                level - 1,
                                child + 1,
                            ) implies frame_used(words, frame) by {
                            assert(frame_node(level - 1, frame) == child);
                            lemma_full_node(words, level - 1, frame);
                        }
                        lemma_search_skips_used(
                            words,
                            num_frames as int,
                            node_first_frame(level - 1, child),
                            *start_phys_addr as int,
                            *remaining_frames as int,
                            node_first_frame(level - 1, child + 1) - node_first_frame(
                                level - 1,
                                child,
                            ),
                        );
                    }
                    *remaining_frames = num_frames;
                } else {
                    indices[level - 1] = i;
                    let ghost below = indices@;
                    proof {
                        assert(below[level - 1] == i);
                        assert(forall|k: int| level <= k < 5 ==> below[k] == path[k]);
                        assert(valid_path(level - 1, below));
                        lemma_path_node(level - 1, below);
                        assert(path_node(level as int, below) == node);
                        assert(path_node(level - 1, below) == child);
                    }
                    let found: bool = Self::go_to_level(
                        tree,
                        level - 1,
                        indices,
                        start_phys_addr,
                        remaining_frames,
                        num_frames,
                    );
                    proof {
                        assert(forall|k: int| level <= k < 5 ==> indices[k] == below[k]);
                    }
                    if found {
                        return true;
                    }
                }
                i = i + 1;
            }
            false
        } else {
            let base: u64 = first_frame_of_leaf(indices);
            while i < 64
                invariant
                    tree@ == words,
                    level == 1,
                    i <= 64,
                    node == path_node(1, path),
                    valid_node(1, node),
                    bitmap == node_word(words, 1, node),
                    indices@ == path,
                    base == node * 64,
                    search_state(
                        words,
                        num_frames as int,
                        node * 64 + i,
                        *start_phys_addr as int,
                        *remaining_frames as int,
                    ),
                decreases 64 - i,
            {
                let ghost frame = node * 64 + i;
                proof {
                    lemma_fundamental_div_mod_converse(frame, 64, node, i as int);
                    assert(frame_used(words, frame) == bit_is_set(bitmap, i as u64));
                }
                if (bitmap & (1u64 << (i as u64))) != 0 {
                    proof {
                        lemma_search_skips_used(
                            words,
                            num_frames as int,
                            frame,
                            *start_phys_addr as int,
                            *remaining_frames as int,
                            1,
                        );
                    }
                    *remaining_frames = num_frames;
                } else {
                    if *remaining_frames == num_frames {
                        *start_phys_addr = (base + i as u64) * FRAME_SIZE;
                    }
                    *remaining_frames = *remaining_frames - 1;
                    if *remaining_frames == 0 {
                        proof {
                            assert(*start_phys_addr == (frame + 1 - num_frames) * FRAME_SIZE);
                            assert(free_run(words, frame + 1 - num_frames, num_frames as int));
                        }
                        return true;
                    }
                }
                i = i + 1;
            }
            false
        }
    }

    /// Finds `num_frames` free frames in a row, marks them used and returns
    /// the physical address of the first. The run may cross the boundaries
    /// of bitmap words of any level; among all such runs the one with the
    /// lowest address is taken. Returns `None`, and changes nothing, when
    /// there is no such run or when `num_frames` is 0.
    pub fn get_continuous_frames(&self, tree: &mut BitmapTree, num_frames: u64) -> (result: Option<
        u64,
    >)
        requires
            old(tree).wf(),
        ensures
            final(tree).wf(),
            match result {
                None => {
                    &&& final(tree)@ == old(tree)@
                    &&& num_frames == 0 || no_run_below(
                        old(tree)@,
                        num_frames as int,
                        FRAME_COUNT as int,
                    )
                },
                Some(addr) => {
                    let first = (addr / FRAME_SIZE) as int;
                    &&& num_frames > 0
                    &&& addr % FRAME_SIZE == 0
                    &&& free_run(old(tree)@, first, num_frames as int)
                    &&& no_run_below(old(tree)@, num_frames as int, first)
                    &&& final(tree)@ == mark_run(old(tree)@, first, num_frames as int)
                    &&& forall|frame: int|
                        0 <= frame < FRAME_COUNT ==> #[trigger] final(tree).is_used(frame) == (old(
                            tree,
                        ).is_used(frame) || first <= frame < first + num_frames)
                },
            },
    {
        if num_frames == 0 {
            return None;
        }
        let ghost before = tree@;
        let mut indices: [u8; 5] = [255; 5];
        let mut needed_frames: u64 = num_frames;
        let mut phys_addr: u64 = 0;
        let has_found_chunk: bool = Self::go_to_level(
            tree,
            5,
            &mut indices,
            &mut phys_addr,
            &mut needed_frames,
            num_frames,
        );
        if !has_found_chunk {
            proof {
                assert forall|start: int| 0 <= start < FRAME_COUNT implies !#[trigger] free_run(
                    before,
                    start,
                    num_frames as int,
                ) by {}
            }
            return None;
        }
        let ghost first = (phys_addr / FRAME_SIZE) as int;
        let mut i: u64 = 0;
        while i < num_frames
            invariant
                tree.wf(),
                i <= num_frames,
                tree@ == mark_run(before, first, i as int),
                first == phys_addr / FRAME_SIZE,
                phys_addr % FRAME_SIZE == 0,
                first + num_frames <= FRAME_COUNT,
                forall|frame: int|
                    0 <= frame < FRAME_COUNT ==> #[trigger] tree.is_used(frame) == (frame_used(
                        before,
                        frame,
                    ) || first <= frame < first + i),
            decreases num_frames - i,
        {
            mark_page_used(tree, phys_addr + i * 0x1000);
            i = i + 1;
        }
        Some(phys_addr)
    }
}

} // verus!
