//! The kernel's view of its own address space: where its page table is,
//! where its heap ends, and how the heap grows.
//!
//! Growing the heap needs work that only the caller can do: copying a page
//! table, making a mapping, loading the control register. So a growth is a
//! dialogue. `expand_kernel_heap` starts it and `resume` carries it on; each
//! answers with the next thing for the caller to do, and the caller says
//! with the next call whether that could be done. A growth that cannot be
//! finished is undone: the frames it took go back to the bitmap tree, the
//! pages it had mapped are handed out once more to be unmapped, and neither
//! the heap's end nor the page table's place changes. Only the frames that
//! the mapper drew for page-table levels of its own stay in use.
//!
//! Which frames are in use is for the raw memory map to say: nothing here
//! takes for granted that the frames of the page table are marked used.
//! When the table moves, its old frames are marked free whatever they were,
//! and it is noted which of them were used, so that a growth that fails can
//! put each back as it found it.

use super::bitmap_layout::{FRAME_COUNT, FRAME_SIZE, MEMORY_CEILING};
use super::pmm::{
    frame_used, free_run, init_from_mem_map, mark_page_free, mark_page_used, memory_end,
    no_run_below, reserved_by, BitmapTree, PageFrameAllocator,
};
use crate::boot_info::memory_map::{entries_of_bytes, record_count};
use crate::arch::frame_containing;
use crate::boot_info::{K_HEAP_END, K_HEAP_START};
use crate::bootloader::paging::{map_request, request, MapRequest};
use vstd::prelude::*;

verus! {

/// Where a page table that had to move is now, and how many frames it has.
#[derive(Debug, Copy, Clone, PartialEq, Eq, Structural)]
pub struct NewPageTableInfo {
    /// Physical address of the page table's first frame.
    pub phys_addr: u64,
    /// Number of frames that the page table takes.
    pub num_frames_occupied: u64,
}

/// Number of frames of a page table whose last entry has the index
/// `last_entry_idx`, at 512 entries to the frame.
pub open spec fn table_size(last_entry_idx: u64) -> int {
    last_entry_idx / 512 + 1
}

/// Whether `frame` is one of the `frames` frames from the one that holds
/// `phys_addr` on.
pub open spec fn in_table(phys_addr: u64, frames: int, frame: int) -> bool {
    phys_addr / FRAME_SIZE <= frame < phys_addr / FRAME_SIZE + frames
}

/// Marks free the `frames` frames from the one that holds `phys_addr` on, as
/// far as they lie below the 4 TiB ceiling.
fn free_frames(tree: &mut BitmapTree, phys_addr: u64, frames: u64)
    requires
        old(tree).wf(),
    ensures
        final(tree).wf(),
        forall|frame: int|
            0 <= frame < FRAME_COUNT ==> #[trigger] final(tree).is_used(frame) == (old(
                tree,
            ).is_used(frame) && !in_table(phys_addr, frames as int, frame)),
{
    let ghost before = *tree;
    let first: u64 = phys_addr / FRAME_SIZE;
    let count: u64 = if first >= FRAME_COUNT {
        0
    } else if frames < FRAME_COUNT - first {
        frames
    } else {
        FRAME_COUNT - first
    };
    let mut i: u64 = 0;
    while i < count
        invariant
            tree.wf(),
            i <= count,
            first + count <= FRAME_COUNT || count == 0,
            forall|frame: int|
                0 <= frame < FRAME_COUNT ==> #[trigger] tree.is_used(frame) == (before.is_used(
                    frame,
                ) && !(first <= frame < first + i)),
        decreases count - i,
    {
        mark_page_free(tree, (first + i) * FRAME_SIZE);
        i = i + 1;
    }
}

/// Marks free those of the `frames` frames from the one that holds
/// `phys_addr` on that are not among the `other_frames` frames from the one
/// that holds `other_addr` on, as far as they lie below the 4 TiB ceiling.
fn free_frames_outside(
    tree: &mut BitmapTree,
    phys_addr: u64,
    frames: u64,
    other_addr: u64,
    other_frames: u64,
)
    requires
        old(tree).wf(),
    ensures
        final(tree).wf(),
        forall|frame: int|
            0 <= frame < FRAME_COUNT ==> #[trigger] final(tree).is_used(frame) == (old(
                tree,
            ).is_used(frame) && !(in_table(phys_addr, frames as int, frame) && !in_table(
                other_addr,
                other_frames as int,
                frame,
            ))),
{
    let ghost before = *tree;
    let first: u64 = phys_addr / FRAME_SIZE;
    let other_first: u64 = other_addr / FRAME_SIZE;
    let count: u64 = if first >= FRAME_COUNT {
        0
    } else if frames < FRAME_COUNT - first {
        frames
    } else {
        FRAME_COUNT - first
    };
    let mut i: u64 = 0;
    while i < count
        invariant
            tree.wf(),
            i <= count,
            first + count <= FRAME_COUNT || count == 0,
            first == phys_addr / FRAME_SIZE,
            other_first == other_addr / FRAME_SIZE,
            forall|frame: int|
                0 <= frame < FRAME_COUNT ==> #[trigger] tree.is_used(frame) == (before.is_used(
                    frame,
                ) && !(first <= frame < first + i && !in_table(
                    other_addr,
                    other_frames as int,
                    frame,
                ))),
        decreases count - i,
    {
        let frame: u64 = first + i;
        if !(other_first <= frame && frame - other_first < other_frames) {
            mark_page_free(tree, frame * FRAME_SIZE);
        }
        i = i + 1;
    }
}

/// How many of the `frames` frames from the one that holds `phys_addr` on
/// lie below the 4 TiB ceiling.
pub open spec fn frames_below_ceiling(phys_addr: u64, frames: int) -> int {
    let first = (phys_addr / FRAME_SIZE) as int;
    if first >= FRAME_COUNT || frames < 0 {
        0
    } else if frames < FRAME_COUNT - first {
        frames
    } else {
        FRAME_COUNT - first
    }
}

/// For each of the `frames` frames from the one that holds `phys_addr` on,
/// as far as they lie below the 4 TiB ceiling, whether it is used in the
/// bitmap area `words`.
pub open spec fn table_states(words: Seq<u64>, phys_addr: u64, frames: int) -> Seq<bool> {
    Seq::new(
        frames_below_ceiling(phys_addr, frames) as nat,
        |i: int| frame_used(words, phys_addr / FRAME_SIZE + i),
    )
}

/// Whether `states` says of `frame` that it was used: `states` speaks of
/// the frames from the one that holds `phys_addr` on, one after the other.
pub open spec fn was_used(phys_addr: u64, states: Seq<bool>, frame: int) -> bool {
    phys_addr / FRAME_SIZE <= frame < phys_addr / FRAME_SIZE + states.len() && states[frame
        - phys_addr / FRAME_SIZE]
}

/// Reads, for each of the `frames` frames from the one that holds
/// `phys_addr` on, whether it is used, as far as they lie below the 4 TiB
/// ceiling.
fn frame_states(tree: &BitmapTree, phys_addr: u64, frames: u64) -> (states: Vec<bool>)
    requires
        tree.wf(),
    ensures
        states@ == table_states(tree@, phys_addr, frames as int),
{
    let first: u64 = phys_addr / FRAME_SIZE;
    let count: u64 = if first >= FRAME_COUNT {
        0
    } else if frames < FRAME_COUNT - first {
        frames
    } else {
        FRAME_COUNT - first
    };
    let mut states: Vec<bool> = Vec::new();
    let mut i: u64 = 0;
    while i < count
        invariant
            tree.wf(),
            i <= count,
            first + count <= FRAME_COUNT || count == 0,
            states@.len() == i,
            forall|j: int| 0 <= j < i ==> #[trigger] states@[j] == tree.is_used(first + j),
        decreases count - i,
    {
        let used: bool = tree.is_page_used((first + i) * FRAME_SIZE);
        states.push(used);
        i = i + 1;
    }
    proof {
        assert(states@ =~= table_states(tree@, phys_addr, frames as int));
    }
    states
}

/// Marks used those of the frames from the one that holds `phys_addr` on of
/// which `states` says that they were used.
fn restore_frames(tree: &mut BitmapTree, phys_addr: u64, states: &Vec<bool>)
    requires
        old(tree).wf(),
        states@.len() == 0 || phys_addr / FRAME_SIZE + states@.len() <= FRAME_COUNT,
    ensures
        final(tree).wf(),
        forall|frame: int|
            0 <= frame < FRAME_COUNT ==> #[trigger] final(tree).is_used(frame) == (old(
                tree,
            ).is_used(frame) || was_used(phys_addr, states@, frame)),
{
    let ghost before = *tree;
    let first: u64 = phys_addr / FRAME_SIZE;
    let mut i: usize = 0;
    while i < states.len()
        invariant
            tree.wf(),
            i <= states@.len(),
            first == phys_addr / FRAME_SIZE,
            states@.len() == 0 || first + states@.len() <= FRAME_COUNT,
            forall|frame: int|
                0 <= frame < FRAME_COUNT ==> #[trigger] tree.is_used(frame) == (before.is_used(
                    frame,
                ) || (first <= frame < first + i && states@[frame - first])),
        decreases states@.len() - i,
    {
        if states[i] {
            let offset: u64 = i as u64;
            mark_page_used(tree, (first + offset) * FRAME_SIZE);
        }
        i = i + 1;
    }
}

/// Finds a new place for a page table that has to grow: a run of free
/// frames large enough for a table whose last entry is
/// `desired_last_entry_idx`. The run is marked used, and the frames of the
/// table as it is now, at `current_phys_addr` with `current_last_entry_idx`
/// as its last entry, are marked free. It is for the caller to copy the
/// entries over, before anything else is written to the old frames.
/// Returns `None`, and changes nothing, when there is no such run.
pub fn find_new_chunk_for_page_table(
    tree: &mut BitmapTree,
    current_phys_addr: u64,
    current_last_entry_idx: u64,
    desired_last_entry_idx: u64,
) -> (result: Option<NewPageTableInfo>)
    requires
        old(tree).wf(),
    ensures
        final(tree).wf(),
        match result {
            None => {
                &&& final(tree)@ == old(tree)@
                &&& no_run_below(
                    old(tree)@,
                    table_size(desired_last_entry_idx),
                    FRAME_COUNT as int,
                )
            },
            Some(info) => {
                &&& info.num_frames_occupied == table_size(desired_last_entry_idx)
                &&& info.phys_addr % FRAME_SIZE == 0
                &&& free_run(
                    old(tree)@,
                    (info.phys_addr / FRAME_SIZE) as int,
                    table_size(desired_last_entry_idx),
                )
                &&& no_run_below(
                    old(tree)@,
                    table_size(desired_last_entry_idx),
                    (info.phys_addr / FRAME_SIZE) as int,
                )
                &&& forall|frame: int|
                    0 <= frame < FRAME_COUNT ==> #[trigger] final(tree).is_used(frame) == ((old(
                        tree,
                    ).is_used(frame) || in_table(
                        info.phys_addr,
                        table_size(desired_last_entry_idx),
                        frame,
                    )) && !in_table(
                        current_phys_addr,
                        table_size(current_last_entry_idx),
                        frame,
                    ))
            },
        },
{
    let size_needed: u64 = desired_last_entry_idx / 512 + 1;
    let allocator = PageFrameAllocator::new();
    let phys_addr: Option<u64> = allocator.get_continuous_frames(tree, size_needed);
    match phys_addr {
        None => None,
        Some(phys_addr) => {
            let prev_size: u64 = current_last_entry_idx / 512 + 1;
            free_frames(tree, current_phys_addr, prev_size);
            Some(NewPageTableInfo { phys_addr, num_frames_occupied: size_needed })
        },
    }
}

/// The frame allocator that a page-table mapper draws from when it needs a
/// frame for a page-table level of its own.
pub struct PhysFrameAllocator {
    allocator: PageFrameAllocator,
}

impl PhysFrameAllocator {
    /// The cursor over the bitmap tree that this allocator draws with.
    pub closed spec fn cursor(&self) -> PageFrameAllocator {
        self.allocator
    }

    /// The allocator's cursor stands at a word of the tree.
    pub open spec fn wf(&self) -> bool {
        self.cursor().wf()
    }

    /// An allocator whose cursor stands at the root of the tree.
    pub fn new() -> (allocator: Self)
        ensures
            allocator.wf(),
            allocator.cursor() == PageFrameAllocator::fresh(),
    {
        PhysFrameAllocator { allocator: PageFrameAllocator::new() }
    }

    /// Hands out the next free frame as the cursor finds it, and marks it
    /// used. Returns the frame's start address, or `None` when no frame is
    /// free.
    pub fn allocate_frame(&mut self, tree: &mut BitmapTree) -> (result: Option<u64>)
        requires
            old(self).wf(),
            old(tree).wf(),
        ensures
            final(self).wf(),
            final(tree).wf(),
            match result {
                None => {
                    &&& final(tree)@ == old(tree)@
                    &&& forall|frame: int| 0 <= frame < FRAME_COUNT ==> old(tree).is_used(frame)
                },
                Some(addr) => {
                    let frame = (addr / FRAME_SIZE) as int;
                    &&& addr % FRAME_SIZE == 0
                    &&& addr < MEMORY_CEILING
                    &&& old(self).cursor().hands_next(old(tree)@, frame)
                    &&& final(tree)@ == super::pmm::mark_used(old(tree)@, frame)
                    &&& forall|other: int|
                        0 <= other < FRAME_COUNT ==> #[trigger] final(tree).is_used(other) == (old(
                            tree,
                        ).is_used(other) || other == frame)
                },
            },
    {
        let phys_addr: Option<u64> = self.allocator.next(tree);
        match phys_addr {
            None => None,
            Some(phys_addr) => Some(frame_containing(phys_addr)),
        }
    }
}

/// Whether one of the addresses of `frames`, from the one at index `from`
/// on, lies in `frame`.
pub open spec fn holds_from(frames: Seq<u64>, from: int, frame: int) -> bool {
    exists|k: int| from <= k < frames.len() && #[trigger] frames[k] / FRAME_SIZE == frame
}

/// How far a growth of the kernel heap has come.
#[derive(Debug, Copy, Clone, PartialEq, Eq, Structural)]
pub enum GrowthPhase {
    /// No growth is under way.
    Idle,
    /// The page table has a new place; its entries are being copied.
    Copying,
    /// A page of the heap is being mapped.
    Mapping,
    /// Every page is mapped; the control register is being loaded.
    Reloading,
    /// The growth has failed; the pages it had mapped are being unmapped.
    Unmapping,
}

/// The next thing for the caller to do in a growth of the kernel heap.
#[derive(Debug, Copy, Clone, PartialEq, Eq, Structural)]
pub enum HeapAction {
    /// Copy `bytes` bytes of page-table entries from the physical address
    /// `from` to the physical address `to`.
    CopyTable { from: u64, to: u64, bytes: u64 },
    /// Make this mapping in the page table.
    MapPage(MapRequest),
    /// Take the mapping of the page at `page` out of the page table again.
    UnmapPage { page: u64 },
    /// Load the control register with the page table at `phys_addr`.
    LoadPageTable { phys_addr: u64 },
    /// The growth is over; the value says whether the heap has grown.
    Finished(bool),
}

/// No page table has an entry with this index or a higher one.
pub const ENTRY_LIMIT: u64 = 0x1_0000_0000_0000;

/// What a `VirtualMemoryManager` holds, as plain values.
pub struct VmmState {
    /// The words of the bitmap tree.
    pub tree: Seq<u64>,
    /// Physical address of the page table in use.
    pub page_table: u64,
    /// Index of the last entry of the page table.
    pub last_entry_idx: u64,
    /// Number of frames of the page table.
    pub num_pages: u64,
    /// First address above the heap.
    pub heap_end: u64,
    /// How far the growth at hand has come.
    pub phase: GrowthPhase,
    /// Number of pages that the growth at hand is to add.
    pub requested: u64,
    /// Number of pages that the growth at hand has mapped; while it is
    /// being undone, the number of pages that are still to be unmapped.
    pub done: u64,
    /// The frames that the growth at hand has taken for the heap.
    pub frames: Seq<u64>,
    /// The new place of the page table, if the growth at hand moves it.
    pub new_table: Option<NewPageTableInfo>,
    /// The cursor that finds the frames for the heap.
    pub cursor: PageFrameAllocator,
    /// The cursor that finds the frames for the mapper.
    pub mapper_cursor: PageFrameAllocator,
    /// The words of the bitmap tree as the growth at hand found them.
    pub origin: Seq<u64>,
    /// The frames that the mapper has drawn during the growth at hand.
    pub drawn: Set<int>,
    /// Of each frame of the page table in use, whether it was used when the
    /// growth at hand moved the table; empty while no table is on the move.
    pub table_marks: Seq<bool>,
}

impl VmmState {
    /// Whether `frame` belongs to the page table in use.
    pub open spec fn in_old_table(self, frame: int) -> bool {
        in_table(self.page_table, self.num_pages as int, frame)
    }

    /// Whether `frame` belongs to the new place of the page table.
    pub open spec fn in_new_table(self, frame: int) -> bool {
        self.new_table is Some && in_table(
            self.new_table->0.phys_addr,
            self.new_table->0.num_frames_occupied as int,
            frame,
        )
    }

    /// Whether the growth at hand has taken `frame` for the heap.
    pub open spec fn taken(self, frame: int) -> bool {
        holds_from(self.frames, 0, frame)
    }

    /// Whether `frame` was used once the growth at hand had settled where
    /// the page table is to be: the frames that were used when the growth
    /// began and, if the table moves, those of its new place, without those
    /// of its old place, which are given up when the table moves.
    pub open spec fn kept(self, frame: int) -> bool {
        if self.new_table is Some {
            (frame_used(self.origin, frame) || self.in_new_table(frame)) && !self.in_old_table(
                frame,
            )
        } else {
            frame_used(self.origin, frame)
        }
    }

    /// Whether `frame` has to be used while the growth at hand is under way.
    pub open spec fn expected(self, frame: int) -> bool {
        self.kept(frame) || self.taken(frame) || self.drawn.contains(frame)
    }

    /// What holds of the place of the heap and of the page table at any
    /// time.
    pub open spec fn settled(self) -> bool {
        &&& super::pmm::tree_consistent(self.tree)
        &&& K_HEAP_START <= self.heap_end <= K_HEAP_END
        &&& self.heap_end % 0x1000 == 0
        &&& self.last_entry_idx < ENTRY_LIMIT
        &&& self.num_pages == table_size(self.last_entry_idx)
        &&& self.cursor.wf()
        &&& self.mapper_cursor.wf()
    }

    /// What holds while a growth takes frames: the bitmap tree has exactly
    /// the frames in use that are expected, and no frame is in use for two
    /// reasons.
    pub open spec fn growing(self) -> bool {
        &&& self.requested >= 1
        &&& self.done < self.requested
        &&& self.heap_end + self.requested * 0x1000 <= K_HEAP_END
        &&& self.last_entry_idx + self.requested < ENTRY_LIMIT
        &&& match self.new_table {
            Some(info) => {
                &&& info.num_frames_occupied == table_size(
                    (self.last_entry_idx + self.requested) as u64,
                )
                &&& info.phys_addr % FRAME_SIZE == 0
                &&& info.phys_addr / FRAME_SIZE + info.num_frames_occupied <= FRAME_COUNT
                &&& self.table_marks == table_states(
                    self.origin,
                    self.page_table,
                    self.num_pages as int,
                )
            },
            None => {
                &&& table_size((self.last_entry_idx + self.requested) as u64) == self.num_pages
                &&& self.table_marks.len() == 0
            },
        }
        &&& forall|frame: int|
            0 <= frame < FRAME_COUNT ==> #[trigger] frame_used(self.tree, frame) == self.expected(
                frame,
            )
        &&& forall|k: int|
            0 <= k < self.frames.len() ==> {
                &&& (#[trigger] self.frames[k]) % FRAME_SIZE == 0
                &&& self.frames[k] < MEMORY_CEILING
                &&& !self.kept((self.frames[k] / FRAME_SIZE) as int)
                &&& !self.drawn.contains((self.frames[k] / FRAME_SIZE) as int)
                &&& !holds_from(self.frames, k + 1, (self.frames[k] / FRAME_SIZE) as int)
            }
        &&& forall|frame: int| #[trigger]
            self.drawn.contains(frame) ==> 0 <= frame < FRAME_COUNT && !self.kept(frame)
        &&& self.new_table is Some ==> forall|frame: int|
            0 <= frame < FRAME_COUNT && #[trigger] in_table(
                self.new_table->0.phys_addr,
                self.new_table->0.num_frames_occupied as int,
                frame,
            ) ==> !frame_used(self.origin, frame)
    }

    /// What holds between growths: nothing is pending.
    pub open spec fn resting(self) -> bool {
        &&& self.frames.len() == 0
        &&& self.new_table is None
        &&& self.table_marks.len() == 0
        &&& self.cursor == PageFrameAllocator::fresh()
        &&& self.mapper_cursor == PageFrameAllocator::fresh()
    }

    /// The state is one that the manager can be in.
    pub open spec fn valid(self) -> bool {
        &&& self.settled()
        &&& match self.phase {
            GrowthPhase::Idle => self.resting(),
            GrowthPhase::Copying => self.growing() && self.new_table is Some && self.done == 0
                && self.frames.len() == 0,
            GrowthPhase::Mapping => self.growing() && self.frames.len() == self.done + 1,
            GrowthPhase::Reloading => self.resting(),
            GrowthPhase::Unmapping => self.resting() && self.heap_end + self.done * 0x1000
                <= K_HEAP_END,
        }
    }

    /// The place of the heap and of the page table is the same as in
    /// `other`.
    pub open spec fn same_place(self, other: VmmState) -> bool {
        &&& self.page_table == other.page_table
        &&& self.last_entry_idx == other.last_entry_idx
        &&& self.num_pages == other.num_pages
        &&& self.heap_end == other.heap_end
    }

    /// The growth at hand is the same as in `other`, but for how far it has
    /// come.
    pub open spec fn same_growth(self, other: VmmState) -> bool {
        &&& self.requested == other.requested
        &&& self.new_table == other.new_table
        &&& self.origin == other.origin
        &&& self.drawn == other.drawn
        &&& self.table_marks == other.table_marks
        &&& self.mapper_cursor == other.mapper_cursor
    }
}

/// The growth takes its next frame: `pre`, with `done` pages mapped, goes
/// to `post` and the caller is asked to map the next page of the heap to
/// the frame that the cursor hands out.
pub open spec fn takes_frame(pre: VmmState, done: int, post: VmmState, action: HeapAction) -> bool {
    &&& action is MapPage
    &&& action->MapPage_0 == request(
        pre.heap_end + done * 0x1000,
        action->MapPage_0.frame as int,
    )
    &&& pre.cursor.hands_next(pre.tree, (action->MapPage_0.frame / FRAME_SIZE) as int)
    &&& post.tree == super::pmm::mark_used(
        pre.tree,
        (action->MapPage_0.frame / FRAME_SIZE) as int,
    )
    &&& post.frames == pre.frames.push(action->MapPage_0.frame)
    &&& post.phase == GrowthPhase::Mapping
    &&& post.done == done
    &&& post.same_place(pre)
    &&& post.same_growth(pre)
}

/// The state in which a growth by `requested` pages begins: nothing is
/// taken or drawn yet.
pub open spec fn begins(pre: VmmState, requested: u64) -> VmmState {
    VmmState { requested, done: 0, origin: pre.tree, drawn: Set::empty(), ..pre }
}

/// Whether a growth by `requested` pages can be tried at all: the heap has
/// room for the pages and the page table for their entries.
pub open spec fn has_room(pre: VmmState, requested: u64) -> bool {
    &&& pre.heap_end + requested * 0x1000 <= K_HEAP_END
    &&& pre.last_entry_idx + requested < ENTRY_LIMIT
}

/// The growth moves the page table: a run of free frames for the larger
/// table is marked used, the lowest there is, and the frames of the table
/// in use are marked free, after it has been noted which of them were used;
/// the caller is asked to copy the entries over.
pub open spec fn relocates(pre: VmmState, post: VmmState, action: HeapAction) -> bool {
    let size = table_size((pre.last_entry_idx + pre.requested) as u64);
    &&& post.new_table is Some
    &&& post.new_table->0.num_frames_occupied == size
    &&& post.new_table->0.phys_addr % FRAME_SIZE == 0
    &&& free_run(pre.tree, post.new_table->0.phys_addr as int / FRAME_SIZE as int, size)
    &&& no_run_below(pre.tree, size, post.new_table->0.phys_addr as int / FRAME_SIZE as int)
    &&& forall|frame: int|
        0 <= frame < FRAME_COUNT ==> #[trigger] frame_used(post.tree, frame) == ((frame_used(
            pre.tree,
            frame,
        ) || post.in_new_table(frame)) && !pre.in_old_table(frame))
    &&& action == (HeapAction::CopyTable {
        from: pre.page_table,
        to: post.new_table->0.phys_addr,
        bytes: ((pre.last_entry_idx + 1) * 8) as u64,
    })
    &&& post.phase == GrowthPhase::Copying
    &&& post.done == 0
    &&& post.frames.len() == 0
    &&& post.same_place(pre)
    &&& post.requested == pre.requested
    &&& post.origin == pre.origin
    &&& post.drawn == pre.drawn
    &&& post.table_marks == table_states(pre.tree, pre.page_table, pre.num_pages as int)
    &&& post.cursor == pre.cursor
    &&& post.mapper_cursor == pre.mapper_cursor
}

/// The growth is undone: `pre`, with `done` pages mapped, goes to `post`,
/// in which the heap and the page table are where they were and the frames
/// in use are those that were in use when the growth began and those that
/// the mapper has drawn since. If pages were mapped into the page table in
/// use, the caller is asked to unmap the last of them; else the growth is
/// over.
pub open spec fn rolls_back(pre: VmmState, done: int, post: VmmState, action: HeapAction) -> bool {
    let unmap = if pre.new_table is Some {
        0
    } else {
        done
    };
    &&& post.same_place(pre)
    &&& post.frames.len() == 0
    &&& post.new_table is None
    &&& post.table_marks.len() == 0
    &&& forall|frame: int|
        0 <= frame < FRAME_COUNT ==> #[trigger] frame_used(post.tree, frame) == (frame_used(
            pre.origin,
            frame,
        ) || pre.drawn.contains(frame))
    &&& if unmap > 0 {
        &&& post.phase == GrowthPhase::Unmapping
        &&& post.done == unmap - 1
        &&& action == (HeapAction::UnmapPage {
            page: (pre.heap_end + (unmap - 1) * 0x1000) as u64,
        })
    } else {
        &&& post.phase == GrowthPhase::Idle
        &&& action == HeapAction::Finished(false)
    }
}

/// Whether a frame is free in the bitmap area `words`.
pub open spec fn has_free_frame(words: Seq<u64>) -> bool {
    exists|frame: int| 0 <= frame < FRAME_COUNT && !frame_used(words, frame)
}

/// The growth either takes its next frame or, when no frame is free, is
/// undone.
pub open spec fn goes_on(pre: VmmState, done: int, post: VmmState, action: HeapAction) -> bool {
    if has_free_frame(pre.tree) {
        takes_frame(pre, done, post, action)
    } else {
        rolls_back(pre, done, post, action)
    }
}

/// The growth is complete: the heap ends `requested` pages higher, the page
/// table has as many entries more and, if it has moved, is at its new
/// place, which the caller is asked to load; the bitmap tree stays as it
/// is.
pub open spec fn commits(pre: VmmState, post: VmmState, action: HeapAction) -> bool {
    &&& post.tree == pre.tree
    &&& post.heap_end == pre.heap_end + pre.requested * 0x1000
    &&& post.last_entry_idx == pre.last_entry_idx + pre.requested
    &&& post.frames.len() == 0
    &&& post.new_table is None
    &&& post.table_marks.len() == 0
    &&& match pre.new_table {
        Some(info) => {
            &&& post.page_table == info.phys_addr
            &&& post.num_pages == info.num_frames_occupied
            &&& post.phase == GrowthPhase::Reloading
            &&& action == (HeapAction::LoadPageTable { phys_addr: info.phys_addr })
        },
        None => {
            &&& post.page_table == pre.page_table
            &&& post.num_pages == pre.num_pages
            &&& post.phase == GrowthPhase::Idle
            &&& action == HeapAction::Finished(true)
        },
    }
}

/// The memory state of the kernel: the bitmap tree of the physical frames,
/// the place of the page table, the end of the heap and, while the heap
/// grows, how far the growth has come.
pub struct VirtualMemoryManager {
    tree: BitmapTree,
    page_table: u64,
    last_entry_idx: u64,
    num_pages: u64,
    heap_end: u64,
    phase: GrowthPhase,
    requested: u64,
    done: u64,
    frames: Vec<u64>,
    new_table: Option<NewPageTableInfo>,
    allocator: PageFrameAllocator,
    frame_allocator: PhysFrameAllocator,
    origin: Ghost<Seq<u64>>,
    drawn: Ghost<Set<int>>,
    table_marks: Vec<bool>,
}

impl View for VirtualMemoryManager {
    type V = VmmState;

    closed spec fn view(&self) -> VmmState {
        VmmState {
            tree: self.tree@,
            page_table: self.page_table,
            last_entry_idx: self.last_entry_idx,
            num_pages: self.num_pages,
            heap_end: self.heap_end,
            phase: self.phase,
            requested: self.requested,
            done: self.done,
            frames: self.frames@,
            new_table: self.new_table,
            cursor: self.allocator,
            mapper_cursor: self.frame_allocator.cursor(),
            origin: self.origin@,
            drawn: self.drawn@,
            table_marks: self.table_marks@,
        }
    }
}

impl VirtualMemoryManager {
    /// The manager is in a state that it can be in.
    pub open spec fn wf(&self) -> bool {
        self@.valid()
    }

    /// Physical address of the page table in use.
    pub fn page_table(&self) -> (value: u64)
        ensures
            value == self@.page_table,
    {
        self.page_table
    }

    /// Index of the last entry of the page table.
    pub fn last_entry_idx(&self) -> (value: u64)
        ensures
            value == self@.last_entry_idx,
    {
        self.last_entry_idx
    }

    /// Number of frames of the page table.
    pub fn num_pages(&self) -> (value: u64)
        ensures
            value == self@.num_pages,
    {
        self.num_pages
    }

    /// First address above the heap.
    pub fn heap_end(&self) -> (value: u64)
        ensures
            value == self@.heap_end,
    {
        self.heap_end
    }

    /// How far the growth at hand has come.
    pub fn phase(&self) -> (value: GrowthPhase)
        ensures
            value == self@.phase,
    {
        self.phase
    }

    /// The bitmap tree of the physical frames.
    pub fn tree(&self) -> (tree: &BitmapTree)
        ensures
            tree@ == self@.tree,
    {
        &self.tree
    }

    /// Takes the next frame for the heap and asks for the mapping of the
    /// next page, or undoes the growth when no frame is free.
    fn map_next(&mut self) -> (action: HeapAction)
        requires
            old(self)@.settled(),
            old(self)@.growing(),
            old(self)@.frames.len() == old(self)@.done,
        ensures
            final(self)@.valid(),
            goes_on(old(self)@, old(self)@.done as int, final(self)@, action),
    {
        let ghost pre = self@;
        let ghost found = self.tree;
        let result: Option<u64> = self.allocator.next(&mut self.tree);
        match result {
            None => {
                proof {
                    assert(self@ == (VmmState { cursor: self@.cursor, ..pre }));
                    assert forall|frame: int| 0 <= frame < FRAME_COUNT implies frame_used(
                        pre.tree,
                        frame,
                    ) by {
                        assert(found.is_used(frame));
                    }
                    assert(self@.growing()) by {
                        assert forall|frame: int| 0 <= frame < FRAME_COUNT implies #[trigger]
                            frame_used(self@.tree, frame) == self@.expected(frame) by {
                            assert(frame_used(pre.tree, frame) == pre.expected(frame));
                        }
                    }
                }
                self.roll_back()
            },
            Some(frame) => {
                let ghost number = (frame / FRAME_SIZE) as int;
                self.frames.push(frame);
                self.phase = GrowthPhase::Mapping;
                let virt: u64 = self.heap_end + self.done * 0x1000;
                let req: MapRequest = map_request(virt, frame);
                proof {
                    let post = self@;
                    assert(!frame_used(pre.tree, number));
                    assert(!pre.expected(number));
                    assert(post.frames[pre.frames.len() as int] == frame);
                    assert forall|other: int, from: int|
                        0 <= from <= pre.frames.len() implies #[trigger] holds_from(
                        post.frames,
                        from,
                        other,
                    ) == (holds_from(pre.frames, from, other) || other == number) by {
                        if holds_from(pre.frames, from, other) {
                            let k = choose|k: int|
                                from <= k < pre.frames.len() && #[trigger] pre.frames[k]
                                    / FRAME_SIZE == other;
                            assert(post.frames[k] == pre.frames[k]);
                        }
                        if holds_from(post.frames, from, other) {
                            let k = choose|k: int|
                                from <= k < post.frames.len() && #[trigger] post.frames[k]
                                    / FRAME_SIZE == other;
                            if k < pre.frames.len() {
                                assert(post.frames[k] == pre.frames[k]);
                            }
                        }
                    }
                    assert(!holds_from(post.frames, post.frames.len() as int, number));
                    assert forall|other: int|
                        0 <= other < FRAME_COUNT implies #[trigger] frame_used(post.tree, other)
                        == post.expected(other) by {
                        assert(frame_used(pre.tree, other) == pre.expected(other));
                        assert(self.tree.is_used(other) == (frame_used(pre.tree, other) || other
                            == number));
                    }
                    assert forall|k: int| 0 <= k < post.frames.len() implies {
                        &&& (#[trigger] post.frames[k]) % FRAME_SIZE == 0
                        &&& post.frames[k] < MEMORY_CEILING
                        &&& !post.kept((post.frames[k] / FRAME_SIZE) as int)
                        &&& !post.drawn.contains((post.frames[k] / FRAME_SIZE) as int)
                        &&& !holds_from(post.frames, k + 1, (post.frames[k] / FRAME_SIZE) as int)
                    } by {
                        if k < pre.frames.len() {
                            assert(post.frames[k] == pre.frames[k]);
                            let held = (pre.frames[k] / FRAME_SIZE) as int;
                            assert(pre.taken(held));
                            assert(pre.expected(held));
                            assert(frame_used(pre.tree, held));
                        }
                    }
                    assert(has_free_frame(pre.tree)) by {
                        assert(0 <= number < FRAME_COUNT && !frame_used(pre.tree, number));
                    }
                }
                HeapAction::MapPage(req)
            },
        }
    }

    /// Undoes the growth at hand: gives back the frames that it took and,
    /// if the page table was to move, its new place, marks the frames of
    /// its old place as they were, and asks for the pages that it mapped to
    /// be unmapped. A frame of the new place that the old place had too was
    /// given up when the table moved and is left as it is: it is free, or
    /// it has been handed out since.
    fn roll_back(&mut self) -> (action: HeapAction)
        requires
            old(self)@.settled(),
            old(self)@.growing(),
        ensures
            final(self)@.valid(),
            rolls_back(old(self)@, old(self)@.done as int, final(self)@, action),
    {
        let ghost pre = self@;
        let mut k: usize = 0;
        while k < self.frames.len()
            invariant
                k <= self.frames@.len(),
                self.tree.wf(),
                pre.settled(),
                pre.growing(),
                pre == old(self)@,
                self@ == (VmmState { tree: self.tree@, ..pre }),
                forall|frame: int|
                    0 <= frame < FRAME_COUNT ==> #[trigger] self.tree.is_used(frame) == (pre.kept(
                        frame,
                    ) || pre.drawn.contains(frame) || holds_from(pre.frames, k as int, frame)),
            decreases self.frames@.len() - k,
        {
            let ghost earlier = self.tree;
            let addr: u64 = self.frames[k];
            mark_page_free(&mut self.tree, addr);
            proof {
                let number = (addr / FRAME_SIZE) as int;
                assert(pre.frames[k as int] == addr);
                assert(!holds_from(pre.frames, k + 1, number));
                assert forall|frame: int| 0 <= frame < FRAME_COUNT implies #[trigger]
                    self.tree.is_used(frame) == (pre.kept(frame) || pre.drawn.contains(frame)
                    || holds_from(pre.frames, k + 1, frame)) by {
                    assert(self.tree.is_used(frame) == (earlier.is_used(frame) && frame
                        != number));
                    assert(earlier.is_used(frame) == (pre.kept(frame) || pre.drawn.contains(frame)
                        || holds_from(pre.frames, k as int, frame)));
                    if holds_from(pre.frames, k as int, frame) && frame != number {
                        let j = choose|j: int|
                            k <= j < pre.frames.len() && #[trigger] pre.frames[j] / FRAME_SIZE
                                == frame;
                        assert(k + 1 <= j < pre.frames.len() && pre.frames[j] / FRAME_SIZE
                            == frame);
                    }
                    if holds_from(pre.frames, k + 1, frame) {
                        let j = choose|j: int|
                            k + 1 <= j < pre.frames.len() && #[trigger] pre.frames[j] / FRAME_SIZE
                                == frame;
                        assert(k <= j < pre.frames.len() && pre.frames[j] / FRAME_SIZE == frame);
                    }
                }
            }
            k = k + 1;
        }
        proof {
            assert forall|frame: int| 0 <= frame < FRAME_COUNT implies !holds_from(
                pre.frames,
                k as int,
                frame,
            ) by {}
        }
        self.frames = Vec::new();
        let mut unmap: u64 = self.done;
        match self.new_table {
            Some(info) => {
                let ghost emptied = self.tree;
                free_frames_outside(
                    &mut self.tree,
                    info.phys_addr,
                    info.num_frames_occupied,
                    self.page_table,
                    self.num_pages,
                );
                let ghost freed = self.tree;
                restore_frames(&mut self.tree, self.page_table, &self.table_marks);
                proof {
                    assert forall|frame: int| 0 <= frame < FRAME_COUNT implies #[trigger]
                        frame_used(self.tree@, frame) == (frame_used(pre.origin, frame)
                        || pre.drawn.contains(frame)) by {
                        assert(self.tree.is_used(frame) == (freed.is_used(frame) || was_used(
                            pre.page_table,
                            pre.table_marks,
                            frame,
                        )));
                        assert(freed.is_used(frame) == (emptied.is_used(frame) && !(
                        pre.in_new_table(frame) && !pre.in_old_table(frame))));
                        assert(emptied.is_used(frame) == (pre.kept(frame) || pre.drawn.contains(
                            frame,
                        )));
                        assert(was_used(pre.page_table, pre.table_marks, frame) == (
                        pre.in_old_table(frame) && frame_used(pre.origin, frame)));
                        if pre.in_new_table(frame) {
                            assert(in_table(
                                pre.new_table->0.phys_addr,
                                pre.new_table->0.num_frames_occupied as int,
                                frame,
                            ));
                        }
                    }
                }
                self.new_table = None;
                self.table_marks = Vec::new();
                unmap = 0;
            },
            None => {
                proof {
                    assert forall|frame: int| 0 <= frame < FRAME_COUNT implies #[trigger]
                        frame_used(self.tree@, frame) == (frame_used(pre.origin, frame)
                        || pre.drawn.contains(frame)) by {
                        assert(self.tree.is_used(frame) == (pre.kept(frame) || pre.drawn.contains(
                            frame,
                        )));
                    }
                }
            },
        }
        self.allocator = PageFrameAllocator::new();
        self.frame_allocator = PhysFrameAllocator::new();
        if unmap > 0 {
            self.phase = GrowthPhase::Unmapping;
            self.done = unmap - 1;
            HeapAction::UnmapPage { page: self.heap_end + (unmap - 1) * 0x1000 }
        } else {
            self.phase = GrowthPhase::Idle;
            HeapAction::Finished(false)
        }
    }

    /// Completes the growth at hand, whose last page has been mapped.
    fn commit(&mut self) -> (action: HeapAction)
        requires
            old(self)@.settled(),
            old(self)@.growing(),
        ensures
            final(self)@.valid(),
            commits(old(self)@, final(self)@, action),
    {
        self.heap_end = self.heap_end + self.requested * 0x1000;
        self.last_entry_idx = self.last_entry_idx + self.requested;
        self.frames = Vec::new();
        self.allocator = PageFrameAllocator::new();
        self.frame_allocator = PhysFrameAllocator::new();
        match self.new_table {
            Some(info) => {
                self.page_table = info.phys_addr;
                self.num_pages = info.num_frames_occupied;
                self.new_table = None;
                self.table_marks = Vec::new();
                self.phase = GrowthPhase::Reloading;
                HeapAction::LoadPageTable { phys_addr: info.phys_addr }
            },
            None => {
                self.phase = GrowthPhase::Idle;
                HeapAction::Finished(true)
            },
        }
    }
}

impl VirtualMemoryManager {
    /// Starts a growth of the kernel heap by `num_pages` pages and says
    /// what the caller has to do first. A growth by no page is done at
    /// once. A growth that the heap or the page table has no room for, or
    /// that is asked for while another is under way, fails at once, and so
    /// does one for which the page table would have to move when there is
    /// no run of free frames for it; nothing changes then. Else the page
    /// table moves first if it has to, and the first frame is taken.
    pub fn expand_kernel_heap(&mut self, num_pages: u32) -> (action: HeapAction)
        requires
            old(self).wf(),
        ensures
            final(self).wf(),
            old(self)@.phase != GrowthPhase::Idle ==> action == HeapAction::Finished(false)
                && final(self)@ == old(self)@,
            old(self)@.phase == GrowthPhase::Idle ==> ({
                let begun = begins(old(self)@, num_pages as u64);
                let size = table_size((old(self)@.last_entry_idx + num_pages) as u64);
                if num_pages == 0 {
                    action == HeapAction::Finished(true) && final(self)@ == old(self)@
                } else if !has_room(old(self)@, num_pages as u64) {
                    action == HeapAction::Finished(false) && final(self)@ == old(self)@
                } else if size > old(self)@.num_pages {
                    if no_run_below(old(self)@.tree, size, FRAME_COUNT as int) {
                        action == HeapAction::Finished(false) && final(self)@ == old(self)@
                    } else {
                        relocates(begun, final(self)@, action)
                    }
                } else {
                    goes_on(begun, 0, final(self)@, action)
                }
            }),
    {
        if self.phase != GrowthPhase::Idle {
            return HeapAction::Finished(false);
        }
        let n: u64 = num_pages as u64;
        if n == 0 {
            return HeapAction::Finished(true);
        }
        if n * 0x1000 > K_HEAP_END - self.heap_end || self.last_entry_idx + n >= ENTRY_LIMIT {
            return HeapAction::Finished(false);
        }
        let ghost pre = self@;
        let ghost begun = begins(pre, n);
        let desired: u64 = self.last_entry_idx + n;
        if desired / 512 + 1 > self.num_pages {
            let ghost found = self.tree;
            let marks: Vec<bool> = frame_states(&self.tree, self.page_table, self.num_pages);
            let new_table: Option<NewPageTableInfo> = find_new_chunk_for_page_table(
                &mut self.tree,
                self.page_table,
                self.last_entry_idx,
                desired,
            );
            match new_table {
                None => {
                    return HeapAction::Finished(false);
                },
                Some(info) => {
                    self.requested = n;
                    self.done = 0;
                    self.origin = Ghost(pre.tree);
                    self.drawn = Ghost(Set::empty());
                    self.new_table = Some(info);
                    self.table_marks = marks;
                    self.phase = GrowthPhase::Copying;
                    proof {
                        let post = self@;
                        let first = (info.phys_addr / FRAME_SIZE) as int;
                        assert(free_run(pre.tree, first, info.num_frames_occupied as int));
                        assert(!no_run_below(pre.tree, table_size(desired), FRAME_COUNT as int));
                        assert forall|frame: int|
                            0 <= frame < FRAME_COUNT && #[trigger] in_table(
                                info.phys_addr,
                                info.num_frames_occupied as int,
                                frame,
                            ) implies !frame_used(post.origin, frame) by {}
                        assert forall|frame: int|
                            0 <= frame < FRAME_COUNT implies #[trigger] frame_used(
                            post.tree,
                            frame,
                        ) == post.expected(frame) by {
                            assert(self.tree.is_used(frame) == ((found.is_used(frame) || in_table(
                                info.phys_addr,
                                table_size(desired),
                                frame,
                            )) && !in_table(
                                pre.page_table,
                                table_size(pre.last_entry_idx),
                                frame,
                            )));
                            assert(!post.taken(frame));
                        }
                    }
                    return HeapAction::CopyTable {
                        from: self.page_table,
                        to: info.phys_addr,
                        bytes: (self.last_entry_idx + 1) * 8,
                    };
                },
            }
        }
        self.requested = n;
        self.done = 0;
        self.origin = Ghost(pre.tree);
        self.drawn = Ghost(Set::empty());
        proof {
            let post = self@;
            assert(post == begun);
            assert forall|frame: int| 0 <= frame < FRAME_COUNT implies #[trigger] frame_used(
                post.tree,
                frame,
            ) == post.expected(frame) by {
                assert(!post.taken(frame));
            }
        }
        self.map_next()
    }

    /// Carries the growth at hand on. `ok` says whether the caller could do
    /// what the last answer asked for. After a copy or a mapping that was
    /// done, the next frame is taken or, behind the last page, the growth is
    /// completed; after one that failed, the growth is undone. With no
    /// growth under way the answer is that nothing has grown.
    pub fn resume(&mut self, ok: bool) -> (action: HeapAction)
        requires
            old(self).wf(),
        ensures
            final(self).wf(),
            match old(self)@.phase {
                GrowthPhase::Idle => action == HeapAction::Finished(false) && final(self)@ == old(
                    self,
                )@,
                GrowthPhase::Copying => if ok {
                    goes_on(old(self)@, 0, final(self)@, action)
                } else {
                    rolls_back(old(self)@, 0, final(self)@, action)
                },
                GrowthPhase::Mapping => if !ok {
                    rolls_back(old(self)@, old(self)@.done as int, final(self)@, action)
                } else if old(self)@.done + 1 == old(self)@.requested {
                    commits(old(self)@, final(self)@, action)
                } else {
                    goes_on(old(self)@, old(self)@.done + 1, final(self)@, action)
                },
                GrowthPhase::Reloading => action == HeapAction::Finished(true) && final(self)@ == (
                VmmState { phase: GrowthPhase::Idle, ..old(self)@ }),
                GrowthPhase::Unmapping => if old(self)@.done > 0 {
                    &&& action == (HeapAction::UnmapPage {
                        page: (old(self)@.heap_end + (old(self)@.done - 1) * 0x1000) as u64,
                    })
                    &&& final(self)@ == (VmmState {
                        done: (old(self)@.done - 1) as u64,
                        ..old(self)@
                    })
                } else {
                    &&& action == HeapAction::Finished(false)
                    &&& final(self)@ == (VmmState { phase: GrowthPhase::Idle, ..old(self)@ })
                },
            },
    {
        let ghost pre = self@;
        match self.phase {
            GrowthPhase::Idle => HeapAction::Finished(false),
            GrowthPhase::Copying => {
                if ok {
                    self.map_next()
                } else {
                    self.roll_back()
                }
            },
            GrowthPhase::Mapping => {
                if !ok {
                    self.roll_back()
                } else if self.done + 1 == self.requested {
                    self.commit()
                } else {
                    self.done = self.done + 1;
                    proof {
                        let mid = self@;
                        assert(mid == (VmmState { done: mid.done, ..pre }));
                        assert forall|frame: int|
                            0 <= frame < FRAME_COUNT implies #[trigger] frame_used(
                            mid.tree,
                            frame,
                        ) == mid.expected(frame) by {
                            assert(frame_used(pre.tree, frame) == pre.expected(frame));
                        }
                    }
                    self.map_next()
                }
            },
            GrowthPhase::Reloading => {
                self.phase = GrowthPhase::Idle;
                HeapAction::Finished(true)
            },
            GrowthPhase::Unmapping => {
                if self.done > 0 {
                    self.done = self.done - 1;
                    HeapAction::UnmapPage { page: self.heap_end + self.done * 0x1000 }
                } else {
                    self.phase = GrowthPhase::Idle;
                    HeapAction::Finished(false)
                }
            },
        }
    }

    /// Hands the mapper a frame for a page-table level of its own: the next
    /// free frame as the mapper's cursor finds it, which is marked used and
    /// stays so whether or not the growth succeeds. Returns `None` when no
    /// frame is free, and when no growth is taking frames.
    pub fn allocate_frame(&mut self) -> (result: Option<u64>)
        requires
            old(self).wf(),
        ensures
            final(self).wf(),
            old(self)@.phase != GrowthPhase::Copying && old(self)@.phase != GrowthPhase::Mapping
                ==> result is None && final(self)@ == old(self)@,
            old(self)@.phase == GrowthPhase::Copying || old(self)@.phase == GrowthPhase::Mapping
                ==> match result {
                None => {
                    &&& final(self)@ == (VmmState {
                        mapper_cursor: final(self)@.mapper_cursor,
                        ..old(self)@
                    })
                    &&& forall|frame: int|
                        0 <= frame < FRAME_COUNT ==> frame_used(old(self)@.tree, frame)
                },
                Some(addr) => {
                    let frame = (addr / FRAME_SIZE) as int;
                    &&& addr % FRAME_SIZE == 0
                    &&& addr < MEMORY_CEILING
                    &&& old(self)@.mapper_cursor.hands_next(old(self)@.tree, frame)
                    &&& final(self)@ == (VmmState {
                        tree: super::pmm::mark_used(old(self)@.tree, frame),
                        drawn: old(self)@.drawn.insert(frame),
                        mapper_cursor: final(self)@.mapper_cursor,
                        ..old(self)@
                    })
                },
            },
    {
        match self.phase {
            GrowthPhase::Copying | GrowthPhase::Mapping => {},
            _ => {
                return None;
            },
        }
        let ghost pre = self@;
        let ghost found = self.tree;
        let result: Option<u64> = self.frame_allocator.allocate_frame(&mut self.tree);
        match result {
            None => {
                proof {
                    let post = self@;
                    assert forall|frame: int| 0 <= frame < FRAME_COUNT implies frame_used(
                        pre.tree,
                        frame,
                    ) by {
                        assert(found.is_used(frame));
                    }
                    assert forall|frame: int|
                        0 <= frame < FRAME_COUNT implies #[trigger] frame_used(post.tree, frame)
                        == post.expected(frame) by {
                        assert(frame_used(pre.tree, frame) == pre.expected(frame));
                    }
                }
                None
            },
            Some(addr) => {
                let ghost number = (addr / FRAME_SIZE) as int;
                self.drawn = Ghost(self.drawn@.insert(number));
                proof {
                    let post = self@;
                    assert(!frame_used(pre.tree, number));
                    assert(!pre.expected(number));
                    assert forall|frame: int|
                        0 <= frame < FRAME_COUNT implies #[trigger] frame_used(post.tree, frame)
                        == post.expected(frame) by {
                        assert(frame_used(pre.tree, frame) == pre.expected(frame));
                        assert(self.tree.is_used(frame) == (found.is_used(frame) || frame
                            == number));
                    }
                    assert forall|k: int| 0 <= k < post.frames.len() implies {
                        &&& (#[trigger] post.frames[k]) % FRAME_SIZE == 0
                        &&& post.frames[k] < MEMORY_CEILING
                        &&& !post.kept((post.frames[k] / FRAME_SIZE) as int)
                        &&& !post.drawn.contains((post.frames[k] / FRAME_SIZE) as int)
                        &&& !holds_from(post.frames, k + 1, (post.frames[k] / FRAME_SIZE) as int)
                    } by {
                        let held = (pre.frames[k] / FRAME_SIZE) as int;
                        assert(pre.taken(held));
                        assert(pre.expected(held));
                        assert(frame_used(pre.tree, held));
                    }
                }
                Some(addr)
            },
        }
    }
}

/// Sets the memory state of the kernel up: the page table is the one at
/// `page_table`, which the control register names, with `num_entries`
/// entries; the heap is empty; and the bitmap tree is seeded from the raw
/// memory map, the first `mem_map_size` bytes of `mem_map`, as
/// `init_from_entries` says, and from nothing else.
pub fn init(page_table: u64, mem_map: &[u8], mem_map_size: u32, num_entries: u64) -> (vmm:
    VirtualMemoryManager)
    requires
        1 <= num_entries <= ENTRY_LIMIT,
    ensures
        vmm.wf(),
        vmm@.phase == GrowthPhase::Idle,
        vmm@.page_table == page_table,
        vmm@.last_entry_idx == num_entries - 1,
        vmm@.num_pages == table_size((num_entries - 1) as u64),
        vmm@.heap_end == K_HEAP_START,
        ({
            let entries = entries_of_bytes(
                mem_map@,
                record_count(mem_map@.len() as int, mem_map_size as int),
            );
            forall|frame: int|
                0 <= frame < FRAME_COUNT ==> #[trigger] frame_used(vmm@.tree, frame) == (
                reserved_by(entries, frame) || frame >= memory_end(entries))
        }),
{
    let mut tree = BitmapTree::new();
    let ghost empty = tree;
    init_from_mem_map(&mut tree, mem_map, mem_map_size);
    let last_entry_idx: u64 = num_entries - 1;
    let num_pages: u64 = last_entry_idx / 512 + 1;
    proof {
        let entries = entries_of_bytes(
            mem_map@,
            record_count(mem_map@.len() as int, mem_map_size as int),
        );
        assert forall|frame: int| 0 <= frame < FRAME_COUNT implies #[trigger] frame_used(
            tree@,
            frame,
        ) == (reserved_by(entries, frame) || frame >= memory_end(entries)) by {
            assert(tree.is_used(frame) == (empty.is_used(frame) || reserved_by(entries, frame)
                || frame >= memory_end(entries)));
            assert(!empty.is_used(frame));
        }
        assert(K_HEAP_START % 0x1000 == 0);
    }
    VirtualMemoryManager {
        tree,
        page_table,
        last_entry_idx,
        num_pages,
        heap_end: K_HEAP_START,
        phase: GrowthPhase::Idle,
        requested: 0,
        done: 0,
        frames: Vec::new(),
        new_table: None,
        allocator: PageFrameAllocator::new(),
        frame_allocator: PhysFrameAllocator::new(),
        origin: Ghost(Seq::empty()),
        table_marks: Vec::new(),
        drawn: Ghost(Set::empty()),
    }
}

} // verus!
