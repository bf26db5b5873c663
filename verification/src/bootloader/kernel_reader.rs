//! Where the kernel image goes in memory, and what is copied where.

use crate::boot_info::memory_map::{MemoryMapEntry, MemoryType};
use vstd::prelude::*;

verus! {

/// Number of pages that the kernel image needs: 1 MiB.
pub const KERNEL_PAGES_NEEDED: u64 = 0x10_00_00 / 0x1000;

/// Whether the kernel image can go into `region`: it is conventional
/// memory of at least 1 MiB.
pub open spec fn suits_kernel(region: MemoryMapEntry) -> bool {
    region.mem_type == MemoryType::Conventional && region.num_pages >= KERNEL_PAGES_NEEDED
}

/// Finds the place for the kernel image: the start of the first region of
/// `mem_map` that is conventional memory of at least 1 MiB. Returns `None`
/// when there is no such region.
pub fn find_physical_region(mem_map: &[MemoryMapEntry]) -> (addr: Option<u64>)
    ensures
        match addr {
            Some(addr) => exists|i: int|
                0 <= i < mem_map@.len() && #[trigger] suits_kernel(mem_map[i]) && addr
                    == mem_map[i].physical_addr && forall|k: int|
                    0 <= k < i ==> !suits_kernel(#[trigger] mem_map[k]),
            None => forall|k: int| 0 <= k < mem_map@.len() ==> !suits_kernel(#[trigger] mem_map[k]),
        },
{
    let mut i: usize = 0;
    while i < mem_map.len()
        invariant
            i <= mem_map@.len(),
            forall|k: int| 0 <= k < i ==> !suits_kernel(#[trigger] mem_map[k]),
        decreases mem_map@.len() - i,
    {
        let entry: MemoryMapEntry = mem_map[i];
        if entry.mem_type == MemoryType::Conventional && entry.num_pages >= KERNEL_PAGES_NEEDED {
            assert(suits_kernel(mem_map[i as int]));
            return Some(entry.physical_addr);
        }
        i = i + 1;
    }
    None
}

/// What loading one segment of the kernel image takes.
#[derive(Debug, Copy, Clone, PartialEq, Eq, Structural)]
pub struct SegmentLoad {
    /// Physical address that the segment goes to.
    pub dest: u64,
    /// Number of pages to set aside at `dest`.
    pub pages: u64,
    /// Offset of the segment's bytes in the file.
    pub src_offset: u64,
    /// Number of bytes to copy from the file to `dest`.
    pub copy_len: u64,
    /// Number of bytes to clear behind the copied ones.
    pub zero_len: u64,
}

/// What loading a segment takes that is `p_memsz` bytes in memory and has
/// `p_filesz` bytes at the offset `p_offset` of a file of `file_len` bytes:
/// the whole pages of its size in memory and one more, its bytes from the
/// file, and zeros for what its size in memory exceeds them by.
pub open spec fn segment_load(dest: u64, p_memsz: u64, p_offset: u64, p_filesz: u64) -> SegmentLoad {
    SegmentLoad {
        dest,
        pages: (p_memsz / 0x1000 + 1) as u64,
        src_offset: p_offset,
        copy_len: p_filesz,
        zero_len: if p_memsz > p_filesz {
            (p_memsz - p_filesz) as u64
        } else {
            0
        },
    }
}

/// Plans the loading of one segment to `dest`. Returns `None` when the
/// file does not hold the bytes that the segment names, or when the segment
/// would end beyond the address space.
pub fn plan_segment(dest: u64, p_memsz: u64, p_offset: u64, p_filesz: u64, file_len: u64) -> (load:
    Option<SegmentLoad>)
    ensures
        load is Some <==> p_offset + p_filesz <= file_len && dest + p_memsz <= u64::MAX && dest
            + p_filesz <= u64::MAX,
        load is Some ==> load->0 == segment_load(dest, p_memsz, p_offset, p_filesz),
{
    if p_offset > file_len || p_filesz > file_len - p_offset {
        return None;
    }
    if p_memsz > u64::MAX - dest || p_filesz > u64::MAX - dest {
        return None;
    }
    Some(
        SegmentLoad {
            dest,
            pages: p_memsz / 0x1000 + 1,
            src_offset: p_offset,
            copy_len: p_filesz,
            zero_len: if p_memsz > p_filesz {
                p_memsz - p_filesz
            } else {
                0
            },
        },
    )
}

} // verus!
