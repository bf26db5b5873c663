//! How much bitmap the physical memory manager needs, and the table that
//! names its sections.
//!
//! The bitmap of the physical memory manager comes in sections of 36 KiB,
//! one for each whole GiB of memory. The boot stage sets the sections
//! aside and lists their addresses in a table of 4096 entries; the first
//! entry that is 0 ends the list.

use crate::boot_info::memory_map::MemoryMapEntry;
use crate::bootloader::paging::MAX_PMM_SECTIONS;
use vstd::prelude::*;

verus! {

/// The most memory that the physical memory manager tracks: 4 TiB.
pub const MAX_RAM_SIZE: u64 = 0x400_0000_0000;

/// The memory that one section covers: 1 GiB.
pub const SECTION_SPAN: u64 = 0x4000_0000;

/// Size of the memory that `mem_map`, sorted by address, describes: the end
/// of its last region, and no more than 4 TiB. A map without regions
/// describes no memory.
pub open spec fn ram_size(mem_map: Seq<MemoryMapEntry>) -> int {
    if mem_map.len() == 0 {
        0
    } else if mem_map.last().physical_addr + 0x1000 * mem_map.last().num_pages
        < MAX_RAM_SIZE {
        mem_map.last().physical_addr + 0x1000 * mem_map.last().num_pages
    } else {
        MAX_RAM_SIZE as int
    }
}

/// Number of sections that the memory of `mem_map` needs: one for each
/// whole GiB.
pub open spec fn sections_needed(mem_map: Seq<MemoryMapEntry>) -> int {
    ram_size(mem_map) / SECTION_SPAN as int
}

/// Counts the sections that the memory of `mem_map` needs.
pub fn needed_sections(mem_map: &[MemoryMapEntry]) -> (sections: u64)
    ensures
        sections == sections_needed(mem_map@),
        sections <= MAX_PMM_SECTIONS,
{
    if mem_map.len() == 0 {
        return 0;
    }
    let last_entry: MemoryMapEntry = mem_map[mem_map.len() - 1];
    let ram_size: u64 = if last_entry.num_pages >= MAX_RAM_SIZE / 0x1000
        || last_entry.physical_addr >= MAX_RAM_SIZE || last_entry.physical_addr + 0x1000
        * last_entry.num_pages >= MAX_RAM_SIZE {
        MAX_RAM_SIZE
    } else {
        last_entry.physical_addr + 0x1000 * last_entry.num_pages
    };
    ram_size / SECTION_SPAN
}

/// The section table for the sections at the addresses `sections`: the
/// addresses of as many sections as are needed, and 0 in every entry behind
/// them.
pub open spec fn section_table(mem_map: Seq<MemoryMapEntry>, sections: Seq<u64>) -> Seq<u64> {
    Seq::new(
        MAX_PMM_SECTIONS as nat,
        |i: int|
            if i < sections_needed(mem_map) {
                sections[i]
            } else {
                0u64
            },
    )
}

/// Lays out the section table of the physical memory manager. `sections`
/// holds the addresses of the sections that were set aside, as many as
/// `needed_sections` asks for or more. Returns the 4096 entries of the
/// table, or `None` when the map has no regions or too few sections were
/// set aside.
pub fn allocate_memory_for_pmm(mem_map: &[MemoryMapEntry], sections: &[u64]) -> (table: Option<
    Vec<u64>,
>)
    ensures
        table is Some <==> mem_map@.len() > 0 && sections@.len() >= sections_needed(mem_map@),
        table is Some ==> table->0@ == section_table(mem_map@, sections@),
{
    if mem_map.len() == 0 {
        return None;
    }
    let needed: u64 = needed_sections(mem_map);
    if (sections.len() as u64) < needed {
        return None;
    }
    let mut table: Vec<u64> = Vec::new();
    let mut i: usize = 0;
    while i < MAX_PMM_SECTIONS
        invariant
            i <= MAX_PMM_SECTIONS,
            needed == sections_needed(mem_map@),
            needed <= sections@.len(),
            table@.len() == i,
            forall|k: int|
                0 <= k < i ==> table@[k] == if k < needed {
                    sections[k]
                } else {
                    0u64
                },
        decreases MAX_PMM_SECTIONS - i,
    {
        if (i as u64) < needed {
            table.push(sections[i]);
        } else {
            table.push(0);
        }
        i = i + 1;
    }
    proof {
        assert(table@ =~= section_table(mem_map@, sections@));
    }
    Some(table)
}

} // verus!
