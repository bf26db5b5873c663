//! How much room the raw memory map needs.

use vstd::prelude::*;

verus! {

/// Number of entries that are added to the map's length, in case the
/// firmware's map grows before the boot services end.
pub const SAFE_ZONE: usize = 10;

/// Number of pages for a raw memory map of `num_entries` entries: room for
/// the entries at 40 bytes each, and for ten more, rounded down to whole
/// pages, and one page on top.
pub open spec fn map_pages(num_entries: int) -> int {
    ((num_entries + 10) * 40) / 0x1000 + 1
}

/// Counts the pages for a raw memory map of `num_entries` entries.
pub fn pages_for_map(num_entries: usize) -> (pages: usize)
    ensures
        pages == map_pages(num_entries as int),
{
    let bytes: u128 = (num_entries as u128 + 10) * 40;
    (bytes / 0x1000 + 1) as usize
}

/// Says where the raw memory map goes: `addr` is the address of the pages
/// that the firmware set aside for a map of `num_entries` entries, `None`
/// if it set none aside. Returns the address and the number of pages, or
/// `None` when there are no pages, when their address is 0 or when there
/// are more of them than 32 bits can count.
pub fn alloc_memory_for_map(num_entries: usize, addr: Option<u64>) -> (place: Option<(u64, u32)>)
    ensures
        place == match addr {
            Some(addr) => if addr == 0 || map_pages(num_entries as int) > u32::MAX {
                None
            } else {
                Some((addr, map_pages(num_entries as int) as u32))
            },
            None => None,
        },
{
    match addr {
        None => None,
        Some(addr) => {
            if addr == 0 {
                return None;
            }
            let pages: usize = pages_for_map(num_entries);
            if pages > u32::MAX as usize {
                return None;
            }
            Some((addr, pages as u32))
        },
    }
}

} // verus!
