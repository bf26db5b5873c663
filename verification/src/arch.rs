//! The address arithmetic of the target architecture, as the `x86_64` crate
//! does it. These are the calls that the library makes into that crate;
//! what is stated of them here is taken on trust from its source.

use vstd::prelude::*;
use x86_64::structures::paging::{Page, PageTableFlags, PhysFrame, Size4KiB};
use x86_64::{PhysAddr, VirtAddr};

verus! {

/// Bytes in one page, and in one frame.
pub const PAGE_SIZE: u64 = 0x1000;

/// First value that is no physical address: physical addresses have 52
/// bits.
pub const PHYS_ADDR_LIMIT: u64 = 0x10_0000_0000_0000;

/// Whether `addr` is a canonical virtual address: its bits 48 to 63 repeat
/// bit 47.
pub open spec fn is_canonical(addr: u64) -> bool {
    addr < 0x8000_0000_0000 || addr >= 0xffff_8000_0000_0000
}

/// The highest multiple of the page size that is not above `addr`.
pub open spec fn align_down(addr: int) -> int {
    addr - addr % 0x1000
}

/// Start address of the 4 KiB frame that holds the physical address `addr`.
///
/// Calls `PhysFrame::containing_address` of the `x86_64` crate on
/// `PhysAddr::new(addr)`. The contract claims what that function documents:
/// it aligns the address down to the frame size. `PhysAddr::new` panics on
/// an address with a bit above bit 51 set, so such an address is excluded.
#[verifier::external_body]
pub(crate) fn frame_containing(addr: u64) -> (start: u64)
    requires
        addr < PHYS_ADDR_LIMIT,
    ensures
        start == align_down(addr as int),
{
    PhysFrame::<Size4KiB>::containing_address(PhysAddr::new(addr)).start_address().as_u64()
}

/// Start address of the 4 KiB page that holds the virtual address `addr`.
///
/// Calls `Page::containing_address` of the `x86_64` crate on
/// `VirtAddr::new(addr)`. The contract claims what that function documents:
/// it aligns the address down to the page size. `VirtAddr::new` panics on an
/// address that is not canonical, so such an address is excluded.
#[verifier::external_body]
pub(crate) fn page_containing(addr: u64) -> (start: u64)
    requires
        is_canonical(addr),
    ensures
        start == align_down(addr as int),
{
    Page::<Size4KiB>::containing_address(VirtAddr::new(addr)).start_address().as_u64()
}

/// The page-table flags of a present, writable page.
///
/// Takes the union of `PageTableFlags::PRESENT` and
/// `PageTableFlags::WRITABLE` of the `x86_64` crate and returns its bits.
/// The contract claims the values that the crate's source gives the two
/// flags: bit 0 and bit 1.
#[verifier::external_body]
pub(crate) fn present_writable_flags() -> (bits: u64)
    ensures
        bits == 3,
{
    (PageTableFlags::PRESENT | PageTableFlags::WRITABLE).bits()
}

/// Whether the physical address `addr` can be named at all.
pub fn is_physical_address(addr: u64) -> (valid: bool)
    ensures
        valid == (addr < PHYS_ADDR_LIMIT),
{
    addr < PHYS_ADDR_LIMIT
}

/// Whether the virtual address `addr` is canonical.
pub fn is_canonical_address(addr: u64) -> (canonical: bool)
    ensures
        canonical == is_canonical(addr),
{
    addr < 0x8000_0000_0000 || addr >= 0xffff_8000_0000_0000
}

} // verus!
