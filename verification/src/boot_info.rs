//! What the boot stage hands to the kernel: the fixed virtual windows that
//! both sides agree on, the framebuffer descriptor, the raw memory map and
//! the parameter block.

use vstd::prelude::*;

pub mod framebuffer;
pub mod memory_map;

verus! {

/// Where the kernel image is mapped.
pub const KERNEL_VIRTUAL_ADDRESS: u64 = 0xffff_ffff_8000_0000;

/// Where the framebuffer is mapped.
pub const GOP_VIRTUAL_ADDRESS: u64 = 0xffff_fffe_f000_0000;

/// Where the raw memory map is mapped.
pub const MEM_MAP_VIRTUAL_ADDRESS: u64 = 0xffff_fffe_e000_0000;

/// Where the bitmap area of the physical memory manager is mapped.
pub const PHYS_BITMAP_MANAGER_ADDRESS: u64 = 0xffff_fffe_0000_0000;

/// Where the frames of the page table itself are mapped.
pub const PAGE_TABLES_ADDRESS: u64 = 0xffff_fffd_0000_0000;

/// Lowest address of the kernel heap.
pub const K_HEAP_START: u64 = 0xffff_8000_0000_0000;

/// First address above the kernel heap.
pub const K_HEAP_END: u64 = 0xffff_fffd_0000_0000;

/// The parameter block that the boot stage builds just before it hands
/// control to the kernel.
#[derive(Debug, Copy, Clone, PartialEq, Eq, Structural)]
pub struct KParams {
    /// The framebuffer that was set up.
    pub fb_data: framebuffer::FramebufferData,
    /// Size of the raw memory map in bytes.
    pub memory_map_size: u32,
    /// Number of entries of the page table.
    pub page_table_num_entries: u64,
    /// Physical address of the firmware's runtime services table.
    pub uefi_rs_phys_addr: u64,
}

} // verus!
