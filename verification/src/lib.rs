//! The verified core of a small 64-bit operating system: what its boot
//! stage and its kernel decide, with the firmware, the processor and the
//! devices left to the caller.
//!
//! - `mem_manager` holds the physical memory manager, a five-level bitmap
//!   tree that tracks every 4 KiB frame up to 4 TiB, and the virtual memory
//!   manager, which grows the kernel heap on top of it.
//! - `bootloader` holds the page-table builder that lays out the kernel's
//!   fixed high-half windows, and what else the boot stage plans: the
//!   bitmap sections, the raw memory map, the place of the kernel image and
//!   the graphics mode.
//! - `boot_info` holds what the boot stage hands to the kernel: the fixed
//!   virtual windows, the framebuffer descriptor, the raw memory map and the
//!   parameter block.
//! - `arch` holds the calls into the `x86_64` crate.
//! - `k_corelib`, `k_panic_handler` and `kernel` hold the kernel's log, its
//!   screen, its interrupts and the devices on its ports.
//! - `libs` reads ELF headers and PSF fonts; `dog_essentials` writes numbers
//!   out as text.
//!
//! Work that needs the outside world is split: a function here says what
//! is to be done, as a value, and the caller does it and reports back.

pub mod arch;
pub mod boot_info;
pub mod bootloader;
pub mod dog_essentials;
pub mod k_corelib;
pub mod k_panic_handler;
pub mod kernel;
pub mod libs;
pub mod mem_manager;
