//! The bits of a memory map entry's attribute mask.

use vstd::prelude::*;

verus! {

/// Supports marking as uncacheable.
pub const UNCACHEABLE: u64 = 0x1;

/// Supports write-combining.
pub const WRITE_COMBINE: u64 = 0x2;

/// Supports write-through.
pub const WRITE_THROUGH: u64 = 0x4;

/// Supports write-back.
pub const WRITE_BACK: u64 = 0x8;

/// Supports marking as uncacheable, exported, with the fetch-and-add semaphore mechanism.
pub const UNCACHABLE_EXPORTED: u64 = 0x10;

/// Supports write-protection.
pub const WRITE_PROTECT: u64 = 0x1000;

/// Supports read-protection.
pub const READ_PROTECT: u64 = 0x2000;

/// Supports disabling code execution.
pub const EXECUTE_PROTECT: u64 = 0x4000;

/// Persistent memory.
pub const NON_VOLATILE: u64 = 0x8000;

/// More reliable than other memory.
pub const MORE_RELIABLE: u64 = 0x10000;

/// Can be set as read-only.
pub const READ_ONLY: u64 = 0x20000;

/// Earmarked for specific purposes; to be avoided for core data.
pub const SPECIAL_PURPOSE: u64 = 0x4_0000;

/// Can be protected with the CPU's memory cryptography.
pub const CPU_CRYPTO: u64 = 0x8_0000;

/// Must be mapped by the OS when a runtime service is called.
pub const RUNTIME: u64 = 0x8000_0000_0000_0000;

/// Described with further ISA-specific attributes, as `ISA_MASK` says.
pub const ISA_VALID: u64 = 0x4000_0000_0000_0000;

/// The bits reserved for ISA-specific cacheability attributes.
pub const ISA_MASK: u64 = 0x0FFF_F000_0000_0000;

} // verus!
