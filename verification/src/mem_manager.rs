//! Physical and virtual memory management.

pub mod bit_ops;
pub mod bitmap_layout;
pub mod pmm;
pub mod vmm;
