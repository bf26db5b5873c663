//! What the kernel does with what a boot loader hands to it.

pub mod multiboot2_initializer;
pub mod renderer;
