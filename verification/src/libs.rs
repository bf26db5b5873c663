//! File formats that the boot stage and the kernel read.

pub mod elf;
pub mod psf;
