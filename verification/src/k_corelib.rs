//! The parts of the kernel that do not depend on what runs on top of it.

pub mod interrupts;
pub mod k_drivers;
pub mod log;
pub mod renderer;
