//! What the kernel knows about the devices it drives.

pub mod com_debug;
pub mod pic;
