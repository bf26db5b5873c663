//! What the kernel shows when it cannot go on.

pub mod fb_writer;
