//! The framebuffer as the boot stage describes it to the kernel.

use vstd::prelude::*;

verus! {

/// Where the framebuffer is and how its pixels are laid out.
#[derive(Debug, Copy, Clone, PartialEq, Eq, Structural)]
pub struct FramebufferData {
    /// Virtual address of the first pixel.
    pub address: u64,
    /// Visible pixels per row.
    pub width: u32,
    /// Number of rows.
    pub height: u32,
    /// Pixels from the start of one row to the start of the next.
    pub pitch: u32,
    /// Bits that one pixel occupies.
    pub bits_per_pixel: u8,
    /// The bits of a pixel that hold its red part.
    pub red_bitmask: u32,
    /// The bits of a pixel that hold its green part.
    pub green_bitmask: u32,
    /// The bits of a pixel that hold its blue part.
    pub blue_bitmask: u32,
}

impl FramebufferData {
    /// Virtual address of the first pixel.
    pub fn address(&self) -> (value: u64)
        ensures
            value == self.address,
    {
        self.address
    }

    /// Visible pixels per row.
    pub fn width(&self) -> (value: u32)
        ensures
            value == self.width,
    {
        self.width
    }

    /// Number of rows.
    pub fn height(&self) -> (value: u32)
        ensures
            value == self.height,
    {
        self.height
    }

    /// Pixels from the start of one row to the start of the next.
    pub fn pitch(&self) -> (value: u32)
        ensures
            value == self.pitch,
    {
        self.pitch
    }

    /// Bits that one pixel occupies.
    pub fn bits_per_pixel(&self) -> (value: u8)
        ensures
            value == self.bits_per_pixel,
    {
        self.bits_per_pixel
    }

    /// The bits of a pixel that hold its red part.
    pub fn red_bitmask(&self) -> (value: u32)
        ensures
            value == self.red_bitmask,
    {
        self.red_bitmask
    }

    /// The bits of a pixel that hold its green part.
    pub fn green_bitmask(&self) -> (value: u32)
        ensures
            value == self.green_bitmask,
    {
        self.green_bitmask
    }

    /// The bits of a pixel that hold its blue part.
    pub fn blue_bitmask(&self) -> (value: u32)
        ensures
            value == self.blue_bitmask,
    {
        self.blue_bitmask
    }

    /// A descriptor with the given values.
    pub fn new(
        address: u64,
        width: u32,
        height: u32,
        pitch: u32,
        bits_per_pixel: u8,
        red_bitmask: u32,
        green_bitmask: u32,
        blue_bitmask: u32,
    ) -> (data: Self)
        ensures
            data == (FramebufferData {
                address,
                width,
                height,
                pitch,
                bits_per_pixel,
                red_bitmask,
                green_bitmask,
                blue_bitmask,
            }),
    {
        FramebufferData {
            address,
            width,
            height,
            pitch,
            bits_per_pixel,
            red_bitmask,
            green_bitmask,
            blue_bitmask,
        }
    }
}

} // verus!
