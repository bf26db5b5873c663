//! The screen of a kernel that has stopped: one colour all over.

use crate::boot_info::framebuffer::FramebufferData;
use crate::k_corelib::renderer::{bgr32_masks, drawable, rgb32_masks, swapped, Color, Renderer};
use vstd::prelude::*;

verus! {

/// The colour that covers the screen, as a `Color` holds it: a dark red.
pub const COVER_COLOR: u32 = 0x80_00_00;

/// The framebuffer that the screen is covered on.
#[derive(Debug, Copy, Clone, PartialEq, Eq, Structural)]
pub struct FbWriter {
    /// What is known of the framebuffer.
    pub fb: FramebufferData,
}

/// `color` as the framebuffer `fb` holds it here: moved up by one byte
/// where a pixel holds red, green and blue with red highest, with red and
/// blue swapped where it holds them the other way round, and as it is for
/// any other layout.
pub open spec fn panic_pixel(fb: FramebufferData, color: u32) -> u32 {
    if rgb32_masks(fb) {
        color << 8
    } else if bgr32_masks(fb) {
        swapped(color)
    } else {
        color
    }
}

/// Takes the framebuffer with the given values for covering. Returns `None`
/// when it cannot be drawn to: it has no width or no height, or a colour
/// has no bits in a pixel.
pub fn setup_fb(
    base_addr: u64,
    width: u32,
    height: u32,
    pitch: u32,
    bpp: u8,
    red_mask: u32,
    green_mask: u32,
    blue_mask: u32,
) -> (writer: Option<FbWriter>)
    ensures
        ({
            let fb = FramebufferData {
                address: base_addr,
                width,
                height,
                pitch,
                bits_per_pixel: bpp,
                red_bitmask: red_mask,
                green_bitmask: green_mask,
                blue_bitmask: blue_mask,
            };
            writer == if drawable(fb) {
                Some(FbWriter { fb })
            } else {
                None
            }
        }),
{
    if width == 0 || height == 0 || red_mask == 0 || green_mask == 0 || blue_mask == 0 {
        return None;
    }
    Some(
        FbWriter {
            fb: FramebufferData::new(
                base_addr,
                width,
                height,
                pitch,
                bpp,
                red_mask,
                green_mask,
                blue_mask,
            ),
        },
    )
}

impl FbWriter {
    /// Converts `color` to what the framebuffer holds for it.
    pub fn convert_color_format(&self, color: u32) -> (pixel: u32)
        ensures
            pixel == panic_pixel(self.fb, color),
    {
        if self.fb.red_bitmask == 0xff_00_00 && self.fb.green_bitmask == 0xff_00
            && self.fb.blue_bitmask == 0xff {
            return color << 8;
        }
        if self.fb.red_bitmask == 0xff && self.fb.green_bitmask == 0xff_00 && self.fb.blue_bitmask
            == 0xff_00_00 {
            return ((color & 0xff_00_00) >> 8) | ((color & 0xff_00) << 8) | ((color & 0xff) << 24);
        }
        color
    }

    /// Covers the picture `fb` with the dark red of a stopped kernel: every
    /// pixel of every row of the framebuffer.
    pub fn cover_screen(&self, fb: &mut Vec<u8>)
        ensures
            final(fb)@ == (Renderer { fb: self.fb, is_rgb32: false }).rows_drawn(
                old(fb)@,
                0,
                self.fb.height as int,
                0,
                self.fb.width as int,
                panic_pixel(self.fb, COVER_COLOR),
            ),
    {
        let color: u32 = self.convert_color_format(COVER_COLOR);
        let renderer = Renderer { fb: self.fb, is_rgb32: false };
        renderer.clear_screen(fb, Color { raw_color: color });
    }
}

} // verus!
