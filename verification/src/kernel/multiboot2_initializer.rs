//! The framebuffer as a Multiboot2 boot loader describes it.

use crate::boot_info::framebuffer::FramebufferData;
use crate::k_corelib::renderer::drawable;
use vstd::prelude::*;

verus! {

/// Where one colour lies in a pixel.
#[derive(Debug, Copy, Clone, PartialEq, Eq, Structural)]
pub struct FramebufferField {
    /// The lowest bit of the colour.
    pub position: u8,
    /// Number of bits of the colour.
    pub size: u8,
}

/// What kind of framebuffer the boot loader has set up.
#[derive(Debug, Copy, Clone, PartialEq, Eq, Structural)]
pub enum FramebufferType {
    /// Each pixel is an index into a palette.
    Indexed,
    /// The framebuffer holds characters, not pixels.
    Text,
    /// Each pixel holds red, green and blue where the fields say.
    Rgb { red: FramebufferField, green: FramebufferField, blue: FramebufferField },
}

/// What the boot loader says of the framebuffer.
#[derive(Debug, Copy, Clone, PartialEq, Eq, Structural)]
pub struct FramebufferTag {
    /// Address of the framebuffer.
    pub address: u64,
    /// Length of a row.
    pub pitch: u32,
    /// Visible pixels per row.
    pub width: u32,
    /// Number of rows.
    pub height: u32,
    /// Bits that one pixel occupies.
    pub bpp: u8,
    /// The kind of the framebuffer; `None` if it is of no known kind.
    pub buffer_type: Option<FramebufferType>,
}

/// The bits of a pixel that `field` covers: `size` bits from bit `position`
/// on, as far as they lie within the 32 bits of a pixel.
pub open spec fn field_mask(field: FramebufferField) -> u32 {
    if field.position >= 32 || field.size == 0 {
        0
    } else if field.size >= 32 {
        u32::MAX << (field.position as u32)
    } else {
        (((1u32 << (field.size as u32)) - 1) as u32) << (field.position as u32)
    }
}

/// The bits of a pixel that `field` covers.
pub fn mask_of_field(field: FramebufferField) -> (mask: u32)
    ensures
        mask == field_mask(field),
{
    if field.position >= 32 || field.size == 0 {
        return 0;
    }
    if field.size >= 32 {
        return u32::MAX << (field.position as u32);
    }
    let size: u32 = field.size as u32;
    proof {
        assert(1u32 << size >= 1) by (bit_vector)
            requires
                size < 32,
        ;
    }
    ((1u32 << size) - 1) << (field.position as u32)
}

/// The framebuffer that `tag` describes, if it holds red, green and blue.
pub open spec fn tag_framebuffer(tag: FramebufferTag) -> Option<FramebufferData> {
    match tag.buffer_type {
        Some(FramebufferType::Rgb { red, green, blue }) => Some(
            FramebufferData {
                address: tag.address,
                width: tag.width,
                height: tag.height,
                pitch: tag.pitch,
                bits_per_pixel: tag.bpp,
                red_bitmask: field_mask(red),
                green_bitmask: field_mask(green),
                blue_bitmask: field_mask(blue),
            },
        ),
        _ => None,
    }
}

/// Describes the framebuffer of `tag` to the renderer. Returns `None` for a
/// framebuffer of characters, of palette indices or of no known kind, and
/// for one that cannot be drawn to.
pub fn init_framebuffer(tag: &FramebufferTag) -> (data: Option<FramebufferData>)
    ensures
        data == match tag_framebuffer(*tag) {
            Some(fb) => if drawable(fb) {
                Some(fb)
            } else {
                None
            },
            None => None,
        },
{
    match tag.buffer_type {
        None => None,
        Some(FramebufferType::Indexed) => None,
        Some(FramebufferType::Text) => None,
        Some(FramebufferType::Rgb { red, green, blue }) => {
            let fb = FramebufferData::new(
                tag.address,
                tag.width,
                tag.height,
                tag.pitch,
                tag.bpp,
                mask_of_field(red),
                mask_of_field(green),
                mask_of_field(blue),
            );
            if fb.width == 0 || fb.height == 0 || fb.red_bitmask == 0 || fb.green_bitmask == 0
                || fb.blue_bitmask == 0 {
                return None;
            }
            Some(fb)
        },
    }
}

} // verus!
