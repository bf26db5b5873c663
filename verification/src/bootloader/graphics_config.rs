//! Which graphics mode the boot stage sets, and how the kernel is told
//! about it.

use crate::boot_info::framebuffer::FramebufferData;
use crate::boot_info::GOP_VIRTUAL_ADDRESS;
use vstd::prelude::*;

verus! {

/// How the colours of a pixel are laid out.
#[derive(Debug, Copy, Clone, PartialEq, Eq, Structural)]
pub enum PixelFormat {
    /// Red, green, blue and a reserved byte, red lowest.
    Rgb,
    /// Blue, green, red and a reserved byte, blue lowest.
    Bgr,
    /// As the bit masks of the mode say.
    Bitmask,
    /// The mode has no framebuffer to draw to.
    BltOnly,
}

/// The bits of a pixel that hold each colour.
#[derive(Debug, Copy, Clone, PartialEq, Eq, Structural)]
pub struct PixelBitmask {
    /// The bits that hold the red part.
    pub red: u32,
    /// The bits that hold the green part.
    pub green: u32,
    /// The bits that hold the blue part.
    pub blue: u32,
    /// The bits that hold nothing.
    pub reserved: u32,
}

/// What the firmware says of a graphics mode.
#[derive(Debug, Copy, Clone, PartialEq, Eq, Structural)]
pub struct ModeInfo {
    /// Visible pixels per row.
    pub width: u32,
    /// Number of rows.
    pub height: u32,
    /// Pixels from the start of one row to the start of the next.
    pub stride: u32,
    /// How the colours of a pixel are laid out.
    pub pixel_format: PixelFormat,
    /// The bit masks of the mode, where its format is `Bitmask`.
    pub pixel_bitmask: Option<PixelBitmask>,
}

/// How far `val` is from zero.
pub fn abs(val: i64) -> (distance: i64)
    requires
        val > i64::MIN,
    ensures
        distance == if val < 0 {
            -val
        } else {
            val as int
        },
{
    if val < 0 {
        -val
    } else {
        val
    }
}

/// How far the mode `mode` is from the preferred size: the distance from
/// zero of what its width and its height fall short by, taken together.
pub open spec fn deviation(pref_width: u32, pref_height: u32, mode: ModeInfo) -> int {
    let sum = (pref_width - mode.width) + (pref_height - mode.height);
    if sum < 0 {
        -sum
    } else {
        sum
    }
}

/// How far the mode `mode` is from the preferred size.
fn mode_deviation(pref_width: u32, pref_height: u32, mode: &ModeInfo) -> (distance: i64)
    ensures
        distance == deviation(pref_width, pref_height, *mode),
{
    abs(
        (pref_width as i64 - mode.width as i64) + (pref_height as i64 - mode.height as i64),
    )
}

/// Whether the mode at `index` is the one to set: it is nearer to the
/// preferred size than the mode that is set now, no mode is nearer than it,
/// and no mode before it is as near.
pub open spec fn is_best_mode(
    pref_width: u32,
    pref_height: u32,
    current: ModeInfo,
    modes: Seq<ModeInfo>,
    index: int,
) -> bool {
    &&& 0 <= index < modes.len()
    &&& deviation(pref_width, pref_height, modes[index]) < deviation(
        pref_width,
        pref_height,
        current,
    )
    &&& forall|k: int|
        0 <= k < modes.len() ==> deviation(pref_width, pref_height, modes[index]) <= deviation(
            pref_width,
            pref_height,
            #[trigger] modes[k],
        )
    &&& forall|k: int|
        0 <= k < index ==> deviation(pref_width, pref_height, modes[index]) < deviation(
            pref_width,
            pref_height,
            #[trigger] modes[k],
        )
}

/// Picks the graphics mode to set: of the modes `modes` that the firmware
/// offers, the one nearest to the preferred size, the first of them if
/// several are as near. Returns its index, or `None` when no mode is
/// nearer to the preferred size than `current`, the mode that is set now.
pub fn set_appropriate_framebuffer(
    pref_width: u32,
    pref_height: u32,
    current: &ModeInfo,
    modes: &[ModeInfo],
) -> (best: Option<usize>)
    ensures
        match best {
            Some(index) => is_best_mode(pref_width, pref_height, *current, modes@, index as int),
            None => forall|k: int|
                0 <= k < modes@.len() ==> deviation(pref_width, pref_height, #[trigger] modes[k])
                    >= deviation(pref_width, pref_height, *current),
        },
{
    let mut best_mode: Option<usize> = None;
    let mut best_deviation: i64 = mode_deviation(pref_width, pref_height, current);
    let mut i: usize = 0;
    while i < modes.len()
        invariant
            i <= modes@.len(),
            forall|k: int|
                0 <= k < i ==> best_deviation <= deviation(
                    pref_width,
                    pref_height,
                    #[trigger] modes[k],
                ),
            match best_mode {
                Some(index) => {
                    &&& index < i
                    &&& best_deviation == deviation(pref_width, pref_height, modes[index as int])
                    &&& best_deviation < deviation(pref_width, pref_height, *current)
                    &&& forall|k: int|
                        0 <= k < index ==> best_deviation < deviation(
                            pref_width,
                            pref_height,
                            #[trigger] modes[k],
                        )
                },
                None => best_deviation == deviation(pref_width, pref_height, *current),
            },
        decreases modes@.len() - i,
    {
        let this_deviation: i64 = mode_deviation(pref_width, pref_height, &modes[i]);
        if this_deviation < best_deviation {
            best_mode = Some(i);
            best_deviation = this_deviation;
        }
        i = i + 1;
    }
    best_mode
}

/// The highest bit of `mask` that is set, at or below bit `from`; -1 when
/// none of these bits is set.
pub open spec fn top_bit(mask: u32, from: int) -> int
    decreases from + 1,
{
    if from < 0 {
        -1
    } else if mask & (1u32 << (from as u32)) != 0 {
        from
    } else {
        top_bit(mask, from - 1)
    }
}

/// The number of bits per pixel after `mask` has been looked at: one more
/// than the index of the mask's highest bit if that lies above
/// `bits_per_pixel`, else `bits_per_pixel`.
pub open spec fn widened(bits_per_pixel: u8, mask: u32) -> u8 {
    if top_bit(mask, 31) > bits_per_pixel {
        (top_bit(mask, 31) + 1) as u8
    } else {
        bits_per_pixel
    }
}

/// The number of bits per pixel of a mode with the bit masks `mask`: what
/// the four masks widen 0 to, red first.
pub open spec fn bitmask_depth(mask: PixelBitmask) -> u8 {
    widened(widened(widened(widened(0, mask.red), mask.green), mask.blue), mask.reserved)
}

/// Looks at `mask` and says how many bits per pixel there are then.
fn widen(bits_per_pixel: u8, mask: u32) -> (depth: u8)
    requires
        bits_per_pixel <= 32,
    ensures
        depth == widened(bits_per_pixel, mask),
        depth <= 32,
{
    let mut bit_pos: u8 = 31;
    while bit_pos > bits_per_pixel
        invariant
            bit_pos <= 31,
            top_bit(mask, 31) == top_bit(mask, bit_pos as int),
        decreases bit_pos,
    {
        if mask & (1u32 << (bit_pos as u32)) != 0 {
            return bit_pos + 1;
        }
        bit_pos = bit_pos - 1;
    }
    proof {
        lemma_top_bit(mask, bit_pos as int);
    }
    bits_per_pixel
}

/// The highest set bit at or below `from` lies at or below `from`.
proof fn lemma_top_bit(mask: u32, from: int)
    requires
        -1 <= from <= 31,
    ensures
        -1 <= top_bit(mask, from) <= from,
    decreases from + 1,
{
    if from >= 0 && mask & (1u32 << (from as u32)) == 0 {
        lemma_top_bit(mask, from - 1);
    }
}

/// The masks and the number of bits per pixel of the mode `mode_info`:
/// those of the fixed formats, or the mode's own bit masks. `None` for a
/// mode whose format is `Bitmask` and that has no bit masks; zeros for a
/// mode without a framebuffer.
pub open spec fn mode_masks(mode_info: ModeInfo) -> Option<(u32, u32, u32, u8)> {
    match mode_info.pixel_format {
        PixelFormat::Bgr => Some((0xffu32, 0xff_00u32, 0xff_00_00u32, 32u8)),
        PixelFormat::Rgb => Some((0xff_00_00u32, 0xff_00u32, 0xffu32, 32u8)),
        PixelFormat::Bitmask => match mode_info.pixel_bitmask {
            Some(mask) => Some((mask.red, mask.green, mask.blue, bitmask_depth(mask))),
            None => None,
        },
        PixelFormat::BltOnly => Some((0u32, 0u32, 0u32, 0u8)),
    }
}

/// Describes the framebuffer of the mode `mode_info` to the kernel: at the
/// framebuffer's fixed virtual address, with the size and the stride of the
/// mode and the masks of its pixel format. Returns `None` when the mode has
/// no masks, or when one of the three colours has no bits in a pixel.
pub fn fb_data_from_mode_info(mode_info: ModeInfo) -> (data: Option<FramebufferData>)
    ensures
        data == match mode_masks(mode_info) {
            Some((red, green, blue, depth)) => if red == 0 || green == 0 || blue == 0 {
                None
            } else {
                Some(
                    FramebufferData {
                        address: GOP_VIRTUAL_ADDRESS,
                        width: mode_info.width,
                        height: mode_info.height,
                        pitch: mode_info.stride,
                        bits_per_pixel: depth,
                        red_bitmask: red,
                        green_bitmask: green,
                        blue_bitmask: blue,
                    },
                )
            },
            None => None,
        },
{
    let mut red_mask: u32 = 0;
    let mut green_mask: u32 = 0;
    let mut blue_mask: u32 = 0;
    let mut bits_per_pixel: u8 = 0;
    match mode_info.pixel_format {
        PixelFormat::Bgr => {
            red_mask = 0xff;
            green_mask = 0xff_00;
            blue_mask = 0xff_00_00;
            bits_per_pixel = 32;
        },
        PixelFormat::Rgb => {
            red_mask = 0xff_00_00;
            green_mask = 0xff_00;
            blue_mask = 0xff;
            bits_per_pixel = 32;
        },
        PixelFormat::Bitmask => {
            match mode_info.pixel_bitmask {
                None => {
                    return None;
                },
                Some(mask) => {
                    red_mask = mask.red;
                    green_mask = mask.green;
                    blue_mask = mask.blue;
                    bits_per_pixel = widen(bits_per_pixel, mask.red);
                    bits_per_pixel = widen(bits_per_pixel, mask.green);
                    bits_per_pixel = widen(bits_per_pixel, mask.blue);
                    bits_per_pixel = widen(bits_per_pixel, mask.reserved);
                },
            }
        },
        PixelFormat::BltOnly => {},
    }
    if red_mask == 0 || green_mask == 0 || blue_mask == 0 {
        return None;
    }
    Some(
        FramebufferData::new(
            GOP_VIRTUAL_ADDRESS,
            mode_info.width,
            mode_info.height,
            mode_info.stride,
            bits_per_pixel,
            red_mask,
            green_mask,
            blue_mask,
        ),
    )
}

} // verus!
