//! Bitmap fonts in the PSF2 format.
//!
//! A font starts with a header of eight little-endian 32-bit numbers; the
//! glyphs follow at the offset that the header names.

use vstd::bytes::{spec_u32_from_le_bytes, u32_from_le_bytes};
use vstd::prelude::*;
use vstd::slice::slice_subrange;

verus! {

/// The magic number of a PSF2 font.
pub const PSF2_MAGIC: u32 = 0x864ab572;

/// Size of the header in bytes.
pub const HEADER_SIZE: usize = 32;

/// A PSF2 font: the fields of its header and the address of its first
/// byte.
#[derive(Debug, Copy, Clone, PartialEq, Eq, Structural)]
pub struct AsciiPsfFont {
    /// The magic number that opens the font.
    pub magic: u32,
    /// Version of the format; always 0.
    pub version: u32,
    /// Offset of the glyphs in the font.
    pub header_size: u32,
    /// 1 if a Unicode table follows the glyphs.
    pub flags: u32,
    /// Number of glyphs.
    pub num_glyphs: u32,
    /// Size of one glyph in bytes.
    pub bytes_per_glyph: u32,
    /// Height of a glyph in pixels.
    pub height: u32,
    /// Width of a glyph in pixels.
    pub width: u32,
    /// Address of the first byte of the font.
    pub base_addr: u64,
}

/// The `index`-th number of the header `bytes`.
pub open spec fn header_word(bytes: Seq<u8>, index: int) -> u32 {
    spec_u32_from_le_bytes(bytes.subrange(4 * index, 4 * index + 4))
}

/// The font at `base_addr` whose header is the first 32 bytes of `bytes`.
pub open spec fn font_of_bytes(bytes: Seq<u8>, base_addr: u64) -> AsciiPsfFont {
    AsciiPsfFont {
        magic: header_word(bytes, 0),
        version: header_word(bytes, 1),
        header_size: header_word(bytes, 2),
        flags: header_word(bytes, 3),
        num_glyphs: header_word(bytes, 4),
        bytes_per_glyph: header_word(bytes, 5),
        height: header_word(bytes, 6),
        width: header_word(bytes, 7),
        base_addr,
    }
}

impl AsciiPsfFont {
    /// The magic number that opens the font.
    pub fn magic(&self) -> (value: u32)
        ensures
            value == self.magic,
    {
        self.magic
    }

    /// Version of the format; always 0.
    pub fn version(&self) -> (value: u32)
        ensures
            value == self.version,
    {
        self.version
    }

    /// Offset of the glyphs in the font.
    pub fn header_size(&self) -> (value: u32)
        ensures
            value == self.header_size,
    {
        self.header_size
    }

    /// 1 if a Unicode table follows the glyphs.
    pub fn flags(&self) -> (value: u32)
        ensures
            value == self.flags,
    {
        self.flags
    }

    /// Number of glyphs.
    pub fn num_glyphs(&self) -> (value: u32)
        ensures
            value == self.num_glyphs,
    {
        self.num_glyphs
    }

    /// Size of one glyph in bytes.
    pub fn bytes_per_glyph(&self) -> (value: u32)
        ensures
            value == self.bytes_per_glyph,
    {
        self.bytes_per_glyph
    }

    /// Width of a glyph in pixels.
    pub fn width(&self) -> (value: u32)
        ensures
            value == self.width,
    {
        self.width
    }

    /// Height of a glyph in pixels.
    pub fn height(&self) -> (value: u32)
        ensures
            value == self.height,
    {
        self.height
    }

    /// The font with no glyphs, all of whose fields are 0.
    pub fn default() -> (font: Self)
        ensures
            font == (AsciiPsfFont {
                magic: 0,
                version: 0,
                header_size: 0,
                flags: 0,
                num_glyphs: 0,
                bytes_per_glyph: 0,
                height: 0,
                width: 0,
                base_addr: 0,
            }),
    {
        AsciiPsfFont {
            magic: 0,
            version: 0,
            header_size: 0,
            flags: 0,
            num_glyphs: 0,
            bytes_per_glyph: 0,
            height: 0,
            width: 0,
            base_addr: 0,
        }
    }

    /// Reads the header of the font whose bytes start with `bytes` and lie
    /// at `base_addr`. Returns `None` when `bytes` is shorter than a header,
    /// when the magic number is not that of PSF2 or when the version is not
    /// 0.
    pub fn from_raw(bytes: &[u8], base_addr: u64) -> (font: Option<Self>)
        ensures
            font is Some <==> bytes@.len() >= HEADER_SIZE && header_word(bytes@, 0) == PSF2_MAGIC
                && header_word(bytes@, 1) == 0,
            font is Some ==> font->0 == font_of_bytes(bytes@, base_addr),
    {
        if bytes.len() < HEADER_SIZE {
            return None;
        }
        let magic: u32 = u32_from_le_bytes(slice_subrange(bytes, 0, 4));
        if magic != PSF2_MAGIC {
            return None;
        }
        let version: u32 = u32_from_le_bytes(slice_subrange(bytes, 4, 8));
        if version != 0 {
            return None;
        }
        let header_size: u32 = u32_from_le_bytes(slice_subrange(bytes, 8, 12));
        let flags: u32 = u32_from_le_bytes(slice_subrange(bytes, 12, 16));
        let num_glyphs: u32 = u32_from_le_bytes(slice_subrange(bytes, 16, 20));
        let bytes_per_glyph: u32 = u32_from_le_bytes(slice_subrange(bytes, 20, 24));
        let height: u32 = u32_from_le_bytes(slice_subrange(bytes, 24, 28));
        let width: u32 = u32_from_le_bytes(slice_subrange(bytes, 28, 32));
        Some(
            AsciiPsfFont {
                magic,
                version,
                header_size,
                flags,
                num_glyphs,
                bytes_per_glyph,
                height,
                width,
                base_addr,
            },
        )
    }

    /// The glyph that stands for `code_point`: its own if the font has one,
    /// else the first glyph of the font.
    pub open spec fn glyph_index(&self, code_point: u32) -> u32 {
        if code_point < self.num_glyphs {
            code_point
        } else {
            0
        }
    }

    /// Offset, from the first byte of the font, of the glyph that stands for
    /// `code_point`.
    pub fn glyph_offset(&self, code_point: u32) -> (offset: u64)
        ensures
            offset == self.header_size + self.glyph_index(code_point) * self.bytes_per_glyph,
    {
        let index: u64 = if code_point < self.num_glyphs {
            code_point as u64
        } else {
            0
        };
        proof {
            assert(index * self.bytes_per_glyph <= 0xffff_ffff * 0xffff_ffff) by (nonlinear_arith)
                requires
                    index <= 0xffff_ffff,
                    self.bytes_per_glyph <= 0xffff_ffff,
            ;
        }
        self.header_size as u64 + index * self.bytes_per_glyph as u64
    }

    /// The font, glyphs and all, lies below the end of the address space.
    pub open spec fn wf(&self) -> bool {
        self.base_addr + self.header_size + self.num_glyphs * self.bytes_per_glyph <= u64::MAX
    }

    /// Address of the glyph that stands for `code_point`.
    pub fn get_glyph(&self, code_point: u32) -> (addr: u64)
        requires
            self.wf(),
        ensures
            addr == self.base_addr + self.header_size + self.glyph_index(code_point)
                * self.bytes_per_glyph,
    {
        let all_glyphs_offset: u64 = self.base_addr + self.header_size as u64;
        let index: u64 = if code_point < self.num_glyphs {
            code_point as u64
        } else {
            0
        };
        proof {
            assert(index * self.bytes_per_glyph <= self.num_glyphs * self.bytes_per_glyph)
                by (nonlinear_arith)
                requires
                    index <= self.num_glyphs,
            ;
        }
        all_glyphs_offset + index * self.bytes_per_glyph as u64
    }
}

} // verus!
