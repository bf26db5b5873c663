//! Colours and the layout of the framebuffer.

use crate::boot_info::framebuffer::FramebufferData;
use vstd::prelude::*;

pub mod text_writer;

verus! {

/// A colour: red, green and blue in the three low bytes of a 32-bit
/// number, red highest.
#[derive(Debug, Copy, Clone, PartialEq, Eq, Structural)]
pub struct Color {
    /// The colour as one number, `0x00RRGGBB`.
    pub raw_color: u32,
}

/// The colour of the parts `red`, `green` and `blue` as one number.
pub open spec fn pack(red: u8, green: u8, blue: u8) -> u32 {
    ((red as u32) << 16) | ((green as u32) << 8) | blue as u32
}

/// Taking a colour's parts apart gives the parts that it was made from.
pub proof fn lemma_pack(red: u8, green: u8, blue: u8)
    ensures
        (pack(red, green, blue) >> 16) & 0xff == red,
        (pack(red, green, blue) >> 8) & 0xff == green,
        pack(red, green, blue) & 0xff == blue,
        pack(red, green, blue) <= 0xff_ff_ff,
{
    let r: u32 = red as u32;
    let g: u32 = green as u32;
    let b: u32 = blue as u32;
    assert((((r << 16) | (g << 8) | b) >> 16) & 0xff == r && (((r << 16) | (g << 8) | b) >> 8)
        & 0xff == g && ((r << 16) | (g << 8) | b) & 0xff == b && ((r << 16) | (g << 8) | b)
        <= 0xff_ff_ff) by (bit_vector)
        requires
            r < 256,
            g < 256,
            b < 256,
    ;
}

impl Color {
    /// The red part of the colour.
    pub open spec fn red(self) -> u8 {
        ((self.raw_color >> 16) & 0xff) as u8
    }

    /// The green part of the colour.
    pub open spec fn green(self) -> u8 {
        ((self.raw_color >> 8) & 0xff) as u8
    }

    /// The blue part of the colour.
    pub open spec fn blue(self) -> u8 {
        (self.raw_color & 0xff) as u8
    }

    /// The colour of the parts `red`, `green` and `blue`.
    pub fn new(red: u8, green: u8, blue: u8) -> (color: Self)
        ensures
            color.raw_color == pack(red, green, blue),
            color.red() == red,
            color.green() == green,
            color.blue() == blue,
    {
        proof {
            lemma_pack(red, green, blue);
        }
        Color { raw_color: ((red as u32) << 16) | ((green as u32) << 8) | blue as u32 }
    }

    /// The colour that the three low bytes of `color` name; the highest
    /// byte is dropped.
    pub fn from_u32(color: u32) -> (result: Self)
        ensures
            result.raw_color == color & 0xff_ff_ff,
    {
        if color > 0xff_ff_ff {
            return Color { raw_color: color & 0xff_ff_ff };
        }
        proof {
            assert(color <= 0xff_ff_ff ==> color & 0xff_ff_ff == color) by (bit_vector);
        }
        Color { raw_color: color }
    }

    /// The colour as one number.
    pub fn get(&self) -> (value: u32)
        ensures
            value == self.raw_color,
    {
        self.raw_color
    }

    /// The red part of the colour.
    pub fn r(&self) -> (value: u8)
        ensures
            value == self.red(),
    {
        let raw: u32 = self.raw_color;
        proof {
            assert((raw >> 16) & 0xff < 256) by (bit_vector);
        }
        ((raw >> 16) & 0xff) as u8
    }

    /// The green part of the colour.
    pub fn g(&self) -> (value: u8)
        ensures
            value == self.green(),
    {
        let raw: u32 = self.raw_color;
        proof {
            assert((raw >> 8) & 0xff < 256) by (bit_vector);
        }
        ((raw >> 8) & 0xff) as u8
    }

    /// The blue part of the colour.
    pub fn b(&self) -> (value: u8)
        ensures
            value == self.blue(),
    {
        let raw: u32 = self.raw_color;
        proof {
            assert(raw & 0xff < 256) by (bit_vector);
        }
        (raw & 0xff) as u8
    }

    /// Adds the bits of `red` to the red part of the colour: bits that are
    /// set stay set.
    pub fn set_r(&mut self, red: u8)
        ensures
            final(self).raw_color == old(self).raw_color | ((red as u32) << 16),
    {
        self.raw_color = self.raw_color | ((red as u32) << 16);
    }

    /// Adds the bits of `green` to the green part of the colour: bits that
    /// are set stay set.
    pub fn set_g(&mut self, green: u8)
        ensures
            final(self).raw_color == old(self).raw_color | ((green as u32) << 8),
    {
        self.raw_color = self.raw_color | ((green as u32) << 8);
    }

    /// Adds the bits of `blue` to the blue part of the colour: bits that
    /// are set stay set.
    pub fn set_b(&mut self, blue: u8)
        ensures
            final(self).raw_color == old(self).raw_color | blue as u32,
    {
        self.raw_color = self.raw_color | blue as u32;
    }
}

/// The framebuffer that the renderer draws to.
#[derive(Debug, Copy, Clone, PartialEq, Eq, Structural)]
pub struct Renderer {
    /// What the boot stage said of the framebuffer.
    pub fb: FramebufferData,
    /// Whether a pixel holds red, green and blue as a `Color` does.
    pub is_rgb32: bool,
}

/// Whether the masks of `fb` are those of a pixel that holds red, green and
/// blue as a `Color` does.
pub open spec fn rgb32_masks(fb: FramebufferData) -> bool {
    fb.red_bitmask == 0xff_00_00 && fb.green_bitmask == 0xff_00 && fb.blue_bitmask == 0xff
}

/// Whether the masks of `fb` are those of a pixel that holds blue, green
/// and red, blue highest.
pub open spec fn bgr32_masks(fb: FramebufferData) -> bool {
    fb.red_bitmask == 0xff && fb.green_bitmask == 0xff_00 && fb.blue_bitmask == 0xff_00_00
}

/// Whether `fb` describes a framebuffer that can be drawn to: it has a
/// width and a height, and each colour has bits in a pixel.
pub open spec fn drawable(fb: FramebufferData) -> bool {
    fb.width != 0 && fb.height != 0 && fb.red_bitmask != 0 && fb.green_bitmask != 0
        && fb.blue_bitmask != 0
}

/// `color` with its red and blue parts swapped into the places that a
/// blue-green-red pixel has for them: red one byte down, green one byte up
/// and blue into the highest byte.
pub open spec fn swapped(color: u32) -> u32 {
    ((color & 0xff_00_00) >> 8) | ((color & 0xff_00) << 8) | ((color & 0xff) << 24)
}

/// Takes the framebuffer that `fb_info` describes for drawing. Returns
/// `None` when it cannot be drawn to.
pub fn setup_fb(fb_info: &FramebufferData) -> (renderer: Option<Renderer>)
    ensures
        renderer is Some <==> drawable(*fb_info),
        renderer is Some ==> renderer->0 == (Renderer {
            fb: *fb_info,
            is_rgb32: rgb32_masks(*fb_info),
        }),
{
    if fb_info.width() == 0 || fb_info.height() == 0 || fb_info.red_bitmask() == 0
        || fb_info.green_bitmask() == 0 || fb_info.blue_bitmask() == 0 {
        return None;
    }
    let is_rgb32: bool = fb_info.red_bitmask() == 0xff_00_00 && fb_info.green_bitmask() == 0xff_00
        && fb_info.blue_bitmask() == 0xff;
    Some(Renderer { fb: *fb_info, is_rgb32 })
}

impl Renderer {
    /// Visible pixels per row.
    pub fn fb_width(&self) -> (value: u32)
        ensures
            value == self.fb.width,
    {
        self.fb.width
    }

    /// Number of rows.
    pub fn fb_height(&self) -> (value: u32)
        ensures
            value == self.fb.height,
    {
        self.fb.height
    }

    /// Pixels from the start of one row to the start of the next.
    pub fn fb_pitch(&self) -> (value: u32)
        ensures
            value == self.fb.pitch,
    {
        self.fb.pitch
    }

    /// Bits that one pixel occupies.
    pub fn fb_bits_per_pixel(&self) -> (value: u8)
        ensures
            value == self.fb.bits_per_pixel,
    {
        self.fb.bits_per_pixel
    }

    /// The bits of a pixel that hold its red part.
    pub fn fb_red_mask(&self) -> (value: u32)
        ensures
            value == self.fb.red_bitmask,
    {
        self.fb.red_bitmask
    }

    /// The bits of a pixel that hold its green part.
    pub fn fb_green_mask(&self) -> (value: u32)
        ensures
            value == self.fb.green_bitmask,
    {
        self.fb.green_bitmask
    }

    /// The bits of a pixel that hold its blue part.
    pub fn fb_blue_mask(&self) -> (value: u32)
        ensures
            value == self.fb.blue_bitmask,
    {
        self.fb.blue_bitmask
    }

    /// Converts `color` to what the framebuffer holds for it: the colour
    /// itself where a pixel holds red, green and blue in that order, the
    /// colour with red and blue swapped where it holds them the other way
    /// round, and the colour itself for any other layout.
    pub fn convert_color_format(&self, color: u32) -> (pixel: u32)
        ensures
            pixel == if !self.is_rgb32 && bgr32_masks(self.fb) {
                swapped(color)
            } else {
                color
            },
    {
        if self.is_rgb32 {
            return color;
        }
        if self.fb.red_bitmask == 0xff && self.fb.green_bitmask == 0xff_00 && self.fb.blue_bitmask
            == 0xff_00_00 {
            return ((color & 0xff_00_00) >> 8) | ((color & 0xff_00) << 8) | ((color & 0xff) << 24);
        }
        color
    }

    /// Offset in bytes, from the start of the framebuffer, of the pixel in
    /// column `x` of row `y`.
    pub open spec fn offset_of(&self, x: u32, y: u32) -> int {
        (self.fb.bits_per_pixel / 8) * y * self.fb.pitch + (self.fb.bits_per_pixel / 8) * x
    }

    /// Offset in bytes, from the start of the framebuffer, of the pixel in
    /// column `x` of row `y`; `None` when the offset is beyond what an
    /// address can hold.
    pub fn pixel_offset(&self, x: u32, y: u32) -> (offset: Option<u64>)
        ensures
            self.offset_of(x, y) <= u64::MAX ==> offset == Some(self.offset_of(x, y) as u64),
            self.offset_of(x, y) > u64::MAX ==> offset is None,
    {
        let bytes_per_pixel: u128 = (self.fb.bits_per_pixel / 8) as u128;
        proof {
            assert(bytes_per_pixel * y <= 31 * 0xffff_ffff) by (nonlinear_arith)
                requires
                    bytes_per_pixel <= 31,
                    y <= 0xffff_ffff,
            ;
            assert(bytes_per_pixel * y * self.fb.pitch <= 31 * 0xffff_ffff * 0xffff_ffff)
                by (nonlinear_arith)
                requires
                    bytes_per_pixel * y <= 31 * 0xffff_ffff,
                    self.fb.pitch <= 0xffff_ffff,
            ;
            assert(bytes_per_pixel * x <= 31 * 0xffff_ffff) by (nonlinear_arith)
                requires
                    bytes_per_pixel <= 31,
                    x <= 0xffff_ffff,
            ;
        }
        let offset: u128 = bytes_per_pixel * y as u128 * self.fb.pitch as u128 + bytes_per_pixel
            * x as u128;
        if offset > u64::MAX as u128 {
            None
        } else {
            Some(offset as u64)
        }
    }
}

/// The four bytes that a pixel of the value `color` is written as, lowest
/// first.
pub fn direct_draw(color: u32) -> (bytes: [u8; 4])
    ensures
        bytes[0] == color & 0xff,
        bytes[1] == (color >> 8) & 0xff,
        bytes[2] == (color >> 16) & 0xff,
        bytes[3] == (color >> 24) & 0xff,
{
    proof {
        assert(color & 0xff < 256 && (color >> 8) & 0xff < 256 && (color >> 16) & 0xff < 256 && (
        color >> 24) & 0xff < 256) by (bit_vector);
    }
    [
        (color & 0xff) as u8,
        ((color >> 8) & 0xff) as u8,
        ((color >> 16) & 0xff) as u8,
        ((color >> 24) & 0xff) as u8,
    ]
}

/// The picture `fb` with the four bytes of the pixel value `pixel` written
/// at `offset`. A pixel that does not lie within the picture as a whole is
/// left out.
pub open spec fn put_pixel(fb: Seq<u8>, offset: int, pixel: u32) -> Seq<u8> {
    if 0 <= offset && offset + 4 <= fb.len() {
        fb.update(offset, (pixel & 0xff) as u8).update(
            offset + 1,
            ((pixel >> 8) & 0xff) as u8,
        ).update(offset + 2, ((pixel >> 16) & 0xff) as u8).update(
            offset + 3,
            ((pixel >> 24) & 0xff) as u8,
        )
    } else {
        fb
    }
}

/// Writes the four bytes of the pixel value `pixel` into the picture at
/// `offset`, if the pixel lies within the picture.
fn write_pixel(fb: &mut Vec<u8>, offset: u128, pixel: u32)
    ensures
        final(fb)@ == put_pixel(old(fb)@, offset as int, pixel),
{
    let len: usize = fb.len();
    if offset > len as u128 || len as u128 - offset < 4 {
        return ;
    }
    let at: usize = offset as usize;
    let bytes: [u8; 4] = direct_draw(pixel);
    fb[at] = bytes[0];
    fb[at + 1] = bytes[1];
    fb[at + 2] = bytes[2];
    fb[at + 3] = bytes[3];
}

impl Renderer {
    /// What the framebuffer holds for `color`.
    pub open spec fn converted(&self, color: u32) -> u32 {
        if !self.is_rgb32 && bgr32_masks(self.fb) {
            swapped(color)
        } else {
            color
        }
    }

    /// Offset in bytes of the pixel in column `x` of row `y`, for any
    /// column and row.
    pub open spec fn offset_at(&self, x: int, y: int) -> int {
        (self.fb.bits_per_pixel / 8) * y * self.fb.pitch + (self.fb.bits_per_pixel / 8) * x
    }

    /// The picture `fb` with the pixels of row `y` from column `from` up to
    /// column `to` set to `pixel`, one after the other; the row ends behind
    /// the column that has the number of the framebuffer's width.
    pub open spec fn row_drawn(&self, fb: Seq<u8>, y: int, from: int, to: int, pixel: u32) -> Seq<
        u8,
    >
        decreases to - from,
    {
        if from >= to || from > self.fb.width {
            fb
        } else {
            self.row_drawn(put_pixel(fb, self.offset_at(from, y), pixel), y, from + 1, to, pixel)
        }
    }

    /// The picture `fb` with the rows from `from` up to `to` drawn as
    /// `row_drawn` says, one after the other; the picture ends behind the
    /// row that has the number of the framebuffer's height.
    pub open spec fn rows_drawn(
        &self,
        fb: Seq<u8>,
        from: int,
        to: int,
        x: int,
        x_end: int,
        pixel: u32,
    ) -> Seq<u8>
        decreases to - from,
    {
        if from >= to || from > self.fb.height {
            fb
        } else {
            self.rows_drawn(
                self.row_drawn(fb, from, x, x_end, pixel),
                from + 1,
                to,
                x,
                x_end,
                pixel,
            )
        }
    }

    /// The offset of the pixel in column `x` of row `y`.
    fn offset(&self, x: u64, y: u64) -> (offset: u128)
        requires
            x <= 0x2_0000_0000,
            y <= 0x2_0000_0000,
        ensures
            offset == self.offset_at(x as int, y as int),
            offset <= 31 * 0x2_0000_0000 * 0xffff_ffff + 31 * 0x2_0000_0000,
    {
        let bytes_per_pixel: u128 = (self.fb.bits_per_pixel / 8) as u128;
        proof {
            assert(bytes_per_pixel * y <= 31 * 0x2_0000_0000) by (nonlinear_arith)
                requires
                    bytes_per_pixel <= 31,
                    y <= 0x2_0000_0000,
            ;
            assert(bytes_per_pixel * y * self.fb.pitch <= 31 * 0x2_0000_0000 * 0xffff_ffff)
                by (nonlinear_arith)
                requires
                    bytes_per_pixel * y <= 31 * 0x2_0000_0000,
                    self.fb.pitch <= 0xffff_ffff,
            ;
            assert(bytes_per_pixel * x <= 31 * 0x2_0000_0000) by (nonlinear_arith)
                requires
                    bytes_per_pixel <= 31,
                    x <= 0x2_0000_0000,
            ;
        }
        bytes_per_pixel * y as u128 * self.fb.pitch as u128 + bytes_per_pixel * x as u128
    }

    /// Draws a rectangle of the colour `color` into the picture `fb`: the
    /// pixels of `width` columns from column `x` on and of `height` rows
    /// from row `y` on, as far as they lie within the framebuffer. The
    /// colour is converted to what the framebuffer holds for it.
    pub fn draw_rect(&self, fb: &mut Vec<u8>, x: u32, y: u32, width: u32, height: u32, color: Color)
        ensures
            final(fb)@ == self.rows_drawn(
                old(fb)@,
                y as int,
                y + height,
                x as int,
                x + width,
                self.converted(color.raw_color),
            ),
    {
        let pixel: u32 = if self.is_rgb32 {
            color.get()
        } else {
            self.convert_color_format(color.get())
        };
        let y_end: u64 = y as u64 + height as u64;
        let x_end: u64 = x as u64 + width as u64;
        let ghost before = fb@;
        let mut y_pos: u64 = y as u64;
        while y_pos < y_end && y_pos <= self.fb.height as u64
            invariant
                y <= y_pos,
                y_end == y + height,
                x_end == x + width,
                self.rows_drawn(before, y as int, y_end as int, x as int, x_end as int, pixel)
                    == self.rows_drawn(
                    fb@,
                    y_pos as int,
                    y_end as int,
                    x as int,
                    x_end as int,
                    pixel,
                ),
            decreases y_end - y_pos,
        {
            let ghost row_start = fb@;
            let mut x_pos: u64 = x as u64;
            while x_pos < x_end && x_pos <= self.fb.width as u64
                invariant
                    x <= x_pos,
                    x_end == x + width,
                    y_pos <= self.fb.height,
                    self.row_drawn(row_start, y_pos as int, x as int, x_end as int, pixel)
                        == self.row_drawn(fb@, y_pos as int, x_pos as int, x_end as int, pixel),
                decreases x_end - x_pos,
            {
                let offset: u128 = self.offset(x_pos, y_pos);
                write_pixel(fb, offset, pixel);
                x_pos = x_pos + 1;
            }
            y_pos = y_pos + 1;
        }
    }

    /// Fills the picture `fb` with the colour `color`, as it is: every
    /// pixel of every row of the framebuffer.
    pub fn clear_screen(&self, fb: &mut Vec<u8>, color: Color)
        ensures
            final(fb)@ == self.rows_drawn(
                old(fb)@,
                0,
                self.fb.height as int,
                0,
                self.fb.width as int,
                color.raw_color,
            ),
    {
        let pixel: u32 = color.get();
        let y_end: u64 = self.fb.height as u64;
        let x_end: u64 = self.fb.width as u64;
        let ghost before = fb@;
        let mut y_pos: u64 = 0;
        while y_pos < y_end
            invariant
                y_end == self.fb.height,
                x_end == self.fb.width,
                self.rows_drawn(before, 0, y_end as int, 0, x_end as int, pixel)
                    == self.rows_drawn(fb@, y_pos as int, y_end as int, 0, x_end as int, pixel),
            decreases y_end - y_pos,
        {
            let ghost row_start = fb@;
            let mut x_pos: u64 = 0;
            while x_pos < x_end
                invariant
                    x_end == self.fb.width,
                    y_pos < self.fb.height,
                    self.row_drawn(row_start, y_pos as int, 0, x_end as int, pixel)
                        == self.row_drawn(fb@, y_pos as int, x_pos as int, x_end as int, pixel),
                decreases x_end - x_pos,
            {
                let offset: u128 = self.offset(x_pos, y_pos);
                write_pixel(fb, offset, pixel);
                x_pos = x_pos + 1;
            }
            y_pos = y_pos + 1;
        }
    }

    /// The picture `fb` with the pixels of row `row` of a block, from column
    /// `from` on, set to the colours that `buffer` holds for them. The block
    /// is `width` pixels wide and its first pixel lies at `base`.
    pub open spec fn block_row_drawn(
        &self,
        fb: Seq<u8>,
        base: int,
        row: int,
        from: int,
        width: int,
        buffer: Seq<Color>,
    ) -> Seq<u8>
        decreases width - from,
    {
        if from >= width || from > self.fb.width {
            fb
        } else {
            self.block_row_drawn(
                put_pixel(
                    fb,
                    base + self.offset_at(from, row),
                    buffer[row * width + from].raw_color,
                ),
                base,
                row,
                from + 1,
                width,
                buffer,
            )
        }
    }

    /// The picture `fb` with the rows of a block from row `from` on drawn as
    /// `block_row_drawn` says.
    pub open spec fn block_drawn(
        &self,
        fb: Seq<u8>,
        base: int,
        from: int,
        width: int,
        height: int,
        buffer: Seq<Color>,
    ) -> Seq<u8>
        decreases height - from,
    {
        if from >= height || from > self.fb.height {
            fb
        } else {
            self.block_drawn(
                self.block_row_drawn(fb, base, from, 0, width, buffer),
                base,
                from + 1,
                width,
                height,
                buffer,
            )
        }
    }

    /// Draws a block of pixels into the picture `fb`, with its first pixel
    /// in column `x` of row `y`: `width` by `height` pixels whose colours
    /// `buffer` holds row by row, written as they are. A buffer that holds
    /// too few colours draws nothing.
    pub fn draw_rect_buffer(
        &self,
        fb: &mut Vec<u8>,
        x: u32,
        y: u32,
        width: u32,
        height: u32,
        buffer: &[Color],
    )
        ensures
            buffer@.len() < width * height ==> final(fb)@ == old(fb)@,
            buffer@.len() >= width * height ==> final(fb)@ == self.block_drawn(
                old(fb)@,
                self.offset_at(x as int, y as int),
                0,
                width as int,
                height as int,
                buffer@,
            ),
    {
        proof {
            assert(width * height <= 0xffff_ffff * 0xffff_ffff) by (nonlinear_arith)
                requires
                    width <= 0xffff_ffff,
                    height <= 0xffff_ffff,
            ;
        }
        if (buffer.len() as u128) < width as u128 * height as u128 {
            return ;
        }
        let base: u128 = self.offset(x as u64, y as u64);
        let ghost before = fb@;
        let mut y_pos: u64 = 0;
        while y_pos < height as u64 && y_pos <= self.fb.height as u64
            invariant
                buffer@.len() >= width * height,
                base == self.offset_at(x as int, y as int),
                base <= 31 * 0x2_0000_0000 * 0xffff_ffff + 31 * 0x2_0000_0000,
                self.block_drawn(before, base as int, 0, width as int, height as int, buffer@)
                    == self.block_drawn(
                    fb@,
                    base as int,
                    y_pos as int,
                    width as int,
                    height as int,
                    buffer@,
                ),
            decreases height - y_pos,
        {
            let ghost row_start = fb@;
            let mut x_pos: u64 = 0;
            while x_pos < width as u64 && x_pos <= self.fb.width as u64
                invariant
                    buffer@.len() >= width * height,
                    y_pos < height,
                    y_pos <= self.fb.height,
                    base == self.offset_at(x as int, y as int),
                    base <= 31 * 0x2_0000_0000 * 0xffff_ffff + 31 * 0x2_0000_0000,
                    self.block_row_drawn(
                        row_start,
                        base as int,
                        y_pos as int,
                        0,
                        width as int,
                        buffer@,
                    ) == self.block_row_drawn(
                        fb@,
                        base as int,
                        y_pos as int,
                        x_pos as int,
                        width as int,
                        buffer@,
                    ),
                decreases width - x_pos,
            {
                proof {
                    assert(y_pos * width + x_pos < width * height && y_pos * width <= 0xffff_ffff
                        * 0xffff_ffff) by (nonlinear_arith)
                        requires
                            y_pos < height,
                            x_pos < width,
                            height <= 0xffff_ffff,
                            width <= 0xffff_ffff,
                    ;
                }
                let offset: u128 = base + self.offset(x_pos, y_pos);
                let index: u64 = y_pos * width as u64 + x_pos;
                assert(index < buffer@.len());
                let color: Color = buffer[index as usize];
                write_pixel(fb, offset, color.get());
                x_pos = x_pos + 1;
            }
            y_pos = y_pos + 1;
        }
    }
}

} // verus!
