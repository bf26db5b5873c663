//! Drawing for the kernel's first signs of life: rectangles that must fit
//! the screen, and single characters on a grid of 8 by 16 pixels.

use crate::k_corelib::renderer::text_writer::{
    glyph_pixel, rasterize, HARDCODED_FONT_HEIGHT, HARDCODED_FONT_WIDTH,
};
use crate::k_corelib::renderer::{Color, Renderer};
use crate::libs::psf::ascii_psf_font::AsciiPsfFont;
use vstd::prelude::*;
use vstd::slice::slice_subrange;

verus! {

/// Whether the rectangle of `width` by `height` pixels at `(x, y)` lies
/// within the framebuffer of `renderer`.
pub open spec fn fits(renderer: Renderer, x: u32, y: u32, width: u32, height: u32) -> bool {
    x + width <= renderer.fb.width && y + height <= renderer.fb.height
}

/// The picture `fb` with a rectangle of the colour `color` drawn into it,
/// if the whole of the rectangle lies within the framebuffer; else `fb`.
pub open spec fn rect_drawn(
    renderer: Renderer,
    fb: Seq<u8>,
    x: u32,
    y: u32,
    width: u32,
    height: u32,
    color: u32,
) -> Seq<u8> {
    if fits(renderer, x, y, width, height) {
        renderer.rows_drawn(fb, y as int, y + height, x as int, x + width, renderer.converted(color))
    } else {
        fb
    }
}

/// Draws a rectangle of the colour `color` into the picture `fb`, if the
/// whole of it lies within the framebuffer; else nothing is drawn. The
/// colour is converted to what the framebuffer holds for it.
pub fn draw_rect(
    renderer: &Renderer,
    fb: &mut Vec<u8>,
    x: u32,
    y: u32,
    width: u32,
    height: u32,
    color: u32,
)
    ensures
        final(fb)@ == rect_drawn(*renderer, old(fb)@, x, y, width, height, color),
{
    if x as u64 + width as u64 > renderer.fb.width as u64 || y as u64 + height as u64
        > renderer.fb.height as u64 {
        return ;
    }
    renderer.draw_rect(fb, x, y, width, height, Color { raw_color: color });
}

/// The colours of the glyph `glyph` of 8 by 16 pixels, row by row.
pub open spec fn glyph_block(glyph: Seq<u8>, fg_color: u32, bg_color: u32) -> Seq<Color> {
    Seq::new(
        (HARDCODED_FONT_WIDTH * HARDCODED_FONT_HEIGHT) as nat,
        |i: int|
            glyph_pixel(
                glyph,
                i % 8,
                i / 8,
                Color { raw_color: fg_color },
                Color { raw_color: bg_color },
            ),
    )
}

/// Where the rows of the glyph for `code` begin in the bytes of `font`.
pub open spec fn glyph_start(font: AsciiPsfFont, code: u8) -> int {
    font.header_size + font.glyph_index(code as u32) * font.bytes_per_glyph
}

/// Whether the bytes `bytes` of the font `font` hold the 16 rows of the
/// glyph for `code`.
pub open spec fn has_glyph(font: AsciiPsfFont, bytes: Seq<u8>, code: u8) -> bool {
    glyph_start(font, code) + HARDCODED_FONT_HEIGHT <= bytes.len()
}

/// The picture `fb` with the character `code` drawn into it in column `cx`
/// and row `cy` of the grid of characters; `fb` itself if the bytes do not
/// hold the glyph, or if the place lies beyond what 32 bits can count in
/// pixels.
pub open spec fn char_drawn(
    renderer: Renderer,
    fb: Seq<u8>,
    font: AsciiPsfFont,
    bytes: Seq<u8>,
    code: u8,
    cx: u32,
    cy: u32,
    fg_color: u32,
    bg_color: u32,
) -> Seq<u8> {
    if has_glyph(font, bytes, code) && cx * HARDCODED_FONT_WIDTH <= u32::MAX && cy
        * HARDCODED_FONT_HEIGHT <= u32::MAX {
        renderer.block_drawn(
            fb,
            renderer.offset_at(cx * HARDCODED_FONT_WIDTH, cy * HARDCODED_FONT_HEIGHT),
            0,
            HARDCODED_FONT_WIDTH as int,
            HARDCODED_FONT_HEIGHT as int,
            glyph_block(
                bytes.subrange(
                    glyph_start(font, code),
                    glyph_start(font, code) + HARDCODED_FONT_HEIGHT,
                ),
                fg_color,
                bg_color,
            ),
        )
    } else {
        fb
    }
}

/// Draws the character `code` into the picture `fb`, in column `cx` and row
/// `cy` of the grid of characters, with the glyph that the font `font`,
/// whose bytes are `bytes`, has for it. The colours are written as they
/// are. Nothing is drawn if the bytes do not hold the glyph, or if the
/// place lies beyond what 32 bits can count in pixels.
pub fn draw_char(
    renderer: &Renderer,
    fb: &mut Vec<u8>,
    font: &AsciiPsfFont,
    bytes: &[u8],
    code: u8,
    cx: u32,
    cy: u32,
    fg_color: u32,
    bg_color: u32,
)
    ensures
        final(fb)@ == char_drawn(
            *renderer,
            old(fb)@,
            *font,
            bytes@,
            code,
            cx,
            cy,
            fg_color,
            bg_color,
        ),
{
    let start: u64 = font.glyph_offset(code as u32);
    if start > bytes.len() as u64 || bytes.len() as u64 - start < 16 {
        return ;
    }
    if cx > u32::MAX / HARDCODED_FONT_WIDTH || cy > u32::MAX / HARDCODED_FONT_HEIGHT {
        return ;
    }
    let from: usize = start as usize;
    let rows = slice_subrange(bytes, from, from + 16);
    let buffer: Option<Vec<Color>> = rasterize(
        rows,
        Color { raw_color: fg_color },
        Color { raw_color: bg_color },
    );
    match buffer {
        None => {},
        Some(buffer) => {
            proof {
                assert forall|i: int| 0 <= i < 128 implies buffer@[i] == glyph_block(
                    rows@,
                    fg_color,
                    bg_color,
                )[i] by {
                    let x = i % 8;
                    let y = i / 8;
                    assert(buffer@[y * 8 + x] == glyph_pixel(
                        rows@,
                        x,
                        y,
                        Color { raw_color: fg_color },
                        Color { raw_color: bg_color },
                    ));
                }
                assert(buffer@ =~= glyph_block(rows@, fg_color, bg_color));
            }
            renderer.draw_rect_buffer(
                fb,
                cx * HARDCODED_FONT_WIDTH,
                cy * HARDCODED_FONT_HEIGHT,
                HARDCODED_FONT_WIDTH,
                HARDCODED_FONT_HEIGHT,
                buffer.as_slice(),
            );
        },
    }
}

/// The test picture drawn into `fb`: a yellow rectangle, and the
/// characters `2`, `A` and `b` in white on red in the second row of
/// characters.
pub open spec fn test_picture(
    renderer: Renderer,
    fb: Seq<u8>,
    font: AsciiPsfFont,
    bytes: Seq<u8>,
) -> Seq<u8> {
    let rect = rect_drawn(renderer, fb, 20, 40, 250, 300, 0xff_ff_00);
    let first = char_drawn(renderer, rect, font, bytes, 50, 2, 1, 0xff_ff_ff, 0xff_00_00);
    let second = char_drawn(renderer, first, font, bytes, 65, 3, 1, 0xff_ff_ff, 0xff_00_00);
    char_drawn(renderer, second, font, bytes, 98, 4, 1, 0xff_ff_ff, 0xff_00_00)
}

/// Draws a test picture into `fb`: a yellow rectangle, and the characters
/// `2`, `A` and `b` in white on red in the second row of characters.
pub fn draw_test(renderer: &Renderer, fb: &mut Vec<u8>, font: &AsciiPsfFont, bytes: &[u8])
    ensures
        final(fb)@ == test_picture(*renderer, old(fb)@, *font, bytes@),
{
    draw_rect(renderer, fb, 20, 40, 250, 300, 0xff_ff_00);
    draw_char(renderer, fb, font, bytes, 50, 2, 1, 0xff_ff_ff, 0xff_00_00);
    draw_char(renderer, fb, font, bytes, 65, 3, 1, 0xff_ff_ff, 0xff_00_00);
    draw_char(renderer, fb, font, bytes, 98, 4, 1, 0xff_ff_ff, 0xff_00_00);
}

} // verus!
