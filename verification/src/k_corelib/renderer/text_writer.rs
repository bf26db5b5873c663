//! Text on the screen: where the next character goes, when the screen
//! scrolls, and what a character looks like.
//!
//! The writer keeps the place of the next character, in rows and columns
//! of characters, and how long each line of text is. It says for each
//! character what is to be drawn and where; drawing and scrolling are for
//! the caller.

use super::Color;
use crate::libs::psf::ascii_psf_font::AsciiPsfFont;
use vstd::prelude::*;

verus! {

/// The only width of a font that can be written with, in pixels.
pub const HARDCODED_FONT_WIDTH: u32 = 8;

/// The only height of a font that can be written with, in pixels.
pub const HARDCODED_FONT_HEIGHT: u32 = 16;

/// Number of lines whose width is kept.
pub const MAX_LINES: usize = 100;

/// Where the next character goes and how long the lines are.
pub struct TextWriter {
    /// The row of the next character.
    pub curr_row: u32,
    /// The column of the next character.
    pub curr_column: u32,
    /// Number of characters that fit into a row.
    pub width_in_chars: u32,
    /// Number of rows that fit onto the screen.
    pub height_in_chars: u32,
    /// The width in characters of each of the first 100 lines of text.
    pub lines_width: Vec<u32>,
}

/// What writing one character takes.
#[derive(Debug, Copy, Clone, PartialEq, Eq, Structural)]
pub enum TextStep {
    /// A new line begins; nothing is drawn.
    NewLine,
    /// The glyph of the character `code` is drawn with its upper left corner
    /// at the pixel `(x, y)`. If `scroll` holds a width, the screen first
    /// moves up by one row of text, over that many pixels of its width.
    Glyph { code: u8, x: u32, y: u32, scroll: Option<u32> },
}

/// The widest of the lines `lines` from the one at index `from` on, in
/// pixels.
pub open spec fn widest_line(lines: Seq<u32>, from: int) -> int
    decreases lines.len() - from,
{
    if from < 0 || from >= lines.len() {
        0
    } else if lines[from] * HARDCODED_FONT_WIDTH > widest_line(lines, from + 1) {
        lines[from] * HARDCODED_FONT_WIDTH
    } else {
        widest_line(lines, from + 1)
    }
}

/// The lines `lines` after the screen has moved up by one row: each line
/// has the width of the one below it, and the last keeps its own.
pub open spec fn lines_scrolled(lines: Seq<u32>) -> Seq<u32> {
    Seq::new(
        lines.len(),
        |i: int|
            if i + 1 < lines.len() {
                lines[i + 1]
            } else {
                lines[i]
            },
    )
}

impl TextWriter {
    /// The writer has room for a character, keeps the width of 100 lines,
    /// and no line is wider than the screen.
    pub open spec fn wf(&self) -> bool {
        &&& self.width_in_chars >= 1
        &&& self.height_in_chars >= 1
        &&& self.width_in_chars * HARDCODED_FONT_WIDTH <= u32::MAX
        &&& self.height_in_chars * HARDCODED_FONT_HEIGHT <= u32::MAX
        &&& self.curr_column <= self.width_in_chars
        &&& self.lines_width@.len() == MAX_LINES
        &&& forall|i: int| 0 <= i < MAX_LINES ==> #[trigger] self.lines_width[i] <= self.width_in_chars
    }

    /// The lines with the width of the line at hand noted down, if that is
    /// one of the first 100.
    pub open spec fn lines_noted(&self) -> Seq<u32> {
        if self.curr_row < MAX_LINES {
            self.lines_width@.update(self.curr_row as int, self.curr_column)
        } else {
            self.lines_width@
        }
    }

    /// How much of the screen's width moves when the screen scrolls: all of
    /// it once the text has more than 100 lines, else as much as the widest
    /// line takes.
    pub open spec fn scroll_width(&self, fb_width: u32) -> int {
        if self.curr_row >= MAX_LINES {
            fb_width as int
        } else {
            widest_line(self.lines_width@, 0)
        }
    }

    /// A writer for a screen of `fb_width` by `fb_height` pixels and the
    /// font `font`, with the next character in the upper left corner.
    /// Returns `None` when the font is not 8 by 16 pixels or the screen has
    /// no room for a character of it.
    pub fn init(fb_width: u32, fb_height: u32, font: &AsciiPsfFont) -> (writer: Option<Self>)
        ensures
            writer is Some <==> font.width == HARDCODED_FONT_WIDTH && font.height
                == HARDCODED_FONT_HEIGHT && fb_width >= HARDCODED_FONT_WIDTH && fb_height
                >= HARDCODED_FONT_HEIGHT,
            writer is Some ==> {
                &&& writer->0.wf()
                &&& writer->0.curr_row == 0
                &&& writer->0.curr_column == 0
                &&& writer->0.width_in_chars == fb_width / HARDCODED_FONT_WIDTH
                &&& writer->0.height_in_chars == fb_height / HARDCODED_FONT_HEIGHT
                &&& forall|i: int| 0 <= i < MAX_LINES ==> writer->0.lines_width[i] == 0
            },
    {
        if font.width() != HARDCODED_FONT_WIDTH || font.height() != HARDCODED_FONT_HEIGHT {
            return None;
        }
        if fb_width < HARDCODED_FONT_WIDTH || fb_height < HARDCODED_FONT_HEIGHT {
            return None;
        }
        let lines_width: Vec<u32> = vec![0u32; MAX_LINES];
        Some(
            TextWriter {
                curr_row: 0,
                curr_column: 0,
                width_in_chars: fb_width / font.width(),
                height_in_chars: fb_height / font.height(),
                lines_width,
            },
        )
    }

    /// Says what writing the character `chr` takes on a screen that is
    /// `fb_width` pixels wide, and moves on. A line feed begins a new line,
    /// and so does any character that comes when the line is full; that
    /// character is not drawn. Any other character is drawn at the place of
    /// the next character; if that lies below the screen, the screen
    /// scrolls first and the character goes into the last row.
    pub fn write(&mut self, chr: u8, fb_width: u32) -> (step: TextStep)
        requires
            old(self).wf(),
            old(self).curr_row < u32::MAX,
        ensures
            final(self).wf(),
            final(self).width_in_chars == old(self).width_in_chars,
            final(self).height_in_chars == old(self).height_in_chars,
            chr == 10 || old(self).curr_column >= old(self).width_in_chars ==> {
                &&& step == TextStep::NewLine
                &&& final(self).curr_row == old(self).curr_row + 1
                &&& final(self).curr_column == 0
                &&& final(self).lines_width@ == old(self).lines_noted()
            },
            !(chr == 10 || old(self).curr_column >= old(self).width_in_chars) ==> {
                let scrolls = old(self).curr_row >= old(self).height_in_chars;
                let row = if scrolls {
                    (old(self).height_in_chars - 1) as u32
                } else {
                    old(self).curr_row
                };
                &&& step == (TextStep::Glyph {
                    code: chr,
                    x: (old(self).curr_column * HARDCODED_FONT_WIDTH) as u32,
                    y: (row * HARDCODED_FONT_HEIGHT) as u32,
                    scroll: if scrolls {
                        Some(old(self).scroll_width(fb_width) as u32)
                    } else {
                        None
                    },
                })
                &&& final(self).curr_row == row
                &&& final(self).curr_column == old(self).curr_column + 1
                &&& final(self).lines_width@ == if scrolls {
                    lines_scrolled(old(self).lines_width@)
                } else {
                    old(self).lines_width@
                }
            },
    {
        if chr == 10 || self.curr_column >= self.width_in_chars {
            if self.curr_row < 100 {
                let row: usize = self.curr_row as usize;
                self.lines_width[row] = self.curr_column;
            }
            self.curr_row = self.curr_row + 1;
            self.curr_column = 0;
            return TextStep::NewLine;
        }
        let mut scroll: Option<u32> = None;
        if self.curr_row >= self.height_in_chars {
            scroll = Some(self.scroll(fb_width));
            self.update_lines_width_on_scroll();
            self.curr_row = self.height_in_chars - 1;
        }
        proof {
            assert(self.curr_column * HARDCODED_FONT_WIDTH <= self.width_in_chars
                * HARDCODED_FONT_WIDTH) by (nonlinear_arith)
                requires
                    self.curr_column <= self.width_in_chars,
            ;
            assert(self.curr_row * HARDCODED_FONT_HEIGHT <= self.height_in_chars
                * HARDCODED_FONT_HEIGHT) by (nonlinear_arith)
                requires
                    self.curr_row <= self.height_in_chars,
            ;
        }
        let x: u32 = self.curr_column * HARDCODED_FONT_WIDTH;
        let y: u32 = self.curr_row * HARDCODED_FONT_HEIGHT;
        self.curr_column = self.curr_column + 1;
        TextStep::Glyph { code: chr, x, y, scroll }
    }

    /// Notes the width of the line at hand down, when a text has been
    /// written to its end.
    pub fn finish(&mut self)
        requires
            old(self).wf(),
        ensures
            final(self).wf(),
            final(self).lines_width@ == old(self).lines_noted(),
            final(self).curr_row == old(self).curr_row,
            final(self).curr_column == old(self).curr_column,
            final(self).width_in_chars == old(self).width_in_chars,
            final(self).height_in_chars == old(self).height_in_chars,
    {
        if self.curr_row < 100 {
            let row: usize = self.curr_row as usize;
            self.lines_width[row] = self.curr_column;
        }
    }

    /// Moves the width of each line to the line above it.
    fn update_lines_width_on_scroll(&mut self)
        requires
            old(self).wf(),
        ensures
            final(self).wf(),
            final(self).lines_width@ == lines_scrolled(old(self).lines_width@),
            final(self).curr_row == old(self).curr_row,
            final(self).curr_column == old(self).curr_column,
            final(self).width_in_chars == old(self).width_in_chars,
            final(self).height_in_chars == old(self).height_in_chars,
    {
        let ghost before = self.lines_width@;
        let mut i: usize = 1;
        while i < 100
            invariant
                1 <= i <= 100,
                self.lines_width@.len() == MAX_LINES,
                before.len() == MAX_LINES,
                self.curr_row == old(self).curr_row,
                self.curr_column == old(self).curr_column,
                self.width_in_chars == old(self).width_in_chars,
                self.height_in_chars == old(self).height_in_chars,
                forall|k: int| 0 <= k < i - 1 ==> self.lines_width[k] == before[k + 1],
                forall|k: int| i - 1 <= k < MAX_LINES ==> self.lines_width[k] == before[k],
            decreases 100 - i,
        {
            let width: u32 = self.lines_width[i];
            self.lines_width[i - 1] = width;
            i = i + 1;
        }
        proof {
            assert(self.lines_width@ =~= lines_scrolled(before));
        }
    }

    /// How much of the screen's width moves when the screen scrolls.
    fn scroll(&self, fb_width: u32) -> (width: u32)
        requires
            self.wf(),
        ensures
            width == self.scroll_width(fb_width),
    {
        if self.curr_row >= 100 {
            return fb_width;
        }
        let mut width: u32 = 0;
        let mut i: usize = 100;
        while i > 0
            invariant
                i <= 100,
                self.wf(),
                width == widest_line(self.lines_width@, i as int),
            decreases i,
        {
            i = i - 1;
            proof {
                assert(self.lines_width[i as int] * HARDCODED_FONT_WIDTH <= self.width_in_chars
                    * HARDCODED_FONT_WIDTH) by (nonlinear_arith)
                    requires
                        self.lines_width[i as int] <= self.width_in_chars,
                ;
            }
            let this_width: u32 = self.lines_width[i] * HARDCODED_FONT_WIDTH;
            if this_width > width {
                width = this_width;
            }
        }
        width
    }
}

/// The picture of a glyph of 8 by 16 pixels: the pixel in column `x` of row
/// `y` has the colour `fg_color` where bit `7 - x` of the glyph's byte `y`
/// is set, and the colour `bg_color` where it is clear.
pub open spec fn glyph_pixel(glyph: Seq<u8>, x: int, y: int, fg_color: Color, bg_color: Color) -> Color {
    if glyph[y] & (0x80u8 >> (x as u8)) != 0 {
        fg_color
    } else {
        bg_color
    }
}

/// Draws the glyph whose 16 rows `glyph` holds, one byte to the row, as a
/// block of 8 by 16 colours, row by row. Returns `None` when `glyph` holds
/// fewer than 16 bytes.
pub fn rasterize(glyph: &[u8], fg_color: Color, bg_color: Color) -> (buffer: Option<Vec<Color>>)
    ensures
        buffer is Some <==> glyph@.len() >= HARDCODED_FONT_HEIGHT,
        buffer is Some ==> buffer->0@.len() == HARDCODED_FONT_WIDTH * HARDCODED_FONT_HEIGHT
            && forall|x: int, y: int|
            0 <= x < HARDCODED_FONT_WIDTH && 0 <= y < HARDCODED_FONT_HEIGHT
                ==> #[trigger] buffer->0@[y * 8 + x] == glyph_pixel(
                glyph@,
                x,
                y,
                fg_color,
                bg_color,
            ),
{
    if glyph.len() < 16 {
        return None;
    }
    let mut buffer: Vec<Color> = Vec::new();
    let mut y: usize = 0;
    while y < 16
        invariant
            y <= 16,
            glyph@.len() >= 16,
            buffer@.len() == y * 8,
            forall|px: int, py: int|
                0 <= px < 8 && 0 <= py < y ==> #[trigger] buffer@[py * 8 + px] == glyph_pixel(
                    glyph@,
                    px,
                    py,
                    fg_color,
                    bg_color,
                ),
        decreases 16 - y,
    {
        let row: u8 = glyph[y];
        let mut mask: u8 = 0x80;
        let mut x: usize = 0;
        proof {
            assert(0x80u8 >> 0u8 == 0x80u8) by (bit_vector);
        }
        while x < 8
            invariant
                x <= 8,
                y < 16,
                glyph@.len() >= 16,
                row == glyph@[y as int],
                mask == 0x80u8 >> (x as u8),
                buffer@.len() == y * 8 + x,
                forall|px: int, py: int|
                    0 <= px < 8 && 0 <= py < y ==> #[trigger] buffer@[py * 8 + px] == glyph_pixel(
                        glyph@,
                        px,
                        py,
                        fg_color,
                        bg_color,
                    ),
                forall|px: int|
                    0 <= px < x ==> #[trigger] buffer@[y * 8 + px] == glyph_pixel(
                        glyph@,
                        px,
                        y as int,
                        fg_color,
                        bg_color,
                    ),
            decreases 8 - x,
        {
            if row & mask != 0 {
                buffer.push(fg_color);
            } else {
                buffer.push(bg_color);
            }
            proof {
                let shift: u8 = x as u8;
                assert((0x80u8 >> shift) >> 1 == 0x80u8 >> ((shift + 1) as u8)) by (bit_vector)
                    requires
                        shift < 8,
                ;
            }
            mask = mask >> 1;
            x = x + 1;
        }
        y = y + 1;
    }
    Some(buffer)
}

} // verus!
