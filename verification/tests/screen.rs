use dog_core::boot_info::framebuffer::FramebufferData;
use dog_core::k_corelib::renderer::text_writer::{rasterize, TextStep, TextWriter};
use dog_core::k_corelib::renderer::{setup_fb, Color, Renderer};
use dog_core::k_panic_handler::fb_writer;
use dog_core::kernel::multiboot2_initializer::{
    init_framebuffer, mask_of_field, FramebufferField, FramebufferTag, FramebufferType,
};
use dog_core::kernel::renderer::{draw_char, draw_rect, draw_test};
use dog_core::libs::psf::ascii_psf_font::AsciiPsfFont;

/// A renderer for a small screen of 32-bit pixels.
fn small_screen(width: u32, height: u32, pitch: u32) -> Renderer {
    setup_fb(&FramebufferData::new(0, width, height, pitch, 32, 0xff0000, 0xff00, 0xff)).unwrap()
}

fn pixel(fb: &[u8], pitch: u32, x: u32, y: u32) -> u32 {
    let at = (4 * y * pitch + 4 * x) as usize;
    u32::from_le_bytes([fb[at], fb[at + 1], fb[at + 2], fb[at + 3]])
}

#[test]
fn rectangle_is_drawn_pixel_by_pixel() {
    let renderer = small_screen(8, 6, 10);
    let mut fb = vec![0u8; 4 * 10 * 8];
    renderer.draw_rect(&mut fb, 2, 1, 3, 2, Color::from_u32(0x112233));
    for y in 0..8 {
        for x in 0..10 {
            let inside = (2..5).contains(&x) && (1..3).contains(&y);
            assert_eq!(pixel(&fb, 10, x, y), if inside { 0x112233 } else { 0 });
        }
    }
    assert_eq!(&fb[4 * 10 + 8..4 * 10 + 12], &[0x33, 0x22, 0x11, 0]);
}

#[test]
fn rectangle_ends_where_the_framebuffer_ends() {
    let renderer = small_screen(4, 3, 8);
    let mut fb = vec![0u8; 4 * 8 * 6];
    renderer.draw_rect(&mut fb, 2, 2, 100, 100, Color::from_u32(0xabcdef));
    for y in 0..6 {
        for x in 0..8 {
            // the column and the row that have the number of the width and of the height are drawn too
            let inside = (2..=4).contains(&x) && (2..=3).contains(&y);
            assert_eq!(pixel(&fb, 8, x, y), if inside { 0xabcdef } else { 0 });
        }
    }
    // pixels beyond the picture are left out
    let mut short = vec![0u8; 4 * 8 * 3 - 2];
    renderer.draw_rect(&mut short, 0, 0, 8, 8, Color::from_u32(0x010203));
    assert_eq!(pixel(&short, 8, 4, 2), 0x010203);
    assert_eq!(&short[4 * 8 * 3 - 6..], &[0, 0, 0, 0]);
    let mut none: Vec<u8> = Vec::new();
    renderer.draw_rect(&mut none, 0, 0, 8, 8, Color::from_u32(0x010203));
    assert!(none.is_empty());
    renderer.draw_rect(&mut fb, u32::MAX, u32::MAX, u32::MAX, u32::MAX, Color::from_u32(1));
}

#[test]
fn rectangle_is_converted_for_the_framebuffer() {
    let bgr = setup_fb(&FramebufferData::new(0, 4, 4, 4, 32, 0xff, 0xff00, 0xff0000)).unwrap();
    let mut fb = vec![0u8; 64];
    bgr.draw_rect(&mut fb, 0, 0, 1, 1, Color::from_u32(0x112233));
    assert_eq!(pixel(&fb, 4, 0, 0), 0x3322_1100);
    // filling the screen writes the colour as it is
    bgr.clear_screen(&mut fb, Color::from_u32(0x112233));
    assert_eq!(pixel(&fb, 4, 0, 0), 0x112233);
    assert_eq!(pixel(&fb, 4, 3, 3), 0x112233);
}

#[test]
fn screen_is_filled_row_by_row() {
    let renderer = small_screen(3, 2, 5);
    let mut fb = vec![0xeeu8; 4 * 5 * 3];
    renderer.clear_screen(&mut fb, Color::from_u32(0x445566));
    for y in 0..3 {
        for x in 0..5 {
            let inside = x < 3 && y < 2;
            assert_eq!(pixel(&fb, 5, x, y), if inside { 0x445566 } else { 0xeeee_eeee });
        }
    }
}

#[test]
fn block_of_colours_is_drawn() {
    let renderer = small_screen(8, 8, 8);
    let mut fb = vec![0u8; 4 * 8 * 8];
    let colours: Vec<Color> = (1..=6).map(Color::from_u32).collect();
    renderer.draw_rect_buffer(&mut fb, 2, 3, 3, 2, &colours);
    assert_eq!(pixel(&fb, 8, 2, 3), 1);
    assert_eq!(pixel(&fb, 8, 3, 3), 2);
    assert_eq!(pixel(&fb, 8, 4, 3), 3);
    assert_eq!(pixel(&fb, 8, 2, 4), 4);
    assert_eq!(pixel(&fb, 8, 4, 4), 6);
    assert_eq!(fb.iter().filter(|byte| **byte != 0).count(), 6);
    // too few colours draw nothing
    let mut fb = vec![0u8; 4 * 8 * 8];
    renderer.draw_rect_buffer(&mut fb, 0, 0, 3, 3, &colours);
    assert!(fb.iter().all(|byte| *byte == 0));
}

fn font() -> AsciiPsfFont {
    AsciiPsfFont { width: 8, height: 16, ..AsciiPsfFont::default() }
}

#[test]
fn glyph_is_turned_into_colours() {
    let fg = Color::from_u32(0xffffff);
    let bg = Color::from_u32(0x000080);
    let mut glyph = [0u8; 16];
    glyph[0] = 0b1000_0001;
    glyph[15] = 0b0101_0000;
    let buffer = rasterize(&glyph, fg, bg).unwrap();
    assert_eq!(buffer.len(), 128);
    assert_eq!(buffer[0], fg);
    assert_eq!(buffer[1], bg);
    assert_eq!(buffer[7], fg);
    assert_eq!(buffer[8], bg);
    assert_eq!(buffer[15 * 8], bg);
    assert_eq!(buffer[15 * 8 + 1], fg);
    assert_eq!(buffer[15 * 8 + 3], fg);
    assert_eq!(buffer.iter().filter(|colour| **colour == fg).count(), 4);
    assert_eq!(rasterize(&glyph[..15], fg, bg), None);
}

#[test]
fn text_goes_from_left_to_right() {
    let mut writer = TextWriter::init(32, 48, &font()).unwrap();
    assert_eq!(writer.width_in_chars, 4);
    assert_eq!(writer.height_in_chars, 3);
    assert_eq!(writer.write(b'a', 32), TextStep::Glyph { code: b'a', x: 0, y: 0, scroll: None });
    assert_eq!(writer.write(b'b', 32), TextStep::Glyph { code: b'b', x: 8, y: 0, scroll: None });
    assert_eq!(writer.write(b'\n', 32), TextStep::NewLine);
    assert_eq!(writer.lines_width[0], 2);
    assert_eq!(writer.write(b'c', 32), TextStep::Glyph { code: b'c', x: 0, y: 16, scroll: None });
    writer.finish();
    assert_eq!(writer.lines_width[1], 1);
}

#[test]
fn full_line_begins_a_new_one() {
    let mut writer = TextWriter::init(32, 48, &font()).unwrap();
    for column in 0..4 {
        assert_eq!(
            writer.write(b'x', 32),
            TextStep::Glyph { code: b'x', x: column * 8, y: 0, scroll: None }
        );
    }
    // the character that finds the line full is not drawn
    assert_eq!(writer.write(b'y', 32), TextStep::NewLine);
    assert_eq!(writer.lines_width[0], 4);
    assert_eq!(writer.write(b'z', 32), TextStep::Glyph { code: b'z', x: 0, y: 16, scroll: None });
}

#[test]
fn text_below_the_screen_scrolls() {
    let mut writer = TextWriter::init(32, 48, &font()).unwrap();
    for line in 0..3u8 {
        for _ in 0..=line {
            assert!(matches!(writer.write(b'a' + line, 32), TextStep::Glyph { .. }));
        }
        assert_eq!(writer.write(b'\n', 32), TextStep::NewLine);
    }
    assert_eq!(&writer.lines_width[..4], &[1, 2, 3, 0]);
    assert_eq!(writer.curr_row, 3);
    // the widest line has three characters
    assert_eq!(
        writer.write(b'd', 32),
        TextStep::Glyph { code: b'd', x: 0, y: 32, scroll: Some(24) }
    );
    assert_eq!(writer.curr_row, 2);
    assert_eq!(&writer.lines_width[..4], &[2, 3, 0, 0]);
    assert_eq!(writer.write(b'e', 32), TextStep::Glyph { code: b'e', x: 8, y: 32, scroll: None });
}

#[test]
fn long_text_scrolls_the_whole_width() {
    let mut writer = TextWriter::init(32, 48, &font()).unwrap();
    for _ in 0..150 {
        assert_eq!(writer.write(b'\n', 32), TextStep::NewLine);
    }
    assert_eq!(
        writer.write(b'q', 32),
        TextStep::Glyph { code: b'q', x: 0, y: 32, scroll: Some(32) }
    );
}

#[test]
fn writer_needs_a_font_of_8_by_16() {
    assert!(TextWriter::init(32, 48, &AsciiPsfFont::default()).is_none());
    let wide = AsciiPsfFont { width: 16, height: 16, ..AsciiPsfFont::default() };
    assert!(TextWriter::init(32, 48, &wide).is_none());
    assert!(TextWriter::init(7, 48, &font()).is_none());
    assert!(TextWriter::init(32, 15, &font()).is_none());
    assert!(TextWriter::init(8, 16, &font()).is_some());
    assert!(TextWriter::init(u32::MAX, u32::MAX, &font()).is_some());
}

#[test]
fn stopped_kernel_covers_the_screen() {
    let rgb = fb_writer::setup_fb(0, 2, 2, 2, 32, 0xff0000, 0xff00, 0xff).unwrap();
    assert_eq!(rgb.convert_color_format(0x800000), 0x8000_0000);
    assert_eq!(rgb.convert_color_format(0xff12_3456), 0x1234_5600);
    let bgr = fb_writer::setup_fb(0, 2, 2, 2, 32, 0xff, 0xff00, 0xff0000).unwrap();
    assert_eq!(bgr.convert_color_format(0x800000), 0x8000);
    let other = fb_writer::setup_fb(0, 2, 2, 2, 16, 0xf800, 0x7e0, 0x1f).unwrap();
    assert_eq!(other.convert_color_format(0x800000), 0x800000);
    assert!(fb_writer::setup_fb(0, 0, 2, 2, 32, 0xff0000, 0xff00, 0xff).is_none());
    assert!(fb_writer::setup_fb(0, 2, 0, 2, 32, 0xff0000, 0xff00, 0xff).is_none());
    assert!(fb_writer::setup_fb(0, 2, 2, 2, 32, 0, 0xff00, 0xff).is_none());
    let mut fb = vec![0u8; 16];
    bgr.cover_screen(&mut fb);
    assert_eq!(fb, [0, 0x80, 0, 0].repeat(4));
}

#[test]
fn multiboot_framebuffer() {
    let field = |position: u8, size: u8| FramebufferField { position, size };
    assert_eq!(mask_of_field(field(16, 8)), 0xff0000);
    assert_eq!(mask_of_field(field(0, 5)), 0x1f);
    assert_eq!(mask_of_field(field(11, 5)), 0xf800);
    assert_eq!(mask_of_field(field(0, 32)), u32::MAX);
    assert_eq!(mask_of_field(field(24, 40)), 0xff00_0000);
    assert_eq!(mask_of_field(field(32, 8)), 0);
    assert_eq!(mask_of_field(field(3, 0)), 0);
    let rgb = FramebufferType::Rgb { red: field(16, 8), green: field(8, 8), blue: field(0, 8) };
    let tag = FramebufferTag {
        address: 0xfd00_0000,
        pitch: 4096,
        width: 1024,
        height: 768,
        bpp: 32,
        buffer_type: Some(rgb),
    };
    assert_eq!(
        init_framebuffer(&tag),
        Some(FramebufferData::new(0xfd00_0000, 1024, 768, 4096, 32, 0xff0000, 0xff00, 0xff))
    );
    assert_eq!(init_framebuffer(&FramebufferTag { buffer_type: None, ..tag }), None);
    assert_eq!(
        init_framebuffer(&FramebufferTag { buffer_type: Some(FramebufferType::Text), ..tag }),
        None
    );
    assert_eq!(
        init_framebuffer(&FramebufferTag { buffer_type: Some(FramebufferType::Indexed), ..tag }),
        None
    );
    assert_eq!(init_framebuffer(&FramebufferTag { width: 0, ..tag }), None);
    let no_blue = FramebufferType::Rgb { red: field(16, 8), green: field(8, 8), blue: field(0, 0) };
    assert_eq!(init_framebuffer(&FramebufferTag { buffer_type: Some(no_blue), ..tag }), None);
}

#[test]
fn early_drawing_needs_a_rectangle_that_fits() {
    let renderer = small_screen(8, 6, 8);
    let mut fb = vec![0u8; 4 * 8 * 6];
    draw_rect(&renderer, &mut fb, 6, 0, 3, 1, 0x112233);
    draw_rect(&renderer, &mut fb, 0, 5, 1, 2, 0x112233);
    assert!(fb.iter().all(|byte| *byte == 0));
    draw_rect(&renderer, &mut fb, 5, 4, 3, 2, 0x112233);
    for y in 0..6 {
        for x in 0..8 {
            let inside = x >= 5 && y >= 4;
            assert_eq!(pixel(&fb, 8, x, y), if inside { 0x112233 } else { 0 });
        }
    }
}

#[test]
fn early_drawing_of_characters() {
    let renderer = small_screen(640, 480, 640);
    let mut bytes = vec![0u8; 32 + 256 * 16];
    let font = AsciiPsfFont {
        header_size: 32,
        num_glyphs: 256,
        bytes_per_glyph: 16,
        width: 8,
        height: 16,
        ..AsciiPsfFont::default()
    };
    // the glyph of `A`: its first row has the leftmost pixel set, its last row the rightmost
    bytes[32 + 65 * 16] = 0x80;
    bytes[32 + 65 * 16 + 15] = 0x01;
    let mut fb = vec![0u8; 4 * 640 * 480];
    draw_char(&renderer, &mut fb, &font, &bytes, b'A', 3, 1, 0xffffff, 0xff0000);
    assert_eq!(pixel(&fb, 640, 24, 16), 0xffffff);
    assert_eq!(pixel(&fb, 640, 25, 16), 0xff0000);
    assert_eq!(pixel(&fb, 640, 31, 31), 0xffffff);
    assert_eq!(pixel(&fb, 640, 30, 31), 0xff0000);
    assert_eq!(pixel(&fb, 640, 32, 16), 0);
    assert_eq!(pixel(&fb, 640, 24, 15), 0);
    // a font whose bytes end before the glyph draws nothing
    let mut other = vec![0u8; 4 * 640 * 480];
    draw_char(&renderer, &mut other, &font, &bytes[..32 + 65 * 16 + 15], b'A', 3, 1, 1, 2);
    assert!(other.iter().all(|byte| *byte == 0));
    let mut test = vec![0u8; 4 * 640 * 480];
    draw_test(&renderer, &mut test, &font, &bytes);
    assert_eq!(pixel(&test, 640, 20, 40), 0xffff00);
    assert_eq!(pixel(&test, 640, 269, 339), 0xffff00);
    assert_eq!(pixel(&test, 640, 270, 340), 0);
    assert_eq!(pixel(&test, 640, 19, 40), 0);
    // the characters stand above the rectangle
    assert_eq!(pixel(&test, 640, 16, 16), 0xff0000);
    assert_eq!(pixel(&test, 640, 24, 16), 0xffffff);
    assert_eq!(pixel(&test, 640, 39, 31), 0xff0000);
    assert_eq!(pixel(&test, 640, 40, 31), 0);
}
