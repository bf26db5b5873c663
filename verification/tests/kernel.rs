use dog_core::boot_info::framebuffer::FramebufferData;
use dog_core::k_corelib::interrupts::cpu_exceptions::{set_handler, ExceptionType, HandlerTable};
use dog_core::k_corelib::interrupts::pic_interrupts::InterruptIndex;
use dog_core::k_corelib::interrupts::InterruptArguments;
use dog_core::k_corelib::k_drivers::com_debug::{
    finish_init, init_serial, is_transmit_empty, write_char,
};
use dog_core::k_corelib::k_drivers::pic::{PicPair, PortWrite};
use dog_core::k_corelib::log::{
    log, log_debug, log_error, log_fatal, log_info, log_raw, log_verbose, log_warn, Severity,
};
use dog_core::k_corelib::renderer::{direct_draw, setup_fb, Color};
use dog_core::libs::elf::elf_file::ElfFile;
use dog_core::libs::elf::elf_header::{ElfHeader, ELF_MAG};
use dog_core::libs::psf::ascii_psf_font::{AsciiPsfFont, PSF2_MAGIC};

#[test]
fn interrupt_arguments_getters() {
    let args = InterruptArguments::new(0x1000, 0x202, 0x7ff0);
    assert_eq!(args.instruction_pointer(), 0x1000);
    assert_eq!(args.cpu_flags(), 0x202);
    assert_eq!(args.stack_pointer(), 0x7ff0);
}

#[test]
fn exception_types_and_their_numbers() {
    assert_eq!(ExceptionType::from(0), ExceptionType::Division);
    assert_eq!(ExceptionType::from(1), ExceptionType::Breakpoint);
    assert_eq!(ExceptionType::from(2), ExceptionType::InvalidOpcode);
    assert_eq!(ExceptionType::from(3), ExceptionType::ProtectionFault);
    assert_eq!(ExceptionType::from(4), ExceptionType::PageFault);
    assert_eq!(ExceptionType::from(5), ExceptionType::FloatingPointError);
    assert_eq!(ExceptionType::from(6), ExceptionType::NonMaskableInterrupt);
    assert_eq!(ExceptionType::from(0xffff), ExceptionType::DoubleFault);
    assert_eq!(ExceptionType::from(7), ExceptionType::DoubleFault);
    assert_eq!(ExceptionType::DoubleFault.as_u32(), 0xffff);
    assert_eq!(ExceptionType::PageFault.as_u32(), 4);
    assert_eq!(ExceptionType::Division.slot_index(), 0);
    assert_eq!(ExceptionType::DoubleFault.slot_index(), 7);
}

#[test]
fn handlers_are_kept_by_exception() {
    let mut table: HandlerTable<fn(InterruptArguments) -> u64> = HandlerTable::new();
    assert!(table.handler(ExceptionType::Breakpoint).is_none());
    set_handler(&mut table, ExceptionType::Breakpoint, |args| args.instruction_pointer());
    set_handler(&mut table, ExceptionType::PageFault, |args| args.stack_pointer());
    let args = InterruptArguments::new(1, 2, 3);
    assert_eq!(table.handler(ExceptionType::Breakpoint).unwrap()(args), 1);
    assert_eq!(table.handler(ExceptionType::PageFault).unwrap()(args), 3);
    assert!(table.handler(ExceptionType::Division).is_none());
    set_handler(&mut table, ExceptionType::Breakpoint, |args| args.cpu_flags());
    assert_eq!(table.handler(ExceptionType::Breakpoint).unwrap()(args), 2);
    assert_eq!(table.handler(ExceptionType::PageFault).unwrap()(args), 3);
}

#[test]
fn interrupt_indices() {
    assert_eq!(InterruptIndex::PitTick.as_u8(), 32);
    assert_eq!(InterruptIndex::Kbd.as_u8(), 33);
    assert_eq!(InterruptIndex::Kbd.as_usize(), 33);
    assert_eq!(InterruptIndex::from(32), InterruptIndex::PitTick);
    assert_eq!(InterruptIndex::from(33), InterruptIndex::Kbd);
    assert_eq!(InterruptIndex::from(0), InterruptIndex::PitTick);
}

fn port_write(port: u32, value: u8) -> PortWrite {
    PortWrite { port, value }
}

#[test]
fn pic_pair_handles_its_sixteen_interrupts() {
    let pair = PicPair::new();
    assert!(!pair.does_handle_interrupt(31));
    for irq in 32..48 {
        assert!(pair.does_handle_interrupt(irq));
    }
    assert!(!pair.does_handle_interrupt(48));
    assert!(!pair.does_handle_interrupt(0));
    assert!(!pair.does_handle_interrupt(255));
    let mut high = PicPair::new();
    high.second.offset = 250;
    assert!(high.does_handle_interrupt(255));
    assert!(!high.does_handle_interrupt(249));
}

#[test]
fn pic_pair_initialisation() {
    let writes = PicPair::new().init();
    let wait = port_write(0x80, 0);
    assert_eq!(
        writes,
        vec![
            port_write(0x20, 0x11),
            wait,
            port_write(0xa0, 0x11),
            wait,
            port_write(0x21, 32),
            wait,
            port_write(0xa1, 40),
            wait,
            port_write(0x21, 4),
            wait,
            port_write(0xa1, 2),
            wait,
            port_write(0x21, 1),
            wait,
            port_write(0xa1, 1),
            wait,
            port_write(0x21, 0),
            port_write(0xa1, 0),
            port_write(0x43, 0x36),
            port_write(0x40, 0x9b),
            port_write(0x40, 0x2e),
        ]
    );
    assert_eq!(0x2e9b, 1193182 / 100);
}

#[test]
fn pic_pair_ports_and_masks() {
    let pair = PicPair::new();
    assert_eq!(pair.read_pic1(), 0x21);
    assert_eq!(pair.read_pic2(), 0xa1);
    assert_eq!(pair.write_pic1(0x0f), port_write(0x21, 0x0f));
    assert_eq!(pair.write_pic2(0xf0), port_write(0xa1, 0xf0));
    assert_eq!(pair.disable_pic1(), port_write(0x21, 0xff));
    assert_eq!(pair.disable_pic2(), port_write(0xa1, 0xff));
}

#[test]
fn end_of_interrupt_goes_to_the_right_controllers() {
    let pair = PicPair::new();
    assert_eq!(pair.send_end_of_interrupt(32), vec![port_write(0x20, 0x20)]);
    assert_eq!(pair.send_end_of_interrupt(39), vec![port_write(0x20, 0x20)]);
    assert_eq!(
        pair.send_end_of_interrupt(40),
        vec![port_write(0xa0, 0x20), port_write(0x20, 0x20)]
    );
    assert_eq!(pair.send_end_of_interrupt(48), vec![]);
    assert_eq!(pair.send_end_of_interrupt(3), vec![]);
}

#[test]
fn serial_port_set_up() {
    let writes = init_serial();
    assert_eq!(writes.len(), 9);
    assert_eq!(writes[0], port_write(0x3f9, 0));
    assert_eq!(writes[1], port_write(0x3fb, 0x80));
    assert_eq!(writes[2], port_write(0x3f8, 3));
    assert_eq!(writes[5], port_write(0x3fa, 0xc7));
    assert_eq!(writes[7], port_write(0x3fc, 0x1e));
    assert_eq!(writes[8], port_write(0x3f8, 0xae));
    assert_eq!(finish_init(0xae), Some(port_write(0x3fc, 0x0f)));
    assert_eq!(finish_init(0), None);
    assert!(is_transmit_empty(0));
    assert!(is_transmit_empty(0xdf));
    assert!(!is_transmit_empty(0x20));
    assert!(!is_transmit_empty(0xff));
    assert_eq!(write_char(b'x'), port_write(0x3f8, b'x'));
}

#[test]
fn log_lines_carry_their_severity() {
    assert_eq!(log(Severity::Info, "up"), b"[INFO]: up\n".to_vec());
    assert_eq!(log_verbose("a"), b"[VERBOSE]: a\n".to_vec());
    assert_eq!(log_debug("b"), b"[DEBUG]: b\n".to_vec());
    assert_eq!(log_info("c"), b"[INFO]: c\n".to_vec());
    assert_eq!(log_warn("d"), b"[WARN]: d\n".to_vec());
    assert_eq!(log_error("e"), b"[ERROR]: e\n".to_vec());
    assert_eq!(log_fatal(""), b"[FATAL]: \n".to_vec());
    assert_eq!(log_raw("plain"), b"plain".to_vec());
    assert_eq!(Severity::Verbose.as_u32(), 1);
    assert_eq!(Severity::Fatal.as_u32(), 6);
    assert_eq!(Severity::Warn.prefix_text(), "[WARN]: ");
}

#[test]
fn log_writes_control_bytes_out() {
    assert_eq!(dog_core::k_corelib::log::write("a\tb"), b"a^Ib".to_vec());
    assert_eq!(dog_core::k_corelib::log::write("\u{3}\u{7}\u{8}"), b"^B^G^H".to_vec());
    assert_eq!(dog_core::k_corelib::log::write("one\r\ntwo"), b"one\n\ntwo".to_vec());
    assert_eq!(dog_core::k_corelib::log::write("\u{1b}[0m"), b"\\033[0m".to_vec());
    assert_eq!(dog_core::k_corelib::log::write("\u{7f}"), b"\\033[3~".to_vec());
    // the two bytes of one character beyond ASCII
    assert_eq!(dog_core::k_corelib::log::write("\u{e9}"), b"??".to_vec());
    assert_eq!(dog_core::k_corelib::log::write("~ \u{1}"), vec![b'~', b' ', 1]);
    assert_eq!(log_raw("\u{20ac}"), b"???".to_vec());
}

#[test]
fn colours_and_their_parts() {
    let color = Color::new(0x12, 0x34, 0x56);
    assert_eq!(color.get(), 0x123456);
    assert_eq!(color.r(), 0x12);
    assert_eq!(color.g(), 0x34);
    assert_eq!(color.b(), 0x56);
    assert_eq!(Color::from_u32(0xff12_3456).get(), 0x123456);
    assert_eq!(Color::from_u32(0x00ff_ffff).get(), 0xffffff);
    assert_eq!(Color::from_u32(0x0100_0000).get(), 0);
    let mut color = Color::new(0x01, 0x02, 0x04);
    color.set_r(0x10);
    color.set_g(0x20);
    color.set_b(0x40);
    // the bits are added to those that are set
    assert_eq!(color.get(), 0x112244);
    assert_eq!(direct_draw(0x1234_5678), [0x78, 0x56, 0x34, 0x12]);
}

#[test]
fn renderer_takes_a_drawable_framebuffer() {
    let rgb = FramebufferData::new(0xb000, 800, 600, 800, 32, 0xff0000, 0xff00, 0xff);
    let renderer = setup_fb(&rgb).unwrap();
    assert!(renderer.is_rgb32);
    assert_eq!(renderer.fb_width(), 800);
    assert_eq!(renderer.fb_height(), 600);
    assert_eq!(renderer.fb_pitch(), 800);
    assert_eq!(renderer.fb_bits_per_pixel(), 32);
    assert_eq!(renderer.fb_red_mask(), 0xff0000);
    assert_eq!(renderer.fb_green_mask(), 0xff00);
    assert_eq!(renderer.fb_blue_mask(), 0xff);
    assert_eq!(renderer.convert_color_format(0x123456), 0x123456);
    assert_eq!(renderer.pixel_offset(3, 2), Some(4 * 2 * 800 + 4 * 3));
    let bgr = FramebufferData::new(0xb000, 800, 600, 800, 32, 0xff, 0xff00, 0xff0000);
    let renderer = setup_fb(&bgr).unwrap();
    assert!(!renderer.is_rgb32);
    assert_eq!(renderer.convert_color_format(0x123456), 0x5634_1200);
    let other = FramebufferData::new(0xb000, 800, 600, 800, 16, 0xf800, 0x7e0, 0x1f);
    let renderer = setup_fb(&other).unwrap();
    assert_eq!(renderer.convert_color_format(0x123456), 0x123456);
    assert_eq!(renderer.pixel_offset(3, 2), Some(2 * 2 * 800 + 2 * 3));
    let huge = FramebufferData::new(0, u32::MAX, u32::MAX, u32::MAX, 255, 1, 1, 1);
    assert_eq!(setup_fb(&huge).unwrap().pixel_offset(u32::MAX, u32::MAX), None);
    for broken in [
        FramebufferData::new(0xb000, 0, 600, 800, 32, 0xff0000, 0xff00, 0xff),
        FramebufferData::new(0xb000, 800, 0, 800, 32, 0xff0000, 0xff00, 0xff),
        FramebufferData::new(0xb000, 800, 600, 800, 32, 0, 0xff00, 0xff),
        FramebufferData::new(0xb000, 800, 600, 800, 32, 0xff0000, 0, 0xff),
        FramebufferData::new(0xb000, 800, 600, 800, 32, 0xff0000, 0xff00, 0),
    ] {
        assert_eq!(setup_fb(&broken), None);
    }
}

fn elf_bytes() -> Vec<u8> {
    let mut data = vec![0u8; 80];
    data[0..4].copy_from_slice(&ELF_MAG.to_le_bytes());
    data[4] = 2;
    data[5] = 1;
    data[6] = 1;
    data[7] = 0;
    data[8] = 9;
    data[16..18].copy_from_slice(&2u16.to_le_bytes());
    data[18..20].copy_from_slice(&0x3eu16.to_le_bytes());
    data[20..24].copy_from_slice(&1u32.to_le_bytes());
    data[24..32].copy_from_slice(&0xffff_ffff_8000_1000u64.to_le_bytes());
    data[32..40].copy_from_slice(&64u64.to_le_bytes());
    data[40..48].copy_from_slice(&0x2000u64.to_le_bytes());
    data[48..52].copy_from_slice(&7u32.to_le_bytes());
    data[52..54].copy_from_slice(&64u16.to_le_bytes());
    data[54..56].copy_from_slice(&56u16.to_le_bytes());
    data[56..58].copy_from_slice(&3u16.to_le_bytes());
    data[58..60].copy_from_slice(&64u16.to_le_bytes());
    data[60..62].copy_from_slice(&5u16.to_le_bytes());
    data[62..64].copy_from_slice(&4u16.to_le_bytes());
    data
}

#[test]
fn elf_header_is_read_from_bytes() {
    let header = ElfHeader::parse(&elf_bytes()).unwrap();
    assert_eq!(header.e_ident_class(), 2);
    assert_eq!(header.e_ident_data(), 1);
    assert_eq!(header.e_ident_version(), 1);
    assert_eq!(header.e_ident_osabi(), 0);
    assert_eq!(header.e_ident_abiversion(), 9);
    assert_eq!(header.e_type(), 2);
    assert_eq!(header.e_machine(), 0x3e);
    assert_eq!(header.e_version(), 1);
    assert_eq!(header.e_entry(), 0xffff_ffff_8000_1000);
    assert_eq!(header.e_phoff(), 64);
    assert_eq!(header.e_shoff(), 0x2000);
    assert_eq!(header.e_flags(), 7);
    assert_eq!(header.e_ehsize(), 64);
    assert_eq!(header.e_phentsize(), 56);
    assert_eq!(header.e_phnum(), 3);
    assert_eq!(header.e_shentsize(), 64);
    assert_eq!(header.e_shnum(), 5);
    assert_eq!(header.e_shstrndx(), 4);
    assert_eq!(header.e_ident_mag, ELF_MAG);
    assert_eq!(header.e_ident_pad, [0; 7]);
}

#[test]
fn elf_headers_that_are_not_taken() {
    assert!(ElfHeader::parse(&elf_bytes()[..63]).is_none());
    assert!(ElfHeader::parse(&elf_bytes()[..64]).is_some());
    assert!(ElfHeader::parse(&[]).is_none());
    let mut data = elf_bytes();
    data[0] ^= 1;
    assert!(ElfHeader::parse(&data).is_none());
    let mut data = elf_bytes();
    data[4] = 1;
    assert!(ElfHeader::parse(&data).is_none());
    let mut data = elf_bytes();
    data[5] = 2;
    assert!(ElfHeader::parse(&data).is_none());
    let mut data = elf_bytes();
    data[18] = 0x28;
    assert!(ElfHeader::parse(&data).is_none());
}

#[test]
fn elf_file_getters() {
    let file = ElfFile {
        e_ident_mag: ELF_MAG,
        e_ident_class: 2,
        e_ident_data: 1,
        e_ident_version: 1,
        e_ident_osabi: 3,
        e_ident_abiversion: 4,
        e_ident_pad: [0; 7],
        e_type: 5,
        e_machine: 6,
        e_version: 7,
        e_entry: 8,
        e_phoff: 9,
        e_shoff: 10,
        e_flags: 11,
        e_ehsize: 12,
        e_phentsize: 13,
        e_phnum: 14,
        e_shentsize: 15,
        e_shnum: 16,
        e_shstrndx: 17,
    };
    assert_eq!(file.e_ident_class(), 2);
    assert_eq!(file.e_ident_data(), 1);
    assert_eq!(file.e_ident_version(), 1);
    assert_eq!(file.e_ident_osabi(), 3);
    assert_eq!(file.e_ident_abiversion(), 4);
    assert_eq!(file.e_type(), 5);
    assert_eq!(file.e_machine(), 6);
    assert_eq!(file.e_version(), 7);
    assert_eq!(file.e_entry(), 8);
    assert_eq!(file.e_phoff(), 9);
    assert_eq!(file.e_shoff(), 10);
    assert_eq!(file.e_flags(), 11);
    assert_eq!(file.e_ehsize(), 12);
    assert_eq!(file.e_phentsize(), 13);
    assert_eq!(file.e_phnum(), 14);
    assert_eq!(file.e_shentsize(), 15);
    assert_eq!(file.e_shnum(), 16);
    assert_eq!(file.e_shstrndx(), 17);
}

fn font_bytes() -> Vec<u8> {
    let mut bytes: Vec<u8> = Vec::new();
    for word in [PSF2_MAGIC, 0, 32, 1, 256, 16, 16, 8] {
        bytes.extend(word.to_le_bytes());
    }
    bytes
}

#[test]
fn font_header_is_read_from_bytes() {
    let font = AsciiPsfFont::from_raw(&font_bytes(), 0x5000).unwrap();
    assert_eq!(font.magic(), PSF2_MAGIC);
    assert_eq!(font.version(), 0);
    assert_eq!(font.header_size(), 32);
    assert_eq!(font.flags(), 1);
    assert_eq!(font.num_glyphs(), 256);
    assert_eq!(font.bytes_per_glyph(), 16);
    assert_eq!(font.height(), 16);
    assert_eq!(font.width(), 8);
    assert_eq!(font.get_glyph(0), 0x5020);
    assert_eq!(font.glyph_offset(0), 32);
    assert_eq!(font.glyph_offset(65), 32 + 65 * 16);
    assert_eq!(font.glyph_offset(256), 32);
    assert_eq!(font.get_glyph(65), 0x5020 + 65 * 16);
    assert_eq!(font.get_glyph(255), 0x5020 + 255 * 16);
    // a character that the font has no glyph for gets the first glyph
    assert_eq!(font.get_glyph(256), 0x5020);
    assert_eq!(font.get_glyph(u32::MAX), 0x5020);
}

#[test]
fn fonts_that_are_not_taken() {
    assert!(AsciiPsfFont::from_raw(&font_bytes()[..31], 0).is_none());
    let mut bytes = font_bytes();
    bytes[0] = 0;
    assert!(AsciiPsfFont::from_raw(&bytes, 0).is_none());
    let mut bytes = font_bytes();
    bytes[4] = 1;
    assert!(AsciiPsfFont::from_raw(&bytes, 0).is_none());
    let font = AsciiPsfFont::default();
    assert_eq!(font.magic(), 0);
    assert_eq!(font.num_glyphs(), 0);
    assert_eq!(font.width(), 0);
    assert_eq!(font.get_glyph(65), 0);
}
