use dog_core::boot_info::framebuffer::FramebufferData;
use dog_core::boot_info::memory_map::memory_attributes;
use dog_core::boot_info::memory_map::{
    is_map_size_aligned, read_memory_map, MemoryMapEntry, MemoryType, ENTRY_SIZE,
};
use dog_core::boot_info::{
    KParams, GOP_VIRTUAL_ADDRESS, KERNEL_VIRTUAL_ADDRESS, K_HEAP_END, K_HEAP_START,
    MEM_MAP_VIRTUAL_ADDRESS, PAGE_TABLES_ADDRESS, PHYS_BITMAP_MANAGER_ADDRESS,
};
use dog_core::bootloader::graphics_config::{
    abs, fb_data_from_mode_info, set_appropriate_framebuffer, ModeInfo, PixelBitmask, PixelFormat,
};
use dog_core::bootloader::kernel_reader::{find_physical_region, plan_segment, SegmentLoad};
use dog_core::bootloader::phys_memory_map::{allocate_memory_for_pmm, needed_sections};
use dog_core::bootloader::raw_mem_map::{alloc_memory_for_map, pages_for_map};
use dog_core::bootloader::sys_config_reader::SystemConfig;

const ALL_KINDS: [MemoryType; 16] = [
    MemoryType::Reserved,
    MemoryType::LoaderCode,
    MemoryType::LoaderData,
    MemoryType::BootServicesCode,
    MemoryType::BootServicesData,
    MemoryType::RuntimeServicesCode,
    MemoryType::RuntimeServicesData,
    MemoryType::Conventional,
    MemoryType::Unusable,
    MemoryType::AcpiReclaim,
    MemoryType::AcpiNonVolatile,
    MemoryType::Mmio,
    MemoryType::MmioPortSpace,
    MemoryType::PalCode,
    MemoryType::PersistentMemory,
    MemoryType::Unaccepted,
];

#[test]
fn fixed_windows_do_not_overlap() {
    assert!(K_HEAP_START < K_HEAP_END);
    assert!(K_HEAP_END <= PAGE_TABLES_ADDRESS);
    assert!(PAGE_TABLES_ADDRESS < PHYS_BITMAP_MANAGER_ADDRESS);
    // the bitmap area of 4096 sections ends below the raw memory map
    assert!(PHYS_BITMAP_MANAGER_ADDRESS + 4096 * 0x9000 <= MEM_MAP_VIRTUAL_ADDRESS);
    assert!(MEM_MAP_VIRTUAL_ADDRESS + 16 * 0x1000 <= GOP_VIRTUAL_ADDRESS);
    assert!(GOP_VIRTUAL_ADDRESS + 0x1_0000 * 0x1000 <= KERNEL_VIRTUAL_ADDRESS);
    assert_eq!(KERNEL_VIRTUAL_ADDRESS, 0xffff_ffff_8000_0000);
    assert_eq!(GOP_VIRTUAL_ADDRESS, 0xffff_fffe_f000_0000);
    assert_eq!(MEM_MAP_VIRTUAL_ADDRESS, 0xffff_fffe_e000_0000);
    assert_eq!(PHYS_BITMAP_MANAGER_ADDRESS, 0xffff_fffe_0000_0000);
}

#[test]
fn framebuffer_data_getters() {
    let fb = FramebufferData::new(0x1000, 800, 600, 832, 32, 0xff0000, 0xff00, 0xff);
    assert_eq!(fb.address(), 0x1000);
    assert_eq!(fb.width(), 800);
    assert_eq!(fb.height(), 600);
    assert_eq!(fb.pitch(), 832);
    assert_eq!(fb.bits_per_pixel(), 32);
    assert_eq!(fb.red_bitmask(), 0xff0000);
    assert_eq!(fb.green_bitmask(), 0xff00);
    assert_eq!(fb.blue_bitmask(), 0xff);
    let params = KParams {
        fb_data: fb,
        memory_map_size: 80,
        page_table_num_entries: 300,
        uefi_rs_phys_addr: 0x7000,
    };
    assert_eq!(params.fb_data.width(), 800);
}

#[test]
fn memory_map_entry_getters() {
    let entry = MemoryMapEntry::new(MemoryType::AcpiReclaim, 0xf, 0x2000, 0x3000, 4);
    assert_eq!(entry.mem_type(), MemoryType::AcpiReclaim);
    assert_eq!(entry.attributes(), 0xf);
    assert_eq!(entry.physical_addr(), 0x2000);
    assert_eq!(entry.virtual_addr(), 0x3000);
    assert_eq!(entry.num_pages(), 4);
}

#[test]
fn memory_types_and_their_numbers() {
    for (number, kind) in ALL_KINDS.iter().enumerate() {
        assert_eq!(kind.as_u32(), number as u32);
        assert_eq!(MemoryType::from(number as u32), *kind);
    }
    assert_eq!(MemoryType::Max.as_u32(), 16);
    // a number that stands for no kind reads as unusable memory
    assert_eq!(MemoryType::from(16), MemoryType::Unusable);
    assert_eq!(MemoryType::from(0x8000_0000), MemoryType::Unusable);
    assert_eq!(MemoryType::from(u32::MAX), MemoryType::Unusable);
}

#[test]
fn reclaimable_memory_types() {
    for kind in ALL_KINDS {
        let expected = matches!(
            kind,
            MemoryType::Conventional | MemoryType::BootServicesCode | MemoryType::BootServicesData
        );
        assert_eq!(kind.is_reclaimable(), expected);
    }
    assert!(!MemoryType::Max.is_reclaimable());
}

#[test]
fn memory_attribute_bits() {
    assert_eq!(memory_attributes::UNCACHEABLE, 0x1);
    assert_eq!(memory_attributes::WRITE_COMBINE, 0x2);
    assert_eq!(memory_attributes::WRITE_THROUGH, 0x4);
    assert_eq!(memory_attributes::WRITE_BACK, 0x8);
    assert_eq!(memory_attributes::UNCACHABLE_EXPORTED, 0x10);
    assert_eq!(memory_attributes::WRITE_PROTECT, 0x1000);
    assert_eq!(memory_attributes::READ_PROTECT, 0x2000);
    assert_eq!(memory_attributes::EXECUTE_PROTECT, 0x4000);
    assert_eq!(memory_attributes::NON_VOLATILE, 0x8000);
    assert_eq!(memory_attributes::MORE_RELIABLE, 0x10000);
    assert_eq!(memory_attributes::READ_ONLY, 0x20000);
    assert_eq!(memory_attributes::SPECIAL_PURPOSE, 0x40000);
    assert_eq!(memory_attributes::CPU_CRYPTO, 0x80000);
    assert_eq!(memory_attributes::RUNTIME, 1 << 63);
    assert_eq!(memory_attributes::ISA_VALID, 1 << 62);
    assert_eq!(memory_attributes::ISA_MASK, 0x0fff_f000_0000_0000);
}

#[test]
fn records_are_40_bytes_in_little_endian_order() {
    let entry = MemoryMapEntry::new(
        MemoryType::Conventional,
        0x8000_0000_0000_000f,
        0x1122_3344_5566_7788,
        0x99aa_bbcc_ddee_ff00,
        0x0102_0304,
    );
    let record = entry.to_bytes();
    assert_eq!(record.len(), ENTRY_SIZE);
    assert_eq!(&record[0..8], &[7, 0, 0, 0, 0, 0, 0, 0]);
    assert_eq!(&record[8..16], &[0x0f, 0, 0, 0, 0, 0, 0, 0x80]);
    assert_eq!(&record[16..24], &[0x88, 0x77, 0x66, 0x55, 0x44, 0x33, 0x22, 0x11]);
    assert_eq!(&record[24..32], &[0x00, 0xff, 0xee, 0xdd, 0xcc, 0xbb, 0xaa, 0x99]);
    assert_eq!(&record[32..40], &[4, 3, 2, 1, 0, 0, 0, 0]);
    assert_eq!(MemoryMapEntry::from_bytes(&record), Some(entry));
    assert_eq!(MemoryMapEntry::from_bytes(&record[..39]), None);
    // the padding is not looked at
    let mut padded = record.clone();
    padded[5] = 0xff;
    padded.push(0xaa);
    assert_eq!(MemoryMapEntry::from_bytes(&padded), Some(entry));
}

#[test]
fn records_round_trip_for_every_kind() {
    for kind in ALL_KINDS {
        let entry = MemoryMapEntry::new(kind, u64::MAX, 0x1000, 0, u64::MAX);
        assert_eq!(MemoryMapEntry::from_bytes(&entry.to_bytes()), Some(entry));
    }
    let end = MemoryMapEntry::new(MemoryType::Max, 0, 0, 0, 0);
    assert_eq!(MemoryMapEntry::from_bytes(&end.to_bytes()).unwrap().mem_type(), MemoryType::Unusable);
}

#[test]
fn raw_memory_map_is_read_record_by_record() {
    let first = MemoryMapEntry::new(MemoryType::Conventional, 0, 0, 0, 256);
    let second = MemoryMapEntry::new(MemoryType::Reserved, 0, 0x10_0000, 0, 16);
    let mut raw = first.to_bytes();
    raw.extend(second.to_bytes());
    raw.extend([0xee; 8]);
    assert_eq!(read_memory_map(&raw, 80), vec![first, second]);
    assert_eq!(read_memory_map(&raw, 88), vec![first, second]);
    assert_eq!(read_memory_map(&raw, 79), vec![first]);
    assert_eq!(read_memory_map(&raw, 39), vec![]);
    assert_eq!(read_memory_map(&raw, 0), vec![]);
    // a size beyond the bytes that are there
    assert_eq!(read_memory_map(&raw[..50], 80), vec![first]);
    assert!(is_map_size_aligned(0));
    assert!(is_map_size_aligned(80));
    assert!(!is_map_size_aligned(79));
    assert!(!is_map_size_aligned(41));
}

#[test]
fn sections_for_the_physical_memory_manager() {
    let map = |start: u64, pages: u64| vec![MemoryMapEntry::new(MemoryType::Conventional, 0, start, 0, pages)];
    assert_eq!(needed_sections(&[]), 0);
    assert_eq!(needed_sections(&map(0, 0x3_ffff)), 0);
    assert_eq!(needed_sections(&map(0, 0x4_0000)), 1);
    assert_eq!(needed_sections(&map(0x4000_0000, 0x4_0000)), 2);
    assert_eq!(needed_sections(&map(0, 0x4000_0000)), 4096);
    assert_eq!(needed_sections(&map(0, u64::MAX)), 4096);
    assert_eq!(needed_sections(&map(u64::MAX, 1)), 4096);
    let table = allocate_memory_for_pmm(&map(0x4000_0000, 0x4_0000), &[0x9000, 0x5_0000, 0x7_0000]).unwrap();
    assert_eq!(table.len(), 4096);
    assert_eq!(table[0], 0x9000);
    assert_eq!(table[1], 0x5_0000);
    assert!(table[2..].iter().all(|entry| *entry == 0));
    assert_eq!(allocate_memory_for_pmm(&map(0x4000_0000, 0x4_0000), &[0x9000]), None);
    assert_eq!(allocate_memory_for_pmm(&[], &[0x9000]), None);
    let none = allocate_memory_for_pmm(&map(0, 16), &[]).unwrap();
    assert!(none.iter().all(|entry| *entry == 0));
}

#[test]
fn pages_of_the_raw_memory_map() {
    assert_eq!(pages_for_map(0), 1);
    assert_eq!(pages_for_map(92), 1);
    assert_eq!(pages_for_map(93), 2);
    assert_eq!(pages_for_map(1000), 10);
    assert_eq!(alloc_memory_for_map(93, Some(0x5000)), Some((0x5000, 2)));
    assert_eq!(alloc_memory_for_map(93, Some(0)), None);
    assert_eq!(alloc_memory_for_map(93, None), None);
}

#[test]
fn place_of_the_kernel_image() {
    let map = vec![
        MemoryMapEntry::new(MemoryType::Conventional, 0, 0x1000, 0, 255),
        MemoryMapEntry::new(MemoryType::LoaderData, 0, 0x10_0000, 0, 1000),
        MemoryMapEntry::new(MemoryType::Conventional, 0, 0x8000_0000, 0, 256),
        MemoryMapEntry::new(MemoryType::Conventional, 0, 0x9000_0000, 0, 5000),
    ];
    assert_eq!(find_physical_region(&map), Some(0x8000_0000));
    assert_eq!(find_physical_region(&map[..2]), None);
    assert_eq!(find_physical_region(&[]), None);
}

#[test]
fn loading_of_a_segment() {
    assert_eq!(
        plan_segment(0x8000_0000, 0x2345, 0x1000, 0x2000, 0x10000),
        Some(SegmentLoad {
            dest: 0x8000_0000,
            pages: 3,
            src_offset: 0x1000,
            copy_len: 0x2000,
            zero_len: 0x345
        })
    );
    assert_eq!(plan_segment(0x8000_0000, 0x1000, 0, 0x1000, 0x1000).unwrap().pages, 2);
    assert_eq!(plan_segment(0x8000_0000, 0x1000, 0, 0x1000, 0x1000).unwrap().zero_len, 0);
    assert_eq!(plan_segment(0x8000_0000, 0x10, 0, 0x20, 0x1000).unwrap().zero_len, 0);
    assert_eq!(plan_segment(0x8000_0000, 0x1000, 1, 0x1000, 0x1000), None);
    assert_eq!(plan_segment(0x8000_0000, 0x1000, 0x2000, 0, 0x1000), None);
    assert_eq!(plan_segment(u64::MAX, 1, 0, 0, 0x1000), None);
    assert_eq!(plan_segment(u64::MAX - 1, 1, 0, 1, 0x1000).unwrap().pages, 1);
}

#[test]
fn system_config() {
    let config = SystemConfig::new(1024, 768);
    assert_eq!(config.preferred_width(), 1024);
    assert_eq!(config.preferred_height(), 768);
    let config = SystemConfig::default();
    assert_eq!(config.preferred_width(), 1920);
    assert_eq!(config.preferred_height(), 1080);
}

fn mode(width: u32, height: u32) -> ModeInfo {
    ModeInfo { width, height, stride: width, pixel_format: PixelFormat::Rgb, pixel_bitmask: None }
}

#[test]
fn nearest_graphics_mode_is_picked() {
    assert_eq!(abs(5), 5);
    assert_eq!(abs(-5), 5);
    assert_eq!(abs(0), 0);
    assert_eq!(abs(i64::MIN + 1), i64::MAX);
    let modes = vec![mode(640, 480), mode(1280, 720), mode(1920, 1080), mode(1920, 1080), mode(3840, 2160)];
    assert_eq!(set_appropriate_framebuffer(1920, 1080, &mode(800, 600), &modes), Some(2));
    assert_eq!(set_appropriate_framebuffer(1300, 700, &mode(800, 600), &modes), Some(1));
    // the mode that is set is as near as any other
    assert_eq!(set_appropriate_framebuffer(1920, 1080, &mode(1920, 1080), &modes), None);
    assert_eq!(set_appropriate_framebuffer(1920, 1080, &mode(800, 600), &[]), None);
    // width and height are taken together: what one lacks the other makes up for
    assert_eq!(set_appropriate_framebuffer(1000, 1000, &mode(640, 480), &[mode(1500, 500)]), Some(0));
    assert_eq!(set_appropriate_framebuffer(u32::MAX, u32::MAX, &mode(0, 0), &[mode(1, 0)]), Some(0));
}

#[test]
fn framebuffer_of_a_mode() {
    let rgb = ModeInfo { width: 800, height: 600, stride: 832, pixel_format: PixelFormat::Rgb, pixel_bitmask: None };
    assert_eq!(
        fb_data_from_mode_info(rgb),
        Some(FramebufferData::new(GOP_VIRTUAL_ADDRESS, 800, 600, 832, 32, 0xff0000, 0xff00, 0xff))
    );
    let bgr = ModeInfo { pixel_format: PixelFormat::Bgr, ..rgb };
    assert_eq!(
        fb_data_from_mode_info(bgr),
        Some(FramebufferData::new(GOP_VIRTUAL_ADDRESS, 800, 600, 832, 32, 0xff, 0xff00, 0xff0000))
    );
    let blt = ModeInfo { pixel_format: PixelFormat::BltOnly, ..rgb };
    assert_eq!(fb_data_from_mode_info(blt), None);
    let no_masks = ModeInfo { pixel_format: PixelFormat::Bitmask, ..rgb };
    assert_eq!(fb_data_from_mode_info(no_masks), None);
    let masks = PixelBitmask { red: 0xff0000, green: 0xff00, blue: 0xff, reserved: 0xff00_0000 };
    let bitmask = ModeInfo { pixel_format: PixelFormat::Bitmask, pixel_bitmask: Some(masks), ..rgb };
    assert_eq!(fb_data_from_mode_info(bitmask).unwrap().bits_per_pixel(), 32);
    let masks = PixelBitmask { red: 0xf800, green: 0x07e0, blue: 0x001f, reserved: 0 };
    let bitmask = ModeInfo { pixel_format: PixelFormat::Bitmask, pixel_bitmask: Some(masks), ..rgb };
    assert_eq!(fb_data_from_mode_info(bitmask).unwrap().bits_per_pixel(), 16);
    assert_eq!(fb_data_from_mode_info(bitmask).unwrap().red_bitmask(), 0xf800);
    // a mask whose highest bit has the index of the depth so far does not widen it
    let masks = PixelBitmask { red: 0x1f, green: 0x3e0, blue: 0x7c00, reserved: 0x8000 };
    let bitmask = ModeInfo { pixel_format: PixelFormat::Bitmask, pixel_bitmask: Some(masks), ..rgb };
    assert_eq!(fb_data_from_mode_info(bitmask).unwrap().bits_per_pixel(), 15);
    let masks = PixelBitmask { red: 0xff, green: 0, blue: 0xff00, reserved: 0 };
    let bitmask = ModeInfo { pixel_format: PixelFormat::Bitmask, pixel_bitmask: Some(masks), ..rgb };
    assert_eq!(fb_data_from_mode_info(bitmask), None);
}
