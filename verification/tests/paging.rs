use dog_core::arch::{is_canonical_address, is_physical_address};
use dog_core::boot_info::memory_map::{MemoryMapEntry, MemoryType};
use dog_core::boot_info::{
    GOP_VIRTUAL_ADDRESS, KERNEL_VIRTUAL_ADDRESS, MEM_MAP_VIRTUAL_ADDRESS, PAGE_TABLES_ADDRESS,
    PHYS_BITMAP_MANAGER_ADDRESS,
};
use dog_core::bootloader::paging::{
    calculate_page_table_entries, count_sections, identity_map, map_request, mmap_gop,
    mmap_kernel, mmap_page_tables, mmap_pmm_sections, mmap_raw_mem_map, setup_paging, MapRequest,
    PageTableInfo, PagingAction, PagingInputs,
};

fn sample_inputs() -> PagingInputs {
    let mut pmm_sections = vec![0u64; 4096];
    pmm_sections[0] = 0x50_0000;
    pmm_sections[1] = 0x50_9000;
    PagingInputs {
        mem_map: vec![
            MemoryMapEntry::new(MemoryType::Conventional, 0, 0, 0, 256),
            MemoryMapEntry::new(MemoryType::LoaderData, 0, 0x10_0000, 0, 3),
            MemoryMapEntry::new(MemoryType::Conventional, 0, 0x10_3000, 0, 100),
            MemoryMapEntry::new(MemoryType::Mmio, 0, 0xfe00_0000, 0, 2),
        ],
        fb_base: 0xc000_0000,
        fb_size: 0x3000,
        k_physical_address: 0x20_0000,
        raw_mem_map_physical_address: 0x30_0000,
        pmm_sections_array: 0x40_0000,
        pmm_sections,
        page_table: 0x60_0000,
    }
}

fn map(page: u64, frame: u64) -> PagingAction {
    PagingAction::MapPage(MapRequest { page, frame, flags: 3 })
}

#[test]
fn map_request_aligns_page_and_frame() {
    let req = map_request(0xffff_ffff_8000_1abc, 0x12_3fff);
    assert_eq!(req, MapRequest { page: 0xffff_ffff_8000_1000, frame: 0x12_3000, flags: 3 });
    let req = map_request(0x7fff_ffff_ffff, 0xf_ffff_ffff_ffff);
    assert_eq!(req.page, 0x7fff_ffff_f000);
    assert_eq!(req.frame, 0xf_ffff_ffff_f000);
    assert_eq!(req.flags, 3);
}

#[test]
fn addresses_that_can_be_named() {
    assert!(is_physical_address(0));
    assert!(is_physical_address(0xf_ffff_ffff_ffff));
    assert!(!is_physical_address(0x10_0000_0000_0000));
    assert!(is_canonical_address(0x7fff_ffff_ffff));
    assert!(!is_canonical_address(0x8000_0000_0000));
    assert!(!is_canonical_address(0xffff_7fff_ffff_ffff));
    assert!(is_canonical_address(0xffff_8000_0000_0000));
}

#[test]
fn page_table_info_getters() {
    let info = PageTableInfo { phys_addr: 0x1000, num_entries: 7 };
    assert_eq!(info.phys_addr(), 0x1000);
    assert_eq!(info.num_entries(), 7);
}

#[test]
fn sections_are_counted_up_to_the_first_zero() {
    assert_eq!(count_sections(&[]), 0);
    assert_eq!(count_sections(&[0, 5, 6]), 0);
    assert_eq!(count_sections(&[4, 5, 0, 6]), 2);
    assert_eq!(count_sections(&[4, 5, 6]), 3);
    assert_eq!(count_sections(&vec![1u64; 5000]), 4096);
}

#[test]
fn page_table_entries_are_counted() {
    assert_eq!(calculate_page_table_entries(0, &[]), 256 + 16);
    assert_eq!(calculate_page_table_entries(0x3000, &[1, 2, 0]), 256 + 3 + 16 + 18);
    // a framebuffer that ends inside a page counts its whole pages only
    assert_eq!(calculate_page_table_entries(0x3fff, &[1, 2, 0]), 256 + 3 + 16 + 18);
}

#[test]
fn single_mappings_of_the_windows() {
    assert_eq!(mmap_kernel(0x20_0000, 0), map(KERNEL_VIRTUAL_ADDRESS, 0x20_0000));
    assert_eq!(mmap_kernel(0x20_0000, 255), map(KERNEL_VIRTUAL_ADDRESS + 0xff000, 0x2f_f000));
    assert_eq!(mmap_gop(0xc000_0000, 0x3000, 2), map(GOP_VIRTUAL_ADDRESS + 0x2000, 0xc000_2000));
    assert_eq!(mmap_raw_mem_map(0x30_0000, 15), map(MEM_MAP_VIRTUAL_ADDRESS + 0xf000, 0x30_f000));
    assert_eq!(
        mmap_pmm_sections(&[0x50_0000, 0x70_0000, 0], 10),
        map(PHYS_BITMAP_MANAGER_ADDRESS + 0xa000, 0x70_1000)
    );
    assert_eq!(mmap_page_tables(0x60_0000, 2, 1), map(PAGE_TABLES_ADDRESS + 0x1000, 0x60_1000));
    let region = MemoryMapEntry::new(MemoryType::Mmio, 0, 0xfe00_0000, 0, 2);
    assert_eq!(identity_map(&region, 1), map(0xfe00_1000, 0xfe00_1000));
    // a region that starts inside a page is mapped by the pages that hold it
    let region = MemoryMapEntry::new(MemoryType::Reserved, 0, 0x1234, 0, 2);
    assert_eq!(identity_map(&region, 1), map(0x2000, 0x2000));
}

#[test]
fn setup_walks_through_the_whole_plan() {
    let mut setup = setup_paging(sample_inputs()).unwrap();
    let mut actions: Vec<PagingAction> = Vec::new();
    loop {
        let action = setup.next(true);
        actions.push(action);
        if matches!(action, PagingAction::Done(_) | PagingAction::Abort) {
            break;
        }
    }
    assert_eq!(actions.len(), 256 + 3 + 16 + 18 + 1 + 1 + 5 + 1);
    assert_eq!(actions[0], map(KERNEL_VIRTUAL_ADDRESS, 0x20_0000));
    assert_eq!(actions[255], map(KERNEL_VIRTUAL_ADDRESS + 0xff000, 0x2f_f000));
    assert_eq!(actions[256], map(GOP_VIRTUAL_ADDRESS, 0xc000_0000));
    assert_eq!(actions[258], map(GOP_VIRTUAL_ADDRESS + 0x2000, 0xc000_2000));
    assert_eq!(actions[259], map(MEM_MAP_VIRTUAL_ADDRESS, 0x30_0000));
    assert_eq!(actions[274], map(MEM_MAP_VIRTUAL_ADDRESS + 0xf000, 0x30_f000));
    assert_eq!(actions[275], map(PHYS_BITMAP_MANAGER_ADDRESS, 0x50_0000));
    assert_eq!(actions[283], map(PHYS_BITMAP_MANAGER_ADDRESS + 0x8000, 0x50_8000));
    assert_eq!(actions[284], map(PHYS_BITMAP_MANAGER_ADDRESS + 0x9000, 0x50_9000));
    assert_eq!(actions[292], map(PHYS_BITMAP_MANAGER_ADDRESS + 0x11000, 0x51_1000));
    assert_eq!(actions[293], PagingAction::FreePages { addr: 0x40_0000, count: 8 });
    assert_eq!(actions[294], map(PAGE_TABLES_ADDRESS, 0x60_0000));
    assert_eq!(actions[295], map(0x10_0000, 0x10_0000));
    assert_eq!(actions[297], map(0x10_2000, 0x10_2000));
    assert_eq!(actions[298], map(0xfe00_0000, 0xfe00_0000));
    assert_eq!(actions[299], map(0xfe00_1000, 0xfe00_1000));
    assert_eq!(
        actions[300],
        PagingAction::Done(PageTableInfo { phys_addr: 0x60_0000, num_entries: 293 })
    );
    // conventional memory is never mapped onto itself
    assert!(!actions.contains(&map(0, 0)));
    assert!(!actions.contains(&map(0x10_3000, 0x10_3000)));
    // behind the last step the setup is over
    assert_eq!(setup.next(true), PagingAction::Abort);
}

#[test]
fn one_failed_mapping_ends_the_setup() {
    let mut setup = setup_paging(sample_inputs()).unwrap();
    for _ in 0..10 {
        assert!(matches!(setup.next(true), PagingAction::MapPage(_)));
    }
    assert_eq!(setup.next(false), PagingAction::Abort);
    assert_eq!(setup.next(true), PagingAction::Abort);
    assert_eq!(setup.next(true), PagingAction::Abort);
}

#[test]
fn setup_without_a_section_table_frees_nothing() {
    let mut inputs = sample_inputs();
    inputs.pmm_sections_array = 0;
    inputs.pmm_sections = Vec::new();
    inputs.mem_map = Vec::new();
    inputs.fb_size = 0;
    let mut setup = setup_paging(inputs).unwrap();
    let mut count = 0;
    loop {
        match setup.next(true) {
            PagingAction::MapPage(_) => count += 1,
            PagingAction::Done(info) => {
                assert_eq!(info, PageTableInfo { phys_addr: 0x60_0000, num_entries: 272 });
                break;
            }
            other => panic!("unexpected step {:?}", other),
        }
    }
    assert_eq!(count, 256 + 16 + 1);
}

#[test]
fn framebuffer_of_more_than_65536_pages_is_refused() {
    let mut inputs = sample_inputs();
    inputs.fb_size = 0x1000_0000;
    assert!(setup_paging(inputs).is_some());
    let mut inputs = sample_inputs();
    inputs.fb_size = 0x1000_0001;
    assert!(setup_paging(inputs).is_none());
}

#[test]
fn addresses_that_cannot_be_mapped_are_refused() {
    let mut inputs = sample_inputs();
    inputs.k_physical_address = 0x10_0000_0000_0000 - 0x10_0000;
    assert!(setup_paging(inputs).is_some());
    let mut inputs = sample_inputs();
    inputs.k_physical_address = 0x10_0000_0000_0000 - 0xf_f000;
    assert!(setup_paging(inputs).is_none());
    let mut inputs = sample_inputs();
    inputs.fb_base = u64::MAX;
    assert!(setup_paging(inputs).is_none());
    let mut inputs = sample_inputs();
    inputs.raw_mem_map_physical_address = 0x10_0000_0000_0000;
    assert!(setup_paging(inputs).is_none());
    let mut inputs = sample_inputs();
    inputs.pmm_sections[1] = 0x10_0000_0000_0000;
    assert!(setup_paging(inputs).is_none());
    let mut inputs = sample_inputs();
    inputs.page_table = 0x10_0000_0000_0000;
    assert!(setup_paging(inputs).is_none());
    // a region to be mapped onto itself has to end below the upper half
    let mut inputs = sample_inputs();
    inputs.mem_map.push(MemoryMapEntry::new(MemoryType::Reserved, 0, 0x7fff_ffff_f000, 0, 1));
    assert!(setup_paging(inputs).is_some());
    let mut inputs = sample_inputs();
    inputs.mem_map.push(MemoryMapEntry::new(MemoryType::Reserved, 0, 0x7fff_ffff_f000, 0, 2));
    assert!(setup_paging(inputs).is_none());
    let mut inputs = sample_inputs();
    inputs.mem_map.push(MemoryMapEntry::new(MemoryType::Conventional, 0, 0x7fff_ffff_f000, 0, 2));
    assert!(setup_paging(inputs).is_some());
}
