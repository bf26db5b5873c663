use dog_core::boot_info::memory_map::{MemoryMapEntry, MemoryType};
use dog_core::mem_manager::bit_ops::first_free_bit;
use dog_core::mem_manager::bitmap_layout::{
    bit_of_frame, bitmap_offset, frame_address, get_tables_indices, node_of_frame, word_position,
    ARENA_WORDS,
};
use dog_core::mem_manager::pmm::{
    get_next_free_table, init_from_entries, init_from_mem_map, mark_page_free, mark_page_used,
    BitmapTree, FrameDataResumed, PageFrameAllocator,
};

/// Checks, for every word above `frame`, that each summary bit says whether
/// the word below it is all-ones.
fn consistent_above(tree: &BitmapTree, frame: u64) -> bool {
    let mut level: u8 = 2;
    while level <= 5 {
        let node = node_of_frame(level, frame);
        let word = tree.word(level, node);
        let mut bit: u64 = 0;
        while bit < 64 {
            let child = tree.word(level - 1, node * 64 + bit);
            let set = word & (1u64 << bit) != 0;
            if set != (child == u64::MAX) {
                return false;
            }
            bit += 1;
        }
        level += 1;
    }
    true
}

#[test]
fn new_tree_is_free() {
    let tree = BitmapTree::new();
    assert_eq!(tree.words().len(), ARENA_WORDS);
    assert!(tree.words().iter().all(|word| *word == 0));
    assert!(!tree.is_page_used(0));
    assert!(!tree.is_page_used(0x3ff_ffff_f000));
    assert!(tree.is_page_used(0x400_0000_0000));
}

#[test]
fn get_tables_indices_splits_the_address() {
    assert_eq!(get_tables_indices(0), [0, 0, 0, 0, 0]);
    assert_eq!(get_tables_indices(0x1000), [1, 0, 0, 0, 0]);
    assert_eq!(get_tables_indices(0x4_0000), [0, 1, 0, 0, 0]);
    assert_eq!(get_tables_indices(0x100_0000), [0, 0, 1, 0, 0]);
    assert_eq!(get_tables_indices(0x4000_0000), [0, 0, 0, 1, 0]);
    assert_eq!(get_tables_indices(0x10_0000_0000), [0, 0, 0, 0, 1]);
    assert_eq!(get_tables_indices(0x12_3456_7abc), [39, 21, 52, 8, 1]);
}

#[test]
fn boundary_of_the_tracked_range() {
    assert_eq!(get_tables_indices(0x3ff_ffff_f000), [63, 63, 63, 63, 63]);
    assert_eq!(get_tables_indices(0x3ff_ffff_ffff), [63, 63, 63, 63, 63]);
    assert_eq!(get_tables_indices(0x400_0000_0000), [0, 0, 0, 0, 0]);
    assert_eq!(get_tables_indices(0x40f_ffff_f000), [0, 0, 0, 0, 0]);
    assert_eq!(get_tables_indices(u64::MAX), [0, 0, 0, 0, 0]);
    let mut tree = BitmapTree::new();
    mark_page_used(&mut tree, 0x3ff_ffff_f000);
    assert!(tree.is_page_used(0x3ff_ffff_f000));
    assert!(!tree.is_page_used(0x3ff_ffff_e000));
    assert!(consistent_above(&tree, 0x3fff_ffff));
    mark_page_free(&mut tree, 0x3ff_ffff_f000);
    assert!(!tree.is_page_used(0x3ff_ffff_f000));
}

#[test]
fn address_beyond_the_ceiling_changes_nothing() {
    let mut tree = BitmapTree::new();
    mark_page_used(&mut tree, 0x400_0000_0000);
    mark_page_used(&mut tree, 0x500_0000_0000);
    assert!(tree.words().iter().all(|word| *word == 0));
    assert!(!tree.is_page_used(0));
    mark_page_used(&mut tree, 0);
    mark_page_free(&mut tree, 0x400_0000_0000);
    assert!(tree.is_page_used(0));
}

#[test]
fn layout_of_the_bitmap_words() {
    assert_eq!(bitmap_offset(5, &[0, 0, 0, 0, 0]), 0);
    assert_eq!(bitmap_offset(4, &[0, 0, 0, 0, 0]), 8);
    assert_eq!(bitmap_offset(4, &[0, 0, 0, 0, 2]), 8 + 2 * 0x24_0000);
    assert_eq!(bitmap_offset(3, &[0, 0, 0, 3, 2]), 16 + 2 * 0x24_0000 + 3 * 0x9000);
    assert_eq!(bitmap_offset(2, &[0, 0, 4, 3, 2]), 24 + 2 * 0x24_0000 + 3 * 0x9000 + 4 * 0x208);
    assert_eq!(
        bitmap_offset(1, &[0, 5, 4, 3, 2]),
        32 + 2 * 0x24_0000 + 3 * 0x9000 + 4 * 0x208 + 5 * 8
    );
    assert_eq!(bitmap_offset(1, &[9, 63, 63, 63, 63]) / 8, 18873922);
    assert!(18873922 < ARENA_WORDS);
    assert_eq!(word_position(5, 0), 0);
    assert_eq!(word_position(4, 63), 1 + 63 * 294912);
    assert_eq!(word_position(1, 16777215), 4 + 63 * 294912 + 63 * 4608 + 63 * 65 + 63);
    assert_eq!(frame_address(&[39, 21, 52, 8, 1]), 0x12_3456_7000);
    assert_eq!(node_of_frame(1, 0x123), 4);
    assert_eq!(bit_of_frame(1, 0x123), 0x23);
    assert_eq!(node_of_frame(2, 4096), 1);
    assert_eq!(bit_of_frame(2, 4096 + 64), 1);
}

#[test]
fn leaf_and_next_summary_do_not_share_a_word() {
    // the last leaf below one level-2 word and the next level-2 word
    let leaf = bitmap_offset(1, &[0, 63, 0, 0, 0]);
    let next = bitmap_offset(2, &[0, 0, 1, 0, 0]);
    assert_eq!(leaf, 32 + 63 * 8);
    assert_eq!(next, 24 + 0x208);
    assert!(leaf < next);
}

#[test]
fn first_free_bit_finds_the_lowest_clear_bit() {
    assert_eq!(first_free_bit(0, 0), 0);
    assert_eq!(first_free_bit(0b1011, 0), 2);
    assert_eq!(first_free_bit(0b1011, 3), 4);
    assert_eq!(first_free_bit(u64::MAX, 0), 64);
    assert_eq!(first_free_bit(u64::MAX >> 1, 0), 63);
    assert_eq!(first_free_bit(0, 64), 64);
    assert_eq!(first_free_bit(0, 200), 64);
}

#[test]
fn mark_used_cascades_when_a_word_fills() {
    let mut tree = BitmapTree::new();
    for frame in 0..63u64 {
        mark_page_used(&mut tree, frame * 0x1000);
    }
    assert_eq!(tree.word(1, 0), u64::MAX >> 1);
    assert_eq!(tree.word(2, 0), 0);
    mark_page_used(&mut tree, 63 * 0x1000);
    assert_eq!(tree.word(1, 0), u64::MAX);
    assert_eq!(tree.word(2, 0), 1);
    assert_eq!(tree.word(3, 0), 0);
    assert!(consistent_above(&tree, 0));
    // marking a frame in a region that is partly used does not touch the summaries
    mark_page_used(&mut tree, 64 * 0x1000);
    assert_eq!(tree.word(1, 1), 1);
    assert_eq!(tree.word(2, 0), 1);
    assert!(consistent_above(&tree, 64));
}

#[test]
fn mark_used_cascades_to_the_root() {
    let mut tree = BitmapTree::new();
    // 64 GiB: the whole first group
    let frames: u64 = 64 * 64 * 64 * 64;
    for frame in 0..frames {
        mark_page_used(&mut tree, frame * 0x1000);
    }
    assert_eq!(tree.word(4, 0), u64::MAX);
    assert_eq!(tree.word(5, 0), 1);
    assert!(consistent_above(&tree, 0));
    mark_page_free(&mut tree, 0x1234_5000);
    assert_eq!(tree.word(5, 0), 0);
    assert_eq!(tree.word(4, 0), u64::MAX & !1);
    assert!(consistent_above(&tree, 0x12345));
}

#[test]
fn mark_free_mirrors_mark_used() {
    let mut tree = BitmapTree::new();
    for frame in 0..64u64 {
        mark_page_used(&mut tree, frame * 0x1000);
    }
    mark_page_free(&mut tree, 5 * 0x1000);
    assert_eq!(tree.word(1, 0), u64::MAX & !(1 << 5));
    assert_eq!(tree.word(2, 0), 0);
    assert!(!tree.is_page_used(5 * 0x1000));
    assert!(tree.is_page_used(6 * 0x1000));
    assert!(consistent_above(&tree, 5));
    PageFrameAllocator::mark_page_free(&mut tree, 6 * 0x1000);
    assert!(!tree.is_page_used(6 * 0x1000));
}

#[test]
fn tree_stays_consistent_under_random_marks() {
    let mut tree = BitmapTree::new();
    let mut seed: u64 = 0x2545_f491_4f6c_dd1d;
    // a small range, so that words fill up and empty again
    for _ in 0..20000 {
        seed ^= seed << 13;
        seed ^= seed >> 7;
        seed ^= seed << 17;
        let frame = (seed >> 20) % 192;
        if seed & 3 == 0 {
            mark_page_free(&mut tree, frame * 0x1000);
            assert!(!tree.is_page_used(frame * 0x1000));
        } else {
            mark_page_used(&mut tree, frame * 0x1000);
            assert!(tree.is_page_used(frame * 0x1000));
        }
        assert!(consistent_above(&tree, frame));
    }
}

#[test]
fn used_then_free_restores_the_tree() {
    let mut tree = BitmapTree::new();
    for frame in 0..200u64 {
        if frame != 77 {
            mark_page_used(&mut tree, frame * 0x1000);
        }
    }
    mark_page_used(&mut tree, 0x3_0000_0000);
    let before = tree.words().clone();
    // frame 77 is the last free one of its word: marking it cascades
    mark_page_used(&mut tree, 77 * 0x1000);
    assert_ne!(*tree.words(), before);
    assert_eq!(tree.word(2, 0), 0b111);
    mark_page_free(&mut tree, 77 * 0x1000);
    assert_eq!(*tree.words(), before);
    // and a frame in an empty region
    mark_page_used(&mut tree, 0x20_0000_0000);
    mark_page_free(&mut tree, 0x20_0000_0000);
    assert_eq!(*tree.words(), before);
}

#[test]
fn next_hands_out_distinct_frames() {
    let mut tree = BitmapTree::new();
    mark_page_used(&mut tree, 0x1000);
    let mut allocator = PageFrameAllocator::new();
    let mut seen: Vec<u64> = Vec::new();
    for _ in 0..300 {
        let addr = allocator.next(&mut tree).unwrap();
        assert_eq!(addr % 0x1000, 0);
        assert_ne!(addr, 0x1000);
        assert!(!seen.contains(&addr));
        assert!(tree.is_page_used(addr));
        seen.push(addr);
    }
    assert_eq!(seen[0], 0);
    assert_eq!(seen[1], 0x2000);
    assert_eq!(seen[2], 0x3000);
    assert_eq!(seen[299], 300 * 0x1000);
    assert!(consistent_above(&tree, 0));
}

#[test]
fn next_takes_the_lowest_frame_near_the_cursor() {
    let mut tree = BitmapTree::new();
    let mut allocator = PageFrameAllocator::new();
    for expected in 0..70u64 {
        assert_eq!(allocator.next(&mut tree), Some(expected * 0x1000));
    }
    // the cursor stands at the second leaf word; a frame freed in the first is
    // farther from it than the free frames of the second
    mark_page_free(&mut tree, 3 * 0x1000);
    assert_eq!(allocator.next(&mut tree), Some(70 * 0x1000));
    // a frame freed in the cursor's own word is the nearest
    mark_page_free(&mut tree, 65 * 0x1000);
    assert_eq!(allocator.next(&mut tree), Some(65 * 0x1000));
    // a new cursor starts at the root
    let mut fresh = PageFrameAllocator::new();
    assert_eq!(fresh.next(&mut tree), Some(3 * 0x1000));
    assert_eq!(fresh.next(&mut tree), Some(71 * 0x1000));
}

#[test]
fn next_climbs_when_its_region_is_full() {
    let mut tree = BitmapTree::new();
    let mut allocator = PageFrameAllocator::new();
    assert_eq!(allocator.next(&mut tree), Some(0));
    // fill the rest of the first level-2 region behind the cursor's back
    for frame in 1..4096u64 {
        mark_page_used(&mut tree, frame * 0x1000);
    }
    assert_eq!(allocator.next(&mut tree), Some(4096 * 0x1000));
}

#[test]
fn next_reports_the_end_of_memory() {
    let mut tree = BitmapTree::new();
    let entries = vec![MemoryMapEntry::new(MemoryType::Conventional, 0, 0, 0, 3)];
    init_from_entries(&mut tree, &entries);
    let mut allocator = PageFrameAllocator::new();
    assert_eq!(allocator.next(&mut tree), Some(0));
    assert_eq!(allocator.next(&mut tree), Some(0x1000));
    assert_eq!(allocator.next(&mut tree), Some(0x2000));
    let full = tree.words().clone();
    assert_eq!(allocator.next(&mut tree), None);
    assert_eq!(allocator.next(&mut tree), None);
    assert_eq!(*tree.words(), full);
    assert_eq!(tree.word(5, 0), u64::MAX);
}

#[test]
fn get_next_free_table_names_the_child_bitmap() {
    let mut tree = BitmapTree::new();
    let root = FrameDataResumed { current_level: 5, idx_in_bitmap: 0, bitmap_virt_addr: 0 };
    assert_eq!(get_next_free_table(&tree, &root), 8);
    let later = FrameDataResumed { current_level: 5, idx_in_bitmap: 3, bitmap_virt_addr: 0 };
    assert_eq!(get_next_free_table(&tree, &later), 8 + 3 * 0x24_0000);
    let section = FrameDataResumed { current_level: 4, idx_in_bitmap: 2, bitmap_virt_addr: 8 };
    assert_eq!(get_next_free_table(&tree, &section), 16 + 2 * 0x9000);
    let block = FrameDataResumed { current_level: 3, idx_in_bitmap: 0, bitmap_virt_addr: 16 };
    assert_eq!(get_next_free_table(&tree, &block), 24);
    let leaf = FrameDataResumed { current_level: 2, idx_in_bitmap: 1, bitmap_virt_addr: 24 };
    assert_eq!(get_next_free_table(&tree, &leaf), 32 + 8);
    let lowest = FrameDataResumed { current_level: 1, idx_in_bitmap: 0, bitmap_virt_addr: 32 };
    assert_eq!(get_next_free_table(&tree, &lowest), 0);
    for frame in 0..64u64 {
        mark_page_used(&mut tree, frame * 0x1000);
    }
    let skip = FrameDataResumed { current_level: 2, idx_in_bitmap: 0, bitmap_virt_addr: 24 };
    assert_eq!(get_next_free_table(&tree, &skip), 32 + 8);
    let end = FrameDataResumed { current_level: 2, idx_in_bitmap: 64, bitmap_virt_addr: 24 };
    assert_eq!(get_next_free_table(&tree, &end), 0);
}

#[test]
fn contiguous_frames_in_a_free_word() {
    let mut tree = BitmapTree::new();
    mark_page_used(&mut tree, 0);
    let allocator = PageFrameAllocator::new();
    let start = allocator.get_continuous_frames(&mut tree, 5).unwrap();
    assert_eq!(start, 0x1000);
    for i in 0..5u64 {
        assert!(tree.is_page_used(start + i * 0x1000));
    }
    assert!(!tree.is_page_used(start + 5 * 0x1000));
    // a whole word
    let start = allocator.get_continuous_frames(&mut tree, 64).unwrap();
    assert_eq!(start, 6 * 0x1000);
    assert!(tree.is_page_used(69 * 0x1000));
    assert!(!tree.is_page_used(70 * 0x1000));
    assert!(consistent_above(&tree, 0));
    assert!(consistent_above(&tree, 64));
}

#[test]
fn contiguous_frames_skip_runs_that_are_too_short() {
    let mut tree = BitmapTree::new();
    // free runs: [0, 3), [4, 10), [11, ...)
    mark_page_used(&mut tree, 3 * 0x1000);
    mark_page_used(&mut tree, 10 * 0x1000);
    let allocator = PageFrameAllocator::new();
    assert_eq!(allocator.get_continuous_frames(&mut tree, 4), Some(4 * 0x1000));
    assert_eq!(allocator.get_continuous_frames(&mut tree, 3), Some(0));
    assert_eq!(allocator.get_continuous_frames(&mut tree, 2), Some(8 * 0x1000));
    assert_eq!(allocator.get_continuous_frames(&mut tree, 1), Some(11 * 0x1000));
}

#[test]
fn contiguous_frames_cross_word_boundaries() {
    let mut tree = BitmapTree::new();
    for frame in 0..60u64 {
        mark_page_used(&mut tree, frame * 0x1000);
    }
    let allocator = PageFrameAllocator::new();
    // four frames are left in the first word: the run goes on in the second
    assert_eq!(allocator.get_continuous_frames(&mut tree, 10), Some(60 * 0x1000));
    assert_eq!(tree.word(1, 0), u64::MAX);
    assert_eq!(tree.word(1, 1), 0b11_1111);
    assert_eq!(tree.word(2, 0), 1);
    // and across a level-2 boundary
    for frame in 70..4090u64 {
        mark_page_used(&mut tree, frame * 0x1000);
    }
    assert_eq!(allocator.get_continuous_frames(&mut tree, 100), Some(4090 * 0x1000));
    assert!(tree.is_page_used(4189 * 0x1000));
    assert!(!tree.is_page_used(4190 * 0x1000));
    assert!(consistent_above(&tree, 4095));
    assert!(consistent_above(&tree, 4096));
}

#[test]
fn contiguous_frames_fail_without_side_effects() {
    let mut tree = BitmapTree::new();
    let entries = vec![MemoryMapEntry::new(MemoryType::Conventional, 0, 0, 0, 256)];
    init_from_entries(&mut tree, &entries);
    mark_page_used(&mut tree, 100 * 0x1000);
    let before = tree.words().clone();
    let allocator = PageFrameAllocator::new();
    assert_eq!(allocator.get_continuous_frames(&mut tree, 200), None);
    assert_eq!(allocator.get_continuous_frames(&mut tree, 156), None);
    assert_eq!(allocator.get_continuous_frames(&mut tree, 0), None);
    assert_eq!(allocator.get_continuous_frames(&mut tree, u64::MAX), None);
    assert_eq!(*tree.words(), before);
    assert_eq!(allocator.get_continuous_frames(&mut tree, 155), Some(101 * 0x1000));
}

#[test]
fn init_from_map_marks_reserved_frames() {
    let mut tree = BitmapTree::new();
    let entries = vec![
        MemoryMapEntry::new(MemoryType::Conventional, 0, 0, 0, 256),
        MemoryMapEntry::new(MemoryType::Reserved, 0, 0x100000, 0, 16),
    ];
    init_from_entries(&mut tree, &entries);
    let mut addr: u64 = 0;
    while addr < 0x100000 {
        assert!(!tree.is_page_used(addr));
        addr += 0x1000;
    }
    while addr < 0x110000 {
        assert!(tree.is_page_used(addr));
        addr += 0x1000;
    }
    // beyond the end of memory everything reads as used
    assert!(tree.is_page_used(0x110000));
    assert!(tree.is_page_used(0x4000_0000));
    assert!(tree.is_page_used(0x3ff_ffff_f000));
    assert!(consistent_above(&tree, 0));
    assert!(consistent_above(&tree, 0x110));
    assert!(consistent_above(&tree, 0x3fff_ffff));
    assert_eq!(tree.word(5, 0), u64::MAX & !1);
}

#[test]
fn init_treats_boot_services_memory_as_free() {
    let mut tree = BitmapTree::new();
    let entries = vec![
        MemoryMapEntry::new(MemoryType::BootServicesCode, 0, 0, 0, 2),
        MemoryMapEntry::new(MemoryType::BootServicesData, 0, 0x2000, 0, 2),
        MemoryMapEntry::new(MemoryType::LoaderData, 0, 0x4000, 0, 2),
        MemoryMapEntry::new(MemoryType::RuntimeServicesData, 0, 0x6000, 0, 1),
        MemoryMapEntry::new(MemoryType::Conventional, 0, 0x7000, 0, 9),
    ];
    init_from_entries(&mut tree, &entries);
    let used: Vec<bool> = (0..17u64).map(|frame| tree.is_page_used(frame * 0x1000)).collect();
    assert_eq!(
        used,
        vec![
            false, false, false, false, true, true, true, false, false, false, false, false, false,
            false, false, false, true
        ]
    );
}

#[test]
fn init_with_an_empty_map_leaves_no_memory() {
    let mut tree = BitmapTree::new();
    init_from_entries(&mut tree, &[]);
    assert!(tree.is_page_used(0));
    assert_eq!(tree.word(5, 0), u64::MAX);
    let mut allocator = PageFrameAllocator::new();
    assert_eq!(allocator.next(&mut tree), None);
}

#[test]
fn init_from_the_raw_memory_map() {
    let mut raw: Vec<u8> = Vec::new();
    raw.extend(MemoryMapEntry::new(MemoryType::Conventional, 0xf, 0, 0, 256).to_bytes());
    raw.extend(MemoryMapEntry::new(MemoryType::Reserved, 0, 0x100000, 0, 16).to_bytes());
    assert_eq!(raw.len(), 80);
    let mut tree = BitmapTree::new();
    assert!(init_from_mem_map(&mut tree, &raw, 80));
    assert!(!tree.is_page_used(0xff000));
    assert!(tree.is_page_used(0x100000));
    assert!(tree.is_page_used(0x110000));
    // a size that is no whole number of records is reported; the rest is left out
    let mut tree = BitmapTree::new();
    assert!(!init_from_mem_map(&mut tree, &raw, 79));
    assert!(!tree.is_page_used(0xff000));
    assert!(tree.is_page_used(0x100000));
    assert!(tree.is_page_used(0x10f000));
}
