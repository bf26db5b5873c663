//! The page-table builder of the boot stage.
//!
//! The builder decides what has to be mapped and in which order; the caller
//! owns the page table and the firmware and carries each step out. A
//! `PagingSetup` is the list of steps for one set of inputs: the kernel
//! image, the framebuffer, the raw memory map, the sections of the physical
//! memory manager's bitmap and the page table's own frames, each in its
//! fixed virtual window, and then every region of the firmware's memory map
//! that is not conventional memory, mapped onto itself. The caller asks for
//! one step at a time and reports whether the step before succeeded; the
//! first failure ends the setup with no page table produced.

use crate::arch::{
    align_down, frame_containing, is_canonical, page_containing, present_writable_flags,
    PHYS_ADDR_LIMIT,
};
use crate::boot_info::memory_map::{MemoryMapEntry, MemoryType};
use crate::boot_info::{
    GOP_VIRTUAL_ADDRESS, KERNEL_VIRTUAL_ADDRESS, MEM_MAP_VIRTUAL_ADDRESS, PAGE_TABLES_ADDRESS,
    PHYS_BITMAP_MANAGER_ADDRESS,
};
use vstd::prelude::*;

verus! {

/// Size of the window that the kernel image is mapped into: 1 MiB.
pub const KERNEL_SIZE: u64 = 0x10_0000;

/// Number of pages of the kernel window.
pub const KERNEL_PAGES: u64 = 256;

/// Number of pages of the window of the raw memory map.
pub const MEM_MAP_NEEDED_PAGES: u64 = 16;

/// The most pages that a framebuffer may take.
pub const MAX_FRAMEBUFFER_PAGES: u64 = 0x1_0000;

/// The most entries that the bitmap section table can hold.
pub const MAX_PMM_SECTIONS: usize = 4096;

/// Number of pages of one section of the bitmap: 36 KiB.
pub const PAGES_PER_SECTION: u64 = 9;

/// Number of pages that the bitmap section table itself takes.
pub const SECTION_TABLE_PAGES: u64 = 8;

/// First address that cannot be mapped onto itself: an identity mapping
/// needs an address that is both physical and canonical.
pub const IDENTITY_LIMIT: u64 = 0x8000_0000_0000;

/// Where the finished page table is and how many entries it has.
#[derive(Debug, Copy, Clone, PartialEq, Eq, Structural)]
pub struct PageTableInfo {
    /// Physical address of the page table; what the control register gets.
    pub phys_addr: u64,
    /// Number of entries of the page table.
    pub num_entries: u64,
}

impl PageTableInfo {
    /// Physical address of the page table.
    pub fn phys_addr(&self) -> (value: u64)
        ensures
            value == self.phys_addr,
    {
        self.phys_addr
    }

    /// Number of entries of the page table.
    pub fn num_entries(&self) -> (value: u64)
        ensures
            value == self.num_entries,
    {
        self.num_entries
    }
}

/// One 4 KiB mapping to make: the page that starts at `page` goes to the
/// frame that starts at `frame`, with the page-table flags `flags`.
#[derive(Debug, Copy, Clone, PartialEq, Eq, Structural)]
pub struct MapRequest {
    /// Start address of the virtual page.
    pub page: u64,
    /// Start address of the physical frame.
    pub frame: u64,
    /// The page-table flags of the mapping.
    pub flags: u64,
}

/// One step of the setup, for the caller to carry out.
#[derive(Debug, Copy, Clone, PartialEq, Eq, Structural)]
pub enum PagingAction {
    /// Make this mapping.
    MapPage(MapRequest),
    /// Return `count` pages from `addr` on to the firmware; whether that
    /// works does not matter to the setup.
    FreePages { addr: u64, count: u64 },
    /// Every mapping is made: the page table is ready.
    Done(PageTableInfo),
    /// A step failed, or the setup is over: no page table is produced.
    Abort,
}

/// The request that maps the page of `virt` to the frame of `phys`,
/// present and writable.
pub open spec fn request(virt: int, phys: int) -> MapRequest {
    MapRequest { page: align_down(virt) as u64, frame: align_down(phys) as u64, flags: 3 }
}

/// The request that maps the page of `virt` to the frame of `phys`, present
/// and writable.
pub fn map_request(virt: u64, phys: u64) -> (req: MapRequest)
    requires
        is_canonical(virt),
        phys < PHYS_ADDR_LIMIT,
    ensures
        req == request(virt as int, phys as int),
{
    MapRequest {
        page: page_containing(virt),
        frame: frame_containing(phys),
        flags: present_writable_flags(),
    }
}

/// Number of sections that the bitmap section table `table` names from
/// index `from` on: its entries up to the first zero, the end of the table
/// or the 4096th entry.
pub open spec fn sections_from(table: Seq<u64>, from: int) -> int
    decreases table.len() - from,
{
    if 0 <= from < table.len() && from < MAX_PMM_SECTIONS && table[from] != 0 {
        1 + sections_from(table, from + 1)
    } else {
        0
    }
}

/// Number of sections that the bitmap section table `table` names.
pub open spec fn section_count(table: Seq<u64>) -> int {
    sections_from(table, 0)
}

/// The entries that `sections_from` counts are not zero, and there are no
/// more of them than the table can hold.
pub proof fn lemma_sections_from(table: Seq<u64>, from: int)
    requires
        0 <= from,
    ensures
        0 <= sections_from(table, from),
        from + sections_from(table, from) <= table.len() || sections_from(table, from) == 0,
        from + sections_from(table, from) <= MAX_PMM_SECTIONS || sections_from(table, from) == 0,
        forall|k: int| from <= k < from + sections_from(table, from) ==> table[k] != 0,
    decreases table.len() - from,
{
    if from < table.len() && from < MAX_PMM_SECTIONS && table[from] != 0 {
        lemma_sections_from(table, from + 1);
    }
}

/// Counts the sections that the bitmap section table names: its entries up
/// to the first zero, at most 4096.
pub fn count_sections(pmm_sections: &[u64]) -> (count: usize)
    ensures
        count == section_count(pmm_sections@),
        count <= MAX_PMM_SECTIONS,
        count <= pmm_sections@.len(),
        forall|k: int| 0 <= k < count ==> pmm_sections[k] != 0,
{
    let mut i: usize = 0;
    proof {
        lemma_sections_from(pmm_sections@, 0);
    }
    while i < pmm_sections.len() && i < MAX_PMM_SECTIONS && pmm_sections[i] != 0
        invariant
            i <= pmm_sections@.len(),
            i <= MAX_PMM_SECTIONS,
            section_count(pmm_sections@) == i + sections_from(pmm_sections@, i as int),
        decreases pmm_sections@.len() - i,
    {
        i = i + 1;
    }
    i
}

/// Number of pages that a framebuffer of `size` bytes takes.
pub open spec fn framebuffer_pages(size: u64) -> int {
    (size + 0xfff) / 0x1000
}

/// The number of entries that the page table needs for the fixed windows:
/// one for each page of the kernel window, of the framebuffer, of the raw
/// memory map and of the bitmap sections that `pmm_sections` names.
pub open spec fn page_table_entries(fb_size: u64, pmm_sections: Seq<u64>) -> int {
    KERNEL_PAGES + fb_size / 0x1000 + MEM_MAP_NEEDED_PAGES + PAGES_PER_SECTION * section_count(
        pmm_sections,
    )
}

/// Returns the number of entries that the page table itself needs.
pub fn calculate_page_table_entries(fb_size: u64, pmm_sections: &[u64]) -> (entries: usize)
    requires
        page_table_entries(fb_size, pmm_sections@) <= usize::MAX,
    ensures
        entries == page_table_entries(fb_size, pmm_sections@),
{
    let sections: usize = count_sections(pmm_sections);
    let pmm_needed_pages: u64 = sections as u64 * 9;
    let page_count: u64 = KERNEL_SIZE / 0x1000 + fb_size / 0x1000 + MEM_MAP_NEEDED_PAGES
        + pmm_needed_pages;
    page_count as usize
}

/// Number of frames that a page table of `entries` entries takes, at 512
/// entries to the frame.
pub open spec fn table_frames(entries: int) -> int {
    (entries + 511) / 512
}

/// The mappings of the kernel window: 256 pages from the kernel's fixed
/// virtual address to the 256 frames from `k_physical_address`.
pub open spec fn kernel_plan(k_physical_address: u64) -> Seq<PagingAction> {
    Seq::new(
        KERNEL_PAGES as nat,
        |i: int|
            PagingAction::MapPage(
                request(KERNEL_VIRTUAL_ADDRESS + i * 0x1000, k_physical_address + i * 0x1000),
            ),
    )
}

/// The mappings of the framebuffer window.
pub open spec fn framebuffer_plan(fb_base: u64, fb_size: u64) -> Seq<PagingAction> {
    Seq::new(
        framebuffer_pages(fb_size) as nat,
        |i: int| PagingAction::MapPage(request(GOP_VIRTUAL_ADDRESS + i * 0x1000, fb_base + i * 0x1000)),
    )
}

/// The mappings of the window of the raw memory map: 16 pages.
pub open spec fn mem_map_plan(raw_mem_map_physical_address: u64) -> Seq<PagingAction> {
    Seq::new(
        MEM_MAP_NEEDED_PAGES as nat,
        |i: int|
            PagingAction::MapPage(
                request(
                    MEM_MAP_VIRTUAL_ADDRESS + i * 0x1000,
                    raw_mem_map_physical_address + i * 0x1000,
                ),
            ),
    )
}

/// The mappings of the bitmap sections: the nine pages of section `k` go to
/// the `k`-th slot of nine pages in the window of the bitmap area.
pub open spec fn sections_plan(pmm_sections: Seq<u64>) -> Seq<PagingAction> {
    Seq::new(
        (PAGES_PER_SECTION * section_count(pmm_sections)) as nat,
        |i: int|
            PagingAction::MapPage(
                request(
                    PHYS_BITMAP_MANAGER_ADDRESS + i * 0x1000,
                    pmm_sections[i / 9] + (i % 9) * 0x1000,
                ),
            ),
    )
}

/// Once its sections are mapped, the section table goes back to the
/// firmware, unless there is none.
pub open spec fn release_plan(pmm_sections_array: u64) -> Seq<PagingAction> {
    if pmm_sections_array != 0 {
        seq![PagingAction::FreePages { addr: pmm_sections_array, count: SECTION_TABLE_PAGES }]
    } else {
        Seq::empty()
    }
}

/// The mappings of the page table's own frames.
pub open spec fn tables_plan(table_phys: u64, frames: int) -> Seq<PagingAction> {
    Seq::new(
        frames as nat,
        |i: int|
            PagingAction::MapPage(request(PAGE_TABLES_ADDRESS + i * 0x1000, table_phys + i * 0x1000)),
    )
}

/// The identity mappings of one region of the firmware's memory map: none
/// for conventional memory, one for each page of any other region.
pub open spec fn region_plan(region: MemoryMapEntry) -> Seq<PagingAction> {
    if region.mem_type == MemoryType::Conventional {
        Seq::empty()
    } else {
        Seq::new(
            region.num_pages as nat,
            |i: int|
                PagingAction::MapPage(
                    request(region.physical_addr + i * 0x1000, region.physical_addr + i * 0x1000),
                ),
        )
    }
}

/// The identity mappings of the first `count` regions, region by region.
pub open spec fn identity_plan(regions: Seq<MemoryMapEntry>, count: int) -> Seq<PagingAction>
    decreases count,
{
    if count <= 0 {
        Seq::empty()
    } else {
        identity_plan(regions, count - 1) + region_plan(regions[count - 1])
    }
}

/// What a setup is made from.
pub struct PagingInputs {
    /// The firmware's memory map.
    pub mem_map: Vec<MemoryMapEntry>,
    /// Physical address of the framebuffer.
    pub fb_base: u64,
    /// Size of the framebuffer in bytes.
    pub fb_size: u64,
    /// Physical address that the kernel image was loaded at.
    pub k_physical_address: u64,
    /// Physical address of the raw memory map.
    pub raw_mem_map_physical_address: u64,
    /// Physical address of the bitmap section table, 0 if there is none.
    pub pmm_sections_array: u64,
    /// The entries of the bitmap section table.
    pub pmm_sections: Vec<u64>,
    /// Physical address of the frames that were set aside for the page
    /// table.
    pub page_table: u64,
}

impl PagingInputs {
    /// Number of entries of the page table.
    pub open spec fn entries(&self) -> int {
        page_table_entries(self.fb_size, self.pmm_sections@)
    }

    /// Whether every address that the setup has to name exists: the physical
    /// ones have no more than 52 bits, the framebuffer has no more than
    /// 65536 pages, and the regions to be mapped onto themselves end below
    /// the upper half of the address space.
    pub open spec fn valid(&self) -> bool {
        &&& self.k_physical_address + KERNEL_SIZE <= PHYS_ADDR_LIMIT
        &&& framebuffer_pages(self.fb_size) <= MAX_FRAMEBUFFER_PAGES
        &&& self.fb_base + framebuffer_pages(self.fb_size) * 0x1000 <= PHYS_ADDR_LIMIT
        &&& self.raw_mem_map_physical_address + MEM_MAP_NEEDED_PAGES * 0x1000 <= PHYS_ADDR_LIMIT
        &&& forall|k: int|
            0 <= k < section_count(self.pmm_sections@) ==> #[trigger] self.pmm_sections[k]
                + PAGES_PER_SECTION * 0x1000 <= PHYS_ADDR_LIMIT
        &&& self.page_table + table_frames(self.entries()) * 0x1000 <= PHYS_ADDR_LIMIT
        &&& forall|k: int|
            0 <= k < self.mem_map@.len() && (#[trigger] self.mem_map[k]).mem_type
                != MemoryType::Conventional ==> self.mem_map[k].physical_addr
                + self.mem_map[k].num_pages * 0x1000 <= IDENTITY_LIMIT
    }

    /// Every step of the setup in order, up to and with the one that hands
    /// out the finished page table.
    pub open spec fn plan(&self) -> Seq<PagingAction> {
        kernel_plan(self.k_physical_address) + framebuffer_plan(self.fb_base, self.fb_size)
            + mem_map_plan(self.raw_mem_map_physical_address) + sections_plan(self.pmm_sections@)
            + release_plan(self.pmm_sections_array) + tables_plan(
            self.page_table,
            table_frames(self.entries()),
        ) + identity_plan(self.mem_map@, self.mem_map@.len() as int) + seq![
            PagingAction::Done(
                PageTableInfo { phys_addr: self.page_table, num_entries: self.entries() as u64 },
            ),
        ]
    }
}

/// The `i`-th mapping of the kernel window.
pub fn mmap_kernel(k_physical_address: u64, i: u64) -> (action: PagingAction)
    requires
        i < KERNEL_PAGES,
        k_physical_address + KERNEL_SIZE <= PHYS_ADDR_LIMIT,
    ensures
        action == kernel_plan(k_physical_address)[i as int],
{
    PagingAction::MapPage(
        map_request(KERNEL_VIRTUAL_ADDRESS + i * 0x1000, k_physical_address + i * 0x1000),
    )
}

/// The `i`-th mapping of the framebuffer window.
pub fn mmap_gop(fb_base: u64, fb_size: u64, i: u64) -> (action: PagingAction)
    requires
        i < framebuffer_pages(fb_size) <= MAX_FRAMEBUFFER_PAGES,
        fb_base + framebuffer_pages(fb_size) * 0x1000 <= PHYS_ADDR_LIMIT,
    ensures
        action == framebuffer_plan(fb_base, fb_size)[i as int],
{
    PagingAction::MapPage(map_request(GOP_VIRTUAL_ADDRESS + i * 0x1000, fb_base + i * 0x1000))
}

/// The `i`-th mapping of the window of the raw memory map.
pub fn mmap_raw_mem_map(raw_mem_map_physical_address: u64, i: u64) -> (action: PagingAction)
    requires
        i < MEM_MAP_NEEDED_PAGES,
        raw_mem_map_physical_address + MEM_MAP_NEEDED_PAGES * 0x1000 <= PHYS_ADDR_LIMIT,
    ensures
        action == mem_map_plan(raw_mem_map_physical_address)[i as int],
{
    PagingAction::MapPage(
        map_request(MEM_MAP_VIRTUAL_ADDRESS + i * 0x1000, raw_mem_map_physical_address + i * 0x1000),
    )
}

/// The `i`-th mapping of the bitmap sections: page `i % 9` of section
/// `i / 9`.
pub fn mmap_pmm_sections(pmm_sections: &[u64], i: u64) -> (action: PagingAction)
    requires
        i < PAGES_PER_SECTION * section_count(pmm_sections@),
        pmm_sections[i as int / 9] + PAGES_PER_SECTION * 0x1000 <= PHYS_ADDR_LIMIT,
    ensures
        action == sections_plan(pmm_sections@)[i as int],
{
    proof {
        lemma_sections_from(pmm_sections@, 0);
    }
    let section: u64 = pmm_sections[(i / 9) as usize];
    PagingAction::MapPage(
        map_request(PHYS_BITMAP_MANAGER_ADDRESS + i * 0x1000, section + (i % 9) * 0x1000),
    )
}

/// The `i`-th mapping of the page table's own frames.
pub fn mmap_page_tables(table_phys: u64, frames: u64, i: u64) -> (action: PagingAction)
    requires
        i < frames,
        frames <= 0x10_0000,
        table_phys + frames * 0x1000 <= PHYS_ADDR_LIMIT,
    ensures
        action == tables_plan(table_phys, frames as int)[i as int],
{
    PagingAction::MapPage(map_request(PAGE_TABLES_ADDRESS + i * 0x1000, table_phys + i * 0x1000))
}

/// The `i`-th identity mapping of a region that is not conventional memory.
pub fn identity_map(region: &MemoryMapEntry, i: u64) -> (action: PagingAction)
    requires
        region.mem_type != MemoryType::Conventional,
        i < region.num_pages,
        region.physical_addr + region.num_pages * 0x1000 <= IDENTITY_LIMIT,
    ensures
        action == region_plan(*region)[i as int],
{
    let addr: u64 = region.physical_addr + i * 0x1000;
    PagingAction::MapPage(map_request(addr, addr))
}

/// The identity mappings of the first `count` regions begin with those of
/// the first `shorter` regions, and go on with those of the next region.
pub proof fn lemma_identity_plan_prefix(regions: Seq<MemoryMapEntry>, shorter: int, count: int)
    requires
        0 <= shorter <= count,
    ensures
        identity_plan(regions, shorter).len() <= identity_plan(regions, count).len(),
        forall|i: int|
            0 <= i < identity_plan(regions, shorter).len() ==> identity_plan(regions, count)[i]
                == identity_plan(regions, shorter)[i],
        shorter < count ==> identity_plan(regions, shorter).len() + region_plan(
            regions[shorter],
        ).len() <= identity_plan(regions, count).len(),
        shorter < count ==> forall|i: int|
            0 <= i < region_plan(regions[shorter]).len() ==> identity_plan(
                regions,
                count,
            )[identity_plan(regions, shorter).len() + i] == region_plan(regions[shorter])[i],
    decreases count - shorter,
{
    if shorter < count {
        lemma_identity_plan_prefix(regions, shorter, count - 1);
        if shorter < count - 1 {
        } else {
            assert(identity_plan(regions, count) == identity_plan(regions, shorter) + region_plan(
                regions[shorter],
            ));
        }
    }
}

/// Where the first step of each part stands in the plan of `inputs`: the
/// kernel window at 0, then the framebuffer, the raw memory map and the
/// bitmap sections.
pub open spec fn part_start(inputs: PagingInputs, part: int) -> int {
    if part <= 0 {
        0
    } else if part == 1 {
        KERNEL_PAGES as int
    } else if part == 2 {
        KERNEL_PAGES + framebuffer_pages(inputs.fb_size)
    } else {
        KERNEL_PAGES + framebuffer_pages(inputs.fb_size) + MEM_MAP_NEEDED_PAGES
    }
}

/// Where the identity mappings of the region at index `region` begin in the
/// plan of `inputs`.
pub open spec fn region_start(inputs: PagingInputs, region: int) -> int {
    part_start(inputs, 3) + PAGES_PER_SECTION * section_count(inputs.pmm_sections@)
        + release_plan(inputs.pmm_sections_array).len() + table_frames(inputs.entries())
        + identity_plan(inputs.mem_map@, region).len()
}

/// What the plan holds: every page of the kernel window, of the
/// framebuffer, of the raw memory map and of the bitmap sections is mapped
/// to its frame; every page of a region that is not conventional memory is
/// mapped onto itself; and the last step hands out the page table.
pub proof fn lemma_plan_layout(inputs: PagingInputs)
    ensures
        forall|i: int|
            0 <= i < KERNEL_PAGES ==> #[trigger] inputs.plan()[part_start(inputs, 0) + i]
                == PagingAction::MapPage(
                request(KERNEL_VIRTUAL_ADDRESS + i * 0x1000, inputs.k_physical_address + i * 0x1000),
            ),
        forall|i: int|
            0 <= i < framebuffer_pages(inputs.fb_size) ==> #[trigger] inputs.plan()[part_start(
                inputs,
                1,
            ) + i] == PagingAction::MapPage(
                request(GOP_VIRTUAL_ADDRESS + i * 0x1000, inputs.fb_base + i * 0x1000),
            ),
        forall|i: int|
            0 <= i < MEM_MAP_NEEDED_PAGES ==> #[trigger] inputs.plan()[part_start(inputs, 2) + i]
                == PagingAction::MapPage(
                request(
                    MEM_MAP_VIRTUAL_ADDRESS + i * 0x1000,
                    inputs.raw_mem_map_physical_address + i * 0x1000,
                ),
            ),
        forall|i: int|
            0 <= i < PAGES_PER_SECTION * section_count(inputs.pmm_sections@)
                ==> #[trigger] inputs.plan()[part_start(inputs, 3) + i] == PagingAction::MapPage(
                request(
                    PHYS_BITMAP_MANAGER_ADDRESS + i * 0x1000,
                    inputs.pmm_sections[i / 9] + (i % 9) * 0x1000,
                ),
            ),
        forall|region: int, i: int|
            0 <= region < inputs.mem_map@.len() && inputs.mem_map[region].mem_type
                != MemoryType::Conventional && 0 <= i < inputs.mem_map[region].num_pages
                ==> #[trigger] inputs.plan()[region_start(inputs, region) + i]
                == PagingAction::MapPage(
                request(
                    inputs.mem_map[region].physical_addr + i * 0x1000,
                    inputs.mem_map[region].physical_addr + i * 0x1000,
                ),
            ),
        inputs.plan().len() >= 1,
        inputs.plan().last() == PagingAction::Done(
            PageTableInfo { phys_addr: inputs.page_table, num_entries: inputs.entries() as u64 },
        ),
{
    let regions = inputs.mem_map@;
    lemma_sections_from(inputs.pmm_sections@, 0);
    let a = kernel_plan(inputs.k_physical_address);
    let b = a + framebuffer_plan(inputs.fb_base, inputs.fb_size);
    let c = b + mem_map_plan(inputs.raw_mem_map_physical_address);
    let d = c + sections_plan(inputs.pmm_sections@);
    let e = d + release_plan(inputs.pmm_sections_array);
    let f = e + tables_plan(inputs.page_table, table_frames(inputs.entries()));
    let g = f + identity_plan(regions, regions.len() as int);
    let done = seq![
        PagingAction::Done(
            PageTableInfo { phys_addr: inputs.page_table, num_entries: inputs.entries() as u64 },
        ),
    ];
    assert(inputs.plan() == g + done);
    assert(a.len() == part_start(inputs, 1));
    assert(b.len() == part_start(inputs, 2));
    assert(c.len() == part_start(inputs, 3));
    assert forall|region: int, i: int|
        0 <= region < regions.len() && regions[region].mem_type != MemoryType::Conventional && 0
            <= i < regions[region].num_pages implies #[trigger] inputs.plan()[region_start(
        inputs,
        region,
    ) + i] == PagingAction::MapPage(
        request(
            regions[region].physical_addr + i * 0x1000,
            regions[region].physical_addr + i * 0x1000,
        ),
    ) by {
        lemma_identity_plan_prefix(regions, region, regions.len() as int);
        let at = region_start(inputs, region) + i;
        let before = identity_plan(regions, region).len();
        assert(d.len() == c.len() + PAGES_PER_SECTION * section_count(inputs.pmm_sections@));
        assert(f.len() + before == region_start(inputs, region));
        assert(region_plan(regions[region]).len() == regions[region].num_pages);
        assert(region_plan(regions[region])[i] == PagingAction::MapPage(
            request(
                regions[region].physical_addr + i * 0x1000,
                regions[region].physical_addr + i * 0x1000,
            ),
        ));
        assert(identity_plan(regions, regions.len() as int)[before + i] == region_plan(
            regions[region],
        )[i]);
        assert(at - f.len() == before + i);
        assert(f.len() <= at < g.len());
        assert(g[at] == identity_plan(regions, regions.len() as int)[at - f.len()]);
        assert(inputs.plan()[at] == g[at]);
    }
}

/// The steps of one page-table setup, and how far the caller has come.
pub struct PagingSetup {
    inputs: PagingInputs,
    /// Number of sections that the section table names.
    sections: u64,
    /// Number of pages of the framebuffer.
    fb_pages: u64,
    /// Number of frames of the page table.
    table_frames: u64,
    /// Number of entries of the page table.
    num_entries: u64,
    /// Which part of the plan the next step comes from.
    stage: u8,
    /// How many steps of that part are done, in the identity part: of the
    /// region at hand.
    index: u64,
    /// In the identity part, the region at hand.
    region: usize,
}

impl PagingSetup {
    /// What the setup was made from.
    pub closed spec fn inputs(&self) -> PagingInputs {
        self.inputs
    }

    /// Every step of the setup in order.
    pub open spec fn plan(&self) -> Seq<PagingAction> {
        self.inputs().plan()
    }

    /// Number of steps of the parts that come before part `stage`.
    closed spec fn base(&self, stage: int) -> int {
        let inputs = self.inputs;
        let kernel = KERNEL_PAGES as int;
        let framebuffer = kernel + framebuffer_pages(inputs.fb_size);
        let mem_map = framebuffer + MEM_MAP_NEEDED_PAGES;
        let sections = mem_map + PAGES_PER_SECTION * section_count(inputs.pmm_sections@);
        let release = sections + release_plan(inputs.pmm_sections_array).len();
        let tables = release + table_frames(inputs.entries());
        let identity = tables + identity_plan(inputs.mem_map@, inputs.mem_map@.len() as int).len();
        if stage <= 0 {
            0
        } else if stage == 1 {
            kernel
        } else if stage == 2 {
            framebuffer
        } else if stage == 3 {
            mem_map
        } else if stage == 4 {
            sections
        } else if stage == 5 {
            release
        } else if stage == 6 {
            tables
        } else if stage == 7 {
            identity
        } else {
            identity + 1
        }
    }

    /// Number of steps that have been handed out.
    pub closed spec fn position(&self) -> int {
        if self.stage == 6 {
            self.base(6) + identity_plan(self.inputs.mem_map@, self.region as int).len()
                + self.index
        } else {
            self.base(self.stage as int) + self.index
        }
    }

    /// The setup is made from valid inputs and stands at one of its steps,
    /// or behind the last.
    pub closed spec fn wf(&self) -> bool {
        let inputs = self.inputs;
        &&& inputs.valid()
        &&& self.sections == section_count(inputs.pmm_sections@)
        &&& self.fb_pages == framebuffer_pages(inputs.fb_size)
        &&& self.table_frames == table_frames(inputs.entries())
        &&& self.num_entries == inputs.entries()
        &&& self.stage <= 8
        &&& self.region <= inputs.mem_map@.len()
        &&& self.stage != 6 ==> self.region == 0
        &&& self.stage == 0 ==> self.index <= KERNEL_PAGES
        &&& self.stage == 1 ==> self.index <= self.fb_pages
        &&& self.stage == 2 ==> self.index <= MEM_MAP_NEEDED_PAGES
        &&& self.stage == 3 ==> self.index <= PAGES_PER_SECTION * self.sections
        &&& self.stage == 4 ==> self.index == 0
        &&& self.stage == 5 ==> self.index <= self.table_frames
        &&& self.stage == 6 ==> self.index <= (if self.region < inputs.mem_map@.len() {
            region_plan(inputs.mem_map[self.region as int]).len()
        } else {
            0
        })
        &&& self.stage >= 7 ==> self.index == 0
    }

    /// The length of the plan, and what stands where in it.
    proof fn lemma_plan(&self)
        requires
            self.wf(),
        ensures
            self.plan().len() == self.base(8),
            0 <= self.position() <= self.plan().len(),
            self.stage == 0 && self.index < KERNEL_PAGES ==> self.plan()[self.position()]
                == kernel_plan(self.inputs.k_physical_address)[self.index as int],
            self.stage == 1 && self.index < self.fb_pages ==> self.plan()[self.position()]
                == framebuffer_plan(self.inputs.fb_base, self.inputs.fb_size)[self.index as int],
            self.stage == 2 && self.index < MEM_MAP_NEEDED_PAGES ==> self.plan()[self.position()]
                == mem_map_plan(self.inputs.raw_mem_map_physical_address)[self.index as int],
            self.stage == 3 && self.index < PAGES_PER_SECTION * self.sections
                ==> self.plan()[self.position()] == sections_plan(
                self.inputs.pmm_sections@,
            )[self.index as int],
            self.stage == 4 && self.inputs.pmm_sections_array != 0
                ==> self.plan()[self.position()] == (PagingAction::FreePages {
                addr: self.inputs.pmm_sections_array,
                count: SECTION_TABLE_PAGES,
            }),
            self.stage == 5 && self.index < self.table_frames ==> self.plan()[self.position()]
                == tables_plan(self.inputs.page_table, self.table_frames as int)[self.index as int],
            self.stage == 6 && self.region < self.inputs.mem_map@.len() && self.index
                < region_plan(self.inputs.mem_map[self.region as int]).len()
                ==> self.position() < self.plan().len() - 1 && self.plan()[self.position()]
                == region_plan(self.inputs.mem_map[self.region as int])[self.index as int],
            self.stage == 7 ==> self.plan()[self.position()] == PagingAction::Done(
                PageTableInfo {
                    phys_addr: self.inputs.page_table,
                    num_entries: self.num_entries,
                },
            ),
            self.stage == 8 ==> self.position() == self.plan().len(),
    {
        let inputs = self.inputs;
        let regions = inputs.mem_map@;
        lemma_sections_from(inputs.pmm_sections@, 0);
        lemma_identity_plan_prefix(regions, self.region as int, regions.len() as int);
        let a = kernel_plan(inputs.k_physical_address);
        let b = a + framebuffer_plan(inputs.fb_base, inputs.fb_size);
        let c = b + mem_map_plan(inputs.raw_mem_map_physical_address);
        let d = c + sections_plan(inputs.pmm_sections@);
        let e = d + release_plan(inputs.pmm_sections_array);
        let f = e + tables_plan(inputs.page_table, table_frames(inputs.entries()));
        let g = f + identity_plan(regions, regions.len() as int);
        assert(self.plan() == g + seq![
            PagingAction::Done(
                PageTableInfo { phys_addr: inputs.page_table, num_entries: inputs.entries() as u64 },
            ),
        ]);
        assert(a.len() == self.base(1));
        assert(b.len() == self.base(2));
        assert(c.len() == self.base(3));
        assert(d.len() == self.base(4));
        assert(e.len() == self.base(5));
        assert(f.len() == self.base(6));
        assert(g.len() == self.base(7));
        let at = self.position();
        if self.stage == 6 && self.region < regions.len() && self.index < region_plan(
            regions[self.region as int],
        ).len() {
            assert(self.plan()[at] == g[at]);
            assert(g[at] == identity_plan(regions, regions.len() as int)[at - f.len()]);
        }
    }

    /// The next step of the setup. `last_ok` says whether the step handed
    /// out before could be carried out; for the first step it is `true`. As
    /// long as every step succeeds the steps of the plan come in order, the
    /// finished page table last. A failed step ends the setup: from then on,
    /// as after the last step, the answer is `Abort`.
    pub fn next(&mut self, last_ok: bool) -> (action: PagingAction)
        requires
            old(self).wf(),
        ensures
            final(self).wf(),
            final(self).inputs() == old(self).inputs(),
            !last_ok || old(self).position() >= old(self).plan().len() ==> action
                == PagingAction::Abort && final(self).position() == old(self).plan().len(),
            last_ok && old(self).position() < old(self).plan().len() ==> action == old(
                self,
            ).plan()[old(self).position()] && final(self).position() == old(self).position() + 1,
    {
        proof {
            self.lemma_plan();
        }
        if !last_ok || self.stage >= 8 {
            self.stage = 8;
            self.index = 0;
            self.region = 0;
            proof {
                self.lemma_plan();
            }
            return PagingAction::Abort;
        }
        let ghost start = *self;
        loop
            invariant
                self.wf(),
                start == *old(self),
                start.wf(),
                last_ok,
                start.stage < 8,
                self.inputs == start.inputs,
                self.position() == start.position(),
                self.stage < 8,
            decreases 8 - self.stage, self.inputs.mem_map@.len() - self.region,
        {
            proof {
                self.lemma_plan();
                start.lemma_plan();
                lemma_sections_from(self.inputs.pmm_sections@, 0);
            }
            let i: u64 = self.index;
            if self.stage == 0 {
                if i < KERNEL_PAGES {
                    self.index = i + 1;
                    return mmap_kernel(self.inputs.k_physical_address, i);
                }
                self.stage = 1;
                self.index = 0;
            } else if self.stage == 1 {
                if i < self.fb_pages {
                    self.index = i + 1;
                    return mmap_gop(self.inputs.fb_base, self.inputs.fb_size, i);
                }
                self.stage = 2;
                self.index = 0;
            } else if self.stage == 2 {
                if i < MEM_MAP_NEEDED_PAGES {
                    self.index = i + 1;
                    return mmap_raw_mem_map(self.inputs.raw_mem_map_physical_address, i);
                }
                self.stage = 3;
                self.index = 0;
            } else if self.stage == 3 {
                if i < PAGES_PER_SECTION * self.sections {
                    self.index = i + 1;
                    return mmap_pmm_sections(self.inputs.pmm_sections.as_slice(), i);
                }
                self.stage = 4;
                self.index = 0;
            } else if self.stage == 4 {
                self.stage = 5;
                if self.inputs.pmm_sections_array != 0 {
                    return PagingAction::FreePages {
                        addr: self.inputs.pmm_sections_array,
                        count: SECTION_TABLE_PAGES,
                    };
                }
            } else if self.stage == 5 {
                if i < self.table_frames {
                    self.index = i + 1;
                    return mmap_page_tables(self.inputs.page_table, self.table_frames, i);
                }
                self.stage = 6;
                self.index = 0;
                self.region = 0;
            } else if self.stage == 6 {
                if self.region < self.inputs.mem_map.len() {
                    let region: MemoryMapEntry = self.inputs.mem_map[self.region];
                    if region.mem_type != MemoryType::Conventional && i < region.num_pages {
                        self.index = i + 1;
                        return identity_map(&region, i);
                    }
                    proof {
                        lemma_identity_plan_prefix(
                            self.inputs.mem_map@,
                            self.region as int,
                            self.region + 1,
                        );
                        assert(identity_plan(self.inputs.mem_map@, self.region + 1)
                            == identity_plan(self.inputs.mem_map@, self.region as int)
                            + region_plan(region));
                    }
                    self.region = self.region + 1;
                    self.index = 0;
                } else {
                    self.stage = 7;
                    self.index = 0;
                    self.region = 0;
                }
            } else {
                self.stage = 8;
                return PagingAction::Done(
                    PageTableInfo {
                        phys_addr: self.inputs.page_table,
                        num_entries: self.num_entries,
                    },
                );
            }
        }
    }
}

/// Starts the setup of the page table for `inputs`: the caller has loaded
/// the kernel, set aside and zeroed the frames of the page table, whose
/// number follows from `calculate_page_table_entries`, and read the bitmap
/// section table. Returns the setup at its first step, or `None` when the
/// inputs are not valid: then no page table can be produced.
pub fn setup_paging(inputs: PagingInputs) -> (setup: Option<PagingSetup>)
    ensures
        setup is Some <==> inputs.valid(),
        setup is Some ==> {
            &&& setup->0.wf()
            &&& setup->0.inputs() == inputs
            &&& setup->0.position() == 0
        },
{
    if inputs.k_physical_address > PHYS_ADDR_LIMIT - KERNEL_SIZE {
        return None;
    }
    if inputs.fb_size > MAX_FRAMEBUFFER_PAGES * 0x1000 {
        return None;
    }
    let fb_pages: u64 = (inputs.fb_size + 0xfff) / 0x1000;
    if inputs.fb_base > PHYS_ADDR_LIMIT - fb_pages * 0x1000 {
        return None;
    }
    if inputs.raw_mem_map_physical_address > PHYS_ADDR_LIMIT - MEM_MAP_NEEDED_PAGES * 0x1000 {
        return None;
    }
    let sections: usize = count_sections(inputs.pmm_sections.as_slice());
    let mut k: usize = 0;
    while k < sections
        invariant
            k <= sections,
            sections == section_count(inputs.pmm_sections@),
            sections <= inputs.pmm_sections@.len(),
            forall|j: int|
                0 <= j < k ==> #[trigger] inputs.pmm_sections[j] + PAGES_PER_SECTION * 0x1000
                    <= PHYS_ADDR_LIMIT,
        decreases sections - k,
    {
        if inputs.pmm_sections[k] > PHYS_ADDR_LIMIT - PAGES_PER_SECTION * 0x1000 {
            return None;
        }
        k = k + 1;
    }
    let num_entries: usize = calculate_page_table_entries(
        inputs.fb_size,
        inputs.pmm_sections.as_slice(),
    );
    let table_frames: u64 = (num_entries as u64 + 511) / 512;
    if inputs.page_table > PHYS_ADDR_LIMIT - table_frames * 0x1000 {
        return None;
    }
    let mut r: usize = 0;
    while r < inputs.mem_map.len()
        invariant
            r <= inputs.mem_map@.len(),
            forall|j: int|
                0 <= j < r && (#[trigger] inputs.mem_map[j]).mem_type != MemoryType::Conventional
                    ==> inputs.mem_map[j].physical_addr + inputs.mem_map[j].num_pages * 0x1000
                    <= IDENTITY_LIMIT,
        decreases inputs.mem_map@.len() - r,
    {
        let region: MemoryMapEntry = inputs.mem_map[r];
        if region.mem_type != MemoryType::Conventional {
            if region.num_pages > IDENTITY_LIMIT / 0x1000 || region.physical_addr > IDENTITY_LIMIT
                - region.num_pages * 0x1000 {
                return None;
            }
        }
        r = r + 1;
    }
    Some(
        PagingSetup {
            inputs,
            sections: sections as u64,
            fb_pages,
            table_frames,
            num_entries: num_entries as u64,
            stage: 0,
            index: 0,
            region: 0,
        },
    )
}

} // verus!
