//! The raw memory map: a fixed-format copy of the firmware's memory map,
//! one 40-byte record per region.
//!
//! A record holds, in little-endian order, the region's kind in bytes 0 to
//! 3, four bytes of padding, and then four 64-bit fields: the attribute
//! mask, the physical start, the virtual start and the number of pages.

use vstd::bytes::{
    lemma_auto_spec_u32_to_from_le_bytes, lemma_auto_spec_u64_to_from_le_bytes,
    spec_u32_from_le_bytes, spec_u32_to_le_bytes, spec_u64_from_le_bytes, spec_u64_to_le_bytes,
    u32_from_le_bytes, u32_to_le_bytes, u64_from_le_bytes, u64_to_le_bytes,
};
use vstd::prelude::*;
use vstd::slice::slice_subrange;
use vstd::std_specs::convert::FromSpecImpl;

pub mod memory_attributes;

verus! {

/// Size of one record of the raw memory map in bytes.
pub const ENTRY_SIZE: usize = 40;

/// What a region of memory is used for.
#[derive(Debug, Copy, Clone, PartialEq, Eq, Structural)]
pub enum MemoryType {
    /// Not usable.
    Reserved,
    /// The code of a loaded firmware application.
    LoaderCode,
    /// The data of a loaded firmware application, and what it allocated.
    LoaderData,
    /// Code of the boot drivers; reusable once the OS is loaded.
    BootServicesCode,
    /// Data of the boot drivers; reusable once the OS is loaded.
    BootServicesData,
    /// Code of the runtime drivers.
    RuntimeServicesCode,
    /// Data of the runtime services.
    RuntimeServicesData,
    /// Free usable memory.
    Conventional,
    /// Memory in which errors have been detected.
    Unusable,
    /// Memory that holds ACPI tables; reclaimable once they are parsed.
    AcpiReclaim,
    /// Firmware-reserved addresses.
    AcpiNonVolatile,
    /// A region used for memory-mapped I/O.
    Mmio,
    /// Address space used for memory-mapped port I/O.
    MmioPortSpace,
    /// Address space which is part of the processor.
    PalCode,
    /// Usable memory that is also non-volatile.
    PersistentMemory,
    /// Memory that must be accepted before it can be used.
    Unaccepted,
    /// End of the defined kinds.
    Max,
}

/// The kind that the number `value` stands for. A number that stands for no
/// kind reads as unusable memory.
pub open spec fn memory_type_of(value: u32) -> MemoryType {
    if value == 0 {
        MemoryType::Reserved
    } else if value == 1 {
        MemoryType::LoaderCode
    } else if value == 2 {
        MemoryType::LoaderData
    } else if value == 3 {
        MemoryType::BootServicesCode
    } else if value == 4 {
        MemoryType::BootServicesData
    } else if value == 5 {
        MemoryType::RuntimeServicesCode
    } else if value == 6 {
        MemoryType::RuntimeServicesData
    } else if value == 7 {
        MemoryType::Conventional
    } else if value == 8 {
        MemoryType::Unusable
    } else if value == 9 {
        MemoryType::AcpiReclaim
    } else if value == 10 {
        MemoryType::AcpiNonVolatile
    } else if value == 11 {
        MemoryType::Mmio
    } else if value == 12 {
        MemoryType::MmioPortSpace
    } else if value == 13 {
        MemoryType::PalCode
    } else if value == 14 {
        MemoryType::PersistentMemory
    } else if value == 15 {
        MemoryType::Unaccepted
    } else {
        MemoryType::Unusable
    }
}

impl From<u32> for MemoryType {
    fn from(value: u32) -> (kind: Self) {
        match value {
            0 => MemoryType::Reserved,
            1 => MemoryType::LoaderCode,
            2 => MemoryType::LoaderData,
            3 => MemoryType::BootServicesCode,
            4 => MemoryType::BootServicesData,
            5 => MemoryType::RuntimeServicesCode,
            6 => MemoryType::RuntimeServicesData,
            7 => MemoryType::Conventional,
            8 => MemoryType::Unusable,
            9 => MemoryType::AcpiReclaim,
            10 => MemoryType::AcpiNonVolatile,
            11 => MemoryType::Mmio,
            12 => MemoryType::MmioPortSpace,
            13 => MemoryType::PalCode,
            14 => MemoryType::PersistentMemory,
            15 => MemoryType::Unaccepted,
            _ => MemoryType::Unusable,
        }
    }
}

impl FromSpecImpl<u32> for MemoryType {
    open spec fn obeys_from_spec() -> bool {
        true
    }

    open spec fn from_spec(value: u32) -> Self {
        memory_type_of(value)
    }
}

impl MemoryType {
    /// The number that stands for this kind.
    pub open spec fn number(self) -> u32 {
        match self {
            MemoryType::Reserved => 0,
            MemoryType::LoaderCode => 1,
            MemoryType::LoaderData => 2,
            MemoryType::BootServicesCode => 3,
            MemoryType::BootServicesData => 4,
            MemoryType::RuntimeServicesCode => 5,
            MemoryType::RuntimeServicesData => 6,
            MemoryType::Conventional => 7,
            MemoryType::Unusable => 8,
            MemoryType::AcpiReclaim => 9,
            MemoryType::AcpiNonVolatile => 10,
            MemoryType::Mmio => 11,
            MemoryType::MmioPortSpace => 12,
            MemoryType::PalCode => 13,
            MemoryType::PersistentMemory => 14,
            MemoryType::Unaccepted => 15,
            MemoryType::Max => 16,
        }
    }

    /// The number that stands for this kind in a record.
    pub fn as_u32(self) -> (value: u32)
        ensures
            value == self.number(),
            self != MemoryType::Max ==> memory_type_of(value) == self,
    {
        match self {
            MemoryType::Reserved => 0,
            MemoryType::LoaderCode => 1,
            MemoryType::LoaderData => 2,
            MemoryType::BootServicesCode => 3,
            MemoryType::BootServicesData => 4,
            MemoryType::RuntimeServicesCode => 5,
            MemoryType::RuntimeServicesData => 6,
            MemoryType::Conventional => 7,
            MemoryType::Unusable => 8,
            MemoryType::AcpiReclaim => 9,
            MemoryType::AcpiNonVolatile => 10,
            MemoryType::Mmio => 11,
            MemoryType::MmioPortSpace => 12,
            MemoryType::PalCode => 13,
            MemoryType::PersistentMemory => 14,
            MemoryType::Unaccepted => 15,
            MemoryType::Max => 16,
        }
    }

    /// Whether the kernel may take memory of this kind for itself:
    /// conventional memory and what the boot services leave behind.
    pub open spec fn reclaimable(self) -> bool {
        self == MemoryType::Conventional || self == MemoryType::BootServicesCode || self
            == MemoryType::BootServicesData
    }

    /// Whether the kernel may take memory of this kind for itself.
    pub fn is_reclaimable(self) -> (free: bool)
        ensures
            free == self.reclaimable(),
    {
        self == MemoryType::Conventional || self == MemoryType::BootServicesCode || self
            == MemoryType::BootServicesData
    }
}

/// One region of the raw memory map.
#[derive(Debug, Copy, Clone, PartialEq, Eq, Structural)]
pub struct MemoryMapEntry {
    /// What the region is used for.
    pub mem_type: MemoryType,
    /// The region's attribute bits, see `memory_attributes`.
    pub attributes: u64,
    /// Physical address of the region's first byte.
    pub physical_addr: u64,
    /// Virtual address of the region's first byte.
    pub virtual_addr: u64,
    /// Number of 4 KiB pages in the region.
    pub num_pages: u64,
}

/// The 40 bytes of the record that holds `entry`.
pub open spec fn entry_bytes(entry: MemoryMapEntry) -> Seq<u8> {
    spec_u32_to_le_bytes(entry.mem_type.number()) + seq![0u8, 0u8, 0u8, 0u8] + spec_u64_to_le_bytes(
        entry.attributes,
    ) + spec_u64_to_le_bytes(entry.physical_addr) + spec_u64_to_le_bytes(entry.virtual_addr)
        + spec_u64_to_le_bytes(entry.num_pages)
}

/// The entry that the 40 bytes of `record` hold.
pub open spec fn entry_of_bytes(record: Seq<u8>) -> MemoryMapEntry {
    MemoryMapEntry {
        mem_type: memory_type_of(spec_u32_from_le_bytes(record.subrange(0, 4))),
        attributes: spec_u64_from_le_bytes(record.subrange(8, 16)),
        physical_addr: spec_u64_from_le_bytes(record.subrange(16, 24)),
        virtual_addr: spec_u64_from_le_bytes(record.subrange(24, 32)),
        num_pages: spec_u64_from_le_bytes(record.subrange(32, 40)),
    }
}

/// Reading back the record of an entry gives the entry, whatever its kind
/// but the end marker `Max`, which no record can hold.
pub proof fn lemma_entry_round_trip(entry: MemoryMapEntry)
    requires
        entry.mem_type != MemoryType::Max,
    ensures
        entry_bytes(entry).len() == ENTRY_SIZE,
        entry_of_bytes(entry_bytes(entry)) == entry,
{
    lemma_auto_spec_u32_to_from_le_bytes();
    lemma_auto_spec_u64_to_from_le_bytes();
    let record = entry_bytes(entry);
    assert(record.subrange(0, 4) =~= spec_u32_to_le_bytes(entry.mem_type.number()));
    assert(record.subrange(8, 16) =~= spec_u64_to_le_bytes(entry.attributes));
    assert(record.subrange(16, 24) =~= spec_u64_to_le_bytes(entry.physical_addr));
    assert(record.subrange(24, 32) =~= spec_u64_to_le_bytes(entry.virtual_addr));
    assert(record.subrange(32, 40) =~= spec_u64_to_le_bytes(entry.num_pages));
}

impl MemoryMapEntry {
    /// What the region is used for.
    pub fn mem_type(&self) -> (value: MemoryType)
        ensures
            value == self.mem_type,
    {
        self.mem_type
    }

    /// The region's attribute bits, see `memory_attributes`.
    pub fn attributes(&self) -> (value: u64)
        ensures
            value == self.attributes,
    {
        self.attributes
    }

    /// Physical address of the region's first byte.
    pub fn physical_addr(&self) -> (value: u64)
        ensures
            value == self.physical_addr,
    {
        self.physical_addr
    }

    /// Virtual address of the region's first byte.
    pub fn virtual_addr(&self) -> (value: u64)
        ensures
            value == self.virtual_addr,
    {
        self.virtual_addr
    }

    /// Number of 4 KiB pages in the region.
    pub fn num_pages(&self) -> (value: u64)
        ensures
            value == self.num_pages,
    {
        self.num_pages
    }

    /// An entry with the given values.
    pub fn new(
        mem_type: MemoryType,
        attributes: u64,
        physical_addr: u64,
        virtual_addr: u64,
        num_pages: u64,
    ) -> (entry: Self)
        ensures
            entry == (MemoryMapEntry {
                mem_type,
                attributes,
                physical_addr,
                virtual_addr,
                num_pages,
            }),
    {
        MemoryMapEntry { mem_type, attributes, physical_addr, virtual_addr, num_pages }
    }

    /// The 40-byte record that holds this entry.
    pub fn to_bytes(&self) -> (record: Vec<u8>)
        ensures
            record@ == entry_bytes(*self),
            record@.len() == ENTRY_SIZE,
    {
        proof {
            lemma_auto_spec_u32_to_from_le_bytes();
            lemma_auto_spec_u64_to_from_le_bytes();
        }
        let mut record: Vec<u8> = u32_to_le_bytes(self.mem_type.as_u32());
        record.push(0);
        record.push(0);
        record.push(0);
        record.push(0);
        proof {
            assert(record@ =~= spec_u32_to_le_bytes(self.mem_type.number()) + seq![
                0u8,
                0u8,
                0u8,
                0u8,
            ]);
        }
        let mut attributes: Vec<u8> = u64_to_le_bytes(self.attributes);
        record.append(&mut attributes);
        let mut physical_addr: Vec<u8> = u64_to_le_bytes(self.physical_addr);
        record.append(&mut physical_addr);
        let mut virtual_addr: Vec<u8> = u64_to_le_bytes(self.virtual_addr);
        record.append(&mut virtual_addr);
        let mut num_pages: Vec<u8> = u64_to_le_bytes(self.num_pages);
        record.append(&mut num_pages);
        record
    }

    /// The entry that the first 40 bytes of `record` hold, or `None` when
    /// `record` is shorter than that.
    pub fn from_bytes(record: &[u8]) -> (entry: Option<Self>)
        ensures
            record@.len() < ENTRY_SIZE ==> entry is None,
            record@.len() >= ENTRY_SIZE ==> entry == Some(
                entry_of_bytes(record@.subrange(0, ENTRY_SIZE as int)),
            ),
    {
        if record.len() < ENTRY_SIZE {
            return None;
        }
        let ghost head = record@.subrange(0, ENTRY_SIZE as int);
        let kind: u32 = u32_from_le_bytes(slice_subrange(record, 0, 4));
        let attributes: u64 = u64_from_le_bytes(slice_subrange(record, 8, 16));
        let physical_addr: u64 = u64_from_le_bytes(slice_subrange(record, 16, 24));
        let virtual_addr: u64 = u64_from_le_bytes(slice_subrange(record, 24, 32));
        let num_pages: u64 = u64_from_le_bytes(slice_subrange(record, 32, 40));
        proof {
            assert(record@.subrange(0, 4) =~= head.subrange(0, 4));
            assert(record@.subrange(8, 16) =~= head.subrange(8, 16));
            assert(record@.subrange(16, 24) =~= head.subrange(16, 24));
            assert(record@.subrange(24, 32) =~= head.subrange(24, 32));
            assert(record@.subrange(32, 40) =~= head.subrange(32, 40));
        }
        Some(
            MemoryMapEntry {
                mem_type: MemoryType::from(kind),
                attributes,
                physical_addr,
                virtual_addr,
                num_pages,
            },
        )
    }
}

/// The entries that the first `count` records of `bytes` hold.
pub open spec fn entries_of_bytes(bytes: Seq<u8>, count: int) -> Seq<MemoryMapEntry> {
    Seq::new(
        count as nat,
        |i: int| entry_of_bytes(bytes.subrange(i * ENTRY_SIZE as int, (i + 1) * ENTRY_SIZE as int)),
    )
}

/// The number of whole records among the first `mem_map_size` bytes of a
/// buffer of `length` bytes.
pub open spec fn record_count(length: int, mem_map_size: int) -> int {
    if length < mem_map_size {
        length / ENTRY_SIZE as int
    } else {
        mem_map_size / ENTRY_SIZE as int
    }
}

/// Reads the raw memory map: `mem_map_size` bytes of `bytes`, one entry per
/// 40 bytes. A size that is no multiple of 40 is an anomaly but no failure:
/// the bytes behind the last whole record are left out, and so are records
/// that `bytes` is too short to hold.
pub fn read_memory_map(bytes: &[u8], mem_map_size: u32) -> (entries: Vec<MemoryMapEntry>)
    ensures
        entries@ == entries_of_bytes(
            bytes@,
            record_count(bytes@.len() as int, mem_map_size as int),
        ),
{
    let size: usize = if bytes.len() < mem_map_size as usize {
        bytes.len()
    } else {
        mem_map_size as usize
    };
    let num_entries: usize = size / ENTRY_SIZE;
    let mut entries: Vec<MemoryMapEntry> = Vec::new();
    let mut i: usize = 0;
    while i < num_entries
        invariant
            i <= num_entries,
            num_entries == record_count(bytes@.len() as int, mem_map_size as int),
            entries@ == entries_of_bytes(bytes@, i as int),
        decreases num_entries - i,
    {
        let record = slice_subrange(bytes, i * ENTRY_SIZE, (i + 1) * ENTRY_SIZE);
        let entry: Option<MemoryMapEntry> = MemoryMapEntry::from_bytes(record);
        proof {
            assert(record@.subrange(0, ENTRY_SIZE as int) =~= record@);
        }
        match entry {
            Some(entry) => {
                entries.push(entry);
            },
            None => {},
        }
        proof {
            assert(entries@ =~= entries_of_bytes(bytes@, i + 1));
        }
        i = i + 1;
    }
    entries
}

/// Whether a raw memory map of `mem_map_size` bytes is made of whole
/// records.
pub fn is_map_size_aligned(mem_map_size: u32) -> (aligned: bool)
    ensures
        aligned == (mem_map_size as int % ENTRY_SIZE as int == 0),
{
    mem_map_size as usize % ENTRY_SIZE == 0
}

} // verus!
