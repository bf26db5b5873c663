//! The header of an ELF file, read from the first 64 bytes of the file.
//!
//! The fields are read in little-endian byte order, the magic number too:
//! it is taken as one 32-bit number and compared with `ELF_MAG`.

use vstd::bytes::{
    spec_u16_from_le_bytes, spec_u32_from_le_bytes, spec_u64_from_le_bytes, u16_from_le_bytes,
    u32_from_le_bytes, u64_from_le_bytes,
};
use vstd::prelude::*;
use vstd::slice::slice_subrange;

pub mod et_types;

verus! {

/// Size of the header in bytes.
pub const HEADER_SIZE: usize = 64;

/// The magic number of an ELF file.
pub const ELF_MAG: u32 = 0x7f454c46;

/// The only accepted value of `e_ident_osabi`.
pub const OS_ABI_SYS_V: u8 = 0;

/// The only supported value of `e_machine`.
pub const MACHINE_X86_64: u16 = 0x3E;

/// The value of `e_ident_class` that stands for a 64-bit file.
pub const CLASS_64_BIT: u8 = 2;

/// The value of `e_ident_data` that stands for a little-endian file.
pub const DATA_LITTLE_ENDIAN: u8 = 1;

/// The fields of the header of an ELF file.
pub struct ElfHeader {
    /// The magic number that opens the file.
    pub e_ident_mag: u32,
    /// Whether the file is made for 32 or for 64 bits.
    pub e_ident_class: u8,
    /// The byte order of the file.
    pub e_ident_data: u8,
    /// Version of the identification.
    pub e_ident_version: u8,
    /// The operating system ABI that the file is made for.
    pub e_ident_osabi: u8,
    /// Version of that ABI.
    pub e_ident_abiversion: u8,
    /// Padding that ends the identification.
    pub e_ident_pad: [u8; 7],
    /// Kind of the file, see `et_types`.
    pub e_type: u16,
    /// The instruction set that the file is made for.
    pub e_machine: u16,
    /// Version of the file format.
    pub e_version: u32,
    /// Virtual address of the entry point.
    pub e_entry: u64,
    /// Offset of the program header table in the file.
    pub e_phoff: u64,
    /// Offset of the section header table in the file.
    pub e_shoff: u64,
    /// Flags of the processor.
    pub e_flags: u32,
    /// Size of this header.
    pub e_ehsize: u16,
    /// Size of one entry of the program header table.
    pub e_phentsize: u16,
    /// Number of entries of the program header table.
    pub e_phnum: u16,
    /// Size of one entry of the section header table.
    pub e_shentsize: u16,
    /// Number of entries of the section header table.
    pub e_shnum: u16,
    /// Index of the section that holds the section names.
    pub e_shstrndx: u16,
}

/// The seven bytes of padding in the header `data`.
pub open spec fn header_padding(data: Seq<u8>) -> [u8; 7] {
    [data[9], data[10], data[11], data[12], data[13], data[14], data[15]]
}

/// The header that the first 64 bytes of `data` hold.
pub open spec fn header_of_bytes(data: Seq<u8>) -> ElfHeader {
    ElfHeader {
        e_ident_mag: spec_u32_from_le_bytes(data.subrange(0, 4)),
        e_ident_class: data[4],
        e_ident_data: data[5],
        e_ident_version: data[6],
        e_ident_osabi: data[7],
        e_ident_abiversion: data[8],
        e_ident_pad: header_padding(data),
        e_type: spec_u16_from_le_bytes(data.subrange(16, 18)),
        e_machine: spec_u16_from_le_bytes(data.subrange(18, 20)),
        e_version: spec_u32_from_le_bytes(data.subrange(20, 24)),
        e_entry: spec_u64_from_le_bytes(data.subrange(24, 32)),
        e_phoff: spec_u64_from_le_bytes(data.subrange(32, 40)),
        e_shoff: spec_u64_from_le_bytes(data.subrange(40, 48)),
        e_flags: spec_u32_from_le_bytes(data.subrange(48, 52)),
        e_ehsize: spec_u16_from_le_bytes(data.subrange(52, 54)),
        e_phentsize: spec_u16_from_le_bytes(data.subrange(54, 56)),
        e_phnum: spec_u16_from_le_bytes(data.subrange(56, 58)),
        e_shentsize: spec_u16_from_le_bytes(data.subrange(58, 60)),
        e_shnum: spec_u16_from_le_bytes(data.subrange(60, 62)),
        e_shstrndx: spec_u16_from_le_bytes(data.subrange(62, 64)),
    }
}

/// Whether `header` is one that the loader takes: it has the magic number
/// and is made for 64 bits, little-endian byte order and x86-64.
pub open spec fn accepted(header: ElfHeader) -> bool {
    &&& header.e_ident_mag == ELF_MAG
    &&& header.e_ident_class == CLASS_64_BIT
    &&& header.e_ident_data == DATA_LITTLE_ENDIAN
    &&& header.e_machine == MACHINE_X86_64
}

impl ElfHeader {
    /// Whether the file is made for 32 or for 64 bits.
    pub fn e_ident_class(&self) -> (value: u8)
        ensures
            value == self.e_ident_class,
    {
        self.e_ident_class
    }

    /// The byte order of the file.
    pub fn e_ident_data(&self) -> (value: u8)
        ensures
            value == self.e_ident_data,
    {
        self.e_ident_data
    }

    /// Version of the identification.
    pub fn e_ident_version(&self) -> (value: u8)
        ensures
            value == self.e_ident_version,
    {
        self.e_ident_version
    }

    /// The operating system ABI that the file is made for.
    pub fn e_ident_osabi(&self) -> (value: u8)
        ensures
            value == self.e_ident_osabi,
    {
        self.e_ident_osabi
    }

    /// Version of that ABI.
    pub fn e_ident_abiversion(&self) -> (value: u8)
        ensures
            value == self.e_ident_abiversion,
    {
        self.e_ident_abiversion
    }

    /// Kind of the file, see `et_types`.
    pub fn e_type(&self) -> (value: u16)
        ensures
            value == self.e_type,
    {
        self.e_type
    }

    /// The instruction set that the file is made for.
    pub fn e_machine(&self) -> (value: u16)
        ensures
            value == self.e_machine,
    {
        self.e_machine
    }

    /// Version of the file format.
    pub fn e_version(&self) -> (value: u32)
        ensures
            value == self.e_version,
    {
        self.e_version
    }

    /// Virtual address of the entry point.
    pub fn e_entry(&self) -> (value: u64)
        ensures
            value == self.e_entry,
    {
        self.e_entry
    }

    /// Offset of the program header table in the file.
    pub fn e_phoff(&self) -> (value: u64)
        ensures
            value == self.e_phoff,
    {
        self.e_phoff
    }

    /// Offset of the section header table in the file.
    pub fn e_shoff(&self) -> (value: u64)
        ensures
            value == self.e_shoff,
    {
        self.e_shoff
    }

    /// Flags of the processor.
    pub fn e_flags(&self) -> (value: u32)
        ensures
            value == self.e_flags,
    {
        self.e_flags
    }

    /// Size of this header.
    pub fn e_ehsize(&self) -> (value: u16)
        ensures
            value == self.e_ehsize,
    {
        self.e_ehsize
    }

    /// Size of one entry of the program header table.
    pub fn e_phentsize(&self) -> (value: u16)
        ensures
            value == self.e_phentsize,
    {
        self.e_phentsize
    }

    /// Number of entries of the program header table.
    pub fn e_phnum(&self) -> (value: u16)
        ensures
            value == self.e_phnum,
    {
        self.e_phnum
    }

    /// Size of one entry of the section header table.
    pub fn e_shentsize(&self) -> (value: u16)
        ensures
            value == self.e_shentsize,
    {
        self.e_shentsize
    }

    /// Number of entries of the section header table.
    pub fn e_shnum(&self) -> (value: u16)
        ensures
            value == self.e_shnum,
    {
        self.e_shnum
    }

    /// Index of the section that holds the section names.
    pub fn e_shstrndx(&self) -> (value: u16)
        ensures
            value == self.e_shstrndx,
    {
        self.e_shstrndx
    }

    /// Reads the header from the start of `data`. Returns `None` when
    /// `data` is shorter than a header, or when the header is not one that
    /// the loader takes.
    pub fn parse(data: &[u8]) -> (header: Option<Self>)
        ensures
            header is Some <==> data@.len() >= HEADER_SIZE && accepted(header_of_bytes(data@)),
            header is Some ==> header->0 == header_of_bytes(data@),
    {
        if data.len() < HEADER_SIZE {
            return None;
        }
        let header = ElfHeader {
            e_ident_mag: u32_from_le_bytes(slice_subrange(data, 0, 4)),
            e_ident_class: data[4],
            e_ident_data: data[5],
            e_ident_version: data[6],
            e_ident_osabi: data[7],
            e_ident_abiversion: data[8],
            e_ident_pad: [data[9], data[10], data[11], data[12], data[13], data[14], data[15]],
            e_type: u16_from_le_bytes(slice_subrange(data, 16, 18)),
            e_machine: u16_from_le_bytes(slice_subrange(data, 18, 20)),
            e_version: u32_from_le_bytes(slice_subrange(data, 20, 24)),
            e_entry: u64_from_le_bytes(slice_subrange(data, 24, 32)),
            e_phoff: u64_from_le_bytes(slice_subrange(data, 32, 40)),
            e_shoff: u64_from_le_bytes(slice_subrange(data, 40, 48)),
            e_flags: u32_from_le_bytes(slice_subrange(data, 48, 52)),
            e_ehsize: u16_from_le_bytes(slice_subrange(data, 52, 54)),
            e_phentsize: u16_from_le_bytes(slice_subrange(data, 54, 56)),
            e_phnum: u16_from_le_bytes(slice_subrange(data, 56, 58)),
            e_shentsize: u16_from_le_bytes(slice_subrange(data, 58, 60)),
            e_shnum: u16_from_le_bytes(slice_subrange(data, 60, 62)),
            e_shstrndx: u16_from_le_bytes(slice_subrange(data, 62, 64)),
        };
        if header.e_ident_mag != ELF_MAG {
            return None;
        }
        if header.e_ident_class != CLASS_64_BIT {
            return None;
        }
        if header.e_ident_data != DATA_LITTLE_ENDIAN {
            return None;
        }
        if header.e_machine != MACHINE_X86_64 {
            return None;
        }
        Some(header)
    }
}

} // verus!
