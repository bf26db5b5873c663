//! The header of an ELF file as the loader keeps it.

use vstd::prelude::*;

verus! {

/// The fields of the header of an ELF file.
pub struct ElfFile {
    /// The magic number that opens the file.
    pub e_ident_mag: u32,
    /// Whether the file is made for 32 or for 64 bits.
    pub e_ident_class: u8,
    /// The byte order of the file.
    pub e_ident_data: u8,
    /// Version of the identification.
    pub e_ident_version: u8,
    /// The operating system ABI that the file is made for.
    pub e_ident_osabi: u8,
    /// Version of that ABI.
    pub e_ident_abiversion: u8,
    /// Padding that ends the identification.
    pub e_ident_pad: [u8; 7],
    /// Kind of the file, see `et_types`.
    pub e_type: u16,
    /// The instruction set that the file is made for.
    pub e_machine: u16,
    /// Version of the file format.
    pub e_version: u32,
    /// Virtual address of the entry point.
    pub e_entry: u64,
    /// Offset of the program header table in the file.
    pub e_phoff: u64,
    /// Offset of the section header table in the file.
    pub e_shoff: u64,
    /// Flags of the processor.
    pub e_flags: u32,
    /// Size of this header.
    pub e_ehsize: u16,
    /// Size of one entry of the program header table.
    pub e_phentsize: u16,
    /// Number of entries of the program header table.
    pub e_phnum: u16,
    /// Size of one entry of the section header table.
    pub e_shentsize: u16,
    /// Number of entries of the section header table.
    pub e_shnum: u16,
    /// Index of the section that holds the section names.
    pub e_shstrndx: u16,
}

impl ElfFile {
    /// Whether the file is made for 32 or for 64 bits.
    pub fn e_ident_class(&self) -> (value: u8)
        ensures
            value == self.e_ident_class,
    {
        self.e_ident_class
    }

    /// The byte order of the file.
    pub fn e_ident_data(&self) -> (value: u8)
        ensures
            value == self.e_ident_data,
    {
        self.e_ident_data
    }

    /// Version of the identification.
    pub fn e_ident_version(&self) -> (value: u8)
        ensures
            value == self.e_ident_version,
    {
        self.e_ident_version
    }

    /// The operating system ABI that the file is made for.
    pub fn e_ident_osabi(&self) -> (value: u8)
        ensures
            value == self.e_ident_osabi,
    {
        self.e_ident_osabi
    }

    /// Version of that ABI.
    pub fn e_ident_abiversion(&self) -> (value: u8)
        ensures
            value == self.e_ident_abiversion,
    {
        self.e_ident_abiversion
    }

    /// Kind of the file, see `et_types`.
    pub fn e_type(&self) -> (value: u16)
        ensures
            value == self.e_type,
    {
        self.e_type
    }

    /// The instruction set that the file is made for.
    pub fn e_machine(&self) -> (value: u16)
        ensures
            value == self.e_machine,
    {
        self.e_machine
    }

    /// Version of the file format.
    pub fn e_version(&self) -> (value: u32)
        ensures
            value == self.e_version,
    {
        self.e_version
    }

    /// Virtual address of the entry point.
    pub fn e_entry(&self) -> (value: u64)
        ensures
            value == self.e_entry,
    {
        self.e_entry
    }

    /// Offset of the program header table in the file.
    pub fn e_phoff(&self) -> (value: u64)
        ensures
            value == self.e_phoff,
    {
        self.e_phoff
    }

    /// Offset of the section header table in the file.
    pub fn e_shoff(&self) -> (value: u64)
        ensures
            value == self.e_shoff,
    {
        self.e_shoff
    }

    /// Flags of the processor.
    pub fn e_flags(&self) -> (value: u32)
        ensures
            value == self.e_flags,
    {
        self.e_flags
    }

    /// Size of this header.
    pub fn e_ehsize(&self) -> (value: u16)
        ensures
            value == self.e_ehsize,
    {
        self.e_ehsize
    }

    /// Size of one entry of the program header table.
    pub fn e_phentsize(&self) -> (value: u16)
        ensures
            value == self.e_phentsize,
    {
        self.e_phentsize
    }

    /// Number of entries of the program header table.
    pub fn e_phnum(&self) -> (value: u16)
        ensures
            value == self.e_phnum,
    {
        self.e_phnum
    }

    /// Size of one entry of the section header table.
    pub fn e_shentsize(&self) -> (value: u16)
        ensures
            value == self.e_shentsize,
    {
        self.e_shentsize
    }

    /// Number of entries of the section header table.
    pub fn e_shnum(&self) -> (value: u16)
        ensures
            value == self.e_shnum,
    {
        self.e_shnum
    }

    /// Index of the section that holds the section names.
    pub fn e_shstrndx(&self) -> (value: u16)
        ensures
            value == self.e_shstrndx,
    {
        self.e_shstrndx
    }
}

} // verus!
