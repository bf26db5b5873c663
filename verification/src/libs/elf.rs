//! Reading ELF files.

pub mod elf_file;
pub mod elf_header;
