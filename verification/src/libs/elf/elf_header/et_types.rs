//! The kinds of ELF files, as `e_type` names them.

use vstd::prelude::*;

verus! {

/// No file type.
pub const ET_NONE: u16 = 0;

/// Relocatable file.
pub const ET_REL: u16 = 1;

/// Executable file.
pub const ET_EXEC: u16 = 2;

/// Dynamic library file.
pub const ET_DYN: u16 = 3;

/// Core file.
pub const ET_CORE: u16 = 4;

/// Start of the range that is left to operating systems.
pub const ET_LOOS: u16 = 0xfe00;

/// End of the range that is left to operating systems.
pub const ET_HIOS: u16 = 0xfeff;

/// Start of the range that is left to processors.
pub const ET_LOPROC: u16 = 0xff00;

/// End of the range that is left to processors.
pub const ET_HIPROC: u16 = 0xffff;

} // verus!
