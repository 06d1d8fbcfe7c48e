//! Constants of the ELF file format that the conversion reads.

use vstd::prelude::*;

verus! {

/// Program header type of a loadable segment.
pub const PT_LOAD: u32 = 1;

/// Section is writable at run time.
pub const SHF_WRITE: u64 = 1;

/// Section occupies memory at run time.
pub const SHF_ALLOC: u64 = 2;

/// Section holds executable instructions.
pub const SHF_EXECINSTR: u64 = 4;

/// Section holds program-defined contents.
pub const SHT_PROGBITS: u32 = 1;

/// Section holds an array of initialization function pointers.
pub const SHT_INIT_ARRAY: u32 = 14;

/// Section holds an array of finalization function pointers.
pub const SHT_FINI_ARRAY: u32 = 15;

/// Symbol binding: local.
pub const STB_LOCAL: u8 = 0;

/// Symbol binding: global.
pub const STB_GLOBAL: u8 = 1;

/// Symbol binding: unique in the whole process (a GNU extension).
pub const STB_GNU_UNIQUE: u8 = 10;

/// Symbol visibility: default.
pub const STV_DEFAULT: u8 = 0;

/// Symbol visibility: protected.
pub const STV_PROTECTED: u8 = 3;

/// ELF identification: little-endian data encoding.
pub const ELFDATA2LSB: u8 = 1;

/// ELF identification: big-endian data encoding.
pub const ELFDATA2MSB: u8 = 2;

/// ELF machine: Intel 80386.
pub const EM_386: u16 = 3;

/// ELF machine: AMD x86-64.
pub const EM_X86_64: u16 = 62;

/// x86-64 relocation: direct 64-bit.
pub const R_X86_64_64: u32 = 1;

/// x86-64 relocation: create a GOT entry.
pub const R_X86_64_GLOB_DAT: u32 = 6;

/// x86-64 relocation: create a PLT entry.
pub const R_X86_64_JUMP_SLOT: u32 = 7;

/// x86-64 relocation: adjust by the load base.
pub const R_X86_64_RELATIVE: u32 = 8;

/// x86-64 relocation: ID of the module containing a TLS symbol.
pub const R_X86_64_DTPMOD64: u32 = 16;

} // verus!
