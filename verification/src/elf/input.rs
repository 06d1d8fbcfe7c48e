//! A plain-value view of a parsed ELF dynamic shared object.
//!
//! The conversion passes read the input image through these records: each
//! carries, as plain values, exactly what the passes inspect (addresses,
//! sizes, flags, uncompressed bytes).  A caller that parses an ELF file fills
//! them in and hands the result to [`crate::elf::convert`].

use vstd::prelude::*;

verus! {

/// Endianness of an ELF image.
#[derive(Clone, Copy, Debug, PartialEq, Eq, Structural)]
pub enum Endian {
    Little,
    Big,
}

/// Bit width of an ELF image.
#[derive(Clone, Copy, Debug, PartialEq, Eq, Structural)]
pub enum ElfClass {
    Elf32,
    Elf64,
}

/// Machine architecture of an object file.
#[derive(Clone, Copy, Debug, PartialEq, Eq, Structural)]
pub enum Arch {
    Unknown,
    Aarch64,
    Arm,
    I386,
    X86_64,
    LoongArch64,
    Mips,
    Mips64,
    PowerPc,
    PowerPc64,
    Riscv32,
    Riscv64,
    S390x,
    Sparc64,
}

/// A program header entry of the input image.
#[derive(Clone, Copy, Debug, PartialEq, Eq, Structural)]
pub struct Segment {
    /// Segment type (`p_type`).
    pub p_type: u32,
    /// Virtual address of the first byte of the segment.
    pub addr: u64,
    /// Size of the segment in memory.
    pub size: u64,
}

/// An input section, with its uncompressed contents.
#[derive(Debug)]
pub struct InputSection {
    /// Virtual address of the first byte of the section (`sh_addr`).
    pub addr: u64,
    /// Size of the section in memory (`sh_size`).
    pub size: u64,
    /// Required alignment (`sh_addralign`).
    pub align: u64,
    /// Section type (`sh_type`).
    pub sh_type: u32,
    /// Section flags (`sh_flags`).
    pub sh_flags: u64,
    /// The section's uncompressed bytes; never longer than `size`.
    pub data: Vec<u8>,
}

/// Mathematical view of an [`InputSection`].
#[verifier::ext_equal]
pub struct InputSectionV {
    /// Virtual address of the first byte of the section.
    pub addr: u64,
    /// Size of the section in memory.
    pub size: u64,
    /// Required alignment.
    pub align: u64,
    /// Section type.
    pub sh_type: u32,
    /// Section flags.
    pub sh_flags: u64,
    /// The section's uncompressed bytes.
    pub data: Seq<u8>,
}

impl View for InputSection {
    type V = InputSectionV;

    open spec fn view(&self) -> InputSectionV {
        InputSectionV {
            addr: self.addr,
            size: self.size,
            align: self.align,
            sh_type: self.sh_type,
            sh_flags: self.sh_flags,
            data: self.data@,
        }
    }
}

impl InputSectionV {
    /// The section's bytes fit inside its declared size, and its address
    /// range fits in an address word.
    pub open spec fn wf(self) -> bool {
        &&& self.data.len() <= self.size
        &&& self.addr + self.size <= u64::MAX
    }
}

/// Scope of a symbol, as the input reports it.
#[derive(Clone, Copy, Debug, PartialEq, Eq, Structural)]
pub enum SymbolScope {
    /// The input gave no usable scope.
    Unknown,
    /// Visible inside one compilation unit only.
    Compilation,
    /// Visible to the static linker.
    Linkage,
    /// Visible to the dynamic loader.
    Dynamic,
}

/// Kind of a symbol.
#[derive(Clone, Copy, Debug, PartialEq, Eq, Structural)]
pub enum SymbolKind {
    Unknown,
    Text,
    Data,
    Section,
    File,
    Label,
    Tls,
}

/// The section a symbol is defined against.
#[derive(Clone, Copy, Debug, PartialEq, Eq, Structural)]
pub enum SymbolSectionRef {
    /// The symbol is not associated with any section.
    NoSection,
    /// The symbol is undefined.
    Undefined,
    /// The symbol has an absolute value.
    Absolute,
    /// The symbol is a common data object.
    Common,
    /// The symbol is defined in the section with this index.
    Section(usize),
}

/// A dynamic symbol of the input image.
#[derive(Debug)]
pub struct InputSymbol {
    /// Index of the symbol in the input's dynamic symbol table.
    pub index: usize,
    /// The symbol's name bytes.
    pub name: Vec<u8>,
    /// The symbol's address.
    pub value: u64,
    /// The symbol's size.
    pub size: u64,
    /// Kind of the symbol.
    pub kind: SymbolKind,
    /// Scope of the symbol, as reported by the input.
    pub scope: SymbolScope,
    /// Whether the symbol has weak binding.
    pub weak: bool,
    /// The section the symbol is defined against.
    pub section: SymbolSectionRef,
    /// Raw ELF binding and type byte (`st_info`).
    pub st_info: u8,
    /// Raw ELF visibility byte (`st_other`).
    pub st_other: u8,
}

/// Mathematical view of an [`InputSymbol`].
#[verifier::ext_equal]
pub struct InputSymbolV {
    /// Index of the symbol in the input's dynamic symbol table.
    pub index: usize,
    /// The symbol's name bytes.
    pub name: Seq<u8>,
    /// The symbol's address.
    pub value: u64,
    /// The symbol's size.
    pub size: u64,
    /// Kind of the symbol.
    pub kind: SymbolKind,
    /// Scope of the symbol, as reported by the input.
    pub scope: SymbolScope,
    /// Whether the symbol has weak binding.
    pub weak: bool,
    /// The section the symbol is defined against.
    pub section: SymbolSectionRef,
    /// Raw ELF binding and type byte.
    pub st_info: u8,
    /// Raw ELF visibility byte.
    pub st_other: u8,
}

impl View for InputSymbol {
    type V = InputSymbolV;

    open spec fn view(&self) -> InputSymbolV {
        InputSymbolV {
            index: self.index,
            name: self.name@,
            value: self.value,
            size: self.size,
            kind: self.kind,
            scope: self.scope,
            weak: self.weak,
            section: self.section,
            st_info: self.st_info,
            st_other: self.st_other,
        }
    }
}

/// Kind of a relocation.
#[derive(Clone, Copy, Debug, PartialEq, Eq, Structural)]
pub enum RelocationKind {
    /// A direct absolute relocation.
    Absolute,
    /// An ELF relocation with this raw type value.
    Elf(u32),
    /// Any other kind; never convertible.
    Other,
}

/// A dynamic relocation of the input image.
#[derive(Clone, Copy, Debug)]
pub struct InputRelocation {
    /// Virtual address of the place the relocation applies to.
    pub addr: u64,
    /// Kind of the relocation.
    pub kind: RelocationKind,
    /// Size in bits of the place; 0 when implied by the kind.
    pub size: u8,
    /// Index of the target dynamic symbol, when the target is a symbol.
    pub target: Option<usize>,
    /// The relocation's explicit addend.
    pub addend: i64,
}

/// A parsed ELF dynamic shared object, as plain values.
#[derive(Debug)]
pub struct ElfInput {
    /// Bit width of the image.
    pub class: ElfClass,
    /// Endianness of the image.
    pub endian: Endian,
    /// Machine architecture of the image.
    pub arch: Arch,
    /// All sections, in section-index order; index 0 is the sentinel.
    pub sections: Vec<InputSection>,
    /// All program header entries, in program-header order.
    pub segments: Vec<Segment>,
    /// The dynamic symbols, in dynamic-symbol-table order.
    pub dynamic_symbols: Vec<InputSymbol>,
    /// The dynamic relocations, in iteration order.
    pub dynamic_relocations: Vec<InputRelocation>,
}

/// Mathematical view of an [`ElfInput`].
#[verifier::ext_equal]
pub struct ElfInputV {
    /// Bit width of the image.
    pub class: ElfClass,
    /// Endianness of the image.
    pub endian: Endian,
    /// Machine architecture of the image.
    pub arch: Arch,
    /// All sections, in section-index order.
    pub sections: Seq<InputSectionV>,
    /// All program header entries.
    pub segments: Seq<Segment>,
    /// The dynamic symbols.
    pub dynamic_symbols: Seq<InputSymbolV>,
    /// The dynamic relocations.
    pub dynamic_relocations: Seq<InputRelocation>,
}

impl View for ElfInput {
    type V = ElfInputV;

    open spec fn view(&self) -> ElfInputV {
        ElfInputV {
            class: self.class,
            endian: self.endian,
            arch: self.arch,
            sections: self.sections@.map_values(|s: InputSection| s@),
            segments: self.segments@,
            dynamic_symbols: self.dynamic_symbols@.map_values(|s: InputSymbol| s@),
            dynamic_relocations: self.dynamic_relocations@,
        }
    }
}

impl ElfInputV {
    /// Every section and segment fits in the address space.
    pub open spec fn wf(self) -> bool {
        &&& forall|i: int|
            0 <= i < self.sections.len() ==> (#[trigger] self.sections[i]).wf()
        &&& forall|j: int|
            0 <= j < self.segments.len() ==> (#[trigger] self.segments[j]).addr
                + self.segments[j].size <= u64::MAX
    }
}

impl ElfInput {
    /// Decide whether the input is well formed: every section's bytes fit
    /// inside its declared size, and every section's and segment's address
    /// range fits in an address word.
    pub fn is_well_formed(&self) -> (r: bool)
        ensures
            r == self@.wf(),
    {
        let n = self.sections.len();
        let mut i: usize = 0;
        while i < n
            invariant
                0 <= i <= n,
                n == self@.sections.len(),
                forall|i0: int| 0 <= i0 < i ==> (#[trigger] self@.sections[i0]).wf(),
            decreases n - i,
        {
            let sec = &self.sections[i];
            let data_len = sec.data.len();
            if !(data_len as u64 <= sec.size) {
                assert(!self@.sections[i as int].wf());
                return false;
            }
            if !(sec.addr as u128 + sec.size as u128 <= u64::MAX as u128) {
                assert(!self@.sections[i as int].wf());
                return false;
            }
            assert(self@.sections[i as int].wf());
            i = i + 1;
        }
        let m = self.segments.len();
        let mut j: usize = 0;
        while j < m
            invariant
                0 <= j <= m,
                m == self@.segments.len(),
                forall|i0: int| 0 <= i0 < self@.sections.len() ==> (#[trigger] self@.sections[i0]).wf(),
                forall|j0: int|
                    0 <= j0 < j ==> (#[trigger] self@.segments[j0]).addr + self@.segments[j0].size
                        <= u64::MAX,
            decreases m - j,
        {
            let seg = self.segments[j];
            if !(seg.addr as u128 + seg.size as u128 <= u64::MAX as u128) {
                assert(self@.segments[j as int].addr + self@.segments[j as int].size > u64::MAX);
                return false;
            }
            j = j + 1;
        }
        true
    }
}

} // verus!
