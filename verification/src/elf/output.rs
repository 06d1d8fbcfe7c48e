//! A plain-value model of the output relocatable object under construction.
//!
//! The passes build the output object through this type: sections, symbols
//! and relocations accumulate in order, and an identifier is the position at
//! which an entry was appended.  A caller turns the finished value into an
//! actual object file.

use vstd::prelude::*;

use crate::elf::input::{Arch, Endian, RelocationKind, SymbolKind, SymbolScope};

verus! {

/// A section of the output object.
#[derive(Debug)]
pub struct OutputSection {
    /// The section's name bytes.
    pub name: Vec<u8>,
    /// Section type (`sh_type`).
    pub sh_type: u32,
    /// Section flags (`sh_flags`).
    pub flags: u64,
    /// Required alignment of the section data.
    pub align: u64,
    /// The section's contents.
    pub data: Vec<u8>,
    /// Identifier of the section's defining symbol, once one was made.
    pub symbol_id: Option<usize>,
}

/// Mathematical view of an [`OutputSection`].
#[verifier::ext_equal]
pub struct OutputSectionV {
    /// The section's name bytes.
    pub name: Seq<u8>,
    /// Section type.
    pub sh_type: u32,
    /// Section flags.
    pub flags: u64,
    /// Required alignment of the section data.
    pub align: u64,
    /// The section's contents.
    pub data: Seq<u8>,
    /// Identifier of the section's defining symbol, once one was made.
    pub symbol_id: Option<usize>,
}

impl View for OutputSection {
    type V = OutputSectionV;

    open spec fn view(&self) -> OutputSectionV {
        OutputSectionV {
            name: self.name@,
            sh_type: self.sh_type,
            flags: self.flags,
            align: self.align,
            data: self.data@,
            symbol_id: self.symbol_id,
        }
    }
}

/// The section an output symbol is defined against.
#[derive(Clone, Copy, Debug, PartialEq, Eq, Structural)]
pub enum OutputSymbolSection {
    /// The symbol is not associated with any section.
    NoSection,
    /// The symbol is undefined.
    Undefined,
    /// The symbol has an absolute value.
    Absolute,
    /// The symbol is a common data object.
    Common,
    /// The symbol is defined in the output section with this identifier.
    Section(usize),
}

/// A symbol of the output object.
#[derive(Debug)]
pub struct OutputSymbol {
    /// The symbol's name bytes.
    pub name: Vec<u8>,
    /// The symbol's value.
    pub value: u64,
    /// The symbol's size.
    pub size: u64,
    /// Kind of the symbol.
    pub kind: SymbolKind,
    /// Scope of the symbol.
    pub scope: SymbolScope,
    /// Whether the symbol has weak binding.
    pub weak: bool,
    /// The section the symbol is defined against.
    pub section: OutputSymbolSection,
    /// Raw ELF binding and type byte (`st_info`).
    pub st_info: u8,
    /// Raw ELF visibility byte (`st_other`).
    pub st_other: u8,
}

/// Mathematical view of an [`OutputSymbol`].
#[verifier::ext_equal]
pub struct OutputSymbolV {
    /// The symbol's name bytes.
    pub name: Seq<u8>,
    /// The symbol's value.
    pub value: u64,
    /// The symbol's size.
    pub size: u64,
    /// Kind of the symbol.
    pub kind: SymbolKind,
    /// Scope of the symbol.
    pub scope: SymbolScope,
    /// Whether the symbol has weak binding.
    pub weak: bool,
    /// The section the symbol is defined against.
    pub section: OutputSymbolSection,
    /// Raw ELF binding and type byte.
    pub st_info: u8,
    /// Raw ELF visibility byte.
    pub st_other: u8,
}

impl View for OutputSymbol {
    type V = OutputSymbolV;

    open spec fn view(&self) -> OutputSymbolV {
        OutputSymbolV {
            name: self.name@,
            value: self.value,
            size: self.size,
            kind: self.kind,
            scope: self.scope,
            weak: self.weak,
            section: self.section,
            st_info: self.st_info,
            st_other: self.st_other,
        }
    }
}

/// A static relocation of the output object.
#[derive(Clone, Copy, Debug)]
pub struct OutputRelocation {
    /// Offset of the place inside the section the relocation is attached to.
    pub offset: u64,
    /// Size in bits of the place.
    pub size: u8,
    /// Kind of the relocation.
    pub kind: RelocationKind,
    /// Identifier of the output symbol the relocation is against.
    pub symbol: usize,
    /// The relocation's explicit addend.
    pub addend: i64,
}

/// The defining symbol of an output section, as the model creates it: a
/// local section symbol without a name.
pub open spec fn section_symbol_entry(section: usize) -> OutputSymbolV {
    OutputSymbolV {
        name: Seq::empty(),
        value: 0,
        size: 0,
        kind: SymbolKind::Section,
        scope: SymbolScope::Compilation,
        weak: false,
        section: OutputSymbolSection::Section(section),
        st_info: 3,
        st_other: 0,
    }
}

/// The output relocatable object under construction.
#[derive(Debug)]
pub struct OutputObject {
    /// Machine architecture of the object.
    pub arch: Arch,
    /// Endianness of the object.
    pub endian: Endian,
    /// The sections appended so far; a section identifier is an index here.
    pub sections: Vec<OutputSection>,
    /// The symbols appended so far; a symbol identifier is an index here.
    pub symbols: Vec<OutputSymbol>,
    /// The relocations appended so far, each with the identifier of the
    /// section it is attached to.
    pub relocations: Vec<(usize, OutputRelocation)>,
}

/// Mathematical view of an [`OutputObject`].
#[verifier::ext_equal]
pub struct OutputObjectV {
    /// Machine architecture of the object.
    pub arch: Arch,
    /// Endianness of the object.
    pub endian: Endian,
    /// The sections appended so far.
    pub sections: Seq<OutputSectionV>,
    /// The symbols appended so far.
    pub symbols: Seq<OutputSymbolV>,
    /// The relocations appended so far.
    pub relocations: Seq<(usize, OutputRelocation)>,
}

impl View for OutputObject {
    type V = OutputObjectV;

    open spec fn view(&self) -> OutputObjectV {
        OutputObjectV {
            arch: self.arch,
            endian: self.endian,
            sections: self.sections@.map_values(|s: OutputSection| s@),
            symbols: self.symbols@.map_values(|s: OutputSymbol| s@),
            relocations: self.relocations@,
        }
    }
}

impl OutputObjectV {
    /// An output object holding no sections, symbols or relocations.
    pub open spec fn empty(arch: Arch, endian: Endian) -> OutputObjectV {
        OutputObjectV {
            arch,
            endian,
            sections: Seq::empty(),
            symbols: Seq::empty(),
            relocations: Seq::empty(),
        }
    }

    /// A fresh section as [`OutputObject::add_section`] appends it.
    pub open spec fn fresh_section(name: Seq<u8>, sh_type: u32) -> OutputSectionV {
        OutputSectionV {
            name,
            sh_type,
            flags: 0,
            align: 1,
            data: Seq::empty(),
            symbol_id: None,
        }
    }
}

impl OutputObject {
    /// Create an empty output object for the given architecture and
    /// endianness.
    pub fn new(arch: Arch, endian: Endian) -> (r: OutputObject)
        ensures
            r@ == OutputObjectV::empty(arch, endian),
    {
        let r = OutputObject {
            arch,
            endian,
            sections: Vec::new(),
            symbols: Vec::new(),
            relocations: Vec::new(),
        };
        proof {
            assert(r@ =~= OutputObjectV::empty(arch, endian));
        }
        r
    }

    /// Append a new, empty section and return its identifier.
    pub fn add_section(&mut self, name: Vec<u8>, sh_type: u32) -> (id: usize)
        ensures
            id == old(self)@.sections.len(),
            final(self)@ == (OutputObjectV {
                sections: old(self)@.sections.push(
                    OutputObjectV::fresh_section(name@, sh_type),
                ),
                ..old(self)@
            }),
    {
        let id = self.sections.len();
        self.sections.push(
            OutputSection {
                name,
                sh_type,
                flags: 0,
                align: 1,
                data: Vec::new(),
                symbol_id: None,
            },
        );
        proof {
            assert(self@.sections =~= old(self)@.sections.push(
                OutputObjectV::fresh_section(self.sections@.last().name@, sh_type),
            ));
            assert(self@ =~= (OutputObjectV {
                sections: self@.sections,
                ..old(self)@
            }));
        }
        id
    }

    /// Return the identifier of the section's defining symbol, creating the
    /// symbol the first time it is asked for.
    pub fn section_symbol(&mut self, section: usize) -> (id: usize)
        requires
            section < old(self)@.sections.len(),
        ensures
            match old(self)@.sections[section as int].symbol_id {
                Some(existing) => {
                    &&& id == existing
                    &&& final(self)@ == old(self)@
                },
                None => {
                    &&& id == old(self)@.symbols.len()
                    &&& final(self)@ == (OutputObjectV {
                        sections: old(self)@.sections.update(
                            section as int,
                            OutputSectionV {
                                symbol_id: Some(id),
                                ..old(self)@.sections[section as int]
                            },
                        ),
                        symbols: old(self)@.symbols.push(section_symbol_entry(section)),
                        ..old(self)@
                    })
                },
            },
    {
        let existing = self.sections[section].symbol_id;
        match existing {
            Some(sym) => {
                proof {
                    assert(final(self)@ =~= old(self)@);
                }
                sym
            },
            None => {
                let id = self.symbols.len();
                self.symbols.push(
                    OutputSymbol {
                        name: Vec::new(),
                        value: 0,
                        size: 0,
                        kind: SymbolKind::Section,
                        scope: SymbolScope::Compilation,
                        weak: false,
                        section: OutputSymbolSection::Section(section),
                        st_info: 3,
                        st_other: 0,
                    },
                );
                let mut sec = self.sections.remove(section);
                sec.symbol_id = Some(id);
                self.sections.insert(section, sec);
                proof {
                    assert(self@.sections =~= old(self)@.sections.update(
                        section as int,
                        OutputSectionV {
                            symbol_id: Some(id as usize),
                            ..old(self)@.sections[section as int]
                        },
                    ));
                    assert(self@.symbols =~= old(self)@.symbols.push(
                        section_symbol_entry(section),
                    ));
                    assert(self@ =~= (OutputObjectV {
                        sections: self@.sections,
                        symbols: self@.symbols,
                        ..old(self)@
                    }));
                }
                id
            },
        }
    }

    /// Set the given section's contents and alignment.
    pub fn set_section_data(&mut self, section: usize, data: Vec<u8>, align: u64)
        requires
            section < old(self)@.sections.len(),
        ensures
            final(self)@ == (OutputObjectV {
                sections: old(self)@.sections.update(
                    section as int,
                    OutputSectionV {
                        data: data@,
                        align,
                        ..old(self)@.sections[section as int]
                    },
                ),
                ..old(self)@
            }),
    {
        let mut sec = self.sections.remove(section);
        sec.data = data;
        sec.align = align;
        self.sections.insert(section, sec);
        proof {
            assert(self@.sections =~= old(self)@.sections.update(
                section as int,
                OutputSectionV {
                    data: self.sections@[section as int].data@,
                    align,
                    ..old(self)@.sections[section as int]
                },
            ));
            assert(self@ =~= (OutputObjectV { sections: self@.sections, ..old(self)@ }));
        }
    }

    /// Set the given section's flags.
    pub fn set_section_flags(&mut self, section: usize, flags: u64)
        requires
            section < old(self)@.sections.len(),
        ensures
            final(self)@ == (OutputObjectV {
                sections: old(self)@.sections.update(
                    section as int,
                    OutputSectionV { flags, ..old(self)@.sections[section as int] },
                ),
                ..old(self)@
            }),
    {
        let mut sec = self.sections.remove(section);
        sec.flags = flags;
        self.sections.insert(section, sec);
        proof {
            assert(self@.sections =~= old(self)@.sections.update(
                section as int,
                OutputSectionV { flags, ..old(self)@.sections[section as int] },
            ));
            assert(self@ =~= (OutputObjectV { sections: self@.sections, ..old(self)@ }));
        }
    }

    /// Append a symbol and return its identifier.
    pub fn add_symbol(&mut self, symbol: OutputSymbol) -> (id: usize)
        ensures
            id == old(self)@.symbols.len(),
            final(self)@ == (OutputObjectV {
                symbols: old(self)@.symbols.push(symbol@),
                ..old(self)@
            }),
    {
        let id = self.symbols.len();
        let ghost symv = symbol@;
        self.symbols.push(symbol);
        proof {
            assert(self@.symbols =~= old(self)@.symbols.push(symv));
            assert(self@ =~= (OutputObjectV { symbols: self@.symbols, ..old(self)@ }));
        }
        id
    }

    /// Attach a relocation to the given section.
    pub fn add_relocation(&mut self, section: usize, relocation: OutputRelocation)
        requires
            section < old(self)@.sections.len(),
            relocation.symbol < old(self)@.symbols.len(),
        ensures
            final(self)@ == (OutputObjectV {
                relocations: old(self)@.relocations.push((section, relocation)),
                ..old(self)@
            }),
    {
        self.relocations.push((section, relocation));
        proof {
            assert(self@ =~= (OutputObjectV {
                relocations: old(self)@.relocations.push((section, relocation)),
                ..old(self)@
            }));
        }
    }
}

} // verus!
