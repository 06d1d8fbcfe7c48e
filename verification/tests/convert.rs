//! End-to-end tests of the conversion pipeline on small synthetic inputs.

use soda::elf::convert;
use soda::elf::convert_supported;
use soda::elf::input::{
    Arch, ElfClass, ElfInput, Endian, InputRelocation, InputSection, InputSymbol, RelocationKind,
    Segment, SymbolKind, SymbolScope, SymbolSectionRef,
};
use soda::elf::output::OutputSymbolSection;
use soda::elf::elf_output_params;
use soda::elf::ConvertError;
use soda::elf::CreateContextError;
use soda::pass::PassError;
use soda::elf::pass::reloc::ConvertRelocationError;

fn section(addr: u64, size: u64, align: u64, sh_type: u32, sh_flags: u64, data: Vec<u8>) -> InputSection {
    InputSection { addr, size, align, sh_type, sh_flags, data }
}

fn symbol(
    index: usize,
    name: &str,
    value: u64,
    st_info: u8,
    st_other: u8,
    section: SymbolSectionRef,
) -> InputSymbol {
    InputSymbol {
        index,
        name: name.as_bytes().to_vec(),
        value,
        size: 0,
        kind: SymbolKind::Data,
        scope: SymbolScope::Dynamic,
        weak: false,
        section,
        st_info,
        st_other,
    }
}

/// A small x86-64 shared object: a sentinel section, a writable data
/// section at 0x100 and an executable section at 0x200, one loadable
/// segment covering both, five dynamic symbols and three dynamic
/// relocations.
fn sample_input() -> ElfInput {
    let data1: Vec<u8> = (1..=16).collect();
    let data2: Vec<u8> = vec![0xAA; 8];
    ElfInput {
        class: ElfClass::Elf64,
        endian: Endian::Little,
        arch: Arch::X86_64,
        sections: vec![
            section(0, 0, 0, 0, 0, vec![]),
            section(0x100, 0x10, 4, 1, 2 | 1, data1),
            section(0x200, 0x8, 8, 1, 2 | 4, data2),
        ],
        segments: vec![Segment { p_type: 1, addr: 0x100, size: 0x108 }],
        dynamic_symbols: vec![
            symbol(1, "foo", 0, 0x12, 0, SymbolSectionRef::Undefined),
            symbol(2, "bar", 0x104, 0x11, 0, SymbolSectionRef::Section(1)),
            symbol(3, "loc", 0x108, 0x01, 0, SymbolSectionRef::Section(1)),
            symbol(4, "uni", 0x200, 0xA2, 0, SymbolSectionRef::Section(2)),
            symbol(5, "hid", 0x10c, 0x12, 2, SymbolSectionRef::Section(1)),
        ],
        dynamic_relocations: vec![
            InputRelocation {
                addr: 0x108,
                kind: RelocationKind::Elf(8),
                size: 64,
                target: None,
                addend: 0x200,
            },
            InputRelocation {
                addr: 0x200,
                kind: RelocationKind::Elf(6),
                size: 64,
                target: Some(1),
                addend: 0,
            },
            InputRelocation {
                addr: 0x50,
                kind: RelocationKind::Elf(8),
                size: 64,
                target: None,
                addend: 0,
            },
        ],
    }
}

#[test]
fn sample_input_is_supported() {
    let input = sample_input();
    assert!(convert_supported(&input));
}

#[test]
fn convert_coalesces_loadable_sections() {
    let input = sample_input();
    let out = convert(input).unwrap();

    assert_eq!(out.sections.len(), 1);
    let sec = &out.sections[0];
    assert_eq!(sec.name, b"soda".to_vec());
    assert_eq!(sec.sh_type, 1);
    // ALLOC always, WRITE and EXECINSTR because some retained section has them.
    assert_eq!(sec.flags, 2 | 1 | 4);
    assert_eq!(sec.align, 8);
    assert_eq!(sec.data.len(), 0x208);
    // Byte fidelity: each retained section's bytes stand at its addresses.
    assert_eq!(&sec.data[0x100..0x110], (1..=16).collect::<Vec<u8>>().as_slice());
    assert_eq!(&sec.data[0x200..0x208], vec![0xAA; 8].as_slice());
    // Gaps stay zero.
    assert!(sec.data[..0x100].iter().all(|b| *b == 0));
    assert!(sec.data[0x110..0x200].iter().all(|b| *b == 0));
}

#[test]
fn convert_synthesizes_symbols() {
    let input = sample_input();
    let out = convert(input).unwrap();

    // The section symbol, the undefined symbol, and the two selected
    // defined symbols; the local and the hidden symbol are omitted.
    assert_eq!(out.symbols.len(), 4);
    let section_sym = &out.symbols[0];
    assert!(matches!(section_sym.section, OutputSymbolSection::Section(0)));

    let foo = &out.symbols[1];
    assert_eq!(foo.name, b"foo".to_vec());
    assert!(matches!(foo.section, OutputSymbolSection::Undefined));
    assert_eq!(foo.st_info, 0x12);

    let bar = &out.symbols[2];
    assert_eq!(bar.name, b"bar".to_vec());
    assert!(matches!(bar.section, OutputSymbolSection::Section(0)));
    assert_eq!(bar.value, 0x104);
    assert_eq!(bar.st_info, 0x11);

    // The GNU-unique binding is downgraded to global.
    let uni = &out.symbols[3];
    assert_eq!(uni.name, b"uni".to_vec());
    assert_eq!(uni.st_info, 0x12);
    for sym in &out.symbols {
        assert_ne!(sym.st_info >> 4, 10);
    }
}

#[test]
fn convert_translates_relocations() {
    let input = sample_input();
    let out = convert(input).unwrap();

    // The out-of-range relocation at 0x50 is skipped.
    assert_eq!(out.relocations.len(), 2);

    let (sec0, rel0) = &out.relocations[0];
    assert_eq!(*sec0, 0);
    assert_eq!(rel0.offset, 0x108);
    assert!(matches!(rel0.kind, RelocationKind::Absolute));
    // A relative relocation is against the coalesced section's symbol.
    assert_eq!(rel0.symbol, 0);
    assert_eq!(rel0.addend, 0x200);
    assert_eq!(rel0.size, 64);

    let (sec1, rel1) = &out.relocations[1];
    assert_eq!(*sec1, 0);
    assert_eq!(rel1.offset, 0x200);
    assert!(matches!(rel1.kind, RelocationKind::Absolute));
    // A symbolic relocation is against the translated target symbol.
    assert_eq!(rel1.symbol, 1);
    assert_eq!(rel1.addend, 0);
}

#[test]
fn convert_preserves_module_id_relocations() {
    let mut input = sample_input();
    input.dynamic_relocations = vec![InputRelocation {
        addr: 0x100,
        kind: RelocationKind::Elf(16),
        size: 64,
        target: None,
        addend: 7,
    }];
    let out = convert(input).unwrap();
    assert_eq!(out.relocations.len(), 1);
    let (_, rel) = &out.relocations[0];
    assert!(matches!(rel.kind, RelocationKind::Elf(16)));
    assert_eq!(rel.symbol, 0);
    assert_eq!(rel.addend, 7);
}

#[test]
fn empty_dso_converts_to_empty_section() {
    let input = ElfInput {
        class: ElfClass::Elf64,
        endian: Endian::Little,
        arch: Arch::X86_64,
        sections: vec![section(0, 0, 0, 0, 0, vec![])],
        segments: vec![],
        dynamic_symbols: vec![],
        dynamic_relocations: vec![],
    };
    assert!(convert_supported(&input));
    let out = convert(input).unwrap();
    assert_eq!(out.sections.len(), 1);
    assert_eq!(out.sections[0].data.len(), 0);
    // Only the coalesced section's own symbol exists; nothing was
    // synthesized and nothing was relocated.
    assert_eq!(out.symbols.len(), 1);
    assert_eq!(out.relocations.len(), 0);
}

#[test]
fn no_dynamic_relocations_appends_none() {
    let mut input = sample_input();
    input.dynamic_relocations = vec![];
    let out = convert(input).unwrap();
    assert_eq!(out.relocations.len(), 0);
}

#[test]
fn unsupported_relocation_kind_fails() {
    let mut input = sample_input();
    input.dynamic_relocations = vec![InputRelocation {
        addr: 0x100,
        kind: RelocationKind::Elf(99),
        size: 64,
        target: None,
        addend: 0,
    }];
    let err = convert(input).unwrap_err();
    match err {
        ConvertError::Pass(rpe) => {
            assert_eq!(rpe.name, "convert relocations".to_string());
            assert_eq!(
                rpe.error,
                PassError::ConvertRelocation(ConvertRelocationError::UnsupportedReloc(
                    RelocationKind::Elf(99)
                ))
            );
        },
        other => panic!("unexpected error: {:?}", other),
    }
}

#[test]
fn non_x86_64_input_fails() {
    let mut input = sample_input();
    input.arch = Arch::Aarch64;
    let err = convert(input).unwrap_err();
    assert!(matches!(err, ConvertError::UnsupportedArch(Arch::Aarch64)));
}

#[test]
fn unmapped_relocation_target_is_unsupported_input() {
    let mut input = sample_input();
    // A symbolic relocation against the omitted local symbol: no output
    // symbol exists for it, so the conversion's preconditions fail.
    input.dynamic_relocations = vec![InputRelocation {
        addr: 0x100,
        kind: RelocationKind::Elf(6),
        size: 64,
        target: Some(3),
        addend: 0,
    }];
    assert!(!convert_supported(&input));
}

#[test]
fn elf_output_params_classifies_ident() {
    assert_eq!(elf_output_params(1, 62).unwrap(), (Endian::Little, Arch::X86_64));
    assert_eq!(elf_output_params(2, 62).unwrap(), (Endian::Big, Arch::X86_64));
    assert_eq!(elf_output_params(1, 3).unwrap(), (Endian::Little, Arch::I386));
    assert!(matches!(
        elf_output_params(1, 40),
        Err(CreateContextError::UnsupportedArch)
    ));
    assert!(matches!(
        elf_output_params(9, 62),
        Err(CreateContextError::CorruptedData(_))
    ));
}
