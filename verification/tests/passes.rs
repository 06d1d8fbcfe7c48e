//! Tests of the individual passes and of the pass manager.

use soda::elf::input::{
    Arch, ElfClass, ElfInput, Endian, InputRelocation, InputSection, InputSymbol, RelocationKind,
    Segment, SymbolKind, SymbolScope, SymbolSectionRef,
};
use soda::elf::output::OutputObject;
use soda::elf::pass::init_array::{GenerateInitArrayPass, GenerateInitFiniArrayError};
use soda::elf::pass::loader::LoaderPass;
use soda::elf::pass::section::CopyLodableSectionsPass;
use soda::elf::pass::symbol::GenerateSymbolPass;
use soda::elf::pass::{ElfPassAdaptor, ElfPassKind};
use soda::pass::{PassHandle, PassManager, PassOutput};

fn section(addr: u64, size: u64, align: u64, sh_type: u32, sh_flags: u64, data: Vec<u8>) -> InputSection {
    InputSection { addr, size, align, sh_type, sh_flags, data }
}

fn base_input() -> ElfInput {
    ElfInput {
        class: ElfClass::Elf64,
        endian: Endian::Little,
        arch: Arch::X86_64,
        sections: vec![
            section(0, 0, 0, 0, 0, vec![]),
            section(0x100, 0x10, 4, 1, 2, vec![1; 16]),
            section(0x100, 0x8, 4, 1, 2, vec![2; 8]),
            section(0x80, 0x10, 16, 1, 2, vec![3; 16]),
        ],
        segments: vec![Segment { p_type: 1, addr: 0x80, size: 0x90 }],
        dynamic_symbols: vec![],
        dynamic_relocations: vec![],
    }
}

#[test]
fn cls_sorts_by_address_and_keeps_index_order_on_ties() {
    let input = base_input();
    let mut out = OutputObject::new(Arch::X86_64, Endian::Little);
    let cls = CopyLodableSectionsPass;
    let r = cls.run(&input, &mut out);

    assert_eq!(r.output_section_id, 0);
    assert_eq!(r.output_section_symbol, 0);
    assert_eq!(r.output_section_size, 0x110);
    let idxs: Vec<usize> = r.section_maps.iter().map(|m| m.index).collect();
    assert_eq!(idxs, vec![3, 1, 2]);
    for m in &r.section_maps {
        assert_eq!(m.output_range, m.input_range);
    }
    assert_eq!(r.section_maps[0].input_range.start, 0x80);
    assert_eq!(r.section_maps[0].input_range.end, 0x90);
    assert_eq!(r.section_maps[1].input_range.start, 0x100);
    assert_eq!(r.section_maps[1].input_range.end, 0x110);

    // The overlapping sections are both copied; the later one wins where
    // they overlap.
    let sec = &out.sections[0];
    assert_eq!(&sec.data[0x80..0x90], vec![3; 16].as_slice());
    assert_eq!(&sec.data[0x100..0x108], vec![2; 8].as_slice());
    assert_eq!(&sec.data[0x108..0x110], vec![1; 8].as_slice());

    assert!(r.is_section_copied(1));
    assert!(r.is_section_copied(3));
    assert!(!r.is_section_copied(0));
    assert!(!r.is_section_copied(7));
    assert!(r.contains_addr(0x80));
    assert!(r.contains_addr(0x10f));
    assert!(!r.contains_addr(0x90));
}

#[test]
fn cls_excludes_sections_outside_load_segments() {
    let mut input = base_input();
    // A section outside every loadable segment, and one at address zero.
    input.sections.push(section(0x1000, 0x10, 4, 1, 2, vec![9; 16]));
    input.sections.push(section(0, 0x10, 4, 1, 2, vec![9; 16]));
    let mut out = OutputObject::new(Arch::X86_64, Endian::Little);
    let r = CopyLodableSectionsPass.run(&input, &mut out);
    let idxs: Vec<usize> = r.section_maps.iter().map(|m| m.index).collect();
    assert_eq!(idxs, vec![3, 1, 2]);
}

#[test]
fn loader_keeps_duplicates_across_segments() {
    let mut input = base_input();
    // A second loadable segment covering section 3 again, and a
    // non-loadable segment that contributes nothing.
    input.segments.push(Segment { p_type: 1, addr: 0x80, size: 0x10 });
    input.segments.push(Segment { p_type: 2, addr: 0x100, size: 0x10 });
    let dso = LoaderPass.run(&input);
    let idxs: Vec<usize> = dso.loaded_sections.iter().map(|s| s.index).collect();
    // Section 0 (address 0, size 0) is inside neither segment range start;
    // segment [0x80, 0x110) covers sections 3, 1, 2; segment [0x80, 0x90)
    // covers section 3 again.
    assert_eq!(idxs, vec![3, 3, 1, 2]);
    assert_eq!(dso.loaded_sections[0].virt_addr, 0x80);
    assert_eq!(dso.loaded_sections[0].mem_size, 0x10);
    assert_eq!(dso.loaded_sections[0].alignment, 16);
    assert_eq!(dso.loaded_sections[0].data, vec![3; 16]);
}

#[test]
fn init_array_pass_emits_section_and_relocations() {
    let mut input = base_input();
    // Turn section 1 into an initializer array with one relative
    // relocation inside it.
    input.sections[1].sh_type = 14;
    input.dynamic_relocations = vec![InputRelocation {
        addr: 0x108,
        kind: RelocationKind::Elf(8),
        size: 64,
        target: None,
        addend: 0x80,
    }];
    let mut out = OutputObject::new(Arch::X86_64, Endian::Little);
    let cls_out = CopyLodableSectionsPass.run(&input, &mut out);
    let pass = GenerateInitArrayPass::new(PassHandle::new(0));
    pass.run(&input, &mut out, &cls_out).unwrap();

    assert_eq!(out.sections.len(), 2);
    let ia = &out.sections[1];
    assert_eq!(ia.name, b".init_array".to_vec());
    assert_eq!(ia.sh_type, 14);
    assert_eq!(ia.align, 8);
    assert_eq!(ia.data, vec![0; 0x10]);
    assert_eq!(out.relocations.len(), 1);
    let (sec, rel) = &out.relocations[0];
    assert_eq!(*sec, 1);
    assert_eq!(rel.offset, 0x108);
    assert!(matches!(rel.kind, RelocationKind::Absolute));
    assert_eq!(rel.symbol, 0);
    assert_eq!(rel.addend, 0x80);
}

#[test]
fn init_array_pass_rejects_non_relative_relocations() {
    let mut input = base_input();
    input.sections[1].sh_type = 14;
    input.dynamic_relocations = vec![InputRelocation {
        addr: 0x108,
        kind: RelocationKind::Elf(6),
        size: 64,
        target: Some(1),
        addend: 0,
    }];
    let mut out = OutputObject::new(Arch::X86_64, Endian::Little);
    let cls_out = CopyLodableSectionsPass.run(&input, &mut out);
    let pass = GenerateInitArrayPass::new(PassHandle::new(0));
    let err = pass.run(&input, &mut out, &cls_out).unwrap_err();
    assert_eq!(
        err,
        GenerateInitFiniArrayError::UnsupportedReloc(RelocationKind::Elf(6))
    );
    // Nothing was emitted.
    assert_eq!(out.sections.len(), 1);
    assert_eq!(out.relocations.len(), 0);
}

#[test]
fn symbol_map_lookup_finds_only_mapped_symbols() {
    let mut input = base_input();
    input.dynamic_symbols = vec![
        InputSymbol {
            index: 1,
            name: b"one".to_vec(),
            value: 0x100,
            size: 0,
            kind: SymbolKind::Data,
            scope: SymbolScope::Dynamic,
            weak: false,
            section: SymbolSectionRef::Section(1),
            st_info: 0x11,
            st_other: 0,
        },
        InputSymbol {
            index: 2,
            name: b"two".to_vec(),
            value: 0,
            size: 0,
            kind: SymbolKind::Data,
            scope: SymbolScope::Dynamic,
            weak: false,
            section: SymbolSectionRef::Section(1),
            st_info: 0x01,
            st_other: 0,
        },
    ];
    let mut out = OutputObject::new(Arch::X86_64, Endian::Little);
    let cls_out = CopyLodableSectionsPass.run(&input, &mut out);
    let pass = GenerateSymbolPass { cls_pass: PassHandle::new(0) };
    let map = pass.run(&input, &mut out, &cls_out);
    assert_eq!(map.len(), 1);
    assert_eq!(map.get_output_symbol(1), Some(1));
    assert_eq!(map.get_output_symbol(2), None);
    assert_eq!(map.get_output_symbol(9), None);
}

#[test]
fn pass_manager_round_trips_pass_outputs() {
    let input = base_input();
    let output = OutputObject::new(Arch::X86_64, Endian::Little);

    let mut pass_mgr = PassManager::new();
    let cls_pass = pass_mgr.add_pass(ElfPassAdaptor::adapt(ElfPassKind::CopyLodableSections(
        CopyLodableSectionsPass,
    )));
    assert_eq!(cls_pass.idx, 0);

    let (out, outputs) = pass_mgr.run(input, output).unwrap();
    // Fetching the registered pass's output yields exactly what the pass
    // returned: the coalescing output with the expected section map.
    assert_eq!(outputs.len(), 1);
    match &outputs[cls_pass.idx] {
        PassOutput::Sections(c) => {
            assert_eq!(c.output_section_id, 0);
            assert_eq!(c.output_section_size, 0x110);
            let idxs: Vec<usize> = c.section_maps.iter().map(|m| m.index).collect();
            assert_eq!(idxs, vec![3, 1, 2]);
        },
        other => panic!("unexpected pass output: {:?}", other),
    }
    assert_eq!(out.sections.len(), 1);
    assert_eq!(out.sections[0].data.len(), 0x110);
}

#[test]
fn adaptor_reports_pass_names() {
    let a = ElfPassAdaptor::adapt(ElfPassKind::CopyLodableSections(CopyLodableSectionsPass));
    assert_eq!(a.name(), "copy sections".to_string());
    let l = ElfPassAdaptor::adapt(ElfPassKind::Loader(LoaderPass));
    assert_eq!(l.name(), "loader".to_string());
}
