//! The ELF conversion: input model, output model, the conversion passes,
//! and the top-level pipeline that runs them.

pub mod defs;
pub mod input;
pub mod output;
pub mod pass;

use vstd::prelude::*;

use crate::elf::defs::{ELFDATA2LSB, ELFDATA2MSB, EM_386, EM_X86_64};
use crate::elf::input::{Arch, ElfInput, ElfInputV, Endian};
use crate::elf::output::{OutputObject, OutputObjectV};
use crate::elf::pass::reloc::{kind_is_symbolic, reloc_targets_mapped, ConvertRelocationPass};
use crate::elf::pass::section::{cls_maps, cls_size, CopyLodableSectionsPass};
use crate::elf::pass::symbol::{
    emitted_symbols, lemma_binding_normalization, lemma_entry_at, lemma_prefix_lens, st_bind,
    symbol_map_pairs, GenerateSymbolPass,
};
use crate::elf::pass::{pass_name, pass_requires, pass_step, ElfPassAdaptor, ElfPassKind};
use crate::pass::{
    pass_kinds, passes_requires_ok, run_upto, PassError, PassHandle, PassManager, PassOutputV,
    RunPassError,
};

verus! {

/// Errors of the whole conversion.
#[derive(Debug)]
pub enum ConvertError {
    /// The input's architecture is not supported by the conversion.
    UnsupportedArch(Arch),
    /// A pass of the pipeline failed.
    Pass(RunPassError),
}

/// Errors that occur when deciding the output object's parameters from the
/// input's identification fields.
#[derive(Debug)]
pub enum CreateContextError {
    /// The identification bytes are recognized but hold an invalid value.
    CorruptedData(String),
    /// The machine architecture is not yet supported.
    UnsupportedArch,
}

/// Decide the endianness and architecture of the output object from the
/// input ELF's identification data byte and machine field: little- or
/// big-endian data encoding, and an Intel 80386 or AMD x86-64 machine.
pub fn elf_output_params(ei_data: u8, e_machine: u16) -> (r: Result<
    (Endian, Arch),
    CreateContextError,
>)
    ensures
        ({
            if ei_data != ELFDATA2LSB && ei_data != ELFDATA2MSB {
                r matches Err(CreateContextError::CorruptedData(_))
            } else {
                let endian = if ei_data == ELFDATA2LSB {
                    Endian::Little
                } else {
                    Endian::Big
                };
                if e_machine == EM_386 {
                    r matches Ok(p) && p == (endian, Arch::I386)
                } else if e_machine == EM_X86_64 {
                    r matches Ok(p) && p == (endian, Arch::X86_64)
                } else {
                    r matches Err(CreateContextError::UnsupportedArch)
                }
            }
        }),
{
    let endian = if ei_data == ELFDATA2LSB {
        Endian::Little
    } else if ei_data == ELFDATA2MSB {
        Endian::Big
    } else {
        return Err(
            CreateContextError::CorruptedData(
                String::from_str("unknown data encoding in ELF ident"),
            ),
        );
    };
    let arch = if e_machine == EM_386 {
        Arch::I386
    } else if e_machine == EM_X86_64 {
        Arch::X86_64
    } else {
        return Err(CreateContextError::UnsupportedArch);
    };
    Ok((endian, arch))
}

/// Decide whether an input meets everything [`convert`] requires of it.
///
/// A caller that did not itself establish [`convert_requires`] calls this
/// first and treats a `false` as a fatal input error.
pub fn convert_supported(input: &ElfInput) -> (r: bool)
    ensures
        r == convert_requires(input@),
{
    if !input.is_well_formed() {
        return false;
    }
    let size = crate::elf::pass::section::coalesced_size(input);
    if !(size <= usize::MAX as u64) {
        return false;
    }
    let n_syms = input.dynamic_symbols.len();
    if n_syms == usize::MAX {
        return false;
    }
    let is_x86_64 = match input.arch {
        Arch::X86_64 => true,
        _ => false,
    };
    if !is_x86_64 {
        return true;
    }

    let mut scratch = OutputObject::new(Arch::X86_64, input.endian);
    let cls_pass = CopyLodableSectionsPass;
    let cls_out = cls_pass.run(input, &mut scratch);
    assert(cls_out@.section_maps == cls_maps(input@));
    let sym_pass = GenerateSymbolPass { cls_pass: PassHandle { idx: 0 } };
    let sym_map = sym_pass.run(input, &mut scratch, &cls_out);
    assert(sym_map@ == symbol_map_pairs(input@, 1));

    let n_relocs = input.dynamic_relocations.len();
    let mut k: usize = 0;
    while k < n_relocs
        invariant
            0 <= k <= n_relocs,
            n_relocs == input@.dynamic_relocations.len(),
            input@.arch == Arch::X86_64,
            input@.wf(),
            cls_size(input@) <= usize::MAX,
            input@.dynamic_symbols.len() + 1 <= usize::MAX,
            cls_out@.section_maps == cls_maps(input@),
            sym_map@ == symbol_map_pairs(input@, 1),
            forall|k0: int|
                0 <= k0 < k ==> {
                    let r0 = #[trigger] input@.dynamic_relocations[k0];
                    (crate::elf::pass::section::maps_cover(cls_maps(input@), r0.addr as int)
                        && crate::elf::pass::reloc::is_symbolic_kind(r0.kind) && r0.target
                        is Some) ==> crate::elf::pass::symbol::map_lookup(
                        symbol_map_pairs(input@, 1),
                        r0.target->0,
                    ) is Some
                },
        decreases n_relocs - k,
    {
        let rel = input.dynamic_relocations[k];
        if cls_out.contains_addr(rel.addr) && kind_is_symbolic(rel.kind) {
            match rel.target {
                Some(t) => {
                    let looked = sym_map.get_output_symbol(t);
                    if looked.is_none() {
                        proof {
                            let r0 = input@.dynamic_relocations[k as int];
                            assert(crate::elf::pass::section::maps_cover(
                                cls_maps(input@),
                                r0.addr as int,
                            ));
                            assert(crate::elf::pass::reloc::is_symbolic_kind(r0.kind));
                            assert(crate::elf::pass::symbol::map_lookup(
                                symbol_map_pairs(input@, 1),
                                r0.target->0,
                            ) is None);
                            assert(!reloc_targets_mapped(
                                input@,
                                cls_maps(input@),
                                symbol_map_pairs(input@, 1),
                            ));
                        }
                        return false;
                    }
                },
                None => {
                },
            }
        }
        k = k + 1;
    }
    true
}

/// The passes the conversion registers, in order: section coalescing,
/// symbol synthesis, then relocation conversion, the latter two reading
/// the earlier outputs through their handles.
pub open spec fn convert_passes() -> Seq<ElfPassKind> {
    seq![
        ElfPassKind::CopyLodableSections(CopyLodableSectionsPass),
        ElfPassKind::GenerateSymbols(GenerateSymbolPass { cls_pass: PassHandle { idx: 0 } }),
        ElfPassKind::ConvertRelocations(
            ConvertRelocationPass {
                cls_pass: PassHandle { idx: 0 },
                sym_gen_pass: PassHandle { idx: 1 },
            },
        ),
    ]
}

/// What the conversion requires of its input beyond being a parsed shared
/// library: the coalesced image fits in memory, the symbol identifiers fit
/// in an index, and every converted relocation's target symbol is mapped.
pub open spec fn convert_requires(input: ElfInputV) -> bool {
    &&& input.wf()
    &&& cls_size(input) <= usize::MAX
    &&& input.dynamic_symbols.len() + 1 <= usize::MAX
    &&& input.arch == Arch::X86_64 ==> reloc_targets_mapped(
        input,
        cls_maps(input),
        symbol_map_pairs(input, 1),
    )
}

/// Every pass of the conversion pipeline can run: the registered handles
/// are valid and each pass's demands hold in the state it meets.
proof fn lemma_convert_pipeline(input: ElfInputV)
    requires
        convert_requires(input),
        input.arch == Arch::X86_64,
    ensures
        passes_requires_ok(
            convert_passes(),
            input,
            OutputObjectV::empty(Arch::X86_64, input.endian),
            3,
        ),
{
    let ks = convert_passes();
    let out0 = OutputObjectV::empty(Arch::X86_64, input.endian);
    let empty_st = Seq::<PassOutputV>::empty();

    assert(run_upto(ks, input, out0, 0) == Ok::<
        (OutputObjectV, Seq<PassOutputV>),
        (int, PassError),
    >((out0, empty_st)));
    assert(pass_requires(ks[0], input, out0, empty_st));

    let s0 = pass_step(ks[0], input, out0, empty_st);
    assert(s0 is Ok);
    let out1 = s0->Ok_0.0;
    let st1 = empty_st.push(s0->Ok_0.1);
    assert(run_upto(ks, input, out0, 1) == Ok::<
        (OutputObjectV, Seq<PassOutputV>),
        (int, PassError),
    >((out1, st1)));
    assert(out1.symbols.len() == 1);
    assert(st1[0] is Sections);
    assert(st1[0]->Sections_0.section_maps == cls_maps(input));
    assert(pass_requires(ks[1], input, out1, st1));

    let s1 = pass_step(ks[1], input, out1, st1);
    assert(s1 is Ok);
    let out2 = s1->Ok_0.0;
    let st2 = st1.push(s1->Ok_0.1);
    assert(run_upto(ks, input, out0, 2) == Ok::<
        (OutputObjectV, Seq<PassOutputV>),
        (int, PassError),
    >((out2, st2)));
    assert(st2[0] is Sections && st2[1] is Symbols);
    let c = st2[0]->Sections_0;
    let sm = st2[1]->Symbols_0;
    assert(c.output_section_id == 0 && c.output_section_symbol == 0);
    assert(sm == symbol_map_pairs(input, 1));
    let n = input.dynamic_symbols.len() as int;
    lemma_prefix_lens(input, c.output_section_id, 1, n);
    assert(out2.symbols.len() == 1 + sm.len());
    assert forall|j: int| 0 <= j < sm.len() implies (#[trigger] sm[j]).1 < out2.symbols.len() by {
        lemma_entry_at(input, c.output_section_id, 1, n, j);
        assert(sm[j].1 == 1 + j);
    }
    assert(pass_requires(ks[2], input, out2, st2));

    assert forall|k: int| 0 <= k < 3 implies match #[trigger] run_upto(ks, input, out0, k) {
        Ok(p) => pass_requires(ks[k], input, p.0, p.1),
        Err(_) => true,
    } by {
        if k == 0 {
            assert(run_upto(ks, input, out0, 0)->Ok_0 == (out0, empty_st));
        } else if k == 1 {
            assert(run_upto(ks, input, out0, 1)->Ok_0 == (out1, st1));
        } else {
            assert(run_upto(ks, input, out0, 2)->Ok_0 == (out2, st2));
        }
    }
}

/// Register the passes required to convert an ELF shared library.
fn init_passes(pass_mgr: &mut PassManager)
    requires
        old(pass_mgr).passes@.len() == 0,
    ensures
        pass_kinds(final(pass_mgr).passes@) == convert_passes(),
{
    let cls_pass = pass_mgr.add_pass(
        ElfPassAdaptor::adapt(ElfPassKind::CopyLodableSections(CopyLodableSectionsPass)),
    );
    let sym_gen_pass = pass_mgr.add_pass(
        ElfPassAdaptor::adapt(ElfPassKind::GenerateSymbols(GenerateSymbolPass { cls_pass })),
    );
    pass_mgr.add_pass(
        ElfPassAdaptor::adapt(
            ElfPassKind::ConvertRelocations(
                ConvertRelocationPass { cls_pass, sym_gen_pass },
            ),
        ),
    );
    proof {
        assert(pass_kinds(pass_mgr.passes@) =~= convert_passes());
    }
}

/// Create the empty output relocatable object for the given input; only
/// x86-64 inputs are supported.
fn create_elf_output(input: &ElfInput) -> (r: Result<OutputObject, ConvertError>)
    ensures
        ({
            if input@.arch == Arch::X86_64 {
                r matches Ok(o) && o@ == OutputObjectV::empty(Arch::X86_64, input@.endian)
            } else {
                r matches Err(ConvertError::UnsupportedArch(a)) && a == input@.arch
            }
        }),
{
    match input.arch {
        Arch::X86_64 => Ok(OutputObject::new(Arch::X86_64, input.endian)),
        arch => Err(ConvertError::UnsupportedArch(arch)),
    }
}

/// Convert the given ELF input shared library into an ELF relocatable
/// object: coalesce its loadable sections, synthesize its symbol table,
/// and rewrite its dynamic relocations.
pub fn convert(input: ElfInput) -> (r: Result<OutputObject, ConvertError>)
    requires
        convert_requires(input@),
    ensures
        ({
            if input@.arch != Arch::X86_64 {
                r matches Err(ConvertError::UnsupportedArch(a)) && a == input@.arch
            } else {
                let st = run_upto(
                    convert_passes(),
                    input@,
                    OutputObjectV::empty(Arch::X86_64, input@.endian),
                    3,
                );
                match st {
                    Ok(p) => r matches Ok(o) && o@ == p.0,
                    Err(e) => r matches Err(ConvertError::Pass(rpe)) && rpe.error == e.1
                        && rpe.name@ == pass_name(convert_passes()[e.0]),
                }
            }
        }),
{
    let output = match create_elf_output(&input) {
        Ok(o) => o,
        Err(e) => {
            return Err(e);
        },
    };

    proof {
        lemma_convert_pipeline(input@);
    }

    let mut pass_mgr = PassManager::new();
    init_passes(&mut pass_mgr);

    proof {
        assert(pass_kinds(pass_mgr.passes@) == convert_passes());
        assert(pass_mgr.passes@.len() == 3);
        assert(output@ == OutputObjectV::empty(Arch::X86_64, input@.endian));
        assert(passes_requires_ok(
            pass_kinds(pass_mgr.passes@),
            input@,
            output@,
            pass_mgr.passes@.len() as int,
        ));
    }

    match pass_mgr.run(input, output) {
        Ok((obj, _outputs)) => Ok(obj),
        Err(e) => Err(ConvertError::Pass(e)),
    }
}

/// Binding normalization for the whole conversion: no symbol of the
/// produced output object has GNU-unique binding — neither the coalesced
/// section's own symbol nor any synthesized one.
pub proof fn lemma_output_binding_normalization(input: ElfInputV)
    requires
        input.arch == Arch::X86_64,
        run_upto(
            convert_passes(),
            input,
            OutputObjectV::empty(Arch::X86_64, input.endian),
            3,
        ) is Ok,
    ensures
        ({
            let o = run_upto(
                convert_passes(),
                input,
                OutputObjectV::empty(Arch::X86_64, input.endian),
                3,
            )->Ok_0.0;
            forall|j: int|
                0 <= j < o.symbols.len() ==> st_bind(#[trigger] o.symbols[j].st_info)
                    != crate::elf::defs::STB_GNU_UNIQUE
        }),
{
    let ks = convert_passes();
    let out0 = OutputObjectV::empty(Arch::X86_64, input.endian);
    let empty_st = Seq::<PassOutputV>::empty();
    assert(run_upto(ks, input, out0, 0) == Ok::<
        (OutputObjectV, Seq<PassOutputV>),
        (int, PassError),
    >((out0, empty_st)));
    let s0 = pass_step(ks[0], input, out0, empty_st);
    assert(s0 is Ok);
    let out1 = s0->Ok_0.0;
    let st1 = empty_st.push(s0->Ok_0.1);
    assert(run_upto(ks, input, out0, 1) == Ok::<
        (OutputObjectV, Seq<PassOutputV>),
        (int, PassError),
    >((out1, st1)));
    let s1 = pass_step(ks[1], input, out1, st1);
    assert(s1 is Ok);
    let out2 = s1->Ok_0.0;
    let st2 = st1.push(s1->Ok_0.1);
    assert(run_upto(ks, input, out0, 2) == Ok::<
        (OutputObjectV, Seq<PassOutputV>),
        (int, PassError),
    >((out2, st2)));
    let o = run_upto(ks, input, out0, 3)->Ok_0.0;
    assert(o.symbols == out2.symbols);
    assert(out2.symbols == out1.symbols + emitted_symbols(input, 0));
    assert(out1.symbols == out0.symbols.push(crate::elf::output::section_symbol_entry(0)));
    lemma_binding_normalization(input, 0, 1);
    assert forall|j: int| 0 <= j < o.symbols.len() implies st_bind(
        #[trigger] o.symbols[j].st_info,
    ) != crate::elf::defs::STB_GNU_UNIQUE by {
        if j == 0 {
            assert(o.symbols[0].st_info == 3);
            assert(3u8 >> 4 != 10) by (bit_vector);
        } else {
            assert(o.symbols[j] == emitted_symbols(input, 0)[j - 1]);
        }
    }
}

} // verus!
