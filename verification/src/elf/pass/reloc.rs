//! The relocation conversion pass.
//!
//! Each dynamic relocation of the input is rewritten into a static
//! relocation attached to the coalesced output section.  A relative
//! relocation becomes an absolute one against the coalesced section's
//! defining symbol; a symbolic absolute relocation becomes an absolute one
//! against the synthesized output symbol of its target; a module-ID
//! relocation is kept verbatim against the section symbol.  Any other kind
//! is a fatal error, as is any architecture other than x86-64.

use vstd::prelude::*;

use crate::elf::defs::{
    R_X86_64_64, R_X86_64_DTPMOD64, R_X86_64_GLOB_DAT, R_X86_64_JUMP_SLOT, R_X86_64_RELATIVE,
};
use crate::elf::input::{Arch, ElfInput, ElfInputV, InputRelocation, RelocationKind};
use crate::elf::output::{OutputObject, OutputObjectV, OutputRelocation};
use crate::elf::pass::section::{maps_cover, SectionMap, CopyLodableSectionsOutput};
use crate::elf::pass::symbol::{lemma_map_lookup_entry, map_lookup, SymbolMap};
use crate::pass::PassHandle;

verus! {

/// Errors that may occur when converting input relocations.
#[derive(Clone, Copy, Debug, PartialEq, Eq, Structural)]
pub enum ConvertRelocationError {
    /// The input's architecture is not supported by the conversion.
    UnsupportedArch(Arch),
    /// A dynamic relocation has a kind the conversion cannot express.
    UnsupportedReloc(RelocationKind),
}

/// Whether `kind` is an absolute relocation against a symbol: a direct
/// 64-bit word, a GOT entry, or a PLT entry.
pub open spec fn is_symbolic_kind(kind: RelocationKind) -> bool {
    ||| kind == RelocationKind::Absolute
    ||| kind == RelocationKind::Elf(R_X86_64_64)
    ||| kind == RelocationKind::Elf(R_X86_64_GLOB_DAT)
    ||| kind == RelocationKind::Elf(R_X86_64_JUMP_SLOT)
}

/// Decide whether a relocation kind is an absolute relocation against a
/// symbol.
pub fn kind_is_symbolic(kind: RelocationKind) -> (r: bool)
    ensures
        r == is_symbolic_kind(kind),
{
    match kind {
        RelocationKind::Absolute => true,
        RelocationKind::Elf(x) => x == R_X86_64_64 || x == R_X86_64_GLOB_DAT || x
            == R_X86_64_JUMP_SLOT,
        _ => false,
    }
}

/// How one dynamic relocation converts: `Ok(None)` skips it (its place, or
/// a relative relocation's addend, lies outside every retained range),
/// `Ok(Some(..))` emits a static relocation, and `Err(..)` aborts the pass.
pub open spec fn convert_one_reloc(
    maps: Seq<SectionMap>,
    symmap: Seq<(usize, usize)>,
    section_symbol: usize,
    r: InputRelocation,
) -> Result<Option<OutputRelocation>, ConvertRelocationError> {
    if !maps_cover(maps, r.addr as int) {
        Ok(None)
    } else if r.kind == RelocationKind::Elf(R_X86_64_RELATIVE) {
        if r.addend >= 0 && maps_cover(maps, r.addend as int) {
            Ok(
                Some(
                    OutputRelocation {
                        offset: r.addr,
                        size: 64,
                        kind: RelocationKind::Absolute,
                        symbol: section_symbol,
                        addend: r.addend,
                    },
                ),
            )
        } else {
            Ok(None)
        }
    } else if is_symbolic_kind(r.kind) {
        match r.target {
            Some(t) => match map_lookup(symmap, t) {
                Some(id) => Ok(
                    Some(
                        OutputRelocation {
                            offset: r.addr,
                            size: 64,
                            kind: RelocationKind::Absolute,
                            symbol: id,
                            addend: r.addend,
                        },
                    ),
                ),
                None => Err(ConvertRelocationError::UnsupportedReloc(r.kind)),
            },
            None => Err(ConvertRelocationError::UnsupportedReloc(r.kind)),
        }
    } else if r.kind == RelocationKind::Elf(R_X86_64_DTPMOD64) {
        Ok(
            Some(
                OutputRelocation {
                    offset: r.addr,
                    size: 64,
                    kind: RelocationKind::Elf(R_X86_64_DTPMOD64),
                    symbol: section_symbol,
                    addend: r.addend,
                },
            ),
        )
    } else {
        Err(ConvertRelocationError::UnsupportedReloc(r.kind))
    }
}

/// The static relocations emitted for the first `n` dynamic relocations,
/// and the error that stopped the pass there, if one did.
pub open spec fn reloc_fold(
    input: ElfInputV,
    maps: Seq<SectionMap>,
    symmap: Seq<(usize, usize)>,
    section_symbol: usize,
    n: int,
) -> (Seq<OutputRelocation>, Option<ConvertRelocationError>)
    decreases n,
{
    if n <= 0 {
        (Seq::empty(), None)
    } else {
        let (prev, e) = reloc_fold(input, maps, symmap, section_symbol, n - 1);
        if e is Some {
            (prev, e)
        } else {
            match convert_one_reloc(maps, symmap, section_symbol, input.dynamic_relocations[n - 1]) {
                Err(er) => (prev, Some(er)),
                Ok(None) => (prev, None),
                Ok(Some(o)) => (prev.push(o), None),
            }
        }
    }
}

/// Once the fold hits an error, nothing further changes.
pub proof fn lemma_reloc_fold_stuck(
    input: ElfInputV,
    maps: Seq<SectionMap>,
    symmap: Seq<(usize, usize)>,
    section_symbol: usize,
    k: int,
    n: int,
)
    requires
        0 <= k <= n,
        reloc_fold(input, maps, symmap, section_symbol, k).1 is Some,
    ensures
        reloc_fold(input, maps, symmap, section_symbol, n) == reloc_fold(
            input,
            maps,
            symmap,
            section_symbol,
            k,
        ),
    decreases n - k,
{
    if n > k {
        lemma_reloc_fold_stuck(input, maps, symmap, section_symbol, k, n - 1);
    }
}

/// No relocation converts without its preconditions: whenever a covered
/// symbolic relocation names a target symbol, the symbol map knows it.
pub open spec fn reloc_targets_mapped(
    input: ElfInputV,
    maps: Seq<SectionMap>,
    symmap: Seq<(usize, usize)>,
) -> bool {
    forall|k: int|
        0 <= k < input.dynamic_relocations.len() ==> {
            let r = #[trigger] input.dynamic_relocations[k];
            (maps_cover(maps, r.addr as int) && is_symbolic_kind(r.kind) && r.target is Some)
                ==> map_lookup(symmap, r.target->0) is Some
        }
}

/// The pass that converts the dynamic relocations in the input shared
/// library into static relocations in the output relocatable file.
#[derive(Clone, Copy, Debug, PartialEq, Eq, Structural)]
pub struct ConvertRelocationPass {
    /// Handle of the coalescing pass whose section map translates the
    /// relocations' addresses.
    pub cls_pass: PassHandle,
    /// Handle of the symbol synthesis pass whose symbol map translates the
    /// relocations' targets.
    pub sym_gen_pass: PassHandle,
}

impl ConvertRelocationPass {
    /// Convert the dynamic relocations of an x86-64 input.
    pub fn convert_x86_64_relocations(
        &self,
        input: &ElfInput,
        out: &mut OutputObject,
        cls_output: &CopyLodableSectionsOutput,
        sym_map: &SymbolMap,
    ) -> (r: Result<(), ConvertRelocationError>)
        requires
            input@.arch == Arch::X86_64,
            cls_output@.output_section_id < old(out)@.sections.len(),
            cls_output@.output_section_symbol < old(out)@.symbols.len(),
            forall|j: int|
                0 <= j < sym_map@.len() ==> (#[trigger] sym_map@[j]).1 < old(out)@.symbols.len(),
            reloc_targets_mapped(input@, cls_output@.section_maps, sym_map@),
        ensures
            ({
                let (rs, e) = reloc_fold(
                    input@,
                    cls_output@.section_maps,
                    sym_map@,
                    cls_output@.output_section_symbol,
                    input@.dynamic_relocations.len() as int,
                );
                &&& final(out)@ == (OutputObjectV {
                    relocations: old(out)@.relocations + rs.map_values(
                        |o: OutputRelocation| (cls_output@.output_section_id, o),
                    ),
                    ..old(out)@
                })
                &&& r == (match e {
                    Some(er) => Err::<(), ConvertRelocationError>(er),
                    None => Ok::<(), ConvertRelocationError>(()),
                })
            }),
    {
        let ghost maps = cls_output@.section_maps;
        let ghost symmap = sym_map@;
        let section_symbol = cls_output.output_section_symbol;
        let section_id = cls_output.output_section_id;
        let n = input.dynamic_relocations.len();
        let mut k: usize = 0;
        proof {
            assert(out@ =~= (OutputObjectV {
                relocations: old(out)@.relocations + reloc_fold(
                    input@,
                    maps,
                    symmap,
                    section_symbol,
                    0,
                ).0.map_values(|o: OutputRelocation| (section_id, o)),
                ..old(out)@
            }));
        }
        while k < n
            invariant
                0 <= k <= n,
                n == input@.dynamic_relocations.len(),
                maps == cls_output@.section_maps,
                symmap == sym_map@,
                section_symbol == cls_output@.output_section_symbol,
                section_id == cls_output@.output_section_id,
                section_id < old(out)@.sections.len(),
                section_symbol < old(out)@.symbols.len(),
                forall|j: int|
                    0 <= j < symmap.len() ==> (#[trigger] symmap[j]).1 < old(
                        out,
                    )@.symbols.len(),
                reloc_targets_mapped(input@, maps, symmap),
                reloc_fold(input@, maps, symmap, section_symbol, k as int).1 is None,
                out@ == (OutputObjectV {
                    relocations: old(out)@.relocations + reloc_fold(
                        input@,
                        maps,
                        symmap,
                        section_symbol,
                        k as int,
                    ).0.map_values(|o: OutputRelocation| (section_id, o)),
                    ..old(out)@
                }),
            decreases n - k,
        {
            let r = input.dynamic_relocations[k];
            let covered = cls_output.contains_addr(r.addr);
            if covered {
                let is_relative = match r.kind {
                    RelocationKind::Elf(x) => x == R_X86_64_RELATIVE,
                    _ => false,
                };
                let is_symbolic = match r.kind {
                    RelocationKind::Absolute => true,
                    RelocationKind::Elf(x) => x == R_X86_64_64 || x == R_X86_64_GLOB_DAT || x
                        == R_X86_64_JUMP_SLOT,
                    _ => false,
                };
                let is_dtpmod = match r.kind {
                    RelocationKind::Elf(x) => x == R_X86_64_DTPMOD64,
                    _ => false,
                };
                if is_relative {
                    let addend_ok = r.addend >= 0 && cls_output.contains_addr(r.addend as u64);
                    if addend_ok {
                        out.add_relocation(
                            section_id,
                            OutputRelocation {
                                offset: r.addr,
                                size: 64,
                                kind: RelocationKind::Absolute,
                                symbol: section_symbol,
                                addend: r.addend,
                            },
                        );
                    }
                } else if is_symbolic {
                    let target = match r.target {
                        Some(t) => t,
                        None => {
                            proof {
                                lemma_reloc_fold_stuck(
                                    input@,
                                    maps,
                                    symmap,
                                    section_symbol,
                                    k + 1,
                                    n as int,
                                );
                            }
                            return Err(ConvertRelocationError::UnsupportedReloc(r.kind));
                        },
                    };
                    let looked = sym_map.get_output_symbol(target);
                    match looked {
                        Some(id) => {
                            proof {
                                lemma_map_lookup_entry(symmap, target);
                            }
                            out.add_relocation(
                                section_id,
                                OutputRelocation {
                                    offset: r.addr,
                                    size: 64,
                                    kind: RelocationKind::Absolute,
                                    symbol: id,
                                    addend: r.addend,
                                },
                            );
                        },
                        None => {
                            assert(false);
                        },
                    }
                } else if is_dtpmod {
                    out.add_relocation(
                        section_id,
                        OutputRelocation {
                            offset: r.addr,
                            size: 64,
                            kind: RelocationKind::Elf(R_X86_64_DTPMOD64),
                            symbol: section_symbol,
                            addend: r.addend,
                        },
                    );
                } else {
                    proof {
                        lemma_reloc_fold_stuck(
                            input@,
                            maps,
                            symmap,
                            section_symbol,
                            k + 1,
                            n as int,
                        );
                    }
                    return Err(ConvertRelocationError::UnsupportedReloc(r.kind));
                }
            }
            proof {
                let step = reloc_fold(input@, maps, symmap, section_symbol, k + 1);
                assert(step.1 is None);
                assert(out@.relocations =~= old(out)@.relocations + step.0.map_values(
                    |o: OutputRelocation| (section_id, o),
                ));
                assert(out@ =~= (OutputObjectV {
                    relocations: old(out)@.relocations + step.0.map_values(
                        |o: OutputRelocation| (section_id, o),
                    ),
                    ..old(out)@
                }));
            }
            k = k + 1;
        }
        Ok(())
    }

    /// Run the pass: only x86-64 inputs are supported; any other
    /// architecture is a fatal error.
    pub fn run(
        &self,
        input: &ElfInput,
        out: &mut OutputObject,
        cls_output: &CopyLodableSectionsOutput,
        sym_map: &SymbolMap,
    ) -> (r: Result<(), ConvertRelocationError>)
        requires
            input@.arch == Arch::X86_64 ==> {
                &&& cls_output@.output_section_id < old(out)@.sections.len()
                &&& cls_output@.output_section_symbol < old(out)@.symbols.len()
                &&& forall|j: int|
                    0 <= j < sym_map@.len() ==> (#[trigger] sym_map@[j]).1 < old(
                        out,
                    )@.symbols.len()
                &&& reloc_targets_mapped(input@, cls_output@.section_maps, sym_map@)
            },
        ensures
            ({
                if input@.arch == Arch::X86_64 {
                    let (rs, e) = reloc_fold(
                        input@,
                        cls_output@.section_maps,
                        sym_map@,
                        cls_output@.output_section_symbol,
                        input@.dynamic_relocations.len() as int,
                    );
                    &&& final(out)@ == (OutputObjectV {
                        relocations: old(out)@.relocations + rs.map_values(
                            |o: OutputRelocation| (cls_output@.output_section_id, o),
                        ),
                        ..old(out)@
                    })
                    &&& r == (match e {
                        Some(er) => Err::<(), ConvertRelocationError>(er),
                        None => Ok::<(), ConvertRelocationError>(()),
                    })
                } else {
                    &&& final(out)@ == old(out)@
                    &&& r == Err::<(), ConvertRelocationError>(
                        ConvertRelocationError::UnsupportedArch(input@.arch),
                    )
                }
            }),
    {
        match input.arch {
            Arch::X86_64 => self.convert_x86_64_relocations(input, out, cls_output, sym_map),
            arch => Err(ConvertRelocationError::UnsupportedArch(arch)),
        }
    }
}

/// Relocation translation: a converted relocation keeps the input's address
/// as its output offset, and it is against the coalesced section's defining
/// symbol exactly when the input relocation is a relative one.  Module-ID
/// relocations are left aside here: they too are attached to the section
/// symbol, though they are not relative.
pub proof fn lemma_relocation_translation(
    maps: Seq<SectionMap>,
    symmap: Seq<(usize, usize)>,
    section_symbol: usize,
    r: InputRelocation,
)
    requires
        forall|j: int| 0 <= j < symmap.len() ==> (#[trigger] symmap[j]).1 != section_symbol,
        convert_one_reloc(maps, symmap, section_symbol, r) matches Ok(Some(_)),
        r.kind != RelocationKind::Elf(R_X86_64_DTPMOD64),
    ensures
        ({
            let o = convert_one_reloc(maps, symmap, section_symbol, r)->Ok_0->Some_0;
            &&& o.offset == r.addr
            &&& (o.symbol == section_symbol <==> r.kind == RelocationKind::Elf(
                R_X86_64_RELATIVE,
            ))
        }),
{
    let o = convert_one_reloc(maps, symmap, section_symbol, r)->Ok_0->Some_0;
    if r.kind != RelocationKind::Elf(R_X86_64_RELATIVE) {
        assert(is_symbolic_kind(r.kind));
        let t = r.target->0;
        lemma_map_lookup_entry(symmap, t);
        let j = choose|j: int|
            0 <= j < symmap.len() && (#[trigger] symmap[j]).0 == t && symmap[j].1 == map_lookup(
                symmap,
                t,
            )->0;
        assert(o.symbol == symmap[j].1);
    }
}

} // verus!
