//! The conversion passes over the ELF view, and their adaptation to the
//! generic pass pipeline.

pub mod init_array;
pub mod loader;
pub mod reloc;
pub mod section;
pub mod symbol;

use vstd::prelude::*;

use crate::elf::defs::{SHT_FINI_ARRAY, SHT_INIT_ARRAY};
use crate::elf::input::{Arch, ElfInputV};
use crate::elf::output::{section_symbol_entry, OutputObjectV, OutputRelocation};
use crate::elf::pass::init_array::{
    ifa_fold, ifa_output_v, GenerateFiniArrayPass, GenerateInitArrayPass,
};
use crate::elf::pass::loader::{loaded_dso_spec, LoaderPass};
use crate::elf::pass::reloc::{
    reloc_fold, reloc_targets_mapped, ConvertRelocationError, ConvertRelocationPass,
};
use crate::elf::pass::section::{
    cls_maps, cls_output_spec, cls_section_v, cls_size, CopyLodableSectionsPass,
};
use crate::elf::pass::symbol::{emitted_symbols, symbol_map_pairs, GenerateSymbolPass};
use crate::pass::{PassError, PassOutputV};

verus! {

/// A concrete ELF pass, ready to be adapted into the generic pipeline.
#[derive(Clone, Copy, Debug, PartialEq, Eq, Structural)]
pub enum ElfPassKind {
    /// The loader pass.
    Loader(LoaderPass),
    /// The section coalescing pass.
    CopyLodableSections(CopyLodableSectionsPass),
    /// The symbol synthesis pass.
    GenerateSymbols(GenerateSymbolPass),
    /// The relocation conversion pass.
    ConvertRelocations(ConvertRelocationPass),
    /// The initializer-array pass.
    GenerateInitArray(GenerateInitArrayPass),
    /// The finalizer-array pass.
    GenerateFiniArray(GenerateFiniArrayPass),
}

/// The declared name of a pass, used when reporting its failure.
pub open spec fn pass_name(p: ElfPassKind) -> Seq<char> {
    match p {
        ElfPassKind::Loader(_) => "loader"@,
        ElfPassKind::CopyLodableSections(_) => "copy sections"@,
        ElfPassKind::GenerateSymbols(_) => "generate symbols"@,
        ElfPassKind::ConvertRelocations(_) => "convert relocations"@,
        ElfPassKind::GenerateInitArray(_) => "generate init array"@,
        ElfPassKind::GenerateFiniArray(_) => "generate fini array"@,
    }
}

/// What running one pass does, as a function of the input, the output
/// object built so far, and the outputs of the earlier passes: on success,
/// the new output object and the pass's published output.
pub open spec fn pass_step(
    p: ElfPassKind,
    input: ElfInputV,
    out: OutputObjectV,
    prior: Seq<PassOutputV>,
) -> Result<(OutputObjectV, PassOutputV), PassError> {
    match p {
        ElfPassKind::Loader(_) => Ok((out, PassOutputV::LoadedDso(loaded_dso_spec(input)))),
        ElfPassKind::CopyLodableSections(_) => Ok(
            (
                OutputObjectV {
                    sections: out.sections.push(cls_section_v(input, out.symbols.len() as usize)),
                    symbols: out.symbols.push(section_symbol_entry(out.sections.len() as usize)),
                    ..out
                },
                PassOutputV::Sections(
                    cls_output_spec(input, out.sections.len() as usize, out.symbols.len() as usize),
                ),
            ),
        ),
        ElfPassKind::GenerateSymbols(gp) => {
            let c = prior[gp.cls_pass.idx as int]->Sections_0;
            Ok(
                (
                    OutputObjectV {
                        symbols: out.symbols + emitted_symbols(input, c.output_section_id),
                        ..out
                    },
                    PassOutputV::Symbols(symbol_map_pairs(input, out.symbols.len() as int)),
                ),
            )
        },
        ElfPassKind::ConvertRelocations(rp) => {
            let c = prior[rp.cls_pass.idx as int]->Sections_0;
            let sm = prior[rp.sym_gen_pass.idx as int]->Symbols_0;
            if input.arch == Arch::X86_64 {
                let f = reloc_fold(
                    input,
                    c.section_maps,
                    sm,
                    c.output_section_symbol,
                    input.dynamic_relocations.len() as int,
                );
                match f.1 {
                    None => Ok(
                        (
                            OutputObjectV {
                                relocations: out.relocations + f.0.map_values(
                                    |o: OutputRelocation| (c.output_section_id, o),
                                ),
                                ..out
                            },
                            PassOutputV::Unit,
                        ),
                    ),
                    Some(er) => Err(PassError::ConvertRelocation(er)),
                }
            } else {
                Err(
                    PassError::ConvertRelocation(
                        ConvertRelocationError::UnsupportedArch(input.arch),
                    ),
                )
            }
        },
        ElfPassKind::GenerateInitArray(ip) => {
            let c = prior[ip.inner.cls_pass.idx as int]->Sections_0;
            let f = ifa_fold(
                input,
                SHT_INIT_ARRAY,
                c.output_section_symbol,
                input.sections.len() as int,
            );
            match f.2 {
                Some(er) => Err(PassError::GenerateInitFiniArray(er)),
                None => if f.0 == 0 {
                    Ok((out, PassOutputV::Unit))
                } else {
                    Ok(
                        (
                            ifa_output_v(input, SHT_INIT_ARRAY, c.output_section_symbol, out),
                            PassOutputV::Unit,
                        ),
                    )
                },
            }
        },
        ElfPassKind::GenerateFiniArray(fp) => {
            let c = prior[fp.inner.cls_pass.idx as int]->Sections_0;
            let f = ifa_fold(
                input,
                SHT_FINI_ARRAY,
                c.output_section_symbol,
                input.sections.len() as int,
            );
            match f.2 {
                Some(er) => Err(PassError::GenerateInitFiniArray(er)),
                None => if f.0 == 0 {
                    Ok((out, PassOutputV::Unit))
                } else {
                    Ok(
                        (
                            ifa_output_v(input, SHT_FINI_ARRAY, c.output_section_symbol, out),
                            PassOutputV::Unit,
                        ),
                    )
                },
            }
        },
    }
}

/// What a pass demands before it can run: its handles name earlier passes
/// of the right kind, whose outputs agree with the input, and the machine
/// limits its work fits into.
pub open spec fn pass_requires(
    p: ElfPassKind,
    input: ElfInputV,
    out: OutputObjectV,
    prior: Seq<PassOutputV>,
) -> bool {
    match p {
        ElfPassKind::Loader(_) => input.wf(),
        ElfPassKind::CopyLodableSections(_) => input.wf() && cls_size(input) <= usize::MAX,
        ElfPassKind::GenerateSymbols(gp) => {
            &&& input.wf()
            &&& gp.cls_pass.idx < prior.len()
            &&& prior[gp.cls_pass.idx as int] is Sections
            &&& prior[gp.cls_pass.idx as int]->Sections_0.section_maps == cls_maps(input)
            &&& out.symbols.len() + input.dynamic_symbols.len() <= usize::MAX
        },
        ElfPassKind::ConvertRelocations(rp) => {
            &&& rp.cls_pass.idx < prior.len()
            &&& prior[rp.cls_pass.idx as int] is Sections
            &&& rp.sym_gen_pass.idx < prior.len()
            &&& prior[rp.sym_gen_pass.idx as int] is Symbols
            &&& input.arch == Arch::X86_64 ==> {
                let c = prior[rp.cls_pass.idx as int]->Sections_0;
                let sm = prior[rp.sym_gen_pass.idx as int]->Symbols_0;
                &&& c.output_section_id < out.sections.len()
                &&& c.output_section_symbol < out.symbols.len()
                &&& forall|j: int| 0 <= j < sm.len() ==> (#[trigger] sm[j]).1 < out.symbols.len()
                &&& reloc_targets_mapped(input, c.section_maps, sm)
            }
        },
        ElfPassKind::GenerateInitArray(ip) => {
            &&& input.wf()
            &&& ip.inner.cls_pass.idx < prior.len()
            &&& prior[ip.inner.cls_pass.idx as int] is Sections
            &&& prior[ip.inner.cls_pass.idx as int]->Sections_0.section_maps == cls_maps(input)
            &&& prior[ip.inner.cls_pass.idx as int]->Sections_0.output_section_symbol
                < out.symbols.len()
            &&& ifa_fold(
                input,
                SHT_INIT_ARRAY,
                prior[ip.inner.cls_pass.idx as int]->Sections_0.output_section_symbol,
                input.sections.len() as int,
            ).0 <= usize::MAX
        },
        ElfPassKind::GenerateFiniArray(fp) => {
            &&& input.wf()
            &&& fp.inner.cls_pass.idx < prior.len()
            &&& prior[fp.inner.cls_pass.idx as int] is Sections
            &&& prior[fp.inner.cls_pass.idx as int]->Sections_0.section_maps == cls_maps(input)
            &&& prior[fp.inner.cls_pass.idx as int]->Sections_0.output_section_symbol
                < out.symbols.len()
            &&& ifa_fold(
                input,
                SHT_FINI_ARRAY,
                prior[fp.inner.cls_pass.idx as int]->Sections_0.output_section_symbol,
                input.sections.len() as int,
            ).0 <= usize::MAX
        },
    }
}

/// Adapt a concrete ELF pass to the uniform pass record the pipeline runs.
#[derive(Clone, Copy, Debug, PartialEq, Eq, Structural)]
pub struct ElfPassAdaptor {
    /// The adapted pass.
    pub pass: ElfPassKind,
}

impl ElfPassAdaptor {
    /// Wrap a concrete ELF pass for registration with the pass manager.
    pub fn adapt(pass: ElfPassKind) -> (r: ElfPassAdaptor)
        ensures
            r.pass == pass,
    {
        ElfPassAdaptor { pass }
    }

    /// The adapted pass's declared name.
    pub fn name(&self) -> (r: String)
        ensures
            r@ == pass_name(self.pass),
    {
        match self.pass {
            ElfPassKind::Loader(_) => String::from_str("loader"),
            ElfPassKind::CopyLodableSections(_) => String::from_str("copy sections"),
            ElfPassKind::GenerateSymbols(_) => String::from_str("generate symbols"),
            ElfPassKind::ConvertRelocations(_) => String::from_str("convert relocations"),
            ElfPassKind::GenerateInitArray(_) => String::from_str("generate init array"),
            ElfPassKind::GenerateFiniArray(_) => String::from_str("generate fini array"),
        }
    }
}

impl ElfPassAdaptor {
    /// Run the adapted pass against the pipeline context: read the earlier
    /// outputs it needs, mutate the output object, and hand back the pass's
    /// published output or its error.
    pub fn run(&self, ctx: &mut crate::pass::PassContext) -> (r: Result<
        crate::pass::PassOutput,
        PassError,
    >)
        requires
            pass_requires(
                self.pass,
                old(ctx).input@,
                old(ctx).output@,
                crate::pass::outputs_view(old(ctx).pass_outputs@),
            ),
        ensures
            final(ctx).input == old(ctx).input,
            final(ctx).pass_outputs@ == old(ctx).pass_outputs@,
            match pass_step(
                self.pass,
                old(ctx).input@,
                old(ctx).output@,
                crate::pass::outputs_view(old(ctx).pass_outputs@),
            ) {
                Ok(sp) => {
                    &&& r is Ok
                    &&& r->Ok_0@ == sp.1
                    &&& final(ctx).output@ == sp.0
                },
                Err(e) => r == Err::<crate::pass::PassOutput, PassError>(e),
            },
    {
        let ghost prior = crate::pass::outputs_view(old(ctx).pass_outputs@);
        match &self.pass {
            ElfPassKind::Loader(p) => {
                let d = p.run(&ctx.input);
                Ok(crate::pass::PassOutput::LoadedDso(d))
            },
            ElfPassKind::CopyLodableSections(p) => {
                let o = p.run(&ctx.input, &mut ctx.output);
                Ok(crate::pass::PassOutput::Sections(o))
            },
            ElfPassKind::GenerateSymbols(gp) => {
                proof {
                    assert(ctx.pass_outputs@[gp.cls_pass.idx as int]@ == prior[gp.cls_pass.idx
                        as int]);
                }
                let po = &ctx.pass_outputs[gp.cls_pass.idx];
                match po {
                    crate::pass::PassOutput::Sections(c) => {
                        let m = gp.run(&ctx.input, &mut ctx.output, c);
                        Ok(crate::pass::PassOutput::Symbols(m))
                    },
                    _ => vstd::pervasive::unreached(),
                }
            },
            ElfPassKind::ConvertRelocations(rp) => {
                proof {
                    assert(ctx.pass_outputs@[rp.cls_pass.idx as int]@ == prior[rp.cls_pass.idx
                        as int]);
                    assert(ctx.pass_outputs@[rp.sym_gen_pass.idx as int]@
                        == prior[rp.sym_gen_pass.idx as int]);
                }
                let pc = &ctx.pass_outputs[rp.cls_pass.idx];
                let ps = &ctx.pass_outputs[rp.sym_gen_pass.idx];
                match (pc, ps) {
                    (crate::pass::PassOutput::Sections(c), crate::pass::PassOutput::Symbols(m)) => {
                        match rp.run(&ctx.input, &mut ctx.output, c, m) {
                            Ok(()) => Ok(crate::pass::PassOutput::Unit),
                            Err(e) => Err(PassError::ConvertRelocation(e)),
                        }
                    },
                    _ => vstd::pervasive::unreached(),
                }
            },
            ElfPassKind::GenerateInitArray(ip) => {
                proof {
                    assert(ctx.pass_outputs@[ip.inner.cls_pass.idx as int]@
                        == prior[ip.inner.cls_pass.idx as int]);
                }
                let po = &ctx.pass_outputs[ip.inner.cls_pass.idx];
                match po {
                    crate::pass::PassOutput::Sections(c) => {
                        match ip.run(&ctx.input, &mut ctx.output, c) {
                            Ok(()) => Ok(crate::pass::PassOutput::Unit),
                            Err(e) => Err(PassError::GenerateInitFiniArray(e)),
                        }
                    },
                    _ => vstd::pervasive::unreached(),
                }
            },
            ElfPassKind::GenerateFiniArray(fp) => {
                proof {
                    assert(ctx.pass_outputs@[fp.inner.cls_pass.idx as int]@
                        == prior[fp.inner.cls_pass.idx as int]);
                }
                let po = &ctx.pass_outputs[fp.inner.cls_pass.idx];
                match po {
                    crate::pass::PassOutput::Sections(c) => {
                        match fp.run(&ctx.input, &mut ctx.output, c) {
                            Ok(()) => Ok(crate::pass::PassOutput::Unit),
                            Err(e) => Err(PassError::GenerateInitFiniArray(e)),
                        }
                    },
                    _ => vstd::pervasive::unreached(),
                }
            },
        }
    }
}

} // verus!
