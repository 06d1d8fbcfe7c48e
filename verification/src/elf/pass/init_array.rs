//! The initializer/finalizer array passes.
//!
//! For the input's initializer (or finalizer) array sections that the
//! coalescing pass retained, a corresponding output section of the same
//! kind is created: zero-filled, 8-byte aligned, and sized as the sum of
//! the retained array sections.  Every dynamic relocation falling inside
//! such a section is re-emitted as an absolute relocation against the
//! coalesced section's defining symbol; only relative relocations are
//! supported there.

use vstd::prelude::*;

use crate::elf::defs::{R_X86_64_RELATIVE, SHT_FINI_ARRAY, SHT_INIT_ARRAY};
use crate::elf::input::{Arch, ElfInput, ElfInputV, InputRelocation, RelocationKind};
use crate::elf::output::{OutputObject, OutputObjectV, OutputRelocation, OutputSectionV};
use crate::elf::pass::section::{
    lemma_section_map_coverage, section_loadable, CopyLodableSectionsOutput, cls_maps, zero_bytes,
};
use crate::pass::PassHandle;

verus! {

/// Errors that may occur when generating a function-pointer array section.
#[derive(Clone, Copy, Debug, PartialEq, Eq, Structural)]
pub enum GenerateInitFiniArrayError {
    /// The input's architecture is not supported.
    UnsupportedArch(Arch),
    /// A dynamic relocation inside an array section has an unsupported
    /// kind.
    UnsupportedReloc(RelocationKind),
}

/// How one dynamic relocation inside an array section converts: only a
/// relative relocation on x86-64 is supported, and it becomes an absolute
/// relocation against the coalesced section's defining symbol.
pub open spec fn ifa_convert_reloc(arch: Arch, section_symbol: usize, r: InputRelocation) -> Result<
    OutputRelocation,
    GenerateInitFiniArrayError,
> {
    if arch != Arch::X86_64 {
        Err(GenerateInitFiniArrayError::UnsupportedArch(arch))
    } else if r.kind == RelocationKind::Elf(R_X86_64_RELATIVE) {
        Ok(
            OutputRelocation {
                offset: r.addr,
                size: 64,
                kind: RelocationKind::Absolute,
                symbol: section_symbol,
                addend: r.addend,
            },
        )
    } else {
        Err(GenerateInitFiniArrayError::UnsupportedReloc(r.kind))
    }
}

/// The relocations emitted for the first `m` dynamic relocations that fall
/// inside `[lo, hi)`, and the error that stopped the scan, if one did.
pub open spec fn ifa_section_relocs(
    input: ElfInputV,
    section_symbol: usize,
    lo: int,
    hi: int,
    m: int,
) -> (Seq<OutputRelocation>, Option<GenerateInitFiniArrayError>)
    decreases m,
{
    if m <= 0 {
        (Seq::empty(), None)
    } else {
        let (prev, e) = ifa_section_relocs(input, section_symbol, lo, hi, m - 1);
        if e is Some {
            (prev, e)
        } else {
            let r = input.dynamic_relocations[m - 1];
            if lo <= r.addr < hi {
                match ifa_convert_reloc(input.arch, section_symbol, r) {
                    Err(er) => (prev, Some(er)),
                    Ok(o) => (prev.push(o), None),
                }
            } else {
                (prev, None)
            }
        }
    }
}

/// Once the scan hits an error, nothing further changes.
pub proof fn lemma_ifa_section_relocs_stuck(
    input: ElfInputV,
    section_symbol: usize,
    lo: int,
    hi: int,
    k: int,
    m: int,
)
    requires
        0 <= k <= m,
        ifa_section_relocs(input, section_symbol, lo, hi, k).1 is Some,
    ensures
        ifa_section_relocs(input, section_symbol, lo, hi, m) == ifa_section_relocs(
            input,
            section_symbol,
            lo,
            hi,
            k,
        ),
    decreases m - k,
{
    if m > k {
        lemma_ifa_section_relocs_stuck(input, section_symbol, lo, hi, k, m - 1);
    }
}

/// The total size and the relocations gathered from the first `n` input
/// sections of the given kind, and the error that stopped the pass, if one
/// did.
pub open spec fn ifa_fold(input: ElfInputV, sec_type: u32, section_symbol: usize, n: int) -> (
    int,
    Seq<OutputRelocation>,
    Option<GenerateInitFiniArrayError>,
)
    decreases n,
{
    if n <= 0 {
        (0, Seq::empty(), None)
    } else {
        let (sz, rs, e) = ifa_fold(input, sec_type, section_symbol, n - 1);
        if e is Some {
            (sz, rs, e)
        } else {
            let sec = input.sections[n - 1];
            if sec.sh_type == sec_type && section_loadable(input, n - 1) && sec.size > 0 {
                let (srs, se) = ifa_section_relocs(
                    input,
                    section_symbol,
                    sec.addr as int,
                    sec.addr + sec.size,
                    input.dynamic_relocations.len() as int,
                );
                (sz + sec.size, rs + srs, se)
            } else {
                (sz, rs, None)
            }
        }
    }
}

/// Once the fold hits an error, nothing further changes.
pub proof fn lemma_ifa_fold_stuck(
    input: ElfInputV,
    sec_type: u32,
    section_symbol: usize,
    k: int,
    n: int,
)
    requires
        0 <= k <= n,
        ifa_fold(input, sec_type, section_symbol, k).2 is Some,
    ensures
        ifa_fold(input, sec_type, section_symbol, n) == ifa_fold(
            input,
            sec_type,
            section_symbol,
            k,
        ),
    decreases n - k,
{
    if n > k {
        lemma_ifa_fold_stuck(input, sec_type, section_symbol, k, n - 1);
    }
}

/// The gathered size never shrinks as more sections are scanned.
pub proof fn lemma_ifa_fold_size_monotone(
    input: ElfInputV,
    sec_type: u32,
    section_symbol: usize,
    k: int,
    n: int,
)
    requires
        0 <= k <= n,
    ensures
        0 <= ifa_fold(input, sec_type, section_symbol, k).0 <= ifa_fold(
            input,
            sec_type,
            section_symbol,
            n,
        ).0,
    decreases n - k,
{
    if n > k {
        lemma_ifa_fold_size_monotone(input, sec_type, section_symbol, k, n - 1);
    } else if n == k {
        lemma_ifa_fold_size_nonneg(input, sec_type, section_symbol, k);
    }
}

/// The gathered size is never negative.
pub proof fn lemma_ifa_fold_size_nonneg(
    input: ElfInputV,
    sec_type: u32,
    section_symbol: usize,
    n: int,
)
    ensures
        0 <= ifa_fold(input, sec_type, section_symbol, n).0,
    decreases n,
{
    if n > 0 {
        lemma_ifa_fold_size_nonneg(input, sec_type, section_symbol, n - 1);
    }
}

/// The name bytes of the output initializer array section, `.init_array`.
pub open spec fn init_array_name() -> Seq<u8> {
    seq![46u8, 105u8, 110u8, 105u8, 116u8, 95u8, 97u8, 114u8, 114u8, 97u8, 121u8]
}

/// The name bytes of the output finalizer array section, `.fini_array`.
pub open spec fn fini_array_name() -> Seq<u8> {
    seq![46u8, 102u8, 105u8, 110u8, 105u8, 95u8, 97u8, 114u8, 114u8, 97u8, 121u8]
}

/// The name of the output array section for the given section kind.
pub open spec fn ifa_name(sec_type: u32) -> Seq<u8> {
    if sec_type == SHT_INIT_ARRAY {
        init_array_name()
    } else {
        fini_array_name()
    }
}

/// What the pass does to the output object when it has something to emit:
/// one new zero-filled, 8-byte-aligned section of the given kind, with the
/// gathered relocations attached.
pub open spec fn ifa_output_v(input: ElfInputV, sec_type: u32, section_symbol: usize, old: OutputObjectV) -> OutputObjectV {
    let f = ifa_fold(input, sec_type, section_symbol, input.sections.len() as int);
    OutputObjectV {
        sections: old.sections.push(
            OutputSectionV {
                name: ifa_name(sec_type),
                sh_type: sec_type,
                flags: 0,
                align: 8,
                data: zero_bytes(f.0),
                symbol_id: None,
            },
        ),
        relocations: old.relocations + f.1.map_values(
            |o: OutputRelocation| (old.sections.len() as usize, o),
        ),
        ..old
    }
}

/// The common work of the initializer- and finalizer-array passes.
#[derive(Clone, Copy, Debug, PartialEq, Eq, Structural)]
pub struct GenerateFuncPtrArray {
    /// Handle of the coalescing pass.
    pub cls_pass: PassHandle,
}

impl GenerateFuncPtrArray {
    /// Remember the coalescing pass to read the section map from.
    pub fn new(cls_pass: PassHandle) -> (r: GenerateFuncPtrArray)
        ensures
            r.cls_pass == cls_pass,
    {
        GenerateFuncPtrArray { cls_pass }
    }

    /// Gather the retained array sections of the given kind and emit the
    /// output section and its relocations.
    pub fn generate(
        &self,
        input: &ElfInput,
        out: &mut OutputObject,
        cls_output: &CopyLodableSectionsOutput,
        sec_type: u32,
    ) -> (r: Result<(), GenerateInitFiniArrayError>)
        requires
            sec_type == SHT_INIT_ARRAY || sec_type == SHT_FINI_ARRAY,
            input@.wf(),
            cls_output@.section_maps == cls_maps(input@),
            cls_output@.output_section_symbol < old(out)@.symbols.len(),
            ifa_fold(
                input@,
                sec_type,
                cls_output@.output_section_symbol,
                input@.sections.len() as int,
            ).0 <= usize::MAX,
        ensures
            ({
                let f = ifa_fold(
                    input@,
                    sec_type,
                    cls_output@.output_section_symbol,
                    input@.sections.len() as int,
                );
                match f.2 {
                    Some(er) => final(out)@ == old(out)@ && r == Err::<
                        (),
                        GenerateInitFiniArrayError,
                    >(er),
                    None => {
                        if f.0 == 0 {
                            &&& final(out)@ == old(out)@
                            &&& r == Ok::<(), GenerateInitFiniArrayError>(())
                        } else {
                            &&& final(out)@ == ifa_output_v(
                                input@,
                                sec_type,
                                cls_output@.output_section_symbol,
                                old(out)@,
                            )
                            &&& r == Ok::<(), GenerateInitFiniArrayError>(())
                        }
                    },
                }
            }),
    {
        let ghost secsym: usize = cls_output@.output_section_symbol;
        let section_symbol = cls_output.output_section_symbol;
        proof {
            assert(input.sections.len() == input@.sections.len());
            lemma_section_map_coverage(input@);
        }
        let n = input.sections.len();
        let n_relocs = input.dynamic_relocations.len();
        let mut total: u64 = 0;
        let mut gathered: Vec<OutputRelocation> = Vec::new();
        let mut k: usize = 0;
        while k < n
            invariant
                0 <= k <= n,
                n == input@.sections.len(),
                n_relocs == input@.dynamic_relocations.len(),
                input@.wf(),
                sec_type == SHT_INIT_ARRAY || sec_type == SHT_FINI_ARRAY,
                secsym == cls_output@.output_section_symbol,
                section_symbol == secsym,
                cls_output@.section_maps == cls_maps(input@),
                ifa_fold(input@, sec_type, secsym, input@.sections.len() as int).0 <= usize::MAX,
                ifa_fold(input@, sec_type, secsym, k as int).2 is None,
                total as int == ifa_fold(input@, sec_type, secsym, k as int).0,
                gathered@ == ifa_fold(input@, sec_type, secsym, k as int).1,
                forall|q: int|
                    0 <= q < gathered@.len() ==> (#[trigger] gathered@[q]).symbol == secsym,
                forall|i: int|
                    section_loadable(input@, i) ==> exists|k0: int|
                        0 <= k0 < cls_maps(input@).len() && (#[trigger] cls_maps(input@)[k0]).index
                            == i,
                forall|k0: int|
                    0 <= k0 < cls_maps(input@).len() ==> section_loadable(
                        input@,
                        (#[trigger] cls_maps(input@)[k0]).index as int,
                    ),
            decreases n - k,
        {
            let sh_type = input.sections[k].sh_type;
            let size = input.sections[k].size;
            if sh_type == sec_type && cls_output.is_section_copied(k) && size > 0 {
                assert(section_loadable(input@, k as int));
                assert(input@.sections[k as int].wf());
                let lo = input.sections[k].addr;
                let hi = lo + size;
                let mut m: usize = 0;
                while m < n_relocs
                    invariant
                        0 <= m <= n_relocs,
                        n_relocs == input@.dynamic_relocations.len(),
                        0 <= k < n,
                        n == input@.sections.len(),
                        input@.wf(),
                        lo == input@.sections[k as int].addr,
                        hi == input@.sections[k as int].addr + input@.sections[k as int].size,
                        secsym == section_symbol,
                        secsym == cls_output@.output_section_symbol,
                        input@.sections[k as int].sh_type == sec_type,
                        section_loadable(input@, k as int),
                        input@.sections[k as int].size > 0,
                        ifa_fold(input@, sec_type, secsym, k as int).2 is None,
                        ifa_section_relocs(input@, secsym, lo as int, hi as int, m as int).1
                            is None,
                        gathered@ == ifa_fold(input@, sec_type, secsym, k as int).1
                            + ifa_section_relocs(input@, secsym, lo as int, hi as int, m as int).0,
                        forall|q: int|
                            0 <= q < gathered@.len() ==> (#[trigger] gathered@[q]).symbol
                                == secsym,
                    decreases n_relocs - m,
                {
                    let r = input.dynamic_relocations[m];
                    if lo <= r.addr && r.addr < hi {
                        match input.arch {
                            Arch::X86_64 => {
                                let is_relative = match r.kind {
                                    RelocationKind::Elf(x) => x == R_X86_64_RELATIVE,
                                    _ => false,
                                };
                                if is_relative {
                                    gathered.push(
                                        OutputRelocation {
                                            offset: r.addr,
                                            size: 64,
                                            kind: RelocationKind::Absolute,
                                            symbol: section_symbol,
                                            addend: r.addend,
                                        },
                                    );
                                    proof {
                                        assert(gathered@ =~= ifa_fold(
                                            input@,
                                            sec_type,
                                            secsym,
                                            k as int,
                                        ).1 + ifa_section_relocs(
                                            input@,
                                            secsym,
                                            lo as int,
                                            hi as int,
                                            m + 1,
                                        ).0);
                                    }
                                } else {
                                    proof {
                                        let er = GenerateInitFiniArrayError::UnsupportedReloc(
                                            r.kind,
                                        );
                                        assert(ifa_convert_reloc(input@.arch, secsym, r)
                                            == Err::<OutputRelocation, GenerateInitFiniArrayError>(
                                            er,
                                        ));
                                        assert(ifa_section_relocs(
                                            input@,
                                            secsym,
                                            lo as int,
                                            hi as int,
                                            m + 1,
                                        ).1 == Some(er));
                                        lemma_ifa_section_relocs_stuck(
                                            input@,
                                            secsym,
                                            lo as int,
                                            hi as int,
                                            m + 1,
                                            n_relocs as int,
                                        );
                                        assert(ifa_fold(input@, sec_type, secsym, k + 1).2
                                            == Some(er));
                                        lemma_ifa_fold_stuck(
                                            input@,
                                            sec_type,
                                            secsym,
                                            k + 1,
                                            input@.sections.len() as int,
                                        );
                                    }
                                    return Err(GenerateInitFiniArrayError::UnsupportedReloc(r.kind));
                                }
                            },
                            arch => {
                                proof {
                                    let er = GenerateInitFiniArrayError::UnsupportedArch(
                                        input@.arch,
                                    );
                                    assert(ifa_convert_reloc(input@.arch, secsym, r)
                                        == Err::<OutputRelocation, GenerateInitFiniArrayError>(er));
                                    assert(ifa_section_relocs(
                                        input@,
                                        secsym,
                                        lo as int,
                                        hi as int,
                                        m + 1,
                                    ).1 == Some(er));
                                    lemma_ifa_section_relocs_stuck(
                                        input@,
                                        secsym,
                                        lo as int,
                                        hi as int,
                                        m + 1,
                                        n_relocs as int,
                                    );
                                    assert(ifa_fold(input@, sec_type, secsym, k + 1).2 == Some(
                                        er,
                                    ));
                                    lemma_ifa_fold_stuck(
                                        input@,
                                        sec_type,
                                        secsym,
                                        k + 1,
                                        input@.sections.len() as int,
                                    );
                                    assert(arch == input@.arch);
                                }
                                return Err(GenerateInitFiniArrayError::UnsupportedArch(arch));
                            },
                        }
                    }
                    m = m + 1;
                }
                proof {
                    lemma_ifa_fold_size_monotone(
                        input@,
                        sec_type,
                        secsym,
                        k + 1,
                        input@.sections.len() as int,
                    );
                }
                total = total + size;
            }
            k = k + 1;
        }

        let ghost f = ifa_fold(input@, sec_type, secsym, input@.sections.len() as int);
        assert(total as int == f.0 && gathered@ == f.1 && f.2 is None);

        if total == 0 {
            return Ok(());
        }

        let name = if sec_type == SHT_INIT_ARRAY {
            let mut v: Vec<u8> = Vec::new();
            v.push(46);
            v.push(105);
            v.push(110);
            v.push(105);
            v.push(116);
            v.push(95);
            v.push(97);
            v.push(114);
            v.push(114);
            v.push(97);
            v.push(121);
            assert(v@ =~= ifa_name(sec_type));
            v
        } else {
            let mut v: Vec<u8> = Vec::new();
            v.push(46);
            v.push(102);
            v.push(105);
            v.push(110);
            v.push(105);
            v.push(95);
            v.push(97);
            v.push(114);
            v.push(114);
            v.push(97);
            v.push(121);
            assert(v@ =~= ifa_name(sec_type));
            v
        };

        let sec_id = out.add_section(name, sec_type);

        let mut zeros: Vec<u8> = Vec::new();
        let total_usize = total as usize;
        let mut z: usize = 0;
        while z < total_usize
            invariant
                0 <= z <= total_usize,
                zeros@ =~= zero_bytes(z as int),
            decreases total_usize - z,
        {
            zeros.push(0);
            proof {
                assert(zeros@ =~= zero_bytes(z + 1));
            }
            z = z + 1;
        }
        out.set_section_data(sec_id, zeros, 8);

        let n_gathered = gathered.len();
        let mut g: usize = 0;
        while g < n_gathered
            invariant
                0 <= g <= n_gathered,
                n_gathered == gathered@.len(),
                gathered@ == f.1,
                forall|q: int| 0 <= q < gathered@.len() ==> (#[trigger] gathered@[q]).symbol == secsym,
                sec_id < out@.sections.len(),
                secsym < out@.symbols.len(),
                out@.relocations == old(out)@.relocations + f.1.take(g as int).map_values(
                    |o: OutputRelocation| (sec_id, o),
                ),
                out@ == (OutputObjectV {
                    sections: out@.sections,
                    relocations: out@.relocations,
                    ..old(out)@
                }),
                out@.sections == ifa_output_v(input@, sec_type, secsym, old(out)@).sections,
            decreases n_gathered - g,
        {
            let orel = gathered[g];
            out.add_relocation(sec_id, orel);
            proof {
                assert(out@.relocations =~= old(out)@.relocations + f.1.take(g + 1).map_values(
                    |o: OutputRelocation| (sec_id, o),
                ));
            }
            g = g + 1;
        }
        proof {
            assert(f.1.take(n_gathered as int) =~= f.1);
            assert(out@ =~= ifa_output_v(input@, sec_type, secsym, old(out)@));
        }
        Ok(())
    }
}

/// The pass that generates a `.init_array` section in the output
/// relocatable file.
#[derive(Clone, Copy, Debug, PartialEq, Eq, Structural)]
pub struct GenerateInitArrayPass {
    /// The shared function-pointer-array machinery.
    pub inner: GenerateFuncPtrArray,
}

impl GenerateInitArrayPass {
    /// Make the pass; it reads the section map of the coalescing pass named
    /// by `cls_pass`.
    pub fn new(cls_pass: PassHandle) -> (r: GenerateInitArrayPass)
        ensures
            r.inner.cls_pass == cls_pass,
    {
        GenerateInitArrayPass { inner: GenerateFuncPtrArray::new(cls_pass) }
    }

    /// Run the pass.
    pub fn run(
        &self,
        input: &ElfInput,
        out: &mut OutputObject,
        cls_output: &CopyLodableSectionsOutput,
    ) -> (r: Result<(), GenerateInitFiniArrayError>)
        requires
            input@.wf(),
            cls_output@.section_maps == cls_maps(input@),
            cls_output@.output_section_symbol < old(out)@.symbols.len(),
            ifa_fold(
                input@,
                SHT_INIT_ARRAY,
                cls_output@.output_section_symbol,
                input@.sections.len() as int,
            ).0 <= usize::MAX,
        ensures
            ({
                let f = ifa_fold(
                    input@,
                    SHT_INIT_ARRAY,
                    cls_output@.output_section_symbol,
                    input@.sections.len() as int,
                );
                match f.2 {
                    Some(er) => final(out)@ == old(out)@ && r == Err::<
                        (),
                        GenerateInitFiniArrayError,
                    >(er),
                    None => {
                        if f.0 == 0 {
                            &&& final(out)@ == old(out)@
                            &&& r == Ok::<(), GenerateInitFiniArrayError>(())
                        } else {
                            &&& final(out)@ == ifa_output_v(
                                input@,
                                SHT_INIT_ARRAY,
                                cls_output@.output_section_symbol,
                                old(out)@,
                            )
                            &&& r == Ok::<(), GenerateInitFiniArrayError>(())
                        }
                    },
                }
            }),
    {
        self.inner.generate(input, out, cls_output, SHT_INIT_ARRAY)
    }
}

/// The pass that generates a `.fini_array` section in the output
/// relocatable file.
#[derive(Clone, Copy, Debug, PartialEq, Eq, Structural)]
pub struct GenerateFiniArrayPass {
    /// The shared function-pointer-array machinery.
    pub inner: GenerateFuncPtrArray,
}

impl GenerateFiniArrayPass {
    /// Make the pass; it reads the section map of the coalescing pass named
    /// by `cls_pass`.
    pub fn new(cls_pass: PassHandle) -> (r: GenerateFiniArrayPass)
        ensures
            r.inner.cls_pass == cls_pass,
    {
        GenerateFiniArrayPass { inner: GenerateFuncPtrArray::new(cls_pass) }
    }

    /// Run the pass.
    pub fn run(
        &self,
        input: &ElfInput,
        out: &mut OutputObject,
        cls_output: &CopyLodableSectionsOutput,
    ) -> (r: Result<(), GenerateInitFiniArrayError>)
        requires
            input@.wf(),
            cls_output@.section_maps == cls_maps(input@),
            cls_output@.output_section_symbol < old(out)@.symbols.len(),
            ifa_fold(
                input@,
                SHT_FINI_ARRAY,
                cls_output@.output_section_symbol,
                input@.sections.len() as int,
            ).0 <= usize::MAX,
        ensures
            ({
                let f = ifa_fold(
                    input@,
                    SHT_FINI_ARRAY,
                    cls_output@.output_section_symbol,
                    input@.sections.len() as int,
                );
                match f.2 {
                    Some(er) => final(out)@ == old(out)@ && r == Err::<
                        (),
                        GenerateInitFiniArrayError,
                    >(er),
                    None => {
                        if f.0 == 0 {
                            &&& final(out)@ == old(out)@
                            &&& r == Ok::<(), GenerateInitFiniArrayError>(())
                        } else {
                            &&& final(out)@ == ifa_output_v(
                                input@,
                                SHT_FINI_ARRAY,
                                cls_output@.output_section_symbol,
                                old(out)@,
                            )
                            &&& r == Ok::<(), GenerateInitFiniArrayError>(())
                        }
                    },
                }
            }),
    {
        self.inner.generate(input, out, cls_output, SHT_FINI_ARRAY)
    }
}

} // verus!
