//! The symbol synthesis pass.
//!
//! The pass walks the input's dynamic symbol table and emits an output
//! symbol for every undefined input symbol, and for every defined input
//! symbol that is globally linkable, has default or protected visibility,
//! and whose defining section was retained by the coalescing pass.  It
//! publishes a symbol map from input dynamic-symbol indices to output symbol
//! identifiers.

use vstd::prelude::*;

use crate::elf::defs::{STB_GLOBAL, STB_GNU_UNIQUE, STB_LOCAL, STV_DEFAULT, STV_PROTECTED};
use crate::elf::input::{ElfInput, ElfInputV, InputSymbol, InputSymbolV, SymbolScope, SymbolSectionRef};
use crate::elf::output::{OutputObject, OutputObjectV, OutputSymbol, OutputSymbolSection, OutputSymbolV};
use crate::elf::pass::section::{
    cls_maps, lemma_section_map_coverage, maps_contain_index, section_loadable,
    CopyLodableSectionsOutput,
};
use crate::pass::PassHandle;

verus! {

/// The binding half of an ELF `st_info` byte.
pub open spec fn st_bind(st_info: u8) -> u8 {
    st_info >> 4
}

/// The visibility bits of an ELF `st_other` byte.
pub open spec fn st_vis(st_other: u8) -> u8 {
    st_other & 3
}

/// Whether the symbol's defining section, if it has one, was retained by
/// the coalescing pass.
pub open spec fn sym_section_ok(input: ElfInputV, sym: InputSymbolV) -> bool {
    match sym.section {
        SymbolSectionRef::Section(idx) => section_loadable(input, idx as int),
        _ => true,
    }
}

/// Whether an output symbol is emitted for dynamic symbol `sym`: always for
/// an undefined symbol; for a defined one exactly when it is globally
/// linkable, its visibility is default or protected, and its defining
/// section was retained.
pub open spec fn sym_selected(input: ElfInputV, sym: InputSymbolV) -> bool {
    if sym.section == SymbolSectionRef::Undefined {
        true
    } else {
        &&& st_bind(sym.st_info) != STB_LOCAL
        &&& (st_vis(sym.st_other) == STV_DEFAULT || st_vis(sym.st_other) == STV_PROTECTED)
        &&& sym_section_ok(input, sym)
    }
}

/// `st_info` with a GNU-unique binding downgraded to global binding; any
/// other binding is kept as it is.
pub open spec fn normalized_st_info(st_info: u8) -> u8 {
    if st_bind(st_info) == STB_GNU_UNIQUE {
        (STB_GLOBAL << 4) | (st_info & 0xF)
    } else {
        st_info
    }
}

/// Scope of the emitted symbol: an unknown scope becomes compilation-unit
/// scope for local binding and linkage scope otherwise; dynamic scope
/// becomes linkage scope; other scopes are kept.
pub open spec fn derived_scope(scope: SymbolScope, st_info: u8) -> SymbolScope {
    let bind = st_bind(normalized_st_info(st_info));
    match scope {
        SymbolScope::Unknown => if bind == STB_LOCAL {
            SymbolScope::Compilation
        } else {
            SymbolScope::Linkage
        },
        SymbolScope::Dynamic => SymbolScope::Linkage,
        s => s,
    }
}

/// The section reference of the emitted symbol: undefined and absolute are
/// kept, a common symbol gets no section, and a defined section becomes the
/// coalesced output section.
pub open spec fn out_sym_section(sym: InputSymbolV, cls_section_id: usize) -> OutputSymbolSection {
    match sym.section {
        SymbolSectionRef::NoSection => OutputSymbolSection::NoSection,
        SymbolSectionRef::Undefined => OutputSymbolSection::Undefined,
        SymbolSectionRef::Absolute => OutputSymbolSection::Absolute,
        SymbolSectionRef::Common => OutputSymbolSection::NoSection,
        SymbolSectionRef::Section(_) => OutputSymbolSection::Section(cls_section_id),
    }
}

/// The output symbol emitted for input symbol `sym`: name, value, size,
/// kind and weakness are copied, the binding is normalized, the scope is
/// derived, and the section reference is rewritten.
pub open spec fn converted_symbol(sym: InputSymbolV, cls_section_id: usize) -> OutputSymbolV {
    OutputSymbolV {
        name: sym.name,
        value: sym.value,
        size: sym.size,
        kind: sym.kind,
        scope: derived_scope(sym.scope, sym.st_info),
        weak: sym.weak,
        section: out_sym_section(sym, cls_section_id),
        st_info: normalized_st_info(sym.st_info),
        st_other: sym.st_other,
    }
}

/// The output symbols emitted for the first `n` dynamic symbols, in input
/// order.
pub open spec fn emitted_prefix(input: ElfInputV, cls_section_id: usize, n: int) -> Seq<
    OutputSymbolV,
>
    decreases n,
{
    if n <= 0 {
        Seq::empty()
    } else {
        let prev = emitted_prefix(input, cls_section_id, n - 1);
        let sym = input.dynamic_symbols[n - 1];
        if sym_selected(input, sym) {
            prev.push(converted_symbol(sym, cls_section_id))
        } else {
            prev
        }
    }
}

/// All output symbols the pass emits, in input order.
pub open spec fn emitted_symbols(input: ElfInputV, cls_section_id: usize) -> Seq<OutputSymbolV> {
    emitted_prefix(input, cls_section_id, input.dynamic_symbols.len() as int)
}

/// The symbol-map entries made from the first `n` dynamic symbols, given
/// that the first emitted symbol gets identifier `base`.
pub open spec fn pairs_prefix(input: ElfInputV, base: int, n: int) -> Seq<(usize, usize)>
    decreases n,
{
    if n <= 0 {
        Seq::empty()
    } else {
        let prev = pairs_prefix(input, base, n - 1);
        let sym = input.dynamic_symbols[n - 1];
        if sym_selected(input, sym) {
            prev.push((sym.index, (base + prev.len()) as usize))
        } else {
            prev
        }
    }
}

/// All symbol-map entries the pass records, in input order.
pub open spec fn symbol_map_pairs(input: ElfInputV, base: int) -> Seq<(usize, usize)> {
    pairs_prefix(input, base, input.dynamic_symbols.len() as int)
}

/// The first value mapped under key `idx`, if any.
pub open spec fn map_lookup(entries: Seq<(usize, usize)>, idx: usize) -> Option<usize>
    decreases entries.len(),
{
    if entries.len() == 0 {
        Option::None
    } else if entries[0].0 == idx {
        Option::Some(entries[0].1)
    } else {
        map_lookup(entries.drop_first(), idx)
    }
}

/// If some entry has key `idx`, the lookup finds one.
pub proof fn lemma_map_lookup_some(entries: Seq<(usize, usize)>, idx: usize)
    ensures
        (exists|j: int| 0 <= j < entries.len() && (#[trigger] entries[j]).0 == idx)
            <==> map_lookup(entries, idx) is Some,
    decreases entries.len(),
{
    if entries.len() > 0 {
        lemma_map_lookup_some(entries.drop_first(), idx);
        let d = entries.drop_first();
        assert(forall|j: int| 0 <= j < d.len() ==> #[trigger] d[j] == entries[j + 1]);
        if entries[0].0 != idx {
            if exists|j: int| 0 <= j < entries.len() && (#[trigger] entries[j]).0 == idx {
                let j = choose|j: int| 0 <= j < entries.len() && (#[trigger] entries[j]).0 == idx;
                assert(d[j - 1].0 == idx);
            }
        }
    }
}

/// The emitted symbols and the map entries stay in step: one map entry per
/// emitted symbol.
pub proof fn lemma_prefix_lens(input: ElfInputV, cls_section_id: usize, base: int, n: int)
    ensures
        emitted_prefix(input, cls_section_id, n).len() == pairs_prefix(input, base, n).len(),
        pairs_prefix(input, base, n).len() <= (if n >= 0 { n } else { 0 }),
        n >= 0 ==> pairs_prefix(input, base, n).len() == num_selected(input, n),
    decreases n,
{
    if n > 0 {
        lemma_prefix_lens(input, cls_section_id, base, n - 1);
    }
}

/// The partial symbol map published by the pass.
#[derive(Debug)]
pub struct SymbolMap {
    entries: Vec<(usize, usize)>,
}

impl View for SymbolMap {
    type V = Seq<(usize, usize)>;

    closed spec fn view(&self) -> Seq<(usize, usize)> {
        self.entries@
    }
}

impl SymbolMap {
    /// Get the output symbol corresponding to the specified input dynamic
    /// symbol, if one was emitted.
    pub fn get_output_symbol(&self, input_sym: usize) -> (r: Option<usize>)
        ensures
            r == map_lookup(self@, input_sym),
    {
        let n = self.entries.len();
        let mut k: usize = 0;
        proof {
            assert(self@.skip(0) =~= self@);
        }
        while k < n
            invariant
                0 <= k <= n,
                n == self@.len(),
                map_lookup(self@, input_sym) == map_lookup(self@.skip(k as int), input_sym),
            decreases n - k,
        {
            let (key, id) = self.entries[k];
            proof {
                assert(self@.skip(k as int)[0] == self@[k as int]);
                assert(self@.skip(k as int).drop_first() =~= self@.skip(k + 1));
            }
            if key == input_sym {
                return Some(id);
            }
            k = k + 1;
        }
        proof {
            assert(self@.skip(n as int) =~= Seq::<(usize, usize)>::empty());
        }
        None
    }

    /// The number of mapped input symbols.
    pub fn len(&self) -> (r: usize)
        ensures
            r == self@.len(),
    {
        self.entries.len()
    }
}

/// Copy a byte vector.
pub(crate) fn clone_bytes(v: &Vec<u8>) -> (r: Vec<u8>)
    ensures
        r@ == v@,
{
    let mut r: Vec<u8> = Vec::new();
    let n = v.len();
    let mut i: usize = 0;
    while i < n
        invariant
            0 <= i <= n,
            n == v@.len(),
            r@ == v@.take(i as int),
        decreases n - i,
    {
        r.push(v[i]);
        proof {
            assert(r@ =~= v@.take(i + 1));
        }
        i = i + 1;
    }
    proof {
        assert(v@.take(n as int) =~= v@);
    }
    r
}

/// Build the output symbol for one selected input symbol.
fn create_output_symbol(sym: &InputSymbol, cls_section_id: usize) -> (r: OutputSymbol)
    ensures
        r@ == converted_symbol(sym@, cls_section_id),
{
    let name = clone_bytes(&sym.name);

    let bind = sym.st_info >> 4;
    let st_info: u8 = if bind == STB_GNU_UNIQUE {
        (STB_GLOBAL << 4) | (sym.st_info & 0xF)
    } else {
        sym.st_info
    };
    let new_bind = st_info >> 4;

    let scope = match sym.scope {
        SymbolScope::Unknown => if new_bind == STB_LOCAL {
            SymbolScope::Compilation
        } else {
            SymbolScope::Linkage
        },
        SymbolScope::Dynamic => SymbolScope::Linkage,
        s => s,
    };

    let section = match sym.section {
        SymbolSectionRef::NoSection => OutputSymbolSection::NoSection,
        SymbolSectionRef::Undefined => OutputSymbolSection::Undefined,
        SymbolSectionRef::Absolute => OutputSymbolSection::Absolute,
        SymbolSectionRef::Common => OutputSymbolSection::NoSection,
        SymbolSectionRef::Section(_) => OutputSymbolSection::Section(cls_section_id),
    };

    let r = OutputSymbol {
        name,
        value: sym.value,
        size: sym.size,
        kind: sym.kind,
        scope,
        weak: sym.weak,
        section,
        st_info,
        st_other: sym.st_other,
    };
    proof {
        assert(r@ =~= converted_symbol(sym@, cls_section_id));
    }
    r
}

/// The pass that synthesizes the output's static symbol table from the
/// input's dynamic symbols.
#[derive(Clone, Copy, Debug, PartialEq, Eq, Structural)]
pub struct GenerateSymbolPass {
    /// Handle of the coalescing pass whose section map decides which
    /// defined symbols are kept.
    pub cls_pass: PassHandle,
}

impl GenerateSymbolPass {
    /// Run the pass: emit an output symbol for every selected dynamic
    /// symbol and record the index translation.
    pub fn run(
        &self,
        input: &ElfInput,
        out: &mut OutputObject,
        cls_output: &CopyLodableSectionsOutput,
    ) -> (r: SymbolMap)
        requires
            input@.wf(),
            cls_output@.section_maps == cls_maps(input@),
            old(out)@.symbols.len() + input@.dynamic_symbols.len() <= usize::MAX,
        ensures
            final(out)@ == (OutputObjectV {
                symbols: old(out)@.symbols + emitted_symbols(
                    input@,
                    cls_output@.output_section_id,
                ),
                ..old(out)@
            }),
            r@ == symbol_map_pairs(input@, old(out)@.symbols.len() as int),
    {
        let ghost base: int = old(out)@.symbols.len() as int;
        let cls_section_id = cls_output.output_section_id;
        proof {
            assert(input.sections.len() == input@.sections.len());
            lemma_section_map_coverage(input@);
        }
        let mut entries: Vec<(usize, usize)> = Vec::new();
        let n = input.dynamic_symbols.len();
        let mut k: usize = 0;
        while k < n
            invariant
                0 <= k <= n,
                n == input@.dynamic_symbols.len(),
                input@.wf(),
                input@.sections.len() <= usize::MAX,
                cls_output@.section_maps == cls_maps(input@),
                cls_section_id == cls_output@.output_section_id,
                base == old(out)@.symbols.len(),
                base + n <= usize::MAX,
                out@ == (OutputObjectV {
                    symbols: old(out)@.symbols + emitted_prefix(input@, cls_section_id, k as int),
                    ..old(out)@
                }),
                entries@ == pairs_prefix(input@, base, k as int),
                forall|i: int|
                    section_loadable(input@, i) ==> exists|k0: int|
                        0 <= k0 < cls_maps(input@).len() && (#[trigger] cls_maps(input@)[k0]).index
                            == i,
                forall|k0: int|
                    0 <= k0 < cls_maps(input@).len() ==> section_loadable(
                        input@,
                        (#[trigger] cls_maps(input@)[k0]).index as int,
                    ),
            decreases n - k,
        {
            let sym = &input.dynamic_symbols[k];
            let selected = match sym.section {
                SymbolSectionRef::Undefined => true,
                _ => {
                    let bind = sym.st_info >> 4;
                    let vis = sym.st_other & 3;
                    if bind == STB_LOCAL {
                        false
                    } else if vis != STV_DEFAULT && vis != STV_PROTECTED {
                        false
                    } else {
                        match sym.section {
                            SymbolSectionRef::Section(idx) => cls_output.is_section_copied(idx),
                            _ => true,
                        }
                    }
                },
            };
            assert(selected == sym_selected(input@, sym@));
            if selected {
                proof {
                    lemma_prefix_lens(input@, cls_section_id, base, k as int);
                }
                let out_sym = create_output_symbol(sym, cls_section_id);
                let id = out.add_symbol(out_sym);
                entries.push((sym.index, id));
                proof {
                    assert(out@.symbols =~= old(out)@.symbols + emitted_prefix(
                        input@,
                        cls_section_id,
                        k + 1,
                    ));
                    assert(out@ =~= (OutputObjectV {
                        symbols: old(out)@.symbols + emitted_prefix(input@, cls_section_id, k + 1),
                        ..old(out)@
                    }));
                    assert(entries@ =~= pairs_prefix(input@, base, k + 1));
                }
            }
            k = k + 1;
        }
        SymbolMap { entries }
    }
}

/// No two dynamic symbols of the input share a symbol-table index.
pub open spec fn sym_indices_distinct(input: ElfInputV) -> bool {
    forall|k1: int, k2: int|
        0 <= k1 < k2 < input.dynamic_symbols.len() ==> (#[trigger] input.dynamic_symbols[k1]).index
            != (#[trigger] input.dynamic_symbols[k2]).index
}

/// How many of the first `n` dynamic symbols are selected.
pub open spec fn num_selected(input: ElfInputV, n: int) -> int
    decreases n,
{
    if n <= 0 {
        0
    } else {
        num_selected(input, n - 1) + if sym_selected(input, input.dynamic_symbols[n - 1]) {
            1int
        } else {
            0int
        }
    }
}

/// Which dynamic symbol the `j`-th selected one is, among the first `n`.
pub open spec fn sel_src(input: ElfInputV, n: int, j: int) -> int
    decreases n,
{
    if n <= 0 {
        -1
    } else if sym_selected(input, input.dynamic_symbols[n - 1]) && j == num_selected(
        input,
        n - 1,
    ) {
        n - 1
    } else {
        sel_src(input, n - 1, j)
    }
}

/// The map entry and emitted symbol at position `j` come from the `j`-th
/// selected input symbol: the entry is keyed by that symbol's index, maps to
/// identifier `base + j`, and the emitted symbol is its converted form.
pub proof fn lemma_entry_at(input: ElfInputV, cls_id: usize, base: int, n: int, j: int)
    requires
        0 <= n <= input.dynamic_symbols.len(),
        0 <= j < pairs_prefix(input, base, n).len(),
    ensures
        ({
            let k = sel_src(input, n, j);
            &&& 0 <= k < n
            &&& sym_selected(input, input.dynamic_symbols[k])
            &&& num_selected(input, k) == j
            &&& pairs_prefix(input, base, n)[j] == (
                input.dynamic_symbols[k].index,
                (base + j) as usize,
            )
            &&& emitted_prefix(input, cls_id, n)[j] == converted_symbol(
                input.dynamic_symbols[k],
                cls_id,
            )
        }),
    decreases n,
{
    lemma_prefix_lens(input, cls_id, base, n);
    if n > 0 {
        lemma_prefix_lens(input, cls_id, base, n - 1);
        let sym = input.dynamic_symbols[n - 1];
        if sym_selected(input, sym) && j == pairs_prefix(input, base, n - 1).len() {
            assert(num_selected(input, n - 1) == pairs_prefix(input, base, n - 1).len());
        } else {
            lemma_entry_at(input, cls_id, base, n - 1, j);
        }
    }
}

/// Every selected input symbol `k` has a map entry and an emitted symbol, at
/// position `num_selected(input, k)`.
pub proof fn lemma_entry_for(input: ElfInputV, cls_id: usize, base: int, n: int, k: int)
    requires
        0 <= k < n <= input.dynamic_symbols.len(),
        sym_selected(input, input.dynamic_symbols[k]),
    ensures
        ({
            let j = num_selected(input, k);
            &&& 0 <= j < pairs_prefix(input, base, n).len()
            &&& sel_src(input, n, j) == k
            &&& pairs_prefix(input, base, n)[j] == (
                input.dynamic_symbols[k].index,
                (base + j) as usize,
            )
            &&& emitted_prefix(input, cls_id, n)[j] == converted_symbol(
                input.dynamic_symbols[k],
                cls_id,
            )
        }),
    decreases n,
{
    lemma_prefix_lens(input, cls_id, base, n);
    if k == n - 1 {
        lemma_prefix_lens(input, cls_id, base, n - 1);
        assert(num_selected(input, n - 1) == pairs_prefix(input, base, n - 1).len());
    } else {
        lemma_entry_for(input, cls_id, base, n - 1, k);
        lemma_prefix_lens(input, cls_id, base, n - 1);
    }
}

/// Two different map entries never share a key, when the input's dynamic
/// symbol indices are pairwise distinct.
pub proof fn lemma_pairs_keys_distinct_at(input: ElfInputV, base: int, n: int, j1: int, j2: int)
    requires
        0 <= n <= input.dynamic_symbols.len(),
        sym_indices_distinct(input),
        0 <= j1 < j2 < pairs_prefix(input, base, n).len(),
    ensures
        pairs_prefix(input, base, n)[j1].0 != pairs_prefix(input, base, n)[j2].0,
{
    lemma_entry_at(input, 0, base, n, j1);
    lemma_entry_at(input, 0, base, n, j2);
    let k1 = sel_src(input, n, j1);
    let k2 = sel_src(input, n, j2);
    assert(num_selected(input, k1) == j1 && num_selected(input, k2) == j2);
    assert(k1 != k2);
    if k1 < k2 {
        assert(input.dynamic_symbols[k1].index != input.dynamic_symbols[k2].index);
    } else {
        assert(input.dynamic_symbols[k2].index != input.dynamic_symbols[k1].index);
    }
}

/// Looking up the key of entry `j` finds that entry, when no two entries
/// share a key.
pub proof fn lemma_map_lookup_at(entries: Seq<(usize, usize)>, j: int)
    requires
        0 <= j < entries.len(),
        forall|j1: int, j2: int|
            0 <= j1 < j2 < entries.len() ==> (#[trigger] entries[j1]).0 != (
            #[trigger] entries[j2]).0,
    ensures
        map_lookup(entries, entries[j].0) == Some(entries[j].1),
    decreases entries.len(),
{
    if j > 0 {
        let d = entries.drop_first();
        assert(forall|i: int| 0 <= i < d.len() ==> #[trigger] d[i] == entries[i + 1]);
        lemma_map_lookup_at(d, j - 1);
        assert(entries[0].0 != entries[j].0);
    }
}

/// The normalized binding is never GNU-unique.
proof fn lemma_normalized_bind_not_unique(x: u8)
    ensures
        st_bind(normalized_st_info(x)) != STB_GNU_UNIQUE,
{
    if x >> 4 == STB_GNU_UNIQUE {
        assert((((1u8 << 4) | (x & 0xF)) >> 4) == 1) by (bit_vector);
    }
}

/// Undefined-symbol preservation: every undefined dynamic input symbol is
/// mapped, and the output symbol it maps to is undefined and carries the
/// identical name bytes.
pub proof fn lemma_undefined_symbol_preservation(input: ElfInputV, cls_id: usize, base: int)
    requires
        sym_indices_distinct(input),
        0 <= base,
        base + input.dynamic_symbols.len() <= usize::MAX,
    ensures
        forall|k: int|
            0 <= k < input.dynamic_symbols.len() && (#[trigger] input.dynamic_symbols[k]).section
                == SymbolSectionRef::Undefined ==> {
                let l = map_lookup(
                    symbol_map_pairs(input, base),
                    input.dynamic_symbols[k].index,
                );
                &&& l is Some
                &&& l->0 - base < emitted_symbols(input, cls_id).len()
                &&& emitted_symbols(input, cls_id)[l->0 - base].section
                    == OutputSymbolSection::Undefined
                &&& emitted_symbols(input, cls_id)[l->0 - base].name
                    == input.dynamic_symbols[k].name
            },
{
    let n = input.dynamic_symbols.len() as int;
    let es = emitted_symbols(input, cls_id);
    let ps = symbol_map_pairs(input, base);
    lemma_prefix_lens(input, cls_id, base, n);
    assert forall|j1: int, j2: int| 0 <= j1 < j2 < ps.len() implies (#[trigger] ps[j1]).0 != (
    #[trigger] ps[j2]).0 by {
        lemma_pairs_keys_distinct_at(input, base, n, j1, j2);
    }
    assert forall|k: int|
        0 <= k < input.dynamic_symbols.len() && (#[trigger] input.dynamic_symbols[k]).section
            == SymbolSectionRef::Undefined implies {
        let l = map_lookup(symbol_map_pairs(input, base), input.dynamic_symbols[k].index);
        &&& l is Some
        &&& l->0 - base < emitted_symbols(input, cls_id).len()
        &&& emitted_symbols(input, cls_id)[l->0 - base].section == OutputSymbolSection::Undefined
        &&& emitted_symbols(input, cls_id)[l->0 - base].name == input.dynamic_symbols[k].name
    } by {
        assert(sym_selected(input, input.dynamic_symbols[k]));
        lemma_entry_for(input, cls_id, base, n, k);
        let j = num_selected(input, k);
        lemma_map_lookup_at(ps, j);
        assert(map_lookup(ps, input.dynamic_symbols[k].index) == Some(ps[j].1));
    }
}

/// Defined-symbol selection: a defined dynamic input symbol is mapped
/// exactly when it is globally linkable, has default or protected
/// visibility, and its defining section was retained.
pub proof fn lemma_defined_symbol_selection(input: ElfInputV, base: int)
    requires
        sym_indices_distinct(input),
    ensures
        forall|k: int|
            0 <= k < input.dynamic_symbols.len() && (#[trigger] input.dynamic_symbols[k]).section
                != SymbolSectionRef::Undefined ==> {
                let sym = input.dynamic_symbols[k];
                (map_lookup(symbol_map_pairs(input, base), sym.index) is Some) <==> {
                    &&& st_bind(sym.st_info) != STB_LOCAL
                    &&& (st_vis(sym.st_other) == STV_DEFAULT || st_vis(sym.st_other)
                        == STV_PROTECTED)
                    &&& sym_section_ok(input, sym)
                }
            },
{
    let n = input.dynamic_symbols.len() as int;
    let ps = symbol_map_pairs(input, base);
    lemma_prefix_lens(input, 0, base, n);
    assert forall|j1: int, j2: int| 0 <= j1 < j2 < ps.len() implies (#[trigger] ps[j1]).0 != (
    #[trigger] ps[j2]).0 by {
        lemma_pairs_keys_distinct_at(input, base, n, j1, j2);
    }
    assert forall|k: int|
        0 <= k < input.dynamic_symbols.len() && (#[trigger] input.dynamic_symbols[k]).section
            != SymbolSectionRef::Undefined implies {
        let sym = input.dynamic_symbols[k];
        (map_lookup(symbol_map_pairs(input, base), sym.index) is Some) <==> {
            &&& st_bind(sym.st_info) != STB_LOCAL
            &&& (st_vis(sym.st_other) == STV_DEFAULT || st_vis(sym.st_other) == STV_PROTECTED)
            &&& sym_section_ok(input, sym)
        }
    } by {
        let sym = input.dynamic_symbols[k];
        lemma_map_lookup_some(ps, sym.index);
        if sym_selected(input, sym) {
            lemma_entry_for(input, 0, base, n, k);
            let j = num_selected(input, k);
            assert(ps[j].0 == sym.index);
        } else {
            assert forall|j: int| 0 <= j < ps.len() implies (#[trigger] ps[j]).0 != sym.index by {
                lemma_entry_at(input, 0, base, n, j);
                let kj = sel_src(input, n, j);
                assert(sym_selected(input, input.dynamic_symbols[kj]));
                assert(kj != k);
                if kj < k {
                    assert(input.dynamic_symbols[kj].index != input.dynamic_symbols[k].index);
                } else {
                    assert(input.dynamic_symbols[k].index != input.dynamic_symbols[kj].index);
                }
            }
        }
    }
}

/// Binding normalization: no emitted output symbol has GNU-unique binding.
pub proof fn lemma_binding_normalization(input: ElfInputV, cls_id: usize, base: int)
    ensures
        forall|j: int|
            0 <= j < emitted_symbols(input, cls_id).len() ==> st_bind(
                (#[trigger] emitted_symbols(input, cls_id)[j]).st_info,
            ) != STB_GNU_UNIQUE,
{
    let n = input.dynamic_symbols.len() as int;
    let es = emitted_symbols(input, cls_id);
    lemma_prefix_lens(input, cls_id, base, n);
    assert forall|j: int|
        0 <= j < emitted_symbols(input, cls_id).len() implies st_bind(
        (#[trigger] emitted_symbols(input, cls_id)[j]).st_info,
    ) != STB_GNU_UNIQUE by {
        lemma_entry_at(input, cls_id, base, n, j);
        let k = sel_src(input, n, j);
        assert(es[j] == converted_symbol(input.dynamic_symbols[k], cls_id));
        lemma_normalized_bind_not_unique(input.dynamic_symbols[k].st_info);
    }
}

/// A found value is the value of some entry carrying the looked-up key.
pub proof fn lemma_map_lookup_entry(entries: Seq<(usize, usize)>, idx: usize)
    requires
        map_lookup(entries, idx) is Some,
    ensures
        exists|j: int|
            0 <= j < entries.len() && (#[trigger] entries[j]).0 == idx && entries[j].1
                == map_lookup(entries, idx)->0,
    decreases entries.len(),
{
    if entries.len() > 0 {
        if entries[0].0 == idx {
            assert((entries[0]).0 == idx && entries[0].1 == map_lookup(entries, idx)->0);
        } else {
            let d = entries.drop_first();
            lemma_map_lookup_entry(d, idx);
            let j = choose|j: int|
                0 <= j < d.len() && (#[trigger] d[j]).0 == idx && d[j].1 == map_lookup(d, idx)->0;
            assert(entries[j + 1] == d[j]);
            assert((entries[j + 1]).0 == idx && entries[j + 1].1 == map_lookup(entries, idx)->0);
        }
    }
}

} // verus!
