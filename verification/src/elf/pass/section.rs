//! The section coalescing pass.
//!
//! Every input section covered by a loadable segment is copied into one
//! output section, at the byte offset equal to its input virtual address.
//! The pass publishes a section map from which later passes translate input
//! addresses to output offsets; because offsets equal addresses, the
//! translation is the identity on every retained range.

use vstd::prelude::*;

use crate::elf::defs::{PT_LOAD, SHF_ALLOC, SHF_EXECINSTR, SHF_WRITE, SHT_PROGBITS};
use crate::elf::input::{ElfInput, ElfInputV, InputSectionV, Segment};
use crate::elf::output::{section_symbol_entry, OutputObject, OutputObjectV, OutputSectionV};
use crate::sorting::{
    insert_pos_witness, insert_sorted_by, lemma_insert_sorted_by_sorted,
    lemma_insert_sorted_by_split, sorted_by_key,
};

verus! {

/// The sort key of a collected `(address, section index)` pair: the address.
pub open spec fn pair_key() -> spec_fn((u64, usize)) -> u64 {
    |p: (u64, usize)| p.0
}

/// Whether `seg` is a loadable segment that wholly contains `sec`.
pub open spec fn segment_covers(seg: Segment, sec: InputSectionV) -> bool {
    &&& seg.p_type == PT_LOAD
    &&& seg.addr <= sec.addr
    &&& sec.addr + sec.size <= seg.addr + seg.size
}

/// Whether section `i` of the input is retained by the coalescing pass:
/// it is not the sentinel at index 0, it has a nonzero address, and some
/// loadable segment wholly contains it.
pub open spec fn section_loadable(input: ElfInputV, i: int) -> bool {
    &&& 1 <= i < input.sections.len()
    &&& input.sections[i].addr != 0
    &&& exists|j: int|
        0 <= j < input.segments.len() && segment_covers(
            #[trigger] input.segments[j],
            input.sections[i],
        )
}

/// The `(address, index)` pairs of the sections retained among the first `n`
/// input sections, in ascending address order; sections with equal addresses
/// stay in index order.
pub open spec fn retained_prefix(input: ElfInputV, n: int) -> Seq<(u64, usize)>
    decreases n,
{
    if n <= 0 {
        Seq::empty()
    } else {
        let prev = retained_prefix(input, n - 1);
        if section_loadable(input, n - 1) {
            insert_sorted_by(prev, (input.sections[n - 1].addr, (n - 1) as usize), pair_key())
        } else {
            prev
        }
    }
}

/// The `(address, index)` pairs of all retained input sections, in output
/// order.
pub open spec fn retained(input: ElfInputV) -> Seq<(u64, usize)> {
    retained_prefix(input, input.sections.len() as int)
}

/// What the collection step guarantees of a pair sequence `r` built from the
/// first `n` input sections: the pairs are in ascending address order, they
/// name exactly the retained sections among the first `n`, each pair carries
/// its section's address, and no section appears twice.
pub open spec fn collected_props(input: ElfInputV, n: int, r: Seq<(u64, usize)>) -> bool {
    &&& sorted_by_key(r, pair_key())
    &&& forall|k: int|
        0 <= k < r.len() ==> {
            let p = #[trigger] r[k];
            &&& section_loadable(input, p.1 as int)
            &&& (p.1 as int) < n
            &&& p.0 == input.sections[p.1 as int].addr
        }
    &&& forall|i: int|
        0 <= i < n && section_loadable(input, i) ==> exists|k: int|
            0 <= k < r.len() && (#[trigger] r[k]).1 == i
    &&& forall|k1: int, k2: int|
        0 <= k1 < k2 < r.len() ==> (#[trigger] r[k1]).1 != (#[trigger] r[k2]).1
}

/// The collected prefix has the collection properties.
#[verifier::rlimit(60)]
#[verifier::spinoff_prover]
pub proof fn lemma_retained_prefix_props(input: ElfInputV, n: int)
    requires
        0 <= n <= input.sections.len(),
        input.sections.len() <= usize::MAX,
    ensures
        collected_props(input, n, retained_prefix(input, n)),
    decreases n,
{
    if n > 0 {
        lemma_retained_prefix_props(input, n - 1);
        let prev = retained_prefix(input, n - 1);
        let r = retained_prefix(input, n);
        assert(collected_props(input, n - 1, prev));
        if section_loadable(input, n - 1) {
            let x = (input.sections[n - 1].addr, (n - 1) as usize);
            let j = insert_pos_witness(prev, x, pair_key());
            lemma_insert_sorted_by_split(prev, x, pair_key(), j);
            lemma_insert_sorted_by_sorted(prev, x, pair_key(), j);
            assert(r == prev.take(j) + seq![x] + prev.skip(j));
            assert forall|k: int| 0 <= k < r.len() implies {
                let p = #[trigger] r[k];
                &&& section_loadable(input, p.1 as int)
                &&& (p.1 as int) < n
                &&& p.0 == input.sections[p.1 as int].addr
            } by {
                if k < j {
                    assert(r[k] == prev[k]);
                } else if k == j {
                    assert(r[k] == x);
                } else {
                    assert(r[k] == prev[k - 1]);
                }
            }
            assert forall|i: int| 0 <= i < n && section_loadable(input, i) implies exists|k: int|
                0 <= k < r.len() && (#[trigger] r[k]).1 == i by {
                if i == n - 1 {
                    assert(r[j] == x);
                    assert(r[j].1 == i);
                } else {
                    let k0 = choose|k0: int| 0 <= k0 < prev.len() && (#[trigger] prev[k0]).1 == i;
                    if k0 < j {
                        assert(r[k0] == prev[k0]);
                        assert(r[k0].1 == i);
                    } else {
                        assert(r[k0 + 1] == prev[k0]);
                        assert(r[k0 + 1].1 == i);
                    }
                }
            }
            assert forall|k1: int, k2: int| 0 <= k1 < k2 < r.len() implies (#[trigger] r[k1]).1
                != (#[trigger] r[k2]).1 by {
                let i1: int = if k1 < j {
                    k1
                } else {
                    k1 - 1
                };
                let i2: int = if k2 < j {
                    k2
                } else {
                    k2 - 1
                };
                if k1 == j {
                    assert(r[k2] == prev[i2] && (prev[i2].1 as int) < n - 1);
                } else if k2 == j {
                    assert(r[k1] == prev[i1] && (prev[i1].1 as int) < n - 1);
                } else {
                    assert(r[k1] == prev[i1] && r[k2] == prev[i2] && i1 != i2);
                }
            }
        } else {
            assert(r == prev);
            assert(forall|i: int|
                0 <= i < n && section_loadable(input, i) ==> 0 <= i < n - 1 && section_loadable(
                    input,
                    i,
                ));
        }
    }
}

/// The collection properties of all retained sections.
pub proof fn lemma_retained_props(input: ElfInputV)
    requires
        input.sections.len() <= usize::MAX,
    ensures
        collected_props(input, input.sections.len() as int, retained(input)),
{
    lemma_retained_prefix_props(input, input.sections.len() as int);
}

/// The highest `address + size` over the sections named by `s`; 0 when `s`
/// is empty.
pub open spec fn max_end_of(input: ElfInputV, s: Seq<(u64, usize)>) -> int
    decreases s.len(),
{
    if s.len() == 0 {
        0
    } else {
        let prev = max_end_of(input, s.drop_last());
        let sec = input.sections[s.last().1 as int];
        let e = sec.addr + sec.size;
        if e > prev {
            e
        } else {
            prev
        }
    }
}

/// Size of the coalesced output section: the highest `address + size` over
/// all retained sections.
pub open spec fn cls_size(input: ElfInputV) -> int {
    max_end_of(input, retained(input))
}

/// Every section named by `s` ends at or before `max_end_of(input, s)`.
pub proof fn lemma_max_end_of_bounds(input: ElfInputV, s: Seq<(u64, usize)>)
    ensures
        max_end_of(input, s) >= 0,
        forall|k: int|
            0 <= k < s.len() ==> input.sections[(#[trigger] s[k]).1 as int].addr
                + input.sections[s[k].1 as int].size <= max_end_of(input, s),
    decreases s.len(),
{
    if s.len() > 0 {
        lemma_max_end_of_bounds(input, s.drop_last());
        assert(forall|k: int| 0 <= k < s.len() - 1 ==> s.drop_last()[k] == s[k]);
    }
}

/// Some retained section has one of the given flag bits set.
pub open spec fn any_retained_flag(input: ElfInputV, flag: u64) -> bool {
    exists|i: int|
        #[trigger] section_loadable(input, i) && input.sections[i].sh_flags & flag != 0
}

/// Flags of the coalesced output section: always allocated; writable or
/// executable as soon as any retained section is.
pub open spec fn cls_flags(input: ElfInputV) -> u64 {
    SHF_ALLOC | (if any_retained_flag(input, SHF_WRITE) {
        SHF_WRITE
    } else {
        0
    }) | (if any_retained_flag(input, SHF_EXECINSTR) {
        SHF_EXECINSTR
    } else {
        0
    })
}

/// Alignment of the coalesced output section: the largest alignment of the
/// retained sections; 1 when nothing was retained.
pub open spec fn max_align_of(input: ElfInputV, s: Seq<(u64, usize)>) -> u64
    decreases s.len(),
{
    if s.len() == 0 {
        1
    } else if s.len() == 1 {
        input.sections[s[0].1 as int].align
    } else {
        let prev = max_align_of(input, s.drop_last());
        let a = input.sections[s.last().1 as int].align;
        if a > prev {
            a
        } else {
            prev
        }
    }
}

/// Alignment of the coalesced output section.
pub open spec fn cls_align(input: ElfInputV) -> u64 {
    max_align_of(input, retained(input))
}

/// A sequence of `n` zero bytes.
pub open spec fn zero_bytes(n: int) -> Seq<u8> {
    Seq::new(
        if n >= 0 {
            n as nat
        } else {
            0
        },
        |k: int| 0u8,
    )
}

/// `buf` with `bytes` written at offset `off`; everything else unchanged.
pub open spec fn place_bytes(buf: Seq<u8>, off: int, bytes: Seq<u8>) -> Seq<u8> {
    Seq::new(
        buf.len(),
        |k: int|
            if off <= k < off + bytes.len() {
                bytes[k - off]
            } else {
                buf[k]
            },
    )
}

/// The contents of the coalesced section after copying the sections named by
/// `s`, in order, into a zero-filled buffer of `total` bytes; each section's
/// bytes go to the offsets equal to its virtual addresses.
pub open spec fn cls_data_of(input: ElfInputV, s: Seq<(u64, usize)>, total: int) -> Seq<u8>
    decreases s.len(),
{
    if s.len() == 0 {
        zero_bytes(total)
    } else {
        let sec = input.sections[s.last().1 as int];
        place_bytes(cls_data_of(input, s.drop_last(), total), sec.addr as int, sec.data)
    }
}

/// The contents of the coalesced output section.
pub open spec fn cls_data(input: ElfInputV) -> Seq<u8> {
    cls_data_of(input, retained(input), cls_size(input))
}

/// The buffer keeps its length while sections are copied in.
pub proof fn lemma_cls_data_of_len(input: ElfInputV, s: Seq<(u64, usize)>, total: int)
    requires
        total >= 0,
    ensures
        cls_data_of(input, s, total).len() == total,
    decreases s.len(),
{
    if s.len() > 0 {
        lemma_cls_data_of_len(input, s.drop_last(), total);
    }
}

/// A half-open range of addresses or byte offsets.
#[derive(Clone, Copy, Debug, PartialEq, Eq, Structural)]
pub struct AddrRange {
    /// First address of the range.
    pub start: u64,
    /// First address past the range.
    pub end: u64,
}

/// One entry of the section map: where a retained input section went.
#[derive(Clone, Copy, Debug, PartialEq, Eq, Structural)]
pub struct SectionMap {
    /// Index of the input section.
    pub index: usize,
    /// The input section's virtual address range.
    pub input_range: AddrRange,
    /// The byte offsets of the section inside the coalesced output section.
    pub output_range: AddrRange,
}

/// The section-map entry for a retained section.
pub open spec fn map_entry(input: ElfInputV, p: (u64, usize)) -> SectionMap {
    let sec = input.sections[p.1 as int];
    let rng = AddrRange { start: sec.addr, end: (sec.addr + sec.size) as u64 };
    SectionMap { index: p.1, input_range: rng, output_range: rng }
}

/// The section map published by the coalescing pass, in output order.
pub open spec fn cls_maps_of(input: ElfInputV, s: Seq<(u64, usize)>) -> Seq<SectionMap> {
    s.map_values(|p: (u64, usize)| map_entry(input, p))
}

/// The section map of all retained sections.
pub open spec fn cls_maps(input: ElfInputV) -> Seq<SectionMap> {
    cls_maps_of(input, retained(input))
}

/// Whether some entry of `maps` is for input section `idx`.
pub open spec fn maps_contain_index(maps: Seq<SectionMap>, idx: usize) -> bool {
    exists|k: int| 0 <= k < maps.len() && (#[trigger] maps[k]).index == idx
}

/// Whether address `a` falls inside some entry's input range.
pub open spec fn maps_cover(maps: Seq<SectionMap>, a: int) -> bool {
    exists|k: int|
        0 <= k < maps.len() && (#[trigger] maps[k]).input_range.start <= a
            < maps[k].input_range.end
}

/// The name bytes of the coalesced output section, `soda`.
pub open spec fn soda_name() -> Seq<u8> {
    seq![115u8, 111u8, 100u8, 97u8]
}

/// The view of the section list is no longer than a vector can be.
proof fn lemma_sections_len_bound(input: &ElfInput)
    ensures
        input@.sections.len() <= usize::MAX,
{
    assert(input.sections.len() == input@.sections.len());
}

/// Decide whether some loadable segment wholly contains section `i`.
fn section_in_load_segment(input: &ElfInput, i: usize) -> (r: bool)
    requires
        i < input@.sections.len(),
    ensures
        r == exists|j: int|
            0 <= j < input@.segments.len() && segment_covers(
                #[trigger] input@.segments[j],
                input@.sections[i as int],
            ),
{
    let sec_addr = input.sections[i].addr;
    let sec_size = input.sections[i].size;
    let sec_end: u128 = sec_addr as u128 + sec_size as u128;

    let mut j: usize = 0;
    let n = input.segments.len();
    let mut found = false;
    while j < n
        invariant
            0 <= j <= n,
            n == input@.segments.len(),
            i < input@.sections.len(),
            sec_addr == input@.sections[i as int].addr,
            sec_end == input@.sections[i as int].addr + input@.sections[i as int].size,
            found == exists|j0: int|
                0 <= j0 < j && segment_covers(
                    #[trigger] input@.segments[j0],
                    input@.sections[i as int],
                ),
        decreases n - j,
    {
        let seg = input.segments[j];
        let seg_end: u128 = seg.addr as u128 + seg.size as u128;
        if seg.p_type == PT_LOAD && seg.addr <= sec_addr && sec_end <= seg_end {
            assert(segment_covers(input@.segments[j as int], input@.sections[i as int]));
            found = true;
        }
        j = j + 1;
    }
    found
}

/// Insert a collected pair into the address-ordered list, keeping the order
/// stable.
pub(crate) fn insert_pair_sorted(pairs: &mut Vec<(u64, usize)>, x: (u64, usize))
    ensures
        final(pairs)@ == insert_sorted_by(old(pairs)@, x, pair_key()),
{
    let mut j: usize = 0;
    let n = pairs.len();
    while j < n && pairs[j].0 <= x.0
        invariant
            0 <= j <= n,
            n == pairs@.len(),
            pairs@ == old(pairs)@,
            forall|i: int| 0 <= i < j ==> pair_key()(#[trigger] pairs@[i]) <= pair_key()(x),
        decreases n - j,
    {
        j = j + 1;
    }
    proof {
        lemma_insert_sorted_by_split(pairs@, x, pair_key(), j as int);
    }
    pairs.insert(j, x);
    proof {
        assert(pairs@ =~= old(pairs)@.take(j as int) + seq![x] + old(pairs)@.skip(j as int));
    }
}

/// Collect the retained input sections as `(address, index)` pairs, in
/// ascending address order; equal addresses keep index order.
fn collect_loadable_sections(input: &ElfInput) -> (r: Vec<(u64, usize)>)
    ensures
        r@ == retained(input@),
{
    let mut pairs: Vec<(u64, usize)> = Vec::new();
    let n = input.sections.len();
    let mut i: usize = 0;
    while i < n
        invariant
            0 <= i <= n,
            n == input@.sections.len(),
            pairs@ == retained_prefix(input@, i as int),
        decreases n - i,
    {
        let addr = input.sections[i].addr;
        if i >= 1 && addr != 0 && section_in_load_segment(input, i) {
            assert(section_loadable(input@, i as int));
            insert_pair_sorted(&mut pairs, (addr, i));
        } else {
            assert(!section_loadable(input@, i as int));
        }
        i = i + 1;
    }
    pairs
}

/// Compute the flags of the coalesced output section from the collected
/// pairs.
fn get_output_section_flags(input: &ElfInput, pairs: &Vec<(u64, usize)>) -> (r: u64)
    requires
        pairs@ == retained(input@),
    ensures
        r == cls_flags(input@),
{
    proof {
        lemma_sections_len_bound(input);
        lemma_retained_props(input@);
    }
    let mut has_w = false;
    let mut has_x = false;
    let n = pairs.len();
    let mut k: usize = 0;
    while k < n
        invariant
            0 <= k <= n,
            n == pairs@.len(),
            pairs@ == retained(input@),
            collected_props(input@, input@.sections.len() as int, pairs@),
            has_w == exists|k0: int|
                0 <= k0 < k && input@.sections[(#[trigger] pairs@[k0]).1 as int].sh_flags
                    & SHF_WRITE != 0,
            has_x == exists|k0: int|
                0 <= k0 < k && input@.sections[(#[trigger] pairs@[k0]).1 as int].sh_flags
                    & SHF_EXECINSTR != 0,
        decreases n - k,
    {
        let idx = pairs[k].1;
        assert(section_loadable(input@, idx as int));
        let f = input.sections[idx].sh_flags;
        if f & SHF_WRITE != 0 {
            has_w = true;
        }
        if f & SHF_EXECINSTR != 0 {
            has_x = true;
        }
        k = k + 1;
    }
    proof {
        if has_w {
            let k0 = choose|k0: int|
                0 <= k0 < pairs@.len() && input@.sections[(#[trigger] pairs@[k0]).1 as int].sh_flags
                    & SHF_WRITE != 0;
            assert(section_loadable(input@, pairs@[k0].1 as int));
        } else {
            if any_retained_flag(input@, SHF_WRITE) {
                let i = choose|i: int|
                    #[trigger] section_loadable(input@, i) && input@.sections[i].sh_flags
                        & SHF_WRITE != 0;
                let k0 = choose|k0: int|
                    0 <= k0 < pairs@.len() && (#[trigger] pairs@[k0]).1 == i;
                assert(input@.sections[pairs@[k0].1 as int].sh_flags & SHF_WRITE != 0);
            }
        }
        assert(has_w == any_retained_flag(input@, SHF_WRITE));
        if has_x {
            let k0 = choose|k0: int|
                0 <= k0 < pairs@.len() && input@.sections[(#[trigger] pairs@[k0]).1 as int].sh_flags
                    & SHF_EXECINSTR != 0;
            assert(section_loadable(input@, pairs@[k0].1 as int));
        } else {
            if any_retained_flag(input@, SHF_EXECINSTR) {
                let i = choose|i: int|
                    #[trigger] section_loadable(input@, i) && input@.sections[i].sh_flags
                        & SHF_EXECINSTR != 0;
                let k0 = choose|k0: int|
                    0 <= k0 < pairs@.len() && (#[trigger] pairs@[k0]).1 == i;
                assert(input@.sections[pairs@[k0].1 as int].sh_flags & SHF_EXECINSTR != 0);
            }
        }
        assert(has_x == any_retained_flag(input@, SHF_EXECINSTR));
    }
    let mut flags: u64 = SHF_ALLOC;
    if has_w {
        flags = flags | SHF_WRITE;
    }
    if has_x {
        flags = flags | SHF_EXECINSTR;
    }
    proof {
        assert((2u64 | 1u64) | 0u64 == 2u64 | 1u64) by (bit_vector);
        assert((2u64 | 0u64) | 4u64 == 2u64 | 4u64) by (bit_vector);
        assert((2u64 | 0u64) | 0u64 == 2u64) by (bit_vector);
    }
    flags
}

/// Compute the size of the coalesced output section from the collected
/// pairs.
fn compute_output_section_size(input: &ElfInput, pairs: &Vec<(u64, usize)>) -> (r: u64)
    requires
        input@.wf(),
        pairs@ == retained(input@),
    ensures
        r as int == cls_size(input@),
{
    proof {
        lemma_sections_len_bound(input);
        lemma_retained_props(input@);
    }
    let mut acc: u64 = 0;
    let n = pairs.len();
    let mut k: usize = 0;
    while k < n
        invariant
            0 <= k <= n,
            n == pairs@.len(),
            input@.wf(),
            pairs@ == retained(input@),
            collected_props(input@, input@.sections.len() as int, pairs@),
            acc as int == max_end_of(input@, pairs@.take(k as int)),
        decreases n - k,
    {
        let idx = pairs[k].1;
        assert(section_loadable(input@, idx as int));
        assert(input@.sections[idx as int].wf());
        let e = input.sections[idx].addr + input.sections[idx].size;
        proof {
            assert(pairs@.take(k + 1).drop_last() =~= pairs@.take(k as int));
            assert(pairs@.take(k + 1).last() == pairs@[k as int]);
        }
        if e > acc {
            acc = e;
        }
        k = k + 1;
    }
    proof {
        assert(pairs@.take(n as int) =~= pairs@);
    }
    acc
}

/// Compute the alignment of the coalesced output section from the collected
/// pairs.
fn compute_output_section_align(input: &ElfInput, pairs: &Vec<(u64, usize)>) -> (r: u64)
    requires
        pairs@ == retained(input@),
    ensures
        r == cls_align(input@),
{
    proof {
        lemma_sections_len_bound(input);
        lemma_retained_props(input@);
    }
    let n = pairs.len();
    if n == 0 {
        proof {
            assert(retained(input@).len() == 0);
        }
        return 1;
    }
    let idx0 = pairs[0].1;
    assert(section_loadable(input@, idx0 as int));
    let mut acc = input.sections[idx0].align;
    proof {
        assert(pairs@.take(1)[0] == pairs@[0]);
    }
    let mut k: usize = 1;
    while k < n
        invariant
            1 <= k <= n,
            n == pairs@.len(),
            pairs@ == retained(input@),
            collected_props(input@, input@.sections.len() as int, pairs@),
            acc == max_align_of(input@, pairs@.take(k as int)),
        decreases n - k,
    {
        let idx = pairs[k].1;
        assert(section_loadable(input@, idx as int));
        let a = input.sections[idx].align;
        proof {
            assert(pairs@.take(k + 1).drop_last() =~= pairs@.take(k as int));
            assert(pairs@.take(k + 1).last() == pairs@[k as int]);
        }
        if a > acc {
            acc = a;
        }
        k = k + 1;
    }
    proof {
        assert(pairs@.take(n as int) =~= pairs@);
    }
    acc
}

/// Build the section map from the collected pairs.
fn build_section_maps(input: &ElfInput, pairs: &Vec<(u64, usize)>) -> (r: Vec<SectionMap>)
    requires
        input@.wf(),
        pairs@ == retained(input@),
    ensures
        r@ == cls_maps(input@),
{
    proof {
        lemma_sections_len_bound(input);
        lemma_retained_props(input@);
    }
    let mut maps: Vec<SectionMap> = Vec::new();
    let n = pairs.len();
    let mut k: usize = 0;
    while k < n
        invariant
            0 <= k <= n,
            n == pairs@.len(),
            input@.wf(),
            pairs@ == retained(input@),
            collected_props(input@, input@.sections.len() as int, pairs@),
            maps@ == cls_maps_of(input@, pairs@.take(k as int)),
        decreases n - k,
    {
        let (addr, idx) = pairs[k];
        assert(section_loadable(input@, idx as int));
        assert(input@.sections[idx as int].wf());
        let end = input.sections[idx].addr + input.sections[idx].size;
        let rng = AddrRange { start: addr, end };
        maps.push(SectionMap { index: idx, input_range: rng, output_range: rng });
        proof {
            assert(maps@ =~= cls_maps_of(input@, pairs@.take(k + 1)));
        }
        k = k + 1;
    }
    proof {
        assert(pairs@.take(n as int) =~= pairs@);
    }
    maps
}

/// A zero-filled buffer of `n` bytes.
fn zero_buffer(n: usize) -> (r: Vec<u8>)
    ensures
        r@ == zero_bytes(n as int),
{
    let mut v: Vec<u8> = Vec::new();
    let mut i: usize = 0;
    while i < n
        invariant
            0 <= i <= n,
            v@ =~= zero_bytes(i as int),
        decreases n - i,
    {
        v.push(0);
        proof {
            assert(v@ =~= zero_bytes(i + 1));
        }
        i = i + 1;
    }
    v
}

/// Copy each retained section's bytes into the output buffer, at the offsets
/// equal to its virtual addresses.
fn copy_section_data(input: &ElfInput, pairs: &Vec<(u64, usize)>, buf: &mut Vec<u8>)
    requires
        input@.wf(),
        pairs@ == retained(input@),
        old(buf)@ == zero_bytes(cls_size(input@)),
        cls_size(input@) <= usize::MAX,
    ensures
        final(buf)@ == cls_data(input@),
{
    let ghost total: int = cls_size(input@);
    proof {
        lemma_sections_len_bound(input);
        lemma_retained_props(input@);
        lemma_max_end_of_bounds(input@, retained(input@));
    }
    let n = pairs.len();
    let mut k: usize = 0;
    while k < n
        invariant
            0 <= k <= n,
            n == pairs@.len(),
            input@.wf(),
            pairs@ == retained(input@),
            total == cls_size(input@),
            total <= usize::MAX,
            collected_props(input@, input@.sections.len() as int, pairs@),
            forall|k0: int|
                0 <= k0 < pairs@.len() ==> input@.sections[(#[trigger] pairs@[k0]).1 as int].addr
                    + input@.sections[pairs@[k0].1 as int].size <= total,
            buf@ == cls_data_of(input@, pairs@.take(k as int), total),
        decreases n - k,
    {
        let (pair_addr, idx) = pairs[k];
        assert(section_loadable(input@, idx as int));
        assert(input@.sections[idx as int].wf());
        let ghost prev = cls_data_of(input@, pairs@.take(k as int), total);
        proof {
            lemma_cls_data_of_len(input@, pairs@.take(k as int), total);
        }
        let len = input.sections[idx].data.len();
        assert(pair_addr == input@.sections[idx as int].addr);
        assert(pair_addr + len <= total);
        let mut b: usize = 0;
        while b < len
            invariant
                0 <= b <= len,
                k < pairs@.len() == n,
                input@.wf(),
                pairs@ == retained(input@),
                collected_props(input@, input@.sections.len() as int, pairs@),
                idx == pairs@[k as int].1,
                pair_addr == input@.sections[idx as int].addr,
                len == input@.sections[idx as int].data.len(),
                pair_addr + len <= total,
                total <= usize::MAX,
                prev.len() == total,
                buf@ =~= place_bytes(prev, pair_addr as int, input@.sections[idx as int].data.take(b as int)),
            decreases len - b,
        {
            let byte = input.sections[idx].data[b];
            let pos: usize = (pair_addr + b as u64) as usize;
            buf[pos] = byte;
            proof {
                assert(buf@ =~= place_bytes(
                    prev,
                    pair_addr as int,
                    input@.sections[idx as int].data.take(b + 1),
                ));
            }
            b = b + 1;
        }
        proof {
            assert(input@.sections[idx as int].data.take(len as int) =~= input@.sections[idx
                as int].data);
            assert(pairs@.take(k + 1).drop_last() =~= pairs@.take(k as int));
            assert(pairs@.take(k + 1).last() == pairs@[k as int]);
            assert(buf@ =~= cls_data_of(input@, pairs@.take(k + 1), total));
        }
        k = k + 1;
    }
    proof {
        assert(pairs@.take(n as int) =~= pairs@);
    }
}

/// The size the coalesced output section will have for this input: the
/// highest `address + size` over all retained sections.
pub fn coalesced_size(input: &ElfInput) -> (r: u64)
    requires
        input@.wf(),
    ensures
        r as int == cls_size(input@),
{
    let pairs = collect_loadable_sections(input);
    compute_output_section_size(input, &pairs)
}

/// The pass that copies every loadable input section into one coalesced
/// output section.
///
/// All retained input sections land in the same output section, at byte
/// offsets equal to their input virtual addresses, so that references among
/// them stay correct in further linking.
#[derive(Clone, Copy, Debug, Default, PartialEq, Eq, Structural)]
pub struct CopyLodableSectionsPass;

/// Output of the coalescing pass.
#[derive(Debug)]
pub struct CopyLodableSectionsOutput {
    /// Identifier of the coalesced output section.
    pub output_section_id: usize,
    /// Identifier of the output section's defining symbol.
    pub output_section_symbol: usize,
    /// Size of the coalesced output section.
    pub output_section_size: u64,
    /// Where each retained input section went, in output order.
    pub section_maps: Vec<SectionMap>,
}

/// Mathematical view of a [`CopyLodableSectionsOutput`].
#[verifier::ext_equal]
pub struct CopyLodableSectionsOutputV {
    /// Identifier of the coalesced output section.
    pub output_section_id: usize,
    /// Identifier of the output section's defining symbol.
    pub output_section_symbol: usize,
    /// Size of the coalesced output section.
    pub output_section_size: u64,
    /// Where each retained input section went, in output order.
    pub section_maps: Seq<SectionMap>,
}

impl View for CopyLodableSectionsOutput {
    type V = CopyLodableSectionsOutputV;

    open spec fn view(&self) -> CopyLodableSectionsOutputV {
        CopyLodableSectionsOutputV {
            output_section_id: self.output_section_id,
            output_section_symbol: self.output_section_symbol,
            output_section_size: self.output_section_size,
            section_maps: self.section_maps@,
        }
    }
}

/// What the coalescing pass returns, given the identifiers the output object
/// hands out for the new section and its symbol.
pub open spec fn cls_output_spec(
    input: ElfInputV,
    section_id: usize,
    symbol_id: usize,
) -> CopyLodableSectionsOutputV {
    CopyLodableSectionsOutputV {
        output_section_id: section_id,
        output_section_symbol: symbol_id,
        output_section_size: cls_size(input) as u64,
        section_maps: cls_maps(input),
    }
}

/// The coalesced output section, fully populated.
pub open spec fn cls_section_v(input: ElfInputV, symbol_id: usize) -> OutputSectionV {
    OutputSectionV {
        name: soda_name(),
        sh_type: SHT_PROGBITS,
        flags: cls_flags(input),
        align: cls_align(input),
        data: cls_data(input),
        symbol_id: Some(symbol_id),
    }
}

impl CopyLodableSectionsOutput {
    /// Whether the input section with the given index was copied into the
    /// coalesced output section.
    pub fn is_section_copied(&self, idx: usize) -> (r: bool)
        ensures
            r == maps_contain_index(self@.section_maps, idx),
    {
        let n = self.section_maps.len();
        let mut k: usize = 0;
        while k < n
            invariant
                0 <= k <= n,
                n == self@.section_maps.len(),
                forall|k0: int| 0 <= k0 < k ==> (#[trigger] self@.section_maps[k0]).index != idx,
            decreases n - k,
        {
            if self.section_maps[k].index == idx {
                return true;
            }
            k = k + 1;
        }
        false
    }

    /// Whether the given input address falls inside some retained section's
    /// range, and thus translates to the same offset in the output section.
    pub fn contains_addr(&self, addr: u64) -> (r: bool)
        ensures
            r == maps_cover(self@.section_maps, addr as int),
    {
        let n = self.section_maps.len();
        let mut k: usize = 0;
        while k < n
            invariant
                0 <= k <= n,
                n == self@.section_maps.len(),
                forall|k0: int|
                    0 <= k0 < k ==> !((#[trigger] self@.section_maps[k0]).input_range.start
                        <= addr < self@.section_maps[k0].input_range.end),
            decreases n - k,
        {
            let rng = self.section_maps[k].input_range;
            if rng.start <= addr && addr < rng.end {
                return true;
            }
            k = k + 1;
        }
        false
    }
}

impl CopyLodableSectionsPass {
    /// Run the pass: create the coalesced output section, copy every
    /// retained input section's bytes into it at their virtual addresses,
    /// and publish the section map.
    pub fn run(&self, input: &ElfInput, out: &mut OutputObject) -> (r: CopyLodableSectionsOutput)
        requires
            input@.wf(),
            cls_size(input@) <= usize::MAX,
        ensures
            r@ == cls_output_spec(
                input@,
                old(out).sections.len(),
                old(out).symbols.len(),
            ),
            final(out)@ == (OutputObjectV {
                sections: old(out)@.sections.push(
                    cls_section_v(input@, old(out).symbols.len()),
                ),
                symbols: old(out)@.symbols.push(
                    section_symbol_entry(old(out).sections.len()),
                ),
                ..old(out)@
            }),
    {
        let mut name: Vec<u8> = Vec::new();
        name.push(115);
        name.push(111);
        name.push(100);
        name.push(97);
        assert(name@ =~= soda_name());

        let output_sec_id = out.add_section(name, SHT_PROGBITS);
        let output_sec_sym = out.section_symbol(output_sec_id);

        let pairs = collect_loadable_sections(input);

        let flags = get_output_section_flags(input, &pairs);
        out.set_section_flags(output_sec_id, flags);

        let size = compute_output_section_size(input, &pairs);
        let align = compute_output_section_align(input, &pairs);
        let maps = build_section_maps(input, &pairs);

        let mut buffer = zero_buffer(size as usize);
        assert(buffer@ == zero_bytes(cls_size(input@)));
        copy_section_data(input, &pairs, &mut buffer);
        out.set_section_data(output_sec_id, buffer, align);

        proof {
            assert(out@.sections =~= old(out)@.sections.push(
                cls_section_v(input@, old(out).symbols.len()),
            ));
            assert(out@ =~= (OutputObjectV {
                sections: old(out)@.sections.push(
                    cls_section_v(input@, old(out).symbols.len()),
                ),
                symbols: old(out)@.symbols.push(
                    section_symbol_entry(old(out).sections.len()),
                ),
                ..old(out)@
            }));
        }

        let r = CopyLodableSectionsOutput {
            output_section_id: output_sec_id,
            output_section_symbol: output_sec_sym,
            output_section_size: size,
            section_maps: maps,
        };
        proof {
            assert(r@ =~= cls_output_spec(
                input@,
                old(out).sections.len(),
                old(out).symbols.len(),
            ));
        }
        r
    }
}

/// Coverage: the section map has exactly one entry for every retained input
/// section — a section inside some loadable segment, other than the sentinel
/// at index 0 and sections at address 0 — and that entry records the
/// section's own address range.
pub proof fn lemma_section_map_coverage(input: ElfInputV)
    requires
        input.wf(),
        input.sections.len() <= usize::MAX,
    ensures
        forall|i: int|
            section_loadable(input, i) ==> exists|k: int|
                0 <= k < cls_maps(input).len() && (#[trigger] cls_maps(input)[k]).index == i,
        forall|k: int|
            0 <= k < cls_maps(input).len() ==> {
                let e = #[trigger] cls_maps(input)[k];
                &&& section_loadable(input, e.index as int)
                &&& e.input_range.start == input.sections[e.index as int].addr
                &&& e.input_range.end == input.sections[e.index as int].addr
                    + input.sections[e.index as int].size
            },
        forall|k1: int, k2: int|
            0 <= k1 < k2 < cls_maps(input).len() ==> (#[trigger] cls_maps(input)[k1]).index
                != (#[trigger] cls_maps(input)[k2]).index,
{
    lemma_retained_props(input);
    let ps = retained(input);
    let ms = cls_maps(input);
    assert(forall|k: int| 0 <= k < ms.len() ==> #[trigger] ms[k] == map_entry(input, ps[k]));
    assert forall|i: int| section_loadable(input, i) implies exists|k: int|
        0 <= k < ms.len() && (#[trigger] ms[k]).index == i by {
        let k = choose|k: int| 0 <= k < ps.len() && (#[trigger] ps[k]).1 == i;
        assert(ms[k].index == i);
    }
    assert forall|k: int| 0 <= k < ms.len() implies {
        let e = #[trigger] ms[k];
        &&& section_loadable(input, e.index as int)
        &&& e.input_range.start == input.sections[e.index as int].addr
        &&& e.input_range.end == input.sections[e.index as int].addr
            + input.sections[e.index as int].size
    } by {
        assert(section_loadable(input, (ps[k]).1 as int));
        assert(input.sections[(ps[k]).1 as int].wf());
    }
}

/// Identity mapping: every section-map entry sends its input range to the
/// identical output range.
pub proof fn lemma_identity_mapping(input: ElfInputV)
    ensures
        forall|k: int|
            0 <= k < cls_maps(input).len() ==> (#[trigger] cls_maps(input)[k]).output_range
                == cls_maps(input)[k].input_range,
{
    let ps = retained(input);
    let ms = cls_maps(input);
    assert(forall|k: int| 0 <= k < ms.len() ==> #[trigger] ms[k] == map_entry(input, ps[k]));
}

/// Flag monotonicity: the coalesced section is always allocated, writable
/// exactly when some retained section is writable, and executable exactly
/// when some retained section is executable.
pub proof fn lemma_flag_monotonicity(input: ElfInputV)
    ensures
        cls_flags(input) & SHF_ALLOC != 0,
        (cls_flags(input) & SHF_WRITE != 0) <==> any_retained_flag(input, SHF_WRITE),
        (cls_flags(input) & SHF_EXECINSTR != 0) <==> any_retained_flag(input, SHF_EXECINSTR),
{
    let w = any_retained_flag(input, SHF_WRITE);
    let e = any_retained_flag(input, SHF_EXECINSTR);
    if w && e {
        assert((2u64 | 1u64 | 4u64) & 2u64 != 0 && (2u64 | 1u64 | 4u64) & 1u64 != 0 && (2u64
            | 1u64 | 4u64) & 4u64 != 0) by (bit_vector);
    } else if w {
        assert((2u64 | 1u64 | 0u64) & 2u64 != 0 && (2u64 | 1u64 | 0u64) & 1u64 != 0 && (2u64
            | 1u64 | 0u64) & 4u64 == 0) by (bit_vector);
    } else if e {
        assert((2u64 | 0u64 | 4u64) & 2u64 != 0 && (2u64 | 0u64 | 4u64) & 1u64 == 0 && (2u64
            | 0u64 | 4u64) & 4u64 != 0) by (bit_vector);
    } else {
        assert((2u64 | 0u64 | 0u64) & 2u64 != 0 && (2u64 | 0u64 | 0u64) & 1u64 == 0 && (2u64
            | 0u64 | 0u64) & 4u64 == 0) by (bit_vector);
    }
}

/// The data ranges of the sections named by `s` are pairwise disjoint.
pub open spec fn data_ranges_disjoint(input: ElfInputV, s: Seq<(u64, usize)>) -> bool {
    forall|k1: int, k2: int|
        0 <= k1 < s.len() && 0 <= k2 < s.len() && k1 != k2 ==> {
            let a1 = input.sections[(#[trigger] s[k1]).1 as int];
            let a2 = input.sections[(#[trigger] s[k2]).1 as int];
            a1.addr + a1.data.len() <= a2.addr || a2.addr + a2.data.len() <= a1.addr
        }
}

/// After the copy fold, each named section's bytes stand unchanged at its
/// own addresses, provided the data ranges do not overlap.
proof fn lemma_cls_data_of_fidelity(input: ElfInputV, s: Seq<(u64, usize)>, total: int)
    requires
        total >= 0,
        forall|k: int|
            0 <= k < s.len() ==> input.sections[(#[trigger] s[k]).1 as int].addr
                + input.sections[s[k].1 as int].data.len() <= total,
        data_ranges_disjoint(input, s),
    ensures
        forall|k: int, b: int|
            0 <= k < s.len() && 0 <= b < input.sections[s[k].1 as int].data.len()
                ==> cls_data_of(input, s, total)[input.sections[s[k].1 as int].addr + b]
                == #[trigger] input.sections[(#[trigger] s[k]).1 as int].data[b],
    decreases s.len(),
{
    if s.len() > 0 {
        let d = s.drop_last();
        assert(forall|k: int| 0 <= k < d.len() ==> #[trigger] d[k] == s[k]);
        lemma_cls_data_of_fidelity(input, d, total);
        let prev = cls_data_of(input, d, total);
        lemma_cls_data_of_len(input, d, total);
        let last = input.sections[s.last().1 as int];
        let r = cls_data_of(input, s, total);
        assert(r == place_bytes(prev, last.addr as int, last.data));
        assert forall|k: int, b: int|
            0 <= k < s.len() && 0 <= b < input.sections[s[k].1 as int].data.len()
                implies r[input.sections[s[k].1 as int].addr + b]
                == #[trigger] input.sections[(#[trigger] s[k]).1 as int].data[b] by {
            let sec = input.sections[s[k].1 as int];
            let pos = sec.addr + b;
            if k == s.len() - 1 {
                assert(r[pos] == last.data[pos - last.addr]);
            } else {
                assert(sec.addr + sec.data.len() <= last.addr || last.addr + last.data.len()
                    <= sec.addr);
                assert(!(last.addr <= pos < last.addr + last.data.len()));
                assert(r[pos] == prev[pos]);
                assert(d[k] == s[k]);
                assert(prev[input.sections[(d[k]).1 as int].addr + b] == input.sections[(
                d[k]).1 as int].data[b]);
                assert(prev[pos] == sec.data[b]);
            }
        }
    }
}

/// Byte fidelity: for every retained input section, the coalesced section's
/// bytes at the section's addresses equal the section's own bytes.  This
/// holds whenever no two retained sections' data ranges overlap; on an
/// overlapping (malformed) input the later copy wins and the earlier
/// section's bytes need not survive.
pub proof fn lemma_byte_fidelity(input: ElfInputV)
    requires
        input.wf(),
        input.sections.len() <= usize::MAX,
        data_ranges_disjoint(input, retained(input)),
    ensures
        forall|k: int, b: int|
            0 <= k < retained(input).len() && 0 <= b < input.sections[retained(input)[k].1
                as int].data.len() ==> cls_data(input)[input.sections[retained(input)[k].1
                as int].addr + b] == #[trigger] input.sections[(#[trigger] retained(input)[k]).1
                as int].data[b],
{
    lemma_retained_props(input);
    lemma_max_end_of_bounds(input, retained(input));
    let ps = retained(input);
    assert forall|k: int|
        0 <= k < ps.len() implies input.sections[(#[trigger] ps[k]).1 as int].addr
        + input.sections[ps[k].1 as int].data.len() <= cls_size(input) by {
        assert(section_loadable(input, ps[k].1 as int));
        assert(input.sections[ps[k].1 as int].wf());
    }
    lemma_cls_data_of_fidelity(input, ps, cls_size(input));
}

} // verus!
