//! The loader pass.
//!
//! The pass produces a memory image of the input shared library: for every
//! loadable segment, every section wholly contained in it is recorded with
//! its virtual address, size, alignment and uncompressed bytes.  The
//! records are ordered by ascending virtual address; records collected
//! earlier keep their relative order on equal addresses.

use vstd::prelude::*;

use crate::elf::defs::PT_LOAD;
use crate::elf::input::{ElfInput, ElfInputV};
use crate::elf::pass::section::{insert_pair_sorted, pair_key, segment_covers};
use crate::elf::pass::symbol::clone_bytes;
use crate::sorting::{insert_sorted_by, insert_pos_witness, lemma_insert_sorted_by_split};

verus! {

/// The `(address, index)` pairs of the sections contained in segment `j`,
/// among the first `n` sections, in index order.
pub open spec fn seg_sections(input: ElfInputV, j: int, n: int) -> Seq<(u64, usize)>
    decreases n,
{
    if n <= 0 {
        Seq::empty()
    } else {
        let prev = seg_sections(input, j, n - 1);
        if segment_covers(input.segments[j], input.sections[n - 1]) {
            prev.push((input.sections[n - 1].addr, (n - 1) as usize))
        } else {
            prev
        }
    }
}

/// The pairs collected from the first `js` segments, in collection order:
/// loadable segments contribute their contained sections, segment by
/// segment.
pub open spec fn loader_collect(input: ElfInputV, js: int) -> Seq<(u64, usize)>
    decreases js,
{
    if js <= 0 {
        Seq::empty()
    } else {
        let prev = loader_collect(input, js - 1);
        if input.segments[js - 1].p_type == PT_LOAD {
            prev + seg_sections(input, js - 1, input.sections.len() as int)
        } else {
            prev
        }
    }
}

/// The first `m` collected pairs, sorted by ascending address; pairs with
/// equal addresses stay in collection order.
pub open spec fn sort_pairs(s: Seq<(u64, usize)>, m: int) -> Seq<(u64, usize)>
    decreases m,
{
    if m <= 0 {
        Seq::empty()
    } else {
        insert_sorted_by(sort_pairs(s, m - 1), s[m - 1], pair_key())
    }
}

/// The loader's records, in output order, as `(address, index)` pairs.
pub open spec fn loader_pairs(input: ElfInputV) -> Seq<(u64, usize)> {
    let collected = loader_collect(input, input.segments.len() as int);
    sort_pairs(collected, collected.len() as int)
}

/// Every pair of `s` names a section and carries its address.
pub open spec fn pairs_wf(input: ElfInputV, s: Seq<(u64, usize)>) -> bool {
    forall|k: int|
        0 <= k < s.len() ==> {
            let p = #[trigger] s[k];
            &&& (p.1 as int) < input.sections.len()
            &&& p.0 == input.sections[p.1 as int].addr
        }
}

/// The collected pairs are well formed.
pub proof fn lemma_seg_sections_wf(input: ElfInputV, j: int, n: int)
    requires
        n <= input.sections.len(),
        input.sections.len() <= usize::MAX,
    ensures
        pairs_wf(input, seg_sections(input, j, n)),
    decreases n,
{
    if n > 0 {
        lemma_seg_sections_wf(input, j, n - 1);
        let prev = seg_sections(input, j, n - 1);
        let s = seg_sections(input, j, n);
        assert(pairs_wf(input, prev));
        if segment_covers(input.segments[j], input.sections[n - 1]) {
            assert(forall|k: int| 0 <= k < prev.len() ==> #[trigger] s[k] == prev[k]);
        }
    }
}

/// The segment-wise collection is well formed.
pub proof fn lemma_loader_collect_wf(input: ElfInputV, js: int)
    requires
        input.sections.len() <= usize::MAX,
    ensures
        pairs_wf(input, loader_collect(input, js)),
    decreases js,
{
    if js > 0 {
        lemma_loader_collect_wf(input, js - 1);
        let prev = loader_collect(input, js - 1);
        let s = loader_collect(input, js);
        assert(pairs_wf(input, prev));
        if input.segments[js - 1].p_type == PT_LOAD {
            let add = seg_sections(input, js - 1, input.sections.len() as int);
            lemma_seg_sections_wf(input, js - 1, input.sections.len() as int);
            assert(pairs_wf(input, add));
            assert forall|k: int| 0 <= k < s.len() implies {
                let p = #[trigger] s[k];
                &&& (p.1 as int) < input.sections.len()
                &&& p.0 == input.sections[p.1 as int].addr
            } by {
                if k < prev.len() {
                    assert(s[k] == prev[k]);
                } else {
                    assert(s[k] == add[k - prev.len()]);
                }
            }
        }
    }
}

/// Sorting keeps the pairs well formed.
pub proof fn lemma_sort_pairs_wf(input: ElfInputV, s: Seq<(u64, usize)>, m: int)
    requires
        m <= s.len(),
        pairs_wf(input, s),
    ensures
        pairs_wf(input, sort_pairs(s, m)),
    decreases m,
{
    if m > 0 {
        lemma_sort_pairs_wf(input, s, m - 1);
        let prev = sort_pairs(s, m - 1);
        let x = s[m - 1];
        let j = insert_pos_witness(prev, x, pair_key());
        lemma_insert_sorted_by_split(prev, x, pair_key(), j);
        let r = sort_pairs(s, m);
        assert(r == prev.take(j) + seq![x] + prev.skip(j));
        assert forall|k: int| 0 <= k < r.len() implies {
            let p = #[trigger] r[k];
            &&& (p.1 as int) < input.sections.len()
            &&& p.0 == input.sections[p.1 as int].addr
        } by {
            if k < j {
                assert(r[k] == prev[k]);
            } else if k == j {
                assert(r[k] == x);
            } else {
                assert(r[k] == prev[k - 1]);
            }
        }
    }
}

/// A section of the input as the loader records it, with its bytes.
#[derive(Debug)]
pub struct LoadedSection {
    /// Index of the input section.
    pub index: usize,
    /// Virtual address of the first byte of the section.
    pub virt_addr: u64,
    /// Size of the section in memory.
    pub mem_size: u64,
    /// Required alignment of the section.
    pub alignment: u64,
    /// The section's uncompressed bytes.
    pub data: Vec<u8>,
}

/// Mathematical view of a [`LoadedSection`].
#[verifier::ext_equal]
pub struct LoadedSectionV {
    /// Index of the input section.
    pub index: usize,
    /// Virtual address of the first byte of the section.
    pub virt_addr: u64,
    /// Size of the section in memory.
    pub mem_size: u64,
    /// Required alignment of the section.
    pub alignment: u64,
    /// The section's uncompressed bytes.
    pub data: Seq<u8>,
}

impl View for LoadedSection {
    type V = LoadedSectionV;

    open spec fn view(&self) -> LoadedSectionV {
        LoadedSectionV {
            index: self.index,
            virt_addr: self.virt_addr,
            mem_size: self.mem_size,
            alignment: self.alignment,
            data: self.data@,
        }
    }
}

/// The record the loader makes for the section named by pair `p`.
pub open spec fn loaded_of(input: ElfInputV, p: (u64, usize)) -> LoadedSectionV {
    LoadedSectionV {
        index: p.1,
        virt_addr: input.sections[p.1 as int].addr,
        mem_size: input.sections[p.1 as int].size,
        alignment: input.sections[p.1 as int].align,
        data: input.sections[p.1 as int].data,
    }
}

/// The memory image of the input shared library.
#[derive(Debug)]
pub struct LoadedDso {
    /// The loaded sections, in ascending address order.
    pub loaded_sections: Vec<LoadedSection>,
}

/// Mathematical view of a [`LoadedDso`].
#[verifier::ext_equal]
pub struct LoadedDsoV {
    /// The loaded sections, in ascending address order.
    pub loaded_sections: Seq<LoadedSectionV>,
}

impl View for LoadedDso {
    type V = LoadedDsoV;

    open spec fn view(&self) -> LoadedDsoV {
        LoadedDsoV { loaded_sections: self.loaded_sections@.map_values(|s: LoadedSection| s@) }
    }
}

/// What the loader produces for a given input.
pub open spec fn loaded_dso_spec(input: ElfInputV) -> LoadedDsoV {
    LoadedDsoV {
        loaded_sections: loader_pairs(input).map_values(|p: (u64, usize)| loaded_of(input, p)),
    }
}

/// The pass that loads the input shared library into memory: it records a
/// memory mapping of the sections covered by loadable segments.
#[derive(Clone, Copy, Debug, Default, PartialEq, Eq, Structural)]
pub struct LoaderPass;

impl LoaderPass {
    /// Run the pass: collect every section contained in a loadable segment,
    /// with its bytes, in ascending address order.
    pub fn run(&self, input: &ElfInput) -> (r: LoadedDso)
        requires
            input@.wf(),
        ensures
            r@ == loaded_dso_spec(input@),
    {
        let n_secs = input.sections.len();
        let n_segs = input.segments.len();

        let mut pairs: Vec<(u64, usize)> = Vec::new();
        let mut j: usize = 0;
        while j < n_segs
            invariant
                0 <= j <= n_segs,
                n_segs == input@.segments.len(),
                n_secs == input@.sections.len(),
                input@.wf(),
                pairs@ == loader_collect(input@, j as int),
            decreases n_segs - j,
        {
            let seg = input.segments[j];
            if seg.p_type == PT_LOAD {
                let mut i: usize = 0;
                while i < n_secs
                    invariant
                        0 <= i <= n_secs,
                        j < n_segs == input@.segments.len(),
                        n_secs == input@.sections.len(),
                        input@.wf(),
                        seg == input@.segments[j as int],
                        seg.p_type == PT_LOAD,
                        pairs@ == loader_collect(input@, j as int) + seg_sections(
                            input@,
                            j as int,
                            i as int,
                        ),
                    decreases n_secs - i,
                {
                    let sec_addr = input.sections[i].addr;
                    let sec_size = input.sections[i].size;
                    let sec_end: u128 = sec_addr as u128 + sec_size as u128;
                    let seg_end: u128 = seg.addr as u128 + seg.size as u128;
                    if seg.addr <= sec_addr && sec_end <= seg_end {
                        assert(segment_covers(input@.segments[j as int], input@.sections[i as int]));
                        pairs.push((sec_addr, i));
                        proof {
                            assert(pairs@ =~= loader_collect(input@, j as int) + seg_sections(
                                input@,
                                j as int,
                                i + 1,
                            ));
                        }
                    } else {
                        assert(!segment_covers(
                            input@.segments[j as int],
                            input@.sections[i as int],
                        ));
                    }
                    i = i + 1;
                }
            }
            proof {
                if seg.p_type == PT_LOAD {
                    assert(pairs@ =~= loader_collect(input@, j + 1));
                } else {
                    assert(pairs@ =~= loader_collect(input@, j + 1));
                }
            }
            j = j + 1;
        }

        let ghost collected = loader_collect(input@, n_segs as int);
        let m = pairs.len();
        let mut sorted: Vec<(u64, usize)> = Vec::new();
        let mut k: usize = 0;
        while k < m
            invariant
                0 <= k <= m,
                m == collected.len(),
                pairs@ == collected,
                sorted@ == sort_pairs(collected, k as int),
            decreases m - k,
        {
            insert_pair_sorted(&mut sorted, pairs[k]);
            k = k + 1;
        }

        proof {
            assert(input.sections.len() == input@.sections.len());
            lemma_loader_collect_wf(input@, n_segs as int);
            lemma_sort_pairs_wf(input@, collected, collected.len() as int);
            assert(sorted@ == loader_pairs(input@));
            assert(pairs_wf(input@, sorted@));
        }

        let mut loaded: Vec<LoadedSection> = Vec::new();
        let total = sorted.len();
        let mut t: usize = 0;
        while t < total
            invariant
                0 <= t <= total,
                total == sorted@.len(),
                sorted@ == loader_pairs(input@),
                pairs_wf(input@, sorted@),
                n_secs == input@.sections.len(),
                loaded@.len() == t as int,
                forall|q: int|
                    0 <= q < t ==> (#[trigger] loaded@[q])@ == loaded_of(
                        input@,
                        loader_pairs(input@)[q],
                    ),
            decreases total - t,
        {
            let (addr, idx) = sorted[t];
            let sec = &input.sections[idx];
            let data = clone_bytes(&sec.data);
            loaded.push(
                LoadedSection {
                    index: idx,
                    virt_addr: sec.addr,
                    mem_size: sec.size,
                    alignment: sec.align,
                    data,
                },
            );
            proof {
                assert(loaded@[t as int]@ =~= loaded_of(input@, sorted@[t as int]));
            }
            t = t + 1;
        }

        let r = LoadedDso { loaded_sections: loaded };
        proof {
            assert forall|q: int|
                0 <= q < loader_pairs(input@).len() implies #[trigger] r@.loaded_sections[q]
                == loaded_dso_spec(input@).loaded_sections[q] by {
                assert(loaded@[q]@ == loaded_of(input@, loader_pairs(input@)[q]));
            }
            assert(r@.loaded_sections =~= loaded_dso_spec(input@).loaded_sections);
            assert(r@ =~= loaded_dso_spec(input@));
        }
        r
    }
}

} // verus!
