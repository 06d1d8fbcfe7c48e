//! The pass framework: an ordered pipeline of passes with typed data flow
//! between them and uniform error reporting.
//!
//! Passes run strictly in registration order.  Before pass `k` runs, the
//! output store holds exactly the outputs of the first `k` passes, in
//! order; on success the pass's output is appended, and on failure the
//! pipeline stops and reports the failing pass by name.

use vstd::prelude::*;

use crate::elf::input::{ElfInput, ElfInputV};
use crate::elf::output::{OutputObject, OutputObjectV};
use crate::elf::pass::init_array::GenerateInitFiniArrayError;
use crate::elf::pass::loader::{LoadedDso, LoadedDsoV};
use crate::elf::pass::reloc::ConvertRelocationError;
use crate::elf::pass::section::{CopyLodableSectionsOutput, CopyLodableSectionsOutputV};
use crate::elf::pass::symbol::SymbolMap;
use crate::elf::pass::{pass_name, pass_requires, pass_step, ElfPassAdaptor, ElfPassKind};

verus! {

/// A lightweight handle to a pass registered with a [`PassManager`].
///
/// A handle is valid only within the pipeline that issued it, and a pass's
/// output can be fetched through its handle only after that pass has run.
#[derive(Clone, Copy, Debug, PartialEq, Eq, Structural)]
pub struct PassHandle {
    /// Position of the pass in the pipeline's registration order.
    pub idx: usize,
}

impl PassHandle {
    /// Make a handle for the pass at the given pipeline position.
    pub fn new(idx: usize) -> (r: PassHandle)
        ensures
            r.idx == idx,
    {
        PassHandle { idx }
    }
}

/// The published output of one pass.
#[derive(Debug)]
pub enum PassOutput {
    /// The loader pass's memory image.
    LoadedDso(LoadedDso),
    /// The coalescing pass's section map.
    Sections(CopyLodableSectionsOutput),
    /// The symbol synthesis pass's symbol map.
    Symbols(SymbolMap),
    /// A pass that publishes nothing.
    Unit,
}

/// Mathematical view of a [`PassOutput`].
pub enum PassOutputV {
    /// The loader pass's memory image.
    LoadedDso(LoadedDsoV),
    /// The coalescing pass's section map.
    Sections(CopyLodableSectionsOutputV),
    /// The symbol synthesis pass's symbol map.
    Symbols(Seq<(usize, usize)>),
    /// A pass that publishes nothing.
    Unit,
}

impl View for PassOutput {
    type V = PassOutputV;

    open spec fn view(&self) -> PassOutputV {
        match self {
            PassOutput::LoadedDso(d) => PassOutputV::LoadedDso(d@),
            PassOutput::Sections(c) => PassOutputV::Sections(c@),
            PassOutput::Symbols(m) => PassOutputV::Symbols(m@),
            PassOutput::Unit => PassOutputV::Unit,
        }
    }
}

/// The error value produced by a failed pass.
#[derive(Clone, Copy, Debug, PartialEq, Eq, Structural)]
pub enum PassError {
    /// The relocation conversion pass failed.
    ConvertRelocation(ConvertRelocationError),
    /// An initializer- or finalizer-array pass failed.
    GenerateInitFiniArray(GenerateInitFiniArrayError),
}

/// Errors occurring when running a pass pipeline.
#[derive(Debug)]
pub struct RunPassError {
    /// The name of the specific pass that failed.
    pub name: String,
    /// The error value produced by the failed pass.
    pub error: PassError,
}

/// Provide context for running a single pass.
#[derive(Debug)]
pub struct PassContext {
    /// The parsed input shared library.
    pub input: ElfInput,
    /// The output object under construction.
    pub output: OutputObject,
    /// The outputs of the passes run so far, in registration order;
    /// append-only while the pipeline runs.
    pub pass_outputs: Vec<PassOutput>,
}

/// The views of the stored pass outputs, in order.
pub open spec fn outputs_view(outputs: Seq<PassOutput>) -> Seq<PassOutputV> {
    outputs.map_values(|p: PassOutput| p@)
}

impl PassContext {
    /// Get the value produced by the pass referenced by the given handle.
    ///
    /// The handle must refer to a pass that has already run: its position
    /// must lie inside the output store.
    pub fn get_pass_output(&self, handle: PassHandle) -> (r: &PassOutput)
        requires
            handle.idx < self.pass_outputs@.len(),
        ensures
            *r == self.pass_outputs@[handle.idx as int],
    {
        &self.pass_outputs[handle.idx]
    }
}

/// The state of the pipeline after its first `k` passes: the output object
/// and the stored pass outputs, or the position and error of the pass that
/// failed first.
pub open spec fn run_upto(
    ks: Seq<ElfPassKind>,
    input: ElfInputV,
    out0: OutputObjectV,
    k: int,
) -> Result<(OutputObjectV, Seq<PassOutputV>), (int, PassError)>
    decreases k,
{
    if k <= 0 {
        Ok((out0, Seq::empty()))
    } else {
        match run_upto(ks, input, out0, k - 1) {
            Err(e) => Err(e),
            Ok((o, st)) => match pass_step(ks[k - 1], input, o, st) {
                Ok(sp) => Ok((sp.0, st.push(sp.1))),
                Err(e) => Err((k - 1, e)),
            },
        }
    }
}

/// Every pass's preconditions hold at the state it runs in, for the first
/// `n` passes.
pub open spec fn passes_requires_ok(
    ks: Seq<ElfPassKind>,
    input: ElfInputV,
    out0: OutputObjectV,
    n: int,
) -> bool {
    forall|k: int|
        0 <= k < n ==> match #[trigger] run_upto(ks, input, out0, k) {
            Ok(p) => pass_requires(ks[k], input, p.0, p.1),
            Err(_) => true,
        }
}

/// Once the pipeline fails, later prefixes report the same failure.
pub proof fn lemma_run_upto_stuck(
    ks: Seq<ElfPassKind>,
    input: ElfInputV,
    out0: OutputObjectV,
    k: int,
    n: int,
)
    requires
        0 <= k <= n,
        run_upto(ks, input, out0, k) is Err,
    ensures
        run_upto(ks, input, out0, n) == run_upto(ks, input, out0, k),
    decreases n - k,
{
    if n > k {
        lemma_run_upto_stuck(ks, input, out0, k, n - 1);
    }
}

/// A successful pipeline stores one output per pass.
pub proof fn lemma_run_upto_len(ks: Seq<ElfPassKind>, input: ElfInputV, out0: OutputObjectV, n: int)
    requires
        0 <= n,
        run_upto(ks, input, out0, n) is Ok,
    ensures
        run_upto(ks, input, out0, n)->Ok_0.1.len() == n,
    decreases n,
{
    if n > 0 {
        lemma_run_upto_len(ks, input, out0, n - 1);
    }
}

/// A successful pipeline passed through every earlier state, and the store
/// grows by appending: the first `k` stored outputs are the store after `k`
/// passes.
pub proof fn lemma_run_upto_prefix(
    ks: Seq<ElfPassKind>,
    input: ElfInputV,
    out0: OutputObjectV,
    k: int,
    n: int,
)
    requires
        0 <= k <= n,
        run_upto(ks, input, out0, n) is Ok,
    ensures
        run_upto(ks, input, out0, k) is Ok,
        run_upto(ks, input, out0, k)->Ok_0.1 == run_upto(ks, input, out0, n)->Ok_0.1.take(k),
    decreases n - k,
{
    lemma_run_upto_len(ks, input, out0, n);
    if k == n {
        assert(run_upto(ks, input, out0, n)->Ok_0.1.take(k) =~= run_upto(
            ks,
            input,
            out0,
            n,
        )->Ok_0.1);
    } else {
        lemma_run_upto_len(ks, input, out0, n - 1);
        lemma_run_upto_prefix(ks, input, out0, k, n - 1);
        assert(run_upto(ks, input, out0, n - 1)->Ok_0.1.take(k) =~= run_upto(
            ks,
            input,
            out0,
            n,
        )->Ok_0.1.take(k));
    }
}

/// Round trip for the pass framework: after the whole pipeline has run, the
/// output stored at position `i` — which fetching through the handle issued
/// when pass `i` was registered yields — is exactly the value pass `i`
/// returned, run on the state the first `i` passes left behind.
pub proof fn lemma_pass_output_round_trip(
    ks: Seq<ElfPassKind>,
    input: ElfInputV,
    out0: OutputObjectV,
    i: int,
)
    requires
        0 <= i < ks.len(),
        run_upto(ks, input, out0, ks.len() as int) is Ok,
    ensures
        ({
            let full = run_upto(ks, input, out0, ks.len() as int)->Ok_0.1;
            &&& run_upto(ks, input, out0, i) is Ok
            &&& pass_step(
                ks[i],
                input,
                run_upto(ks, input, out0, i)->Ok_0.0,
                run_upto(ks, input, out0, i)->Ok_0.1,
            ) is Ok
            &&& full.len() == ks.len()
            &&& full[i] == pass_step(
                ks[i],
                input,
                run_upto(ks, input, out0, i)->Ok_0.0,
                run_upto(ks, input, out0, i)->Ok_0.1,
            )->Ok_0.1
        }),
{
    let n = ks.len() as int;
    lemma_run_upto_len(ks, input, out0, n);
    lemma_run_upto_prefix(ks, input, out0, i, n);
    lemma_run_upto_prefix(ks, input, out0, i + 1, n);
    lemma_run_upto_len(ks, input, out0, i);
    lemma_run_upto_len(ks, input, out0, i + 1);
    let full = run_upto(ks, input, out0, n)->Ok_0.1;
    let before = run_upto(ks, input, out0, i)->Ok_0;
    let after = run_upto(ks, input, out0, i + 1)->Ok_0;
    assert(after.1 == before.1.push(pass_step(ks[i], input, before.0, before.1)->Ok_0.1));
    assert(after.1 == full.take(i + 1));
    assert(full[i] == full.take(i + 1)[i]);
}

/// The registered pass kinds, in registration order.
pub open spec fn pass_kinds(passes: Seq<ElfPassAdaptor>) -> Seq<ElfPassKind> {
    passes.map_values(|a: ElfPassAdaptor| a.pass)
}

/// Manage and run a flow of passes.
#[derive(Debug)]
pub struct PassManager {
    /// The registered passes, in registration order.
    pub passes: Vec<ElfPassAdaptor>,
}

impl PassManager {
    /// Create a new `PassManager` that does not contain any passes.
    pub fn new() -> (r: PassManager)
        ensures
            r.passes@.len() == 0,
    {
        PassManager { passes: Vec::new() }
    }

    /// Add a pass to the end of the current pass pipeline and return its
    /// handle.
    pub fn add_pass(&mut self, pass: ElfPassAdaptor) -> (h: PassHandle)
        ensures
            final(self).passes@ == old(self).passes@.push(pass),
            h.idx == old(self).passes@.len(),
    {
        let idx = self.passes.len();
        self.passes.push(pass);
        PassHandle::new(idx)
    }

    /// Run the pass pipeline on the given input, building on the given
    /// output object.  On success the finished output object and the pass
    /// outputs are returned; on failure, the first failing pass's name and
    /// error.
    #[verifier::loop_isolation(false)]
    pub fn run(self, input: ElfInput, output: OutputObject) -> (r: Result<
        (OutputObject, Vec<PassOutput>),
        RunPassError,
    >)
        requires
            passes_requires_ok(
                pass_kinds(self.passes@),
                input@,
                output@,
                self.passes@.len() as int,
            ),
        ensures
            ({
                let ks = pass_kinds(self.passes@);
                match run_upto(ks, input@, output@, ks.len() as int) {
                    Ok(p) => {
                        &&& r is Ok
                        &&& r->Ok_0.0@ == p.0
                        &&& outputs_view(r->Ok_0.1@) == p.1
                    },
                    Err(e) => {
                        &&& r is Err
                        &&& r->Err_0.error == e.1
                        &&& r->Err_0.name@ == pass_name(ks[e.0])
                    },
                }
            }),
    {
        let ghost ks = pass_kinds(self.passes@);
        let ghost input0 = input@;
        let ghost out0 = output@;
        let mut ctx = PassContext { input, output, pass_outputs: Vec::new() };
        let n = self.passes.len();
        let mut i: usize = 0;
        proof {
            assert(outputs_view(ctx.pass_outputs@) =~= Seq::<PassOutputV>::empty());
        }
        while i < n
            invariant
                0 <= i <= n,
                n == self.passes@.len(),
                ks == pass_kinds(self.passes@),
                input0 == ctx.input@,
                passes_requires_ok(ks, input0, out0, n as int),
                run_upto(ks, input0, out0, i as int) == Ok::<
                    (OutputObjectV, Seq<PassOutputV>),
                    (int, PassError),
                >((ctx.output@, outputs_view(ctx.pass_outputs@))),
            decreases n - i,
        {
            let current_pass = &self.passes[i];
            proof {
                assert(ks[i as int] == current_pass.pass);
                assert(match run_upto(ks, input0, out0, i as int) {
                    Ok(p) => pass_requires(ks[i as int], input0, p.0, p.1),
                    Err(_) => true,
                });
            }
            let ghost prev_outputs = ctx.pass_outputs@;
            let result = current_pass.run(&mut ctx);
            match result {
                Ok(po) => {
                    let ghost pov = po@;
                    ctx.pass_outputs.push(po);
                    proof {
                        assert(outputs_view(ctx.pass_outputs@) =~= outputs_view(
                            prev_outputs,
                        ).push(pov));
                        assert(run_upto(ks, input0, out0, i + 1) == Ok::<
                            (OutputObjectV, Seq<PassOutputV>),
                            (int, PassError),
                        >((ctx.output@, outputs_view(ctx.pass_outputs@))));
                    }
                },
                Err(err) => {
                    proof {
                        assert(run_upto(ks, input0, out0, i + 1) == Err::<
                            (OutputObjectV, Seq<PassOutputV>),
                            (int, PassError),
                        >((i as int, err)));
                        lemma_run_upto_stuck(ks, input0, out0, i + 1, n as int);
                    }
                    let name = current_pass.name();
                    return Err(RunPassError { name, error: err });
                },
            }
            i = i + 1;
        }
        Ok((ctx.output, ctx.pass_outputs))
    }
}

} // verus!
