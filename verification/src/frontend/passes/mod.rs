//! Passes that rewrite the intermediate form before assembly.
use vstd::prelude::*;
use crate::frontend::ir::{all_labels, lemma_all_labels_concat, lemma_all_labels_one, IrInstruction, IrInstructionKind, IrProgram, IrSpec, KindSpec};

pub mod noop;
pub mod constant_fold_math;
pub mod constant_fold_f32;
pub mod remove;

verus! {

/// A rewrite of the intermediate form.
pub trait OptimizationPass {
    /// The program the pass makes of `before`, and whether it succeeds.
    spec fn outcome(&self, before: Seq<IrSpec>) -> (Seq<IrSpec>, Result<(), Seq<char>>);

    /// Rewrites the program as `outcome` says.
    fn run(&self, program: &mut IrProgram) -> (r: Result<(), String>)
        ensures
            (final(program)@, unit_result(r)) == self.outcome(old(program)@),
    ;
}

/// A result without a value, with the characters of its error.
pub open spec fn unit_result(r: Result<(), String>) -> Result<(), Seq<char>> {
    match r {
        Ok(()) => Ok(()),
        Err(e) => Err(e@),
    }
}

/// The program and result of running the passes from `i` on over `before`: each pass works on
/// what the one before made, and the first that fails ends the run with its error.
pub open spec fn run_passes(passes: Seq<&dyn OptimizationPass>, i: int, before: Seq<IrSpec>) -> (Seq<IrSpec>, Result<(), Seq<char>>)
    decreases passes.len() - i,
{
    if i < 0 || i >= passes.len() {
        (before, Ok(()))
    } else {
        let (after, r) = passes[i].outcome(before);
        if r is Err {
            (after, r)
        } else {
            run_passes(passes, i + 1, after)
        }
    }
}

/// Runs the passes in order and stops at the first that fails.
pub fn optimize_ir(program: &mut IrProgram, passes: &[&dyn OptimizationPass]) -> (r: Result<(), String>)
    ensures
        (final(program)@, unit_result(r)) == run_passes(passes@, 0, old(program)@),
{
    let mut i: usize = 0;
    while i < passes.len()
        invariant
            i <= passes@.len(),
            run_passes(passes@, i as int, program@) == run_passes(passes@, 0, old(program)@),
        decreases passes@.len() - i,
    {
        passes[i].run(program)?;
        i += 1;
    }
    Ok(())
}

/// A rewrite of three neighbouring instruction kinds into one, where one applies.
pub type FoldStep = spec_fn(KindSpec, KindSpec, KindSpec) -> Option<KindSpec>;

/// `ir` with instructions `index`, `index + 1` and `index + 2` replaced by one of kind `k`,
/// which keeps the labels and source line of the first.
pub open spec fn merge3(ir: Seq<IrSpec>, index: nat, k: KindSpec) -> Seq<IrSpec> {
    ir.take(index as int) + seq![IrSpec { kind: k, ..ir[index as int] }] + ir.skip(index as int + 3)
}

/// The program after folding from `index` on: wherever three unlabelled-after-the-first
/// instructions fold into one, they are replaced and the scan steps back two places
/// (so that the new instruction can fold with those before it); otherwise it moves on.
pub open spec fn fold_from(step: FoldStep, ir: Seq<IrSpec>, index: nat) -> Seq<IrSpec>
    decreases ir.len(), ir.len() - index,
{
    if index + 2 >= ir.len() {
        ir
    } else if ir[index as int + 1].labels.len() != 0 || ir[index as int + 2].labels.len() != 0 {
        fold_from(step, ir, index + 1)
    } else {
        match step(ir[index as int].kind, ir[index as int + 1].kind, ir[index as int + 2].kind) {
            Some(k) => {
                let back: nat = if index >= 2 { (index - 2) as nat } else { 0 };
                fold_from(step, merge3(ir, index, k), back)
            },
            None => fold_from(step, ir, index + 1),
        }
    }
}

/// Folding never makes a program longer.
pub proof fn lemma_fold_from_len(step: FoldStep, ir: Seq<IrSpec>, index: nat)
    ensures
        fold_from(step, ir, index).len() <= ir.len(),
    decreases ir.len(), ir.len() - index,
{
    if index + 2 >= ir.len() {
    } else if ir[index as int + 1].labels.len() != 0 || ir[index as int + 2].labels.len() != 0 {
        lemma_fold_from_len(step, ir, index + 1);
    } else {
        match step(ir[index as int].kind, ir[index as int + 1].kind, ir[index as int + 2].kind) {
            Some(k) => {
                let back: nat = if index >= 2 { (index - 2) as nat } else { 0 };
                lemma_fold_from_len(step, merge3(ir, index, k), back);
            },
            None => lemma_fold_from_len(step, ir, index + 1),
        }
    }
}

/// Whether the window of three instructions at `j` folds: no label stands on its second or third
/// instruction, and the step applies to their kinds.
pub open spec fn foldable(step: FoldStep, ir: Seq<IrSpec>, j: int) -> bool {
    &&& 0 <= j
    &&& j + 2 < ir.len()
    &&& ir[j + 1].labels.len() == 0
    &&& ir[j + 2].labels.len() == 0
    &&& step(ir[j].kind, ir[j + 1].kind, ir[j + 2].kind) is Some
}

/// Folding from `index` on, where no window before `index` folds, leaves no window that folds.
proof fn lemma_fold_from_complete(step: FoldStep, ir: Seq<IrSpec>, index: nat)
    requires
        forall|j: int| 0 <= j < index ==> !#[trigger] foldable(step, ir, j),
    ensures
        forall|j: int| !#[trigger] foldable(step, fold_from(step, ir, index), j),
    decreases ir.len(), ir.len() - index,
{
    if index + 2 >= ir.len() {
        assert(fold_from(step, ir, index) == ir);
        assert forall|j: int| !#[trigger] foldable(step, fold_from(step, ir, index), j) by {
            if 0 <= j < index {
            }
        }
    } else if ir[index as int + 1].labels.len() != 0 || ir[index as int + 2].labels.len() != 0 {
        assert(!foldable(step, ir, index as int));
        assert(fold_from(step, ir, index) == fold_from(step, ir, index + 1));
        lemma_fold_from_complete(step, ir, index + 1);
    } else {
        match step(ir[index as int].kind, ir[index as int + 1].kind, ir[index as int + 2].kind) {
            Some(k) => {
                let back: nat = if index >= 2 { (index - 2) as nat } else { 0 };
                let m = merge3(ir, index, k);
                assert forall|j: int| 0 <= j < back implies !#[trigger] foldable(step, m, j) by {
                    assert(m[j] == ir[j] && m[j + 1] == ir[j + 1] && m[j + 2] == ir[j + 2]);
                    assert(!foldable(step, ir, j));
                }
                assert(fold_from(step, ir, index) == fold_from(step, m, back));
                lemma_fold_from_complete(step, m, back);
            },
            None => {
                assert(!foldable(step, ir, index as int));
                assert(fold_from(step, ir, index) == fold_from(step, ir, index + 1));
                lemma_fold_from_complete(step, ir, index + 1);
            },
        }
    }
}

/// A scan that finds no window to fold changes nothing.
proof fn lemma_fold_from_nothing_to_do(step: FoldStep, ir: Seq<IrSpec>, index: nat)
    requires
        forall|j: int| !#[trigger] foldable(step, ir, j),
    ensures
        fold_from(step, ir, index) == ir,
    decreases ir.len() - index,
{
    if index + 2 < ir.len() {
        assert(!foldable(step, ir, index as int));
        lemma_fold_from_nothing_to_do(step, ir, index + 1);
    }
}

/// After folding, no window of the program folds any more; so folding a second time changes nothing.
pub proof fn lemma_fold_leaves_nothing_foldable(step: FoldStep, ir: Seq<IrSpec>)
    ensures
        forall|j: int| !#[trigger] foldable(step, fold_from(step, ir, 0), j),
        fold_from(step, fold_from(step, ir, 0), 0) == fold_from(step, ir, 0),
{
    lemma_fold_from_complete(step, ir, 0);
    lemma_fold_from_nothing_to_do(step, fold_from(step, ir, 0), 0);
}

/// Merging a window whose second and third instructions carry no label keeps every label in order.
proof fn lemma_merge3_keeps_labels(ir: Seq<IrSpec>, index: nat, k: KindSpec)
    requires
        index + 2 < ir.len(),
        ir[index as int + 1].labels.len() == 0,
        ir[index as int + 2].labels.len() == 0,
    ensures
        all_labels(merge3(ir, index, k)) == all_labels(ir),
{
    let i = index as int;
    let a = ir.take(i);
    let b = ir.skip(i + 3);
    let x = ir[i];
    let mid = seq![ir[i], ir[i + 1], ir[i + 2]];
    let one = seq![IrSpec { kind: k, ..x }];
    assert(ir =~= a + mid + b);
    assert(mid =~= seq![ir[i]] + seq![ir[i + 1]] + seq![ir[i + 2]]);
    lemma_all_labels_concat(a + mid, b);
    lemma_all_labels_concat(a, mid);
    lemma_all_labels_concat(seq![ir[i]] + seq![ir[i + 1]], seq![ir[i + 2]]);
    lemma_all_labels_concat(seq![ir[i]], seq![ir[i + 1]]);
    lemma_all_labels_one(ir[i]);
    lemma_all_labels_one(ir[i + 1]);
    lemma_all_labels_one(ir[i + 2]);
    lemma_all_labels_concat(a + one, b);
    lemma_all_labels_concat(a, one);
    lemma_all_labels_one(IrSpec { kind: k, ..x });
    assert(x.labels + ir[i + 1].labels + ir[i + 2].labels =~= x.labels);
}

/// Folding keeps every label, in order.
pub proof fn lemma_fold_keeps_labels(step: FoldStep, ir: Seq<IrSpec>, index: nat)
    ensures
        all_labels(fold_from(step, ir, index)) == all_labels(ir),
    decreases ir.len(), ir.len() - index,
{
    if index + 2 >= ir.len() {
    } else if ir[index as int + 1].labels.len() != 0 || ir[index as int + 2].labels.len() != 0 {
        lemma_fold_keeps_labels(step, ir, index + 1);
    } else {
        match step(ir[index as int].kind, ir[index as int + 1].kind, ir[index as int + 2].kind) {
            Some(k) => {
                let back: nat = if index >= 2 { (index - 2) as nat } else { 0 };
                lemma_merge3_keeps_labels(ir, index, k);
                lemma_fold_keeps_labels(step, merge3(ir, index, k), back);
            },
            None => lemma_fold_keeps_labels(step, ir, index + 1),
        }
    }
}

/// Replaces instructions `index` to `index + 2` by one of kind `kind`.
pub(crate) fn merge_three(program: &mut IrProgram, index: usize, kind: IrInstructionKind)
    requires
        index + 2 < old(program)@.len(),
    ensures
        final(program)@ == merge3(old(program)@, index as nat, kind@),
{
    let ghost ir = program@;
    let ghost v0 = program.instructions@;
    let first = program.instructions.remove(index);
    let _second = program.instructions.remove(index);
    let _third = program.instructions.remove(index);
    let ghost v3 = program.instructions@;
    proof {
        assert(v3 =~= v0.take(index as int) + v0.skip(index + 3));
    }
    let merged = IrInstruction { labels_here: first.labels_here, kind, source_line: first.source_line };
    let ghost m = merged@;
    program.instructions.insert(index, merged);
    proof {
        assert(program.instructions@ =~= v0.take(index as int) + seq![merged] + v0.skip(index + 3));
        assert(m == IrSpec { kind: kind@, ..ir[index as int] });
        assert(program@ =~= merge3(ir, index as nat, kind@));
    }
}

/// Whether the pair of instructions after `index` carries a label.
pub(crate) fn labelled_after(program: &IrProgram, index: usize) -> (b: bool)
    requires
        index + 2 < program@.len(),
    ensures
        b == (program@[index + 1].labels.len() != 0 || program@[index + 2].labels.len() != 0),
{
    let n = program.instructions.len();
    assert(program@.len() == n);
    program.instructions[index + 1].labels_here.len() != 0 || program.instructions[index + 2].labels_here.len() != 0
}

} // verus!
