//! Folding float arithmetic and comparisons on two constants into one constant.
use vstd::prelude::*;
use crate::frontend::ir::{IrInstructionKind, IrProgram, IrSpec, KindSpec};
use crate::frontend::passes::{fold_from, labelled_after, merge_three, FoldStep, OptimizationPass};
use crate::host::{evaluate, evaluated, evaluator_is_function};
use crate::opcode::{Instruction, Opcode, OpcodeSpec};
use crate::bytes::u32_le_bytes;
use crate::semantics::{lemma_top_of_push, push_and_continue, run_binary, run_float_binary, run_op, Effect, FloatOp, MachineState};

verus! {

/// The float bit pattern an instruction pushes, if it pushes one.
pub open spec fn const_f32(k: KindSpec) -> Option<u32> {
    match k {
        KindSpec::Concrete(Instruction::F32Push(v)) => Some(v),
        _ => None,
    }
}

/// The instruction that the float operation `k` on `lhs` (pushed first) and `rhs` folds into:
/// arithmetic pushes the float the evaluator computes, equality compares the bit patterns,
/// and the other comparisons push the evaluator's 1 or 0.
pub open spec fn fold_f32<E: Fn(FloatOp) -> u32>(eval: E, k: KindSpec, lhs: u32, rhs: u32) -> Option<OpcodeSpec> {
    match k {
        KindSpec::Concrete(Instruction::F32Add) => Some(Instruction::F32Push(evaluated(eval, FloatOp::Add(lhs, rhs)))),
        KindSpec::Concrete(Instruction::F32Sub) => Some(Instruction::F32Push(evaluated(eval, FloatOp::Sub(lhs, rhs)))),
        KindSpec::Concrete(Instruction::F32Mul) => Some(Instruction::F32Push(evaluated(eval, FloatOp::Mul(lhs, rhs)))),
        KindSpec::Concrete(Instruction::F32Div) => Some(Instruction::F32Push(evaluated(eval, FloatOp::Div(lhs, rhs)))),
        KindSpec::Concrete(Instruction::F32Eq) => Some(Instruction::I32Push(if lhs == rhs { 1 } else { 0 })),
        KindSpec::Concrete(Instruction::F32Gt) => Some(Instruction::I32Push(evaluated(eval, FloatOp::Gt(lhs, rhs)) as i32)),
        KindSpec::Concrete(Instruction::F32Ge) => Some(Instruction::I32Push(evaluated(eval, FloatOp::Ge(lhs, rhs)) as i32)),
        _ => None,
    }
}

/// Two float constants and an operation that folds become one constant.
pub open spec fn f32_fold3<E: Fn(FloatOp) -> u32>(eval: E, a: KindSpec, b: KindSpec, c: KindSpec) -> Option<KindSpec> {
    match (const_f32(a), const_f32(b)) {
        (Some(lhs), Some(rhs)) => match fold_f32(eval, c, lhs, rhs) {
            Some(op) => Some(KindSpec::Concrete(op)),
            None => None,
        },
        _ => None,
    }
}

pub open spec fn f32_step<E: Fn(FloatOp) -> u32>(eval: E) -> FoldStep {
    |a: KindSpec, b: KindSpec, c: KindSpec| f32_fold3(eval, a, b, c)
}

/// Folds `f32.PUSH a; f32.PUSH b; op` into one push where no label stands between them;
/// the float arithmetic is done by the evaluator it holds.
pub struct ConstantFoldF32Pass<E: Fn(FloatOp) -> u32> {
    eval: E,
}

impl<E: Fn(FloatOp) -> u32> ConstantFoldF32Pass<E> {
    #[verifier::type_invariant]
    spec fn evaluator_ok(self) -> bool {
        evaluator_is_function(self.eval)
    }

    /// The evaluator the pass folds with.
    pub closed spec fn evaluator(self) -> E {
        self.eval
    }

    /// A pass that folds with `eval`.
    pub fn new(eval: E) -> (p: Self)
        requires
            evaluator_is_function(eval),
        ensures
            p.evaluator() == eval,
    {
        ConstantFoldF32Pass { eval }
    }

    fn fold_of(&self, k: &IrInstructionKind, lhs: u32, rhs: u32) -> (r: Option<Opcode>)
        ensures
            match r {
                Some(op) => fold_f32(self.evaluator(), k@, lhs, rhs) == Some(op@),
                None => fold_f32(self.evaluator(), k@, lhs, rhs) is None,
            },
    {
        proof { use_type_invariant(self); }
        match k {
            IrInstructionKind::Concrete(Opcode::F32Add) => Some(Opcode::F32Push(evaluate(&self.eval, FloatOp::Add(lhs, rhs)))),
            IrInstructionKind::Concrete(Opcode::F32Sub) => Some(Opcode::F32Push(evaluate(&self.eval, FloatOp::Sub(lhs, rhs)))),
            IrInstructionKind::Concrete(Opcode::F32Mul) => Some(Opcode::F32Push(evaluate(&self.eval, FloatOp::Mul(lhs, rhs)))),
            IrInstructionKind::Concrete(Opcode::F32Div) => Some(Opcode::F32Push(evaluate(&self.eval, FloatOp::Div(lhs, rhs)))),
            IrInstructionKind::Concrete(Opcode::F32Eq) => Some(Opcode::I32Push(if lhs == rhs { 1 } else { 0 })),
            IrInstructionKind::Concrete(Opcode::F32Gt) => Some(Opcode::I32Push(evaluate(&self.eval, FloatOp::Gt(lhs, rhs)) as i32)),
            IrInstructionKind::Concrete(Opcode::F32Ge) => Some(Opcode::I32Push(evaluate(&self.eval, FloatOp::Ge(lhs, rhs)) as i32)),
            _ => None,
        }
    }
}

fn const_f32_of(k: &IrInstructionKind) -> (r: Option<u32>)
    ensures
        r == const_f32(k@),
{
    match k {
        IrInstructionKind::Concrete(Opcode::F32Push(v)) => Some(*v),
        _ => None,
    }
}

impl<E: Fn(FloatOp) -> u32> OptimizationPass for ConstantFoldF32Pass<E> {
    open spec fn outcome(&self, before: Seq<IrSpec>) -> (Seq<IrSpec>, Result<(), Seq<char>>) {
        (fold_from(f32_step(self.evaluator()), before, 0), Ok(()))
    }

    fn run(&self, program: &mut IrProgram) -> (r: Result<(), String>)
        ensures
            r is Ok,
            final(program)@ == fold_from(f32_step(self.evaluator()), old(program)@, 0),
    {
        let ghost step = f32_step(self.evaluator());
        let mut index: usize = 0;
        while program.instructions.len() - index > 2
            invariant
                index <= program@.len(),
                step == f32_step(self.evaluator()),
                fold_from(step, program@, index as nat) == fold_from(step, old(program)@, 0),
            decreases program@.len(), program@.len() - index,
        {
            if labelled_after(program, index) {
                index += 1;
                continue;
            }
            let lhs = const_f32_of(&program.instructions[index].kind);
            let rhs = const_f32_of(&program.instructions[index + 1].kind);
            let (l, r) = match (lhs, rhs) {
                (Some(l), Some(r)) => (l, r),
                _ => {
                    index += 1;
                    continue;
                },
            };
            let folded = match self.fold_of(&program.instructions[index + 2].kind, l, r) {
                Some(op) => op,
                None => {
                    index += 1;
                    continue;
                },
            };
            merge_three(program, index, IrInstructionKind::Concrete(folded));
            index = if index >= 2 { index - 2 } else { 0 };
        }
        Ok(())
    }
}

/// The machine instruction that pushes what a folded float instruction pushes.
pub open spec fn push_of(o: OpcodeSpec) -> Opcode {
    match o {
        Instruction::F32Push(b) => Opcode::F32Push(b),
        Instruction::I32Push(v) => Opcode::I32Push(v),
        _ => Opcode::Noop,
    }
}

/// Folding agrees with the machine: running two float constants and a foldable operation, with
/// the host doing the float work the machine hands it, leaves the stack as pushing the folded
/// constant does, when the stack has room for both constants. The machine hands addition and
/// multiplication to the host with the operands the other way round, so for those the host's
/// answer must not depend on their order.
#[verifier::rlimit(40)]
pub proof fn lemma_fold_f32_matches_machine<E: Fn(FloatOp) -> u32>(eval: E, l: u32, r: u32, op: Opcode, s: MachineState)
    requires
        fold_f32(eval, KindSpec::Concrete(op@), l, r) is Some,
        s.stack.len() + 8 <= s.capacity,
        op is F32Add ==> evaluated(eval, FloatOp::Add(r, l)) == evaluated(eval, FloatOp::Add(l, r)),
        op is F32Mul ==> evaluated(eval, FloatOp::Mul(r, l)) == evaluated(eval, FloatOp::Mul(l, r)),
    ensures
        ({
            let folded = push_of(fold_f32(eval, KindSpec::Concrete(op@), l, r)->0);
            let r1 = run_op(Opcode::F32Push(l), s);
            let r2 = run_op(Opcode::F32Push(r), r1.0);
            let r3 = run_op(op, r2.0);
            let after = match r3.1 {
                Ok(Effect::Float(f)) => push_and_continue(r3.0, evaluated(eval, f)),
                _ => r3,
            };
            let single = run_op(folded, s);
            &&& r1.1 == Ok::<Effect, Seq<char>>(Effect::Continue)
            &&& r2.1 == Ok::<Effect, Seq<char>>(Effect::Continue)
            &&& after.1 == Ok::<Effect, Seq<char>>(Effect::Continue)
            &&& single.1 == Ok::<Effect, Seq<char>>(Effect::Continue)
            &&& after.0 == single.0.with_ip(s.ip + 3)
        }),
{
    let st1 = s.stack + u32_le_bytes(l);
    lemma_top_of_push(s.stack, l);
    lemma_top_of_push(st1, r);
    let s1 = s.with_stack(st1).next();
    assert(run_op(Opcode::F32Push(l), s) == (s1, Ok::<Effect, Seq<char>>(Effect::Continue)));
    let s2 = s1.with_stack(st1 + u32_le_bytes(r)).next();
    assert(run_op(Opcode::F32Push(r), s1) == (s2, Ok::<Effect, Seq<char>>(Effect::Continue)));
    if op is F32Eq {
        assert(run_op(op, s2) == run_binary(op, s2));
        assert((l as i32 == r as i32) == (l == r)) by (bit_vector);
        assert(((if l == r { 1i32 } else { 0i32 }) as u32) == (if l == r { 1u32 } else { 0u32 }));
    } else {
        assert(run_op(op, s2) == run_float_binary(op, s2));
        if op is F32Gt || op is F32Ge {
            let x = if op is F32Gt { evaluated(eval, FloatOp::Gt(l, r)) } else { evaluated(eval, FloatOp::Ge(l, r)) };
            assert((x as i32) as u32 == x) by (bit_vector);
        }
    }
}

} // verus!
