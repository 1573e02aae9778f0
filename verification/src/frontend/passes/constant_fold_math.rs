//! Folding signed arithmetic on two constants into one constant.
use vstd::prelude::*;
use crate::frontend::ir::{IrInstructionKind, IrProgram, IrSpec, KindSpec};
use crate::frontend::passes::{fold_from, labelled_after, merge_three, FoldStep, OptimizationPass};
use crate::opcode::{Instruction, Opcode};
use crate::bytes::u32_le_bytes;
use crate::semantics::{binary_result, lemma_top_of_push, run_op, trunc_div, Effect, MachineState};
use crate::vm::apply_binary;

verus! {

/// The signed constant an instruction pushes, if it pushes one.
pub open spec fn const_i32(k: KindSpec) -> Option<i32> {
    match k {
        KindSpec::Concrete(Instruction::I32Push(v)) => Some(v),
        KindSpec::Concrete(Instruction::I32Zero) => Some(0),
        _ => None,
    }
}

/// The value of the operation `k` on `lhs` (pushed first) and `rhs`, where it is folded:
/// wrapping addition, subtraction and multiplication, and division by a non-zero value.
pub open spec fn fold_math(k: KindSpec, lhs: i32, rhs: i32) -> Option<i32> {
    match k {
        KindSpec::Concrete(Instruction::I32Add) => Some(vstd::wrapping::i32_specs::wrapping_add(lhs, rhs)),
        KindSpec::Concrete(Instruction::I32Mul) => Some(vstd::wrapping::i32_specs::wrapping_mul(lhs, rhs)),
        KindSpec::Concrete(Instruction::I32Sub) => Some(vstd::wrapping::i32_specs::wrapping_sub(lhs, rhs)),
        KindSpec::Concrete(Instruction::I32Div) => if rhs != 0 {
            Some(if lhs == i32::MIN && rhs == -1 { i32::MIN } else { trunc_div(lhs as int, rhs as int) as i32 })
        } else {
            None
        },
        _ => None,
    }
}

/// Two signed constants and an operation that folds become one constant.
pub open spec fn math_fold3(a: KindSpec, b: KindSpec, c: KindSpec) -> Option<KindSpec> {
    match (const_i32(a), const_i32(b)) {
        (Some(lhs), Some(rhs)) => match fold_math(c, lhs, rhs) {
            Some(v) => Some(KindSpec::Concrete(Instruction::I32Push(v))),
            None => None,
        },
        _ => None,
    }
}

pub open spec fn math_step() -> FoldStep {
    |a: KindSpec, b: KindSpec, c: KindSpec| math_fold3(a, b, c)
}

/// Folds `i32.PUSH a; i32.PUSH b; op` into `i32.PUSH (a op b)` where no label stands between them.
pub struct ConstantFoldMathPass;

fn const_i32_of(k: &IrInstructionKind) -> (r: Option<i32>)
    ensures
        r == const_i32(k@),
{
    match k {
        IrInstructionKind::Concrete(Opcode::I32Push(v)) => Some(*v),
        IrInstructionKind::Concrete(Opcode::I32Zero) => Some(0),
        _ => None,
    }
}

fn fold_math_of(k: &IrInstructionKind, lhs: i32, rhs: i32) -> (r: Option<i32>)
    ensures
        r == fold_math(k@, lhs, rhs),
{
    match k {
        IrInstructionKind::Concrete(Opcode::I32Add) => Some(lhs.wrapping_add(rhs)),
        IrInstructionKind::Concrete(Opcode::I32Mul) => Some(lhs.wrapping_mul(rhs)),
        IrInstructionKind::Concrete(Opcode::I32Sub) => Some(lhs.wrapping_sub(rhs)),
        IrInstructionKind::Concrete(Opcode::I32Div) => {
            if rhs != 0 {
                Some(apply_binary(&Opcode::I32Div, rhs, lhs))
            } else {
                None
            }
        },
        _ => None,
    }
}

impl OptimizationPass for ConstantFoldMathPass {
    open spec fn outcome(&self, before: Seq<IrSpec>) -> (Seq<IrSpec>, Result<(), Seq<char>>) {
        (fold_from(math_step(), before, 0), Ok(()))
    }

    fn run(&self, program: &mut IrProgram) -> (r: Result<(), String>)
        ensures
            r is Ok,
            final(program)@ == fold_from(math_step(), old(program)@, 0),
    {
        let mut index: usize = 0;
        while program.instructions.len() - index > 2
            invariant
                index <= program@.len(),
                fold_from(math_step(), program@, index as nat) == fold_from(math_step(), old(program)@, 0),
            decreases program@.len(), program@.len() - index,
        {
            if labelled_after(program, index) {
                index += 1;
                continue;
            }
            let lhs = const_i32_of(&program.instructions[index].kind);
            let rhs = const_i32_of(&program.instructions[index + 1].kind);
            let (l, r) = match (lhs, rhs) {
                (Some(l), Some(r)) => (l, r),
                _ => {
                    index += 1;
                    continue;
                },
            };
            let folded = match fold_math_of(&program.instructions[index + 2].kind, l, r) {
                Some(v) => v,
                None => {
                    index += 1;
                    continue;
                },
            };
            merge_three(program, index, IrInstructionKind::Concrete(Opcode::I32Push(folded)));
            index = if index >= 2 { index - 2 } else { 0 };
        }
        Ok(())
    }
}

/// Folding agrees with the machine: running two signed constants and a foldable operation
/// leaves the stack as pushing the folded constant does, when the stack has room for both.
pub proof fn lemma_fold_matches_machine(first: Opcode, second: Opcode, op: Opcode, s: MachineState)
    requires
        const_i32(KindSpec::Concrete(first@)) is Some,
        const_i32(KindSpec::Concrete(second@)) is Some,
        fold_math(KindSpec::Concrete(op@), const_i32(KindSpec::Concrete(first@))->0, const_i32(KindSpec::Concrete(second@))->0) is Some,
        s.stack.len() + 8 <= s.capacity,
    ensures
        ({
            let v = fold_math(KindSpec::Concrete(op@), const_i32(KindSpec::Concrete(first@))->0, const_i32(KindSpec::Concrete(second@))->0)->0;
            let r1 = run_op(first, s);
            let r2 = run_op(second, r1.0);
            let r3 = run_op(op, r2.0);
            let folded = run_op(Opcode::I32Push(v), s);
            &&& r1.1 == Ok::<Effect, Seq<char>>(Effect::Continue)
            &&& r2.1 == Ok::<Effect, Seq<char>>(Effect::Continue)
            &&& r3.1 == Ok::<Effect, Seq<char>>(Effect::Continue)
            &&& folded.1 == Ok::<Effect, Seq<char>>(Effect::Continue)
            &&& r3.0 == folded.0.with_ip(s.ip + 3)
        }),
{
    let lhs = const_i32(KindSpec::Concrete(first@))->0;
    let rhs = const_i32(KindSpec::Concrete(second@))->0;
    let st1 = s.stack + u32_le_bytes(lhs as u32);
    lemma_top_of_push(s.stack, lhs as u32);
    lemma_top_of_push(st1, rhs as u32);
    assert((lhs as u32) as i32 == lhs) by (bit_vector);
    assert((rhs as u32) as i32 == rhs) by (bit_vector);
    assert(lhs * rhs == rhs * lhs) by (nonlinear_arith);
    let v = fold_math(KindSpec::Concrete(op@), lhs, rhs)->0;
    assert(binary_result(op, rhs, lhs) == v);
}

} // verus!
