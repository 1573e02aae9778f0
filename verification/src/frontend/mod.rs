//! From source text to instructions: parsing, the intermediate form, passes and assembly.
pub mod ir;
pub mod parser;
pub mod passes;
pub mod assembler;

pub use crate::frontend::assembler::{AssembledProgram, ProgramMetadata};

use vstd::prelude::*;
use crate::frontend::assembler::{assemble_ir_with_metadata, assemble_spec, AssembledSpec};
use crate::frontend::ir::{lemma_lower_items_len, lower_spec, lower_to_ir};
use crate::frontend::parser::{lemma_parse_lines_len, parse_source, parse_source_spec};
use crate::frontend::passes::{fold_from, lemma_fold_from_len, OptimizationPass};
use crate::frontend::passes::constant_fold_f32::{f32_step, ConstantFoldF32Pass};
use crate::frontend::passes::constant_fold_math::{math_step, ConstantFoldMathPass};
use crate::frontend::passes::noop::NoopOptimizationPass;
use crate::host::{decoder_is_function, evaluator_is_function};
use crate::lex::{lemma_lines_len, lines};
use crate::opcode::Opcode;
use crate::semantics::FloatOp;

verus! {

/// What compiling a source gives: it is parsed, lowered, folded (signed arithmetic first,
/// then float arithmetic) and assembled; the first step that fails gives the error.
pub open spec fn compile_spec<P: Fn(String) -> Option<u32>, E: Fn(FloatOp) -> u32>(path: Seq<char>, source: Seq<char>, decode: P, eval: E) -> Result<AssembledSpec, Seq<char>> {
    match parse_source_spec(path, source, decode) {
        Err(e) => Err(e),
        Ok(items) => match lower_spec(path, items) {
            Err(e) => Err(e),
            Ok(ir) => assemble_spec(path, fold_from(f32_step(eval), fold_from(math_step(), ir, 0), 0)),
        },
    }
}

/// Compiles a source into machine instructions with the labels and source line of each.
///
/// `decode` reads float literals and `eval` does the float arithmetic of constant folding.
/// A source of `n` characters takes at least `n` bytes, so `n` is at most `isize::MAX`.
pub fn compile_source_with_metadata<P: Fn(String) -> Option<u32>, E: Fn(FloatOp) -> u32>(path: &str, source: &str, decode: &P, eval: E) -> (r: Result<AssembledProgram, String>)
    requires
        decoder_is_function(*decode),
        evaluator_is_function(eval),
        source@.len() <= usize::MAX / 2,
    ensures
        match compile_spec(path@, source@, *decode, eval) {
            Ok(a) => r matches Ok(p) && p@ == a,
            Err(e) => r matches Err(m) && m@ == e,
        },
{
    let parsed = parse_source(path, source, decode)?;
    let ghost items = parsed@;
    let mut ir = lower_to_ir(path, parsed)?;
    proof {
        lemma_lines_len(source@);
        lemma_parse_lines_len(path@, lines(source@), 1, *decode);
        lemma_lower_items_len(items, seq![]);
    }
    let ghost ir0 = ir@;
    let fold_math = ConstantFoldMathPass;
    let fold_f32 = ConstantFoldF32Pass::new(eval);
    let noop = NoopOptimizationPass;
    fold_math.run(&mut ir)?;
    let ghost ir1 = ir@;
    fold_f32.run(&mut ir)?;
    noop.run(&mut ir)?;
    proof {
        lemma_fold_from_len(math_step(), ir0, 0);
        lemma_fold_from_len(f32_step(eval), ir1, 0);
    }
    assemble_ir_with_metadata(path, &ir)
}

/// Compiles a source into machine instructions.
pub fn compile_source<P: Fn(String) -> Option<u32>, E: Fn(FloatOp) -> u32>(path: &str, source: &str, decode: &P, eval: E) -> (r: Result<Vec<Opcode>, String>)
    requires
        decoder_is_function(*decode),
        evaluator_is_function(eval),
        source@.len() <= usize::MAX / 2,
    ensures
        match compile_spec(path@, source@, *decode, eval) {
            Ok(a) => r matches Ok(ops) && ops@.map_values(|o: Opcode| o@) == a.opcodes,
            Err(e) => r matches Err(m) && m@ == e,
        },
{
    let a = compile_source_with_metadata(path, source, decode, eval)?;
    Ok(a.opcodes)
}

} // verus!
