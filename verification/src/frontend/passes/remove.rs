//! The pass that removes one instruction.
use vstd::prelude::*;
use crate::frontend::ir::{remove_spec, IrProgram, IrSpec};
use crate::frontend::passes::{unit_result, OptimizationPass};

verus! {

/// Removes the instruction at `index`; its labels move to the instruction after it.
pub struct RemoveInstructionPass {
    pub index: usize,
}

impl OptimizationPass for RemoveInstructionPass {
    open spec fn outcome(&self, before: Seq<IrSpec>) -> (Seq<IrSpec>, Result<(), Seq<char>>) {
        remove_spec(before, self.index as nat)
    }

    fn run(&self, program: &mut IrProgram) -> (r: Result<(), String>) {
        let r = program.remove_instruction(self.index);
        proof {
            assert(unit_result(r) == remove_spec(old(program)@, self.index as nat).1);
        }
        r
    }
}

} // verus!
