//! The pass that changes nothing.
use vstd::prelude::*;
use crate::frontend::ir::{IrProgram, IrSpec};
use crate::frontend::passes::OptimizationPass;

verus! {

/// Leaves the program as it is.
pub struct NoopOptimizationPass;

impl OptimizationPass for NoopOptimizationPass {
    open spec fn outcome(&self, before: Seq<IrSpec>) -> (Seq<IrSpec>, Result<(), Seq<char>>) {
        (before, Ok(()))
    }

    fn run(&self, program: &mut IrProgram) -> (r: Result<(), String>)
        ensures
            r is Ok,
            final(program)@ == old(program)@,
    {
        Ok(())
    }
}

} // verus!
