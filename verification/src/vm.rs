//! The machine: a stack, memory lanes and an operation counter, stepping through a program.
use vstd::prelude::*;
use crate::bytes::{i32_from_le, u32_from_le, u32_le_bytes};
use crate::memory_lane::MemoryLane;
use crate::opcode::Opcode;
use crate::program::Program;
use crate::semantics::{
    run_op, op_undefined, push_and_continue, run_binary, run_float_binary, pop_count, binary_result,
    binary_undefined, is_binary, float_op, jump_target, rotate_times, lemma_rotate_times_len, dup_result,
    printed_bytes, word_at, top_i32, top_u32, drop_word, Effect, FloatOp, LaneState, MachineState,
    Outcome, trunc_div, trunc_rem, abs, non_negative_message, lemma_run_op_keeps_counter,
};
use crate::stack::{Stack, underflow_message, rotate_word_left};
use crate::text::push_str;

verus! {

/// What a step asks of the caller.
#[derive(Debug, PartialEq)]
pub enum StepOutcome {
    /// Nothing: go on.
    Continue,
    /// The program halted with this exit code.
    Halt(i32),
    /// Print these bytes, each as the character with that code, then go on.
    Output(Vec<u8>),
    /// Call the host function of this name, then `finish_external`.
    CallExternal(String),
    /// Compute this float operation, then hand its result to `finish_float`.
    Float(FloatOp),
}

impl StepOutcome {
    /// The outcome as a mathematical value.
    pub open spec fn effect(&self) -> Effect {
        match self {
            StepOutcome::Continue => Effect::Continue,
            StepOutcome::Halt(c) => Effect::Halt(*c),
            StepOutcome::Output(b) => Effect::Output(b@),
            StepOutcome::CallExternal(n) => Effect::CallExternal(n@),
            StepOutcome::Float(f) => Effect::Float(*f),
        }
    }
}

/// A step's result as a mathematical value: the effect, or the error message.
pub open spec fn result_view(r: Result<StepOutcome, String>) -> Result<Effect, Seq<char>> {
    match r {
        Ok(o) => Ok(o.effect()),
        Err(e) => Err(e@),
    }
}

/// The machine.
pub struct Vm<'a> {
    op_counter: u64,
    stack: Stack,
    memory_lanes: Box<[MemoryLane<'a>]>,
    external_functions: Vec<String>,
}

/// The view of a lane.
pub open spec fn lane_state(l: MemoryLane) -> LaneState {
    LaneState { data: l.contents(), writable: l.writable() }
}

impl<'a> Vm<'a> {
    /// The internal representation is consistent.
    pub closed spec fn well_formed(&self) -> bool {
        self.stack.well_formed()
    }

    /// The bytes on the stack, bottom first.
    pub closed spec fn stack_bytes(&self) -> Seq<u8> {
        self.stack.bytes()
    }

    /// The stack's capacity in bytes.
    pub closed spec fn stack_capacity(&self) -> nat {
        self.stack.capacity()
    }

    /// The machine's stack.
    pub closed spec fn machine_stack(&self) -> Stack {
        self.stack
    }

    /// The machine's memory lanes.
    pub closed spec fn machine_lanes(&self) -> Seq<MemoryLane<'a>> {
        self.memory_lanes@
    }

    /// The memory lanes.
    pub closed spec fn lanes(&self) -> Seq<LaneState> {
        self.memory_lanes@.map_values(|l: MemoryLane<'a>| lane_state(l))
    }

    /// The number of instructions run so far.
    pub closed spec fn counter(&self) -> u64 {
        self.op_counter
    }

    /// The names of the host functions registered so far, in order.
    pub closed spec fn hosted(&self) -> Seq<Seq<char>> {
        self.external_functions@.map_values(|s: String| s@)
    }

    /// The state an instruction sees when this machine runs `p`.
    pub open spec fn state(&self, p: &Program) -> MachineState {
        MachineState {
            stack: self.stack_bytes(),
            capacity: self.stack_capacity(),
            lanes: self.lanes(),
            ip: p.ip() as nat,
            lane: p.lane(),
            counter: self.counter(),
            hosted: self.hosted(),
        }
    }

    /// A machine with an empty stack of 1024 bytes, the given lanes, and no instructions run.
    pub fn new(memory_lanes: Box<[MemoryLane<'a>]>) -> (vm: Vm<'a>)
        ensures
            vm.well_formed(),
            vm.stack_bytes() == Seq::<u8>::empty(),
            vm.stack_capacity() == 1024,
            vm.lanes() == memory_lanes@.map_values(|l: MemoryLane<'a>| lane_state(l)),
            vm.counter() == 0,
            vm.hosted() == Seq::<Seq<char>>::empty(),
    {
        let vm = Vm { op_counter: 0, stack: Stack::new(1024), memory_lanes, external_functions: Vec::new() };
        proof { assert(vm.hosted() =~= Seq::<Seq<char>>::empty()); }
        vm
    }

    /// Makes `CallExternal name` hand the call to the host instead of failing; the host keeps
    /// the function itself and runs it when `step` asks for it.
    pub fn register_external_function(&mut self, name: &str)
        ensures
            final(self).hosted() == old(self).hosted().push(name@),
            final(self).stack_bytes() == old(self).stack_bytes(),
            final(self).stack_capacity() == old(self).stack_capacity(),
            final(self).lanes() == old(self).lanes(),
            final(self).counter() == old(self).counter(),
            final(self).machine_stack() == old(self).machine_stack(),
            final(self).machine_lanes() == old(self).machine_lanes(),
            old(self).well_formed() ==> final(self).well_formed(),
    {
        let ghost before = self.hosted();
        self.external_functions.push(name.to_string());
        proof { assert(self.hosted() =~= before.push(name@)); }
    }

    fn is_registered(&self, name: &String) -> (b: bool)
        ensures
            b == self.hosted().contains(name@),
    {
        let mut i: usize = 0;
        while i < self.external_functions.len()
            invariant
                i <= self.external_functions@.len(),
                forall|j: int| 0 <= j < i ==> self.hosted()[j] != name@,
            decreases self.external_functions@.len() - i,
        {
            if self.external_functions[i] == *name {
                proof { assert(self.hosted()[i as int] == name@); }
                return true;
            }
            i += 1;
        }
        false
    }

    /// The number of instructions run so far.
    pub fn get_op_counter(&self) -> (n: u64)
        ensures
            n == self.counter(),
    {
        self.op_counter
    }

    /// The bytes on the stack, bottom first.
    pub fn get_stack_bytes(&self) -> (v: Vec<u8>)
        requires
            self.well_formed(),
        ensures
            v@ == self.stack_bytes(),
    {
        self.stack.dump_bytes()
    }

    /// A machine's stack never holds more bytes than its capacity, which fits in `isize`.
    pub proof fn lemma_stack_within_capacity(&self)
        requires
            self.well_formed(),
        ensures
            self.stack_bytes().len() <= self.stack_capacity() <= isize::MAX,
    {
        self.stack.lemma_bounds();
    }

    /// Whether running the instruction under the instruction pointer is outside what the machine may do.
    pub open spec fn step_undefined(&self, p: &Program) -> bool {
        ||| self.counter() == u64::MAX
        ||| (p.ip() < p.code().len() && (p.visits()[p.ip() as int] == u64::MAX
            || op_undefined(p.code()[p.ip() as int], self.state(p).with_counter((self.counter() + 1) as u64))))
    }

    /// Runs the instruction under the instruction pointer.
    ///
    /// Counts the step and the visit of the instruction, then runs it as `run_op` says.
    pub fn step(&mut self, program: &mut Program) -> (r: Result<StepOutcome, String>)
        requires
            old(self).well_formed(),
            old(program).well_formed(),
            !old(self).step_undefined(old(program)),
        ensures
            final(self).counter() == old(self).counter() + 1,
            final(self).stack_capacity() == old(self).stack_capacity(),
            final(self).hosted() == old(self).hosted(),
            final(self).well_formed(),
            final(program).well_formed(),
            final(program).code() == old(program).code(),
            old(program).ip() >= old(program).code().len() ==> {
                &&& final(self).state(final(program)) == old(self).state(old(program)).with_counter((old(self).counter() + 1) as u64)
                &&& final(program).visits() == old(program).visits()
                &&& r matches Err(e) && e@ == crate::semantics::ip_message()
            },
            old(program).ip() < old(program).code().len() ==> {
                let ip = old(program).ip() as int;
                let (s, res) = run_op(
                    old(program).code()[ip],
                    old(self).state(old(program)).with_counter((old(self).counter() + 1) as u64),
                );
                &&& final(self).state(final(program)) == s
                &&& result_view(r) == res
                &&& final(program).visits() == old(program).visits().update(ip, (old(program).visits()[ip] + 1) as u64)
            },
    {
        self.op_counter = self.op_counter + 1;
        let opcode = match program.get_current_opcode() {
            Some(op) => op,
            None => { return Err(String::from_str("Instruction pointer out of bounds")); },
        };
        program.count_visit();
        let r = self.run(program, opcode);
        proof {
            lemma_run_op_keeps_counter(*opcode, old(self).state(old(program)).with_counter((old(self).counter() + 1) as u64));
        }
        r
    }

    /// Counts a step and runs `opcode` in place of the instruction under the instruction pointer.
    pub fn execute_opcode(&mut self, program: &mut Program, opcode: &Opcode) -> (r: Result<StepOutcome, String>)
        requires
            old(self).well_formed(),
            old(program).well_formed(),
            old(self).counter() < u64::MAX,
            !op_undefined(*opcode, old(self).state(old(program)).with_counter((old(self).counter() + 1) as u64)),
        ensures
            final(self).counter() == old(self).counter() + 1,
            final(self).stack_capacity() == old(self).stack_capacity(),
            final(self).hosted() == old(self).hosted(),
            final(self).well_formed(),
            final(program).well_formed(),
            final(program).code() == old(program).code(),
            final(program).visits() == old(program).visits(),
            ({
                let (s, res) = run_op(*opcode, old(self).state(old(program)).with_counter((old(self).counter() + 1) as u64));
                &&& final(self).state(final(program)) == s
                &&& result_view(r) == res
            }),
    {
        self.op_counter = self.op_counter + 1;
        let r = self.run(program, opcode);
        proof {
            lemma_run_op_keeps_counter(*opcode, old(self).state(old(program)).with_counter((old(self).counter() + 1) as u64));
        }
        r
    }

    /// Finishes a float instruction: pushes the host's result and moves to the next instruction.
    pub fn finish_float(&mut self, program: &mut Program, result: u32) -> (r: Result<(), String>)
        requires
            old(self).well_formed(),
            old(program).ip() < usize::MAX,
        ensures
            final(self).counter() == old(self).counter(),
            final(self).stack_capacity() == old(self).stack_capacity(),
            final(self).hosted() == old(self).hosted(),
            final(self).well_formed(),
            final(program).code() == old(program).code(),
            final(program).visits() == old(program).visits(),
            old(program).well_formed() ==> final(program).well_formed(),
            ({
                let (s, res) = push_and_continue(old(self).state(old(program)), result);
                &&& final(self).state(final(program)) == s
                &&& (r is Ok <==> res is Ok)
                &&& (r matches Err(e) ==> res == Err::<Effect, Seq<char>>(e@))
            }),
    {
        self.stack.push_u32(result)?;
        self.advance(program);
        Ok(())
    }

    /// Finishes a call of a host function: moves to the next instruction.
    pub fn finish_external(&mut self, program: &mut Program)
        requires
            old(program).ip() < usize::MAX,
        ensures
            final(self).hosted() == old(self).hosted(),
            *final(self) == *old(self),
            final(program).ip() == old(program).ip() + 1,
            final(program).code() == old(program).code(),
            final(program).lane() == old(program).lane(),
            final(program).visits() == old(program).visits(),
            old(program).well_formed() ==> final(program).well_formed(),
    {
        self.advance(program);
    }

    /// What a host function may see and change while it runs.
    pub fn external_args<'ctx, 'code>(&'ctx mut self, program: &'ctx Program<'code>) -> (args: ExternalFunctionArgs<'ctx, 'code, 'a>)
        ensures
            args.viewed_program() == *program,
            args.viewed_stack() == old(self).machine_stack(),
            args.viewed_lanes() == old(self).machine_lanes(),
            final(self).machine_stack() == *final(args.stack),
            final(self).well_formed() == (*final(args.stack)).well_formed(),
            final(self).machine_lanes() == final(args.memory_lanes)@,
            final(self).counter() == old(self).counter(),
            final(self).hosted() == old(self).hosted(),
    {
        ExternalFunctionArgs { program, stack: &mut self.stack, memory_lanes: &mut self.memory_lanes }
    }

    /// Whether running `op` now is outside what the machine may do (see `op_undefined`).
    ///
    /// At an instruction pointer of `usize::MAX` this answers true for every instruction that
    /// may move to the next one, also where it would fail first.
    pub fn opcode_is_undefined(&self, program: &Program, op: &Opcode) -> (b: bool)
        requires
            self.well_formed(),
        ensures
            op_undefined(*op, self.state(program)) ==> b,
            program.ip() < usize::MAX ==> (b == op_undefined(*op, self.state(program))),
    {
        proof { lemma_run_op_ip(*op, self.state(program)); }
        if program.get_ip_counter() == usize::MAX {
            match op {
                Opcode::Halt | Opcode::CallExternal(_) | Opcode::Jump | Opcode::I32ToF32
                | Opcode::F32ToI32 | Opcode::F32Add | Opcode::F32Sub | Opcode::F32Mul | Opcode::F32Div
                | Opcode::F32Gt | Opcode::F32Ge => {},
                _ => { return true; },
            }
        }
        let mut top: [u8; 8] = [0; 8];
        if self.stack.peek_bytes(&mut top).is_err() {
            return false;
        }
        let ghost st = self.stack.bytes();
        let a = crate::bytes::u32_of_le(&[top[4], top[5], top[6], top[7]]) as i32;
        let b = crate::bytes::u32_of_le(&[top[0], top[1], top[2], top[3]]) as i32;
        proof {
            assert(st.subrange(st.len() - 4, st.len() as int) =~= seq![top[4], top[5], top[6], top[7]]);
            assert(drop_word(st).subrange(drop_word(st).len() - 4, drop_word(st).len() as int) =~= seq![top[0], top[1], top[2], top[3]]);
        }
        match op {
            Opcode::I32Div => a == 0,
            Opcode::I32Mod => a == 0 || (b == i32::MIN && a == -1),
            Opcode::I32Shl | Opcode::I32Shr => a < 0 || a >= 32,
            Opcode::Write => {
                let lane = program.current_memory_lane() as usize;
                if lane >= self.memory_lanes.len() || a < 0 || !self.memory_lanes[lane].is_writable() {
                    false
                } else {
                    a as u64 >= self.memory_lanes[lane].size()
                }
            },
            _ => false,
        }
    }

    /// Whether `step` would run something outside what the machine may do (see `step_undefined`).
    pub fn step_is_undefined(&self, program: &Program) -> (b: bool)
        requires
            self.well_formed(),
            program.well_formed(),
        ensures
            b == self.step_undefined(program),
    {
        if self.op_counter == u64::MAX {
            return true;
        }
        match program.get_current_opcode() {
            None => false,
            Some(op) => {
                let ip = program.get_ip_counter();
                proof { program.lemma_visits_len(); }
                if program.get_line_metrics()[ip] == u64::MAX {
                    return true;
                }
                let ghost s = self.state(program).with_counter((self.counter() + 1) as u64);
                proof {
                    program.lemma_visits_len();
                    lemma_undefined_ignores_counter(*op, self.state(program), (self.counter() + 1) as u64);
                }
                self.opcode_is_undefined(program, op)
            },
        }
    }

    fn run(&mut self, program: &mut Program, op: &Opcode) -> (r: Result<StepOutcome, String>)
        requires
            old(self).well_formed(),
            old(program).well_formed(),
            !op_undefined(*op, old(self).state(old(program))),
        ensures
            final(self).hosted() == old(self).hosted(),
            final(self).well_formed(),
            final(program).well_formed(),
            final(program).code() == old(program).code(),
            final(program).visits() == old(program).visits(),
            ({
                let (s, res) = run_op(*op, old(self).state(old(program)));
                &&& final(self).state(final(program)) == s
                &&& result_view(r) == res
            }),
    {
        match op {
            Opcode::Read => self.run_read(program),
            Opcode::Write => self.run_write(program),
            Opcode::SwitchMemoryLane => self.run_switch_lane(program),
            Opcode::SizeOfMemoryLane => self.run_lane_size(program),
            Opcode::Noop => {
                self.advance(program);
                Ok(StepOutcome::Continue)
            },
            Opcode::Pop | Opcode::Pop32bits => {
                self.stack.pop_u32()?;
                self.advance(program);
                Ok(StepOutcome::Continue)
            },
            Opcode::Dup => {
                let v = self.stack.peek_i32()?;
                proof { crate::bytes::lemma_word_round_trip(self.stack.bytes().subrange(self.stack.bytes().len() - 4, self.stack.bytes().len() as int)); }
                self.push_and_continue(program, v as u32)
            },
            Opcode::DupN => self.run_dup_n(program),
            Opcode::Swap => self.run_swap(program),
            Opcode::I32Zero => self.push_and_continue(program, 0),
            Opcode::I32Push(v) => self.push_and_continue(program, *v as u32),
            Opcode::F32Push(v) => self.push_and_continue(program, *v),
            Opcode::I32PickN => self.run_pick_n(program),
            Opcode::JumpIfTrue => self.run_jump_if_true(program),
            Opcode::Jump => self.run_jump(program),
            Opcode::I32Not => {
                let v = self.stack.pop_i32()?;
                self.push_and_continue(program, if v == 0 { 1 } else { 0 })
            },
            Opcode::I32ToF32 => {
                let v = self.stack.pop_i32()?;
                Ok(StepOutcome::Float(FloatOp::FromI32(v)))
            },
            Opcode::F32ToI32 => {
                let v = self.stack.pop_u32()?;
                Ok(StepOutcome::Float(FloatOp::ToI32(v)))
            },
            Opcode::F32Add | Opcode::F32Sub | Opcode::F32Mul | Opcode::F32Div | Opcode::F32Gt | Opcode::F32Ge => {
                self.run_float_binary(program, op)
            },
            Opcode::Print => {
                let v = self.stack.pop_i32()?;
                self.advance(program);
                let mut out: Vec<u8> = Vec::new();
                out.push(v as u8);
                proof { assert(out@ =~= seq![v as u8]); }
                Ok(StepOutcome::Output(out))
            },
            Opcode::PrintN => self.run_print_n(program),
            Opcode::OperationCounter => {
                if self.op_counter > 0x7fff_ffff {
                    return Err(String::from_str("Operation counter exceeds i32 range"));
                }
                let c = self.op_counter as u32;
                self.push_and_continue(program, c)
            },
            Opcode::Halt => {
                let v = self.stack.pop_i32()?;
                Ok(StepOutcome::Halt(v))
            },
            Opcode::CallExternal(name) => {
                if self.is_registered(name) {
                    Ok(StepOutcome::CallExternal(name.clone()))
                } else {
                    let mut m = String::from_str("Could not get the external function by name: '");
                    push_str(&mut m, name.as_str());
                    push_str(&mut m, "'");
                    Err(m)
                }
            },
            _ => self.run_binary(program, op),
        }
    }

    /// Moves to the next instruction.
    fn advance(&mut self, program: &mut Program)
        requires
            old(program).ip() < usize::MAX,
        ensures
            final(self).hosted() == old(self).hosted(),
            final(program).ip() == old(program).ip() + 1,
            final(program).code() == old(program).code(),
            final(program).lane() == old(program).lane(),
            final(program).visits() == old(program).visits(),
            old(program).well_formed() ==> final(program).well_formed(),
            *final(self) == *old(self),
    {
        let ip = program.get_ip_counter();
        program.set_ip(ip + 1);
    }


    /// Pops a value that must be non-negative; `context` names it in the error.
    fn pop_count(&mut self, context: &str) -> (r: Result<usize, String>)
        requires
            old(self).well_formed(),
        ensures
            final(self).hosted() == old(self).hosted(),
            final(self).well_formed(),
            final(self).stack_capacity() == old(self).stack_capacity(),
            final(self).memory_lanes == old(self).memory_lanes,
            final(self).op_counter == old(self).op_counter,
            ({
                let s = old(self).stack_bytes();
                &&& s.len() < 4 ==> (r matches Err(e) && e@ == underflow_message() && final(self).stack_bytes() == s)
                &&& s.len() >= 4 && top_i32(s) < 0 ==> (r matches Err(e) && e@ == non_negative_message(context@)
                    && final(self).stack_bytes() == drop_word(s))
                &&& s.len() >= 4 && top_i32(s) >= 0 ==> (r matches Ok(n) && n == top_i32(s)
                    && final(self).stack_bytes() == drop_word(s))
            }),
    {
        let v = self.stack.pop_i32()?;
        if v < 0 {
            let mut e = context.to_string();
            push_str(&mut e, " must be non-negative");
            return Err(e);
        }
        Ok(v as usize)
    }

    /// Moves the instruction pointer by `delta` plus one.
    fn jump(&mut self, program: &mut Program, delta: i32) -> (r: Result<(), String>)
        ensures
            final(self).hosted() == old(self).hosted(),
            *final(self) == *old(self),
            final(program).code() == old(program).code(),
            final(program).lane() == old(program).lane(),
            final(program).visits() == old(program).visits(),
            old(program).well_formed() ==> final(program).well_formed(),
            match jump_target(old(program).ip() as nat, delta) {
                Ok(t) => r is Ok && final(program).ip() == t,
                Err(e) => r matches Err(m) && m@ == e && final(program).ip() == old(program).ip(),
            },
    {
        let d: i64 = delta as i64 + 1;
        if d > isize::MAX as i64 {
            return Err(String::from_str("Jump delta overflow"));
        }
        let ip = program.get_ip_counter();
        if d >= 0 {
            let du = d as usize;
            if ip > usize::MAX - du {
                return Err(String::from_str("Instruction pointer out of bounds"));
            }
            program.set_ip(ip + du);
        } else {
            let back = (-d) as usize;
            if back > ip {
                return Err(String::from_str("Instruction pointer out of bounds"));
            }
            program.set_ip(ip - back);
        }
        Ok(())
    }

    fn run_read(&mut self, program: &mut Program) -> (r: Result<StepOutcome, String>)
        requires
            old(self).well_formed(),
            old(program).well_formed(),
            !op_undefined(Opcode::Read, old(self).state(old(program))),
        ensures
            final(self).hosted() == old(self).hosted(),
            final(self).well_formed(),
            final(program).well_formed(),
            final(program).code() == old(program).code(),
            final(program).visits() == old(program).visits(),
            ({
                let (s, res) = run_op(Opcode::Read, old(self).state(old(program)));
                &&& final(self).state(final(program)) == s
                &&& result_view(r) == res
            }),
    {
        let lane = program.current_memory_lane() as usize;
        if lane >= self.memory_lanes.len() {
            return Err(String::from_str("Invalid memory lane"));
        }
        let address = self.pop_count("Read address")?;
        let value = self.memory_lanes[lane].read(address)?;
        self.push_and_continue(program, value as u32)
    }

    fn run_write(&mut self, program: &mut Program) -> (r: Result<StepOutcome, String>)
        requires
            old(self).well_formed(),
            old(program).well_formed(),
            !op_undefined(Opcode::Write, old(self).state(old(program))),
        ensures
            final(self).hosted() == old(self).hosted(),
            final(self).well_formed(),
            final(program).well_formed(),
            final(program).code() == old(program).code(),
            final(program).visits() == old(program).visits(),
            ({
                let (s, res) = run_op(Opcode::Write, old(self).state(old(program)));
                &&& final(self).state(final(program)) == s
                &&& result_view(r) == res
            }),
    {
        let lane = program.current_memory_lane() as usize;
        if lane >= self.memory_lanes.len() {
            return Err(String::from_str("Invalid memory lane"));
        }
        let address = self.pop_count("Write address")?;
        let value = self.stack.pop_i32()?;
        if !self.memory_lanes[lane].is_writable() {
            return Err(String::from_str("Cannot write to read-only memory lane"));
        }
        self.memory_lanes[lane].store(address, (value & 0xff) as u8);
        self.advance(program);
        Ok(StepOutcome::Continue)
    }

    fn run_switch_lane(&mut self, program: &mut Program) -> (r: Result<StepOutcome, String>)
        requires
            old(self).well_formed(),
            old(program).well_formed(),
            !op_undefined(Opcode::SwitchMemoryLane, old(self).state(old(program))),
        ensures
            final(self).hosted() == old(self).hosted(),
            final(self).well_formed(),
            final(program).well_formed(),
            final(program).code() == old(program).code(),
            final(program).visits() == old(program).visits(),
            ({
                let (s, res) = run_op(Opcode::SwitchMemoryLane, old(self).state(old(program)));
                &&& final(self).state(final(program)) == s
                &&& result_view(r) == res
            }),
    {
        let v = self.stack.pop_i32()?;
        if v < 0 || v > 255 {
            return Err(String::from_str("Memory lane index must fit into u8"));
        }
        program.set_lane(v as u8);
        self.advance(program);
        Ok(StepOutcome::Continue)
    }

    fn run_lane_size(&mut self, program: &mut Program) -> (r: Result<StepOutcome, String>)
        requires
            old(self).well_formed(),
            old(program).well_formed(),
            !op_undefined(Opcode::SizeOfMemoryLane, old(self).state(old(program))),
        ensures
            final(self).hosted() == old(self).hosted(),
            final(self).well_formed(),
            final(program).well_formed(),
            final(program).code() == old(program).code(),
            final(program).visits() == old(program).visits(),
            ({
                let (s, res) = run_op(Opcode::SizeOfMemoryLane, old(self).state(old(program)));
                &&& final(self).state(final(program)) == s
                &&& result_view(r) == res
            }),
    {
        let lane = program.current_memory_lane() as usize;
        if lane >= self.memory_lanes.len() {
            return Err(String::from_str("Invalid memory lane"));
        }
        let size = self.memory_lanes[lane].size();
        if size > 0x7fff_ffff {
            return Err(String::from_str("Memory lane size exceeds i32 range"));
        }
        self.push_and_continue(program, size as u32)
    }

    fn run_dup_n(&mut self, program: &mut Program) -> (r: Result<StepOutcome, String>)
        requires
            old(self).well_formed(),
            old(program).well_formed(),
            !op_undefined(Opcode::DupN, old(self).state(old(program))),
        ensures
            final(self).hosted() == old(self).hosted(),
            final(self).well_formed(),
            final(program).well_formed(),
            final(program).code() == old(program).code(),
            final(program).visits() == old(program).visits(),
            ({
                let (s, res) = run_op(Opcode::DupN, old(self).state(old(program)));
                &&& final(self).state(final(program)) == s
                &&& result_view(r) == res
            }),
    {
        let n = self.pop_count("DupN count")?;
        if n == 0 {
            return Err(String::from_str("DupN requires n >= 1"));
        }
        let len = self.stack.len_i32s()?;
        if n > len {
            return Err(String::from_str("Stack underflow"));
        }
        let ghost base = self.stack.bytes();
        let ghost copy = base.subrange(base.len() - 4 * n, base.len() as int);
        proof { self.stack.lemma_bounds(); }
        let mut i: usize = 0;
        while i < n
            invariant
                self.hosted() == old(self).hosted(),
                self.stack.well_formed(),
                self.stack.capacity() == old(self).stack.capacity(),
                self.memory_lanes == old(self).memory_lanes,
                self.op_counter == old(self).op_counter,
                base.len() == 4 * len,
                len <= isize::MAX / 4,
                program.well_formed(),
                old(self).stack_bytes().len() >= 4,
                base == drop_word(old(self).stack_bytes()),
                top_i32(old(self).stack_bytes()) == n,
                n <= len,
                i <= n,
                copy == base.subrange(base.len() - 4 * n, base.len() as int),
                self.stack.bytes() == base + copy.subrange(0, 4 * i as int),
                base.len() + 4 * i <= self.stack.capacity(),
                *program == *old(program),
            decreases n - i,
        {
            let v = self.stack.get_i32(len - n + i)?;
            let ghost w = base.subrange(4 * (len - n + i), 4 * (len - n + i) + 4);
            proof {
                assert(self.stack.bytes().subrange(4 * (len - n + i), 4 * (len - n + i) + 4) =~= w);
                crate::bytes::lemma_word_round_trip(w);
                assert(w =~= copy.subrange(4 * i as int, 4 * i + 4));
            }
            match self.stack.push_u32(v as u32) {
                Ok(()) => {},
                Err(e) => {
                    proof {
                        let room = ((self.stack.capacity() - base.len()) / 4) as nat;
                        assert(room == i);
                        let s0 = old(self).state(old(program));
                        let s1 = s0.with_stack(drop_word(s0.stack));
                        assert(s1.stack == base);
                        assert(self.state(program) == s1.with_stack(base + copy.subrange(0, 4 * room as int)));
                        assert(e@ == crate::stack::overflow_message(s1.capacity, base.len() + 4 * room + 4));
                        assert(run_op(Opcode::DupN, s0) == dup_result(s1, n as nat));
                    }
                    return Err(e);
                },
            }
            proof {
                assert(copy.subrange(0, 4 * i as int) + copy.subrange(4 * i as int, 4 * i + 4) =~= copy.subrange(0, 4 * (i + 1)));
            }
            i += 1;
        }
        proof { assert(copy.subrange(0, 4 * n as int) =~= copy); }
        self.advance(program);
        Ok(StepOutcome::Continue)
    }

    fn run_swap(&mut self, program: &mut Program) -> (r: Result<StepOutcome, String>)
        requires
            old(self).well_formed(),
            old(program).well_formed(),
            !op_undefined(Opcode::Swap, old(self).state(old(program))),
        ensures
            final(self).hosted() == old(self).hosted(),
            final(self).well_formed(),
            final(program).well_formed(),
            final(program).code() == old(program).code(),
            final(program).visits() == old(program).visits(),
            ({
                let (s, res) = run_op(Opcode::Swap, old(self).state(old(program)));
                &&& final(self).state(final(program)) == s
                &&& result_view(r) == res
            }),
    {
        let n = self.pop_count("Swap count")?;
        if n < 2 {
            return Err(String::from_str("Swap requires n >= 2"));
        }
        let direction = self.stack.pop_i32()?;
        let len = self.stack.len_i32s()?;
        if n > len {
            return Err(String::from_str("Stack underflow"));
        }
        let ghost base = self.stack.bytes();
        let ghost start = base.len() - 4 * n;
        if direction == 0 {
            let _ = self.stack.rotate_left_once_last_n_i32(n);
        } else if direction == 1 {
            let mut i: usize = 0;
            while i < n - 1
                invariant
                    self.hosted() == old(self).hosted(),
                    self.stack.well_formed(),
                    self.stack.capacity() == old(self).stack.capacity(),
                    self.memory_lanes == old(self).memory_lanes,
                    self.op_counter == old(self).op_counter,
                    base.len() == 4 * len,
                    2 <= n <= len,
                    i <= n - 1,
                    start == base.len() - 4 * n,
                    self.stack.bytes() == rotate_times(base, start, i as nat),
                    *program == *old(program),
                decreases n - 1 - i,
            {
                proof { lemma_rotate_times_len(base, start, i as nat); }
                let _ = self.stack.rotate_left_once_last_n_i32(n);
                i += 1;
            }
        } else {
            return Err(String::from_str("Swap direction must be 0 (left) or 1 (right)"));
        }
        self.advance(program);
        Ok(StepOutcome::Continue)
    }

    fn run_pick_n(&mut self, program: &mut Program) -> (r: Result<StepOutcome, String>)
        requires
            old(self).well_formed(),
            old(program).well_formed(),
            !op_undefined(Opcode::I32PickN, old(self).state(old(program))),
        ensures
            final(self).hosted() == old(self).hosted(),
            final(self).well_formed(),
            final(program).well_formed(),
            final(program).code() == old(program).code(),
            final(program).visits() == old(program).visits(),
            ({
                let (s, res) = run_op(Opcode::I32PickN, old(self).state(old(program)));
                &&& final(self).state(final(program)) == s
                &&& result_view(r) == res
            }),
    {
        let n = self.stack.pop_i32()?;
        if n < 1 || n > 8 {
            return Err(String::from_str("i32.PickN requires n between 1 and 8"));
        }
        let n = n as usize;
        let len = self.stack.len_i32s()?;
        if n > len {
            return Err(String::from_str("Stack underflow"));
        }
        let v = self.stack.get_i32(len - n)?;
        self.push_and_continue(program, v as u32)
    }

    fn run_jump_if_true(&mut self, program: &mut Program) -> (r: Result<StepOutcome, String>)
        requires
            old(self).well_formed(),
            old(program).well_formed(),
            !op_undefined(Opcode::JumpIfTrue, old(self).state(old(program))),
        ensures
            final(self).hosted() == old(self).hosted(),
            final(self).well_formed(),
            final(program).well_formed(),
            final(program).code() == old(program).code(),
            final(program).visits() == old(program).visits(),
            ({
                let (s, res) = run_op(Opcode::JumpIfTrue, old(self).state(old(program)));
                &&& final(self).state(final(program)) == s
                &&& result_view(r) == res
            }),
    {
        let delta = self.stack.pop_i32()?;
        let condition = self.stack.pop_i32()?;
        if condition != 0 {
            self.jump(program, delta)?;
        } else {
            self.advance(program);
        }
        Ok(StepOutcome::Continue)
    }

    fn run_jump(&mut self, program: &mut Program) -> (r: Result<StepOutcome, String>)
        requires
            old(self).well_formed(),
            old(program).well_formed(),
            !op_undefined(Opcode::Jump, old(self).state(old(program))),
        ensures
            final(self).hosted() == old(self).hosted(),
            final(self).well_formed(),
            final(program).well_formed(),
            final(program).code() == old(program).code(),
            final(program).visits() == old(program).visits(),
            ({
                let (s, res) = run_op(Opcode::Jump, old(self).state(old(program)));
                &&& final(self).state(final(program)) == s
                &&& result_view(r) == res
            }),
    {
        let delta = self.stack.pop_i32()?;
        self.jump(program, delta)?;
        Ok(StepOutcome::Continue)
    }

    fn run_print_n(&mut self, program: &mut Program) -> (r: Result<StepOutcome, String>)
        requires
            old(self).well_formed(),
            old(program).well_formed(),
            !op_undefined(Opcode::PrintN, old(self).state(old(program))),
        ensures
            final(self).hosted() == old(self).hosted(),
            final(self).well_formed(),
            final(program).well_formed(),
            final(program).code() == old(program).code(),
            final(program).visits() == old(program).visits(),
            ({
                let (s, res) = run_op(Opcode::PrintN, old(self).state(old(program)));
                &&& final(self).state(final(program)) == s
                &&& result_view(r) == res
            }),
    {
        let size = self.pop_count("PrintN size")?;
        let len = self.stack.len_i32s()?;
        if size > len {
            return Err(String::from_str("Stack underflow"));
        }
        let ghost base = self.stack.bytes();
        let mut out: Vec<u8> = Vec::new();
        let mut i: usize = 0;
        while i < size
            invariant
                self.hosted() == old(self).hosted(),
                self.stack.well_formed(),
                self.stack.bytes() == base,
                base.len() == 4 * len,
                len <= isize::MAX / 4,
                size <= len,
                i <= size,
                out@ == printed_bytes(base, size as nat).subrange(0, i as int),
            decreases size - i,
        {
            let v = self.stack.get_i32(len - size + i)?;
            out.push(v as u8);
            proof {
                assert(out@ =~= printed_bytes(base, size as nat).subrange(0, i + 1));
            }
            i += 1;
        }
        let mut j: usize = 0;
        while j < size
            invariant
                self.hosted() == old(self).hosted(),
                self.stack.well_formed(),
                self.stack.capacity() == old(self).stack.capacity(),
                self.memory_lanes == old(self).memory_lanes,
                self.op_counter == old(self).op_counter,
                base.len() == 4 * len,
                size <= len,
                j <= size,
                self.stack.bytes() == base.subrange(0, base.len() - 4 * j),
            decreases size - j,
        {
            let _ = self.stack.pop_u32();
            proof {
                assert(self.stack.bytes() =~= base.subrange(0, base.len() - 4 * (j + 1)));
            }
            j += 1;
        }
        proof { assert(out@ =~= printed_bytes(base, size as nat)); }
        self.advance(program);
        Ok(StepOutcome::Output(out))
    }

    fn run_binary(&mut self, program: &mut Program, op: &Opcode) -> (r: Result<StepOutcome, String>)
        requires
            old(self).well_formed(),
            old(program).well_formed(),
            is_binary(*op),
            !op_undefined(*op, old(self).state(old(program))),
        ensures
            final(self).hosted() == old(self).hosted(),
            final(self).well_formed(),
            final(program).well_formed(),
            final(program).code() == old(program).code(),
            final(program).visits() == old(program).visits(),
            ({
                let (s, res) = run_binary(*op, old(self).state(old(program)));
                &&& final(self).state(final(program)) == s
                &&& result_view(r) == res
            }),
    {
        let a = self.stack.pop_i32()?;
        let b = self.stack.pop_i32()?;
        let v = apply_binary(op, a, b);
        self.push_and_continue(program, v as u32)
    }

    fn run_float_binary(&mut self, program: &mut Program, op: &Opcode) -> (r: Result<StepOutcome, String>)
        requires
            old(self).well_formed(),
        ensures
            final(self).hosted() == old(self).hosted(),
            final(self).well_formed(),
            *final(program) == *old(program),
            ({
                let (s, res) = run_float_binary(*op, old(self).state(old(program)));
                &&& final(self).state(final(program)) == s
                &&& result_view(r) == res
            }),
    {
        let a = self.stack.pop_u32()?;
        let b = self.stack.pop_u32()?;
        let f = match op {
            Opcode::F32Add => FloatOp::Add(a, b),
            Opcode::F32Sub => FloatOp::Sub(b, a),
            Opcode::F32Mul => FloatOp::Mul(a, b),
            Opcode::F32Div => FloatOp::Div(b, a),
            Opcode::F32Gt => FloatOp::Gt(b, a),
            _ => FloatOp::Ge(b, a),
        };
        Ok(StepOutcome::Float(f))
    }

    fn push_and_continue(&mut self, program: &mut Program, v: u32) -> (r: Result<StepOutcome, String>)
        requires
            old(self).well_formed(),
            push_and_continue(old(self).state(old(program)), v).0.ip <= usize::MAX,
        ensures
            final(self).hosted() == old(self).hosted(),
            final(self).well_formed(),
            final(program).code() == old(program).code(),
            final(program).visits() == old(program).visits(),
            old(program).well_formed() ==> final(program).well_formed(),
            ({
                let (s, res) = push_and_continue(old(self).state(old(program)), v);
                &&& final(self).state(final(program)) == s
                &&& result_view(r) == res
            }),
    {
        self.stack.push_u32(v)?;
        self.advance(program);
        Ok(StepOutcome::Continue)
    }
}

/// What a host function may see and change while it runs.
pub struct ExternalFunctionArgs<'ctx, 'code, 'memory> {
    pub program: &'ctx Program<'code>,
    pub stack: &'ctx mut Stack,
    pub memory_lanes: &'ctx mut [MemoryLane<'memory>],
}

impl<'ctx, 'code, 'memory> ExternalFunctionArgs<'ctx, 'code, 'memory> {
    /// The program being run.
    pub closed spec fn viewed_program(&self) -> Program<'code> {
        *self.program
    }

    /// The machine's stack.
    pub closed spec fn viewed_stack(&self) -> Stack {
        *self.stack
    }

    /// The machine's memory lanes.
    pub closed spec fn viewed_lanes(&self) -> Seq<MemoryLane<'memory>> {
        self.memory_lanes@
    }

    /// The program being run.
    pub fn program(&self) -> (p: &Program<'code>)
        ensures
            *p == self.viewed_program(),
    {
        self.program
    }

    /// The machine's stack.
    pub fn stack(&mut self) -> (s: &mut Stack)
        ensures
            *s == old(self).viewed_stack(),
            final(self).viewed_stack() == *final(s),
            final(self).viewed_program() == old(self).viewed_program(),
            final(self).viewed_lanes() == old(self).viewed_lanes(),
            *final(final(self).stack) == *final(old(self).stack),
            final(final(self).memory_lanes)@ == final(old(self).memory_lanes)@,
    {
        self.stack
    }

    /// The machine's memory lanes.
    pub fn memory_lanes(&mut self) -> (l: &mut [MemoryLane<'memory>])
        ensures
            l@ == old(self).viewed_lanes(),
            final(self).viewed_lanes() == final(l)@,
            final(self).viewed_program() == old(self).viewed_program(),
            final(self).viewed_stack() == old(self).viewed_stack(),
            *final(final(self).stack) == *final(old(self).stack),
            final(final(self).memory_lanes)@ == final(old(self).memory_lanes)@,
    {
        self.memory_lanes
    }

    /// The instruction pointer, which points at the call.
    pub fn instruction_pointer(&self) -> (ip: usize)
        ensures
            ip == self.viewed_program().ip(),
    {
        self.program.get_ip_counter()
    }

    /// The index of the current memory lane.
    pub fn current_memory_lane(&self) -> (l: u8)
        ensures
            l == self.viewed_program().lane(),
    {
        self.program.current_memory_lane()
    }

    /// The instruction under the instruction pointer, if it is inside the program.
    pub fn current_opcode(&self) -> (o: Option<&'code Opcode>)
        ensures
            o is Some <==> self.viewed_program().ip() < self.viewed_program().code().len(),
            o matches Some(op) ==> *op == self.viewed_program().code()[self.viewed_program().ip() as int],
    {
        self.program.get_current_opcode()
    }
}

/// The instruction pointer after an instruction never exceeds the one before by more than one,
/// unless the instruction jumped, and jumps stay representable.
pub proof fn lemma_run_op_ip(op: Opcode, s: MachineState)
    ensures
        s.ip < usize::MAX ==> run_op(op, s).0.ip <= usize::MAX,
        s.ip == usize::MAX && (op is Halt || op is CallExternal || op is Jump
            || op is I32ToF32 || op is F32ToI32 || op is F32Add || op is F32Sub || op is F32Mul
            || op is F32Div || op is F32Gt || op is F32Ge) ==> run_op(op, s).0.ip <= usize::MAX,
{
    if s.ip == usize::MAX {
        match op {
            Opcode::F32Add | Opcode::F32Sub | Opcode::F32Mul | Opcode::F32Div | Opcode::F32Gt | Opcode::F32Ge => {
                assert(run_op(op, s) == run_float_binary(op, s));
                assert(run_float_binary(op, s).0.ip == s.ip);
            },
            Opcode::Halt => { assert(run_op(op, s).0.ip == s.ip); },
            Opcode::CallExternal(_) => { assert(run_op(op, s).0.ip == s.ip); },
            Opcode::I32ToF32 => { assert(run_op(op, s).0.ip == s.ip); },
            Opcode::F32ToI32 => { assert(run_op(op, s).0.ip == s.ip); },
            Opcode::Jump => { assert(run_op(op, s).0.ip <= usize::MAX); },
            _ => {},
        }
    }
}

/// Whether an instruction is undefined does not depend on the operation counter.
pub proof fn lemma_undefined_ignores_counter(op: Opcode, s: MachineState, c: u64)
    requires
        s.ip < usize::MAX,
    ensures
        op_undefined(op, s.with_counter(c)) == op_undefined(op, s),
{
    lemma_run_op_ip(op, s);
    lemma_run_op_ip(op, s.with_counter(c));
}

/// The result of a binary signed operation on `a` (popped first) and `b` (popped second).
pub(crate) fn apply_binary(op: &Opcode, a: i32, b: i32) -> (v: i32)
    requires
        is_binary(*op),
        !binary_undefined(*op, a, b),
    ensures
        v == binary_result(*op, a, b),
{
    match op {
        Opcode::I32Xor => {
            let r = a ^ b;
            assert(r == binary_result(*op, a, b));
            r
        },
        Opcode::I32And => if a != 0 && b != 0 { 1 } else { 0 },
        Opcode::I32Or => if a != 0 || b != 0 { 1 } else { 0 },
        Opcode::I32Add => a.wrapping_add(b),
        Opcode::I32Sub => b.wrapping_sub(a),
        Opcode::I32Mul => a.wrapping_mul(b),
        Opcode::I32Div => {
            if b == i32::MIN && a == -1 {
                i32::MIN
            } else {
                let aa: i64 = if a < 0 { -(a as i64) } else { a as i64 };
                let ab: i64 = if b < 0 { -(b as i64) } else { b as i64 };
                let q: i64 = ab / aa;
                assert(0 <= q <= ab) by (nonlinear_arith)
                    requires aa > 0, ab >= 0, q == ab / aa;
                if (b >= 0) == (a > 0) || b == 0 { q as i32 } else { (-q) as i32 }
            }
        },
        Opcode::I32Mod => {
            let aa: i64 = if a < 0 { -(a as i64) } else { a as i64 };
            let ab: i64 = if b < 0 { -(b as i64) } else { b as i64 };
            let m: i64 = ab % aa;
            assert(0 <= m < aa) by (nonlinear_arith)
                requires aa > 0, ab >= 0, m == ab % aa;
            if b >= 0 { m as i32 } else { (-m) as i32 }
        },
        Opcode::I32Shl => {
            let r = b << (a as u32);
            assert(r == binary_result(*op, a, b));
            r
        },
        Opcode::I32Shr => {
            let r = b >> (a as u32);
            assert(r == binary_result(*op, a, b));
            r
        },
        Opcode::I32Lt => if b < a { 1 } else { 0 },
        Opcode::I32Le => if b <= a { 1 } else { 0 },
        Opcode::I32Gt => if b > a { 1 } else { 0 },
        Opcode::I32Ge => if b >= a { 1 } else { 0 },
        _ => if a == b { 1 } else { 0 },
    }
}

} // verus!
