//! A program being run: its instructions, instruction pointer, current lane and visit counts.
use vstd::prelude::*;
use crate::opcode::Opcode;

verus! {

/// The execution state of a program that does not live in the machine.
pub struct Program<'a> {
    opcodes: &'a [Opcode],
    ip_counter: usize,
    current_memory_lane: u8,
    line_metrics: Vec<u64>,
}

impl<'a> Program<'a> {
    /// The instructions.
    pub closed spec fn code(&self) -> Seq<Opcode> {
        self.opcodes@
    }

    /// The instruction pointer.
    pub closed spec fn ip(&self) -> usize {
        self.ip_counter
    }

    /// The index of the memory lane that reads and writes go to.
    pub closed spec fn lane(&self) -> u8 {
        self.current_memory_lane
    }

    /// How many times each instruction has been stepped onto, by position.
    pub closed spec fn visits(&self) -> Seq<u64> {
        self.line_metrics@
    }

    /// There is one visit count per instruction.
    pub closed spec fn well_formed(&self) -> bool {
        self.line_metrics@.len() == self.opcodes@.len()
    }

    /// A well-formed program has one visit count per instruction.
    pub proof fn lemma_visits_len(&self)
        requires
            self.well_formed(),
        ensures
            self.visits().len() == self.code().len(),
    {
    }

    /// A program at its first instruction, on lane 0, with no visits counted.
    pub fn new(opcodes: &'a [Opcode]) -> (p: Program<'a>)
        ensures
            p.well_formed(),
            p.code() == opcodes@,
            p.ip() == 0,
            p.lane() == 0,
            p.visits() == Seq::new(opcodes@.len(), |i: int| 0u64),
    {
        let mut line_metrics: Vec<u64> = Vec::with_capacity(opcodes.len());
        let mut i: usize = 0;
        while i < opcodes.len()
            invariant
                i <= opcodes@.len(),
                line_metrics@ == Seq::new(i as nat, |k: int| 0u64),
            decreases opcodes@.len() - i,
        {
            line_metrics.push(0);
            i += 1;
            assert(line_metrics@ =~= Seq::new(i as nat, |k: int| 0u64));
        }
        Program { opcodes, ip_counter: 0, current_memory_lane: 0, line_metrics }
    }

    /// Whether the instruction pointer has left the program.
    pub fn is_outside_program(&self) -> (b: bool)
        ensures
            b == (self.ip() >= self.code().len()),
    {
        self.ip_counter >= self.opcodes.len()
    }

    /// The visit counts, by instruction position.
    pub fn get_line_metrics(&self) -> (m: &[u64])
        ensures
            m@ == self.visits(),
    {
        self.line_metrics.as_slice()
    }

    /// The instruction pointer.
    pub fn get_ip_counter(&self) -> (ip: usize)
        ensures
            ip == self.ip(),
    {
        self.ip_counter
    }

    /// The instructions.
    pub fn opcodes(&self) -> (s: &'a [Opcode])
        ensures
            s@ == self.code(),
    {
        self.opcodes
    }

    /// The instruction under the instruction pointer, if it is inside the program.
    pub fn get_current_opcode(&self) -> (o: Option<&'a Opcode>)
        ensures
            o is Some <==> self.ip() < self.code().len(),
            o matches Some(op) ==> *op == self.code()[self.ip() as int],
    {
        if self.ip_counter < self.opcodes.len() {
            Some(&self.opcodes[self.ip_counter])
        } else {
            None
        }
    }

    /// The index of the current memory lane.
    pub fn current_memory_lane(&self) -> (l: u8)
        ensures
            l == self.lane(),
    {
        self.current_memory_lane
    }

    /// Moves the instruction pointer to `ip`.
    pub fn set_ip(&mut self, ip: usize)
        ensures
            final(self).ip() == ip,
            final(self).code() == old(self).code(),
            final(self).lane() == old(self).lane(),
            final(self).visits() == old(self).visits(),
            old(self).well_formed() ==> final(self).well_formed(),
    {
        self.ip_counter = ip;
    }

    /// Switches to memory lane `lane`.
    pub fn set_lane(&mut self, lane: u8)
        ensures
            final(self).lane() == lane,
            final(self).code() == old(self).code(),
            final(self).ip() == old(self).ip(),
            final(self).visits() == old(self).visits(),
            old(self).well_formed() ==> final(self).well_formed(),
    {
        self.current_memory_lane = lane;
    }

    /// Counts one more visit of the instruction under the instruction pointer.
    pub fn count_visit(&mut self)
        requires
            old(self).well_formed(),
            old(self).ip() < old(self).code().len(),
            old(self).visits()[old(self).ip() as int] < u64::MAX,
        ensures
            final(self).well_formed(),
            final(self).code() == old(self).code(),
            final(self).ip() == old(self).ip(),
            final(self).lane() == old(self).lane(),
            final(self).visits() == old(self).visits().update(
                old(self).ip() as int,
                (old(self).visits()[old(self).ip() as int] + 1) as u64,
            ),
    {
        let ip = self.ip_counter;
        let v = self.line_metrics[ip];
        self.line_metrics.set(ip, v + 1);
    }
}

} // verus!
