//! The machine's instruction set.
use vstd::prelude::*;
use crate::host::{render_bits, rendered, renderer_is_function};
use crate::text::{push_signed_decimal, push_str, signed_decimal};

verus! {

/// One instruction of the machine.
///
/// Unless a comment says otherwise, `a` is the value popped first (the top of the stack) and `b`
/// the value popped second; binary operations push their result.
/// A 32-bit float is held as its IEEE-754 bit pattern.
#[derive(Debug, PartialEq)]
pub enum Instruction<N> {
    /// Pops an address from the stack, reads one byte from the current memory lane, and pushes it
    Read,
    /// Pops an address from the stack, then pops a value and writes its low byte there
    Write,
    /// Pops a lane index from the stack and switches to that memory lane
    SwitchMemoryLane,
    /// Pushes the size of the current memory lane
    SizeOfMemoryLane,
    Noop,
    Pop,
    Pop32bits,
    Dup,
    /// Pops n from the stack and duplicates the top n stack values
    DupN,
    /// Pops n, then direction (0 = left, 1 = right), and rotates the top n stack values once
    Swap,
    I32Xor,
    /// Pops the top two values and pushes 1 if both are non-zero, otherwise 0
    I32And,
    /// Pops the top two values and pushes 1 if either is non-zero, otherwise 0
    I32Or,
    I32Zero,
    I32Push(i32),
    /// Pops n (1 to 8) and pushes a copy of the n-th value from the top
    I32PickN,
    I32Add,
    I32Sub,
    I32Mul,
    I32Div,
    I32Mod,
    I32Shl,
    I32Shr,
    I32Lt,
    I32Le,
    I32Eq,
    I32Gt,
    I32Ge,
    /// Pops a delta from the stack and jumps to that opcode if the next stack value is non-zero
    JumpIfTrue,
    I32Not,
    I32ToF32,
    /// Pushes a float given by its bit pattern
    F32Push(u32),
    F32Add,
    F32Sub,
    F32Mul,
    F32Div,
    /// Compares the bit patterns of the top two values, like `I32Eq`
    F32Eq,
    F32Gt,
    F32Ge,
    F32ToI32,
    Print,
    /// Pops n from the stack, prints the top n values as bytes, and removes them
    PrintN,
    /// Pops a delta from the stack and jumps to that opcode unconditionally
    Jump,
    OperationCounter,
    Halt,
    /// Calls the host function registered under the given name
    CallExternal(N),
}

/// An instruction as the machine runs it.
pub type Opcode = Instruction<String>;

/// An instruction as a mathematical value: the function name is a sequence of characters.
pub type OpcodeSpec = Instruction<Seq<char>>;


impl View for Instruction<String> {
    type V = Instruction<Seq<char>>;

    open spec fn view(&self) -> Instruction<Seq<char>> {
        match self {
            Instruction::Read => Instruction::Read,
            Instruction::Write => Instruction::Write,
            Instruction::SwitchMemoryLane => Instruction::SwitchMemoryLane,
            Instruction::SizeOfMemoryLane => Instruction::SizeOfMemoryLane,
            Instruction::Noop => Instruction::Noop,
            Instruction::Pop => Instruction::Pop,
            Instruction::Pop32bits => Instruction::Pop32bits,
            Instruction::Dup => Instruction::Dup,
            Instruction::DupN => Instruction::DupN,
            Instruction::Swap => Instruction::Swap,
            Instruction::I32Xor => Instruction::I32Xor,
            Instruction::I32And => Instruction::I32And,
            Instruction::I32Or => Instruction::I32Or,
            Instruction::I32Zero => Instruction::I32Zero,
            Instruction::I32Push(v) => Instruction::I32Push(*v),
            Instruction::I32PickN => Instruction::I32PickN,
            Instruction::I32Add => Instruction::I32Add,
            Instruction::I32Sub => Instruction::I32Sub,
            Instruction::I32Mul => Instruction::I32Mul,
            Instruction::I32Div => Instruction::I32Div,
            Instruction::I32Mod => Instruction::I32Mod,
            Instruction::I32Shl => Instruction::I32Shl,
            Instruction::I32Shr => Instruction::I32Shr,
            Instruction::I32Lt => Instruction::I32Lt,
            Instruction::I32Le => Instruction::I32Le,
            Instruction::I32Eq => Instruction::I32Eq,
            Instruction::I32Gt => Instruction::I32Gt,
            Instruction::I32Ge => Instruction::I32Ge,
            Instruction::JumpIfTrue => Instruction::JumpIfTrue,
            Instruction::I32Not => Instruction::I32Not,
            Instruction::I32ToF32 => Instruction::I32ToF32,
            Instruction::F32Push(v) => Instruction::F32Push(*v),
            Instruction::F32Add => Instruction::F32Add,
            Instruction::F32Sub => Instruction::F32Sub,
            Instruction::F32Mul => Instruction::F32Mul,
            Instruction::F32Div => Instruction::F32Div,
            Instruction::F32Eq => Instruction::F32Eq,
            Instruction::F32Gt => Instruction::F32Gt,
            Instruction::F32Ge => Instruction::F32Ge,
            Instruction::F32ToI32 => Instruction::F32ToI32,
            Instruction::Print => Instruction::Print,
            Instruction::PrintN => Instruction::PrintN,
            Instruction::Jump => Instruction::Jump,
            Instruction::OperationCounter => Instruction::OperationCounter,
            Instruction::Halt => Instruction::Halt,
            Instruction::CallExternal(n) => Instruction::CallExternal(n@),
        }
    }
}

impl Instruction<String> {
    /// A copy of the instruction.
    pub fn copy(&self) -> (r: Opcode)
        ensures
            r == *self,
    {
        match self {
            Instruction::Read => Instruction::Read,
            Instruction::Write => Instruction::Write,
            Instruction::SwitchMemoryLane => Instruction::SwitchMemoryLane,
            Instruction::SizeOfMemoryLane => Instruction::SizeOfMemoryLane,
            Instruction::Noop => Instruction::Noop,
            Instruction::Pop => Instruction::Pop,
            Instruction::Pop32bits => Instruction::Pop32bits,
            Instruction::Dup => Instruction::Dup,
            Instruction::DupN => Instruction::DupN,
            Instruction::Swap => Instruction::Swap,
            Instruction::I32Xor => Instruction::I32Xor,
            Instruction::I32And => Instruction::I32And,
            Instruction::I32Or => Instruction::I32Or,
            Instruction::I32Zero => Instruction::I32Zero,
            Instruction::I32Push(v) => Instruction::I32Push(*v),
            Instruction::I32PickN => Instruction::I32PickN,
            Instruction::I32Add => Instruction::I32Add,
            Instruction::I32Sub => Instruction::I32Sub,
            Instruction::I32Mul => Instruction::I32Mul,
            Instruction::I32Div => Instruction::I32Div,
            Instruction::I32Mod => Instruction::I32Mod,
            Instruction::I32Shl => Instruction::I32Shl,
            Instruction::I32Shr => Instruction::I32Shr,
            Instruction::I32Lt => Instruction::I32Lt,
            Instruction::I32Le => Instruction::I32Le,
            Instruction::I32Eq => Instruction::I32Eq,
            Instruction::I32Gt => Instruction::I32Gt,
            Instruction::I32Ge => Instruction::I32Ge,
            Instruction::JumpIfTrue => Instruction::JumpIfTrue,
            Instruction::I32Not => Instruction::I32Not,
            Instruction::I32ToF32 => Instruction::I32ToF32,
            Instruction::F32Push(v) => Instruction::F32Push(*v),
            Instruction::F32Add => Instruction::F32Add,
            Instruction::F32Sub => Instruction::F32Sub,
            Instruction::F32Mul => Instruction::F32Mul,
            Instruction::F32Div => Instruction::F32Div,
            Instruction::F32Eq => Instruction::F32Eq,
            Instruction::F32Gt => Instruction::F32Gt,
            Instruction::F32Ge => Instruction::F32Ge,
            Instruction::F32ToI32 => Instruction::F32ToI32,
            Instruction::Print => Instruction::Print,
            Instruction::PrintN => Instruction::PrintN,
            Instruction::Jump => Instruction::Jump,
            Instruction::OperationCounter => Instruction::OperationCounter,
            Instruction::Halt => Instruction::Halt,
            Instruction::CallExternal(name) => Instruction::CallExternal(name.clone()),
        }
    }
}

impl Clone for Instruction<String> {
    fn clone(&self) -> (r: Opcode)
        ensures
            r == *self,
    {
        self.copy()
    }
}


/// The instruction a mnemonic without argument names, if it names one.
pub open spec fn simple_instruction(m: Seq<char>) -> Option<OpcodeSpec> {
    if m == "Read"@ {
        Some(Instruction::Read)
    } else if m == "Write"@ {
        Some(Instruction::Write)
    } else if m == "SwitchMemoryLane"@ {
        Some(Instruction::SwitchMemoryLane)
    } else if m == "SizeOfMemoryLane"@ {
        Some(Instruction::SizeOfMemoryLane)
    } else if m == "Noop"@ {
        Some(Instruction::Noop)
    } else if m == "Pop"@ {
        Some(Instruction::Pop)
    } else if m == "Pop32bits"@ {
        Some(Instruction::Pop32bits)
    } else if m == "Dup"@ {
        Some(Instruction::Dup)
    } else if m == "DupN"@ {
        Some(Instruction::DupN)
    } else if m == "Swap"@ {
        Some(Instruction::Swap)
    } else if m == "i32.XOR"@ {
        Some(Instruction::I32Xor)
    } else if m == "i32.AND"@ {
        Some(Instruction::I32And)
    } else if m == "i32.OR"@ {
        Some(Instruction::I32Or)
    } else if m == "i32.ZERO"@ {
        Some(Instruction::I32Zero)
    } else if m == "i32.PickN"@ {
        Some(Instruction::I32PickN)
    } else if m == "i32.ADD"@ {
        Some(Instruction::I32Add)
    } else if m == "i32.SUB"@ {
        Some(Instruction::I32Sub)
    } else if m == "i32.MUL"@ {
        Some(Instruction::I32Mul)
    } else if m == "i32.DIV"@ {
        Some(Instruction::I32Div)
    } else if m == "i32.MOD"@ {
        Some(Instruction::I32Mod)
    } else if m == "i32.SHL"@ {
        Some(Instruction::I32Shl)
    } else if m == "i32.SHR"@ {
        Some(Instruction::I32Shr)
    } else if m == "i32.LT"@ {
        Some(Instruction::I32Lt)
    } else if m == "i32.LE"@ {
        Some(Instruction::I32Le)
    } else if m == "i32.EQ"@ {
        Some(Instruction::I32Eq)
    } else if m == "i32.GT"@ {
        Some(Instruction::I32Gt)
    } else if m == "i32.GE"@ {
        Some(Instruction::I32Ge)
    } else if m == "JumpIfTrue"@ {
        Some(Instruction::JumpIfTrue)
    } else if m == "i32.NOT"@ {
        Some(Instruction::I32Not)
    } else if m == "i32.TO.f32"@ {
        Some(Instruction::I32ToF32)
    } else if m == "f32.ADD"@ {
        Some(Instruction::F32Add)
    } else if m == "f32.SUB"@ {
        Some(Instruction::F32Sub)
    } else if m == "f32.MUL"@ {
        Some(Instruction::F32Mul)
    } else if m == "f32.DIV"@ {
        Some(Instruction::F32Div)
    } else if m == "f32.EQ"@ {
        Some(Instruction::F32Eq)
    } else if m == "f32.GT"@ {
        Some(Instruction::F32Gt)
    } else if m == "f32.GE"@ {
        Some(Instruction::F32Ge)
    } else if m == "f32.TO.i32"@ {
        Some(Instruction::F32ToI32)
    } else if m == "Print"@ {
        Some(Instruction::Print)
    } else if m == "PrintN"@ {
        Some(Instruction::PrintN)
    } else if m == "Jump"@ {
        Some(Instruction::Jump)
    } else if m == "OperationCounter"@ {
        Some(Instruction::OperationCounter)
    } else if m == "Halt"@ {
        Some(Instruction::Halt)
    } else {
        None
    }
}

/// The mnemonic of an instruction.
pub open spec fn mnemonic<N>(op: Instruction<N>) -> Seq<char> {
    match op {
        Instruction::Read => "Read"@,
        Instruction::Write => "Write"@,
        Instruction::SwitchMemoryLane => "SwitchMemoryLane"@,
        Instruction::SizeOfMemoryLane => "SizeOfMemoryLane"@,
        Instruction::Noop => "Noop"@,
        Instruction::Pop => "Pop"@,
        Instruction::Pop32bits => "Pop32bits"@,
        Instruction::Dup => "Dup"@,
        Instruction::DupN => "DupN"@,
        Instruction::Swap => "Swap"@,
        Instruction::I32Xor => "i32.XOR"@,
        Instruction::I32And => "i32.AND"@,
        Instruction::I32Or => "i32.OR"@,
        Instruction::I32Zero => "i32.ZERO"@,
        Instruction::I32PickN => "i32.PickN"@,
        Instruction::I32Add => "i32.ADD"@,
        Instruction::I32Sub => "i32.SUB"@,
        Instruction::I32Mul => "i32.MUL"@,
        Instruction::I32Div => "i32.DIV"@,
        Instruction::I32Mod => "i32.MOD"@,
        Instruction::I32Shl => "i32.SHL"@,
        Instruction::I32Shr => "i32.SHR"@,
        Instruction::I32Lt => "i32.LT"@,
        Instruction::I32Le => "i32.LE"@,
        Instruction::I32Eq => "i32.EQ"@,
        Instruction::I32Gt => "i32.GT"@,
        Instruction::I32Ge => "i32.GE"@,
        Instruction::JumpIfTrue => "JumpIfTrue"@,
        Instruction::I32Not => "i32.NOT"@,
        Instruction::I32ToF32 => "i32.TO.f32"@,
        Instruction::F32Add => "f32.ADD"@,
        Instruction::F32Sub => "f32.SUB"@,
        Instruction::F32Mul => "f32.MUL"@,
        Instruction::F32Div => "f32.DIV"@,
        Instruction::F32Eq => "f32.EQ"@,
        Instruction::F32Gt => "f32.GT"@,
        Instruction::F32Ge => "f32.GE"@,
        Instruction::F32ToI32 => "f32.TO.i32"@,
        Instruction::Print => "Print"@,
        Instruction::PrintN => "PrintN"@,
        Instruction::Jump => "Jump"@,
        Instruction::OperationCounter => "OperationCounter"@,
        Instruction::Halt => "Halt"@,
        Instruction::I32Push(_) => "i32.PUSH"@,
        Instruction::F32Push(_) => "f32.PUSH"@,
        Instruction::CallExternal(_) => "CallExternal"@,
    }
}

/// Whether the characters of `m` are those of `lit`.
pub fn word_is(m: &String, lit: &str) -> (b: bool)
    ensures
        b == (m@ == lit@),
{
    let l = lit.to_string();
    *m == l
}

/// The instruction a mnemonic without argument names, if it names one.
pub fn simple_instruction_of(m: &String) -> (r: Option<Opcode>)
    ensures
        match simple_instruction(m@) {
            None => r is None,
            Some(op) => r matches Some(o) && o@ == op,
        },
{
    if word_is(m, "Read") {
        Some(Instruction::Read)
    } else if word_is(m, "Write") {
        Some(Instruction::Write)
    } else if word_is(m, "SwitchMemoryLane") {
        Some(Instruction::SwitchMemoryLane)
    } else if word_is(m, "SizeOfMemoryLane") {
        Some(Instruction::SizeOfMemoryLane)
    } else if word_is(m, "Noop") {
        Some(Instruction::Noop)
    } else if word_is(m, "Pop") {
        Some(Instruction::Pop)
    } else if word_is(m, "Pop32bits") {
        Some(Instruction::Pop32bits)
    } else if word_is(m, "Dup") {
        Some(Instruction::Dup)
    } else if word_is(m, "DupN") {
        Some(Instruction::DupN)
    } else if word_is(m, "Swap") {
        Some(Instruction::Swap)
    } else if word_is(m, "i32.XOR") {
        Some(Instruction::I32Xor)
    } else if word_is(m, "i32.AND") {
        Some(Instruction::I32And)
    } else if word_is(m, "i32.OR") {
        Some(Instruction::I32Or)
    } else if word_is(m, "i32.ZERO") {
        Some(Instruction::I32Zero)
    } else if word_is(m, "i32.PickN") {
        Some(Instruction::I32PickN)
    } else if word_is(m, "i32.ADD") {
        Some(Instruction::I32Add)
    } else if word_is(m, "i32.SUB") {
        Some(Instruction::I32Sub)
    } else if word_is(m, "i32.MUL") {
        Some(Instruction::I32Mul)
    } else if word_is(m, "i32.DIV") {
        Some(Instruction::I32Div)
    } else if word_is(m, "i32.MOD") {
        Some(Instruction::I32Mod)
    } else if word_is(m, "i32.SHL") {
        Some(Instruction::I32Shl)
    } else if word_is(m, "i32.SHR") {
        Some(Instruction::I32Shr)
    } else if word_is(m, "i32.LT") {
        Some(Instruction::I32Lt)
    } else if word_is(m, "i32.LE") {
        Some(Instruction::I32Le)
    } else if word_is(m, "i32.EQ") {
        Some(Instruction::I32Eq)
    } else if word_is(m, "i32.GT") {
        Some(Instruction::I32Gt)
    } else if word_is(m, "i32.GE") {
        Some(Instruction::I32Ge)
    } else if word_is(m, "JumpIfTrue") {
        Some(Instruction::JumpIfTrue)
    } else if word_is(m, "i32.NOT") {
        Some(Instruction::I32Not)
    } else if word_is(m, "i32.TO.f32") {
        Some(Instruction::I32ToF32)
    } else if word_is(m, "f32.ADD") {
        Some(Instruction::F32Add)
    } else if word_is(m, "f32.SUB") {
        Some(Instruction::F32Sub)
    } else if word_is(m, "f32.MUL") {
        Some(Instruction::F32Mul)
    } else if word_is(m, "f32.DIV") {
        Some(Instruction::F32Div)
    } else if word_is(m, "f32.EQ") {
        Some(Instruction::F32Eq)
    } else if word_is(m, "f32.GT") {
        Some(Instruction::F32Gt)
    } else if word_is(m, "f32.GE") {
        Some(Instruction::F32Ge)
    } else if word_is(m, "f32.TO.i32") {
        Some(Instruction::F32ToI32)
    } else if word_is(m, "Print") {
        Some(Instruction::Print)
    } else if word_is(m, "PrintN") {
        Some(Instruction::PrintN)
    } else if word_is(m, "Jump") {
        Some(Instruction::Jump)
    } else if word_is(m, "OperationCounter") {
        Some(Instruction::OperationCounter)
    } else if word_is(m, "Halt") {
        Some(Instruction::Halt)
    } else {
        None
    }
}

/// The mnemonic of an instruction.
pub fn mnemonic_of(op: &Opcode) -> (t: &'static str)
    ensures
        t@ == mnemonic(*op),
{
    match op {
        Instruction::Read => "Read",
        Instruction::Write => "Write",
        Instruction::SwitchMemoryLane => "SwitchMemoryLane",
        Instruction::SizeOfMemoryLane => "SizeOfMemoryLane",
        Instruction::Noop => "Noop",
        Instruction::Pop => "Pop",
        Instruction::Pop32bits => "Pop32bits",
        Instruction::Dup => "Dup",
        Instruction::DupN => "DupN",
        Instruction::Swap => "Swap",
        Instruction::I32Xor => "i32.XOR",
        Instruction::I32And => "i32.AND",
        Instruction::I32Or => "i32.OR",
        Instruction::I32Zero => "i32.ZERO",
        Instruction::I32PickN => "i32.PickN",
        Instruction::I32Add => "i32.ADD",
        Instruction::I32Sub => "i32.SUB",
        Instruction::I32Mul => "i32.MUL",
        Instruction::I32Div => "i32.DIV",
        Instruction::I32Mod => "i32.MOD",
        Instruction::I32Shl => "i32.SHL",
        Instruction::I32Shr => "i32.SHR",
        Instruction::I32Lt => "i32.LT",
        Instruction::I32Le => "i32.LE",
        Instruction::I32Eq => "i32.EQ",
        Instruction::I32Gt => "i32.GT",
        Instruction::I32Ge => "i32.GE",
        Instruction::JumpIfTrue => "JumpIfTrue",
        Instruction::I32Not => "i32.NOT",
        Instruction::I32ToF32 => "i32.TO.f32",
        Instruction::F32Add => "f32.ADD",
        Instruction::F32Sub => "f32.SUB",
        Instruction::F32Mul => "f32.MUL",
        Instruction::F32Div => "f32.DIV",
        Instruction::F32Eq => "f32.EQ",
        Instruction::F32Gt => "f32.GT",
        Instruction::F32Ge => "f32.GE",
        Instruction::F32ToI32 => "f32.TO.i32",
        Instruction::Print => "Print",
        Instruction::PrintN => "PrintN",
        Instruction::Jump => "Jump",
        Instruction::OperationCounter => "OperationCounter",
        Instruction::Halt => "Halt",
        Instruction::I32Push(_) => "i32.PUSH",
        Instruction::F32Push(_) => "f32.PUSH",
        Instruction::CallExternal(_) => "CallExternal",
    }
}

/// The text of an instruction: its mnemonic, and its argument after a space; a float is
/// written by `render`.
pub open spec fn opcode_text<R: Fn(u32) -> String>(op: OpcodeSpec, render: R) -> Seq<char> {
    match op {
        Instruction::I32Push(v) => "i32.PUSH "@ + signed_decimal(v as int),
        Instruction::F32Push(b) => "f32.PUSH "@ + rendered(render, b),
        Instruction::CallExternal(n) => "CallExternal "@ + n,
        _ => mnemonic(op),
    }
}

impl Instruction<String> {
    /// The text of the instruction; `render` writes float literals.
    pub fn to_text<R: Fn(u32) -> String>(&self, render: &R) -> (t: String)
        requires
            renderer_is_function(*render),
        ensures
            t@ == opcode_text(self@, *render),
    {
        match self {
            Instruction::I32Push(v) => {
                let mut t = String::from_str("i32.PUSH ");
                push_signed_decimal(&mut t, *v as i64);
                proof { reveal_strlit("i32.PUSH "); }
                t
            },
            Instruction::F32Push(b) => {
                let mut t = String::from_str("f32.PUSH ");
                let r = render_bits(render, *b);
                push_str(&mut t, r.as_str());
                t
            },
            Instruction::CallExternal(n) => {
                let mut t = String::from_str("CallExternal ");
                push_str(&mut t, n.as_str());
                t
            },
            _ => String::from_str(mnemonic_of(self)),
        }
    }
}

} // verus!
