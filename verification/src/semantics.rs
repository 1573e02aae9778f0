//! The meaning of each instruction, as a function from machine state to machine state.
use vstd::prelude::*;
use crate::bytes::{i32_from_le, i32_le_bytes, lemma_i32_round_trip, lemma_u32_round_trip, u32_from_le, u32_le_bytes};
use crate::opcode::Opcode;
use crate::stack::{overflow_message, underflow_message, misaligned_message, swap_count_message, rotate_word_left};
use crate::memory_lane::read_out_of_bounds_message;

verus! {

/// A floating-point computation the machine hands to its host, with its operands as bit patterns.
///
/// `x` is the first operand and `y` the second: `Sub(x, y)` asks for `x - y`.
/// Comparisons answer 1 or 0; `ToI32` answers the bits of the rounded signed value.
#[derive(Debug, PartialEq, Eq, Structural, Clone, Copy)]
pub enum FloatOp {
    Add(u32, u32),
    Sub(u32, u32),
    Mul(u32, u32),
    Div(u32, u32),
    Gt(u32, u32),
    Ge(u32, u32),
    FromI32(i32),
    ToI32(u32),
}

/// What a step asks of the host, as a mathematical value.
pub enum Effect {
    /// Nothing: go on with the next step.
    Continue,
    /// The program halted with this exit code.
    Halt(i32),
    /// These bytes are to be printed, each as the character with that code.
    Output(Seq<u8>),
    /// The named host function is to be called; the instruction pointer still points at the call.
    CallExternal(Seq<char>),
    /// The float computation is to be done and its result handed back.
    Float(FloatOp),
}

/// The state of a memory lane.
#[verifier::ext_equal]
pub struct LaneState {
    pub data: Seq<u8>,
    pub writable: bool,
}

/// The whole state an instruction can read or change.
#[verifier::ext_equal]
pub struct MachineState {
    pub stack: Seq<u8>,
    pub capacity: nat,
    pub lanes: Seq<LaneState>,
    pub ip: nat,
    pub lane: u8,
    pub counter: u64,
    /// The names of the host functions the machine can call.
    pub hosted: Seq<Seq<char>>,
}

/// The outcome of one instruction: the state after it, and what it asks of the host or why it failed.
pub type Outcome = (MachineState, Result<Effect, Seq<char>>);

pub open spec fn lane_message() -> Seq<char> {
    "Invalid memory lane"@
}

pub open spec fn non_negative_message(context: Seq<char>) -> Seq<char> {
    context + " must be non-negative"@
}

pub open spec fn lane_index_message() -> Seq<char> {
    "Memory lane index must fit into u8"@
}

pub open spec fn lane_size_message() -> Seq<char> {
    "Memory lane size exceeds i32 range"@
}

pub open spec fn dup_count_message() -> Seq<char> {
    "DupN requires n >= 1"@
}

pub open spec fn swap_direction_message() -> Seq<char> {
    "Swap direction must be 0 (left) or 1 (right)"@
}

pub open spec fn pick_range_message() -> Seq<char> {
    "i32.PickN requires n between 1 and 8"@
}

pub open spec fn read_only_message() -> Seq<char> {
    "Cannot write to read-only memory lane"@
}

pub open spec fn counter_message() -> Seq<char> {
    "Operation counter exceeds i32 range"@
}

pub open spec fn jump_overflow_message() -> Seq<char> {
    "Jump delta overflow"@
}

pub open spec fn missing_external_message(name: Seq<char>) -> Seq<char> {
    "Could not get the external function by name: '"@ + name + "'"@
}

pub open spec fn ip_message() -> Seq<char> {
    "Instruction pointer out of bounds"@
}

/// The top four bytes of `s` as a signed value.
pub open spec fn top_i32(s: Seq<u8>) -> i32 {
    i32_from_le(s.subrange(s.len() - 4, s.len() as int))
}

/// The top four bytes of `s` as a word.
pub open spec fn top_u32(s: Seq<u8>) -> u32 {
    u32_from_le(s.subrange(s.len() - 4, s.len() as int))
}

/// Reading the top of a stack gives back the word just pushed, and dropping it gives back
/// the stack as it was.
pub proof fn lemma_top_of_push(st: Seq<u8>, v: u32)
    ensures
        top_u32(st + u32_le_bytes(v)) == v,
        top_i32(st + u32_le_bytes(v)) == v as i32,
        drop_word(st + u32_le_bytes(v)) == st,
{
    lemma_u32_round_trip(v);
    let t = st + u32_le_bytes(v);
    assert(t.subrange(t.len() - 4, t.len() as int) =~= u32_le_bytes(v));
    assert(drop_word(t) =~= st);
}

/// `s` without its top four bytes.
pub open spec fn drop_word(s: Seq<u8>) -> Seq<u8> {
    s.subrange(0, s.len() - 4)
}

/// The `i`-th four-byte word of `s`, from the bottom.
pub open spec fn word_at(s: Seq<u8>, i: int) -> i32 {
    i32_from_le(s.subrange(4 * i, 4 * i + 4))
}

impl MachineState {
    pub open spec fn with_stack(self, stack: Seq<u8>) -> MachineState {
        MachineState { stack, ..self }
    }

    pub open spec fn with_ip(self, ip: nat) -> MachineState {
        MachineState { ip, ..self }
    }

    pub open spec fn with_counter(self, counter: u64) -> MachineState {
        MachineState { counter, ..self }
    }

    pub open spec fn next(self) -> MachineState {
        MachineState { ip: self.ip + 1, ..self }
    }
}

/// Pushes `v` and moves to the next instruction.
pub open spec fn push_and_continue(s: MachineState, v: u32) -> Outcome {
    if s.stack.len() + 4 <= s.capacity {
        (s.with_stack(s.stack + u32_le_bytes(v)).next(), Ok(Effect::Continue))
    } else {
        (s, Err(overflow_message(s.capacity, s.stack.len() + 4)))
    }
}

/// The result of a binary signed operation on `a` (popped first) and `b` (popped second).
pub open spec fn binary_result(op: Opcode, a: i32, b: i32) -> i32 {
    match op {
        Opcode::I32Xor => a ^ b,
        Opcode::I32And => if a != 0 && b != 0 { 1 } else { 0 },
        Opcode::I32Or => if a != 0 || b != 0 { 1 } else { 0 },
        Opcode::I32Add => vstd::wrapping::i32_specs::wrapping_add(a, b),
        Opcode::I32Sub => vstd::wrapping::i32_specs::wrapping_sub(b, a),
        Opcode::I32Mul => vstd::wrapping::i32_specs::wrapping_mul(a, b),
        Opcode::I32Div => if b == i32::MIN && a == -1 { i32::MIN } else { trunc_div(b as int, a as int) as i32 },
        Opcode::I32Mod => trunc_rem(b as int, a as int) as i32,
        Opcode::I32Shl => b << (a as u32),
        Opcode::I32Shr => b >> (a as u32),
        Opcode::I32Lt => if b < a { 1 } else { 0 },
        Opcode::I32Le => if b <= a { 1 } else { 0 },
        Opcode::I32Gt => if b > a { 1 } else { 0 },
        Opcode::I32Ge => if b >= a { 1 } else { 0 },
        _ => if a == b { 1 } else { 0 },
    }
}

/// Whether the operation pops two signed values and pushes `binary_result`.
pub open spec fn is_binary(op: Opcode) -> bool {
    op is I32Xor || op is I32And || op is I32Or || op is I32Add || op is I32Sub || op is I32Mul
        || op is I32Div || op is I32Mod || op is I32Shl || op is I32Shr || op is I32Lt || op is I32Le
        || op is I32Eq || op is I32Gt || op is I32Ge || op is F32Eq
}

/// Whether a binary operation has no defined result on these operands (the machine must not run it).
pub open spec fn binary_undefined(op: Opcode, a: i32, b: i32) -> bool {
    match op {
        Opcode::I32Div => a == 0,
        Opcode::I32Mod => a == 0 || (b == i32::MIN && a == -1),
        Opcode::I32Shl | Opcode::I32Shr => a < 0 || a >= 32,
        _ => false,
    }
}

/// Division rounding toward zero.
pub open spec fn trunc_div(b: int, a: int) -> int {
    if (b >= 0) == (a > 0) || b == 0 {
        abs(b) / abs(a)
    } else {
        -(abs(b) / abs(a))
    }
}

/// The remainder of division rounding toward zero; it has the sign of `b`.
pub open spec fn trunc_rem(b: int, a: int) -> int {
    if b >= 0 { abs(b) % abs(a) } else { -(abs(b) % abs(a)) }
}

pub open spec fn abs(x: int) -> int {
    if x < 0 { -x } else { x }
}

/// Pops two signed values and pushes the operation's result.
pub open spec fn run_binary(op: Opcode, s: MachineState) -> Outcome {
    if s.stack.len() < 4 {
        (s, Err(underflow_message()))
    } else {
        let a = top_i32(s.stack);
        let s1 = s.with_stack(drop_word(s.stack));
        if s1.stack.len() < 4 {
            (s1, Err(underflow_message()))
        } else {
            let b = top_i32(s1.stack);
            push_and_continue(s1.with_stack(drop_word(s1.stack)), binary_result(op, a, b) as u32)
        }
    }
}

/// Pops two float bit patterns and hands the computation to the host.
pub open spec fn run_float_binary(op: Opcode, s: MachineState) -> Outcome {
    if s.stack.len() < 4 {
        (s, Err(underflow_message()))
    } else {
        let a = top_u32(s.stack);
        let s1 = s.with_stack(drop_word(s.stack));
        if s1.stack.len() < 4 {
            (s1, Err(underflow_message()))
        } else {
            let b = top_u32(s1.stack);
            let s2 = s1.with_stack(drop_word(s1.stack));
            (s2, Ok(Effect::Float(float_op(op, a, b))))
        }
    }
}

/// The float computation of a binary float instruction on `a` (popped first) and `b`.
pub open spec fn float_op(op: Opcode, a: u32, b: u32) -> FloatOp {
    match op {
        Opcode::F32Add => FloatOp::Add(a, b),
        Opcode::F32Sub => FloatOp::Sub(b, a),
        Opcode::F32Mul => FloatOp::Mul(a, b),
        Opcode::F32Div => FloatOp::Div(b, a),
        Opcode::F32Gt => FloatOp::Gt(b, a),
        _ => FloatOp::Ge(b, a),
    }
}

/// Pops a signed value that must be non-negative.
pub open spec fn pop_count(s: MachineState, context: Seq<char>) -> Result<(MachineState, nat), (MachineState, Seq<char>)> {
    if s.stack.len() < 4 {
        Err((s, underflow_message()))
    } else {
        let v = top_i32(s.stack);
        let s1 = s.with_stack(drop_word(s.stack));
        if v < 0 {
            Err((s1, non_negative_message(context)))
        } else {
            Ok((s1, v as nat))
        }
    }
}

/// The instruction pointer after a relative jump by `delta` from `ip`, if it stays representable.
pub open spec fn jump_target(ip: nat, delta: i32) -> Result<nat, Seq<char>> {
    if delta as int + 1 > isize::MAX {
        Err(jump_overflow_message())
    } else if ip + delta + 1 < 0 || ip + delta + 1 > usize::MAX {
        Err(ip_message())
    } else {
        Ok((ip + delta + 1) as nat)
    }
}

/// `s` with its top `n` words (starting at byte `start`) rotated `k` times to the left.
pub open spec fn rotate_times(s: Seq<u8>, start: int, k: nat) -> Seq<u8>
    decreases k,
{
    if k == 0 { s } else { rotate_word_left(rotate_times(s, start, (k - 1) as nat), start) }
}

/// Rotating leaves the length unchanged.
pub proof fn lemma_rotate_times_len(s: Seq<u8>, start: int, k: nat)
    requires
        0 <= start,
        start + 4 <= s.len(),
    ensures
        rotate_times(s, start, k).len() == s.len(),
    decreases k,
{
    if k > 0 {
        lemma_rotate_times_len(s, start, (k - 1) as nat);
    }
}

/// Rotating the top words `k` times to the left moves the lowest `k` of them to the top.
proof fn lemma_rotate_times_shape(s: Seq<u8>, start: int, k: nat)
    requires
        0 <= start <= s.len(),
        (s.len() - start) % 4 == 0,
        start + 4 * k <= s.len(),
    ensures
        rotate_times(s, start, k) == s.subrange(0, start) + s.subrange(start + 4 * k, s.len() as int)
            + s.subrange(start, start + 4 * k),
    decreases k,
{
    if k == 0 {
        assert(s.subrange(0, start) + s.subrange(start, s.len() as int) + s.subrange(start, start) =~= s);
    } else {
        lemma_rotate_times_shape(s, start, (k - 1) as nat);
        let r = rotate_times(s, start, (k - 1) as nat);
        let m = start + 4 * (k - 1);
        assert(rotate_word_left(r, start) =~= s.subrange(0, start) + s.subrange(m + 4, s.len() as int)
            + s.subrange(start, m + 4));
    }
}

/// Rotating `n` words one place to the right undoes rotating them one place to the left:
/// a `Swap` to the right after a `Swap` to the left of the same `n` top values gives the
/// stack back.
pub proof fn lemma_swap_right_undoes_left(s: Seq<u8>, n: nat)
    requires
        n >= 1,
        4 * n <= s.len(),
    ensures
        rotate_times(rotate_word_left(s, s.len() - 4 * n), s.len() - 4 * n, (n - 1) as nat) == s,
{
    let start = s.len() - 4 * n;
    let once = rotate_word_left(s, start);
    assert(once == rotate_times(s, start, 1)) by {
        reveal_with_fuel(rotate_times, 2);
    }
    lemma_rotate_times_compose(s, start, 1, (n - 1) as nat);
    lemma_rotate_times_shape(s, start, n);
    assert(s.subrange(0, start) + s.subrange(start + 4 * n, s.len() as int) + s.subrange(start, start + 4 * n) =~= s);
}

/// Rotating `j` times after rotating `i` times is rotating `i + j` times.
proof fn lemma_rotate_times_compose(s: Seq<u8>, start: int, i: nat, j: nat)
    ensures
        rotate_times(rotate_times(s, start, i), start, j) == rotate_times(s, start, i + j),
    decreases j,
{
    if j > 0 {
        lemma_rotate_times_compose(s, start, i, (j - 1) as nat);
    }
}

/// Copies of the top `n` words pushed on top, as many as fit.
pub open spec fn dup_result(s: MachineState, n: nat) -> Outcome {
    let base = s.stack;
    let copy = base.subrange(base.len() - 4 * n, base.len() as int);
    let room = ((s.capacity - base.len()) / 4) as nat;
    if n <= room {
        (s.with_stack(base + copy).next(), Ok(Effect::Continue))
    } else {
        (s.with_stack(base + copy.subrange(0, 4 * room as int)), Err(overflow_message(s.capacity, base.len() + 4 * room + 4)))
    }
}

/// The low bytes of the top `n` words, bottom first.
pub open spec fn printed_bytes(s: Seq<u8>, n: nat) -> Seq<u8> {
    let words = s.len() / 4;
    Seq::new(n, |i: int| word_at(s, words - n + i) as u8)
}

/// The state after one instruction and what it yields, for every instruction.
///
/// Failed instructions keep the effects of the steps they completed before failing,
/// as values popped before an error stay popped.
pub open spec fn run_op(op: Opcode, s: MachineState) -> Outcome {
    match op {
        Opcode::Read => {
            if s.lane >= s.lanes.len() {
                (s, Err(lane_message()))
            } else {
                match pop_count(s, "Read address"@) {
                    Err((s1, e)) => (s1, Err(e)),
                    Ok((s1, addr)) => {
                        let data = s.lanes[s.lane as int].data;
                        if addr >= data.len() {
                            (s1, Err(read_out_of_bounds_message()))
                        } else {
                            push_and_continue(s1, data[addr as int] as u32)
                        }
                    },
                }
            }
        },
        Opcode::Write => {
            if s.lane >= s.lanes.len() {
                (s, Err(lane_message()))
            } else {
                match pop_count(s, "Write address"@) {
                    Err((s1, e)) => (s1, Err(e)),
                    Ok((s1, addr)) => {
                        if s1.stack.len() < 4 {
                            (s1, Err(underflow_message()))
                        } else {
                            let v = top_i32(s1.stack);
                            let s2 = s1.with_stack(drop_word(s1.stack));
                            let lane = s.lanes[s.lane as int];
                            if !lane.writable {
                                (s2, Err(read_only_message()))
                            } else {
                                let new_lane = LaneState { data: lane.data.update(addr as int, (v & 0xff) as u8), writable: true };
                                (MachineState { lanes: s2.lanes.update(s.lane as int, new_lane), ..s2 }.next(), Ok(Effect::Continue))
                            }
                        }
                    },
                }
            }
        },
        Opcode::SwitchMemoryLane => {
            if s.stack.len() < 4 {
                (s, Err(underflow_message()))
            } else {
                let v = top_i32(s.stack);
                let s1 = s.with_stack(drop_word(s.stack));
                if v < 0 || v > 255 {
                    (s1, Err(lane_index_message()))
                } else {
                    (MachineState { lane: v as u8, ..s1 }.next(), Ok(Effect::Continue))
                }
            }
        },
        Opcode::SizeOfMemoryLane => {
            if s.lane >= s.lanes.len() {
                (s, Err(lane_message()))
            } else if s.lanes[s.lane as int].data.len() > i32::MAX {
                (s, Err(lane_size_message()))
            } else {
                push_and_continue(s, s.lanes[s.lane as int].data.len() as u32)
            }
        },
        Opcode::Noop => (s.next(), Ok(Effect::Continue)),
        Opcode::Pop | Opcode::Pop32bits => {
            if s.stack.len() < 4 {
                (s, Err(underflow_message()))
            } else {
                (s.with_stack(drop_word(s.stack)).next(), Ok(Effect::Continue))
            }
        },
        Opcode::Dup => {
            if s.stack.len() < 4 {
                (s, Err(underflow_message()))
            } else {
                push_and_continue(s, top_u32(s.stack))
            }
        },
        Opcode::DupN => {
            match pop_count(s, "DupN count"@) {
                Err((s1, e)) => (s1, Err(e)),
                Ok((s1, n)) => {
                    if n == 0 {
                        (s1, Err(dup_count_message()))
                    } else if s1.stack.len() % 4 != 0 {
                        (s1, Err(misaligned_message()))
                    } else if n > s1.stack.len() / 4 {
                        (s1, Err(underflow_message()))
                    } else {
                        dup_result(s1, n)
                    }
                },
            }
        },
        Opcode::Swap => {
            match pop_count(s, "Swap count"@) {
                Err((s1, e)) => (s1, Err(e)),
                Ok((s1, n)) => {
                    if n < 2 {
                        (s1, Err(swap_count_message()))
                    } else if s1.stack.len() < 4 {
                        (s1, Err(underflow_message()))
                    } else {
                        let d = top_i32(s1.stack);
                        let s2 = s1.with_stack(drop_word(s1.stack));
                        if s2.stack.len() % 4 != 0 {
                            (s2, Err(misaligned_message()))
                        } else if n > s2.stack.len() / 4 {
                            (s2, Err(underflow_message()))
                        } else {
                            let start = s2.stack.len() - 4 * n;
                            if d == 0 {
                                (s2.with_stack(rotate_word_left(s2.stack, start)).next(), Ok(Effect::Continue))
                            } else if d == 1 {
                                (s2.with_stack(rotate_times(s2.stack, start, (n - 1) as nat)).next(), Ok(Effect::Continue))
                            } else {
                                (s2, Err(swap_direction_message()))
                            }
                        }
                    }
                },
            }
        },
        Opcode::I32Zero => push_and_continue(s, 0),
        Opcode::I32Push(v) => push_and_continue(s, v as u32),
        Opcode::F32Push(v) => push_and_continue(s, v),
        Opcode::I32PickN => {
            if s.stack.len() < 4 {
                (s, Err(underflow_message()))
            } else {
                let n = top_i32(s.stack);
                let s1 = s.with_stack(drop_word(s.stack));
                if n < 1 || n > 8 {
                    (s1, Err(pick_range_message()))
                } else if s1.stack.len() % 4 != 0 {
                    (s1, Err(misaligned_message()))
                } else if n > s1.stack.len() / 4 {
                    (s1, Err(underflow_message()))
                } else {
                    push_and_continue(s1, word_at(s1.stack, s1.stack.len() / 4 - n) as u32)
                }
            }
        },
        Opcode::JumpIfTrue => {
            if s.stack.len() < 4 {
                (s, Err(underflow_message()))
            } else {
                let delta = top_i32(s.stack);
                let s1 = s.with_stack(drop_word(s.stack));
                if s1.stack.len() < 4 {
                    (s1, Err(underflow_message()))
                } else {
                    let cond = top_i32(s1.stack);
                    let s2 = s1.with_stack(drop_word(s1.stack));
                    if cond != 0 {
                        match jump_target(s2.ip, delta) {
                            Ok(t) => (s2.with_ip(t), Ok(Effect::Continue)),
                            Err(e) => (s2, Err(e)),
                        }
                    } else {
                        (s2.next(), Ok(Effect::Continue))
                    }
                }
            }
        },
        Opcode::Jump => {
            if s.stack.len() < 4 {
                (s, Err(underflow_message()))
            } else {
                let delta = top_i32(s.stack);
                let s1 = s.with_stack(drop_word(s.stack));
                match jump_target(s1.ip, delta) {
                    Ok(t) => (s1.with_ip(t), Ok(Effect::Continue)),
                    Err(e) => (s1, Err(e)),
                }
            }
        },
        Opcode::I32Not => {
            if s.stack.len() < 4 {
                (s, Err(underflow_message()))
            } else {
                let v = top_i32(s.stack);
                push_and_continue(s.with_stack(drop_word(s.stack)), if v == 0 { 1 } else { 0 })
            }
        },
        Opcode::I32ToF32 => {
            if s.stack.len() < 4 {
                (s, Err(underflow_message()))
            } else {
                (s.with_stack(drop_word(s.stack)), Ok(Effect::Float(FloatOp::FromI32(top_i32(s.stack)))))
            }
        },
        Opcode::F32ToI32 => {
            if s.stack.len() < 4 {
                (s, Err(underflow_message()))
            } else {
                (s.with_stack(drop_word(s.stack)), Ok(Effect::Float(FloatOp::ToI32(top_u32(s.stack)))))
            }
        },
        Opcode::F32Add | Opcode::F32Sub | Opcode::F32Mul | Opcode::F32Div | Opcode::F32Gt | Opcode::F32Ge => {
            run_float_binary(op, s)
        },
        Opcode::Print => {
            if s.stack.len() < 4 {
                (s, Err(underflow_message()))
            } else {
                (s.with_stack(drop_word(s.stack)).next(), Ok(Effect::Output(seq![top_i32(s.stack) as u8])))
            }
        },
        Opcode::PrintN => {
            match pop_count(s, "PrintN size"@) {
                Err((s1, e)) => (s1, Err(e)),
                Ok((s1, n)) => {
                    if s1.stack.len() % 4 != 0 {
                        (s1, Err(misaligned_message()))
                    } else if n > s1.stack.len() / 4 {
                        (s1, Err(underflow_message()))
                    } else {
                        (
                            s1.with_stack(s1.stack.subrange(0, s1.stack.len() - 4 * n)).next(),
                            Ok(Effect::Output(printed_bytes(s1.stack, n))),
                        )
                    }
                },
            }
        },
        Opcode::OperationCounter => {
            if s.counter > i32::MAX {
                (s, Err(counter_message()))
            } else {
                push_and_continue(s, s.counter as u32)
            }
        },
        Opcode::Halt => {
            if s.stack.len() < 4 {
                (s, Err(underflow_message()))
            } else {
                (s.with_stack(drop_word(s.stack)), Ok(Effect::Halt(top_i32(s.stack))))
            }
        },
        Opcode::CallExternal(name) => if s.hosted.contains(name@) {
            (s, Ok(Effect::CallExternal(name@)))
        } else {
            (s, Err(missing_external_message(name@)))
        },
        _ => run_binary(op, s),
    }
}

/// No instruction changes the operation counter, the stack's capacity or the registered host
/// functions; the machine counts a step before it runs the instruction.
pub proof fn lemma_run_op_keeps_counter(op: Opcode, s: MachineState)
    ensures
        run_op(op, s).0.counter == s.counter,
        run_op(op, s).0.capacity == s.capacity,
        run_op(op, s).0.hosted == s.hosted,
{
}

/// The state after the machine counts and runs each instruction of `ops` in turn, whatever each
/// yields: a step counts itself before its instruction runs, as `Vm::step` and
/// `Vm::execute_opcode` do.
pub open spec fn counted_run(ops: Seq<Opcode>, s: MachineState) -> MachineState
    decreases ops.len(),
{
    if ops.len() == 0 {
        s
    } else {
        counted_run(ops.drop_first(), run_op(ops[0], s.with_counter((s.counter + 1) as u64)).0)
    }
}

/// The operation counter counts the steps: after `k` steps from a counter of `c` it reads `c + k`,
/// so a machine that starts at 0 has counted every step it ran.
pub proof fn lemma_counter_counts_steps(ops: Seq<Opcode>, s: MachineState)
    requires
        s.counter + ops.len() <= u64::MAX,
    ensures
        counted_run(ops, s).counter == s.counter + ops.len(),
    decreases ops.len(),
{
    if ops.len() > 0 {
        let next = run_op(ops[0], s.with_counter((s.counter + 1) as u64)).0;
        lemma_run_op_keeps_counter(ops[0], s.with_counter((s.counter + 1) as u64));
        lemma_counter_counts_steps(ops.drop_first(), next);
    }
}

/// Whether running `op` in state `s` is outside what the machine may do:
/// an undefined arithmetic result, a write past the end of a lane, or an instruction
/// pointer that cannot move to the next instruction.
pub open spec fn op_undefined(op: Opcode, s: MachineState) -> bool {
    ||| run_op(op, s).0.ip > usize::MAX
    ||| (is_binary(op) && s.stack.len() >= 8 && binary_undefined(
        op,
        top_i32(s.stack),
        top_i32(drop_word(s.stack)),
    ))
    ||| (op is Write && s.lane < s.lanes.len() && s.stack.len() >= 8 && top_i32(s.stack) >= 0
        && s.lanes[s.lane as int].writable && top_i32(s.stack) >= s.lanes[s.lane as int].data.len())
}

} // verus!
verus! {

/// Two values pushed in turn are read back from the top, the last one first.
proof fn lemma_two_pushed(st: Seq<u8>, x: i32, y: i32)
    ensures
        top_i32(st + i32_le_bytes(x)) == x,
        drop_word(st + i32_le_bytes(x)) == st,
        top_i32(st + i32_le_bytes(x) + i32_le_bytes(y)) == y,
        drop_word(st + i32_le_bytes(x) + i32_le_bytes(y)) == st + i32_le_bytes(x),
{
    lemma_top_of_push(st, x as u32);
    lemma_top_of_push(st + i32_le_bytes(x), y as u32);
    assert((x as u32) as i32 == x) by (bit_vector);
    assert((y as u32) as i32 == y) by (bit_vector);
}

/// Division rounding toward zero: the remainder is smaller than the divisor and has the sign
/// of the dividend.
proof fn lemma_trunc_div_rem(b: int, a: int)
    requires
        a != 0,
    ensures
        abs(b - trunc_div(b, a) * a) < abs(a),
        b - trunc_div(b, a) * a == 0 || (b - trunc_div(b, a) * a < 0) == (b < 0),
        b - trunc_div(b, a) * a == trunc_rem(b, a),
        abs(trunc_div(b, a)) <= abs(b),
        a == 1 ==> trunc_div(b, a) == b,
        a == -1 ==> trunc_div(b, a) == -b,
        abs(a) >= 2 ==> 2 * abs(trunc_div(b, a)) <= abs(b),
{
    let aa = abs(a);
    let bb = abs(b);
    let q0 = bb / aa;
    let r0 = bb % aa;
    assert(bb == q0 * aa + r0 && 0 <= r0 < aa && 0 <= q0 <= bb) by (nonlinear_arith)
        requires aa > 0, bb >= 0, q0 == bb / aa, r0 == bb % aa;
    assert(aa >= 2 ==> 2 * q0 <= bb) by (nonlinear_arith)
        requires aa > 0, bb == q0 * aa + r0, 0 <= r0, q0 >= 0;
    assert(aa == 1 ==> q0 == bb) by (nonlinear_arith)
        requires bb == q0 * aa + r0, 0 <= r0 < aa;
    let q = trunc_div(b, a);
    if a > 0 {
        assert(q0 * a == q0 * aa);
    } else {
        assert(q0 * a == -(q0 * aa)) by (nonlinear_arith) requires a == -aa;
    }
    assert((-q0) * a == -(q0 * a)) by (nonlinear_arith);
}

/// What each two-value instruction does, in terms of the value `x` pushed first and the value
/// `y` pushed after it: both are replaced by one result, and the machine moves on.
///
/// Comparisons push 1 when the relation holds between `x` and `y` in that order and 0 otherwise;
/// `And` and `Or` are logical; addition, subtraction and multiplication wrap around; division
/// rounds toward zero (`i32::MIN / -1` stays `i32::MIN`) and the remainder has the sign of `x`.
pub proof fn lemma_binary_results(op: Opcode, s: MachineState, st: Seq<u8>, x: i32, y: i32)
    requires
        s.stack == st + i32_le_bytes(x) + i32_le_bytes(y),
        s.stack.len() <= s.capacity,
        op is I32Xor || op is I32And || op is I32Or || op is I32Add || op is I32Sub || op is I32Mul
            || op is I32Div || op is I32Mod || op is I32Shl || op is I32Shr || op is I32Lt
            || op is I32Le || op is I32Eq || op is I32Gt || op is I32Ge || op is F32Eq,
        op is I32Div ==> y != 0,
        op is I32Mod ==> y != 0 && !(x == i32::MIN && y == -1),
        op is I32Shl || op is I32Shr ==> 0 <= y < 32,
    ensures
        ({
            let (t, r) = run_op(op, s);
            let v = top_i32(t.stack);
            &&& r == Ok::<Effect, Seq<char>>(Effect::Continue)
            &&& t.ip == s.ip + 1
            &&& t.stack.len() == st.len() + 4
            &&& drop_word(t.stack) == st
            &&& op is I32Lt ==> v == (if x < y { 1i32 } else { 0i32 })
            &&& op is I32Le ==> v == (if x <= y { 1i32 } else { 0i32 })
            &&& op is I32Gt ==> v == (if x > y { 1i32 } else { 0i32 })
            &&& op is I32Ge ==> v == (if x >= y { 1i32 } else { 0i32 })
            &&& (op is I32Eq || op is F32Eq) ==> v == (if x == y { 1i32 } else { 0i32 })
            &&& op is I32And ==> v == (if x != 0 && y != 0 { 1i32 } else { 0i32 })
            &&& op is I32Or ==> v == (if x != 0 || y != 0 { 1i32 } else { 0i32 })
            &&& op is I32Xor ==> v == x ^ y
            &&& op is I32Add ==> (v - (x + y)) % 0x1_0000_0000 == 0
            &&& op is I32Sub ==> (v - (x - y)) % 0x1_0000_0000 == 0
            &&& op is I32Mul ==> (v - x * y) % 0x1_0000_0000 == 0
            &&& op is I32Div && x == i32::MIN && y == -1 ==> v == i32::MIN
            &&& op is I32Div && !(x == i32::MIN && y == -1) ==> {
                &&& abs(x - v * y) < abs(y as int)
                &&& x - v * y == 0 || (x - v * y < 0) == (x < 0)
            }
            &&& op is I32Mod ==> {
                &&& abs(v as int) < abs(y as int)
                &&& v == 0 || (v < 0) == (x < 0)
                &&& (x - v) % (y as int) == 0
            }
            &&& op is I32Shl ==> v == x << (y as u32)
            &&& op is I32Shr ==> v == x >> (y as u32)
        }),
{
    lemma_two_pushed(st, x, y);
    assert(run_op(op, s) == run_binary(op, s));
    let res = binary_result(op, y, x);
    let t = run_op(op, s).0;
    lemma_top_of_push(st, res as u32);
    assert((res as u32) as i32 == res) by (bit_vector);
    assert(t.stack == st + u32_le_bytes(res as u32));
    let v = top_i32(t.stack);
    assert(v == res);
    assert(run_op(op, s).1 == Ok::<Effect, Seq<char>>(Effect::Continue));
    assert(t.ip == s.ip + 1);
    assert(drop_word(t.stack) == st);
    assert(op is I32Lt ==> v == (if x < y { 1i32 } else { 0i32 }));
    assert(op is I32Gt ==> v == (if x > y { 1i32 } else { 0i32 }));
    assert(op is F32Eq ==> v == (if x == y { 1i32 } else { 0i32 }));
    assert(y ^ x == x ^ y) by (bit_vector);
    assert(op is I32Xor ==> v == x ^ y);
    assert(op is I32Le ==> v == (if x <= y { 1i32 } else { 0i32 }));
    assert(op is I32Ge ==> v == (if x >= y { 1i32 } else { 0i32 }));
    assert(op is I32Eq ==> v == (if x == y { 1i32 } else { 0i32 }));
    assert(op is I32And ==> v == (if x != 0 && y != 0 { 1i32 } else { 0i32 }));
    assert(op is I32Or ==> v == (if x != 0 || y != 0 { 1i32 } else { 0i32 }));
    assert(op is I32Shr ==> v == x >> (y as u32));
    assert(op is I32Add ==> (v - (x + y)) % 0x1_0000_0000 == 0);
    assert(op is I32Sub ==> (v - (x - y)) % 0x1_0000_0000 == 0);
    assert(op is I32Shl ==> v == x << (y as u32));
    if op is I32Div && !(x == i32::MIN && y == -1) {
        lemma_trunc_div_rem(x as int, y as int);
        assert(v as int == trunc_div(x as int, y as int));
        assert(abs(x - v * y) < abs(y as int));
    }
    if op is I32Mod {
        lemma_trunc_div_rem(x as int, y as int);
        assert(v as int == trunc_rem(x as int, y as int));
        let q = trunc_div(x as int, y as int);
        assert((q * y) % (y as int) == 0) by (nonlinear_arith) requires y != 0;
    }
    if op is I32Mul {
        let p = x * y;
        assert((vstd::wrapping::i32_specs::wrapping_mul(y, x) - p) % 0x1_0000_0000 == 0) by (nonlinear_arith)
            requires
                p == y * x,
                vstd::wrapping::i32_specs::wrapping_mul(y, x) == vstd::wrapping::i32_specs::signed_crop(y * x),
        {
        }
    }
}

/// What the instructions that move values and control do, in terms of the value `x` pushed
/// first and the value `y` pushed after it (`y` on top).
///
/// `Halt` exits with the top value; `Pop` drops it; `Dup` pushes a copy of it; `Print` prints
/// its low byte; `Jump` moves by the top value, counted from the next instruction;
/// `JumpIfTrue` does so when the value below the offset is not 0 and goes on otherwise (where
/// the target fits the machine's pointers); a push puts its value on top.
pub proof fn lemma_control_results(s: MachineState, st: Seq<u8>, x: i32, y: i32, v: i32)
    requires
        s.stack == st + i32_le_bytes(x) + i32_le_bytes(y),
    ensures
        run_op(Opcode::Halt, s) == (s.with_stack(st + i32_le_bytes(x)), Ok::<Effect, Seq<char>>(Effect::Halt(y))),
        run_op(Opcode::Pop, s) == (s.with_stack(st + i32_le_bytes(x)).next(), Ok::<Effect, Seq<char>>(Effect::Continue)),
        run_op(Opcode::Pop32bits, s) == (s.with_stack(st + i32_le_bytes(x)).next(), Ok::<Effect, Seq<char>>(Effect::Continue)),
        run_op(Opcode::Print, s) == (s.with_stack(st + i32_le_bytes(x)).next(), Ok::<Effect, Seq<char>>(Effect::Output(seq![y as u8]))),
        s.stack.len() + 4 <= s.capacity ==> run_op(Opcode::Dup, s)
            == (s.with_stack(s.stack + i32_le_bytes(y)).next(), Ok::<Effect, Seq<char>>(Effect::Continue)),
        s.stack.len() + 4 <= s.capacity ==> run_op(Opcode::I32Push(v), s)
            == (s.with_stack(s.stack + i32_le_bytes(v)).next(), Ok::<Effect, Seq<char>>(Effect::Continue)),
        s.stack.len() + 4 <= s.capacity ==> run_op(Opcode::I32Zero, s)
            == (s.with_stack(s.stack + i32_le_bytes(0)).next(), Ok::<Effect, Seq<char>>(Effect::Continue)),
        y + 1 <= isize::MAX && 0 <= s.ip + y + 1 <= usize::MAX ==> run_op(Opcode::Jump, s)
            == (s.with_stack(st + i32_le_bytes(x)).with_ip((s.ip + y + 1) as nat), Ok::<Effect, Seq<char>>(Effect::Continue)),
        x == 0 ==> run_op(Opcode::JumpIfTrue, s) == (s.with_stack(st).next(), Ok::<Effect, Seq<char>>(Effect::Continue)),
        x != 0 && y + 1 <= isize::MAX && 0 <= s.ip + y + 1 <= usize::MAX ==> run_op(Opcode::JumpIfTrue, s)
            == (s.with_stack(st).with_ip((s.ip + y + 1) as nat), Ok::<Effect, Seq<char>>(Effect::Continue)),
{
    lemma_two_pushed(st, x, y);
    lemma_top_of_push(st + i32_le_bytes(x), y as u32);
    lemma_i32_round_trip(v);
    lemma_i32_round_trip(y);
}

/// What the float instructions hand to the host, in terms of the bit patterns `x` pushed first
/// and `y` pushed after it (`y` on top): both are popped, and the operands go to the host with
/// `x` as the left one (`F32Sub` asks for `x - y`, `F32Gt` whether `x > y`). The conversions
/// pop the top value alone.
pub proof fn lemma_float_requests(s: MachineState, st: Seq<u8>, x: u32, y: u32)
    requires
        s.stack == st + u32_le_bytes(x) + u32_le_bytes(y),
    ensures
        run_op(Opcode::F32Add, s) == (s.with_stack(st), Ok::<Effect, Seq<char>>(Effect::Float(FloatOp::Add(y, x)))),
        run_op(Opcode::F32Sub, s) == (s.with_stack(st), Ok::<Effect, Seq<char>>(Effect::Float(FloatOp::Sub(x, y)))),
        run_op(Opcode::F32Mul, s) == (s.with_stack(st), Ok::<Effect, Seq<char>>(Effect::Float(FloatOp::Mul(y, x)))),
        run_op(Opcode::F32Div, s) == (s.with_stack(st), Ok::<Effect, Seq<char>>(Effect::Float(FloatOp::Div(x, y)))),
        run_op(Opcode::F32Gt, s) == (s.with_stack(st), Ok::<Effect, Seq<char>>(Effect::Float(FloatOp::Gt(x, y)))),
        run_op(Opcode::F32Ge, s) == (s.with_stack(st), Ok::<Effect, Seq<char>>(Effect::Float(FloatOp::Ge(x, y)))),
        run_op(Opcode::F32ToI32, s) == (s.with_stack(st + u32_le_bytes(x)), Ok::<Effect, Seq<char>>(Effect::Float(FloatOp::ToI32(y)))),
        run_op(Opcode::I32ToF32, s)
            == (s.with_stack(st + u32_le_bytes(x)), Ok::<Effect, Seq<char>>(Effect::Float(FloatOp::FromI32(y as i32)))),
{
    lemma_top_of_push(st, x);
    lemma_top_of_push(st + u32_le_bytes(x), y);
}

/// What the memory-lane instructions do on the current lane `s.lane`.
///
/// `Write` pops an address and then a value, and stores the value's low byte at that address of
/// a writable lane, leaving every other byte and lane as it was; on a read-only lane it fails.
/// `Read` pops an address and pushes the byte stored there, so a `Read` after a `Write` at the
/// same address gives back the low byte written. `SizeOfMemoryLane` pushes the lane's length.
pub proof fn lemma_lane_results(s: MachineState, st: Seq<u8>, v: i32, addr: i32)
    requires
        s.stack == st + i32_le_bytes(v) + i32_le_bytes(addr),
        s.lane < s.lanes.len(),
        0 <= addr < s.lanes[s.lane as int].data.len(),
        st.len() + 4 <= s.capacity,
    ensures
        ({
            let (t, r) = run_op(Opcode::Write, s);
            let lane = s.lanes[s.lane as int];
            &&& lane.writable ==> {
                &&& r == Ok::<Effect, Seq<char>>(Effect::Continue)
                &&& t.stack == st
                &&& t.ip == s.ip + 1
                &&& t.lane == s.lane
                &&& t.lanes.len() == s.lanes.len()
                &&& t.lanes[s.lane as int].writable
                &&& t.lanes[s.lane as int].data.len() == lane.data.len()
                &&& t.lanes[s.lane as int].data[addr as int] == (v & 0xff) as u8
                &&& forall|i: int| 0 <= i < lane.data.len() && i != addr ==> #[trigger] t.lanes[s.lane as int].data[i] == lane.data[i]
                &&& forall|j: int| 0 <= j < s.lanes.len() && j != s.lane ==> #[trigger] t.lanes[j] == s.lanes[j]
                &&& run_op(Opcode::Read, t.with_stack(st + i32_le_bytes(addr)))
                    == (t.with_stack(st + i32_le_bytes(v & 0xff)).next(), Ok::<Effect, Seq<char>>(Effect::Continue))
            }
            &&& !lane.writable ==> r == Err::<Effect, Seq<char>>(read_only_message()) && t.stack == st
        }),
        run_op(Opcode::Read, s.with_stack(st + i32_le_bytes(addr)))
            == (s.with_stack(st + i32_le_bytes(s.lanes[s.lane as int].data[addr as int] as i32)).next(),
                Ok::<Effect, Seq<char>>(Effect::Continue)),
        s.lanes[s.lane as int].data.len() <= i32::MAX && s.stack.len() + 4 <= s.capacity ==> run_op(Opcode::SizeOfMemoryLane, s)
            == (s.with_stack(s.stack + i32_le_bytes(s.lanes[s.lane as int].data.len() as i32)).next(),
                Ok::<Effect, Seq<char>>(Effect::Continue)),
{
    lemma_two_pushed(st, v, addr);
    lemma_two_pushed(st, addr, 0);
    let lane = s.lanes[s.lane as int];
    let b = lane.data[addr as int];
    assert((b as u32) as i32 == b as i32);
    assert(((v & 0xff) as u8) as u32 == ((v & 0xff) as u32)) by (bit_vector);
    assert(((v & 0xff) as u32) == (v & 0xff) as i32 as u32) by (bit_vector);
}

/// A value pushed is read back from the top, and dropping it gives the stack back.
proof fn lemma_pushed_on(st: Seq<u8>, x: i32)
    ensures
        top_i32(st + i32_le_bytes(x)) == x,
        drop_word(st + i32_le_bytes(x)) == st,
        (st + i32_le_bytes(x)).len() == st.len() + 4,
{
    lemma_top_of_push(st, x as u32);
    assert((x as u32) as i32 == x) by (bit_vector);
}

/// What the instructions that reach below the top do, with a count `k` on top.
///
/// `i32.PickN` pushes a copy of the value `k` places down (so `k == 1` copies the top);
/// `Swap` with direction 0 on top of the count moves the lowest of the top `k` values to the
/// top, and with direction 1 moves the topmost of them to the bottom of those `k`.
pub proof fn lemma_reach_results(s: MachineState, st: Seq<u8>, w: i32, rest: Seq<u8>, k: i32)
    requires
        st.len() % 4 == 0,
        rest.len() == 4 * (k - 1),
        s.stack.len() <= s.capacity,
        1 <= k,
    ensures
        k <= 8 && s.stack == st + i32_le_bytes(w) + rest + i32_le_bytes(k) ==> run_op(Opcode::I32PickN, s)
            == (s.with_stack(st + i32_le_bytes(w) + rest + i32_le_bytes(w)).next(), Ok::<Effect, Seq<char>>(Effect::Continue)),
        k >= 2 && s.stack == st + i32_le_bytes(w) + rest + i32_le_bytes(0) + i32_le_bytes(k) ==> run_op(Opcode::Swap, s)
            == (s.with_stack(st + rest + i32_le_bytes(w)).next(), Ok::<Effect, Seq<char>>(Effect::Continue)),
        k >= 2 && s.stack == st + rest + i32_le_bytes(w) + i32_le_bytes(1) + i32_le_bytes(k) ==> run_op(Opcode::Swap, s)
            == (s.with_stack(st + i32_le_bytes(w) + rest).next(), Ok::<Effect, Seq<char>>(Effect::Continue)),
{
    let lw = i32_le_bytes(w);
    lemma_i32_round_trip(w);
    if k <= 8 && s.stack == st + lw + rest + i32_le_bytes(k) {
        let s1 = st + lw + rest;
        lemma_pushed_on(s1, k);
        assert(s1.len() == st.len() + 4 * k);
        assert(s1.len() / 4 - k == st.len() / 4);
        assert(4 * (st.len() / 4) == st.len());
        assert(s1.subrange(st.len() as int, st.len() as int + 4) =~= lw);
        assert(word_at(s1, s1.len() / 4 - k) == w);
        assert(run_op(Opcode::I32PickN, s) == push_and_continue(s.with_stack(s1), w as u32));
    }
    if k >= 2 && s.stack == st + lw + rest + i32_le_bytes(0) + i32_le_bytes(k) {
        let s2 = st + lw + rest;
        lemma_pushed_on(s2 + i32_le_bytes(0), k);
        lemma_pushed_on(s2, 0);
        let start = s2.len() - 4 * k;
        assert(start == st.len());
        assert(rotate_word_left(s2, start) =~= st + rest + lw);
    }
    if k >= 2 && s.stack == st + rest + lw + i32_le_bytes(1) + i32_le_bytes(k) {
        let s2 = st + rest + lw;
        lemma_pushed_on(s2 + i32_le_bytes(1), k);
        lemma_pushed_on(s2, 1);
        let start = s2.len() - 4 * k;
        assert(start == st.len());
        lemma_rotate_times_shape(s2, start, (k - 1) as nat);
        assert(s2.subrange(0, start) + s2.subrange(start + 4 * (k - 1), s2.len() as int)
            + s2.subrange(start, start + 4 * (k - 1)) =~= st + lw + rest);
    }
}

/// What the remaining stack instructions do, with a value or count `x` on top of `st`.
///
/// `SwitchMemoryLane` makes `x` the current lane when it is a lane number (0 to 255) and fails
/// otherwise; `Noop` only moves on; `OperationCounter` pushes the step count; `DupN` pushes a
/// copy of the `x` values below the count, in order; `PrintN` pops those `x` values and prints
/// the low byte of each, the deepest first.
pub proof fn lemma_other_results(s: MachineState, st: Seq<u8>, x: i32, base: Seq<u8>, top: Seq<u8>)
    requires
        s.stack == st + i32_le_bytes(x),
    ensures
        0 <= x <= 255 ==> run_op(Opcode::SwitchMemoryLane, s)
            == (MachineState { lane: x as u8, ..s.with_stack(st) }.next(), Ok::<Effect, Seq<char>>(Effect::Continue)),
        !(0 <= x <= 255) ==> run_op(Opcode::SwitchMemoryLane, s) == (s.with_stack(st), Err::<Effect, Seq<char>>(lane_index_message())),
        run_op(Opcode::Noop, s) == (s.next(), Ok::<Effect, Seq<char>>(Effect::Continue)),
        s.counter <= i32::MAX && s.stack.len() + 4 <= s.capacity ==> run_op(Opcode::OperationCounter, s)
            == (s.with_stack(s.stack + i32_le_bytes(s.counter as i32)).next(), Ok::<Effect, Seq<char>>(Effect::Continue)),
        x >= 1 && st == base + top && base.len() % 4 == 0 && top.len() == 4 * x && st.len() + 4 * x <= s.capacity
            ==> run_op(Opcode::DupN, s) == (s.with_stack(st + top).next(), Ok::<Effect, Seq<char>>(Effect::Continue)),
        x >= 0 && st == base + top && base.len() % 4 == 0 && top.len() == 4 * x ==> run_op(Opcode::PrintN, s)
            == (s.with_stack(base).next(), Ok::<Effect, Seq<char>>(Effect::Output(Seq::new(x as nat, |i: int| top[4 * i])))),
{
    lemma_pushed_on(st, x);
    let c = s.counter;
    assert(c <= 0x7fff_ffff ==> (c as u32) == (c as i32) as u32) by (bit_vector);
    if x >= 1 && st == base + top && base.len() % 4 == 0 && top.len() == 4 * x && st.len() + 4 * x <= s.capacity {
        assert(st.subrange(st.len() - 4 * x, st.len() as int) =~= top);
        assert(st.len() / 4 == base.len() / 4 + x);
    }
    if x >= 0 && st == base + top && base.len() % 4 == 0 && top.len() == 4 * x {
        let n = x as nat;
        assert(st.subrange(0, st.len() - 4 * n) =~= base);
        let words = st.len() / 4;
        assert(words == base.len() / 4 + x);
        assert forall|i: int| 0 <= i < n implies #[trigger] printed_bytes(st, n)[i] == top[4 * i] by {
            let b = st.subrange(4 * (words - n + i), 4 * (words - n + i) + 4);
            assert(4 * (words - n + i) == base.len() + 4 * i);
            assert(b[0] == top[4 * i]);
            let b0 = b[0];
            let b1 = b[1];
            let b2 = b[2];
            let b3 = b[3];
            assert((((b0 as u32) | ((b1 as u32) << 8u32) | ((b2 as u32) << 16u32) | ((b3 as u32) << 24u32)) as i32) as u8 == b0)
                by (bit_vector);
        }
        assert(printed_bytes(st, n) =~= Seq::new(n, |i: int| top[4 * i]));
    }
}

/// `i32.NOT` pushes 1 in place of a 0 and 0 in place of anything else, and the machine moves on.
pub proof fn lemma_not_result(s: MachineState, st: Seq<u8>, x: i32)
    requires
        s.stack == st + i32_le_bytes(x),
        s.stack.len() <= s.capacity,
    ensures
        ({
            let (t, r) = run_op(Opcode::I32Not, s);
            &&& r == Ok::<Effect, Seq<char>>(Effect::Continue)
            &&& t.ip == s.ip + 1
            &&& drop_word(t.stack) == st
            &&& top_i32(t.stack) == (if x == 0 { 1i32 } else { 0i32 })
        }),
{
    lemma_two_pushed(st, x, 0);
    let v: u32 = if x == 0 { 1 } else { 0 };
    lemma_top_of_push(st, v);
}

} // verus!
