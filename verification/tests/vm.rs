use dvm::frontend::compile_source;
use dvm::memory_lane::MemoryLane;
use dvm::program::Program;
use dvm::semantics::FloatOp;
use dvm::stack::Stack;
use dvm::vm::{StepOutcome, Vm};

fn decode(text: String) -> Option<u32> {
    text.parse::<f32>().ok().map(|f| f.to_bits())
}

fn eval(op: FloatOp) -> u32 {
    let f = f32::from_bits;
    match op {
        FloatOp::Add(x, y) => (f(x) + f(y)).to_bits(),
        FloatOp::Sub(x, y) => (f(x) - f(y)).to_bits(),
        FloatOp::Mul(x, y) => (f(x) * f(y)).to_bits(),
        FloatOp::Div(x, y) => (f(x) / f(y)).to_bits(),
        FloatOp::Gt(x, y) => (f(x) > f(y)) as u32,
        FloatOp::Ge(x, y) => (f(x) >= f(y)) as u32,
        FloatOp::FromI32(v) => (v as f32).to_bits(),
        FloatOp::ToI32(x) => f(x).round() as i32 as u32,
    }
}

type Host<'h> = &'h mut dyn FnMut(&str, &mut Stack) -> Result<(), String>;

/// Runs a program until it halts, doing the float work and the host calls the machine asks for.
fn drive(source: &str, names: &[&str], host: Host<'_>) -> Result<i32, String> {
    let mut heap_memory_lane = [0u8; 128];
    let io_memory_lane = *b"";
    let memory_lanes = [
        MemoryLane::ReadWrite(&mut heap_memory_lane),
        MemoryLane::ReadOnly(&io_memory_lane),
    ];

    let opcodes = compile_source("<test>", source, &decode, eval).unwrap();
    let mut program = Program::new(&opcodes);
    let mut vm = Vm::new(Box::new(memory_lanes));
    for name in names {
        vm.register_external_function(name);
    }

    loop {
        match vm.step(&mut program)? {
            StepOutcome::Continue | StepOutcome::Output(_) => {}
            StepOutcome::Halt(code) => return Ok(code),
            StepOutcome::Float(op) => vm.finish_float(&mut program, eval(op))?,
            StepOutcome::CallExternal(name) => {
                {
                    let mut args = vm.external_args(&program);
                    host(&name, args.stack())?;
                }
                vm.finish_external(&mut program);
            }
        }

        if program.is_outside_program() {
            panic!("program terminated without Halt");
        }
    }
}

fn run_program(source: &str) -> i32 {
    drive(source, &[], &mut |_, _| Ok(())).unwrap()
}

fn run_program_error(source: &str) -> String {
    match drive(source, &[], &mut |_, _| Ok(())) {
        Ok(_) => panic!("program terminated without error"),
        Err(error) => error,
    }
}

fn run_f32_binary_program(opcode: &str, lhs: f32, rhs: f32, expected: f32) {
    let source = format!(
        "\
f32.PUSH {lhs}
f32.PUSH {rhs}
{opcode}
CallExternal assert_result
i32.PUSH 0
Halt
"
    );
    let mut assert_result = move |name: &str, stack: &mut Stack| {
        assert_eq!(name, "assert_result");
        let actual = f32::from_bits(stack.pop_u32()?);
        if (actual - expected).abs() > f32::EPSILON {
            return Err(format!("expected {expected}, got {actual}"));
        }
        Ok(())
    };
    let code = drive(&source, &["assert_result"], &mut assert_result).unwrap();
    assert_eq!(code, 0);
}

#[test]
fn executes_typed_i32_arithmetic_program() {
    let exit_code = run_program(
        "\
i32.PUSH 3
i32.PUSH 4
i32.ADD
Halt
",
    );

    assert_eq!(exit_code, 7);
}

#[test]
fn executes_i32_pick_n() {
    let exit_code = run_program(
        "\
i32.PUSH 11
i32.PUSH 22
i32.PUSH 2
i32.PickN
Halt
",
    );

    assert_eq!(exit_code, 11);
}

#[test]
fn i32_pick_n_copies_f32_bits() {
    let exit_code = run_program(
        "\
f32.PUSH 1.5
i32.PUSH 1
i32.PickN
f32.TO.i32
Halt
",
    );

    assert_eq!(exit_code, 2);
}

#[test]
fn i32_pick_n_validates_range() {
    let error = run_program_error(
        "\
i32.PUSH 11
i32.PUSH 9
i32.PickN
Halt
",
    );

    assert!(error.contains("i32.PickN requires n between 1 and 8"));
}

#[test]
fn executes_typed_f32_arithmetic_programs() {
    run_f32_binary_program("f32.SUB", 10.5, 4.25, 6.25);
    run_f32_binary_program("f32.MUL", 2.5, 4.0, 10.0);
    run_f32_binary_program("f32.DIV", 9.0, 3.0, 3.0);
}

#[test]
fn executes_typed_f32_comparison_programs() {
    assert_eq!(
        run_program(
            "\
f32.PUSH 4.5
f32.PUSH 4.5
f32.EQ
Halt
"
        ),
        1
    );
    assert_eq!(
        run_program(
            "\
f32.PUSH 4.5
f32.PUSH 3.5
f32.GT
Halt
"
        ),
        1
    );
    assert_eq!(
        run_program(
            "\
f32.PUSH 4.5
f32.PUSH 4.5
f32.GE
Halt
"
        ),
        1
    );
}

#[test]
fn executes_symbolic_jump_program_with_typed_i32_push() {
    let exit_code = run_program(
        "\
i32.PUSH 1
JumpIfTrue .done
i32.PUSH 99
.done
i32.PUSH 7
Halt
",
    );

    assert_eq!(exit_code, 7);
}

#[test]
fn calls_registered_external_function() {
    let mut add_one = |name: &str, stack: &mut Stack| {
        assert_eq!(name, "add_one");
        let value = stack.pop_i32()?;
        stack.push_i32(value + 1)?;
        Ok(())
    };
    let exit_code = drive(
        "\
i32.PUSH 41
CallExternal add_one
Halt
",
        &["add_one"],
        &mut add_one,
    )
    .unwrap();

    assert_eq!(exit_code, 42);
}

#[test]
fn unregistered_external_function_is_an_error() {
    let error = run_program_error("CallExternal nowhere\nHalt\n");
    assert_eq!(error, "Could not get the external function by name: 'nowhere'");
}

#[test]
fn swap_right_undoes_swap_left() {
    // Three values, then a left rotation of all three (direction 0) and a right rotation (1).
    let code = run_program(
        "\
i32.PUSH 5
i32.PUSH 6
i32.PUSH 7
i32.ZERO
i32.PUSH 3
Swap
i32.PUSH 1
i32.PUSH 3
Swap
Pop
Pop
Halt
",
    );
    assert_eq!(code, 5);
}

#[test]
fn left_swap_moves_the_lowest_value_to_the_top() {
    let code = run_program("i32.PUSH 5\ni32.PUSH 6\ni32.PUSH 7\ni32.ZERO\ni32.PUSH 3\nSwap\nHalt\n");
    assert_eq!(code, 5);
}

#[test]
fn runtime_errors_are_reported() {
    assert_eq!(run_program_error("i32.ADD\nHalt\n"), "Stack underflow");
    assert_eq!(
        run_program_error("i32.PUSH 1\ni32.PUSH 2\ni32.PUSH 5\ni32.PUSH 2\nSwap\nHalt\n"),
        "Swap direction must be 0 (left) or 1 (right)"
    );
}

#[test]
fn memory_lanes_read_and_write() {
    let code = run_program(
        "\
i32.PUSH 65
i32.PUSH 3
Write
i32.PUSH 3
Read
Halt
",
    );
    assert_eq!(code, 65);
}

#[test]
fn print_hands_bytes_to_the_host() {
    let mut heap = [0u8; 4];
    let io = *b"";
    let lanes = [MemoryLane::ReadWrite(&mut heap), MemoryLane::ReadOnly(&io)];
    let opcodes = compile_source("<test>", "i32.PUSH 72\ni32.PUSH 105\ni32.PUSH 2\nPrintN\ni32.ZERO\nHalt\n", &decode, eval).unwrap();
    let mut program = Program::new(&opcodes);
    let mut vm = Vm::new(Box::new(lanes));
    let mut printed = Vec::new();
    loop {
        match vm.step(&mut program).unwrap() {
            StepOutcome::Output(bytes) => printed.extend(bytes),
            StepOutcome::Halt(code) => {
                assert_eq!(code, 0);
                break;
            }
            _ => {}
        }
    }
    assert_eq!(printed, b"Hi".to_vec());
    assert_eq!(program.get_line_metrics(), &[1, 1, 1, 1, 1, 1]);
    assert_eq!(vm.get_op_counter(), 6);
}

#[test]
fn operation_counter_counts_every_step() {
    // OperationCounter is the third step; it pushes the count including itself.
    assert_eq!(run_program("Noop\nNoop\nOperationCounter\nHalt\n"), 3);
}

#[test]
fn host_changes_to_the_stack_stay_with_the_machine() {
    let mut heap = [0u8; 4];
    let io = *b"";
    let lanes = [MemoryLane::ReadWrite(&mut heap), MemoryLane::ReadOnly(&io)];
    let opcodes = vec![dvm::opcode::Opcode::I32Push(41)];
    let mut program = Program::new(&opcodes);
    let mut vm = Vm::new(Box::new(lanes));
    vm.register_external_function("add_one");
    assert!(matches!(vm.step(&mut program).unwrap(), StepOutcome::Continue));
    {
        let mut args = vm.external_args(&program);
        let v = args.stack().pop_i32().unwrap();
        args.stack().push_i32(v + 1).unwrap();
    }
    assert_eq!(vm.get_stack_bytes(), vec![42, 0, 0, 0]);
    assert_eq!(vm.get_op_counter(), 1);
}
