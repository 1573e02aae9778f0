use dvm::frontend::assembler::assemble_ir;
use dvm::frontend::ir::lower_to_ir;
use dvm::frontend::parser::parse_source;
use dvm::frontend::passes::constant_fold_f32::ConstantFoldF32Pass;
use dvm::frontend::passes::constant_fold_math::ConstantFoldMathPass;
use dvm::frontend::passes::optimize_ir;
use dvm::opcode::Opcode;
use dvm::semantics::FloatOp;

fn decode(text: String) -> Option<u32> {
    text.parse::<f32>().ok().map(|f| f.to_bits())
}

fn eval(op: FloatOp) -> u32 {
    let f = f32::from_bits;
    match op {
        FloatOp::Add(x, y) => (f(x) + f(y)).to_bits(),
        FloatOp::Sub(x, y) => (f(x) - f(y)).to_bits(),
        FloatOp::Mul(x, y) => (f(x) * f(y)).to_bits(),
        FloatOp::Div(x, y) => (f(x) / f(y)).to_bits(),
        FloatOp::Gt(x, y) => (f(x) > f(y)) as u32,
        FloatOp::Ge(x, y) => (f(x) >= f(y)) as u32,
        FloatOp::FromI32(v) => (v as f32).to_bits(),
        FloatOp::ToI32(x) => f(x).round() as i32 as u32,
    }
}

fn optimize_math(source: &str) -> Vec<Opcode> {
    let parsed = parse_source("<test>", source, &decode).unwrap();
    let mut ir = lower_to_ir("<test>", parsed).unwrap();
    let pass = ConstantFoldMathPass;
    optimize_ir(&mut ir, &[&pass]).unwrap();
    assemble_ir("<test>", &ir).unwrap()
}

fn optimize_f32(source: &str) -> Vec<Opcode> {
    let parsed = parse_source("<test>", source, &decode).unwrap();
    let mut ir = lower_to_ir("<test>", parsed).unwrap();
    let pass = ConstantFoldF32Pass::new(eval);
    optimize_ir(&mut ir, &[&pass]).unwrap();
    assemble_ir("<test>", &ir).unwrap()
}

fn assert_single_f32_push(opcodes: &[Opcode], expected: f32) {
    let [Opcode::F32Push(actual), Opcode::Halt] = opcodes else {
        panic!("expected folded f32 push followed by Halt, got {opcodes:?}");
    };

    assert_eq!(*actual, expected.to_bits());
}

#[test]
fn folds_f32_arithmetic() {
    let opcodes = optimize_f32(
        "\
f32.PUSH 10.5
f32.PUSH 4.25
f32.SUB
Halt
",
    );
    assert_single_f32_push(&opcodes, 6.25);

    let opcodes = optimize_f32(
        "\
f32.PUSH 2.5
f32.PUSH 4
f32.MUL
Halt
",
    );
    assert_single_f32_push(&opcodes, 10.0);

    let opcodes = optimize_f32(
        "\
f32.PUSH 9
f32.PUSH 3
f32.DIV
Halt
",
    );
    assert_single_f32_push(&opcodes, 3.0);
}

#[test]
fn folds_f32_comparisons() {
    let opcodes = optimize_f32(
        "\
f32.PUSH 4.5
f32.PUSH 4.5
f32.EQ
Halt
",
    );
    assert_eq!(opcodes, vec![Opcode::I32Push(1), Opcode::Halt]);

    let opcodes = optimize_f32(
        "\
f32.PUSH 4.5
f32.PUSH 3.5
f32.GT
Halt
",
    );
    assert_eq!(opcodes, vec![Opcode::I32Push(1), Opcode::Halt]);

    let opcodes = optimize_f32(
        "\
f32.PUSH 4.5
f32.PUSH 5
f32.GE
Halt
",
    );
    assert_eq!(opcodes, vec![Opcode::I32Push(0), Opcode::Halt]);
}

#[test]
fn folds_f32_eq_like_i32_eq() {
    let opcodes = optimize_f32(
        "\
f32.PUSH 0
f32.PUSH -0
f32.EQ
Halt
",
    );

    assert_eq!(opcodes, vec![Opcode::I32Push(0), Opcode::Halt]);
}

#[test]
fn constant_fold_f32_does_not_fold_across_labels() {
    let opcodes = optimize_f32(
        "\
f32.PUSH 3
.mid
f32.PUSH 4
f32.ADD
Halt
",
    );

    assert_eq!(
        opcodes,
        vec![
            Opcode::F32Push(3.0f32.to_bits()),
            Opcode::F32Push(4.0f32.to_bits()),
            Opcode::F32Add,
            Opcode::Halt
        ]
    );
}

#[test]
fn folds_simple_constant_math() {
    let opcodes = optimize_math(
        "\
i32.PUSH 3
i32.PUSH 4
i32.ADD
Halt
",
    );

    assert_eq!(opcodes, vec![Opcode::I32Push(7), Opcode::Halt]);
}

#[test]
fn folds_zero_and_push_constants() {
    let opcodes = optimize_math(
        "\
i32.ZERO
i32.PUSH 4
i32.SUB
Halt
",
    );

    assert_eq!(opcodes, vec![Opcode::I32Push(-4), Opcode::Halt]);
}

#[test]
fn folds_chained_math() {
    let opcodes = optimize_math(
        "\
i32.PUSH 3
i32.PUSH 4
i32.ADD
i32.PUSH 5
i32.MUL
Halt
",
    );

    assert_eq!(opcodes, vec![Opcode::I32Push(35), Opcode::Halt]);
}

#[test]
fn folds_numeric_programs_when_safe() {
    let opcodes = optimize_math(
        "\
i32.PUSH 3
i32.PUSH 4
i32.SUB
Halt
",
    );

    assert_eq!(opcodes, vec![Opcode::I32Push(-1), Opcode::Halt]);
}

#[test]
fn does_not_fold_across_stack_change() {
    let opcodes = optimize_math(
        "\
i32.PUSH 3
i32.PUSH 4
Dup
i32.ADD
Halt
",
    );

    assert_eq!(
        opcodes,
        vec![
            Opcode::I32Push(3),
            Opcode::I32Push(4),
            Opcode::Dup,
            Opcode::I32Add,
            Opcode::Halt
        ]
    );
}

#[test]
fn constant_fold_math_does_not_fold_across_labels() {
    let opcodes = optimize_math(
        "\
i32.PUSH 3
.mid
i32.PUSH 4
i32.ADD
Halt
",
    );

    assert_eq!(
        opcodes,
        vec![
            Opcode::I32Push(3),
            Opcode::I32Push(4),
            Opcode::I32Add,
            Opcode::Halt
        ]
    );
}

#[test]
fn does_not_fold_division_by_zero() {
    let opcodes = optimize_math(
        "\
i32.PUSH 3
i32.ZERO
i32.DIV
Halt
",
    );

    assert_eq!(
        opcodes,
        vec![
            Opcode::I32Push(3),
            Opcode::I32Zero,
            Opcode::I32Div,
            Opcode::Halt
        ]
    );
}

#[test]
fn folding_wraps_and_truncates_like_the_machine() {
    let opcodes = optimize_math("i32.PUSH 2147483647\ni32.PUSH 1\ni32.ADD\nHalt\n");
    assert_eq!(opcodes, vec![Opcode::I32Push(i32::MIN), Opcode::Halt]);
    let opcodes = optimize_math("i32.PUSH -7\ni32.PUSH 2\ni32.DIV\nHalt\n");
    assert_eq!(opcodes, vec![Opcode::I32Push(-3), Opcode::Halt]);
    let opcodes = optimize_math("i32.PUSH -2147483648\ni32.PUSH -1\ni32.DIV\nHalt\n");
    assert_eq!(opcodes, vec![Opcode::I32Push(i32::MIN), Opcode::Halt]);
}

#[test]
fn compile_source_folds_both_kinds() {
    let opcodes = dvm::frontend::compile_source(
        "p",
        "i32.PUSH 6\ni32.PUSH 7\ni32.MUL\nf32.PUSH 1.5\nf32.PUSH 2\nf32.ADD\nHalt\n",
        &decode,
        eval,
    )
    .unwrap();
    assert_eq!(opcodes, vec![Opcode::I32Push(42), Opcode::F32Push(3.5f32.to_bits()), Opcode::Halt]);
}
