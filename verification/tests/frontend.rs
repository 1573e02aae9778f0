use dvm::frontend::assembler::assemble_ir;
use dvm::frontend::compile_source;
use dvm::frontend::ir::lower_to_ir;
use dvm::frontend::parser::parse_source;
use dvm::frontend::passes::noop::NoopOptimizationPass;
use dvm::frontend::passes::optimize_ir;
use dvm::frontend::passes::remove::RemoveInstructionPass;
use dvm::opcode::Opcode;
use dvm::semantics::FloatOp;

fn decode(text: String) -> Option<u32> {
    text.parse::<f32>().ok().map(|f| f.to_bits())
}

fn eval(op: FloatOp) -> u32 {
    let f = f32::from_bits;
    match op {
        FloatOp::Add(x, y) => (f(x) + f(y)).to_bits(),
        FloatOp::Sub(x, y) => (f(x) - f(y)).to_bits(),
        FloatOp::Mul(x, y) => (f(x) * f(y)).to_bits(),
        FloatOp::Div(x, y) => (f(x) / f(y)).to_bits(),
        FloatOp::Gt(x, y) => (f(x) > f(y)) as u32,
        FloatOp::Ge(x, y) => (f(x) >= f(y)) as u32,
        FloatOp::FromI32(v) => (v as f32).to_bits(),
        FloatOp::ToI32(x) => f(x).round() as i32 as u32,
    }
}

fn compile(path: &str, source: &str) -> Result<Vec<Opcode>, String> {
    compile_source(path, source, &decode, eval)
}

#[test]
fn mod_compiles_forward_symbolic_jump() {
    let opcodes = compile(
        "<test>",
        "\
Jump .done
i32.ZERO
.done
Halt
",
    )
    .unwrap();

    assert_eq!(
        opcodes,
        vec![Opcode::I32Push(1), Opcode::Jump, Opcode::I32Zero, Opcode::Halt]
    );
}

#[test]
fn mod_compiles_backward_symbolic_jump() {
    let opcodes = compile(
        "<test>",
        "\
.loop
i32.ZERO
Jump .loop
",
    )
    .unwrap();

    assert_eq!(opcodes, vec![Opcode::I32Zero, Opcode::I32Push(-3), Opcode::Jump]);
}

#[test]
fn mod_rejects_duplicate_labels() {
    let error = compile(
        "<test>",
        "\
.loop
i32.ZERO
.loop
Halt
",
    )
    .unwrap_err();

    assert!(error.contains("duplicate label .loop"));
}

#[test]
fn mod_rejects_unknown_labels() {
    let error = compile("<test>", "Jump .missing\n").unwrap_err();

    assert!(error.contains("unknown label .missing"));
}

#[test]
fn mod_rejects_labels_without_target_instruction() {
    let error = compile("<test>", ".dangling\n").unwrap_err();

    assert!(error.contains("label .dangling does not point to an instruction"));
}

#[test]
fn frontend_rejects_unknown_labels() {
    let error = compile("<test>", "Jump .missing\n").unwrap_err();

    assert!(error.contains("unknown label .missing"));
}

#[test]
fn frontend_rejects_labels_without_target_instruction() {
    let error = compile("<test>", ".dangling\n").unwrap_err();

    assert!(error.contains("label .dangling does not point to an instruction"));
}

#[test]
fn mod_noop_pipeline_matches_direct_assembly() {
    let parsed = parse_source(
        "<test>",
        "\
.loop
i32.ZERO
Jump .loop
",
        &decode,
    )
    .unwrap();
    let mut ir = lower_to_ir("<test>", parsed).unwrap();
    let direct = assemble_ir("<test>", &ir).unwrap();

    let noop = NoopOptimizationPass;
    optimize_ir(&mut ir, &[&noop]).unwrap();
    let optimized = assemble_ir("<test>", &ir).unwrap();

    assert_eq!(direct, optimized);
}

#[test]
fn mod_relocates_labels_when_pass_removes_instruction() {
    let parsed = parse_source(
        "<test>",
        "\
.loop
Noop
Jump .loop
",
        &decode,
    )
    .unwrap();
    let mut ir = lower_to_ir("<test>", parsed).unwrap();
    let pass = RemoveInstructionPass { index: 0 };
    optimize_ir(&mut ir, &[&pass]).unwrap();
    let opcodes = assemble_ir("<test>", &ir).unwrap();

    assert_eq!(opcodes, vec![Opcode::I32Push(-2), Opcode::Jump]);
}

#[test]
fn mod_rejects_removing_final_labeled_instruction() {
    let parsed = parse_source(
        "<test>",
        "\
i32.ZERO
.done
Halt
",
        &decode,
    )
    .unwrap();
    let mut ir = lower_to_ir("<test>", parsed).unwrap();
    let pass = RemoveInstructionPass { index: 1 };
    let error = optimize_ir(&mut ir, &[&pass]).unwrap_err();

    assert!(error.contains("cannot remove final instruction"));
    assert!(error.contains(".done"));
}

#[test]
fn duplicate_label_message_names_both_lines() {
    let error = compile("prog.dvm", ".a\nNoop\n.a\nHalt\n").unwrap_err();
    assert_eq!(error, "prog.dvm:3: duplicate label .a (previously defined on line 1)");
}

#[test]
fn unknown_label_message_names_the_line() {
    let error = compile("prog.dvm", "Noop\nJumpIfTrue .nowhere\n").unwrap_err();
    assert_eq!(error, "prog.dvm:2: unknown label .nowhere");
}

#[test]
fn dangling_label_message_names_the_line() {
    let error = compile("prog.dvm", "Halt\n\n.end\n").unwrap_err();
    assert_eq!(error, "prog.dvm:3: label .end does not point to an instruction");
}

#[test]
fn empty_source_is_rejected() {
    let error = compile("prog.dvm", "// nothing\n\n").unwrap_err();
    assert_eq!(error, "program file prog.dvm did not contain any opcodes");
}

#[test]
fn bad_label_names_are_rejected() {
    let error = compile("p", ".9lives\nHalt\n").unwrap_err();
    assert_eq!(error, "p:1: invalid label .9lives; labels must match .[A-Za-z_][A-Za-z0-9_]*");
    let error = compile("p", ".a b\nHalt\n").unwrap_err();
    assert_eq!(error, "p:1: labels must be standalone lines");
    let error = compile("p", "Jump .x .y\n.x\nHalt\n").unwrap_err();
    assert_eq!(error, "p:1: unexpected extra argument for Jump: .y");
}

#[test]
fn unknown_opcode_message_names_the_line() {
    let error = compile("p", "Noop\nFly\n").unwrap_err();
    assert_eq!(error, "p:2: unknown opcode: Fly");
}

#[test]
fn jump_lands_on_its_label() {
    // The jump at position 3 (push at 2) must land on position 5, where `.target` points.
    let opcodes = compile("p", "Noop\nNoop\nJump .target\nNoop\n.target\nHalt\n").unwrap();
    assert_eq!(
        opcodes,
        vec![Opcode::Noop, Opcode::Noop, Opcode::I32Push(1), Opcode::Jump, Opcode::Noop, Opcode::Halt]
    );
    // The jump instruction is at 3; it lands at 3 + 1 + 1 = 5.
}

#[test]
fn comments_and_blank_lines_are_ignored() {
    let opcodes = compile("p", "  // header\n\ni32.PUSH 5 // five\n   Halt   \n").unwrap();
    assert_eq!(opcodes, vec![Opcode::I32Push(5), Opcode::Halt]);
}

#[test]
fn removing_an_instruction_keeps_its_labels() {
    let parsed = parse_source("<test>", ".a\nNoop\n.b\nNoop\nHalt\n", &decode).unwrap();
    let mut ir = lower_to_ir("<test>", parsed).unwrap();
    ir.remove_instruction(0).unwrap();
    let names: Vec<Vec<String>> = ir
        .instructions
        .iter()
        .map(|i| i.labels_here.iter().map(|l| l.name.clone()).collect())
        .collect();
    assert_eq!(names, vec![vec![".a".to_string(), ".b".to_string()], vec![]]);
    let error = ir.remove_instruction(5).unwrap_err();
    assert_eq!(error, "instruction index 5 out of bounds");
}

#[test]
fn metadata_records_labels_and_lines() {
    let program = dvm::frontend::compile_source_with_metadata("p", ".start\nJump .start\nHalt\n", &decode, eval).unwrap();
    assert_eq!(program.opcodes, vec![Opcode::I32Push(-2), Opcode::Jump, Opcode::Halt]);
    assert_eq!(program.metadata.source_lines_by_ip, vec![2, 2, 3]);
    assert_eq!(
        program.metadata.labels_by_ip,
        vec![vec![".start".to_string()], vec![], vec![]]
    );
}

#[test]
fn passes_run_in_order_and_stop_at_the_first_failure() {
    let parsed = parse_source("<test>", "Noop\nNoop\nHalt\n", &decode).unwrap();
    let mut ir = lower_to_ir("<test>", parsed).unwrap();
    let first = RemoveInstructionPass { index: 0 };
    let missing = RemoveInstructionPass { index: 7 };
    let never = RemoveInstructionPass { index: 0 };
    let error = optimize_ir(&mut ir, &[&first, &missing, &never]).unwrap_err();
    assert_eq!(error, "instruction index 7 out of bounds");
    assert_eq!(assemble_ir("<test>", &ir).unwrap(), vec![Opcode::Noop, Opcode::Halt]);
}
