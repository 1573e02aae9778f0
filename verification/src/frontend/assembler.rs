//! Laying out the intermediate form as machine instructions, with symbolic jumps resolved.
use vstd::prelude::*;
use crate::frontend::ir::{empty_program_message, IrInstructionKind, IrProgram, IrSpec, KindSpec, LabelSpec};
use crate::opcode::{Instruction, Opcode, OpcodeSpec};
use crate::semantics::jump_target;
use crate::text::{decimal, push_decimal, push_str};

verus! {

/// What the assembler records about each emitted instruction.
pub struct ProgramMetadata {
    /// The labels that point at each instruction.
    pub labels_by_ip: Vec<Vec<String>>,
    /// The source line each instruction came from.
    pub source_lines_by_ip: Vec<usize>,
}

/// The machine instructions of a program and what is known of each.
pub struct AssembledProgram {
    pub opcodes: Vec<Opcode>,
    pub metadata: ProgramMetadata,
}

/// An assembled program as a mathematical value.
pub struct AssembledSpec {
    pub opcodes: Seq<OpcodeSpec>,
    pub labels: Seq<Seq<Seq<char>>>,
    pub lines: Seq<nat>,
}

impl View for AssembledProgram {
    type V = AssembledSpec;

    open spec fn view(&self) -> AssembledSpec {
        AssembledSpec {
            opcodes: self.opcodes@.map_values(|o: Opcode| o@),
            labels: self.metadata.labels_by_ip@.map_values(|v: Vec<String>| v@.map_values(|s: String| s@)),
            lines: self.metadata.source_lines_by_ip@.map_values(|n: usize| n as nat),
        }
    }
}

/// How many machine instructions an intermediate instruction becomes: a jump to a label
/// becomes a push of the distance and the jump.
pub open spec fn width(k: KindSpec) -> nat {
    match k {
        KindSpec::Concrete(_) => 1,
        _ => 2,
    }
}

/// Where instruction `i` starts among the machine instructions.
pub open spec fn position(ir: Seq<IrSpec>, i: int) -> nat
    decreases i,
{
    if i <= 0 {
        0
    } else {
        position(ir, i - 1) + width(ir[i - 1].kind)
    }
}

/// The labels of the first `n` instructions in order, each with the position it points to.
pub open spec fn label_entries(ir: Seq<IrSpec>, n: int) -> Seq<(LabelSpec, nat)>
    decreases n,
{
    if n <= 0 {
        seq![]
    } else {
        label_entries(ir, n - 1) + ir[n - 1].labels.map_values(|l: LabelSpec| (l, position(ir, n - 1)))
    }
}

/// The first of the entries before `upto` that is named `name`.
pub open spec fn find_name(e: Seq<(LabelSpec, nat)>, name: Seq<char>, upto: int) -> Option<int>
    decreases upto,
{
    if upto <= 0 {
        None
    } else {
        match find_name(e, name, upto - 1) {
            Some(k) => Some(k),
            None => if e[upto - 1].0.name == name { Some(upto - 1) } else { None },
        }
    }
}

/// The first entry, from `from` on, whose name an earlier entry already has, and that earlier entry.
pub open spec fn first_duplicate(e: Seq<(LabelSpec, nat)>, from: nat) -> Option<(int, int)>
    decreases e.len() - from,
{
    if from >= e.len() {
        None
    } else {
        match find_name(e, e[from as int].0.name, from as int) {
            Some(k) => Some((k, from as int)),
            None => first_duplicate(e, from + 1),
        }
    }
}

pub open spec fn duplicate_message(path: Seq<char>, later: LabelSpec, earlier: LabelSpec) -> Seq<char> {
    path + ":"@ + decimal(later.line) + ": duplicate label "@ + later.name + " (previously defined on line "@
        + decimal(earlier.line) + ")"@
}

pub open spec fn unknown_label_message(path: Seq<char>, line: nat, label: Seq<char>) -> Seq<char> {
    path + ":"@ + decimal(line) + ": unknown label "@ + label
}

pub open spec fn delta_range_message(path: Seq<char>, line: nat, label: Seq<char>) -> Seq<char> {
    path + ":"@ + decimal(line) + ": jump delta to "@ + label + " exceeds i32 range"@
}

/// The code of a jump to `label` whose push of the distance stands at position `at`:
/// the distance makes the jump, at `at + 1`, land on the label's position.
pub open spec fn jump_code(path: Seq<char>, e: Seq<(LabelSpec, nat)>, at: nat, line: nat, label: Seq<char>, jump: OpcodeSpec) -> Result<Seq<OpcodeSpec>, Seq<char>> {
    match find_name(e, label, e.len() as int) {
        None => Err(unknown_label_message(path, line, label)),
        Some(k) => {
            let delta = e[k].1 - (at + 1) - 1;
            if i32::MIN <= delta <= i32::MAX {
                Ok(seq![Instruction::I32Push(delta as i32), jump])
            } else {
                Err(delta_range_message(path, line, label))
            }
        },
    }
}

/// The machine instructions of instruction `i`.
pub open spec fn emit_one(path: Seq<char>, ir: Seq<IrSpec>, e: Seq<(LabelSpec, nat)>, i: int) -> Result<Seq<OpcodeSpec>, Seq<char>> {
    match ir[i].kind {
        KindSpec::Concrete(op) => Ok(seq![op]),
        KindSpec::JumpLabel(l) => jump_code(path, e, position(ir, i), ir[i].line, l, Instruction::Jump),
        KindSpec::JumpIfTrueLabel(l) => jump_code(path, e, position(ir, i), ir[i].line, l, Instruction::JumpIfTrue),
    }
}

/// The machine instructions of the first `n` instructions with the source line of each,
/// or the error of the first that cannot be emitted.
pub open spec fn emit_upto(path: Seq<char>, ir: Seq<IrSpec>, e: Seq<(LabelSpec, nat)>, n: int) -> Result<(Seq<OpcodeSpec>, Seq<nat>), Seq<char>>
    decreases n,
{
    if n <= 0 {
        Ok((seq![], seq![]))
    } else {
        match emit_upto(path, ir, e, n - 1) {
            Err(m) => Err(m),
            Ok((ops, lines)) => match emit_one(path, ir, e, n - 1) {
                Err(m) => Err(m),
                Ok(code) => Ok((ops + code, lines + Seq::new(code.len(), |j: int| ir[n - 1].line))),
            },
        }
    }
}

/// The names of the labels at each machine instruction of the first `n` instructions.
pub open spec fn labels_upto(ir: Seq<IrSpec>, n: int) -> Seq<Seq<Seq<char>>>
    decreases n,
{
    if n <= 0 {
        seq![]
    } else {
        let here = ir[n - 1].labels.map_values(|l: LabelSpec| l.name);
        let rest: Seq<Seq<Seq<char>>> = if width(ir[n - 1].kind) == 2 { seq![seq![]] } else { seq![] };
        labels_upto(ir, n - 1) + seq![here] + rest
    }
}

/// The assembled program: no label may be declared twice, every jump must name a declared
/// label, and each jump becomes a push of the distance to its label and the jump itself.
pub open spec fn assemble_spec(path: Seq<char>, ir: Seq<IrSpec>) -> Result<AssembledSpec, Seq<char>> {
    if ir.len() == 0 {
        Err(empty_program_message(path))
    } else {
        let e = label_entries(ir, ir.len() as int);
        match first_duplicate(e, 0) {
            Some((k, j)) => Err(duplicate_message(path, e[j].0, e[k].0)),
            None => match emit_upto(path, ir, e, ir.len() as int) {
                Err(m) => Err(m),
                Ok((ops, lines)) => Ok(AssembledSpec { opcodes: ops, labels: labels_upto(ir, ir.len() as int), lines }),
            },
        }
    }
}

/// A declared label while assembling.
struct LabelSlot {
    name: String,
    at: usize,
    line: usize,
}

impl View for LabelSlot {
    type V = (LabelSpec, nat);

    closed spec fn view(&self) -> (LabelSpec, nat) {
        (LabelSpec { name: self.name@, line: self.line as nat }, self.at as nat)
    }
}

spec fn slots(v: Seq<LabelSlot>) -> Seq<(LabelSpec, nat)> {
    v.map_values(|s: LabelSlot| s@)
}

/// `find_name` is the first entry with the name.
proof fn lemma_find_name(e: Seq<(LabelSpec, nat)>, name: Seq<char>, upto: int)
    requires
        0 <= upto <= e.len(),
    ensures
        match find_name(e, name, upto) {
            Some(k) => 0 <= k < upto && e[k].0.name == name && forall|j: int| 0 <= j < k ==> #[trigger] e[j].0.name != name,
            None => forall|j: int| 0 <= j < upto ==> #[trigger] e[j].0.name != name,
        },
    decreases upto,
{
    if upto > 0 {
        lemma_find_name(e, name, upto - 1);
    }
}

/// Once an instruction cannot be emitted, neither can any longer prefix.
proof fn lemma_emit_error_stays(path: Seq<char>, ir: Seq<IrSpec>, e: Seq<(LabelSpec, nat)>, i: int, j: int)
    requires
        0 <= i <= j,
        emit_upto(path, ir, e, i) is Err,
    ensures
        emit_upto(path, ir, e, j) == emit_upto(path, ir, e, i),
    decreases j - i,
{
    if j > i {
        lemma_emit_error_stays(path, ir, e, i, j - 1);
    }
}

/// Instruction positions grow by at most two per instruction.
proof fn lemma_position_bound(ir: Seq<IrSpec>, i: int)
    ensures
        position(ir, i) <= 2 * (if i < 0 { 0 } else { i }),
    decreases i,
{
    if i > 0 {
        lemma_position_bound(ir, i - 1);
    }
}

fn find_entry(entries: &Vec<LabelSlot>, name: &String, upto: usize) -> (r: Option<usize>)
    requires
        upto <= entries@.len(),
    ensures
        match r {
            Some(k) => k < upto && find_name(slots(entries@), name@, upto as int) == Some(k as int),
            None => find_name(slots(entries@), name@, upto as int) is None,
        },
{
    let ghost e = slots(entries@);
    proof { lemma_find_name(e, name@, upto as int); }
    let mut k: usize = 0;
    while k < upto
        invariant
            k <= upto <= entries@.len(),
            e == slots(entries@),
            forall|j: int| 0 <= j < k ==> #[trigger] e[j].0.name != name@,
        decreases upto - k,
    {
        if entries[k].name == *name {
            proof {
                lemma_find_name(e, name@, upto as int);
                assert(e[k as int].0.name == name@);
                match find_name(e, name@, upto as int) {
                    Some(k2) => {
                        if k2 < k {
                            assert(e[k2].0.name != name@);
                        } else if k2 > k {
                            assert(e[k as int].0.name != name@);
                        }
                    },
                    None => {
                        assert(e[k as int].0.name != name@);
                    },
                }
            }
            return Some(k);
        }
        proof { assert(e[k as int].0.name != name@); }
        k += 1;
    }
    proof {
        lemma_find_name(e, name@, upto as int);
        if let Some(k2) = find_name(e, name@, upto as int) {
            assert(e[k2].0.name != name@);
        }
    }
    None
}

fn width_of(k: &IrInstructionKind) -> (w: usize)
    ensures
        w == width(k@),
{
    match k {
        IrInstructionKind::Concrete(_) => 1,
        _ => 2,
    }
}

fn jump_distance(path: &str, entries: &Vec<LabelSlot>, label: &String, at: usize, line: usize) -> (r: Result<i32, String>)
    ensures
        ({
            let e = slots(entries@);
            match find_name(e, label@, e.len() as int) {
                None => r matches Err(m) && m@ == unknown_label_message(path@, line as nat, label@),
                Some(k) => {
                    let delta = e[k].1 - (at + 1) - 1;
                    if i32::MIN <= delta <= i32::MAX {
                        r == Ok::<i32, String>(delta as i32)
                    } else {
                        r matches Err(m) && m@ == delta_range_message(path@, line as nat, label@)
                    }
                },
            }
        }),
{
    let ghost e = slots(entries@);
    match find_entry(entries, label, entries.len()) {
        None => {
            let mut m = String::from_str(path);
            push_str(&mut m, ":");
            push_decimal(&mut m, line);
            push_str(&mut m, ": unknown label ");
            push_str(&mut m, label.as_str());
            Err(m)
        },
        Some(k) => {
            let target = entries[k].at;
            proof { assert(e[k as int].1 == target); }
            let delta: i128 = target as i128 - at as i128 - 2;
            if delta < -0x8000_0000i128 || delta > 0x7fff_ffffi128 {
                let mut m = String::from_str(path);
                push_str(&mut m, ":");
                push_decimal(&mut m, line);
                push_str(&mut m, ": jump delta to ");
                push_str(&mut m, label.as_str());
                push_str(&mut m, " exceeds i32 range");
                Err(m)
            } else {
                Ok(delta as i32)
            }
        },
    }
}

/// The names of the labels that point at an instruction.
fn label_names(instr_labels: &Vec<crate::frontend::ir::LabelDecl>) -> (names: Vec<String>)
    ensures
        names@.map_values(|s: String| s@) == instr_labels@.map_values(|l: crate::frontend::ir::LabelDecl| l@).map_values(|l: LabelSpec| l.name),
{
    let mut names: Vec<String> = Vec::new();
    let mut j: usize = 0;
    while j < instr_labels.len()
        invariant
            j <= instr_labels@.len(),
            names@.len() == j,
            forall|t: int| 0 <= t < j ==> #[trigger] names@[t]@ == instr_labels@[t].name@,
        decreases instr_labels@.len() - j,
    {
        names.push(instr_labels[j].name.clone());
        j += 1;
    }
    proof {
        assert(names@.map_values(|s: String| s@) =~= instr_labels@.map_values(|l: crate::frontend::ir::LabelDecl| l@).map_values(|l: LabelSpec| l.name));
    }
    names
}

/// The machine instructions of the intermediate form, with the labels and source line of each.
pub fn assemble_ir_with_metadata(path: &str, ir: &IrProgram) -> (r: Result<AssembledProgram, String>)
    requires
        ir@.len() <= usize::MAX / 2,
    ensures
        match assemble_spec(path@, ir@) {
            Ok(a) => r matches Ok(p) && p@ == a,
            Err(e) => r matches Err(m) && m@ == e,
        },
{
    let n = ir.instructions.len();
    if n == 0 {
        let mut m = String::from_str("program file ");
        push_str(&mut m, path);
        push_str(&mut m, " did not contain any opcodes");
        return Err(m);
    }
    let ghost irv = ir@;
    // The declared labels, each with the position it points to.
    let mut entries: Vec<LabelSlot> = Vec::new();
    let mut positions: Vec<usize> = Vec::new();
    let mut pos: usize = 0;
    let mut i: usize = 0;
    while i < n
        invariant
            n == irv.len(),
            irv == ir@,
            n <= usize::MAX / 2,
            i <= n,
            pos == position(irv, i as int),
            slots(entries@) == label_entries(irv, i as int),
            positions@.len() == i,
            forall|j: int| 0 <= j < i ==> #[trigger] positions@[j] == position(irv, j),
        decreases n - i,
    {
        proof { lemma_position_bound(irv, i as int); }
        let instr = &ir.instructions[i];
        let ghost here = irv[i as int].labels;
        let ghost before = label_entries(irv, i as int);
        let mut j: usize = 0;
        while j < instr.labels_here.len()
            invariant
                j <= instr.labels_here@.len(),
                here == instr.labels_here@.map_values(|l: crate::frontend::ir::LabelDecl| l@),
                slots(entries@) == before + here.take(j as int).map_values(|l: LabelSpec| (l, pos as nat)),
            decreases instr.labels_here@.len() - j,
        {
            let l = &instr.labels_here[j];
            let ghost old_entries = slots(entries@);
            entries.push(LabelSlot { name: l.name.clone(), at: pos, line: l.source_line });
            proof {
                assert(here.take(j + 1).map_values(|l: LabelSpec| (l, pos as nat))
                    =~= here.take(j as int).map_values(|l: LabelSpec| (l, pos as nat)).push((here[j as int], pos as nat)));
                assert(slots(entries@) =~= old_entries.push((here[j as int], pos as nat)));
            }
            j += 1;
        }
        proof {
            assert(here.take(j as int) =~= here);
        }
        positions.push(pos);
        pos = pos + width_of(&instr.kind);
        i += 1;
    }
    let ghost e = slots(entries@);
    // No label may be declared twice.
    let mut t: usize = 0;
    while t < entries.len()
        invariant
            e == slots(entries@),
            t <= entries@.len(),
            first_duplicate(e, 0) == first_duplicate(e, t as nat),
            e == label_entries(irv, n as int),
            irv == ir@,
            n == irv.len(),
            n > 0,
        decreases entries@.len() - t,
    {
        match find_entry(&entries, &entries[t].name, t) {
            Some(k) => {
                let later = &entries[t];
                let earlier = &entries[k];
                let mut m = String::from_str(path);
                push_str(&mut m, ":");
                push_decimal(&mut m, later.line);
                push_str(&mut m, ": duplicate label ");
                push_str(&mut m, later.name.as_str());
                push_str(&mut m, " (previously defined on line ");
                push_decimal(&mut m, earlier.line);
                push_str(&mut m, ")");
                proof {
                    assert(first_duplicate(e, t as nat) == Some((k as int, t as int)));
                    assert(e[t as int].0 == LabelSpec { name: later.name@, line: later.line as nat });
                    assert(e[k as int].0 == LabelSpec { name: earlier.name@, line: earlier.line as nat });
                }
                return Err(m);
            },
            None => {},
        }
        t += 1;
    }
    // Emit the instructions.
    let mut opcodes: Vec<Opcode> = Vec::new();
    let mut labels_by_ip: Vec<Vec<String>> = Vec::new();
    let mut source_lines_by_ip: Vec<usize> = Vec::new();
    proof {
        assert(opcodes@.map_values(|o: Opcode| o@) =~= Seq::<OpcodeSpec>::empty());
        assert(source_lines_by_ip@.map_values(|x: usize| x as nat) =~= Seq::<nat>::empty());
        assert(labels_by_ip@.map_values(|v: Vec<String>| v@.map_values(|s: String| s@)) =~= Seq::<Seq<Seq<char>>>::empty());
    }
    let mut i: usize = 0;
    while i < n
        invariant
            first_duplicate(e, 0) is None,
            n == irv.len(),
            irv == ir@,
            i <= n,
            e == slots(entries@),
            e == label_entries(irv, n as int),
            positions@.len() == n,
            forall|j: int| 0 <= j < n ==> #[trigger] positions@[j] == position(irv, j),
            emit_upto(path@, irv, e, i as int) == Ok::<(Seq<OpcodeSpec>, Seq<nat>), Seq<char>>((
                opcodes@.map_values(|o: Opcode| o@),
                source_lines_by_ip@.map_values(|x: usize| x as nat),
            )),
            labels_by_ip@.map_values(|v: Vec<String>| v@.map_values(|s: String| s@)) == labels_upto(irv, i as int),
        decreases n - i,
    {
        let instr = &ir.instructions[i];
        let ghost ops0 = opcodes@.map_values(|o: Opcode| o@);
        let ghost lines0 = source_lines_by_ip@.map_values(|x: usize| x as nat);
        let ghost labels0 = labels_by_ip@.map_values(|v: Vec<String>| v@.map_values(|s: String| s@));
        let names = label_names(&instr.labels_here);
        let ghost nv = names@.map_values(|s: String| s@);
        proof {
            assert(irv[i as int] == instr@);
            assert(nv == irv[i as int].labels.map_values(|l: LabelSpec| l.name));
        }
        labels_by_ip.push(names);
        proof {
            assert(labels_by_ip@.map_values(|v: Vec<String>| v@.map_values(|s: String| s@)) =~= labels0.push(nv));
        }
        let at = positions[i];
        let line = instr.source_line;
        match &instr.kind {
            IrInstructionKind::Concrete(op) => {
                opcodes.push(op.copy());
                source_lines_by_ip.push(line);
            },
            IrInstructionKind::JumpLabel(label) => {
                let d = match jump_distance(path, &entries, label, at, line) {
                    Ok(d) => d,
                    Err(m) => {
                        proof { lemma_emit_error_stays(path@, irv, e, i + 1, n as int); }
                        return Err(m);
                    },
                };
                opcodes.push(Opcode::I32Push(d));
                opcodes.push(Opcode::Jump);
                source_lines_by_ip.push(line);
                source_lines_by_ip.push(line);
                let none: Vec<String> = Vec::new();
                proof { assert(none@.map_values(|s: String| s@) =~= Seq::<Seq<char>>::empty()); }
                labels_by_ip.push(none);
            },
            IrInstructionKind::JumpIfTrueLabel(label) => {
                let d = match jump_distance(path, &entries, label, at, line) {
                    Ok(d) => d,
                    Err(m) => {
                        proof { lemma_emit_error_stays(path@, irv, e, i + 1, n as int); }
                        return Err(m);
                    },
                };
                opcodes.push(Opcode::I32Push(d));
                opcodes.push(Opcode::JumpIfTrue);
                source_lines_by_ip.push(line);
                source_lines_by_ip.push(line);
                let none: Vec<String> = Vec::new();
                proof { assert(none@.map_values(|s: String| s@) =~= Seq::<Seq<char>>::empty()); }
                labels_by_ip.push(none);
            },
        }
        proof {
            let code = emit_one(path@, irv, e, i as int)->Ok_0;
            assert(opcodes@.map_values(|o: Opcode| o@) =~= ops0 + code);
            assert(source_lines_by_ip@.map_values(|x: usize| x as nat) =~= lines0 + Seq::new(code.len(), |j: int| irv[i as int].line));
            let lv = labels_by_ip@.map_values(|v: Vec<String>| v@.map_values(|s: String| s@));
            if width(irv[i as int].kind) == 2 {
                assert(lv =~= labels0.push(nv).push(Seq::<Seq<char>>::empty()));
            } else {
                assert(lv =~= labels0.push(nv));
            }
            assert(lv =~= labels_upto(irv, i + 1));
        }
        i += 1;
    }
    Ok(AssembledProgram { opcodes, metadata: ProgramMetadata { labels_by_ip, source_lines_by_ip } })
}

/// Each entry is a label of some instruction, with that instruction's position.
proof fn lemma_entry_origin(ir: Seq<IrSpec>, n: int, k: int)
    requires
        0 <= n <= ir.len(),
        0 <= k < label_entries(ir, n).len(),
    ensures
        exists|t: int, j: int| 0 <= t < n && 0 <= j < ir[t].labels.len()
            && #[trigger] label_entries(ir, n)[k] == (ir[t].labels[j], position(ir, t)),
    decreases n,
{
    let prev = label_entries(ir, n - 1);
    if k < prev.len() {
        lemma_entry_origin(ir, n - 1, k);
        let (t, j) = choose|t: int, j: int| 0 <= t < n - 1 && 0 <= j < ir[t].labels.len()
            && #[trigger] label_entries(ir, n - 1)[k] == (ir[t].labels[j], position(ir, t));
        assert(label_entries(ir, n)[k] == (ir[t].labels[j], position(ir, t)));
    } else {
        let j = k - prev.len();
        assert(label_entries(ir, n)[k] == (ir[n - 1].labels[j], position(ir, n - 1)));
    }
}

/// Emitted code is laid out by position: instruction `i` occupies `width` places from `position(ir, i)`.
proof fn lemma_emit_layout(path: Seq<char>, ir: Seq<IrSpec>, e: Seq<(LabelSpec, nat)>, n: int)
    requires
        0 <= n <= ir.len(),
        emit_upto(path, ir, e, n) is Ok,
    ensures
        ({
            let ops = emit_upto(path, ir, e, n)->Ok_0.0;
            &&& ops.len() == position(ir, n)
            &&& forall|i: int| #![trigger emit_one(path, ir, e, i)] 0 <= i < n ==> {
                &&& emit_one(path, ir, e, i) is Ok
                &&& emit_one(path, ir, e, i)->Ok_0.len() == width(ir[i].kind)
                &&& ops.subrange(position(ir, i) as int, (position(ir, i) + width(ir[i].kind)) as int) == emit_one(path, ir, e, i)->Ok_0
            }
        }),
    decreases n,
{
    if n > 0 {
        lemma_emit_layout(path, ir, e, n - 1);
        let prev = emit_upto(path, ir, e, n - 1)->Ok_0.0;
        let code = emit_one(path, ir, e, n - 1)->Ok_0;
        let ops = emit_upto(path, ir, e, n)->Ok_0.0;
        assert(ops == prev + code);
        assert forall|i: int| #![trigger emit_one(path, ir, e, i)] 0 <= i < n implies {
            &&& emit_one(path, ir, e, i) is Ok
            &&& emit_one(path, ir, e, i)->Ok_0.len() == width(ir[i].kind)
            &&& ops.subrange(position(ir, i) as int, (position(ir, i) + width(ir[i].kind)) as int) == emit_one(path, ir, e, i)->Ok_0
        } by {
            if i < n - 1 {
                lemma_position_mono(ir, i + 1, n - 1);
                assert(ops.subrange(position(ir, i) as int, (position(ir, i) + width(ir[i].kind)) as int)
                    =~= prev.subrange(position(ir, i) as int, (position(ir, i) + width(ir[i].kind)) as int));
            } else {
                assert(ops.subrange(position(ir, i) as int, (position(ir, i) + width(ir[i].kind)) as int) =~= code);
            }
        }
    }
}

/// Positions only grow.
proof fn lemma_position_mono(ir: Seq<IrSpec>, i: int, j: int)
    requires
        0 <= i <= j,
    ensures
        position(ir, i) <= position(ir, j),
    decreases j - i,
{
    if j > i {
        lemma_position_mono(ir, i, j - 1);
    }
}

/// A jump to a label lands on the instruction that the label marks: in the assembled program,
/// the distance pushed before the jump takes the jump, from its own place, to the position
/// where that instruction starts.
pub proof fn lemma_jump_lands_on_label(path: Seq<char>, ir: Seq<IrSpec>, i: int)
    requires
        2 * ir.len() <= i32::MAX,
        assemble_spec(path, ir) is Ok,
        0 <= i < ir.len(),
        ir[i].kind is JumpLabel || ir[i].kind is JumpIfTrueLabel,
    ensures
        ({
            let ops = assemble_spec(path, ir)->Ok_0.opcodes;
            let at = position(ir, i) as int;
            let target = match ir[i].kind {
                KindSpec::JumpLabel(l) => l,
                KindSpec::JumpIfTrueLabel(l) => l,
                _ => seq![],
            };
            &&& ops[at + 1] == (if ir[i].kind is JumpLabel { OpcodeSpec::Jump } else { OpcodeSpec::JumpIfTrue })
            &&& exists|t: int, j: int| 0 <= t < ir.len() && 0 <= j < ir[t].labels.len() && #[trigger] ir[t].labels[j].name == target
                && (ops[at] matches Instruction::I32Push(d) && jump_target((at + 1) as nat, d) == Ok::<nat, Seq<char>>(position(ir, t)))
        }),
{
    let e = label_entries(ir, ir.len() as int);
    lemma_emit_layout(path, ir, e, ir.len() as int);
    let code = emit_one(path, ir, e, i)->Ok_0;
    let ops = emit_upto(path, ir, e, ir.len() as int)->Ok_0.0;
    let at = position(ir, i) as int;
    lemma_position_mono(ir, i + 1, ir.len() as int);
    let w = width(ir[i].kind) as int;
    let sub = ops.subrange(at, at + w);
    assert(sub == code);
    assert(sub[0] == ops[at]);
    assert(sub[1] == ops[at + 1]);
    let target = match ir[i].kind {
        KindSpec::JumpLabel(l) => l,
        KindSpec::JumpIfTrueLabel(l) => l,
        _ => seq![],
    };
    lemma_find_name(e, target, e.len() as int);
    let k = find_name(e, target, e.len() as int)->Some_0;
    lemma_entry_origin(ir, ir.len() as int, k);
    let (t, j) = choose|t: int, j: int| 0 <= t < ir.len() && 0 <= j < ir[t].labels.len()
        && #[trigger] label_entries(ir, ir.len() as int)[k] == (ir[t].labels[j], position(ir, t));
    lemma_position_bound(ir, t);
    lemma_position_bound(ir, i);
    assert(ir[t].labels[j].name == target);
    assert(e[k].1 == position(ir, t));
    let d = (position(ir, t) - (at + 1) - 1) as i32;
    assert(code[0] == Instruction::I32Push::<Seq<char>>(d));
    assert(jump_target((at + 1) as nat, d) == Ok::<nat, Seq<char>>(position(ir, t)));
}

/// The machine instructions of the intermediate form.
pub fn assemble_ir(path: &str, ir: &IrProgram) -> (r: Result<Vec<Opcode>, String>)
    requires
        ir@.len() <= usize::MAX / 2,
    ensures
        match assemble_spec(path@, ir@) {
            Ok(a) => r matches Ok(ops) && ops@.map_values(|o: Opcode| o@) == a.opcodes,
            Err(e) => r matches Err(m) && m@ == e,
        },
{
    let a = assemble_ir_with_metadata(path, ir)?;
    Ok(a.opcodes)
}

} // verus!
