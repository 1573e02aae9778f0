//! The intermediate form between parsing and assembly: instructions with the labels that mark them.
use vstd::prelude::*;
use crate::opcode::{Opcode, OpcodeSpec};
use crate::text::{decimal, push_decimal, push_str};

verus! {

/// A label declaration: its name (with the leading '.') and the source line it stands on.
pub struct LabelDecl {
    pub name: String,
    pub source_line: usize,
}

/// A label as a mathematical value.
pub struct LabelSpec {
    pub name: Seq<char>,
    pub line: nat,
}

impl View for LabelDecl {
    type V = LabelSpec;

    open spec fn view(&self) -> LabelSpec {
        LabelSpec { name: self.name@, line: self.source_line as nat }
    }
}

impl LabelDecl {
    /// A copy of the declaration.
    pub fn copy(&self) -> (r: LabelDecl)
        ensures
            r@ == self@,
    {
        LabelDecl { name: self.name.clone(), source_line: self.source_line }
    }
}

/// What a parsed line holds: a concrete instruction or a jump to a label.
pub enum ParsedInstructionKind {
    Concrete(Opcode),
    JumpLabel(String),
    JumpIfTrueLabel(String),
}

/// An instruction kind as a mathematical value.
pub enum KindSpec {
    Concrete(OpcodeSpec),
    JumpLabel(Seq<char>),
    JumpIfTrueLabel(Seq<char>),
}

impl View for ParsedInstructionKind {
    type V = KindSpec;

    open spec fn view(&self) -> KindSpec {
        match self {
            ParsedInstructionKind::Concrete(op) => KindSpec::Concrete(op@),
            ParsedInstructionKind::JumpLabel(l) => KindSpec::JumpLabel(l@),
            ParsedInstructionKind::JumpIfTrueLabel(l) => KindSpec::JumpIfTrueLabel(l@),
        }
    }
}

/// A parsed instruction and its source line.
pub struct ParsedInstruction {
    pub kind: ParsedInstructionKind,
    pub source_line: usize,
}

/// A parsed line that holds something: a label or an instruction.
pub enum ParsedItem {
    Label(LabelDecl),
    Instruction(ParsedInstruction),
}

/// A parsed item as a mathematical value.
pub enum ItemSpec {
    Label(LabelSpec),
    Instruction(KindSpec, nat),
}

impl View for ParsedItem {
    type V = ItemSpec;

    open spec fn view(&self) -> ItemSpec {
        match self {
            ParsedItem::Label(l) => ItemSpec::Label(l@),
            ParsedItem::Instruction(i) => ItemSpec::Instruction(i.kind@, i.source_line as nat),
        }
    }
}

/// The items of a source, in order.
pub struct ParsedProgram {
    pub items: Vec<ParsedItem>,
}

impl View for ParsedProgram {
    type V = Seq<ItemSpec>;

    open spec fn view(&self) -> Seq<ItemSpec> {
        self.items@.map_values(|i: ParsedItem| i@)
    }
}

/// What an intermediate instruction does.
pub enum IrInstructionKind {
    Concrete(Opcode),
    JumpLabel(String),
    JumpIfTrueLabel(String),
}

impl View for IrInstructionKind {
    type V = KindSpec;

    open spec fn view(&self) -> KindSpec {
        match self {
            IrInstructionKind::Concrete(op) => KindSpec::Concrete(op@),
            IrInstructionKind::JumpLabel(l) => KindSpec::JumpLabel(l@),
            IrInstructionKind::JumpIfTrueLabel(l) => KindSpec::JumpIfTrueLabel(l@),
        }
    }
}

/// An intermediate instruction with the labels that mark it and its source line.
pub struct IrInstruction {
    pub labels_here: Vec<LabelDecl>,
    pub kind: IrInstructionKind,
    pub source_line: usize,
}

/// An intermediate instruction as a mathematical value.
pub struct IrSpec {
    pub labels: Seq<LabelSpec>,
    pub kind: KindSpec,
    pub line: nat,
}

impl View for IrInstruction {
    type V = IrSpec;

    open spec fn view(&self) -> IrSpec {
        IrSpec { labels: self.labels_here@.map_values(|l: LabelDecl| l@), kind: self.kind@, line: self.source_line as nat }
    }
}

/// A program in intermediate form.
pub struct IrProgram {
    pub instructions: Vec<IrInstruction>,
}

impl View for IrProgram {
    type V = Seq<IrSpec>;

    open spec fn view(&self) -> Seq<IrSpec> {
        self.instructions@.map_values(|i: IrInstruction| i@)
    }
}

/// The labels of all instructions, in order.
pub open spec fn all_labels(ir: Seq<IrSpec>) -> Seq<LabelSpec>
    decreases ir.len(),
{
    if ir.len() == 0 {
        seq![]
    } else {
        ir[0].labels + all_labels(ir.drop_first())
    }
}

/// The instruction kinds, in order.
pub open spec fn kinds(ir: Seq<IrSpec>) -> Seq<KindSpec> {
    ir.map_values(|i: IrSpec| i.kind)
}

/// The message of a removal past the end.
pub open spec fn remove_bounds_message(index: nat) -> Seq<char> {
    "instruction index "@ + decimal(index) + " out of bounds"@
}

/// The message of a removal that would leave labels without an instruction.
pub open spec fn dangling_message(l: LabelSpec) -> Seq<char> {
    "cannot remove final instruction because label "@ + l.name + " from source line "@ + decimal(l.line)
        + " would become dangling"@
}

/// The program after removing instruction `index`, moving its labels onto the next one,
/// or the error and the program as the removal leaves it.
pub open spec fn remove_spec(ir: Seq<IrSpec>, index: nat) -> (Seq<IrSpec>, Result<(), Seq<char>>) {
    if index >= ir.len() {
        (ir, Err(remove_bounds_message(index)))
    } else {
        let removed = ir[index as int];
        let rest = ir.remove(index as int);
        if removed.labels.len() == 0 {
            (rest, Ok(()))
        } else if index >= rest.len() {
            (rest, Err(dangling_message(removed.labels[0])))
        } else {
            let next = rest[index as int];
            (rest.update(index as int, IrSpec { labels: removed.labels + next.labels, ..next }), Ok(()))
        }
    }
}

/// The labels of two programs one after the other are the labels of each, in order.
pub proof fn lemma_all_labels_concat(a: Seq<IrSpec>, b: Seq<IrSpec>)
    ensures
        all_labels(a + b) == all_labels(a) + all_labels(b),
    decreases a.len(),
{
    if a.len() == 0 {
        assert(a + b =~= b);
    } else {
        lemma_all_labels_concat(a.drop_first(), b);
        assert((a + b).drop_first() =~= a.drop_first() + b);
    }
}

/// The labels of a single instruction are its own.
pub proof fn lemma_all_labels_one(x: IrSpec)
    ensures
        all_labels(seq![x]) == x.labels,
{
    reveal_with_fuel(all_labels, 2);
    assert(seq![x].drop_first() =~= Seq::<IrSpec>::empty());
    assert(x.labels + Seq::<LabelSpec>::empty() =~= x.labels);
}

/// Removing an instruction keeps every label, in the same order: the labels of the removed
/// instruction move to the one after it.
pub proof fn lemma_remove_keeps_labels(ir: Seq<IrSpec>, index: nat)
    requires
        remove_spec(ir, index).1 is Ok,
    ensures
        all_labels(remove_spec(ir, index).0) == all_labels(ir),
{
    let i = index as int;
    let x = ir[i];
    let a = ir.take(i);
    let rest = ir.remove(i);
    assert(ir =~= a + seq![x] + ir.skip(i + 1));
    lemma_all_labels_concat(a + seq![x], ir.skip(i + 1));
    lemma_all_labels_concat(a, seq![x]);
    lemma_all_labels_one(x);
    if x.labels.len() == 0 {
        assert(rest =~= a + ir.skip(i + 1));
        lemma_all_labels_concat(a, ir.skip(i + 1));
        assert(all_labels(a) + x.labels =~= all_labels(a));
    } else {
        let next = ir[i + 1];
        let b = ir.skip(i + 2);
        let merged = IrSpec { labels: x.labels + next.labels, ..next };
        assert(ir.skip(i + 1) =~= seq![next] + b);
        assert(remove_spec(ir, index).0 =~= a + seq![merged] + b);
        lemma_all_labels_concat(seq![next], b);
        lemma_all_labels_one(next);
        lemma_all_labels_concat(a + seq![merged], b);
        lemma_all_labels_concat(a, seq![merged]);
        lemma_all_labels_one(merged);
        assert(all_labels(a) + x.labels + (next.labels + all_labels(b)) =~= all_labels(a) + (x.labels + next.labels) + all_labels(b));
    }
}

impl IrProgram {
    /// Removes instruction `index`; its labels move to the instruction after it.
    pub fn remove_instruction(&mut self, index: usize) -> (r: Result<(), String>)
        ensures
            ({
                let (p, res) = remove_spec(old(self)@, index as nat);
                &&& final(self)@ == p
                &&& match r { Ok(()) => res == Ok::<(), Seq<char>>(()), Err(e) => res == Err::<(), Seq<char>>(e@) }
            }),
    {
        if index >= self.instructions.len() {
            let mut e = String::from_str("instruction index ");
            push_decimal(&mut e, index);
            push_str(&mut e, " out of bounds");
            return Err(e);
        }
        let ghost before = self@;
        let mut removed = self.instructions.remove(index);
        proof {
            assert(self@ =~= before.remove(index as int));
        }
        if removed.labels_here.len() == 0 {
            return Ok(());
        }
        if index >= self.instructions.len() {
            let first = &removed.labels_here[0];
            let mut e = String::from_str("cannot remove final instruction because label ");
            push_str(&mut e, first.name.as_str());
            push_str(&mut e, " from source line ");
            push_decimal(&mut e, first.source_line);
            push_str(&mut e, " would become dangling");
            return Err(e);
        }
        let ghost mid = self@;
        let mut next = self.instructions.remove(index);
        let ghost next_view = next@;
        let ghost next_labels_seq = next.labels_here@;
        let ghost removed_labels = removed.labels_here@;
        removed.labels_here.append(&mut next.labels_here);
        next.labels_here = removed.labels_here;
        proof {
            assert(next.labels_here@ == removed_labels + next_labels_seq);
        }
        self.instructions.insert(index, next);
        proof {
            let l1 = before[index as int].labels;
            assert(next@.labels =~= l1 + mid[index as int].labels);
            assert(self@ =~= mid.update(index as int, IrSpec { labels: l1 + mid[index as int].labels, ..mid[index as int] }));
        }
        Ok(())
    }
}

/// The intermediate instructions of `items` when `pending` labels wait for the next instruction,
/// and the labels still waiting at the end.
pub open spec fn lower_items(items: Seq<ItemSpec>, pending: Seq<LabelSpec>) -> (Seq<IrSpec>, Seq<LabelSpec>)
    decreases items.len(),
{
    if items.len() == 0 {
        (seq![], pending)
    } else {
        match items[0] {
            ItemSpec::Label(l) => lower_items(items.drop_first(), pending.push(l)),
            ItemSpec::Instruction(k, n) => {
                let (rest, p) = lower_items(items.drop_first(), seq![]);
                (seq![IrSpec { labels: pending, kind: k, line: n }] + rest, p)
            },
        }
    }
}

/// Each item gives at most one instruction.
pub proof fn lemma_lower_items_len(items: Seq<ItemSpec>, pending: Seq<LabelSpec>)
    ensures
        lower_items(items, pending).0.len() <= items.len(),
    decreases items.len(),
{
    if items.len() > 0 {
        match items[0] {
            ItemSpec::Label(l) => lemma_lower_items_len(items.drop_first(), pending.push(l)),
            ItemSpec::Instruction(k, n) => lemma_lower_items_len(items.drop_first(), seq![]),
        }
    }
}

/// The message of a label at the end of the source.
pub open spec fn dangling_label_message(path: Seq<char>, l: LabelSpec) -> Seq<char> {
    path + ":"@ + decimal(l.line) + ": label "@ + l.name + " does not point to an instruction"@
}

/// The message of a source without instructions.
pub open spec fn empty_program_message(path: Seq<char>) -> Seq<char> {
    "program file "@ + path + " did not contain any opcodes"@
}

/// The intermediate form of parsed items: each instruction carries the labels just before it.
pub open spec fn lower_spec(path: Seq<char>, items: Seq<ItemSpec>) -> Result<Seq<IrSpec>, Seq<char>> {
    let (ir, pending) = lower_items(items, seq![]);
    if pending.len() > 0 {
        Err(dangling_label_message(path, pending[0]))
    } else if ir.len() == 0 {
        Err(empty_program_message(path))
    } else {
        Ok(ir)
    }
}

/// The intermediate form of parsed items: each instruction carries the labels just before it.
pub fn lower_to_ir(path: &str, parsed: ParsedProgram) -> (r: Result<IrProgram, String>)
    ensures
        match lower_spec(path@, parsed@) {
            Ok(ir) => r matches Ok(p) && p@ == ir,
            Err(e) => r matches Err(m) && m@ == e,
        },
{
    let items = &parsed.items;
    let ghost all = parsed@;
    let mut instructions: Vec<IrInstruction> = Vec::new();
    let mut pending: Vec<LabelDecl> = Vec::new();
    let mut i: usize = 0;
    proof {
        assert(all.skip(0) =~= all);
        assert(pending@.map_values(|l: LabelDecl| l@) =~= Seq::<LabelSpec>::empty());
        assert(instructions@.map_values(|x: IrInstruction| x@) =~= Seq::<IrSpec>::empty());
        let (rest, p) = lower_items(all, seq![]);
        assert(Seq::<IrSpec>::empty() + rest =~= rest);
    }
    while i < items.len()
        invariant
            i <= items@.len(),
            all == parsed@,
            *items == parsed.items,
            all.len() == items@.len(),
            ({
                let (rest, p) = lower_items(all.skip(i as int), pending@.map_values(|l: LabelDecl| l@));
                lower_items(all, seq![]) == (instructions@.map_values(|x: IrInstruction| x@) + rest, p)
            }),
        decreases items@.len() - i,
    {
        let ghost pv = pending@.map_values(|l: LabelDecl| l@);
        let ghost iv = instructions@.map_values(|x: IrInstruction| x@);
        proof {
            assert(all.skip(i as int)[0] == all[i as int]);
            assert(all.skip(i as int).drop_first() =~= all.skip(i + 1));
        }
        match &items[i] {
            ParsedItem::Label(l) => {
                pending.push(l.copy());
                proof {
                    assert(pending@.map_values(|l: LabelDecl| l@) =~= pv.push(l@));
                }
            },
            ParsedItem::Instruction(instr) => {
                let kind = match &instr.kind {
                    ParsedInstructionKind::Concrete(op) => IrInstructionKind::Concrete(op.copy()),
                    ParsedInstructionKind::JumpLabel(l) => IrInstructionKind::JumpLabel(l.clone()),
                    ParsedInstructionKind::JumpIfTrueLabel(l) => IrInstructionKind::JumpIfTrueLabel(l.clone()),
                };
                let mut labels_here: Vec<LabelDecl> = Vec::new();
                std::mem::swap(&mut labels_here, &mut pending);
                let ghost x = IrSpec { labels: pv, kind: instr.kind@, line: instr.source_line as nat };
                instructions.push(IrInstruction { labels_here, kind, source_line: instr.source_line });
                proof {
                    assert(instructions@.map_values(|x: IrInstruction| x@) =~= iv.push(x));
                    assert(pending@.map_values(|l: LabelDecl| l@) =~= Seq::<LabelSpec>::empty());
                    let (rest, p) = lower_items(all.skip(i + 1), seq![]);
                    assert(iv + (seq![x] + rest) =~= iv.push(x) + rest);
                }
            },
        }
        i += 1;
    }
    proof {
        assert(all.skip(i as int) =~= Seq::<ItemSpec>::empty());
        assert(instructions@.map_values(|x: IrInstruction| x@) + Seq::<IrSpec>::empty() =~= instructions@.map_values(|x: IrInstruction| x@));
    }
    if pending.len() > 0 {
        let first = &pending[0];
        let mut e = String::from_str(path);
        push_str(&mut e, ":");
        push_decimal(&mut e, first.source_line);
        push_str(&mut e, ": label ");
        push_str(&mut e, first.name.as_str());
        push_str(&mut e, " does not point to an instruction");
        return Err(e);
    }
    if instructions.len() == 0 {
        let mut e = String::from_str("program file ");
        push_str(&mut e, path);
        push_str(&mut e, " did not contain any opcodes");
        return Err(e);
    }
    Ok(IrProgram { instructions })
}

} // verus!
