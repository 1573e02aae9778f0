//! What a profile of a run records: the weight of each instruction and the names of its frames.
use vstd::prelude::*;
use crate::frontend::assembler::ProgramMetadata;
use crate::host::{rendered, renderer_is_function};
use crate::opcode::{opcode_text, Opcode};
use crate::text::{decimal, push_decimal, push_str};

verus! {

/// The largest total weight of the samples of a profile.
pub const MAX_PROFILE_WEIGHT: u64 = 100_000u64;

/// The sum of the counts.
pub open spec fn total(c: Seq<u64>) -> nat
    decreases c.len(),
{
    if c.len() == 0 { 0 } else { total(c.drop_last()) + c.last() as nat }
}

/// `a / b` rounded up.
pub open spec fn div_ceil(a: nat, b: nat) -> nat
    recommends
        b > 0,
{
    if a % b == 0 { a / b } else { a / b + 1 }
}

/// The divisor that brings the total weight down to at most `MAX_PROFILE_WEIGHT`; at least 1.
pub open spec fn weight_divisor(t: nat) -> nat {
    let d = div_ceil(t, MAX_PROFILE_WEIGHT as nat);
    if d == 0 { 1 } else { d }
}

/// The divisor for the counts of all instructions.
pub fn profile_weight_divisor(counts_by_ip: &[u64]) -> (d: u64)
    requires
        total(counts_by_ip@) <= u64::MAX,
    ensures
        d == weight_divisor(total(counts_by_ip@)),
{
    let mut sum: u64 = 0;
    let mut i: usize = 0;
    while i < counts_by_ip.len()
        invariant
            i <= counts_by_ip@.len(),
            total(counts_by_ip@) <= u64::MAX,
            sum == total(counts_by_ip@.take(i as int)),
        decreases counts_by_ip@.len() - i,
    {
        proof {
            assert(counts_by_ip@.take(i + 1).drop_last() =~= counts_by_ip@.take(i as int));
            lemma_total_prefix(counts_by_ip@, i + 1);
        }
        sum = sum + counts_by_ip[i];
        i += 1;
    }
    proof { assert(counts_by_ip@.take(i as int) =~= counts_by_ip@); }
    let d = if sum % MAX_PROFILE_WEIGHT == 0 { sum / MAX_PROFILE_WEIGHT } else { sum / MAX_PROFILE_WEIGHT + 1 };
    if d == 0 { 1 } else { d }
}

/// A prefix sums to no more than the whole.
proof fn lemma_total_prefix(c: Seq<u64>, k: int)
    requires
        0 <= k <= c.len(),
    ensures
        total(c.take(k)) <= total(c),
    decreases c.len(),
{
    if k < c.len() {
        assert(c.drop_last().take(k) =~= c.take(k));
        lemma_total_prefix(c.drop_last(), k);
    } else {
        assert(c.take(k) =~= c);
    }
}

/// The weight of an instruction run `count` times: its count divided (rounding up) by the divisor,
/// at most `i32::MAX`; none where four times the count (saturating) is at most the divisor.
pub open spec fn weight_of(count: u64, divisor: u64) -> Option<i32> {
    let four: int = if count * 4 > u64::MAX { u64::MAX as int } else { count * 4 };
    if four <= divisor {
        None
    } else {
        let scaled = div_ceil(count as nat, divisor as nat);
        Some(if scaled > i32::MAX { i32::MAX } else { scaled as i32 })
    }
}

/// The weight of an instruction run `count` times.
pub fn scaled_weight(count: u64, divisor: u64) -> (w: Option<i32>)
    requires
        divisor > 0,
    ensures
        w == weight_of(count, divisor),
{
    let four: u64 = if count > u64::MAX / 4 { u64::MAX } else { count * 4 };
    if four <= divisor {
        return None;
    }
    assert(divisor >= 2 ==> count / divisor <= u64::MAX / 2) by (nonlinear_arith)
        requires divisor > 0;
    assert(divisor == 1 ==> count % divisor == 0);
    let scaled = if count % divisor == 0 { count / divisor } else { count / divisor + 1 };
    Some(if scaled > 0x7fff_ffffu64 { i32::MAX } else { scaled as i32 })
}

/// No sample of a profile weighs more than `MAX_PROFILE_WEIGHT`: the count of an instruction is
/// at most the total of all counts, which the divisor brings down to that bound.
pub proof fn lemma_weight_bounded(count: u64, t: nat)
    requires
        count <= t,
        t <= u64::MAX,
    ensures
        weight_of(count, weight_divisor(t) as u64) matches Some(w) ==> w <= MAX_PROFILE_WEIGHT,
{
    let m: nat = MAX_PROFILE_WEIGHT as nat;
    let d = weight_divisor(t);
    assert(t / m <= t) by (nonlinear_arith) requires m > 0;
    if div_ceil(t, m) == 0 {
        assert(t == 0) by (nonlinear_arith) requires m > 0, (if t % m == 0 { t / m } else { t / m + 1 }) == 0;
    } else {
        assert(t <= d * m) by (nonlinear_arith)
            requires m > 0, d == (if t % m == 0 { t / m } else { t / m + 1 });
        let c = count as nat;
        assert(div_ceil(c, d) <= m) by (nonlinear_arith)
            requires d > 0, c <= d * m, m > 0,
                div_ceil(c, d) == (if c % d == 0 { c / d } else { c / d + 1 });
    }
}

/// The decimal numeral of `n`, with leading zeros to four digits.
pub open spec fn padded4(n: nat) -> Seq<char> {
    Seq::new((if decimal(n).len() < 4 { 4 - decimal(n).len() } else { 0 }) as nat, |i: int| '0') + decimal(n)
}

/// The source line recorded for `ip`, or 0 where none is.
pub open spec fn line_at(lines: Seq<usize>, ip: int) -> nat {
    if 0 <= ip < lines.len() { lines[ip] as nat } else { 0 }
}

/// The frame name of instruction `ip`: its number, its text and its source line where known.
pub open spec fn opcode_frame_text(lines: Seq<usize>, ip: nat, text: Seq<char>) -> Seq<char> {
    let line = line_at(lines, ip as int);
    if line == 0 {
        "ip "@ + padded4(ip) + ": "@ + text
    } else {
        "ip "@ + padded4(ip) + ": "@ + text + " (line "@ + decimal(line) + ")"@
    }
}

/// The frame name of the source line of instruction `ip`.
pub open spec fn line_frame_text(lines: Seq<usize>, ip: nat) -> Seq<char> {
    let line = line_at(lines, ip as int);
    if line == 0 { "line unknown"@ } else { "line "@ + decimal(line) }
}

fn push_padded4(s: &mut String, n: usize)
    ensures
        final(s)@ == old(s)@ + padded4(n as nat),
{
    let mut digits = String::new();
    push_decimal(&mut digits, n);
    let len = digits.unicode_len();
    let mut i: usize = len;
    let ghost start = s@;
    while i < 4
        invariant
            len == decimal(n as nat).len(),
            len <= i <= 4 || (i == len && len >= 4),
            s@ == start + Seq::new((i - len) as nat, |j: int| '0'),
        decreases 4 - i,
    {
        crate::text::push_char(s, '0');
        i += 1;
        proof { assert(s@ =~= start + Seq::new((i - len) as nat, |j: int| '0')); }
    }
    push_str(s, digits.as_str());
    proof { assert(s@ =~= start + padded4(n as nat)); }
}

/// The frame name of instruction `ip`.
pub fn opcode_frame_name<R: Fn(u32) -> String>(metadata: &ProgramMetadata, ip: usize, opcode: &Opcode, render: &R) -> (name: String)
    requires
        renderer_is_function(*render),
    ensures
        name@ == opcode_frame_text(metadata.source_lines_by_ip@, ip as nat, opcode_text(opcode@, *render)),
{
    let line = if ip < metadata.source_lines_by_ip.len() { metadata.source_lines_by_ip[ip] } else { 0 };
    let mut name = String::from_str("ip ");
    push_padded4(&mut name, ip);
    push_str(&mut name, ": ");
    let t = opcode.to_text(render);
    push_str(&mut name, t.as_str());
    if line != 0 {
        push_str(&mut name, " (line ");
        push_decimal(&mut name, line);
        push_str(&mut name, ")");
    }
    name
}

/// The frame name of the source line of instruction `ip`.
pub fn source_line_frame_name(metadata: &ProgramMetadata, ip: usize) -> (name: String)
    ensures
        name@ == line_frame_text(metadata.source_lines_by_ip@, ip as nat),
{
    let line = if ip < metadata.source_lines_by_ip.len() { metadata.source_lines_by_ip[ip] } else { 0 };
    if line == 0 {
        String::from_str("line unknown")
    } else {
        let mut name = String::from_str("line ");
        push_decimal(&mut name, line);
        name
    }
}

/// The frame names of every instruction, and of the source line of each.
pub fn frame_names<R: Fn(u32) -> String>(metadata: &ProgramMetadata, opcodes: &[Opcode], render: &R) -> (r: (Vec<String>, Vec<String>))
    requires
        renderer_is_function(*render),
    ensures
        r.0@.len() == opcodes@.len(),
        r.1@.len() == opcodes@.len(),
        forall|ip: int| 0 <= ip < opcodes@.len() ==> {
            &&& #[trigger] r.0@[ip]@ == opcode_frame_text(metadata.source_lines_by_ip@, ip as nat, opcode_text(opcodes@[ip]@, *render))
            &&& r.1@[ip]@ == line_frame_text(metadata.source_lines_by_ip@, ip as nat)
        },
{
    let mut opcode_frames: Vec<String> = Vec::new();
    let mut line_frames: Vec<String> = Vec::new();
    let mut ip: usize = 0;
    while ip < opcodes.len()
        invariant
            ip <= opcodes@.len(),
            renderer_is_function(*render),
            opcode_frames@.len() == ip,
            line_frames@.len() == ip,
            forall|j: int| 0 <= j < ip ==> {
                &&& #[trigger] opcode_frames@[j]@ == opcode_frame_text(metadata.source_lines_by_ip@, j as nat, opcode_text(opcodes@[j]@, *render))
                &&& line_frames@[j]@ == line_frame_text(metadata.source_lines_by_ip@, j as nat)
            },
        decreases opcodes@.len() - ip,
    {
        let ghost o0 = opcode_frames@;
        let ghost l0 = line_frames@;
        let o = opcode_frame_name(metadata, ip, &opcodes[ip], render);
        let l = source_line_frame_name(metadata, ip);
        opcode_frames.push(o);
        line_frames.push(l);
        proof {
            assert forall|j: int| 0 <= j < ip + 1 implies {
                &&& #[trigger] opcode_frames@[j]@ == opcode_frame_text(metadata.source_lines_by_ip@, j as nat, opcode_text(opcodes@[j]@, *render))
                &&& line_frames@[j]@ == line_frame_text(metadata.source_lines_by_ip@, j as nat)
            } by {
                if j < ip {
                    assert(opcode_frames@[j] == o0[j]);
                    assert(line_frames@[j] == l0[j]);
                }
            }
        }
        ip += 1;
    }
    (opcode_frames, line_frames)
}

/// A sample to add to a profile: the frame of a source line, the frame of an instruction on
/// that line, and the weight of the sample.
pub struct PlannedSample {
    pub line_frame: String,
    pub opcode_frame: String,
    pub weight: i32,
}

impl View for PlannedSample {
    type V = (Seq<char>, Seq<char>, i32);

    open spec fn view(&self) -> (Seq<char>, Seq<char>, i32) {
        (self.line_frame@, self.opcode_frame@, self.weight)
    }
}

/// The samples for the instructions before `n`: one for each instruction that ran, has a
/// weight, and has both frame names, in the order of the instructions.
pub open spec fn planned(counts: Seq<u64>, opcode_frames: Seq<Seq<char>>, line_frames: Seq<Seq<char>>, divisor: u64, n: int) -> Seq<(Seq<char>, Seq<char>, i32)>
    decreases n,
{
    if n <= 0 {
        seq![]
    } else {
        let before = planned(counts, opcode_frames, line_frames, divisor, n - 1);
        let ip = n - 1;
        let count = counts[ip];
        if count == 0 || ip >= opcode_frames.len() || ip >= line_frames.len() {
            before
        } else {
            match weight_of(count, divisor) {
                None => before,
                Some(w) => before.push((line_frames[ip], opcode_frames[ip], w)),
            }
        }
    }
}

/// The divisor for the counts and the samples a profile gets from them.
pub fn plan_samples(counts_by_ip: &[u64], opcode_frames: &Vec<String>, line_frames: &Vec<String>) -> (r: (u64, Vec<PlannedSample>))
    requires
        total(counts_by_ip@) <= u64::MAX,
    ensures
        r.0 == weight_divisor(total(counts_by_ip@)),
        r.1@.map_values(|s: PlannedSample| s@) == planned(
            counts_by_ip@,
            opcode_frames@.map_values(|s: String| s@),
            line_frames@.map_values(|s: String| s@),
            r.0,
            counts_by_ip@.len() as int,
        ),
{
    let divisor = profile_weight_divisor(counts_by_ip);
    let ghost of = opcode_frames@.map_values(|s: String| s@);
    let ghost lf = line_frames@.map_values(|s: String| s@);
    let mut samples: Vec<PlannedSample> = Vec::new();
    let mut ip: usize = 0;
    proof { assert(samples@.map_values(|s: PlannedSample| s@) =~= Seq::<(Seq<char>, Seq<char>, i32)>::empty()); }
    while ip < counts_by_ip.len()
        invariant
            ip <= counts_by_ip@.len(),
            divisor >= 1,
            of == opcode_frames@.map_values(|s: String| s@),
            lf == line_frames@.map_values(|s: String| s@),
            samples@.map_values(|s: PlannedSample| s@) == planned(counts_by_ip@, of, lf, divisor, ip as int),
        decreases counts_by_ip@.len() - ip,
    {
        let count = counts_by_ip[ip];
        let ghost before = samples@.map_values(|s: PlannedSample| s@);
        if count != 0 && ip < opcode_frames.len() && ip < line_frames.len() {
            match scaled_weight(count, divisor) {
                None => {},
                Some(weight) => {
                    let s = PlannedSample { line_frame: line_frames[ip].clone(), opcode_frame: opcode_frames[ip].clone(), weight };
                    samples.push(s);
                    proof {
                        assert(samples@.map_values(|s: PlannedSample| s@) =~= before.push((lf[ip as int], of[ip as int], weight)));
                    }
                },
            }
        }
        ip += 1;
    }
    (divisor, samples)
}

} // verus!
