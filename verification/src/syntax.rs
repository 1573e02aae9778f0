//! The text form of instructions: reading one from a line and writing one out.
use vstd::prelude::*;
use crate::host::{decoded, decoder_is_function, decode_literal, rendered};
use crate::lex::{next_word, find_word, string_of, chars_of, is_ws, is_word, lemma_next_word_of_word, lemma_next_word_after_space, lemma_next_word_empty};
use crate::opcode::{Instruction, Opcode, OpcodeSpec, opcode_text, simple_instruction, simple_instruction_of, mnemonic, mnemonic_of, word_is};
use crate::text::{decimal, digit_char, push_str, push_signed_decimal, signed_decimal};

verus! {

/// Why a decimal integer could not be read, as `i64::from_str` reports it.
#[derive(Debug, PartialEq, Eq, Structural, Clone, Copy)]
pub enum IntError {
    Empty,
    InvalidDigit,
    PosOverflow,
    NegOverflow,
}

/// The message `i64::from_str` gives for each kind of failure.
pub open spec fn int_error_message(e: IntError) -> Seq<char> {
    match e {
        IntError::Empty => "cannot parse integer from empty string"@,
        IntError::InvalidDigit => "invalid digit found in string"@,
        IntError::PosOverflow => "number too large to fit in target type"@,
        IntError::NegOverflow => "number too small to fit in target type"@,
    }
}

pub open spec fn is_digit(c: char) -> bool {
    '0' <= c && c <= '9'
}

pub open spec fn digit_value(c: char) -> int {
    c as int - '0' as int
}

/// Reads the digits `ds` after the value `acc` read so far, left to right, as `i64` does:
/// the first character that is not a digit, or the first digit that leaves the range, decides the error.
pub open spec fn read_digits(ds: Seq<char>, acc: int, negative: bool) -> Result<int, IntError>
    decreases ds.len(),
{
    if ds.len() == 0 {
        Ok(acc)
    } else if !is_digit(ds[0]) {
        Err(IntError::InvalidDigit)
    } else {
        let v = if negative { acc * 10 - digit_value(ds[0]) } else { acc * 10 + digit_value(ds[0]) };
        if v > i64::MAX {
            Err(IntError::PosOverflow)
        } else if v < i64::MIN {
            Err(IntError::NegOverflow)
        } else {
            read_digits(ds.drop_first(), v, negative)
        }
    }
}

/// The value of the decimal integer `t` (an optional sign, then digits), as `i64::from_str` reads it.
pub open spec fn parse_i64(t: Seq<char>) -> Result<int, IntError> {
    if t.len() == 0 {
        Err(IntError::Empty)
    } else if (t[0] == '+' || t[0] == '-') && t.len() == 1 {
        Err(IntError::InvalidDigit)
    } else if t[0] == '+' {
        read_digits(t.drop_first(), 0, false)
    } else if t[0] == '-' {
        read_digits(t.drop_first(), 0, true)
    } else {
        read_digits(t, 0, false)
    }
}

/// A value read by `read_digits` stays in the range of `i64`.
pub proof fn lemma_read_digits_range(ds: Seq<char>, acc: int, negative: bool)
    requires
        i64::MIN <= acc <= i64::MAX,
    ensures
        read_digits(ds, acc, negative) matches Ok(v) ==> i64::MIN <= v <= i64::MAX,
    decreases ds.len(),
{
    if ds.len() > 0 && is_digit(ds[0]) {
        let v = if negative { acc * 10 - digit_value(ds[0]) } else { acc * 10 + digit_value(ds[0]) };
        if i64::MIN <= v <= i64::MAX {
            lemma_read_digits_range(ds.drop_first(), v, negative);
        }
    }
}

/// A value read by `parse_i64` is in the range of `i64`.
pub proof fn lemma_parse_i64_range(t: Seq<char>)
    ensures
        parse_i64(t) matches Ok(v) ==> i64::MIN <= v <= i64::MAX,
{
    if t.len() > 0 {
        lemma_read_digits_range(t.drop_first(), 0, false);
        lemma_read_digits_range(t.drop_first(), 0, true);
        lemma_read_digits_range(t, 0, false);
    }
}

/// Reads the decimal integer in `v[lo..hi]`.
pub fn parse_i64_window(v: &[char], lo: usize, hi: usize) -> (r: Result<i64, IntError>)
    requires
        lo <= hi <= v@.len(),
    ensures
        match parse_i64(v@.subrange(lo as int, hi as int)) {
            Ok(x) => r == Ok::<i64, IntError>(x as i64) && i64::MIN <= x <= i64::MAX,
            Err(e) => r == Err::<i64, IntError>(e),
        },
{
    proof { lemma_parse_i64_range(v@.subrange(lo as int, hi as int)); }
    let ghost t = v@.subrange(lo as int, hi as int);
    if lo == hi {
        return Err(IntError::Empty);
    }
    if (v[lo] == '+' || v[lo] == '-') && hi - lo == 1 {
        return Err(IntError::InvalidDigit);
    }
    let negative = v[lo] == '-';
    let i0 = if v[lo] == '+' || v[lo] == '-' { lo + 1 } else { lo };
    let mut i = i0;
    proof {
        assert(t[0] == v@[lo as int]);
        if v@[lo as int] == '+' || v@[lo as int] == '-' {
            assert(t.drop_first() =~= v@.subrange(i as int, hi as int));
            assert(parse_i64(t) == read_digits(v@.subrange(i as int, hi as int), 0, negative));
        } else {
            assert(t =~= v@.subrange(i as int, hi as int));
            assert(parse_i64(t) == read_digits(v@.subrange(i as int, hi as int), 0, negative));
        }
    }
    let mut acc: i64 = 0;
    while i < hi
        invariant
            lo <= i <= hi <= v@.len(),
            t == v@.subrange(lo as int, hi as int),
            negative ==> acc <= 0,
            !negative ==> acc >= 0,
            parse_i64(t) == read_digits(v@.subrange(i as int, hi as int), acc as int, negative),
        decreases hi - i,
    {
        let c = v[i];
        proof { assert(v@.subrange(i as int, hi as int)[0] == c); }
        if !('0' <= c && c <= '9') {
            return Err(IntError::InvalidDigit);
        }
        let d = (c as u32 - '0' as u32) as i64;
        assert(d == digit_value(c));
        proof { assert(v@.subrange(i as int, hi as int).drop_first() =~= v@.subrange(i + 1, hi as int)); }
        if negative {
            let m = acc as i128 * 10 - d as i128;
            if m < i64::MIN as i128 {
                return Err(IntError::NegOverflow);
            }
            acc = m as i64;
        } else {
            let m = acc as i128 * 10 + d as i128;
            if m > i64::MAX as i128 {
                return Err(IntError::PosOverflow);
            }
            acc = m as i64;
        }
        i += 1;
    }
    Ok(acc)
}

/// Reading digits one part after the other is reading them all at once.
proof fn lemma_read_digits_concat(a: Seq<char>, b: Seq<char>, acc: int, negative: bool)
    ensures
        read_digits(a + b, acc, negative) == match read_digits(a, acc, negative) {
            Ok(x) => read_digits(b, x, negative),
            Err(e) => Err(e),
        },
    decreases a.len(),
{
    if a.len() == 0 {
        assert(a + b =~= b);
    } else {
        assert((a + b)[0] == a[0]);
        assert((a + b).drop_first() =~= a.drop_first() + b);
        if is_digit(a[0]) {
            let v = if negative { acc * 10 - digit_value(a[0]) } else { acc * 10 + digit_value(a[0]) };
            lemma_read_digits_concat(a.drop_first(), b, v, negative);
        }
    }
}

proof fn lemma_digit_char(d: nat)
    requires
        d < 10,
    ensures
        is_digit(digit_char(d)),
        digit_value(digit_char(d)) == d,
        !is_ws(digit_char(d)),
        digit_char(d) != '-',
        digit_char(d) != '+',
{
}

/// A numeral is a word of digits.
proof fn lemma_decimal_digits(n: nat)
    ensures
        decimal(n).len() >= 1,
        forall|i: int| 0 <= i < decimal(n).len() ==> is_digit(#[trigger] decimal(n)[i]) && !is_ws(decimal(n)[i]),
    decreases n,
{
    lemma_digit_char(n % 10);
    if n >= 10 {
        lemma_decimal_digits(n / 10);
        let d = decimal(n / 10);
        assert forall|i: int| 0 <= i < decimal(n).len() implies is_digit(#[trigger] decimal(n)[i]) && !is_ws(decimal(n)[i]) by {
            if i < d.len() {
                assert(decimal(n)[i] == d[i]);
            }
        }
    } else {
        lemma_digit_char(n);
    }
}

/// The digits of a numeral read back as its value, with the sign asked for.
proof fn lemma_read_decimal(n: nat, negative: bool)
    requires
        n <= i64::MAX + 1,
        !negative ==> n <= i64::MAX,
    ensures
        read_digits(decimal(n), 0, negative) == Ok::<int, IntError>(if negative { -n } else { n as int }),
    decreases n,
{
    lemma_digit_char(n % 10);
    let r: int = if negative { -n } else { n as int };
    assert(read_digits(Seq::<char>::empty(), r, negative) == Ok::<int, IntError>(r));
    if n < 10 {
        lemma_digit_char(n);
        assert(decimal(n).drop_first() =~= Seq::<char>::empty());
    } else {
        lemma_read_decimal(n / 10, negative);
        let d = seq![digit_char(n % 10)];
        assert(decimal(n) =~= decimal(n / 10) + d);
        lemma_read_digits_concat(decimal(n / 10), d, 0, negative);
        assert(d.drop_first() =~= Seq::<char>::empty());
        let q: int = if negative { -((n / 10) as int) } else { (n / 10) as int };
        assert(q * 10 + (if negative { -((n % 10) as int) } else { (n % 10) as int }) == r);
    }
}

/// The numeral of a value in the range of `i64` reads back as that value.
pub proof fn lemma_parse_signed_decimal(v: int)
    requires
        i64::MIN <= v <= i64::MAX,
    ensures
        parse_i64(signed_decimal(v)) == Ok::<int, IntError>(v),
{
    if v < 0 {
        let t = signed_decimal(v);
        lemma_decimal_digits((-v) as nat);
        assert(t.drop_first() =~= decimal((-v) as nat));
        lemma_read_decimal((-v) as nat, true);
    } else {
        lemma_decimal_digits(v as nat);
        lemma_digit_char(0);
        lemma_read_decimal(v as nat, false);
    }
}

/// The numeral of a value is one word.
proof fn lemma_signed_decimal_word(v: int)
    ensures
        is_word(signed_decimal(v)),
{
    if v < 0 {
        let d = decimal((-v) as nat);
        lemma_decimal_digits((-v) as nat);
        let t = signed_decimal(v);
        assert forall|i: int| 0 <= i < t.len() implies !is_ws(#[trigger] t[i]) by {
            if i > 0 {
                assert(t[i] == d[i - 1]);
            }
        }
    } else {
        lemma_decimal_digits(v as nat);
    }
}

/// The mnemonics with an argument are words.
proof fn lemma_argument_mnemonics_are_words()
    ensures
        is_word("i32.PUSH"@),
        is_word("f32.PUSH"@),
        is_word("CallExternal"@),
{
    reveal_strlit("i32.PUSH");
    reveal_strlit("f32.PUSH");
    reveal_strlit("CallExternal");
    assert forall|i: int| 0 <= i < "i32.PUSH"@.len() implies !is_ws(#[trigger] "i32.PUSH"@[i]) by {
        if i == 0 {} else if i == 1 {} else if i == 2 {} else if i == 3 {} else if i == 4 {} else if i == 5 {} else if i == 6 {} else if i == 7 {}
    }
    assert forall|i: int| 0 <= i < "f32.PUSH"@.len() implies !is_ws(#[trigger] "f32.PUSH"@[i]) by {
        if i == 0 {} else if i == 1 {} else if i == 2 {} else if i == 3 {} else if i == 4 {} else if i == 5 {} else if i == 6 {} else if i == 7 {}
    }
    assert forall|i: int| 0 <= i < "CallExternal"@.len() implies !is_ws(#[trigger] "CallExternal"@[i]) by {
        if i == 0 {} else if i == 1 {} else if i == 2 {} else if i == 3 {} else if i == 4 {} else if i == 5 {} else if i == 6 {} else if i == 7 {} else if i == 8 {} else if i == 9 {} else if i == 10 {} else if i == 11 {}
    }
}

/// The mnemonic of an instruction without argument is one word, names no instruction with an
/// argument, and names that instruction.
proof fn lemma_mnemonic_reads_back(op: OpcodeSpec)
    requires
        !(op is I32Push || op is F32Push || op is CallExternal),
    ensures
        is_word(mnemonic(op)),
        mnemonic(op) != "i32.PUSH"@,
        mnemonic(op) != "f32.PUSH"@,
        mnemonic(op) != "CallExternal"@,
        simple_instruction(mnemonic(op)) == Some(op),
{
    reveal_strlit("Read");
    reveal_strlit("Write");
    reveal_strlit("SwitchMemoryLane");
    reveal_strlit("SizeOfMemoryLane");
    reveal_strlit("Noop");
    reveal_strlit("Pop");
    reveal_strlit("Pop32bits");
    reveal_strlit("Dup");
    reveal_strlit("DupN");
    reveal_strlit("Swap");
    reveal_strlit("i32.XOR");
    reveal_strlit("i32.AND");
    reveal_strlit("i32.OR");
    reveal_strlit("i32.ZERO");
    reveal_strlit("i32.PickN");
    reveal_strlit("i32.ADD");
    reveal_strlit("i32.SUB");
    reveal_strlit("i32.MUL");
    reveal_strlit("i32.DIV");
    reveal_strlit("i32.MOD");
    reveal_strlit("i32.SHL");
    reveal_strlit("i32.SHR");
    reveal_strlit("i32.LT");
    reveal_strlit("i32.LE");
    reveal_strlit("i32.EQ");
    reveal_strlit("i32.GT");
    reveal_strlit("i32.GE");
    reveal_strlit("JumpIfTrue");
    reveal_strlit("i32.NOT");
    reveal_strlit("i32.TO.f32");
    reveal_strlit("f32.ADD");
    reveal_strlit("f32.SUB");
    reveal_strlit("f32.MUL");
    reveal_strlit("f32.DIV");
    reveal_strlit("f32.EQ");
    reveal_strlit("f32.GT");
    reveal_strlit("f32.GE");
    reveal_strlit("f32.TO.i32");
    reveal_strlit("Print");
    reveal_strlit("PrintN");
    reveal_strlit("Jump");
    reveal_strlit("OperationCounter");
    reveal_strlit("Halt");
    reveal_strlit("i32.PUSH");
    reveal_strlit("f32.PUSH");
    reveal_strlit("CallExternal");
    match op {
        Instruction::Read => {
            assert("Read"@.len() != "i32.PUSH"@.len());
            assert("Read"@.len() != "f32.PUSH"@.len());
            assert("Read"@.len() != "CallExternal"@.len());
            assert forall|i: int| 0 <= i < "Read"@.len() implies !is_ws(#[trigger] "Read"@[i]) by { if i == 0 {} else if i == 1 {} else if i == 2 {} else if i == 3 {} }
        },
        Instruction::Write => {
            assert("Write"@.len() != "i32.PUSH"@.len());
            assert("Write"@.len() != "f32.PUSH"@.len());
            assert("Write"@.len() != "CallExternal"@.len());
            assert forall|i: int| 0 <= i < "Write"@.len() implies !is_ws(#[trigger] "Write"@[i]) by { if i == 0 {} else if i == 1 {} else if i == 2 {} else if i == 3 {} else if i == 4 {} }
        },
        Instruction::SwitchMemoryLane => {
            assert("SwitchMemoryLane"@.len() != "i32.PUSH"@.len());
            assert("SwitchMemoryLane"@.len() != "f32.PUSH"@.len());
            assert("SwitchMemoryLane"@.len() != "CallExternal"@.len());
            assert forall|i: int| 0 <= i < "SwitchMemoryLane"@.len() implies !is_ws(#[trigger] "SwitchMemoryLane"@[i]) by { if i == 0 {} else if i == 1 {} else if i == 2 {} else if i == 3 {} else if i == 4 {} else if i == 5 {} else if i == 6 {} else if i == 7 {} else if i == 8 {} else if i == 9 {} else if i == 10 {} else if i == 11 {} else if i == 12 {} else if i == 13 {} else if i == 14 {} else if i == 15 {} }
        },
        Instruction::SizeOfMemoryLane => {
            assert("SizeOfMemoryLane"@.len() != "i32.PUSH"@.len());
            assert("SizeOfMemoryLane"@.len() != "f32.PUSH"@.len());
            assert("SizeOfMemoryLane"@.len() != "CallExternal"@.len());
            assert("SizeOfMemoryLane"@[1] != "SwitchMemoryLane"@[1]);
            assert forall|i: int| 0 <= i < "SizeOfMemoryLane"@.len() implies !is_ws(#[trigger] "SizeOfMemoryLane"@[i]) by { if i == 0 {} else if i == 1 {} else if i == 2 {} else if i == 3 {} else if i == 4 {} else if i == 5 {} else if i == 6 {} else if i == 7 {} else if i == 8 {} else if i == 9 {} else if i == 10 {} else if i == 11 {} else if i == 12 {} else if i == 13 {} else if i == 14 {} else if i == 15 {} }
        },
        Instruction::Noop => {
            assert("Noop"@.len() != "i32.PUSH"@.len());
            assert("Noop"@.len() != "f32.PUSH"@.len());
            assert("Noop"@.len() != "CallExternal"@.len());
            assert("Noop"@[0] != "Read"@[0]);
            assert forall|i: int| 0 <= i < "Noop"@.len() implies !is_ws(#[trigger] "Noop"@[i]) by { if i == 0 {} else if i == 1 {} else if i == 2 {} else if i == 3 {} }
        },
        Instruction::Pop => {
            assert("Pop"@.len() != "i32.PUSH"@.len());
            assert("Pop"@.len() != "f32.PUSH"@.len());
            assert("Pop"@.len() != "CallExternal"@.len());
            assert forall|i: int| 0 <= i < "Pop"@.len() implies !is_ws(#[trigger] "Pop"@[i]) by { if i == 0 {} else if i == 1 {} else if i == 2 {} }
        },
        Instruction::Pop32bits => {
            assert("Pop32bits"@.len() != "i32.PUSH"@.len());
            assert("Pop32bits"@.len() != "f32.PUSH"@.len());
            assert("Pop32bits"@.len() != "CallExternal"@.len());
            assert forall|i: int| 0 <= i < "Pop32bits"@.len() implies !is_ws(#[trigger] "Pop32bits"@[i]) by { if i == 0 {} else if i == 1 {} else if i == 2 {} else if i == 3 {} else if i == 4 {} else if i == 5 {} else if i == 6 {} else if i == 7 {} else if i == 8 {} }
        },
        Instruction::Dup => {
            assert("Dup"@.len() != "i32.PUSH"@.len());
            assert("Dup"@.len() != "f32.PUSH"@.len());
            assert("Dup"@.len() != "CallExternal"@.len());
            assert("Dup"@[0] != "Pop"@[0]);
            assert forall|i: int| 0 <= i < "Dup"@.len() implies !is_ws(#[trigger] "Dup"@[i]) by { if i == 0 {} else if i == 1 {} else if i == 2 {} }
        },
        Instruction::DupN => {
            assert("DupN"@.len() != "i32.PUSH"@.len());
            assert("DupN"@.len() != "f32.PUSH"@.len());
            assert("DupN"@.len() != "CallExternal"@.len());
            assert("DupN"@[0] != "Read"@[0]);
            assert("DupN"@[0] != "Noop"@[0]);
            assert forall|i: int| 0 <= i < "DupN"@.len() implies !is_ws(#[trigger] "DupN"@[i]) by { if i == 0 {} else if i == 1 {} else if i == 2 {} else if i == 3 {} }
        },
        Instruction::Swap => {
            assert("Swap"@.len() != "i32.PUSH"@.len());
            assert("Swap"@.len() != "f32.PUSH"@.len());
            assert("Swap"@.len() != "CallExternal"@.len());
            assert("Swap"@[0] != "Read"@[0]);
            assert("Swap"@[0] != "Noop"@[0]);
            assert("Swap"@[0] != "DupN"@[0]);
            assert forall|i: int| 0 <= i < "Swap"@.len() implies !is_ws(#[trigger] "Swap"@[i]) by { if i == 0 {} else if i == 1 {} else if i == 2 {} else if i == 3 {} }
        },
        Instruction::I32Xor => {
            assert("i32.XOR"@.len() != "i32.PUSH"@.len());
            assert("i32.XOR"@.len() != "f32.PUSH"@.len());
            assert("i32.XOR"@.len() != "CallExternal"@.len());
            assert forall|i: int| 0 <= i < "i32.XOR"@.len() implies !is_ws(#[trigger] "i32.XOR"@[i]) by { if i == 0 {} else if i == 1 {} else if i == 2 {} else if i == 3 {} else if i == 4 {} else if i == 5 {} else if i == 6 {} }
        },
        Instruction::I32And => {
            assert("i32.AND"@.len() != "i32.PUSH"@.len());
            assert("i32.AND"@.len() != "f32.PUSH"@.len());
            assert("i32.AND"@.len() != "CallExternal"@.len());
            assert("i32.AND"@[4] != "i32.XOR"@[4]);
            assert forall|i: int| 0 <= i < "i32.AND"@.len() implies !is_ws(#[trigger] "i32.AND"@[i]) by { if i == 0 {} else if i == 1 {} else if i == 2 {} else if i == 3 {} else if i == 4 {} else if i == 5 {} else if i == 6 {} }
        },
        Instruction::I32Or => {
            assert("i32.OR"@.len() != "i32.PUSH"@.len());
            assert("i32.OR"@.len() != "f32.PUSH"@.len());
            assert("i32.OR"@.len() != "CallExternal"@.len());
            assert forall|i: int| 0 <= i < "i32.OR"@.len() implies !is_ws(#[trigger] "i32.OR"@[i]) by { if i == 0 {} else if i == 1 {} else if i == 2 {} else if i == 3 {} else if i == 4 {} else if i == 5 {} }
        },
        Instruction::I32Zero => {
            assert("i32.ZERO"@.len() != "CallExternal"@.len());
            assert("i32.ZERO"@[4] != "i32.PUSH"@[4]);
            assert("i32.ZERO"@[0] != "f32.PUSH"@[0]);
            assert forall|i: int| 0 <= i < "i32.ZERO"@.len() implies !is_ws(#[trigger] "i32.ZERO"@[i]) by { if i == 0 {} else if i == 1 {} else if i == 2 {} else if i == 3 {} else if i == 4 {} else if i == 5 {} else if i == 6 {} else if i == 7 {} }
        },
        Instruction::I32PickN => {
            assert("i32.PickN"@.len() != "i32.PUSH"@.len());
            assert("i32.PickN"@.len() != "f32.PUSH"@.len());
            assert("i32.PickN"@.len() != "CallExternal"@.len());
            assert("i32.PickN"@[0] != "Pop32bits"@[0]);
            assert forall|i: int| 0 <= i < "i32.PickN"@.len() implies !is_ws(#[trigger] "i32.PickN"@[i]) by { if i == 0 {} else if i == 1 {} else if i == 2 {} else if i == 3 {} else if i == 4 {} else if i == 5 {} else if i == 6 {} else if i == 7 {} else if i == 8 {} }
        },
        Instruction::I32Add => {
            assert("i32.ADD"@.len() != "i32.PUSH"@.len());
            assert("i32.ADD"@.len() != "f32.PUSH"@.len());
            assert("i32.ADD"@.len() != "CallExternal"@.len());
            assert("i32.ADD"@[4] != "i32.XOR"@[4]);
            assert("i32.ADD"@[5] != "i32.AND"@[5]);
            assert forall|i: int| 0 <= i < "i32.ADD"@.len() implies !is_ws(#[trigger] "i32.ADD"@[i]) by { if i == 0 {} else if i == 1 {} else if i == 2 {} else if i == 3 {} else if i == 4 {} else if i == 5 {} else if i == 6 {} }
        },
        Instruction::I32Sub => {
            assert("i32.SUB"@.len() != "i32.PUSH"@.len());
            assert("i32.SUB"@.len() != "f32.PUSH"@.len());
            assert("i32.SUB"@.len() != "CallExternal"@.len());
            assert("i32.SUB"@[4] != "i32.XOR"@[4]);
            assert("i32.SUB"@[4] != "i32.AND"@[4]);
            assert("i32.SUB"@[4] != "i32.ADD"@[4]);
            assert forall|i: int| 0 <= i < "i32.SUB"@.len() implies !is_ws(#[trigger] "i32.SUB"@[i]) by { if i == 0 {} else if i == 1 {} else if i == 2 {} else if i == 3 {} else if i == 4 {} else if i == 5 {} else if i == 6 {} }
        },
        Instruction::I32Mul => {
            assert("i32.MUL"@.len() != "i32.PUSH"@.len());
            assert("i32.MUL"@.len() != "f32.PUSH"@.len());
            assert("i32.MUL"@.len() != "CallExternal"@.len());
            assert("i32.MUL"@[4] != "i32.XOR"@[4]);
            assert("i32.MUL"@[4] != "i32.AND"@[4]);
            assert("i32.MUL"@[4] != "i32.ADD"@[4]);
            assert("i32.MUL"@[4] != "i32.SUB"@[4]);
            assert forall|i: int| 0 <= i < "i32.MUL"@.len() implies !is_ws(#[trigger] "i32.MUL"@[i]) by { if i == 0 {} else if i == 1 {} else if i == 2 {} else if i == 3 {} else if i == 4 {} else if i == 5 {} else if i == 6 {} }
        },
        Instruction::I32Div => {
            assert("i32.DIV"@.len() != "i32.PUSH"@.len());
            assert("i32.DIV"@.len() != "f32.PUSH"@.len());
            assert("i32.DIV"@.len() != "CallExternal"@.len());
            assert("i32.DIV"@[4] != "i32.XOR"@[4]);
            assert("i32.DIV"@[4] != "i32.AND"@[4]);
            assert("i32.DIV"@[4] != "i32.ADD"@[4]);
            assert("i32.DIV"@[4] != "i32.SUB"@[4]);
            assert("i32.DIV"@[4] != "i32.MUL"@[4]);
            assert forall|i: int| 0 <= i < "i32.DIV"@.len() implies !is_ws(#[trigger] "i32.DIV"@[i]) by { if i == 0 {} else if i == 1 {} else if i == 2 {} else if i == 3 {} else if i == 4 {} else if i == 5 {} else if i == 6 {} }
        },
        Instruction::I32Mod => {
            assert("i32.MOD"@.len() != "i32.PUSH"@.len());
            assert("i32.MOD"@.len() != "f32.PUSH"@.len());
            assert("i32.MOD"@.len() != "CallExternal"@.len());
            assert("i32.MOD"@[4] != "i32.XOR"@[4]);
            assert("i32.MOD"@[4] != "i32.AND"@[4]);
            assert("i32.MOD"@[4] != "i32.ADD"@[4]);
            assert("i32.MOD"@[4] != "i32.SUB"@[4]);
            assert("i32.MOD"@[5] != "i32.MUL"@[5]);
            assert("i32.MOD"@[4] != "i32.DIV"@[4]);
            assert forall|i: int| 0 <= i < "i32.MOD"@.len() implies !is_ws(#[trigger] "i32.MOD"@[i]) by { if i == 0 {} else if i == 1 {} else if i == 2 {} else if i == 3 {} else if i == 4 {} else if i == 5 {} else if i == 6 {} }
        },
        Instruction::I32Shl => {
            assert("i32.SHL"@.len() != "i32.PUSH"@.len());
            assert("i32.SHL"@.len() != "f32.PUSH"@.len());
            assert("i32.SHL"@.len() != "CallExternal"@.len());
            assert("i32.SHL"@[4] != "i32.XOR"@[4]);
            assert("i32.SHL"@[4] != "i32.AND"@[4]);
            assert("i32.SHL"@[4] != "i32.ADD"@[4]);
            assert("i32.SHL"@[5] != "i32.SUB"@[5]);
            assert("i32.SHL"@[4] != "i32.MUL"@[4]);
            assert("i32.SHL"@[4] != "i32.DIV"@[4]);
            assert("i32.SHL"@[4] != "i32.MOD"@[4]);
            assert forall|i: int| 0 <= i < "i32.SHL"@.len() implies !is_ws(#[trigger] "i32.SHL"@[i]) by { if i == 0 {} else if i == 1 {} else if i == 2 {} else if i == 3 {} else if i == 4 {} else if i == 5 {} else if i == 6 {} }
        },
        Instruction::I32Shr => {
            assert("i32.SHR"@.len() != "i32.PUSH"@.len());
            assert("i32.SHR"@.len() != "f32.PUSH"@.len());
            assert("i32.SHR"@.len() != "CallExternal"@.len());
            assert("i32.SHR"@[4] != "i32.XOR"@[4]);
            assert("i32.SHR"@[4] != "i32.AND"@[4]);
            assert("i32.SHR"@[4] != "i32.ADD"@[4]);
            assert("i32.SHR"@[5] != "i32.SUB"@[5]);
            assert("i32.SHR"@[4] != "i32.MUL"@[4]);
            assert("i32.SHR"@[4] != "i32.DIV"@[4]);
            assert("i32.SHR"@[4] != "i32.MOD"@[4]);
            assert("i32.SHR"@[6] != "i32.SHL"@[6]);
            assert forall|i: int| 0 <= i < "i32.SHR"@.len() implies !is_ws(#[trigger] "i32.SHR"@[i]) by { if i == 0 {} else if i == 1 {} else if i == 2 {} else if i == 3 {} else if i == 4 {} else if i == 5 {} else if i == 6 {} }
        },
        Instruction::I32Lt => {
            assert("i32.LT"@.len() != "i32.PUSH"@.len());
            assert("i32.LT"@.len() != "f32.PUSH"@.len());
            assert("i32.LT"@.len() != "CallExternal"@.len());
            assert("i32.LT"@[4] != "i32.OR"@[4]);
            assert forall|i: int| 0 <= i < "i32.LT"@.len() implies !is_ws(#[trigger] "i32.LT"@[i]) by { if i == 0 {} else if i == 1 {} else if i == 2 {} else if i == 3 {} else if i == 4 {} else if i == 5 {} }
        },
        Instruction::I32Le => {
            assert("i32.LE"@.len() != "i32.PUSH"@.len());
            assert("i32.LE"@.len() != "f32.PUSH"@.len());
            assert("i32.LE"@.len() != "CallExternal"@.len());
            assert("i32.LE"@[4] != "i32.OR"@[4]);
            assert("i32.LE"@[5] != "i32.LT"@[5]);
            assert forall|i: int| 0 <= i < "i32.LE"@.len() implies !is_ws(#[trigger] "i32.LE"@[i]) by { if i == 0 {} else if i == 1 {} else if i == 2 {} else if i == 3 {} else if i == 4 {} else if i == 5 {} }
        },
        Instruction::I32Eq => {
            assert("i32.EQ"@.len() != "i32.PUSH"@.len());
            assert("i32.EQ"@.len() != "f32.PUSH"@.len());
            assert("i32.EQ"@.len() != "CallExternal"@.len());
            assert("i32.EQ"@[4] != "i32.OR"@[4]);
            assert("i32.EQ"@[4] != "i32.LT"@[4]);
            assert("i32.EQ"@[4] != "i32.LE"@[4]);
            assert forall|i: int| 0 <= i < "i32.EQ"@.len() implies !is_ws(#[trigger] "i32.EQ"@[i]) by { if i == 0 {} else if i == 1 {} else if i == 2 {} else if i == 3 {} else if i == 4 {} else if i == 5 {} }
        },
        Instruction::I32Gt => {
            assert("i32.GT"@.len() != "i32.PUSH"@.len());
            assert("i32.GT"@.len() != "f32.PUSH"@.len());
            assert("i32.GT"@.len() != "CallExternal"@.len());
            assert("i32.GT"@[4] != "i32.OR"@[4]);
            assert("i32.GT"@[4] != "i32.LT"@[4]);
            assert("i32.GT"@[4] != "i32.LE"@[4]);
            assert("i32.GT"@[4] != "i32.EQ"@[4]);
            assert forall|i: int| 0 <= i < "i32.GT"@.len() implies !is_ws(#[trigger] "i32.GT"@[i]) by { if i == 0 {} else if i == 1 {} else if i == 2 {} else if i == 3 {} else if i == 4 {} else if i == 5 {} }
        },
        Instruction::I32Ge => {
            assert("i32.GE"@.len() != "i32.PUSH"@.len());
            assert("i32.GE"@.len() != "f32.PUSH"@.len());
            assert("i32.GE"@.len() != "CallExternal"@.len());
            assert("i32.GE"@[4] != "i32.OR"@[4]);
            assert("i32.GE"@[4] != "i32.LT"@[4]);
            assert("i32.GE"@[4] != "i32.LE"@[4]);
            assert("i32.GE"@[4] != "i32.EQ"@[4]);
            assert("i32.GE"@[5] != "i32.GT"@[5]);
            assert forall|i: int| 0 <= i < "i32.GE"@.len() implies !is_ws(#[trigger] "i32.GE"@[i]) by { if i == 0 {} else if i == 1 {} else if i == 2 {} else if i == 3 {} else if i == 4 {} else if i == 5 {} }
        },
        Instruction::JumpIfTrue => {
            assert("JumpIfTrue"@.len() != "i32.PUSH"@.len());
            assert("JumpIfTrue"@.len() != "f32.PUSH"@.len());
            assert("JumpIfTrue"@.len() != "CallExternal"@.len());
            assert forall|i: int| 0 <= i < "JumpIfTrue"@.len() implies !is_ws(#[trigger] "JumpIfTrue"@[i]) by { if i == 0 {} else if i == 1 {} else if i == 2 {} else if i == 3 {} else if i == 4 {} else if i == 5 {} else if i == 6 {} else if i == 7 {} else if i == 8 {} else if i == 9 {} }
        },
        Instruction::I32Not => {
            assert("i32.NOT"@.len() != "i32.PUSH"@.len());
            assert("i32.NOT"@.len() != "f32.PUSH"@.len());
            assert("i32.NOT"@.len() != "CallExternal"@.len());
            assert("i32.NOT"@[4] != "i32.XOR"@[4]);
            assert("i32.NOT"@[4] != "i32.AND"@[4]);
            assert("i32.NOT"@[4] != "i32.ADD"@[4]);
            assert("i32.NOT"@[4] != "i32.SUB"@[4]);
            assert("i32.NOT"@[4] != "i32.MUL"@[4]);
            assert("i32.NOT"@[4] != "i32.DIV"@[4]);
            assert("i32.NOT"@[4] != "i32.MOD"@[4]);
            assert("i32.NOT"@[4] != "i32.SHL"@[4]);
            assert("i32.NOT"@[4] != "i32.SHR"@[4]);
            assert forall|i: int| 0 <= i < "i32.NOT"@.len() implies !is_ws(#[trigger] "i32.NOT"@[i]) by { if i == 0 {} else if i == 1 {} else if i == 2 {} else if i == 3 {} else if i == 4 {} else if i == 5 {} else if i == 6 {} }
        },
        Instruction::I32ToF32 => {
            assert("i32.TO.f32"@.len() != "i32.PUSH"@.len());
            assert("i32.TO.f32"@.len() != "f32.PUSH"@.len());
            assert("i32.TO.f32"@.len() != "CallExternal"@.len());
            assert("i32.TO.f32"@[0] != "JumpIfTrue"@[0]);
            assert forall|i: int| 0 <= i < "i32.TO.f32"@.len() implies !is_ws(#[trigger] "i32.TO.f32"@[i]) by { if i == 0 {} else if i == 1 {} else if i == 2 {} else if i == 3 {} else if i == 4 {} else if i == 5 {} else if i == 6 {} else if i == 7 {} else if i == 8 {} else if i == 9 {} }
        },
        Instruction::F32Add => {
            assert("f32.ADD"@.len() != "i32.PUSH"@.len());
            assert("f32.ADD"@.len() != "f32.PUSH"@.len());
            assert("f32.ADD"@.len() != "CallExternal"@.len());
            assert("f32.ADD"@[0] != "i32.XOR"@[0]);
            assert("f32.ADD"@[0] != "i32.AND"@[0]);
            assert("f32.ADD"@[0] != "i32.ADD"@[0]);
            assert("f32.ADD"@[0] != "i32.SUB"@[0]);
            assert("f32.ADD"@[0] != "i32.MUL"@[0]);
            assert("f32.ADD"@[0] != "i32.DIV"@[0]);
            assert("f32.ADD"@[0] != "i32.MOD"@[0]);
            assert("f32.ADD"@[0] != "i32.SHL"@[0]);
            assert("f32.ADD"@[0] != "i32.SHR"@[0]);
            assert("f32.ADD"@[0] != "i32.NOT"@[0]);
            assert forall|i: int| 0 <= i < "f32.ADD"@.len() implies !is_ws(#[trigger] "f32.ADD"@[i]) by { if i == 0 {} else if i == 1 {} else if i == 2 {} else if i == 3 {} else if i == 4 {} else if i == 5 {} else if i == 6 {} }
        },
        Instruction::F32Sub => {
            assert("f32.SUB"@.len() != "i32.PUSH"@.len());
            assert("f32.SUB"@.len() != "f32.PUSH"@.len());
            assert("f32.SUB"@.len() != "CallExternal"@.len());
            assert("f32.SUB"@[0] != "i32.XOR"@[0]);
            assert("f32.SUB"@[0] != "i32.AND"@[0]);
            assert("f32.SUB"@[0] != "i32.ADD"@[0]);
            assert("f32.SUB"@[0] != "i32.SUB"@[0]);
            assert("f32.SUB"@[0] != "i32.MUL"@[0]);
            assert("f32.SUB"@[0] != "i32.DIV"@[0]);
            assert("f32.SUB"@[0] != "i32.MOD"@[0]);
            assert("f32.SUB"@[0] != "i32.SHL"@[0]);
            assert("f32.SUB"@[0] != "i32.SHR"@[0]);
            assert("f32.SUB"@[0] != "i32.NOT"@[0]);
            assert("f32.SUB"@[4] != "f32.ADD"@[4]);
            assert forall|i: int| 0 <= i < "f32.SUB"@.len() implies !is_ws(#[trigger] "f32.SUB"@[i]) by { if i == 0 {} else if i == 1 {} else if i == 2 {} else if i == 3 {} else if i == 4 {} else if i == 5 {} else if i == 6 {} }
        },
        Instruction::F32Mul => {
            assert("f32.MUL"@.len() != "i32.PUSH"@.len());
            assert("f32.MUL"@.len() != "f32.PUSH"@.len());
            assert("f32.MUL"@.len() != "CallExternal"@.len());
            assert("f32.MUL"@[0] != "i32.XOR"@[0]);
            assert("f32.MUL"@[0] != "i32.AND"@[0]);
            assert("f32.MUL"@[0] != "i32.ADD"@[0]);
            assert("f32.MUL"@[0] != "i32.SUB"@[0]);
            assert("f32.MUL"@[0] != "i32.MUL"@[0]);
            assert("f32.MUL"@[0] != "i32.DIV"@[0]);
            assert("f32.MUL"@[0] != "i32.MOD"@[0]);
            assert("f32.MUL"@[0] != "i32.SHL"@[0]);
            assert("f32.MUL"@[0] != "i32.SHR"@[0]);
            assert("f32.MUL"@[0] != "i32.NOT"@[0]);
            assert("f32.MUL"@[4] != "f32.ADD"@[4]);
            assert("f32.MUL"@[4] != "f32.SUB"@[4]);
            assert forall|i: int| 0 <= i < "f32.MUL"@.len() implies !is_ws(#[trigger] "f32.MUL"@[i]) by { if i == 0 {} else if i == 1 {} else if i == 2 {} else if i == 3 {} else if i == 4 {} else if i == 5 {} else if i == 6 {} }
        },
        Instruction::F32Div => {
            assert("f32.DIV"@.len() != "i32.PUSH"@.len());
            assert("f32.DIV"@.len() != "f32.PUSH"@.len());
            assert("f32.DIV"@.len() != "CallExternal"@.len());
            assert("f32.DIV"@[0] != "i32.XOR"@[0]);
            assert("f32.DIV"@[0] != "i32.AND"@[0]);
            assert("f32.DIV"@[0] != "i32.ADD"@[0]);
            assert("f32.DIV"@[0] != "i32.SUB"@[0]);
            assert("f32.DIV"@[0] != "i32.MUL"@[0]);
            assert("f32.DIV"@[0] != "i32.DIV"@[0]);
            assert("f32.DIV"@[0] != "i32.MOD"@[0]);
            assert("f32.DIV"@[0] != "i32.SHL"@[0]);
            assert("f32.DIV"@[0] != "i32.SHR"@[0]);
            assert("f32.DIV"@[0] != "i32.NOT"@[0]);
            assert("f32.DIV"@[4] != "f32.ADD"@[4]);
            assert("f32.DIV"@[4] != "f32.SUB"@[4]);
            assert("f32.DIV"@[4] != "f32.MUL"@[4]);
            assert forall|i: int| 0 <= i < "f32.DIV"@.len() implies !is_ws(#[trigger] "f32.DIV"@[i]) by { if i == 0 {} else if i == 1 {} else if i == 2 {} else if i == 3 {} else if i == 4 {} else if i == 5 {} else if i == 6 {} }
        },
        Instruction::F32Eq => {
            assert("f32.EQ"@.len() != "i32.PUSH"@.len());
            assert("f32.EQ"@.len() != "f32.PUSH"@.len());
            assert("f32.EQ"@.len() != "CallExternal"@.len());
            assert("f32.EQ"@[0] != "i32.OR"@[0]);
            assert("f32.EQ"@[0] != "i32.LT"@[0]);
            assert("f32.EQ"@[0] != "i32.LE"@[0]);
            assert("f32.EQ"@[0] != "i32.EQ"@[0]);
            assert("f32.EQ"@[0] != "i32.GT"@[0]);
            assert("f32.EQ"@[0] != "i32.GE"@[0]);
            assert forall|i: int| 0 <= i < "f32.EQ"@.len() implies !is_ws(#[trigger] "f32.EQ"@[i]) by { if i == 0 {} else if i == 1 {} else if i == 2 {} else if i == 3 {} else if i == 4 {} else if i == 5 {} }
        },
        Instruction::F32Gt => {
            assert("f32.GT"@.len() != "i32.PUSH"@.len());
            assert("f32.GT"@.len() != "f32.PUSH"@.len());
            assert("f32.GT"@.len() != "CallExternal"@.len());
            assert("f32.GT"@[0] != "i32.OR"@[0]);
            assert("f32.GT"@[0] != "i32.LT"@[0]);
            assert("f32.GT"@[0] != "i32.LE"@[0]);
            assert("f32.GT"@[0] != "i32.EQ"@[0]);
            assert("f32.GT"@[0] != "i32.GT"@[0]);
            assert("f32.GT"@[0] != "i32.GE"@[0]);
            assert("f32.GT"@[4] != "f32.EQ"@[4]);
            assert forall|i: int| 0 <= i < "f32.GT"@.len() implies !is_ws(#[trigger] "f32.GT"@[i]) by { if i == 0 {} else if i == 1 {} else if i == 2 {} else if i == 3 {} else if i == 4 {} else if i == 5 {} }
        },
        Instruction::F32Ge => {
            assert("f32.GE"@.len() != "i32.PUSH"@.len());
            assert("f32.GE"@.len() != "f32.PUSH"@.len());
            assert("f32.GE"@.len() != "CallExternal"@.len());
            assert("f32.GE"@[0] != "i32.OR"@[0]);
            assert("f32.GE"@[0] != "i32.LT"@[0]);
            assert("f32.GE"@[0] != "i32.LE"@[0]);
            assert("f32.GE"@[0] != "i32.EQ"@[0]);
            assert("f32.GE"@[0] != "i32.GT"@[0]);
            assert("f32.GE"@[0] != "i32.GE"@[0]);
            assert("f32.GE"@[4] != "f32.EQ"@[4]);
            assert("f32.GE"@[5] != "f32.GT"@[5]);
            assert forall|i: int| 0 <= i < "f32.GE"@.len() implies !is_ws(#[trigger] "f32.GE"@[i]) by { if i == 0 {} else if i == 1 {} else if i == 2 {} else if i == 3 {} else if i == 4 {} else if i == 5 {} }
        },
        Instruction::F32ToI32 => {
            assert("f32.TO.i32"@.len() != "i32.PUSH"@.len());
            assert("f32.TO.i32"@.len() != "f32.PUSH"@.len());
            assert("f32.TO.i32"@.len() != "CallExternal"@.len());
            assert("f32.TO.i32"@[0] != "JumpIfTrue"@[0]);
            assert("f32.TO.i32"@[0] != "i32.TO.f32"@[0]);
            assert forall|i: int| 0 <= i < "f32.TO.i32"@.len() implies !is_ws(#[trigger] "f32.TO.i32"@[i]) by { if i == 0 {} else if i == 1 {} else if i == 2 {} else if i == 3 {} else if i == 4 {} else if i == 5 {} else if i == 6 {} else if i == 7 {} else if i == 8 {} else if i == 9 {} }
        },
        Instruction::Print => {
            assert("Print"@.len() != "i32.PUSH"@.len());
            assert("Print"@.len() != "f32.PUSH"@.len());
            assert("Print"@.len() != "CallExternal"@.len());
            assert("Print"@[0] != "Write"@[0]);
            assert forall|i: int| 0 <= i < "Print"@.len() implies !is_ws(#[trigger] "Print"@[i]) by { if i == 0 {} else if i == 1 {} else if i == 2 {} else if i == 3 {} else if i == 4 {} }
        },
        Instruction::PrintN => {
            assert("PrintN"@.len() != "i32.PUSH"@.len());
            assert("PrintN"@.len() != "f32.PUSH"@.len());
            assert("PrintN"@.len() != "CallExternal"@.len());
            assert("PrintN"@[0] != "i32.OR"@[0]);
            assert("PrintN"@[0] != "i32.LT"@[0]);
            assert("PrintN"@[0] != "i32.LE"@[0]);
            assert("PrintN"@[0] != "i32.EQ"@[0]);
            assert("PrintN"@[0] != "i32.GT"@[0]);
            assert("PrintN"@[0] != "i32.GE"@[0]);
            assert("PrintN"@[0] != "f32.EQ"@[0]);
            assert("PrintN"@[0] != "f32.GT"@[0]);
            assert("PrintN"@[0] != "f32.GE"@[0]);
            assert forall|i: int| 0 <= i < "PrintN"@.len() implies !is_ws(#[trigger] "PrintN"@[i]) by { if i == 0 {} else if i == 1 {} else if i == 2 {} else if i == 3 {} else if i == 4 {} else if i == 5 {} }
        },
        Instruction::Jump => {
            assert("Jump"@.len() != "i32.PUSH"@.len());
            assert("Jump"@.len() != "f32.PUSH"@.len());
            assert("Jump"@.len() != "CallExternal"@.len());
            assert("Jump"@[0] != "Read"@[0]);
            assert("Jump"@[0] != "Noop"@[0]);
            assert("Jump"@[0] != "DupN"@[0]);
            assert("Jump"@[0] != "Swap"@[0]);
            assert forall|i: int| 0 <= i < "Jump"@.len() implies !is_ws(#[trigger] "Jump"@[i]) by { if i == 0 {} else if i == 1 {} else if i == 2 {} else if i == 3 {} }
        },
        Instruction::OperationCounter => {
            assert("OperationCounter"@.len() != "i32.PUSH"@.len());
            assert("OperationCounter"@.len() != "f32.PUSH"@.len());
            assert("OperationCounter"@.len() != "CallExternal"@.len());
            assert("OperationCounter"@[0] != "SwitchMemoryLane"@[0]);
            assert("OperationCounter"@[0] != "SizeOfMemoryLane"@[0]);
            assert forall|i: int| 0 <= i < "OperationCounter"@.len() implies !is_ws(#[trigger] "OperationCounter"@[i]) by { if i == 0 {} else if i == 1 {} else if i == 2 {} else if i == 3 {} else if i == 4 {} else if i == 5 {} else if i == 6 {} else if i == 7 {} else if i == 8 {} else if i == 9 {} else if i == 10 {} else if i == 11 {} else if i == 12 {} else if i == 13 {} else if i == 14 {} else if i == 15 {} }
        },
        Instruction::Halt => {
            assert("Halt"@.len() != "i32.PUSH"@.len());
            assert("Halt"@.len() != "f32.PUSH"@.len());
            assert("Halt"@.len() != "CallExternal"@.len());
            assert("Halt"@[0] != "Read"@[0]);
            assert("Halt"@[0] != "Noop"@[0]);
            assert("Halt"@[0] != "DupN"@[0]);
            assert("Halt"@[0] != "Swap"@[0]);
            assert("Halt"@[0] != "Jump"@[0]);
            assert forall|i: int| 0 <= i < "Halt"@.len() implies !is_ws(#[trigger] "Halt"@[i]) by { if i == 0 {} else if i == 1 {} else if i == 2 {} else if i == 3 {} }
        },
        _ => {},
    }
}

/// The text of every instruction reads back as the same instruction, where the name of a host
/// function is one word and the renderer writes one word that the decoder reads back as the
/// same bits; serde stores an instruction as its text on the strength of this.
pub proof fn lemma_text_reads_back<P: Fn(String) -> Option<u32>, R: Fn(u32) -> String>(op: OpcodeSpec, decode: P, render: R)
    requires
        op matches Instruction::CallExternal(n) ==> is_word(n),
        op matches Instruction::F32Push(b) ==> is_word(rendered(render, b)) && decoded(decode, rendered(render, b)) == Some(b),
    ensures
        parse_opcode_spec(opcode_text(op, render), decode) == Ok::<OpcodeSpec, Seq<char>>(op),
{
    reveal_strlit("i32.PUSH ");
    reveal_strlit("i32.PUSH");
    reveal_strlit("f32.PUSH ");
    reveal_strlit("f32.PUSH");
    reveal_strlit("CallExternal ");
    reveal_strlit("CallExternal");
    lemma_argument_mnemonics_are_words();
    lemma_next_word_empty();
    if !(op is I32Push || op is F32Push || op is CallExternal) {
        lemma_mnemonic_reads_back(op);
        let m = mnemonic(op);
        assert(m + Seq::<char>::empty() =~= m);
        lemma_next_word_of_word(m, Seq::<char>::empty());
        assert(opcode_text(op, render) == m);
        return;
    }
    let (m, a): (Seq<char>, Seq<char>) = match op {
        Instruction::I32Push(v) => ("i32.PUSH"@, signed_decimal(v as int)),
        Instruction::F32Push(b) => ("f32.PUSH"@, rendered(render, b)),
        Instruction::CallExternal(n) => ("CallExternal"@, n),
        _ => (seq![], seq![]),
    };
    if let Instruction::I32Push(v) = op {
        lemma_signed_decimal_word(v as int);
    }
    assert(opcode_text(op, render) =~= m + (seq![' '] + a));
    lemma_next_word_of_word(m, seq![' '] + a);
    lemma_next_word_after_space(a);
    assert(a + Seq::<char>::empty() =~= a);
    lemma_next_word_of_word(a, Seq::<char>::empty());
    if let Instruction::I32Push(v) = op {
        lemma_parse_signed_decimal(v as int);
    }
    if op is F32Push {
        assert(m[0] != "i32.PUSH"@[0]);
    }
}

/// The instruction set's text: each mnemonic names its instruction, and each instruction is
/// written as its mnemonic; `i32.PUSH` is written and read with its value in decimal.
pub proof fn lemma_instruction_texts<P: Fn(String) -> Option<u32>, R: Fn(u32) -> String>(decode: P, render: R, v: i32)
    ensures
        parse_opcode_spec("Read"@, decode) == Ok::<OpcodeSpec, Seq<char>>(Instruction::Read),
        opcode_text(Instruction::<Seq<char>>::Read, render) == "Read"@,
        parse_opcode_spec("Write"@, decode) == Ok::<OpcodeSpec, Seq<char>>(Instruction::Write),
        opcode_text(Instruction::<Seq<char>>::Write, render) == "Write"@,
        parse_opcode_spec("SwitchMemoryLane"@, decode) == Ok::<OpcodeSpec, Seq<char>>(Instruction::SwitchMemoryLane),
        opcode_text(Instruction::<Seq<char>>::SwitchMemoryLane, render) == "SwitchMemoryLane"@,
        parse_opcode_spec("SizeOfMemoryLane"@, decode) == Ok::<OpcodeSpec, Seq<char>>(Instruction::SizeOfMemoryLane),
        opcode_text(Instruction::<Seq<char>>::SizeOfMemoryLane, render) == "SizeOfMemoryLane"@,
        parse_opcode_spec("Noop"@, decode) == Ok::<OpcodeSpec, Seq<char>>(Instruction::Noop),
        opcode_text(Instruction::<Seq<char>>::Noop, render) == "Noop"@,
        parse_opcode_spec("Pop"@, decode) == Ok::<OpcodeSpec, Seq<char>>(Instruction::Pop),
        opcode_text(Instruction::<Seq<char>>::Pop, render) == "Pop"@,
        parse_opcode_spec("Pop32bits"@, decode) == Ok::<OpcodeSpec, Seq<char>>(Instruction::Pop32bits),
        opcode_text(Instruction::<Seq<char>>::Pop32bits, render) == "Pop32bits"@,
        parse_opcode_spec("Dup"@, decode) == Ok::<OpcodeSpec, Seq<char>>(Instruction::Dup),
        opcode_text(Instruction::<Seq<char>>::Dup, render) == "Dup"@,
        parse_opcode_spec("DupN"@, decode) == Ok::<OpcodeSpec, Seq<char>>(Instruction::DupN),
        opcode_text(Instruction::<Seq<char>>::DupN, render) == "DupN"@,
        parse_opcode_spec("Swap"@, decode) == Ok::<OpcodeSpec, Seq<char>>(Instruction::Swap),
        opcode_text(Instruction::<Seq<char>>::Swap, render) == "Swap"@,
        parse_opcode_spec("i32.XOR"@, decode) == Ok::<OpcodeSpec, Seq<char>>(Instruction::I32Xor),
        opcode_text(Instruction::<Seq<char>>::I32Xor, render) == "i32.XOR"@,
        parse_opcode_spec("i32.AND"@, decode) == Ok::<OpcodeSpec, Seq<char>>(Instruction::I32And),
        opcode_text(Instruction::<Seq<char>>::I32And, render) == "i32.AND"@,
        parse_opcode_spec("i32.OR"@, decode) == Ok::<OpcodeSpec, Seq<char>>(Instruction::I32Or),
        opcode_text(Instruction::<Seq<char>>::I32Or, render) == "i32.OR"@,
        parse_opcode_spec("i32.ZERO"@, decode) == Ok::<OpcodeSpec, Seq<char>>(Instruction::I32Zero),
        opcode_text(Instruction::<Seq<char>>::I32Zero, render) == "i32.ZERO"@,
        parse_opcode_spec("i32.PickN"@, decode) == Ok::<OpcodeSpec, Seq<char>>(Instruction::I32PickN),
        opcode_text(Instruction::<Seq<char>>::I32PickN, render) == "i32.PickN"@,
        parse_opcode_spec("i32.ADD"@, decode) == Ok::<OpcodeSpec, Seq<char>>(Instruction::I32Add),
        opcode_text(Instruction::<Seq<char>>::I32Add, render) == "i32.ADD"@,
        parse_opcode_spec("i32.SUB"@, decode) == Ok::<OpcodeSpec, Seq<char>>(Instruction::I32Sub),
        opcode_text(Instruction::<Seq<char>>::I32Sub, render) == "i32.SUB"@,
        parse_opcode_spec("i32.MUL"@, decode) == Ok::<OpcodeSpec, Seq<char>>(Instruction::I32Mul),
        opcode_text(Instruction::<Seq<char>>::I32Mul, render) == "i32.MUL"@,
        parse_opcode_spec("i32.DIV"@, decode) == Ok::<OpcodeSpec, Seq<char>>(Instruction::I32Div),
        opcode_text(Instruction::<Seq<char>>::I32Div, render) == "i32.DIV"@,
        parse_opcode_spec("i32.MOD"@, decode) == Ok::<OpcodeSpec, Seq<char>>(Instruction::I32Mod),
        opcode_text(Instruction::<Seq<char>>::I32Mod, render) == "i32.MOD"@,
        parse_opcode_spec("i32.SHL"@, decode) == Ok::<OpcodeSpec, Seq<char>>(Instruction::I32Shl),
        opcode_text(Instruction::<Seq<char>>::I32Shl, render) == "i32.SHL"@,
        parse_opcode_spec("i32.SHR"@, decode) == Ok::<OpcodeSpec, Seq<char>>(Instruction::I32Shr),
        opcode_text(Instruction::<Seq<char>>::I32Shr, render) == "i32.SHR"@,
        parse_opcode_spec("i32.LT"@, decode) == Ok::<OpcodeSpec, Seq<char>>(Instruction::I32Lt),
        opcode_text(Instruction::<Seq<char>>::I32Lt, render) == "i32.LT"@,
        parse_opcode_spec("i32.LE"@, decode) == Ok::<OpcodeSpec, Seq<char>>(Instruction::I32Le),
        opcode_text(Instruction::<Seq<char>>::I32Le, render) == "i32.LE"@,
        parse_opcode_spec("i32.EQ"@, decode) == Ok::<OpcodeSpec, Seq<char>>(Instruction::I32Eq),
        opcode_text(Instruction::<Seq<char>>::I32Eq, render) == "i32.EQ"@,
        parse_opcode_spec("i32.GT"@, decode) == Ok::<OpcodeSpec, Seq<char>>(Instruction::I32Gt),
        opcode_text(Instruction::<Seq<char>>::I32Gt, render) == "i32.GT"@,
        parse_opcode_spec("i32.GE"@, decode) == Ok::<OpcodeSpec, Seq<char>>(Instruction::I32Ge),
        opcode_text(Instruction::<Seq<char>>::I32Ge, render) == "i32.GE"@,
        parse_opcode_spec("JumpIfTrue"@, decode) == Ok::<OpcodeSpec, Seq<char>>(Instruction::JumpIfTrue),
        opcode_text(Instruction::<Seq<char>>::JumpIfTrue, render) == "JumpIfTrue"@,
        parse_opcode_spec("i32.NOT"@, decode) == Ok::<OpcodeSpec, Seq<char>>(Instruction::I32Not),
        opcode_text(Instruction::<Seq<char>>::I32Not, render) == "i32.NOT"@,
        parse_opcode_spec("i32.TO.f32"@, decode) == Ok::<OpcodeSpec, Seq<char>>(Instruction::I32ToF32),
        opcode_text(Instruction::<Seq<char>>::I32ToF32, render) == "i32.TO.f32"@,
        parse_opcode_spec("f32.ADD"@, decode) == Ok::<OpcodeSpec, Seq<char>>(Instruction::F32Add),
        opcode_text(Instruction::<Seq<char>>::F32Add, render) == "f32.ADD"@,
        parse_opcode_spec("f32.SUB"@, decode) == Ok::<OpcodeSpec, Seq<char>>(Instruction::F32Sub),
        opcode_text(Instruction::<Seq<char>>::F32Sub, render) == "f32.SUB"@,
        parse_opcode_spec("f32.MUL"@, decode) == Ok::<OpcodeSpec, Seq<char>>(Instruction::F32Mul),
        opcode_text(Instruction::<Seq<char>>::F32Mul, render) == "f32.MUL"@,
        parse_opcode_spec("f32.DIV"@, decode) == Ok::<OpcodeSpec, Seq<char>>(Instruction::F32Div),
        opcode_text(Instruction::<Seq<char>>::F32Div, render) == "f32.DIV"@,
        parse_opcode_spec("f32.EQ"@, decode) == Ok::<OpcodeSpec, Seq<char>>(Instruction::F32Eq),
        opcode_text(Instruction::<Seq<char>>::F32Eq, render) == "f32.EQ"@,
        parse_opcode_spec("f32.GT"@, decode) == Ok::<OpcodeSpec, Seq<char>>(Instruction::F32Gt),
        opcode_text(Instruction::<Seq<char>>::F32Gt, render) == "f32.GT"@,
        parse_opcode_spec("f32.GE"@, decode) == Ok::<OpcodeSpec, Seq<char>>(Instruction::F32Ge),
        opcode_text(Instruction::<Seq<char>>::F32Ge, render) == "f32.GE"@,
        parse_opcode_spec("f32.TO.i32"@, decode) == Ok::<OpcodeSpec, Seq<char>>(Instruction::F32ToI32),
        opcode_text(Instruction::<Seq<char>>::F32ToI32, render) == "f32.TO.i32"@,
        parse_opcode_spec("Print"@, decode) == Ok::<OpcodeSpec, Seq<char>>(Instruction::Print),
        opcode_text(Instruction::<Seq<char>>::Print, render) == "Print"@,
        parse_opcode_spec("PrintN"@, decode) == Ok::<OpcodeSpec, Seq<char>>(Instruction::PrintN),
        opcode_text(Instruction::<Seq<char>>::PrintN, render) == "PrintN"@,
        parse_opcode_spec("Jump"@, decode) == Ok::<OpcodeSpec, Seq<char>>(Instruction::Jump),
        opcode_text(Instruction::<Seq<char>>::Jump, render) == "Jump"@,
        parse_opcode_spec("OperationCounter"@, decode) == Ok::<OpcodeSpec, Seq<char>>(Instruction::OperationCounter),
        opcode_text(Instruction::<Seq<char>>::OperationCounter, render) == "OperationCounter"@,
        parse_opcode_spec("Halt"@, decode) == Ok::<OpcodeSpec, Seq<char>>(Instruction::Halt),
        opcode_text(Instruction::<Seq<char>>::Halt, render) == "Halt"@,
        parse_opcode_spec("i32.PUSH "@ + signed_decimal(v as int), decode) == Ok::<OpcodeSpec, Seq<char>>(Instruction::I32Push(v)),
        opcode_text(Instruction::<Seq<char>>::I32Push(v), render) == "i32.PUSH "@ + signed_decimal(v as int),
{
    lemma_text_reads_back(Instruction::<Seq<char>>::Read, decode, render);
    lemma_text_reads_back(Instruction::<Seq<char>>::Write, decode, render);
    lemma_text_reads_back(Instruction::<Seq<char>>::SwitchMemoryLane, decode, render);
    lemma_text_reads_back(Instruction::<Seq<char>>::SizeOfMemoryLane, decode, render);
    lemma_text_reads_back(Instruction::<Seq<char>>::Noop, decode, render);
    lemma_text_reads_back(Instruction::<Seq<char>>::Pop, decode, render);
    lemma_text_reads_back(Instruction::<Seq<char>>::Pop32bits, decode, render);
    lemma_text_reads_back(Instruction::<Seq<char>>::Dup, decode, render);
    lemma_text_reads_back(Instruction::<Seq<char>>::DupN, decode, render);
    lemma_text_reads_back(Instruction::<Seq<char>>::Swap, decode, render);
    lemma_text_reads_back(Instruction::<Seq<char>>::I32Xor, decode, render);
    lemma_text_reads_back(Instruction::<Seq<char>>::I32And, decode, render);
    lemma_text_reads_back(Instruction::<Seq<char>>::I32Or, decode, render);
    lemma_text_reads_back(Instruction::<Seq<char>>::I32Zero, decode, render);
    lemma_text_reads_back(Instruction::<Seq<char>>::I32PickN, decode, render);
    lemma_text_reads_back(Instruction::<Seq<char>>::I32Add, decode, render);
    lemma_text_reads_back(Instruction::<Seq<char>>::I32Sub, decode, render);
    lemma_text_reads_back(Instruction::<Seq<char>>::I32Mul, decode, render);
    lemma_text_reads_back(Instruction::<Seq<char>>::I32Div, decode, render);
    lemma_text_reads_back(Instruction::<Seq<char>>::I32Mod, decode, render);
    lemma_text_reads_back(Instruction::<Seq<char>>::I32Shl, decode, render);
    lemma_text_reads_back(Instruction::<Seq<char>>::I32Shr, decode, render);
    lemma_text_reads_back(Instruction::<Seq<char>>::I32Lt, decode, render);
    lemma_text_reads_back(Instruction::<Seq<char>>::I32Le, decode, render);
    lemma_text_reads_back(Instruction::<Seq<char>>::I32Eq, decode, render);
    lemma_text_reads_back(Instruction::<Seq<char>>::I32Gt, decode, render);
    lemma_text_reads_back(Instruction::<Seq<char>>::I32Ge, decode, render);
    lemma_text_reads_back(Instruction::<Seq<char>>::JumpIfTrue, decode, render);
    lemma_text_reads_back(Instruction::<Seq<char>>::I32Not, decode, render);
    lemma_text_reads_back(Instruction::<Seq<char>>::I32ToF32, decode, render);
    lemma_text_reads_back(Instruction::<Seq<char>>::F32Add, decode, render);
    lemma_text_reads_back(Instruction::<Seq<char>>::F32Sub, decode, render);
    lemma_text_reads_back(Instruction::<Seq<char>>::F32Mul, decode, render);
    lemma_text_reads_back(Instruction::<Seq<char>>::F32Div, decode, render);
    lemma_text_reads_back(Instruction::<Seq<char>>::F32Eq, decode, render);
    lemma_text_reads_back(Instruction::<Seq<char>>::F32Gt, decode, render);
    lemma_text_reads_back(Instruction::<Seq<char>>::F32Ge, decode, render);
    lemma_text_reads_back(Instruction::<Seq<char>>::F32ToI32, decode, render);
    lemma_text_reads_back(Instruction::<Seq<char>>::Print, decode, render);
    lemma_text_reads_back(Instruction::<Seq<char>>::PrintN, decode, render);
    lemma_text_reads_back(Instruction::<Seq<char>>::Jump, decode, render);
    lemma_text_reads_back(Instruction::<Seq<char>>::OperationCounter, decode, render);
    lemma_text_reads_back(Instruction::<Seq<char>>::Halt, decode, render);
    lemma_text_reads_back(Instruction::<Seq<char>>::I32Push(v), decode, render);
}

/// A call of a host function is written `CallExternal` and the function's name, and reads back
/// as a call of that name; `f32.PUSH` followed by a literal that the decoder reads as `b` reads
/// as a push of `b`.
pub proof fn lemma_argument_texts<P: Fn(String) -> Option<u32>, R: Fn(u32) -> String>(decode: P, render: R, name: Seq<char>, lit: Seq<char>, b: u32)
    ensures
        opcode_text(Instruction::CallExternal(name), render) == "CallExternal "@ + name,
        is_word(name) ==> parse_opcode_spec("CallExternal "@ + name, decode) == Ok::<OpcodeSpec, Seq<char>>(Instruction::CallExternal(name)),
        is_word(lit) && decoded(decode, lit) == Some(b) ==> parse_opcode_spec("f32.PUSH "@ + lit, decode)
            == Ok::<OpcodeSpec, Seq<char>>(Instruction::F32Push(b)),
{
    reveal_strlit("CallExternal ");
    reveal_strlit("CallExternal");
    reveal_strlit("f32.PUSH ");
    reveal_strlit("f32.PUSH");
    reveal_strlit("i32.PUSH");
    lemma_argument_mnemonics_are_words();
    lemma_next_word_empty();
    if is_word(name) {
        lemma_text_reads_back(Instruction::CallExternal(name), decode, render);
    }
    if is_word(lit) && decoded(decode, lit) == Some(b) {
        let m = "f32.PUSH"@;
        assert("f32.PUSH "@ + lit =~= m + (seq![' '] + lit));
        lemma_next_word_of_word(m, seq![' '] + lit);
        lemma_next_word_after_space(lit);
        assert(lit + Seq::<char>::empty() =~= lit);
        lemma_next_word_of_word(lit, Seq::<char>::empty());
        assert(m[0] != "i32.PUSH"@[0]);
    }
}

/// The message of an instruction with a word after its last argument.
pub open spec fn extra_check(m: Seq<char>, rest: Seq<char>, op: OpcodeSpec) -> Result<OpcodeSpec, Seq<char>> {
    match next_word(rest) {
        Some((e, _)) => Err("unexpected extra argument for "@ + m + ": "@ + e),
        None => Ok(op),
    }
}

/// `i32.PUSH` with the text after it.
pub open spec fn parse_push_i32(m: Seq<char>, rest: Seq<char>) -> Result<OpcodeSpec, Seq<char>> {
    match next_word(rest) {
        None => Err("missing argument for "@ + m),
        Some((a, rest2)) => match parse_i64(a) {
            Err(k) => Err("invalid argument for "@ + m + ": "@ + int_error_message(k)),
            Ok(v) => if v < i32::MIN || v > i32::MAX {
                Err("argument for "@ + m + " is out of i32 range: "@ + signed_decimal(v))
            } else {
                extra_check(m, rest2, Instruction::I32Push(v as i32))
            },
        },
    }
}

/// `f32.PUSH` with the text after it.
pub open spec fn parse_push_f32<P: Fn(String) -> Option<u32>>(m: Seq<char>, rest: Seq<char>, decode: P) -> Result<OpcodeSpec, Seq<char>> {
    match next_word(rest) {
        None => Err("missing argument for "@ + m),
        Some((a, rest2)) => match decoded(decode, a) {
            None => Err("invalid argument for "@ + m + ": invalid float literal"@),
            Some(b) => extra_check(m, rest2, Instruction::F32Push(b)),
        },
    }
}

/// `CallExternal` with the text after it.
pub open spec fn parse_call(m: Seq<char>, rest: Seq<char>) -> Result<OpcodeSpec, Seq<char>> {
    match next_word(rest) {
        None => Err("missing argument for "@ + m),
        Some((a, rest2)) => extra_check(m, rest2, Instruction::CallExternal(a)),
    }
}

/// The instruction written on `line`, or why there is none; `decode` reads float literals.
pub open spec fn parse_opcode_spec<P: Fn(String) -> Option<u32>>(line: Seq<char>, decode: P) -> Result<OpcodeSpec, Seq<char>> {
    match next_word(line) {
        None => Err("empty opcode"@),
        Some((m, rest)) => {
            if m == "i32.PUSH"@ {
                parse_push_i32(m, rest)
            } else if m == "f32.PUSH"@ {
                parse_push_f32(m, rest, decode)
            } else if m == "CallExternal"@ {
                parse_call(m, rest)
            } else {
                match simple_instruction(m) {
                    None => Err("unknown opcode: "@ + m),
                    Some(op) => extra_check(m, rest, op),
                }
            }
        },
    }
}

/// The mathematical value of a parse result.
pub open spec fn parse_view(r: Result<Opcode, String>) -> Result<OpcodeSpec, Seq<char>> {
    match r {
        Ok(op) => Ok(op@),
        Err(e) => Err(e@),
    }
}

fn check_extra(v: &[char], lo: usize, hi: usize, m: &String, op: Opcode) -> (r: Result<Opcode, String>)
    requires
        lo <= hi <= v@.len(),
    ensures
        parse_view(r) == extra_check(m@, v@.subrange(lo as int, hi as int), op@),
{
    match find_word(v, lo, hi) {
        Some((a, b)) => {
            let mut e = String::from_str("unexpected extra argument for ");
            push_str(&mut e, m.as_str());
            push_str(&mut e, ": ");
            let w = string_of(v, a, b);
            push_str(&mut e, w.as_str());
            Err(e)
        },
        None => Ok(op),
    }
}

fn missing_argument(m: &String) -> (e: String)
    ensures
        e@ == "missing argument for "@ + m@,
{
    let mut e = String::from_str("missing argument for ");
    push_str(&mut e, m.as_str());
    e
}

/// Reads the instruction written in `v[lo..hi]`.
pub fn parse_opcode_window<P: Fn(String) -> Option<u32>>(v: &[char], lo: usize, hi: usize, decode: &P) -> (r: Result<Opcode, String>)
    requires
        lo <= hi <= v@.len(),
        decoder_is_function(*decode),
    ensures
        parse_view(r) == parse_opcode_spec(v@.subrange(lo as int, hi as int), *decode),
{
    let (a, b) = match find_word(v, lo, hi) {
        None => { return Err(String::from_str("empty opcode")); },
        Some(w) => w,
    };
    let m = string_of(v, a, b);
    if word_is(&m, "i32.PUSH") {
        parse_push_i32_window(v, b, hi, &m)
    } else if word_is(&m, "f32.PUSH") {
        parse_push_f32_window(v, b, hi, &m, decode)
    } else if word_is(&m, "CallExternal") {
        parse_call_window(v, b, hi, &m)
    } else {
        match simple_instruction_of(&m) {
            None => {
                let mut e = String::from_str("unknown opcode: ");
                push_str(&mut e, m.as_str());
                Err(e)
            },
            Some(op) => check_extra(v, b, hi, &m, op),
        }
    }
}

fn parse_push_i32_window(v: &[char], lo: usize, hi: usize, m: &String) -> (r: Result<Opcode, String>)
    requires
        lo <= hi <= v@.len(),
    ensures
        parse_view(r) == parse_push_i32(m@, v@.subrange(lo as int, hi as int)),
{
    let (c, d) = match find_word(v, lo, hi) {
        None => { return Err(missing_argument(m)); },
        Some(w) => w,
    };
    match parse_i64_window(v, c, d) {
        Err(k) => {
            let mut e = String::from_str("invalid argument for ");
            push_str(&mut e, m.as_str());
            push_str(&mut e, ": ");
            push_str(&mut e, int_error_text(k));
            Err(e)
        },
        Ok(x) => {
            if x < i32::MIN as i64 || x > i32::MAX as i64 {
                let mut e = String::from_str("argument for ");
                push_str(&mut e, m.as_str());
                push_str(&mut e, " is out of i32 range: ");
                push_signed_decimal(&mut e, x);
                Err(e)
            } else {
                check_extra(v, d, hi, m, Instruction::I32Push(x as i32))
            }
        },
    }
}

fn parse_push_f32_window<P: Fn(String) -> Option<u32>>(v: &[char], lo: usize, hi: usize, m: &String, decode: &P) -> (r: Result<Opcode, String>)
    requires
        lo <= hi <= v@.len(),
        decoder_is_function(*decode),
    ensures
        parse_view(r) == parse_push_f32(m@, v@.subrange(lo as int, hi as int), *decode),
{
    let (c, d) = match find_word(v, lo, hi) {
        None => { return Err(missing_argument(m)); },
        Some(w) => w,
    };
    let lit = string_of(v, c, d);
    match decode_literal(decode, lit) {
        None => {
            let mut e = String::from_str("invalid argument for ");
            push_str(&mut e, m.as_str());
            push_str(&mut e, ": invalid float literal");
            Err(e)
        },
        Some(bits) => check_extra(v, d, hi, m, Instruction::F32Push(bits)),
    }
}

fn parse_call_window(v: &[char], lo: usize, hi: usize, m: &String) -> (r: Result<Opcode, String>)
    requires
        lo <= hi <= v@.len(),
    ensures
        parse_view(r) == parse_call(m@, v@.subrange(lo as int, hi as int)),
{
    let (c, d) = match find_word(v, lo, hi) {
        None => { return Err(missing_argument(m)); },
        Some(w) => w,
    };
    let name = string_of(v, c, d);
    check_extra(v, d, hi, m, Instruction::CallExternal(name))
}

/// The message `i64::from_str` gives for a kind of failure.
pub fn int_error_text(e: IntError) -> (t: &'static str)
    ensures
        t@ == int_error_message(e),
{
    match e {
        IntError::Empty => "cannot parse integer from empty string",
        IntError::InvalidDigit => "invalid digit found in string",
        IntError::PosOverflow => "number too large to fit in target type",
        IntError::NegOverflow => "number too small to fit in target type",
    }
}

/// Reads the instruction written on `line`; `decode` reads the literal of `f32.PUSH`.
pub fn parse_opcode<P: Fn(String) -> Option<u32>>(line: &str, decode: &P) -> (r: Result<Opcode, String>)
    requires
        decoder_is_function(*decode),
    ensures
        parse_view(r) == parse_opcode_spec(line@, *decode),
{
    let v = chars_of(line);
    proof { assert(v@.subrange(0, v@.len() as int) =~= v@); }
    parse_opcode_window(v.as_slice(), 0, v.len(), decode)
}

} // verus!
