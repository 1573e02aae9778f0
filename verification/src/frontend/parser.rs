//! Reading source text into labels and instructions, line by line.
use vstd::prelude::*;
use crate::frontend::ir::{ItemSpec, KindSpec, LabelDecl, LabelSpec, ParsedInstruction, ParsedInstructionKind, ParsedItem, ParsedProgram};
use crate::host::decoder_is_function;
use crate::lex::{chars_of, comment_cut, find_word, is_word, is_ws, lemma_next_word_empty, lemma_next_word_of_word, line_bounds, lines, next_word, skip_ws, skip_ws_back, string_of, strip_comment, trim, trim_start};
use crate::syntax::{parse_opcode_spec, parse_opcode_window, parse_view};
use crate::text::{decimal, push_decimal, push_str};

verus! {

/// The start of every message about line `n` of `path`.
pub open spec fn at_line(path: Seq<char>, n: nat) -> Seq<char> {
    path + ":"@ + decimal(n) + ": "@
}

pub open spec fn is_label_start(c: char) -> bool {
    ('a' <= c && c <= 'z') || ('A' <= c && c <= 'Z') || c == '_'
}

pub open spec fn is_label_char(c: char) -> bool {
    is_label_start(c) || ('0' <= c && c <= '9')
}

/// Whether `label` is a label name: `.` then a letter or `_`, then letters, digits or `_`.
pub open spec fn label_name_ok(label: Seq<char>) -> bool {
    &&& label.len() >= 2
    &&& label[0] == '.'
    &&& is_label_start(label[1])
    &&& forall|i: int| 2 <= i < label.len() ==> is_label_char(#[trigger] label[i])
}

/// Why `label` is not a label name, if it is not one.
pub open spec fn validate_label(path: Seq<char>, label: Seq<char>, n: nat) -> Result<(), Seq<char>> {
    if label.len() == 0 || label[0] != '.' {
        Err(at_line(path, n) + "invalid label "@ + label + "; labels must start with '.'"@)
    } else if !label_name_ok(label) {
        Err(at_line(path, n) + "invalid label "@ + label + "; labels must match .[A-Za-z_][A-Za-z0-9_]*"@)
    } else {
        Ok(())
    }
}

/// The label declared by `line`, which starts with '.'.
pub open spec fn label_decl(path: Seq<char>, line: Seq<char>, n: nat) -> Result<LabelSpec, Seq<char>> {
    let standalone = match next_word(line) {
        Some((_, after)) => next_word(after) is None,
        None => false,
    };
    if !standalone {
        Err(at_line(path, n) + "labels must be standalone lines"@)
    } else {
        match validate_label(path, line, n) {
            Err(e) => Err(e),
            Ok(()) => Ok(LabelSpec { name: line, line: n }),
        }
    }
}

/// The label `line` jumps to when it is `kw` followed by a label, or `None` when it is not that.
pub open spec fn symbolic_jump(path: Seq<char>, line: Seq<char>, n: nat, kw: Seq<char>) -> Result<Option<Seq<char>>, Seq<char>> {
    if !(kw.len() <= line.len() && line.take(kw.len() as int) == kw) {
        Ok(None)
    } else {
        let rest = trim_start(line.skip(kw.len() as int));
        if rest.len() == 0 || rest[0] != '.' {
            Ok(None)
        } else {
            match next_word(rest) {
                None => Ok(None),
                Some((target, after)) => match next_word(after) {
                    Some((extra, _)) => Err(at_line(path, n) + "unexpected extra argument for "@ + kw + ": "@ + extra),
                    None => match validate_label(path, target, n) {
                        Err(e) => Err(e),
                        Ok(()) => Ok(Some(target)),
                    },
                },
            }
        }
    }
}

/// What the trimmed, comment-free `line` holds (numbered `n`), or why it is wrong.
pub open spec fn parse_clean_line<P: Fn(String) -> Option<u32>>(path: Seq<char>, line: Seq<char>, n: nat, decode: P) -> Result<Option<ItemSpec>, Seq<char>> {
    if line.len() == 0 {
        Ok(None)
    } else if line[0] == '.' {
        match label_decl(path, line, n) {
            Err(e) => Err(e),
            Ok(l) => Ok(Some(ItemSpec::Label(l))),
        }
    } else {
        match symbolic_jump(path, line, n, "JumpIfTrue"@) {
            Err(e) => Err(e),
            Ok(Some(t)) => Ok(Some(ItemSpec::Instruction(KindSpec::JumpIfTrueLabel(t), n))),
            Ok(None) => match symbolic_jump(path, line, n, "Jump"@) {
                Err(e) => Err(e),
                Ok(Some(t)) => Ok(Some(ItemSpec::Instruction(KindSpec::JumpLabel(t), n))),
                Ok(None) => match parse_opcode_spec(line, decode) {
                    Err(e) => Err(at_line(path, n) + e),
                    Ok(op) => Ok(Some(ItemSpec::Instruction(KindSpec::Concrete(op), n))),
                },
            },
        }
    }
}

/// The items of `ls`, whose first line has number `n`, or the error of the first wrong line.
pub open spec fn parse_lines<P: Fn(String) -> Option<u32>>(path: Seq<char>, ls: Seq<Seq<char>>, n: nat, decode: P) -> Result<Seq<ItemSpec>, Seq<char>>
    decreases ls.len(),
{
    if ls.len() == 0 {
        Ok(seq![])
    } else {
        match parse_clean_line(path, trim(strip_comment(ls[0])), n, decode) {
            Err(e) => Err(e),
            Ok(item) => match parse_lines(path, ls.drop_first(), n + 1, decode) {
                Err(e) => Err(e),
                Ok(rest) => match item {
                    Some(x) => Ok(seq![x] + rest),
                    None => Ok(rest),
                },
            },
        }
    }
}

/// Each line gives at most one item.
pub proof fn lemma_parse_lines_len<P: Fn(String) -> Option<u32>>(path: Seq<char>, ls: Seq<Seq<char>>, n: nat, decode: P)
    ensures
        parse_lines(path, ls, n, decode) matches Ok(items) ==> items.len() <= ls.len(),
    decreases ls.len(),
{
    if ls.len() > 0 {
        lemma_parse_lines_len(path, ls.drop_first(), n + 1, decode);
    }
}

/// The items of a source; lines are numbered from 1.
pub open spec fn parse_source_spec<P: Fn(String) -> Option<u32>>(path: Seq<char>, source: Seq<char>, decode: P) -> Result<Seq<ItemSpec>, Seq<char>> {
    parse_lines(path, lines(source), 1, decode)
}

fn line_prefix(path: &str, n: usize) -> (e: String)
    ensures
        e@ == at_line(path@, n as nat),
{
    let mut e = String::from_str(path);
    push_str(&mut e, ":");
    push_decimal(&mut e, n);
    push_str(&mut e, ": ");
    e
}

/// Whether the window `v[lo..hi]` starts with the characters of `kw`.
fn starts_with(v: &[char], lo: usize, hi: usize, kw: &str) -> (b: bool)
    requires
        lo <= hi <= v@.len(),
    ensures
        b == (kw@.len() <= hi - lo && v@.subrange(lo as int, hi as int).take(kw@.len() as int) == kw@),
{
    let k = chars_of(kw);
    if k.len() > hi - lo {
        return false;
    }
    let mut i: usize = 0;
    while i < k.len()
        invariant
            k@ == kw@,
            k@.len() <= hi - lo,
            lo <= hi <= v@.len(),
            i <= k@.len(),
            forall|j: int| 0 <= j < i ==> v@[lo + j] == k@[j],
        decreases k@.len() - i,
    {
        if v[lo + i] != k[i] {
            proof { assert(v@.subrange(lo as int, hi as int).take(kw@.len() as int)[i as int] != kw@[i as int]); }
            return false;
        }
        i += 1;
    }
    proof { assert(v@.subrange(lo as int, hi as int).take(kw@.len() as int) =~= kw@); }
    true
}

/// A label is accepted exactly when it is `.`, then an ASCII letter or `_`, then any number of
/// ASCII letters, ASCII digits and `_`.
pub proof fn lemma_label_names(path: Seq<char>, label: Seq<char>, n: nat)
    ensures
        validate_label(path, label, n) is Ok <==> {
            &&& label.len() >= 2
            &&& label[0] == '.'
            &&& ('a' <= label[1] && label[1] <= 'z') || ('A' <= label[1] && label[1] <= 'Z') || label[1] == '_'
            &&& forall|i: int| 2 <= i < label.len() ==> {
                ||| 'a' <= #[trigger] label[i] && label[i] <= 'z'
                ||| 'A' <= label[i] && label[i] <= 'Z'
                ||| '0' <= label[i] && label[i] <= '9'
                ||| label[i] == '_'
            }
        },
{
}

/// A line that holds nothing but an accepted label declares that label, at that line.
pub proof fn lemma_label_line<P: Fn(String) -> Option<u32>>(path: Seq<char>, label: Seq<char>, n: nat, decode: P)
    requires
        label.len() >= 2,
        label[0] == '.',
        ('a' <= label[1] && label[1] <= 'z') || ('A' <= label[1] && label[1] <= 'Z') || label[1] == '_',
        forall|i: int| 2 <= i < label.len() ==> {
            ||| 'a' <= #[trigger] label[i] && label[i] <= 'z'
            ||| 'A' <= label[i] && label[i] <= 'Z'
            ||| '0' <= label[i] && label[i] <= '9'
            ||| label[i] == '_'
        },
    ensures
        label_decl(path, label, n) == Ok::<LabelSpec, Seq<char>>(LabelSpec { name: label, line: n }),
        parse_clean_line(path, label, n, decode)
            == Ok::<Option<ItemSpec>, Seq<char>>(Some(ItemSpec::Label(LabelSpec { name: label, line: n }))),
{
    lemma_label_names(path, label, n);
    assert(is_word(label)) by {
        assert forall|i: int| 0 <= i < label.len() implies !is_ws(#[trigger] label[i]) by {
            if i >= 2 {
                assert(is_label_char(label[i]));
            }
        }
    }
    let e = Seq::<char>::empty();
    lemma_next_word_of_word(label, e);
    assert(label + e =~= label);
    lemma_next_word_empty();
}

fn validate_label_window(path: &str, v: &[char], lo: usize, hi: usize, n: usize) -> (r: Result<(), String>)
    requires
        lo <= hi <= v@.len(),
    ensures
        match validate_label(path@, v@.subrange(lo as int, hi as int), n as nat) {
            Ok(()) => r is Ok,
            Err(e) => r matches Err(m) && m@ == e,
        },
{
    let ghost label = v@.subrange(lo as int, hi as int);
    if lo == hi || v[lo] != '.' {
        let mut e = line_prefix(path, n);
        push_str(&mut e, "invalid label ");
        let l = string_of(v, lo, hi);
        push_str(&mut e, l.as_str());
        push_str(&mut e, "; labels must start with '.'");
        return Err(e);
    }
    let mut ok = hi - lo >= 2;
    if ok {
        let c = v[lo + 1];
        ok = ('a' <= c && c <= 'z') || ('A' <= c && c <= 'Z') || c == '_';
    }
    let mut i: usize = if ok { lo + 2 } else { hi };
    while ok && i < hi
        invariant
            lo + 2 <= i <= hi || !ok,
            lo <= hi <= v@.len(),
            label == v@.subrange(lo as int, hi as int),
            ok ==> label.len() >= 2 && is_label_start(label[1]),
            ok ==> forall|j: int| 2 <= j < i - lo ==> is_label_char(#[trigger] label[j]),
            !ok ==> !label_name_ok(label),
            label.len() >= 1 && label[0] == '.',
        decreases hi - i,
    {
        let c = v[i];
        if !(('a' <= c && c <= 'z') || ('A' <= c && c <= 'Z') || c == '_' || ('0' <= c && c <= '9')) {
            proof { assert(!is_label_char(label[i - lo])); }
            ok = false;
            i = hi;
        } else {
            i += 1;
        }
    }
    if !ok {
        let mut e = line_prefix(path, n);
        push_str(&mut e, "invalid label ");
        let l = string_of(v, lo, hi);
        push_str(&mut e, l.as_str());
        push_str(&mut e, "; labels must match .[A-Za-z_][A-Za-z0-9_]*");
        return Err(e);
    }
    Ok(())
}

fn label_decl_window(path: &str, v: &[char], lo: usize, hi: usize, n: usize) -> (r: Result<LabelDecl, String>)
    requires
        lo <= hi <= v@.len(),
    ensures
        match label_decl(path@, v@.subrange(lo as int, hi as int), n as nat) {
            Ok(l) => r matches Ok(d) && d@ == l,
            Err(e) => r matches Err(m) && m@ == e,
        },
{
    let standalone = match find_word(v, lo, hi) {
        Some((_a, b)) => find_word(v, b, hi).is_none(),
        None => false,
    };
    if !standalone {
        let mut e = line_prefix(path, n);
        push_str(&mut e, "labels must be standalone lines");
        return Err(e);
    }
    validate_label_window(path, v, lo, hi, n)?;
    Ok(LabelDecl { name: string_of(v, lo, hi), source_line: n })
}

fn symbolic_jump_window(path: &str, v: &[char], lo: usize, hi: usize, n: usize, kw: &str) -> (r: Result<Option<String>, String>)
    requires
        lo <= hi <= v@.len(),
    ensures
        match symbolic_jump(path@, v@.subrange(lo as int, hi as int), n as nat, kw@) {
            Ok(None) => r matches Ok(None),
            Ok(Some(t)) => r matches Ok(Some(s)) && s@ == t,
            Err(e) => r matches Err(m) && m@ == e,
        },
{
    let ghost line = v@.subrange(lo as int, hi as int);
    if !starts_with(v, lo, hi, kw) {
        return Ok(None);
    }
    let k = kw.unicode_len();
    proof { assert(line.skip(kw@.len() as int) =~= v@.subrange(lo + k, hi as int)); }
    let a = skip_ws(v, lo + k, hi);
    if a == hi || v[a] != '.' {
        return Ok(None);
    }
    let (ta, tb) = match find_word(v, a, hi) {
        None => { return Ok(None); },
        Some(w) => w,
    };
    match find_word(v, tb, hi) {
        Some((c, d)) => {
            let mut e = line_prefix(path, n);
            push_str(&mut e, "unexpected extra argument for ");
            push_str(&mut e, kw);
            push_str(&mut e, ": ");
            let x = string_of(v, c, d);
            push_str(&mut e, x.as_str());
            return Err(e);
        },
        None => {},
    }
    validate_label_window(path, v, ta, tb, n)?;
    Ok(Some(string_of(v, ta, tb)))
}

fn parse_line_window<P: Fn(String) -> Option<u32>>(path: &str, v: &[char], lo: usize, hi: usize, n: usize, decode: &P) -> (r: Result<Option<ParsedItem>, String>)
    requires
        lo <= hi <= v@.len(),
        decoder_is_function(*decode),
    ensures
        match parse_clean_line(path@, v@.subrange(lo as int, hi as int), n as nat, *decode) {
            Ok(None) => r matches Ok(None),
            Ok(Some(x)) => r matches Ok(Some(item)) && item@ == x,
            Err(e) => r matches Err(m) && m@ == e,
        },
{
    if lo == hi {
        return Ok(None);
    }
    if v[lo] == '.' {
        let l = label_decl_window(path, v, lo, hi, n)?;
        return Ok(Some(ParsedItem::Label(l)));
    }
    if let Some(t) = symbolic_jump_window(path, v, lo, hi, n, "JumpIfTrue")? {
        return Ok(Some(ParsedItem::Instruction(ParsedInstruction { kind: ParsedInstructionKind::JumpIfTrueLabel(t), source_line: n })));
    }
    if let Some(t) = symbolic_jump_window(path, v, lo, hi, n, "Jump")? {
        return Ok(Some(ParsedItem::Instruction(ParsedInstruction { kind: ParsedInstructionKind::JumpLabel(t), source_line: n })));
    }
    match parse_opcode_window(v, lo, hi, decode) {
        Err(e) => {
            let mut m = line_prefix(path, n);
            push_str(&mut m, e.as_str());
            Err(m)
        },
        Ok(op) => Ok(Some(ParsedItem::Instruction(ParsedInstruction { kind: ParsedInstructionKind::Concrete(op), source_line: n }))),
    }
}

/// The labels and instructions of `source`, or the error of its first wrong line;
/// `decode` reads float literals.
pub fn parse_source<P: Fn(String) -> Option<u32>>(path: &str, source: &str, decode: &P) -> (r: Result<ParsedProgram, String>)
    requires
        decoder_is_function(*decode),
    ensures
        match parse_source_spec(path@, source@, *decode) {
            Ok(items) => r matches Ok(p) && p@ == items,
            Err(e) => r matches Err(m) && m@ == e,
        },
{
    let v = chars_of(source);
    let bounds = line_bounds(v.as_slice());
    let ghost ls = lines(v@);
    let mut items: Vec<ParsedItem> = Vec::new();
    let mut k: usize = 0;
    proof { assert(ls.skip(0) =~= ls); }
    while k < bounds.len()
        invariant
            v@ == source@,
            ls == lines(v@),
            bounds@.len() == ls.len(),
            forall|j: int| #![trigger bounds@[j]] 0 <= j < bounds@.len() ==> {
                &&& bounds@[j].0 <= bounds@[j].1 && bounds@[j].1 <= v@.len()
                &&& ls[j] == v@.subrange(bounds@[j].0 as int, bounds@[j].1 as int)
            },
            k <= bounds@.len(),
            decoder_is_function(*decode),
            parse_lines(path@, ls, 1, *decode) == match parse_lines(path@, ls.skip(k as int), (k + 1) as nat, *decode) {
                Err(e) => Err(e),
                Ok(rest) => Ok(items@.map_values(|x: ParsedItem| x@) + rest),
            },
        decreases bounds@.len() - k,
    {
        let (lo, hi) = bounds[k];
        let c = comment_cut(v.as_slice(), lo, hi);
        let a = skip_ws(v.as_slice(), lo, c);
        let b = skip_ws_back(v.as_slice(), a, c);
        proof {
            assert(bounds@[k as int] == (lo, hi));
            assert(v@.subrange(a as int, b as int) == trim(strip_comment(ls[k as int])));
            assert(ls.skip(k as int)[0] == ls[k as int]);
            assert(ls.skip(k as int).drop_first() =~= ls.skip(k + 1));
        }
        let ghost before = items@.map_values(|x: ParsedItem| x@);
        match parse_line_window(path, v.as_slice(), a, b, k + 1, decode)? {
            Some(item) => {
                items.push(item);
                proof {
                    assert(items@.map_values(|x: ParsedItem| x@) =~= before.push(item@));
                    let r = parse_lines(path@, ls.skip(k + 1), (k + 2) as nat, *decode);
                    if let Ok(rest) = r {
                        assert(before + (seq![item@] + rest) =~= before.push(item@) + rest);
                    }
                }
            },
            None => {},
        }
        k += 1;
    }
    proof {
        assert(ls.skip(k as int) =~= Seq::<Seq<char>>::empty());
        assert(items@.map_values(|x: ParsedItem| x@) + Seq::<ItemSpec>::empty() =~= items@.map_values(|x: ParsedItem| x@));
    }
    Ok(ParsedProgram { items })
}

} // verus!
