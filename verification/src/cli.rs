//! The command line: the options of `run`, and the commands of the interactive debugger.
use vstd::prelude::*;
use std::collections::HashSet;
use crate::lex::{chars_of, skip_ws, skip_ws_back, string_of, trim, trim_start};
use crate::opcode::word_is;
use crate::syntax::{digit_value, is_digit};
use crate::text::{decimal, push_decimal, push_str};

verus! {

/// The usage line of `run`.
pub open spec fn run_usage() -> Seq<char> {
    "usage: dvm run [--perf] [--profiling <profile.json>] <program.dvm>"@
}

/// How a program is to be run.
pub struct RunOptions<'a> {
    /// Whether to print the timing and the count of each instruction.
    pub perf: bool,
    /// Where to write a profile, if one is to be written.
    pub profiling_path: Option<&'a str>,
}

/// The characters of an optional string.
pub open spec fn text_of(o: Option<&str>) -> Option<Seq<char>> {
    match o {
        Some(s) => Some(s@),
        None => None,
    }
}

/// Whether `a` starts with `--`.
pub open spec fn is_option(a: Seq<char>) -> bool {
    a.len() >= 2 && a[0] == '-' && a[1] == '-'
}

/// The options and program path of `run` from argument `i` on, given what came before:
/// `--perf`, `--profiling <file>` (at most once), and exactly one program path.
pub open spec fn run_args_from(args: Seq<Seq<char>>, i: nat, perf: bool, prof: Option<Seq<char>>, path: Option<Seq<char>>) -> Result<(bool, Option<Seq<char>>, Seq<char>), Seq<char>>
    decreases args.len() - i,
{
    if i >= args.len() {
        match path {
            None => Err(run_usage()),
            Some(p) => Ok((perf, prof, p)),
        }
    } else {
        let a = args[i as int];
        if a == "--perf"@ {
            run_args_from(args, i + 1, true, prof, path)
        } else if a == "--profiling"@ {
            if i + 1 >= args.len() {
                Err(run_usage())
            } else if prof is Some {
                Err("--profiling can only be provided once"@)
            } else {
                run_args_from(args, i + 2, perf, Some(args[i as int + 1]), path)
            }
        } else if is_option(a) {
            Err("unknown run option "@ + a + "\n\n"@ + run_usage())
        } else if path is Some {
            Err(run_usage())
        } else {
            run_args_from(args, i + 1, perf, prof, Some(a))
        }
    }
}

fn starts_with_dashes(a: &String) -> (b: bool)
    ensures
        b == is_option(a@),
{
    let c = chars_of(a.as_str());
    c.len() >= 2 && c[0] == '-' && c[1] == '-'
}

fn usage_text() -> (s: String)
    ensures
        s@ == run_usage(),
{
    let s = String::from_str("usage: dvm run [--perf] [--profiling <profile.json>] <program.dvm>");
    proof { reveal_strlit("usage: dvm run [--perf] [--profiling <profile.json>] <program.dvm>"); }
    s
}

/// The options and the program path of `dvm run`.
pub fn parse_run_args<'a>(args: &'a [String]) -> (r: Result<(RunOptions<'a>, &'a str), String>)
    ensures
        match run_args_from(args@.map_values(|s: String| s@), 0, false, None, None) {
            Ok((perf, prof, path)) => r matches Ok((o, p)) && o.perf == perf
                && text_of(o.profiling_path) == prof && p@ == path,
            Err(e) => r matches Err(m) && m@ == e,
        },
{
    let ghost all = args@.map_values(|s: String| s@);
    let mut perf = false;
    let mut profiling_path: Option<&'a str> = None;
    let mut program_path: Option<&'a str> = None;
    let mut index: usize = 0;
    while index < args.len()
        invariant
            all == args@.map_values(|s: String| s@),
            index <= args@.len(),
            run_args_from(all, 0, false, None, None) == run_args_from(
                all,
                index as nat,
                perf,
                text_of(profiling_path),
                text_of(program_path),
            ),
        decreases args@.len() - index,
    {
        let a = &args[index];
        proof { assert(all[index as int] == a@); }
        if word_is(a, "--perf") {
            perf = true;
            index += 1;
        } else if word_is(a, "--profiling") {
            if index + 1 >= args.len() {
                return Err(usage_text());
            }
            if profiling_path.is_some() {
                return Err(String::from_str("--profiling can only be provided once"));
            }
            proof { assert(all[index + 1] == args@[index + 1]@); }
            profiling_path = Some(args[index + 1].as_str());
            index += 2;
        } else if starts_with_dashes(a) {
            let mut m = String::from_str("unknown run option ");
            push_str(&mut m, a.as_str());
            push_str(&mut m, "\n\n");
            let u = usage_text();
            push_str(&mut m, u.as_str());
            return Err(m);
        } else {
            if program_path.is_some() {
                return Err(usage_text());
            }
            program_path = Some(a.as_str());
            index += 1;
        }
    }
    match program_path {
        None => Err(usage_text()),
        Some(p) => Ok((RunOptions { perf, profiling_path }, p)),
    }
}

/// A command of the interactive debugger.
pub enum Command<T> {
    /// Run the next instruction.
    Next,
    /// Print the instruction pointer.
    Ip,
    /// Print all instructions.
    Ops,
    /// Print the stack.
    Stack,
    /// Print the help.
    Help,
    /// Run until a breakpoint.
    Run,
    /// Leave the debugger.
    Quit,
    /// Run this instruction in place of the next one.
    Execute(T),
    /// Set or remove a breakpoint at this instruction pointer.
    Break(T),
    /// Something else.
    Unknown,
}

/// A debugger command as the debugger reads it.
pub type DebugCommand = Command<String>;

impl View for Command<String> {
    type V = Command<Seq<char>>;

    open spec fn view(&self) -> Command<Seq<char>> {
        match self {
            Command::Next => Command::Next,
            Command::Ip => Command::Ip,
            Command::Ops => Command::Ops,
            Command::Stack => Command::Stack,
            Command::Help => Command::Help,
            Command::Run => Command::Run,
            Command::Quit => Command::Quit,
            Command::Execute(t) => Command::Execute(t@),
            Command::Break(t) => Command::Break(t@),
            Command::Unknown => Command::Unknown,
        }
    }
}

/// The command a trimmed input line `c` gives: a word of its own, or `execute`/`e` followed by
/// an instruction, or `break`/`br` followed by an instruction pointer; the long form of a word
/// is tried before its short form.
pub open spec fn debug_command(c: Seq<char>) -> Command<Seq<char>> {
    if c == "n"@ || c == "next"@ {
        Command::Next
    } else if c == "ip"@ {
        Command::Ip
    } else if c == "ops"@ {
        Command::Ops
    } else if c == "s"@ || c == "stack"@ || c == "stac"@ {
        Command::Stack
    } else if c == "h"@ || c == "help"@ {
        Command::Help
    } else if c == "r"@ || c == "run"@ {
        Command::Run
    } else if c == "q"@ || c == "quit"@ {
        Command::Quit
    } else if starts_with_text(c, "execute"@) {
        Command::Execute(trim(c.skip(7)))
    } else if starts_with_text(c, "e"@) {
        Command::Execute(trim(c.skip(1)))
    } else if starts_with_text(c, "break"@) {
        Command::Break(trim(c.skip(5)))
    } else if starts_with_text(c, "br"@) {
        Command::Break(trim(c.skip(2)))
    } else {
        Command::Unknown
    }
}

/// Whether `c` starts with the characters of `p`.
pub open spec fn starts_with_text(c: Seq<char>, p: Seq<char>) -> bool {
    p.len() <= c.len() && c.take(p.len() as int) == p
}

/// Whether the characters of `v` start with those of `p`.
fn chars_start_with(v: &Vec<char>, p: &str) -> (b: bool)
    ensures
        b == starts_with_text(v@, p@),
{
    let w = chars_of(p);
    if w.len() > v.len() {
        return false;
    }
    let mut i: usize = 0;
    while i < w.len()
        invariant
            w@ == p@,
            w@.len() <= v@.len(),
            i <= w@.len(),
            forall|j: int| 0 <= j < i ==> v@[j] == w@[j],
        decreases w@.len() - i,
    {
        if v[i] != w[i] {
            proof { assert(v@.take(w@.len() as int)[i as int] != p@[i as int]); }
            return false;
        }
        i += 1;
    }
    proof { assert(v@.take(w@.len() as int) =~= p@); }
    true
}

/// The command that takes the rest of `v` after its first `k` characters, trimmed.
fn rest_after(v: &Vec<char>, k: usize) -> (r: String)
    requires
        k <= v@.len(),
    ensures
        r@ == trim(v@.skip(k as int)),
{
    let n = v.len();
    let a = skip_ws(v.as_slice(), k, n);
    let b = skip_ws_back(v.as_slice(), a, n);
    proof { assert(v@.subrange(k as int, n as int) =~= v@.skip(k as int)); }
    string_of(v.as_slice(), a, b)
}

/// Removing a leading space does not change what trimming gives.
proof fn lemma_trim_after_space(x: Seq<char>)
    ensures
        trim(seq![' '] + x) == trim(x),
{
    assert((seq![' '] + x).drop_first() =~= x);
    assert(trim_start(seq![' '] + x) == trim_start(x));
}

/// The debugger reads its commands as its help text lists them: `n`/`next`, `ip`, `ops`,
/// `s`/`stack` (and `stac`), `h`/`help`, `r`/`run` and `q`/`quit` on their own, and `execute`/`e`
/// and `break`/`br` followed by a space, which take the rest of the line (trimmed) as the
/// instruction to run or the instruction pointer to break at.
pub proof fn lemma_debug_words(x: Seq<char>)
    ensures
        debug_command("n"@) == Command::<Seq<char>>::Next,
        debug_command("next"@) == Command::<Seq<char>>::Next,
        debug_command("ip"@) == Command::<Seq<char>>::Ip,
        debug_command("ops"@) == Command::<Seq<char>>::Ops,
        debug_command("s"@) == Command::<Seq<char>>::Stack,
        debug_command("stack"@) == Command::<Seq<char>>::Stack,
        debug_command("stac"@) == Command::<Seq<char>>::Stack,
        debug_command("h"@) == Command::<Seq<char>>::Help,
        debug_command("help"@) == Command::<Seq<char>>::Help,
        debug_command("r"@) == Command::<Seq<char>>::Run,
        debug_command("run"@) == Command::<Seq<char>>::Run,
        debug_command("q"@) == Command::<Seq<char>>::Quit,
        debug_command("quit"@) == Command::<Seq<char>>::Quit,
        debug_command("execute "@ + x) == Command::Execute(trim(x)),
        debug_command("e "@ + x) == Command::Execute(trim(x)),
        debug_command("break "@ + x) == Command::Break(trim(x)),
        debug_command("br "@ + x) == Command::Break(trim(x)),
{
    reveal_strlit("n");
    reveal_strlit("next");
    reveal_strlit("ip");
    reveal_strlit("ops");
    reveal_strlit("s");
    reveal_strlit("stack");
    reveal_strlit("stac");
    reveal_strlit("h");
    reveal_strlit("help");
    reveal_strlit("r");
    reveal_strlit("run");
    reveal_strlit("q");
    reveal_strlit("quit");
    assert("n"@.len() == 1 && "n"@[0] == 'n');
    assert("next"@.len() == 4 && "next"@[0] == 'n');
    assert("ip"@.len() == 2 && "ip"@[0] == 'i');
    assert("ops"@.len() == 3 && "ops"@[0] == 'o');
    assert("s"@.len() == 1 && "s"@[0] == 's');
    assert("stack"@.len() == 5 && "stack"@[0] == 's');
    assert("stac"@.len() == 4 && "stac"@[0] == 's');
    assert("h"@.len() == 1 && "h"@[0] == 'h');
    assert("help"@.len() == 4 && "help"@[0] == 'h');
    assert("r"@.len() == 1 && "r"@[0] == 'r');
    assert("run"@.len() == 3 && "run"@[0] == 'r');
    assert("q"@.len() == 1 && "q"@[0] == 'q');
    assert("quit"@.len() == 4 && "quit"@[0] == 'q');
    reveal_strlit("execute");
    reveal_strlit("e");
    reveal_strlit("break");
    reveal_strlit("br");
    reveal_strlit("execute ");
    reveal_strlit("e ");
    reveal_strlit("break ");
    reveal_strlit("br ");
    lemma_trim_after_space(x);
    let c1 = "execute "@ + x;
    let c2 = "e "@ + x;
    let c3 = "break "@ + x;
    let c4 = "br "@ + x;
    assert(c1[0] == 'e' && c2[0] == 'e' && c3[0] == 'b' && c4[0] == 'b');
    assert(c1.take(7) =~= "execute"@);
    assert(c1.skip(7) =~= seq![' '] + x);
    assert(c2.take(1) =~= "e"@);
    assert(c2.skip(1) =~= seq![' '] + x);
    assert(c3.take(5) =~= "break"@);
    assert(c3.skip(5) =~= seq![' '] + x);
    assert(c4.take(2) =~= "br"@);
    assert(c4.skip(2) =~= seq![' '] + x);
    assert(c2.take(7) != "execute"@ || c2.len() < 7) by {
        if c2.len() >= 7 {
            assert(c2.take(7)[1] != "execute"@[1]);
        }
    }
    assert(c4.take(5) != "break"@ || c4.len() < 5) by {
        if c4.len() >= 5 {
            assert(c4.take(5)[2] != "break"@[2]);
        }
    }
    assert(c3.take(1) != "e"@) by {
        assert(c3.take(1)[0] != "e"@[0]);
    }
    assert(c4.take(1) != "e"@) by {
        assert(c4.take(1)[0] != "e"@[0]);
    }
    assert(c3.take(7) != "execute"@ || c3.len() < 7) by {
        if c3.len() >= 7 {
            assert(c3.take(7)[0] != "execute"@[0]);
        }
    }
    assert(c4.take(7) != "execute"@ || c4.len() < 7) by {
        if c4.len() >= 7 {
            assert(c4.take(7)[0] != "execute"@[0]);
        }
    }
}

/// `s` without leading and trailing white space.
pub fn trimmed(s: &str) -> (r: String)
    ensures
        r@ == trim(s@),
{
    let v = chars_of(s);
    let a = skip_ws(v.as_slice(), 0, v.len());
    let b = skip_ws_back(v.as_slice(), a, v.len());
    proof { assert(v@.subrange(0, v@.len() as int) =~= v@); }
    string_of(v.as_slice(), a, b)
}

/// The debugger command of an input line, which is trimmed first.
pub fn parse_debug_command(line: &str) -> (c: DebugCommand)
    ensures
        c@ == debug_command(trim(line@)),
{
    let t = trimmed(line);
    if word_is(&t, "n") || word_is(&t, "next") {
        Command::Next
    } else if word_is(&t, "ip") {
        Command::Ip
    } else if word_is(&t, "ops") {
        Command::Ops
    } else if word_is(&t, "s") || word_is(&t, "stack") || word_is(&t, "stac") {
        Command::Stack
    } else if word_is(&t, "h") || word_is(&t, "help") {
        Command::Help
    } else if word_is(&t, "r") || word_is(&t, "run") {
        Command::Run
    } else if word_is(&t, "q") || word_is(&t, "quit") {
        Command::Quit
    } else {
        let v = chars_of(t.as_str());
        proof {
            reveal_strlit("execute");
            reveal_strlit("e");
            reveal_strlit("break");
            reveal_strlit("br");
        }
        if chars_start_with(&v, "execute") {
            Command::Execute(rest_after(&v, 7))
        } else if chars_start_with(&v, "e") {
            Command::Execute(rest_after(&v, 1))
        } else if chars_start_with(&v, "break") {
            Command::Break(rest_after(&v, 5))
        } else if chars_start_with(&v, "br") {
            Command::Break(rest_after(&v, 2))
        } else {
            Command::Unknown
        }
    }
}

/// `s` with `ip` removed if it holds it, and added otherwise.
pub open spec fn toggled(s: Set<usize>, ip: usize) -> Set<usize> {
    if s.contains(ip) { s.remove(ip) } else { s.insert(ip) }
}

/// Toggling a breakpoint twice leaves the breakpoints as they were.
pub proof fn lemma_toggle_twice(s: Set<usize>, ip: usize)
    ensures
        toggled(toggled(s, ip), ip) == s,
{
    assert(toggled(toggled(s, ip), ip) =~= s);
}

/// The instruction pointers the debugger stops at.
pub struct Breakpoints {
    points: HashSet<usize>,
}

impl View for Breakpoints {
    type V = Set<usize>;

    closed spec fn view(&self) -> Set<usize> {
        self.points@
    }
}

impl Breakpoints {
    /// No breakpoints.
    pub fn new() -> (b: Breakpoints)
        ensures
            b@ == Set::<usize>::empty(),
    {
        Breakpoints { points: HashSet::new() }
    }

    /// Whether the debugger stops at `ip`.
    pub fn contains(&self, ip: usize) -> (r: bool)
        ensures
            r == self@.contains(ip),
    {
        broadcast use vstd::std_specs::hash::group_hash_axioms;
        self.points.contains(&ip)
    }

    /// Removes the breakpoint at `ip` if there is one, and sets it otherwise; answers whether it is now set.
    pub fn toggle(&mut self, ip: usize) -> (set: bool)
        ensures
            set == !old(self)@.contains(ip),
            final(self)@ == toggled(old(self)@, ip),
    {
        broadcast use vstd::std_specs::hash::group_hash_axioms;
        if self.points.contains(&ip) {
            self.points.remove(&ip);
            false
        } else {
            self.points.insert(ip);
            true
        }
    }
}

/// What the debugger does at an instruction.
#[derive(Debug, PartialEq, Eq, Structural, Clone, Copy)]
pub enum DebugAction {
    /// Stop running: a breakpoint is reached.
    Pause,
    /// Run the instruction without asking.
    Step,
    /// Ask for a command.
    Prompt,
}

/// What the debugger does at `ip`: while running it stops at a breakpoint and steps otherwise;
/// when not running it asks for a command.
pub fn debug_action(running: bool, points: &Breakpoints, ip: usize) -> (a: DebugAction)
    ensures
        a == (if running && points@.contains(ip) {
            DebugAction::Pause
        } else if running {
            DebugAction::Step
        } else {
            DebugAction::Prompt
        }),
{
    if points.contains(ip) && running {
        DebugAction::Pause
    } else if running {
        DebugAction::Step
    } else {
        DebugAction::Prompt
    }
}

/// The value of a run of decimal digits.
pub open spec fn digits_value(ds: Seq<char>) -> int
    decreases ds.len(),
{
    if ds.len() == 0 { 0 } else { digits_value(ds.drop_last()) * 10 + digit_value(ds.last()) }
}

/// The value `u64::from_str` reads from `t`: an optional `+`, then one or more decimal digits
/// whose value fits in `u64`; none for any other text.
pub open spec fn u64_text(t: Seq<char>) -> Option<int> {
    let ds = if t.len() > 0 && t[0] == '+' { t.drop_first() } else { t };
    if ds.len() > 0 && (forall|i: int| 0 <= i < ds.len() ==> is_digit(#[trigger] ds[i])) && digits_value(ds) <= u64::MAX {
        Some(digits_value(ds))
    } else {
        None
    }
}

/// The start of serde_plain's message for text that `u64::from_str` does not read.
pub open spec fn u64_parse_error_prefix() -> Seq<char> {
    "cannot parse u64: "@
}

/// Calls `serde_plain::from_str::<usize>`, which reads `s` with `u64::from_str` and then converts
/// the value to `usize`. This contract trusts it to give that value where `s` has one that fits;
/// where `s` has none, an error whose text starts with `cannot parse u64: ` (what follows is the
/// message of std's `ParseIntError`, left unsaid); and an error where the value does not fit.
#[verifier::external_body]
fn plain_usize(s: &str) -> (r: Result<usize, String>)
    ensures
        match u64_text(s@) {
            Some(v) => if v <= usize::MAX { r == Ok::<usize, String>(v as usize) } else { r is Err },
            None => r matches Err(m) && starts_with_text(m@, u64_parse_error_prefix()),
        },
{
    serde_plain::from_str::<usize>(s).map_err(|e| e.to_string())
}

/// The prefix of the debugger's answer to a breakpoint it cannot read.
pub open spec fn invalid_breakpoint_prefix() -> Seq<char> {
    "Invalid ip for breakpoint: "@
}

/// The debugger's answer to `br`/`break` followed by `rest`: it toggles the breakpoint at the
/// instruction pointer `rest` names and says which way, or says that `rest` names none.
pub fn break_command(points: &mut Breakpoints, rest: &str) -> (msg: String)
    ensures
        ({
            let v = u64_text(rest@);
            if v is Some && v->0 <= usize::MAX {
                let ip = v->0 as usize;
                &&& final(points)@ == toggled(old(points)@, ip)
                &&& msg@ == (if old(points)@.contains(ip) { "Removed breakpoint at ip="@ } else { "Set breakpoint at ip="@ })
                    + decimal(ip as nat)
            } else {
                &&& final(points)@ == old(points)@
                &&& starts_with_text(msg@, invalid_breakpoint_prefix())
                &&& v is None ==> starts_with_text(msg@, invalid_breakpoint_prefix() + u64_parse_error_prefix())
            }
        }),
{
    match plain_usize(rest) {
        Ok(ip) => {
            let set = points.toggle(ip);
            let mut msg = if set {
                String::from_str("Set breakpoint at ip=")
            } else {
                String::from_str("Removed breakpoint at ip=")
            };
            push_decimal(&mut msg, ip);
            msg
        },
        Err(e) => {
            let mut msg = String::from_str("Invalid ip for breakpoint: ");
            let ghost start = msg@;
            push_str(&mut msg, e.as_str());
            proof {
                assert(msg@.take(invalid_breakpoint_prefix().len() as int) =~= start);
                if u64_text(rest@) is None {
                    let p = invalid_breakpoint_prefix() + u64_parse_error_prefix();
                    assert(msg@.take(p.len() as int) =~= start + e@.take(u64_parse_error_prefix().len() as int));
                }
            }
            msg
        },
    }
}

} // verus!
