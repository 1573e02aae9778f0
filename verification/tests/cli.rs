use dvm::cli::{break_command, debug_action, parse_debug_command, parse_run_args, Breakpoints, Command, DebugAction};

fn args(items: &[&str]) -> Vec<String> {
    items.iter().map(|item| item.to_string()).collect()
}

#[test]
fn parses_plain_run_args() {
    let args = args(&["program.dvm"]);
    let (options, path) = parse_run_args(&args).unwrap();

    assert_eq!(path, "program.dvm");
    assert!(!options.perf);
    assert_eq!(options.profiling_path, None);
}

#[test]
fn parses_perf_without_enabling_profiling() {
    let args = args(&["--perf", "program.dvm"]);
    let (options, path) = parse_run_args(&args).unwrap();

    assert_eq!(path, "program.dvm");
    assert!(options.perf);
    assert_eq!(options.profiling_path, None);
}

#[test]
fn parses_profiling_output_path() {
    let args = args(&["--profiling", "profile.json", "program.dvm"]);
    let (options, path) = parse_run_args(&args).unwrap();

    assert_eq!(path, "program.dvm");
    assert!(!options.perf);
    assert_eq!(options.profiling_path, Some("profile.json"));
}

#[test]
fn parses_perf_with_profiling_output_path() {
    let args = args(&["--perf", "--profiling", "profile.json", "program.dvm"]);
    let (options, path) = parse_run_args(&args).unwrap();

    assert_eq!(path, "program.dvm");
    assert!(options.perf);
    assert_eq!(options.profiling_path, Some("profile.json"));
}

#[test]
fn run_args_errors() {
    let usage = "usage: dvm run [--perf] [--profiling <profile.json>] <program.dvm>";
    let a = args(&[]);
    assert_eq!(parse_run_args(&a).err().unwrap(), usage);
    let a = args(&["--profiling"]);
    assert_eq!(parse_run_args(&a).err().unwrap(), usage);
    let a = args(&["--profiling", "a.json", "--profiling", "b.json", "p.dvm"]);
    assert_eq!(parse_run_args(&a).err().unwrap(), "--profiling can only be provided once");
    let a = args(&["--fast", "p.dvm"]);
    assert_eq!(parse_run_args(&a).err().unwrap(), format!("unknown run option --fast\n\n{usage}"));
    let a = args(&["p.dvm", "q.dvm"]);
    assert_eq!(parse_run_args(&a).err().unwrap(), usage);
}

#[test]
fn debug_commands_are_read_after_trimming() {
    assert!(matches!(parse_debug_command("  n \n"), Command::Next));
    assert!(matches!(parse_debug_command("next"), Command::Next));
    assert!(matches!(parse_debug_command("ip"), Command::Ip));
    assert!(matches!(parse_debug_command("ops"), Command::Ops));
    assert!(matches!(parse_debug_command("stac"), Command::Stack));
    assert!(matches!(parse_debug_command("help"), Command::Help));
    assert!(matches!(parse_debug_command("r"), Command::Run));
    assert!(matches!(parse_debug_command("quit"), Command::Quit));
    assert!(matches!(parse_debug_command("e  i32.PUSH 3 "), Command::Execute(ref t) if t == "i32.PUSH 3"));
    assert!(matches!(parse_debug_command("br 12"), Command::Break(ref t) if t == "12"));
    assert!(matches!(parse_debug_command("break 12"), Command::Break(ref t) if t == "12"));
    assert!(matches!(parse_debug_command("execute Noop"), Command::Execute(ref t) if t == "Noop"));
    assert!(matches!(parse_debug_command("e Noop"), Command::Execute(ref t) if t == "Noop"));
    assert!(matches!(parse_debug_command("xyz"), Command::Unknown));
}

#[test]
fn toggling_a_breakpoint_twice_removes_it() {
    let mut points = Breakpoints::new();
    assert!(!points.contains(4));
    assert!(points.toggle(4));
    assert!(points.contains(4));
    assert!(points.toggle(9));
    assert!(!points.toggle(4));
    assert!(!points.contains(4));
    assert!(points.contains(9));
}

#[test]
fn debugger_pauses_at_breakpoints_only_while_running() {
    let mut points = Breakpoints::new();
    points.toggle(3);
    assert_eq!(debug_action(true, &points, 3), DebugAction::Pause);
    assert_eq!(debug_action(true, &points, 2), DebugAction::Step);
    assert_eq!(debug_action(false, &points, 3), DebugAction::Prompt);
}

#[test]
fn break_command_toggles_and_reports() {
    let mut points = Breakpoints::new();
    assert_eq!(break_command(&mut points, "12"), "Set breakpoint at ip=12");
    assert!(points.contains(12));
    assert_eq!(break_command(&mut points, "+12"), "Removed breakpoint at ip=12");
    assert!(!points.contains(12));
    let answer = break_command(&mut points, "twelve");
    assert!(answer.starts_with("Invalid ip for breakpoint: cannot parse u64: "));
    assert!(break_command(&mut points, "-1").starts_with("Invalid ip for breakpoint: "));
    assert!(!points.contains(12));
}
