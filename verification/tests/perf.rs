use dvm::frontend::ProgramMetadata;
use dvm::opcode::Opcode;
use dvm::perf_profile::{
    frame_names, opcode_frame_name, plan_samples, profile_weight_divisor, scaled_weight, source_line_frame_name,
    MAX_PROFILE_WEIGHT,
};

fn render(bits: u32) -> String {
    f32::from_bits(bits).to_string()
}

fn metadata(lines: Vec<usize>) -> ProgramMetadata {
    ProgramMetadata { labels_by_ip: vec![Vec::new(); lines.len()], source_lines_by_ip: lines }
}

#[test]
fn opcode_frames_carry_ip_text_and_line() {
    let m = metadata(vec![12, 0]);
    assert_eq!(opcode_frame_name(&m, 0, &Opcode::I32Add, &render), "ip 0000: i32.ADD (line 12)");
    assert_eq!(opcode_frame_name(&m, 1, &Opcode::I32Push(-3), &render), "ip 0001: i32.PUSH -3");
    assert_eq!(opcode_frame_name(&m, 12345, &Opcode::Halt, &render), "ip 12345: Halt");
    assert_eq!(source_line_frame_name(&m, 0), "line 12");
    assert_eq!(source_line_frame_name(&m, 1), "line unknown");
    assert_eq!(source_line_frame_name(&m, 7), "line unknown");
}

#[test]
fn large_counts_get_a_divisor_that_bounds_the_weight() {
    assert_eq!(MAX_PROFILE_WEIGHT, 100_000);
    assert_eq!(profile_weight_divisor(&[10_000_000]), 100);
    assert_eq!(scaled_weight(10_000_000, 100), Some(100_000));
    assert_eq!(profile_weight_divisor(&[]), 1);
    assert_eq!(profile_weight_divisor(&[100_001]), 2);
}

#[test]
fn quarter_weight_entries_are_dropped() {
    assert_eq!(profile_weight_divisor(&[9_999_949, 25, 26]), 100);
    assert_eq!(scaled_weight(25, 100), None);
    assert_eq!(scaled_weight(26, 100), Some(1));
    assert_eq!(scaled_weight(u64::MAX, 1), Some(i32::MAX));
}

#[test]
fn samples_follow_the_counts() {
    let m = metadata(vec![1, 2, 3]);
    let opcodes = vec![Opcode::Noop, Opcode::Dup, Opcode::Halt];
    let (opcode_frames, line_frames) = frame_names(&m, &opcodes, &render);
    let (divisor, samples) = plan_samples(&[9_999_949, 25, 26], &opcode_frames, &line_frames);
    assert_eq!(divisor, 100);
    let names: Vec<(String, String, i32)> =
        samples.into_iter().map(|s| (s.line_frame, s.opcode_frame, s.weight)).collect();
    assert_eq!(
        names,
        vec![
            ("line 1".to_string(), "ip 0000: Noop (line 1)".to_string(), 100_000),
            ("line 3".to_string(), "ip 0002: Halt (line 3)".to_string(), 1),
        ]
    );
    let (_, samples) = plan_samples(&[0, 0, 1], &opcode_frames, &line_frames);
    assert_eq!(samples.len(), 1);
    assert_eq!(samples[0].opcode_frame, "ip 0002: Halt (line 3)");
}
