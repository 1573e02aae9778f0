use dvm::opcode::Opcode;
use dvm::syntax::parse_opcode;

fn decode(text: String) -> Option<u32> {
    text.parse::<f32>().ok().map(|f| f.to_bits())
}

fn render(bits: u32) -> String {
    f32::from_bits(bits).to_string()
}

fn parse(text: &str) -> Result<Opcode, String> {
    parse_opcode(text, &decode)
}

#[test]
fn parses_typed_i32_opcodes() {
    assert_eq!(parse("i32.ZERO").unwrap(), Opcode::I32Zero);
    assert_eq!(parse("i32.ADD").unwrap(), Opcode::I32Add);
    assert_eq!(parse("i32.PUSH -12").unwrap(), Opcode::I32Push(-12));
}

#[test]
fn rejects_legacy_i32_opcode_spellings() {
    assert!(parse("Zero").is_err());
    assert!(parse("Add").is_err());
    assert!(parse("PushIntermediate 3").is_err());
}

#[test]
fn opcode_parse_errors() {
    assert_eq!(parse("").unwrap_err(), "empty opcode");
    assert_eq!(parse("i32.PUSH").unwrap_err(), "missing argument for i32.PUSH");
    assert_eq!(parse("i32.PUSH x").unwrap_err(), "invalid argument for i32.PUSH: invalid digit found in string");
    assert_eq!(parse("i32.PUSH 3000000000").unwrap_err(), "argument for i32.PUSH is out of i32 range: 3000000000");
    assert_eq!(parse("i32.ADD 1").unwrap_err(), "unexpected extra argument for i32.ADD: 1");
    assert_eq!(parse("f32.PUSH abc").unwrap_err(), "invalid argument for f32.PUSH: invalid float literal");
    assert_eq!(parse("CallExternal").unwrap_err(), "missing argument for CallExternal");
    assert_eq!(parse("Fly").unwrap_err(), "unknown opcode: Fly");
}

#[test]
fn opcode_text_reads_back() {
    let ops = vec![
        Opcode::I32Push(-17),
        Opcode::F32Push(2.5f32.to_bits()),
        Opcode::CallExternal("print".to_string()),
        Opcode::I32PickN,
        Opcode::F32ToI32,
        Opcode::Halt,
    ];
    for op in ops {
        let text = op.to_text(&render);
        assert_eq!(parse(&text).unwrap(), op);
    }
    assert_eq!(Opcode::I32Push(-17).to_text(&render), "i32.PUSH -17");
    assert_eq!(Opcode::I32Add.to_text(&render), "i32.ADD");
}
