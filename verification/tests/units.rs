use batpu2::assembly::assembler::{
    define_symbols, emit_line, parse_char_literal, resolve_mnemonic, resolve_token,
};
use batpu2::assembly::number::parse_int;
use batpu2::assembly::report::{gather, report_style, skipped, Report};
use batpu2::assembly::symbols::{default_symbols, Symbols};
use batpu2::assembly::{parse_line, AsmError, IntErrorKind, Token};
use batpu2::isa::instruction::{read_field, write_field};
use batpu2::isa::{
    check_range, read_masked, write_masked, Field, Instruction, InstructionError, Mnemonic,
    OperandKind,
};
use batpu2::text::{after_first, bytes_eq, find_line_end, slice, str_eq};
use batpu2::utils::machine_code::parse_word;
use batpu2::utils::{collect, push_decimal, reversed, Char};

#[test]
fn ranges_of_the_three_kinds() {
    assert!(check_range(0, 0x0F00, OperandKind::Unsigned, 0, "a").is_ok());
    assert!(check_range(15, 0x0F00, OperandKind::Unsigned, 0, "a").is_ok());
    assert!(check_range(-1, 0x0F00, OperandKind::Unsigned, 0, "a").is_err());
    assert!(check_range(-8, 0x000F, OperandKind::Signed, 2, "offset").is_ok());
    assert!(check_range(7, 0x000F, OperandKind::Signed, 2, "offset").is_ok());
    assert!(check_range(-128, 0x00FF, OperandKind::Any, 1, "imm").is_ok());
    assert!(check_range(255, 0x00FF, OperandKind::Any, 1, "imm").is_ok());
    match check_range(-9, 0x000F, OperandKind::Signed, 2, "offset") {
        Err(InstructionError::OperandOutOfRange { operand, name, min, max, got }) => {
            assert_eq!((operand, name, min, max, got), (2, "offset", -8, 8, -9));
        }
        _ => panic!("expected OperandOutOfRange"),
    }
    match check_range(256, 0x00FF, OperandKind::Any, 1, "imm") {
        Err(InstructionError::OperandOutOfRange { min, max, .. }) => {
            assert_eq!((min, max), (-128, 256));
        }
        _ => panic!("expected OperandOutOfRange"),
    }
    // a mask of three bits that do not lie side by side
    match check_range(8, 0x0101 | 0x4000, OperandKind::Unsigned, 0, "x") {
        Err(InstructionError::OperandOutOfRange { min, max, .. }) => assert_eq!((min, max), (0, 8)),
        _ => panic!("expected OperandOutOfRange"),
    }
}

#[test]
fn fields_are_written_and_read() {
    assert_eq!(write_masked(0xB, 0xF000), 0xB000);
    assert_eq!(write_masked(5, 0x0F00), 0x0500);
    assert_eq!(write_masked(-1, 0x000F), 0x000F);
    assert_eq!(write_masked(-8, 0x000F), 0x0008);
    assert_eq!(write_masked(-1, 0x00FF), 0x00FF);
    assert_eq!(write_masked(3, 0x0C00), 0x0C00);
    assert_eq!(write_masked(0x3FF, 0x03FF), 0x03FF);
    assert_eq!(write_masked(0x17, 0x00F0), 0x0070);
    assert_eq!(read_masked(0xABCD, 0xF000, OperandKind::Unsigned), 0xA);
    assert_eq!(read_masked(0xABCD, 0x0F00, OperandKind::Unsigned), 0xB);
    assert_eq!(read_masked(0xABCD, 0x00F0, OperandKind::Unsigned), 0xC);
    assert_eq!(read_masked(0xABCD, 0x000F, OperandKind::Signed), -3);
    assert_eq!(read_masked(0xABC7, 0x000F, OperandKind::Signed), 7);
    assert_eq!(read_masked(0xABCD, 0x00FF, OperandKind::Any), 0xCD);
    assert_eq!(read_masked(0xABCD, 0x03FF, OperandKind::Unsigned), 0x3CD);
    assert_eq!(read_masked(0xABCD, 0x0C00, OperandKind::Unsigned), 2);
    for field in [
        Field::Opcode,
        Field::A,
        Field::B,
        Field::C,
        Field::Imm,
        Field::Addr,
        Field::Cond,
        Field::Offset,
    ] {
        for word in [0x0000u16, 0xFFFF, 0xA5C3, 0x1234, 0x8001] {
            let value = read_field(word, field);
            assert_eq!(value, read_masked(word, field.get_mask(), field.get_kind()));
            assert_eq!(write_field(value, field), word & field.get_mask());
        }
    }
    assert_eq!(Field::Imm.get_name(), "imm");
    assert_eq!(Field::Offset.get_kind(), OperandKind::Signed);
    assert_eq!(Field::Cond.get_mask(), 0x0C00);
    assert_eq!(Mnemonic::BRH.operand_field(0), Field::Cond);
    assert_eq!(Mnemonic::BRH.operand_field(1), Field::Addr);
    assert_eq!(Mnemonic::NEG.operand_field(1), Field::C);
}

#[test]
fn texts_are_compared_and_cut() {
    assert!(bytes_eq(b"abc", b"abc"));
    assert!(!bytes_eq(b"abc", b"abd"));
    assert!(!bytes_eq(b"abc", b"ab"));
    assert!(str_eq("", ""));
    assert!(str_eq("héllo", "héllo"));
    assert!(!str_eq("héllo", "hello"));
    assert_eq!(slice("a héllo b", 2, 8), "héllo");
    assert_eq!(slice("abc", 3, 3), "");
    assert_eq!(after_first(".label"), "label");
    assert_eq!(after_first("."), "");
    assert_eq!(find_line_end(b"ab\ncd", 0), 2);
    assert_eq!(find_line_end(b"ab\ncd", 2), 2);
    assert_eq!(find_line_end(b"ab\ncd", 3), 5);
}

#[test]
fn integer_literals() {
    assert_eq!(parse_int(b"0"), Ok(0));
    assert_eq!(parse_int(b"-0"), Ok(0));
    assert_eq!(parse_int(b"007"), Ok(7));
    assert_eq!(parse_int(b"32767"), Ok(32767));
    assert_eq!(parse_int(b"-32768"), Ok(-32768));
    assert_eq!(parse_int(b"0x7fff"), Ok(32767));
    assert_eq!(parse_int(b"0x7FFF"), Ok(32767));
    assert_eq!(parse_int(b"-0x8000"), Ok(-32768));
    assert_eq!(parse_int(b"0b1111"), Ok(15));
    assert_eq!(parse_int(b"0o777"), Ok(511));
    assert_eq!(parse_int(b""), Err(IntErrorKind::Empty));
    assert_eq!(parse_int(b"-"), Err(IntErrorKind::Empty));
    assert_eq!(parse_int(b"0b"), Err(IntErrorKind::Empty));
    assert_eq!(parse_int(b"+5"), Err(IntErrorKind::InvalidDigit));
    assert_eq!(parse_int(b"0b2"), Err(IntErrorKind::InvalidDigit));
    assert_eq!(parse_int(b"0o8"), Err(IntErrorKind::InvalidDigit));
    assert_eq!(parse_int(b"0xg"), Err(IntErrorKind::InvalidDigit));
    assert_eq!(parse_int(b"0X10"), Err(IntErrorKind::InvalidDigit));
    assert_eq!(parse_int(b"1_000"), Err(IntErrorKind::InvalidDigit));
    assert_eq!(parse_int(b"99999999999999999999x"), Err(IntErrorKind::InvalidDigit));
    assert_eq!(parse_int(b"99999999999999999999"), Err(IntErrorKind::PosOverflow));
    assert_eq!(parse_int(b"0x8000"), Err(IntErrorKind::PosOverflow));
    assert_eq!(parse_int(b"-0x8001"), Err(IntErrorKind::NegOverflow));
}

#[test]
fn character_literals() {
    assert_eq!(parse_char_literal(b"'A'"), Some(1));
    assert_eq!(parse_char_literal(b"\"Z\""), Some(26));
    assert_eq!(parse_char_literal(b"' '"), Some(0));
    assert_eq!(parse_char_literal(b"' \t '"), Some(0));
    assert_eq!(parse_char_literal(b"'?'"), Some(29));
    assert_eq!(parse_char_literal(b"'a'"), None);
    assert_eq!(parse_char_literal(b"'A\""), None);
    assert_eq!(parse_char_literal(b"'AB'"), None);
    assert_eq!(parse_char_literal(b"''"), None);
    assert_eq!(parse_char_literal(b"A"), None);
}

#[test]
fn names_that_every_program_knows() {
    let ports = [
        "pixel_x",
        "pixel_y",
        "draw_pixel",
        "clear_pixel",
        "load_pixel",
        "buffer_screen",
        "clear_screen_buffer",
        "write_char",
        "buffer_chars",
        "clear_chars_buffer",
        "show_number",
        "clear_number",
        "signed_mode",
        "unsigned_mode",
        "rng",
        "controller_input",
    ];
    for (index, name) in ports.iter().enumerate() {
        assert_eq!(default_symbols(name), Some(240 + index as i16));
    }
    for register in 0..16 {
        assert_eq!(default_symbols(&format!("r{register}")), Some(register));
    }
    let instructions = [
        "NOP", "HLT", "ADD", "SUB", "NOR", "AND", "XOR", "RSH", "LDI", "ADI", "JMP", "BRH", "CAL",
        "RET", "LOD", "STR",
    ];
    for (opcode, name) in instructions.iter().enumerate() {
        assert_eq!(default_symbols(name), Some(opcode as i16));
    }
    let conditions = [
        ["eq", "=", "z", "zero"],
        ["ne", "!=", "nz", "notzero"],
        ["ge", ">=", "c", "carry"],
        ["lt", "<", "nc", "notcarry"],
    ];
    for (code, names) in conditions.iter().enumerate() {
        for name in names {
            assert_eq!(default_symbols(name), Some(code as i16));
        }
    }
    assert_eq!(default_symbols("r16"), None);
    assert_eq!(default_symbols("R1"), None);
    assert_eq!(default_symbols("MOV"), None);
    assert_eq!(default_symbols(""), None);
}

#[test]
fn names_that_the_program_defines() {
    let mut symbols = Symbols::new();
    assert_eq!(symbols.get("x"), None);
    symbols.insert("x", 1);
    symbols.insert("y", 2);
    symbols.insert("x", 3);
    symbols.insert("r1", 9);
    assert_eq!(symbols.get("x"), Some(3));
    assert_eq!(symbols.get("y"), Some(2));
    assert_eq!(symbols.get("z"), None);
    let token = |text| Token::new(1, text);
    assert_eq!(resolve_token(&symbols, token("x"), true), Some(3));
    assert_eq!(resolve_token(&symbols, token("r1"), true), Some(9));
    assert_eq!(resolve_token(&symbols, token("r2"), false), Some(2));
    assert_eq!(resolve_token(&symbols, token("17"), true), Some(17));
    assert_eq!(resolve_token(&symbols, token("17"), false), None);
    assert_eq!(resolve_token(&symbols, token("'C'"), true), Some(3));
    assert_eq!(resolve_token(&symbols, token("'C'"), false), None);
    assert_eq!(resolve_token(&symbols, token("w"), true), None);
    assert_eq!(resolve_mnemonic(&symbols, token("x")), Some(Mnemonic::SUB));
    assert_eq!(resolve_mnemonic(&symbols, token("ADD")), Some(Mnemonic::ADD));
    assert_eq!(resolve_mnemonic(&symbols, token("INC")), Some(Mnemonic::INC));
    assert_eq!(resolve_mnemonic(&symbols, token("pixel_x")), None);
    assert_eq!(resolve_mnemonic(&symbols, token("define")), None);
    symbols.insert("INC", 200);
    assert_eq!(resolve_mnemonic(&symbols, token("INC")), Some(Mnemonic::INC));
    symbols.insert("ADD", 1);
    assert_eq!(resolve_mnemonic(&symbols, token("ADD")), Some(Mnemonic::HLT));
}

#[test]
fn the_first_pass_over_one_line() {
    let mut symbols = Symbols::new();
    let mut pc = 7;
    let line = parse_line(1, ".here ADD r1 r2 r3").unwrap();
    assert!(define_symbols(&mut symbols, &mut pc, &line).is_ok());
    assert_eq!(pc, 8);
    assert_eq!(symbols.get("here"), Some(7));
    assert_eq!(symbols.get(".here"), None);
    let line = parse_line(2, ".there define here -4").unwrap();
    assert!(define_symbols(&mut symbols, &mut pc, &line).is_ok());
    assert_eq!(pc, 8);
    assert_eq!(symbols.get("there"), Some(8));
    assert_eq!(symbols.get("here"), Some(-4));
    let line = parse_line(3, ".kept define x").unwrap();
    assert!(matches!(
        define_symbols(&mut symbols, &mut pc, &line),
        Err(AsmError::WrongOperandCount { line_number: 3, .. })
    ));
    assert_eq!(symbols.get("kept"), Some(8));
    pc = 1024;
    let line = parse_line(4, "define full 1").unwrap();
    assert!(define_symbols(&mut symbols, &mut pc, &line).is_ok());
    let line = parse_line(5, "NOP").unwrap();
    assert!(matches!(
        define_symbols(&mut symbols, &mut pc, &line),
        Err(AsmError::TooManyInstructions { line_number: 5, .. })
    ));
    assert_eq!(pc, 1024);
}

#[test]
fn the_second_pass_over_one_line() {
    let mut symbols = Symbols::new();
    symbols.insert("target", 700);
    let line = parse_line(9, "BRH carry target").unwrap();
    let instruction = emit_line(&symbols, &line, line.mnemonic.unwrap()).unwrap();
    assert_eq!(instruction.as_word(), 0xB800 | 700);
    let line = parse_line(9, "BRH what target").unwrap();
    assert!(matches!(
        emit_line(&symbols, &line, line.mnemonic.unwrap()),
        Err(AsmError::UnknownSymbol { line_number: 9, literal: true, .. })
    ));
    // the operands are looked up before they are counted
    let line = parse_line(9, "RET what").unwrap();
    assert!(matches!(
        emit_line(&symbols, &line, line.mnemonic.unwrap()),
        Err(AsmError::UnknownSymbol { .. })
    ));
    let line = parse_line(9, "RET 1").unwrap();
    assert!(matches!(
        emit_line(&symbols, &line, line.mnemonic.unwrap()),
        Err(AsmError::WrongOperandCount { .. })
    ));
}

#[test]
fn results_are_collected_and_parted() {
    assert_eq!(reversed(vec![1, 2, 3]), vec![3, 2, 1]);
    assert_eq!(reversed(Vec::<u8>::new()), vec![]);
    let good: Vec<Result<u8, char>> = vec![Ok(1), Ok(2), Ok(3)];
    assert_eq!(collect(good), Ok(vec![1, 2, 3]));
    let bad: Vec<Result<u8, char>> = vec![Ok(1), Err('a'), Ok(3), Err('b')];
    assert_eq!(collect(bad), Err('a'));
    assert_eq!(collect(Vec::<Result<u8, char>>::new()), Ok(vec![]));
    let bad: Vec<Result<u8, char>> = vec![Ok(1), Ok(2), Err('a'), Ok(3), Err('b'), Ok(4)];
    assert_eq!(gather(bad), (vec![1, 2], vec!['a', 'b']));
    let good: Vec<Result<u8, char>> = vec![Ok(1), Ok(2)];
    assert_eq!(gather(good), (vec![1, 2], vec![]));
    assert_eq!(report_style(0), Report::Full);
    assert_eq!(report_style(1), Report::Brief);
    assert_eq!(report_style(4), Report::Brief);
    assert_eq!(report_style(5), Report::Hidden);
    assert_eq!(skipped(0), 0);
    assert_eq!(skipped(5), 0);
    assert_eq!(skipped(6), 1);
    assert_eq!(skipped(100), 95);
}

#[test]
fn words_and_numbers_as_text() {
    assert_eq!(parse_word(b"0000000000000000"), Some(0));
    assert_eq!(parse_word(b"1000000000000001"), Some(0x8001));
    assert_eq!(parse_word(b"1111111111111111"), Some(0xFFFF));
    assert_eq!(parse_word(b"111111111111111"), None);
    assert_eq!(parse_word(b"11111111111111111"), None);
    assert_eq!(parse_word(b"111111111111111x"), None);
    let mut text = String::from("n=");
    push_decimal(&mut text, 0);
    push_decimal(&mut text, 9);
    push_decimal(&mut text, 10);
    push_decimal(&mut text, 99);
    push_decimal(&mut text, 100);
    push_decimal(&mut text, 255);
    assert_eq!(text, "n=09109910025 5".replace(' ', ""));
    Char::new(2).push_to(&mut text);
    Char::new(99).push_to(&mut text);
    assert_eq!(text, "n=091099100255B<99>");
    assert_eq!(Char::space(), Char::new(0));
    assert_eq!(Char::try_from('!').unwrap(), Char::new(28));
    assert!(Instruction::from_word(0x1000).is_well_formed());
}
