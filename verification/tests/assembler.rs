use batpu2::assembly::{assemble, parse_lines, AsmError, IntErrorKind, Line};
use batpu2::isa::{Cond, Instruction};
use batpu2::utils::{from_asm, from_mc, into_mc};

fn lex(code: &str) -> Vec<Line<'_>> {
    parse_lines(code).into_iter().map(|line| line.unwrap()).collect()
}

#[test]
fn define_and_literals_assemble_bit_exact() {
    let program = from_asm(
        "define write -1\nLDI r15 buffer_chars\nLDI r4 'D'\nSTR r15 r4 write",
    )
    .unwrap();
    let words: Vec<u16> = program.iter().map(|i| i.as_word()).collect();
    assert_eq!(words, vec![0x8FF8, 0x8404, 0xFF4F]);
}

#[test]
fn labels_count_instructions_and_define_counts_none() {
    let program = from_asm(
        "JMP second\ndefine x 3\n.first NOP\ndefine y 4\n.second ADD r1 r2 r3\nJMP first\nLDI r1 x\nLDI r2 y",
    )
    .unwrap();
    assert_eq!(
        program,
        vec![
            Instruction::JMP { addr: 2 },
            Instruction::NOP,
            Instruction::ADD { a: 1, b: 2, c: 3 },
            Instruction::JMP { addr: 1 },
            Instruction::LDI { a: 1, imm: 3 },
            Instruction::LDI { a: 2, imm: 4 },
        ]
    );
}

#[test]
fn default_names_resolve_without_a_table() {
    let program = from_asm("LDI r15 controller_input\nBRH notcarry 7\nBRH >= 8\nLDI r0 pixel_x").unwrap();
    assert_eq!(
        program,
        vec![
            Instruction::LDI { a: 15, imm: 255 },
            Instruction::BRH { cond: Cond::NotCarry, addr: 7 },
            Instruction::BRH { cond: Cond::Carry, addr: 8 },
            Instruction::LDI { a: 0, imm: 240 },
        ]
    );
}

#[test]
fn aliases_are_lowered() {
    let program = from_asm("CMP r1 r2\nMOV r1 r2\nLSH r3 r4\nINC r5\nDEC r6\nNOT r7 r8\nNEG r9 r10").unwrap();
    assert_eq!(
        program,
        vec![
            Instruction::SUB { a: 1, b: 2, c: 0 },
            Instruction::ADD { a: 1, b: 0, c: 2 },
            Instruction::ADD { a: 3, b: 3, c: 4 },
            Instruction::ADI { a: 5, imm: 1 },
            Instruction::ADI { a: 6, imm: 0xFF },
            Instruction::NOR { a: 7, b: 0, c: 8 },
            Instruction::SUB { a: 0, b: 9, c: 10 },
        ]
    );
}

#[test]
fn integer_literals_of_every_base() {
    let program = from_asm("LDI r1 0x1f\nLDI r1 0b101\nLDI r1 0o17\nLDI r1 -0x10\nLDI r1 255").unwrap();
    assert_eq!(
        program,
        vec![
            Instruction::LDI { a: 1, imm: 0x1F },
            Instruction::LDI { a: 1, imm: 5 },
            Instruction::LDI { a: 1, imm: 15 },
            Instruction::LDI { a: 1, imm: 0xF0 },
            Instruction::LDI { a: 1, imm: 255 },
        ]
    );
}

#[test]
fn a_name_can_stand_for_an_opcode() {
    let program = from_asm("define load 8\nload r1 7").unwrap();
    assert_eq!(program, vec![Instruction::LDI { a: 1, imm: 7 }]);
}

#[test]
fn too_many_instructions() {
    let mut code = String::new();
    for _ in 0..1025 {
        code.push_str("NOP\n");
    }
    match from_asm(&code) {
        Err(AsmError::TooManyInstructions { line_number, token }) => {
            assert_eq!(line_number, 1025);
            assert_eq!(token.span, "NOP");
        }
        _ => panic!("expected TooManyInstructions"),
    }
    let lines = lex(&code);
    let results = assemble(&lines);
    assert_eq!(results.len(), 1);

    let mut code = String::new();
    for _ in 0..1024 {
        code.push_str("NOP\n");
    }
    assert_eq!(from_asm(&code).unwrap().len(), 1024);
    code.push_str(".end\n");
    assert!(matches!(from_asm(&code), Err(AsmError::TooManyInstructions { line_number: 1025, .. })));
}

#[test]
fn every_error_kind() {
    assert!(matches!(
        from_asm("ADD r1 r2 r3 r4"),
        Err(AsmError::TooManyTokens { line_number: 1, .. })
    ));
    match from_asm("\nADD r1 r2") {
        Err(AsmError::WrongOperandCount { line_number, expected, mnemonic, args }) => {
            assert_eq!(line_number, 2);
            assert_eq!(expected, 3..=3);
            assert_eq!(mnemonic.span, "ADD");
            assert_eq!(args.len(), 2);
        }
        _ => panic!("expected WrongOperandCount"),
    }
    match from_asm("define x") {
        Err(AsmError::WrongOperandCount { expected, mnemonic, .. }) => {
            assert_eq!(expected, 2..=2);
            assert_eq!(mnemonic.span, "define");
        }
        _ => panic!("expected WrongOperandCount"),
    }
    match from_asm("LOD r1 r2 8") {
        Err(AsmError::OperandOutOfRange { operand, name, min, max, got, token, mnemonic, .. }) => {
            assert_eq!(operand, 2);
            assert_eq!(name, "offset");
            assert_eq!(min, -8);
            assert_eq!(max, 8);
            assert_eq!(got, 8);
            assert_eq!(token.span, "8");
            assert_eq!(token.char_number, 11);
            assert_eq!(mnemonic.span, "LOD");
        }
        _ => panic!("expected OperandOutOfRange"),
    }
    match from_asm("JMP 1024") {
        Err(AsmError::OperandOutOfRange { operand, name, min, max, got, .. }) => {
            assert_eq!((operand, name, min, max, got), (0, "addr", 0, 1024, 1024));
        }
        _ => panic!("expected OperandOutOfRange"),
    }
    match from_asm("LDI r1 -129") {
        Err(AsmError::OperandOutOfRange { operand, name, min, max, got, .. }) => {
            assert_eq!((operand, name, min, max, got), (1, "imm", -128, 256, -129));
        }
        _ => panic!("expected OperandOutOfRange"),
    }
    match from_asm("add r1 r2 r3") {
        Err(AsmError::UnknownMnemonic { token, .. }) => assert_eq!(token.span, "add"),
        _ => panic!("expected UnknownMnemonic"),
    }
    match from_asm("LDI r1 nowhere") {
        Err(AsmError::UnknownSymbol { token, literal, .. }) => {
            assert_eq!(token.span, "nowhere");
            assert!(literal);
        }
        _ => panic!("expected UnknownSymbol"),
    }
    match from_asm("define x 12a") {
        Err(AsmError::IntParseError { token, source, .. }) => {
            assert_eq!(token.span, "12a");
            assert_eq!(source, IntErrorKind::InvalidDigit);
        }
        _ => panic!("expected IntParseError"),
    }
    assert!(matches!(
        from_asm("define x 32768"),
        Err(AsmError::IntParseError { source: IntErrorKind::PosOverflow, .. })
    ));
    assert!(matches!(
        from_asm("define x -32769"),
        Err(AsmError::IntParseError { source: IntErrorKind::NegOverflow, .. })
    ));
    assert!(matches!(
        from_asm("define x 0x"),
        Err(AsmError::IntParseError { source: IntErrorKind::Empty, .. })
    ));
    assert_eq!(from_asm("define x -32768\ndefine y 32767").unwrap(), vec![]);
}

#[test]
fn errors_of_the_first_pass_come_first() {
    let lines = lex("BAD r1\ndefine x y\nNOP");
    let results = assemble(&lines);
    assert_eq!(results.len(), 3);
    assert!(matches!(results[0], Err(AsmError::IntParseError { line_number: 2, .. })));
    assert!(matches!(results[1], Err(AsmError::UnknownMnemonic { line_number: 1, .. })));
    assert_eq!(*results[2].as_ref().unwrap(), Instruction::NOP);
    let error = results[0].as_ref().unwrap_err();
    assert_eq!(error.line_num(), 2);
    assert_eq!(error.col_num(), 10);
    assert_eq!(error.token().span, "y");
}

#[test]
fn the_hundredth_error_ends_the_assembly() {
    let mut code = String::new();
    for _ in 0..150 {
        code.push_str("BAD\n");
    }
    let lines = lex(&code);
    assert_eq!(assemble(&lines).len(), 100);
    let mut code = String::new();
    for _ in 0..150 {
        code.push_str("define x\n");
    }
    code.push_str("NOP\n");
    let lines = lex(&code);
    assert_eq!(assemble(&lines).len(), 100);
}

#[test]
fn machine_code_text() {
    let program = [Instruction::JMP { addr: 1 }, Instruction::ADD { a: 1, b: 2, c: 3 }];
    assert_eq!(into_mc(&program), "1010000000000001\n0010000100100011\n");
}

#[test]
fn machine_code_loads_as_it_was_written() {
    let program = from_asm(
        "LDI r1 200\n.loop ADI r1 1\nBRH nc loop\nSTR r1 r2 -8\nLOD r0 r3 7\nCAL 1023\nRET\nHLT",
    )
    .unwrap();
    let text = into_mc(&program);
    assert_eq!(text.len(), 17 * program.len());
    assert_eq!(from_mc(&text).unwrap(), program);
}
