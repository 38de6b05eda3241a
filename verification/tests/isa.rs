use batpu2::isa::{Cond, Instruction, InstructionError, Mnemonic};

#[test]
fn to_machine_code() {
    assert_eq!(Instruction::NOP.as_word(), 0x0000, "NOP");
    assert_eq!(Instruction::HLT.as_word(), 0x1000, "HLT");
    assert_eq!(Instruction::ADD { a: 0x3, b: 0x4, c: 0x5 }.as_word(), 0x2345, "ADD");
    assert_eq!(Instruction::SUB { a: 0x9, b: 0x3, c: 0x9 }.as_word(), 0x3939, "SUB");
    assert_eq!(Instruction::NOR { a: 0xE, b: 0xE, c: 0xF }.as_word(), 0x4EEF, "NOR");
    assert_eq!(Instruction::AND { a: 0x4, b: 0x0, c: 0x5 }.as_word(), 0x5405, "AND");
    assert_eq!(Instruction::XOR { a: 0x1, b: 0x2, c: 0x3 }.as_word(), 0x6123, "XOR");
    assert_eq!(Instruction::RSH { a: 0xA, c: 0xB }.as_word(), 0x7A0B, "RSH");
    assert_eq!(Instruction::LDI { a: 0x9, imm: 0xFF }.as_word(), 0x89FF, "LDI");
    assert_eq!(Instruction::ADI { a: 0x8, imm: 0x42 }.as_word(), 0x9842, "ADI");
    assert_eq!(Instruction::JMP { addr: 0x3FF }.as_word(), 0xA3FF, "JMP");
    assert_eq!(Instruction::BRH { cond: Cond::Zero, addr: 0x222 }.as_word(), 0xB222, "BRH");
    assert_eq!(Instruction::BRH { cond: Cond::NotZero, addr: 0x123 }.as_word(), 0xB523, "BRH");
    assert_eq!(Instruction::BRH { cond: Cond::Carry, addr: 0x009 }.as_word(), 0xB809, "BRH");
    assert_eq!(Instruction::BRH { cond: Cond::NotCarry, addr: 0x3FF }.as_word(), 0xBFFF, "BRH");
    assert_eq!(Instruction::CAL { addr: 0x137 }.as_word(), 0xC137, "CAL");
    assert_eq!(Instruction::RET.as_word(), 0xD000, "RET");
    assert_eq!(Instruction::LOD { a: 0x1, b: 0x2, offset: 0x3 }.as_word(), 0xE123, "LOD");
    assert_eq!(Instruction::STR { a: 0xF, b: 0xF, offset: -0x1 }.as_word(), 0xFFFF, "STR");
}

#[test]
fn from_machine_code() {
    assert_eq!(Instruction::NOP, Instruction::from(0x0000), "NOP");
    assert_eq!(Instruction::HLT, Instruction::from(0x1000), "HLT");
    assert_eq!(Instruction::ADD { a: 0x3, b: 0x4, c: 0x5 }, Instruction::from(0x2345), "ADD");
    assert_eq!(Instruction::SUB { a: 0x9, b: 0x3, c: 0x9 }, Instruction::from(0x3939), "SUB");
    assert_eq!(Instruction::NOR { a: 0xE, b: 0xE, c: 0xF }, Instruction::from(0x4EEF), "NOR");
    assert_eq!(Instruction::AND { a: 0x4, b: 0x0, c: 0x5 }, Instruction::from(0x5405), "AND");
    assert_eq!(Instruction::XOR { a: 0x1, b: 0x2, c: 0x3 }, Instruction::from(0x6123), "XOR");
    assert_eq!(Instruction::RSH { a: 0xA, c: 0xB }, Instruction::from(0x7A0B), "RSH");
    assert_eq!(Instruction::LDI { a: 0x9, imm: 0xFF }, Instruction::from(0x89FF), "LDI");
    assert_eq!(Instruction::ADI { a: 0x8, imm: 0x42 }, Instruction::from(0x9842), "ADI");
    assert_eq!(Instruction::JMP { addr: 0x3FF }, Instruction::from(0xA3FF), "JMP");
    assert_eq!(Instruction::BRH { cond: Cond::Zero, addr: 0x222 }, Instruction::from(0xB222), "BRH");
    assert_eq!(Instruction::BRH { cond: Cond::NotZero, addr: 0x123 }, Instruction::from(0xB523), "BRH");
    assert_eq!(Instruction::BRH { cond: Cond::Carry, addr: 0x009 }, Instruction::from(0xB809), "BRH");
    assert_eq!(Instruction::BRH { cond: Cond::NotCarry, addr: 0x3FF }, Instruction::from(0xBFFF), "BRH");
    assert_eq!(Instruction::CAL { addr: 0x137 }, Instruction::from(0xC137), "CAL");
    assert_eq!(Instruction::RET, Instruction::from(0xD000), "RET");
    assert_eq!(Instruction::LOD { a: 0x1, b: 0x2, offset: 0x3 }, Instruction::from(0xE123), "LOD");
    assert_eq!(Instruction::STR { a: 0xF, b: 0xF, offset: -0x1 }, Instruction::from(0xFFFF), "STR");
}


#[test]
fn every_word_decodes_and_encodes_back() {
    for word in 0..=u16::MAX {
        let instruction = Instruction::from(word);
        assert!(instruction.is_well_formed());
        let used: u16 = match word >> 12 {
            0x0 | 0x1 | 0xD => 0xF000,
            0x7 => 0xFF0F,
            0xA | 0xC => 0xF3FF,
            _ => 0xFFFF,
        };
        assert_eq!(instruction.as_word(), word & used);
        assert_eq!(Instruction::from(instruction.as_word()), instruction);
        assert_eq!(u16::from(instruction), instruction.as_word());
    }
}

#[test]
fn encode_nop_hlt_ret() {
    assert_eq!(Instruction::NOP.as_word(), 0x0000);
    assert_eq!(Instruction::HLT.as_word(), 0x1000);
    assert_eq!(Instruction::RET.as_word(), 0xD000);
}

#[test]
fn str_with_offset_minus_one() {
    let instruction = Instruction::STR { a: 15, b: 15, offset: -1 };
    assert_eq!(instruction.as_word(), 0xFFFF);
    assert_eq!(Instruction::from(0xFFFF), instruction);
}

#[test]
fn aliases_are_their_instructions() {
    let new = |mnemonic, operands: &[i16]| Instruction::new(mnemonic, operands).unwrap();
    assert_eq!(new(Mnemonic::CMP, &[3, 4]), new(Mnemonic::SUB, &[3, 4, 0]));
    assert_eq!(new(Mnemonic::MOV, &[3, 4]), new(Mnemonic::ADD, &[3, 0, 4]));
    assert_eq!(new(Mnemonic::LSH, &[3, 4]), new(Mnemonic::ADD, &[3, 3, 4]));
    assert_eq!(new(Mnemonic::INC, &[3]), new(Mnemonic::ADI, &[3, 1]));
    assert_eq!(new(Mnemonic::DEC, &[3]), new(Mnemonic::ADI, &[3, -1]));
    assert_eq!(new(Mnemonic::DEC, &[3]), Instruction::ADI { a: 3, imm: 0xFF });
    assert_eq!(new(Mnemonic::NOT, &[3, 4]), new(Mnemonic::NOR, &[3, 0, 4]));
    assert_eq!(new(Mnemonic::NEG, &[3, 4]), new(Mnemonic::SUB, &[0, 3, 4]));
}

#[test]
fn operands_are_held_against_their_fields() {
    assert_eq!(
        Instruction::new(Mnemonic::LDI, &[15, -128]).unwrap(),
        Instruction::LDI { a: 15, imm: 0x80 }
    );
    assert_eq!(
        Instruction::new(Mnemonic::LOD, &[1, 2, -8]).unwrap(),
        Instruction::LOD { a: 1, b: 2, offset: -8 }
    );
    assert_eq!(
        Instruction::new(Mnemonic::BRH, &[3, 1023]).unwrap(),
        Instruction::BRH { cond: Cond::NotCarry, addr: 1023 }
    );
    match Instruction::new(Mnemonic::ADD, &[1, 16, 99]) {
        Err(InstructionError::OperandOutOfRange { operand, name, min, max, got }) => {
            assert_eq!((operand, name, min, max, got), (1, "b", 0, 16, 16));
        }
        _ => panic!("expected OperandOutOfRange"),
    }
    match Instruction::new(Mnemonic::NEG, &[16, 1]) {
        Err(InstructionError::OperandOutOfRange { operand, name, .. }) => {
            assert_eq!((operand, name), (0, "a"));
        }
        _ => panic!("expected OperandOutOfRange"),
    }
    match Instruction::new(Mnemonic::BRH, &[4, 0]) {
        Err(InstructionError::OperandOutOfRange { operand, name, min, max, got }) => {
            assert_eq!((operand, name, min, max, got), (0, "cond", 0, 4, 4));
        }
        _ => panic!("expected OperandOutOfRange"),
    }
    match Instruction::new(Mnemonic::RET, &[1]) {
        Err(InstructionError::WrongOperandCount { expected, got }) => {
            assert_eq!(expected, 0..=0);
            assert_eq!(got, 1);
        }
        _ => panic!("expected WrongOperandCount"),
    }
    assert!(Instruction::new(Mnemonic::JMP, &[1024]).is_err());
    assert!(!Instruction::JMP { addr: 1024 }.is_well_formed());
}

#[test]
fn mnemonics_by_name_and_opcode() {
    assert_eq!(Mnemonic::from_name("XOR").unwrap(), Mnemonic::XOR);
    assert_eq!(Mnemonic::try_from("NEG").unwrap(), Mnemonic::NEG);
    assert!(Mnemonic::from_name("xor").is_err());
    assert!(Mnemonic::from_name("").is_err());
    assert_eq!(Mnemonic::from_opcode(0).unwrap(), Mnemonic::NOP);
    assert_eq!(Mnemonic::try_from(15i16).unwrap(), Mnemonic::STR);
    assert_eq!(Mnemonic::from_opcode(16).unwrap_err().0, 16);
    assert_eq!(Mnemonic::from_opcode(-1).unwrap_err().0, -1);
    assert_eq!(Mnemonic::LOD.operand_count(), 3);
    assert_eq!(Mnemonic::INC.operand_count(), 1);
    assert_eq!(Mnemonic::HLT.operand_count(), 0);
    assert_eq!(Mnemonic::CMP.to_str(), "CMP");
    assert_eq!(i16::from(Cond::Carry), 2);
    assert_eq!(Cond::from_operand(1), Cond::NotZero);
}
