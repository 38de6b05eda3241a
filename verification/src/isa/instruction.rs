use super::common::{
    check_range, read_masked, write_masked, Cond, InstructionError, Operand, Word,
};
use super::fields::{
    lemma_field_accepts, lemma_field_shape, lemma_masked_operand, lemma_masked_word, Field,
};
use super::mnemonic::Mnemonic;
use std::ops::RangeInclusive;
use vstd::pervasive::unreached;
use vstd::prelude::*;
use vstd::std_specs::convert::FromSpecImpl;

verus! {

/// One instruction of the machine with its operands. An alias is never an
/// instruction: it is turned into the instruction it stands for when it is
/// built.
#[derive(Debug, Copy, Clone, PartialEq, Eq, Structural)]
pub enum Instruction {
    NOP,
    HLT,
    ADD { a: u8, b: u8, c: u8 },
    SUB { a: u8, b: u8, c: u8 },
    NOR { a: u8, b: u8, c: u8 },
    AND { a: u8, b: u8, c: u8 },
    XOR { a: u8, b: u8, c: u8 },
    RSH { a: u8, c: u8 },
    LDI { a: u8, imm: u8 },
    ADI { a: u8, imm: u8 },
    JMP { addr: u16 },
    BRH { cond: Cond, addr: u16 },
    CAL { addr: u16 },
    RET,
    LOD { a: u8, b: u8, offset: i8 },
    STR { a: u8, b: u8, offset: i8 },
}

/// The operands of an alias's instruction, from the operands of the alias.
pub open spec fn lowered_operands(mnemonic: Mnemonic, operands: Seq<Operand>) -> Seq<Operand> {
    match mnemonic {
        Mnemonic::CMP => seq![operands[0], operands[1], 0],
        Mnemonic::MOV => seq![operands[0], 0, operands[1]],
        Mnemonic::LSH => seq![operands[0], operands[0], operands[1]],
        Mnemonic::INC => seq![operands[0], 1],
        Mnemonic::DEC => seq![operands[0], -1i16],
        Mnemonic::NOT => seq![operands[0], 0, operands[1]],
        Mnemonic::NEG => seq![0, operands[0], operands[1]],
        _ => operands,
    }
}

/// The instruction that an alias stands for; an instruction stands for
/// itself.
pub open spec fn lowered_mnemonic(mnemonic: Mnemonic) -> Mnemonic {
    match mnemonic {
        Mnemonic::CMP | Mnemonic::NEG => Mnemonic::SUB,
        Mnemonic::MOV | Mnemonic::LSH => Mnemonic::ADD,
        Mnemonic::INC | Mnemonic::DEC => Mnemonic::ADI,
        Mnemonic::NOT => Mnemonic::NOR,
        _ => mnemonic,
    }
}

impl Mnemonic {
    /// Whether `operands` are as many as the mnemonic takes, each within the
    /// range of its field.
    pub open spec fn accepts(self, operands: Seq<Operand>) -> bool {
        &&& operands.len() == self.arity()
        &&& forall|i: int|
            0 <= i < operands.len() ==> (#[trigger] self.operand_fields()[i]).accepts(operands[i])
    }

    /// Whether operand number `index` is the first that its field refuses.
    pub open spec fn first_rejected(self, operands: Seq<Operand>, index: int) -> bool {
        &&& 0 <= index < operands.len()
        &&& !self.operand_fields()[index].accepts(operands[index])
        &&& forall|i: int|
            0 <= i < index ==> (#[trigger] self.operand_fields()[i]).accepts(operands[i])
    }
}

impl Instruction {
    /// The instruction's mnemonic.
    pub open spec fn mnemonic(self) -> Mnemonic {
        match self {
            Instruction::NOP => Mnemonic::NOP,
            Instruction::HLT => Mnemonic::HLT,
            Instruction::ADD { .. } => Mnemonic::ADD,
            Instruction::SUB { .. } => Mnemonic::SUB,
            Instruction::NOR { .. } => Mnemonic::NOR,
            Instruction::AND { .. } => Mnemonic::AND,
            Instruction::XOR { .. } => Mnemonic::XOR,
            Instruction::RSH { .. } => Mnemonic::RSH,
            Instruction::LDI { .. } => Mnemonic::LDI,
            Instruction::ADI { .. } => Mnemonic::ADI,
            Instruction::JMP { .. } => Mnemonic::JMP,
            Instruction::BRH { .. } => Mnemonic::BRH,
            Instruction::CAL { .. } => Mnemonic::CAL,
            Instruction::RET => Mnemonic::RET,
            Instruction::LOD { .. } => Mnemonic::LOD,
            Instruction::STR { .. } => Mnemonic::STR,
        }
    }

    /// Whether every operand lies within the range of its field.
    pub open spec fn wf(self) -> bool {
        match self {
            Instruction::NOP | Instruction::HLT | Instruction::RET => true,
            Instruction::ADD { a, b, c }
            | Instruction::SUB { a, b, c }
            | Instruction::NOR { a, b, c }
            | Instruction::AND { a, b, c }
            | Instruction::XOR { a, b, c } => a < 16 && b < 16 && c < 16,
            Instruction::RSH { a, c } => a < 16 && c < 16,
            Instruction::LDI { a, imm } | Instruction::ADI { a, imm } => a < 16,
            Instruction::JMP { addr } | Instruction::CAL { addr } => addr < 1024,
            Instruction::BRH { cond, addr } => addr < 1024,
            Instruction::LOD { a, b, offset } | Instruction::STR { a, b, offset } => a < 16 && b
                < 16 && -8 <= offset < 8,
        }
    }

    /// The instruction of an instruction's mnemonic with operands that the
    /// mnemonic accepts. An immediate below zero is stored as the byte with
    /// the same bits.
    pub open spec fn of_primary(mnemonic: Mnemonic, operands: Seq<Operand>) -> Instruction {
        let x = operands[0];
        let y = operands[1];
        let z = operands[2];
        match mnemonic {
            Mnemonic::HLT => Instruction::HLT,
            Mnemonic::ADD => Instruction::ADD { a: x as u8, b: y as u8, c: z as u8 },
            Mnemonic::SUB => Instruction::SUB { a: x as u8, b: y as u8, c: z as u8 },
            Mnemonic::NOR => Instruction::NOR { a: x as u8, b: y as u8, c: z as u8 },
            Mnemonic::AND => Instruction::AND { a: x as u8, b: y as u8, c: z as u8 },
            Mnemonic::XOR => Instruction::XOR { a: x as u8, b: y as u8, c: z as u8 },
            Mnemonic::RSH => Instruction::RSH { a: x as u8, c: y as u8 },
            Mnemonic::LDI => Instruction::LDI { a: x as u8, imm: (y as int % 256) as u8 },
            Mnemonic::ADI => Instruction::ADI { a: x as u8, imm: (y as int % 256) as u8 },
            Mnemonic::JMP => Instruction::JMP { addr: x as u16 },
            Mnemonic::BRH => Instruction::BRH { cond: Cond::of_code(x as int), addr: y as u16 },
            Mnemonic::CAL => Instruction::CAL { addr: x as u16 },
            Mnemonic::RET => Instruction::RET,
            Mnemonic::LOD => Instruction::LOD { a: x as u8, b: y as u8, offset: z as i8 },
            Mnemonic::STR => Instruction::STR { a: x as u8, b: y as u8, offset: z as i8 },
            _ => Instruction::NOP,
        }
    }

    /// The instruction that `mnemonic` with `operands` is, for operands that
    /// the mnemonic accepts.
    pub open spec fn built(mnemonic: Mnemonic, operands: Seq<Operand>) -> Instruction {
        Instruction::of_primary(lowered_mnemonic(mnemonic), lowered_operands(mnemonic, operands))
    }

    /// The word of the instruction: its opcode in the top four bits, each
    /// operand in its field, zeros elsewhere.
    pub open spec fn encoded(self) -> Word {
        (match self {
            Instruction::NOP => 0x0000,
            Instruction::HLT => 0x1000,
            Instruction::ADD { a, b, c } => 0x2000 + Field::A.placed(a as int) + Field::B.placed(
                b as int,
            ) + Field::C.placed(c as int),
            Instruction::SUB { a, b, c } => 0x3000 + Field::A.placed(a as int) + Field::B.placed(
                b as int,
            ) + Field::C.placed(c as int),
            Instruction::NOR { a, b, c } => 0x4000 + Field::A.placed(a as int) + Field::B.placed(
                b as int,
            ) + Field::C.placed(c as int),
            Instruction::AND { a, b, c } => 0x5000 + Field::A.placed(a as int) + Field::B.placed(
                b as int,
            ) + Field::C.placed(c as int),
            Instruction::XOR { a, b, c } => 0x6000 + Field::A.placed(a as int) + Field::B.placed(
                b as int,
            ) + Field::C.placed(c as int),
            Instruction::RSH { a, c } => 0x7000 + Field::A.placed(a as int) + Field::C.placed(
                c as int,
            ),
            Instruction::LDI { a, imm } => 0x8000 + Field::A.placed(a as int) + Field::Imm.placed(
                imm as int,
            ),
            Instruction::ADI { a, imm } => 0x9000 + Field::A.placed(a as int) + Field::Imm.placed(
                imm as int,
            ),
            Instruction::JMP { addr } => 0xA000 + Field::Addr.placed(addr as int),
            Instruction::BRH { cond, addr } => 0xB000 + Field::Cond.placed(cond.code())
                + Field::Addr.placed(addr as int),
            Instruction::CAL { addr } => 0xC000 + Field::Addr.placed(addr as int),
            Instruction::RET => 0xD000,
            Instruction::LOD { a, b, offset } => 0xE000 + Field::A.placed(a as int)
                + Field::B.placed(b as int) + Field::Offset.placed(offset as int),
            Instruction::STR { a, b, offset } => 0xF000 + Field::A.placed(a as int)
                + Field::B.placed(b as int) + Field::Offset.placed(offset as int),
        }) as Word
    }

    /// The instruction that a word stands for: every word stands for one.
    pub open spec fn decoded(word: Word) -> Instruction {
        let a = Field::A.value_in(word) as u8;
        let b = Field::B.value_in(word) as u8;
        let c = Field::C.value_in(word) as u8;
        let imm = Field::Imm.value_in(word) as u8;
        let addr = Field::Addr.value_in(word) as u16;
        let cond = Cond::of_code(Field::Cond.value_in(word));
        let offset = Field::Offset.value_in(word) as i8;
        match Mnemonic::of_opcode(Field::Opcode.value_in(word)) {
            Some(Mnemonic::HLT) => Instruction::HLT,
            Some(Mnemonic::ADD) => Instruction::ADD { a, b, c },
            Some(Mnemonic::SUB) => Instruction::SUB { a, b, c },
            Some(Mnemonic::NOR) => Instruction::NOR { a, b, c },
            Some(Mnemonic::AND) => Instruction::AND { a, b, c },
            Some(Mnemonic::XOR) => Instruction::XOR { a, b, c },
            Some(Mnemonic::RSH) => Instruction::RSH { a, c },
            Some(Mnemonic::LDI) => Instruction::LDI { a, imm },
            Some(Mnemonic::ADI) => Instruction::ADI { a, imm },
            Some(Mnemonic::JMP) => Instruction::JMP { addr },
            Some(Mnemonic::BRH) => Instruction::BRH { cond, addr },
            Some(Mnemonic::CAL) => Instruction::CAL { addr },
            Some(Mnemonic::RET) => Instruction::RET,
            Some(Mnemonic::LOD) => Instruction::LOD { a, b, offset },
            Some(Mnemonic::STR) => Instruction::STR { a, b, offset },
            _ => Instruction::NOP,
        }
    }
}

/// Puts `value` into the table field `field` of an otherwise empty word.
pub fn write_field(value: Operand, field: Field) -> (word: Word)
    ensures
        word == field.placed(value as int),
{
    proof {
        lemma_field_shape(field);
        lemma_masked_word(field, value);
    }
    write_masked(value, field.get_mask())
}

/// Reads the table field `field` of `word`.
pub fn read_field(word: Word, field: Field) -> (value: Operand)
    ensures
        value == field.value_in(word),
        field.accepts(value),
{
    proof {
        lemma_field_shape(field);
        lemma_masked_operand(field, word);
    }
    read_masked(word, field.get_mask(), field.get_kind())
}

/// Fields that do not overlap are joined by adding them.
proof fn lemma_join(high: Word, low: Word)
    by (bit_vector)
    requires
        (high % 4096 == 0 && low < 4096) || (high % 1024 == 0 && low < 1024) || (high % 256 == 0
            && low < 256) || (high % 16 == 0 && low < 16),
    ensures
        high | low == high + low,
{
}

/// The byte with the bits of an operand that the immediate field accepts.
fn low_byte(value: Operand) -> (byte: u8)
    requires
        -128 <= value < 256,
    ensures
        byte == value as int % 256,
{
    if value < 0 {
        (value + 256) as u8
    } else {
        value as u8
    }
}

impl Instruction {
    /// Builds the instruction of `mnemonic` with `operands`, an alias as the
    /// instruction that it stands for. The operands are tested in the order
    /// in which they are written, and the first that its field refuses is
    /// the one reported.
    pub fn new(mnemonic: Mnemonic, operands: &[Operand]) -> (result: Result<
        Instruction,
        InstructionError,
    >)
        ensures
            match result {
                Ok(instruction) => {
                    &&& mnemonic.accepts(operands@)
                    &&& instruction == Instruction::built(mnemonic, operands@)
                    &&& instruction.wf()
                },
                Err(InstructionError::WrongOperandCount { expected, got }) => {
                    &&& operands@.len() != mnemonic.arity()
                    &&& got == operands@.len()
                    &&& expected@.start == mnemonic.arity()
                    &&& expected@.end == mnemonic.arity()
                    &&& !expected@.exhausted
                },
                Err(InstructionError::OperandOutOfRange { operand, name, min, max, got }) => {
                    &&& operands@.len() == mnemonic.arity()
                    &&& mnemonic.first_rejected(operands@, operand as int)
                    &&& name == mnemonic.operand_fields()[operand as int].name()
                    &&& min == mnemonic.operand_fields()[operand as int].min()
                    &&& max == mnemonic.operand_fields()[operand as int].max()
                    &&& got == operands@[operand as int]
                },
            },
    {
        let count = mnemonic.operand_count();
        if operands.len() != count {
            return Err(
                InstructionError::WrongOperandCount {
                    expected: RangeInclusive::new(count, count),
                    got: operands.len(),
                },
            );
        }
        let mut index: usize = 0;
        while index < count
            invariant
                index <= count,
                count == mnemonic.arity(),
                count == operands@.len(),
                forall|i: int|
                    0 <= i < index ==> (#[trigger] mnemonic.operand_fields()[i]).accepts(
                        operands@[i],
                    ),
            decreases count - index,
        {
            let field = mnemonic.operand_field(index);
            proof {
                lemma_field_shape(field);
                lemma_field_accepts(field, operands@[index as int]);
            }
            match check_range(
                operands[index],
                field.get_mask(),
                field.get_kind(),
                index,
                field.get_name(),
            ) {
                Ok(()) => {},
                Err(error) => {
                    return Err(error);
                },
            }
            index = index + 1;
        }
        Ok(Instruction::build(mnemonic, operands))
    }

    /// The instruction of `mnemonic` with operands that were found in range.
    fn build(mnemonic: Mnemonic, operands: &[Operand]) -> (instruction: Instruction)
        requires
            mnemonic.accepts(operands@),
        ensures
            instruction == Instruction::built(mnemonic, operands@),
            instruction.wf(),
    {
        proof {
            let fields = mnemonic.operand_fields();
            assert(forall|i: int|
                0 <= i < fields.len() ==> (#[trigger] fields[i]).accepts(operands@[i]));
            if fields.len() > 0 {
                assert(fields[0].accepts(operands@[0]));
            }
            if fields.len() > 1 {
                assert(fields[1].accepts(operands@[1]));
            }
            if fields.len() > 2 {
                assert(fields[2].accepts(operands@[2]));
            }
        }
        match mnemonic {
            Mnemonic::NOP => Instruction::NOP,
            Mnemonic::HLT => Instruction::HLT,
            Mnemonic::ADD => Instruction::ADD {
                a: operands[0] as u8,
                b: operands[1] as u8,
                c: operands[2] as u8,
            },
            Mnemonic::SUB => Instruction::SUB {
                a: operands[0] as u8,
                b: operands[1] as u8,
                c: operands[2] as u8,
            },
            Mnemonic::NOR => Instruction::NOR {
                a: operands[0] as u8,
                b: operands[1] as u8,
                c: operands[2] as u8,
            },
            Mnemonic::AND => Instruction::AND {
                a: operands[0] as u8,
                b: operands[1] as u8,
                c: operands[2] as u8,
            },
            Mnemonic::XOR => Instruction::XOR {
                a: operands[0] as u8,
                b: operands[1] as u8,
                c: operands[2] as u8,
            },
            Mnemonic::RSH => Instruction::RSH { a: operands[0] as u8, c: operands[1] as u8 },
            Mnemonic::LDI => Instruction::LDI { a: operands[0] as u8, imm: low_byte(operands[1]) },
            Mnemonic::ADI => Instruction::ADI { a: operands[0] as u8, imm: low_byte(operands[1]) },
            Mnemonic::JMP => Instruction::JMP { addr: operands[0] as u16 },
            Mnemonic::BRH => Instruction::BRH {
                cond: Cond::from_operand(operands[0]),
                addr: operands[1] as u16,
            },
            Mnemonic::CAL => Instruction::CAL { addr: operands[0] as u16 },
            Mnemonic::RET => Instruction::RET,
            Mnemonic::LOD => Instruction::LOD {
                a: operands[0] as u8,
                b: operands[1] as u8,
                offset: operands[2] as i8,
            },
            Mnemonic::STR => Instruction::STR {
                a: operands[0] as u8,
                b: operands[1] as u8,
                offset: operands[2] as i8,
            },
            Mnemonic::CMP => Instruction::SUB { a: operands[0] as u8, b: operands[1] as u8, c: 0 },
            Mnemonic::MOV => Instruction::ADD { a: operands[0] as u8, b: 0, c: operands[1] as u8 },
            Mnemonic::LSH => Instruction::ADD {
                a: operands[0] as u8,
                b: operands[0] as u8,
                c: operands[1] as u8,
            },
            Mnemonic::INC => Instruction::ADI { a: operands[0] as u8, imm: 1 },
            Mnemonic::DEC => Instruction::ADI { a: operands[0] as u8, imm: 0xFF },
            Mnemonic::NOT => Instruction::NOR { a: operands[0] as u8, b: 0, c: operands[1] as u8 },
            Mnemonic::NEG => Instruction::SUB { a: 0, b: operands[0] as u8, c: operands[1] as u8 },
        }
    }

    /// Whether every operand lies within the range of its field.
    pub fn is_well_formed(&self) -> (well_formed: bool)
        ensures
            well_formed == self.wf(),
    {
        match *self {
            Instruction::NOP | Instruction::HLT | Instruction::RET => true,
            Instruction::ADD { a, b, c }
            | Instruction::SUB { a, b, c }
            | Instruction::NOR { a, b, c }
            | Instruction::AND { a, b, c }
            | Instruction::XOR { a, b, c } => a < 16 && b < 16 && c < 16,
            Instruction::RSH { a, c } => a < 16 && c < 16,
            Instruction::LDI { a, .. } | Instruction::ADI { a, .. } => a < 16,
            Instruction::JMP { addr } | Instruction::CAL { addr } => addr < 1024,
            Instruction::BRH { addr, .. } => addr < 1024,
            Instruction::LOD { a, b, offset } | Instruction::STR { a, b, offset } => a < 16 && b
                < 16 && -8 <= offset && offset < 8,
        }
    }

    /// The word that stands for the instruction.
    pub fn as_word(self) -> (word: Word)
        ensures
            word == self.encoded(),
    {
        match self {
            Instruction::NOP => write_field(0x0, Field::Opcode),
            Instruction::HLT => write_field(0x1, Field::Opcode),
            Instruction::ADD { a, b, c } => join_abc(0x2, a, b, c),
            Instruction::SUB { a, b, c } => join_abc(0x3, a, b, c),
            Instruction::NOR { a, b, c } => join_abc(0x4, a, b, c),
            Instruction::AND { a, b, c } => join_abc(0x5, a, b, c),
            Instruction::XOR { a, b, c } => join_abc(0x6, a, b, c),
            Instruction::RSH { a, c } => {
                let high = write_field(0x7, Field::Opcode);
                let mid = write_field(a as Operand, Field::A);
                let low = write_field(c as Operand, Field::C);
                proof {
                    lemma_join(high, mid);
                    lemma_join((high + mid) as Word, low);
                }
                high | mid | low
            },
            Instruction::LDI { a, imm } => join_a_imm(0x8, a, imm),
            Instruction::ADI { a, imm } => join_a_imm(0x9, a, imm),
            Instruction::JMP { addr } => join_addr(0xA, addr),
            Instruction::BRH { cond, addr } => {
                let high = write_field(0xB, Field::Opcode);
                let mid = write_field(cond.to_operand(), Field::Cond);
                let low = write_field(low_bits(addr), Field::Addr);
                proof {
                    lemma_join(high, mid);
                    lemma_join((high + mid) as Word, low);
                }
                high | mid | low
            },
            Instruction::CAL { addr } => join_addr(0xC, addr),
            Instruction::RET => write_field(0xD, Field::Opcode),
            Instruction::LOD { a, b, offset } => join_ab_offset(0xE, a, b, offset),
            Instruction::STR { a, b, offset } => join_ab_offset(0xF, a, b, offset),
        }
    }

    /// The instruction that `word` stands for.
    pub fn from_word(word: Word) -> (instruction: Instruction)
        ensures
            instruction == Instruction::decoded(word),
            instruction.wf(),
    {
        let a = read_field(word, Field::A) as u8;
        let b = read_field(word, Field::B) as u8;
        let c = read_field(word, Field::C) as u8;
        match Mnemonic::from_opcode(read_field(word, Field::Opcode)) {
            Ok(Mnemonic::NOP) => Instruction::NOP,
            Ok(Mnemonic::HLT) => Instruction::HLT,
            Ok(Mnemonic::ADD) => Instruction::ADD { a, b, c },
            Ok(Mnemonic::SUB) => Instruction::SUB { a, b, c },
            Ok(Mnemonic::NOR) => Instruction::NOR { a, b, c },
            Ok(Mnemonic::AND) => Instruction::AND { a, b, c },
            Ok(Mnemonic::XOR) => Instruction::XOR { a, b, c },
            Ok(Mnemonic::RSH) => Instruction::RSH { a, c },
            Ok(Mnemonic::LDI) => Instruction::LDI { a, imm: read_field(word, Field::Imm) as u8 },
            Ok(Mnemonic::ADI) => Instruction::ADI { a, imm: read_field(word, Field::Imm) as u8 },
            Ok(Mnemonic::JMP) => Instruction::JMP { addr: read_field(word, Field::Addr) as u16 },
            Ok(Mnemonic::BRH) => Instruction::BRH {
                cond: Cond::from_operand(read_field(word, Field::Cond)),
                addr: read_field(word, Field::Addr) as u16,
            },
            Ok(Mnemonic::CAL) => Instruction::CAL { addr: read_field(word, Field::Addr) as u16 },
            Ok(Mnemonic::RET) => Instruction::RET,
            Ok(Mnemonic::LOD) => Instruction::LOD {
                a,
                b,
                offset: read_field(word, Field::Offset) as i8,
            },
            Ok(Mnemonic::STR) => Instruction::STR {
                a,
                b,
                offset: read_field(word, Field::Offset) as i8,
            },
            _ => unreached(),
        }
    }
}

/// The operand with the low fifteen bits of `addr`, which hold all that the
/// address field keeps of it.
fn low_bits(addr: u16) -> (value: Operand)
    ensures
        value as int % 1024 == addr as int % 1024,
        value >= 0,
{
    (addr % 0x8000) as Operand
}

fn join_abc(opcode: Operand, a: u8, b: u8, c: u8) -> (word: Word)
    requires
        0 <= opcode < 16,
    ensures
        word == opcode * 4096 + Field::A.placed(a as int) + Field::B.placed(b as int)
            + Field::C.placed(c as int),
{
    let high = write_field(opcode, Field::Opcode);
    let a_bits = write_field(a as Operand, Field::A);
    let b_bits = write_field(b as Operand, Field::B);
    let c_bits = write_field(c as Operand, Field::C);
    proof {
        lemma_join(high, a_bits);
        lemma_join((high + a_bits) as Word, b_bits);
        lemma_join((high + a_bits + b_bits) as Word, c_bits);
    }
    high | a_bits | b_bits | c_bits
}

fn join_ab_offset(opcode: Operand, a: u8, b: u8, offset: i8) -> (word: Word)
    requires
        0 <= opcode < 16,
    ensures
        word == opcode * 4096 + Field::A.placed(a as int) + Field::B.placed(b as int)
            + Field::Offset.placed(offset as int),
{
    let high = write_field(opcode, Field::Opcode);
    let a_bits = write_field(a as Operand, Field::A);
    let b_bits = write_field(b as Operand, Field::B);
    let low = write_field(offset as Operand, Field::Offset);
    proof {
        lemma_join(high, a_bits);
        lemma_join((high + a_bits) as Word, b_bits);
        lemma_join((high + a_bits + b_bits) as Word, low);
    }
    high | a_bits | b_bits | low
}

fn join_a_imm(opcode: Operand, a: u8, imm: u8) -> (word: Word)
    requires
        0 <= opcode < 16,
    ensures
        word == opcode * 4096 + Field::A.placed(a as int) + Field::Imm.placed(imm as int),
{
    let high = write_field(opcode, Field::Opcode);
    let a_bits = write_field(a as Operand, Field::A);
    let low = write_field(imm as Operand, Field::Imm);
    proof {
        lemma_join(high, a_bits);
        lemma_join((high + a_bits) as Word, low);
    }
    high | a_bits | low
}

fn join_addr(opcode: Operand, addr: u16) -> (word: Word)
    requires
        0 <= opcode < 16,
    ensures
        word == opcode * 4096 + Field::Addr.placed(addr as int),
{
    let high = write_field(opcode, Field::Opcode);
    let low = write_field(low_bits(addr), Field::Addr);
    proof {
        lemma_join(high, low);
    }
    high | low
}

impl From<Word> for Instruction {
    fn from(word: Word) -> (instruction: Instruction) {
        Instruction::from_word(word)
    }
}

impl FromSpecImpl<Word> for Instruction {
    open spec fn obeys_from_spec() -> bool {
        true
    }

    open spec fn from_spec(word: Word) -> Instruction {
        Instruction::decoded(word)
    }
}

impl From<Instruction> for Word {
    fn from(instruction: Instruction) -> (word: Word) {
        instruction.as_word()
    }
}

impl FromSpecImpl<Instruction> for Word {
    open spec fn obeys_from_spec() -> bool {
        true
    }

    open spec fn from_spec(instruction: Instruction) -> Word {
        instruction.encoded()
    }
}

} // verus!
