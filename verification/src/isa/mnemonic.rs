use super::common::{Operand, UnknownMnemonicError, UnknownOpcodeError};
use super::fields::Field;
use crate::text::str_eq;
use vstd::prelude::*;
use vstd::std_specs::convert::TryFromSpecImpl;

verus! {

/// The most operands that any mnemonic takes.
pub const MAX_ARGS: usize = 3;

/// The number of instructions that the code space holds.
pub const MAX_CODE_LEN: usize = 1024;

/// The names that an assembly line can begin with: the sixteen instructions
/// of the machine and the aliases that stand for one of them with some
/// operands fixed.
#[derive(Debug, Copy, Clone, PartialEq, Eq, Structural)]
pub enum Mnemonic {
    NOP,
    HLT,
    ADD,
    SUB,
    NOR,
    AND,
    XOR,
    RSH,
    LDI,
    ADI,
    JMP,
    BRH,
    CAL,
    RET,
    LOD,
    STR,
    CMP,
    MOV,
    LSH,
    INC,
    DEC,
    NOT,
    NEG,
}

impl Mnemonic {
    /// The fields that the operands go to, in the order in which they are
    /// written.
    pub open spec fn operand_fields(self) -> Seq<Field> {
        match self {
            Mnemonic::NOP | Mnemonic::HLT | Mnemonic::RET => Seq::empty(),
            Mnemonic::ADD
            | Mnemonic::SUB
            | Mnemonic::NOR
            | Mnemonic::AND
            | Mnemonic::XOR => seq![Field::A, Field::B, Field::C],
            Mnemonic::RSH
            | Mnemonic::MOV
            | Mnemonic::LSH
            | Mnemonic::NOT
            | Mnemonic::NEG => seq![Field::A, Field::C],
            Mnemonic::LDI | Mnemonic::ADI => seq![Field::A, Field::Imm],
            Mnemonic::JMP | Mnemonic::CAL => seq![Field::Addr],
            Mnemonic::BRH => seq![Field::Cond, Field::Addr],
            Mnemonic::LOD | Mnemonic::STR => seq![Field::A, Field::B, Field::Offset],
            Mnemonic::CMP => seq![Field::A, Field::B],
            Mnemonic::INC | Mnemonic::DEC => seq![Field::A],
        }
    }

    /// The number of operands.
    pub open spec fn arity(self) -> nat {
        self.operand_fields().len()
    }

    /// Whether the mnemonic is an alias and no instruction of its own.
    pub open spec fn is_alias(self) -> bool {
        match self {
            Mnemonic::CMP
            | Mnemonic::MOV
            | Mnemonic::LSH
            | Mnemonic::INC
            | Mnemonic::DEC
            | Mnemonic::NOT
            | Mnemonic::NEG => true,
            _ => false,
        }
    }

    /// The opcode of an instruction; an alias has none.
    pub open spec fn opcode(self) -> Option<int> {
        match self {
            Mnemonic::NOP => Some(0),
            Mnemonic::HLT => Some(1),
            Mnemonic::ADD => Some(2),
            Mnemonic::SUB => Some(3),
            Mnemonic::NOR => Some(4),
            Mnemonic::AND => Some(5),
            Mnemonic::XOR => Some(6),
            Mnemonic::RSH => Some(7),
            Mnemonic::LDI => Some(8),
            Mnemonic::ADI => Some(9),
            Mnemonic::JMP => Some(10),
            Mnemonic::BRH => Some(11),
            Mnemonic::CAL => Some(12),
            Mnemonic::RET => Some(13),
            Mnemonic::LOD => Some(14),
            Mnemonic::STR => Some(15),
            _ => None,
        }
    }

    /// The instruction with the opcode `opcode`, if that is one of 0 to 15.
    pub open spec fn of_opcode(opcode: int) -> Option<Mnemonic> {
        if opcode == 0 {
            Some(Mnemonic::NOP)
        } else if opcode == 1 {
            Some(Mnemonic::HLT)
        } else if opcode == 2 {
            Some(Mnemonic::ADD)
        } else if opcode == 3 {
            Some(Mnemonic::SUB)
        } else if opcode == 4 {
            Some(Mnemonic::NOR)
        } else if opcode == 5 {
            Some(Mnemonic::AND)
        } else if opcode == 6 {
            Some(Mnemonic::XOR)
        } else if opcode == 7 {
            Some(Mnemonic::RSH)
        } else if opcode == 8 {
            Some(Mnemonic::LDI)
        } else if opcode == 9 {
            Some(Mnemonic::ADI)
        } else if opcode == 10 {
            Some(Mnemonic::JMP)
        } else if opcode == 11 {
            Some(Mnemonic::BRH)
        } else if opcode == 12 {
            Some(Mnemonic::CAL)
        } else if opcode == 13 {
            Some(Mnemonic::RET)
        } else if opcode == 14 {
            Some(Mnemonic::LOD)
        } else if opcode == 15 {
            Some(Mnemonic::STR)
        } else {
            None
        }
    }

    /// The name as it is written in assembly.
    pub open spec fn name(self) -> &'static str {
        match self {
            Mnemonic::NOP => "NOP",
            Mnemonic::HLT => "HLT",
            Mnemonic::ADD => "ADD",
            Mnemonic::SUB => "SUB",
            Mnemonic::NOR => "NOR",
            Mnemonic::AND => "AND",
            Mnemonic::XOR => "XOR",
            Mnemonic::RSH => "RSH",
            Mnemonic::LDI => "LDI",
            Mnemonic::ADI => "ADI",
            Mnemonic::JMP => "JMP",
            Mnemonic::BRH => "BRH",
            Mnemonic::CAL => "CAL",
            Mnemonic::RET => "RET",
            Mnemonic::LOD => "LOD",
            Mnemonic::STR => "STR",
            Mnemonic::CMP => "CMP",
            Mnemonic::MOV => "MOV",
            Mnemonic::LSH => "LSH",
            Mnemonic::INC => "INC",
            Mnemonic::DEC => "DEC",
            Mnemonic::NOT => "NOT",
            Mnemonic::NEG => "NEG",
        }
    }

    /// The mnemonic that is written `name`, in exactly these letters.
    pub open spec fn named(name: Seq<char>) -> Option<Mnemonic> {
        if name == "NOP"@ {
            Some(Mnemonic::NOP)
        } else if name == "HLT"@ {
            Some(Mnemonic::HLT)
        } else if name == "ADD"@ {
            Some(Mnemonic::ADD)
        } else if name == "SUB"@ {
            Some(Mnemonic::SUB)
        } else if name == "NOR"@ {
            Some(Mnemonic::NOR)
        } else if name == "AND"@ {
            Some(Mnemonic::AND)
        } else if name == "XOR"@ {
            Some(Mnemonic::XOR)
        } else if name == "RSH"@ {
            Some(Mnemonic::RSH)
        } else if name == "LDI"@ {
            Some(Mnemonic::LDI)
        } else if name == "ADI"@ {
            Some(Mnemonic::ADI)
        } else if name == "JMP"@ {
            Some(Mnemonic::JMP)
        } else if name == "BRH"@ {
            Some(Mnemonic::BRH)
        } else if name == "CAL"@ {
            Some(Mnemonic::CAL)
        } else if name == "RET"@ {
            Some(Mnemonic::RET)
        } else if name == "LOD"@ {
            Some(Mnemonic::LOD)
        } else if name == "STR"@ {
            Some(Mnemonic::STR)
        } else if name == "CMP"@ {
            Some(Mnemonic::CMP)
        } else if name == "MOV"@ {
            Some(Mnemonic::MOV)
        } else if name == "LSH"@ {
            Some(Mnemonic::LSH)
        } else if name == "INC"@ {
            Some(Mnemonic::INC)
        } else if name == "DEC"@ {
            Some(Mnemonic::DEC)
        } else if name == "NOT"@ {
            Some(Mnemonic::NOT)
        } else if name == "NEG"@ {
            Some(Mnemonic::NEG)
        } else {
            None
        }
    }

    /// The number of operands.
    pub fn operand_count(self) -> (count: usize)
        ensures
            count == self.arity(),
            count <= MAX_ARGS,
    {
        match self {
            Mnemonic::NOP | Mnemonic::HLT | Mnemonic::RET => 0,
            Mnemonic::ADD
            | Mnemonic::SUB
            | Mnemonic::NOR
            | Mnemonic::AND
            | Mnemonic::XOR
            | Mnemonic::LOD
            | Mnemonic::STR => 3,
            Mnemonic::RSH
            | Mnemonic::LDI
            | Mnemonic::ADI
            | Mnemonic::BRH
            | Mnemonic::CMP
            | Mnemonic::MOV
            | Mnemonic::LSH
            | Mnemonic::NOT
            | Mnemonic::NEG => 2,
            Mnemonic::JMP | Mnemonic::CAL | Mnemonic::INC | Mnemonic::DEC => 1,
        }
    }

    /// The field of operand number `index`.
    pub fn operand_field(self, index: usize) -> (field: Field)
        requires
            index < self.arity(),
        ensures
            field == self.operand_fields()[index as int],
    {
        match self {
            Mnemonic::ADD
            | Mnemonic::SUB
            | Mnemonic::NOR
            | Mnemonic::AND
            | Mnemonic::XOR => if index == 0 {
                Field::A
            } else if index == 1 {
                Field::B
            } else {
                Field::C
            },
            Mnemonic::RSH
            | Mnemonic::MOV
            | Mnemonic::LSH
            | Mnemonic::NOT
            | Mnemonic::NEG => if index == 0 {
                Field::A
            } else {
                Field::C
            },
            Mnemonic::LDI | Mnemonic::ADI => if index == 0 {
                Field::A
            } else {
                Field::Imm
            },
            Mnemonic::JMP | Mnemonic::CAL => Field::Addr,
            Mnemonic::BRH => if index == 0 {
                Field::Cond
            } else {
                Field::Addr
            },
            Mnemonic::LOD | Mnemonic::STR => if index == 0 {
                Field::A
            } else if index == 1 {
                Field::B
            } else {
                Field::Offset
            },
            Mnemonic::CMP => if index == 0 {
                Field::A
            } else {
                Field::B
            },
            Mnemonic::INC | Mnemonic::DEC => Field::A,
            _ => Field::Opcode,
        }
    }

    /// The name as it is written in assembly.
    pub fn to_str(self) -> (name: &'static str)
        ensures
            name == self.name(),
    {
        match self {
            Mnemonic::NOP => "NOP",
            Mnemonic::HLT => "HLT",
            Mnemonic::ADD => "ADD",
            Mnemonic::SUB => "SUB",
            Mnemonic::NOR => "NOR",
            Mnemonic::AND => "AND",
            Mnemonic::XOR => "XOR",
            Mnemonic::RSH => "RSH",
            Mnemonic::LDI => "LDI",
            Mnemonic::ADI => "ADI",
            Mnemonic::JMP => "JMP",
            Mnemonic::BRH => "BRH",
            Mnemonic::CAL => "CAL",
            Mnemonic::RET => "RET",
            Mnemonic::LOD => "LOD",
            Mnemonic::STR => "STR",
            Mnemonic::CMP => "CMP",
            Mnemonic::MOV => "MOV",
            Mnemonic::LSH => "LSH",
            Mnemonic::INC => "INC",
            Mnemonic::DEC => "DEC",
            Mnemonic::NOT => "NOT",
            Mnemonic::NEG => "NEG",
        }
    }

    /// Looks a mnemonic up by its name.
    pub fn from_name(name: &str) -> (result: Result<Mnemonic, UnknownMnemonicError>)
        ensures
            match result {
                Ok(mnemonic) => Mnemonic::named(name@) == Some(mnemonic),
                Err(error) => Mnemonic::named(name@) is None && error == UnknownMnemonicError,
            },
    {
        if str_eq(name, "NOP") {
            Ok(Mnemonic::NOP)
        } else if str_eq(name, "HLT") {
            Ok(Mnemonic::HLT)
        } else if str_eq(name, "ADD") {
            Ok(Mnemonic::ADD)
        } else if str_eq(name, "SUB") {
            Ok(Mnemonic::SUB)
        } else if str_eq(name, "NOR") {
            Ok(Mnemonic::NOR)
        } else if str_eq(name, "AND") {
            Ok(Mnemonic::AND)
        } else if str_eq(name, "XOR") {
            Ok(Mnemonic::XOR)
        } else if str_eq(name, "RSH") {
            Ok(Mnemonic::RSH)
        } else if str_eq(name, "LDI") {
            Ok(Mnemonic::LDI)
        } else if str_eq(name, "ADI") {
            Ok(Mnemonic::ADI)
        } else if str_eq(name, "JMP") {
            Ok(Mnemonic::JMP)
        } else if str_eq(name, "BRH") {
            Ok(Mnemonic::BRH)
        } else if str_eq(name, "CAL") {
            Ok(Mnemonic::CAL)
        } else if str_eq(name, "RET") {
            Ok(Mnemonic::RET)
        } else if str_eq(name, "LOD") {
            Ok(Mnemonic::LOD)
        } else if str_eq(name, "STR") {
            Ok(Mnemonic::STR)
        } else if str_eq(name, "CMP") {
            Ok(Mnemonic::CMP)
        } else if str_eq(name, "MOV") {
            Ok(Mnemonic::MOV)
        } else if str_eq(name, "LSH") {
            Ok(Mnemonic::LSH)
        } else if str_eq(name, "INC") {
            Ok(Mnemonic::INC)
        } else if str_eq(name, "DEC") {
            Ok(Mnemonic::DEC)
        } else if str_eq(name, "NOT") {
            Ok(Mnemonic::NOT)
        } else if str_eq(name, "NEG") {
            Ok(Mnemonic::NEG)
        } else {
            Err(UnknownMnemonicError)
        }
    }

    /// Looks an instruction up by its opcode.
    pub fn from_opcode(opcode: Operand) -> (result: Result<Mnemonic, UnknownOpcodeError>)
        ensures
            match result {
                Ok(mnemonic) => Mnemonic::of_opcode(opcode as int) == Some(mnemonic),
                Err(error) => {
                    &&& Mnemonic::of_opcode(opcode as int) is None
                    &&& error == UnknownOpcodeError(opcode)
                },
            },
    {
        if opcode == 0 {
            Ok(Mnemonic::NOP)
        } else if opcode == 1 {
            Ok(Mnemonic::HLT)
        } else if opcode == 2 {
            Ok(Mnemonic::ADD)
        } else if opcode == 3 {
            Ok(Mnemonic::SUB)
        } else if opcode == 4 {
            Ok(Mnemonic::NOR)
        } else if opcode == 5 {
            Ok(Mnemonic::AND)
        } else if opcode == 6 {
            Ok(Mnemonic::XOR)
        } else if opcode == 7 {
            Ok(Mnemonic::RSH)
        } else if opcode == 8 {
            Ok(Mnemonic::LDI)
        } else if opcode == 9 {
            Ok(Mnemonic::ADI)
        } else if opcode == 10 {
            Ok(Mnemonic::JMP)
        } else if opcode == 11 {
            Ok(Mnemonic::BRH)
        } else if opcode == 12 {
            Ok(Mnemonic::CAL)
        } else if opcode == 13 {
            Ok(Mnemonic::RET)
        } else if opcode == 14 {
            Ok(Mnemonic::LOD)
        } else if opcode == 15 {
            Ok(Mnemonic::STR)
        } else {
            Err(UnknownOpcodeError(opcode))
        }
    }
}

/// Every instruction is found again by its opcode, and an opcode belongs to
/// the instruction that it finds.
pub proof fn lemma_opcode_both_ways(mnemonic: Mnemonic, opcode: int)
    ensures
        mnemonic.opcode() == Some(opcode) <==> Mnemonic::of_opcode(opcode) == Some(mnemonic),
        Mnemonic::of_opcode(opcode) is Some <==> 0 <= opcode <= 15,
        Mnemonic::of_opcode(opcode) == Some(mnemonic) ==> !mnemonic.is_alias(),
{
}

impl<'a> TryFrom<&'a str> for Mnemonic {
    type Error = UnknownMnemonicError;

    fn try_from(name: &'a str) -> (result: Result<Mnemonic, UnknownMnemonicError>) {
        Mnemonic::from_name(name)
    }
}

impl<'a> TryFromSpecImpl<&'a str> for Mnemonic {
    open spec fn obeys_try_from_spec() -> bool {
        true
    }

    open spec fn try_from_spec(name: &'a str) -> Result<Mnemonic, UnknownMnemonicError> {
        match Mnemonic::named(name@) {
            Some(mnemonic) => Ok(mnemonic),
            None => Err(UnknownMnemonicError),
        }
    }
}

impl TryFrom<Operand> for Mnemonic {
    type Error = UnknownOpcodeError;

    fn try_from(opcode: Operand) -> (result: Result<Mnemonic, UnknownOpcodeError>) {
        Mnemonic::from_opcode(opcode)
    }
}

impl TryFromSpecImpl<Operand> for Mnemonic {
    open spec fn obeys_try_from_spec() -> bool {
        true
    }

    open spec fn try_from_spec(opcode: Operand) -> Result<Mnemonic, UnknownOpcodeError> {
        match Mnemonic::of_opcode(opcode as int) {
            Some(mnemonic) => Ok(mnemonic),
            None => Err(UnknownOpcodeError(opcode)),
        }
    }
}

} // verus!
