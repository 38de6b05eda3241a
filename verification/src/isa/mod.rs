//! The instruction set: mnemonics, operand fields, and the encoding of
//! instructions as 16-bit words.

pub mod common;
pub mod fields;
pub mod instruction;
pub mod laws;
pub mod mnemonic;

pub use common::{
    check_range, read_masked, write_masked, Cond, InstructionError, Operand, OperandKind,
    UnknownMnemonicError, UnknownOpcodeError, Word,
};
pub use fields::Field;
pub use instruction::Instruction;
pub use mnemonic::{Mnemonic, MAX_ARGS, MAX_CODE_LEN};
