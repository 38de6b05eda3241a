use super::ast::{arg_tokens, Token};
use crate::isa::{Operand, MAX_ARGS};
use arrayvec::ArrayVec;
use std::ops::RangeInclusive;
use vstd::prelude::*;

verus! {

/// Why a token is no integer literal.
#[derive(Debug, Copy, Clone, PartialEq, Eq, Structural)]
pub enum IntErrorKind {
    /// There is no digit.
    Empty,
    /// A character is no digit of the literal's base.
    InvalidDigit,
    /// The number is above 32767.
    PosOverflow,
    /// The number is below -32768.
    NegOverflow,
}

/// What is wrong with a line of assembly. Each error names the line and the
/// token at fault.
#[derive(Debug)]
#[non_exhaustive]
pub enum AsmError<'a> {
    TooManyTokens { line_number: usize, token: Token<'a> },
    WrongOperandCount {
        line_number: usize,
        expected: RangeInclusive<usize>,
        mnemonic: Token<'a>,
        args: ArrayVec<Token<'a>, MAX_ARGS>,
    },
    OperandOutOfRange {
        line_number: usize,
        operand: usize,
        mnemonic: Token<'a>,
        name: &'static str,
        min: Operand,
        max: Operand,
        got: Operand,
        token: Token<'a>,
    },
    TooManyInstructions { line_number: usize, token: Token<'a> },
    UnknownMnemonic { line_number: usize, token: Token<'a> },
    UnknownSymbol { line_number: usize, token: Token<'a>, literal: bool },
    IntParseError { line_number: usize, token: Token<'a>, source: IntErrorKind },
}

/// An assembly error as plain values: what the contracts of the assembler
/// speak of.
pub enum Fault<'a> {
    TooManyTokens { line_number: usize, token: Token<'a> },
    WrongOperandCount {
        line_number: usize,
        expected: int,
        mnemonic: Token<'a>,
        args: Seq<Token<'a>>,
    },
    OperandOutOfRange {
        line_number: usize,
        operand: int,
        mnemonic: Token<'a>,
        name: &'static str,
        min: int,
        max: int,
        got: Operand,
        token: Token<'a>,
    },
    TooManyInstructions { line_number: usize, token: Token<'a> },
    UnknownMnemonic { line_number: usize, token: Token<'a> },
    UnknownSymbol { line_number: usize, token: Token<'a>, literal: bool },
    IntParseError { line_number: usize, token: Token<'a>, source: IntErrorKind },
}

impl<'a> AsmError<'a> {
    /// The error as plain values. The number of operands that was expected
    /// stands for the range from that number to itself.
    pub open spec fn fault(self) -> Fault<'a> {
        match self {
            AsmError::TooManyTokens { line_number, token } => Fault::TooManyTokens {
                line_number,
                token,
            },
            AsmError::WrongOperandCount {
                line_number,
                expected,
                mnemonic,
                args,
            } => Fault::WrongOperandCount {
                line_number,
                expected: expected@.start as int,
                mnemonic,
                args: arg_tokens(args),
            },
            AsmError::OperandOutOfRange {
                line_number,
                operand,
                mnemonic,
                name,
                min,
                max,
                got,
                token,
            } => Fault::OperandOutOfRange {
                line_number,
                operand: operand as int,
                mnemonic,
                name,
                min: min as int,
                max: max as int,
                got,
                token,
            },
            AsmError::TooManyInstructions { line_number, token } => Fault::TooManyInstructions {
                line_number,
                token,
            },
            AsmError::UnknownMnemonic { line_number, token } => Fault::UnknownMnemonic {
                line_number,
                token,
            },
            AsmError::UnknownSymbol { line_number, token, literal } => Fault::UnknownSymbol {
                line_number,
                token,
                literal,
            },
            AsmError::IntParseError { line_number, token, source } => Fault::IntParseError {
                line_number,
                token,
                source,
            },
        }
    }

    /// Whether the range of operand counts that a `WrongOperandCount` names
    /// is the range from the number that `fault()` gives to itself.
    pub open spec fn wf(self) -> bool {
        self matches AsmError::WrongOperandCount { expected, .. } ==> expected@.end
            == expected@.start && !expected@.exhausted
    }

    /// The token at fault, which is the mnemonic where the operand count is
    /// wrong.
    pub open spec fn spec_token(self) -> Token<'a> {
        match self {
            AsmError::TooManyTokens { token, .. } => token,
            AsmError::WrongOperandCount { mnemonic, .. } => mnemonic,
            AsmError::OperandOutOfRange { token, .. } => token,
            AsmError::TooManyInstructions { token, .. } => token,
            AsmError::UnknownMnemonic { token, .. } => token,
            AsmError::UnknownSymbol { token, .. } => token,
            AsmError::IntParseError { token, .. } => token,
        }
    }

    /// The number of the line at fault, from 1.
    pub open spec fn spec_line_num(self) -> usize {
        match self {
            AsmError::TooManyTokens { line_number, .. } => line_number,
            AsmError::WrongOperandCount { line_number, .. } => line_number,
            AsmError::OperandOutOfRange { line_number, .. } => line_number,
            AsmError::TooManyInstructions { line_number, .. } => line_number,
            AsmError::UnknownMnemonic { line_number, .. } => line_number,
            AsmError::UnknownSymbol { line_number, .. } => line_number,
            AsmError::IntParseError { line_number, .. } => line_number,
        }
    }

    /// The number of the line at fault, from 1.
    pub fn line_num(&self) -> (line_number: usize)
        ensures
            line_number == self.spec_line_num(),
    {
        match self {
            AsmError::TooManyTokens { line_number, .. } => *line_number,
            AsmError::WrongOperandCount { line_number, .. } => *line_number,
            AsmError::OperandOutOfRange { line_number, .. } => *line_number,
            AsmError::TooManyInstructions { line_number, .. } => *line_number,
            AsmError::UnknownMnemonic { line_number, .. } => *line_number,
            AsmError::UnknownSymbol { line_number, .. } => *line_number,
            AsmError::IntParseError { line_number, .. } => *line_number,
        }
    }

    /// The column at which the token at fault begins, from 1.
    pub fn col_num(&self) -> (column: usize)
        ensures
            column == self.spec_token().char_number,
    {
        self.token().char_number
    }

    /// The token at fault.
    pub fn token(&self) -> (token: Token<'a>)
        ensures
            token == self.spec_token(),
    {
        match self {
            AsmError::TooManyTokens { token, .. } => *token,
            AsmError::WrongOperandCount { mnemonic, .. } => *mnemonic,
            AsmError::OperandOutOfRange { token, .. } => *token,
            AsmError::TooManyInstructions { token, .. } => *token,
            AsmError::UnknownMnemonic { token, .. } => *token,
            AsmError::UnknownSymbol { token, .. } => *token,
            AsmError::IntParseError { token, .. } => *token,
        }
    }
}

} // verus!
