//! The assembler: a lexer from source lines to tokens, and two passes from
//! lexed lines to instructions.

pub mod assembler;
pub mod ast;
pub mod error;
pub mod laws;
pub mod names;
pub mod number;
pub mod parser;
pub mod report;
pub mod symbols;

pub use assembler::assemble;
pub use ast::{Line, Token};
pub use error::{AsmError, Fault, IntErrorKind};
pub use parser::{parse_line, parse_lines};
