//! The machine's character set, and loading and storing programs as text.

pub mod chars;
pub mod collect;
pub mod laws;
pub mod machine_code;
pub mod source;

pub use chars::{code_of, decimal, digit, glyph, push_decimal, Char, InvalidCharacter};
pub use collect::{all_values, collect, first_error, lemma_first_error, reversed};
pub use machine_code::{
    bits_value, from_mc, into_mc, is_word_line, loaded, mc_lines, mc_text, FromMcError,
};
pub use source::{assembles_to, from_asm};
