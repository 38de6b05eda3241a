//! Toolchain and emulator for the BatPU-2 teaching CPU: an assembler, the
//! instruction set with its bit-exact encoding, and a virtual machine.

pub mod assembly;
pub mod isa;
pub mod text;
pub mod utils;
pub mod vm;

pub use vm::BatPU2;
