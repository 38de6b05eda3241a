//! Where the machine takes its instructions from.

use crate::isa::{Instruction, Word};
use std::convert::Infallible;
use std::rc::Rc;
use std::sync::Arc;
use vstd::prelude::*;

verus! {

/// A program that the machine can run: a store of instructions that is
/// read by position and does not change while it is read.
pub trait Code {
    type Error;

    /// Whether reading the position `pc` may give `found`: the instruction
    /// there, nothing where the program has ended, or an error of the
    /// store. A store that says nothing of itself may give anything.
    open spec fn fetches(&self, pc: u16, found: Result<Option<Instruction>, Self::Error>) -> bool {
        true
    }

    /// Whether the program may have `len` instructions.
    open spec fn has_length(&self, len: usize) -> bool {
        true
    }

    /// Reads the position `pc`.
    fn instruction(&self, pc: u16) -> (found: Result<Option<Instruction>, Self::Error>)
        ensures
            self.fetches(pc, found),
    ;

    /// The number of instructions.
    fn len(&self) -> (len: usize)
        ensures
            self.has_length(len),
    ;
}

/// What a sequence of words holds at `pc`.
pub open spec fn word_at(words: Seq<Word>, pc: u16) -> Result<Option<Instruction>, Infallible> {
    if pc < words.len() {
        Ok(Some(Instruction::decoded(words[pc as int])))
    } else {
        Ok(None)
    }
}

/// What a sequence of instructions holds at `pc`.
pub open spec fn instruction_at(instructions: Seq<Instruction>, pc: u16) -> Result<
    Option<Instruction>,
    Infallible,
> {
    if pc < instructions.len() {
        Ok(Some(instructions[pc as int]))
    } else {
        Ok(None)
    }
}

impl Code for [Word] {
    type Error = Infallible;

    open spec fn fetches(&self, pc: u16, found: Result<Option<Instruction>, Infallible>) -> bool {
        found == word_at(self@, pc)
    }

    open spec fn has_length(&self, len: usize) -> bool {
        len == self@.len()
    }

    fn instruction(&self, pc: u16) -> (found: Result<Option<Instruction>, Infallible>) {
        if (pc as usize) < self.len() {
            Ok(Some(Instruction::from_word(self[pc as usize])))
        } else {
            Ok(None)
        }
    }

    fn len(&self) -> (len: usize) {
        self.len()
    }
}

impl Code for [Instruction] {
    type Error = Infallible;

    open spec fn fetches(&self, pc: u16, found: Result<Option<Instruction>, Infallible>) -> bool {
        found == instruction_at(self@, pc)
    }

    open spec fn has_length(&self, len: usize) -> bool {
        len == self@.len()
    }

    fn instruction(&self, pc: u16) -> (found: Result<Option<Instruction>, Infallible>) {
        if (pc as usize) < self.len() {
            Ok(Some(self[pc as usize]))
        } else {
            Ok(None)
        }
    }

    fn len(&self) -> (len: usize) {
        self.len()
    }
}

impl<const N: usize> Code for [Word; N] {
    type Error = Infallible;

    open spec fn fetches(&self, pc: u16, found: Result<Option<Instruction>, Infallible>) -> bool {
        found == word_at(self@, pc)
    }

    open spec fn has_length(&self, len: usize) -> bool {
        len == self@.len()
    }

    fn instruction(&self, pc: u16) -> (found: Result<Option<Instruction>, Infallible>) {
        if (pc as usize) < N {
            Ok(Some(Instruction::from_word(self[pc as usize])))
        } else {
            Ok(None)
        }
    }

    fn len(&self) -> (len: usize) {
        N
    }
}

impl<const N: usize> Code for [Instruction; N] {
    type Error = Infallible;

    open spec fn fetches(&self, pc: u16, found: Result<Option<Instruction>, Infallible>) -> bool {
        found == instruction_at(self@, pc)
    }

    open spec fn has_length(&self, len: usize) -> bool {
        len == self@.len()
    }

    fn instruction(&self, pc: u16) -> (found: Result<Option<Instruction>, Infallible>) {
        if (pc as usize) < N {
            Ok(Some(self[pc as usize]))
        } else {
            Ok(None)
        }
    }

    fn len(&self) -> (len: usize) {
        N
    }
}

impl Code for Vec<Word> {
    type Error = Infallible;

    open spec fn fetches(&self, pc: u16, found: Result<Option<Instruction>, Infallible>) -> bool {
        found == word_at(self@, pc)
    }

    open spec fn has_length(&self, len: usize) -> bool {
        len == self@.len()
    }

    fn instruction(&self, pc: u16) -> (found: Result<Option<Instruction>, Infallible>) {
        if (pc as usize) < self.len() {
            Ok(Some(Instruction::from_word(self[pc as usize])))
        } else {
            Ok(None)
        }
    }

    fn len(&self) -> (len: usize) {
        self.len()
    }
}

impl Code for Vec<Instruction> {
    type Error = Infallible;

    open spec fn fetches(&self, pc: u16, found: Result<Option<Instruction>, Infallible>) -> bool {
        found == instruction_at(self@, pc)
    }

    open spec fn has_length(&self, len: usize) -> bool {
        len == self@.len()
    }

    fn instruction(&self, pc: u16) -> (found: Result<Option<Instruction>, Infallible>) {
        if (pc as usize) < self.len() {
            Ok(Some(self[pc as usize]))
        } else {
            Ok(None)
        }
    }

    fn len(&self) -> (len: usize) {
        self.len()
    }
}

impl<T: Code + ?Sized> Code for &T {
    type Error = T::Error;

    open spec fn fetches(&self, pc: u16, found: Result<Option<Instruction>, T::Error>) -> bool {
        (**self).fetches(pc, found)
    }

    open spec fn has_length(&self, len: usize) -> bool {
        (**self).has_length(len)
    }

    fn instruction(&self, pc: u16) -> (found: Result<Option<Instruction>, T::Error>) {
        (**self).instruction(pc)
    }

    fn len(&self) -> (len: usize) {
        (**self).len()
    }
}

impl<T: Code + ?Sized> Code for Box<T> {
    type Error = T::Error;

    open spec fn fetches(&self, pc: u16, found: Result<Option<Instruction>, T::Error>) -> bool {
        (**self).fetches(pc, found)
    }

    open spec fn has_length(&self, len: usize) -> bool {
        (**self).has_length(len)
    }

    fn instruction(&self, pc: u16) -> (found: Result<Option<Instruction>, T::Error>) {
        (**self).instruction(pc)
    }

    fn len(&self) -> (len: usize) {
        (**self).len()
    }
}

impl<T: Code + ?Sized> Code for Rc<T> {
    type Error = T::Error;

    open spec fn fetches(&self, pc: u16, found: Result<Option<Instruction>, T::Error>) -> bool {
        (**self).fetches(pc, found)
    }

    open spec fn has_length(&self, len: usize) -> bool {
        (**self).has_length(len)
    }

    fn instruction(&self, pc: u16) -> (found: Result<Option<Instruction>, T::Error>) {
        (**self).instruction(pc)
    }

    fn len(&self) -> (len: usize) {
        (**self).len()
    }
}

impl<T: Code + ?Sized> Code for Arc<T> {
    type Error = T::Error;

    open spec fn fetches(&self, pc: u16, found: Result<Option<Instruction>, T::Error>) -> bool {
        (**self).fetches(pc, found)
    }

    open spec fn has_length(&self, len: usize) -> bool {
        (**self).has_length(len)
    }

    fn instruction(&self, pc: u16) -> (found: Result<Option<Instruction>, T::Error>) {
        (**self).instruction(pc)
    }

    fn len(&self) -> (len: usize) {
        (**self).len()
    }
}

} // verus!
