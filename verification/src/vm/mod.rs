//! The virtual machine: registers, flags, a call stack, data memory, and
//! the execution of instructions against them and the devices.

pub mod code;
pub mod io;
pub mod laws;

use crate::assembly::AsmError;
use crate::isa::{Cond, Instruction, Word};
use crate::utils::{assembles_to, loaded, mc_lines, FromMcError};
use code::Code;
use io::embedded::EmbeddedIO;
use io::{failure, RawIO};
use std::convert::Infallible;
use vstd::prelude::*;
use vstd::string::StringSliceAdditionalSpecFns;

verus! {

/// The two flags that the arithmetic instructions set.
#[derive(Debug, PartialEq, Eq, Structural)]
pub struct Flags {
    pub zero: bool,
    pub carry: bool,
}

impl Default for Flags {
    fn default() -> (flags: Flags)
        ensures
            !flags.zero,
            !flags.carry,
    {
        Flags { zero: false, carry: false }
    }
}

/// Why a step of the machine failed: its devices or its program did.
#[derive(Debug)]
pub enum RunError<IOError, CodeError> {
    IOError(IOError),
    CodeError(CodeError),
}

/// The machine with its program `code` and its devices `io`.
#[derive(Debug)]
pub struct BatPU2<C, I = EmbeddedIO> {
    pub flags: Flags,
    pub io: I,
    pub pc: u16,
    pub registers: [u8; 15],
    pub call_stack: [u16; 16],
    pub memory: [u8; 240],
    pub halted: bool,
    pub code: C,
}

/// The state of the processor: all of the machine but its program and its
/// devices. `registers` holds the registers 1 to 15, `call_stack` the
/// sixteen return addresses with the newest first, `memory` the 240 bytes
/// of RAM.
#[verifier::ext_equal]
pub struct Cpu {
    pub pc: u16,
    pub registers: Seq<u8>,
    pub call_stack: Seq<u16>,
    pub memory: Seq<u8>,
    pub zero: bool,
    pub carry: bool,
    pub halted: bool,
}

/// The number of addresses that are memory; the addresses from here on are
/// ports.
pub const RAM_SIZE: u8 = 240;

/// The call stack after a call that returns to `pc`: every address moves
/// one place down, the last one is lost, and `pc` is the first.
pub open spec fn pushed(stack: Seq<u16>, pc: u16) -> Seq<u16> {
    seq![pc] + stack.subrange(0, stack.len() - 1)
}

/// The call stack after a return: every address moves one place up, and
/// the last place holds 0.
pub open spec fn popped(stack: Seq<u16>) -> Seq<u16> {
    stack.subrange(1, stack.len() as int).push(0u16)
}

impl Cpu {
    /// Whether the state has fifteen registers, sixteen places on the call
    /// stack and 240 bytes of memory.
    pub open spec fn wf(self) -> bool {
        &&& self.registers.len() == 15
        &&& self.call_stack.len() == 16
        &&& self.memory.len() == 240
    }

    /// What a register reads as: register 0 reads as 0.
    pub open spec fn reg(self, reg: u8) -> u8 {
        if reg == 0 {
            0
        } else {
            self.registers[reg - 1]
        }
    }

    /// The state after a write to a register: register 0 keeps no value.
    pub open spec fn with_reg(self, reg: u8, value: u8) -> Cpu {
        if reg == 0 {
            self
        } else {
            Cpu { registers: self.registers.update(reg - 1, value), ..self }
        }
    }

    /// The state after an arithmetic result was written to a register: the
    /// zero flag says whether the result is 0.
    pub open spec fn with_result(self, reg: u8, value: u8, carry: bool) -> Cpu {
        Cpu { carry, zero: value == 0, ..self }.with_reg(reg, value)
    }

    /// Whether a branch on `cond` is taken.
    pub open spec fn holds(self, cond: Cond) -> bool {
        match cond {
            Cond::Zero => self.zero,
            Cond::NotZero => !self.zero,
            Cond::Carry => self.carry,
            Cond::NotCarry => !self.carry,
        }
    }

    /// The address that `LOD` and `STR` reach: the register plus the
    /// offset, modulo 256.
    pub open spec fn address(self, reg: u8, offset: i8) -> u8 {
        ((self.reg(reg) + offset) % 256) as u8
    }

    /// The state after a byte was stored in memory.
    pub open spec fn stored(self, addr: u8, value: u8) -> Cpu {
        Cpu { memory: self.memory.update(addr as int, value), ..self }
    }

    /// Whether the instruction reaches the devices: whether it is a `LOD`
    /// or a `STR` at an address from 240 on.
    pub open spec fn reaches_io(self, instruction: Instruction) -> bool {
        match instruction {
            Instruction::LOD { a, offset, .. } | Instruction::STR { a, offset, .. } => self.address(
                a,
                offset,
            ) >= RAM_SIZE,
            _ => false,
        }
    }

    /// The state after an instruction that does not reach the devices.
    pub open spec fn executed(self, instruction: Instruction) -> Cpu {
        match instruction {
            Instruction::NOP => self,
            Instruction::HLT => Cpu { halted: true, ..self },
            Instruction::ADD { a, b, c } => self.with_result(
                c,
                ((self.reg(a) + self.reg(b)) % 256) as u8,
                self.reg(a) + self.reg(b) > 255,
            ),
            Instruction::SUB { a, b, c } => self.with_result(
                c,
                ((self.reg(a) - self.reg(b)) % 256) as u8,
                self.reg(a) >= self.reg(b),
            ),
            Instruction::NOR { a, b, c } => self.with_result(
                c,
                !(self.reg(a) | self.reg(b)),
                false,
            ),
            Instruction::AND { a, b, c } => self.with_result(c, self.reg(a) & self.reg(b), false),
            Instruction::XOR { a, b, c } => self.with_result(c, self.reg(a) ^ self.reg(b), false),
            Instruction::RSH { a, c } => self.with_reg(c, self.reg(a) / 2),
            Instruction::LDI { a, imm } => self.with_reg(a, imm),
            Instruction::ADI { a, imm } => self.with_result(
                a,
                ((self.reg(a) + imm) % 256) as u8,
                self.reg(a) + imm > 255,
            ),
            Instruction::JMP { addr } => Cpu { pc: addr, ..self },
            Instruction::BRH { cond, addr } => if self.holds(cond) {
                Cpu { pc: addr, ..self }
            } else {
                self
            },
            Instruction::CAL { addr } => Cpu {
                pc: addr,
                call_stack: pushed(self.call_stack, self.pc),
                ..self
            },
            Instruction::RET => Cpu {
                pc: self.call_stack[0],
                call_stack: popped(self.call_stack),
                ..self
            },
            Instruction::LOD { a, b, offset } => self.with_reg(
                b,
                self.memory[self.address(a, offset) as int],
            ),
            Instruction::STR { a, b, offset } => self.stored(self.address(a, offset), self.reg(b)),
        }
    }

    /// The state in which the instruction at the program counter is
    /// executed: the program counter, taken modulo 1024, has moved on.
    pub open spec fn fetched(self) -> Cpu {
        Cpu { pc: (self.pc % 1024 + 1) as u16, ..self }
    }
}

/// The failure of a step whose devices failed with `failed`, if they did.
pub open spec fn io_failure<IOError, CodeError>(failed: Option<IOError>) -> Option<
    RunError<IOError, CodeError>,
> {
    match failed {
        None => None,
        Some(error) => Some(RunError::IOError(error)),
    }
}

impl<C, I> View for BatPU2<C, I> {
    type V = Cpu;

    open spec fn view(&self) -> Cpu {
        Cpu {
            pc: self.pc,
            registers: self.registers@,
            call_stack: self.call_stack@,
            memory: self.memory@,
            zero: self.flags.zero,
            carry: self.flags.carry,
            halted: self.halted,
        }
    }
}

/// The instruction that the machine reads: past the end of the program it
/// reads `NOP`.
pub open spec fn found_or_nop(found: Option<Instruction>) -> Instruction {
    match found {
        Some(instruction) => instruction,
        None => Instruction::NOP,
    }
}

/// The state in which every machine starts.
pub open spec fn reset() -> Cpu {
    Cpu {
        pc: 0,
        registers: Seq::new(15, |i: int| 0u8),
        call_stack: Seq::new(16, |i: int| 0u16),
        memory: Seq::new(240, |i: int| 0u8),
        zero: false,
        carry: false,
        halted: false,
    }
}

impl<C: Code> BatPU2<C, EmbeddedIO> {
    /// The machine with the program `code` and the devices that it comes
    /// with, at rest.
    pub fn new(code: C) -> (vm: Self)
        ensures
            vm@ == reset(),
            vm.code == code,
            vm.io.at_rest(),
    {
        BatPU2 {
            flags: Flags::default(),
            io: EmbeddedIO::new(),
            pc: 0,
            registers: [0u8;15],
            call_stack: [0u16;16],
            memory: [0u8;240],
            halted: false,
            code,
        }
    }
}

impl BatPU2<Vec<Instruction>, EmbeddedIO> {
    /// The machine with the program that the source text `code` assembles
    /// to.
    pub fn from_asm<'a>(code: &'a str) -> (result: Result<Self, AsmError<'a>>)
        ensures
            match result {
                Ok(vm) => {
                    &&& assembles_to(
                        code.spec_bytes(),
                        Ok::<Vec<Instruction>, AsmError<'a>>(vm.code),
                    )
                    &&& vm@ == reset()
                    &&& vm.io.at_rest()
                    &&& vm.code_wf()
                },
                Err(error) => assembles_to(
                    code.spec_bytes(),
                    Err::<Vec<Instruction>, AsmError<'a>>(error),
                ),
            },
    {
        match crate::utils::from_asm(code) {
            Ok(program) => Ok(Self::new(program)),
            Err(error) => Err(error),
        }
    }

    /// The machine with the program that the machine code `code` holds.
    pub fn from_mc(code: &str) -> (result: Result<Self, FromMcError>)
        ensures
            match result {
                Ok(vm) => {
                    &&& loaded(
                        Ok::<Vec<Instruction>, FromMcError>(vm.code),
                        code.spec_bytes(),
                        mc_lines(code.spec_bytes(), 0, 0),
                    )
                    &&& vm@ == reset()
                    &&& vm.io.at_rest()
                    &&& vm.code_wf()
                },
                Err(error) => loaded(
                    Err::<Vec<Instruction>, FromMcError>(error),
                    code.spec_bytes(),
                    mc_lines(code.spec_bytes(), 0, 0),
                ),
            },
    {
        match crate::utils::from_mc(code) {
            Ok(program) => {
                proof {
                    assert forall|i: int| 0 <= i < program@.len() implies (
                    #[trigger] program@[i]).wf() by {
                        let lines = mc_lines(code.spec_bytes(), 0, 0);
                        let line = code.spec_bytes().subrange(lines[i].1, lines[i].2);
                        assert(crate::utils::is_word_line(line));
                        crate::isa::laws::lemma_encode_decode(
                            crate::utils::bits_value(line) as crate::isa::Word,
                        );
                    }
                }
                Ok(Self::new(program))
            },
            Err(error) => Err(error),
        }
    }
}

impl<C: Code, I: RawIO> BatPU2<C, I> {
    /// The machine with the program `code` and the devices `io`.
    pub fn with_io(code: C, io: I) -> (vm: Self)
        ensures
            vm@ == reset(),
            vm.code == code,
            vm.io == io,
    {
        BatPU2 {
            flags: Flags::default(),
            io,
            pc: 0,
            registers: [0u8;15],
            call_stack: [0u16;16],
            memory: [0u8;240],
            halted: false,
            code,
        }
    }

    /// Whether every instruction of the program is well formed.
    pub open spec fn code_wf(&self) -> bool {
        forall|pc: u16, instruction: Instruction| #[trigger]
            self.code.fetches(pc, Ok::<Option<Instruction>, C::Error>(Some(instruction)))
                ==> instruction.wf()
    }

    /// Whether executing `instruction` may take the machine from `self` to
    /// `after` and end well, or fail with `failed`. An instruction that does
    /// not reach the devices leaves them alone, does not fail and changes
    /// the processor as `Cpu::executed` says. A `LOD` from a port reads the
    /// port's address and writes the byte read to its register. A `STR` to a
    /// port writes the register's byte to the port's address. Where the
    /// devices fail, the processor is left as it was.
    pub open spec fn executes(
        self,
        instruction: Instruction,
        after: Self,
        failed: Option<RunError<I::Error, C::Error>>,
    ) -> bool {
        &&& after.code == self.code
        &&& if !self@.reaches_io(instruction) {
            &&& after.io == self.io
            &&& failed is None
            &&& after@ == self@.executed(instruction)
        } else {
            match instruction {
                Instruction::LOD { a, b, offset } => {
                    exists|out: Result<u8, I::Error>|
                        {
                            &&& #[trigger] self.io.read_step(
                                self@.address(a, offset),
                                &after.io,
                                out,
                            )
                            &&& failed == io_failure::<I::Error, C::Error>(failure(out))
                            &&& after@ == match out {
                                Ok(data) => self@.with_reg(b, data),
                                Err(_) => self@,
                            }
                        }
                },
                Instruction::STR { a, b, offset } => {
                    exists|io_failed: Option<I::Error>|
                        {
                            &&& #[trigger] self.io.write_step(
                                self@.address(a, offset),
                                self@.reg(b),
                                &after.io,
                                io_failed,
                            )
                            &&& failed == io_failure::<I::Error, C::Error>(io_failed)
                            &&& after@ == self@
                        }
                },
                _ => false,
            }
        }
    }

    /// Whether one step may take the machine from `self` to `after` and end
    /// well, or fail with `failed`: the program counter is taken modulo
    /// 1024, the instruction there is read, the program counter moves on,
    /// and the instruction is executed. Past the end of the program the
    /// machine reads `NOP`. Where the program cannot be read, the step fails
    /// with the program counter taken modulo 1024 and nothing else changed.
    pub open spec fn steps(self, after: Self, failed: Option<RunError<I::Error, C::Error>>) -> bool {
        exists|found: Result<Option<Instruction>, C::Error>|
            {
                &&& #[trigger] self.code.fetches(self.pc % 1024, found)
                &&& self.steps_with(found, after, failed)
            }
    }

    /// Whether a step in which the program counter's position was read as
    /// `found` may take the machine from `self` to `after` and end well, or
    /// fail with `failed`.
    pub open spec fn steps_with(
        self,
        found: Result<Option<Instruction>, C::Error>,
        after: Self,
        failed: Option<RunError<I::Error, C::Error>>,
    ) -> bool {
        match found {
            Err(error) => {
                &&& failed == Some(RunError::<I::Error, C::Error>::CodeError(error))
                &&& after.code == self.code
                &&& after.io == self.io
                &&& after@ == Cpu { pc: self.pc % 1024, ..self@ }
            },
            Ok(found) => {
                exists|middle: Self|
                    {
                        &&& middle.code == self.code
                        &&& middle.io == self.io
                        &&& middle@ == self@.fetched()
                        &&& #[trigger] middle.executes(found_or_nop(found), after, failed)
                    }
            },
        }
    }

    /// What register `reg` reads as.
    pub fn register(&self, reg: u8) -> (value: u8)
        requires
            reg < 16,
        ensures
            value == self@.reg(reg),
    {
        if reg == 0 {
            0
        } else {
            self.registers[reg as usize - 1]
        }
    }

    /// Writes `val` to register `reg`; register 0 keeps no value.
    pub fn write_register(&mut self, reg: u8, val: u8)
        requires
            reg < 16,
        ensures
            final(self)@ == old(self)@.with_reg(reg, val),
            final(self).io == old(self).io,
            final(self).code == old(self).code,
    {
        if reg != 0 {
            self.registers[reg as usize - 1] = val;
        }
    }

    /// Writes an arithmetic result to register `reg` and sets the flags.
    pub fn write_register_and_flags(&mut self, reg: u8, value: u8, carry: bool)
        requires
            reg < 16,
        ensures
            final(self)@ == old(self)@.with_result(reg, value, carry),
            final(self).io == old(self).io,
            final(self).code == old(self).code,
    {
        self.flags.carry = carry;
        self.flags.zero = value == 0;
        self.write_register(reg, value);
    }

    /// The address that register `reg` and `offset` reach.
    pub fn resolve_offset(&self, reg: u8, offset: i8) -> (addr: u8)
        requires
            reg < 16,
        ensures
            addr == self@.address(reg, offset),
    {
        let sum: i16 = self.register(reg) as i16 + offset as i16;
        if sum < 0 {
            (sum + 256) as u8
        } else if sum > 255 {
            (sum - 256) as u8
        } else {
            sum as u8
        }
    }

    /// Writes `value` to the address `addr`: to memory below 240, to the
    /// devices from there on.
    pub fn write_memory(&mut self, addr: u8, value: u8) -> (result: Result<
        (),
        RunError<I::Error, C::Error>,
    >)
        ensures
            final(self).code == old(self).code,
            addr < RAM_SIZE ==> {
                &&& result is Ok
                &&& final(self)@ == old(self)@.stored(addr, value)
                &&& final(self).io == old(self).io
            },
            addr >= RAM_SIZE ==> {
                &&& final(self)@ == old(self)@
                &&& exists|io_failed: Option<I::Error>|
                    {
                        &&& #[trigger] old(self).io.write_step(
                            addr,
                            value,
                            &final(self).io,
                            io_failed,
                        )
                        &&& failure(result) == io_failure::<I::Error, C::Error>(io_failed)
                    }
            },
    {
        if addr < RAM_SIZE {
            self.memory[addr as usize] = value;
            Ok(())
        } else {
            let out = self.io.write_addr(addr, value);
            assert(old(self).io.write_step(addr, value, &self.io, failure(out)));
            self.finish_write(out)
        }
    }

    /// How a write to the devices ends, from what the devices handed back.
    pub fn finish_write(&self, out: Result<(), I::Error>) -> (result: Result<
        (),
        RunError<I::Error, C::Error>,
    >)
        ensures
            failure(result) == io_failure::<I::Error, C::Error>(failure(out)),
    {
        match out {
            Ok(()) => Ok(()),
            Err(error) => Err(RunError::IOError(error)),
        }
    }

    /// Reads the address `addr`: memory below 240, the devices from there
    /// on.
    pub fn read_memory(&mut self, addr: u8) -> (result: Result<u8, RunError<I::Error, C::Error>>)
        ensures
            final(self).code == old(self).code,
            final(self)@ == old(self)@,
            addr < RAM_SIZE ==> {
                &&& result == Ok::<u8, RunError<I::Error, C::Error>>(old(self)@.memory[addr as int])
                &&& final(self).io == old(self).io
            },
            addr >= RAM_SIZE ==> exists|out: Result<u8, I::Error>|
                {
                    &&& #[trigger] old(self).io.read_step(addr, &final(self).io, out)
                    &&& result == match out {
                        Ok(data) => Ok::<u8, RunError<I::Error, C::Error>>(data),
                        Err(error) => Err(RunError::IOError(error)),
                    }
                },
    {
        if addr < RAM_SIZE {
            Ok(self.memory[addr as usize])
        } else {
            let out = self.io.read_addr(addr);
            assert(old(self).io.read_step(addr, &self.io, out));
            match out {
                Ok(data) => Ok(data),
                Err(error) => Err(RunError::IOError(error)),
            }
        }
    }

    /// Ends a `LOD` into register `reg` with what reading its address gave:
    /// the byte goes to the register, an error of the devices ends the
    /// step.
    pub fn finish_load(&mut self, reg: u8, read: Result<u8, RunError<I::Error, C::Error>>) -> (result:
        Result<(), RunError<I::Error, C::Error>>)
        requires
            reg < 16,
        ensures
            final(self).code == old(self).code,
            final(self).io == old(self).io,
            failure(result) == failure(read),
            final(self)@ == match read {
                Ok(data) => old(self)@.with_reg(reg, data),
                Err(_) => old(self)@,
            },
    {
        match read {
            Ok(data) => {
                self.write_register(reg, data);
                Ok(())
            },
            Err(error) => Err(error),
        }
    }

    /// Executes one instruction.
    pub fn execute_instruction(&mut self, instruction: Instruction) -> (result: Result<
        (),
        RunError<I::Error, C::Error>,
    >)
        requires
            instruction.wf(),
        ensures
            old(self).executes(instruction, *final(self), failure(result)),
    {
        match instruction {
            Instruction::NOP => {},
            Instruction::HLT => {
                self.halted = true;
            },
            Instruction::ADD { a, b, c } => {
                let sum: u16 = self.register(a) as u16 + self.register(b) as u16;
                self.write_register_and_flags(c, (sum % 256) as u8, sum > 255);
            },
            Instruction::SUB { a, b, c } => {
                let left = self.register(a);
                let right = self.register(b);
                if left >= right {
                    self.write_register_and_flags(c, left - right, true);
                } else {
                    self.write_register_and_flags(
                        c,
                        (left as u16 + 256 - right as u16) as u8,
                        false,
                    );
                }
            },
            Instruction::NOR { a, b, c } => {
                let value = !(self.register(a) | self.register(b));
                self.write_register_and_flags(c, value, false);
            },
            Instruction::AND { a, b, c } => {
                let value = self.register(a) & self.register(b);
                self.write_register_and_flags(c, value, false);
            },
            Instruction::XOR { a, b, c } => {
                let value = self.register(a) ^ self.register(b);
                self.write_register_and_flags(c, value, false);
            },
            Instruction::RSH { a, c } => {
                let value = self.register(a);
                assert(value >> 1u8 == value / 2) by (bit_vector);
                self.write_register(c, value >> 1u8);
            },
            Instruction::LDI { a, imm } => {
                self.write_register(a, imm);
            },
            Instruction::ADI { a, imm } => {
                let sum: u16 = imm as u16 + self.register(a) as u16;
                self.write_register_and_flags(a, (sum % 256) as u8, sum > 255);
            },
            Instruction::JMP { addr } => {
                self.pc = addr;
            },
            Instruction::BRH { cond, addr } => {
                let taken = match cond {
                    Cond::Zero => self.flags.zero,
                    Cond::NotZero => !self.flags.zero,
                    Cond::Carry => self.flags.carry,
                    Cond::NotCarry => !self.flags.carry,
                };
                if taken {
                    self.pc = addr;
                }
            },
            Instruction::CAL { addr } => {
                self.push_return();
                self.pc = addr;
            },
            Instruction::RET => {
                self.pc = self.call_stack[0];
                self.pop_return();
            },
            Instruction::LOD { a, b, offset } => {
                let addr = self.resolve_offset(a, offset);
                let read = self.read_memory(addr);
                let ghost read_io = self.io;
                let result = self.finish_load(b, read);
                proof {
                    if addr >= RAM_SIZE {
                        let out = choose|out: Result<u8, I::Error>|
                            {
                                &&& #[trigger] old(self).io.read_step(addr, &read_io, out)
                                &&& read == match out {
                                    Ok(data) => Ok::<u8, RunError<I::Error, C::Error>>(data),
                                    Err(error) => Err(RunError::IOError(error)),
                                }
                            };
                        assert(old(self).io.read_step(old(self)@.address(a, offset), &self.io, out));
                    }
                }
                return result;
            },
            Instruction::STR { a, b, offset } => {
                let addr = self.resolve_offset(a, offset);
                let value = self.register(b);
                return self.write_memory(addr, value);
            },
        }
        Ok(())
    }

    /// Moves every return address one place down and puts the program
    /// counter first.
    fn push_return(&mut self)
        ensures
            final(self)@ == (Cpu {
                call_stack: pushed(old(self)@.call_stack, old(self).pc),
                ..old(self)@
            }),
            final(self).io == old(self).io,
            final(self).code == old(self).code,
    {
        let mut at: usize = 15;
        while at > 0
            invariant
                at <= 15,
                self.io == old(self).io,
                self.code == old(self).code,
                self@ == (Cpu { call_stack: self@.call_stack, ..old(self)@ }),
                self@.call_stack.len() == 16,
                forall|i: int| 0 <= i <= at ==> self@.call_stack[i] == old(self)@.call_stack[i],
                forall|i: int| at < i < 16 ==> self@.call_stack[i] == old(self)@.call_stack[i - 1],
            decreases at,
        {
            self.call_stack[at] = self.call_stack[at - 1];
            at = at - 1;
        }
        self.call_stack[0] = self.pc;
        assert(self@.call_stack =~= pushed(old(self)@.call_stack, old(self).pc));
    }

    /// Moves every return address one place up and puts 0 last.
    fn pop_return(&mut self)
        ensures
            final(self)@ == (Cpu { call_stack: popped(old(self)@.call_stack), ..old(self)@ }),
            final(self).io == old(self).io,
            final(self).code == old(self).code,
    {
        let mut at: usize = 0;
        while at < 15
            invariant
                at <= 15,
                self.io == old(self).io,
                self.code == old(self).code,
                self@ == (Cpu { call_stack: self@.call_stack, ..old(self)@ }),
                self@.call_stack.len() == 16,
                forall|i: int| at <= i < 16 ==> self@.call_stack[i] == old(self)@.call_stack[i],
                forall|i: int| 0 <= i < at ==> self@.call_stack[i] == old(self)@.call_stack[i + 1],
            decreases 15 - at,
        {
            self.call_stack[at] = self.call_stack[at + 1];
            at = at + 1;
        }
        self.call_stack[15] = 0;
        assert(self@.call_stack =~= popped(old(self)@.call_stack));
    }
}

impl<C: Code, I: RawIO> BatPU2<C, I> {
    /// Whether `count` steps, none of which fails and none of which begins
    /// in a halted machine, may take the machine from `self` to `after`.
    pub open spec fn runs(self, count: nat, after: Self) -> bool
        decreases count,
    {
        if count == 0 {
            after == self
        } else {
            &&& !self.halted
            &&& exists|next: Self|
                {
                    &&& #[trigger] self.steps(next, None)
                    &&& next.runs((count - 1) as nat, after)
                }
        }
    }

    /// Whether neither the program nor the devices ever fail.
    pub open spec fn never_fails(&self) -> bool {
        &&& forall|pc: u16, found: Result<Option<Instruction>, C::Error>| #[trigger]
            self.code.fetches(pc, found) ==> found is Ok
        &&& forall|io: I, addr: u8, after: I, out: Result<u8, I::Error>| #[trigger]
            io.read_step(addr, &after, out) ==> out is Ok
        &&& forall|io: I, addr: u8, value: u8, after: I, failed: Option<I::Error>| #[trigger]
            io.write_step(addr, value, &after, failed) ==> failed is None
    }

    /// Whatever an instruction other than `CAL` and `RET` does, and whether
    /// it reaches the devices or not, it leaves the call stack as it was.
    pub proof fn lemma_executes_keeps_stack(
        self,
        instruction: Instruction,
        after: Self,
        failed: Option<RunError<I::Error, C::Error>>,
    )
        requires
            self.executes(instruction, after, failed),
            !(instruction is CAL),
            !(instruction is RET),
        ensures
            after@.call_stack == self@.call_stack,
    {
    }

    /// A run is still a run with one more step at its end.
    pub proof fn lemma_runs_on(self, count: nat, middle: Self, after: Self)
        requires
            self.runs(count, middle),
            !middle.halted,
            middle.steps(after, None),
        ensures
            self.runs(count + 1, after),
        decreases count,
    {
        if count == 0 {
            assert(after.runs(0, after));
            assert(self.steps(after, None));
        } else {
            let next = choose|next: Self|
                {
                    &&& #[trigger] self.steps(next, None)
                    &&& next.runs((count - 1) as nat, middle)
                };
            next.lemma_runs_on((count - 1) as nat, middle, after);
            assert(self.steps(next, None));
        }
    }

    /// A run keeps the program.
    pub proof fn lemma_runs_keep(self, count: nat, after: Self)
        requires
            self.runs(count, after),
        ensures
            after.code == self.code,
        decreases count,
    {
        if count > 0 {
            let next = choose|next: Self|
                {
                    &&& #[trigger] self.steps(next, None)
                    &&& next.runs((count - 1) as nat, after)
                };
            next.lemma_runs_keep((count - 1) as nat, after);
        }
    }

    /// A step of a machine that never fails does not fail.
    pub proof fn lemma_step_succeeds(
        self,
        after: Self,
        failed: Option<RunError<I::Error, C::Error>>,
    )
        requires
            self.never_fails(),
            self.steps(after, failed),
        ensures
            failed is None,
    {
    }

    /// Takes one step: reads the instruction at the program counter and
    /// executes it.
    pub fn try_step(&mut self) -> (result: Result<(), RunError<I::Error, C::Error>>)
        requires
            old(self).code_wf(),
        ensures
            old(self).steps(*final(self), failure(result)),
    {
        self.pc = self.pc % 1024;
        let found = self.code.instruction(self.pc);
        let instruction = match found {
            Err(error) => {
                proof {
                    assert(self@ =~= Cpu { pc: old(self).pc % 1024, ..old(self)@ });
                    assert(old(self).code.fetches(old(self).pc % 1024, found));
                    assert(old(self).steps_with(
                        found,
                        *self,
                        Some(RunError::<I::Error, C::Error>::CodeError(error)),
                    ));
                }
                return Err(RunError::CodeError(error));
            },
            Ok(Some(instruction)) => instruction,
            Ok(None) => Instruction::NOP,
        };
        self.pc = self.pc + 1;
        let ghost middle = *self;
        let result = self.execute_instruction(instruction);
        proof {
            assert(old(self).code.fetches(old(self).pc % 1024, found));
            assert(middle@ =~= old(self)@.fetched());
            assert(middle.executes(instruction, *self, failure(result)));
            assert(old(self).steps_with(found, *self, failure(result)));
        }
        result
    }

    /// Takes steps until the machine has halted or `limit` steps are taken
    /// or a step fails. It hands back the number of steps taken.
    pub fn try_step_multiple(&mut self, limit: usize) -> (result: Result<
        usize,
        RunError<I::Error, C::Error>,
    >)
        requires
            old(self).code_wf(),
        ensures
            match result {
                Ok(count) => {
                    &&& count <= limit
                    &&& old(self).runs(count as nat, *final(self))
                    &&& count < limit ==> final(self).halted
                },
                Err(error) => exists|count: nat, last: Self|
                    {
                        &&& count < limit
                        &&& #[trigger] old(self).runs(count, last)
                        &&& !last.halted
                        &&& last.steps(*final(self), Some(error))
                    },
            },
    {
        let mut count: usize = 0;
        while count < limit
            invariant
                count <= limit,
                self.code == old(self).code,
                old(self).code_wf(),
                old(self).runs(count as nat, *self),
            decreases limit - count,
        {
            if self.halted {
                return Ok(count);
            }
            let ghost last = *self;
            match self.try_step() {
                Ok(_) => {
                    proof {
                        old(self).lemma_runs_on(count as nat, last, *self);
                    }
                },
                Err(error) => {
                    assert(old(self).runs(count as nat, last));
                    return Err(error);
                },
            }
            count = count + 1;
        }
        Ok(limit)
    }
}

impl<C: Code<Error = Infallible>, I: RawIO<Error = Infallible>> BatPU2<C, I> {
    /// Takes one step of a machine whose program and devices never fail.
    pub fn step(&mut self)
        requires
            old(self).code_wf(),
            old(self).never_fails(),
        ensures
            old(self).steps(*final(self), None),
    {
        let ghost before = *self;
        let result = self.try_step();
        proof {
            before.lemma_step_succeeds(*self, failure(result));
        }
    }

    /// Takes steps until the machine has halted or `limit` steps are
    /// taken, and hands back the number of steps taken.
    pub fn step_multiple(&mut self, limit: usize) -> (count: usize)
        requires
            old(self).code_wf(),
            old(self).never_fails(),
        ensures
            count <= limit,
            old(self).runs(count as nat, *final(self)),
            count < limit ==> final(self).halted,
    {
        let ghost before = *self;
        match self.try_step_multiple(limit) {
            Ok(count) => count,
            Err(error) => {
                proof {
                    let (count, last) = choose|count: nat, last: Self|
                        {
                            &&& count < limit
                            &&& #[trigger] before.runs(count, last)
                            &&& !last.halted
                            &&& last.steps(*self, Some(error))
                        };
                    before.lemma_runs_keep(count, last);
                    last.lemma_step_succeeds(*self, Some(error));
                }
                limit
            },
        }
    }
}

/// A machine with the devices that it comes with never fails where its
/// program never does.
pub proof fn lemma_devices_never_fail<C: Code>(vm: BatPU2<C, EmbeddedIO>)
    requires
        forall|pc: u16, found: Result<Option<Instruction>, C::Error>| #[trigger]
            vm.code.fetches(pc, found) ==> found is Ok,
    ensures
        vm.never_fails(),
{
}

/// A program of words never fails, and each of its instructions is well
/// formed.
pub proof fn lemma_words_run<I: RawIO>(vm: BatPU2<Vec<Word>, I>)
    ensures
        vm.code_wf(),
        forall|pc: u16, found: Result<Option<Instruction>, Infallible>| #[trigger]
            vm.code.fetches(pc, found) ==> found is Ok,
{
    assert forall|pc: u16, instruction: Instruction| #[trigger]
        vm.code.fetches(
            pc,
            Ok::<Option<Instruction>, Infallible>(Some(instruction)),
        ) implies instruction.wf() by {
        crate::isa::laws::lemma_encode_decode(vm.code@[pc as int]);
    }
}

} // verus!
