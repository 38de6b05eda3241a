//! What holds of the processor in every state.

use super::{popped, pushed, Cpu, RAM_SIZE};
use crate::isa::Instruction;
use vstd::prelude::*;

verus! {

/// Register 0 reads as 0, and a write to it changes nothing.
pub proof fn lemma_register_zero(cpu: Cpu, value: u8, carry: bool)
    ensures
        cpu.reg(0) == 0,
        cpu.with_reg(0, value) == cpu,
        cpu.with_result(0, value, carry).registers == cpu.registers,
{
}

/// A register other than 0 reads as what was written to it last, and a
/// write to it leaves the other registers as they were.
pub proof fn lemma_register_written(cpu: Cpu, reg: u8, value: u8, other: u8)
    requires
        cpu.wf(),
        0 < reg < 16,
        other < 16,
    ensures
        cpu.with_reg(reg, value).reg(reg) == value,
        other != reg ==> cpu.with_reg(reg, value).reg(other) == cpu.reg(other),
        cpu.with_reg(reg, value).wf(),
{
}

/// No instruction changes what register 0 reads as.
pub proof fn lemma_zero_stays(cpu: Cpu, instruction: Instruction)
    ensures
        cpu.executed(instruction).reg(0) == 0,
{
}

/// `ADD` sets the carry flag exactly where the sum does not fit in a byte,
/// and the zero flag exactly where the byte that it writes is 0.
pub proof fn lemma_add_flags(cpu: Cpu, a: u8, b: u8, c: u8)
    requires
        cpu.wf(),
        0 < c < 16,
    ensures
        cpu.executed(Instruction::ADD { a, b, c }).carry == (cpu.reg(a) + cpu.reg(b) >= 256),
        cpu.executed(Instruction::ADD { a, b, c }).reg(c) == (cpu.reg(a) + cpu.reg(b)) % 256,
        cpu.executed(Instruction::ADD { a, b, c }).zero == ((cpu.reg(a) + cpu.reg(b)) % 256 == 0),
{
}

/// `SUB` sets the carry flag exactly where nothing is borrowed: where the
/// first register is not below the second.
pub proof fn lemma_sub_flags(cpu: Cpu, a: u8, b: u8, c: u8)
    requires
        cpu.wf(),
        0 < c < 16,
    ensures
        cpu.executed(Instruction::SUB { a, b, c }).carry == (cpu.reg(a) >= cpu.reg(b)),
        cpu.reg(a) < cpu.reg(b) ==> !cpu.executed(Instruction::SUB { a, b, c }).carry,
        cpu.executed(Instruction::SUB { a, b, c }).reg(c) == (cpu.reg(a) - cpu.reg(b)) % 256,
        cpu.executed(Instruction::SUB { a, b, c }).zero == (cpu.reg(a) == cpu.reg(b)),
{
}

/// Only `CAL` and `RET` change the call stack.
pub proof fn lemma_stack_kept(cpu: Cpu, instruction: Instruction)
    requires
        !(instruction is CAL),
        !(instruction is RET),
    ensures
        cpu.executed(instruction).call_stack == cpu.call_stack,
{
}

/// A `RET` goes back to where the program counter stood when the last
/// `CAL` was executed, which is at the instruction after that `CAL`,
/// whatever was executed in between that left the call stack alone.
pub proof fn lemma_call_return(cpu: Cpu, addr: u16, later: Cpu)
    requires
        cpu.wf(),
        later.call_stack == cpu.executed(Instruction::CAL { addr }).call_stack,
    ensures
        later.executed(Instruction::RET).pc == cpu.pc,
        cpu.executed(Instruction::CAL { addr }).pc == addr,
        cpu.executed(Instruction::CAL { addr }).executed(Instruction::RET).pc == cpu.pc,
{
}

/// The call stack after calls that return to the addresses `targets`, the
/// first of them made first.
pub open spec fn pushed_all(stack: Seq<u16>, targets: Seq<u16>) -> Seq<u16>
    decreases targets.len(),
{
    if targets.len() == 0 {
        stack
    } else {
        pushed(pushed_all(stack, targets.drop_last()), targets.last())
    }
}

/// After any number of calls the call stack holds the return addresses of
/// the last sixteen, the newest first, and below them what it held before.
pub proof fn lemma_pushed_all(stack: Seq<u16>, targets: Seq<u16>)
    requires
        stack.len() == 16,
    ensures
        pushed_all(stack, targets).len() == 16,
        forall|i: int|
            0 <= i < 16 ==> #[trigger] pushed_all(stack, targets)[i] == if i < targets.len() {
                targets[targets.len() - 1 - i]
            } else {
                stack[i - targets.len()]
            },
    decreases targets.len(),
{
    if targets.len() > 0 {
        lemma_pushed_all(stack, targets.drop_last());
    }
}

/// Seventeen calls in a row lose the first return address: the call stack
/// holds the other sixteen, whatever the first was.
pub proof fn lemma_seventeenth_call(stack: Seq<u16>, targets: Seq<u16>)
    requires
        stack.len() == 16,
        targets.len() == 17,
    ensures
        pushed_all(stack, targets) == Seq::new(16, |i: int| targets[16 - i]),
        forall|first: u16| #[trigger]
            pushed_all(stack, targets.update(0, first)) == pushed_all(stack, targets),
{
    lemma_pushed_all(stack, targets);
    assert(pushed_all(stack, targets) =~= Seq::new(16, |i: int| targets[16 - i]));
    assert forall|first: u16| #[trigger]
        pushed_all(stack, targets.update(0, first)) == pushed_all(stack, targets) by {
        lemma_pushed_all(stack, targets.update(0, first));
        assert(pushed_all(stack, targets.update(0, first)) =~= pushed_all(stack, targets));
    }
}

/// A return after which nothing is left to return to goes to 0: they
/// empty the call stack from the top, and the places that they free hold 0.
pub proof fn lemma_popped(stack: Seq<u16>)
    requires
        stack.len() == 16,
    ensures
        popped(stack).len() == 16,
        popped(stack)[15] == 0,
        forall|i: int| 0 <= i < 15 ==> #[trigger] popped(stack)[i] == stack[i + 1],
        popped(pushed(stack, 0))[15] == 0,
        forall|pc: u16, i: int| 0 <= i < 15 ==> #[trigger] popped(pushed(stack, pc))[i] == stack[i],
{
}

/// A byte that `STR` stores at an address below 240 is the byte that `LOD`
/// loads from that address, and a store to one address leaves the bytes at
/// the others as they were.
pub proof fn lemma_store_load(cpu: Cpu, a: u8, b: u8, offset: i8, to: u8, other: u8)
    requires
        cpu.wf(),
        cpu.address(a, offset) < RAM_SIZE,
        0 < to < 16,
        other < RAM_SIZE,
    ensures
        cpu.executed(Instruction::STR { a, b, offset }).executed(
            Instruction::LOD { a, b: to, offset },
        ).reg(to) == cpu.reg(b),
        cpu.executed(Instruction::STR { a, b, offset }).memory[cpu.address(a, offset) as int]
            == cpu.reg(b),
        other != cpu.address(a, offset) ==> cpu.executed(
            Instruction::STR { a, b, offset },
        ).memory[other as int] == cpu.memory[other as int],
        cpu.executed(Instruction::STR { a, b, offset }).registers == cpu.registers,
{
}

} // verus!
