//! What holds of the encoding for every instruction and every word.

use super::common::{Cond, Operand, Word};
use super::fields::Field;
use super::instruction::{lowered_mnemonic, lowered_operands, Instruction};
use super::mnemonic::Mnemonic;
use vstd::prelude::*;

verus! {

/// The bits of a word that the instruction with the given opcode uses: the
/// opcode's and those of its operand fields.
pub open spec fn used_bits(opcode: int) -> Word {
    match Mnemonic::of_opcode(opcode) {
        Some(Mnemonic::NOP) | Some(Mnemonic::HLT) | Some(Mnemonic::RET) => 0xF000,
        Some(Mnemonic::RSH) => 0xFF0F,
        Some(Mnemonic::JMP) | Some(Mnemonic::CAL) => 0xF3FF,
        _ => 0xFFFF,
    }
}

/// The fields of a word put together from an opcode and three nibbles.
proof fn lemma_read_abc(opcode: int, a: int, b: int, c: int)
    requires
        0 <= opcode < 16,
        0 <= a < 16,
        0 <= b < 16,
        0 <= c < 16,
    ensures
        ({
            let sum = opcode * 4096 + a * 256 + b * 16 + c;
            let word = sum as Word;
            &&& word == sum
            &&& Field::Opcode.value_in(word) == opcode
            &&& Field::A.value_in(word) == a
            &&& Field::B.value_in(word) == b
            &&& Field::C.value_in(word) == c
            &&& Field::Offset.value_in(word) == if c >= 8 {
                c - 16
            } else {
                c
            }
        }),
{
    let word = (opcode * 4096 + a * 256 + b * 16 + c) as Word;
    lemma_digits(word, opcode as Word, a as Word, b as Word, c as Word);
}

/// The digits of a number are found again by dividing.
proof fn lemma_digits(word: Word, high: Word, a: Word, b: Word, c: Word)
    by (bit_vector)
    requires
        high < 16,
        a < 16,
        b < 16,
        c < 16,
        word == high * 4096 + a * 256 + b * 16 + c,
    ensures
        word / 4096 == high,
        (word / 256) % 16 == a,
        (word / 16) % 16 == b,
        word % 16 == c,
{
}

proof fn lemma_digits_imm(word: Word, high: Word, a: Word, imm: Word)
    by (bit_vector)
    requires
        high < 16,
        a < 16,
        imm < 256,
        word == high * 4096 + a * 256 + imm,
    ensures
        word / 4096 == high,
        (word / 256) % 16 == a,
        word % 256 == imm,
{
}

proof fn lemma_digits_addr(word: Word, high: Word, cond: Word, addr: Word)
    by (bit_vector)
    requires
        high < 16,
        cond < 4,
        addr < 1024,
        word == high * 4096 + cond * 1024 + addr,
    ensures
        word / 4096 == high,
        (word / 1024) % 4 == cond,
        word % 1024 == addr,
{
}

/// The fields of a word put together from an opcode, a nibble and a byte.
proof fn lemma_read_a_imm(opcode: int, a: int, imm: int)
    requires
        0 <= opcode < 16,
        0 <= a < 16,
        0 <= imm < 256,
    ensures
        ({
            let sum = opcode * 4096 + a * 256 + imm;
            let word = sum as Word;
            &&& word == sum
            &&& Field::Opcode.value_in(word) == opcode
            &&& Field::A.value_in(word) == a
            &&& Field::Imm.value_in(word) == imm
        }),
{
    let word = (opcode * 4096 + a * 256 + imm) as Word;
    lemma_digits_imm(word, opcode as Word, a as Word, imm as Word);
}

/// The fields of a word put together from an opcode, a condition and an
/// address.
proof fn lemma_read_cond_addr(opcode: int, cond: int, addr: int)
    requires
        0 <= opcode < 16,
        0 <= cond < 4,
        0 <= addr < 1024,
    ensures
        ({
            let sum = opcode * 4096 + cond * 1024 + addr;
            let word = sum as Word;
            &&& word == sum
            &&& Field::Opcode.value_in(word) == opcode
            &&& Field::Cond.value_in(word) == cond
            &&& Field::Addr.value_in(word) == addr
        }),
{
    let word = (opcode * 4096 + cond * 1024 + addr) as Word;
    lemma_digits_addr(word, opcode as Word, cond as Word, addr as Word);
}

/// What a field holds of a number that is in its range.
proof fn lemma_placed_in_range(a: u8, imm: u8, addr: u16, cond: Cond, offset: i8)
    ensures
        a < 16 ==> Field::A.placed(a as int) == a * 256,
        a < 16 ==> Field::B.placed(a as int) == a * 16,
        a < 16 ==> Field::C.placed(a as int) == a,
        Field::Imm.placed(imm as int) == imm,
        addr < 1024 ==> Field::Addr.placed(addr as int) == addr,
        Field::Cond.placed(cond.code()) == cond.code() * 1024,
        0 <= offset < 8 ==> Field::Offset.placed(offset as int) == offset,
        -8 <= offset < 0 ==> Field::Offset.placed(offset as int) == offset + 16,
{
}

/// Decoding the word of a well-formed instruction gives the instruction
/// back.
pub proof fn lemma_decode_encode(instruction: Instruction)
    requires
        instruction.wf(),
    ensures
        Instruction::decoded(instruction.encoded()) == instruction,
{
    match instruction {
        Instruction::ADD { a, b, c }
        | Instruction::SUB { a, b, c }
        | Instruction::NOR { a, b, c }
        | Instruction::AND { a, b, c }
        | Instruction::XOR { a, b, c } => {
            lemma_placed_in_range(a, 0, 0, Cond::Zero, 0);
            lemma_placed_in_range(b, 0, 0, Cond::Zero, 0);
            lemma_placed_in_range(c, 0, 0, Cond::Zero, 0);
        },
        Instruction::RSH { a, c } => {
            lemma_placed_in_range(a, 0, 0, Cond::Zero, 0);
            lemma_placed_in_range(c, 0, 0, Cond::Zero, 0);
        },
        Instruction::LDI { a, imm } | Instruction::ADI { a, imm } => {
            lemma_placed_in_range(a, imm, 0, Cond::Zero, 0);
        },
        Instruction::JMP { addr } | Instruction::CAL { addr } => {
            lemma_placed_in_range(0, 0, addr, Cond::Zero, 0);
        },
        Instruction::BRH { cond, addr } => {
            lemma_placed_in_range(0, 0, addr, cond, 0);
        },
        Instruction::LOD { a, b, offset } | Instruction::STR { a, b, offset } => {
            lemma_placed_in_range(a, 0, 0, Cond::Zero, offset);
            lemma_placed_in_range(b, 0, 0, Cond::Zero, 0);
        },
        _ => {},
    }
    match instruction {
        Instruction::NOP => {
            lemma_read_abc(0, 0, 0, 0);
        },
        Instruction::HLT => {
            lemma_read_abc(1, 0, 0, 0);
        },
        Instruction::ADD { a, b, c } => {
            lemma_read_abc(2, a as int, b as int, c as int);
        },
        Instruction::SUB { a, b, c } => {
            lemma_read_abc(3, a as int, b as int, c as int);
        },
        Instruction::NOR { a, b, c } => {
            lemma_read_abc(4, a as int, b as int, c as int);
        },
        Instruction::AND { a, b, c } => {
            lemma_read_abc(5, a as int, b as int, c as int);
        },
        Instruction::XOR { a, b, c } => {
            lemma_read_abc(6, a as int, b as int, c as int);
        },
        Instruction::RSH { a, c } => {
            lemma_read_abc(7, a as int, 0, c as int);
        },
        Instruction::LDI { a, imm } => {
            lemma_read_a_imm(8, a as int, imm as int);
        },
        Instruction::ADI { a, imm } => {
            lemma_read_a_imm(9, a as int, imm as int);
        },
        Instruction::JMP { addr } => {
            lemma_read_cond_addr(10, 0, addr as int);
        },
        Instruction::BRH { cond, addr } => {
            lemma_read_cond_addr(11, cond.code(), addr as int);
            assert(Cond::of_code(cond.code()) == cond);
        },
        Instruction::CAL { addr } => {
            lemma_read_cond_addr(12, 0, addr as int);
        },
        Instruction::RET => {
            lemma_read_abc(13, 0, 0, 0);
        },
        Instruction::LOD { a, b, offset } => {
            lemma_read_abc(14, a as int, b as int, if offset < 0 {
                offset + 16
            } else {
                offset as int
            });
        },
        Instruction::STR { a, b, offset } => {
            lemma_read_abc(15, a as int, b as int, if offset < 0 {
                offset + 16
            } else {
                offset as int
            });
        },
    }
}

/// A word is the sum of its fields, in each of the layouts of the table.
proof fn lemma_keep_bits(word: Word)
    by (bit_vector)
    ensures
        word & 0xF000 == (word / 4096) * 4096,
        word & 0xFF0F == (word / 4096) * 4096 + ((word / 256) % 16) * 256 + word % 16,
        word & 0xF3FF == (word / 4096) * 4096 + word % 1024,
        word & 0xFFFF == word,
        word / 4096 < 16,
        word == (word / 4096) * 4096 + ((word / 256) % 16) * 256 + ((word / 16) % 16) * 16 + word
            % 16,
        word == (word / 4096) * 4096 + ((word / 256) % 16) * 256 + word % 256,
        word == (word / 4096) * 4096 + ((word / 1024) % 4) * 1024 + word % 1024,
{
}

/// What a field holds of the number that it was read as.
proof fn lemma_placed_of_read(word: Word)
    ensures
        Field::Opcode.value_in(word) == word / 4096,
        Field::A.placed(Field::A.value_in(word)) == ((word / 256) % 16) * 256,
        Field::B.placed(Field::B.value_in(word)) == ((word / 16) % 16) * 16,
        Field::C.placed(Field::C.value_in(word)) == word % 16,
        Field::Imm.placed(Field::Imm.value_in(word)) == word % 256,
        Field::Addr.placed(Field::Addr.value_in(word)) == word % 1024,
        Field::Cond.placed(Field::Cond.value_in(word)) == ((word / 1024) % 4) * 1024,
        Field::Offset.placed(Field::Offset.value_in(word)) == word % 16,
        Cond::of_code(Field::Cond.value_in(word)).code() == Field::Cond.value_in(word),
        0 <= Field::A.value_in(word) < 16,
        0 <= Field::B.value_in(word) < 16,
        0 <= Field::C.value_in(word) < 16,
        0 <= Field::Imm.value_in(word) < 256,
        0 <= Field::Addr.value_in(word) < 1024,
        -8 <= Field::Offset.value_in(word) < 8,
{
}

/// Encoding the instruction of a word gives the word back on the bits that
/// the instruction uses, and zeros on the others.
pub proof fn lemma_encode_decode(word: Word)
    ensures
        Instruction::decoded(word).encoded() == word & used_bits(word as int / 4096),
        Instruction::decoded(word).wf(),
{
    lemma_keep_bits(word);
    lemma_placed_of_read(word);
    let opcode = word as int / 4096;
    let instruction = Instruction::decoded(word);
    assert(Mnemonic::of_opcode(opcode) == Some(instruction.mnemonic()));
    match instruction {
        Instruction::NOP => {},
        Instruction::HLT => {},
        Instruction::ADD { a, b, c } => {
            assert(instruction.encoded() == word);
        },
        Instruction::SUB { a, b, c } => {
            assert(instruction.encoded() == word);
        },
        Instruction::NOR { a, b, c } => {
            assert(instruction.encoded() == word);
        },
        Instruction::AND { a, b, c } => {
            assert(instruction.encoded() == word);
        },
        Instruction::XOR { a, b, c } => {
            assert(instruction.encoded() == word);
        },
        Instruction::RSH { a, c } => {
            assert(instruction.encoded() == word & 0xFF0F);
        },
        Instruction::LDI { a, imm } => {
            assert(instruction.encoded() == word);
        },
        Instruction::ADI { a, imm } => {
            assert(instruction.encoded() == word);
        },
        Instruction::JMP { addr } => {
            assert(instruction.encoded() == word & 0xF3FF);
        },
        Instruction::BRH { cond, addr } => {
            assert(cond.code() == Field::Cond.value_in(word));
            assert(instruction.encoded() == word);
        },
        Instruction::CAL { addr } => {
            assert(instruction.encoded() == word & 0xF3FF);
        },
        Instruction::RET => {},
        Instruction::LOD { a, b, offset } => {
            assert(instruction.encoded() == word);
        },
        Instruction::STR { a, b, offset } => {
            assert(instruction.encoded() == word);
        },
    }
}

/// An alias with operands that it accepts is the instruction that it stands
/// for, with the operands that the alias fixes filled in; and that
/// instruction accepts them.
pub proof fn lemma_alias_is_lowered(alias: Mnemonic, operands: Seq<Operand>)
    requires
        alias.accepts(operands),
    ensures
        lowered_mnemonic(alias).accepts(lowered_operands(alias, operands)),
        !lowered_mnemonic(alias).is_alias(),
        Instruction::built(alias, operands) == Instruction::built(
            lowered_mnemonic(alias),
            lowered_operands(alias, operands),
        ),
{
    let fields = alias.operand_fields();
    if fields.len() > 0 {
        assert(fields[0].accepts(operands[0]));
    }
    if fields.len() > 1 {
        assert(fields[1].accepts(operands[1]));
    }
    if fields.len() > 2 {
        assert(fields[2].accepts(operands[2]));
    }
    let target = lowered_mnemonic(alias);
    let lowered = lowered_operands(alias, operands);
    assert forall|i: int| 0 <= i < lowered.len() implies (#[trigger] target.operand_fields()[i]).accepts(
        lowered[i],
    ) by {
        if i == 0 {
        } else if i == 1 {
        } else {
        }
    }
}

/// No instruction that was built or decoded jumps, branches or calls to an
/// address of 1024 or more.
pub proof fn lemma_target_in_code_space(instruction: Instruction)
    requires
        instruction.wf(),
    ensures
        instruction matches Instruction::JMP { addr } ==> addr < 1024,
        instruction matches Instruction::BRH { addr, .. } ==> addr < 1024,
        instruction matches Instruction::CAL { addr } ==> addr < 1024,
{
}

/// An address of 1024 or more is no operand of `JMP`, `BRH` or `CAL`.
pub proof fn lemma_far_target_refused(mnemonic: Mnemonic, operands: Seq<Operand>, index: int)
    requires
        0 <= index < operands.len(),
        operands.len() == mnemonic.arity(),
        mnemonic.operand_fields()[index] == Field::Addr,
        operands[index] >= 1024,
    ensures
        !mnemonic.accepts(operands),
{
    if mnemonic.accepts(operands) {
        assert(mnemonic.operand_fields()[index].accepts(operands[index]));
    }
}

/// An instruction built from operands that its mnemonic accepts is well
/// formed.
pub proof fn lemma_built_wf(mnemonic: Mnemonic, operands: Seq<Operand>)
    requires
        mnemonic.accepts(operands),
    ensures
        Instruction::built(mnemonic, operands).wf(),
{
    let fields = mnemonic.operand_fields();
    if fields.len() > 0 {
        assert(fields[0].accepts(operands[0]));
    }
    if fields.len() > 1 {
        assert(fields[1].accepts(operands[1]));
    }
    if fields.len() > 2 {
        assert(fields[2].accepts(operands[2]));
    }
}

} // verus!
