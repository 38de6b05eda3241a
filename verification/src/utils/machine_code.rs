use crate::isa::{Instruction, Word};
use crate::text::{
    find_line_end, lemma_ascii_boundary, lemma_line_end, line_end, line_stop, push_char, slice,
};
use vstd::arithmetic::power2::{
    lemma2_to64, lemma_pow2_strictly_increases, lemma_pow2_unfold, pow2,
};
use vstd::prelude::*;
use vstd::string::StringSliceAdditionalSpecFns;
use vstd::utf8::{encode_utf8, encode_utf8_valid_utf8};

verus! {

/// A line of machine code that is not sixteen binary digits.
#[derive(Debug)]
pub struct FromMcError {
    pub line_number: usize,
    pub line: String,
}

impl FromMcError {
    /// The number of the line, counted from 0.
    pub fn line_number(&self) -> (line_number: usize)
        ensures
            line_number == self.line_number,
    {
        self.line_number
    }

    /// The text of the line.
    pub fn line(&self) -> (line: &str)
        ensures
            line@ == self.line@,
    {
        self.line.as_str()
    }
}

/// The number that binary digits stand for, the first digit being the
/// highest.
pub open spec fn bits_value(digits: Seq<u8>) -> int
    decreases digits.len(),
{
    if digits.len() == 0 {
        0
    } else {
        2 * bits_value(digits.drop_last()) + (digits.last() - 0x30)
    }
}

/// Whether a line of machine code is one word: sixteen characters, each
/// `0` or `1`.
pub open spec fn is_word_line(line: Seq<u8>) -> bool {
    &&& line.len() == 16
    &&& forall|i: int| 0 <= i < 16 ==> #[trigger] line[i] == 0x30 || line[i] == 0x31
}

/// The lines of the text from `from` on that are not empty, each with its
/// number, where the line at `from` has the number `number`, and with the
/// positions at which its text begins and ends.
pub open spec fn mc_lines(code: Seq<u8>, from: int, number: int) -> Seq<(int, int, int)>
    decreases code.len() - from,
{
    if 0 <= from < code.len() && from <= line_end(code, from) {
        let rest = if line_end(code, from) < code.len() {
            mc_lines(code, line_end(code, from) + 1, number + 1)
        } else {
            Seq::empty()
        };
        if line_stop(code, from) == from {
            rest
        } else {
            seq![(number, from, line_stop(code, from))] + rest
        }
    } else {
        Seq::empty()
    }
}

/// Whether `result` is what loading the machine code `code` gives, where
/// `lines` are its lines: the instructions of all lines, or the first line
/// that is no word.
pub open spec fn loaded(
    result: Result<Vec<Instruction>, FromMcError>,
    code: Seq<u8>,
    lines: Seq<(int, int, int)>,
) -> bool {
    match result {
        Ok(program) => {
            &&& program@.len() == lines.len()
            &&& forall|i: int|
                0 <= i < lines.len() ==> {
                    &&& is_word_line(#[trigger] code.subrange(lines[i].1, lines[i].2))
                    &&& program@[i] == Instruction::decoded(
                        bits_value(code.subrange(lines[i].1, lines[i].2)) as Word,
                    )
                }
        },
        Err(error) => exists|bad: int|
            {
                &&& 0 <= bad < lines.len()
                &&& !is_word_line(#[trigger] code.subrange(lines[bad].1, lines[bad].2))
                &&& forall|i: int|
                    0 <= i < bad ==> is_word_line(#[trigger] code.subrange(lines[i].1, lines[i].2))
                &&& error.line_number == lines[bad].0
                &&& encode_utf8(error.line@) == code.subrange(lines[bad].1, lines[bad].2)
            },
    }
}

/// The word that a line of sixteen binary digits stands for, or nothing
/// where the line is anything else.
pub fn parse_word(line: &[u8]) -> (word: Option<Word>)
    ensures
        word is Some <==> is_word_line(line@),
        word matches Some(value) ==> value == bits_value(line@),
{
    if line.len() != 16 {
        return None;
    }
    let mut value: u32 = 0;
    let mut at: usize = 0;
    proof {
        lemma2_to64();
    }
    while at < 16
        invariant
            at <= 16,
            line@.len() == 16,
            value == bits_value(line@.subrange(0, at as int)),
            value < pow2(at as nat),
            forall|i: int| 0 <= i < at ==> #[trigger] line@[i] == 0x30 || line@[i] == 0x31,
        decreases 16 - at,
    {
        let digit = line[at];
        if digit != 0x30 && digit != 0x31 {
            return None;
        }
        proof {
            assert(line@.subrange(0, at + 1).drop_last() == line@.subrange(0, at as int));
            lemma_pow2_unfold((at + 1) as nat);
            lemma2_to64();
            lemma_pow2_strictly_increases(at as nat, 16);
        }
        value = 2 * value + (digit - 0x30) as u32;
        at = at + 1;
    }
    proof {
        assert(line@.subrange(0, 16) == line@);
        lemma2_to64();
    }
    Some(value as Word)
}

/// Loads a program from machine code: one word of sixteen binary digits on
/// each line, the highest bit first. Empty lines are counted and left out.
pub fn from_mc(code: &str) -> (result: Result<Vec<Instruction>, FromMcError>)
    ensures
        loaded(result, code.spec_bytes(), mc_lines(code.spec_bytes(), 0, 0)),
{
    let bytes = code.as_bytes();
    let mut program: Vec<Instruction> = Vec::new();
    let mut from: usize = 0;
    let mut number: usize = 0;
    let ghost all = mc_lines(bytes@, 0, 0);
    while from < bytes.len()
        invariant
            bytes@ == code.spec_bytes(),
            from <= bytes@.len(),
            from < bytes@.len() ==> number <= from,
            from == 0 || bytes@[from - 1] < 0x80,
            all == mc_lines(bytes@, 0, 0),
            program@.len() <= all.len(),
            all.skip(program@.len() as int) == mc_lines(bytes@, from as int, number as int),
            forall|i: int|
                0 <= i < program@.len() ==> {
                    &&& is_word_line(#[trigger] bytes@.subrange(all[i].1, all[i].2))
                    &&& program@[i] == Instruction::decoded(
                        bits_value(bytes@.subrange(all[i].1, all[i].2)) as Word,
                    )
                },
        decreases bytes@.len() - from,
    {
        let end = find_line_end(bytes, from);
        let stop = if end > from && bytes[end - 1] == 0x0D {
            end - 1
        } else {
            end
        };
        proof {
            lemma_line_end(bytes@, from as int);
            encode_utf8_valid_utf8(code@);
            lemma_ascii_boundary(bytes@, from as int);
            lemma_ascii_boundary(bytes@, stop as int);
        }
        let ghost rest = if end < bytes@.len() {
            mc_lines(bytes@, end as int + 1, number as int + 1)
        } else {
            Seq::empty()
        };
        if stop > from {
            let line = slice(code, from, stop);
            proof {
                let here = mc_lines(bytes@, from as int, number as int);
                assert(here == seq![(number as int, from as int, stop as int)] + rest);
                assert(here.skip(1) == rest);
                assert(all.skip(program@.len() as int)[0] == all[program@.len() as int]);
                assert(all.skip(program@.len() as int).skip(1) == all.skip(
                    program@.len() as int + 1,
                ));
            }
            match parse_word(line.as_bytes()) {
                Some(word) => {
                    program.push(Instruction::from_word(word));
                },
                None => {
                    let error = FromMcError { line_number: number, line: line.to_owned() };
                    proof {
                        let bad = program@.len() as int;
                        assert(!is_word_line(bytes@.subrange(all[bad].1, all[bad].2)));
                    }
                    return Err(error);
                },
            }
        }
        if end < bytes.len() {
            from = end + 1;
            if from < bytes.len() {
                number = number + 1;
            }
        } else {
            from = end;
        }
    }
    proof {
        assert(mc_lines(bytes@, from as int, number as int).len() == 0);
        assert(all.skip(program@.len() as int).len() == 0);
    }
    Ok(program)
}

/// The character of binary digit number `index` of a word, the highest
/// digit being number 0.
pub open spec fn bit_char(word: Word, index: int) -> char {
    if (word as int / pow2((15 - index) as nat) as int) % 2 == 1 {
        '1'
    } else {
        '0'
    }
}

/// A word as a line of machine code: sixteen binary digits and a line
/// feed.
pub open spec fn word_line(word: Word) -> Seq<char> {
    Seq::new(16, |i: int| bit_char(word, i)).push('\n')
}

/// The machine code of the first `count` instructions.
pub open spec fn mc_text(program: Seq<Instruction>, count: int) -> Seq<char>
    decreases count,
{
    if 0 < count <= program.len() {
        mc_text(program, count - 1) + word_line(program[count - 1].encoded())
    } else {
        Seq::empty()
    }
}

/// Adds a word to the end of `text` as a line of machine code.
fn push_word(text: &mut String, word: Word)
    ensures
        final(text)@ == old(text)@ + word_line(word),
{
    let mut divisor: u16 = 0x8000;
    let mut at: usize = 0;
    proof {
        lemma2_to64();
    }
    while at < 16
        invariant
            at <= 16,
            at < 16 ==> divisor == pow2((15 - at) as nat),
            at < 16 ==> divisor >= 1,
            text@ == old(text)@ + Seq::new(at as nat, |i: int| bit_char(word, i)),
        decreases 16 - at,
    {
        let digit = if (word / divisor) % 2 == 1 {
            '1'
        } else {
            '0'
        };
        proof {
            assert(digit == bit_char(word, at as int));
            if at < 15 {
                lemma_pow2_unfold((15 - at) as nat);
            }
            assert(Seq::new((at + 1) as nat, |i: int| bit_char(word, i)) == Seq::new(
                at as nat,
                |i: int| bit_char(word, i),
            ).push(bit_char(word, at as int)));
        }
        push_char(text, digit);
        divisor = divisor / 2;
        at = at + 1;
    }
    push_char(text, '\n');
}

/// Writes a program as machine code: one line of sixteen binary digits for
/// each instruction, the highest bit first, each line ended by a line feed.
pub fn into_mc(instructions: &[Instruction]) -> (text: String)
    ensures
        text@ == mc_text(instructions@, instructions@.len() as int),
{
    let mut text = String::new();
    let mut at: usize = 0;
    while at < instructions.len()
        invariant
            at <= instructions@.len(),
            text@ == mc_text(instructions@, at as int),
        decreases instructions@.len() - at,
    {
        push_word(&mut text, instructions[at].as_word());
        at = at + 1;
    }
    text
}

} // verus!
