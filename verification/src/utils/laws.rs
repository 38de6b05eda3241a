//! What holds of every program that is written as machine code.

use super::machine_code::{
    bit_char, bits_value, is_word_line, loaded, mc_lines, mc_text, word_line, FromMcError,
};
use crate::isa::laws::lemma_decode_encode;
use crate::isa::{Instruction, Word};
use crate::text::{line_end, line_stop};
use vstd::arithmetic::div_mod::lemma_div_denominator;
use vstd::arithmetic::power2::{lemma2_to64, lemma_pow2_pos, lemma_pow2_unfold, pow2};
use vstd::prelude::*;
use vstd::utf8::{encode_utf8, is_ascii_chars, is_ascii_chars_encode_utf8};

verus! {

/// The bytes of the machine code of a program.
pub open spec fn mc_bytes(program: Seq<Instruction>) -> Seq<u8> {
    encode_utf8(mc_text(program, program.len() as int))
}

/// The machine code of `count` instructions is `count` lines of seventeen
/// characters: the sixteen digits of an instruction's word and a line
/// feed.
proof fn lemma_mc_text_shape(program: Seq<Instruction>, count: int)
    requires
        0 <= count <= program.len(),
    ensures
        mc_text(program, count).len() == 17 * count,
        forall|k: int, i: int|
            0 <= k < count && 0 <= i < 16 ==> #[trigger] mc_text(program, count)[17 * k + i]
                == bit_char(program[k].encoded(), i),
        forall|k: int| 0 <= k < count ==> #[trigger] mc_text(program, count)[17 * k + 16] == '\n',
    decreases count,
{
    if count > 0 {
        lemma_mc_text_shape(program, count - 1);
        let before = mc_text(program, count - 1);
        let line = word_line(program[count - 1].encoded());
        let all = mc_text(program, count);
        assert(all == before + line);
        assert(line.len() == 17);
        assert forall|k: int, i: int| 0 <= k < count && 0 <= i < 16 implies #[trigger] all[17 * k
            + i] == bit_char(program[k].encoded(), i) by {
            if k < count - 1 {
                assert(all[17 * k + i] == before[17 * k + i]);
            } else {
                assert(all[17 * k + i] == line[i]);
            }
        }
        assert forall|k: int| 0 <= k < count implies #[trigger] all[17 * k + 16] == '\n' by {
            if k < count - 1 {
                assert(all[17 * k + 16] == before[17 * k + 16]);
            } else {
                assert(all[17 * k + 16] == line[16]);
            }
        }
    }
}

/// The bytes of the machine code of a program, one by one.
proof fn lemma_mc_bytes(program: Seq<Instruction>)
    ensures
        mc_bytes(program).len() == 17 * program.len(),
        forall|k: int, i: int|
            0 <= k < program.len() && 0 <= i < 16 ==> #[trigger] mc_bytes(program)[17 * k + i] == (
            if bit_char(program[k].encoded(), i) == '1' {
                0x31u8
            } else {
                0x30u8
            }),
        forall|k: int| 0 <= k < program.len() ==> #[trigger] mc_bytes(program)[17 * k + 16] == 0x0A,
{
    let text = mc_text(program, program.len() as int);
    lemma_mc_text_shape(program, program.len() as int);
    assert forall|j: int| 0 <= j < text.len() implies '\0' <= #[trigger] text[j] <= '\u{7f}' by {
        let k = j / 17;
        let i = j % 17;
        if i < 16 {
            assert(text[17 * k + i] == bit_char(program[k].encoded(), i));
        } else {
            assert(text[17 * k + 16] == '\n');
        }
    }
    assert(is_ascii_chars(text));
    is_ascii_chars_encode_utf8(text);
    assert forall|k: int, i: int| 0 <= k < program.len() && 0 <= i < 16 implies #[trigger] mc_bytes(
        program,
    )[17 * k + i] == (if bit_char(program[k].encoded(), i) == '1' {
        0x31u8
    } else {
        0x30u8
    }) by {
        assert(text[17 * k + i] == bit_char(program[k].encoded(), i));
        assert(text[17 * k + i] as u8 == mc_bytes(program)[17 * k + i]);
    }
    assert forall|k: int| 0 <= k < program.len() implies #[trigger] mc_bytes(program)[17 * k + 16]
        == 0x0A by {
        assert(text[17 * k + 16] == '\n');
        assert(text[17 * k + 16] as u8 == mc_bytes(program)[17 * k + 16]);
    }
}

/// A line of machine code ends at its line feed.
proof fn lemma_mc_line_end(code: Seq<u8>, start: int, from: int)
    requires
        0 <= start <= from <= start + 16 < code.len(),
        forall|i: int| start <= i < start + 16 ==> code[i] == 0x30 || code[i] == 0x31,
        code[start + 16] == 0x0A,
    ensures
        line_end(code, from) == start + 16,
    decreases start + 16 - from,
{
    if from < start + 16 {
        lemma_mc_line_end(code, start, from + 1);
    }
}

/// The lines of the machine code of a program: one for each instruction.
proof fn lemma_mc_lines(program: Seq<Instruction>, from: int)
    requires
        0 <= from <= program.len(),
    ensures
        mc_lines(mc_bytes(program), 17 * from, from) == Seq::new(
            (program.len() - from) as nat,
            |i: int| (from + i, 17 * (from + i), 17 * (from + i) + 16),
        ),
    decreases program.len() - from,
{
    let code = mc_bytes(program);
    let expected = Seq::new(
        (program.len() - from) as nat,
        |i: int| (from + i, 17 * (from + i), 17 * (from + i) + 16),
    );
    lemma_mc_bytes(program);
    if from < program.len() {
        let start = 17 * from;
        assert forall|i: int| start <= i < start + 16 implies code[i] == 0x30 || code[i]
            == 0x31 by {
            assert(code[17 * from + (i - start)] == 0x30 || code[17 * from + (i - start)] == 0x31);
        }
        assert(code[17 * from + 16] == 0x0A);
        lemma_mc_line_end(code, start, start);
        assert(code[17 * from + 15] == 0x30 || code[17 * from + 15] == 0x31);
        assert(line_stop(code, start) == start + 16);
        lemma_mc_lines(program, from + 1);
        let rest = if start + 16 < code.len() {
            mc_lines(code, start + 17, from + 1)
        } else {
            Seq::empty()
        };
        assert(rest == mc_lines(code, 17 * (from + 1), from + 1));
        assert(mc_lines(code, start, from) == seq![(from, start, start + 16)] + rest);
        assert(mc_lines(code, start, from) =~= expected);
    } else {
        assert(mc_lines(code, 17 * from, from) =~= expected);
    }
}

/// The first `count` digits of a word stand for the word without its other
/// digits.
proof fn lemma_bits_value(digits: Seq<u8>, word: Word, count: int)
    requires
        digits.len() == 16,
        0 <= count <= 16,
        forall|i: int|
            0 <= i < 16 ==> #[trigger] digits[i] == (if bit_char(word, i) == '1' {
                0x31u8
            } else {
                0x30u8
            }),
    ensures
        bits_value(digits.subrange(0, count)) == word as int / pow2((16 - count) as nat) as int,
    decreases count,
{
    lemma2_to64();
    let part = digits.subrange(0, count);
    if count == 0 {
        assert(part.len() == 0);
        assert(word as int / 0x10000 == 0);
    } else {
        lemma_bits_value(digits, word, count - 1);
        assert(part.drop_last() == digits.subrange(0, count - 1));
        assert(part.last() == digits[count - 1]);
        let low = pow2((16 - count) as nat) as int;
        lemma_pow2_pos((16 - count) as nat);
        lemma_pow2_unfold((16 - count + 1) as nat);
        lemma_div_denominator(word as int, low, 2);
        assert(pow2((16 - count + 1) as nat) == low * 2) by (nonlinear_arith)
            requires
                pow2((16 - count + 1) as nat) == 2 * low,
        ;
        assert(15 - (count - 1) == 16 - count);
    }
}

/// The machine code of a program loads as the program: loading what
/// `into_mc` wrote gives back every well-formed instruction.
pub proof fn lemma_mc_round_trip(
    program: Seq<Instruction>,
    result: Result<Vec<Instruction>, FromMcError>,
)
    requires
        forall|i: int| 0 <= i < program.len() ==> (#[trigger] program[i]).wf(),
        loaded(result, mc_bytes(program), mc_lines(mc_bytes(program), 0, 0)),
    ensures
        result matches Ok(read) && read@ == program,
{
    let code = mc_bytes(program);
    let lines = mc_lines(code, 0, 0);
    lemma_mc_bytes(program);
    lemma_mc_lines(program, 0);
    assert(lines.len() == program.len());
    assert forall|k: int| 0 <= k < program.len() implies is_word_line(
        #[trigger] code.subrange(lines[k].1, lines[k].2),
    ) && bits_value(code.subrange(lines[k].1, lines[k].2)) == program[k].encoded() by {
        let line = code.subrange(lines[k].1, lines[k].2);
        assert(lines[k] == (k, 17 * k, 17 * k + 16));
        assert forall|i: int| 0 <= i < 16 implies #[trigger] line[i] == (if bit_char(
            program[k].encoded(),
            i,
        ) == '1' {
            0x31u8
        } else {
            0x30u8
        }) by {
            assert(line[i] == code[17 * k + i]);
        }
        lemma_bits_value(line, program[k].encoded(), 16);
        assert(line.subrange(0, 16) == line);
        lemma2_to64();
    }
    match result {
        Ok(read) => {
            assert forall|k: int| 0 <= k < program.len() implies read@[k] == program[k] by {
                let line = code.subrange(lines[k].1, lines[k].2);
                assert(is_word_line(line));
                lemma_decode_encode(program[k]);
            }
            assert(read@ =~= program);
        },
        Err(error) => {
            let bad = choose|bad: int|
                0 <= bad < lines.len() && !is_word_line(
                    #[trigger] code.subrange(lines[bad].1, lines[bad].2),
                );
            assert(is_word_line(code.subrange(lines[bad].1, lines[bad].2)));
        },
    }
}

} // verus!
