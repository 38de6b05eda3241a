//! What holds of every assembly.

use super::assembler::{
    assembly, is_define, is_statement, label_name, pass1, resolved, Pass1, MAX_ERRORS,
};
use super::ast::{Line, Token};
use super::error::Fault;
use super::symbols::default_symbol;
use crate::isa::{Instruction, Operand, MAX_CODE_LEN};
use vstd::prelude::*;

verus! {

/// The number of lines among the first `count` that hold an instruction.
pub open spec fn statements(lines: Seq<Line>, count: int) -> int
    decreases count,
{
    if count <= 0 {
        0
    } else if is_statement(lines[count - 1]) {
        statements(lines, count - 1) + 1
    } else {
        statements(lines, count - 1)
    }
}

/// A `define` line counts as no instruction: it leaves the number of
/// instructions counted so far as it was.
pub proof fn lemma_define_keeps_count<'c>(state: Pass1<'c>, line: Line<'c>)
    requires
        is_define(line),
    ensures
        state.stated(line).pc == state.pc,
        state.defined(line).pc == state.pc,
        !is_statement(line),
{
}

/// As long as the first pass has not given up, it has counted the lines
/// that hold an instruction, and there are no more of them than the code
/// space holds.
pub proof fn lemma_pass1_counts<'c>(lines: Seq<Line<'c>>, count: int)
    requires
        0 <= count <= lines.len(),
        !pass1(lines, count).overflow,
    ensures
        0 <= pass1(lines, count).pc <= MAX_CODE_LEN,
        !pass1(lines, count).stopped() ==> pass1(lines, count).pc == statements(lines, count),
    decreases count,
{
    if count > 0 {
        let before = pass1(lines, count - 1);
        if before.stopped() {
            lemma_pass1_counts(lines, count - 1);
        } else {
            lemma_pass1_counts(lines, count - 1);
        }
    }
}

/// A label stands for the number of lines before it that hold an
/// instruction: lines with `define` are not counted.
pub proof fn lemma_label_value<'c>(lines: Seq<Line<'c>>, at: int)
    requires
        0 <= at < lines.len(),
        lines[at].label is Some,
        !pass1(lines, at).stopped(),
        statements(lines, at) < MAX_CODE_LEN,
    ensures
        pass1(lines, at).labelled(lines[at]).symbols.contains_key(label_name(lines[at].label->0)),
        pass1(lines, at).labelled(lines[at]).symbols[label_name(lines[at].label->0)]
            == statements(lines, at),
        !is_define(lines[at]) ==> {
            &&& pass1(lines, at + 1).symbols.contains_key(label_name(lines[at].label->0))
            &&& pass1(lines, at + 1).symbols[label_name(lines[at].label->0)] == statements(
                lines,
                at,
            )
        },
{
    lemma_pass1_counts(lines, at);
}

/// The first pass gives up no later than at the line that holds the first
/// instruction too many.
proof fn lemma_pass1_stops<'c>(lines: Seq<Line<'c>>, count: int)
    requires
        0 <= count <= lines.len(),
        statements(lines, count) > MAX_CODE_LEN,
    ensures
        pass1(lines, count).stopped(),
        pass1(lines, count).faults.len() > 0,
        pass1(lines, count).overflow ==> pass1(lines, count).faults.last()
            is TooManyInstructions,
        !pass1(lines, count).overflow ==> pass1(lines, count).faults.len() >= MAX_ERRORS,
    decreases count,
{
    let before = pass1(lines, count - 1);
    lemma_overflow_is_last(lines, count);
    if before.stopped() {
        lemma_overflow_is_last(lines, count - 1);
    } else {
        if before.overflow {
        } else {
            lemma_pass1_counts(lines, count - 1);
            if statements(lines, count - 1) > MAX_CODE_LEN {
                lemma_pass1_stops(lines, count - 1);
            }
        }
    }
}

/// Where the code space has run out, that is the last error of the first
/// pass.
proof fn lemma_overflow_is_last<'c>(lines: Seq<Line<'c>>, count: int)
    requires
        0 <= count <= lines.len(),
    ensures
        pass1(lines, count).overflow ==> pass1(lines, count).faults.len() > 0 && pass1(
            lines,
            count,
        ).faults.last() is TooManyInstructions,
    decreases count,
{
    if count > 0 {
        lemma_overflow_is_last(lines, count - 1);
    }
}

/// An assembly of more than 1024 instructions fails: it gives errors only,
/// and the last of them says that there are too many instructions, unless
/// a hundred other errors came before.
pub proof fn lemma_too_many_instructions<'c>(lines: Seq<Line<'c>>)
    requires
        statements(lines, lines.len() as int) > MAX_CODE_LEN,
    ensures
        assembly(lines).len() > 0,
        forall|i: int| 0 <= i < assembly(lines).len() ==> (#[trigger] assembly(lines)[i]) is Err,
        assembly(lines).len() < MAX_ERRORS ==> assembly(lines).last() matches Err(
            Fault::TooManyInstructions { .. },
        ),
{
    lemma_pass1_stops(lines, lines.len() as int);
}

/// Without anything that the program defines, a name stands for what it
/// stands for by default: the names of the registers, of the conditions, of
/// the ports and of the instructions are known to every program.
pub proof fn lemma_default_names(token: Token)
    ensures
        resolved(Map::<Seq<char>, Operand>::empty(), token, false) == default_symbol(token.span@),
{
}

/// What the program defines counts over what a name stands for by default,
/// and a literal counts over both.
pub proof fn lemma_defined_names(symbols: Map<Seq<char>, Operand>, token: Token)
    requires
        symbols.contains_key(token.span@),
    ensures
        resolved(symbols, token, false) == Some(symbols[token.span@]),
{
}

/// Every instruction that an assembly gives is well formed.
pub proof fn lemma_assembly_wf<'c>(lines: Seq<Line<'c>>, at: int)
    requires
        0 <= at < assembly(lines).len(),
        assembly(lines)[at] is Ok,
    ensures
        (assembly(lines)[at]->Ok_0).wf(),
{
    let first = pass1(lines, lines.len() as int);
    let errors = first.faults.map_values(|fault: Fault<'c>| Err::<Instruction, Fault<'c>>(fault));
    assert(at >= errors.len());
    lemma_pass2_wf(
        lines,
        first.symbols,
        first.faults.len() as int,
        lines.len() as int,
        at - errors.len(),
    );
}

proof fn lemma_pass2_wf<'c>(
    lines: Seq<Line<'c>>,
    symbols: Map<Seq<char>, Operand>,
    errors: int,
    count: int,
    at: int,
)
    requires
        0 <= at < super::assembler::pass2(lines, symbols, errors, count).results.len(),
        super::assembler::pass2(lines, symbols, errors, count).results[at] is Ok,
    ensures
        (super::assembler::pass2(lines, symbols, errors, count).results[at]->Ok_0).wf(),
    decreases count,
{
    if count > 0 {
        let before = super::assembler::pass2(lines, symbols, errors, count - 1);
        if at < before.results.len() {
            lemma_pass2_wf(lines, symbols, errors, count - 1, at);
        } else {
            lemma_emitted_wf(symbols, lines[count - 1]);
        }
    }
}

/// The instruction that a line is made into is well formed.
pub proof fn lemma_emitted_wf<'c>(symbols: Map<Seq<char>, Operand>, line: Line<'c>)
    ensures
        super::assembler::emitted(symbols, line) matches Ok(instruction) ==> instruction.wf(),
{
    let token = line.mnemonic->0;
    let operands = super::assembler::values(symbols, line.operands());
    match super::assembler::resolved_mnemonic(symbols, token) {
        Some(mnemonic) => {
            if super::assembler::emitted(symbols, line) is Ok {
                lemma_none_rejected(mnemonic, operands, 0);
                crate::isa::laws::lemma_built_wf(mnemonic, operands);
            }
        },
        None => {},
    }
}

/// Where no position is refused from `from` on, every operand from there
/// on is accepted.
proof fn lemma_none_rejected(mnemonic: crate::isa::Mnemonic, operands: Seq<Operand>, from: int)
    requires
        0 <= from <= operands.len(),
        super::assembler::least_rejected(mnemonic, operands, from) >= operands.len(),
    ensures
        forall|i: int|
            from <= i < operands.len() ==> (#[trigger] mnemonic.operand_fields()[i]).accepts(
                operands[i],
            ),
    decreases operands.len() - from,
{
    if from < operands.len() {
        lemma_none_rejected(mnemonic, operands, from + 1);
    }
}

} // verus!
