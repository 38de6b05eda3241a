use super::ast::{arg_tokens, args_at, args_clone, args_len, Line, Token};
use super::error::{AsmError, Fault};
use super::number::{literal, parse_int};
use super::parser::{is_quote, is_space};
use super::symbols::{default_symbol, default_symbols, Symbols};
use crate::isa::{Instruction, InstructionError, Mnemonic, Operand, MAX_CODE_LEN};
use crate::text::{after_first, str_eq};
use crate::utils::{code_of, Char};
use std::ops::RangeInclusive;
use vstd::prelude::*;
use vstd::string::StringSliceAdditionalSpecFns;

verus! {

/// The number of errors after which the assembler gives up.
pub const MAX_ERRORS: usize = 100;

/// The value of a token that is a character literal: a quote, one
/// character of the machine's set and the same quote again stand for the
/// character's code; a quote, whitespace and the same quote again stand for
/// the space.
pub open spec fn char_literal(token: Seq<u8>) -> Option<Operand> {
    if token.len() >= 3 && is_quote(token[0]) && token[token.len() - 1] == token[0] && forall|
        i: int,
    |
        1 <= i < token.len() - 1 ==> is_space(#[trigger] token[i]) {
        Some(0i16)
    } else if token.len() == 3 && is_quote(token[0]) && token[2] == token[0] {
        match code_of(token[1] as char) {
            Some(code) => Some(code as Operand),
            None => None,
        }
    } else {
        None
    }
}

/// The number that a token stands for. With `literal`, a character literal
/// stands for its character's code and an integer literal for its number.
/// Any other token, and every token without `literal`, stands for what the
/// program defined it as, or else for what it stands for by default.
pub open spec fn resolved(symbols: Map<Seq<char>, Operand>, token: Token, literal: bool) -> Option<
    Operand,
> {
    if literal && char_literal(token.span.spec_bytes()) is Some {
        char_literal(token.span.spec_bytes())
    } else if literal && self::literal(token.span.spec_bytes()) is Ok {
        Some(self::literal(token.span.spec_bytes())->Ok_0)
    } else if symbols.contains_key(token.span@) {
        Some(symbols[token.span@])
    } else {
        default_symbol(token.span@)
    }
}

/// The mnemonic that a token stands for: the instruction whose opcode the
/// token stands for as a name, or else the mnemonic that is written so.
pub open spec fn resolved_mnemonic(symbols: Map<Seq<char>, Operand>, token: Token) -> Option<
    Mnemonic,
> {
    let by_symbol = match resolved(symbols, token, false) {
        Some(opcode) => Mnemonic::of_opcode(opcode as int),
        None => None,
    };
    if by_symbol is Some {
        by_symbol
    } else {
        Mnemonic::named(token.span@)
    }
}

/// The first position from `from` on whose token stands for no number, or
/// the number of tokens where there is none.
pub open spec fn first_unresolved(
    symbols: Map<Seq<char>, Operand>,
    tokens: Seq<Token>,
    from: int,
) -> int
    decreases tokens.len() - from,
{
    if from < 0 || from >= tokens.len() {
        tokens.len() as int
    } else if resolved(symbols, tokens[from], true) is None {
        from
    } else {
        first_unresolved(symbols, tokens, from + 1)
    }
}

/// The numbers that the tokens stand for.
pub open spec fn values(symbols: Map<Seq<char>, Operand>, tokens: Seq<Token>) -> Seq<Operand> {
    Seq::new(tokens.len(), |i: int| resolved(symbols, tokens[i], true)->0)
}

/// The first position from `from` on whose operand the mnemonic's field
/// refuses, or the number of operands where there is none.
pub open spec fn least_rejected(mnemonic: Mnemonic, operands: Seq<Operand>, from: int) -> int
    decreases operands.len() - from,
{
    if from < 0 || from >= operands.len() {
        operands.len() as int
    } else if !mnemonic.operand_fields()[from].accepts(operands[from]) {
        from
    } else {
        least_rejected(mnemonic, operands, from + 1)
    }
}

/// Whether the line's mnemonic is `define`.
pub open spec fn is_define(line: Line) -> bool {
    line.mnemonic is Some && line.mnemonic->0.span@ == "define"@
}

/// Whether the line holds an instruction: whether it has a mnemonic other
/// than `define`.
pub open spec fn is_statement(line: Line) -> bool {
    line.mnemonic is Some && line.mnemonic->0.span@ != "define"@
}

/// The name that a label defines: the label without its leading `.`.
pub open spec fn label_name(label: Token) -> Seq<char> {
    if label.span.spec_bytes().len() > 0 && label.span.spec_bytes()[0] == 0x2E {
        label.span@.skip(1)
    } else {
        label.span@
    }
}

/// What the second pass makes of a line that holds an instruction: the
/// instruction, or what is wrong with the line. The mnemonic is looked up
/// first, then the operands from the first to the last, then their number is
/// held against the mnemonic, then each operand against its field.
pub open spec fn emitted<'c>(symbols: Map<Seq<char>, Operand>, line: Line<'c>) -> Result<
    Instruction,
    Fault<'c>,
> {
    let token = line.mnemonic->0;
    let tokens = line.operands();
    let operands = values(symbols, tokens);
    match resolved_mnemonic(symbols, token) {
        None => Err(Fault::UnknownMnemonic { line_number: line.line_number, token }),
        Some(mnemonic) => {
            if first_unresolved(symbols, tokens, 0) < tokens.len() {
                Err(
                    Fault::UnknownSymbol {
                        line_number: line.line_number,
                        token: tokens[first_unresolved(symbols, tokens, 0)],
                        literal: true,
                    },
                )
            } else if operands.len() != mnemonic.arity() {
                Err(
                    Fault::WrongOperandCount {
                        line_number: line.line_number,
                        expected: mnemonic.arity() as int,
                        mnemonic: token,
                        args: tokens,
                    },
                )
            } else if least_rejected(mnemonic, operands, 0) < operands.len() {
                let at = least_rejected(mnemonic, operands, 0);
                Err(
                    Fault::OperandOutOfRange {
                        line_number: line.line_number,
                        operand: at,
                        mnemonic: token,
                        name: mnemonic.operand_fields()[at].name(),
                        min: mnemonic.operand_fields()[at].min(),
                        max: mnemonic.operand_fields()[at].max(),
                        got: operands[at],
                        token: tokens[at],
                    },
                )
            } else {
                Ok(Instruction::built(mnemonic, operands))
            }
        },
    }
}

/// Where the first pass stands: the names defined so far, the number of
/// instructions counted so far, the errors found so far, and whether the
/// code space has run out.
pub struct Pass1<'c> {
    pub symbols: Map<Seq<char>, Operand>,
    pub pc: int,
    pub faults: Seq<Fault<'c>>,
    pub overflow: bool,
}

impl<'c> Pass1<'c> {
    /// Whether the assembler has given up.
    pub open spec fn stopped(self) -> bool {
        self.overflow || self.faults.len() >= MAX_ERRORS
    }

    /// The state with one more error.
    pub open spec fn failed(self, fault: Fault<'c>) -> Pass1<'c> {
        Pass1 { faults: self.faults.push(fault), ..self }
    }

    /// The state after the line's label: the label's name stands for the
    /// number of instructions before it. A label after the last instruction
    /// that the code space holds is an error.
    pub open spec fn labelled(self, line: Line<'c>) -> Pass1<'c> {
        match line.label {
            None => self,
            Some(label) => if self.pc >= MAX_CODE_LEN {
                Pass1 { overflow: true, ..self }.failed(
                    Fault::TooManyInstructions { line_number: line.line_number, token: label },
                )
            } else {
                Pass1 { symbols: self.symbols.insert(label_name(label), self.pc as Operand), ..self }
            },
        }
    }

    /// The state after the line's mnemonic and operands. `define` takes a
    /// name and an integer literal and lets the name stand for the number;
    /// it counts as no instruction. Any other mnemonic counts as one, and
    /// is an error where the code space is full.
    pub open spec fn stated(self, line: Line<'c>) -> Pass1<'c> {
        let tokens = line.operands();
        match line.mnemonic {
            None => self,
            Some(token) => if is_define(line) {
                if tokens.len() != 2 {
                    self.failed(
                        Fault::WrongOperandCount {
                            line_number: line.line_number,
                            expected: 2,
                            mnemonic: token,
                            args: tokens,
                        },
                    )
                } else {
                    match literal(tokens[1].span.spec_bytes()) {
                        Err(source) => self.failed(
                            Fault::IntParseError {
                                line_number: line.line_number,
                                token: tokens[1],
                                source,
                            },
                        ),
                        Ok(value) => Pass1 {
                            symbols: self.symbols.insert(tokens[0].span@, value),
                            ..self
                        },
                    }
                }
            } else if self.pc >= MAX_CODE_LEN {
                Pass1 { overflow: true, ..self }.failed(
                    Fault::TooManyInstructions { line_number: line.line_number, token },
                )
            } else {
                Pass1 { pc: self.pc + 1, ..self }
            },
        }
    }

    /// The state after a line: after its label and, unless the label was an
    /// error, after its mnemonic and operands.
    pub open spec fn defined(self, line: Line<'c>) -> Pass1<'c> {
        if self.labelled(line).faults.len() > self.faults.len() {
            self.labelled(line)
        } else {
            self.labelled(line).stated(line)
        }
    }
}

/// The first pass over the first `count` lines. It ends early where the
/// code space runs out or the hundredth error is found.
pub open spec fn pass1<'c>(lines: Seq<Line<'c>>, count: int) -> Pass1<'c>
    decreases count,
{
    if count <= 0 {
        Pass1 { symbols: Map::empty(), pc: 0, faults: Seq::empty(), overflow: false }
    } else if pass1(lines, count - 1).stopped() {
        pass1(lines, count - 1)
    } else {
        pass1(lines, count - 1).defined(lines[count - 1])
    }
}

/// Where the second pass stands: what it has made of the lines so far, and
/// the number of errors of both passes so far.
pub struct Pass2<'c> {
    pub results: Seq<Result<Instruction, Fault<'c>>>,
    pub errors: int,
}

/// The second pass over the first `count` lines, with the names that the
/// first pass defined and after the number of errors that it found. It ends
/// early where the hundredth error is found.
pub open spec fn pass2<'c>(
    lines: Seq<Line<'c>>,
    symbols: Map<Seq<char>, Operand>,
    errors: int,
    count: int,
) -> Pass2<'c>
    decreases count,
{
    if count <= 0 {
        Pass2 { results: Seq::empty(), errors }
    } else {
        let before = pass2(lines, symbols, errors, count - 1);
        let line = lines[count - 1];
        if before.errors >= MAX_ERRORS || !is_statement(line) {
            before
        } else {
            Pass2 {
                results: before.results.push(emitted(symbols, line)),
                errors: if emitted(symbols, line) is Err {
                    before.errors + 1
                } else {
                    before.errors
                },
            }
        }
    }
}

/// What assembling the lines gives: the errors of the first pass and then,
/// unless that gave up, what the second pass makes of each line that holds
/// an instruction.
pub open spec fn assembly<'c>(lines: Seq<Line<'c>>) -> Seq<Result<Instruction, Fault<'c>>> {
    let first = pass1(lines, lines.len() as int);
    let errors = first.faults.map_values(|fault: Fault<'c>| Err::<Instruction, Fault<'c>>(fault));
    if first.stopped() {
        errors
    } else {
        errors + pass2(lines, first.symbols, first.faults.len() as int, lines.len() as int).results
    }
}

/// A result of the assembler as plain values.
pub open spec fn outcome<'c>(result: Result<Instruction, AsmError<'c>>) -> Result<
    Instruction,
    Fault<'c>,
> {
    match result {
        Ok(instruction) => Ok(instruction),
        Err(error) => Err(error.fault()),
    }
}

/// Whether `results` are what assembling gives, as `expected` says.
pub open spec fn outcomes_are<'c>(
    results: Seq<Result<Instruction, AsmError<'c>>>,
    expected: Seq<Result<Instruction, Fault<'c>>>,
) -> bool {
    &&& results.len() == expected.len()
    &&& forall|i: int| 0 <= i < results.len() ==> outcome(#[trigger] results[i]) == expected[i]
}

fn byte_is_space(byte: u8) -> (space: bool)
    ensures
        space == is_space(byte),
{
    byte == 0x20 || byte == 0x09 || byte == 0x0A || byte == 0x0C || byte == 0x0D
}

/// The value of a token as a character literal.
pub fn parse_char_literal(token: &[u8]) -> (value: Option<Operand>)
    ensures
        value == char_literal(token@),
{
    let len = token.len();
    if len < 3 {
        return None;
    }
    let quote = token[0];
    if !(quote == 0x27 || quote == 0x22) || token[len - 1] != quote {
        return None;
    }
    let mut at: usize = 1;
    while at < len - 1 && byte_is_space(token[at])
        invariant
            1 <= at <= len - 1,
            len == token@.len(),
            forall|i: int| 1 <= i < at ==> is_space(#[trigger] token@[i]),
        decreases len - at,
    {
        at = at + 1;
    }
    if at == len - 1 {
        return Some(0);
    }
    assert(!is_space(token@[at as int]));
    if len != 3 {
        return None;
    }
    match Char::from_char(token[1] as char) {
        Ok(c) => Some(c.as_u8() as Operand),
        Err(_) => None,
    }
}

/// The number that a token stands for.
pub fn resolve_token<'c>(symbols: &Symbols<'c>, token: Token<'c>, literal: bool) -> (value: Option<
    Operand,
>)
    ensures
        value == resolved(symbols@, token, literal),
{
    if literal {
        match parse_char_literal(token.span.as_bytes()) {
            Some(code) => {
                return Some(code);
            },
            None => {},
        }
        match parse_int(token.span.as_bytes()) {
            Ok(value) => {
                return Some(value);
            },
            Err(_) => {},
        }
    }
    match symbols.get(token.span) {
        Some(value) => Some(value),
        None => default_symbols(token.span),
    }
}

/// The mnemonic that a token stands for.
pub fn resolve_mnemonic<'c>(symbols: &Symbols<'c>, token: Token<'c>) -> (mnemonic: Option<Mnemonic>)
    ensures
        mnemonic == resolved_mnemonic(symbols@, token),
{
    match resolve_token(symbols, token, false) {
        Some(opcode) => match Mnemonic::from_opcode(opcode) {
            Ok(mnemonic) => {
                return Some(mnemonic);
            },
            Err(_) => {},
        },
        None => {},
    }
    match Mnemonic::from_name(token.span) {
        Ok(mnemonic) => Some(mnemonic),
        Err(_) => None,
    }
}

/// The least position that a field refuses is the first that it refuses.
proof fn lemma_least_rejected(mnemonic: Mnemonic, operands: Seq<Operand>, from: int, at: int)
    requires
        0 <= from <= at,
        mnemonic.first_rejected(operands, at) || (at == operands.len() && forall|i: int|
            0 <= i < operands.len() ==> (#[trigger] mnemonic.operand_fields()[i]).accepts(
                operands[i],
            )),
    ensures
        least_rejected(mnemonic, operands, from) == at,
    decreases at - from,
{
    if from < at {
        assert(mnemonic.operand_fields()[from].accepts(operands[from]));
        lemma_least_rejected(mnemonic, operands, from + 1, at);
    }
}

/// Makes the instruction of a line whose mnemonic is `token`, or says what
/// is wrong with the line.
pub fn emit_line<'c>(symbols: &Symbols<'c>, line: &Line<'c>, token: Token<'c>) -> (result: Result<
    Instruction,
    AsmError<'c>,
>)
    requires
        line.mnemonic == Some(token),
    ensures
        outcome(result) == emitted(symbols@, *line),
        result matches Ok(instruction) ==> instruction.wf(),
        result matches Err(error) ==> error.wf(),
{
    let line_number = line.line_number;
    let mnemonic = match resolve_mnemonic(symbols, token) {
        Some(mnemonic) => mnemonic,
        None => {
            return Err(AsmError::UnknownMnemonic { line_number, token });
        },
    };
    let ghost tokens = line.operands();
    let count = args_len(&line.args);
    let mut operands: Vec<Operand> = Vec::new();
    let mut at: usize = 0;
    while at < count
        invariant
            at <= count,
            count == tokens.len(),
            tokens == arg_tokens(line.args),
            tokens == line.operands(),
            line.mnemonic == Some(token),
            line_number == line.line_number,
            resolved_mnemonic(symbols@, token) == Some(mnemonic),
            operands@.len() == at,
            first_unresolved(symbols@, tokens, at as int) == first_unresolved(symbols@, tokens, 0),
            forall|i: int|
                0 <= i < at ==> resolved(symbols@, tokens[i], true) == Some(#[trigger] operands@[i]),
        decreases count - at,
    {
        let operand = args_at(&line.args, at);
        match resolve_token(symbols, operand, true) {
            Some(value) => {
                operands.push(value);
            },
            None => {
                return Err(AsmError::UnknownSymbol { line_number, token: operand, literal: true });
            },
        }
        at = at + 1;
    }
    assert(operands@ =~= values(symbols@, tokens));
    match Instruction::new(mnemonic, operands.as_slice()) {
        Ok(instruction) => {
            proof {
                lemma_least_rejected(mnemonic, operands@, 0, operands@.len() as int);
            }
            Ok(instruction)
        },
        Err(InstructionError::WrongOperandCount { expected, .. }) => {
            Err(
                AsmError::WrongOperandCount {
                    line_number,
                    expected,
                    mnemonic: token,
                    args: args_clone(&line.args),
                },
            )
        },
        Err(InstructionError::OperandOutOfRange { operand, name, min, max, got }) => {
            proof {
                lemma_least_rejected(mnemonic, operands@, 0, operand as int);
            }
            Err(
                AsmError::OperandOutOfRange {
                    line_number,
                    mnemonic: token,
                    token: args_at(&line.args, operand),
                    operand,
                    name,
                    min,
                    max,
                    got,
                },
            )
        },
    }
}

/// The state of the first pass before a line, without the errors before it.
pub open spec fn fresh<'c>(symbols: Map<Seq<char>, Operand>, pc: int) -> Pass1<'c> {
    Pass1 { symbols, pc, faults: Seq::empty(), overflow: false }
}

/// What a line does to the first pass does not depend on the errors before
/// it: its own errors are added to them.
pub proof fn lemma_defined_after<'c>(state: Pass1<'c>, line: Line<'c>)
    requires
        !state.overflow,
    ensures
        state.defined(line).symbols == fresh::<'c>(state.symbols, state.pc).defined(line).symbols,
        state.defined(line).pc == fresh::<'c>(state.symbols, state.pc).defined(line).pc,
        state.defined(line).overflow == fresh::<'c>(state.symbols, state.pc).defined(
            line,
        ).overflow,
        state.defined(line).faults == state.faults + fresh::<'c>(state.symbols, state.pc).defined(
            line,
        ).faults,
        fresh::<'c>(state.symbols, state.pc).defined(line).faults.len() <= 1,
{
    let plain = fresh::<'c>(state.symbols, state.pc);
    assert(state.labelled(line).faults =~= state.faults + plain.labelled(line).faults);
    assert(state.labelled(line).stated(line).faults =~= state.faults + plain.labelled(
        line,
    ).stated(line).faults);
    assert(state.defined(line).faults =~= state.faults + plain.defined(line).faults);
}

/// The first pass over one line: defines the line's label and, where the
/// line is a `define`, its name, and counts the line where it holds an
/// instruction.
pub fn define_symbols<'c>(symbols: &mut Symbols<'c>, pc: &mut usize, line: &Line<'c>) -> (result:
    Result<(), AsmError<'c>>)
    requires
        *old(pc) <= MAX_CODE_LEN,
    ensures
        final(symbols)@ == fresh::<'c>(old(symbols)@, *old(pc) as int).defined(*line).symbols,
        *final(pc) == fresh::<'c>(old(symbols)@, *old(pc) as int).defined(*line).pc,
        *final(pc) <= MAX_CODE_LEN,
        match result {
            Ok(_) => {
                &&& fresh::<'c>(old(symbols)@, *old(pc) as int).defined(*line).faults.len() == 0
                &&& !fresh::<'c>(old(symbols)@, *old(pc) as int).defined(*line).overflow
            },
            Err(error) => {
                &&& error.wf()
                &&& fresh::<'c>(old(symbols)@, *old(pc) as int).defined(*line).faults
                    == seq![error.fault()]
                &&& fresh::<'c>(old(symbols)@, *old(pc) as int).defined(*line).overflow
                    == error is TooManyInstructions
            },
        },
{
    let line_number = line.line_number;
    let ghost before = fresh::<'c>(symbols@, *pc as int);
    match line.label {
        Some(label) => {
            if *pc >= MAX_CODE_LEN {
                assert(before.labelled(*line).faults =~= seq![
                    Fault::TooManyInstructions { line_number, token: label },
                ]);
                return Err(AsmError::TooManyInstructions { line_number, token: label });
            }
            let bytes = label.span.as_bytes();
            let name = if bytes.len() > 0 && bytes[0] == 0x2E {
                after_first(label.span)
            } else {
                label.span
            };
            symbols.insert(name, *pc as Operand);
        },
        None => {},
    }
    let ghost middle = before.labelled(*line);
    assert(middle.faults.len() == 0);
    assert(symbols@ == middle.symbols);
    match line.mnemonic {
        None => Ok(()),
        Some(token) => {
            if str_eq(token.span, "define") {
                if args_len(&line.args) != 2 {
                    let error = AsmError::WrongOperandCount {
                        line_number,
                        expected: RangeInclusive::new(2, 2),
                        mnemonic: token,
                        args: args_clone(&line.args),
                    };
                    assert(middle.stated(*line).faults =~= seq![error.fault()]);
                    return Err(error);
                }
                let key = args_at(&line.args, 0);
                let value = args_at(&line.args, 1);
                match parse_int(value.span.as_bytes()) {
                    Err(source) => {
                        let error = AsmError::IntParseError { line_number, token: value, source };
                        assert(middle.stated(*line).faults =~= seq![error.fault()]);
                        Err(error)
                    },
                    Ok(number) => {
                        symbols.insert(key.span, number);
                        Ok(())
                    },
                }
            } else if *pc >= MAX_CODE_LEN {
                let error = AsmError::TooManyInstructions { line_number, token };
                assert(middle.stated(*line).faults =~= seq![error.fault()]);
                Err(error)
            } else {
                *pc = *pc + 1;
                Ok(())
            }
        },
    }
}

/// Once the first pass has given up, more lines change nothing.
pub proof fn lemma_pass1_stays<'c>(lines: Seq<Line<'c>>, stopped_at: int, count: int)
    requires
        0 <= stopped_at <= count,
        pass1(lines, stopped_at).stopped(),
    ensures
        pass1(lines, count) == pass1(lines, stopped_at),
    decreases count - stopped_at,
{
    if stopped_at < count {
        lemma_pass1_stays(lines, stopped_at, count - 1);
    }
}

/// Once the second pass has given up, more lines change nothing.
pub proof fn lemma_pass2_stays<'c>(
    lines: Seq<Line<'c>>,
    symbols: Map<Seq<char>, Operand>,
    errors: int,
    stopped_at: int,
    count: int,
)
    requires
        0 <= stopped_at <= count,
        pass2(lines, symbols, errors, stopped_at).errors >= MAX_ERRORS,
    ensures
        pass2(lines, symbols, errors, count) == pass2(lines, symbols, errors, stopped_at),
    decreases count - stopped_at,
{
    if stopped_at < count {
        lemma_pass2_stays(lines, symbols, errors, stopped_at, count - 1);
    }
}

/// Assembles lexed lines. The first pass defines the labels and the names
/// of the `define` lines; the second makes an instruction of every other
/// line that has a mnemonic. The errors of the first pass come first.
/// Nothing follows the error that the code space has run out, nor the
/// hundredth error.
pub fn assemble<'c>(lines: &[Line<'c>]) -> (results: Vec<Result<Instruction, AsmError<'c>>>)
    ensures
        outcomes_are(results@, assembly(lines@)),
        forall|i: int|
            0 <= i < results@.len() ==> (#[trigger] results@[i] matches Ok(instruction)
                ==> instruction.wf()),
        forall|i: int|
            0 <= i < results@.len() ==> (#[trigger] results@[i] matches Err(error) ==> error.wf()),
{
    let mut results: Vec<Result<Instruction, AsmError<'c>>> = Vec::new();
    let mut symbols = Symbols::new();
    let mut pc: usize = 0;
    let mut errors: usize = 0;
    let mut overflow = false;
    let mut at: usize = 0;
    while at < lines.len() && !overflow && errors < MAX_ERRORS
        invariant
            at <= lines@.len(),
            pc <= MAX_CODE_LEN,
            errors <= MAX_ERRORS,
            symbols@ == pass1(lines@, at as int).symbols,
            pc == pass1(lines@, at as int).pc,
            overflow == pass1(lines@, at as int).overflow,
            errors == pass1(lines@, at as int).faults.len(),
            results@.len() == errors,
            forall|i: int|
                0 <= i < results@.len() ==> (#[trigger] results@[i] matches Err(error)
                    ==> error.wf()),
            forall|i: int|
                0 <= i < results@.len() ==> outcome(#[trigger] results@[i]) == Err::<
                    Instruction,
                    Fault<'c>,
                >(pass1(lines@, at as int).faults[i]),
        decreases lines@.len() - at,
    {
        let ghost state = pass1(lines@, at as int);
        proof {
            lemma_defined_after(state, lines@[at as int]);
        }
        match define_symbols(&mut symbols, &mut pc, &lines[at]) {
            Ok(_) => {},
            Err(error) => {
                overflow = match &error {
                    AsmError::TooManyInstructions { .. } => true,
                    _ => false,
                };
                errors = errors + 1;
                results.push(Err(error));
            },
        }
        at = at + 1;
    }
    let ghost first = pass1(lines@, lines@.len() as int);
    let ghost first_errors = first.faults.map_values(
        |fault: Fault<'c>| Err::<Instruction, Fault<'c>>(fault),
    );
    proof {
        if at < lines@.len() {
            lemma_pass1_stays(lines@, at as int, lines@.len() as int);
        }
        assert(outcomes_are(results@, first_errors));
    }
    if overflow || errors >= MAX_ERRORS {
        return results;
    }
    let first_count = errors;
    at = 0;
    while at < lines.len() && errors < MAX_ERRORS
        invariant
            at <= lines@.len(),
            errors <= MAX_ERRORS,
            first == pass1(lines@, lines@.len() as int),
            !first.stopped(),
            symbols@ == first.symbols,
            first_count == first.faults.len(),
            first_errors == first.faults.map_values(
                |fault: Fault<'c>| Err::<Instruction, Fault<'c>>(fault),
            ),
            errors == pass2(lines@, symbols@, first_count as int, at as int).errors,
            outcomes_are(
                results@,
                first_errors + pass2(lines@, symbols@, first_count as int, at as int).results,
            ),
            forall|i: int|
                0 <= i < results@.len() ==> (#[trigger] results@[i] matches Ok(instruction)
                    ==> instruction.wf()),
            forall|i: int|
                0 <= i < results@.len() ==> (#[trigger] results@[i] matches Err(error)
                    ==> error.wf()),
        decreases lines@.len() - at,
    {
        let line = &lines[at];
        let ghost before = pass2(lines@, symbols@, first_count as int, at as int);
        match line.mnemonic {
            Some(token) => {
                if !str_eq(token.span, "define") {
                    let result = emit_line(&symbols, line, token);
                    if result.is_err() {
                        errors = errors + 1;
                    }
                    results.push(result);
                    proof {
                        let after = pass2(lines@, symbols@, first_count as int, at + 1);
                        assert(after.results == before.results.push(emitted(symbols@, *line)));
                        assert(first_errors + after.results =~= (first_errors
                            + before.results).push(emitted(symbols@, *line)));
                    }
                }
            },
            None => {},
        }
        at = at + 1;
    }
    proof {
        if at < lines@.len() {
            lemma_pass2_stays(
                lines@,
                symbols@,
                first_count as int,
                at as int,
                lines@.len() as int,
            );
        }
    }
    results
}

} // verus!
