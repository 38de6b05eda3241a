use super::collect::{all_values, collect, first_error, lemma_first_error};
use crate::assembly::assembler::{assemble, assembly, outcome, outcomes_are};
use crate::assembly::parser::{lexed, parse_lines};
use crate::assembly::{AsmError, Fault, Line};
use crate::isa::Instruction;
use vstd::prelude::*;
use vstd::string::StringSliceAdditionalSpecFns;

verus! {

/// What assembling gives has its first error where the results have it,
/// and the same instructions where there is none.
pub proof fn lemma_outcomes<'c>(
    results: Seq<Result<Instruction, AsmError<'c>>>,
    expected: Seq<Result<Instruction, Fault<'c>>>,
    from: int,
)
    requires
        outcomes_are(results, expected),
        0 <= from <= results.len(),
    ensures
        first_error(results, from) == first_error(expected, from),
        all_values(results).len() == all_values(expected).len(),
        first_error(results, 0) == results.len() ==> all_values(results) == all_values(expected),
    decreases results.len() - from,
{
    if from < results.len() {
        assert(outcome(results[from]) == expected[from]);
        if results[from] is Ok {
            lemma_outcomes(results, expected, from + 1);
        }
    }
    if first_error(results, 0) == results.len() {
        lemma_first_error(results, 0);
        assert forall|i: int| 0 <= i < results.len() implies all_values(results)[i] == all_values(
            expected,
        )[i] by {
            assert(results[i] is Ok);
            assert(outcome(results[i]) == expected[i]);
        }
        assert(all_values(results) =~= all_values(expected));
    }
}

/// Whether `result` is what assembling the source text `code` gives: the
/// instructions of its lines, or the first error of the lexer, or else the
/// first error of the assembler.
pub open spec fn assembles_to<'a>(
    code: Seq<u8>,
    result: Result<Vec<Instruction>, AsmError<'a>>,
) -> bool {
    exists|lines: Seq<Result<Line<'a>, AsmError<'a>>>|
        {
            &&& #[trigger] lexed(lines, code)
            &&& if first_error(lines, 0) < lines.len() {
                result matches Err(error) && lines[first_error(lines, 0)] == Err::<
                    Line<'a>,
                    AsmError<'a>,
                >(error)
            } else {
                let made = assembly(all_values(lines));
                if first_error(made, 0) < made.len() {
                    result matches Err(error) && made[first_error(made, 0)] == Err::<
                        Instruction,
                        Fault<'a>,
                    >(error.fault())
                } else {
                    result matches Ok(program) && program@ == all_values(made)
                }
            }
        }
}

/// Lexes and assembles a source text. The first error ends it.
pub fn from_asm<'a>(code: &'a str) -> (result: Result<Vec<Instruction>, AsmError<'a>>)
    ensures
        assembles_to(code.spec_bytes(), result),
        result matches Ok(program) ==> forall|i: int|
            0 <= i < program@.len() ==> (#[trigger] program@[i]).wf(),
{
    let lexed_lines = parse_lines(code);
    let ghost lines_seq = lexed_lines@;
    let lines = match collect(lexed_lines) {
        Ok(lines) => lines,
        Err(error) => {
            assert(lexed(lines_seq, code.spec_bytes()));
            return Err(error);
        },
    };
    let made = assemble(lines.as_slice());
    let ghost made_seq = made@;
    proof {
        lemma_outcomes(made_seq, assembly(lines@), 0);
        lemma_first_error(made_seq, 0);
        assert(lexed(lines_seq, code.spec_bytes()));
    }
    match collect(made) {
        Ok(program) => {
            proof {
                assert forall|i: int| 0 <= i < program@.len() implies (#[trigger] program@[i]).wf() by {
                    assert(made_seq[i] is Ok);
                }
            }
            Ok(program)
        },
        Err(error) => {
            proof {
                let bad = first_error(made_seq, 0);
                assert(outcome(made_seq[bad]) == assembly(lines@)[bad]);
            }
            Err(error)
        },
    }
}

} // verus!
