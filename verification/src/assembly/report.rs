//! How the errors of an assembly are told: the first in full, the next
//! four in one line each, and of the rest only their number.

use crate::utils::{first_error, lemma_first_error, reversed};
use vstd::prelude::*;

verus! {

/// The number of errors that are shown.
pub const MAX_SHOWN: usize = 5;

/// How much of an error is shown.
#[derive(Debug, Copy, Clone, PartialEq, Eq, Structural)]
pub enum Report {
    /// The error with its line and a mark under the token at fault.
    Full,
    /// The error in one line.
    Brief,
    /// Nothing.
    Hidden,
}

/// How much is shown of the error before which `earlier` errors were
/// found.
pub open spec fn report_of(earlier: int) -> Report {
    if earlier == 0 {
        Report::Full
    } else if earlier < MAX_SHOWN {
        Report::Brief
    } else {
        Report::Hidden
    }
}

/// How much is shown of the error before which `earlier` errors were
/// found.
pub fn report_style(earlier: usize) -> (report: Report)
    ensures
        report == report_of(earlier as int),
{
    if earlier == 0 {
        Report::Full
    } else if earlier < MAX_SHOWN {
        Report::Brief
    } else {
        Report::Hidden
    }
}

/// The number of errors of which nothing is shown.
pub fn skipped(errors: usize) -> (hidden: usize)
    ensures
        hidden == if errors > MAX_SHOWN {
            errors - MAX_SHOWN
        } else {
            0
        },
{
    if errors > MAX_SHOWN {
        errors - MAX_SHOWN
    } else {
        0
    }
}

/// The errors among the first `count` results, in their order.
pub open spec fn errors_in<T, E>(results: Seq<Result<T, E>>, count: int) -> Seq<E>
    decreases count,
{
    if count <= 0 {
        Seq::empty()
    } else {
        match results[count - 1] {
            Ok(_) => errors_in(results, count - 1),
            Err(error) => errors_in(results, count - 1).push(error),
        }
    }
}

/// The values of the results before the first error, in their order.
pub open spec fn values_before_error<T, E>(results: Seq<Result<T, E>>) -> Seq<T> {
    Seq::new(first_error(results, 0) as nat, |i: int| results[i]->Ok_0)
}

/// Parts results into what is kept and what is told: the values up to the
/// first error, and all errors. The assembly has failed where there is an
/// error.
pub fn gather<T, E>(results: Vec<Result<T, E>>) -> (parted: (Vec<T>, Vec<E>))
    ensures
        parted.0@ == values_before_error(results@),
        parted.1@ == errors_in(results@, results@.len() as int),
        parted.1@.len() == 0 <==> first_error(results@, 0) == results@.len(),
{
    let ghost all = results@;
    let mut rest = reversed(results);
    let mut values: Vec<T> = Vec::new();
    let mut errors: Vec<E> = Vec::new();
    let ghost mut done: int = 0;
    proof {
        lemma_first_error(all, 0);
    }
    while rest.len() > 0
        invariant
            done + rest@.len() == all.len(),
            0 <= done,
            forall|i: int| 0 <= i < rest@.len() ==> rest@[i] == all[all.len() - 1 - i],
            errors@ == errors_in(all, done),
            errors@.len() == 0 ==> values@.len() == done && first_error(all, done) == first_error(
                all,
                0,
            ),
            errors@.len() > 0 ==> values@.len() == first_error(all, 0) < done,
            values@.len() <= first_error(all, 0) <= all.len(),
            forall|i: int| 0 <= i < values@.len() ==> all[i] == Ok::<T, E>(#[trigger] values@[i]),
        decreases rest@.len(),
    {
        match rest.pop() {
            Some(Ok(value)) => {
                assert(all[done] == Ok::<T, E>(value));
                proof {
                    lemma_first_error(all, done + 1);
                }
                if errors.len() == 0 {
                    values.push(value);
                }
            },
            Some(Err(error)) => {
                assert(all[done] == Err::<T, E>(error));
                assert(errors@.len() == 0 ==> first_error(all, done) == done);
                errors.push(error);
            },
            None => {},
        }
        proof {
            done = done + 1;
        }
    }
    assert(values@ =~= values_before_error(all));
    (values, errors)
}

} // verus!
