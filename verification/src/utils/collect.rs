use vstd::prelude::*;

verus! {

/// The position of the first error from `from` on, or the number of
/// results where there is none.
pub open spec fn first_error<T, E>(results: Seq<Result<T, E>>, from: int) -> int
    decreases results.len() - from,
{
    if from < 0 || from >= results.len() {
        results.len() as int
    } else if results[from] is Err {
        from
    } else {
        first_error(results, from + 1)
    }
}

/// The values of results of which none is an error.
pub open spec fn all_values<T, E>(results: Seq<Result<T, E>>) -> Seq<T> {
    Seq::new(results.len(), |i: int| results[i]->Ok_0)
}

/// The first error lies within the results or is their number, it is an
/// error, and no result before it is one.
pub proof fn lemma_first_error<T, E>(results: Seq<Result<T, E>>, from: int)
    requires
        0 <= from <= results.len(),
    ensures
        from <= first_error(results, from) <= results.len(),
        first_error(results, from) < results.len() ==> results[first_error(results, from)] is Err,
        forall|i: int| from <= i < first_error(results, from) ==> (#[trigger] results[i]) is Ok,
    decreases results.len() - from,
{
    if from < results.len() && results[from] is Ok {
        lemma_first_error(results, from + 1);
    }
}

/// The same items in the opposite order.
pub fn reversed<T>(items: Vec<T>) -> (backwards: Vec<T>)
    ensures
        backwards@ == items@.reverse(),
{
    let ghost all = items@;
    let mut rest = items;
    let mut backwards: Vec<T> = Vec::new();
    while rest.len() > 0
        invariant
            rest@ == all.subrange(0, rest@.len() as int),
            backwards@.len() + rest@.len() == all.len(),
            forall|i: int| 0 <= i < backwards@.len() ==> backwards@[i] == all[all.len() - 1 - i],
        decreases rest@.len(),
    {
        let ghost count = rest@.len() as int;
        match rest.pop() {
            Some(item) => {
                assert(item == all[count - 1]);
                backwards.push(item);
            },
            None => {},
        }
    }
    assert(backwards@ =~= all.reverse());
    backwards
}

/// The values of all results, or the first error among them.
pub fn collect<T, E>(results: Vec<Result<T, E>>) -> (collected: Result<Vec<T>, E>)
    ensures
        match collected {
            Ok(values) => {
                &&& first_error(results@, 0) == results@.len()
                &&& values@ == all_values(results@)
            },
            Err(error) => {
                &&& first_error(results@, 0) < results@.len()
                &&& results@[first_error(results@, 0)] == Err::<T, E>(error)
            },
        },
{
    let ghost all = results@;
    let mut rest = reversed(results);
    let mut values: Vec<T> = Vec::new();
    while rest.len() > 0
        invariant
            all == results@,
            values@.len() + rest@.len() == all.len(),
            forall|i: int| 0 <= i < rest@.len() ==> rest@[i] == all[all.len() - 1 - i],
            forall|i: int| 0 <= i < values@.len() ==> all[i] == Ok::<T, E>(#[trigger] values@[i]),
            first_error(all, values@.len() as int) == first_error(all, 0),
        decreases rest@.len(),
    {
        let ghost at = values@.len() as int;
        match rest.pop() {
            Some(Ok(value)) => {
                assert(all[at] == Ok::<T, E>(value));
                values.push(value);
            },
            Some(Err(error)) => {
                assert(all[at] == Err::<T, E>(error));
                assert(first_error(all, at) == at);
                return Err(error);
            },
            None => {},
        }
    }
    assert(values@ =~= all_values(all));
    Ok(values)
}

} // verus!
