//! Batches of conversions.

use vstd::prelude::*;

use crate::convert::{failure, failure_state, result_state};
use crate::model::{outcome, BatchConversionResult, ConversionResult};
use crate::text::prefixed;

verus! {

/// How many of the first `n` results are successes.
pub open spec fn successes(results: Seq<ConversionResult>, n: int) -> nat
    decreases n,
{
    if n <= 0 {
        0
    } else {
        successes(results, n - 1) + if results[n - 1].success {
            1nat
        } else {
            0
        }
    }
}

/// What becomes of an input once its destination is planned.
#[derive(Debug)]
pub enum Assignment {
    /// It is to be converted into the file at this path.
    Convert(String),
    /// It has no destination, which is its result.
    Refused(ConversionResult),
}

/// What becomes of an input once its destination is planned.
pub fn assign(input_path: &str, planned: Result<String, String>) -> (r: Assignment)
    ensures
        match (outcome(planned), r) {
            (Ok(path), Assignment::Convert(output)) => output@ == path,
            (Err(error), Assignment::Refused(result)) => result_state(result) == failure_state(
                input_path@,
                error,
            ),
            _ => false,
        },
{
    match planned {
        Ok(output_path) => Assignment::Convert(output_path),
        Err(error) => Assignment::Refused(failure(input_path, error)),
    }
}

/// The results of a batch whose task as a whole did not finish.
pub fn task_failed(inputs: &[String], error: &str) -> (r: Vec<ConversionResult>)
    ensures
        r@.len() == inputs@.len(),
        forall|i: int|
            0 <= i < r@.len() ==> result_state(#[trigger] r@[i]) == failure_state(
                inputs@[i]@,
                "Conversion task failed: "@ + error@,
            ),
{
    let mut results: Vec<ConversionResult> = Vec::new();
    let mut i: usize = 0;
    while i < inputs.len()
        invariant
            i <= inputs@.len(),
            results@.len() == i,
            forall|j: int|
                0 <= j < i ==> result_state(#[trigger] results@[j]) == failure_state(
                    inputs@[j]@,
                    "Conversion task failed: "@ + error@,
                ),
        decreases inputs@.len() - i,
    {
        let message = prefixed("Conversion task failed: ", error);
        results.push(failure(inputs[i].as_str(), message));
        i = i + 1;
    }
    results
}

/// Adds up the results of a batch.
pub fn summarise(results: Vec<ConversionResult>) -> (r: BatchConversionResult)
    ensures
        r.results == results,
        r.total == results@.len(),
        r.succeeded == successes(results@, results@.len() as int),
        r.failed == r.total - r.succeeded,
{
    let mut succeeded: usize = 0;
    let mut i: usize = 0;
    while i < results.len()
        invariant
            i <= results@.len(),
            succeeded == successes(results@, i as int),
            succeeded <= i,
        decreases results@.len() - i,
    {
        if results[i].success {
            succeeded = succeeded + 1;
        }
        i = i + 1;
    }
    let total: usize = results.len();
    BatchConversionResult { total, succeeded, failed: total - succeeded, results }
}

/// No more results are successes than there are results.
pub proof fn law_successes_are_results(results: Seq<ConversionResult>, n: int)
    requires
        0 <= n <= results.len(),
    ensures
        successes(results, n) <= n,
        successes(results, n) == n <==> (forall|i: int|
            0 <= i < n ==> (#[trigger] results[i]).success),
        successes(results, n) == 0 <==> (forall|i: int|
            0 <= i < n ==> !(#[trigger] results[i]).success),
    decreases n,
{
    if n > 0 {
        law_successes_are_results(results, n - 1);
        assert(results[n - 1].success || !results[n - 1].success);
    }
}

/// The successes of a batch are as many as there are results that say so.
pub proof fn law_successes_are_counted(results: Seq<ConversionResult>, n: int)
    requires
        0 <= n <= results.len(),
    ensures
        successes(results, n) == results.take(n).filter(|r: ConversionResult| r.success).len(),
    decreases n,
{
    reveal(Seq::filter);
    if n > 0 {
        law_successes_are_counted(results, n - 1);
        assert(results.take(n).drop_last() =~= results.take(n - 1));
        assert(results.take(n).last() == results[n - 1]);
    }
}

} // verus!
