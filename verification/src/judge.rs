use crate::engine::ExecutionOutcome;
use crate::status::{fold_worst, spec_worst_of, Status};
use vstd::prelude::*;

verus! {

/// Output normalization before comparison: strips exactly one trailing
/// newline, never more. Two outputs differing in deeper trailing whitespace
/// stay different.
pub open spec fn spec_normalize(s: Seq<char>) -> Seq<char> {
    if s.len() > 0 && s.last() == '\n' {
        s.drop_last()
    } else {
        s
    }
}

/// Strips exactly one trailing newline from the text, if it has one.
pub fn remove_last_indent(s: &str) -> (r: String)
    ensures
        r@ == spec_normalize(s@),
{
    let n = s.unicode_len();
    if n > 0 && s.get_char(n - 1) == '\n' {
        let t = s.substring_char(0, n - 1);
        proof {
            assert(s@.subrange(0, n - 1) =~= s@.drop_last());
        }
        t.to_owned()
    } else {
        s.to_owned()
    }
}

/// Status of one testcase given the execution outcome and the expected text:
/// a runtime error is `RE` with the output never consulted, a timeout is
/// `TLE`, and a completed run is `AC` exactly when actual and expected agree
/// after single-trailing-newline normalization, else `WA`.
pub open spec fn spec_judge(outcome: ExecutionOutcome, expected: Seq<char>) -> Status {
    match outcome {
        ExecutionOutcome::RuntimeError => Status::RE,
        ExecutionOutcome::TimedOut => Status::TLE,
        ExecutionOutcome::Completed(out) => if spec_normalize(out@) == spec_normalize(expected) {
            Status::AC
        } else {
            Status::WA
        },
    }
}

/// Classifies one testcase run.
pub fn judge_case(outcome: &ExecutionOutcome, expected: &str) -> (st: Status)
    ensures
        st == spec_judge(*outcome, expected@),
{
    match outcome {
        ExecutionOutcome::RuntimeError => Status::RE,
        ExecutionOutcome::TimedOut => Status::TLE,
        ExecutionOutcome::Completed(out) => {
            let actual = remove_last_indent(out.as_str());
            let wanted = remove_last_indent(expected);
            if actual == wanted {
                Status::AC
            } else {
                Status::WA
            }
        },
    }
}

/// Classifies a whole run, case by case in order, and folds the per-case
/// statuses into the final verdict, starting from `AC`.
pub fn judge_run(outcomes: &Vec<ExecutionOutcome>, expecteds: &Vec<String>) -> (r: (
    Vec<Status>,
    Status,
))
    requires
        outcomes@.len() == expecteds@.len(),
    ensures
        r.0@.len() == outcomes@.len(),
        forall|k: int| 0 <= k < r.0@.len() ==> r.0@[k] == spec_judge(outcomes@[k], expecteds@[k]@),
        r.1 == spec_worst_of(r.0@),
{
    let mut statuses: Vec<Status> = Vec::new();
    let mut i: usize = 0;
    while i < outcomes.len()
        invariant
            outcomes@.len() == expecteds@.len(),
            i <= outcomes@.len(),
            statuses@.len() == i,
            forall|k: int|
                0 <= k < i ==> statuses@[k] == spec_judge(outcomes@[k], expecteds@[k]@),
        decreases outcomes@.len() - i,
    {
        let st = judge_case(&outcomes[i], expecteds[i].as_str());
        statuses.push(st);
        i = i + 1;
    }
    let verdict = fold_worst(&statuses);
    (statuses, verdict)
}

/// A candidate that echoes its input exactly and completes in time is
/// accepted on every testcase whose expected output equals the input after
/// single-trailing-newline normalization, and only on those.
pub proof fn lemma_echoing_candidate(input: String, expected: Seq<char>)
    ensures
        spec_judge(ExecutionOutcome::Completed(input), expected) == Status::AC
            <==> spec_normalize(input@) == spec_normalize(expected),
{
}

/// A run that ended in a runtime error is judged `RE` whatever output the
/// candidate may have produced: the outcome carries none to consult.
pub proof fn lemma_runtime_error_is_re(expected: Seq<char>)
    ensures
        spec_judge(ExecutionOutcome::RuntimeError, expected) == Status::RE,
{
}

/// A run that was killed on timeout is judged `TLE` against any expected
/// output.
pub proof fn lemma_timeout_is_tle(expected: Seq<char>)
    ensures
        spec_judge(ExecutionOutcome::TimedOut, expected) == Status::TLE,
{
}

} // verus!
