use vstd::prelude::*;

verus! {

/// Severity of one testcase run. The ranking is fixed at
/// `AC < TLE < RE < WA`: the final verdict of a run is the worst (largest)
/// status seen over all testcases, so `WA` dominates `RE` and `TLE`.
#[derive(Copy, Clone, Debug, PartialEq, Eq, Structural)]
pub enum Status {
    AC,
    TLE,
    RE,
    WA,
}

impl Status {
    /// Numeric severity rank; other components depend on these exact values.
    pub open spec fn rank(self) -> int {
        match self {
            Status::AC => 0,
            Status::TLE => 1,
            Status::RE => 2,
            Status::WA => 3,
        }
    }

    /// The worse of two statuses under the severity ranking.
    pub open spec fn spec_worst(self, other: Status) -> Status {
        if self.rank() >= other.rank() {
            self
        } else {
            other
        }
    }

    /// Executable severity rank.
    pub fn rank_value(self) -> (r: u8)
        ensures
            r as int == self.rank(),
    {
        match self {
            Status::AC => 0,
            Status::TLE => 1,
            Status::RE => 2,
            Status::WA => 3,
        }
    }

    /// The worse of two statuses; the accumulator step of the final verdict.
    pub fn worst(self, other: Status) -> (r: Status)
        ensures
            r == self.spec_worst(other),
    {
        if self.rank_value() >= other.rank_value() {
            self
        } else {
            other
        }
    }

    /// Display name of the status.
    pub fn to_string(&self) -> (r: String)
        ensures
            *self == Status::AC ==> r@ == "AC"@,
            *self == Status::TLE ==> r@ == "TLE"@,
            *self == Status::RE ==> r@ == "RE"@,
            *self == Status::WA ==> r@ == "WA"@,
    {
        match self {
            Status::AC => "AC".to_owned(),
            Status::TLE => "TLE".to_owned(),
            Status::RE => "RE".to_owned(),
            Status::WA => "WA".to_owned(),
        }
    }
}

/// Worst status over a whole run, `AC` when no testcase ran.
pub open spec fn spec_worst_of(s: Seq<Status>) -> Status
    decreases s.len(),
{
    if s.len() == 0 {
        Status::AC
    } else {
        spec_worst_of(s.drop_last()).spec_worst(s.last())
    }
}

/// Folds per-case statuses into the final verdict of the run.
pub fn fold_worst(statuses: &Vec<Status>) -> (r: Status)
    ensures
        r == spec_worst_of(statuses@),
{
    let mut acc = Status::AC;
    let mut i: usize = 0;
    while i < statuses.len()
        invariant
            i <= statuses@.len(),
            acc == spec_worst_of(statuses@.take(i as int)),
        decreases statuses@.len() - i,
    {
        acc = acc.worst(statuses[i]);
        proof {
            assert(statuses@.take(i + 1).drop_last() =~= statuses@.take(i as int));
            assert(statuses@.take(i + 1).last() == statuses@[i as int]);
        }
        i = i + 1;
    }
    proof {
        assert(statuses@.take(statuses@.len() as int) =~= statuses@);
    }
    acc
}

/// The aggregated verdict is the maximum of the per-case statuses under the
/// severity ranking: it is at least as severe as every case, it is one of the
/// cases when any ran, and it is `AC` for an empty run.
pub proof fn lemma_verdict_is_max(s: Seq<Status>)
    ensures
        forall|i: int| 0 <= i < s.len() ==> spec_worst_of(s).rank() >= s[i].rank(),
        s.len() > 0 ==> exists|i: int| 0 <= i < s.len() && spec_worst_of(s) == s[i],
        s.len() == 0 ==> spec_worst_of(s) == Status::AC,
    decreases s.len(),
{
    if s.len() > 0 {
        let prefix = s.drop_last();
        lemma_verdict_is_max(prefix);
        let w = spec_worst_of(s);
        assert forall|i: int| 0 <= i < s.len() implies w.rank() >= s[i].rank() by {
            if i < s.len() - 1 {
                assert(s[i] == prefix[i]);
            }
        }
        if spec_worst_of(prefix).rank() >= s.last().rank() {
            if prefix.len() > 0 {
                let j = choose|j: int| 0 <= j < prefix.len() && spec_worst_of(prefix) == prefix[j];
                assert(s[j] == prefix[j]);
                assert(w == s[j]);
            } else {
                assert(s.last().rank() <= 0);
                assert(w == s[s.len() - 1]);
            }
        } else {
            assert(w == s[s.len() - 1]);
        }
    }
}

} // verus!
