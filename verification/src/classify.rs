//! Classification of one probe session: all failed, too few samples, or
//! success with statistics over the timed attempts.

use vstd::prelude::*;
use vstd::arithmetic::div_mod::{lemma_div_is_ordered, lemma_div_multiples_vanish};
use crate::outcome::{AttemptOutcome, LatencyResult, duration_fn, valid_durations, valid_count};
use crate::stats::{duration_le, lemma_duration_le_total_ordering, sum_of, lemma_sum_bounds,
    sum_durations, sort_ascending};

verus! {

broadcast use vstd::seq_lib::group_to_multiset_ensures;

/// The classification policy.  With no valid sample the session is
/// `AllFailed`; with fewer than three it is `Unstable`; otherwise the four
/// statistics are computed over the sorted valid durations: minimum and
/// maximum are the ends, the median is the element at index `len / 2` (the
/// upper middle for even counts), and the average is the integer mean.
pub open spec fn spec_classify(s: Seq<AttemptOutcome>, total: usize) -> LatencyResult {
    let durs = valid_durations(s);
    if durs.len() == 0 {
        LatencyResult::AllFailed
    } else if durs.len() < 3 {
        LatencyResult::Unstable { valid: durs.len() as usize, total }
    } else {
        let sorted = durs.sort_by(duration_le());
        LatencyResult::Success {
            median: sorted[durs.len() as int / 2],
            average: (sum_of(durs) / durs.len() as int) as u64,
            minimum: sorted[0],
            maximum: sorted[durs.len() - 1],
        }
    }
}

/// Classifies one completed attempt sequence against the configured attempt
/// count.
pub fn classify(attempts: &Vec<AttemptOutcome>, total: usize) -> (r: LatencyResult)
    ensures
        r == spec_classify(attempts@, total),
{
    let mut durs: Vec<u64> = Vec::new();
    let mut i: usize = 0;
    while i < attempts.len()
        invariant
            i <= attempts@.len(),
            durs@ == valid_durations(attempts@.take(i as int)),
        decreases attempts@.len() - i,
    {
        proof {
            attempts@.lemma_filter_map_take_succ(duration_fn(), i as int);
        }
        match attempts[i] {
            AttemptOutcome::Timed(us) => {
                durs.push(us);
            },
            AttemptOutcome::Failed => {
            },
        }
        proof {
            assert(durs@ =~= valid_durations(attempts@.take(i as int + 1)));
        }
        i += 1;
    }
    proof {
        assert(attempts@.take(attempts@.len() as int) =~= attempts@);
    }
    let n = durs.len();
    if n == 0 {
        return LatencyResult::AllFailed;
    }
    if n < 3 {
        return LatencyResult::Unstable { valid: n, total };
    }
    let sum = sum_durations(&durs);
    let sorted = sort_ascending(&durs);
    proof {
        assert(forall|k: int| 0 <= k < durs@.len() ==> 0 <= #[trigger] durs@[k] <= u64::MAX);
        lemma_sum_bounds(durs@, 0, u64::MAX);
        lemma_div_is_ordered(sum_of(durs@), durs@.len() * u64::MAX, durs@.len() as int);
        lemma_div_multiples_vanish(u64::MAX as int, durs@.len() as int);
    }
    let average = (sum / (n as u128)) as u64;
    let median = sorted[n / 2];
    let minimum = sorted[0];
    let maximum = sorted[n - 1];
    LatencyResult::Success { median, average, minimum, maximum }
}

/// Classifies the outcome of a whole session: a session that could not even
/// be established carries its error message through unchanged; a captured
/// attempt sequence is classified by the policy above.
pub open spec fn spec_classify_session(
    session: Result<Vec<AttemptOutcome>, String>,
    total: usize,
) -> LatencyResult {
    match session {
        Ok(attempts) => spec_classify(attempts@, total),
        Err(message) => LatencyResult::SessionError(message),
    }
}

pub fn classify_session(session: Result<Vec<AttemptOutcome>, String>, total: usize) -> (r:
    LatencyResult)
    ensures
        r == spec_classify_session(session, total),
{
    match session {
        Ok(attempts) => classify(&attempts, total),
        Err(message) => LatencyResult::SessionError(message),
    }
}

/// With at least three valid samples the classification is a `Success` whose
/// median and average both lie between its minimum and its maximum.
pub proof fn lemma_success_bounds(s: Seq<AttemptOutcome>, total: usize)
    requires
        valid_count(s) >= 3,
    ensures
        (spec_classify(s, total) matches LatencyResult::Success { median, average, minimum, maximum }
            && minimum <= median && median <= maximum
            && minimum <= average && average <= maximum),
{
    let durs = valid_durations(s);
    let n = durs.len() as int;
    let sorted = durs.sort_by(duration_le());
    lemma_duration_le_total_ordering();
    durs.lemma_sort_by_ensures(duration_le());
    assert(durs.to_multiset() == sorted.to_multiset());
    assert(durs.to_multiset().len() == durs.len());
    assert(sorted.to_multiset().len() == sorted.len());
    assert(sorted.len() == n);
    assert(duration_le()(sorted[0], sorted[n / 2]));
    assert(duration_le()(sorted[n / 2], sorted[n - 1]));
    let minimum = sorted[0];
    let maximum = sorted[n - 1];
    assert forall|i: int| 0 <= i < n implies minimum <= #[trigger] durs[i] <= maximum by {
        assert(durs.contains(durs[i]));
        assert(durs.to_multiset().count(durs[i]) > 0);
        assert(sorted.to_multiset().count(durs[i]) > 0);
        assert(sorted.contains(durs[i]));
        let j = choose|j: int| 0 <= j < sorted.len() && sorted[j] == durs[i];
        if j != 0 {
            assert(duration_le()(sorted[0], sorted[j]));
        }
        if j != n - 1 {
            assert(duration_le()(sorted[j], sorted[n - 1]));
        }
    }
    lemma_sum_bounds(durs, minimum, maximum);
    lemma_div_is_ordered(n * minimum, sum_of(durs), n);
    lemma_div_is_ordered(sum_of(durs), n * maximum, n);
    lemma_div_multiples_vanish(minimum as int, n);
    lemma_div_multiples_vanish(maximum as int, n);
}

/// With at least one but fewer than three valid samples the classification
/// is `Unstable`, carrying the count of timed attempts and the configured
/// attempt count.
pub proof fn lemma_unstable_classification(s: Seq<AttemptOutcome>, total: usize)
    requires
        0 < valid_count(s) < 3,
    ensures
        spec_classify(s, total) == (LatencyResult::Unstable {
            valid: valid_count(s) as usize,
            total,
        }),
{
}

/// If every attempt in a sequence failed, no attempt contributes a valid
/// sample.
pub proof fn lemma_all_failed_no_valid(s: Seq<AttemptOutcome>)
    requires
        forall|i: int| 0 <= i < s.len() ==> !(s[i] is Timed),
    ensures
        valid_count(s) == 0,
    decreases s.len(),
{
    if s.len() > 0 {
        lemma_all_failed_no_valid(s.drop_last());
    }
}

/// An empty sequence, or one in which every attempt failed, classifies as
/// exactly `AllFailed`.
pub proof fn lemma_all_failed_classification(s: Seq<AttemptOutcome>, total: usize)
    requires
        s.len() == 0 || forall|i: int| 0 <= i < s.len() ==> !(s[i] is Timed),
    ensures
        spec_classify(s, total) == LatencyResult::AllFailed,
{
    if s.len() == 0 {
        assert(valid_count(s) == 0);
    } else {
        lemma_all_failed_no_valid(s);
    }
}

/// A session that could not be established classifies as `SessionError` with
/// its message, whatever attempt count was configured.
pub proof fn lemma_session_error_any_total(message: String, t1: usize, t2: usize)
    ensures
        spec_classify_session(Err(message), t1) == LatencyResult::SessionError(message),
        spec_classify_session(Err(message), t1) == spec_classify_session(Err(message), t2),
{
}

/// Classification is a pure function of the captured attempt sequence and
/// the configured attempt count: classifying the same capture twice yields
/// identical results.
pub proof fn lemma_classify_idempotent(
    s1: Seq<AttemptOutcome>,
    t1: usize,
    s2: Seq<AttemptOutcome>,
    t2: usize,
)
    requires
        s1 == s2,
        t1 == t2,
    ensures
        spec_classify(s1, t1) == spec_classify(s2, t2),
{
}

} // verus!
