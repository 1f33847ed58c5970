//! The data model of one probe session: per-attempt outcomes and the
//! per-endpoint verdict, together with the spec-level view of the valid
//! (timed) samples inside an attempt sequence.

use vstd::prelude::*;

verus! {

/// The outcome of one timed probe attempt.  A `Timed` attempt received a
/// response with a successful HTTP status within the deadline and carries the
/// elapsed wall time in microseconds; a `Failed` attempt hit a connect error,
/// an unsuccessful HTTP status, or a timeout.
#[derive(Clone, Copy, Debug, PartialEq, Eq)]
pub enum AttemptOutcome {
    Timed(u64),
    Failed,
}

/// The verdict for one probed endpoint.  All durations are wall-clock
/// microseconds.
#[derive(Clone, Debug, PartialEq, Eq)]
pub enum LatencyResult {
    /// At least three attempts were timed; the four statistics are computed
    /// over the timed attempts only.
    Success { median: u64, average: u64, minimum: u64, maximum: u64 },
    /// Some attempts were timed, but fewer than three: too few samples to
    /// trust statistics.  `valid` counts the timed attempts, `total` the
    /// configured attempt count.
    Unstable { valid: usize, total: usize },
    /// No attempt was timed.
    AllFailed,
    /// The probing session could not even be established.
    SessionError(String),
}

/// The duration carried by a timed outcome, or `None` for a failed one.
pub open spec fn duration_of(a: AttemptOutcome) -> Option<u64> {
    match a {
        AttemptOutcome::Timed(us) => Some(us),
        AttemptOutcome::Failed => None,
    }
}

/// The spec closure form of `duration_of`, fixed once so that every spec and
/// proof speaks of the same function value.
pub open spec fn duration_fn() -> spec_fn(AttemptOutcome) -> Option<u64> {
    |a: AttemptOutcome| duration_of(a)
}

/// The durations of the valid (timed) attempts, in their original order.
pub open spec fn valid_durations(s: Seq<AttemptOutcome>) -> Seq<u64> {
    s.filter_map(duration_fn())
}

/// How many attempts in the sequence were timed.
pub open spec fn valid_count(s: Seq<AttemptOutcome>) -> nat {
    valid_durations(s).len()
}

/// If every attempt in a sequence is timed, every attempt contributes one
/// valid sample.
pub proof fn lemma_valid_count_all_timed(s: Seq<AttemptOutcome>)
    requires
        forall|i: int| 0 <= i < s.len() ==> s[i] is Timed,
    ensures
        valid_count(s) == s.len(),
    decreases s.len(),
{
    if s.len() > 0 {
        lemma_valid_count_all_timed(s.drop_last());
    }
}

/// Appending a failed attempt contributes no valid sample.
pub proof fn lemma_valid_count_push_failed(s: Seq<AttemptOutcome>)
    ensures
        valid_durations(s.push(AttemptOutcome::Failed)) == valid_durations(s),
{
    assert(s.push(AttemptOutcome::Failed).drop_last() =~= s);
}

/// Whether an attempt was timed, as a fixed spec closure.
pub open spec fn timed_fn() -> spec_fn(AttemptOutcome) -> bool {
    |a: AttemptOutcome| a is Timed
}

/// The number of valid samples is exactly the number of timed outcomes in
/// the sequence.
pub proof fn lemma_valid_count_counts_timed(s: Seq<AttemptOutcome>)
    ensures
        valid_count(s) == s.filter(timed_fn()).len(),
    decreases s.len(),
{
    reveal_with_fuel(Seq::<AttemptOutcome>::filter, 2);
    if s.len() > 0 {
        lemma_valid_count_counts_timed(s.drop_last());
    }
}

} // verus!
