//! The probe session state machine for one endpoint: one discarded warmup,
//! then up to the configured number of timed attempts, stopping at the first
//! failure.  The network work itself happens outside; the machine consumes
//! one event per request and decides what is recorded and whether the
//! session goes on.

use vstd::prelude::*;
use crate::outcome::{AttemptOutcome, LatencyResult, valid_count, lemma_valid_count_all_timed,
    lemma_valid_count_push_failed};
use crate::classify::{classify, spec_classify};

verus! {

/// What one request through the proxy came back with: a response with its
/// status class and elapsed wall time in microseconds, a transport error
/// (connect failure or an error within the request window), or the outer
/// deadline firing.
#[derive(Clone, Copy, Debug, PartialEq, Eq)]
pub enum AttemptEvent {
    Response { success_status: bool, elapsed_us: u64 },
    TransportError,
    TimedOut,
}

/// The outcome an event is recorded as: only a response with a successful
/// status counts as timed; everything else is a failure.
pub open spec fn outcome_of(ev: AttemptEvent) -> AttemptOutcome {
    match ev {
        AttemptEvent::Response { success_status, elapsed_us } => {
            if success_status {
                AttemptOutcome::Timed(elapsed_us)
            } else {
                AttemptOutcome::Failed
            }
        },
        AttemptEvent::TransportError => AttemptOutcome::Failed,
        AttemptEvent::TimedOut => AttemptOutcome::Failed,
    }
}

/// The mathematical state of a probe session.
pub struct SessionModel {
    pub attempts: Seq<AttemptOutcome>,
    pub attempt_count: nat,
    pub warmed_up: bool,
    pub halted: bool,
}

impl SessionModel {
    /// The session invariant: never more attempts than configured, every
    /// attempt before the last is timed, and the session is halted exactly
    /// when its last attempt failed.  Attempts are recorded only after the
    /// warmup.
    pub open spec fn wf(self) -> bool {
        &&& self.attempts.len() <= self.attempt_count
        &&& forall|i: int| 0 <= i < self.attempts.len() - 1 ==> self.attempts[i] is Timed
        &&& (self.halted ==> self.attempts.len() >= 1 && self.attempts.last() is Failed)
        &&& (!self.halted && self.attempts.len() >= 1 ==> self.attempts.last() is Timed)
        &&& (self.attempts.len() >= 1 ==> self.warmed_up)
    }

    /// A session is done when it halted on a failure or reached the
    /// configured attempt count.
    pub open spec fn done(self) -> bool {
        self.halted || self.attempts.len() == self.attempt_count
    }

    /// The warmup transition: it establishes connectivity and nothing else.
    /// It takes no event — whatever the warmup request came back with is
    /// discarded and never reaches the recorded attempts.
    pub open spec fn after_warmup(self) -> SessionModel {
        SessionModel { warmed_up: true, ..self }
    }

    /// The attempt transition: the event's outcome is appended, and a
    /// failure halts the session.
    pub open spec fn after_attempt(self, ev: AttemptEvent) -> SessionModel {
        SessionModel {
            attempts: self.attempts.push(outcome_of(ev)),
            halted: self.halted || !(outcome_of(ev) is Timed),
            ..self
        }
    }
}

/// The executable probe session for one endpoint.
pub struct ProbeSession {
    attempts: Vec<AttemptOutcome>,
    attempt_count: usize,
    warmed_up: bool,
    halted: bool,
}

impl View for ProbeSession {
    type V = SessionModel;

    closed spec fn view(&self) -> SessionModel {
        SessionModel {
            attempts: self.attempts@,
            attempt_count: self.attempt_count as nat,
            warmed_up: self.warmed_up,
            halted: self.halted,
        }
    }
}

impl ProbeSession {
    /// Opens a session that will record at most `attempt_count` attempts.
    pub fn new(attempt_count: usize) -> (s: ProbeSession)
        ensures
            s@.wf(),
            s@.attempts == Seq::<AttemptOutcome>::empty(),
            s@.attempt_count == attempt_count as nat,
            !s@.warmed_up,
            !s@.halted,
    {
        ProbeSession { attempts: Vec::new(), attempt_count, warmed_up: false, halted: false }
    }

    /// Consumes the warmup request's event.  The event is deliberately
    /// discarded: the state afterwards is `after_warmup`, which does not
    /// depend on it, so a failed warmup biases nothing.
    pub fn record_warmup(&mut self, ev: AttemptEvent)
        requires
            old(self)@.wf(),
            !old(self)@.warmed_up,
        ensures
            final(self)@ == old(self)@.after_warmup(),
            final(self)@.wf(),
            final(self)@.attempts == old(self)@.attempts,
    {
        let _ = ev;
        self.warmed_up = true;
    }

    /// Records one timed attempt's event: a successful response is appended
    /// as `Timed`, anything else as `Failed`, and a failure halts the
    /// session at once.
    pub fn record_attempt(&mut self, ev: AttemptEvent)
        requires
            old(self)@.wf(),
            old(self)@.warmed_up,
            !old(self)@.done(),
        ensures
            final(self)@ == old(self)@.after_attempt(ev),
            final(self)@.wf(),
            final(self)@.attempts == old(self)@.attempts.push(outcome_of(ev)),
            final(self)@.halted == !(outcome_of(ev) is Timed),
            final(self)@.done() == (!(outcome_of(ev) is Timed)
                || old(self)@.attempts.len() + 1 == old(self)@.attempt_count),
    {
        match ev {
            AttemptEvent::Response { success_status, elapsed_us } => {
                if success_status {
                    self.attempts.push(AttemptOutcome::Timed(elapsed_us));
                } else {
                    self.attempts.push(AttemptOutcome::Failed);
                    self.halted = true;
                }
            },
            AttemptEvent::TransportError => {
                self.attempts.push(AttemptOutcome::Failed);
                self.halted = true;
            },
            AttemptEvent::TimedOut => {
                self.attempts.push(AttemptOutcome::Failed);
                self.halted = true;
            },
        }
    }

    /// Whether the session is over: halted on a failure or all configured
    /// attempts recorded.
    pub fn is_done(&self) -> (r: bool)
        ensures
            r == self@.done(),
    {
        self.halted || self.attempts.len() == self.attempt_count
    }

    /// The attempts recorded so far, in order.
    pub fn recorded_attempts(&self) -> (r: &Vec<AttemptOutcome>)
        ensures
            r@ == self@.attempts,
    {
        &self.attempts
    }

    /// The configured attempt count.
    pub fn configured_attempts(&self) -> (r: usize)
        ensures
            r as nat == self@.attempt_count,
    {
        self.attempt_count
    }

    /// Classifies the recorded attempts against the configured attempt
    /// count.
    pub fn classify(&self) -> (r: LatencyResult)
        ensures
            r == spec_classify(self@.attempts, self@.attempt_count as usize),
    {
        classify(&self.attempts, self.attempt_count)
    }
}

/// The warmup discards its event: for any two warmup outcomes the session
/// state afterwards is the same, and no attempt is recorded by it.
pub proof fn lemma_warmup_discarded(s: SessionModel)
    ensures
        s.after_warmup().attempts == s.attempts,
        s.after_warmup().attempt_count == s.attempt_count,
        s.after_warmup().halted == s.halted,
        valid_count(s.after_warmup().attempts) == valid_count(s.attempts),
{
}

/// The early-stop policy: a session halts exactly on its first failure, so a
/// halted session holds the attempts made up to and including that failure —
/// every earlier attempt timed — and records nothing further.
pub proof fn lemma_early_stop(s: SessionModel)
    requires
        s.wf(),
        s.halted,
    ensures
        s.done(),
        s.attempts.len() >= 1,
        s.attempts.last() is Failed,
        forall|i: int| 0 <= i < s.attempts.len() - 1 ==> s.attempts[i] is Timed,
        valid_count(s.attempts) == s.attempts.len() - 1,
{
    let prefix = s.attempts.drop_last();
    lemma_valid_count_all_timed(prefix);
    lemma_valid_count_push_failed(prefix);
    assert(prefix.push(AttemptOutcome::Failed) =~= s.attempts);
}

/// The warmup never affects classification: the attempts after the warmup
/// transition are the attempts before it, so both states classify alike,
/// whatever the warmup request came back with.
pub proof fn lemma_warmup_never_affects_classification(s: SessionModel, total: usize)
    ensures
        spec_classify(s.after_warmup().attempts, total) == spec_classify(s.attempts, total),
{
}

/// A session that never fails records exactly its timed attempts: every
/// recorded attempt is a valid sample.
pub proof fn lemma_no_failure_all_valid(s: SessionModel)
    requires
        s.wf(),
        !s.halted,
    ensures
        valid_count(s.attempts) == s.attempts.len(),
{
    lemma_valid_count_all_timed(s.attempts);
}

} // verus!
