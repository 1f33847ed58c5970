use proxy_latency::outcome::{AttemptOutcome, LatencyResult};
use proxy_latency::session::{AttemptEvent, ProbeSession};

fn success_event(elapsed_us: u64) -> AttemptEvent {
    AttemptEvent::Response { success_status: true, elapsed_us }
}

#[test]
fn early_stop_after_failure_on_third_attempt() {
    let mut session = ProbeSession::new(10);
    session.record_warmup(success_event(9_999));
    session.record_attempt(success_event(5_000));
    session.record_attempt(success_event(6_000));
    assert!(!session.is_done());
    session.record_attempt(AttemptEvent::TransportError);
    // Failure on attempt 3 of 10: exactly 3 outcomes, never 4-10.
    assert!(session.is_done());
    let attempts = session.recorded_attempts();
    assert_eq!(attempts.len(), 3);
    assert_eq!(attempts[0], AttemptOutcome::Timed(5_000));
    assert_eq!(attempts[1], AttemptOutcome::Timed(6_000));
    assert_eq!(attempts[2], AttemptOutcome::Failed);
    assert_eq!(session.classify(), LatencyResult::Unstable { valid: 2, total: 10 });
}

#[test]
fn unsuccessful_http_status_stops_the_session() {
    let mut session = ProbeSession::new(10);
    session.record_warmup(success_event(1_000));
    session.record_attempt(AttemptEvent::Response { success_status: false, elapsed_us: 1_234 });
    assert!(session.is_done());
    let attempts = session.recorded_attempts();
    assert_eq!(attempts.len(), 1);
    assert_eq!(attempts[0], AttemptOutcome::Failed);
    assert_eq!(session.classify(), LatencyResult::AllFailed);
}

#[test]
fn timeout_stops_the_session() {
    let mut session = ProbeSession::new(5);
    session.record_warmup(success_event(1_000));
    session.record_attempt(success_event(2_000));
    session.record_attempt(AttemptEvent::TimedOut);
    assert!(session.is_done());
    assert_eq!(session.recorded_attempts().len(), 2);
    assert_eq!(session.classify(), LatencyResult::Unstable { valid: 1, total: 5 });
}

#[test]
fn failed_warmup_does_not_bias_statistics() {
    let mut session = ProbeSession::new(3);
    // The warmup times out; its outcome is discarded.
    session.record_warmup(AttemptEvent::TimedOut);
    assert_eq!(session.recorded_attempts().len(), 0);
    session.record_attempt(success_event(10_000));
    session.record_attempt(success_event(30_000));
    session.record_attempt(success_event(20_000));
    assert!(session.is_done());
    // Still a Success, computed over the three timed attempts only.
    assert_eq!(
        session.classify(),
        LatencyResult::Success {
            median: 20_000,
            average: 20_000,
            minimum: 10_000,
            maximum: 30_000,
        }
    );
}

#[test]
fn session_completes_after_configured_attempts() {
    let mut session = ProbeSession::new(4);
    session.record_warmup(success_event(1_000));
    for us in [11_000_u64, 12_000, 13_000, 14_000] {
        assert!(!session.is_done());
        session.record_attempt(success_event(us));
    }
    assert!(session.is_done());
    assert_eq!(session.recorded_attempts().len(), 4);
    assert_eq!(session.configured_attempts(), 4);
    assert_eq!(
        session.classify(),
        LatencyResult::Success {
            median: 13_000,
            average: 12_500,
            minimum: 11_000,
            maximum: 14_000,
        }
    );
}
