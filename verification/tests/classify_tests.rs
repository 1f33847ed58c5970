use proxy_latency::classify::{classify, classify_session};
use proxy_latency::outcome::{AttemptOutcome, LatencyResult};

#[test]
fn classify_empty_is_all_failed() {
    let attempts: Vec<AttemptOutcome> = Vec::new();
    assert_eq!(classify(&attempts, 10), LatencyResult::AllFailed);
}

#[test]
fn classify_all_failed_sequence() {
    let attempts = vec![AttemptOutcome::Failed, AttemptOutcome::Failed, AttemptOutcome::Failed];
    assert_eq!(classify(&attempts, 10), LatencyResult::AllFailed);
}

#[test]
fn classify_one_valid_is_unstable() {
    let attempts = vec![AttemptOutcome::Timed(5_000), AttemptOutcome::Failed];
    assert_eq!(classify(&attempts, 10), LatencyResult::Unstable { valid: 1, total: 10 });
}

#[test]
fn classify_two_valid_is_unstable_counting_timed_only() {
    let attempts = vec![
        AttemptOutcome::Timed(1_000),
        AttemptOutcome::Timed(2_000),
        AttemptOutcome::Failed,
    ];
    assert_eq!(classify(&attempts, 7), LatencyResult::Unstable { valid: 2, total: 7 });
}

#[test]
fn median_is_upper_middle_for_even_count() {
    // Sorted valid durations 10.0, 20.0, 30.0, 40.0 milliseconds.
    let ms = [10.0_f64, 20.0, 30.0, 40.0];
    let attempts: Vec<AttemptOutcome> =
        ms.iter().map(|m| AttemptOutcome::Timed((m * 1000.0) as u64)).collect();
    match classify(&attempts, 4) {
        LatencyResult::Success { median, average, minimum, maximum } => {
            assert_eq!(median as f64 / 1000.0, 30.0);
            assert_ne!(median as f64 / 1000.0, 25.0);
            assert_eq!(average, 25_000);
            assert_eq!(minimum, 10_000);
            assert_eq!(maximum, 40_000);
        }
        other => panic!("expected Success, got {:?}", other),
    }
}

#[test]
fn statistics_use_sorted_order_not_arrival_order() {
    let attempts = vec![
        AttemptOutcome::Timed(30_000),
        AttemptOutcome::Timed(10_000),
        AttemptOutcome::Timed(20_000),
    ];
    match classify(&attempts, 3) {
        LatencyResult::Success { median, average, minimum, maximum } => {
            assert_eq!(median, 20_000);
            assert_eq!(average, 20_000);
            assert_eq!(minimum, 10_000);
            assert_eq!(maximum, 30_000);
            assert!(minimum <= median && median <= maximum);
            assert!(minimum <= average && average <= maximum);
        }
        other => panic!("expected Success, got {:?}", other),
    }
}

#[test]
fn average_is_integer_mean_of_microseconds() {
    let attempts = vec![
        AttemptOutcome::Timed(10_000),
        AttemptOutcome::Timed(20_000),
        AttemptOutcome::Timed(40_000),
    ];
    match classify(&attempts, 3) {
        LatencyResult::Success { average, .. } => {
            assert_eq!(average, 23_333);
        }
        other => panic!("expected Success, got {:?}", other),
    }
}

#[test]
fn failed_attempts_do_not_enter_statistics() {
    let attempts = vec![
        AttemptOutcome::Timed(10_000),
        AttemptOutcome::Timed(20_000),
        AttemptOutcome::Timed(30_000),
        AttemptOutcome::Failed,
    ];
    match classify(&attempts, 10) {
        LatencyResult::Success { median, average, minimum, maximum } => {
            assert_eq!(median, 20_000);
            assert_eq!(average, 20_000);
            assert_eq!(minimum, 10_000);
            assert_eq!(maximum, 30_000);
        }
        other => panic!("expected Success, got {:?}", other),
    }
}

#[test]
fn classifying_twice_yields_identical_results() {
    let attempts = vec![
        AttemptOutcome::Timed(12_345),
        AttemptOutcome::Timed(23_456),
        AttemptOutcome::Timed(34_567),
        AttemptOutcome::Failed,
    ];
    let first = classify(&attempts, 10);
    let second = classify(&attempts, 10);
    assert_eq!(first, second);
}

#[test]
fn session_error_carries_message_whatever_total() {
    let with_ten = classify_session(Err("Failed to create proxy: bad endpoint".to_string()), 10);
    let with_three = classify_session(Err("Failed to create proxy: bad endpoint".to_string()), 3);
    assert_eq!(
        with_ten,
        LatencyResult::SessionError("Failed to create proxy: bad endpoint".to_string())
    );
    assert_eq!(with_ten, with_three);
}

#[test]
fn session_ok_classifies_attempts() {
    let attempts = vec![AttemptOutcome::Timed(5_000)];
    assert_eq!(
        classify_session(Ok(attempts), 10),
        LatencyResult::Unstable { valid: 1, total: 10 }
    );
}
