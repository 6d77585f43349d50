use lattica::retry::{next_delay_millis, RetryDecision, RetryState};

#[test]
fn no_state_without_attempts() {
    assert!(RetryState::start(0).is_none());
}

#[test]
fn retries_until_limit() {
    let mut s = RetryState::start(3).unwrap();
    assert_eq!(s.on_attempt(false), RetryDecision::Retry);
    assert_eq!(s.on_attempt(false), RetryDecision::Retry);
    assert_eq!(s.on_attempt(false), RetryDecision::Fail);
    assert_eq!(s.attempt, 3);
}

#[test]
fn success_ends_loop() {
    let mut s = RetryState::start(3).unwrap();
    assert_eq!(s.on_attempt(false), RetryDecision::Retry);
    assert_eq!(s.on_attempt(true), RetryDecision::Succeed);
    let mut one = RetryState::start(1).unwrap();
    assert_eq!(one.on_attempt(false), RetryDecision::Fail);
}

#[test]
fn delay_is_capped() {
    assert_eq!(next_delay_millis(200, 10_000), 200);
    assert_eq!(next_delay_millis(20_000, 10_000), 10_000);
    assert_eq!(next_delay_millis(10_000, 10_000), 10_000);
}
