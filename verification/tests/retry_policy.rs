use retry_cmd::policy::{Next, RetryState};

#[test]
fn zero_times_selects_infinite_mode() {
    let s = RetryState::new(0);
    assert!(s.is_infinite);
    assert_eq!(s.remaining, 0);
}

#[test]
fn nonzero_times_selects_bounded_mode() {
    let s = RetryState::new(3);
    assert!(!s.is_infinite);
    assert_eq!(s.remaining, 3);
}

#[test]
fn success_stops_immediately_with_budget_left() {
    // Command that succeeds at once with three retries configured:
    // exactly one attempt is made.
    let r = retry_cmd::policy::run_attempts(3, &vec![true]);
    assert_eq!(r, Some((1, true)));
}

#[test]
fn bounded_failures_exhaust_after_times_plus_one_attempts() {
    // Command that always fails with two retries configured: exactly
    // three attempts (one initial plus two retries), then failure.
    let r = retry_cmd::policy::run_attempts(2, &vec![false, false, false]);
    assert_eq!(r, Some((3, false)));
}

#[test]
fn success_after_failures_stops_the_loop() {
    let r = retry_cmd::policy::run_attempts(5, &vec![false, true]);
    assert_eq!(r, Some((2, true)));
}

#[test]
fn infinite_mode_never_gives_up() {
    // A hundred induced failures in infinite mode: the loop still wants
    // another attempt.
    let r = retry_cmd::policy::run_attempts(0, &vec![false; 100]);
    assert_eq!(r, None);
}

#[test]
fn infinite_mode_ends_on_success() {
    let r = retry_cmd::policy::run_attempts(0, &vec![true]);
    assert_eq!(r, Some((1, true)));
}

#[test]
fn bounded_success_on_last_allowed_attempt() {
    // Two retries: the third and last allowed attempt succeeds.
    let r = retry_cmd::policy::run_attempts(2, &vec![false, false, true]);
    assert_eq!(r, Some((3, true)));
}

#[test]
fn step_by_step_bounded_countdown() {
    let mut s = RetryState::new(2);
    assert_eq!(s.on_attempt(false), Next::TryAgain);
    assert_eq!(s.remaining, 1);
    assert_eq!(s.on_attempt(false), Next::TryAgain);
    assert_eq!(s.remaining, 0);
    assert_eq!(s.on_attempt(false), Next::Exhausted);
    assert_eq!(s.remaining, 0);
}

#[test]
fn step_success_is_done_whatever_the_budget() {
    let mut bounded = RetryState::new(7);
    assert_eq!(bounded.on_attempt(true), Next::Done);
    assert_eq!(bounded.remaining, 7);
    let mut infinite = RetryState::new(0);
    assert_eq!(infinite.on_attempt(true), Next::Done);
}

#[test]
fn step_infinite_failure_changes_nothing() {
    let mut s = RetryState::new(0);
    for _ in 0..50 {
        assert_eq!(s.on_attempt(false), Next::TryAgain);
        assert!(s.is_infinite);
        assert_eq!(s.remaining, 0);
    }
}
