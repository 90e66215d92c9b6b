use wbm_downloader::error::Error;
use wbm_downloader::retry::{backoff_millis, on_transport_error, run_with_retries, RetryDecision};

#[test]
fn always_failing_transport_uses_all_four_attempts() {
    let outcomes = vec![false, false, false, false];
    let (result, attempts) = run_with_retries(&outcomes, 3);
    assert_eq!(result, Err(Error::FetchExhausted));
    assert_eq!(attempts, 4);
}

#[test]
fn one_failure_then_success_takes_two_attempts() {
    let outcomes = vec![false, true, false, false];
    let (result, attempts) = run_with_retries(&outcomes, 3);
    assert_eq!(result, Ok(()));
    assert_eq!(attempts, 2);
}

#[test]
fn immediate_success_takes_one_attempt() {
    let outcomes = vec![true, false, false, false];
    let (result, attempts) = run_with_retries(&outcomes, 3);
    assert_eq!(result, Ok(()));
    assert_eq!(attempts, 1);
}

#[test]
fn success_on_the_last_retry_is_still_a_success() {
    let outcomes = vec![false, false, false, true];
    let (result, attempts) = run_with_retries(&outcomes, 3);
    assert_eq!(result, Ok(()));
    assert_eq!(attempts, 4);
}

#[test]
fn backoff_grows_as_retries_shrink() {
    assert_eq!(backoff_millis(3), 1666);
    assert_eq!(backoff_millis(2), 2500);
    assert_eq!(backoff_millis(1), 5000);
}

#[test]
fn transport_error_decisions() {
    assert_eq!(on_transport_error(3), RetryDecision::RetryAfterMillis(1666));
    assert_eq!(on_transport_error(1), RetryDecision::RetryAfterMillis(5000));
    assert_eq!(on_transport_error(0), RetryDecision::GiveUp);
}

#[test]
fn error_messages_name_the_failure() {
    assert_eq!(Error::InvalidDate.message(), "Invalid date");
    assert_eq!(Error::OutputDirectoryDoesNotExist.message(), "Output directory does not exist");
    assert_eq!(Error::DateRangeBackwards.message(), "From date is after until date");
    assert_eq!(Error::FetchExhausted.message(), "Fetch retries exhausted");
}
