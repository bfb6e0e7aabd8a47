use remerge::retry::{run_upload_attempts, RetryDecision, UploadRetry};

#[test]
fn retry_blob_upload_succeeds_after_transient_failures() {
    let (attempts, succeeded) = run_upload_attempts(3, &vec![false, false, true]);
    assert!(succeeded, "upload should succeed after retry");
    assert_eq!(attempts, 3);
}

#[test]
fn retry_blob_upload_fails_after_max_attempts() {
    let (attempts, succeeded) = run_upload_attempts(3, &vec![false, false, false, false]);
    assert!(!succeeded, "upload should fail after exhausting retries");
    assert_eq!(attempts, 3);
}

#[test]
fn retry_backoff_grows_with_the_attempt() {
    let mut retry = UploadRetry::new(3);
    assert_eq!(retry.on_outcome(false), RetryDecision::RetryAfter { factor: 1 });
    assert_eq!(retry.on_outcome(false), RetryDecision::RetryAfter { factor: 2 });
    assert_eq!(retry.on_outcome(false), RetryDecision::GiveUp { attempts: 3 });
    let mut once = UploadRetry::new(0);
    assert_eq!(once.attempts, 1);
    assert_eq!(once.on_outcome(false), RetryDecision::GiveUp { attempts: 1 });
    let mut ok = UploadRetry::new(5);
    assert_eq!(ok.on_outcome(true), RetryDecision::Done);
}

#[test]
fn success_stops_the_attempts_at_once() {
    assert_eq!(run_upload_attempts(5, &vec![true, true, true, true, true]), (1, true));
    assert_eq!(run_upload_attempts(2, &vec![false, true]), (2, true));
    assert_eq!(run_upload_attempts(0, &vec![false]), (1, false));
}
