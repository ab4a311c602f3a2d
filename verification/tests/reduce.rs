use rust_mailer_api::api::{BulkEmailResponse, EmailResult};
use rust_mailer_api::reduce::{classify, count_successes, reduce, CompletionStatus};

fn result(email: &str, success: bool) -> EmailResult {
    EmailResult {
        email: email.to_string(),
        success,
        message: if success { "sent".to_string() } else { "timed out".to_string() },
    }
}

fn batch(flags: &[bool]) -> Vec<EmailResult> {
    flags.iter().enumerate().map(|(i, ok)| result(&format!("r{}@example.com", i), *ok)).collect()
}

#[test]
fn counts_the_successes() {
    assert_eq!(count_successes(&batch(&[])), 0);
    assert_eq!(count_successes(&batch(&[false])), 0);
    assert_eq!(count_successes(&batch(&[true])), 1);
    assert_eq!(count_successes(&batch(&[true, false, true, true, false])), 3);
}

#[test]
fn reduce_keeps_results_and_counts_them() {
    let results = batch(&[true, false, true]);
    let response = reduce(results.clone());
    assert_eq!(
        response,
        BulkEmailResponse { total_emails: 3, successful: 2, failed: 1, results }
    );
}

#[test]
fn counts_add_up_for_every_mix() {
    for mask in 0u32..64 {
        for len in 0..=6 {
            let flags: Vec<bool> = (0..len).map(|i| mask & (1 << i) != 0).collect();
            let response = reduce(batch(&flags));
            assert_eq!(response.total_emails, len);
            assert_eq!(response.results.len(), len);
            assert_eq!(response.successful + response.failed, response.total_emails);
            assert_eq!(response.successful, flags.iter().filter(|ok| **ok).count());
        }
    }
}

#[test]
fn all_successes_give_all_succeeded_and_200() {
    let status = classify(&reduce(batch(&[true, true, true])));
    assert_eq!(status, CompletionStatus::AllSucceeded);
    assert_eq!(status.http_status(), 200);
}

#[test]
fn all_failures_give_all_failed_and_500() {
    let status = classify(&reduce(batch(&[false, false])));
    assert_eq!(status, CompletionStatus::AllFailed);
    assert_eq!(status.http_status(), 500);
}

#[test]
fn a_mix_gives_partial_failure_and_206() {
    for flags in [[true, false], [false, true]] {
        let status = classify(&reduce(batch(&flags)));
        assert_eq!(status, CompletionStatus::PartialFailure);
        assert_eq!(status.http_status(), 206);
    }
}

#[test]
fn an_empty_batch_has_no_failure() {
    let response = reduce(Vec::new());
    assert_eq!(
        response,
        BulkEmailResponse { total_emails: 0, successful: 0, failed: 0, results: vec![] }
    );
    assert_eq!(classify(&response), CompletionStatus::AllSucceeded);
}

#[test]
fn classify_goes_by_the_counts() {
    let response =
        BulkEmailResponse { total_emails: 5, successful: 0, failed: 5, results: Vec::new() };
    assert_eq!(classify(&response), CompletionStatus::AllFailed);
    let response =
        BulkEmailResponse { total_emails: 5, successful: 5, failed: 0, results: Vec::new() };
    assert_eq!(classify(&response), CompletionStatus::AllSucceeded);
    let response =
        BulkEmailResponse { total_emails: 5, successful: 4, failed: 1, results: Vec::new() };
    assert_eq!(classify(&response), CompletionStatus::PartialFailure);
}

#[test]
fn reducing_twice_gives_the_same() {
    let results = batch(&[true, false, false, true]);
    let first = reduce(results.clone());
    let second = reduce(results.clone());
    assert_eq!(first, second);
    assert_eq!(first.results, results);
    let again = reduce(first.results.clone());
    assert_eq!(again, first);
}
