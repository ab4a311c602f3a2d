//! Folding the results of a batch into its counts, and the one status that
//! stands for the whole batch.

use crate::api::{
    result_views, BulkEmailResponse, BulkEmailResponseView, EmailResult, EmailResultView,
    STATUS_INTERNAL_SERVER_ERROR, STATUS_OK, STATUS_PARTIAL_CONTENT,
};
use vstd::prelude::*;

verus! {

/// The test that picks the successful results.
pub open spec fn succeeded() -> spec_fn(EmailResultView) -> bool {
    |r: EmailResultView| r.success
}

/// How many of `results` are successes.
pub open spec fn success_count(results: Seq<EmailResultView>) -> nat {
    results.filter(succeeded()).len()
}

/// The batch result that belongs to `results`: all of them, with the number
/// of successes, and the rest counted as failures.
pub open spec fn reduce_spec(results: Seq<EmailResultView>) -> BulkEmailResponseView {
    BulkEmailResponseView {
        total_emails: results.len(),
        successful: success_count(results),
        failed: (results.len() - success_count(results)) as nat,
        results,
    }
}

/// A response is a batch result when its counts are those of its own results.
pub open spec fn is_batch_result(response: BulkEmailResponseView) -> bool {
    response == reduce_spec(response.results)
}

/// The overall outcome of a batch.
#[derive(Clone, Copy, Debug, PartialEq, Eq, Structural)]
pub enum CompletionStatus {
    AllSucceeded,
    PartialFailure,
    AllFailed,
}

/// No failure: all succeeded. Failures and no success: all failed.
/// Otherwise the batch failed in part.
pub open spec fn classify_spec(response: BulkEmailResponseView) -> CompletionStatus {
    if response.failed == 0 {
        CompletionStatus::AllSucceeded
    } else if response.successful == 0 {
        CompletionStatus::AllFailed
    } else {
        CompletionStatus::PartialFailure
    }
}

/// The HTTP status that reports `status`.
pub open spec fn status_code(status: CompletionStatus) -> u16 {
    match status {
        CompletionStatus::AllSucceeded => STATUS_OK,
        CompletionStatus::PartialFailure => STATUS_PARTIAL_CONTENT,
        CompletionStatus::AllFailed => STATUS_INTERNAL_SERVER_ERROR,
    }
}

proof fn lemma_views_push(list: Seq<EmailResult>, last: EmailResult)
    ensures
        result_views(list.push(last)) == result_views(list).push(last@),
{
    assert(result_views(list.push(last)) =~= result_views(list).push(last@));
}

/// The count of successes is bounded by the length, reaches it exactly when
/// every result is a success, and is zero exactly when none is.
pub proof fn lemma_success_count(results: Seq<EmailResultView>)
    ensures
        success_count(results) <= results.len(),
        success_count(results) == results.len() <==> (forall|i: int|
            0 <= i < results.len() ==> (#[trigger] results[i]).success),
        success_count(results) == 0 <==> (forall|i: int|
            0 <= i < results.len() ==> !(#[trigger] results[i]).success),
    decreases results.len(),
{
    reveal(Seq::filter);
    if results.len() > 0 {
        let front = results.drop_last();
        lemma_success_count(front);
        assert(forall|i: int| 0 <= i < front.len() ==> front[i] == results[i]);
        if success_count(results) == results.len() {
            assert forall|i: int| 0 <= i < results.len() implies (#[trigger] results[i]).success by {
                if i < front.len() {
                    assert(front[i].success);
                }
            }
        }
        if success_count(results) == 0 {
            assert forall|i: int| 0 <= i < results.len() implies !(#[trigger] results[i]).success by {
                if i < front.len() {
                    assert(!front[i].success);
                }
            }
        }
    }
}

/// Counts the successes among `results`.
pub fn count_successes(results: &Vec<EmailResult>) -> (count: usize)
    ensures
        count == success_count(result_views(results@)),
{
    let mut count: usize = 0;
    let mut i: usize = 0;
    assert(result_views(results@.take(0)) =~= Seq::<EmailResultView>::empty());
    assert(success_count(Seq::<EmailResultView>::empty()) == 0) by {
        reveal(Seq::filter);
    }
    while i < results.len()
        invariant
            i <= results.len(),
            count <= i,
            count == success_count(result_views(results@.take(i as int))),
        decreases results.len() - i,
    {
        proof {
            let seen = results@.take(i as int);
            assert(results@.take(i + 1) =~= seen.push(results@[i as int]));
            lemma_views_push(seen, results@[i as int]);
            result_views(seen).lemma_filter_len_push(succeeded(), results@[i as int]@);
        }
        if results[i].success {
            count = count + 1;
        }
        i = i + 1;
    }
    assert(results@.take(i as int) =~= results@);
    count
}

/// Folds the results of a batch into the batch result.
pub fn reduce(results: Vec<EmailResult>) -> (response: BulkEmailResponse)
    ensures
        response@ == reduce_spec(result_views(results@)),
        is_batch_result(response@),
{
    let successful = count_successes(&results);
    proof {
        lemma_success_count(result_views(results@));
    }
    let total = results.len();
    BulkEmailResponse { total_emails: total, successful, failed: total - successful, results }
}

/// Picks the status that stands for the whole batch.
pub fn classify(response: &BulkEmailResponse) -> (status: CompletionStatus)
    ensures
        status == classify_spec(response@),
{
    if response.failed == 0 {
        CompletionStatus::AllSucceeded
    } else if response.successful == 0 {
        CompletionStatus::AllFailed
    } else {
        CompletionStatus::PartialFailure
    }
}

impl CompletionStatus {
    /// The HTTP status that reports this outcome.
    pub fn http_status(self) -> (code: u16)
        ensures
            code == status_code(self),
    {
        match self {
            CompletionStatus::AllSucceeded => STATUS_OK,
            CompletionStatus::PartialFailure => STATUS_PARTIAL_CONTENT,
            CompletionStatus::AllFailed => STATUS_INTERNAL_SERVER_ERROR,
        }
    }
}

/// In every batch result the successes and the failures add up to the
/// total, which is the number of results.
pub proof fn lemma_counts_add_up(response: BulkEmailResponseView)
    requires
        is_batch_result(response),
    ensures
        response.successful + response.failed == response.total_emails,
        response.total_emails == response.results.len(),
{
    lemma_success_count(response.results);
}

/// A batch in which every delivery succeeded is classified as all
/// succeeded, and reported with status 200.
pub proof fn lemma_all_succeeded(results: Seq<EmailResultView>)
    requires
        forall|i: int| 0 <= i < results.len() ==> (#[trigger] results[i]).success,
    ensures
        classify_spec(reduce_spec(results)) == CompletionStatus::AllSucceeded,
        status_code(classify_spec(reduce_spec(results))) == 200,
{
    lemma_success_count(results);
}

/// A batch with at least one delivery, in which every delivery failed, is
/// classified as all failed, and reported with status 500.
pub proof fn lemma_all_failed(results: Seq<EmailResultView>)
    requires
        results.len() > 0,
        forall|i: int| 0 <= i < results.len() ==> !(#[trigger] results[i]).success,
    ensures
        classify_spec(reduce_spec(results)) == CompletionStatus::AllFailed,
        status_code(classify_spec(reduce_spec(results))) == 500,
{
    lemma_success_count(results);
}

/// A batch in which one delivery succeeded and another failed is classified
/// as a partial failure, and reported with status 206.
pub proof fn lemma_partial_failure(results: Seq<EmailResultView>, good: int, bad: int)
    requires
        0 <= good < results.len(),
        0 <= bad < results.len(),
        results[good].success,
        !results[bad].success,
    ensures
        classify_spec(reduce_spec(results)) == CompletionStatus::PartialFailure,
        status_code(classify_spec(reduce_spec(results))) == 206,
{
    lemma_success_count(results);
}

/// Reducing is a function of the results alone, and reducing the results of
/// a batch result gives that batch result again.
pub proof fn lemma_reduce_idempotent(first: Seq<EmailResultView>, second: Seq<EmailResultView>)
    requires
        first =~= second,
    ensures
        reduce_spec(first) == reduce_spec(second),
        reduce_spec(reduce_spec(first).results) == reduce_spec(first),
        is_batch_result(reduce_spec(first)),
{
}

} // verus!
