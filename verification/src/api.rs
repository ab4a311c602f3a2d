//! The messages that the service takes and gives, and the checks made on a
//! request before anything is sent.

use crate::address::{is_valid_address, is_valid_email};
use crate::email::{
    emails, initial, lemma_dispatch_is_complete, lemma_outcome_success, outcomes_of, run,
    step_action, BulkDispatch, BulkDispatchView, DispatchActionView, DispatchEventView,
    MessageTemplate, MessageTemplateView, UnitEndView,
};
use crate::reduce::{
    classify, classify_spec, is_batch_result, lemma_success_count, reduce, reduce_spec, status_code,
    CompletionStatus,
};
use crate::text::{is_blank, is_blank_text};
use vstd::prelude::*;

verus! {


/// The status of an answer to a request that was carried out in full.
pub const STATUS_OK: u16 = 200;

/// The status of an answer to a bulk request of which only a part went through.
pub const STATUS_PARTIAL_CONTENT: u16 = 206;

/// The status of an answer to a request that was turned down unsent.
pub const STATUS_BAD_REQUEST: u16 = 400;

/// The status of an answer to a request of which nothing could be sent.
pub const STATUS_INTERNAL_SERVER_ERROR: u16 = 500;

/// The text of an optional string.
pub open spec fn option_text(s: Option<String>) -> Option<Seq<char>> {
    match s {
        Some(t) => Some(t@),
        None => None,
    }
}

/// The texts of a list of strings, in order.
pub open spec fn texts(list: Seq<String>) -> Seq<Seq<char>> {
    Seq::new(list.len(), |i: int| list[i]@)
}

/// A request to send one message to one recipient.
#[derive(Clone, Debug, PartialEq, Eq)]
pub struct EmailRequest {
    pub to: String,
    pub subject: String,
    pub body: String,
    pub html: Option<String>,
}

/// What the contracts see of [`EmailRequest`].
pub struct EmailRequestView {
    pub to: Seq<char>,
    pub subject: Seq<char>,
    pub body: Seq<char>,
    pub html: Option<Seq<char>>,
}

impl View for EmailRequest {
    type V = EmailRequestView;

    open spec fn view(&self) -> EmailRequestView {
        EmailRequestView {
            to: self.to@,
            subject: self.subject@,
            body: self.body@,
            html: option_text(self.html),
        }
    }
}

/// A request to send one message to each of several recipients.
#[derive(Clone, Debug, PartialEq, Eq)]
pub struct BulkEmailRequest {
    pub recipients: Vec<String>,
    pub subject: String,
    pub body: String,
    pub html: Option<String>,
}

/// What the contracts see of [`BulkEmailRequest`].
pub struct BulkEmailRequestView {
    pub recipients: Seq<Seq<char>>,
    pub subject: Seq<char>,
    pub body: Seq<char>,
    pub html: Option<Seq<char>>,
}

impl View for BulkEmailRequest {
    type V = BulkEmailRequestView;

    open spec fn view(&self) -> BulkEmailRequestView {
        BulkEmailRequestView {
            recipients: texts(self.recipients@),
            subject: self.subject@,
            body: self.body@,
            html: option_text(self.html),
        }
    }
}

/// How the delivery to one recipient ended.
#[derive(Debug, PartialEq, Eq)]
pub struct EmailResult {
    pub email: String,
    pub success: bool,
    pub message: String,
}

/// What the contracts see of [`EmailResult`].
pub struct EmailResultView {
    pub email: Seq<char>,
    pub success: bool,
    pub message: Seq<char>,
}

impl View for EmailResult {
    type V = EmailResultView;

    open spec fn view(&self) -> EmailResultView {
        EmailResultView { email: self.email@, success: self.success, message: self.message@ }
    }
}

impl Clone for EmailResult {
    fn clone(&self) -> (copy: Self)
        ensures
            copy@ == self@,
    {
        EmailResult {
            email: self.email.clone(),
            success: self.success,
            message: self.message.clone(),
        }
    }
}

/// The views of a list of results, in order.
pub open spec fn result_views(list: Seq<EmailResult>) -> Seq<EmailResultView> {
    Seq::new(list.len(), |i: int| list[i]@)
}

/// The answer to a bulk request: the counts and the result for each recipient.
#[derive(Clone, Debug, PartialEq, Eq)]
pub struct BulkEmailResponse {
    pub total_emails: usize,
    pub successful: usize,
    pub failed: usize,
    pub results: Vec<EmailResult>,
}

/// What the contracts see of [`BulkEmailResponse`].
pub struct BulkEmailResponseView {
    pub total_emails: nat,
    pub successful: nat,
    pub failed: nat,
    pub results: Seq<EmailResultView>,
}

impl View for BulkEmailResponse {
    type V = BulkEmailResponseView;

    open spec fn view(&self) -> BulkEmailResponseView {
        BulkEmailResponseView {
            total_emails: self.total_emails as nat,
            successful: self.successful as nat,
            failed: self.failed as nat,
            results: result_views(self.results@),
        }
    }
}

/// The answer to a request for one message.
#[derive(Clone, Debug, PartialEq, Eq)]
pub struct EmailResponse {
    pub success: bool,
    pub message: String,
    pub email_sent_to: Option<String>,
}

/// What the contracts see of [`EmailResponse`].
pub struct EmailResponseView {
    pub success: bool,
    pub message: Seq<char>,
    pub email_sent_to: Option<Seq<char>>,
}

impl View for EmailResponse {
    type V = EmailResponseView;

    open spec fn view(&self) -> EmailResponseView {
        EmailResponseView {
            success: self.success,
            message: self.message@,
            email_sent_to: option_text(self.email_sent_to),
        }
    }
}

/// The answer to a health probe.
#[derive(Clone, Debug, PartialEq, Eq)]
pub struct HealthResponse {
    pub status: String,
    pub service: String,
    pub version: String,
}

/// What the contracts see of [`HealthResponse`].
pub struct HealthResponseView {
    pub status: Seq<char>,
    pub service: Seq<char>,
    pub version: Seq<char>,
}

impl View for HealthResponse {
    type V = HealthResponseView;

    open spec fn view(&self) -> HealthResponseView {
        HealthResponseView {
            status: self.status@,
            service: self.service@,
            version: self.version@,
        }
    }
}

/// The answer to a health probe: always the same three texts.
pub fn health_check() -> (response: HealthResponse)
    ensures
        response@ == (HealthResponseView {
            status: "healthy"@,
            service: "rust-mailer-api"@,
            version: "0.1.0"@,
        }),
{
    HealthResponse {
        status: String::from_str("healthy"),
        service: String::from_str("rust-mailer-api"),
        version: String::from_str("0.1.0"),
    }
}

/// An answer to a request for one message, with its status.
#[derive(Clone, Debug, PartialEq, Eq)]
pub struct EmailReply {
    pub status: u16,
    pub body: EmailResponse,
}

/// What the contracts see of [`EmailReply`].
pub struct EmailReplyView {
    pub status: u16,
    pub body: EmailResponseView,
}

impl View for EmailReply {
    type V = EmailReplyView;

    open spec fn view(&self) -> EmailReplyView {
        EmailReplyView { status: self.status, body: self.body@ }
    }
}

/// What follows a request for one message: it is turned down with this
/// answer, or the message of this request is to be sent.
#[derive(Clone, Debug, PartialEq, Eq)]
pub enum EmailStep {
    Reject(EmailReply),
    Send(EmailRequest),
}

/// What the contracts see of [`EmailStep`].
pub enum EmailStepView {
    Reject(EmailReplyView),
    Send(EmailRequestView),
}

impl View for EmailStep {
    type V = EmailStepView;

    open spec fn view(&self) -> EmailStepView {
        match self {
            EmailStep::Reject(reply) => EmailStepView::Reject(reply@),
            EmailStep::Send(request) => EmailStepView::Send(request@),
        }
    }
}

/// The answer that turns a request down for the reason `message`.
pub open spec fn email_rejection(message: Seq<char>) -> EmailReplyView {
    EmailReplyView {
        status: STATUS_BAD_REQUEST,
        body: EmailResponseView { success: false, message, email_sent_to: None },
    }
}

/// What follows a request for one message. The address is checked first,
/// then the subject, then the body; the first check that fails turns the
/// request down.
pub open spec fn email_step(request: EmailRequestView) -> EmailStepView {
    if !is_valid_address(request.to) {
        EmailStepView::Reject(email_rejection("Invalid email address format"@))
    } else if is_blank_text(request.subject) {
        EmailStepView::Reject(email_rejection("Subject cannot be empty"@))
    } else if is_blank_text(request.body) {
        EmailStepView::Reject(email_rejection("Body cannot be empty"@))
    } else {
        EmailStepView::Send(request)
    }
}

/// The text of the result of a send.
pub open spec fn sent_view(sent: Result<(), String>) -> Result<(), Seq<char>> {
    match sent {
        Ok(_) => Ok(()),
        Err(reason) => Err(reason@),
    }
}

/// The answer to a request whose message was handed to the sender: `sent`
/// is `Ok` if the sender took it, and the sender's reason if not.
pub open spec fn email_reply(request: EmailRequestView, sent: Result<(), Seq<char>>) -> EmailReplyView {
    match sent {
        Ok(_) => EmailReplyView {
            status: STATUS_OK,
            body: EmailResponseView {
                success: true,
                message: "Email sent successfully"@,
                email_sent_to: Some(request.to),
            },
        },
        Err(reason) => EmailReplyView {
            status: STATUS_INTERNAL_SERVER_ERROR,
            body: EmailResponseView {
                success: false,
                message: "Failed to send email: "@ + reason,
                email_sent_to: None,
            },
        },
    }
}

fn reject_email(message: &str) -> (reply: EmailReply)
    ensures
        reply@ == email_rejection(message@),
{
    EmailReply {
        status: STATUS_BAD_REQUEST,
        body: EmailResponse {
            success: false,
            message: String::from_str(message),
            email_sent_to: None,
        },
    }
}

/// Checks a request for one message before anything is sent.
pub fn send_email_handler(request: EmailRequest) -> (step: EmailStep)
    ensures
        step@ == email_step(request@),
{
    if !is_valid_email(request.to.as_str()) {
        EmailStep::Reject(reject_email("Invalid email address format"))
    } else if is_blank(request.subject.as_str()) {
        EmailStep::Reject(reject_email("Subject cannot be empty"))
    } else if is_blank(request.body.as_str()) {
        EmailStep::Reject(reject_email("Body cannot be empty"))
    } else {
        EmailStep::Send(request)
    }
}

/// Makes the answer to a request once its message was handed to the sender.
pub fn send_email_reply(request: EmailRequest, sent: Result<(), String>) -> (reply: EmailReply)
    ensures
        reply@ == email_reply(request@, sent_view(sent)),
{
    match sent {
        Ok(_) => EmailReply {
            status: STATUS_OK,
            body: EmailResponse {
                success: true,
                message: String::from_str("Email sent successfully"),
                email_sent_to: Some(request.to),
            },
        },
        Err(reason) => EmailReply {
            status: STATUS_INTERNAL_SERVER_ERROR,
            body: EmailResponse {
                success: false,
                message: String::from_str("Failed to send email: ").concat(reason.as_str()),
                email_sent_to: None,
            },
        },
    }
}

/// An answer to a bulk request, with its status.
#[derive(Clone, Debug, PartialEq, Eq)]
pub struct BulkReply {
    pub status: u16,
    pub body: BulkEmailResponse,
}

/// What the contracts see of [`BulkReply`].
pub struct BulkReplyView {
    pub status: u16,
    pub body: BulkEmailResponseView,
}

impl View for BulkReply {
    type V = BulkReplyView;

    open spec fn view(&self) -> BulkReplyView {
        BulkReplyView { status: self.status, body: self.body@ }
    }
}

/// What follows a bulk request: it is turned down with this answer, or a
/// dispatch to its recipients is set up, with nothing started yet.
pub enum BulkStep {
    Reject(BulkReply),
    Dispatch(BulkDispatch),
}

/// What the contracts see of [`BulkStep`].
pub enum BulkStepView {
    Reject(BulkReplyView),
    Dispatch(BulkDispatchView),
}

impl View for BulkStep {
    type V = BulkStepView;

    open spec fn view(&self) -> BulkStepView {
        match self {
            BulkStep::Reject(reply) => BulkStepView::Reject(reply@),
            BulkStep::Dispatch(state) => BulkStepView::Dispatch(state@),
        }
    }
}

/// The test that picks the addresses that are not valid.
pub open spec fn is_invalid() -> spec_fn(Seq<char>) -> bool {
    |address: Seq<char>| !is_valid_address(address)
}

/// Those of `recipients` that are not valid addresses, in order.
pub open spec fn invalid_addresses(recipients: Seq<Seq<char>>) -> Seq<Seq<char>> {
    recipients.filter(is_invalid())
}

/// The result that reports `address` as not valid.
pub open spec fn invalid_outcome(address: Seq<char>) -> EmailResultView {
    EmailResultView { email: address, success: false, message: "invalid address format"@ }
}

/// One failed result for each of `addresses`, in order.
pub open spec fn invalid_outcomes(addresses: Seq<Seq<char>>) -> Seq<EmailResultView> {
    Seq::new(addresses.len(), |i: int| invalid_outcome(addresses[i]))
}

/// The body of the answer that turns down a request without a subject,
/// without a body or without recipients.
pub open spec fn empty_response() -> BulkEmailResponseView {
    BulkEmailResponseView { total_emails: 0, successful: 0, failed: 0, results: Seq::empty() }
}

/// The body of the answer that turns down a request because of its
/// addresses: one failure for each address that is not valid, no success,
/// and nothing else counted.
pub open spec fn invalid_response(recipients: Seq<Seq<char>>) -> BulkEmailResponseView {
    BulkEmailResponseView {
        total_emails: invalid_addresses(recipients).len(),
        successful: 0,
        failed: invalid_addresses(recipients).len(),
        results: invalid_outcomes(invalid_addresses(recipients)),
    }
}

/// The message of a bulk request.
pub open spec fn template_of(request: BulkEmailRequestView) -> MessageTemplateView {
    MessageTemplateView { subject: request.subject, body: request.body, html: request.html }
}

/// What follows a bulk request. A blank subject, a blank body or an empty
/// list of recipients turns the request down; so does any address that is
/// not valid. Only a request that passes all of these is dispatched.
pub open spec fn bulk_step(request: BulkEmailRequestView) -> BulkStepView {
    if is_blank_text(request.subject) || is_blank_text(request.body) || request.recipients.len()
        == 0 {
        BulkStepView::Reject(BulkReplyView { status: STATUS_BAD_REQUEST, body: empty_response() })
    } else if invalid_addresses(request.recipients).len() > 0 {
        BulkStepView::Reject(
            BulkReplyView {
                status: STATUS_BAD_REQUEST,
                body: invalid_response(request.recipients),
            },
        )
    } else {
        BulkStepView::Dispatch(initial(request.recipients, template_of(request)))
    }
}

/// The answer to a bulk request whose dispatch ended with `results`.
pub open spec fn bulk_reply(results: Seq<EmailResultView>) -> BulkReplyView {
    BulkReplyView {
        status: status_code(classify_spec(reduce_spec(results))),
        body: reduce_spec(results),
    }
}

fn reject_bulk(body: BulkEmailResponse) -> (step: BulkStep)
    ensures
        step@ == BulkStepView::Reject(BulkReplyView { status: STATUS_BAD_REQUEST, body: body@ }),
{
    BulkStep::Reject(BulkReply { status: STATUS_BAD_REQUEST, body })
}

/// Makes one failed result for each of `recipients` that is not a valid address.
pub fn invalid_results(recipients: &Vec<String>) -> (results: Vec<EmailResult>)
    ensures
        result_views(results@) == invalid_outcomes(invalid_addresses(texts(recipients@))),
        results.len() <= recipients.len(),
{
    let mut results: Vec<EmailResult> = Vec::new();
    let mut i: usize = 0;
    proof {
        reveal(Seq::filter);
        assert(texts(recipients@.take(0)) =~= Seq::<Seq<char>>::empty());
        assert(result_views(results@) =~= invalid_outcomes(
            invalid_addresses(texts(recipients@.take(0))),
        ));
    }
    while i < recipients.len()
        invariant
            i <= recipients.len(),
            results.len() <= i,
            result_views(results@) == invalid_outcomes(
                invalid_addresses(texts(recipients@.take(i as int))),
            ),
        decreases recipients.len() - i,
    {
        let ghost seen = texts(recipients@.take(i as int));
        let ghost address = recipients@[i as int]@;
        proof {
            assert(texts(recipients@.take(i + 1)) =~= seen.push(address));
            seen.lemma_filter_push(address, is_invalid());
        }
        if !is_valid_email(recipients[i].as_str()) {
            let result = EmailResult {
                email: recipients[i].clone(),
                success: false,
                message: String::from_str("invalid address format"),
            };
            proof {
                let bad = invalid_addresses(seen);
                assert(result_views(results@.push(result)) =~= result_views(results@).push(
                    result@,
                ));
                assert(invalid_outcomes(bad.push(address)) =~= invalid_outcomes(bad).push(
                    invalid_outcome(address),
                ));
            }
            results.push(result);
        }
        i = i + 1;
    }
    assert(recipients@.take(i as int) =~= recipients@);
    results
}

/// Checks a bulk request before anything is sent, and sets the dispatch up
/// if the request passes.
pub fn send_bulk_email_handler(request: BulkEmailRequest) -> (step: BulkStep)
    ensures
        step@ == bulk_step(request@),
{
    if is_blank(request.subject.as_str()) || is_blank(request.body.as_str())
        || request.recipients.len() == 0 {
        let results: Vec<EmailResult> = Vec::new();
        assert(result_views(results@) =~= Seq::<EmailResultView>::empty());
        return reject_bulk(BulkEmailResponse { total_emails: 0, successful: 0, failed: 0, results });
    }
    let results = invalid_results(&request.recipients);
    assert(result_views(results@).len() == results.len());
    if results.len() > 0 {
        return reject_bulk(
            BulkEmailResponse {
                total_emails: results.len(),
                successful: 0,
                failed: results.len(),
                results,
            },
        );
    }
    let template =
        MessageTemplate { subject: request.subject, body: request.body, html: request.html };
    BulkStep::Dispatch(BulkDispatch::new(request.recipients, template))
}

/// Makes the answer to a bulk request from the results of its dispatch.
pub fn send_bulk_email_reply(results: Vec<EmailResult>) -> (reply: BulkReply)
    ensures
        reply@ == bulk_reply(result_views(results@)),
{
    let body = reduce(results);
    let status = classify(&body).http_status();
    BulkReply { status, body }
}

/// No address is reported exactly when every recipient is a valid address;
/// and an address that is not valid is among those reported.
pub proof fn lemma_invalid_addresses(recipients: Seq<Seq<char>>)
    ensures
        invalid_addresses(recipients).len() <= recipients.len(),
        invalid_addresses(recipients).len() == 0 <==> (forall|i: int|
            0 <= i < recipients.len() ==> is_valid_address(#[trigger] recipients[i])),
        invalid_addresses(recipients).len() == recipients.len() <==> (forall|i: int|
            0 <= i < recipients.len() ==> !is_valid_address(#[trigger] recipients[i])),
        forall|i: int|
            0 <= i < recipients.len() && !is_valid_address(#[trigger] recipients[i])
                ==> invalid_addresses(recipients).contains(recipients[i]),
        forall|k: int|
            0 <= k < invalid_addresses(recipients).len() ==> !is_valid_address(
                #[trigger] invalid_addresses(recipients)[k],
            ) && recipients.contains(invalid_addresses(recipients)[k]),
    decreases recipients.len(),
{
    reveal(Seq::filter);
    let bad = invalid_addresses(recipients);
    if recipients.len() > 0 {
        let front = recipients.drop_last();
        let front_bad = invalid_addresses(front);
        lemma_invalid_addresses(front);
        assert(forall|i: int| 0 <= i < front.len() ==> front[i] == recipients[i]);
        assert forall|i: int|
            0 <= i < recipients.len() && !is_valid_address(
                #[trigger] recipients[i],
            ) implies bad.contains(recipients[i]) by {
            if i < front.len() {
                assert(!is_valid_address(front[i]));
                let k = choose|k: int| 0 <= k < front_bad.len() && front_bad[k] == front[i];
                assert(bad[k] == recipients[i]);
            } else {
                assert(bad.last() == recipients[i]);
            }
        }
        assert forall|k: int| 0 <= k < bad.len() implies !is_valid_address(#[trigger] bad[k])
            && recipients.contains(bad[k]) by {
            if k < front_bad.len() {
                assert(bad[k] == front_bad[k]);
                let i = choose|i: int| 0 <= i < front.len() && front[i] == front_bad[k];
                assert(recipients[i] == bad[k]);
            } else {
                assert(bad[k] == recipients.last());
                assert(recipients[recipients.len() - 1] == bad[k]);
            }
        }
        if bad.len() == 0 {
            assert forall|i: int| 0 <= i < recipients.len() implies is_valid_address(
                #[trigger] recipients[i],
            ) by {
                if i < front.len() {
                    assert(is_valid_address(front[i]));
                }
            }
        }
        if bad.len() == recipients.len() {
            assert forall|i: int| 0 <= i < recipients.len() implies !is_valid_address(
                #[trigger] recipients[i],
            ) by {
                if i < front.len() {
                    assert(!is_valid_address(front[i]));
                }
            }
        }
    }
}

/// A request without a subject, without a body or without recipients is
/// turned down with status 400 and an empty answer, whatever else it holds,
/// and no dispatch is set up.
pub proof fn lemma_incomplete_request_is_rejected(request: BulkEmailRequestView)
    requires
        is_blank_text(request.subject) || is_blank_text(request.body) || request.recipients.len()
            == 0,
    ensures
        bulk_step(request) == BulkStepView::Reject(
            BulkReplyView { status: 400, body: empty_response() },
        ),
{
}

/// A request with a recipient that is not a valid address is turned down
/// with status 400, and no dispatch is set up. Where the request has a
/// subject and a body, the answer holds a failure for each address that is
/// not valid, that recipient's among them, and its counts are those of a
/// batch result.
pub proof fn lemma_invalid_recipient_is_rejected(request: BulkEmailRequestView, i: int)
    requires
        0 <= i < request.recipients.len(),
        !is_valid_address(request.recipients[i]),
    ensures
        bulk_step(request) matches BulkStepView::Reject(reply) && reply.status == 400,
        !is_blank_text(request.subject) && !is_blank_text(request.body) ==> bulk_step(request)
            == BulkStepView::Reject(
            BulkReplyView { status: 400, body: invalid_response(request.recipients) },
        ),
        invalid_response(request.recipients).results.contains(
            invalid_outcome(request.recipients[i]),
        ),
        invalid_response(request.recipients).failed > 0,
        is_batch_result(invalid_response(request.recipients)),
{
    lemma_invalid_addresses(request.recipients);
    let bad = invalid_addresses(request.recipients);
    let k = choose|k: int| 0 <= k < bad.len() && bad[k] == request.recipients[i];
    assert(invalid_outcomes(bad)[k] == invalid_outcome(request.recipients[i]));
    lemma_success_count(invalid_outcomes(bad));
}

/// A dispatch is set up exactly for the requests that have a subject, a
/// body and at least one recipient, and whose recipients are all valid
/// addresses; it is then a dispatch to the recipients of the request.
pub proof fn lemma_dispatch_needs_valid_request(request: BulkEmailRequestView)
    ensures
        bulk_step(request) is Dispatch <==> !is_blank_text(request.subject) && !is_blank_text(
            request.body,
        ) && request.recipients.len() > 0 && (forall|i: int|
            0 <= i < request.recipients.len() ==> is_valid_address(#[trigger] request.recipients[i])),
        bulk_step(request) is Dispatch ==> bulk_step(request) == BulkStepView::Dispatch(
            initial(request.recipients, template_of(request)),
        ),
{
    lemma_invalid_addresses(request.recipients);
}

/// The body of every answer to a bulk request is a batch result: whether
/// the request is turned down or answered after its dispatch, the successes
/// and the failures in the body add up to its total, which is the number of
/// its results.
pub proof fn lemma_every_answer_is_a_batch_result(
    request: BulkEmailRequestView,
    results: Seq<EmailResultView>,
)
    ensures
        bulk_step(request) matches BulkStepView::Reject(reply) ==> is_batch_result(reply.body)
            && reply.body.successful + reply.body.failed == reply.body.total_emails
            && reply.body.total_emails == reply.body.results.len(),
        is_batch_result(bulk_reply(results).body),
        bulk_reply(results).body.successful + bulk_reply(results).body.failed == bulk_reply(
            results,
        ).body.total_emails,
        bulk_reply(results).body.total_emails == results.len(),
{
    reveal(Seq::filter);
    lemma_success_count(results);
    lemma_success_count(invalid_outcomes(invalid_addresses(request.recipients)));
    lemma_success_count(Seq::<EmailResultView>::empty());
}

/// The answer to a dispatched request accounts for every recipient: when
/// the dispatch of a request hands out its results, after whatever events
/// in whatever order, the answer made from them holds one result for each
/// recipient of the request, its total is the number of recipients, and its
/// successes and failures add up to that total.
pub proof fn lemma_reply_accounts_for_recipients(
    request: BulkEmailRequestView,
    events: Seq<DispatchEventView>,
    last: DispatchEventView,
)
    requires
        bulk_step(request) is Dispatch,
    ensures
        step_action(
            run(initial(request.recipients, template_of(request)), events),
            last,
        ) matches DispatchActionView::Finish(results) ==> {
            let reply = bulk_reply(results);
            &&& emails(reply.body.results) == request.recipients
            &&& reply.body.total_emails == request.recipients.len()
            &&& reply.body.successful + reply.body.failed == reply.body.total_emails
            &&& reply.status == 200 || reply.status == 206 || reply.status == 500
        },
{
    let start = initial(request.recipients, template_of(request));
    lemma_dispatch_is_complete(request.recipients, template_of(request), events, last);
    if step_action(run(start, events), last) is Finish {
        lemma_success_count(step_action(run(start, events), last)->Finish_0);
    }
}

/// The status of the answer goes by how the units ended. It is 200 when
/// every send succeeded; 500 when there was a unit and no send succeeded,
/// whether the sender failed, the deadline passed or the unit broke down;
/// and 206 when some sends succeeded and some did not.
pub proof fn lemma_status_follows_ends(recipients: Seq<Seq<char>>, ends: Seq<UnitEndView>)
    requires
        ends.len() == recipients.len(),
    ensures
        (forall|i: int| 0 <= i < ends.len() ==> ends[i] is Sent) ==> classify_spec(
            bulk_reply(outcomes_of(recipients, ends)).body,
        ) == CompletionStatus::AllSucceeded && bulk_reply(outcomes_of(recipients, ends)).status
            == 200,
        ends.len() > 0 && (forall|i: int| 0 <= i < ends.len() ==> !(ends[i] is Sent))
            ==> classify_spec(bulk_reply(outcomes_of(recipients, ends)).body)
            == CompletionStatus::AllFailed && bulk_reply(outcomes_of(recipients, ends)).status
            == 500,
        (exists|i: int| 0 <= i < ends.len() && ends[i] is Sent) && (exists|j: int|
            0 <= j < ends.len() && !(ends[j] is Sent)) ==> classify_spec(
            bulk_reply(outcomes_of(recipients, ends)).body,
        ) == CompletionStatus::PartialFailure && bulk_reply(outcomes_of(recipients, ends)).status
            == 206,
{
    let results = outcomes_of(recipients, ends);
    lemma_success_count(results);
    assert forall|i: int| 0 <= i < results.len() implies ((#[trigger] results[i]).success
        <==> ends[i] is Sent) by {
        lemma_outcome_success(recipients[i], ends[i]);
    }
    if (exists|i: int| 0 <= i < ends.len() && ends[i] is Sent) && (exists|j: int|
        0 <= j < ends.len() && !(ends[j] is Sent)) {
        let i = choose|i: int| 0 <= i < ends.len() && ends[i] is Sent;
        let j = choose|j: int| 0 <= j < ends.len() && !(ends[j] is Sent);
        assert(results[i].success);
        assert(!results[j].success);
    }
}

} // verus!
