use rust_mailer_api::api::EmailResult;
use rust_mailer_api::email::{
    outcome, send_bulk_emails, BulkDispatch, DispatchAction, DispatchEvent, MessageTemplate,
    SendUnit, UnitEnd, SEND_TIMEOUT_SECS,
};

fn recipients(names: &[&str]) -> Vec<String> {
    names.iter().map(|name| name.to_string()).collect()
}

fn template() -> MessageTemplate {
    MessageTemplate {
        subject: "Hi".to_string(),
        body: "Hello".to_string(),
        html: Some("<p>Hello</p>".to_string()),
    }
}

fn dispatch(names: &[&str]) -> BulkDispatch {
    BulkDispatch::new(recipients(names), template())
}

fn ended(unit: usize, end: UnitEnd) -> DispatchEvent {
    DispatchEvent::UnitEnded { unit, end }
}

fn begun(names: &[&str]) -> BulkDispatch {
    let (state, _) = send_bulk_emails(dispatch(names), DispatchEvent::Begin);
    state
}

fn sent(email: &str) -> EmailResult {
    EmailResult { email: email.to_string(), success: true, message: "sent".to_string() }
}

fn failed(email: &str, message: &str) -> EmailResult {
    EmailResult { email: email.to_string(), success: false, message: message.to_string() }
}

#[test]
fn outcome_of_a_success() {
    assert_eq!(outcome("a@x.io".to_string(), UnitEnd::Sent), sent("a@x.io"));
}

#[test]
fn outcome_of_a_failure_carries_the_reason() {
    assert_eq!(
        outcome("a@x.io".to_string(), UnitEnd::Failed("relay unreachable".to_string())),
        failed("a@x.io", "relay unreachable")
    );
}

#[test]
fn outcome_of_a_timeout() {
    assert_eq!(outcome("a@x.io".to_string(), UnitEnd::TimedOut), failed("a@x.io", "timed out"));
}

#[test]
fn outcome_of_a_crash_carries_what_is_known() {
    assert_eq!(
        outcome("a@x.io".to_string(), UnitEnd::Crashed("task 7 panicked".to_string())),
        failed("a@x.io", "internal task failure: task 7 panicked")
    );
}

#[test]
fn the_deadline_is_thirty_seconds() {
    assert_eq!(SEND_TIMEOUT_SECS, 30);
}

#[test]
fn begin_asks_for_one_unit_per_recipient() {
    let state = dispatch(&["a@x.io", "b@x.io", "a@x.io"]);
    let (_, action) = send_bulk_emails(state, DispatchEvent::Begin);
    assert_eq!(
        action,
        DispatchAction::Spawn {
            units: vec![
                SendUnit { unit: 0, recipient: "a@x.io".to_string() },
                SendUnit { unit: 1, recipient: "b@x.io".to_string() },
                SendUnit { unit: 2, recipient: "a@x.io".to_string() },
            ],
            template: template(),
            timeout_secs: 30,
        }
    );
}

#[test]
fn a_second_begin_starts_nothing() {
    let state = begun(&["a@x.io", "b@x.io"]);
    let (state, action) = send_bulk_emails(state, DispatchEvent::Begin);
    assert_eq!(action, DispatchAction::Wait);
    let (state, _) = send_bulk_emails(state, ended(0, UnitEnd::Sent));
    let (state, _) = send_bulk_emails(state, DispatchEvent::Begin);
    let (_, action) = send_bulk_emails(state, ended(1, UnitEnd::Sent));
    assert_eq!(action, DispatchAction::Finish(vec![sent("a@x.io"), sent("b@x.io")]));
}

#[test]
fn an_empty_batch_finishes_at_once() {
    let (state, action) = send_bulk_emails(dispatch(&[]), DispatchEvent::Begin);
    assert_eq!(action, DispatchAction::Finish(Vec::new()));
    let (_, action) = send_bulk_emails(state, ended(0, UnitEnd::Sent));
    assert_eq!(action, DispatchAction::Finish(Vec::new()));
}

#[test]
fn waits_until_the_last_unit_has_ended() {
    let state = begun(&["a@x.io", "b@x.io", "c@x.io"]);
    let (state, action) = send_bulk_emails(state, ended(0, UnitEnd::Sent));
    assert_eq!(action, DispatchAction::Wait);
    let (state, action) = send_bulk_emails(state, ended(1, UnitEnd::TimedOut));
    assert_eq!(action, DispatchAction::Wait);
    let (_, action) =
        send_bulk_emails(state, ended(2, UnitEnd::Failed("authentication rejected".to_string())));
    assert_eq!(
        action,
        DispatchAction::Finish(vec![
            sent("a@x.io"),
            failed("b@x.io", "timed out"),
            failed("c@x.io", "authentication rejected"),
        ])
    );
}

#[test]
fn results_follow_the_recipients_whatever_the_order_of_the_ends() {
    let names = ["a@x.io", "b@x.io", "c@x.io", "d@x.io"];
    let orders: [[usize; 4]; 4] = [[0, 1, 2, 3], [3, 2, 1, 0], [2, 0, 3, 1], [1, 3, 0, 2]];
    for order in orders {
        let mut state = begun(&names);
        let mut last = DispatchAction::Wait;
        for unit in order {
            let (next, action) = send_bulk_emails(state, ended(unit, UnitEnd::Sent));
            state = next;
            last = action;
        }
        let expected: Vec<EmailResult> = names.iter().map(|name| sent(name)).collect();
        assert_eq!(last, DispatchAction::Finish(expected));
    }
}

#[test]
fn a_unit_that_never_answers_is_recorded_as_timed_out() {
    let state = begun(&["slow@x.io"]);
    let (_, action) = send_bulk_emails(state, ended(0, UnitEnd::TimedOut));
    assert_eq!(action, DispatchAction::Finish(vec![failed("slow@x.io", "timed out")]));
}

#[test]
fn a_crashed_unit_still_gives_a_result_for_its_recipient() {
    let state = begun(&["a@x.io", "b@x.io"]);
    let (state, _) = send_bulk_emails(state, ended(1, UnitEnd::Crashed("panicked".to_string())));
    let (_, action) = send_bulk_emails(state, ended(0, UnitEnd::Sent));
    assert_eq!(
        action,
        DispatchAction::Finish(vec![
            sent("a@x.io"),
            failed("b@x.io", "internal task failure: panicked"),
        ])
    );
}

#[test]
fn a_unit_is_recorded_once() {
    let state = begun(&["a@x.io", "b@x.io"]);
    let (state, _) = send_bulk_emails(state, ended(0, UnitEnd::TimedOut));
    let (state, action) = send_bulk_emails(state, ended(0, UnitEnd::Sent));
    assert_eq!(action, DispatchAction::Wait);
    let (state, action) = send_bulk_emails(state, ended(1, UnitEnd::Sent));
    let finished =
        DispatchAction::Finish(vec![failed("a@x.io", "timed out"), sent("b@x.io")]);
    assert_eq!(action, finished);
    let (_, action) =
        send_bulk_emails(state, ended(1, UnitEnd::Failed("too late".to_string())));
    assert_eq!(action, finished);
}

#[test]
fn an_unknown_unit_is_ignored() {
    let state = begun(&["a@x.io"]);
    let (state, action) = send_bulk_emails(state, ended(1, UnitEnd::Sent));
    assert_eq!(action, DispatchAction::Wait);
    let (state, action) = send_bulk_emails(state, ended(usize::MAX, UnitEnd::Sent));
    assert_eq!(action, DispatchAction::Wait);
    let (_, action) = send_bulk_emails(state, ended(0, UnitEnd::Sent));
    assert_eq!(action, DispatchAction::Finish(vec![sent("a@x.io")]));
}

#[test]
fn nothing_is_recorded_before_the_start() {
    let state = dispatch(&["a@x.io"]);
    let (state, action) = send_bulk_emails(state, ended(0, UnitEnd::Sent));
    assert_eq!(action, DispatchAction::Wait);
    let (state, action) = send_bulk_emails(state, DispatchEvent::Begin);
    assert_eq!(
        action,
        DispatchAction::Spawn {
            units: vec![SendUnit { unit: 0, recipient: "a@x.io".to_string() }],
            template: template(),
            timeout_secs: 30,
        }
    );
    let (_, action) = send_bulk_emails(state, ended(0, UnitEnd::TimedOut));
    assert_eq!(action, DispatchAction::Finish(vec![failed("a@x.io", "timed out")]));
}

#[test]
fn every_recipient_gets_exactly_one_result() {
    let names: Vec<String> = (0..50).map(|i| format!("user{}@example.com", i % 7)).collect();
    let (mut state, _) = send_bulk_emails(BulkDispatch::new(names.clone(), template()), DispatchEvent::Begin);
    let mut last = DispatchAction::Wait;
    for step in 0..50 {
        let unit = (step * 17) % 50;
        let end = match unit % 4 {
            0 => UnitEnd::Sent,
            1 => UnitEnd::Failed(format!("reason {}", unit)),
            2 => UnitEnd::TimedOut,
            _ => UnitEnd::Crashed(format!("fault {}", unit)),
        };
        let (next, action) = send_bulk_emails(state, ended(unit, end));
        state = next;
        assert_eq!(matches!(action, DispatchAction::Finish(_)), step == 49);
        last = action;
    }
    match last {
        DispatchAction::Finish(results) => {
            assert_eq!(results.len(), names.len());
            let emails: Vec<String> = results.iter().map(|r| r.email.clone()).collect();
            assert_eq!(emails, names);
            let mut got = emails.clone();
            let mut want = names.clone();
            got.sort();
            want.sort();
            assert_eq!(got, want);
            for (unit, result) in results.iter().enumerate() {
                assert_eq!(result.success, unit % 4 == 0);
            }
        }
        other => panic!("the dispatch did not finish: {:?}", other),
    }
}
