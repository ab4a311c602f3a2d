//! Bulk dispatch: one unit of work for each recipient, and exactly one result
//! from each unit, however the unit ends.
//!
//! The units themselves run elsewhere. [`send_bulk_emails`] is the step
//! function of the dispatch: it takes the state and what has just happened,
//! and returns the next state and what to do next.

use crate::api::{option_text, result_views, texts, EmailResult, EmailResultView};
use vstd::prelude::*;

verus! {


/// The time, in seconds, that one delivery may take before it counts as timed out.
pub const SEND_TIMEOUT_SECS: u64 = 30;

/// The message of a batch: every recipient gets the same one.
#[derive(Debug, PartialEq, Eq)]
pub struct MessageTemplate {
    pub subject: String,
    pub body: String,
    /// The same content as HTML, for readers that show it.
    pub html: Option<String>,
}

/// What the contracts see of [`MessageTemplate`].
pub struct MessageTemplateView {
    pub subject: Seq<char>,
    pub body: Seq<char>,
    pub html: Option<Seq<char>>,
}

impl View for MessageTemplate {
    type V = MessageTemplateView;

    open spec fn view(&self) -> MessageTemplateView {
        MessageTemplateView {
            subject: self.subject@,
            body: self.body@,
            html: option_text(self.html),
        }
    }
}

impl Clone for MessageTemplate {
    fn clone(&self) -> (copy: Self)
        ensures
            copy@ == self@,
    {
        MessageTemplate {
            subject: self.subject.clone(),
            body: self.body.clone(),
            html: match &self.html {
                Some(html) => Some(html.clone()),
                None => None,
            },
        }
    }
}

/// How one unit of work ended.
#[derive(Clone, Debug, PartialEq, Eq)]
pub enum UnitEnd {
    /// The sender reported success before the deadline.
    Sent,
    /// The sender reported a failure before the deadline, with this reason.
    Failed(String),
    /// The deadline passed first.
    TimedOut,
    /// The unit itself broke down; the text says what is known of the fault.
    Crashed(String),
}

/// What the contracts see of [`UnitEnd`].
pub enum UnitEndView {
    Sent,
    Failed(Seq<char>),
    TimedOut,
    Crashed(Seq<char>),
}

impl View for UnitEnd {
    type V = UnitEndView;

    open spec fn view(&self) -> UnitEndView {
        match self {
            UnitEnd::Sent => UnitEndView::Sent,
            UnitEnd::Failed(reason) => UnitEndView::Failed(reason@),
            UnitEnd::TimedOut => UnitEndView::TimedOut,
            UnitEnd::Crashed(info) => UnitEndView::Crashed(info@),
        }
    }
}

/// One unit of work: the delivery to the recipient at index `unit` of the batch.
#[derive(Clone, Debug, PartialEq, Eq)]
pub struct SendUnit {
    pub unit: usize,
    pub recipient: String,
}

/// What the contracts see of [`SendUnit`].
pub struct SendUnitView {
    pub unit: nat,
    pub recipient: Seq<char>,
}

impl View for SendUnit {
    type V = SendUnitView;

    open spec fn view(&self) -> SendUnitView {
        SendUnitView { unit: self.unit as nat, recipient: self.recipient@ }
    }
}

/// The views of a list of units, in order.
pub open spec fn unit_views(units: Seq<SendUnit>) -> Seq<SendUnitView> {
    Seq::new(units.len(), |i: int| units[i]@)
}

/// What has happened since the last step.
#[derive(Clone, Debug, PartialEq, Eq)]
pub enum DispatchEvent {
    /// The batch is handed over for dispatch.
    Begin,
    /// The unit with this index has ended.
    UnitEnded { unit: usize, end: UnitEnd },
}

/// What the contracts see of [`DispatchEvent`].
pub enum DispatchEventView {
    Begin,
    UnitEnded { unit: nat, end: UnitEndView },
}

impl View for DispatchEvent {
    type V = DispatchEventView;

    open spec fn view(&self) -> DispatchEventView {
        match self {
            DispatchEvent::Begin => DispatchEventView::Begin,
            DispatchEvent::UnitEnded { unit, end } => DispatchEventView::UnitEnded {
                unit: *unit as nat,
                end: end@,
            },
        }
    }
}

/// What is to be done after a step.
#[derive(Clone, Debug, PartialEq, Eq)]
pub enum DispatchAction {
    /// Start these units, all at once: each sends the message to its
    /// recipient and has `timeout_secs` seconds for it. Then report how each
    /// one ended.
    Spawn { units: Vec<SendUnit>, template: MessageTemplate, timeout_secs: u64 },
    /// Nothing new: go on reporting the ends of the units that still run.
    Wait,
    /// Every unit has ended: these are the results of the batch.
    Finish(Vec<EmailResult>),
}

/// What the contracts see of [`DispatchAction`].
pub enum DispatchActionView {
    Spawn { units: Seq<SendUnitView>, template: MessageTemplateView, timeout_secs: u64 },
    Wait,
    Finish(Seq<EmailResultView>),
}

impl View for DispatchAction {
    type V = DispatchActionView;

    open spec fn view(&self) -> DispatchActionView {
        match self {
            DispatchAction::Spawn { units, template, timeout_secs } => DispatchActionView::Spawn {
                units: unit_views(units@),
                template: template@,
                timeout_secs: *timeout_secs,
            },
            DispatchAction::Wait => DispatchActionView::Wait,
            DispatchAction::Finish(results) => DispatchActionView::Finish(
                result_views(results@),
            ),
        }
    }
}

/// The result that is recorded for `recipient` when its unit ends with `end`.
pub open spec fn outcome_of(recipient: Seq<char>, end: UnitEndView) -> EmailResultView {
    match end {
        UnitEndView::Sent => EmailResultView { email: recipient, success: true, message: "sent"@ },
        UnitEndView::Failed(reason) => EmailResultView {
            email: recipient,
            success: false,
            message: reason,
        },
        UnitEndView::TimedOut => EmailResultView {
            email: recipient,
            success: false,
            message: "timed out"@,
        },
        UnitEndView::Crashed(info) => EmailResultView {
            email: recipient,
            success: false,
            message: "internal task failure: "@ + info,
        },
    }
}

/// Makes the result for `recipient` from the way its unit ended.
pub fn outcome(recipient: String, end: UnitEnd) -> (result: EmailResult)
    ensures
        result@ == outcome_of(recipient@, end@),
{
    match end {
        UnitEnd::Sent => EmailResult {
            email: recipient,
            success: true,
            message: String::from_str("sent"),
        },
        UnitEnd::Failed(reason) => EmailResult { email: recipient, success: false, message: reason },
        UnitEnd::TimedOut => EmailResult {
            email: recipient,
            success: false,
            message: String::from_str("timed out"),
        },
        UnitEnd::Crashed(info) => EmailResult {
            email: recipient,
            success: false,
            message: String::from_str("internal task failure: ").concat(info.as_str()),
        },
    }
}

/// The state of one dispatch, as the contracts see it.
pub struct BulkDispatchView {
    /// The recipients of the batch, in the order given.
    pub recipients: Seq<Seq<char>>,
    /// The message of the batch.
    pub template: MessageTemplateView,
    /// Whether the units have been started.
    pub started: bool,
    /// One slot for each unit: empty while the unit runs, then its result.
    pub slots: Seq<Option<EmailResultView>>,
}

/// The state before anything has happened.
pub open spec fn initial(
    recipients: Seq<Seq<char>>,
    template: MessageTemplateView,
) -> BulkDispatchView {
    BulkDispatchView {
        recipients,
        template,
        started: false,
        slots: Seq::new(recipients.len(), |i: int| None::<EmailResultView>),
    }
}

/// What holds of every state of a dispatch: each unit has its slot, nothing
/// is recorded before the start, and a filled slot holds a result for the
/// recipient of its own unit.
pub open spec fn well_formed(state: BulkDispatchView) -> bool {
    &&& state.slots.len() == state.recipients.len()
    &&& !state.started ==> forall|i: int| 0 <= i < state.slots.len() ==> state.slots[i] is None
    &&& forall|i: int|
        0 <= i < state.slots.len() ==> (#[trigger] state.slots[i] matches Some(result)
            ==> result.email == state.recipients[i])
}

/// The number of units that have not ended.
pub open spec fn pending_count(slots: Seq<Option<EmailResultView>>) -> nat
    decreases slots.len(),
{
    if slots.len() == 0 {
        0
    } else {
        pending_count(slots.drop_last()) + if slots.last() is None {
            1nat
        } else {
            0nat
        }
    }
}

/// Every unit has been started and has ended.
pub open spec fn is_complete(state: BulkDispatchView) -> bool {
    state.started && forall|i: int| 0 <= i < state.slots.len() ==> state.slots[i] is Some
}

/// The results in the slots, in the order of the units.
pub open spec fn outcomes(state: BulkDispatchView) -> Seq<EmailResultView> {
    Seq::new(state.slots.len(), |i: int| state.slots[i]->0)
}

/// One unit for each recipient, numbered in the order of the batch.
pub open spec fn units_of(recipients: Seq<Seq<char>>) -> Seq<SendUnitView> {
    Seq::new(recipients.len(), |i: int| SendUnitView { unit: i as nat, recipient: recipients[i] })
}

/// Whether `event` reports the end of a unit that was started and whose slot is still empty.
pub open spec fn fills_slot(state: BulkDispatchView, event: DispatchEventView) -> bool {
    event matches DispatchEventView::UnitEnded { unit, .. } && state.started && unit
        < state.slots.len() && state.slots[unit as int] is None
}

/// The state after `event`.
///
/// `Begin` marks the dispatch as started. The end of a started unit whose
/// slot is empty fills that slot with the unit's result. Any other event
/// changes nothing: a slot is filled once and never again.
pub open spec fn step_state(state: BulkDispatchView, event: DispatchEventView) -> BulkDispatchView {
    match event {
        DispatchEventView::Begin => BulkDispatchView { started: true, ..state },
        DispatchEventView::UnitEnded { unit, end } => if fills_slot(state, event) {
            BulkDispatchView {
                slots: state.slots.update(
                    unit as int,
                    Some(outcome_of(state.recipients[unit as int], end)),
                ),
                ..state
            }
        } else {
            state
        },
    }
}

/// What is to be done after `event`.
///
/// The first `Begin` of a batch that has recipients asks to start one unit
/// for each of them. After that the answer depends on the new state alone:
/// the results once every unit has ended, and to wait until then.
pub open spec fn step_action(state: BulkDispatchView, event: DispatchEventView) -> DispatchActionView {
    let next = step_state(state, event);
    if event is Begin && !state.started && state.recipients.len() > 0 {
        DispatchActionView::Spawn {
            units: units_of(state.recipients),
            template: state.template,
            timeout_secs: SEND_TIMEOUT_SECS,
        }
    } else if is_complete(next) {
        DispatchActionView::Finish(outcomes(next))
    } else {
        DispatchActionView::Wait
    }
}

/// The views of a list of slots, in order.
pub open spec fn slot_views(slots: Seq<Option<EmailResult>>) -> Seq<Option<EmailResultView>> {
    Seq::new(
        slots.len(),
        |i: int|
            match slots[i] {
                Some(result) => Some(result@),
                None => None,
            },
    )
}

/// The state of one dispatch.
pub struct BulkDispatch {
    recipients: Vec<String>,
    template: MessageTemplate,
    started: bool,
    slots: Vec<Option<EmailResult>>,
    pending: usize,
}

impl View for BulkDispatch {
    type V = BulkDispatchView;

    closed spec fn view(&self) -> BulkDispatchView {
        BulkDispatchView {
            recipients: texts(self.recipients@),
            template: self.template@,
            started: self.started,
            slots: slot_views(self.slots@),
        }
    }
}

impl BulkDispatch {
    #[verifier::type_invariant]
    closed spec fn inv(self) -> bool {
        &&& well_formed(self@)
        &&& self.pending == pending_count(self@.slots)
    }

    /// The state of a dispatch of `template` to `recipients` before it begins.
    pub fn new(recipients: Vec<String>, template: MessageTemplate) -> (state: BulkDispatch)
        ensures
            state@ == initial(texts(recipients@), template@),
            well_formed(state@),
    {
        let mut slots: Vec<Option<EmailResult>> = Vec::new();
        let mut i: usize = 0;
        while i < recipients.len()
            invariant
                i <= recipients.len(),
                slots.len() == i,
                forall|k: int| 0 <= k < i ==> slots@[k] is None,
            decreases recipients.len() - i,
        {
            slots.push(None);
            i = i + 1;
        }
        let pending = recipients.len();
        proof {
            let view = initial(texts(recipients@), template@);
            assert(slot_views(slots@) =~= view.slots);
            lemma_pending_count(view.slots);
        }
        BulkDispatch { recipients, template, started: false, slots, pending }
    }

    fn units(&self) -> (units: Vec<SendUnit>)
        ensures
            unit_views(units@) == units_of(self@.recipients),
    {
        let mut units: Vec<SendUnit> = Vec::new();
        let mut i: usize = 0;
        while i < self.recipients.len()
            invariant
                i <= self.recipients.len(),
                units.len() == i,
                forall|k: int|
                    0 <= k < i ==> (#[trigger] units@[k])@ == (SendUnitView {
                        unit: k as nat,
                        recipient: self.recipients@[k]@,
                    }),
            decreases self.recipients.len() - i,
        {
            units.push(SendUnit { unit: i, recipient: self.recipients[i].clone() });
            i = i + 1;
        }
        assert(unit_views(units@) =~= units_of(self@.recipients));
        units
    }

    fn results(&self) -> (results: Vec<EmailResult>)
        requires
            is_complete(self@),
        ensures
            result_views(results@) == outcomes(self@),
    {
        let mut results: Vec<EmailResult> = Vec::new();
        let mut i: usize = 0;
        while i < self.slots.len()
            invariant
                i <= self.slots.len(),
                results.len() == i,
                is_complete(self@),
                forall|k: int| 0 <= k < i ==> (#[trigger] results@[k])@ == self@.slots[k]->0,
            decreases self.slots.len() - i,
        {
            assert(self@.slots[i as int] is Some);
            match &self.slots[i] {
                Some(result) => {
                    results.push(result.clone());
                },
                None => {},
            }
            i = i + 1;
        }
        assert(result_views(results@) =~= outcomes(self@));
        results
    }
}

fn event_begins(event: &DispatchEvent) -> (begins: bool)
    ensures
        begins == (event@ is Begin),
{
    match event {
        DispatchEvent::Begin => true,
        DispatchEvent::UnitEnded { .. } => false,
    }
}

/// One step of a dispatch: takes the state and what has happened, and
/// returns the next state and what is to be done.
///
/// The units are asked for once, at the first `Begin`, one for each
/// recipient. Each unit fills its own slot when its end is reported, with a
/// result for its own recipient, and the results are handed out when no slot
/// is empty any more.
pub fn send_bulk_emails(state: BulkDispatch, event: DispatchEvent) -> (next: (
    BulkDispatch,
    DispatchAction,
))
    ensures
        next.0@ == step_state(state@, event@),
        next.1@ == step_action(state@, event@),
        well_formed(state@),
        well_formed(next.0@),
        next.1@ matches DispatchActionView::Finish(results) ==> results.len()
            == state@.recipients.len() && emails(results) == state@.recipients && emails(
            results,
        ).to_multiset() == state@.recipients.to_multiset(),
{
    proof {
        use_type_invariant(&state);
    }
    let ghost before = state@;
    let BulkDispatch { recipients, template, started, slots, pending } = state;
    let mut slots = slots;
    let mut pending = pending;
    let begins = event_begins(&event);
    let spawn = begins && !started && recipients.len() > 0;
    match event {
        DispatchEvent::Begin => {},
        DispatchEvent::UnitEnded { unit, end } => {
            if started && unit < slots.len() && slots[unit].is_none() {
                let result = outcome(recipients[unit].clone(), end);
                proof {
                    lemma_pending_count(before.slots);
                    lemma_pending_after_fill(before.slots, unit as int, result@);
                    assert(slot_views(slots@.update(unit as int, Some(result)))
                        =~= before.slots.update(unit as int, Some(result@)));
                }
                slots.set(unit, Some(result));
                pending = pending - 1;
            }
        },
    }
    let started = started || begins;
    let next = BulkDispatch { recipients, template, started, slots, pending };
    proof {
        lemma_pending_count(next@.slots);
        if is_complete(next@) {
            lemma_results_cover_recipients(next@);
        }
    }
    let action = if spawn {
        DispatchAction::Spawn {
            units: next.units(),
            template: next.template.clone(),
            timeout_secs: SEND_TIMEOUT_SECS,
        }
    } else if next.started && next.pending == 0 {
        DispatchAction::Finish(next.results())
    } else {
        DispatchAction::Wait
    };
    (next, action)
}

/// A result speaks of the recipient of its unit, and is a success exactly
/// when the sender reported one in time: a failure, a timeout and a
/// breakdown of the unit all count as failures.
pub proof fn lemma_outcome_success(recipient: Seq<char>, end: UnitEndView)
    ensures
        outcome_of(recipient, end).email == recipient,
        outcome_of(recipient, end).success <==> end is Sent,
{
}

/// The number of empty slots is bounded by the number of slots, and is zero
/// exactly when every slot is filled.
pub proof fn lemma_pending_count(slots: Seq<Option<EmailResultView>>)
    ensures
        pending_count(slots) <= slots.len(),
        pending_count(slots) == 0 <==> (forall|i: int| 0 <= i < slots.len() ==> slots[i] is Some),
        pending_count(slots) == slots.len() <==> (forall|i: int|
            0 <= i < slots.len() ==> slots[i] is None),
    decreases slots.len(),
{
    if slots.len() > 0 {
        let front = slots.drop_last();
        lemma_pending_count(front);
        assert(forall|i: int| 0 <= i < front.len() ==> front[i] == slots[i]);
        if pending_count(slots) == 0 {
            assert forall|i: int| 0 <= i < slots.len() implies slots[i] is Some by {
                if i < front.len() {
                    assert(front[i] is Some);
                }
            }
        }
        if pending_count(slots) == slots.len() {
            assert forall|i: int| 0 <= i < slots.len() implies slots[i] is None by {
                if i < front.len() {
                    assert(front[i] is None);
                }
            }
        }
    }
}

/// Filling an empty slot leaves one unit fewer to wait for.
pub proof fn lemma_pending_after_fill(
    slots: Seq<Option<EmailResultView>>,
    unit: int,
    result: EmailResultView,
)
    requires
        0 <= unit < slots.len(),
        slots[unit] is None,
    ensures
        pending_count(slots.update(unit, Some(result))) + 1 == pending_count(slots),
    decreases slots.len(),
{
    let filled = slots.update(unit, Some(result));
    if unit == slots.len() - 1 {
        assert(filled.drop_last() =~= slots.drop_last());
    } else {
        lemma_pending_after_fill(slots.drop_last(), unit, result);
        assert(filled.drop_last() =~= slots.drop_last().update(unit, Some(result)));
    }
}

/// A dispatch starts out well formed.
pub proof fn lemma_initial_well_formed(recipients: Seq<Seq<char>>, template: MessageTemplateView)
    ensures
        well_formed(initial(recipients, template)),
        !is_complete(initial(recipients, template)),
{
}

/// A step keeps the state well formed, keeps the recipients, never undoes
/// the start, and never touches a slot that is filled.
pub proof fn lemma_step_keeps_well_formed(state: BulkDispatchView, event: DispatchEventView)
    requires
        well_formed(state),
    ensures
        well_formed(step_state(state, event)),
        step_state(state, event).recipients == state.recipients,
        step_state(state, event).template == state.template,
        state.started ==> step_state(state, event).started,
        forall|i: int|
            0 <= i < state.slots.len() && state.slots[i] is Some ==> step_state(
                state,
                event,
            ).slots[i] == state.slots[i],
{
}

/// The units are asked for only by the step that starts the dispatch, so at
/// most once in a run, and then there is one unit for each recipient.
pub proof fn lemma_spawn_once(state: BulkDispatchView, event: DispatchEventView)
    requires
        step_action(state, event) is Spawn,
    ensures
        !state.started,
        step_state(state, event).started,
        step_action(state, event)->units == units_of(state.recipients),
        step_action(state, event)->units.len() == state.recipients.len(),
        step_action(state, event)->template == state.template,
        step_action(state, event)->timeout_secs == 30,
{
}

/// The end of a started unit that has not ended before is recorded, however
/// the unit ended: its slot is filled with the result for its own recipient,
/// one unit fewer is left to wait for, and the results are handed out
/// exactly when it was the last one. A unit whose deadline passed is
/// recorded as a failure that reads `timed out`.
pub proof fn lemma_unit_end_is_recorded(state: BulkDispatchView, unit: nat, end: UnitEndView)
    requires
        well_formed(state),
        state.started,
        unit < state.slots.len(),
        state.slots[unit as int] is None,
    ensures
        ({
            let event = DispatchEventView::UnitEnded { unit, end };
            let next = step_state(state, event);
            &&& next.slots[unit as int] == Some(outcome_of(state.recipients[unit as int], end))
            &&& pending_count(next.slots) + 1 == pending_count(state.slots)
            &&& step_action(state, event) is Finish <==> pending_count(state.slots) == 1
            &&& step_action(state, event) is Finish || step_action(state, event) is Wait
        }),
        outcome_of(state.recipients[unit as int], UnitEndView::TimedOut) == (EmailResultView {
            email: state.recipients[unit as int],
            success: false,
            message: "timed out"@,
        }),
{
    let event = DispatchEventView::UnitEnded { unit, end };
    let result = outcome_of(state.recipients[unit as int], end);
    lemma_pending_after_fill(state.slots, unit as int, result);
    lemma_pending_count(step_state(state, event).slots);
}

/// The recipients that a list of results speaks of, in order.
pub open spec fn emails(results: Seq<EmailResultView>) -> Seq<Seq<char>> {
    Seq::new(results.len(), |i: int| results[i].email)
}

/// When every unit has ended there is exactly one result for each
/// recipient: the results are as many as the recipients, the result at each
/// index speaks of the recipient at that index, and so the results speak of
/// the same recipients as the batch, each as often as the batch holds it.
pub proof fn lemma_results_cover_recipients(state: BulkDispatchView)
    requires
        well_formed(state),
        is_complete(state),
    ensures
        outcomes(state).len() == state.recipients.len(),
        emails(outcomes(state)) == state.recipients,
        emails(outcomes(state)).to_multiset() == state.recipients.to_multiset(),
{
    assert(emails(outcomes(state)) =~= state.recipients);
}

/// The state after a whole run of events, taken in order.
pub open spec fn run(state: BulkDispatchView, events: Seq<DispatchEventView>) -> BulkDispatchView
    decreases events.len(),
{
    if events.len() == 0 {
        state
    } else {
        step_state(run(state, events.drop_last()), events.last())
    }
}

/// What is to be done after the event at index `i` of a run of `events`
/// that sets out from `state`.
pub open spec fn action_at(
    state: BulkDispatchView,
    events: Seq<DispatchEventView>,
    i: int,
) -> DispatchActionView {
    step_action(run(state, events.take(i)), events[i])
}

proof fn lemma_run_append(
    state: BulkDispatchView,
    first: Seq<DispatchEventView>,
    rest: Seq<DispatchEventView>,
)
    ensures
        run(state, first + rest) == run(run(state, first), rest),
    decreases rest.len(),
{
    if rest.len() == 0 {
        assert(first + rest =~= first);
    } else {
        lemma_run_append(state, first, rest.drop_last());
        assert((first + rest).drop_last() =~= first + rest.drop_last());
    }
}

/// Once started, a dispatch stays started and keeps its recipients, whatever follows.
pub proof fn lemma_run_keeps_start(state: BulkDispatchView, events: Seq<DispatchEventView>)
    requires
        well_formed(state),
    ensures
        well_formed(run(state, events)),
        run(state, events).recipients == state.recipients,
        state.started ==> run(state, events).started,
    decreases events.len(),
{
    if events.len() > 0 {
        lemma_run_keeps_start(state, events.drop_last());
        lemma_step_keeps_well_formed(run(state, events.drop_last()), events.last());
    }
}

/// No recipient gets a second unit: in a run of events, the units are asked
/// for at most once.
pub proof fn lemma_no_second_spawn(
    state: BulkDispatchView,
    events: Seq<DispatchEventView>,
    i: int,
    j: int,
)
    requires
        well_formed(state),
        0 <= i < j < events.len(),
        action_at(state, events, i) is Spawn,
    ensures
        !(action_at(state, events, j) is Spawn),
{
    let first = events.take(i + 1);
    let rest = events.subrange(i + 1, j);
    assert(first.drop_last() =~= events.take(i));
    assert(run(state, first).started);
    lemma_run_keeps_start(state, first);
    lemma_run_append(state, first, rest);
    assert(first + rest =~= events.take(j));
    lemma_run_keeps_start(run(state, first), rest);
}

/// Whatever events come in whatever order, the state of a dispatch to
/// `recipients` stays well formed, and results that are handed out cover
/// the recipients: one result for each, and the same recipients with the
/// same multiplicities.
pub proof fn lemma_dispatch_is_complete(
    recipients: Seq<Seq<char>>,
    template: MessageTemplateView,
    events: Seq<DispatchEventView>,
    last: DispatchEventView,
)
    ensures
        well_formed(run(initial(recipients, template), events)),
        run(initial(recipients, template), events).recipients == recipients,
        step_action(
            run(initial(recipients, template), events),
            last,
        ) matches DispatchActionView::Finish(results) ==> results.len() == recipients.len()
            && emails(results) == recipients && emails(results).to_multiset()
            == recipients.to_multiset(),
{
    let state = run(initial(recipients, template), events);
    lemma_run_keeps_start(initial(recipients, template), events);
    lemma_step_keeps_well_formed(state, last);
    if step_action(state, last) is Finish {
        lemma_results_cover_recipients(step_state(state, last));
    }
}

/// The results of a batch whose unit `i` ended with `ends[i]`.
pub open spec fn outcomes_of(recipients: Seq<Seq<char>>, ends: Seq<UnitEndView>) -> Seq<
    EmailResultView,
> {
    Seq::new(recipients.len(), |i: int| outcome_of(recipients[i], ends[i]))
}

/// The events that report the ends of all units in the order of the batch:
/// unit `i` with `ends[i]`.
pub open spec fn ends_in_order(ends: Seq<UnitEndView>) -> Seq<DispatchEventView> {
    Seq::new(ends.len(), |i: int| DispatchEventView::UnitEnded { unit: i as nat, end: ends[i] })
}

/// The state of a started dispatch in which the first `done` units have ended.
pub open spec fn after_ends(
    recipients: Seq<Seq<char>>,
    template: MessageTemplateView,
    ends: Seq<UnitEndView>,
    done: int,
) -> BulkDispatchView {
    BulkDispatchView {
        recipients,
        template,
        started: true,
        slots: Seq::new(
            recipients.len(),
            |i: int|
                if i < done {
                    Some(outcome_of(recipients[i], ends[i]))
                } else {
                    None
                },
        ),
    }
}

proof fn lemma_run_in_order(
    recipients: Seq<Seq<char>>,
    template: MessageTemplateView,
    ends: Seq<UnitEndView>,
    done: int,
)
    requires
        ends.len() == recipients.len(),
        0 <= done <= ends.len(),
    ensures
        run(
            step_state(initial(recipients, template), DispatchEventView::Begin),
            ends_in_order(ends).take(done),
        ) == after_ends(recipients, template, ends, done),
    decreases done,
{
    let started = step_state(initial(recipients, template), DispatchEventView::Begin);
    let events = ends_in_order(ends);
    if done == 0 {
        assert(started.slots =~= after_ends(recipients, template, ends, 0).slots);
    } else {
        lemma_run_in_order(recipients, template, ends, done - 1);
        assert(events.take(done).drop_last() =~= events.take(done - 1));
        let before = after_ends(recipients, template, ends, done - 1);
        assert(step_state(before, events[done - 1]).slots =~= after_ends(
            recipients,
            template,
            ends,
            done,
        ).slots);
    }
}

/// A dispatch that is begun and then told the end of each unit, in the
/// order of the batch, asks for the units once, waits while a unit is
/// missing, and with the last unit hands out one result for each
/// recipient: the result at index `i` is the outcome of `ends[i]` for the
/// recipient at index `i`.
pub proof fn lemma_dispatch_in_order(
    recipients: Seq<Seq<char>>,
    template: MessageTemplateView,
    ends: Seq<UnitEndView>,
)
    requires
        recipients.len() > 0,
        ends.len() == recipients.len(),
    ensures
        step_action(initial(recipients, template), DispatchEventView::Begin)
            == (DispatchActionView::Spawn {
            units: units_of(recipients),
            template,
            timeout_secs: SEND_TIMEOUT_SECS,
        }),
        forall|k: int|
            0 <= k < ends.len() - 1 ==> #[trigger] action_at(
                step_state(initial(recipients, template), DispatchEventView::Begin),
                ends_in_order(ends),
                k,
            ) == DispatchActionView::Wait,
        action_at(
            step_state(initial(recipients, template), DispatchEventView::Begin),
            ends_in_order(ends),
            ends.len() - 1,
        ) == DispatchActionView::Finish(outcomes_of(recipients, ends)),
{
    let started = step_state(initial(recipients, template), DispatchEventView::Begin);
    let events = ends_in_order(ends);
    assert forall|k: int| 0 <= k < ends.len() implies #[trigger] action_at(started, events, k) == (
    if k < ends.len() - 1 {
        DispatchActionView::Wait
    } else {
        DispatchActionView::Finish(outcomes_of(recipients, ends))
    }) by {
        lemma_run_in_order(recipients, template, ends, k);
        lemma_run_in_order(recipients, template, ends, k + 1);
        let before = after_ends(recipients, template, ends, k);
        let after = after_ends(recipients, template, ends, k + 1);
        assert(events.take(k + 1).drop_last() =~= events.take(k));
        assert(step_state(before, events[k]) == after);
        if k < ends.len() - 1 {
            assert(after.slots[k + 1] is None);
        } else {
            assert(outcomes(after) =~= outcomes_of(recipients, ends));
        }
    }
}

} // verus!
