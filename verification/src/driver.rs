//! The delivery driver: one recipient after the other, in the order of the table.
//!
//! The driver decides and its caller acts. The caller hands it what happened and gets back
//! what to do next: send a message, rest for the configured delay, or finish with the
//! report. Each recipient is rendered, assembled and sent once; whatever goes wrong with one
//! is recorded as that recipient's outcome and the run goes on with the next. The rest
//! follows every attempt, the last one too.

use crate::config::{ConfigView, EnvConfig};
use crate::message::{
    address_checks, assemble, assembled, attachment_for, attachment_view, mailbox_text,
    sender_is_valid, valid_mailbox, AddressField, Attachment, AttachmentView, MessageView,
    OutgoingMessage,
};
use crate::render::{rendered_by, Renderer, TemplateKind};
use crate::table::{records_of, table_of, RecipientRecord, RecordView};
use crate::text::{decimal_digits, decimal_text, text_view};
use vstd::prelude::*;

verus! {

/// Why a recipient got no message.
#[derive(Debug, PartialEq, Eq)]
pub enum Failure {
    /// The subject did not render; the renderer's own words.
    Subject(String),
    /// The body did not render; the renderer's own words.
    Body(String),
    /// One of the addresses is none.
    Address(AddressField),
    /// The transport did not take the message; its own words.
    Transport(String),
}

/// What a failure holds.
pub ghost enum FailureView {
    Subject(Seq<char>),
    Body(Seq<char>),
    Address(AddressField),
    Transport(Seq<char>),
}

impl View for Failure {
    type V = FailureView;

    open spec fn view(&self) -> FailureView {
        match self {
            Failure::Subject(detail) => FailureView::Subject(detail@),
            Failure::Body(detail) => FailureView::Body(detail@),
            Failure::Address(field) => FailureView::Address(*field),
            Failure::Transport(detail) => FailureView::Transport(detail@),
        }
    }
}

/// What became of one recipient.
#[derive(Debug, PartialEq, Eq)]
pub struct DeliveryOutcome {
    /// The recipient's place in the table, counted from 0.
    pub recipient: usize,
    /// Why the recipient got no message; `None` where the message was delivered.
    pub failure: Option<Failure>,
}

/// What an outcome holds.
pub ghost struct OutcomeView {
    pub recipient: nat,
    pub failure: Option<FailureView>,
}

/// The view of a failure that may be there.
pub open spec fn failure_view(failure: Option<Failure>) -> Option<FailureView> {
    match failure {
        Some(f) => Some(f@),
        None => None,
    }
}

impl View for DeliveryOutcome {
    type V = OutcomeView;

    open spec fn view(&self) -> OutcomeView {
        OutcomeView { recipient: self.recipient as nat, failure: failure_view(self.failure) }
    }
}

impl DeepView for DeliveryOutcome {
    type V = OutcomeView;

    open spec fn deep_view(&self) -> OutcomeView {
        self@
    }
}

impl DeliveryOutcome {
    /// Whether the message was delivered.
    pub fn delivered(&self) -> (yes: bool)
        ensures
            yes == (self@.failure is None),
    {
        self.failure.is_none()
    }
}

/// Where a run stands.
#[derive(Debug, Clone, Copy, PartialEq, Eq, Structural)]
pub enum Phase {
    /// The caller is to say when to go on.
    Waiting,
    /// A message is with the caller, to be sent.
    Sending,
    /// The report was handed out.
    Finished,
}

/// What happened on the caller's side.
#[derive(Debug, PartialEq, Eq)]
pub enum Event {
    /// Nothing to report: the run starts, or a rest is over.
    Proceed,
    /// The transport took the message.
    Delivered,
    /// The transport did not take the message; its own words.
    Refused(String),
}

/// What an event holds.
pub ghost enum EventView {
    Proceed,
    Delivered,
    Refused(Seq<char>),
}

impl View for Event {
    type V = EventView;

    open spec fn view(&self) -> EventView {
        match self {
            Event::Proceed => EventView::Proceed,
            Event::Delivered => EventView::Delivered,
            Event::Refused(detail) => EventView::Refused(detail@),
        }
    }
}

/// What the caller is to do next.
#[derive(Debug, PartialEq, Eq)]
pub enum Action {
    /// Print `announce` without ending the line, send `message`, and come back with
    /// `Delivered` or `Refused`.
    Send { announce: String, message: OutgoingMessage },
    /// Print `note` and end the line, wait for `seconds`, and come back with `Proceed`.
    Rest { note: String, seconds: u64 },
    /// Print the lines of `report`: the run is over.
    Finish { report: Vec<String> },
    /// The event does not fit where the run stands: nothing has changed.
    Rejected,
}

/// What an action holds.
pub ghost enum ActionView {
    Send { announce: Seq<char>, message: MessageView },
    Rest { note: Seq<char>, seconds: u64 },
    Finish { report: Seq<Seq<char>> },
    Rejected,
}

impl View for Action {
    type V = ActionView;

    open spec fn view(&self) -> ActionView {
        match self {
            Action::Send { announce, message } => ActionView::Send {
                announce: announce@,
                message: message@,
            },
            Action::Rest { note, seconds } => ActionView::Rest { note: note@, seconds: *seconds },
            Action::Finish { report } => ActionView::Finish { report: report.deep_view() },
            Action::Rejected => ActionView::Rejected,
        }
    }
}

/// What a run works on, from its start to its end.
pub ghost struct RunPlan {
    pub config: ConfigView,
    pub templates: Map<Seq<char>, Seq<char>>,
    pub records: Seq<RecordView>,
    pub attachment: Option<AttachmentView>,
}

/// Where a run stands and what it has recorded.
pub ghost struct RunState {
    pub phase: Phase,
    pub outcomes: Seq<OutcomeView>,
}

/// The state of a run before its start.
pub open spec fn initial_state() -> RunState {
    RunState { phase: Phase::Waiting, outcomes: Seq::empty() }
}

/// The number of outcomes that are failures.
pub open spec fn count_failed(outcomes: Seq<OutcomeView>) -> nat
    decreases outcomes.len(),
{
    if outcomes.len() == 0 {
        0
    } else if outcomes.last().failure is Some {
        count_failed(outcomes.drop_last()) + 1
    } else {
        count_failed(outcomes.drop_last())
    }
}

/// What holds of every state of a run: there is at most one outcome for each recipient,
/// the outcomes stand in the order of the table, a message that is being sent belongs to a
/// recipient of the table, and a finished run has an outcome for every recipient.
pub open spec fn state_wf(plan: RunPlan, state: RunState) -> bool {
    &&& state.outcomes.len() <= plan.records.len()
    &&& forall|i: int| 0 <= i < state.outcomes.len() ==> (#[trigger] state.outcomes[i]).recipient == i
    &&& state.phase == Phase::Sending ==> state.outcomes.len() < plan.records.len()
    &&& state.phase == Phase::Finished ==> state.outcomes.len() == plan.records.len()
}

/// The words for an address that is none.
pub open spec fn address_text(field: AddressField) -> Seq<char> {
    match field {
        AddressField::From => "invalid From address"@,
        AddressField::To => "invalid To address"@,
        AddressField::ReplyTo => "invalid Reply-To address"@,
        AddressField::Cc => "invalid CC address"@,
        AddressField::Bcc => "invalid BCC address"@,
    }
}

/// The words for a failure.
pub open spec fn failure_text(failure: FailureView) -> Seq<char> {
    match failure {
        FailureView::Subject(detail) => detail,
        FailureView::Body(detail) => detail,
        FailureView::Address(field) => address_text(field),
        FailureView::Transport(detail) => detail,
    }
}

/// What is printed before a message is sent.
pub open spec fn announce_text(record: RecordView) -> Seq<char> {
    "--- Sending to: "@ + mailbox_text(record) + " "@
}

/// What is printed of a failure, behind the announcement.
pub open spec fn failure_note(failure: FailureView) -> Seq<char> {
    "### Failed: "@ + failure_text(failure)
}

/// The line that counts the recipients attempted.
pub open spec fn processed_line(attempted: nat) -> Seq<char> {
    "=== Processed "@ + decimal_digits(attempted) + " mails"@
}

/// The line that counts the failures.
pub open spec fn failed_line(failed: nat) -> Seq<char> {
    "### Failed to send: "@ + decimal_digits(failed)
}

/// The report of a run: the number of failures, if there are any, then the number of
/// recipients attempted.
pub open spec fn report_lines(attempted: nat, failed: nat) -> Seq<Seq<char>> {
    if failed > 0 {
        seq![failed_line(failed), processed_line(attempted)]
    } else {
        seq![processed_line(attempted)]
    }
}

/// Whether `prepared` is what preparing the message for `record` comes to, where nothing but
/// the words of a rendering failure is left open: the subject is rendered, then the body,
/// then the message is assembled, and the first of these that fails is the failure.
pub open spec fn preparation_fits(
    config: ConfigView,
    templates: Map<Seq<char>, Seq<char>>,
    attachment: Option<AttachmentView>,
    record: RecordView,
    prepared: Result<MessageView, FailureView>,
) -> bool {
    match rendered_by(templates, TemplateKind::Subject, record) {
        None => prepared matches Err(FailureView::Subject(_)),
        Some(subject) => match rendered_by(templates, TemplateKind::Body, record) {
            None => prepared matches Err(FailureView::Body(_)),
            Some(body) => match assembled(
                config,
                record,
                subject,
                body,
                attachment,
                address_checks(config, record),
            ) {
                Ok(message) => prepared == Ok::<MessageView, FailureView>(message),
                Err(field) => prepared == Err::<MessageView, FailureView>(FailureView::Address(field)),
            },
        },
    }
}

/// The step that takes up the next recipient, given what preparing its message came to:
/// a message goes out to be sent; a failure is recorded, and the rest follows at once.
pub open spec fn after_begin(
    plan: RunPlan,
    state: RunState,
    prepared: Result<MessageView, FailureView>,
) -> (RunState, ActionView) {
    let index = state.outcomes.len();
    let record = plan.records[index as int];
    match prepared {
        Ok(message) => (
            RunState { phase: Phase::Sending, outcomes: state.outcomes },
            ActionView::Send { announce: announce_text(record), message },
        ),
        Err(failure) => (
            RunState {
                phase: Phase::Waiting,
                outcomes: state.outcomes.push(OutcomeView { recipient: index, failure: Some(failure) }),
            },
            ActionView::Rest {
                note: announce_text(record) + failure_note(failure),
                seconds: plan.config.delay,
            },
        ),
    }
}

/// The step that records what became of the message that was sent; the rest follows
/// whether it was delivered or not.
pub open spec fn after_settle(plan: RunPlan, state: RunState, refusal: Option<Seq<char>>) -> (
    RunState,
    ActionView,
) {
    let index = state.outcomes.len();
    match refusal {
        None => (
            RunState {
                phase: Phase::Waiting,
                outcomes: state.outcomes.push(OutcomeView { recipient: index, failure: None }),
            },
            ActionView::Rest { note: Seq::empty(), seconds: plan.config.delay },
        ),
        Some(detail) => (
            RunState {
                phase: Phase::Waiting,
                outcomes: state.outcomes.push(
                    OutcomeView { recipient: index, failure: Some(FailureView::Transport(detail)) },
                ),
            },
            ActionView::Rest {
                note: failure_note(FailureView::Transport(detail)),
                seconds: plan.config.delay,
            },
        ),
    }
}

/// The step that ends the run with its report.
pub open spec fn after_finish(plan: RunPlan, state: RunState) -> (RunState, ActionView) {
    (
        RunState { phase: Phase::Finished, outcomes: state.outcomes },
        ActionView::Finish {
            report: report_lines(state.outcomes.len(), count_failed(state.outcomes)),
        },
    )
}

/// Whether an event makes the run take up the next recipient.
pub open spec fn begins(plan: RunPlan, state: RunState, event: EventView) -> bool {
    state.phase == Phase::Waiting && event is Proceed && state.outcomes.len() < plan.records.len()
}

/// The step for an event that does not take up a recipient.
pub open spec fn next_plain(plan: RunPlan, state: RunState, event: EventView) -> (RunState, ActionView) {
    match (state.phase, event) {
        (Phase::Waiting, EventView::Proceed) => after_finish(plan, state),
        (Phase::Sending, EventView::Delivered) => after_settle(plan, state, None),
        (Phase::Sending, EventView::Refused(detail)) => after_settle(plan, state, Some(detail)),
        _ => (state, ActionView::Rejected),
    }
}

/// The step for an event, given what preparing the next recipient's message comes to.
pub open spec fn next(
    plan: RunPlan,
    state: RunState,
    event: EventView,
    prepared: Result<MessageView, FailureView>,
) -> (RunState, ActionView) {
    if begins(plan, state, event) {
        after_begin(plan, state, prepared)
    } else {
        next_plain(plan, state, event)
    }
}

/// Whether a step from `state` to `after` with `action` is one that the run allows for
/// `event`.
pub open spec fn step_allowed(
    plan: RunPlan,
    state: RunState,
    event: EventView,
    after: RunState,
    action: ActionView,
) -> bool {
    if begins(plan, state, event) {
        exists|prepared: Result<MessageView, FailureView>|
            #[trigger] preparation_fits(
                plan.config,
                plan.templates,
                plan.attachment,
                plan.records[state.outcomes.len() as int],
                prepared,
            ) && (after, action) == after_begin(plan, state, prepared)
    } else {
        (after, action) == next_plain(plan, state, event)
    }
}

/// The steps that a run has left at most: none when it is finished.
pub open spec fn remaining(plan: RunPlan, state: RunState) -> nat {
    let left = (plan.records.len() - state.outcomes.len()) as nat;
    match state.phase {
        Phase::Finished => 0,
        Phase::Sending => 2 * left,
        Phase::Waiting => 2 * left + 1,
    }
}

/// The view of what preparing a message came to.
pub open spec fn prepared_view(prepared: Result<OutgoingMessage, Failure>) -> Result<MessageView, FailureView> {
    match prepared {
        Ok(message) => Ok(message@),
        Err(failure) => Err(failure@),
    }
}

/// There are no more failures than outcomes.
pub proof fn lemma_count_failed_bound(outcomes: Seq<OutcomeView>)
    ensures
        count_failed(outcomes) <= outcomes.len(),
    decreases outcomes.len(),
{
    if outcomes.len() > 0 {
        lemma_count_failed_bound(outcomes.drop_last());
    }
}

/// The failures counted are the outcomes that hold a failure, no more and no fewer.
pub proof fn lemma_count_failed_counts(outcomes: Seq<OutcomeView>)
    ensures
        count_failed(outcomes) == outcomes.filter(|outcome: OutcomeView| outcome.failure is Some).len(),
    decreases outcomes.len(),
{
    reveal(Seq::filter);
    if outcomes.len() > 0 {
        lemma_count_failed_counts(outcomes.drop_last());
    }
}

/// One input of a run: what happened, and what preparing the next recipient's message comes
/// to, should the run take that recipient up.
pub ghost struct RunInput {
    pub event: EventView,
    pub prepared: Result<MessageView, FailureView>,
}

/// Where a run stands after the given inputs, from its start.
pub open spec fn run(plan: RunPlan, inputs: Seq<RunInput>) -> RunState
    decreases inputs.len(),
{
    if inputs.len() == 0 {
        initial_state()
    } else {
        next(plan, run(plan, inputs.drop_last()), inputs.last().event, inputs.last().prepared).0
    }
}

/// A step keeps what holds of every state of a run, whatever the event.
pub proof fn lemma_step_keeps_state(
    plan: RunPlan,
    state: RunState,
    event: EventView,
    prepared: Result<MessageView, FailureView>,
)
    requires
        state_wf(plan, state),
    ensures
        state_wf(plan, next(plan, state, event, prepared).0),
{
}

/// A step that is not rejected brings the run closer to its end, a rejected one changes
/// nothing, and the run is at its end exactly when it is finished.
pub proof fn lemma_step_makes_progress(
    plan: RunPlan,
    state: RunState,
    event: EventView,
    prepared: Result<MessageView, FailureView>,
)
    requires
        state_wf(plan, state),
    ensures
        next(plan, state, event, prepared).1 is Rejected ==> next(plan, state, event, prepared).0 == state,
        !(next(plan, state, event, prepared).1 is Rejected) ==> remaining(
            plan,
            next(plan, state, event, prepared).0,
        ) < remaining(plan, state),
        remaining(plan, state) == 0 <==> state.phase == Phase::Finished,
{
}

/// Whatever happens in a run, its outcomes stand in the order of the table, one for each of
/// the first recipients and none twice; and once the run is finished there is exactly one
/// for every recipient.
pub proof fn lemma_run_keeps_order(plan: RunPlan, inputs: Seq<RunInput>)
    ensures
        state_wf(plan, run(plan, inputs)),
        run(plan, inputs).outcomes.len() <= plan.records.len(),
        forall|i: int|
            0 <= i < run(plan, inputs).outcomes.len() ==> (#[trigger] run(plan, inputs).outcomes[i]).recipient
                == i,
        run(plan, inputs).phase == Phase::Finished ==> run(plan, inputs).outcomes.len()
            == plan.records.len(),
    decreases inputs.len(),
{
    if inputs.len() > 0 {
        lemma_run_keeps_order(plan, inputs.drop_last());
        lemma_step_keeps_state(
            plan,
            run(plan, inputs.drop_last()),
            inputs.last().event,
            inputs.last().prepared,
        );
    }
}

/// A finished run over the table that `rows` load as has exactly one outcome for each row
/// that is no comment, in the order of the rows.
pub proof fn lemma_one_outcome_per_row(rows: Seq<Seq<Seq<char>>>, plan: RunPlan, inputs: Seq<RunInput>)
    requires
        table_of(rows) == Ok::<Seq<RecordView>, nat>(plan.records),
        run(plan, inputs).phase == Phase::Finished,
    ensures
        run(plan, inputs).outcomes.len() == records_of(rows).len(),
        forall|i: int|
            0 <= i < records_of(rows).len() ==> plan.records[(#[trigger] run(
                plan,
                inputs,
            ).outcomes[i]).recipient as int] == records_of(rows)[i],
{
    lemma_run_keeps_order(plan, inputs);
}

/// A message that the transport refuses does not stop the run: the run stands where it
/// would stand had the message been delivered, but for the outcome recorded, and goes on
/// with the next recipient if there is one. The refusal adds one to the failures, a delivery
/// nothing.
pub proof fn lemma_refusal_does_not_stop_run(
    plan: RunPlan,
    state: RunState,
    detail: Seq<char>,
    prepared: Result<MessageView, FailureView>,
)
    requires
        state_wf(plan, state),
        state.phase == Phase::Sending,
    ensures
        ({
            let refused = next(plan, state, EventView::Refused(detail), prepared).0;
            let delivered = next(plan, state, EventView::Delivered, prepared).0;
            &&& refused.phase == Phase::Waiting
            &&& delivered.phase == refused.phase
            &&& refused.outcomes.len() == state.outcomes.len() + 1
            &&& delivered.outcomes.len() == refused.outcomes.len()
            &&& refused.outcomes.drop_last() == state.outcomes
            &&& refused.outcomes.last().failure == Some(FailureView::Transport(detail))
            &&& delivered.outcomes.last().failure is None
            &&& begins(plan, refused, EventView::Proceed) == (refused.outcomes.len() < plan.records.len())
            &&& begins(plan, delivered, EventView::Proceed) == begins(plan, refused, EventView::Proceed)
            &&& count_failed(refused.outcomes) == count_failed(state.outcomes) + 1
            &&& count_failed(delivered.outcomes) == count_failed(state.outcomes)
        }),
{
    let refused = next(plan, state, EventView::Refused(detail), prepared).0;
    let delivered = next(plan, state, EventView::Delivered, prepared).0;
    assert(refused.outcomes.drop_last() =~= state.outcomes);
    assert(delivered.outcomes.drop_last() =~= state.outcomes);
}

/// The report of a finished run counts every recipient of the table as attempted, and as
/// failed those whose outcome holds a failure.
pub proof fn lemma_report_counts(plan: RunPlan, state: RunState)
    requires
        state_wf(plan, state),
        state.phase == Phase::Waiting,
        state.outcomes.len() == plan.records.len(),
    ensures
        next_plain(plan, state, EventView::Proceed).1 == (ActionView::Finish {
            report: report_lines(
                plan.records.len(),
                state.outcomes.filter(|outcome: OutcomeView| outcome.failure is Some).len(),
            ),
        }),
{
    lemma_count_failed_counts(state.outcomes);
}

/// The words for a failure.
pub fn describe_failure(failure: &Failure) -> (text: String)
    ensures
        text@ == failure_text(failure@),
{
    match failure {
        Failure::Subject(detail) => detail.clone(),
        Failure::Body(detail) => detail.clone(),
        Failure::Address(field) => match field {
            AddressField::From => String::from_str("invalid From address"),
            AddressField::To => String::from_str("invalid To address"),
            AddressField::ReplyTo => String::from_str("invalid Reply-To address"),
            AddressField::Cc => String::from_str("invalid CC address"),
            AddressField::Bcc => String::from_str("invalid BCC address"),
        },
        Failure::Transport(detail) => detail.clone(),
    }
}

/// What is printed before a message is sent to `record`.
pub fn announce(record: &RecipientRecord) -> (text: String)
    ensures
        text@ == announce_text(record@),
{
    let mut text = String::from_str("--- Sending to: ");
    text.append(record.mailbox().as_str());
    text.append(" ");
    text
}

/// What is printed of a failure, behind the announcement.
pub fn note_failure(failure: &Failure) -> (text: String)
    ensures
        text@ == failure_note(failure@),
{
    let mut text = String::from_str("### Failed: ");
    text.append(describe_failure(failure).as_str());
    text
}

/// The report of a run.
pub fn report(attempted: usize, failed: usize) -> (lines: Vec<String>)
    ensures
        lines.deep_view() == report_lines(attempted as nat, failed as nat),
{
    let mut lines: Vec<String> = Vec::new();
    if failed > 0 {
        let mut line = String::from_str("### Failed to send: ");
        line.append(decimal_text(failed as u64).as_str());
        lines.push(line);
    }
    let mut line = String::from_str("=== Processed ");
    line.append(decimal_text(attempted as u64).as_str());
    line.append(" mails");
    lines.push(line);
    assert(lines.deep_view() =~= report_lines(attempted as nat, failed as nat));
    lines
}

/// Prepares the message for one recipient: renders the subject, then the body, then
/// assembles the message. The first of these that fails is the failure.
pub fn prepare(
    config: &EnvConfig,
    renderer: &Renderer,
    record: &RecipientRecord,
    attachment: &Option<Attachment>,
) -> (prepared: Result<OutgoingMessage, Failure>)
    ensures
        preparation_fits(
            config@,
            renderer.templates(),
            attachment_view(*attachment),
            record@,
            prepared_view(prepared),
        ),
{
    let subject = match renderer.render(TemplateKind::Subject, record) {
        Ok(text) => text,
        Err(fault) => { return Err(Failure::Subject(fault.detail)); },
    };
    let body = match renderer.render(TemplateKind::Body, record) {
        Ok(text) => text,
        Err(fault) => { return Err(Failure::Body(fault.detail)); },
    };
    match assemble(config, record, subject, body, attachment) {
        Ok(message) => Ok(message),
        Err(field) => Err(Failure::Address(field)),
    }
}

/// The delivery driver of one run.
pub struct Driver {
    config: EnvConfig,
    renderer: Renderer,
    records: Vec<RecipientRecord>,
    attachment: Option<Attachment>,
    phase: Phase,
    outcomes: Vec<DeliveryOutcome>,
    failed: usize,
}

impl Driver {
    /// What the run works on.
    pub closed spec fn plan(&self) -> RunPlan {
        RunPlan {
            config: self.config@,
            templates: self.renderer.templates(),
            records: self.records.deep_view(),
            attachment: attachment_view(self.attachment),
        }
    }

    /// Where the run stands.
    pub closed spec fn state(&self) -> RunState {
        RunState { phase: self.phase, outcomes: self.outcomes.deep_view() }
    }

    /// The tally of failures that the driver keeps.
    pub closed spec fn tally(&self) -> nat {
        self.failed as nat
    }

    /// What holds of a driver at all times: its state is one of a run, its tally of failures
    /// is the number of failures among its outcomes, and it has an attachment if and only if
    /// its configuration names one.
    pub open spec fn wf(&self) -> bool {
        &&& state_wf(self.plan(), self.state())
        &&& self.tally() == count_failed(self.state().outcomes)
        &&& self.plan().attachment is Some <==> self.plan().config.attachment.len() > 0
    }

    /// Sets a run up, given whether the sender was found to be an address: nothing is
    /// attempted yet. `file` is what the attachment file holds; it counts for nothing where
    /// the configuration names no attachment.
    pub fn with_sender_checked(
        config: EnvConfig,
        renderer: Renderer,
        records: Vec<RecipientRecord>,
        file: Vec<u8>,
        sender_ok: bool,
    ) -> (made: Result<Driver, AddressField>)
        ensures
            match made {
                Ok(driver) => {
                    &&& sender_ok
                    &&& driver.wf()
                    &&& driver.state() == initial_state()
                    &&& driver.plan() == (RunPlan {
                        config: config@,
                        templates: renderer.templates(),
                        records: records.deep_view(),
                        attachment: attachment_for(config@, file@),
                    })
                },
                Err(field) => field == AddressField::From && !sender_ok,
            },
    {
        if !sender_ok {
            return Err(AddressField::From);
        }
        let attachment = Attachment::for_config(&config, file);
        let driver = Driver {
            config,
            renderer,
            records,
            attachment,
            phase: Phase::Waiting,
            outcomes: Vec::new(),
            failed: 0,
        };
        assert(driver.outcomes.deep_view() =~= Seq::<OutcomeView>::empty());
        Ok(driver)
    }

    /// Sets a run up: nothing is attempted yet. `file` is what the attachment file holds; it
    /// counts for nothing where the configuration names no attachment.
    ///
    /// Fails where the sender is no address: it is the same for every message, so it is
    /// looked at here, once.
    pub fn new(config: EnvConfig, renderer: Renderer, records: Vec<RecipientRecord>, file: Vec<u8>) -> (made:
        Result<Driver, AddressField>)
        ensures
            match made {
                Ok(driver) => {
                    &&& valid_mailbox(config@.smtp_from)
                    &&& driver.wf()
                    &&& driver.state() == initial_state()
                    &&& driver.plan() == (RunPlan {
                        config: config@,
                        templates: renderer.templates(),
                        records: records.deep_view(),
                        attachment: attachment_for(config@, file@),
                    })
                },
                Err(field) => field == AddressField::From && !valid_mailbox(config@.smtp_from),
            },
    {
        let sender_ok = sender_is_valid(&config);
        Driver::with_sender_checked(config, renderer, records, file, sender_ok)
    }

    /// Where the run stands.
    pub fn phase(&self) -> (phase: Phase)
        ensures
            phase == self.state().phase,
    {
        self.phase
    }

    /// The outcomes recorded so far, in the order of the table.
    pub fn outcomes(&self) -> (outcomes: &Vec<DeliveryOutcome>)
        ensures
            outcomes.deep_view() == self.state().outcomes,
    {
        &self.outcomes
    }

    /// The number of recipients attempted so far.
    pub fn attempted(&self) -> (count: usize)
        ensures
            count == self.state().outcomes.len(),
    {
        proof {
            assert(self.outcomes.deep_view().len() == self.outcomes.len());
        }
        self.outcomes.len()
    }

    /// The number of recipients attempted so far that got no message.
    pub fn failures(&self) -> (count: usize)
        requires
            self.wf(),
        ensures
            count == count_failed(self.state().outcomes),
    {
        self.failed
    }

    /// The recipients of the run.
    pub fn records(&self) -> (records: &Vec<RecipientRecord>)
        ensures
            records.deep_view() == self.plan().records,
    {
        &self.records
    }

    /// Takes up the next recipient, given what preparing its message came to.
    pub fn begin(&mut self, prepared: Result<OutgoingMessage, Failure>) -> (action: Action)
        requires
            old(self).wf(),
            old(self).state().phase == Phase::Waiting,
            old(self).state().outcomes.len() < old(self).plan().records.len(),
        ensures
            final(self).wf(),
            final(self).plan() == old(self).plan(),
            (final(self).state(), action@) == after_begin(
                old(self).plan(),
                old(self).state(),
                prepared_view(prepared),
            ),
    {
        let index = self.outcomes.len();
        proof {
            assert(self.outcomes.deep_view().len() == self.outcomes.len());
            assert(self.records.deep_view().len() == self.records.len());
            assert(self.records.deep_view()[index as int] == self.records[index as int]@);
            lemma_count_failed_bound(self.outcomes.deep_view());
        }
        let announce = announce(&self.records[index]);
        match prepared {
            Ok(message) => {
                self.phase = Phase::Sending;
                Action::Send { announce, message }
            },
            Err(failure) => {
                let mut note = announce;
                note.append(note_failure(&failure).as_str());
                let ghost before = self.outcomes.deep_view();
                let outcome = DeliveryOutcome { recipient: index, failure: Some(failure) };
                self.outcomes.push(outcome);
                self.failed = self.failed + 1;
                proof {
                    assert(self.outcomes.deep_view() =~= before.push(outcome@));
                    assert(self.outcomes.deep_view().drop_last() =~= before);
                }
                Action::Rest { note, seconds: self.config.delay }
            },
        }
    }

    /// Records what became of the message that was sent: `None` where it was delivered, else
    /// the transport's words.
    pub fn settle(&mut self, refusal: Option<String>) -> (action: Action)
        requires
            old(self).wf(),
            old(self).state().phase == Phase::Sending,
        ensures
            final(self).wf(),
            final(self).plan() == old(self).plan(),
            (final(self).state(), action@) == after_settle(
                old(self).plan(),
                old(self).state(),
                text_view(refusal),
            ),
    {
        let index = self.outcomes.len();
        let ghost before = self.outcomes.deep_view();
        proof {
            assert(before.len() == self.outcomes.len());
            assert(self.records.deep_view().len() == self.records.len());
            lemma_count_failed_bound(before);
        }
        self.phase = Phase::Waiting;
        match refusal {
            None => {
                let outcome = DeliveryOutcome { recipient: index, failure: None };
                self.outcomes.push(outcome);
                proof {
                    assert(self.outcomes.deep_view() =~= before.push(outcome@));
                    assert(self.outcomes.deep_view().drop_last() =~= before);
                }
                Action::Rest { note: String::new(), seconds: self.config.delay }
            },
            Some(detail) => {
                let failure = Failure::Transport(detail);
                let note = note_failure(&failure);
                let outcome = DeliveryOutcome { recipient: index, failure: Some(failure) };
                self.outcomes.push(outcome);
                self.failed = self.failed + 1;
                proof {
                    assert(self.outcomes.deep_view() =~= before.push(outcome@));
                    assert(self.outcomes.deep_view().drop_last() =~= before);
                }
                Action::Rest { note, seconds: self.config.delay }
            },
        }
    }

    /// Ends the run with its report.
    pub fn finish(&mut self) -> (action: Action)
        requires
            old(self).wf(),
            old(self).state().phase == Phase::Waiting,
            old(self).state().outcomes.len() == old(self).plan().records.len(),
        ensures
            final(self).wf(),
            final(self).plan() == old(self).plan(),
            (final(self).state(), action@) == after_finish(old(self).plan(), old(self).state()),
    {
        proof {
            assert(self.outcomes.deep_view().len() == self.outcomes.len());
        }
        self.phase = Phase::Finished;
        Action::Finish { report: report(self.outcomes.len(), self.failed) }
    }

    /// Takes one step: says what to do next, given what happened.
    ///
    /// The first event of a run is `Proceed`. An event that does not fit where the run
    /// stands is rejected and changes nothing.
    pub fn step(&mut self, event: Event) -> (action: Action)
        requires
            old(self).wf(),
        ensures
            final(self).wf(),
            final(self).plan() == old(self).plan(),
            step_allowed(old(self).plan(), old(self).state(), event@, final(self).state(), action@),
            action@ is Rejected || remaining(final(self).plan(), final(self).state()) < remaining(
                old(self).plan(),
                old(self).state(),
            ),
    {
        proof {
            assert(self.outcomes.deep_view().len() == self.outcomes.len());
            assert(self.records.deep_view().len() == self.records.len());
        }
        match self.phase {
            Phase::Waiting => match event {
                Event::Proceed => {
                    let index = self.outcomes.len();
                    if index < self.records.len() {
                        let prepared = prepare(
                            &self.config,
                            &self.renderer,
                            &self.records[index],
                            &self.attachment,
                        );
                        proof {
                            assert(self.records.deep_view()[index as int] == self.records[index as int]@);
                            assert(preparation_fits(
                                self.plan().config,
                                self.plan().templates,
                                self.plan().attachment,
                                self.plan().records[index as int],
                                prepared_view(prepared),
                            ));
                        }
                        self.begin(prepared)
                    } else {
                        self.finish()
                    }
                },
                _ => Action::Rejected,
            },
            Phase::Sending => match event {
                Event::Delivered => self.settle(None),
                Event::Refused(detail) => self.settle(Some(detail)),
                Event::Proceed => Action::Rejected,
            },
            Phase::Finished => Action::Rejected,
        }
    }
}

} // verus!
