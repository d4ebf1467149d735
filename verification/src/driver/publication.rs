//! What is told of a run outside the driver: that its events are kept before they are told,
//! and told once.
use vstd::prelude::*;

use crate::input_ledger::{MachineInputRecord, MachineInputRecordView, MachineInputStatus};
use crate::json::{Json, JsonView};
use crate::number::{decimal, decimal_index};
use crate::text::{cat2, same};

use super::delivery::{
    AmbiguousDelivery, AmbiguousDeliveryView, DELIVERY_ROLE_AGENT_LAUNCH,
    DELIVERY_ROLE_NODE_PROMPT, DELIVERY_ROLE_PARTICIPANT_MESSAGE,
};
use super::failure::{alike, json_alike, DriverFailure, FailureView};
use super::records::{ParticipantBinding, ParticipantBindingView};
use super::wire::RunStatus;

verus! {

broadcast use vstd::string::group_string_axioms;

/// Whether a run has come to an end, well or not.
pub fn private_runtime_is_terminal(status: RunStatus) -> (r: bool)
    ensures
        r == (status == RunStatus::Completed || status == RunStatus::Failed || status
            == RunStatus::Stopped),
{
    match status {
        RunStatus::Completed | RunStatus::Failed | RunStatus::Stopped => true,
        _ => false,
    }
}

/// Why the events that were to be kept do not fit those that are.
#[derive(Debug, Clone, Copy, PartialEq, Eq, Structural)]
pub enum ReconcileFault {
    Torn,
    Conflict,
}

impl ReconcileFault {
    pub open spec fn text(self) -> Seq<char> {
        match self {
            ReconcileFault::Torn => {
                "private runtime event log ends inside a publication transaction"@
            },
            ReconcileFault::Conflict => {
                "private runtime events conflict with the publication outbox"@
            },
        }
    }

    pub fn message(self) -> (r: &'static str)
        ensures
            r@ == self.text(),
    {
        match self {
            ReconcileFault::Torn => {
                "private runtime event log ends inside a publication transaction"
            },
            ReconcileFault::Conflict => {
                "private runtime events conflict with the publication outbox"
            },
        }
    }
}

/// How many events a run has behind those that were to be kept.
pub open spec fn end_count(base_event_count: usize, pending: nat) -> int {
    if base_event_count + pending > usize::MAX {
        usize::MAX as int
    } else {
        base_event_count + pending
    }
}

pub fn runtime_end_event_count(base_event_count: usize, pending: usize) -> (r: usize)
    ensures
        r == end_count(base_event_count, pending as nat),
{
    base_event_count.saturating_add(pending)
}

/// Whether events stand among others from a place on.
pub open spec fn stand_at(current: Seq<JsonView>, base: int, pending: Seq<JsonView>) -> bool {
    forall|i: int|
        0 <= i < pending.len() ==> alike(current[base + i], #[trigger] pending[i])
}

/// Whether the events that were to be kept are still to be appended.
pub open spec fn reconciled(
    current: Seq<JsonView>,
    base_event_count: usize,
    pending: Seq<JsonView>,
) -> Result<bool, ReconcileFault> {
    if current.len() == base_event_count {
        Ok(true)
    } else if current.len() < end_count(base_event_count, pending.len()) {
        Err(ReconcileFault::Torn)
    } else if base_event_count + pending.len() > current.len() || !stand_at(
        current,
        base_event_count as int,
        pending,
    ) {
        Err(ReconcileFault::Conflict)
    } else {
        Ok(false)
    }
}

/// Whether the events that were to be kept are still to be appended.
pub fn reconcile_private_runtime_batch(
    current: &Vec<Json>,
    base_event_count: usize,
    pending: &Vec<Json>,
) -> (r: Result<bool, ReconcileFault>)
    ensures
        r == reconciled(current.deep_view(), base_event_count, pending.deep_view()),
{
    let ghost there = current.deep_view();
    let ghost wanted = pending.deep_view();
    if current.len() == base_event_count {
        return Ok(true);
    }
    if current.len() < runtime_end_event_count(base_event_count, pending.len()) {
        return Err(ReconcileFault::Torn);
    }
    if base_event_count > current.len() || pending.len() > current.len() - base_event_count {
        return Err(ReconcileFault::Conflict);
    }
    let mut i: usize = 0;
    while i < pending.len()
        invariant
            i <= pending.len(),
            there == current.deep_view(),
            wanted == pending.deep_view(),
            base_event_count + pending.len() <= current.len(),
            forall|j: int|
                0 <= j < i ==> alike(there[base_event_count + j], #[trigger] wanted[j]),
        decreases pending.len() - i,
    {
        assert(there[base_event_count + i] == current@[base_event_count + i]@);
        assert(wanted[i as int] == pending@[i as int]@);
        if !json_alike(&current[base_event_count + i], &pending[i]) {
            return Err(ReconcileFault::Conflict);
        }
        i += 1;
    }
    Ok(false)
}

/// Events that were appended are found there the next time: they are not appended again.
pub proof fn lemma_events_are_kept_once(
    current: Seq<JsonView>,
    base_event_count: usize,
    pending: Seq<JsonView>,
)
    requires
        reconciled(current, base_event_count, pending) == Ok::<bool, ReconcileFault>(true),
        current.len() + pending.len() <= usize::MAX,
        pending.len() > 0,
    ensures
        reconciled(current + pending, base_event_count, pending) == Ok::<bool, ReconcileFault>(
            false,
        ),
{
    assert forall|i: int| 0 <= i < pending.len() implies alike(
        (current + pending)[base_event_count + i],
        #[trigger] pending[i],
    ) by {
        assert((current + pending)[base_event_count + i] == pending[i]);
    }
}

/// Why the next events are not kept, where that is asked for.
pub fn injected_append_failure(fault_at: Option<usize>, marked: bool, events: usize) -> (r: Option<
    DriverFailure,
>)
    ensures
        match r {
            Some(failure) => {
                &&& fault_at is Some
                &&& 0 < fault_at->0 <= events
                &&& marked
                &&& failure.deep_view() == FailureView::plain(
                    "persistence_failed"@,
                    "injected runtime event append failure at event "@ + decimal(
                        fault_at->0 as nat,
                    ),
                )
            },
            None => fault_at is None || fault_at->0 == 0 || events < fault_at->0 || !marked,
        },
{
    match fault_at {
        Some(at) => {
            if at > 0 && marked && events >= at {
                Some(
                    DriverFailure::told(
                        "persistence_failed",
                        cat2(
                            "injected runtime event append failure at event ",
                            decimal_index(at).as_str(),
                        ),
                    ),
                )
            } else {
                None
            }
        },
        None => None,
    }
}

/// How far new events of a run have come.
#[derive(Debug, Clone, Copy, PartialEq, Eq, Structural)]
pub enum CommitStage {
    Reconciling,
    Preparing,
    Appending,
    Publishing,
    Acknowledging,
    Showing,
    Ended,
}

/// What is to be done next with new events.
#[derive(Debug, Clone, Copy, PartialEq, Eq, Structural)]
pub enum CommitAction {
    /// Bring what was to be told before up to date, and tell how many events are kept.
    Reconcile,
    /// Write down that the events from this one on are to be kept and told.
    Prepare(usize),
    /// Keep the events from this one on.
    Append(usize),
    /// Tell of them.
    Publish,
    /// Write down that they were told.
    Acknowledge,
    /// Write the state of the run down for those who only look.
    Show,
    /// Stop.
    Finish,
}

/// What came of it.
#[derive(Debug)]
pub enum CommitEvent {
    /// It was done, and so many events are kept.
    Reconciled(usize),
    /// It was done.
    Done,
    /// It was not done.
    Failed(DriverFailure),
}

#[verifier::ext_equal]
pub enum CommitEventView {
    Reconciled(usize),
    Done,
    Failed(FailureView),
}

impl DeepView for CommitEvent {
    type V = CommitEventView;

    open spec fn deep_view(&self) -> CommitEventView {
        match self {
            CommitEvent::Reconciled(n) => CommitEventView::Reconciled(*n),
            CommitEvent::Done => CommitEventView::Done,
            CommitEvent::Failed(failure) => CommitEventView::Failed(failure.deep_view()),
        }
    }
}

/// New events of a run on their way.
#[derive(Debug)]
pub struct CommitMachine {
    stage: CommitStage,
    /// How many events the run has with the new ones.
    total: usize,
    /// How many are kept.
    persisted: usize,
    /// Whether the new events count.
    adopted: bool,
    /// Why nothing may be told at present.
    blocked: Option<String>,
    /// Why it was given up.
    failure: Option<DriverFailure>,
}

#[verifier::ext_equal]
pub struct CommitView {
    pub stage: CommitStage,
    pub total: usize,
    pub persisted: usize,
    pub adopted: bool,
    pub blocked: Option<Seq<char>>,
    pub failure: Option<FailureView>,
}

impl DeepView for CommitMachine {
    type V = CommitView;

    closed spec fn deep_view(&self) -> CommitView {
        CommitView {
            stage: self.stage,
            total: self.total,
            persisted: self.persisted,
            adopted: self.adopted,
            blocked: self.blocked.deep_view(),
            failure: self.failure.deep_view(),
        }
    }
}

impl CommitView {
    pub open spec fn fresh(
        total: usize,
        persisted: usize,
        blocked: Option<Seq<char>>,
    ) -> CommitView {
        CommitView {
            stage: CommitStage::Reconciling,
            total,
            persisted,
            adopted: false,
            blocked,
            failure: None,
        }
    }

    pub open spec fn action(self) -> CommitAction {
        match self.stage {
            CommitStage::Reconciling => CommitAction::Reconcile,
            CommitStage::Preparing => CommitAction::Prepare(self.persisted),
            CommitStage::Appending => CommitAction::Append(self.persisted),
            CommitStage::Publishing => CommitAction::Publish,
            CommitStage::Acknowledging => CommitAction::Acknowledge,
            CommitStage::Showing => CommitAction::Show,
            CommitStage::Ended => CommitAction::Finish,
        }
    }

    pub open spec fn given_up(self, failure: FailureView, blocks: bool) -> CommitView {
        CommitView {
            stage: CommitStage::Ended,
            blocked: if blocks {
                Some(failure.message)
            } else {
                self.blocked
            },
            failure: Some(failure),
            ..self
        }
    }

    pub open spec fn reconciled(self, persisted: usize) -> CommitView {
        CommitView {
            stage: if persisted >= self.total {
                CommitStage::Showing
            } else {
                CommitStage::Preparing
            },
            persisted,
            adopted: persisted >= self.total,
            blocked: None,
            ..self
        }
    }

    pub open spec fn advanced(self, event: CommitEventView) -> CommitView {
        match (self.stage, event) {
            (CommitStage::Reconciling, CommitEventView::Reconciled(n)) => self.reconciled(n),
            (CommitStage::Reconciling, CommitEventView::Failed(failure)) => self.given_up(
                failure,
                false,
            ),
            (CommitStage::Preparing, CommitEventView::Done) => CommitView {
                stage: CommitStage::Appending,
                ..self
            },
            (CommitStage::Preparing, CommitEventView::Failed(failure)) => self.given_up(
                failure,
                false,
            ),
            (CommitStage::Appending, CommitEventView::Done) => CommitView {
                stage: CommitStage::Publishing,
                persisted: self.total,
                adopted: true,
                ..self
            },
            (CommitStage::Appending, CommitEventView::Failed(failure)) => self.given_up(
                failure,
                true,
            ),
            (CommitStage::Publishing, CommitEventView::Done) => CommitView {
                stage: CommitStage::Acknowledging,
                ..self
            },
            (CommitStage::Publishing, CommitEventView::Failed(failure)) => self.given_up(
                failure,
                true,
            ),
            (CommitStage::Acknowledging, CommitEventView::Done) => CommitView {
                stage: CommitStage::Showing,
                ..self
            },
            (CommitStage::Acknowledging, CommitEventView::Failed(failure)) => self.given_up(
                failure,
                true,
            ),
            (CommitStage::Showing, CommitEventView::Done) => CommitView {
                stage: CommitStage::Ended,
                blocked: None,
                ..self
            },
            (CommitStage::Showing, CommitEventView::Failed(_)) => CommitView {
                stage: CommitStage::Ended,
                blocked: None,
                ..self
            },
            _ => self,
        }
    }

    /// The state after events.
    pub open spec fn after(self, events: Seq<CommitEventView>) -> CommitView
        decreases events.len(),
    {
        if events.len() == 0 {
            self
        } else {
            self.after(events.drop_last()).advanced(events.last())
        }
    }

    /// What holds at every stage.
    pub open spec fn sound(self) -> bool {
        &&& self.stage == CommitStage::Reconciling ==> !self.adopted && self.failure is None
        &&& self.stage == CommitStage::Preparing || self.stage == CommitStage::Appending ==> {
            &&& self.persisted < self.total
            &&& !self.adopted
            &&& self.blocked is None
            &&& self.failure is None
        }
        &&& self.stage == CommitStage::Publishing || self.stage == CommitStage::Acknowledging ==> {
            &&& self.persisted == self.total
            &&& self.adopted
            &&& self.blocked is None
            &&& self.failure is None
        }
        &&& self.stage == CommitStage::Showing ==> {
            &&& self.persisted >= self.total
            &&& self.adopted
            &&& self.blocked is None
            &&& self.failure is None
        }
        &&& self.stage == CommitStage::Ended ==> {
            ||| self.failure is None && self.adopted && self.persisted >= self.total
                && self.blocked is None
            ||| self.failure is Some && (self.adopted ==> self.blocked is Some && self.persisted
                == self.total)
        }
    }
}

impl CommitMachine {
    pub fn new(total: usize, persisted: usize, blocked: Option<String>) -> (r: Self)
        ensures
            r.deep_view() == CommitView::fresh(total, persisted, blocked.deep_view()),
    {
        CommitMachine {
            stage: CommitStage::Reconciling,
            total,
            persisted,
            adopted: false,
            blocked,
            failure: None,
        }
    }

    pub fn action(&self) -> (r: CommitAction)
        ensures
            r == self.deep_view().action(),
    {
        match self.stage {
            CommitStage::Reconciling => CommitAction::Reconcile,
            CommitStage::Preparing => CommitAction::Prepare(self.persisted),
            CommitStage::Appending => CommitAction::Append(self.persisted),
            CommitStage::Publishing => CommitAction::Publish,
            CommitStage::Acknowledging => CommitAction::Acknowledge,
            CommitStage::Showing => CommitAction::Show,
            CommitStage::Ended => CommitAction::Finish,
        }
    }

    fn give_up(&mut self, failure: DriverFailure, blocks: bool)
        ensures
            final(self).deep_view() == old(self).deep_view().given_up(failure.deep_view(), blocks),
    {
        if blocks {
            self.blocked = Some(failure.message.clone());
        }
        self.failure = Some(failure);
        self.stage = CommitStage::Ended;
    }

    /// Goes on with what came of the last action.
    pub fn advance(&mut self, event: CommitEvent)
        ensures
            final(self).deep_view() == old(self).deep_view().advanced(event.deep_view()),
    {
        match event {
            CommitEvent::Reconciled(n) => {
                if self.stage == CommitStage::Reconciling {
                    self.persisted = n;
                    self.blocked = None;
                    self.adopted = n >= self.total;
                    self.stage = if n >= self.total {
                        CommitStage::Showing
                    } else {
                        CommitStage::Preparing
                    };
                }
            },
            CommitEvent::Done => match self.stage {
                CommitStage::Preparing => {
                    self.stage = CommitStage::Appending;
                },
                CommitStage::Appending => {
                    self.persisted = self.total;
                    self.adopted = true;
                    self.stage = CommitStage::Publishing;
                },
                CommitStage::Publishing => {
                    self.stage = CommitStage::Acknowledging;
                },
                CommitStage::Acknowledging => {
                    self.stage = CommitStage::Showing;
                },
                CommitStage::Showing => {
                    self.blocked = None;
                    self.stage = CommitStage::Ended;
                },
                _ => {},
            },
            CommitEvent::Failed(failure) => match self.stage {
                CommitStage::Reconciling | CommitStage::Preparing => {
                    self.give_up(failure, false);
                },
                CommitStage::Appending | CommitStage::Publishing | CommitStage::Acknowledging => {
                    self.give_up(failure, true);
                },
                CommitStage::Showing => {
                    self.blocked = None;
                    self.stage = CommitStage::Ended;
                },
                CommitStage::Ended => {},
            },
        }
    }

    /// How many events are kept.
    pub fn persisted_event_count(&self) -> (r: usize)
        ensures
            r == self.deep_view().persisted,
    {
        self.persisted
    }

    /// Whether the new events count.
    pub fn adopted(&self) -> (r: bool)
        ensures
            r == self.deep_view().adopted,
    {
        self.adopted
    }

    /// Why nothing may be told at present, and why it was given up.
    pub fn into_parts(self) -> (r: (Option<String>, Option<DriverFailure>))
        ensures
            r.0.deep_view() == self.deep_view().blocked,
            r.1.deep_view() == self.deep_view().failure,
    {
        (self.blocked, self.failure)
    }
}

proof fn lemma_commit_sound(
    total: usize,
    persisted: usize,
    blocked: Option<Seq<char>>,
    events: Seq<CommitEventView>,
)
    ensures
        CommitView::fresh(total, persisted, blocked).after(events).sound(),
        CommitView::fresh(total, persisted, blocked).after(events).total == total,
    decreases events.len(),
{
    if events.len() > 0 {
        lemma_commit_sound(total, persisted, blocked, events.drop_last());
    }
}

/// Nothing is told of events that are not kept: before they are told or said to be told, all
/// of them are.
pub proof fn lemma_events_are_kept_before_they_are_told(
    total: usize,
    persisted: usize,
    blocked: Option<Seq<char>>,
    events: Seq<CommitEventView>,
)
    ensures
        ({
            let machine = CommitView::fresh(total, persisted, blocked).after(events);
            machine.action() == CommitAction::Publish || machine.action()
                == CommitAction::Acknowledge ==> machine.persisted == total && machine.adopted
        }),
{
    lemma_commit_sound(total, persisted, blocked, events);
}

/// Whatever happens, either the new events count and are kept, and it is known if they could not
/// be told; or they do not count.
pub proof fn lemma_commit_ends_well_or_is_known(
    total: usize,
    persisted: usize,
    blocked: Option<Seq<char>>,
    events: Seq<CommitEventView>,
)
    ensures
        ({
            let machine = CommitView::fresh(total, persisted, blocked).after(events);
            machine.action() == CommitAction::Finish ==> {
                &&& machine.failure is None ==> machine.adopted && machine.persisted >= total
                    && machine.blocked is None
                &&& machine.failure is Some && machine.adopted ==> machine.blocked is Some
                    && machine.persisted == total
            }
        }),
{
    lemma_commit_sound(total, persisted, blocked, events);
}

/// What is still to be told of an agent.
#[derive(Debug, Clone, Copy, PartialEq, Eq, Structural)]
pub struct ParticipantObligations {
    /// That its session belongs to the run.
    pub started: bool,
    /// That it is ready, and that its session does the work.
    pub bound: bool,
    /// How it ended.
    pub ended: Option<i32>,
}

/// What of it was told.
#[derive(Debug, Clone, Copy, PartialEq, Eq, Structural)]
pub struct ParticipantTold {
    pub started: bool,
    pub bound: bool,
    pub ended: bool,
}

/// What is still to be told of an agent; one that is bound must be known by all its names.
pub open spec fn obligations(
    binding: ParticipantBindingView,
    told: ParticipantTold,
) -> Result<ParticipantObligations, FailureView> {
    if binding.native_session_id is None {
        Ok(ParticipantObligations { started: false, bound: false, ended: None })
    } else if binding.platform is None {
        Err(
            FailureView::plain(
                "publication_blocked"@,
                "bound participant is missing its native platform"@,
            ),
        )
    } else if binding.source is None {
        Err(
            FailureView::plain(
                "publication_blocked"@,
                "bound participant is missing its native source"@,
            ),
        )
    } else {
        Ok(
            ParticipantObligations {
                started: !told.bound && !told.started,
                bound: !told.bound,
                ended: if told.ended {
                    None
                } else {
                    binding.exit_status
                },
            },
        )
    }
}

/// What is still to be told of an agent.
pub fn participant_obligations(binding: &ParticipantBinding, told: ParticipantTold) -> (r: Result<
    ParticipantObligations,
    DriverFailure,
>)
    ensures
        match r {
            Ok(owed) => obligations(binding.deep_view(), told) == Ok::<
                ParticipantObligations,
                FailureView,
            >(owed),
            Err(failure) => obligations(binding.deep_view(), told) == Err::<
                ParticipantObligations,
                FailureView,
            >(failure.deep_view()),
        },
{
    if binding.native_session_id.is_none() {
        return Ok(ParticipantObligations { started: false, bound: false, ended: None });
    }
    if binding.platform.is_none() {
        return Err(
            DriverFailure::new(
                "publication_blocked",
                "bound participant is missing its native platform",
            ),
        );
    }
    if binding.source.is_none() {
        return Err(
            DriverFailure::new(
                "publication_blocked",
                "bound participant is missing its native source",
            ),
        );
    }
    Ok(
        ParticipantObligations {
            started: !told.bound && !told.started,
            bound: !told.bound,
            ended: if told.ended {
                None
            } else {
                binding.exit_status
            },
        },
    )
}

/// What was told of an agent is not owed any more.
pub proof fn lemma_told_agents_owe_nothing(binding: ParticipantBindingView, told: ParticipantTold)
    requires
        obligations(binding, told) is Ok,
    ensures
        ({
            let owed = obligations(binding, told)->Ok_0;
            let next = ParticipantTold {
                started: told.started || owed.started,
                bound: told.bound || owed.bound,
                ended: told.ended || owed.ended is Some,
            };
            obligations(binding, next) == Ok::<ParticipantObligations, FailureView>(
                ParticipantObligations { started: false, bound: false, ended: None },
            )
        }),
{
}

/// Whether an entry of the ledger tells that input that was begun arrived.
pub open spec fn settles(
    record: MachineInputRecordView,
    run_id: Seq<char>,
    delivery: AmbiguousDeliveryView,
) -> bool {
    &&& record.status == MachineInputStatus::Submitted
    &&& record.run_id == run_id
    &&& record.activation_id == delivery.activation_id
    &&& record.pane_id == delivery.pane_id
    &&& record.allocation_generation == delivery.allocation_generation
    &&& record.payload_hash == delivery.payload_hash
}

/// The last entry of the ledger that tells that input that was begun arrived.
pub open spec fn settling(
    records: Seq<MachineInputRecordView>,
    run_id: Seq<char>,
    delivery: AmbiguousDeliveryView,
) -> Option<int>
    decreases records.len(),
{
    if records.len() == 0 {
        None
    } else if settles(records.last(), run_id, delivery) {
        Some(records.len() - 1)
    } else {
        settling(records.drop_last(), run_id, delivery)
    }
}

/// Whether a role is one that input has.
pub open spec fn is_role(role: Seq<char>) -> bool {
    role == DELIVERY_ROLE_AGENT_LAUNCH@ || role == DELIVERY_ROLE_NODE_PROMPT@ || role
        == DELIVERY_ROLE_PARTICIPANT_MESSAGE@
}

/// The entry of the ledger that is to be told for input that was begun.
pub fn machine_input_to_publish(
    records: &Vec<MachineInputRecord>,
    run_id: &str,
    delivery: &AmbiguousDelivery,
) -> (r: Result<Option<usize>, DriverFailure>)
    ensures
        match r {
            Ok(found) => {
                &&& is_role(delivery.deep_view().role)
                &&& match found {
                    Some(at) => settling(records.deep_view(), run_id@, delivery.deep_view())
                        == Some(at as int),
                    None => settling(records.deep_view(), run_id@, delivery.deep_view()) is None,
                }
            },
            Err(failure) => {
                &&& !is_role(delivery.deep_view().role)
                &&& failure.deep_view() == FailureView::plain(
                    "publication_blocked"@,
                    "private input delivery has an unknown role"@,
                )
            },
        },
{
    let role = delivery.role.as_str();
    if !same(role, DELIVERY_ROLE_AGENT_LAUNCH) && !same(role, DELIVERY_ROLE_NODE_PROMPT) && !same(
        role,
        DELIVERY_ROLE_PARTICIPANT_MESSAGE,
    ) {
        return Err(
            DriverFailure::new("publication_blocked", "private input delivery has an unknown role"),
        );
    }
    let ghost model = records.deep_view();
    let mut i: usize = records.len();
    assert(model.take(i as int) =~= model);
    while i > 0
        invariant
            i <= records.len(),
            model == records.deep_view(),
            is_role(delivery.deep_view().role),
            settling(model, run_id@, delivery.deep_view()) == settling(
                model.take(i as int),
                run_id@,
                delivery.deep_view(),
            ),
        decreases i,
    {
        i -= 1;
        assert(model.take(i + 1).drop_last() =~= model.take(i as int));
        assert(model.take(i + 1).last() == records@[i as int].deep_view());
        let record = &records[i];
        if record.status == MachineInputStatus::Submitted && same(record.run_id.as_str(), run_id)
            && same(record.activation_id.as_str(), delivery.activation_id.as_str()) && same(
            record.pane_id.as_str(),
            delivery.pane_id.as_str(),
        ) && record.allocation_generation == delivery.allocation_generation && same(
            record.payload_hash.as_str(),
            delivery.payload_hash.as_str(),
        ) {
            return Ok(Some(i));
        }
    }
    Ok(None)
}

} // verus!
