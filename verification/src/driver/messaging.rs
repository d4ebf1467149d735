//! The course of a message to an agent: it is begun, sent, recorded and known to have arrived,
//! in this order. Once it is begun it may have arrived, until all of that is done.
use vstd::prelude::*;

use crate::adapters::tmux::model::{TmuxActivationMetadata, TmuxActivationMetadataView};
use crate::input_ledger::{MachineInputRecord, MachineInputRecordView};
use crate::json::{Json, JsonView};

use super::delivery::{
    arrival_event, arrival_payload, delivery_to_start, start_event,
    start_input_delivery_with_message, start_payload, AmbiguousDelivery, AmbiguousDeliveryView,
    DeliveriesView, PlannedEvent, PlannedEventView, SubmittedDeliveryView,
    DELIVERY_ROLE_AGENT_LAUNCH, DELIVERY_ROLE_NODE_PROMPT, DELIVERY_ROLE_PARTICIPANT_MESSAGE,
};
use super::failure::{DriverFailure, FailureView};
use super::keys::{key_of, DeliveryKeyView};
use super::message::{
    ambiguous_message_response, ambiguous_report, message_arrival, message_payload,
    message_response, message_step, messages_among, receipt_report, MessageRequest,
    MessageRequestView, MessageStep, MessageStepView,
};
use super::records::{StoredPane, StoredPaneView};
use super::replay::{DriverStateView, ReplayedDriverEvents};
use super::wire::ActivationStatus;

verus! {

broadcast use vstd::string::group_string_axioms;

/// What came of a message.
#[derive(Debug)]
pub enum MessageOutcome {
    /// It arrived, and this is told.
    Receipt(Json),
    /// It may have arrived, and this is told.
    Ambiguous(Json),
    /// It was not begun.
    Failed(DriverFailure),
}

#[verifier::ext_equal]
pub enum MessageOutcomeView {
    Receipt(JsonView),
    Ambiguous(JsonView),
    Failed(FailureView),
}

impl DeepView for MessageOutcome {
    type V = MessageOutcomeView;

    open spec fn deep_view(&self) -> MessageOutcomeView {
        match self {
            MessageOutcome::Receipt(told) => MessageOutcomeView::Receipt(told@),
            MessageOutcome::Ambiguous(told) => MessageOutcomeView::Ambiguous(told@),
            MessageOutcome::Failed(failure) => MessageOutcomeView::Failed(failure.deep_view()),
        }
    }
}

impl Clone for MessageOutcome {
    fn clone(&self) -> (r: Self)
        ensures
            r.deep_view() == self.deep_view(),
    {
        match self {
            MessageOutcome::Receipt(told) => MessageOutcome::Receipt(told.clone()),
            MessageOutcome::Ambiguous(told) => MessageOutcome::Ambiguous(told.clone()),
            MessageOutcome::Failed(failure) => MessageOutcome::Failed(failure.clone()),
        }
    }
}

/// How far a message has come.
#[derive(Debug)]
enum MessageStage {
    /// That it is begun is to be written down.
    Start(StoredPane, AmbiguousDelivery),
    /// It is to be sent.
    Send(StoredPane, AmbiguousDelivery),
    /// It is to be recorded.
    Record(StoredPane, AmbiguousDelivery, MachineInputRecord),
    /// That it arrived is to be written down.
    Arrive(StoredPane, AmbiguousDelivery, MachineInputRecord),
    /// Nothing is left to do.
    Over(MessageOutcome),
}

#[verifier::ext_equal]
pub enum MessageStageView {
    Start(StoredPaneView, AmbiguousDeliveryView),
    Send(StoredPaneView, AmbiguousDeliveryView),
    Record(StoredPaneView, AmbiguousDeliveryView, MachineInputRecordView),
    Arrive(StoredPaneView, AmbiguousDeliveryView, MachineInputRecordView),
    Over(MessageOutcomeView),
}

impl DeepView for MessageStage {
    type V = MessageStageView;

    closed spec fn deep_view(&self) -> MessageStageView {
        match self {
            MessageStage::Start(pane, delivery) => MessageStageView::Start(
                pane.deep_view(),
                delivery.deep_view(),
            ),
            MessageStage::Send(pane, delivery) => MessageStageView::Send(
                pane.deep_view(),
                delivery.deep_view(),
            ),
            MessageStage::Record(pane, delivery, record) => MessageStageView::Record(
                pane.deep_view(),
                delivery.deep_view(),
                record.deep_view(),
            ),
            MessageStage::Arrive(pane, delivery, record) => MessageStageView::Arrive(
                pane.deep_view(),
                delivery.deep_view(),
                record.deep_view(),
            ),
            MessageStage::Over(outcome) => MessageStageView::Over(outcome.deep_view()),
        }
    }
}

/// What is to be done next.
#[derive(Debug)]
pub enum MessageAction {
    /// Write an event down; once it is, the message is taken down as begun with `begin`.
    WriteStart(PlannedEvent),
    /// Send a text to the pane of an activation, with what stands there cleared before.
    Send(TmuxActivationMetadata, String),
    /// Record the input that was sent, in its role.
    Record(&'static str, MachineInputRecord),
    /// Write an event down; once it is, the message is taken down as arrived with `arrive`.
    WriteArrival(PlannedEvent),
    /// Stop: this is what came of it.
    Finish(MessageOutcome),
}

#[verifier::ext_equal]
pub enum MessageActionView {
    WriteStart(PlannedEventView),
    Send(TmuxActivationMetadataView, Seq<char>),
    Record(Seq<char>, MachineInputRecordView),
    WriteArrival(PlannedEventView),
    Finish(MessageOutcomeView),
}

impl DeepView for MessageAction {
    type V = MessageActionView;

    open spec fn deep_view(&self) -> MessageActionView {
        match self {
            MessageAction::WriteStart(event) => MessageActionView::WriteStart(event.deep_view()),
            MessageAction::Send(metadata, text) => MessageActionView::Send(
                metadata.deep_view(),
                text@,
            ),
            MessageAction::Record(role, record) => MessageActionView::Record(
                role@,
                record.deep_view(),
            ),
            MessageAction::WriteArrival(event) => MessageActionView::WriteArrival(
                event.deep_view(),
            ),
            MessageAction::Finish(outcome) => MessageActionView::Finish(outcome.deep_view()),
        }
    }
}

/// What came of what was to be done.
#[derive(Debug)]
pub enum MessageEvent {
    /// What the ledger holds of the input that was sent.
    Sent(MachineInputRecord),
    /// tmux refused the input.
    Refused,
    Recorded,
    Failed(DriverFailure),
}

#[verifier::ext_equal]
pub enum MessageEventView {
    /// The message is begun, with the event of this number.
    Begun(u64),
    Sent(MachineInputRecordView),
    Refused,
    Recorded,
    /// The message is known to have arrived, as one of so many.
    Arrived(u64),
    Failed(FailureView),
}

impl DeepView for MessageEvent {
    type V = MessageEventView;

    open spec fn deep_view(&self) -> MessageEventView {
        match self {
            MessageEvent::Sent(record) => MessageEventView::Sent(record.deep_view()),
            MessageEvent::Refused => MessageEventView::Refused,
            MessageEvent::Recorded => MessageEventView::Recorded,
            MessageEvent::Failed(failure) => MessageEventView::Failed(failure.deep_view()),
        }
    }
}

/// A message on its way.
#[derive(Debug)]
pub struct MessageMachine {
    run_id: String,
    message: MessageRequest,
    stage: MessageStage,
}

#[verifier::ext_equal]
pub struct MessageView {
    pub run_id: Seq<char>,
    pub message: MessageRequestView,
    pub stage: MessageStageView,
}

impl DeepView for MessageMachine {
    type V = MessageView;

    closed spec fn deep_view(&self) -> MessageView {
        MessageView {
            run_id: self.run_id@,
            message: self.message.deep_view(),
            stage: self.stage.deep_view(),
        }
    }
}

/// The delivery that a message to a pane would begin, as the event with the given number.
pub open spec fn message_delivery(
    pane: StoredPaneView,
    message: MessageRequestView,
    sequence: u64,
) -> Result<AmbiguousDeliveryView, FailureView> {
    delivery_to_start(
        Some(pane),
        message.activation_id,
        pane.pane_id,
        DELIVERY_ROLE_PARTICIPANT_MESSAGE@,
        Some(message.message_id),
        message.text,
        sequence,
    )
}

/// The pane that a message is sent to.
pub open spec fn message_target(
    run_id: Seq<char>,
    message: MessageRequestView,
    pane: StoredPaneView,
) -> TmuxActivationMetadataView {
    TmuxActivationMetadataView {
        session_id: pane.session_id,
        run_id,
        window_name: pane.window_name,
        window_id: pane.window_id,
        activation_id: message.activation_id,
        pane_id: pane.pane_id,
        allocation_generation: pane.allocation_generation,
    }
}

/// The event with which a message arrives.
pub open spec fn message_event(
    message: MessageRequestView,
    pane: StoredPaneView,
    delivery: AmbiguousDeliveryView,
    transaction_id: Seq<char>,
) -> PlannedEventView {
    PlannedEventView {
        kind: "participant_message_submitted"@,
        payload: arrival_payload(
            message_payload(pane.pane_id, transaction_id),
            delivery,
            message.activation_id,
            Some(message.message_id),
        ),
    }
}

impl MessageView {
    pub open spec fn at(self, stage: MessageStageView) -> MessageView {
        MessageView { stage, ..self }
    }

    pub open spec fn over(self, outcome: MessageOutcomeView) -> MessageView {
        self.at(MessageStageView::Over(outcome))
    }

    /// It may have arrived.
    pub open spec fn ambiguous(self, delivery: AmbiguousDeliveryView) -> MessageView {
        self.over(MessageOutcomeView::Ambiguous(ambiguous_report(self.run_id, delivery.json())))
    }

    /// It arrived.
    pub open spec fn arrived(self, delivery: SubmittedDeliveryView, count: u64) -> MessageView {
        self.over(
            MessageOutcomeView::Receipt(
                receipt_report(
                    self.run_id,
                    self.message.activation_id,
                    self.message.message_id,
                    delivery.json(),
                    count,
                ),
            ),
        )
    }

    /// A message, before anything is done.
    pub open spec fn fresh(
        run_id: Seq<char>,
        message: MessageRequestView,
        status: Option<ActivationStatus>,
        state: DriverStateView,
        open: Seq<(DeliveryKeyView, AmbiguousDeliveryView)>,
        arrived: Seq<(DeliveryKeyView, SubmittedDeliveryView)>,
    ) -> MessageView {
        let bare = MessageView {
            run_id,
            message,
            stage: MessageStageView::Over(MessageOutcomeView::Receipt(JsonView::Null)),
        };
        match message_step(state, open, arrived, message, status) {
            Err(failure) => bare.over(MessageOutcomeView::Failed(failure)),
            Ok(MessageStepView::Open(delivery)) => bare.ambiguous(delivery),
            Ok(MessageStepView::Arrived(delivery)) => bare.arrived(
                delivery,
                messages_among(arrived) as u64,
            ),
            Ok(MessageStepView::Send(pane)) => match message_delivery(pane, message, 0) {
                Err(failure) => bare.over(MessageOutcomeView::Failed(failure)),
                Ok(delivery) => bare.at(MessageStageView::Start(pane, delivery)),
            },
        }
    }

    /// Where a message is after an event.
    pub open spec fn advanced(self, event: MessageEventView) -> MessageView {
        match (self.stage, event) {
            (
                MessageStageView::Start(pane, delivery),
                MessageEventView::Begun(sequence),
            ) => self.at(
                MessageStageView::Send(
                    pane,
                    AmbiguousDeliveryView { started_event_sequence: sequence, ..delivery },
                ),
            ),
            (MessageStageView::Start(_, _), MessageEventView::Failed(failure)) => self.over(
                MessageOutcomeView::Failed(failure),
            ),
            (
                MessageStageView::Send(pane, delivery),
                MessageEventView::Sent(record),
            ) => self.at(MessageStageView::Record(pane, delivery, record)),
            (
                MessageStageView::Send(_, delivery),
                MessageEventView::Refused,
            ) => self.ambiguous(delivery),
            (
                MessageStageView::Record(pane, delivery, record),
                MessageEventView::Recorded,
            ) => self.at(MessageStageView::Arrive(pane, delivery, record)),
            (
                MessageStageView::Record(_, delivery, _),
                MessageEventView::Failed(_),
            ) => self.ambiguous(delivery),
            (
                MessageStageView::Arrive(_, delivery, _),
                MessageEventView::Arrived(count),
            ) => self.arrived(delivery.arrived(), count),
            (
                MessageStageView::Arrive(_, delivery, _),
                MessageEventView::Failed(_),
            ) => self.ambiguous(delivery),
            (_, _) => self,
        }
    }

    /// Where a message is after several events.
    pub open spec fn after(self, events: Seq<MessageEventView>) -> MessageView
        decreases events.len(),
    {
        if events.len() == 0 {
            self
        } else {
            self.after(events.drop_last()).advanced(events.last())
        }
    }

    /// What is to be done next.
    pub open spec fn action(self) -> MessageActionView {
        match self.stage {
            MessageStageView::Start(_, delivery) => MessageActionView::WriteStart(
                PlannedEventView {
                    kind: "input_delivery_started"@,
                    payload: start_payload(delivery),
                },
            ),
            MessageStageView::Send(pane, _) => MessageActionView::Send(
                message_target(self.run_id, self.message, pane),
                self.message.text,
            ),
            MessageStageView::Record(_, _, record) => MessageActionView::Record(
                DELIVERY_ROLE_PARTICIPANT_MESSAGE@,
                record,
            ),
            MessageStageView::Arrive(pane, delivery, record) => MessageActionView::WriteArrival(
                message_event(self.message, pane, delivery, record.transaction_id),
            ),
            MessageStageView::Over(outcome) => MessageActionView::Finish(outcome),
        }
    }
}

fn target_of(run_id: &str, message: &MessageRequest, pane: &StoredPane) -> (r:
    TmuxActivationMetadata)
    ensures
        r.deep_view() == message_target(run_id@, message.deep_view(), pane.deep_view()),
{
    TmuxActivationMetadata::new(
        pane.session_id.clone(),
        run_id.to_string(),
        pane.window_name.clone(),
        pane.window_id.clone(),
        message.activation_id.clone(),
        pane.pane_id.clone(),
    ).with_allocation_generation(pane.allocation_generation)
}

fn arrival_of(
    message: &MessageRequest,
    pane: &StoredPane,
    delivery: &AmbiguousDelivery,
    transaction_id: &str,
) -> (r: PlannedEvent)
    ensures
        r.deep_view() == message_event(
            message.deep_view(),
            pane.deep_view(),
            delivery.deep_view(),
            transaction_id@,
        ),
{
    PlannedEvent {
        kind: "participant_message_submitted",
        payload: message_arrival(pane.pane_id.as_str(), transaction_id).with(
            "activation_id",
            Json::text(message.activation_id.as_str()),
        ).with("message_id", Json::text(message.message_id.as_str())).with(
            "started_event_sequence",
            Json::Unsigned(delivery.started_event_sequence),
        ).with("allocation_generation", Json::Unsigned(delivery.allocation_generation)),
    }
}

impl MessageMachine {
    /// Begins with a message to an activation, whose agent does as given.
    pub fn new(
        run_id: &str,
        message: MessageRequest,
        status: Option<ActivationStatus>,
        state: &ReplayedDriverEvents,
    ) -> (r: Self)
        ensures
            r.deep_view() == MessageView::fresh(
                run_id@,
                message.deep_view(),
                status,
                state.deep_view(),
                state.deliveries.ambiguous.pairs(),
                state.deliveries.submitted.pairs(),
            ),
    {
        let step = state.send_message(&message, status);
        let stage = match step {
            Err(failure) => MessageStage::Over(MessageOutcome::Failed(failure)),
            Ok(MessageStep::Open(delivery)) => MessageStage::Over(
                MessageOutcome::Ambiguous(ambiguous_message_response(run_id, delivery.to_json())),
            ),
            Ok(MessageStep::Arrived(delivery)) => {
                let count: usize = state.deliveries.participant_message_count();
                MessageStage::Over(
                    MessageOutcome::Receipt(
                        message_response(
                            run_id,
                            message.activation_id.as_str(),
                            message.message_id.as_str(),
                            delivery.to_json(),
                            count as u64,
                        ),
                    ),
                )
            },
            Ok(MessageStep::Send(pane)) => match start_input_delivery_with_message(
                Some(&pane),
                message.activation_id.as_str(),
                pane.pane_id.as_str(),
                DELIVERY_ROLE_PARTICIPANT_MESSAGE,
                Some(message.message_id.as_str()),
                message.text.as_str(),
                0,
            ) {
                Err(failure) => MessageStage::Over(MessageOutcome::Failed(failure)),
                Ok(delivery) => MessageStage::Start(pane, delivery),
            },
        };
        MessageMachine { run_id: run_id.to_string(), message, stage }
    }

    /// What is to be done next.
    pub fn action(&self) -> (r: MessageAction)
        ensures
            r.deep_view() == self.deep_view().action(),
    {
        match &self.stage {
            MessageStage::Start(_, delivery) => MessageAction::WriteStart(start_event(delivery)),
            MessageStage::Send(pane, _) => MessageAction::Send(
                target_of(self.run_id.as_str(), &self.message, pane),
                self.message.text.clone(),
            ),
            MessageStage::Record(_, _, record) => MessageAction::Record(
                DELIVERY_ROLE_PARTICIPANT_MESSAGE,
                record.clone(),
            ),
            MessageStage::Arrive(pane, delivery, record) => MessageAction::WriteArrival(
                arrival_of(&self.message, pane, delivery, record.transaction_id.as_str()),
            ),
            MessageStage::Over(outcome) => MessageAction::Finish(outcome.clone()),
        }
    }

    fn ambiguous_stage(run_id: &str, delivery: &AmbiguousDelivery) -> (r: MessageStage)
        ensures
            r.deep_view() == MessageStageView::Over(
                MessageOutcomeView::Ambiguous(
                    ambiguous_report(run_id@, delivery.deep_view().json()),
                ),
            ),
    {
        MessageStage::Over(
            MessageOutcome::Ambiguous(ambiguous_message_response(run_id, delivery.to_json())),
        )
    }

    /// Takes the message down as begun, once its event is written with the given number. Where
    /// it is not about to begin, nothing changes.
    pub fn begin(&mut self, sequence: u64, state: &mut ReplayedDriverEvents)
        ensures
            match old(self).deep_view().stage {
                MessageStageView::Start(_, delivery) => {
                    &&& final(state).deep_view() == (DriverStateView {
                        deliveries: old(state).deep_view().deliveries.begun(
                            AmbiguousDeliveryView { started_event_sequence: sequence, ..delivery },
                        ),
                        ..old(state).deep_view()
                    })
                    &&& final(self).deep_view() == old(self).deep_view().advanced(
                        MessageEventView::Begun(sequence),
                    )
                },
                _ => {
                    &&& *final(state) == *old(state)
                    &&& final(self).deep_view() == old(self).deep_view()
                },
            },
    {
        let stage = match &self.stage {
            MessageStage::Start(pane, delivery) => {
                let mut delivery = delivery.clone();
                delivery.started_event_sequence = sequence;
                state.deliveries.begin(delivery.clone());
                MessageStage::Send(pane.clone(), delivery)
            },
            _ => return,
        };
        self.stage = stage;
    }

    /// Takes the message down as arrived, once its event is written. Where it is not about to
    /// arrive, nothing changes.
    pub fn arrive(&mut self, state: &mut ReplayedDriverEvents)
        ensures
            match old(self).deep_view().stage {
                MessageStageView::Arrive(pane, _, _) => {
                    &&& final(state).deep_view() == (DriverStateView {
                        deliveries: old(state).deep_view().deliveries.finished(
                            old(self).deep_view().message.activation_id,
                            DELIVERY_ROLE_PARTICIPANT_MESSAGE@,
                            Some(old(self).deep_view().message.message_id),
                            pane.allocation_generation,
                        ),
                        ..old(state).deep_view()
                    })
                    &&& final(self).deep_view() == old(self).deep_view().advanced(
                        MessageEventView::Arrived(
                            messages_among(final(state).deliveries.submitted.pairs()) as u64,
                        ),
                    )
                },
                _ => {
                    &&& *final(state) == *old(state)
                    &&& final(self).deep_view() == old(self).deep_view()
                },
            },
    {
        let stage = match &self.stage {
            MessageStage::Arrive(pane, delivery, _) => {
                state.deliveries.finish_input_delivery(
                    self.message.activation_id.as_str(),
                    DELIVERY_ROLE_PARTICIPANT_MESSAGE,
                    Some(self.message.message_id.as_str()),
                    pane.allocation_generation,
                );
                let count: usize = state.deliveries.participant_message_count();
                MessageStage::Over(
                    MessageOutcome::Receipt(
                        message_response(
                            self.run_id.as_str(),
                            self.message.activation_id.as_str(),
                            self.message.message_id.as_str(),
                            delivery.to_submitted().to_json(),
                            count as u64,
                        ),
                    ),
                )
            },
            _ => return,
        };
        self.stage = stage;
    }

    /// Goes on with what came of what was to be done. What does not answer it is passed over.
    pub fn advance(self, event: MessageEvent) -> (r: Self)
        ensures
            r.deep_view() == self.deep_view().advanced(event.deep_view()),
    {
        let stage = match (self.stage, event) {
            (MessageStage::Start(_, _), MessageEvent::Failed(failure)) => MessageStage::Over(
                MessageOutcome::Failed(failure),
            ),
            (MessageStage::Send(pane, delivery), MessageEvent::Sent(record)) =>
                MessageStage::Record(pane, delivery, record),
            (MessageStage::Send(_, delivery), MessageEvent::Refused) =>
                MessageMachine::ambiguous_stage(self.run_id.as_str(), &delivery),
            (MessageStage::Record(pane, delivery, record), MessageEvent::Recorded) =>
                MessageStage::Arrive(pane, delivery, record),
            (MessageStage::Record(_, delivery, _), MessageEvent::Failed(_)) =>
                MessageMachine::ambiguous_stage(self.run_id.as_str(), &delivery),
            (MessageStage::Arrive(_, delivery, _), MessageEvent::Failed(_)) =>
                MessageMachine::ambiguous_stage(self.run_id.as_str(), &delivery),
            (stage, _) => stage,
        };
        MessageMachine { run_id: self.run_id, message: self.message, stage }
    }
}

impl MessageView {
    /// Whether the message was begun during events.
    pub open spec fn did_begin(self, events: Seq<MessageEventView>) -> bool {
        exists|i: int|
            0 <= i < events.len() && (#[trigger] self.after(events.take(i))).action() is WriteStart
                && events[i] is Begun
    }

    /// Whether the message was sent during events, once it was begun.
    pub open spec fn did_send(self, events: Seq<MessageEventView>) -> bool {
        exists|i: int|
            0 <= i < events.len() && (#[trigger] self.after(events.take(i))).action() is Send
                && events[i] is Sent && self.did_begin(events.take(i))
    }

    /// Whether the message was recorded during events, once it was sent.
    pub open spec fn did_record(self, events: Seq<MessageEventView>) -> bool {
        exists|i: int|
            0 <= i < events.len() && (#[trigger] self.after(events.take(i))).action() is Record
                && events[i] is Recorded && self.did_send(events.take(i))
    }

    /// Whether the message was known to have arrived during events, once it was recorded.
    pub open spec fn did_arrive(self, events: Seq<MessageEventView>) -> bool {
        exists|i: int|
            0 <= i < events.len() && (#[trigger] self.after(
                events.take(i),
            )).action() is WriteArrival && events[i] is Arrived && self.did_record(events.take(i))
    }
}

proof fn lemma_course_stays(start: MessageView, events: Seq<MessageEventView>)
    requires
        events.len() > 0,
    ensures
        start.did_begin(events.drop_last()) ==> start.did_begin(events),
        start.did_send(events.drop_last()) ==> start.did_send(events),
        start.did_record(events.drop_last()) ==> start.did_record(events),
        start.did_arrive(events.drop_last()) ==> start.did_arrive(events),
{
    let front = events.drop_last();
    assert forall|i: int| 0 <= i < front.len() implies #[trigger] front.take(i) == events.take(
        i,
    ) by {
        assert(front.take(i) =~= events.take(i));
    }
    if start.did_begin(front) {
        let i = choose|i: int|
            0 <= i < front.len() && (#[trigger] start.after(front.take(i))).action() is WriteStart
                && front[i] is Begun;
        assert(start.after(events.take(i)).action() is WriteStart);
    }
    if start.did_send(front) {
        let i = choose|i: int|
            0 <= i < front.len() && (#[trigger] start.after(front.take(i))).action() is Send
                && front[i] is Sent && start.did_begin(front.take(i));
        assert(start.after(events.take(i)).action() is Send);
    }
    if start.did_record(front) {
        let i = choose|i: int|
            0 <= i < front.len() && (#[trigger] start.after(front.take(i))).action() is Record
                && front[i] is Recorded && start.did_send(front.take(i));
        assert(start.after(events.take(i)).action() is Record);
    }
    if start.did_arrive(front) {
        let i = choose|i: int|
            0 <= i < front.len() && (#[trigger] start.after(
                front.take(i),
            )).action() is WriteArrival && front[i] is Arrived && start.did_record(front.take(i));
        assert(start.after(events.take(i)).action() is WriteArrival);
    }
}

proof fn lemma_course(start: MessageView, events: Seq<MessageEventView>)
    requires
        start.stage is Start,
    ensures
        match start.after(events).stage {
            MessageStageView::Start(_, _) => true,
            MessageStageView::Send(_, _) => start.did_begin(events),
            MessageStageView::Record(_, _, _) => start.did_send(events),
            MessageStageView::Arrive(_, _, _) => start.did_record(events),
            MessageStageView::Over(outcome) => outcome is Receipt ==> start.did_arrive(events),
        },
    decreases events.len(),
{
    if events.len() > 0 {
        let front = events.drop_last();
        lemma_course(start, front);
        lemma_course_stays(start, events);
        let n = events.len() - 1;
        assert(events.take(n) =~= front);
        let before = start.after(events.take(n));
        assert(start.after(events) == before.advanced(events[n]));
    }
}

/// Nothing of a message is typed before the event that begins it is kept.
pub proof fn lemma_messages_are_kept_before_they_are_typed(
    start: MessageView,
    events: Seq<MessageEventView>,
)
    requires
        start.stage is Start,
        start.after(events).action() is Send,
    ensures
        start.did_begin(events),
{
    lemma_course(start, events);
}

/// The receipt of a message is told only once it was begun, sent, recorded and known to have
/// arrived, in this order.
pub proof fn lemma_receipts_are_told_last(start: MessageView, events: Seq<MessageEventView>)
    requires
        start.stage is Start,
        start.after(events).action() matches MessageActionView::Finish(
            MessageOutcomeView::Receipt(_),
        ),
    ensures
        start.did_arrive(events),
{
    lemma_course(start, events);
}

/// Once a message is begun, every failure is answered with that it may have arrived.
pub proof fn lemma_begun_messages_may_have_arrived(machine: MessageView, failure: FailureView)
    ensures
        machine.stage matches MessageStageView::Send(_, delivery) ==> machine.advanced(
            MessageEventView::Refused,
        ).action() == MessageActionView::Finish(
            MessageOutcomeView::Ambiguous(ambiguous_report(machine.run_id, delivery.json())),
        ),
        machine.stage matches MessageStageView::Record(_, delivery, _) ==> machine.advanced(
            MessageEventView::Failed(failure),
        ).action() == MessageActionView::Finish(
            MessageOutcomeView::Ambiguous(ambiguous_report(machine.run_id, delivery.json())),
        ),
        machine.stage matches MessageStageView::Arrive(_, delivery, _) ==> machine.advanced(
            MessageEventView::Failed(failure),
        ).action() == MessageActionView::Finish(
            MessageOutcomeView::Ambiguous(ambiguous_report(machine.run_id, delivery.json())),
        ),
{
}

/// A message that was begun can arrive: the event that tells so is the one of its delivery, and
/// what is told of the receipt is what is then known of the delivery.
pub proof fn lemma_begun_messages_can_arrive(
    deliveries: DeliveriesView,
    message: MessageRequestView,
    pane: StoredPaneView,
    sequence: u64,
    transaction_id: Seq<char>,
)
    ensures
        message_delivery(pane, message, sequence) matches Ok(delivery) && {
            let role = DELIVERY_ROLE_PARTICIPANT_MESSAGE@;
            let id = Some(message.message_id);
            let generation = pane.allocation_generation;
            let begun = deliveries.begun(delivery);
            let ended = begun.finished(message.activation_id, role, id, generation);
            let key = key_of(message.activation_id, role, id, generation);
            &&& arrival_event(
                begun,
                message.activation_id,
                role,
                id,
                generation,
                message_payload(pane.pane_id, transaction_id),
            ) == Ok::<PlannedEventView, FailureView>(
                message_event(message, pane, delivery, transaction_id),
            )
            &&& !ended.ambiguous.dom().contains(key)
            &&& ended.submitted.dom().contains(key)
            &&& ended.submitted[key] == delivery.arrived()
        },
{
    reveal_strlit("agent_launch");
    reveal_strlit("node_prompt");
    reveal_strlit("participant_message");
    assert(DELIVERY_ROLE_PARTICIPANT_MESSAGE@.len() != DELIVERY_ROLE_AGENT_LAUNCH@.len());
    assert(DELIVERY_ROLE_PARTICIPANT_MESSAGE@.len() != DELIVERY_ROLE_NODE_PROMPT@.len());
}

} // verus!
