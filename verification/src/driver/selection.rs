//! Which activations, panes and deliveries are meant, in terms of what is known of each.
use vstd::prelude::*;

use crate::input_ledger::payload_hash;
use crate::json::{field, text_field, JsonView};
use crate::text::{is_blank, trimmed};

use super::delivery::{
    begun_at, delivery_meant, delivery_to_start, resolution_in, resolved, AmbiguousDeliveryView,
    DeliveriesView, ResolutionView, SubmittedDeliveryView, DELIVERY_ROLE_AGENT_LAUNCH,
    DELIVERY_ROLE_NODE_PROMPT,
};
use super::failure::FailureView;
use super::keys::{AllocationKeyView, DeliveryKeyView};
use super::lifecycle::{
    ended_of, ending_told, faults_of, lacking_panes, pauses_on_exit, pauses_on_restart,
    place_for_lacking, running_in, waiting_in, ActivationView,
};
use super::message::{
    arrived_message, message_in, message_step, messages_among, open_message, MessageRequestView,
    MessageStepView,
};
use super::operation::{activations_of, control_step, Control, ControlStepView};
use super::records::StoredPaneView;
use super::replay::{DriverStateView, DriverTmuxStateView};
use super::wire::{either_field, ActivationStatus, RunStatus};

verus! {

broadcast use vstd::string::group_string_axioms;

/// The running activations of a run are those of its activations that run, all of them, in order.
pub proof fn lemma_running_activations_run(activations: Seq<ActivationView>, run_id: Seq<char>)
    ensures
        running_in(activations, run_id) == activations.filter_map(
            |a: ActivationView|
                if a.run_id == run_id && a.status == ActivationStatus::Running {
                    Some(a.activation_id)
                } else {
                    None
                },
        ),
    decreases activations.len(),
{
    if activations.len() > 0 {
        lemma_running_activations_run(activations.drop_last(), run_id);
        let front = running_in(activations.drop_last(), run_id);
        let id = activations.last().activation_id;
        assert(front.push(id) =~= front + seq![id]);
    }
}

/// The activations of a run are those that say so, all of them, in order.
pub proof fn lemma_activations_of_runs(activations: Seq<ActivationView>, run_id: Seq<char>)
    ensures
        activations_of(activations, run_id) == activations.filter_map(
            |a: ActivationView|
                if a.run_id == run_id {
                    Some(a.activation_id)
                } else {
                    None
                },
        ),
    decreases activations.len(),
{
    if activations.len() > 0 {
        lemma_activations_of_runs(activations.drop_last(), run_id);
        let front = activations_of(activations.drop_last(), run_id);
        let id = activations.last().activation_id;
        assert(front.push(id) =~= front + seq![id]);
    }
}

/// The activations that lack a pane are those without one, all of them, in order; without a window
/// every one lacks a pane.
pub proof fn lemma_activations_lack_panes(
    tmux: Option<DriverTmuxStateView>,
    activation_ids: Seq<Seq<char>>,
)
    ensures
        lacking_panes(tmux, activation_ids) == activation_ids.filter(
            |id: Seq<char>| tmux is None || !tmux->0.panes.dom().contains(id),
        ),
    decreases activation_ids.len(),
{
    reveal(Seq::filter);
    if activation_ids.len() > 0 {
        lemma_activations_lack_panes(tmux, activation_ids.drop_last());
    }
}

/// The activations that wait for their prompt are those of the run that run, have a pane and were not
/// settled for the allocation of that pane, all of them, in order.
pub proof fn lemma_waiting_activations_wait(
    activations: Seq<ActivationView>,
    run_id: Seq<char>,
    tmux: DriverTmuxStateView,
    settled: Set<AllocationKeyView>,
)
    ensures
        waiting_in(activations, run_id, tmux, settled) == activations.filter_map(
            |a: ActivationView|
                if a.run_id == run_id && a.status == ActivationStatus::Running
                    && tmux.panes.dom().contains(a.activation_id) && !settled.contains(
                    AllocationKeyView {
                        activation_id: a.activation_id,
                        generation: tmux.panes[a.activation_id].allocation_generation,
                    },
                ) {
                    Some(a.activation_id)
                } else {
                    None
                },
        ),
    decreases activations.len(),
{
    if activations.len() > 0 {
        lemma_waiting_activations_wait(activations.drop_last(), run_id, tmux, settled);
        let front = waiting_in(activations.drop_last(), run_id, tmux, settled);
        let id = activations.last().activation_id;
        assert(front.push(id) =~= front + seq![id]);
    }
}

proof fn lemma_all_ended(results: Seq<(Seq<char>, Result<JsonView, FailureView>)>)
    ensures
        faults_of(results).len() == 0 <==> (forall|i: int|
            0 <= i < results.len() ==> (#[trigger] results[i]).1 is Ok),
        (forall|i: int| 0 <= i < results.len() ==> (#[trigger] results[i]).1 is Ok) ==> ended_of(
            results,
        ) == Seq::new(results.len(), |i: int| results[i].1->Ok_0),
    decreases results.len(),
{
    if results.len() > 0 {
        let front = results.drop_last();
        lemma_all_ended(front);
        assert(results.last() == results[results.len() - 1]);
        assert(forall|i: int| 0 <= i < front.len() ==> #[trigger] front[i] == results[i]);
        if forall|i: int| 0 <= i < results.len() ==> (#[trigger] results[i]).1 is Ok {
            assert forall|i: int| 0 <= i < front.len() implies (#[trigger] front[i]).1 is Ok by {
                assert(results[i].1 is Ok);
            }
            assert(ended_of(results) =~= Seq::new(
                results.len(),
                |i: int| results[i].1->Ok_0,
            ));
        }
        if faults_of(results).len() == 0 {
            assert forall|i: int| 0 <= i < results.len() implies (#[trigger] results[i]).1 is Ok by {
                if i < front.len() {
                    assert(front[i].1 is Ok);
                }
            }
        }
    } else {
        assert(ended_of(results) =~= Seq::new(results.len(), |i: int| results[i].1->Ok_0));
    }
}

/// The end of panes is told as done exactly if each of them was ended; then what came of each is
/// told, in order.
pub proof fn lemma_endings_are_told_in_full(
    reason: Seq<char>,
    results: Seq<(Seq<char>, Result<JsonView, FailureView>)>,
)
    ensures
        ending_told(reason, results) is Ok <==> (forall|i: int|
            0 <= i < results.len() ==> (#[trigger] results[i]).1 is Ok),
        ending_told(reason, results) matches Ok(told) ==> {
            &&& text_field(told, "reason"@) == Some(reason)
            &&& field(told, "finalized"@) == Some(
                JsonView::List(Seq::new(results.len(), |i: int| results[i].1->Ok_0)),
            )
        },
{
    lemma_all_ended(results);
    reveal_strlit("reason");
    reveal_strlit("finalized");
    assert("reason"@.len() == 6);
    assert("finalized"@.len() == 9);
    if ending_told(reason, results) is Ok {
        let fields = ending_told(reason, results)->Ok_0->Record_0;
        assert(crate::json::distinct_keys(fields));
        crate::json::lemma_field_at(fields, 0);
        crate::json::lemma_field_at(fields, 1);
    }
}

/// A run is paused when its driver ends unless it rests or has come to an end, and one that ran when
/// its driver stopped is paused when it starts again.
pub proof fn lemma_runs_are_paused_without_their_driver(status: RunStatus)
    ensures
        pauses_on_exit(true, status, true) <==> status != RunStatus::Paused && status
            != RunStatus::Completed && status != RunStatus::Stopped,
        pauses_on_restart(true, status, true) <==> status == RunStatus::Running,
        !pauses_on_exit(false, status, true) && !pauses_on_restart(false, status, true),
        !pauses_on_exit(true, status, false) && !pauses_on_restart(true, status, false),
{
}

/// More panes are made in the window of the run, with the command that its agents are started with.
pub proof fn lemma_more_panes_go_to_the_window(state: DriverStateView, running: Seq<Seq<char>>)
    requires
        state.tmux is Some,
    ensures
        place_for_lacking(state, running) is Some,
        ({
            let place = place_for_lacking(state, running)->0;
            &&& place.session == state.tmux->0.session_id
            &&& place.window == state.tmux->0.window_name
            &&& place.existing_window_id == Some(state.tmux->0.window_id)
            &&& place.agent_command == state.tmux->0.agent_command
            &&& place.actuation == state.tmux->0.actuation
        }),
{
}

/// Input is begun only in the pane that the activation has, for its allocation, with the digest of
/// what is sent and the number of the event that begins it.
pub proof fn lemma_input_is_begun_in_its_pane(
    pane: Option<StoredPaneView>,
    activation_id: Seq<char>,
    pane_id: Seq<char>,
    role: Seq<char>,
    message_id: Option<Seq<char>>,
    text: Seq<char>,
    sequence: u64,
)
    ensures
        ({
            let begun = delivery_to_start(
                pane,
                activation_id,
                pane_id,
                role,
                message_id,
                text,
                sequence,
            );
            &&& begun is Ok <==> pane is Some && pane->0.pane_id == pane_id
            &&& begun matches Ok(delivery) ==> {
                &&& delivery.activation_id == activation_id
                &&& delivery.pane_id == pane_id
                &&& delivery.allocation_generation == pane->0.allocation_generation
                &&& delivery.role == role
                &&& delivery.message_id == message_id
                &&& delivery.payload_hash == payload_hash(text)
                &&& delivery.started_event_sequence == sequence
            }
        }),
{
}

/// What is begun is in doubt, under its key, and counts as arrived no longer; nothing else changes.
pub proof fn lemma_begun_input_is_in_doubt(
    deliveries: DeliveriesView,
    delivery: AmbiguousDeliveryView,
    other: DeliveryKeyView,
)
    requires
        other != delivery.key(),
    ensures
        ({
            let after = deliveries.begun(delivery);
            &&& after.ambiguous.dom().contains(delivery.key())
            &&& after.ambiguous[delivery.key()] == delivery
            &&& !after.submitted.dom().contains(delivery.key())
            &&& after.ambiguous.dom().contains(other) == deliveries.ambiguous.dom().contains(other)
            &&& after.submitted.dom().contains(other) == deliveries.submitted.dom().contains(other)
            &&& after.launched == deliveries.launched
            &&& after.settled == deliveries.settled
        }),
{
}

/// Input that arrived is in doubt no longer. A launch that arrived makes its allocation launched, a
/// prompt that arrived makes it launched and settled, and a message does neither.
pub proof fn lemma_arrived_input_counts(
    deliveries: DeliveriesView,
    delivery: AmbiguousDeliveryView,
)
    requires
        deliveries.ambiguous.dom().contains(delivery.key()),
        deliveries.ambiguous[delivery.key()] == delivery,
    ensures
        ({
            let after = deliveries.finished(
                delivery.activation_id,
                delivery.role,
                delivery.message_id,
                delivery.allocation_generation,
            );
            let key = AllocationKeyView {
                activation_id: delivery.activation_id,
                generation: delivery.allocation_generation,
            };
            let launch = delivery.role == DELIVERY_ROLE_AGENT_LAUNCH@;
            let prompt = delivery.role == DELIVERY_ROLE_NODE_PROMPT@;
            &&& !after.ambiguous.dom().contains(delivery.key())
            &&& after.submitted.dom().contains(delivery.key())
            &&& after.submitted[delivery.key()].payload_hash == delivery.payload_hash
            &&& after.submitted[delivery.key()].pane_id == delivery.pane_id
            &&& after.submitted[delivery.key()].started_event_sequence
                == delivery.started_event_sequence
            &&& after.launched.contains(key) <==> deliveries.launched.contains(key) || launch
                || prompt
            &&& after.settled.contains(key) <==> deliveries.settled.contains(key) || prompt
        }),
{
    reveal_strlit("agent_launch");
    reveal_strlit("node_prompt");
    assert("agent_launch"@.len() == 12);
    assert("node_prompt"@.len() == 11);
}

/// A word on input ends the doubt: as it says, the input arrived or did not.
pub proof fn lemma_words_on_input_end_doubt(
    deliveries: DeliveriesView,
    delivery: AmbiguousDeliveryView,
    resolution: ResolutionView,
)
    requires
        deliveries.ambiguous.dom().contains(delivery.key()),
        deliveries.ambiguous[delivery.key()] == delivery,
    ensures
        !resolved(deliveries, delivery, resolution).ambiguous.dom().contains(delivery.key()),
        resolved(deliveries, delivery, resolution).submitted.dom().contains(delivery.key())
            <==> resolution.submitted,
{
}

proof fn lemma_begun_at(pairs: Seq<(DeliveryKeyView, AmbiguousDeliveryView)>, sequence: u64)
    ensures
        begun_at(pairs, sequence) == pairs.filter_map(
            |pair: (DeliveryKeyView, AmbiguousDeliveryView)|
                if pair.1.started_event_sequence == sequence {
                    Some(pair.1)
                } else {
                    None
                },
        ),
    decreases pairs.len(),
{
    if pairs.len() > 0 {
        lemma_begun_at(pairs.drop_last(), sequence);
        let front = begun_at(pairs.drop_last(), sequence);
        let last = pairs.last().1;
        assert(front.push(last) =~= front + seq![last]);
    }
}

/// A word on input is about the delivery that was begun with the event that it names, and is refused
/// where there is none or more than one.
pub proof fn lemma_words_on_input_name_one_delivery(
    pairs: Seq<(DeliveryKeyView, AmbiguousDeliveryView)>,
    sequence: u64,
)
    ensures
        ({
            let named = pairs.filter_map(
                |pair: (DeliveryKeyView, AmbiguousDeliveryView)|
                    if pair.1.started_event_sequence == sequence {
                        Some(pair.1)
                    } else {
                        None
                    },
            );
            &&& delivery_meant(pairs, sequence) is Ok <==> named.len() == 1
            &&& delivery_meant(pairs, sequence) matches Ok(delivery) ==> delivery == named[0]
        }),
{
    lemma_begun_at(pairs, sequence);
}

/// A word on input is taken exactly if it names an event, says whether the input arrived, and gives
/// evidence for it.
pub proof fn lemma_words_on_input_are_read(request: JsonView, word: ResolutionView)
    ensures
        resolution_in(request) == Ok::<Option<ResolutionView>, FailureView>(None) <==> either_field(
            request,
            "delivery_resolution"@,
            "deliveryResolution"@,
        ) is None,
        resolution_in(request) == Ok::<Option<ResolutionView>, FailureView>(Some(word)) <==> {
            let value = either_field(request, "delivery_resolution"@, "deliveryResolution"@);
            &&& value is Some
            &&& value->0 is Record
            &&& either_field(value->0, "started_event_sequence"@, "startedEventSequence"@) == Some(
                JsonView::Unsigned(word.started_event_sequence),
            )
            &&& word.started_event_sequence > 0
            &&& text_field(value->0, "outcome"@) == Some(
                if word.submitted {
                    "submitted"@
                } else {
                    "not_submitted"@
                },
            )
            &&& text_field(value->0, "evidence"@) is Some
            &&& word.evidence == trimmed(text_field(value->0, "evidence"@)->0)
            &&& word.evidence.len() > 0
        },
{
    reveal_strlit("submitted");
    reveal_strlit("not_submitted");
    assert("submitted"@.len() == 9);
    assert("not_submitted"@.len() == 13);
}

proof fn lemma_open_message(
    pairs: Seq<(DeliveryKeyView, AmbiguousDeliveryView)>,
    message_id: Seq<char>,
    n: int,
)
    requires
        0 <= n,
    ensures
        open_message(pairs, message_id, n) is None <==> (forall|i: int|
            n <= i < pairs.len() ==> (#[trigger] pairs[i]).1.message_id != Some(message_id)),
        open_message(pairs, message_id, n) matches Some(delivery) ==> delivery.message_id == Some(
            message_id,
        ),
    decreases pairs.len() - n,
{
    if n < pairs.len() && pairs[n].1.message_id != Some(message_id) {
        lemma_open_message(pairs, message_id, n + 1);
    }
}

proof fn lemma_arrived_message(
    pairs: Seq<(DeliveryKeyView, SubmittedDeliveryView)>,
    message_id: Seq<char>,
    n: int,
)
    requires
        0 <= n,
    ensures
        arrived_message(pairs, message_id, n) is None <==> (forall|i: int|
            n <= i < pairs.len() ==> (#[trigger] pairs[i]).1.message_id != Some(message_id)),
        arrived_message(pairs, message_id, n) matches Some(delivery) ==> delivery.message_id
            == Some(message_id),
    decreases pairs.len() - n,
{
    if n < pairs.len() && pairs[n].1.message_id != Some(message_id) {
        lemma_arrived_message(pairs, message_id, n + 1);
    }
}

/// A message is sent exactly if no message with its id was begun or arrived, its activation runs, and
/// that activation has a pane; it is sent to that pane.
pub proof fn lemma_messages_go_to_running_activations(
    state: DriverStateView,
    open: Seq<(DeliveryKeyView, AmbiguousDeliveryView)>,
    arrived: Seq<(DeliveryKeyView, SubmittedDeliveryView)>,
    message: MessageRequestView,
    status: Option<ActivationStatus>,
    pane: StoredPaneView,
)
    ensures
        message_step(state, open, arrived, message, status) == Ok::<
            MessageStepView,
            FailureView,
        >(MessageStepView::Send(pane)) <==> {
            &&& forall|i: int|
                0 <= i < open.len() ==> (#[trigger] open[i]).1.message_id != Some(
                    message.message_id,
                )
            &&& forall|i: int|
                0 <= i < arrived.len() ==> (#[trigger] arrived[i]).1.message_id != Some(
                    message.message_id,
                )
            &&& status == Some(ActivationStatus::Running)
            &&& state.tmux is Some
            &&& state.tmux->0.panes.dom().contains(message.activation_id)
            &&& state.tmux->0.panes[message.activation_id] == pane
        },
{
    lemma_open_message(open, message.message_id, 0);
    lemma_arrived_message(arrived, message.message_id, 0);
}

/// The id of a message stands for one message: it is answered from what is known of it only where the
/// activation and the text are the same.
pub proof fn lemma_message_ids_stand_for_one_message(
    state: DriverStateView,
    open: Seq<(DeliveryKeyView, AmbiguousDeliveryView)>,
    arrived: Seq<(DeliveryKeyView, SubmittedDeliveryView)>,
    message: MessageRequestView,
    status: Option<ActivationStatus>,
)
    ensures
        message_step(state, open, arrived, message, status) matches Ok(MessageStepView::Open(
            delivery,
        )) ==> delivery.message_id == Some(message.message_id) && delivery.activation_id
            == message.activation_id && delivery.payload_hash == payload_hash(message.text),
        message_step(state, open, arrived, message, status) matches Ok(MessageStepView::Arrived(
            delivery,
        )) ==> delivery.message_id == Some(message.message_id) && delivery.activation_id
            == message.activation_id && delivery.payload_hash == payload_hash(message.text),
{
    lemma_open_message(open, message.message_id, 0);
    lemma_arrived_message(arrived, message.message_id, 0);
}

/// A message is read as it was written, and no part of it may be missing or blank.
pub proof fn lemma_messages_are_read(request: JsonView, message: MessageRequestView)
    ensures
        message_in(request) == Ok::<MessageRequestView, FailureView>(message) <==> {
            &&& text_field(request, "activation_id"@) == Some(message.activation_id)
            &&& text_field(request, "message_id"@) == Some(message.message_id)
            &&& text_field(request, "text"@) == Some(message.text)
            &&& !is_blank(message.activation_id)
            &&& !is_blank(message.message_id)
            &&& !is_blank(message.text)
        },
{
}

/// As many messages are counted as deliveries of messages arrived.
pub proof fn lemma_messages_are_counted(pairs: Seq<(DeliveryKeyView, SubmittedDeliveryView)>)
    ensures
        messages_among(pairs) == pairs.filter(
            |pair: (DeliveryKeyView, SubmittedDeliveryView)| pair.1.message_id is Some,
        ).len(),
    decreases pairs.len(),
{
    reveal(Seq::filter);
    if pairs.len() > 0 {
        lemma_messages_are_counted(pairs.drop_last());
    }
}

/// A run is resumed at once only if it rests, no word on input is given and nothing is in doubt; every
/// other word of control is carried out at once.
pub proof fn lemma_runs_are_controlled_on_their_terms(
    control: Control,
    request: JsonView,
    status: RunStatus,
    open: Seq<(DeliveryKeyView, AmbiguousDeliveryView)>,
)
    ensures
        control != Control::Resume ==> control_step(control, request, status, open) == Ok::<
            ControlStepView,
            FailureView,
        >(ControlStepView::Apply),
        control == Control::Resume ==> (control_step(control, request, status, open) == Ok::<
            ControlStepView,
            FailureView,
        >(ControlStepView::Apply) <==> {
            &&& either_field(request, "delivery_resolution"@, "deliveryResolution"@) is None
            &&& status == RunStatus::Paused || status == RunStatus::Quiescent
            &&& open.len() == 0
        }),
        control == Control::Resume ==> (control_step(control, request, status, open) == Ok::<
            ControlStepView,
            FailureView,
        >(ControlStepView::Pending) <==> {
            &&& either_field(request, "delivery_resolution"@, "deliveryResolution"@) is None
            &&& status == RunStatus::Paused || status == RunStatus::Quiescent
            &&& open.len() > 0
        }),
{
    lemma_words_on_input_are_read(
        request,
        ResolutionView {
            started_event_sequence: 0,
            submitted: false,
            evidence: Seq::empty(),
        },
    );
}

} // verus!
