//! What is carried out for a request, in terms of the request and of the flow.
use vstd::prelude::*;

use crate::flow::lock::FlowLockView;
use crate::flow::model::{FlowDraftView, FlowNodeView, NodeDriver};
use crate::input_ledger::{normalized, payload_hash, MachineInputRecordView, MachineInputStatus};
use crate::json::{
    field, flag_field, json_parse, lemma_field_set, text_field, unsigned_of, JsonView,
};
use crate::text::trimmed;

use super::actuation::{
    gate_of, last_submission, ActuationActionView, ActuationStage, ActuationView,
    DriverActuationView,
};
use super::client::{client_fault, is_just, request_value, ClientView, MetadataView, TOKEN_FILE};
use super::delivery::{DELIVERY_ROLE_AGENT_LAUNCH, DELIVERY_ROLE_NODE_PROMPT};
use super::failure::{alike, FailureView};
use super::keys::AllocationKeyView;
use super::lifecycle::ActivationView;
use super::operation::{binding_stands, Control, RunBindingView};
use super::ownership::{
    allocation_to_make, asked_key_count, asked_timeout, asked_tmux, binding_changes,
    DriverTmuxConfigView,
};
use super::prompt::{first_prompt, node_with_id};
use super::protocol::DriverWire;
use super::publication::{reconciled, ReconcileFault};
use super::replay::{DriverStateView, DriverTmuxStateView};
use super::request::{asked_artifact, asked_lock_mode, heard};
use super::revision::{review_fault, FlowReviewView, ReviewStatus};
use super::storage::{read_lines, stale_socket_step, Contact, StaleSocket};
use super::tasks::task_of;
use super::tools::{tool_step, ToolStepView};
use super::wire::{either_field, payload_text, ActivationStatus, FlowLockMode, RunMode};

verus! {

broadcast use vstd::string::group_string_axioms;

/// A tool is asked for what the request names: the activation, what it delivers, effects or asks, and
/// the payload as it is written there.
pub proof fn lemma_tools_carry_out_what_is_asked(
    request: JsonView,
    activation: Seq<char>,
    key: Seq<char>,
    payload: Seq<char>,
)
    ensures
        tool_step(DriverWire::DeliverArtifact, request) == Ok::<ToolStepView, FailureView>(
            ToolStepView::DeliverArtifact(activation, key, payload),
        ) <==> text_field(request, "activation_id"@) == Some(activation) && asked_artifact(request)
            == Ok::<Seq<char>, FailureView>(key) && payload == payload_text(
            field(request, "payload"@),
        ),
        tool_step(DriverWire::RecordEffect, request) == Ok::<ToolStepView, FailureView>(
            ToolStepView::RecordEffect(activation, key, payload),
        ) <==> text_field(request, "activation_id"@) == Some(activation) && text_field(
            request,
            "effect_key"@,
        ) == Some(key) && payload == payload_text(field(request, "payload"@)),
        tool_step(DriverWire::ValidateStop, request) == Ok::<ToolStepView, FailureView>(
            ToolStepView::ValidateStop(activation),
        ) <==> text_field(request, "activation_id"@) == Some(activation),
        tool_step(DriverWire::Activate, request) == Ok::<ToolStepView, FailureView>(
            ToolStepView::Activate(activation),
        ) <==> text_field(request, "node_id"@) == Some(activation),
        tool_step(DriverWire::Fanout, request) == Ok::<ToolStepView, FailureView>(
            ToolStepView::Fanout(activation, key),
        ) <==> text_field(request, "node_id"@) == Some(activation) && asked_artifact(request)
            == Ok::<Seq<char>, FailureView>(key),
{
}

/// Words of control are carried out as they are called.
pub proof fn lemma_control_is_carried_out(request: JsonView)
    ensures
        tool_step(DriverWire::Pause, request) == Ok::<ToolStepView, FailureView>(
            ToolStepView::Control(Control::Pause),
        ),
        tool_step(DriverWire::Resume, request) == Ok::<ToolStepView, FailureView>(
            ToolStepView::Control(Control::Resume),
        ),
        tool_step(DriverWire::Complete, request) == Ok::<ToolStepView, FailureView>(
            ToolStepView::Control(Control::Complete),
        ),
        tool_step(DriverWire::Stop, request) == Ok::<ToolStepView, FailureView>(
            ToolStepView::Control(Control::Stop),
        ),
{
}

/// A payload is handed on as it is written where it is text, so that what an activation delivers is
/// what is kept.
pub proof fn lemma_text_payloads_stay(request: JsonView, text: Seq<char>)
    requires
        text_field(request, "payload"@) == Some(text),
    ensures
        payload_text(field(request, "payload"@)) == text,
{
}

/// The artifact that a request is about is the one that it names first.
pub proof fn lemma_artifacts_are_named(request: JsonView, key: Seq<char>)
    ensures
        text_field(request, "artifact_id"@) == Some(key) ==> asked_artifact(request) == Ok::<
            Seq<char>,
            FailureView,
        >(key),
        field(request, "artifact_id"@) is None && text_field(request, "artifact_key"@) == Some(key)
            ==> asked_artifact(request) == Ok::<Seq<char>, FailureView>(key),
{
}

/// A lock is applied as the request names it: to activations to come where it names nothing.
pub proof fn lemma_locks_are_applied_as_asked(request: JsonView)
    ensures
        text_field(request, "mode"@) == Some("future_activations"@) ==> asked_lock_mode(request)
            == Ok::<FlowLockMode, FailureView>(FlowLockMode::FutureActivations),
        text_field(request, "mode"@) == Some("checkpoint_restart"@) ==> asked_lock_mode(request)
            == Ok::<FlowLockMode, FailureView>(FlowLockMode::CheckpointRestart),
        field(request, "mode"@) is None && field(request, "apply_mode"@) is None && field(
            request,
            "applyMode"@,
        ) is None ==> asked_lock_mode(request) == Ok::<FlowLockMode, FailureView>(
            FlowLockMode::FutureActivations,
        ),
{
    reveal_strlit("future_activations");
    reveal_strlit("futureActivations");
    reveal_strlit("future-activations");
    reveal_strlit("checkpoint_restart");
    assert("future_activations"@[0] == 'f');
    assert("futureActivations"@[0] == 'f');
    assert("future-activations"@[0] == 'f');
    assert("checkpoint_restart"@[0] == 'c');
}

/// What a client asks is heard by the driver whose token it has: as the operation and the run that the
/// client means, with the arguments that it gives.
pub proof fn lemma_clients_are_heard(
    client: ClientView,
    op: Seq<char>,
    run_id: Seq<char>,
    arguments: JsonView,
    key: Seq<char>,
)
    requires
        arguments is Record,
        key != "id"@ && key != "token"@ && key != "op"@ && key != "run_id"@,
    ensures
        heard(request_value(client, op, run_id, arguments), client.auth_token) matches Ok(told)
            && told.op == op && told.run_id == run_id,
        field(request_value(client, op, run_id, arguments), key) == field(arguments, key),
{
    reveal_strlit("id");
    reveal_strlit("token");
    reveal_strlit("op");
    reveal_strlit("run_id");
    assert("id"@.len() == 2);
    assert("op"@.len() == 2);
    assert("id"@[0] == 'i');
    assert("op"@[0] == 'o');
    assert("token"@.len() == 5);
    assert("run_id"@.len() == 6);
    let a = with_id(arguments);
    let b = crate::json::with_field(a, "token"@, JsonView::Text(client.auth_token));
    let c = crate::json::with_field(b, "op"@, JsonView::Text(op));
    let d = crate::json::with_field(c, "run_id"@, JsonView::Text(run_id));
    assert(d == request_value(client, op, run_id, arguments));
    let keys = seq!["token"@, "op"@, "run_id"@, key];
    assert forall|i: int| 0 <= i < 4 implies field(d, #[trigger] keys[i]) == (if i == 0 {
        Some(JsonView::Text(client.auth_token))
    } else if i == 1 {
        Some(JsonView::Text(op))
    } else if i == 2 {
        Some(JsonView::Text(run_id))
    } else {
        field(arguments, key)
    }) by {
        lemma_field_set(arguments, "id"@, JsonView::Text("mcp"@), keys[i]);
        lemma_field_set(a, "token"@, JsonView::Text(client.auth_token), keys[i]);
        lemma_field_set(b, "op"@, JsonView::Text(op), keys[i]);
        lemma_field_set(c, "run_id"@, JsonView::Text(run_id), keys[i]);
    }
    assert(field(d, keys[0]) == Some(JsonView::Text(client.auth_token)));
    assert(field(d, keys[1]) == Some(JsonView::Text(op)));
    assert(field(d, keys[2]) == Some(JsonView::Text(run_id)));
    assert(field(d, keys[3]) == field(arguments, key));
}

spec fn with_id(arguments: JsonView) -> JsonView {
    crate::json::with_field(arguments, "id"@, JsonView::Text("mcp"@))
}

/// A client speaks to a driver exactly if what is written down of it is of this run and names its own
/// socket and token file, and the token is not blank.
pub proof fn lemma_clients_speak_to_their_driver(
    metadata: MetadataView,
    run_id: Seq<char>,
    expected_socket: Seq<char>,
    name: Seq<char>,
    token: Seq<char>,
)
    requires
        crate::adapters::tmux::error::file_name(expected_socket) == Some(name),
    ensures
        client_fault(metadata, run_id, expected_socket, token) is None <==> {
            &&& metadata.run_id == run_id
            &&& is_just(metadata.socket_path, name)
            &&& is_just(metadata.auth_token_path, TOKEN_FILE@)
            &&& trimmed(token).len() > 0
        },
{
}

proof fn lemma_node_found(nodes: Seq<FlowNodeView>, n: int)
    requires
        0 <= n < nodes.len(),
        forall|i: int| n < i < nodes.len() ==> (#[trigger] nodes[i]).id != nodes[n].id,
    ensures
        node_with_id(nodes, nodes[n].id) == Some(nodes[n]),
    decreases nodes.len(),
{
    if n < nodes.len() - 1 {
        let front = nodes.drop_last();
        assert(nodes.last() == nodes[nodes.len() - 1]);
        assert(front[n] == nodes[n]);
        assert forall|i: int| n < i < front.len() implies (#[trigger] front[i]).id
            != front[n].id by {
            assert(front[i] == nodes[i]);
        }
        lemma_node_found(front, n);
    }
}

/// An activation is put to work exactly if it runs, its node has an action that an agent carries out, it
/// has a pane, and it was not settled for that pane. One that a person carries out is settled instead.
pub proof fn lemma_activations_are_put_to_work(
    draft: FlowDraftView,
    n: int,
    activation: ActivationView,
    has_pane: bool,
    settled: bool,
)
    requires
        0 <= n < draft.nodes.len(),
        activation.node_id == draft.nodes[n].id,
        forall|i: int|
            n < i < draft.nodes.len() ==> (#[trigger] draft.nodes[i]).id != draft.nodes[n].id,
    ensures
        gate_of(draft, Some(activation), has_pane, settled) is Go <==> {
            &&& activation.status == ActivationStatus::Running
            &&& draft.nodes[n].action is Some
            &&& draft.nodes[n].action->0.driver == NodeDriver::Agent
                || draft.nodes[n].action->0.driver == NodeDriver::Review
            &&& has_pane
            &&& !settled
        },
        gate_of(draft, Some(activation), has_pane, settled) is Settle <==> {
            &&& activation.status == ActivationStatus::Running
            &&& draft.nodes[n].action is Some
            &&& draft.nodes[n].action->0.driver == NodeDriver::Human
            &&& has_pane
            &&& !settled
        },
        gate_of(draft, Some(activation), has_pane, settled) is Warn ==> {
            &&& activation.status == ActivationStatus::Running
            &&& draft.nodes[n].action is Some
            &&& !has_pane || draft.nodes[n].action->0.driver == NodeDriver::Script
        },
        gate_of(draft, None, has_pane, settled) is Skip,
{
    lemma_node_found(draft.nodes, n);
}

/// An activation is put to work with the prompt of its own node, in the pane that it has, with the
/// command that agents of the run are started with.
pub proof fn lemma_tasks_are_of_their_node(
    state: DriverStateView,
    tmux: DriverTmuxStateView,
    draft: FlowDraftView,
    n: int,
    activation: ActivationView,
)
    requires
        0 <= n < draft.nodes.len(),
        activation.node_id == draft.nodes[n].id,
        forall|i: int|
            n < i < draft.nodes.len() ==> (#[trigger] draft.nodes[i]).id != draft.nodes[n].id,
        draft.nodes[n].action is Some,
    ensures
        ({
            let task = task_of(state, tmux, draft, activation, activation.activation_id);
            &&& task.activation_id == activation.activation_id
            &&& task.node_id == draft.nodes[n].id
            &&& task.driver == draft.nodes[n].action->0.driver
            &&& task.prompt == first_prompt(draft, draft.nodes[n], draft.nodes[n].action->0)
            &&& task.pane == tmux.panes[activation.activation_id]
            &&& task.agent_command == tmux.agent_command
            &&& task.actuation == tmux.actuation
            &&& task.launched <==> state.deliveries.launched.contains(
                AllocationKeyView {
                    activation_id: activation.activation_id,
                    generation: tmux.panes[activation.activation_id].allocation_generation,
                },
            )
        }),
{
    lemma_node_found(draft.nodes, n);
}

/// What is begun is what is sent, and what is looked for: the command of the launch as the launch, the
/// prompt as the prompt, as often submitted as was asked for.
pub proof fn lemma_begun_input_is_what_is_sent(view: ActuationView)
    ensures
        view.at(ActuationStage::LaunchStart).action() == ActuationActionView::StartDelivery(
            DELIVERY_ROLE_AGENT_LAUNCH@,
            view.command,
        ),
        view.at(ActuationStage::LaunchSend).action() matches ActuationActionView::SendLaunch(
            command,
            _,
        ) && command == view.command,
        view.at(ActuationStage::LaunchSearch).action() matches ActuationActionView::FindInput(
            command,
            _,
        ) && command == view.command,
        view.at(ActuationStage::PromptStart).action() == ActuationActionView::StartDelivery(
            DELIVERY_ROLE_NODE_PROMPT@,
            view.task.prompt,
        ),
        view.at(ActuationStage::PromptSend).action() matches ActuationActionView::SendPrompt(
            prompt,
            count,
            _,
            _,
        ) && prompt == view.task.prompt && count == view.task.actuation.prompt_submit_key_count,
        view.at(ActuationStage::PromptSearch).action() == ActuationActionView::FindInput(
            view.task.prompt,
            view.task.prompt,
        ),
        view.at(ActuationStage::LaunchFinish).action() matches ActuationActionView::FinishDelivery(
            role,
            _,
        ) && role == DELIVERY_ROLE_AGENT_LAUNCH@,
        view.at(ActuationStage::PromptFinish).action() matches ActuationActionView::FinishDelivery(
            role,
            _,
        ) && role == DELIVERY_ROLE_NODE_PROMPT@,
{
}

/// What was sent to agents pauses the run exactly if some warning does not say that it need not.
pub proof fn lemma_warnings_pause_runs(told: DriverActuationView)
    ensures
        told.pauses() <==> !(forall|i: int|
            0 <= i < told.warnings.len() ==> flag_field(
                #[trigger] told.warnings[i],
                "pause_required"@,
            ) == Some(false)),
{
}

/// Input is found in the ledger only by an entry of this run, activation, pane and allocation that was
/// submitted with this very text, and is found where there is such an entry.
pub proof fn lemma_submissions_are_found(
    records: Seq<MachineInputRecordView>,
    run_id: Seq<char>,
    activation_id: Seq<char>,
    pane_id: Seq<char>,
    generation: u64,
    text: Seq<char>,
    projection: Seq<char>,
)
    ensures
        ({
            let found = last_submission(
                records,
                run_id,
                activation_id,
                pane_id,
                generation,
                text,
                projection,
            );
            let fits = |record: MachineInputRecordView|
                record.run_id == run_id && record.activation_id == activation_id && record.pane_id
                    == pane_id && record.allocation_generation == generation && record.status
                    == MachineInputStatus::Submitted && record.payload_hash == payload_hash(text)
                    && record.normalized_text == normalized(projection);
            &&& found is None <==> (forall|i: int|
                0 <= i < records.len() ==> !fits(#[trigger] records[i]))
            &&& found matches Some(transaction) ==> exists|i: int|
                0 <= i < records.len() && fits(#[trigger] records[i]) && records[i].transaction_id
                    == transaction
        }),
    decreases records.len(),
{
    if records.len() > 0 {
        let front = records.drop_last();
        lemma_submissions_are_found(
            front,
            run_id,
            activation_id,
            pane_id,
            generation,
            text,
            projection,
        );
        assert(records[records.len() - 1] == records.last());
        assert(forall|i: int| 0 <= i < front.len() ==> #[trigger] front[i] == records[i]);
        let found = last_submission(
            front,
            run_id,
            activation_id,
            pane_id,
            generation,
            text,
            projection,
        );
        let fits = |record: MachineInputRecordView|
            record.run_id == run_id && record.activation_id == activation_id && record.pane_id
                == pane_id && record.allocation_generation == generation && record.status
                == MachineInputStatus::Submitted && record.payload_hash == payload_hash(text)
                && record.normalized_text == normalized(projection);
        if found is Some && !fits(records.last()) {
            let i = choose|i: int|
                0 <= i < front.len() && fits(#[trigger] front[i]) && front[i].transaction_id
                    == found->0;
            assert(fits(records[i]));
        }
        if found is None && !fits(records.last()) {
            assert forall|i: int| 0 <= i < records.len() implies !fits(#[trigger] records[i]) by {
                if i < front.len() {
                    assert(!fits(front[i]));
                }
            }
        }
    }
}

/// A prompt is submitted between one and four times, and an agent is waited for between a tenth of a
/// second and five minutes, whatever is asked; within these bounds as asked.
pub proof fn lemma_work_of_agents_is_bounded(object: JsonView)
    ensures
        asked_key_count(object) matches Ok(count) ==> 1 <= count <= 4,
        asked_timeout(object) matches Ok(limit) ==> 100 <= limit <= 300_000,
        either_field(object, "prompt_submit_key_count"@, "promptSubmitKeyCount"@) matches Some(
            value,
        ) ==> (asked_key_count(object) matches Ok(count) ==> unsigned_of(value) == Some(
            count as u64,
        )),
        either_field(object, "agent_ready_timeout_ms"@, "agentReadyTimeoutMs"@) matches Some(value)
            ==> (asked_timeout(object) matches Ok(limit) ==> unsigned_of(value) == Some(limit)),
{
}

/// A run gets panes only where the request asks for them; then in the session and window and with the
/// command that it names, without white space around them.
pub proof fn lemma_panes_are_given_where_asked(request: JsonView, config: DriverTmuxConfigView)
    requires
        asked_tmux(request) == Ok::<Option<DriverTmuxConfigView>, FailureView>(Some(config)),
    ensures
        field(request, "tmux"@) is Some,
        ({
            let object = field(request, "tmux"@)->0;
            &&& flag_field(object, "enabled"@) == Some(true)
            &&& text_field(object, "session"@) matches Some(session) && config.session == trimmed(
                session,
            ) && config.session.len() > 0
            &&& text_field(object, "window"@) matches Some(window) && config.window == trimmed(
                window,
            ) && config.window.len() > 0
            &&& either_field(object, "agent_command"@, "agentCommand"@) matches Some(
                JsonView::Text(command),
            ) && config.agent_command == trimmed(command) && config.agent_command.len() > 0
        }),
{
}

/// A window is bound anew only where the request names one, and where it is not the one that stands with
/// the same name, command and settings.
pub proof fn lemma_windows_are_bound_anew(
    current: Option<DriverTmuxStateView>,
    wanted: DriverTmuxConfigView,
)
    ensures
        binding_changes(current, wanted) <==> {
            &&& wanted.existing_window_id is Some
            &&& wanted.existing_window_id->0.len() > 0
            &&& !(current matches Some(tmux) && tmux.session_id == wanted.session && Some(
                tmux.window_id,
            ) == wanted.existing_window_id && tmux.window_name == wanted.window
                && tmux.agent_command == wanted.agent_command && tmux.actuation == wanted.actuation)
        },
{
}

/// A new pane is for the activation that it is planned for, under the next number, where the request says
/// and with its command; the window that stands is used where there is one.
pub proof fn lemma_panes_are_planned_as_asked(
    state: DriverStateView,
    config: DriverTmuxConfigView,
    run_id: Seq<char>,
    activation_id: Seq<char>,
)
    requires
        !state.pending_tmux_allocations.dom().contains(activation_id),
    ensures
        ({
            let plan = allocation_to_make(state, config, run_id, activation_id);
            &&& plan.activation_id == activation_id
            &&& plan.allocation_generation == state.next_generation(activation_id)
            &&& plan.session_id == config.session
            &&& plan.window_name == config.window
            &&& plan.agent_command == config.agent_command
            &&& plan.actuation == config.actuation
            &&& state.tmux is Some && state.tmux->0.window_id.len() > 0 ==> plan.existing_window_id
                == Some(state.tmux->0.window_id)
            &&& state.tmux is None ==> plan.existing_window_id == config.existing_window_id
        }),
{
}

/// Events that are to be kept are appended only where none of them is there, and count as kept only where
/// all of them are, in their order.
pub proof fn lemma_events_are_appended_once(
    current: Seq<JsonView>,
    base: usize,
    pending: Seq<JsonView>,
)
    ensures
        reconciled(current, base, pending) == Ok::<bool, ReconcileFault>(true) <==> current.len()
            == base,
        reconciled(current, base, pending) == Ok::<bool, ReconcileFault>(false) ==> {
            &&& current.len() >= base + pending.len()
            &&& forall|i: int|
                0 <= i < pending.len() ==> alike(current[base + i], #[trigger] pending[i])
        },
{
}

/// Records are read exactly if each of them is JSON; then each is read, in order.
pub proof fn lemma_records_are_read(lines: Seq<Seq<char>>)
    ensures
        read_lines(lines) is Ok <==> (forall|i: int|
            0 <= i < lines.len() ==> json_parse(#[trigger] lines[i]) is Ok),
        read_lines(lines) matches Ok(values) ==> values == Seq::new(
            lines.len(),
            |i: int| json_parse(lines[i])->Ok_0,
        ),
    decreases lines.len(),
{
    if lines.len() > 0 {
        let front = lines.drop_last();
        lemma_records_are_read(front);
        assert(lines.last() == lines[lines.len() - 1]);
        assert(forall|i: int| 0 <= i < front.len() ==> #[trigger] front[i] == lines[i]);
        if read_lines(lines) is Ok {
            assert forall|i: int| 0 <= i < lines.len() implies json_parse(
                #[trigger] lines[i],
            ) is Ok by {
                if i < front.len() {
                    assert(json_parse(front[i]) is Ok);
                }
            }
            assert(read_lines(lines)->Ok_0 =~= Seq::new(
                lines.len(),
                |i: int| json_parse(lines[i])->Ok_0,
            ));
        } else if forall|i: int| 0 <= i < lines.len() ==> json_parse(#[trigger] lines[i]) is Ok {
            assert forall|i: int| 0 <= i < front.len() implies json_parse(
                #[trigger] front[i],
            ) is Ok by {
                assert(json_parse(lines[i]) is Ok);
            }
        }
    } else {
        assert(read_lines(lines)->Ok_0 =~= Seq::new(
            lines.len(),
            |i: int| json_parse(lines[i])->Ok_0,
        ));
    }
}

/// What a driver left behind is removed exactly if it is a socket inside the directory for such things
/// that is there and on which nobody listens.
pub proof fn lemma_only_dead_sockets_are_removed(
    inside: bool,
    contact: Contact,
    present: bool,
    is_socket: bool,
)
    ensures
        stale_socket_step(inside, contact, present, is_socket) == StaleSocket::Remove <==> inside
            && present && is_socket && (contact == Contact::Refused || contact
            == Contact::NotFound),
{
}

/// A review allows a lock exactly if it is a review of that lock with that content, and was approved or
/// passed over.
pub proof fn lemma_reviews_allow_their_lock(review: FlowReviewView, lock: FlowLockView)
    ensures
        review_fault(review, lock) is None <==> review.flow_lock_id == lock.id
            && review.content_hash == lock.content_hash && (review.status == ReviewStatus::Approved
            || review.status == ReviewStatus::Bypassed),
{
}

/// A run that is bound is asked for as it is bound exactly if the lock, its content, the mode and both
/// limits are those that it was bound with.
pub proof fn lemma_bindings_stand_as_they_were_made(
    bound: RunBindingView,
    lock_id: Seq<char>,
    content_hash: Seq<char>,
    run_mode: RunMode,
    activation_limit: u64,
    stop_attempt_limit: u32,
)
    ensures
        binding_stands(
            bound,
            lock_id,
            content_hash,
            run_mode,
            activation_limit,
            stop_attempt_limit,
        ) <==> {
            &&& lock_id == bound.flow_lock_id
            &&& content_hash == bound.content_hash
            &&& Some(run_mode) == bound.run_mode
            &&& Some(activation_limit) == bound.initial_activation_limit
            &&& Some(stop_attempt_limit) == bound.stop_attempt_limit
        },
{
}

} // verus!
