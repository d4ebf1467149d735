//! What the driver has done and written down with its panes and agents is what it finds again
//! after a restart.
use vstd::prelude::*;

use crate::adapters::tmux::pipe::PipeDescriptorView;
use crate::flow::export::{lemma_ordered_field, ordered};
use crate::json::{
    distinct_keys, field, lookup, no_fields, option_text, text_list, unsigned_field, JsonView,
};
use crate::split::{
    lemma_piece_behind, lemma_whole_piece, part_components, path_components, pieces, ComponentView,
};

use super::cleanup::cleanup_receipt;
use super::delivery::{barriers_up, PlannedEventView};
use super::fields::lemma_lookup_push;
use super::keys::AllocationKeyView;
use super::laws::logged;
use super::lifecycle::{capture_started_event, given_up_event, owned_event, release_event};
use super::ownership::{allocated_event, binding_event};
use super::participant::{bound_event, key_in, started_event, with_bound, BindRequestView};
use super::records::{
    descriptor_json, lemma_descriptor_reads_back, lemma_driver_tmux_actuation_config_reads_back,
    lemma_participant_binding_reads_back, lemma_stored_pane_reads_back,
    lemma_tmux_pane_allocation_intent_reads_back, lemma_tmux_pane_cleanup_intent_reads_back,
    lemma_tmux_pipe_capture_intent_reads_back, DriverTmuxActuationConfigView,
    ParticipantBindingView, StoredPaneView, TmuxPaneAllocationIntentView, TmuxPaneCleanupIntentView,
    TmuxPipeCaptureIntentView,
};
use super::replay::{stays_below, texts_among, DriverStateView, DriverTmuxStateView, ReplayFault};
use super::revision::{revision_available_event, revision_file, REVISIONS_DIR};
use super::storage::{file_segment, lemma_file_segments_stay};

verus! {

/// A pane that was begun is found begun after a restart.
pub proof fn lemma_allocation_intent_survives(
    state: DriverStateView,
    intent: TmuxPaneAllocationIntentView,
    seq: u64,
    at_ms: u64,
)
    ensures
        state.replayed(
            logged(
                PlannedEventView { kind: "tmux_pane_allocation_intent"@, payload: intent.json() },
                seq,
                at_ms,
            ),
        ) == Ok::<DriverStateView, ReplayFault>(
            DriverStateView {
                pending_tmux_allocations: state.pending_tmux_allocations.insert(intent.activation_id, intent),
                ..state
            },
        ),
{
    reveal_strlit("tmux_pane_allocation_intent");
    assert("tmux_pane_allocation_intent"@.len() == 27);
    reveal_strlit("driver_pane_owned");
    assert("driver_pane_owned"@.len() == 17);
    assert("driver_pane_owned"@ != "tmux_pane_allocation_intent"@);
    reveal_strlit("driver_pane_released");
    assert("driver_pane_released"@.len() == 20);
    assert("driver_pane_released"@ != "tmux_pane_allocation_intent"@);
    reveal_strlit("pipe_capture_intent");
    assert("pipe_capture_intent"@.len() == 19);
    assert("pipe_capture_intent"@ != "tmux_pane_allocation_intent"@);
    reveal_strlit("pipe_capture_started");
    assert("pipe_capture_started"@.len() == 20);
    assert("pipe_capture_started"@ != "tmux_pane_allocation_intent"@);
    reveal_strlit("flow_revision_available");
    assert("flow_revision_available"@.len() == 23);
    assert("flow_revision_available"@ != "tmux_pane_allocation_intent"@);
    reveal_strlit("tmux_bound");
    assert("tmux_bound"@.len() == 10);
    assert("tmux_bound"@ != "tmux_pane_allocation_intent"@);
    lemma_tmux_pane_allocation_intent_reads_back(intent);
}

/// A helper that was begun is found begun after a restart.
pub proof fn lemma_capture_intent_survives(
    state: DriverStateView,
    intent: TmuxPipeCaptureIntentView,
    seq: u64,
    at_ms: u64,
)
    ensures
        state.replayed(
            logged(
                PlannedEventView { kind: "pipe_capture_intent"@, payload: intent.json() },
                seq,
                at_ms,
            ),
        ) == Ok::<DriverStateView, ReplayFault>(
            DriverStateView {
                pending_pipe_captures: state.pending_pipe_captures.insert(intent.activation_id, intent),
                ..state
            },
        ),
{
    reveal_strlit("pipe_capture_intent");
    assert("pipe_capture_intent"@.len() == 19);
    reveal_strlit("driver_pane_owned");
    assert("driver_pane_owned"@.len() == 17);
    assert("driver_pane_owned"@ != "pipe_capture_intent"@);
    reveal_strlit("driver_pane_released");
    assert("driver_pane_released"@.len() == 20);
    assert("driver_pane_released"@ != "pipe_capture_intent"@);
    lemma_tmux_pipe_capture_intent_reads_back(intent);
}

/// The end of a pane that was begun is found begun after a restart.
pub proof fn lemma_cleanup_intent_survives(
    state: DriverStateView,
    intent: TmuxPaneCleanupIntentView,
    seq: u64,
    at_ms: u64,
)
    ensures
        state.replayed(
            logged(
                PlannedEventView { kind: "tmux_pane_cleanup_intent"@, payload: intent.json() },
                seq,
                at_ms,
            ),
        ) == Ok::<DriverStateView, ReplayFault>(
            DriverStateView {
                pending_tmux_cleanups: state.pending_tmux_cleanups.insert(intent.activation_id, intent),
                ..state
            },
        ),
{
    reveal_strlit("tmux_pane_cleanup_intent");
    assert("tmux_pane_cleanup_intent"@.len() == 24);
    reveal_strlit("driver_pane_owned");
    assert("driver_pane_owned"@.len() == 17);
    assert("driver_pane_owned"@ != "tmux_pane_cleanup_intent"@);
    reveal_strlit("driver_pane_released");
    assert("driver_pane_released"@.len() == 20);
    assert("driver_pane_released"@ != "tmux_pane_cleanup_intent"@);
    reveal_strlit("pipe_capture_intent");
    assert("pipe_capture_intent"@.len() == 19);
    assert("pipe_capture_intent"@ != "tmux_pane_cleanup_intent"@);
    reveal_strlit("pipe_capture_started");
    assert("pipe_capture_started"@.len() == 20);
    assert("pipe_capture_started"@ != "tmux_pane_cleanup_intent"@);
    reveal_strlit("flow_revision_available");
    assert("flow_revision_available"@.len() == 23);
    assert("flow_revision_available"@ != "tmux_pane_cleanup_intent"@);
    reveal_strlit("tmux_bound");
    assert("tmux_bound"@.len() == 10);
    assert("tmux_bound"@ != "tmux_pane_cleanup_intent"@);
    reveal_strlit("tmux_pane_allocation_intent");
    assert("tmux_pane_allocation_intent"@.len() == 27);
    assert("tmux_pane_allocation_intent"@ != "tmux_pane_cleanup_intent"@);
    reveal_strlit("tmux_pane_allocated");
    assert("tmux_pane_allocated"@.len() == 19);
    assert("tmux_pane_allocated"@ != "tmux_pane_cleanup_intent"@);
    lemma_tmux_pane_cleanup_intent_reads_back(intent);
}

/// A helper that runs is found running after a restart.
pub proof fn lemma_capture_survives(
    state: DriverStateView,
    activation_id: Seq<char>,
    generation: u64,
    operation_id: Seq<char>,
    descriptor: PipeDescriptorView,
    seq: u64,
    at_ms: u64,
)
    ensures
        state.replayed(logged(capture_started_event(activation_id, generation, operation_id, descriptor), seq, at_ms)) == Ok::<DriverStateView, ReplayFault>(
            DriverStateView {
                pending_pipe_captures: state.pending_pipe_captures.remove(activation_id),
                pipe_captures: state.pipe_captures.insert(
                    activation_id,
                    (generation, descriptor),
                ),
                ..state
            },
        ),
{
    reveal_strlit("pipe_capture_started");
    assert("pipe_capture_started"@.len() == 20);
    reveal_strlit("driver_pane_owned");
    assert("driver_pane_owned"@.len() == 17);
    assert("driver_pane_owned"@ != "pipe_capture_started"@);
    reveal_strlit("driver_pane_released");
    assert("driver_pane_released"@.len() == 20);
    assert("driver_pane_released"@[0] != "pipe_capture_started"@[0]);
    assert("driver_pane_released"@ != "pipe_capture_started"@);
    reveal_strlit("pipe_capture_intent");
    assert("pipe_capture_intent"@.len() == 19);
    assert("pipe_capture_intent"@ != "pipe_capture_started"@);
    let value = capture_started_event(activation_id, generation, operation_id, descriptor).payload;
    reveal_strlit("activation_id");
    reveal_strlit("allocation_generation");
    reveal_strlit("operation_id");
    reveal_strlit("descriptor");
    assert("activation_id"@.len() == 13);
    assert("allocation_generation"@.len() == 21);
    assert("operation_id"@.len() == 12);
    assert("descriptor"@.len() == 10);
    let f0 = no_fields();
    let f1 = f0.push(("activation_id"@, JsonView::Text(activation_id)));
    let f2 = f1.push(("allocation_generation"@, JsonView::Unsigned(generation)));
    let f3 = f2.push(("operation_id"@, JsonView::Text(operation_id)));
    let f4 = f3.push(("descriptor"@, descriptor_json(descriptor)));
    let fields = f4;
    assert(value == JsonView::Record(fields));
    assert(distinct_keys(fields));
    assert(lookup(fields, "activation_id"@) == Some(JsonView::Text(activation_id))) by {
        lemma_lookup_push(f3, "descriptor"@, descriptor_json(descriptor), "activation_id"@);
        lemma_lookup_push(f2, "operation_id"@, JsonView::Text(operation_id), "activation_id"@);
        lemma_lookup_push(
            f1,
            "allocation_generation"@,
            JsonView::Unsigned(generation),
            "activation_id"@,
        );
        lemma_lookup_push(f0, "activation_id"@, JsonView::Text(activation_id), "activation_id"@);
    }
    lemma_ordered_field(fields, "activation_id"@);
    assert(lookup(fields, "allocation_generation"@) == Some(JsonView::Unsigned(generation))) by {
        lemma_lookup_push(f3, "descriptor"@, descriptor_json(descriptor), "allocation_generation"@);
        lemma_lookup_push(
            f2,
            "operation_id"@,
            JsonView::Text(operation_id),
            "allocation_generation"@,
        );
        lemma_lookup_push(
            f1,
            "allocation_generation"@,
            JsonView::Unsigned(generation),
            "allocation_generation"@,
        );
    }
    lemma_ordered_field(fields, "allocation_generation"@);
    assert(lookup(fields, "operation_id"@) == Some(JsonView::Text(operation_id))) by {
        lemma_lookup_push(f3, "descriptor"@, descriptor_json(descriptor), "operation_id"@);
        lemma_lookup_push(f2, "operation_id"@, JsonView::Text(operation_id), "operation_id"@);
    }
    lemma_ordered_field(fields, "operation_id"@);
    assert(lookup(fields, "descriptor"@) == Some(descriptor_json(descriptor))) by {
        lemma_lookup_push(f3, "descriptor"@, descriptor_json(descriptor), "descriptor"@);
    }
    lemma_ordered_field(fields, "descriptor"@);
    lemma_descriptor_reads_back(descriptor);
}

/// The window of a run is found again after a restart.
pub proof fn lemma_tmux_binding_survives(
    state: DriverStateView,
    session_id: Seq<char>,
    window_name: Seq<char>,
    window_id: Seq<char>,
    agent_command: Seq<char>,
    actuation: DriverTmuxActuationConfigView,
    seq: u64,
    at_ms: u64,
)
    ensures
        state.replayed(logged(binding_event(session_id, window_name, window_id, agent_command, actuation), seq, at_ms)) == Ok::<DriverStateView, ReplayFault>(
            DriverStateView {
                tmux: Some(
                    DriverTmuxStateView {
                        session_id,
                        window_name,
                        window_id,
                        agent_command,
                        actuation,
                        panes: Map::empty(),
                    },
                ),
                ..state
            },
        ),
{
    reveal_strlit("tmux_bound");
    assert("tmux_bound"@.len() == 10);
    reveal_strlit("driver_pane_owned");
    assert("driver_pane_owned"@.len() == 17);
    assert("driver_pane_owned"@ != "tmux_bound"@);
    reveal_strlit("driver_pane_released");
    assert("driver_pane_released"@.len() == 20);
    assert("driver_pane_released"@ != "tmux_bound"@);
    reveal_strlit("pipe_capture_intent");
    assert("pipe_capture_intent"@.len() == 19);
    assert("pipe_capture_intent"@ != "tmux_bound"@);
    reveal_strlit("pipe_capture_started");
    assert("pipe_capture_started"@.len() == 20);
    assert("pipe_capture_started"@ != "tmux_bound"@);
    reveal_strlit("flow_revision_available");
    assert("flow_revision_available"@.len() == 23);
    assert("flow_revision_available"@ != "tmux_bound"@);
    let value = binding_event(session_id, window_name, window_id, agent_command, actuation).payload;
    reveal_strlit("session_id");
    reveal_strlit("window_name");
    reveal_strlit("window_id");
    reveal_strlit("agent_command");
    reveal_strlit("actuation");
    assert("session_id"@.len() == 10);
    assert("window_name"@.len() == 11);
    assert("window_id"@.len() == 9);
    assert("agent_command"@.len() == 13);
    assert("actuation"@.len() == 9);
    assert("window_id"@[0] != "actuation"@[0]);
    let f0 = no_fields();
    let f1 = f0.push(("session_id"@, JsonView::Text(session_id)));
    let f2 = f1.push(("window_name"@, JsonView::Text(window_name)));
    let f3 = f2.push(("window_id"@, JsonView::Text(window_id)));
    let f4 = f3.push(("agent_command"@, JsonView::Text(agent_command)));
    let f5 = f4.push(("actuation"@, actuation.json()));
    let fields = f5;
    assert(value == JsonView::Record(fields));
    assert(distinct_keys(fields));
    assert(lookup(fields, "session_id"@) == Some(JsonView::Text(session_id))) by {
        lemma_lookup_push(f4, "actuation"@, actuation.json(), "session_id"@);
        lemma_lookup_push(f3, "agent_command"@, JsonView::Text(agent_command), "session_id"@);
        lemma_lookup_push(f2, "window_id"@, JsonView::Text(window_id), "session_id"@);
        lemma_lookup_push(f1, "window_name"@, JsonView::Text(window_name), "session_id"@);
        lemma_lookup_push(f0, "session_id"@, JsonView::Text(session_id), "session_id"@);
    }
    lemma_ordered_field(fields, "session_id"@);
    assert(lookup(fields, "window_name"@) == Some(JsonView::Text(window_name))) by {
        lemma_lookup_push(f4, "actuation"@, actuation.json(), "window_name"@);
        lemma_lookup_push(f3, "agent_command"@, JsonView::Text(agent_command), "window_name"@);
        lemma_lookup_push(f2, "window_id"@, JsonView::Text(window_id), "window_name"@);
        lemma_lookup_push(f1, "window_name"@, JsonView::Text(window_name), "window_name"@);
    }
    lemma_ordered_field(fields, "window_name"@);
    assert(lookup(fields, "window_id"@) == Some(JsonView::Text(window_id))) by {
        lemma_lookup_push(f4, "actuation"@, actuation.json(), "window_id"@);
        lemma_lookup_push(f3, "agent_command"@, JsonView::Text(agent_command), "window_id"@);
        lemma_lookup_push(f2, "window_id"@, JsonView::Text(window_id), "window_id"@);
    }
    lemma_ordered_field(fields, "window_id"@);
    assert(lookup(fields, "agent_command"@) == Some(JsonView::Text(agent_command))) by {
        lemma_lookup_push(f4, "actuation"@, actuation.json(), "agent_command"@);
        lemma_lookup_push(f3, "agent_command"@, JsonView::Text(agent_command), "agent_command"@);
    }
    lemma_ordered_field(fields, "agent_command"@);
    assert(lookup(fields, "actuation"@) == Some(actuation.json())) by {
        lemma_lookup_push(f4, "actuation"@, actuation.json(), "actuation"@);
    }
    lemma_ordered_field(fields, "actuation"@);
    lemma_driver_tmux_actuation_config_reads_back(actuation);
}

/// A pane that an activation has is found with it after a restart.
pub proof fn lemma_pane_survives(
    state: DriverStateView,
    activation_id: Seq<char>,
    operation_id: Seq<char>,
    pane: StoredPaneView,
    seq: u64,
    at_ms: u64,
)
    requires
        state.tmux is Some,
    ensures
        state.replayed(logged(allocated_event(activation_id, operation_id, pane), seq, at_ms)) == Ok::<DriverStateView, ReplayFault>(
            state.with_pane(activation_id, pane),
        ),
{
    reveal_strlit("tmux_pane_allocated");
    assert("tmux_pane_allocated"@.len() == 19);
    reveal_strlit("driver_pane_owned");
    assert("driver_pane_owned"@.len() == 17);
    assert("driver_pane_owned"@ != "tmux_pane_allocated"@);
    reveal_strlit("driver_pane_released");
    assert("driver_pane_released"@.len() == 20);
    assert("driver_pane_released"@ != "tmux_pane_allocated"@);
    reveal_strlit("pipe_capture_intent");
    assert("pipe_capture_intent"@.len() == 19);
    assert("pipe_capture_intent"@[0] != "tmux_pane_allocated"@[0]);
    assert("pipe_capture_intent"@ != "tmux_pane_allocated"@);
    reveal_strlit("pipe_capture_started");
    assert("pipe_capture_started"@.len() == 20);
    assert("pipe_capture_started"@ != "tmux_pane_allocated"@);
    reveal_strlit("flow_revision_available");
    assert("flow_revision_available"@.len() == 23);
    assert("flow_revision_available"@ != "tmux_pane_allocated"@);
    reveal_strlit("tmux_bound");
    assert("tmux_bound"@.len() == 10);
    assert("tmux_bound"@ != "tmux_pane_allocated"@);
    reveal_strlit("tmux_pane_allocation_intent");
    assert("tmux_pane_allocation_intent"@.len() == 27);
    assert("tmux_pane_allocation_intent"@ != "tmux_pane_allocated"@);
    let value = allocated_event(activation_id, operation_id, pane).payload;
    reveal_strlit("activation_id");
    reveal_strlit("operation_id");
    reveal_strlit("pane");
    assert("activation_id"@.len() == 13);
    assert("operation_id"@.len() == 12);
    assert("pane"@.len() == 4);
    let f0 = no_fields();
    let f1 = f0.push(("activation_id"@, JsonView::Text(activation_id)));
    let f2 = f1.push(("operation_id"@, JsonView::Text(operation_id)));
    let f3 = f2.push(("pane"@, pane.json()));
    let fields = f3;
    assert(value == JsonView::Record(fields));
    assert(distinct_keys(fields));
    assert(lookup(fields, "activation_id"@) == Some(JsonView::Text(activation_id))) by {
        lemma_lookup_push(f2, "pane"@, pane.json(), "activation_id"@);
        lemma_lookup_push(f1, "operation_id"@, JsonView::Text(operation_id), "activation_id"@);
        lemma_lookup_push(f0, "activation_id"@, JsonView::Text(activation_id), "activation_id"@);
    }
    lemma_ordered_field(fields, "activation_id"@);
    assert(lookup(fields, "operation_id"@) == Some(JsonView::Text(operation_id))) by {
        lemma_lookup_push(f2, "pane"@, pane.json(), "operation_id"@);
        lemma_lookup_push(f1, "operation_id"@, JsonView::Text(operation_id), "operation_id"@);
    }
    lemma_ordered_field(fields, "operation_id"@);
    assert(lookup(fields, "pane"@) == Some(pane.json())) by {
        lemma_lookup_push(f2, "pane"@, pane.json(), "pane"@);
    }
    lemma_ordered_field(fields, "pane"@);
    lemma_stored_pane_reads_back(pane);
    lemma_pane_tells_generation(pane);
}

/// A pane that is ended is found ended after a restart: it is not ended again.
pub proof fn lemma_cleanup_receipt_survives(
    state: DriverStateView,
    intent: TmuxPaneCleanupIntentView,
    error: Option<Seq<char>>,
    seq: u64,
    at_ms: u64,
)
    requires
        state.pending_tmux_cleanups.dom().contains(intent.activation_id),
        state.pending_tmux_cleanups[intent.activation_id] == intent,
    ensures
        state.replayed(logged(cleanup_receipt(intent, error), seq, at_ms)) == Ok::<DriverStateView, ReplayFault>(
            DriverStateView {
                pending_tmux_cleanups: state.pending_tmux_cleanups.remove(intent.activation_id),
                ..state
            },
        ),
{
    reveal_strlit("tmux_pane_cleanup_receipt");
    assert("tmux_pane_cleanup_receipt"@.len() == 25);
    reveal_strlit("driver_pane_owned");
    assert("driver_pane_owned"@.len() == 17);
    assert("driver_pane_owned"@ != "tmux_pane_cleanup_receipt"@);
    reveal_strlit("driver_pane_released");
    assert("driver_pane_released"@.len() == 20);
    assert("driver_pane_released"@ != "tmux_pane_cleanup_receipt"@);
    reveal_strlit("pipe_capture_intent");
    assert("pipe_capture_intent"@.len() == 19);
    assert("pipe_capture_intent"@ != "tmux_pane_cleanup_receipt"@);
    reveal_strlit("pipe_capture_started");
    assert("pipe_capture_started"@.len() == 20);
    assert("pipe_capture_started"@ != "tmux_pane_cleanup_receipt"@);
    reveal_strlit("flow_revision_available");
    assert("flow_revision_available"@.len() == 23);
    assert("flow_revision_available"@ != "tmux_pane_cleanup_receipt"@);
    reveal_strlit("tmux_bound");
    assert("tmux_bound"@.len() == 10);
    assert("tmux_bound"@ != "tmux_pane_cleanup_receipt"@);
    reveal_strlit("tmux_pane_allocation_intent");
    assert("tmux_pane_allocation_intent"@.len() == 27);
    assert("tmux_pane_allocation_intent"@ != "tmux_pane_cleanup_receipt"@);
    reveal_strlit("tmux_pane_allocated");
    assert("tmux_pane_allocated"@.len() == 19);
    assert("tmux_pane_allocated"@ != "tmux_pane_cleanup_receipt"@);
    reveal_strlit("tmux_pane_cleanup_intent");
    assert("tmux_pane_cleanup_intent"@.len() == 24);
    assert("tmux_pane_cleanup_intent"@ != "tmux_pane_cleanup_receipt"@);
    let value = cleanup_receipt(intent, error).payload;
    reveal_strlit("operation_id");
    reveal_strlit("run_id");
    reveal_strlit("activation_id");
    reveal_strlit("allocation_generation");
    reveal_strlit("pane");
    reveal_strlit("reason");
    reveal_strlit("preservation_error");
    assert("operation_id"@.len() == 12);
    assert("run_id"@.len() == 6);
    assert("activation_id"@.len() == 13);
    assert("allocation_generation"@.len() == 21);
    assert("pane"@.len() == 4);
    assert("reason"@.len() == 6);
    assert("preservation_error"@.len() == 18);
    assert("run_id"@[1] != "reason"@[1]);
    let f0 = no_fields();
    let f1 = f0.push(("operation_id"@, JsonView::Text(intent.operation_id)));
    let f2 = f1.push(("run_id"@, JsonView::Text(intent.run_id)));
    let f3 = f2.push(("activation_id"@, JsonView::Text(intent.activation_id)));
    let f4 = f3.push(("allocation_generation"@, JsonView::Unsigned(intent.allocation_generation)));
    let f5 = f4.push(("pane"@, intent.pane.json()));
    let f6 = f5.push(("reason"@, JsonView::Text(intent.reason)));
    let f7 = f6.push(("preservation_error"@, option_text(error)));
    let fields = f7;
    assert(value == JsonView::Record(fields));
    assert(distinct_keys(fields));
    assert(lookup(fields, "operation_id"@) == Some(JsonView::Text(intent.operation_id))) by {
        lemma_lookup_push(f6, "preservation_error"@, option_text(error), "operation_id"@);
        lemma_lookup_push(f5, "reason"@, JsonView::Text(intent.reason), "operation_id"@);
        lemma_lookup_push(f4, "pane"@, intent.pane.json(), "operation_id"@);
        lemma_lookup_push(
            f3,
            "allocation_generation"@,
            JsonView::Unsigned(intent.allocation_generation),
            "operation_id"@,
        );
        lemma_lookup_push(
            f2,
            "activation_id"@,
            JsonView::Text(intent.activation_id),
            "operation_id"@,
        );
        lemma_lookup_push(f1, "run_id"@, JsonView::Text(intent.run_id), "operation_id"@);
        lemma_lookup_push(
            f0,
            "operation_id"@,
            JsonView::Text(intent.operation_id),
            "operation_id"@,
        );
    }
    lemma_ordered_field(fields, "operation_id"@);
    assert(lookup(fields, "run_id"@) == Some(JsonView::Text(intent.run_id))) by {
        lemma_lookup_push(f6, "preservation_error"@, option_text(error), "run_id"@);
        lemma_lookup_push(f5, "reason"@, JsonView::Text(intent.reason), "run_id"@);
        lemma_lookup_push(f4, "pane"@, intent.pane.json(), "run_id"@);
        lemma_lookup_push(
            f3,
            "allocation_generation"@,
            JsonView::Unsigned(intent.allocation_generation),
            "run_id"@,
        );
        lemma_lookup_push(f2, "activation_id"@, JsonView::Text(intent.activation_id), "run_id"@);
        lemma_lookup_push(f1, "run_id"@, JsonView::Text(intent.run_id), "run_id"@);
    }
    lemma_ordered_field(fields, "run_id"@);
    assert(lookup(fields, "activation_id"@) == Some(JsonView::Text(intent.activation_id))) by {
        lemma_lookup_push(f6, "preservation_error"@, option_text(error), "activation_id"@);
        lemma_lookup_push(f5, "reason"@, JsonView::Text(intent.reason), "activation_id"@);
        lemma_lookup_push(f4, "pane"@, intent.pane.json(), "activation_id"@);
        lemma_lookup_push(
            f3,
            "allocation_generation"@,
            JsonView::Unsigned(intent.allocation_generation),
            "activation_id"@,
        );
        lemma_lookup_push(
            f2,
            "activation_id"@,
            JsonView::Text(intent.activation_id),
            "activation_id"@,
        );
    }
    lemma_ordered_field(fields, "activation_id"@);
    assert(
        lookup(fields, "allocation_generation"@) == Some(
            JsonView::Unsigned(intent.allocation_generation),
        )
    ) by {
        lemma_lookup_push(f6, "preservation_error"@, option_text(error), "allocation_generation"@);
        lemma_lookup_push(f5, "reason"@, JsonView::Text(intent.reason), "allocation_generation"@);
        lemma_lookup_push(f4, "pane"@, intent.pane.json(), "allocation_generation"@);
        lemma_lookup_push(
            f3,
            "allocation_generation"@,
            JsonView::Unsigned(intent.allocation_generation),
            "allocation_generation"@,
        );
    }
    lemma_ordered_field(fields, "allocation_generation"@);
    assert(lookup(fields, "pane"@) == Some(intent.pane.json())) by {
        lemma_lookup_push(f6, "preservation_error"@, option_text(error), "pane"@);
        lemma_lookup_push(f5, "reason"@, JsonView::Text(intent.reason), "pane"@);
        lemma_lookup_push(f4, "pane"@, intent.pane.json(), "pane"@);
    }
    lemma_ordered_field(fields, "pane"@);
    assert(lookup(fields, "reason"@) == Some(JsonView::Text(intent.reason))) by {
        lemma_lookup_push(f6, "preservation_error"@, option_text(error), "reason"@);
        lemma_lookup_push(f5, "reason"@, JsonView::Text(intent.reason), "reason"@);
    }
    lemma_ordered_field(fields, "reason"@);
    assert(lookup(fields, "preservation_error"@) == Some(option_text(error))) by {
        lemma_lookup_push(f6, "preservation_error"@, option_text(error), "preservation_error"@);
    }
    lemma_ordered_field(fields, "preservation_error"@);
    lemma_stored_pane_reads_back(intent.pane);
}

/// The pane of the operator is found owned after a restart.
pub proof fn lemma_operator_pane_survives(
    state: DriverStateView,
    pane: StoredPaneView,
    seq: u64,
    at_ms: u64,
)
    ensures
        state.replayed(logged(owned_event(pane), seq, at_ms)) == Ok::<DriverStateView, ReplayFault>(
            DriverStateView { operator_pane: Some(pane), ..state },
        ),
{
    reveal_strlit("driver_pane_owned");
    assert("driver_pane_owned"@.len() == 17);
    let value = owned_event(pane).payload;
    reveal_strlit("pane");
    assert("pane"@.len() == 4);
    let f0 = no_fields();
    let f1 = f0.push(("pane"@, pane.json()));
    let fields = f1;
    assert(value == JsonView::Record(fields));
    assert(distinct_keys(fields));
    assert(lookup(fields, "pane"@) == Some(pane.json())) by {
        lemma_lookup_push(f0, "pane"@, pane.json(), "pane"@);
    }
    lemma_ordered_field(fields, "pane"@);
    lemma_stored_pane_reads_back(pane);
}

/// A pane of the operator that was given up is found given up after a restart.
pub proof fn lemma_operator_release_survives(
    state: DriverStateView,
    pane: StoredPaneView,
    reason: Seq<char>,
    seq: u64,
    at_ms: u64,
)
    ensures
        state.replayed(logged(given_up_event(pane, reason), seq, at_ms)) == Ok::<
            DriverStateView,
            ReplayFault,
        >(DriverStateView { operator_pane: None, ..state }),
{
    reveal_strlit("driver_pane_released");
    assert("driver_pane_released"@.len() == 20);
    reveal_strlit("driver_pane_owned");
    assert("driver_pane_owned"@.len() == 17);
    assert("driver_pane_owned"@ != "driver_pane_released"@);
}

/// An agent that was started is found started after a restart.
pub proof fn lemma_participant_start_survives(
    state: DriverStateView,
    binding: ParticipantBindingView,
    limit: u32,
    seq: u64,
    at_ms: u64,
)
    ensures
        state.replayed(logged(started_event(binding, limit), seq, at_ms)) == Ok::<DriverStateView, ReplayFault>(
            DriverStateView {
                participant_bindings: state.participant_bindings.insert(key_in(binding), binding),
                ..state
            },
        ),
{
    reveal_strlit("participant_started");
    assert("participant_started"@.len() == 19);
    reveal_strlit("driver_pane_owned");
    assert("driver_pane_owned"@.len() == 17);
    assert("driver_pane_owned"@ != "participant_started"@);
    reveal_strlit("driver_pane_released");
    assert("driver_pane_released"@.len() == 20);
    assert("driver_pane_released"@ != "participant_started"@);
    reveal_strlit("pipe_capture_intent");
    assert("pipe_capture_intent"@.len() == 19);
    assert("pipe_capture_intent"@[1] != "participant_started"@[1]);
    assert("pipe_capture_intent"@ != "participant_started"@);
    reveal_strlit("pipe_capture_started");
    assert("pipe_capture_started"@.len() == 20);
    assert("pipe_capture_started"@ != "participant_started"@);
    reveal_strlit("flow_revision_available");
    assert("flow_revision_available"@.len() == 23);
    assert("flow_revision_available"@ != "participant_started"@);
    reveal_strlit("tmux_bound");
    assert("tmux_bound"@.len() == 10);
    assert("tmux_bound"@ != "participant_started"@);
    reveal_strlit("tmux_pane_allocation_intent");
    assert("tmux_pane_allocation_intent"@.len() == 27);
    assert("tmux_pane_allocation_intent"@ != "participant_started"@);
    reveal_strlit("tmux_pane_allocated");
    assert("tmux_pane_allocated"@.len() == 19);
    assert("tmux_pane_allocated"@[0] != "participant_started"@[0]);
    assert("tmux_pane_allocated"@ != "participant_started"@);
    reveal_strlit("tmux_pane_cleanup_intent");
    assert("tmux_pane_cleanup_intent"@.len() == 24);
    assert("tmux_pane_cleanup_intent"@ != "participant_started"@);
    reveal_strlit("tmux_pane_cleanup_receipt");
    assert("tmux_pane_cleanup_receipt"@.len() == 25);
    assert("tmux_pane_cleanup_receipt"@ != "participant_started"@);
    reveal_strlit("tmux_panes_released");
    assert("tmux_panes_released"@.len() == 19);
    assert("tmux_panes_released"@[0] != "participant_started"@[0]);
    assert("tmux_panes_released"@ != "participant_started"@);
    reveal_strlit("input_delivery_started");
    assert("input_delivery_started"@.len() == 22);
    assert("input_delivery_started"@ != "participant_started"@);
    reveal_strlit("input_delivery_not_submitted");
    assert("input_delivery_not_submitted"@.len() == 28);
    assert("input_delivery_not_submitted"@ != "participant_started"@);
    reveal_strlit("agent_launch_submitted");
    assert("agent_launch_submitted"@.len() == 22);
    assert("agent_launch_submitted"@ != "participant_started"@);
    reveal_strlit("agent_launched");
    assert("agent_launched"@.len() == 14);
    assert("agent_launched"@ != "participant_started"@);
    reveal_strlit("prompt_submitted");
    assert("prompt_submitted"@.len() == 16);
    assert("prompt_submitted"@ != "participant_started"@);
    reveal_strlit("node_prompt_sent");
    assert("node_prompt_sent"@.len() == 16);
    assert("node_prompt_sent"@ != "participant_started"@);
    reveal_strlit("participant_message_submitted");
    assert("participant_message_submitted"@.len() == 29);
    assert("participant_message_submitted"@ != "participant_started"@);
    let value = started_event(binding, limit).payload;
    reveal_strlit("binding");
    reveal_strlit("stop_attempt_limit");
    assert("binding"@.len() == 7);
    assert("stop_attempt_limit"@.len() == 18);
    let f0 = no_fields();
    let f1 = f0.push(("binding"@, binding.json()));
    let f2 = f1.push(("stop_attempt_limit"@, JsonView::Unsigned(limit as u64)));
    let fields = f2;
    assert(value == JsonView::Record(fields));
    assert(distinct_keys(fields));
    assert(lookup(fields, "binding"@) == Some(binding.json())) by {
        lemma_lookup_push(f1, "stop_attempt_limit"@, JsonView::Unsigned(limit as u64), "binding"@);
        lemma_lookup_push(f0, "binding"@, binding.json(), "binding"@);
    }
    lemma_ordered_field(fields, "binding"@);
    assert(lookup(fields, "stop_attempt_limit"@) == Some(JsonView::Unsigned(limit as u64))) by {
        lemma_lookup_push(
            f1,
            "stop_attempt_limit"@,
            JsonView::Unsigned(limit as u64),
            "stop_attempt_limit"@,
        );
    }
    lemma_ordered_field(fields, "stop_attempt_limit"@);
    lemma_participant_binding_reads_back(binding);
}

/// An agent that is bound to its session is found bound to it after a restart.
pub proof fn lemma_participant_binding_survives(
    state: DriverStateView,
    request: BindRequestView,
    seq: u64,
    at_ms: u64,
)
    requires
        state.participant_bindings.dom().contains(
            AllocationKeyView {
                activation_id: request.activation_id,
                generation: request.allocation_generation,
            },
        ),
    ensures
        state.replayed(logged(bound_event(request), seq, at_ms)) == Ok::<DriverStateView, ReplayFault>(
            with_bound(state, request),
        ),
{
    reveal_strlit("participant_bound");
    assert("participant_bound"@.len() == 17);
    reveal_strlit("driver_pane_owned");
    assert("driver_pane_owned"@.len() == 17);
    assert("driver_pane_owned"@[0] != "participant_bound"@[0]);
    assert("driver_pane_owned"@ != "participant_bound"@);
    reveal_strlit("driver_pane_released");
    assert("driver_pane_released"@.len() == 20);
    assert("driver_pane_released"@ != "participant_bound"@);
    reveal_strlit("pipe_capture_intent");
    assert("pipe_capture_intent"@.len() == 19);
    assert("pipe_capture_intent"@ != "participant_bound"@);
    reveal_strlit("pipe_capture_started");
    assert("pipe_capture_started"@.len() == 20);
    assert("pipe_capture_started"@ != "participant_bound"@);
    reveal_strlit("flow_revision_available");
    assert("flow_revision_available"@.len() == 23);
    assert("flow_revision_available"@ != "participant_bound"@);
    reveal_strlit("tmux_bound");
    assert("tmux_bound"@.len() == 10);
    assert("tmux_bound"@ != "participant_bound"@);
    reveal_strlit("tmux_pane_allocation_intent");
    assert("tmux_pane_allocation_intent"@.len() == 27);
    assert("tmux_pane_allocation_intent"@ != "participant_bound"@);
    reveal_strlit("tmux_pane_allocated");
    assert("tmux_pane_allocated"@.len() == 19);
    assert("tmux_pane_allocated"@ != "participant_bound"@);
    reveal_strlit("tmux_pane_cleanup_intent");
    assert("tmux_pane_cleanup_intent"@.len() == 24);
    assert("tmux_pane_cleanup_intent"@ != "participant_bound"@);
    reveal_strlit("tmux_pane_cleanup_receipt");
    assert("tmux_pane_cleanup_receipt"@.len() == 25);
    assert("tmux_pane_cleanup_receipt"@ != "participant_bound"@);
    reveal_strlit("tmux_panes_released");
    assert("tmux_panes_released"@.len() == 19);
    assert("tmux_panes_released"@ != "participant_bound"@);
    reveal_strlit("input_delivery_started");
    assert("input_delivery_started"@.len() == 22);
    assert("input_delivery_started"@ != "participant_bound"@);
    reveal_strlit("input_delivery_not_submitted");
    assert("input_delivery_not_submitted"@.len() == 28);
    assert("input_delivery_not_submitted"@ != "participant_bound"@);
    reveal_strlit("agent_launch_submitted");
    assert("agent_launch_submitted"@.len() == 22);
    assert("agent_launch_submitted"@ != "participant_bound"@);
    reveal_strlit("agent_launched");
    assert("agent_launched"@.len() == 14);
    assert("agent_launched"@ != "participant_bound"@);
    reveal_strlit("prompt_submitted");
    assert("prompt_submitted"@.len() == 16);
    assert("prompt_submitted"@ != "participant_bound"@);
    reveal_strlit("node_prompt_sent");
    assert("node_prompt_sent"@.len() == 16);
    assert("node_prompt_sent"@ != "participant_bound"@);
    reveal_strlit("participant_message_submitted");
    assert("participant_message_submitted"@.len() == 29);
    assert("participant_message_submitted"@ != "participant_bound"@);
    reveal_strlit("participant_started");
    assert("participant_started"@.len() == 19);
    assert("participant_started"@ != "participant_bound"@);
    let value = bound_event(request).payload;
    reveal_strlit("activation_id");
    reveal_strlit("allocation_generation");
    reveal_strlit("native_session_id");
    reveal_strlit("platform");
    reveal_strlit("source");
    assert("activation_id"@.len() == 13);
    assert("allocation_generation"@.len() == 21);
    assert("native_session_id"@.len() == 17);
    assert("platform"@.len() == 8);
    assert("source"@.len() == 6);
    let f0 = no_fields();
    let f1 = f0.push(("activation_id"@, JsonView::Text(request.activation_id)));
    let f2 = f1.push(("allocation_generation"@, JsonView::Unsigned(request.allocation_generation)));
    let f3 = f2.push(("native_session_id"@, JsonView::Text(request.native_session_id)));
    let f4 = f3.push(("platform"@, JsonView::Text(request.platform)));
    let f5 = f4.push(("source"@, JsonView::Text(request.source)));
    let fields = f5;
    assert(value == JsonView::Record(fields));
    assert(distinct_keys(fields));
    assert(lookup(fields, "activation_id"@) == Some(JsonView::Text(request.activation_id))) by {
        lemma_lookup_push(f4, "source"@, JsonView::Text(request.source), "activation_id"@);
        lemma_lookup_push(f3, "platform"@, JsonView::Text(request.platform), "activation_id"@);
        lemma_lookup_push(
            f2,
            "native_session_id"@,
            JsonView::Text(request.native_session_id),
            "activation_id"@,
        );
        lemma_lookup_push(
            f1,
            "allocation_generation"@,
            JsonView::Unsigned(request.allocation_generation),
            "activation_id"@,
        );
        lemma_lookup_push(
            f0,
            "activation_id"@,
            JsonView::Text(request.activation_id),
            "activation_id"@,
        );
    }
    lemma_ordered_field(fields, "activation_id"@);
    assert(
        lookup(fields, "allocation_generation"@) == Some(
            JsonView::Unsigned(request.allocation_generation),
        )
    ) by {
        lemma_lookup_push(f4, "source"@, JsonView::Text(request.source), "allocation_generation"@);
        lemma_lookup_push(
            f3,
            "platform"@,
            JsonView::Text(request.platform),
            "allocation_generation"@,
        );
        lemma_lookup_push(
            f2,
            "native_session_id"@,
            JsonView::Text(request.native_session_id),
            "allocation_generation"@,
        );
        lemma_lookup_push(
            f1,
            "allocation_generation"@,
            JsonView::Unsigned(request.allocation_generation),
            "allocation_generation"@,
        );
    }
    lemma_ordered_field(fields, "allocation_generation"@);
    assert(
        lookup(fields, "native_session_id"@) == Some(JsonView::Text(request.native_session_id))
    ) by {
        lemma_lookup_push(f4, "source"@, JsonView::Text(request.source), "native_session_id"@);
        lemma_lookup_push(f3, "platform"@, JsonView::Text(request.platform), "native_session_id"@);
        lemma_lookup_push(
            f2,
            "native_session_id"@,
            JsonView::Text(request.native_session_id),
            "native_session_id"@,
        );
    }
    lemma_ordered_field(fields, "native_session_id"@);
    assert(lookup(fields, "platform"@) == Some(JsonView::Text(request.platform))) by {
        lemma_lookup_push(f4, "source"@, JsonView::Text(request.source), "platform"@);
        lemma_lookup_push(f3, "platform"@, JsonView::Text(request.platform), "platform"@);
    }
    lemma_ordered_field(fields, "platform"@);
    assert(lookup(fields, "source"@) == Some(JsonView::Text(request.source))) by {
        lemma_lookup_push(f4, "source"@, JsonView::Text(request.source), "source"@);
    }
    lemma_ordered_field(fields, "source"@);
}

proof fn lemma_pane_tells_generation(pane: StoredPaneView)
    ensures
        unsigned_field(ordered(pane.json()), "allocation_generation"@) == Some(
            pane.allocation_generation,
        ),
{
    let value = pane.json();
    reveal_strlit("pane_id");
    reveal_strlit("session_id");
    reveal_strlit("window_id");
    reveal_strlit("window_name");
    reveal_strlit("allocation_generation");
    assert("pane_id"@.len() == 7);
    assert("session_id"@.len() == 10);
    assert("window_id"@.len() == 9);
    assert("window_name"@.len() == 11);
    assert("allocation_generation"@.len() == 21);
    let f0 = no_fields();
    let f1 = f0.push(("pane_id"@, JsonView::Text(pane.pane_id)));
    let f2 = f1.push(("session_id"@, JsonView::Text(pane.session_id)));
    let f3 = f2.push(("window_id"@, JsonView::Text(pane.window_id)));
    let f4 = f3.push(("window_name"@, JsonView::Text(pane.window_name)));
    let f5 = f4.push(("allocation_generation"@, JsonView::Unsigned(pane.allocation_generation)));
    let fields = f5;
    assert(value == JsonView::Record(fields));
    assert(distinct_keys(fields));
    assert(lookup(fields, "pane_id"@) == Some(JsonView::Text(pane.pane_id))) by {
        lemma_lookup_push(
            f4,
            "allocation_generation"@,
            JsonView::Unsigned(pane.allocation_generation),
            "pane_id"@,
        );
        lemma_lookup_push(f3, "window_name"@, JsonView::Text(pane.window_name), "pane_id"@);
        lemma_lookup_push(f2, "window_id"@, JsonView::Text(pane.window_id), "pane_id"@);
        lemma_lookup_push(f1, "session_id"@, JsonView::Text(pane.session_id), "pane_id"@);
        lemma_lookup_push(f0, "pane_id"@, JsonView::Text(pane.pane_id), "pane_id"@);
    }
    lemma_ordered_field(fields, "pane_id"@);
    assert(lookup(fields, "session_id"@) == Some(JsonView::Text(pane.session_id))) by {
        lemma_lookup_push(
            f4,
            "allocation_generation"@,
            JsonView::Unsigned(pane.allocation_generation),
            "session_id"@,
        );
        lemma_lookup_push(f3, "window_name"@, JsonView::Text(pane.window_name), "session_id"@);
        lemma_lookup_push(f2, "window_id"@, JsonView::Text(pane.window_id), "session_id"@);
        lemma_lookup_push(f1, "session_id"@, JsonView::Text(pane.session_id), "session_id"@);
    }
    lemma_ordered_field(fields, "session_id"@);
    assert(lookup(fields, "window_id"@) == Some(JsonView::Text(pane.window_id))) by {
        lemma_lookup_push(
            f4,
            "allocation_generation"@,
            JsonView::Unsigned(pane.allocation_generation),
            "window_id"@,
        );
        lemma_lookup_push(f3, "window_name"@, JsonView::Text(pane.window_name), "window_id"@);
        lemma_lookup_push(f2, "window_id"@, JsonView::Text(pane.window_id), "window_id"@);
    }
    lemma_ordered_field(fields, "window_id"@);
    assert(lookup(fields, "window_name"@) == Some(JsonView::Text(pane.window_name))) by {
        lemma_lookup_push(
            f4,
            "allocation_generation"@,
            JsonView::Unsigned(pane.allocation_generation),
            "window_name"@,
        );
        lemma_lookup_push(f3, "window_name"@, JsonView::Text(pane.window_name), "window_name"@);
    }
    lemma_ordered_field(fields, "window_name"@);
    assert(
        lookup(fields, "allocation_generation"@) == Some(
            JsonView::Unsigned(pane.allocation_generation),
        )
    ) by {
        lemma_lookup_push(
            f4,
            "allocation_generation"@,
            JsonView::Unsigned(pane.allocation_generation),
            "allocation_generation"@,
        );
    }
    lemma_ordered_field(fields, "allocation_generation"@);
}

/// A lock that may be used is found usable after a restart.
pub proof fn lemma_revision_survives(
    state: DriverStateView,
    lock_id: Seq<char>,
    content_hash: Seq<char>,
    review_id: Seq<char>,
    seq: u64,
    at_ms: u64,
)
    ensures
        state.replayed(
            logged(revision_available_event(lock_id, content_hash, review_id), seq, at_ms),
        ) == Ok::<DriverStateView, ReplayFault>(
            DriverStateView {
                revisions: state.revisions.insert(lock_id, revision_file(content_hash)),
                ..state
            },
        ),
{
    reveal_strlit("flow_revision_available");
    assert("flow_revision_available"@.len() == 23);
    reveal_strlit("driver_pane_owned");
    assert("driver_pane_owned"@.len() == 17);
    assert("driver_pane_owned"@ != "flow_revision_available"@);
    reveal_strlit("driver_pane_released");
    assert("driver_pane_released"@.len() == 20);
    assert("driver_pane_released"@ != "flow_revision_available"@);
    reveal_strlit("pipe_capture_intent");
    assert("pipe_capture_intent"@.len() == 19);
    assert("pipe_capture_intent"@ != "flow_revision_available"@);
    reveal_strlit("pipe_capture_started");
    assert("pipe_capture_started"@.len() == 20);
    assert("pipe_capture_started"@ != "flow_revision_available"@);
    let value = revision_available_event(lock_id, content_hash, review_id).payload;
    reveal_strlit("lock_id");
    reveal_strlit("content_hash");
    reveal_strlit("revision_file");
    reveal_strlit("review_id");
    assert("lock_id"@.len() == 7);
    assert("content_hash"@.len() == 12);
    assert("revision_file"@.len() == 13);
    assert("review_id"@.len() == 9);
    let f0 = no_fields();
    let f1 = f0.push(("lock_id"@, JsonView::Text(lock_id)));
    let f2 = f1.push(("content_hash"@, JsonView::Text(content_hash)));
    let f3 = f2.push(("revision_file"@, JsonView::Text(revision_file(content_hash))));
    let f4 = f3.push(("review_id"@, JsonView::Text(review_id)));
    let fields = f4;
    assert(value == JsonView::Record(fields));
    assert(distinct_keys(fields));
    assert(lookup(fields, "lock_id"@) == Some(JsonView::Text(lock_id))) by {
        lemma_lookup_push(f3, "review_id"@, JsonView::Text(review_id), "lock_id"@);
        lemma_lookup_push(
            f2,
            "revision_file"@,
            JsonView::Text(revision_file(content_hash)),
            "lock_id"@,
        );
        lemma_lookup_push(f1, "content_hash"@, JsonView::Text(content_hash), "lock_id"@);
        lemma_lookup_push(f0, "lock_id"@, JsonView::Text(lock_id), "lock_id"@);
    }
    lemma_ordered_field(fields, "lock_id"@);
    assert(lookup(fields, "content_hash"@) == Some(JsonView::Text(content_hash))) by {
        lemma_lookup_push(f3, "review_id"@, JsonView::Text(review_id), "content_hash"@);
        lemma_lookup_push(
            f2,
            "revision_file"@,
            JsonView::Text(revision_file(content_hash)),
            "content_hash"@,
        );
        lemma_lookup_push(f1, "content_hash"@, JsonView::Text(content_hash), "content_hash"@);
    }
    lemma_ordered_field(fields, "content_hash"@);
    assert(
        lookup(fields, "revision_file"@) == Some(JsonView::Text(revision_file(content_hash)))
    ) by {
        lemma_lookup_push(f3, "review_id"@, JsonView::Text(review_id), "revision_file"@);
        lemma_lookup_push(
            f2,
            "revision_file"@,
            JsonView::Text(revision_file(content_hash)),
            "revision_file"@,
        );
    }
    lemma_ordered_field(fields, "revision_file"@);
    assert(lookup(fields, "review_id"@) == Some(JsonView::Text(review_id))) by {
        lemma_lookup_push(f3, "review_id"@, JsonView::Text(review_id), "review_id"@);
    }
    lemma_ordered_field(fields, "review_id"@);
    lemma_revision_files_stay(content_hash);
}

/// The file of a lock lies below the directory of its run, whatever its content is named.
pub proof fn lemma_revision_files_stay(content_hash: Seq<char>)
    ensures
        stays_below(revision_file(content_hash)),
{
    reveal_strlit("driver/revisions");
    reveal_strlit("driver");
    reveal_strlit("revisions");
    reveal_strlit("/");
    reveal_strlit(".json");
    reveal_strlit(".");
    reveal_strlit("..");
    let name = file_segment(content_hash) + ".json"@;
    lemma_file_segments_stay(content_hash);
    assert(!name.contains('/')) by {
        if name.contains('/') {
            let k = choose|k: int| 0 <= k < name.len() && name[k] == '/';
            if k < file_segment(content_hash).len() {
                assert(file_segment(content_hash)[k] == '/');
            } else {
                assert(".json"@[k - file_segment(content_hash).len()] == '/');
            }
        }
    }
    let path = revision_file(content_hash);
    assert("driver/revisions"@ =~= "driver"@.push('/') + "revisions"@);
    assert(path =~= REVISIONS_DIR@.push('/') + name);
    lemma_whole_piece("driver"@, '/');
    lemma_piece_behind("driver"@, "revisions"@, '/');
    lemma_piece_behind(REVISIONS_DIR@, name, '/');
    let parts = pieces(path, '/');
    assert(parts =~= seq!["driver"@, "revisions"@, name]);
    reveal_with_fuel(part_components, 4);
    assert(path[0] == 'd');
    assert("driver"@.len() == 6);
    assert("revisions"@.len() == 9);
    assert("."@.len() == 1);
    assert(".."@.len() == 2);
    assert(name.len() >= 5);
    assert(path_components(path) =~= seq![
        ComponentView::Normal("driver"@),
        ComponentView::Normal("revisions"@),
        ComponentView::Normal(name),
    ]);
}

pub proof fn lemma_texts_are_told(ids: Seq<Seq<char>>)
    ensures
        ({
            let told = ordered(text_list(ids));
            told is List && texts_among(told->List_0) == ids
        }),
    decreases ids.len(),
{
    let told = ordered(text_list(ids));
    let items = told->List_0;
    assert(items.len() == ids.len());
    if ids.len() == 0 {
        assert(items =~= Seq::<JsonView>::empty());
        assert(ids =~= Seq::<Seq<char>>::empty());
    } else {
        lemma_texts_are_told(ids.drop_last());
        let front = ordered(text_list(ids.drop_last()))->List_0;
        assert forall|i: int| 0 <= i < items.len() implies #[trigger] items[i] == JsonView::Text(
            ids[i],
        ) by {
            assert(text_list(ids)->List_0[i] == JsonView::Text(ids[i]));
            assert(ordered(JsonView::Text(ids[i])) == JsonView::Text(ids[i]));
        }
        assert forall|i: int| 0 <= i < front.len() implies #[trigger] front[i] == JsonView::Text(
            ids[i],
        ) by {
            assert(text_list(ids.drop_last())->List_0[i] == JsonView::Text(ids[i]));
            assert(ordered(JsonView::Text(ids[i])) == JsonView::Text(ids[i]));
        }
        assert(items.drop_last() =~= front);
        assert(items.last() == JsonView::Text(ids.last()));
        assert(ids =~= ids.drop_last().push(ids.last()));
    }
}

proof fn lemma_given_up_alike(a: DriverStateView, b: DriverStateView, ids: Seq<Seq<char>>)
    requires
        a.tmux == b.tmux,
        a.pipe_captures == b.pipe_captures,
        a.pending_pipe_captures == b.pending_pipe_captures,
    ensures
        a.all_released(ids).tmux == b.all_let_go(ids).tmux,
        a.all_released(ids).pipe_captures == b.all_let_go(ids).pipe_captures,
        a.all_released(ids).pending_pipe_captures == b.all_let_go(ids).pending_pipe_captures,
    decreases ids.len(),
{
    if ids.len() > 0 {
        lemma_given_up_alike(a, b, ids.drop_last());
    }
}

/// What is written down of panes that were given up is read as it was written.
pub proof fn lemma_release_is_read(
    state: DriverStateView,
    activation_ids: Seq<Seq<char>>,
    barriers: Seq<JsonView>,
    seq: u64,
    at_ms: u64,
)
    ensures
        ({
            let payload = ordered(release_event(activation_ids, barriers).payload);
            &&& field(payload, "activation_ids"@) == Some(ordered(text_list(activation_ids)))
            &&& field(payload, "delivery_barriers"@) == Some(ordered(JsonView::List(barriers)))
            &&& state.replayed(logged(release_event(activation_ids, barriers), seq, at_ms)) == Ok::<
                DriverStateView,
                ReplayFault,
            >(state.panes_released(payload, seq))
        }),
{
    reveal_strlit("tmux_panes_released");
    assert("tmux_panes_released"@.len() == 19);
    reveal_strlit("driver_pane_owned");
    assert("driver_pane_owned"@.len() == 17);
    assert("driver_pane_owned"@ != "tmux_panes_released"@);
    reveal_strlit("driver_pane_released");
    assert("driver_pane_released"@.len() == 20);
    assert("driver_pane_released"@ != "tmux_panes_released"@);
    reveal_strlit("pipe_capture_intent");
    assert("pipe_capture_intent"@.len() == 19);
    assert("pipe_capture_intent"@[0] != "tmux_panes_released"@[0]);
    assert("pipe_capture_intent"@ != "tmux_panes_released"@);
    reveal_strlit("pipe_capture_started");
    assert("pipe_capture_started"@.len() == 20);
    assert("pipe_capture_started"@ != "tmux_panes_released"@);
    reveal_strlit("flow_revision_available");
    assert("flow_revision_available"@.len() == 23);
    assert("flow_revision_available"@ != "tmux_panes_released"@);
    reveal_strlit("tmux_bound");
    assert("tmux_bound"@.len() == 10);
    assert("tmux_bound"@ != "tmux_panes_released"@);
    reveal_strlit("tmux_pane_allocation_intent");
    assert("tmux_pane_allocation_intent"@.len() == 27);
    assert("tmux_pane_allocation_intent"@ != "tmux_panes_released"@);
    reveal_strlit("tmux_pane_allocated");
    assert("tmux_pane_allocated"@.len() == 19);
    assert("tmux_pane_allocated"@[9] != "tmux_panes_released"@[9]);
    assert("tmux_pane_allocated"@ != "tmux_panes_released"@);
    reveal_strlit("tmux_pane_cleanup_intent");
    assert("tmux_pane_cleanup_intent"@.len() == 24);
    assert("tmux_pane_cleanup_intent"@ != "tmux_panes_released"@);
    reveal_strlit("tmux_pane_cleanup_receipt");
    assert("tmux_pane_cleanup_receipt"@.len() == 25);
    assert("tmux_pane_cleanup_receipt"@ != "tmux_panes_released"@);
    let value = release_event(activation_ids, barriers).payload;
    reveal_strlit("activation_ids");
    reveal_strlit("delivery_barriers");
    assert("activation_ids"@.len() == 14);
    assert("delivery_barriers"@.len() == 17);
    let f0 = no_fields();
    let f1 = f0.push(("activation_ids"@, text_list(activation_ids)));
    let f2 = f1.push(("delivery_barriers"@, JsonView::List(barriers)));
    let fields = f2;
    assert(value == JsonView::Record(fields));
    assert(distinct_keys(fields));
    assert(lookup(fields, "activation_ids"@) == Some(text_list(activation_ids))) by {
        lemma_lookup_push(f1, "delivery_barriers"@, JsonView::List(barriers), "activation_ids"@);
        lemma_lookup_push(f0, "activation_ids"@, text_list(activation_ids), "activation_ids"@);
    }
    lemma_ordered_field(fields, "activation_ids"@);
    assert(lookup(fields, "delivery_barriers"@) == Some(JsonView::List(barriers))) by {
        lemma_lookup_push(f1, "delivery_barriers"@, JsonView::List(barriers), "delivery_barriers"@);
    }
    lemma_ordered_field(fields, "delivery_barriers"@);
}

/// Panes that were given up are found given up after a restart, and so is what ran on them.
pub proof fn lemma_release_survives(
    state: DriverStateView,
    activation_ids: Seq<Seq<char>>,
    barriers: Seq<JsonView>,
    seq: u64,
    at_ms: u64,
)
    requires
        state.tmux is Some,
    ensures
        state.replayed(logged(release_event(activation_ids, barriers), seq, at_ms)) matches Ok(
            after,
        ) && after.tmux == state.giving_up(activation_ids, barriers, seq).tmux
            && after.pipe_captures == state.giving_up(activation_ids, barriers, seq).pipe_captures
            && after.pending_pipe_captures == state.giving_up(
            activation_ids,
            barriers,
            seq,
        ).pending_pipe_captures,
{
    lemma_release_is_read(state, activation_ids, barriers, seq, at_ms);
    lemma_texts_are_told(activation_ids);
    let barred = DriverStateView {
        deliveries: barriers_up(state.deliveries, barriers, seq),
        ..state
    };
    lemma_given_up_alike(state, barred, activation_ids);
}

} // verus!
