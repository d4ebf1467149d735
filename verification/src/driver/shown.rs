//! What is shown of a run, field by field.
use vstd::prelude::*;

use crate::flow::model::NodeDriver;
use crate::json::{distinct_keys, field, lemma_field_at, option_text, JsonView};

use super::actuation::{cannot_work, DriverActuationView};
use super::cleanup::cleanup_report;
use super::delivery::{
    resolution_report, AmbiguousDeliveryView, ResolutionView, SubmittedDeliveryView,
};
use super::lifecycle::{no_panes, told_panes, ActivationView};
use super::read_model::{
    activation_report, cause_report, context_report, mode_or_null, own_context_report,
    routes_report, small_or_null, snapshot_report, status_report, stop_valid_report,
    terminal_report, whole_context, FlowApplicationView,
};
use super::records::{StoredPaneView, TmuxPaneCleanupIntentView};
use super::replay::DriverTmuxStateView;
use super::request::optional_number;
use super::wire::{ActivationStatus, RunMode, RunStatus};

verus! {

broadcast use vstd::string::group_string_axioms;

/// The context of a run is told under its id.
pub proof fn lemma_context_report_tells(run_id: Seq<char>, context: JsonView)
    ensures
        ({
            let told = context_report(run_id, context);
            &&& field(told, "ok"@) == Some(JsonView::Bool(true))
            &&& field(told, "run_id"@) == Some(JsonView::Text(run_id))
            &&& field(told, "context"@) == Some(context)
        }),
{
    let fields = context_report(run_id, context)->Record_0;
    reveal_strlit("ok");
    reveal_strlit("run_id");
    reveal_strlit("context");
    assert("ok"@.len() == 2);
    assert("run_id"@.len() == 6);
    assert("context"@.len() == 7);
    assert(distinct_keys(fields));
    lemma_field_at(fields, 0);
    lemma_field_at(fields, 1);
    lemma_field_at(fields, 2);
}

/// An agent is told its own context, and no id of a run.
pub proof fn lemma_own_context_report_tells(context: JsonView)
    ensures
        ({
            let told = own_context_report(context);
            &&& field(told, "ok"@) == Some(JsonView::Bool(true))
            &&& field(told, "context"@) == Some(context)
        }),
{
    let fields = own_context_report(context)->Record_0;
    reveal_strlit("ok");
    reveal_strlit("context");
    assert("ok"@.len() == 2);
    assert("context"@.len() == 7);
    assert(distinct_keys(fields));
    lemma_field_at(fields, 0);
    lemma_field_at(fields, 1);
}

/// The status of a run is told with its reason, its mode, its limits and its context.
pub proof fn lemma_status_report_tells(
    run_id: Seq<char>,
    status: RunStatus,
    run_status_reason: Option<Seq<char>>,
    run_mode: Option<RunMode>,
    initial_activation_limit: Option<u64>,
    activation_limit: Option<u64>,
    stop_attempt_limit: Option<u32>,
    activations_used: u64,
    context: JsonView,
)
    ensures
        ({
            let told = status_report(
                run_id,
                status,
                run_status_reason,
                run_mode,
                initial_activation_limit,
                activation_limit,
                stop_attempt_limit,
                activations_used,
                context,
            );
            &&& field(told, "ok"@) == Some(JsonView::Bool(true))
            &&& field(told, "run_id"@) == Some(JsonView::Text(run_id))
            &&& field(told, "run_status"@) == Some(JsonView::Text(status.name()))
            &&& field(told, "run_status_reason"@) == Some(option_text(run_status_reason))
            &&& field(told, "run_mode"@) == Some(mode_or_null(run_mode))
            &&& field(told, "initial_activation_limit"@) == Some(
                    optional_number(initial_activation_limit),
                )
            &&& field(told, "activation_limit"@) == Some(optional_number(activation_limit))
            &&& field(told, "stop_attempt_limit"@) == Some(small_or_null(stop_attempt_limit))
            &&& field(told, "activations_used"@) == Some(JsonView::Unsigned(activations_used))
            &&& field(told, "context"@) == Some(context)
        }),
{
    let fields = status_report(
        run_id,
        status,
        run_status_reason,
        run_mode,
        initial_activation_limit,
        activation_limit,
        stop_attempt_limit,
        activations_used,
        context,
    )->Record_0;
    reveal_strlit("ok");
    reveal_strlit("run_id");
    reveal_strlit("run_status");
    reveal_strlit("run_status_reason");
    reveal_strlit("run_mode");
    reveal_strlit("initial_activation_limit");
    reveal_strlit("activation_limit");
    reveal_strlit("stop_attempt_limit");
    reveal_strlit("activations_used");
    reveal_strlit("context");
    assert("ok"@.len() == 2);
    assert("run_id"@.len() == 6);
    assert("context"@.len() == 7);
    assert("run_mode"@.len() == 8);
    assert("run_status"@.len() == 10);
    assert("activation_limit"@.len() == 16);
    assert("activations_used"@.len() == 16);
    assert("activation_limit"@[10] == '_');
    assert("activations_used"@[10] == 's');
    assert("run_status_reason"@.len() == 17);
    assert("stop_attempt_limit"@.len() == 18);
    assert("initial_activation_limit"@.len() == 24);
    assert(distinct_keys(fields));
    lemma_field_at(fields, 0);
    lemma_field_at(fields, 1);
    lemma_field_at(fields, 2);
    lemma_field_at(fields, 3);
    lemma_field_at(fields, 4);
    lemma_field_at(fields, 5);
    lemma_field_at(fields, 6);
    lemma_field_at(fields, 7);
    lemma_field_at(fields, 8);
    lemma_field_at(fields, 9);
}

/// The cause is told beside the run and its status.
pub proof fn lemma_cause_report_tells(run_id: Seq<char>, status: RunStatus, cause: Seq<char>)
    ensures
        ({
            let told = cause_report(run_id, status, cause);
            &&& field(told, "ok"@) == Some(JsonView::Bool(true))
            &&& field(told, "run_id"@) == Some(JsonView::Text(run_id))
            &&& field(told, "run_status"@) == Some(JsonView::Text(status.name()))
            &&& field(told, "cause"@) == Some(JsonView::Text(cause))
        }),
{
    let fields = cause_report(run_id, status, cause)->Record_0;
    reveal_strlit("ok");
    reveal_strlit("run_id");
    reveal_strlit("run_status");
    reveal_strlit("cause");
    assert("ok"@.len() == 2);
    assert("cause"@.len() == 5);
    assert("run_id"@.len() == 6);
    assert("run_status"@.len() == 10);
    assert(distinct_keys(fields));
    lemma_field_at(fields, 0);
    lemma_field_at(fields, 1);
    lemma_field_at(fields, 2);
    lemma_field_at(fields, 3);
}

/// A stop that is valid is told as such, with nothing missing.
pub proof fn lemma_stop_valid_report_tells(run_id: Seq<char>, activation_id: Seq<char>)
    ensures
        ({
            let told = stop_valid_report(run_id, activation_id);
            &&& field(told, "ok"@) == Some(JsonView::Bool(true))
            &&& field(told, "run_id"@) == Some(JsonView::Text(run_id))
            &&& field(told, "activation_id"@) == Some(JsonView::Text(activation_id))
            &&& field(told, "valid"@) == Some(JsonView::Bool(true))
            &&& field(told, "stop_valid"@) == Some(JsonView::Bool(true))
            &&& field(told, "missing"@) == Some(JsonView::List(Seq::empty()))
        }),
{
    let fields = stop_valid_report(run_id, activation_id)->Record_0;
    reveal_strlit("ok");
    reveal_strlit("run_id");
    reveal_strlit("activation_id");
    reveal_strlit("valid");
    reveal_strlit("stop_valid");
    reveal_strlit("missing");
    assert("ok"@.len() == 2);
    assert("valid"@.len() == 5);
    assert("run_id"@.len() == 6);
    assert("missing"@.len() == 7);
    assert("stop_valid"@.len() == 10);
    assert("activation_id"@.len() == 13);
    assert(distinct_keys(fields));
    lemma_field_at(fields, 0);
    lemma_field_at(fields, 1);
    lemma_field_at(fields, 2);
    lemma_field_at(fields, 3);
    lemma_field_at(fields, 4);
    lemma_field_at(fields, 5);
}

/// Routes are told beside the lock that they come from.
pub proof fn lemma_routes_report_tells(
    run_id: Seq<char>,
    lock_id: Seq<char>,
    content_hash: Seq<char>,
    source: Seq<char>,
    routes: JsonView,
)
    ensures
        ({
            let told = routes_report(run_id, lock_id, content_hash, source, routes);
            &&& field(told, "ok"@) == Some(JsonView::Bool(true))
            &&& field(told, "run_id"@) == Some(JsonView::Text(run_id))
            &&& field(told, "flow_lock_id"@) == Some(JsonView::Text(lock_id))
            &&& field(told, "lock_id"@) == Some(JsonView::Text(lock_id))
            &&& field(told, "content_hash"@) == Some(JsonView::Text(content_hash))
            &&& field(told, "source"@) == Some(JsonView::Text(source))
            &&& field(told, "routes"@) == Some(routes)
        }),
{
    let fields = routes_report(run_id, lock_id, content_hash, source, routes)->Record_0;
    reveal_strlit("ok");
    reveal_strlit("run_id");
    reveal_strlit("flow_lock_id");
    reveal_strlit("lock_id");
    reveal_strlit("content_hash");
    reveal_strlit("source");
    reveal_strlit("routes");
    assert("ok"@.len() == 2);
    assert("run_id"@.len() == 6);
    assert("source"@.len() == 6);
    assert("routes"@.len() == 6);
    assert("run_id"@[0] == 'r');
    assert("run_id"@[1] == 'u');
    assert("source"@[0] == 's');
    assert("source"@[1] == 'o');
    assert("routes"@[0] == 'r');
    assert("routes"@[1] == 'o');
    assert("lock_id"@.len() == 7);
    assert("flow_lock_id"@.len() == 12);
    assert("content_hash"@.len() == 12);
    assert("flow_lock_id"@[0] == 'f');
    assert("content_hash"@[0] == 'c');
    assert(distinct_keys(fields));
    lemma_field_at(fields, 0);
    lemma_field_at(fields, 1);
    lemma_field_at(fields, 2);
    lemma_field_at(fields, 3);
    lemma_field_at(fields, 4);
    lemma_field_at(fields, 5);
    lemma_field_at(fields, 6);
}

/// The dashboard is told as text, with the number of runs.
pub proof fn lemma_terminal_report_tells(dashboard: Seq<char>, run_count: u64)
    ensures
        ({
            let told = terminal_report(dashboard, run_count);
            &&& field(told, "ok"@) == Some(JsonView::Bool(true))
            &&& field(told, "format"@) == Some(JsonView::Text("terminal"@))
            &&& field(told, "dashboard"@) == Some(JsonView::Text(dashboard))
            &&& field(told, "run_count"@) == Some(JsonView::Unsigned(run_count))
        }),
{
    let fields = terminal_report(dashboard, run_count)->Record_0;
    reveal_strlit("ok");
    reveal_strlit("format");
    reveal_strlit("dashboard");
    reveal_strlit("run_count");
    assert("ok"@.len() == 2);
    assert("format"@.len() == 6);
    assert("dashboard"@.len() == 9);
    assert("run_count"@.len() == 9);
    assert("dashboard"@[0] == 'd');
    assert("run_count"@[0] == 'r');
    assert(distinct_keys(fields));
    lemma_field_at(fields, 0);
    lemma_field_at(fields, 1);
    lemma_field_at(fields, 2);
    lemma_field_at(fields, 3);
}

/// The snapshot is told as it is, with the number of runs.
pub proof fn lemma_snapshot_report_tells(run_count: u64, snapshot: JsonView)
    ensures
        ({
            let told = snapshot_report(run_count, snapshot);
            &&& field(told, "ok"@) == Some(JsonView::Bool(true))
            &&& field(told, "format"@) == Some(JsonView::Text("json"@))
            &&& field(told, "run_count"@) == Some(JsonView::Unsigned(run_count))
            &&& field(told, "snapshot"@) == Some(snapshot)
        }),
{
    let fields = snapshot_report(run_count, snapshot)->Record_0;
    reveal_strlit("ok");
    reveal_strlit("format");
    reveal_strlit("run_count");
    reveal_strlit("snapshot");
    assert("ok"@.len() == 2);
    assert("format"@.len() == 6);
    assert("snapshot"@.len() == 8);
    assert("run_count"@.len() == 9);
    assert(distinct_keys(fields));
    lemma_field_at(fields, 0);
    lemma_field_at(fields, 1);
    lemma_field_at(fields, 2);
    lemma_field_at(fields, 3);
}

/// An activation is told with its node, its key and trigger, its state and its participant.
pub proof fn lemma_activation_report_tells(
    activation_id: Seq<char>,
    node_id: Seq<char>,
    stable_key: JsonView,
    activation_generation: u64,
    trigger: JsonView,
    status: ActivationStatus,
    context: JsonView,
    participant: JsonView,
    stop_attempts: u32,
)
    ensures
        ({
            let told = activation_report(
                activation_id,
                node_id,
                stable_key,
                activation_generation,
                trigger,
                status,
                context,
                participant,
                stop_attempts,
            );
            &&& field(told, "activation_id"@) == Some(JsonView::Text(activation_id))
            &&& field(told, "node_id"@) == Some(JsonView::Text(node_id))
            &&& field(told, "stable_key"@) == Some(stable_key)
            &&& field(told, "activation_generation"@) == Some(
                    JsonView::Unsigned(activation_generation),
                )
            &&& field(told, "trigger"@) == Some(trigger)
            &&& field(told, "status"@) == Some(JsonView::Text(status.name()))
            &&& field(told, "context"@) == Some(context)
            &&& field(told, "participant"@) == Some(participant)
            &&& field(told, "stop_attempts"@) == Some(JsonView::Unsigned(stop_attempts as u64))
        }),
{
    let fields = activation_report(
        activation_id,
        node_id,
        stable_key,
        activation_generation,
        trigger,
        status,
        context,
        participant,
        stop_attempts,
    )->Record_0;
    reveal_strlit("activation_id");
    reveal_strlit("node_id");
    reveal_strlit("stable_key");
    reveal_strlit("activation_generation");
    reveal_strlit("trigger");
    reveal_strlit("status");
    reveal_strlit("context");
    reveal_strlit("participant");
    reveal_strlit("stop_attempts");
    assert("status"@.len() == 6);
    assert("node_id"@.len() == 7);
    assert("trigger"@.len() == 7);
    assert("context"@.len() == 7);
    assert("node_id"@[0] == 'n');
    assert("trigger"@[0] == 't');
    assert("context"@[0] == 'c');
    assert("stable_key"@.len() == 10);
    assert("participant"@.len() == 11);
    assert("activation_id"@.len() == 13);
    assert("stop_attempts"@.len() == 13);
    assert("activation_id"@[0] == 'a');
    assert("stop_attempts"@[0] == 's');
    assert("activation_generation"@.len() == 21);
    assert(distinct_keys(fields));
    lemma_field_at(fields, 0);
    lemma_field_at(fields, 1);
    lemma_field_at(fields, 2);
    lemma_field_at(fields, 3);
    lemma_field_at(fields, 4);
    lemma_field_at(fields, 5);
    lemma_field_at(fields, 6);
    lemma_field_at(fields, 7);
    lemma_field_at(fields, 8);
}

/// What is known of a run stands under the names of its parts, each under its own.
#[verifier::spinoff_prover]
#[verifier::rlimit(40)]
pub proof fn lemma_whole_context_tells(
    run_id: Seq<char>,
    status: RunStatus,
    run_status_reason: Option<Seq<char>>,
    run_mode: Option<RunMode>,
    initial_activation_limit: Option<u64>,
    activation_limit: Option<u64>,
    stop_attempt_limit: Option<u32>,
    activations_used: u64,
    event_cursor: u64,
    context_generation: u64,
    activations: JsonView,
    artifacts: JsonView,
    artifact_versions: JsonView,
    board: JsonView,
    board_versions: JsonView,
    effects: JsonView,
    flow_revisions: Seq<JsonView>,
    ambiguous_deliveries: Seq<JsonView>,
    run_assets: JsonView,
)
    ensures
        ({
            let told = whole_context(
                run_id,
                status,
                run_status_reason,
                run_mode,
                initial_activation_limit,
                activation_limit,
                stop_attempt_limit,
                activations_used,
                event_cursor,
                context_generation,
                activations,
                artifacts,
                artifact_versions,
                board,
                board_versions,
                effects,
                flow_revisions,
                ambiguous_deliveries,
                run_assets,
            );
            &&& field(told, "run_id"@) == Some(JsonView::Text(run_id))
            &&& field(told, "run_status"@) == Some(JsonView::Text(status.name()))
            &&& field(told, "run_status_reason"@) == Some(option_text(run_status_reason))
            &&& field(told, "run_mode"@) == Some(mode_or_null(run_mode))
            &&& field(told, "initial_activation_limit"@) == Some(
                    optional_number(initial_activation_limit),
                )
            &&& field(told, "activation_limit"@) == Some(optional_number(activation_limit))
            &&& field(told, "stop_attempt_limit"@) == Some(small_or_null(stop_attempt_limit))
            &&& field(told, "activations_used"@) == Some(JsonView::Unsigned(activations_used))
            &&& field(told, "event_cursor"@) == Some(JsonView::Unsigned(event_cursor))
            &&& field(told, "context_generation"@) == Some(JsonView::Unsigned(context_generation))
            &&& field(told, "activations"@) == Some(activations)
            &&& field(told, "artifacts"@) == Some(artifacts)
            &&& field(told, "artifact_versions"@) == Some(artifact_versions)
            &&& field(told, "board"@) == Some(board)
            &&& field(told, "board_versions"@) == Some(board_versions)
            &&& field(told, "effects"@) == Some(effects)
            &&& field(told, "flow_revisions"@) == Some(JsonView::List(flow_revisions))
            &&& field(told, "ambiguous_deliveries"@) == Some(JsonView::List(ambiguous_deliveries))
            &&& field(told, "run_assets"@) == Some(run_assets)
        }),
{
    let fields = whole_context(
        run_id,
        status,
        run_status_reason,
        run_mode,
        initial_activation_limit,
        activation_limit,
        stop_attempt_limit,
        activations_used,
        event_cursor,
        context_generation,
        activations,
        artifacts,
        artifact_versions,
        board,
        board_versions,
        effects,
        flow_revisions,
        ambiguous_deliveries,
        run_assets,
    )->Record_0;
    reveal_strlit("run_id");
    reveal_strlit("run_status");
    reveal_strlit("run_status_reason");
    reveal_strlit("run_mode");
    reveal_strlit("initial_activation_limit");
    reveal_strlit("activation_limit");
    reveal_strlit("stop_attempt_limit");
    reveal_strlit("activations_used");
    reveal_strlit("event_cursor");
    reveal_strlit("context_generation");
    reveal_strlit("activations");
    reveal_strlit("artifacts");
    reveal_strlit("artifact_versions");
    reveal_strlit("board");
    reveal_strlit("board_versions");
    reveal_strlit("effects");
    reveal_strlit("flow_revisions");
    reveal_strlit("ambiguous_deliveries");
    reveal_strlit("run_assets");
    assert("board"@.len() == 5);
    assert("run_id"@.len() == 6);
    assert("effects"@.len() == 7);
    assert("run_mode"@.len() == 8);
    assert("artifacts"@.len() == 9);
    assert("run_status"@.len() == 10);
    assert("run_assets"@.len() == 10);
    assert("run_status"@[4] == 's');
    assert("run_assets"@[4] == 'a');
    assert("activations"@.len() == 11);
    assert("event_cursor"@.len() == 12);
    assert("board_versions"@.len() == 14);
    assert("flow_revisions"@.len() == 14);
    assert("board_versions"@[0] == 'b');
    assert("flow_revisions"@[0] == 'f');
    assert("activation_limit"@.len() == 16);
    assert("activations_used"@.len() == 16);
    assert("activation_limit"@[10] == '_');
    assert("activations_used"@[10] == 's');
    assert("run_status_reason"@.len() == 17);
    assert("artifact_versions"@.len() == 17);
    assert("run_status_reason"@[0] == 'r');
    assert("artifact_versions"@[0] == 'a');
    assert("stop_attempt_limit"@.len() == 18);
    assert("context_generation"@.len() == 18);
    assert("stop_attempt_limit"@[0] == 's');
    assert("context_generation"@[0] == 'c');
    assert("ambiguous_deliveries"@.len() == 20);
    assert("initial_activation_limit"@.len() == 24);
    assert(distinct_keys(fields));
    lemma_field_at(fields, 0);
    lemma_field_at(fields, 1);
    lemma_field_at(fields, 2);
    lemma_field_at(fields, 3);
    lemma_field_at(fields, 4);
    lemma_field_at(fields, 5);
    lemma_field_at(fields, 6);
    lemma_field_at(fields, 7);
    lemma_field_at(fields, 8);
    lemma_field_at(fields, 9);
    lemma_field_at(fields, 10);
    lemma_field_at(fields, 11);
    lemma_field_at(fields, 12);
    lemma_field_at(fields, 13);
    lemma_field_at(fields, 14);
    lemma_field_at(fields, 15);
    lemma_field_at(fields, 16);
    lemma_field_at(fields, 17);
    lemma_field_at(fields, 18);
}

/// A lock that was applied is told with its identity, its mode and the event that applied it.
pub proof fn lemma_flow_application_tells(item: FlowApplicationView)
    ensures
        ({
            let told = item.json();
            &&& field(told, "revision_id"@) == Some(JsonView::Text(item.application_id))
            &&& field(told, "flow_lock_id"@) == Some(JsonView::Text(item.lock_id))
            &&& field(told, "content_hash"@) == Some(JsonView::Text(item.content_hash))
            &&& field(told, "mode"@) == Some(JsonView::Text(item.mode.name()))
            &&& field(told, "event_sequence"@) == Some(JsonView::Unsigned(item.event_sequence))
            &&& field(told, "review"@) == Some(option_text(item.review_id))
        }),
{
    let fields = item.json()->Record_0;
    reveal_strlit("revision_id");
    reveal_strlit("flow_lock_id");
    reveal_strlit("content_hash");
    reveal_strlit("mode");
    reveal_strlit("event_sequence");
    reveal_strlit("review");
    assert("mode"@.len() == 4);
    assert("review"@.len() == 6);
    assert("revision_id"@.len() == 11);
    assert("flow_lock_id"@.len() == 12);
    assert("content_hash"@.len() == 12);
    assert("flow_lock_id"@[0] == 'f');
    assert("content_hash"@[0] == 'c');
    assert("event_sequence"@.len() == 14);
    assert(distinct_keys(fields));
    lemma_field_at(fields, 0);
    lemma_field_at(fields, 1);
    lemma_field_at(fields, 2);
    lemma_field_at(fields, 3);
    lemma_field_at(fields, 4);
    lemma_field_at(fields, 5);
}

/// Without panes, what was done about agents is all that is told.
pub proof fn lemma_no_panes_tells(actuation: JsonView)
    ensures
        ({
            let told = no_panes(actuation);
            &&& field(told, "enabled"@) == Some(JsonView::Bool(false))
            &&& field(told, "panes"@) == Some(JsonView::List(Seq::empty()))
            &&& field(told, "actuation"@) == Some(actuation)
        }),
{
    let fields = no_panes(actuation)->Record_0;
    reveal_strlit("enabled");
    reveal_strlit("panes");
    reveal_strlit("actuation");
    assert("panes"@.len() == 5);
    assert("enabled"@.len() == 7);
    assert("actuation"@.len() == 9);
    assert(distinct_keys(fields));
    lemma_field_at(fields, 0);
    lemma_field_at(fields, 1);
    lemma_field_at(fields, 2);
}

/// Panes are told beside the window that they are in.
pub proof fn lemma_told_panes_tells(
    enabled: bool,
    tmux: Option<DriverTmuxStateView>,
    panes: Seq<JsonView>,
    actuation: JsonView,
)
    ensures
        ({
            let told = told_panes(enabled, tmux, panes, actuation);
            &&& field(told, "enabled"@) == Some(JsonView::Bool(enabled))
            &&& field(told, "session_id"@) == Some(
                    option_text( match tmux { Some(tmux) => Some(tmux.session_id), None => None, }, ),
                )
            &&& field(told, "window_id"@) == Some(
                    option_text( match tmux { Some(tmux) => Some(tmux.window_id), None => None, }, ),
                )
            &&& field(told, "window_name"@) == Some(
                    option_text( match tmux { Some(tmux) => Some(tmux.window_name), None => None, }, ),
                )
            &&& field(told, "panes"@) == Some(JsonView::List(panes))
            &&& field(told, "actuation"@) == Some(actuation)
        }),
{
    let fields = told_panes(enabled, tmux, panes, actuation)->Record_0;
    reveal_strlit("enabled");
    reveal_strlit("session_id");
    reveal_strlit("window_id");
    reveal_strlit("window_name");
    reveal_strlit("panes");
    reveal_strlit("actuation");
    assert("panes"@.len() == 5);
    assert("enabled"@.len() == 7);
    assert("window_id"@.len() == 9);
    assert("actuation"@.len() == 9);
    assert("window_id"@[0] == 'w');
    assert("actuation"@[0] == 'a');
    assert("session_id"@.len() == 10);
    assert("window_name"@.len() == 11);
    assert(distinct_keys(fields));
    lemma_field_at(fields, 0);
    lemma_field_at(fields, 1);
    lemma_field_at(fields, 2);
    lemma_field_at(fields, 3);
    lemma_field_at(fields, 4);
    lemma_field_at(fields, 5);
}

/// The end of a pane is told under its activation.
pub proof fn lemma_cleanup_report_tells(intent: TmuxPaneCleanupIntentView)
    ensures
        ({
            let told = cleanup_report(intent);
            &&& field(told, "activation_id"@) == Some(JsonView::Text(intent.activation_id))
            &&& field(told, "pane_id"@) == Some(JsonView::Text(intent.pane.pane_id))
            &&& field(told, "status"@) == Some(JsonView::Text("complete"@))
        }),
{
    let fields = cleanup_report(intent)->Record_0;
    reveal_strlit("activation_id");
    reveal_strlit("pane_id");
    reveal_strlit("status");
    assert("status"@.len() == 6);
    assert("pane_id"@.len() == 7);
    assert("activation_id"@.len() == 13);
    assert(distinct_keys(fields));
    lemma_field_at(fields, 0);
    lemma_field_at(fields, 1);
    lemma_field_at(fields, 2);
}

/// Input in doubt is told with its pane, its role, the event that began it and why.
pub proof fn lemma_ambiguous_delivery_tells(item: AmbiguousDeliveryView)
    ensures
        ({
            let told = item.json();
            &&& field(told, "activation_id"@) == Some(JsonView::Text(item.activation_id))
            &&& field(told, "pane_id"@) == Some(JsonView::Text(item.pane_id))
            &&& field(told, "allocation_generation"@) == Some(
                    JsonView::Unsigned(item.allocation_generation),
                )
            &&& field(told, "role"@) == Some(JsonView::Text(item.role))
            &&& field(told, "message_id"@) == Some(option_text(item.message_id))
            &&& field(told, "payload_hash"@) == Some(JsonView::Text(item.payload_hash))
            &&& field(told, "started_event_sequence"@) == Some(
                    JsonView::Unsigned(item.started_event_sequence),
                )
            &&& field(told, "reason"@) == Some(JsonView::Text(item.reason))
            &&& field(told, "status"@) == Some(JsonView::Text("ambiguous_delivery"@))
            &&& field(told, "resolution_required"@) == Some(JsonView::Bool(true))
        }),
{
    let fields = item.json()->Record_0;
    reveal_strlit("activation_id");
    reveal_strlit("pane_id");
    reveal_strlit("allocation_generation");
    reveal_strlit("role");
    reveal_strlit("message_id");
    reveal_strlit("payload_hash");
    reveal_strlit("started_event_sequence");
    reveal_strlit("reason");
    reveal_strlit("status");
    reveal_strlit("resolution_required");
    assert("role"@.len() == 4);
    assert("reason"@.len() == 6);
    assert("status"@.len() == 6);
    assert("reason"@[0] == 'r');
    assert("status"@[0] == 's');
    assert("pane_id"@.len() == 7);
    assert("message_id"@.len() == 10);
    assert("payload_hash"@.len() == 12);
    assert("activation_id"@.len() == 13);
    assert("resolution_required"@.len() == 19);
    assert("allocation_generation"@.len() == 21);
    assert("started_event_sequence"@.len() == 22);
    assert(distinct_keys(fields));
    lemma_field_at(fields, 0);
    lemma_field_at(fields, 1);
    lemma_field_at(fields, 2);
    lemma_field_at(fields, 3);
    lemma_field_at(fields, 4);
    lemma_field_at(fields, 5);
    lemma_field_at(fields, 6);
    lemma_field_at(fields, 7);
    lemma_field_at(fields, 8);
    lemma_field_at(fields, 9);
}

/// Input that arrived is told with its pane, its role and the event that began it.
pub proof fn lemma_submitted_delivery_tells(item: SubmittedDeliveryView)
    ensures
        ({
            let told = item.json();
            &&& field(told, "activation_id"@) == Some(JsonView::Text(item.activation_id))
            &&& field(told, "pane_id"@) == Some(JsonView::Text(item.pane_id))
            &&& field(told, "allocation_generation"@) == Some(
                    JsonView::Unsigned(item.allocation_generation),
                )
            &&& field(told, "role"@) == Some(JsonView::Text(item.role))
            &&& field(told, "message_id"@) == Some(option_text(item.message_id))
            &&& field(told, "payload_hash"@) == Some(JsonView::Text(item.payload_hash))
            &&& field(told, "started_event_sequence"@) == Some(
                    JsonView::Unsigned(item.started_event_sequence),
                )
            &&& field(told, "status"@) == Some(JsonView::Text("submitted"@))
        }),
{
    let fields = item.json()->Record_0;
    reveal_strlit("activation_id");
    reveal_strlit("pane_id");
    reveal_strlit("allocation_generation");
    reveal_strlit("role");
    reveal_strlit("message_id");
    reveal_strlit("payload_hash");
    reveal_strlit("started_event_sequence");
    reveal_strlit("status");
    assert("role"@.len() == 4);
    assert("status"@.len() == 6);
    assert("pane_id"@.len() == 7);
    assert("message_id"@.len() == 10);
    assert("payload_hash"@.len() == 12);
    assert("activation_id"@.len() == 13);
    assert("allocation_generation"@.len() == 21);
    assert("started_event_sequence"@.len() == 22);
    assert(distinct_keys(fields));
    lemma_field_at(fields, 0);
    lemma_field_at(fields, 1);
    lemma_field_at(fields, 2);
    lemma_field_at(fields, 3);
    lemma_field_at(fields, 4);
    lemma_field_at(fields, 5);
    lemma_field_at(fields, 6);
    lemma_field_at(fields, 7);
}

/// What became of input in doubt is told under the event that began it, with the evidence.
pub proof fn lemma_resolution_report_tells(
    delivery: AmbiguousDeliveryView,
    resolution: ResolutionView,
)
    ensures
        ({
            let told = resolution_report(delivery, resolution);
            &&& field(told, "started_event_sequence"@) == Some(
                    JsonView::Unsigned(delivery.started_event_sequence),
                )
            &&& field(told, "activation_id"@) == Some(JsonView::Text(delivery.activation_id))
            &&& field(told, "role"@) == Some(JsonView::Text(delivery.role))
            &&& field(told, "message_id"@) == Some(option_text(delivery.message_id))
            &&& field(told, "outcome"@) == Some(JsonView::Text(resolution.outcome()))
            &&& field(told, "evidence"@) == Some(JsonView::Text(resolution.evidence))
        }),
{
    let fields = resolution_report(delivery, resolution)->Record_0;
    reveal_strlit("started_event_sequence");
    reveal_strlit("activation_id");
    reveal_strlit("role");
    reveal_strlit("message_id");
    reveal_strlit("outcome");
    reveal_strlit("evidence");
    assert("role"@.len() == 4);
    assert("outcome"@.len() == 7);
    assert("evidence"@.len() == 8);
    assert("message_id"@.len() == 10);
    assert("activation_id"@.len() == 13);
    assert("started_event_sequence"@.len() == 22);
    assert(distinct_keys(fields));
    lemma_field_at(fields, 0);
    lemma_field_at(fields, 1);
    lemma_field_at(fields, 2);
    lemma_field_at(fields, 3);
    lemma_field_at(fields, 4);
    lemma_field_at(fields, 5);
}

/// What was sent to agents is told apart from the warnings.
pub proof fn lemma_driver_actuation_tells(item: DriverActuationView)
    ensures
        ({
            let told = item.json();
            &&& field(told, "sent"@) == Some(JsonView::List(item.sent))
            &&& field(told, "warnings"@) == Some(JsonView::List(item.warnings))
        }),
{
    let fields = item.json()->Record_0;
    reveal_strlit("sent");
    reveal_strlit("warnings");
    assert("sent"@.len() == 4);
    assert("warnings"@.len() == 8);
    assert(distinct_keys(fields));
    lemma_field_at(fields, 0);
    lemma_field_at(fields, 1);
}

/// An activation that cannot be worked on is told with its node and why.
pub proof fn lemma_cannot_work_tells(
    activation: ActivationView,
    driver: NodeDriver,
    message: Seq<char>,
)
    ensures
        ({
            let told = cannot_work(activation, driver, message);
            &&& field(told, "activation_id"@) == Some(JsonView::Text(activation.activation_id))
            &&& field(told, "node_id"@) == Some(JsonView::Text(activation.node_id))
            &&& field(told, "driver"@) == Some(JsonView::Text(driver.name()))
            &&& field(told, "message"@) == Some(JsonView::Text(message))
        }),
{
    let fields = cannot_work(activation, driver, message)->Record_0;
    reveal_strlit("activation_id");
    reveal_strlit("node_id");
    reveal_strlit("driver");
    reveal_strlit("message");
    assert("driver"@.len() == 6);
    assert("node_id"@.len() == 7);
    assert("message"@.len() == 7);
    assert("node_id"@[0] == 'n');
    assert("message"@[0] == 'm');
    assert("activation_id"@.len() == 13);
    assert(distinct_keys(fields));
    lemma_field_at(fields, 0);
    lemma_field_at(fields, 1);
    lemma_field_at(fields, 2);
    lemma_field_at(fields, 3);
}

/// A pane is shown with its activation, its window and its allocation.
pub proof fn lemma_stored_pane_shown_tells(item: StoredPaneView, activation_id: Seq<char>)
    ensures
        ({
            let told = item.shown(activation_id);
            &&& field(told, "activation_id"@) == Some(JsonView::Text(activation_id))
            &&& field(told, "pane_id"@) == Some(JsonView::Text(item.pane_id))
            &&& field(told, "session_id"@) == Some(JsonView::Text(item.session_id))
            &&& field(told, "window_id"@) == Some(JsonView::Text(item.window_id))
            &&& field(told, "window_name"@) == Some(JsonView::Text(item.window_name))
            &&& field(told, "allocation_generation"@) == Some(
                    JsonView::Unsigned(item.allocation_generation),
                )
        }),
{
    let fields = item.shown(activation_id)->Record_0;
    reveal_strlit("activation_id");
    reveal_strlit("pane_id");
    reveal_strlit("session_id");
    reveal_strlit("window_id");
    reveal_strlit("window_name");
    reveal_strlit("allocation_generation");
    assert("pane_id"@.len() == 7);
    assert("window_id"@.len() == 9);
    assert("session_id"@.len() == 10);
    assert("window_name"@.len() == 11);
    assert("activation_id"@.len() == 13);
    assert("allocation_generation"@.len() == 21);
    assert(distinct_keys(fields));
    lemma_field_at(fields, 0);
    lemma_field_at(fields, 1);
    lemma_field_at(fields, 2);
    lemma_field_at(fields, 3);
    lemma_field_at(fields, 4);
    lemma_field_at(fields, 5);
}

} // verus!
