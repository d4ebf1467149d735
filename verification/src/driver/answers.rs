//! What the answers of the driver hold, field by field.
use vstd::prelude::*;

use crate::flow::export::ordered;
use crate::json::{distinct_keys, field, fields_of, lemma_field_at, no_fields, text_list, JsonView};

use super::failure::{with_fields, FailureView};
use super::message::{hook_report, receipt_report};
use super::operation::{
    activate_report, artifact_report, bind_run_report, board_report, control_report, effect_report,
    fanout_report, observed_report, resume_pending_report, revision_report, shutdown_report,
};
use super::participant::{bind_report, exit_report, stop_report};
use super::replay::DriverEventView;
use super::request::optional_number;
use super::wire::{
    refusal, ActivationStatus, FlowLockMode, RouteDecisionView, RunMode, RunStatus,
    StopDecisionView, StopFaultView,
};

verus! {

broadcast use vstd::string::group_string_axioms;

/// A run that is bound is told with its state, its lock, its limits, the activations that it starts
/// with and its panes, each under its own name.
#[verifier::spinoff_prover]
#[verifier::rlimit(40)]
pub proof fn lemma_bind_run_report_tells(
    run_id: Seq<char>,
    status: RunStatus,
    flow_lock_id: Seq<char>,
    content_hash: Seq<char>,
    flow_lock: JsonView,
    run_mode: RunMode,
    initial_activation_limit: u64,
    stop_attempt_limit: u32,
    activation_limit: Option<u64>,
    activations_used: u64,
    activation_ids: Seq<Seq<char>>,
    tmux: JsonView,
    pipeline: JsonView,
)
    ensures
        ({
            let told = bind_run_report(
                run_id,
                status,
                flow_lock_id,
                content_hash,
                flow_lock,
                run_mode,
                initial_activation_limit,
                stop_attempt_limit,
                activation_limit,
                activations_used,
                activation_ids,
                tmux,
                pipeline,
            );
            &&& field(told, "ok"@) == Some(JsonView::Bool(true))
            &&& field(told, "run_id"@) == Some(JsonView::Text(run_id))
            &&& field(told, "run_status"@) == Some(JsonView::Text(status.name()))
            &&& field(told, "flow_lock_id"@) == Some(JsonView::Text(flow_lock_id))
            &&& field(told, "content_hash"@) == Some(JsonView::Text(content_hash))
            &&& field(told, "flow_lock"@) == Some(flow_lock)
            &&& field(told, "run_mode"@) == Some(JsonView::Text(run_mode.name()))
            &&& field(told, "initial_activation_limit"@) == Some(
                    JsonView::Unsigned(initial_activation_limit),
                )
            &&& field(told, "stop_attempt_limit"@) == Some(
                    JsonView::Unsigned(stop_attempt_limit as u64),
                )
            &&& field(told, "activation_limit"@) == Some(optional_number(activation_limit))
            &&& field(told, "activations_used"@) == Some(JsonView::Unsigned(activations_used))
            &&& field(told, "activation_ids"@) == Some(text_list(activation_ids))
            &&& field(told, "tmux"@) == Some(tmux)
            &&& field(told, "pipeline"@) == Some(pipeline)
        }),
{
    let fields = bind_run_report(
        run_id,
        status,
        flow_lock_id,
        content_hash,
        flow_lock,
        run_mode,
        initial_activation_limit,
        stop_attempt_limit,
        activation_limit,
        activations_used,
        activation_ids,
        tmux,
        pipeline,
    )->Record_0;
    reveal_strlit("ok");
    reveal_strlit("run_id");
    reveal_strlit("run_status");
    reveal_strlit("flow_lock_id");
    reveal_strlit("content_hash");
    reveal_strlit("flow_lock");
    reveal_strlit("run_mode");
    reveal_strlit("initial_activation_limit");
    reveal_strlit("stop_attempt_limit");
    reveal_strlit("activation_limit");
    reveal_strlit("activations_used");
    reveal_strlit("activation_ids");
    reveal_strlit("tmux");
    reveal_strlit("pipeline");
    assert("ok"@.len() == 2);
    assert("tmux"@.len() == 4);
    assert("run_id"@.len() == 6);
    assert("run_mode"@.len() == 8);
    assert("pipeline"@.len() == 8);
    assert("run_mode"@[0] == 'r');
    assert("pipeline"@[0] == 'p');
    assert("flow_lock"@.len() == 9);
    assert("run_status"@.len() == 10);
    assert("flow_lock_id"@.len() == 12);
    assert("content_hash"@.len() == 12);
    assert("flow_lock_id"@[0] == 'f');
    assert("content_hash"@[0] == 'c');
    assert("activation_ids"@.len() == 14);
    assert("activation_limit"@.len() == 16);
    assert("activations_used"@.len() == 16);
    assert("activation_limit"@[10] == '_');
    assert("activations_used"@[10] == 's');
    assert("stop_attempt_limit"@.len() == 18);
    assert("initial_activation_limit"@.len() == 24);
    assert(distinct_keys(fields));
    lemma_field_at(fields, 0);
    lemma_field_at(fields, 1);
    lemma_field_at(fields, 2);
    lemma_field_at(fields, 3);
    lemma_field_at(fields, 4);
    lemma_field_at(fields, 5);
    lemma_field_at(fields, 6);
    lemma_field_at(fields, 7);
    lemma_field_at(fields, 8);
    lemma_field_at(fields, 9);
    lemma_field_at(fields, 10);
    lemma_field_at(fields, 11);
    lemma_field_at(fields, 12);
    lemma_field_at(fields, 13);
}

/// A resumption that has to wait is told as pending: nothing was given and nothing ended, and the
/// input that is in doubt is told.
pub proof fn lemma_resume_pending_report_tells(
    run_id: Seq<char>,
    status: RunStatus,
    actuation: JsonView,
    delivery_resolution: JsonView,
)
    ensures
        ({
            let told = resume_pending_report(run_id, status, actuation, delivery_resolution);
            &&& field(told, "ok"@) == Some(JsonView::Bool(true))
            &&& field(told, "run_id"@) == Some(JsonView::Text(run_id))
            &&& field(told, "run_status"@) == Some(JsonView::Text(status.name()))
            &&& field(told, "tmux_allocations"@) == Some(JsonView::List(Seq::empty()))
            &&& field(told, "actuation"@) == Some(actuation)
            &&& field(told, "delivery_resolution"@) == Some(delivery_resolution)
            &&& field(told, "resume_pending"@) == Some(JsonView::Bool(true))
            &&& field(told, "lifecycle"@) == Some(JsonView::Null)
            &&& field(told, "pipeline"@) == Some(JsonView::List(Seq::empty()))
        }),
{
    let fields = resume_pending_report(run_id, status, actuation, delivery_resolution)->Record_0;
    reveal_strlit("ok");
    reveal_strlit("run_id");
    reveal_strlit("run_status");
    reveal_strlit("tmux_allocations");
    reveal_strlit("actuation");
    reveal_strlit("delivery_resolution");
    reveal_strlit("resume_pending");
    reveal_strlit("lifecycle");
    reveal_strlit("pipeline");
    assert("ok"@.len() == 2);
    assert("run_id"@.len() == 6);
    assert("pipeline"@.len() == 8);
    assert("actuation"@.len() == 9);
    assert("lifecycle"@.len() == 9);
    assert("actuation"@[0] == 'a');
    assert("lifecycle"@[0] == 'l');
    assert("run_status"@.len() == 10);
    assert("resume_pending"@.len() == 14);
    assert("tmux_allocations"@.len() == 16);
    assert("delivery_resolution"@.len() == 19);
    assert(distinct_keys(fields));
    lemma_field_at(fields, 0);
    lemma_field_at(fields, 1);
    lemma_field_at(fields, 2);
    lemma_field_at(fields, 3);
    lemma_field_at(fields, 4);
    lemma_field_at(fields, 5);
    lemma_field_at(fields, 6);
    lemma_field_at(fields, 7);
    lemma_field_at(fields, 8);
}

/// The answer to a word of control tells what the run has become, what was given and sent, what
/// became of input in doubt and what was ended.
pub proof fn lemma_control_report_tells(
    run_id: Seq<char>,
    status: RunStatus,
    tmux_allocations: Seq<JsonView>,
    actuation: JsonView,
    delivery_resolution: JsonView,
    lifecycle: JsonView,
    pipeline: JsonView,
)
    ensures
        ({
            let told = control_report(
                run_id,
                status,
                tmux_allocations,
                actuation,
                delivery_resolution,
                lifecycle,
                pipeline,
            );
            &&& field(told, "ok"@) == Some(JsonView::Bool(true))
            &&& field(told, "run_id"@) == Some(JsonView::Text(run_id))
            &&& field(told, "run_status"@) == Some(JsonView::Text(status.name()))
            &&& field(told, "tmux_allocations"@) == Some(JsonView::List(tmux_allocations))
            &&& field(told, "actuation"@) == Some(actuation)
            &&& field(told, "delivery_resolution"@) == Some(delivery_resolution)
            &&& field(told, "lifecycle"@) == Some(lifecycle)
            &&& field(told, "pipeline"@) == Some(pipeline)
        }),
{
    let fields = control_report(
        run_id,
        status,
        tmux_allocations,
        actuation,
        delivery_resolution,
        lifecycle,
        pipeline,
    )->Record_0;
    reveal_strlit("ok");
    reveal_strlit("run_id");
    reveal_strlit("run_status");
    reveal_strlit("tmux_allocations");
    reveal_strlit("actuation");
    reveal_strlit("delivery_resolution");
    reveal_strlit("lifecycle");
    reveal_strlit("pipeline");
    assert("ok"@.len() == 2);
    assert("run_id"@.len() == 6);
    assert("pipeline"@.len() == 8);
    assert("actuation"@.len() == 9);
    assert("lifecycle"@.len() == 9);
    assert("actuation"@[0] == 'a');
    assert("lifecycle"@[0] == 'l');
    assert("run_status"@.len() == 10);
    assert("tmux_allocations"@.len() == 16);
    assert("delivery_resolution"@.len() == 19);
    assert(distinct_keys(fields));
    lemma_field_at(fields, 0);
    lemma_field_at(fields, 1);
    lemma_field_at(fields, 2);
    lemma_field_at(fields, 3);
    lemma_field_at(fields, 4);
    lemma_field_at(fields, 5);
    lemma_field_at(fields, 6);
    lemma_field_at(fields, 7);
}

/// The answer to a delivery tells the artifact, who delivered it, and the routes that it took.
pub proof fn lemma_artifact_report_tells(
    run_id: Seq<char>,
    status: RunStatus,
    activation_id: Seq<char>,
    artifact_key: Seq<char>,
    artifact_id: Seq<char>,
    pipeline: JsonView,
    tmux_allocations: Seq<JsonView>,
    actuation: JsonView,
    route_decisions: Seq<JsonView>,
)
    ensures
        ({
            let told = artifact_report(
                run_id,
                status,
                activation_id,
                artifact_key,
                artifact_id,
                pipeline,
                tmux_allocations,
                actuation,
                route_decisions,
            );
            &&& field(told, "ok"@) == Some(JsonView::Bool(true))
            &&& field(told, "run_id"@) == Some(JsonView::Text(run_id))
            &&& field(told, "run_status"@) == Some(JsonView::Text(status.name()))
            &&& field(told, "activation_id"@) == Some(JsonView::Text(activation_id))
            &&& field(told, "artifact_key"@) == Some(JsonView::Text(artifact_key))
            &&& field(told, "artifact_id"@) == Some(JsonView::Text(artifact_id))
            &&& field(told, "pipeline"@) == Some(pipeline)
            &&& field(told, "tmux_allocations"@) == Some(JsonView::List(tmux_allocations))
            &&& field(told, "actuation"@) == Some(actuation)
            &&& field(told, "route_decisions"@) == Some(JsonView::List(route_decisions))
        }),
{
    let fields = artifact_report(
        run_id,
        status,
        activation_id,
        artifact_key,
        artifact_id,
        pipeline,
        tmux_allocations,
        actuation,
        route_decisions,
    )->Record_0;
    reveal_strlit("ok");
    reveal_strlit("run_id");
    reveal_strlit("run_status");
    reveal_strlit("activation_id");
    reveal_strlit("artifact_key");
    reveal_strlit("artifact_id");
    reveal_strlit("pipeline");
    reveal_strlit("tmux_allocations");
    reveal_strlit("actuation");
    reveal_strlit("route_decisions");
    assert("ok"@.len() == 2);
    assert("run_id"@.len() == 6);
    assert("pipeline"@.len() == 8);
    assert("actuation"@.len() == 9);
    assert("run_status"@.len() == 10);
    assert("artifact_id"@.len() == 11);
    assert("artifact_key"@.len() == 12);
    assert("activation_id"@.len() == 13);
    assert("route_decisions"@.len() == 15);
    assert("tmux_allocations"@.len() == 16);
    assert(distinct_keys(fields));
    lemma_field_at(fields, 0);
    lemma_field_at(fields, 1);
    lemma_field_at(fields, 2);
    lemma_field_at(fields, 3);
    lemma_field_at(fields, 4);
    lemma_field_at(fields, 5);
    lemma_field_at(fields, 6);
    lemma_field_at(fields, 7);
    lemma_field_at(fields, 8);
    lemma_field_at(fields, 9);
}

/// The answer to a change of the board tells who made it and the version that it led to.
pub proof fn lemma_board_report_tells(
    run_id: Seq<char>,
    status: RunStatus,
    activation_id: Seq<char>,
    board_version: u64,
    tmux_allocations: Seq<JsonView>,
    actuation: JsonView,
    pipeline: JsonView,
)
    ensures
        ({
            let told = board_report(
                run_id,
                status,
                activation_id,
                board_version,
                tmux_allocations,
                actuation,
                pipeline,
            );
            &&& field(told, "ok"@) == Some(JsonView::Bool(true))
            &&& field(told, "run_id"@) == Some(JsonView::Text(run_id))
            &&& field(told, "run_status"@) == Some(JsonView::Text(status.name()))
            &&& field(told, "activation_id"@) == Some(JsonView::Text(activation_id))
            &&& field(told, "board_version"@) == Some(JsonView::Unsigned(board_version))
            &&& field(told, "tmux_allocations"@) == Some(JsonView::List(tmux_allocations))
            &&& field(told, "actuation"@) == Some(actuation)
            &&& field(told, "pipeline"@) == Some(pipeline)
        }),
{
    let fields = board_report(
        run_id,
        status,
        activation_id,
        board_version,
        tmux_allocations,
        actuation,
        pipeline,
    )->Record_0;
    reveal_strlit("ok");
    reveal_strlit("run_id");
    reveal_strlit("run_status");
    reveal_strlit("activation_id");
    reveal_strlit("board_version");
    reveal_strlit("tmux_allocations");
    reveal_strlit("actuation");
    reveal_strlit("pipeline");
    assert("ok"@.len() == 2);
    assert("run_id"@.len() == 6);
    assert("pipeline"@.len() == 8);
    assert("actuation"@.len() == 9);
    assert("run_status"@.len() == 10);
    assert("activation_id"@.len() == 13);
    assert("board_version"@.len() == 13);
    assert("activation_id"@[0] == 'a');
    assert("board_version"@[0] == 'b');
    assert("tmux_allocations"@.len() == 16);
    assert(distinct_keys(fields));
    lemma_field_at(fields, 0);
    lemma_field_at(fields, 1);
    lemma_field_at(fields, 2);
    lemma_field_at(fields, 3);
    lemma_field_at(fields, 4);
    lemma_field_at(fields, 5);
    lemma_field_at(fields, 6);
    lemma_field_at(fields, 7);
}

/// The answer to an effect tells the effect and whose it is.
pub proof fn lemma_effect_report_tells(
    run_id: Seq<char>,
    status: RunStatus,
    activation_id: Seq<char>,
    effect_key: Seq<char>,
    tmux_allocations: Seq<JsonView>,
    actuation: JsonView,
    pipeline: JsonView,
)
    ensures
        ({
            let told = effect_report(
                run_id,
                status,
                activation_id,
                effect_key,
                tmux_allocations,
                actuation,
                pipeline,
            );
            &&& field(told, "ok"@) == Some(JsonView::Bool(true))
            &&& field(told, "run_id"@) == Some(JsonView::Text(run_id))
            &&& field(told, "run_status"@) == Some(JsonView::Text(status.name()))
            &&& field(told, "activation_id"@) == Some(JsonView::Text(activation_id))
            &&& field(told, "effect_key"@) == Some(JsonView::Text(effect_key))
            &&& field(told, "tmux_allocations"@) == Some(JsonView::List(tmux_allocations))
            &&& field(told, "actuation"@) == Some(actuation)
            &&& field(told, "pipeline"@) == Some(pipeline)
        }),
{
    let fields = effect_report(
        run_id,
        status,
        activation_id,
        effect_key,
        tmux_allocations,
        actuation,
        pipeline,
    )->Record_0;
    reveal_strlit("ok");
    reveal_strlit("run_id");
    reveal_strlit("run_status");
    reveal_strlit("activation_id");
    reveal_strlit("effect_key");
    reveal_strlit("tmux_allocations");
    reveal_strlit("actuation");
    reveal_strlit("pipeline");
    assert("ok"@.len() == 2);
    assert("run_id"@.len() == 6);
    assert("pipeline"@.len() == 8);
    assert("actuation"@.len() == 9);
    assert("run_status"@.len() == 10);
    assert("effect_key"@.len() == 10);
    assert("run_status"@[0] == 'r');
    assert("effect_key"@[0] == 'e');
    assert("activation_id"@.len() == 13);
    assert("tmux_allocations"@.len() == 16);
    assert(distinct_keys(fields));
    lemma_field_at(fields, 0);
    lemma_field_at(fields, 1);
    lemma_field_at(fields, 2);
    lemma_field_at(fields, 3);
    lemma_field_at(fields, 4);
    lemma_field_at(fields, 5);
    lemma_field_at(fields, 6);
    lemma_field_at(fields, 7);
}

/// The answer to an observed stop tells the activation, what was decided and what was ended.
pub proof fn lemma_observed_report_tells(
    run_id: Seq<char>,
    activation_id: Seq<char>,
    status: RunStatus,
    stop_decisions: Seq<JsonView>,
    tmux_allocations: Seq<JsonView>,
    actuation: JsonView,
    lifecycle: JsonView,
    pipeline: JsonView,
)
    ensures
        ({
            let told = observed_report(
                run_id,
                activation_id,
                status,
                stop_decisions,
                tmux_allocations,
                actuation,
                lifecycle,
                pipeline,
            );
            &&& field(told, "ok"@) == Some(JsonView::Bool(true))
            &&& field(told, "run_id"@) == Some(JsonView::Text(run_id))
            &&& field(told, "activation_id"@) == Some(JsonView::Text(activation_id))
            &&& field(told, "run_status"@) == Some(JsonView::Text(status.name()))
            &&& field(told, "stop_decisions"@) == Some(JsonView::List(stop_decisions))
            &&& field(told, "tmux_allocations"@) == Some(JsonView::List(tmux_allocations))
            &&& field(told, "actuation"@) == Some(actuation)
            &&& field(told, "lifecycle"@) == Some(lifecycle)
            &&& field(told, "pipeline"@) == Some(pipeline)
        }),
{
    let fields = observed_report(
        run_id,
        activation_id,
        status,
        stop_decisions,
        tmux_allocations,
        actuation,
        lifecycle,
        pipeline,
    )->Record_0;
    reveal_strlit("ok");
    reveal_strlit("run_id");
    reveal_strlit("activation_id");
    reveal_strlit("run_status");
    reveal_strlit("stop_decisions");
    reveal_strlit("tmux_allocations");
    reveal_strlit("actuation");
    reveal_strlit("lifecycle");
    reveal_strlit("pipeline");
    assert("ok"@.len() == 2);
    assert("run_id"@.len() == 6);
    assert("pipeline"@.len() == 8);
    assert("actuation"@.len() == 9);
    assert("lifecycle"@.len() == 9);
    assert("actuation"@[0] == 'a');
    assert("lifecycle"@[0] == 'l');
    assert("run_status"@.len() == 10);
    assert("activation_id"@.len() == 13);
    assert("stop_decisions"@.len() == 14);
    assert("tmux_allocations"@.len() == 16);
    assert(distinct_keys(fields));
    lemma_field_at(fields, 0);
    lemma_field_at(fields, 1);
    lemma_field_at(fields, 2);
    lemma_field_at(fields, 3);
    lemma_field_at(fields, 4);
    lemma_field_at(fields, 5);
    lemma_field_at(fields, 6);
    lemma_field_at(fields, 7);
    lemma_field_at(fields, 8);
}

/// The answer to an activation tells its id and what was given and sent for it.
pub proof fn lemma_activate_report_tells(
    run_id: Seq<char>,
    activation_id: Seq<char>,
    tmux_allocations: Seq<JsonView>,
    actuation: JsonView,
    pipeline: JsonView,
)
    ensures
        ({
            let told = activate_report(
                run_id,
                activation_id,
                tmux_allocations,
                actuation,
                pipeline,
            );
            &&& field(told, "ok"@) == Some(JsonView::Bool(true))
            &&& field(told, "run_id"@) == Some(JsonView::Text(run_id))
            &&& field(told, "activation_id"@) == Some(JsonView::Text(activation_id))
            &&& field(told, "tmux_allocations"@) == Some(JsonView::List(tmux_allocations))
            &&& field(told, "actuation"@) == Some(actuation)
            &&& field(told, "pipeline"@) == Some(pipeline)
        }),
{
    let fields = activate_report(run_id, activation_id, tmux_allocations, actuation, pipeline)->Record_0;
    reveal_strlit("ok");
    reveal_strlit("run_id");
    reveal_strlit("activation_id");
    reveal_strlit("tmux_allocations");
    reveal_strlit("actuation");
    reveal_strlit("pipeline");
    assert("ok"@.len() == 2);
    assert("run_id"@.len() == 6);
    assert("pipeline"@.len() == 8);
    assert("actuation"@.len() == 9);
    assert("activation_id"@.len() == 13);
    assert("tmux_allocations"@.len() == 16);
    assert(distinct_keys(fields));
    lemma_field_at(fields, 0);
    lemma_field_at(fields, 1);
    lemma_field_at(fields, 2);
    lemma_field_at(fields, 3);
    lemma_field_at(fields, 4);
    lemma_field_at(fields, 5);
}

/// The answer to a fan-out tells the node, the artifact that it goes over and every activation.
pub proof fn lemma_fanout_report_tells(
    run_id: Seq<char>,
    node_id: Seq<char>,
    artifact_key: Seq<char>,
    activation_ids: Seq<Seq<char>>,
    tmux_allocations: Seq<JsonView>,
    actuation: JsonView,
    pipeline: JsonView,
)
    ensures
        ({
            let told = fanout_report(
                run_id,
                node_id,
                artifact_key,
                activation_ids,
                tmux_allocations,
                actuation,
                pipeline,
            );
            &&& field(told, "ok"@) == Some(JsonView::Bool(true))
            &&& field(told, "run_id"@) == Some(JsonView::Text(run_id))
            &&& field(told, "node_id"@) == Some(JsonView::Text(node_id))
            &&& field(told, "artifact_key"@) == Some(JsonView::Text(artifact_key))
            &&& field(told, "activation_ids"@) == Some(text_list(activation_ids))
            &&& field(told, "tmux_allocations"@) == Some(JsonView::List(tmux_allocations))
            &&& field(told, "actuation"@) == Some(actuation)
            &&& field(told, "pipeline"@) == Some(pipeline)
        }),
{
    let fields = fanout_report(
        run_id,
        node_id,
        artifact_key,
        activation_ids,
        tmux_allocations,
        actuation,
        pipeline,
    )->Record_0;
    reveal_strlit("ok");
    reveal_strlit("run_id");
    reveal_strlit("node_id");
    reveal_strlit("artifact_key");
    reveal_strlit("activation_ids");
    reveal_strlit("tmux_allocations");
    reveal_strlit("actuation");
    reveal_strlit("pipeline");
    assert("ok"@.len() == 2);
    assert("run_id"@.len() == 6);
    assert("node_id"@.len() == 7);
    assert("pipeline"@.len() == 8);
    assert("actuation"@.len() == 9);
    assert("artifact_key"@.len() == 12);
    assert("activation_ids"@.len() == 14);
    assert("tmux_allocations"@.len() == 16);
    assert(distinct_keys(fields));
    lemma_field_at(fields, 0);
    lemma_field_at(fields, 1);
    lemma_field_at(fields, 2);
    lemma_field_at(fields, 3);
    lemma_field_at(fields, 4);
    lemma_field_at(fields, 5);
    lemma_field_at(fields, 6);
    lemma_field_at(fields, 7);
}

/// The answer to a new lock tells the lock, its content and how it was applied.
pub proof fn lemma_revision_report_tells(
    run_id: Seq<char>,
    flow_lock_id: Seq<char>,
    content_hash: Seq<char>,
    apply_mode: FlowLockMode,
    tmux_allocations: Seq<JsonView>,
    actuation: JsonView,
    pipeline: JsonView,
)
    ensures
        ({
            let told = revision_report(
                run_id,
                flow_lock_id,
                content_hash,
                apply_mode,
                tmux_allocations,
                actuation,
                pipeline,
            );
            &&& field(told, "ok"@) == Some(JsonView::Bool(true))
            &&& field(told, "run_id"@) == Some(JsonView::Text(run_id))
            &&& field(told, "flow_lock_id"@) == Some(JsonView::Text(flow_lock_id))
            &&& field(told, "content_hash"@) == Some(JsonView::Text(content_hash))
            &&& field(told, "apply_mode"@) == Some(JsonView::Text(apply_mode.name()))
            &&& field(told, "tmux_allocations"@) == Some(JsonView::List(tmux_allocations))
            &&& field(told, "actuation"@) == Some(actuation)
            &&& field(told, "pipeline"@) == Some(pipeline)
        }),
{
    let fields = revision_report(
        run_id,
        flow_lock_id,
        content_hash,
        apply_mode,
        tmux_allocations,
        actuation,
        pipeline,
    )->Record_0;
    reveal_strlit("ok");
    reveal_strlit("run_id");
    reveal_strlit("flow_lock_id");
    reveal_strlit("content_hash");
    reveal_strlit("apply_mode");
    reveal_strlit("tmux_allocations");
    reveal_strlit("actuation");
    reveal_strlit("pipeline");
    assert("ok"@.len() == 2);
    assert("run_id"@.len() == 6);
    assert("pipeline"@.len() == 8);
    assert("actuation"@.len() == 9);
    assert("apply_mode"@.len() == 10);
    assert("flow_lock_id"@.len() == 12);
    assert("content_hash"@.len() == 12);
    assert("flow_lock_id"@[0] == 'f');
    assert("content_hash"@[0] == 'c');
    assert("tmux_allocations"@.len() == 16);
    assert(distinct_keys(fields));
    lemma_field_at(fields, 0);
    lemma_field_at(fields, 1);
    lemma_field_at(fields, 2);
    lemma_field_at(fields, 3);
    lemma_field_at(fields, 4);
    lemma_field_at(fields, 5);
    lemma_field_at(fields, 6);
    lemma_field_at(fields, 7);
}

/// The answer to a shutdown tells the run, and that it shuts down.
pub proof fn lemma_shutdown_report_tells(run_id: Seq<char>)
    ensures
        ({
            let told = shutdown_report(run_id);
            &&& field(told, "ok"@) == Some(JsonView::Bool(true))
            &&& field(told, "run_id"@) == Some(JsonView::Text(run_id))
            &&& field(told, "shutdown"@) == Some(JsonView::Text("requested"@))
        }),
{
    let fields = shutdown_report(run_id)->Record_0;
    reveal_strlit("ok");
    reveal_strlit("run_id");
    reveal_strlit("shutdown");
    assert("ok"@.len() == 2);
    assert("run_id"@.len() == 6);
    assert("shutdown"@.len() == 8);
    assert(distinct_keys(fields));
    lemma_field_at(fields, 0);
    lemma_field_at(fields, 1);
    lemma_field_at(fields, 2);
}

/// The answer to an agent that wants to stop tells what was decided, how often it tried, what it
/// still owes and why.
pub proof fn lemma_stop_report_tells(
    run_id: Seq<char>,
    decision: StopDecisionView,
    status: Option<ActivationStatus>,
    idempotent: bool,
)
    ensures
        ({
            let told = stop_report(run_id, decision, status, idempotent);
            &&& field(told, "ok"@) == Some(JsonView::Bool(true))
            &&& field(told, "run_id"@) == Some(JsonView::Text(run_id))
            &&& field(told, "decision"@) == Some(JsonView::Text(decision.kind.name()))
            &&& field(told, "hook_action"@) == Some(JsonView::Text(decision.hook_action()))
            &&& field(told, "attempt"@) == Some(JsonView::Unsigned(decision.attempt as u64))
            &&& field(told, "missing_artifacts"@) == Some(text_list(decision.missing_artifacts))
            &&& field(told, "missing_effects"@) == Some(text_list(decision.missing_effects))
            &&& field(told, "reason"@) == Some(JsonView::Text(decision.reason))
            &&& field(told, "activation_status"@) == Some(
                    match status { Some(status) => JsonView::Text(status.name()), None => JsonView::Null, },
                )
            &&& field(told, "idempotent"@) == Some(JsonView::Bool(idempotent))
        }),
{
    let fields = stop_report(run_id, decision, status, idempotent)->Record_0;
    reveal_strlit("ok");
    reveal_strlit("run_id");
    reveal_strlit("decision");
    reveal_strlit("hook_action");
    reveal_strlit("attempt");
    reveal_strlit("missing_artifacts");
    reveal_strlit("missing_effects");
    reveal_strlit("reason");
    reveal_strlit("activation_status");
    reveal_strlit("idempotent");
    assert("ok"@.len() == 2);
    assert("run_id"@.len() == 6);
    assert("reason"@.len() == 6);
    assert("run_id"@[1] == 'u');
    assert("reason"@[1] == 'e');
    assert("attempt"@.len() == 7);
    assert("decision"@.len() == 8);
    assert("idempotent"@.len() == 10);
    assert("hook_action"@.len() == 11);
    assert("missing_effects"@.len() == 15);
    assert("missing_artifacts"@.len() == 17);
    assert("activation_status"@.len() == 17);
    assert("missing_artifacts"@[0] == 'm');
    assert("activation_status"@[0] == 'a');
    assert(distinct_keys(fields));
    lemma_field_at(fields, 0);
    lemma_field_at(fields, 1);
    lemma_field_at(fields, 2);
    lemma_field_at(fields, 3);
    lemma_field_at(fields, 4);
    lemma_field_at(fields, 5);
    lemma_field_at(fields, 6);
    lemma_field_at(fields, 7);
    lemma_field_at(fields, 8);
    lemma_field_at(fields, 9);
}

/// The answer to the word of an exit tells whether it was heard before.
pub proof fn lemma_exit_report_tells(run_id: Seq<char>, idempotent: bool)
    ensures
        ({
            let told = exit_report(run_id, idempotent);
            &&& field(told, "ok"@) == Some(JsonView::Bool(true))
            &&& field(told, "run_id"@) == Some(JsonView::Text(run_id))
            &&& field(told, "participant_exited"@) == Some(JsonView::Bool(true))
            &&& field(told, "idempotent"@) == Some(JsonView::Bool(idempotent))
            &&& field(told, "response_ack_required"@) == Some(JsonView::Bool(true))
        }),
{
    let fields = exit_report(run_id, idempotent)->Record_0;
    reveal_strlit("ok");
    reveal_strlit("run_id");
    reveal_strlit("participant_exited");
    reveal_strlit("idempotent");
    reveal_strlit("response_ack_required");
    assert("ok"@.len() == 2);
    assert("run_id"@.len() == 6);
    assert("idempotent"@.len() == 10);
    assert("participant_exited"@.len() == 18);
    assert("response_ack_required"@.len() == 21);
    assert(distinct_keys(fields));
    lemma_field_at(fields, 0);
    lemma_field_at(fields, 1);
    lemma_field_at(fields, 2);
    lemma_field_at(fields, 3);
    lemma_field_at(fields, 4);
}

/// The answer to an agent that binds itself tells whether it was bound before.
pub proof fn lemma_bind_report_tells(run_id: Seq<char>, idempotent: bool, actuation: JsonView)
    ensures
        ({
            let told = bind_report(run_id, idempotent, actuation);
            &&& field(told, "ok"@) == Some(JsonView::Bool(true))
            &&& field(told, "run_id"@) == Some(JsonView::Text(run_id))
            &&& field(told, "participant_bound"@) == Some(JsonView::Bool(true))
            &&& field(told, "idempotent"@) == Some(JsonView::Bool(idempotent))
            &&& field(told, "actuation"@) == Some(actuation)
        }),
{
    let fields = bind_report(run_id, idempotent, actuation)->Record_0;
    reveal_strlit("ok");
    reveal_strlit("run_id");
    reveal_strlit("participant_bound");
    reveal_strlit("idempotent");
    reveal_strlit("actuation");
    assert("ok"@.len() == 2);
    assert("run_id"@.len() == 6);
    assert("actuation"@.len() == 9);
    assert("idempotent"@.len() == 10);
    assert("participant_bound"@.len() == 17);
    assert(distinct_keys(fields));
    lemma_field_at(fields, 0);
    lemma_field_at(fields, 1);
    lemma_field_at(fields, 2);
    lemma_field_at(fields, 3);
    lemma_field_at(fields, 4);
}

/// The answer to an observation tells the session, the hook and the number of the record.
pub proof fn lemma_hook_report_tells(
    run_id: Seq<char>,
    session_id: Seq<char>,
    hook: Seq<char>,
    record_generation: u64,
    run_assets: JsonView,
)
    ensures
        ({
            let told = hook_report(run_id, session_id, hook, record_generation, run_assets);
            &&& field(told, "ok"@) == Some(JsonView::Bool(true))
            &&& field(told, "run_id"@) == Some(JsonView::Text(run_id))
            &&& field(told, "session_id"@) == Some(JsonView::Text(session_id))
            &&& field(told, "hook"@) == Some(JsonView::Text(hook))
            &&& field(told, "record_generation"@) == Some(JsonView::Unsigned(record_generation))
            &&& field(told, "run_assets"@) == Some(run_assets)
        }),
{
    let fields = hook_report(run_id, session_id, hook, record_generation, run_assets)->Record_0;
    reveal_strlit("ok");
    reveal_strlit("run_id");
    reveal_strlit("session_id");
    reveal_strlit("hook");
    reveal_strlit("record_generation");
    reveal_strlit("run_assets");
    assert("ok"@.len() == 2);
    assert("hook"@.len() == 4);
    assert("run_id"@.len() == 6);
    assert("session_id"@.len() == 10);
    assert("run_assets"@.len() == 10);
    assert("session_id"@[0] == 's');
    assert("run_assets"@[0] == 'r');
    assert("record_generation"@.len() == 17);
    assert(distinct_keys(fields));
    lemma_field_at(fields, 0);
    lemma_field_at(fields, 1);
    lemma_field_at(fields, 2);
    lemma_field_at(fields, 3);
    lemma_field_at(fields, 4);
    lemma_field_at(fields, 5);
}

/// The answer to a message tells whom it went to, its receipt and how many there were.
pub proof fn lemma_receipt_report_tells(
    run_id: Seq<char>,
    activation_id: Seq<char>,
    message_id: Seq<char>,
    receipt: JsonView,
    message_count: u64,
)
    ensures
        ({
            let told = receipt_report(run_id, activation_id, message_id, receipt, message_count);
            &&& field(told, "ok"@) == Some(JsonView::Bool(true))
            &&& field(told, "run_id"@) == Some(JsonView::Text(run_id))
            &&& field(told, "activation_id"@) == Some(JsonView::Text(activation_id))
            &&& field(told, "message_id"@) == Some(JsonView::Text(message_id))
            &&& field(told, "receipt"@) == Some(receipt)
            &&& field(told, "message_count"@) == Some(JsonView::Unsigned(message_count))
        }),
{
    let fields = receipt_report(run_id, activation_id, message_id, receipt, message_count)->Record_0;
    reveal_strlit("ok");
    reveal_strlit("run_id");
    reveal_strlit("activation_id");
    reveal_strlit("message_id");
    reveal_strlit("receipt");
    reveal_strlit("message_count");
    assert("ok"@.len() == 2);
    assert("run_id"@.len() == 6);
    assert("receipt"@.len() == 7);
    assert("message_id"@.len() == 10);
    assert("activation_id"@.len() == 13);
    assert("message_count"@.len() == 13);
    assert("activation_id"@[0] == 'a');
    assert("message_count"@[0] == 'm');
    assert(distinct_keys(fields));
    lemma_field_at(fields, 0);
    lemma_field_at(fields, 1);
    lemma_field_at(fields, 2);
    lemma_field_at(fields, 3);
    lemma_field_at(fields, 4);
    lemma_field_at(fields, 5);
}

/// A failure is answered under the id of the request, as not well, with what went wrong.
pub proof fn lemma_failure_response_tells(item: FailureView, id: JsonView)
    ensures
        ({
            let told = item.response(id);
            &&& field(told, "id"@) == Some(id)
            &&& field(told, "ok"@) == Some(JsonView::Bool(false))
            &&& field(told, "error"@) == Some(
                    with_fields( JsonView::Record( no_fields() .push(("code"@, JsonView::Text(item.code))) .push(("message"@, JsonView::Text(item.message))), ), fields_of(item.extra), ),
                )
        }),
{
    let fields = item.response(id)->Record_0;
    reveal_strlit("id");
    reveal_strlit("ok");
    reveal_strlit("error");
    assert("id"@.len() == 2);
    assert("ok"@.len() == 2);
    assert("id"@[0] == 'i');
    assert("ok"@[0] == 'o');
    assert("error"@.len() == 5);
    assert(distinct_keys(fields));
    lemma_field_at(fields, 0);
    lemma_field_at(fields, 1);
    lemma_field_at(fields, 2);
}

/// A decision on a stop is told with its kind, the attempt, what is missing and why.
pub proof fn lemma_stop_decision_tells(item: StopDecisionView)
    ensures
        ({
            let told = item.json();
            &&& field(told, "kind"@) == Some(JsonView::Text(item.kind.name()))
            &&& field(told, "attempt"@) == Some(JsonView::Unsigned(item.attempt as u64))
            &&& field(told, "missing_artifacts"@) == Some(text_list(item.missing_artifacts))
            &&& field(told, "missing_effects"@) == Some(text_list(item.missing_effects))
            &&& field(told, "reason"@) == Some(JsonView::Text(item.reason))
        }),
{
    let fields = item.json()->Record_0;
    reveal_strlit("kind");
    reveal_strlit("attempt");
    reveal_strlit("missing_artifacts");
    reveal_strlit("missing_effects");
    reveal_strlit("reason");
    assert("kind"@.len() == 4);
    assert("reason"@.len() == 6);
    assert("attempt"@.len() == 7);
    assert("missing_effects"@.len() == 15);
    assert("missing_artifacts"@.len() == 17);
    assert(distinct_keys(fields));
    lemma_field_at(fields, 0);
    lemma_field_at(fields, 1);
    lemma_field_at(fields, 2);
    lemma_field_at(fields, 3);
    lemma_field_at(fields, 4);
}

/// A stop that is not valid is told as such, with what is missing.
pub proof fn lemma_stop_fault_response_tells(
    item: StopFaultView,
    run_id: Seq<char>,
    activation_id: Seq<char>,
    message: Seq<char>,
)
    ensures
        ({
            let told = item.response(run_id, activation_id, message);
            &&& field(told, "ok"@) == Some(JsonView::Bool(false))
            &&& field(told, "run_id"@) == Some(JsonView::Text(run_id))
            &&& field(told, "activation_id"@) == Some(JsonView::Text(activation_id))
            &&& field(told, "valid"@) == Some(JsonView::Bool(false))
            &&& field(told, "stop_valid"@) == Some(JsonView::Bool(false))
            &&& field(told, "missing"@) == Some(
                    text_list(Seq::<Seq<char>>::empty().push(item.missing())),
                )
            &&& field(told, "missing_detail"@) == Some(item.detail(run_id, activation_id))
            &&& field(told, "error"@) == Some(JsonView::Text(message))
        }),
{
    let fields = item.response(run_id, activation_id, message)->Record_0;
    reveal_strlit("ok");
    reveal_strlit("run_id");
    reveal_strlit("activation_id");
    reveal_strlit("valid");
    reveal_strlit("stop_valid");
    reveal_strlit("missing");
    reveal_strlit("missing_detail");
    reveal_strlit("error");
    assert("ok"@.len() == 2);
    assert("valid"@.len() == 5);
    assert("error"@.len() == 5);
    assert("valid"@[0] == 'v');
    assert("error"@[0] == 'e');
    assert("run_id"@.len() == 6);
    assert("missing"@.len() == 7);
    assert("stop_valid"@.len() == 10);
    assert("activation_id"@.len() == 13);
    assert("missing_detail"@.len() == 14);
    assert(distinct_keys(fields));
    lemma_field_at(fields, 0);
    lemma_field_at(fields, 1);
    lemma_field_at(fields, 2);
    lemma_field_at(fields, 3);
    lemma_field_at(fields, 4);
    lemma_field_at(fields, 5);
    lemma_field_at(fields, 6);
    lemma_field_at(fields, 7);
}

/// A route that was taken is told with its lock, its place and identity, what set it off, and what it
/// was to activate and did.
pub proof fn lemma_route_decision_tells(item: RouteDecisionView)
    ensures
        ({
            let told = item.json();
            &&& field(told, "run_id"@) == Some(JsonView::Text(item.run_id))
            &&& field(told, "flow_lock_id"@) == Some(JsonView::Text(item.flow_lock_id))
            &&& field(told, "route_index"@) == Some(JsonView::Unsigned(item.route_index))
            &&& field(told, "route_id"@) == Some(JsonView::Text(item.route_id))
            &&& field(told, "trigger"@) == Some(item.trigger)
            &&& field(told, "predicate"@) == Some(item.predicate)
            &&& field(told, "for_each"@) == Some(item.for_each)
            &&& field(told, "activate"@) == Some(text_list(item.applied_activation_ids))
            &&& field(told, "planned_activation_ids"@) == Some(
                    text_list(item.planned_activation_ids),
                )
            &&& field(told, "applied_activation_ids"@) == Some(
                    text_list(item.applied_activation_ids),
                )
        }),
{
    let fields = item.json()->Record_0;
    reveal_strlit("run_id");
    reveal_strlit("flow_lock_id");
    reveal_strlit("route_index");
    reveal_strlit("route_id");
    reveal_strlit("trigger");
    reveal_strlit("predicate");
    reveal_strlit("for_each");
    reveal_strlit("activate");
    reveal_strlit("planned_activation_ids");
    reveal_strlit("applied_activation_ids");
    assert("run_id"@.len() == 6);
    assert("trigger"@.len() == 7);
    assert("route_id"@.len() == 8);
    assert("for_each"@.len() == 8);
    assert("activate"@.len() == 8);
    assert("route_id"@[0] == 'r');
    assert("for_each"@[0] == 'f');
    assert("activate"@[0] == 'a');
    assert("predicate"@.len() == 9);
    assert("route_index"@.len() == 11);
    assert("flow_lock_id"@.len() == 12);
    assert("planned_activation_ids"@.len() == 22);
    assert("applied_activation_ids"@.len() == 22);
    assert("planned_activation_ids"@[0] == 'p');
    assert("applied_activation_ids"@[0] == 'a');
    assert(distinct_keys(fields));
    lemma_field_at(fields, 0);
    lemma_field_at(fields, 1);
    lemma_field_at(fields, 2);
    lemma_field_at(fields, 3);
    lemma_field_at(fields, 4);
    lemma_field_at(fields, 5);
    lemma_field_at(fields, 6);
    lemma_field_at(fields, 7);
    lemma_field_at(fields, 8);
    lemma_field_at(fields, 9);
}

/// A refusal is answered under the id of the request, as not well.
pub proof fn lemma_refusal_tells(id: JsonView, code: Seq<char>, message: Seq<char>)
    ensures
        ({
            let told = refusal(id, code, message);
            &&& field(told, "id"@) == Some(id)
            &&& field(told, "ok"@) == Some(JsonView::Bool(false))
            &&& field(told, "error"@) == Some(
                    JsonView::Record( no_fields() .push(("code"@, JsonView::Text(code))) .push(("message"@, JsonView::Text(message))), ),
                )
        }),
{
    let fields = refusal(id, code, message)->Record_0;
    reveal_strlit("id");
    reveal_strlit("ok");
    reveal_strlit("error");
    assert("id"@.len() == 2);
    assert("ok"@.len() == 2);
    assert("id"@[0] == 'i');
    assert("ok"@[0] == 'o');
    assert("error"@.len() == 5);
    assert(distinct_keys(fields));
    lemma_field_at(fields, 0);
    lemma_field_at(fields, 1);
    lemma_field_at(fields, 2);
}

/// An event is written with its number, its time, its kind and its payload.
pub proof fn lemma_driver_event_tells(item: DriverEventView)
    ensures
        ({
            let told = item.json();
            &&& field(told, "seq"@) == Some(JsonView::Unsigned(item.seq))
            &&& field(told, "at_ms"@) == Some(JsonView::Unsigned(item.at_ms))
            &&& field(told, "kind"@) == Some(JsonView::Text(item.kind))
            &&& field(told, "payload"@) == Some(ordered(item.payload))
        }),
{
    let fields = item.json()->Record_0;
    reveal_strlit("seq");
    reveal_strlit("at_ms");
    reveal_strlit("kind");
    reveal_strlit("payload");
    assert("seq"@.len() == 3);
    assert("kind"@.len() == 4);
    assert("at_ms"@.len() == 5);
    assert("payload"@.len() == 7);
    assert(distinct_keys(fields));
    lemma_field_at(fields, 0);
    lemma_field_at(fields, 1);
    lemma_field_at(fields, 2);
    lemma_field_at(fields, 3);
}

} // verus!
