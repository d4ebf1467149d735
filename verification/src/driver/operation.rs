//! What is done with a run: it is bound, controlled and told of.
use vstd::prelude::*;

use crate::json::{no_fields, text_list, Fields, Json, JsonView};
use crate::text::{cat3, cat4, same, trim, trimmed};

use super::delivery::{
    delivery_meant, input_delivery_resolution_from_request, resolution_in, AmbiguousDeliveryView,
    InputDeliveryResolution, ResolutionView,
};
use super::failure::{result_of, DriverFailure, FailureView};
use super::keys::DeliveryKeyView;
use super::lifecycle::{Activation, ActivationView};
use super::replay::ReplayedDriverEvents;
use super::request::optional_number;
use super::wire::{
    activation_status_name, flow_lock_mode_name, run_mode_name, run_status_name, texts_json,
    FlowLockMode, RunMode, RunStatus,
};

verus! {

broadcast use vstd::string::group_string_axioms;

fn optional_number_json(n: Option<u64>) -> (r: Json)
    ensures
        r@ == optional_number(n),
{
    match n {
        Some(n) => Json::Unsigned(n),
        None => Json::Null,
    }
}

fn no_items() -> (r: Json)
    ensures
        r@ == JsonView::List(Seq::empty()),
{
    let none: Vec<Json> = Vec::new();
    assert(none.deep_view() =~= Seq::<JsonView>::empty());
    Json::list(none)
}

/// What is told of a run that is bound.
pub open spec fn bind_run_report(
    run_id: Seq<char>,
    status: RunStatus,
    flow_lock_id: Seq<char>,
    content_hash: Seq<char>,
    flow_lock: JsonView,
    run_mode: RunMode,
    initial_activation_limit: u64,
    stop_attempt_limit: u32,
    activation_limit: Option<u64>,
    activations_used: u64,
    activation_ids: Seq<Seq<char>>,
    tmux: JsonView,
    pipeline: JsonView,
) -> JsonView {
    JsonView::Record(
        no_fields()
            .push(("ok"@, JsonView::Bool(true)))
            .push(("run_id"@, JsonView::Text(run_id)))
            .push(("run_status"@, JsonView::Text(status.name())))
            .push(("flow_lock_id"@, JsonView::Text(flow_lock_id)))
            .push(("content_hash"@, JsonView::Text(content_hash)))
            .push(("flow_lock"@, flow_lock))
            .push(("run_mode"@, JsonView::Text(run_mode.name())))
            .push(("initial_activation_limit"@, JsonView::Unsigned(initial_activation_limit)))
            .push(("stop_attempt_limit"@, JsonView::Unsigned(stop_attempt_limit as u64)))
            .push(("activation_limit"@, optional_number(activation_limit)))
            .push(("activations_used"@, JsonView::Unsigned(activations_used)))
            .push(("activation_ids"@, text_list(activation_ids)))
            .push(("tmux"@, tmux))
            .push(("pipeline"@, pipeline)),
    )
}

pub fn bind_run_response(
    run_id: &str,
    status: RunStatus,
    flow_lock_id: &str,
    content_hash: &str,
    flow_lock: Json,
    run_mode: RunMode,
    initial_activation_limit: u64,
    stop_attempt_limit: u32,
    activation_limit: Option<u64>,
    activations_used: u64,
    activation_ids: &Vec<String>,
    tmux: Json,
    pipeline: Json,
) -> (r: Json)
    ensures
        r@ == bind_run_report(
            run_id@,
            status,
            flow_lock_id@,
            content_hash@,
            flow_lock@,
            run_mode,
            initial_activation_limit,
            stop_attempt_limit,
            activation_limit,
            activations_used,
            activation_ids.deep_view(),
            tmux@,
            pipeline@,
        ),
{
    Fields::new()
        .put("ok", Json::Bool(true))
        .put("run_id", Json::text(run_id))
        .put("run_status", Json::text(run_status_name(status)))
        .put("flow_lock_id", Json::text(flow_lock_id))
        .put("content_hash", Json::text(content_hash))
        .put("flow_lock", flow_lock)
        .put("run_mode", Json::text(run_mode_name(run_mode)))
        .put("initial_activation_limit", Json::Unsigned(initial_activation_limit))
        .put("stop_attempt_limit", Json::Unsigned(stop_attempt_limit as u64))
        .put("activation_limit", optional_number_json(activation_limit))
        .put("activations_used", Json::Unsigned(activations_used))
        .put("activation_ids", texts_json(activation_ids))
        .put("tmux", tmux)
        .put("pipeline", pipeline)
        .done()
}

/// What is told of a run that cannot go on, since input may have arrived.
pub open spec fn resume_pending_report(
    run_id: Seq<char>,
    status: RunStatus,
    actuation: JsonView,
    delivery_resolution: JsonView,
) -> JsonView {
    JsonView::Record(
        no_fields()
            .push(("ok"@, JsonView::Bool(true)))
            .push(("run_id"@, JsonView::Text(run_id)))
            .push(("run_status"@, JsonView::Text(status.name())))
            .push(("tmux_allocations"@, JsonView::List(Seq::empty())))
            .push(("actuation"@, actuation))
            .push(("delivery_resolution"@, delivery_resolution))
            .push(("resume_pending"@, JsonView::Bool(true)))
            .push(("lifecycle"@, JsonView::Null))
            .push(("pipeline"@, JsonView::List(Seq::empty()))),
    )
}

pub fn resume_pending_response(
    run_id: &str,
    status: RunStatus,
    actuation: Json,
    delivery_resolution: Json,
) -> (r: Json)
    ensures
        r@ == resume_pending_report(
            run_id@,
            status,
            actuation@,
            delivery_resolution@,
        ),
{
    Fields::new()
        .put("ok", Json::Bool(true))
        .put("run_id", Json::text(run_id))
        .put("run_status", Json::text(run_status_name(status)))
        .put("tmux_allocations", no_items())
        .put("actuation", actuation)
        .put("delivery_resolution", delivery_resolution)
        .put("resume_pending", Json::Bool(true))
        .put("lifecycle", Json::Null)
        .put("pipeline", no_items())
        .done()
}

/// What is told of a run that was controlled.
pub open spec fn control_report(
    run_id: Seq<char>,
    status: RunStatus,
    tmux_allocations: Seq<JsonView>,
    actuation: JsonView,
    delivery_resolution: JsonView,
    lifecycle: JsonView,
    pipeline: JsonView,
) -> JsonView {
    JsonView::Record(
        no_fields()
            .push(("ok"@, JsonView::Bool(true)))
            .push(("run_id"@, JsonView::Text(run_id)))
            .push(("run_status"@, JsonView::Text(status.name())))
            .push(("tmux_allocations"@, JsonView::List(tmux_allocations)))
            .push(("actuation"@, actuation))
            .push(("delivery_resolution"@, delivery_resolution))
            .push(("lifecycle"@, lifecycle))
            .push(("pipeline"@, pipeline)),
    )
}

pub fn control_response(
    run_id: &str,
    status: RunStatus,
    tmux_allocations: Vec<Json>,
    actuation: Json,
    delivery_resolution: Json,
    lifecycle: Json,
    pipeline: Json,
) -> (r: Json)
    ensures
        r@ == control_report(
            run_id@,
            status,
            tmux_allocations.deep_view(),
            actuation@,
            delivery_resolution@,
            lifecycle@,
            pipeline@,
        ),
{
    Fields::new()
        .put("ok", Json::Bool(true))
        .put("run_id", Json::text(run_id))
        .put("run_status", Json::text(run_status_name(status)))
        .put("tmux_allocations", Json::list(tmux_allocations))
        .put("actuation", actuation)
        .put("delivery_resolution", delivery_resolution)
        .put("lifecycle", lifecycle)
        .put("pipeline", pipeline)
        .done()
}

/// What is told of an artifact that was delivered.
pub open spec fn artifact_report(
    run_id: Seq<char>,
    status: RunStatus,
    activation_id: Seq<char>,
    artifact_key: Seq<char>,
    artifact_id: Seq<char>,
    pipeline: JsonView,
    tmux_allocations: Seq<JsonView>,
    actuation: JsonView,
    route_decisions: Seq<JsonView>,
) -> JsonView {
    JsonView::Record(
        no_fields()
            .push(("ok"@, JsonView::Bool(true)))
            .push(("run_id"@, JsonView::Text(run_id)))
            .push(("run_status"@, JsonView::Text(status.name())))
            .push(("activation_id"@, JsonView::Text(activation_id)))
            .push(("artifact_key"@, JsonView::Text(artifact_key)))
            .push(("artifact_id"@, JsonView::Text(artifact_id)))
            .push(("pipeline"@, pipeline))
            .push(("tmux_allocations"@, JsonView::List(tmux_allocations)))
            .push(("actuation"@, actuation))
            .push(("route_decisions"@, JsonView::List(route_decisions))),
    )
}

pub fn deliver_artifact_response(
    run_id: &str,
    status: RunStatus,
    activation_id: &str,
    artifact_key: &str,
    artifact_id: &str,
    pipeline: Json,
    tmux_allocations: Vec<Json>,
    actuation: Json,
    route_decisions: Vec<Json>,
) -> (r: Json)
    ensures
        r@ == artifact_report(
            run_id@,
            status,
            activation_id@,
            artifact_key@,
            artifact_id@,
            pipeline@,
            tmux_allocations.deep_view(),
            actuation@,
            route_decisions.deep_view(),
        ),
{
    Fields::new()
        .put("ok", Json::Bool(true))
        .put("run_id", Json::text(run_id))
        .put("run_status", Json::text(run_status_name(status)))
        .put("activation_id", Json::text(activation_id))
        .put("artifact_key", Json::text(artifact_key))
        .put("artifact_id", Json::text(artifact_id))
        .put("pipeline", pipeline)
        .put("tmux_allocations", Json::list(tmux_allocations))
        .put("actuation", actuation)
        .put("route_decisions", Json::list(route_decisions))
        .done()
}

/// What is told of a board that was changed.
pub open spec fn board_report(
    run_id: Seq<char>,
    status: RunStatus,
    activation_id: Seq<char>,
    board_version: u64,
    tmux_allocations: Seq<JsonView>,
    actuation: JsonView,
    pipeline: JsonView,
) -> JsonView {
    JsonView::Record(
        no_fields()
            .push(("ok"@, JsonView::Bool(true)))
            .push(("run_id"@, JsonView::Text(run_id)))
            .push(("run_status"@, JsonView::Text(status.name())))
            .push(("activation_id"@, JsonView::Text(activation_id)))
            .push(("board_version"@, JsonView::Unsigned(board_version)))
            .push(("tmux_allocations"@, JsonView::List(tmux_allocations)))
            .push(("actuation"@, actuation))
            .push(("pipeline"@, pipeline)),
    )
}

pub fn patch_board_response(
    run_id: &str,
    status: RunStatus,
    activation_id: &str,
    board_version: u64,
    tmux_allocations: Vec<Json>,
    actuation: Json,
    pipeline: Json,
) -> (r: Json)
    ensures
        r@ == board_report(
            run_id@,
            status,
            activation_id@,
            board_version,
            tmux_allocations.deep_view(),
            actuation@,
            pipeline@,
        ),
{
    Fields::new()
        .put("ok", Json::Bool(true))
        .put("run_id", Json::text(run_id))
        .put("run_status", Json::text(run_status_name(status)))
        .put("activation_id", Json::text(activation_id))
        .put("board_version", Json::Unsigned(board_version))
        .put("tmux_allocations", Json::list(tmux_allocations))
        .put("actuation", actuation)
        .put("pipeline", pipeline)
        .done()
}

/// What is told of an effect that was recorded.
pub open spec fn effect_report(
    run_id: Seq<char>,
    status: RunStatus,
    activation_id: Seq<char>,
    effect_key: Seq<char>,
    tmux_allocations: Seq<JsonView>,
    actuation: JsonView,
    pipeline: JsonView,
) -> JsonView {
    JsonView::Record(
        no_fields()
            .push(("ok"@, JsonView::Bool(true)))
            .push(("run_id"@, JsonView::Text(run_id)))
            .push(("run_status"@, JsonView::Text(status.name())))
            .push(("activation_id"@, JsonView::Text(activation_id)))
            .push(("effect_key"@, JsonView::Text(effect_key)))
            .push(("tmux_allocations"@, JsonView::List(tmux_allocations)))
            .push(("actuation"@, actuation))
            .push(("pipeline"@, pipeline)),
    )
}

pub fn record_effect_response(
    run_id: &str,
    status: RunStatus,
    activation_id: &str,
    effect_key: &str,
    tmux_allocations: Vec<Json>,
    actuation: Json,
    pipeline: Json,
) -> (r: Json)
    ensures
        r@ == effect_report(
            run_id@,
            status,
            activation_id@,
            effect_key@,
            tmux_allocations.deep_view(),
            actuation@,
            pipeline@,
        ),
{
    Fields::new()
        .put("ok", Json::Bool(true))
        .put("run_id", Json::text(run_id))
        .put("run_status", Json::text(run_status_name(status)))
        .put("activation_id", Json::text(activation_id))
        .put("effect_key", Json::text(effect_key))
        .put("tmux_allocations", Json::list(tmux_allocations))
        .put("actuation", actuation)
        .put("pipeline", pipeline)
        .done()
}

/// What is told of a stop that was observed.
pub open spec fn observed_report(
    run_id: Seq<char>,
    activation_id: Seq<char>,
    status: RunStatus,
    stop_decisions: Seq<JsonView>,
    tmux_allocations: Seq<JsonView>,
    actuation: JsonView,
    lifecycle: JsonView,
    pipeline: JsonView,
) -> JsonView {
    JsonView::Record(
        no_fields()
            .push(("ok"@, JsonView::Bool(true)))
            .push(("run_id"@, JsonView::Text(run_id)))
            .push(("activation_id"@, JsonView::Text(activation_id)))
            .push(("run_status"@, JsonView::Text(status.name())))
            .push(("stop_decisions"@, JsonView::List(stop_decisions)))
            .push(("tmux_allocations"@, JsonView::List(tmux_allocations)))
            .push(("actuation"@, actuation))
            .push(("lifecycle"@, lifecycle))
            .push(("pipeline"@, pipeline)),
    )
}

pub fn observe_stop_response(
    run_id: &str,
    activation_id: &str,
    status: RunStatus,
    stop_decisions: Vec<Json>,
    tmux_allocations: Vec<Json>,
    actuation: Json,
    lifecycle: Json,
    pipeline: Json,
) -> (r: Json)
    ensures
        r@ == observed_report(
            run_id@,
            activation_id@,
            status,
            stop_decisions.deep_view(),
            tmux_allocations.deep_view(),
            actuation@,
            lifecycle@,
            pipeline@,
        ),
{
    Fields::new()
        .put("ok", Json::Bool(true))
        .put("run_id", Json::text(run_id))
        .put("activation_id", Json::text(activation_id))
        .put("run_status", Json::text(run_status_name(status)))
        .put("stop_decisions", Json::list(stop_decisions))
        .put("tmux_allocations", Json::list(tmux_allocations))
        .put("actuation", actuation)
        .put("lifecycle", lifecycle)
        .put("pipeline", pipeline)
        .done()
}

/// What is told of a node that was activated.
pub open spec fn activate_report(
    run_id: Seq<char>,
    activation_id: Seq<char>,
    tmux_allocations: Seq<JsonView>,
    actuation: JsonView,
    pipeline: JsonView,
) -> JsonView {
    JsonView::Record(
        no_fields()
            .push(("ok"@, JsonView::Bool(true)))
            .push(("run_id"@, JsonView::Text(run_id)))
            .push(("activation_id"@, JsonView::Text(activation_id)))
            .push(("tmux_allocations"@, JsonView::List(tmux_allocations)))
            .push(("actuation"@, actuation))
            .push(("pipeline"@, pipeline)),
    )
}

pub fn activate_node_response(
    run_id: &str,
    activation_id: &str,
    tmux_allocations: Vec<Json>,
    actuation: Json,
    pipeline: Json,
) -> (r: Json)
    ensures
        r@ == activate_report(
            run_id@,
            activation_id@,
            tmux_allocations.deep_view(),
            actuation@,
            pipeline@,
        ),
{
    Fields::new()
        .put("ok", Json::Bool(true))
        .put("run_id", Json::text(run_id))
        .put("activation_id", Json::text(activation_id))
        .put("tmux_allocations", Json::list(tmux_allocations))
        .put("actuation", actuation)
        .put("pipeline", pipeline)
        .done()
}

/// What is told of nodes that were activated for an artifact.
pub open spec fn fanout_report(
    run_id: Seq<char>,
    node_id: Seq<char>,
    artifact_key: Seq<char>,
    activation_ids: Seq<Seq<char>>,
    tmux_allocations: Seq<JsonView>,
    actuation: JsonView,
    pipeline: JsonView,
) -> JsonView {
    JsonView::Record(
        no_fields()
            .push(("ok"@, JsonView::Bool(true)))
            .push(("run_id"@, JsonView::Text(run_id)))
            .push(("node_id"@, JsonView::Text(node_id)))
            .push(("artifact_key"@, JsonView::Text(artifact_key)))
            .push(("activation_ids"@, text_list(activation_ids)))
            .push(("tmux_allocations"@, JsonView::List(tmux_allocations)))
            .push(("actuation"@, actuation))
            .push(("pipeline"@, pipeline)),
    )
}

pub fn fanout_response(
    run_id: &str,
    node_id: &str,
    artifact_key: &str,
    activation_ids: &Vec<String>,
    tmux_allocations: Vec<Json>,
    actuation: Json,
    pipeline: Json,
) -> (r: Json)
    ensures
        r@ == fanout_report(
            run_id@,
            node_id@,
            artifact_key@,
            activation_ids.deep_view(),
            tmux_allocations.deep_view(),
            actuation@,
            pipeline@,
        ),
{
    Fields::new()
        .put("ok", Json::Bool(true))
        .put("run_id", Json::text(run_id))
        .put("node_id", Json::text(node_id))
        .put("artifact_key", Json::text(artifact_key))
        .put("activation_ids", texts_json(activation_ids))
        .put("tmux_allocations", Json::list(tmux_allocations))
        .put("actuation", actuation)
        .put("pipeline", pipeline)
        .done()
}

/// What is told of a lock that was applied.
pub open spec fn revision_report(
    run_id: Seq<char>,
    flow_lock_id: Seq<char>,
    content_hash: Seq<char>,
    apply_mode: FlowLockMode,
    tmux_allocations: Seq<JsonView>,
    actuation: JsonView,
    pipeline: JsonView,
) -> JsonView {
    JsonView::Record(
        no_fields()
            .push(("ok"@, JsonView::Bool(true)))
            .push(("run_id"@, JsonView::Text(run_id)))
            .push(("flow_lock_id"@, JsonView::Text(flow_lock_id)))
            .push(("content_hash"@, JsonView::Text(content_hash)))
            .push(("apply_mode"@, JsonView::Text(apply_mode.name())))
            .push(("tmux_allocations"@, JsonView::List(tmux_allocations)))
            .push(("actuation"@, actuation))
            .push(("pipeline"@, pipeline)),
    )
}

pub fn apply_flow_revision_response(
    run_id: &str,
    flow_lock_id: &str,
    content_hash: &str,
    apply_mode: FlowLockMode,
    tmux_allocations: Vec<Json>,
    actuation: Json,
    pipeline: Json,
) -> (r: Json)
    ensures
        r@ == revision_report(
            run_id@,
            flow_lock_id@,
            content_hash@,
            apply_mode,
            tmux_allocations.deep_view(),
            actuation@,
            pipeline@,
        ),
{
    Fields::new()
        .put("ok", Json::Bool(true))
        .put("run_id", Json::text(run_id))
        .put("flow_lock_id", Json::text(flow_lock_id))
        .put("content_hash", Json::text(content_hash))
        .put("apply_mode", Json::text(flow_lock_mode_name(apply_mode)))
        .put("tmux_allocations", Json::list(tmux_allocations))
        .put("actuation", actuation)
        .put("pipeline", pipeline)
        .done()
}

/// What is told of a driver that is to end.
pub open spec fn shutdown_report(
    run_id: Seq<char>,
) -> JsonView {
    JsonView::Record(
        no_fields()
            .push(("ok"@, JsonView::Bool(true)))
            .push(("run_id"@, JsonView::Text(run_id)))
            .push(("shutdown"@, JsonView::Text("requested"@))),
    )
}

pub fn shutdown_response(
    run_id: &str,
) -> (r: Json)
    ensures
        r@ == shutdown_report(
            run_id@,
        ),
{
    Fields::new()
        .put("ok", Json::Bool(true))
        .put("run_id", Json::text(run_id))
        .put("shutdown", Json::text("requested"))
        .done()
}

/// What a run is bound to for good.
#[derive(Debug)]
pub struct RunBinding {
    pub flow_lock_id: String,
    pub content_hash: String,
    pub run_mode: Option<RunMode>,
    pub initial_activation_limit: Option<u64>,
    pub stop_attempt_limit: Option<u32>,
}

#[verifier::ext_equal]
pub struct RunBindingView {
    pub flow_lock_id: Seq<char>,
    pub content_hash: Seq<char>,
    pub run_mode: Option<RunMode>,
    pub initial_activation_limit: Option<u64>,
    pub stop_attempt_limit: Option<u32>,
}

impl DeepView for RunBinding {
    type V = RunBindingView;

    open spec fn deep_view(&self) -> RunBindingView {
        RunBindingView {
            flow_lock_id: self.flow_lock_id@,
            content_hash: self.content_hash@,
            run_mode: self.run_mode,
            initial_activation_limit: self.initial_activation_limit,
            stop_attempt_limit: self.stop_attempt_limit,
        }
    }
}

/// What is told where something of a binding is missing.
pub open spec fn binding_conflict(message: Seq<char>) -> FailureView {
    FailureView::plain("run_binding_conflict"@, message)
}

/// The lock and the hash that a run is bound to.
pub open spec fn bound_lock(lock_id: Option<Seq<char>>, content_hash: Option<Seq<char>>) -> Result<
    (Seq<char>, Seq<char>),
    FailureView,
> {
    match lock_id {
        None => Err(binding_conflict("existing run has no immutable flow lock binding"@)),
        Some(lock_id) => match content_hash {
            None => Err(binding_conflict("existing run has no immutable content hash binding"@)),
            Some(content_hash) => Ok((lock_id, content_hash)),
        },
    }
}

pub fn bound_flow_lock(lock_id: &Option<String>, content_hash: &Option<String>) -> (r: Result<
    (String, String),
    DriverFailure,
>)
    ensures
        match r {
            Ok((id, hash)) => bound_lock(lock_id.deep_view(), content_hash.deep_view()) == Ok::<
                (Seq<char>, Seq<char>),
                FailureView,
            >((id@, hash@)),
            Err(failure) => bound_lock(lock_id.deep_view(), content_hash.deep_view()) == Err::<
                (Seq<char>, Seq<char>),
                FailureView,
            >(failure.deep_view()),
        },
{
    match lock_id {
        None => Err(
            DriverFailure::new(
                "run_binding_conflict",
                "existing run has no immutable flow lock binding",
            ),
        ),
        Some(lock_id) => match content_hash {
            None => Err(
                DriverFailure::new(
                    "run_binding_conflict",
                    "existing run has no immutable content hash binding",
                ),
            ),
            Some(content_hash) => Ok((lock_id.clone(), content_hash.clone())),
        },
    }
}

pub open spec fn package_missing() -> FailureView {
    binding_conflict("existing run immutable flow lock package is unavailable"@)
}

pub fn missing_package() -> (r: DriverFailure)
    ensures
        r.deep_view() == package_missing(),
{
    DriverFailure::new(
        "run_binding_conflict",
        "existing run immutable flow lock package is unavailable",
    )
}

/// Whether a run that is bound is asked for as it is bound.
pub open spec fn binding_stands(
    bound: RunBindingView,
    lock_id: Seq<char>,
    content_hash: Seq<char>,
    run_mode: RunMode,
    activation_limit: u64,
    stop_attempt_limit: u32,
) -> bool {
    &&& bound.flow_lock_id == lock_id
    &&& bound.content_hash == content_hash
    &&& bound.run_mode == Some(run_mode)
    &&& bound.initial_activation_limit == Some(activation_limit)
    &&& bound.stop_attempt_limit == Some(stop_attempt_limit)
}

/// A run is bound once: another flow or another configuration is refused.
pub fn check_run_binding(
    bound: &RunBinding,
    lock_id: &str,
    content_hash: &str,
    run_mode: RunMode,
    activation_limit: u64,
    stop_attempt_limit: u32,
) -> (r: Result<(), DriverFailure>)
    ensures
        result_of(r) == (if binding_stands(
            bound.deep_view(),
            lock_id@,
            content_hash@,
            run_mode,
            activation_limit,
            stop_attempt_limit,
        ) {
            Ok::<(), FailureView>(())
        } else {
            Err(
                binding_conflict(
                    "existing run is bound to a different immutable flow lock or run configuration"@,
                ),
            )
        }),
{
    let mode_stands = match bound.run_mode {
        Some(mode) => mode == run_mode,
        None => false,
    };
    let limit_stands = match bound.initial_activation_limit {
        Some(limit) => limit == activation_limit,
        None => false,
    };
    let attempts_stand = match bound.stop_attempt_limit {
        Some(limit) => limit == stop_attempt_limit,
        None => false,
    };
    if same(bound.flow_lock_id.as_str(), lock_id) && same(
        bound.content_hash.as_str(),
        content_hash,
    ) && mode_stands && limit_stands && attempts_stand {
        Ok(())
    } else {
        Err(
            DriverFailure::new(
                "run_binding_conflict",
                "existing run is bound to a different immutable flow lock or run configuration",
            ),
        )
    }
}

/// Whether a run is bound to a lock that is at hand.
pub open spec fn is_bound(
    content_hash: Option<Seq<char>>,
    package_hash: Option<Seq<char>>,
    lock_readable: bool,
) -> bool {
    content_hash is Some && package_hash == content_hash && lock_readable
}

pub fn has_bound_run(
    content_hash: &Option<String>,
    package_hash: &Option<String>,
    lock_readable: bool,
) -> (r: bool)
    ensures
        r == is_bound(content_hash.deep_view(), package_hash.deep_view(), lock_readable),
{
    match (content_hash, package_hash) {
        (Some(bound), Some(held)) => same(bound.as_str(), held.as_str()) && lock_readable,
        _ => false,
    }
}

/// The activations of a run.
pub open spec fn activations_of(activations: Seq<ActivationView>, run_id: Seq<char>) -> Seq<
    Seq<char>,
>
    decreases activations.len(),
{
    if activations.len() == 0 {
        Seq::empty()
    } else {
        let front = activations_of(activations.drop_last(), run_id);
        if activations.last().run_id == run_id {
            front.push(activations.last().activation_id)
        } else {
            front
        }
    }
}

pub fn run_activation_ids(activations: &Vec<Activation>, run_id: &str) -> (r: Vec<String>)
    ensures
        r.deep_view() == activations_of(activations.deep_view(), run_id@),
{
    let ghost model = activations.deep_view();
    let mut out: Vec<String> = Vec::new();
    let mut i: usize = 0;
    assert(model.take(0) =~= Seq::<ActivationView>::empty());
    assert(out.deep_view() =~= Seq::<Seq<char>>::empty());
    while i < activations.len()
        invariant
            i <= activations.len(),
            model == activations.deep_view(),
            out.deep_view() == activations_of(model.take(i as int), run_id@),
        decreases activations.len() - i,
    {
        let ghost before = out.deep_view();
        let activation = &activations[i];
        assert(model.take(i + 1).drop_last() =~= model.take(i as int));
        assert(model.take(i + 1).last() == activation.deep_view());
        if same(activation.run_id.as_str(), run_id) {
            out.push(activation.activation_id.clone());
            assert(out.deep_view() =~= before.push(activation.deep_view().activation_id));
        }
        i += 1;
    }
    assert(model.take(i as int) =~= model);
    out
}

/// How a run is controlled.
#[derive(Debug, Clone, Copy, PartialEq, Eq, Structural)]
pub enum Control {
    Pause,
    Resume,
    Complete,
    Stop,
}

impl Control {
    /// Whether the panes of the run are ended.
    pub open spec fn ends(self) -> bool {
        self == Control::Stop || self == Control::Complete
    }

    pub fn finalizes(self) -> (r: bool)
        ensures
            r == self.ends(),
    {
        match self {
            Control::Stop | Control::Complete => true,
            _ => false,
        }
    }
}

/// What a request to control a run asks for, before anything is done.
#[derive(Debug)]
pub enum ControlStep {
    /// A word on input that may have arrived is to be taken down first.
    Resolve(InputDeliveryResolution),
    /// The run is not resumed, since input may have arrived.
    Pending,
    /// The run is to be controlled.
    Apply,
    /// A run that does not rest cannot be resumed.
    NotResting(RunStatus),
}

#[verifier::ext_equal]
pub enum ControlStepView {
    Resolve(ResolutionView),
    Pending,
    Apply,
    NotResting(RunStatus),
}

impl DeepView for ControlStep {
    type V = ControlStepView;

    open spec fn deep_view(&self) -> ControlStepView {
        match self {
            ControlStep::Resolve(resolution) => ControlStepView::Resolve(resolution.deep_view()),
            ControlStep::Pending => ControlStepView::Pending,
            ControlStep::Apply => ControlStepView::Apply,
            ControlStep::NotResting(status) => ControlStepView::NotResting(*status),
        }
    }
}

/// Whether a run rests.
pub open spec fn rests(status: RunStatus) -> bool {
    status == RunStatus::Paused || status == RunStatus::Quiescent
}

/// What a request to control a run asks for: only one to resume it may hold a word on input,
/// which must be about an open delivery. Without such a word a run is not resumed while any
/// delivery is open; with it, that is found out once the word is taken down.
pub open spec fn control_step(
    control: Control,
    request: JsonView,
    status: RunStatus,
    open: Seq<(DeliveryKeyView, AmbiguousDeliveryView)>,
) -> Result<ControlStepView, FailureView> {
    if control != Control::Resume {
        Ok(ControlStepView::Apply)
    } else {
        match resolution_in(request) {
            Err(failure) => Err(failure),
            Ok(resolution) => {
                let unmet = match resolution {
                    Some(resolution) => match delivery_meant(
                        open,
                        resolution.started_event_sequence,
                    ) {
                        Err(failure) => Some(failure),
                        Ok(_) => None,
                    },
                    None => None,
                };
                match unmet {
                    Some(failure) => Err(failure),
                    None => if !rests(status) {
                        Ok(ControlStepView::NotResting(status))
                    } else {
                        match resolution {
                            Some(resolution) => Ok(ControlStepView::Resolve(resolution)),
                            None => if open.len() > 0 {
                                Ok(ControlStepView::Pending)
                            } else {
                                Ok(ControlStepView::Apply)
                            },
                        }
                    },
                }
            },
        }
    }
}

impl ReplayedDriverEvents {
    /// What a request to control a run asks for.
    pub fn control(&self, control: Control, request: &Json, status: RunStatus) -> (r: Result<
        ControlStep,
        DriverFailure,
    >)
        ensures
            result_of(r) == control_step(
                control,
                request@,
                status,
                self.deliveries.ambiguous.pairs(),
            ),
    {
        match control {
            Control::Resume => {},
            _ => return Ok(ControlStep::Apply),
        }
        let resolution = match input_delivery_resolution_from_request(request) {
            Err(failure) => return Err(failure),
            Ok(resolution) => resolution,
        };
        if let Some(resolution) = &resolution {
            if let Err(failure) = self.deliveries.delivery_for_resolution(resolution) {
                return Err(failure);
            }
        }
        match status {
            RunStatus::Paused | RunStatus::Quiescent => {},
            _ => return Ok(ControlStep::NotResting(status)),
        }
        match resolution {
            Some(resolution) => Ok(ControlStep::Resolve(resolution)),
            None => if self.deliveries.ambiguous.len() > 0 {
                Ok(ControlStep::Pending)
            } else {
                Ok(ControlStep::Apply)
            },
        }
    }

    /// The deliveries that keep a run from being resumed.
    pub fn open_deliveries(&self) -> (r: Vec<Json>)
        ensures
            r.deep_view() == Seq::new(
                self.deliveries.ambiguous.pairs().len(),
                |i: int| self.deliveries.ambiguous.pairs()[i].1.json(),
            ),
    {
        let n: usize = self.deliveries.ambiguous.len();
        let ghost pairs = self.deliveries.ambiguous.pairs();
        let mut out: Vec<Json> = Vec::new();
        let mut i: usize = 0;
        while i < n
            invariant
                i <= n,
                pairs == self.deliveries.ambiguous.pairs(),
                n == pairs.len(),
                out.len() == i,
                forall|j: int| 0 <= j < i ==> (#[trigger] out@[j])@ == pairs[j].1.json(),
            decreases n - i,
        {
            out.push(self.deliveries.ambiguous.value_at(i).to_json());
            i += 1;
        }
        assert(out.deep_view() =~= Seq::new(pairs.len(), |i: int| pairs[i].1.json()));
        out
    }
}

/// A run that does not rest is not resumed, whatever the request says.
pub proof fn lemma_only_resting_runs_resume(
    request: JsonView,
    status: RunStatus,
    open: Seq<(DeliveryKeyView, AmbiguousDeliveryView)>,
)
    requires
        !rests(status),
    ensures
        match control_step(Control::Resume, request, status, open) {
            Ok(step) => step is NotResting,
            Err(_) => true,
        },
{
}

/// Whether a run has come to its end, so that its panes are ended.
pub fn is_terminal(status: RunStatus) -> (r: bool)
    ensures
        r == (status == RunStatus::Completed || status == RunStatus::Stopped),
{
    match status {
        RunStatus::Completed | RunStatus::Stopped => true,
        _ => false,
    }
}

/// What is typed at the console of the driver.
#[derive(Debug, Clone, Copy, PartialEq, Eq, Structural)]
pub enum ConsoleCommand {
    Help,
    Detach,
    Quit,
    Status,
    Why,
    Control(Control),
    Activations,
    Revisions,
    Unknown,
}

impl DeepView for ConsoleCommand {
    type V = ConsoleCommand;

    open spec fn deep_view(&self) -> ConsoleCommand {
        *self
    }
}

/// What a line at the console means; an empty one means nothing.
pub open spec fn typed(line: Seq<char>) -> Option<ConsoleCommand> {
    let command = trimmed(line);
    if command.len() == 0 {
        None
    } else if command == "help"@ {
        Some(ConsoleCommand::Help)
    } else if command == "detach"@ {
        Some(ConsoleCommand::Detach)
    } else if command == "quit"@ || command == "shutdown"@ {
        Some(ConsoleCommand::Quit)
    } else if command == "status"@ {
        Some(ConsoleCommand::Status)
    } else if command == "why"@ {
        Some(ConsoleCommand::Why)
    } else if command == "pause"@ {
        Some(ConsoleCommand::Control(Control::Pause))
    } else if command == "resume"@ {
        Some(ConsoleCommand::Control(Control::Resume))
    } else if command == "complete"@ {
        Some(ConsoleCommand::Control(Control::Complete))
    } else if command == "stop"@ {
        Some(ConsoleCommand::Control(Control::Stop))
    } else if command == "activations"@ {
        Some(ConsoleCommand::Activations)
    } else if command == "revisions"@ {
        Some(ConsoleCommand::Revisions)
    } else {
        Some(ConsoleCommand::Unknown)
    }
}

pub fn handle_console_command(line: &str) -> (r: Option<ConsoleCommand>)
    ensures
        r == typed(line@),
{
    let command = trim(line);
    if command.is_empty() {
        None
    } else if same(command, "help") {
        Some(ConsoleCommand::Help)
    } else if same(command, "detach") {
        Some(ConsoleCommand::Detach)
    } else if same(command, "quit") || same(command, "shutdown") {
        Some(ConsoleCommand::Quit)
    } else if same(command, "status") {
        Some(ConsoleCommand::Status)
    } else if same(command, "why") {
        Some(ConsoleCommand::Why)
    } else if same(command, "pause") {
        Some(ConsoleCommand::Control(Control::Pause))
    } else if same(command, "resume") {
        Some(ConsoleCommand::Control(Control::Resume))
    } else if same(command, "complete") {
        Some(ConsoleCommand::Control(Control::Complete))
    } else if same(command, "stop") {
        Some(ConsoleCommand::Control(Control::Stop))
    } else if same(command, "activations") {
        Some(ConsoleCommand::Activations)
    } else if same(command, "revisions") {
        Some(ConsoleCommand::Revisions)
    } else {
        Some(ConsoleCommand::Unknown)
    }
}

impl ConsoleCommand {
    /// What is shown at once, where nothing has to be looked up.
    pub open spec fn word(self) -> Option<Seq<char>> {
        match self {
            ConsoleCommand::Help => Some(
                "commands: help status why pause resume complete stop activations revisions detach quit shutdown"@,
            ),
            ConsoleCommand::Detach => Some("driver detached"@),
            ConsoleCommand::Quit => Some("driver stopping"@),
            ConsoleCommand::Unknown => Some("unknown command; try help"@),
            _ => None,
        }
    }

    pub fn immediate_output(self) -> (r: Option<&'static str>)
        ensures
            r.deep_view() == self.word(),
    {
        match self {
            ConsoleCommand::Help => Some(
                "commands: help status why pause resume complete stop activations revisions detach quit shutdown",
            ),
            ConsoleCommand::Detach => Some("driver detached"),
            ConsoleCommand::Quit => Some("driver stopping"),
            ConsoleCommand::Unknown => Some("unknown command; try help"),
            _ => None,
        }
    }
}

pub fn console_status(run_id: &str, status: RunStatus) -> (r: String)
    ensures
        r@ == "run_id="@ + run_id@ + " run_status="@ + status.name(),
{
    cat4("run_id=", run_id, " run_status=", run_status_name(status))
}

pub fn console_why(run_id: &str, status: RunStatus) -> (r: String)
    ensures
        r@ == "run_id="@ + run_id@ + " cause=run is "@ + status.name(),
{
    cat4("run_id=", run_id, " cause=run is ", run_status_name(status))
}

pub fn console_error(run_id: &str, message: &str) -> (r: String)
    ensures
        r@ == "run_id="@ + run_id@ + " error="@ + message@,
{
    cat4("run_id=", run_id, " error=", message)
}

/// Texts with a comma between them.
pub open spec fn with_commas(items: Seq<Seq<char>>) -> Seq<char>
    decreases items.len(),
{
    if items.len() == 0 {
        Seq::empty()
    } else if items.len() == 1 {
        items[0]
    } else {
        with_commas(items.drop_last()) + ","@ + items.last()
    }
}

fn join_with_commas(items: &Vec<String>) -> (r: String)
    ensures
        r@ == with_commas(items.deep_view()),
{
    let ghost model = items.deep_view();
    let mut out = String::new();
    let mut i: usize = 0;
    assert(model.take(0) =~= Seq::<Seq<char>>::empty());
    assert(out@ =~= Seq::<char>::empty());
    while i < items.len()
        invariant
            i <= items.len(),
            model == items.deep_view(),
            out@ == with_commas(model.take(i as int)),
        decreases items.len() - i,
    {
        assert(model.take(i + 1).drop_last() =~= model.take(i as int));
        assert(model.take(i + 1).last() == items@[i as int]@);
        if i > 0 {
            out = cat3(out.as_str(), ",", items[i].as_str());
        } else {
            assert(model.take(1)[0] == items@[0]@);
            out = items[i].clone();
        }
        i += 1;
    }
    assert(model.take(i as int) =~= model);
    out
}

/// The activations of a run, each with how it stands.
pub open spec fn activation_words(activations: Seq<ActivationView>, run_id: Seq<char>) -> Seq<
    Seq<char>,
>
    decreases activations.len(),
{
    if activations.len() == 0 {
        Seq::empty()
    } else {
        let front = activation_words(activations.drop_last(), run_id);
        let last = activations.last();
        if last.run_id == run_id {
            front.push(last.activation_id + ":"@ + last.status.name())
        } else {
            front
        }
    }
}

pub fn console_activations(activations: &Vec<Activation>, run_id: &str) -> (r: String)
    ensures
        r@ == "run_id="@ + run_id@ + " activations="@ + with_commas(
            activation_words(activations.deep_view(), run_id@),
        ),
{
    let ghost model = activations.deep_view();
    let mut words: Vec<String> = Vec::new();
    let mut i: usize = 0;
    assert(model.take(0) =~= Seq::<ActivationView>::empty());
    assert(words.deep_view() =~= Seq::<Seq<char>>::empty());
    while i < activations.len()
        invariant
            i <= activations.len(),
            model == activations.deep_view(),
            words.deep_view() == activation_words(model.take(i as int), run_id@),
        decreases activations.len() - i,
    {
        let ghost before = words.deep_view();
        let activation = &activations[i];
        assert(model.take(i + 1).drop_last() =~= model.take(i as int));
        assert(model.take(i + 1).last() == activation.deep_view());
        if same(activation.run_id.as_str(), run_id) {
            let word = cat3(
                activation.activation_id.as_str(),
                ":",
                activation_status_name(activation.status),
            );
            words.push(word);
            assert(words.deep_view() =~= before.push(word@));
        }
        i += 1;
    }
    assert(model.take(i as int) =~= model);
    let listed = join_with_commas(&words);
    cat4("run_id=", run_id, " activations=", listed.as_str())
}

pub fn console_revisions(run_id: &str, application_ids: &Vec<String>) -> (r: String)
    ensures
        r@ == "run_id="@ + run_id@ + " revisions="@ + with_commas(application_ids.deep_view()),
{
    let listed = join_with_commas(application_ids);
    cat4("run_id=", run_id, " revisions=", listed.as_str())
}

} // verus!
