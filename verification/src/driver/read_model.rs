//! What is told of a run: all that is known of it, and what an agent may know.
use vstd::prelude::*;

use crate::json::{
    field, no_fields, option_text, option_text_json, text_field, with_field, without_field, Fields,
    Json, JsonView,
};
use crate::order::{sort, sorted, Ranked};
use crate::text::{cat2, cat5, same};

use super::failure::{result_of, DriverFailure, FailureView};
use super::records::{StoredPane, StoredPaneView};
use super::request::optional_number;
use super::wire::{
    activation_status_name, flow_lock_mode_name, run_mode_name, run_status_name, ActivationStatus,
    FlowLockMode, RunMode, RunStatus,
};

verus! {

broadcast use vstd::string::group_string_axioms;

fn optional_number_json(n: Option<u64>) -> (r: Json)
    ensures
        r@ == optional_number(n),
{
    match n {
        Some(n) => Json::Unsigned(n),
        None => Json::Null,
    }
}

pub open spec fn small_or_null(n: Option<u32>) -> JsonView {
    match n {
        Some(n) => JsonView::Unsigned(n as u64),
        None => JsonView::Null,
    }
}

fn small_or_null_json(n: Option<u32>) -> (r: Json)
    ensures
        r@ == small_or_null(n),
{
    match n {
        Some(n) => Json::Unsigned(n as u64),
        None => Json::Null,
    }
}

pub open spec fn mode_or_null(mode: Option<RunMode>) -> JsonView {
    match mode {
        Some(mode) => JsonView::Text(mode.name()),
        None => JsonView::Null,
    }
}

fn mode_or_null_json(mode: Option<RunMode>) -> (r: Json)
    ensures
        r@ == mode_or_null(mode),
{
    match mode {
        Some(mode) => Json::text(run_mode_name(mode)),
        None => Json::Null,
    }
}

fn no_items() -> (r: Json)
    ensures
        r@ == JsonView::List(Seq::empty()),
{
    let none: Vec<Json> = Vec::new();
    assert(none.deep_view() =~= Seq::<JsonView>::empty());
    Json::list(none)
}

/// A run must be there to be told of.
pub fn require_run(has_run: bool) -> (r: Result<(), DriverFailure>)
    ensures
        result_of(r) == (if has_run {
            Ok::<(), FailureView>(())
        } else {
            Err(FailureView::plain("run_not_found"@, "run not found"@))
        }),
{
    if has_run {
        Ok(())
    } else {
        Err(DriverFailure::new("run_not_found", "run not found"))
    }
}

/// What is told of all that is known of a run.
pub open spec fn context_report(
    run_id: Seq<char>,
    context: JsonView,
) -> JsonView {
    JsonView::Record(
        no_fields()
            .push(("ok"@, JsonView::Bool(true)))
            .push(("run_id"@, JsonView::Text(run_id)))
            .push(("context"@, context)),
    )
}

pub fn context_response(
    run_id: &str,
    context: Json,
) -> (r: Json)
    ensures
        r@ == context_report(
            run_id@,
            context@,
        ),
{
    Fields::new()
        .put("ok", Json::Bool(true))
        .put("run_id", Json::text(run_id))
        .put("context", context)
        .done()
}

/// What is told to an agent of what is known of its run.
pub open spec fn own_context_report(
    context: JsonView,
) -> JsonView {
    JsonView::Record(
        no_fields()
            .push(("ok"@, JsonView::Bool(true)))
            .push(("context"@, context)),
    )
}

pub fn participant_context_response(
    context: Json,
) -> (r: Json)
    ensures
        r@ == own_context_report(
            context@,
        ),
{
    Fields::new()
        .put("ok", Json::Bool(true))
        .put("context", context)
        .done()
}

/// How a run stands.
pub open spec fn status_report(
    run_id: Seq<char>,
    status: RunStatus,
    run_status_reason: Option<Seq<char>>,
    run_mode: Option<RunMode>,
    initial_activation_limit: Option<u64>,
    activation_limit: Option<u64>,
    stop_attempt_limit: Option<u32>,
    activations_used: u64,
    context: JsonView,
) -> JsonView {
    JsonView::Record(
        no_fields()
            .push(("ok"@, JsonView::Bool(true)))
            .push(("run_id"@, JsonView::Text(run_id)))
            .push(("run_status"@, JsonView::Text(status.name())))
            .push(("run_status_reason"@, option_text(run_status_reason)))
            .push(("run_mode"@, mode_or_null(run_mode)))
            .push(("initial_activation_limit"@, optional_number(initial_activation_limit)))
            .push(("activation_limit"@, optional_number(activation_limit)))
            .push(("stop_attempt_limit"@, small_or_null(stop_attempt_limit)))
            .push(("activations_used"@, JsonView::Unsigned(activations_used)))
            .push(("context"@, context)),
    )
}

pub fn status_response(
    run_id: &str,
    status: RunStatus,
    run_status_reason: &Option<String>,
    run_mode: Option<RunMode>,
    initial_activation_limit: Option<u64>,
    activation_limit: Option<u64>,
    stop_attempt_limit: Option<u32>,
    activations_used: u64,
    context: Json,
) -> (r: Json)
    ensures
        r@ == status_report(
            run_id@,
            status,
            run_status_reason.deep_view(),
            run_mode,
            initial_activation_limit,
            activation_limit,
            stop_attempt_limit,
            activations_used,
            context@,
        ),
{
    Fields::new()
        .put("ok", Json::Bool(true))
        .put("run_id", Json::text(run_id))
        .put("run_status", Json::text(run_status_name(status)))
        .put("run_status_reason", option_text_json(run_status_reason))
        .put("run_mode", mode_or_null_json(run_mode))
        .put("initial_activation_limit", optional_number_json(initial_activation_limit))
        .put("activation_limit", optional_number_json(activation_limit))
        .put("stop_attempt_limit", small_or_null_json(stop_attempt_limit))
        .put("activations_used", Json::Unsigned(activations_used))
        .put("context", context)
        .done()
}

/// Why a run stands as it does.
pub open spec fn cause_report(
    run_id: Seq<char>,
    status: RunStatus,
    cause: Seq<char>,
) -> JsonView {
    JsonView::Record(
        no_fields()
            .push(("ok"@, JsonView::Bool(true)))
            .push(("run_id"@, JsonView::Text(run_id)))
            .push(("run_status"@, JsonView::Text(status.name())))
            .push(("cause"@, JsonView::Text(cause))),
    )
}

pub fn cause_response(
    run_id: &str,
    status: RunStatus,
    cause: &str,
) -> (r: Json)
    ensures
        r@ == cause_report(
            run_id@,
            status,
            cause@,
        ),
{
    Fields::new()
        .put("ok", Json::Bool(true))
        .put("run_id", Json::text(run_id))
        .put("run_status", Json::text(run_status_name(status)))
        .put("cause", Json::text(cause))
        .done()
}

/// What is told of an activation that may stop.
pub open spec fn stop_valid_report(
    run_id: Seq<char>,
    activation_id: Seq<char>,
) -> JsonView {
    JsonView::Record(
        no_fields()
            .push(("ok"@, JsonView::Bool(true)))
            .push(("run_id"@, JsonView::Text(run_id)))
            .push(("activation_id"@, JsonView::Text(activation_id)))
            .push(("valid"@, JsonView::Bool(true)))
            .push(("stop_valid"@, JsonView::Bool(true)))
            .push(("missing"@, JsonView::List(Seq::empty()))),
    )
}

pub fn stop_valid_response(
    run_id: &str,
    activation_id: &str,
) -> (r: Json)
    ensures
        r@ == stop_valid_report(
            run_id@,
            activation_id@,
        ),
{
    Fields::new()
        .put("ok", Json::Bool(true))
        .put("run_id", Json::text(run_id))
        .put("activation_id", Json::text(activation_id))
        .put("valid", Json::Bool(true))
        .put("stop_valid", Json::Bool(true))
        .put("missing", no_items())
        .done()
}

/// What is told of the routes that a run would take.
pub open spec fn routes_report(
    run_id: Seq<char>,
    lock_id: Seq<char>,
    content_hash: Seq<char>,
    source: Seq<char>,
    routes: JsonView,
) -> JsonView {
    JsonView::Record(
        no_fields()
            .push(("ok"@, JsonView::Bool(true)))
            .push(("run_id"@, JsonView::Text(run_id)))
            .push(("flow_lock_id"@, JsonView::Text(lock_id)))
            .push(("lock_id"@, JsonView::Text(lock_id)))
            .push(("content_hash"@, JsonView::Text(content_hash)))
            .push(("source"@, JsonView::Text(source)))
            .push(("routes"@, routes)),
    )
}

pub fn preview_flow_routes_response(
    run_id: &str,
    lock_id: &str,
    content_hash: &str,
    source: &str,
    routes: Json,
) -> (r: Json)
    ensures
        r@ == routes_report(
            run_id@,
            lock_id@,
            content_hash@,
            source@,
            routes@,
        ),
{
    Fields::new()
        .put("ok", Json::Bool(true))
        .put("run_id", Json::text(run_id))
        .put("flow_lock_id", Json::text(lock_id))
        .put("lock_id", Json::text(lock_id))
        .put("content_hash", Json::text(content_hash))
        .put("source", Json::text(source))
        .put("routes", routes)
        .done()
}

/// How a run is shown on a terminal.
pub open spec fn terminal_report(
    dashboard: Seq<char>,
    run_count: u64,
) -> JsonView {
    JsonView::Record(
        no_fields()
            .push(("ok"@, JsonView::Bool(true)))
            .push(("format"@, JsonView::Text("terminal"@)))
            .push(("dashboard"@, JsonView::Text(dashboard)))
            .push(("run_count"@, JsonView::Unsigned(run_count))),
    )
}

pub fn view_terminal_response(
    dashboard: &str,
    run_count: u64,
) -> (r: Json)
    ensures
        r@ == terminal_report(
            dashboard@,
            run_count,
        ),
{
    Fields::new()
        .put("ok", Json::Bool(true))
        .put("format", Json::text("terminal"))
        .put("dashboard", Json::text(dashboard))
        .put("run_count", Json::Unsigned(run_count))
        .done()
}

/// How a run is shown as JSON.
pub open spec fn snapshot_report(
    run_count: u64,
    snapshot: JsonView,
) -> JsonView {
    JsonView::Record(
        no_fields()
            .push(("ok"@, JsonView::Bool(true)))
            .push(("format"@, JsonView::Text("json"@)))
            .push(("run_count"@, JsonView::Unsigned(run_count)))
            .push(("snapshot"@, snapshot)),
    )
}

pub fn view_snapshot_response(
    run_count: u64,
    snapshot: Json,
) -> (r: Json)
    ensures
        r@ == snapshot_report(
            run_count,
            snapshot@,
        ),
{
    Fields::new()
        .put("ok", Json::Bool(true))
        .put("format", Json::text("json"))
        .put("run_count", Json::Unsigned(run_count))
        .put("snapshot", snapshot)
        .done()
}

/// What is known of an activation.
pub open spec fn activation_report(
    activation_id: Seq<char>,
    node_id: Seq<char>,
    stable_key: JsonView,
    activation_generation: u64,
    trigger: JsonView,
    status: ActivationStatus,
    context: JsonView,
    participant: JsonView,
    stop_attempts: u32,
) -> JsonView {
    JsonView::Record(
        no_fields()
            .push(("activation_id"@, JsonView::Text(activation_id)))
            .push(("node_id"@, JsonView::Text(node_id)))
            .push(("stable_key"@, stable_key))
            .push(("activation_generation"@, JsonView::Unsigned(activation_generation)))
            .push(("trigger"@, trigger))
            .push(("status"@, JsonView::Text(status.name())))
            .push(("context"@, context))
            .push(("participant"@, participant))
            .push(("stop_attempts"@, JsonView::Unsigned(stop_attempts as u64))),
    )
}

pub fn activation_context(
    activation_id: &str,
    node_id: &str,
    stable_key: Json,
    activation_generation: u64,
    trigger: Json,
    status: ActivationStatus,
    context: Json,
    participant: Json,
    stop_attempts: u32,
) -> (r: Json)
    ensures
        r@ == activation_report(
            activation_id@,
            node_id@,
            stable_key@,
            activation_generation,
            trigger@,
            status,
            context@,
            participant@,
            stop_attempts,
        ),
{
    Fields::new()
        .put("activation_id", Json::text(activation_id))
        .put("node_id", Json::text(node_id))
        .put("stable_key", stable_key)
        .put("activation_generation", Json::Unsigned(activation_generation))
        .put("trigger", trigger)
        .put("status", Json::text(activation_status_name(status)))
        .put("context", context)
        .put("participant", participant)
        .put("stop_attempts", Json::Unsigned(stop_attempts as u64))
        .done()
}

/// All that is known of a run.
pub open spec fn whole_context(
    run_id: Seq<char>,
    status: RunStatus,
    run_status_reason: Option<Seq<char>>,
    run_mode: Option<RunMode>,
    initial_activation_limit: Option<u64>,
    activation_limit: Option<u64>,
    stop_attempt_limit: Option<u32>,
    activations_used: u64,
    event_cursor: u64,
    context_generation: u64,
    activations: JsonView,
    artifacts: JsonView,
    artifact_versions: JsonView,
    board: JsonView,
    board_versions: JsonView,
    effects: JsonView,
    flow_revisions: Seq<JsonView>,
    ambiguous_deliveries: Seq<JsonView>,
    run_assets: JsonView,
) -> JsonView {
    JsonView::Record(
        no_fields()
            .push(("run_id"@, JsonView::Text(run_id)))
            .push(("run_status"@, JsonView::Text(status.name())))
            .push(("run_status_reason"@, option_text(run_status_reason)))
            .push(("run_mode"@, mode_or_null(run_mode)))
            .push(("initial_activation_limit"@, optional_number(initial_activation_limit)))
            .push(("activation_limit"@, optional_number(activation_limit)))
            .push(("stop_attempt_limit"@, small_or_null(stop_attempt_limit)))
            .push(("activations_used"@, JsonView::Unsigned(activations_used)))
            .push(("event_cursor"@, JsonView::Unsigned(event_cursor)))
            .push(("context_generation"@, JsonView::Unsigned(context_generation)))
            .push(("activations"@, activations))
            .push(("artifacts"@, artifacts))
            .push(("artifact_versions"@, artifact_versions))
            .push(("board"@, board))
            .push(("board_versions"@, board_versions))
            .push(("effects"@, effects))
            .push(("flow_revisions"@, JsonView::List(flow_revisions)))
            .push(("ambiguous_deliveries"@, JsonView::List(ambiguous_deliveries)))
            .push(("run_assets"@, run_assets)),
    )
}

pub fn read_context_json(
    run_id: &str,
    status: RunStatus,
    run_status_reason: &Option<String>,
    run_mode: Option<RunMode>,
    initial_activation_limit: Option<u64>,
    activation_limit: Option<u64>,
    stop_attempt_limit: Option<u32>,
    activations_used: u64,
    event_cursor: u64,
    context_generation: u64,
    activations: Json,
    artifacts: Json,
    artifact_versions: Json,
    board: Json,
    board_versions: Json,
    effects: Json,
    flow_revisions: Vec<Json>,
    ambiguous_deliveries: Vec<Json>,
    run_assets: Json,
) -> (r: Json)
    ensures
        r@ == whole_context(
            run_id@,
            status,
            run_status_reason.deep_view(),
            run_mode,
            initial_activation_limit,
            activation_limit,
            stop_attempt_limit,
            activations_used,
            event_cursor,
            context_generation,
            activations@,
            artifacts@,
            artifact_versions@,
            board@,
            board_versions@,
            effects@,
            flow_revisions.deep_view(),
            ambiguous_deliveries.deep_view(),
            run_assets@,
        ),
{
    Fields::new()
        .put("run_id", Json::text(run_id))
        .put("run_status", Json::text(run_status_name(status)))
        .put("run_status_reason", option_text_json(run_status_reason))
        .put("run_mode", mode_or_null_json(run_mode))
        .put("initial_activation_limit", optional_number_json(initial_activation_limit))
        .put("activation_limit", optional_number_json(activation_limit))
        .put("stop_attempt_limit", small_or_null_json(stop_attempt_limit))
        .put("activations_used", Json::Unsigned(activations_used))
        .put("event_cursor", Json::Unsigned(event_cursor))
        .put("context_generation", Json::Unsigned(context_generation))
        .put("activations", activations)
        .put("artifacts", artifacts)
        .put("artifact_versions", artifact_versions)
        .put("board", board)
        .put("board_versions", board_versions)
        .put("effects", effects)
        .put("flow_revisions", Json::list(flow_revisions))
        .put("ambiguous_deliveries", Json::list(ambiguous_deliveries))
        .put("run_assets", run_assets)
        .done()
}

/// Why a run stands as it does: the reason that was given, or how it stands.
pub open spec fn cause_of(reason: Option<Seq<char>>, status: RunStatus) -> Seq<char> {
    match reason {
        Some(reason) => reason,
        None => "run is "@ + status.name(),
    }
}

pub fn why_response(run_id: &str, status: RunStatus, reason: &Option<String>) -> (r: Json)
    ensures
        r@ == cause_report(run_id@, status, cause_of(reason.deep_view(), status)),
{
    let cause = match reason {
        Some(reason) => reason.clone(),
        None => cat2("run is ", run_status_name(status)),
    };
    cause_response(run_id, status, cause.as_str())
}

/// Fields with the given key alone.
pub open spec fn only_key(fields: Seq<(Seq<char>, JsonView)>, key: Seq<char>) -> Seq<
    (Seq<char>, JsonView),
>
    decreases fields.len(),
{
    if fields.len() == 0 {
        fields
    } else {
        let front = only_key(fields.drop_last(), key);
        if fields.last().0 == key {
            front.push(fields.last())
        } else {
            front
        }
    }
}

/// What is known of a run, without what is no business of an agent.
pub open spec fn trimmed_context(context: JsonView) -> JsonView {
    without_field(
        without_field(
            without_field(without_field(context, "run_id"@), "run_assets"@),
            "flow_revisions"@,
        ),
        "ambiguous_deliveries"@,
    )
}

/// What an agent may know of its run: of the activations only its own.
pub open spec fn own_context(context: JsonView, activation_id: Seq<char>) -> JsonView {
    if context !is Record {
        context
    } else {
        let rest = trimmed_context(context);
        match field(rest, "activations"@) {
            Some(JsonView::Record(activations)) => with_field(
                rest,
                "activations"@,
                JsonView::Record(only_key(activations, activation_id)),
            ),
            _ => rest,
        }
    }
}

fn keep_only(record: &Json, key: &str) -> (r: Json)
    requires
        record@ is Record,
    ensures
        r@ == JsonView::Record(only_key(record@->Record_0, key@)),
{
    let mut out = Fields::new();
    match record {
        Json::Record(fields) => {
            let ghost model = record@->Record_0;
            let mut i: usize = 0;
            assert(model.take(0) =~= no_fields());
            while i < fields.len()
                invariant
                    i <= fields.len(),
                    record@ is Record,
                    *record is Record,
                    *fields == record->Record_0,
                    model == record@->Record_0,
                    model.len() == fields@.len(),
                    out@ == only_key(model.take(i as int), key@),
                decreases fields.len() - i,
            {
                let pair = &fields[i];
                assert(model[i as int] == (pair.0@, pair.1@));
                assert(model.take(i + 1).drop_last() =~= model.take(i as int));
                assert(model.take(i + 1).last() == model[i as int]);
                if same(pair.0.as_str(), key) {
                    out = out.put(pair.0.as_str(), pair.1.clone());
                }
                i += 1;
            }
            assert(model.take(i as int) =~= model);
        },
        _ => {},
    }
    out.done()
}

pub fn participant_context_projection(context: Json, activation_id: &str) -> (r: Json)
    ensures
        r@ == own_context(context@, activation_id@),
{
    if !context.is_record() {
        return context;
    }
    let rest = context.without("run_id").without("run_assets").without("flow_revisions").without(
        "ambiguous_deliveries",
    );
    let kept = match rest.get("activations") {
        Some(activations) => {
            if activations.is_record() {
                Some(keep_only(activations, activation_id))
            } else {
                None
            }
        },
        None => None,
    };
    match kept {
        Some(kept) => rest.with("activations", kept),
        None => rest,
    }
}

proof fn lemma_only_key(fields: Seq<(Seq<char>, JsonView)>, key: Seq<char>, i: int)
    requires
        0 <= i < only_key(fields, key).len(),
    ensures
        only_key(fields, key)[i].0 == key,
    decreases fields.len(),
{
    let front = only_key(fields.drop_last(), key);
    if i < front.len() {
        lemma_only_key(fields.drop_last(), key, i);
    }
}

/// An agent is told neither of the assets of its run, nor of its revisions and deliveries, nor
/// of any other activation.
pub proof fn lemma_agents_know_their_own(context: JsonView, activation_id: Seq<char>, i: int)
    requires
        context is Record,
    ensures
        field(own_context(context, activation_id), "run_assets"@) is None,
        field(own_context(context, activation_id), "flow_revisions"@) is None,
        field(own_context(context, activation_id), "ambiguous_deliveries"@) is None,
        field(own_context(context, activation_id), "run_id"@) is None,
        field(own_context(context, activation_id), "activations"@) matches Some(
            JsonView::Record(activations),
        ) ==> (0 <= i < activations.len() ==> activations[i].0 == activation_id),
{
    reveal_strlit("run_id");
    reveal_strlit("run_assets");
    reveal_strlit("flow_revisions");
    reveal_strlit("ambiguous_deliveries");
    reveal_strlit("activations");
    assert("run_id"@.len() == 6);
    assert("run_assets"@.len() == 10);
    assert("flow_revisions"@.len() == 14);
    assert("ambiguous_deliveries"@.len() == 20);
    assert("activations"@.len() == 11);
    let a = without_field(context, "run_id"@);
    let b = without_field(a, "run_assets"@);
    let c = without_field(b, "flow_revisions"@);
    let d = without_field(c, "ambiguous_deliveries"@);
    let keys = seq!["run_id"@, "run_assets"@, "flow_revisions"@, "ambiguous_deliveries"@];
    assert forall|k: int| 0 <= k < 4 implies field(d, #[trigger] keys[k]) is None by {
        crate::json::lemma_field_gone(context, "run_id"@, keys[k]);
        crate::json::lemma_field_gone(a, "run_assets"@, keys[k]);
        crate::json::lemma_field_gone(b, "flow_revisions"@, keys[k]);
        crate::json::lemma_field_gone(c, "ambiguous_deliveries"@, keys[k]);
    }
    assert(field(d, keys[0]) is None);
    assert(field(d, keys[1]) is None);
    assert(field(d, keys[2]) is None);
    assert(field(d, keys[3]) is None);
    match field(d, "activations"@) {
        Some(JsonView::Record(activations)) => {
            let kept = JsonView::Record(only_key(activations, activation_id));
            crate::json::lemma_field_set(d, "activations"@, kept, "run_id"@);
            crate::json::lemma_field_set(d, "activations"@, kept, "run_assets"@);
            crate::json::lemma_field_set(d, "activations"@, kept, "flow_revisions"@);
            crate::json::lemma_field_set(d, "activations"@, kept, "ambiguous_deliveries"@);
            crate::json::lemma_field_set(d, "activations"@, kept, "activations"@);
            if 0 <= i < only_key(activations, activation_id).len() {
                lemma_only_key(activations, activation_id, i);
            }
        },
        _ => {},
    }
}

/// The assets of a run, without the words that show that agents are ready.
pub open spec fn without_nonces(run_assets: JsonView) -> JsonView {
    match field(run_assets, "activations"@) {
        Some(JsonView::Record(activations)) => with_field(
            run_assets,
            "activations"@,
            JsonView::Record(
                Seq::new(
                    activations.len(),
                    |i: int| (
                        activations[i].0,
                        without_field(activations[i].1, "readiness_nonce"@),
                    ),
                ),
            ),
        ),
        _ => run_assets,
    }
}

pub fn hide_readiness_nonces(run_assets: Json) -> (r: Json)
    ensures
        r@ == without_nonces(run_assets@),
{
    let shown = match run_assets.get("activations") {
        Some(activations) => match activations {
            Json::Record(fields) => {
                let ghost model = activations@->Record_0;
                let mut out = Fields::new();
                let mut i: usize = 0;
                let ghost wanted = Seq::new(
                    model.len(),
                    |i: int| (model[i].0, without_field(model[i].1, "readiness_nonce"@)),
                );
                assert(out@ =~= wanted.take(0));
                while i < fields.len()
                    invariant
                        i <= fields.len(),
                        *activations is Record,
                        *fields == activations->Record_0,
                        model == activations@->Record_0,
                        model.len() == fields@.len(),
                        wanted == Seq::new(
                            model.len(),
                            |i: int| (model[i].0, without_field(model[i].1, "readiness_nonce"@)),
                        ),
                        out@ == wanted.take(i as int),
                    decreases fields.len() - i,
                {
                    let pair = &fields[i];
                    assert(model[i as int] == (pair.0@, pair.1@));
                    let ghost before = out@;
                    out = out.put(pair.0.as_str(), pair.1.clone().without("readiness_nonce"));
                    assert(out@ =~= before.push(wanted[i as int]));
                    i += 1;
                    assert(out@ =~= wanted.take(i as int));
                }
                assert(wanted.take(i as int) =~= wanted);
                Some(out.done())
            },
            _ => None,
        },
        None => None,
    };
    match shown {
        Some(shown) => run_assets.with("activations", shown),
        None => run_assets,
    }
}

/// A lock that was applied to a run.
#[derive(Debug)]
pub struct FlowApplication {
    pub application_id: String,
    pub lock_id: String,
    pub content_hash: String,
    pub mode: FlowLockMode,
    pub event_sequence: u64,
    /// The review of the lock, where the lock is at hand.
    pub review_id: Option<String>,
}

#[verifier::ext_equal]
pub struct FlowApplicationView {
    pub application_id: Seq<char>,
    pub lock_id: Seq<char>,
    pub content_hash: Seq<char>,
    pub mode: FlowLockMode,
    pub event_sequence: u64,
    pub review_id: Option<Seq<char>>,
}

impl DeepView for FlowApplication {
    type V = FlowApplicationView;

    open spec fn deep_view(&self) -> FlowApplicationView {
        FlowApplicationView {
            application_id: self.application_id@,
            lock_id: self.lock_id@,
            content_hash: self.content_hash@,
            mode: self.mode,
            event_sequence: self.event_sequence,
            review_id: self.review_id.deep_view(),
        }
    }
}

impl Ranked for FlowApplication {
    open spec fn ranks(a: FlowApplicationView, b: FlowApplicationView) -> bool {
        a.event_sequence <= b.event_sequence
    }

    proof fn ranks_total(a: FlowApplicationView, b: FlowApplicationView) {
    }

    proof fn ranks_transitive(
        a: FlowApplicationView,
        b: FlowApplicationView,
        c: FlowApplicationView,
    ) {
    }

    fn at_most(&self, other: &Self) -> (r: bool) {
        self.event_sequence <= other.event_sequence
    }
}

impl FlowApplicationView {
    pub open spec fn json(self) -> JsonView {
        JsonView::Record(
            no_fields()
                .push(("revision_id"@, JsonView::Text(self.application_id)))
                .push(("flow_lock_id"@, JsonView::Text(self.lock_id)))
                .push(("content_hash"@, JsonView::Text(self.content_hash)))
                .push(("mode"@, JsonView::Text(self.mode.name())))
                .push(("event_sequence"@, JsonView::Unsigned(self.event_sequence)))
                .push(("review"@, option_text(self.review_id))),
        )
    }
}

/// The revisions of a run, in the order in which they were applied.
pub open spec fn revisions_shown(applications: Seq<FlowApplicationView>) -> Seq<JsonView> {
    let all = sorted::<FlowApplication>(applications);
    Seq::new(all.len(), |i: int| all[i].json())
}

pub fn flow_revisions_json(applications: Vec<FlowApplication>) -> (r: Vec<Json>)
    ensures
        r.deep_view() == revisions_shown(applications.deep_view()),
{
    let all = sort(applications);
    let ghost model = all.deep_view();
    let mut out: Vec<Json> = Vec::new();
    let mut i: usize = 0;
    while i < all.len()
        invariant
            i <= all.len(),
            model == all.deep_view(),
            out.len() == i,
            forall|j: int| 0 <= j < i ==> (#[trigger] out@[j])@ == model[j].json(),
        decreases all.len() - i,
    {
        let application = &all[i];
        assert(model[i as int] == application.deep_view());
        out.push(
            Fields::new()
                .put("revision_id", Json::text(application.application_id.as_str()))
                .put("flow_lock_id", Json::text(application.lock_id.as_str()))
                .put("content_hash", Json::text(application.content_hash.as_str()))
                .put("mode", Json::text(flow_lock_mode_name(application.mode)))
                .put("event_sequence", Json::Unsigned(application.event_sequence))
                .put("review", option_text_json(&application.review_id))
                .done(),
        );
        i += 1;
    }
    assert(out.deep_view() =~= Seq::new(model.len(), |i: int| model[i].json()));
    out
}

/// What is wrong with the lock that was applied last, where its routes are to be shown.
pub open spec fn latest_fault(
    application_named: bool,
    application_hash: Option<Seq<char>>,
    package_hash: Option<Seq<char>>,
) -> Option<FailureView> {
    if !application_named {
        Some(FailureView::plain("flow_lock_required"@, "flow_lock_id is required"@))
    } else {
        match application_hash {
            None => Some(
                FailureView::plain("flow_lock_not_found"@, "latest applied flow lock not found"@),
            ),
            Some(applied) => match package_hash {
                None => Some(
                    FailureView::plain("flow_lock_not_found"@, "flow lock package not found"@),
                ),
                Some(held) => if held != applied {
                    Some(
                        FailureView::plain(
                            "flow_lock_hash_mismatch"@,
                            "latest applied flow lock content hash mismatch"@,
                        ),
                    )
                } else {
                    None
                },
            },
        }
    }
}

pub fn check_latest_lock(
    application_named: bool,
    application_hash: &Option<String>,
    package_hash: &Option<String>,
) -> (r: Result<(), DriverFailure>)
    ensures
        match r {
            Ok(_) => latest_fault(
                application_named,
                application_hash.deep_view(),
                package_hash.deep_view(),
            ) is None,
            Err(failure) => latest_fault(
                application_named,
                application_hash.deep_view(),
                package_hash.deep_view(),
            ) == Some(failure.deep_view()),
        },
{
    if !application_named {
        return Err(DriverFailure::new("flow_lock_required", "flow_lock_id is required"));
    }
    let applied = match application_hash {
        None => return Err(
            DriverFailure::new("flow_lock_not_found", "latest applied flow lock not found"),
        ),
        Some(hash) => hash,
    };
    let held = match package_hash {
        None => return Err(
            DriverFailure::new("flow_lock_not_found", "flow lock package not found"),
        ),
        Some(hash) => hash,
    };
    if !same(held.as_str(), applied.as_str()) {
        return Err(
            DriverFailure::new(
                "flow_lock_hash_mismatch",
                "latest applied flow lock content hash mismatch",
            ),
        );
    }
    Ok(())
}

/// What is wrong with a request to show the routes of a lock: it may name the lock and its hash.
pub open spec fn preview_fault(
    request: JsonView,
    lock_id: Seq<char>,
    content_hash: Seq<char>,
) -> Option<FailureView> {
    match text_field(request, "flow_lock_id"@) {
        Some(named) => if named != lock_id {
            Some(
                FailureView::plain(
                    "flow_lock_identity_mismatch"@,
                    "flow lock id does not match exact package"@,
                ),
            )
        } else {
            hash_fault(request, content_hash)
        },
        None => hash_fault(request, content_hash),
    }
}

pub open spec fn hash_fault(request: JsonView, content_hash: Seq<char>) -> Option<FailureView> {
    match text_field(request, "content_hash"@) {
        Some(named) => if named != content_hash {
            Some(
                FailureView::plain(
                    "flow_lock_hash_mismatch"@,
                    "flow lock content hash mismatch"@,
                ),
            )
        } else {
            None
        },
        None => None,
    }
}

pub fn check_preview_request(request: &Json, lock_id: &str, content_hash: &str) -> (r: Result<
    (),
    DriverFailure,
>)
    ensures
        match r {
            Ok(_) => preview_fault(request@, lock_id@, content_hash@) is None,
            Err(failure) => preview_fault(request@, lock_id@, content_hash@) == Some(
                failure.deep_view(),
            ),
        },
{
    if let Some(named) = request.text_at("flow_lock_id") {
        if !same(named, lock_id) {
            return Err(
                DriverFailure::new(
                    "flow_lock_identity_mismatch",
                    "flow lock id does not match exact package",
                ),
            );
        }
    }
    if let Some(named) = request.text_at("content_hash") {
        if !same(named, content_hash) {
            return Err(
                DriverFailure::new("flow_lock_hash_mismatch", "flow lock content hash mismatch"),
            );
        }
    }
    Ok(())
}

/// How a pane is named as a whole.
pub open spec fn pane_name(pane: StoredPaneView) -> Seq<char> {
    pane.session_id + ":"@ + pane.window_id + "."@ + pane.pane_id
}

pub fn pane_mapping_name(pane: &StoredPane) -> (r: String)
    ensures
        r@ == pane_name(pane.deep_view()),
{
    cat5(pane.session_id.as_str(), ":", pane.window_id.as_str(), ".", pane.pane_id.as_str())
}

} // verus!
