//! Requests and answers as JSON: the fields that are asked for, and the names that are told.
use vstd::prelude::*;

use crate::flow::export::{order_fields, ordered};
use crate::json::{
    compact, field, json_compact, json_parse, no_fields, parse_json, text_field, text_list,
    text_list_json, unsigned_of, value_of, with_field, Fields, Json, JsonView,
};
use crate::text::{blank, cat2, cat3, is_blank, same};

use super::failure::{result_of, DriverFailure, FailureView};

verus! {

broadcast use vstd::string::group_string_axioms;

/// How a run stands.
#[derive(Debug, Clone, Copy, PartialEq, Eq, Structural)]
pub enum RunStatus {
    PendingReview,
    Ready,
    Running,
    Paused,
    Blocked,
    Quiescent,
    Completed,
    Failed,
    Stopping,
    Stopped,
}

impl DeepView for RunStatus {
    type V = RunStatus;

    open spec fn deep_view(&self) -> RunStatus {
        *self
    }
}

impl RunStatus {
    pub open spec fn name(self) -> Seq<char> {
        match self {
            RunStatus::PendingReview => "pending_review"@,
            RunStatus::Ready => "ready"@,
            RunStatus::Running => "running"@,
            RunStatus::Paused => "paused"@,
            RunStatus::Blocked => "blocked"@,
            RunStatus::Quiescent => "quiescent"@,
            RunStatus::Completed => "completed"@,
            RunStatus::Failed => "failed"@,
            RunStatus::Stopping => "stopping"@,
            RunStatus::Stopped => "stopped"@,
        }
    }
}

pub fn run_status_name(value: RunStatus) -> (r: &'static str)
    ensures
        r@ == value.name(),
{
    match value {
        RunStatus::PendingReview => "pending_review",
        RunStatus::Ready => "ready",
        RunStatus::Running => "running",
        RunStatus::Paused => "paused",
        RunStatus::Blocked => "blocked",
        RunStatus::Quiescent => "quiescent",
        RunStatus::Completed => "completed",
        RunStatus::Failed => "failed",
        RunStatus::Stopping => "stopping",
        RunStatus::Stopped => "stopped",
    }
}

/// When a run is over.
#[derive(Debug, Clone, Copy, PartialEq, Eq, Structural)]
pub enum RunMode {
    Finite,
    Continuous,
    Manual,
}

impl DeepView for RunMode {
    type V = RunMode;

    open spec fn deep_view(&self) -> RunMode {
        *self
    }
}

impl RunMode {
    pub open spec fn name(self) -> Seq<char> {
        match self {
            RunMode::Finite => "finite"@,
            RunMode::Continuous => "continuous"@,
            RunMode::Manual => "manual"@,
        }
    }
}

pub fn run_mode_name(value: RunMode) -> (r: &'static str)
    ensures
        r@ == value.name(),
{
    match value {
        RunMode::Finite => "finite",
        RunMode::Continuous => "continuous",
        RunMode::Manual => "manual",
    }
}

/// How an activation stands.
#[derive(Debug, Clone, Copy, PartialEq, Eq, Structural)]
pub enum ActivationStatus {
    Pending,
    Starting,
    Running,
    WaitingForStop,
    ValidatingStop,
    Blocked,
    Completed,
    Failed,
    Cancelled,
}

impl DeepView for ActivationStatus {
    type V = ActivationStatus;

    open spec fn deep_view(&self) -> ActivationStatus {
        *self
    }
}

impl ActivationStatus {
    pub open spec fn name(self) -> Seq<char> {
        match self {
            ActivationStatus::Pending => "pending"@,
            ActivationStatus::Starting => "starting"@,
            ActivationStatus::Running => "running"@,
            ActivationStatus::WaitingForStop => "waiting_for_stop"@,
            ActivationStatus::ValidatingStop => "validating_stop"@,
            ActivationStatus::Blocked => "blocked"@,
            ActivationStatus::Completed => "completed"@,
            ActivationStatus::Failed => "failed"@,
            ActivationStatus::Cancelled => "cancelled"@,
        }
    }
}

pub fn activation_status_name(value: ActivationStatus) -> (r: &'static str)
    ensures
        r@ == value.name(),
{
    match value {
        ActivationStatus::Pending => "pending",
        ActivationStatus::Starting => "starting",
        ActivationStatus::Running => "running",
        ActivationStatus::WaitingForStop => "waiting_for_stop",
        ActivationStatus::ValidatingStop => "validating_stop",
        ActivationStatus::Blocked => "blocked",
        ActivationStatus::Completed => "completed",
        ActivationStatus::Failed => "failed",
        ActivationStatus::Cancelled => "cancelled",
    }
}

/// How a new lock takes effect.
#[derive(Debug, Clone, Copy, PartialEq, Eq, Structural)]
pub enum FlowLockMode {
    FutureActivations,
    CheckpointRestart,
}

impl DeepView for FlowLockMode {
    type V = FlowLockMode;

    open spec fn deep_view(&self) -> FlowLockMode {
        *self
    }
}

impl FlowLockMode {
    pub open spec fn name(self) -> Seq<char> {
        match self {
            FlowLockMode::FutureActivations => "future_activations"@,
            FlowLockMode::CheckpointRestart => "checkpoint_restart"@,
        }
    }
}

pub fn flow_lock_mode_name(value: FlowLockMode) -> (r: &'static str)
    ensures
        r@ == value.name(),
{
    match value {
        FlowLockMode::FutureActivations => "future_activations",
        FlowLockMode::CheckpointRestart => "checkpoint_restart",
    }
}

/// What an agent that wants to stop is told.
#[derive(Debug, Clone, Copy, PartialEq, Eq, Structural)]
pub enum StopDecisionKind {
    Allow,
    Deny,
    Block,
    Yield,
}

impl DeepView for StopDecisionKind {
    type V = StopDecisionKind;

    open spec fn deep_view(&self) -> StopDecisionKind {
        *self
    }
}

impl StopDecisionKind {
    pub open spec fn name(self) -> Seq<char> {
        match self {
            StopDecisionKind::Allow => "allow"@,
            StopDecisionKind::Deny => "deny"@,
            StopDecisionKind::Block => "block"@,
            StopDecisionKind::Yield => "yield"@,
        }
    }
}

pub fn stop_decision_kind_name(value: StopDecisionKind) -> (r: &'static str)
    ensures
        r@ == value.name(),
{
    match value {
        StopDecisionKind::Allow => "allow",
        StopDecisionKind::Deny => "deny",
        StopDecisionKind::Block => "block",
        StopDecisionKind::Yield => "yield",
    }
}

/// What an agent that wanted to stop was told, and why.
#[derive(Debug)]
pub struct StopDecision {
    pub kind: StopDecisionKind,
    pub attempt: u32,
    pub missing_artifacts: Vec<String>,
    pub missing_effects: Vec<String>,
    pub reason: String,
}

#[verifier::ext_equal]
pub struct StopDecisionView {
    pub kind: StopDecisionKind,
    pub attempt: u32,
    pub missing_artifacts: Seq<Seq<char>>,
    pub missing_effects: Seq<Seq<char>>,
    pub reason: Seq<char>,
}

impl DeepView for StopDecision {
    type V = StopDecisionView;

    open spec fn deep_view(&self) -> StopDecisionView {
        StopDecisionView {
            kind: self.kind,
            attempt: self.attempt,
            missing_artifacts: self.missing_artifacts.deep_view(),
            missing_effects: self.missing_effects.deep_view(),
            reason: self.reason@,
        }
    }
}

/// A list of texts that is owned, as JSON.
pub fn texts_json(items: &Vec<String>) -> (r: Json)
    ensures
        r@ == text_list(items.deep_view()),
{
    let listed = items.as_slice();
    assert(listed.deep_view() =~= items.deep_view());
    text_list_json(listed)
}

impl StopDecisionView {
    pub open spec fn json(self) -> JsonView {
        JsonView::Record(
            no_fields()
                .push(("kind"@, JsonView::Text(self.kind.name())))
                .push(("attempt"@, JsonView::Unsigned(self.attempt as u64)))
                .push(("missing_artifacts"@, text_list(self.missing_artifacts)))
                .push(("missing_effects"@, text_list(self.missing_effects)))
                .push(("reason"@, JsonView::Text(self.reason))),
        )
    }

    /// What the hook of the agent does: an agent that is blocked is let go too.
    pub open spec fn hook_action(self) -> Seq<char> {
        match self.kind {
            StopDecisionKind::Allow => "allow"@,
            StopDecisionKind::Block => "allow"@,
            StopDecisionKind::Deny => "deny"@,
            StopDecisionKind::Yield => "deny"@,
        }
    }
}

impl StopDecision {
    pub fn to_json(&self) -> (r: Json)
        ensures
            r@ == self.deep_view().json(),
    {
        Fields::new()
            .put("kind", Json::text(stop_decision_kind_name(self.kind)))
            .put("attempt", Json::Unsigned(self.attempt as u64))
            .put("missing_artifacts", texts_json(&self.missing_artifacts))
            .put("missing_effects", texts_json(&self.missing_effects))
            .put("reason", Json::text(self.reason.as_str()))
            .done()
    }

    pub fn hook_action(&self) -> (r: &'static str)
        ensures
            r@ == self.deep_view().hook_action(),
    {
        match self.kind {
            StopDecisionKind::Allow | StopDecisionKind::Block => "allow",
            StopDecisionKind::Deny | StopDecisionKind::Yield => "deny",
        }
    }
}

pub fn stop_decisions_json(decisions: &Vec<StopDecision>) -> (r: Vec<Json>)
    ensures
        r.deep_view() == Seq::new(
            decisions.deep_view().len(),
            |i: int| decisions.deep_view()[i].json(),
        ),
{
    let mut out: Vec<Json> = Vec::new();
    let ghost model = decisions.deep_view();
    let mut i: usize = 0;
    while i < decisions.len()
        invariant
            i <= decisions.len(),
            out.len() == i,
            model == decisions.deep_view(),
            forall|j: int| 0 <= j < i ==> (#[trigger] out@[j])@ == model[j].json(),
        decreases decisions.len() - i,
    {
        out.push(decisions[i].to_json());
        i += 1;
    }
    assert(out.deep_view() =~= Seq::new(model.len(), |i: int| model[i].json()));
    out
}

/// Why an activation may not stop.
#[derive(Debug)]
pub enum StopValidationError {
    RunNotFound,
    ActivationNotFound,
    ActivationNotFoundInRun,
    MissingArtifact { artifact_key: String },
    MissingEffect { effect_key: String },
}

pub enum StopFaultView {
    RunNotFound,
    ActivationNotFound,
    ActivationNotFoundInRun,
    MissingArtifact { artifact_key: Seq<char> },
    MissingEffect { effect_key: Seq<char> },
}

impl DeepView for StopValidationError {
    type V = StopFaultView;

    open spec fn deep_view(&self) -> StopFaultView {
        match self {
            StopValidationError::RunNotFound => StopFaultView::RunNotFound,
            StopValidationError::ActivationNotFound => StopFaultView::ActivationNotFound,
            StopValidationError::ActivationNotFoundInRun =>
                StopFaultView::ActivationNotFoundInRun,
            StopValidationError::MissingArtifact { artifact_key } =>
                StopFaultView::MissingArtifact { artifact_key: artifact_key@ },
            StopValidationError::MissingEffect { effect_key } => StopFaultView::MissingEffect {
                effect_key: effect_key@,
            },
        }
    }
}

impl StopFaultView {
    /// What is missing, in a word.
    pub open spec fn missing(self) -> Seq<char> {
        match self {
            StopFaultView::MissingArtifact { artifact_key } => "artifact:"@ + artifact_key,
            StopFaultView::MissingEffect { effect_key } => "effect:"@ + effect_key,
            _ => "activation"@,
        }
    }

    /// What is missing, as an object.
    pub open spec fn detail(self, run_id: Seq<char>, activation_id: Seq<char>) -> JsonView {
        JsonView::Record(
            no_fields().push(
                match self {
                    StopFaultView::MissingArtifact { artifact_key } => (
                        "artifact_key"@,
                        JsonView::Text(artifact_key),
                    ),
                    StopFaultView::MissingEffect { effect_key } => (
                        "effect_key"@,
                        JsonView::Text(effect_key),
                    ),
                    StopFaultView::RunNotFound => ("run_id"@, JsonView::Text(run_id)),
                    _ => ("activation_id"@, JsonView::Text(activation_id)),
                },
            ),
        )
    }

    /// The answer to the question whether an activation may stop, where it may not.
    pub open spec fn response(
        self,
        run_id: Seq<char>,
        activation_id: Seq<char>,
        message: Seq<char>,
    ) -> JsonView {
        JsonView::Record(
            no_fields()
                .push(("ok"@, JsonView::Bool(false)))
                .push(("run_id"@, JsonView::Text(run_id)))
                .push(("activation_id"@, JsonView::Text(activation_id)))
                .push(("valid"@, JsonView::Bool(false)))
                .push(("stop_valid"@, JsonView::Bool(false)))
                .push(("missing"@, text_list(Seq::<Seq<char>>::empty().push(self.missing()))))
                .push(("missing_detail"@, self.detail(run_id, activation_id)))
                .push(("error"@, JsonView::Text(message))),
        )
    }
}

/// The answer to the question whether an activation may stop, where it may not.
pub fn stop_validation_error_json(
    run_id: &str,
    activation_id: &str,
    err: &StopValidationError,
    message: &str,
) -> (r: Json)
    ensures
        r@ == err.deep_view().response(run_id@, activation_id@, message@),
{
    let detail = match err {
        StopValidationError::MissingArtifact { artifact_key } => Fields::new().put(
            "artifact_key",
            Json::text(artifact_key.as_str()),
        ),
        StopValidationError::MissingEffect { effect_key } => Fields::new().put(
            "effect_key",
            Json::text(effect_key.as_str()),
        ),
        StopValidationError::RunNotFound => Fields::new().put("run_id", Json::text(run_id)),
        StopValidationError::ActivationNotFound
        | StopValidationError::ActivationNotFoundInRun => Fields::new().put(
            "activation_id",
            Json::text(activation_id),
        ),
    };
    let mut missing: Vec<String> = Vec::new();
    missing.push(stop_validation_missing(err));
    assert(missing.deep_view() =~= Seq::<Seq<char>>::empty().push(err.deep_view().missing()));
    Fields::new()
        .put("ok", Json::Bool(false))
        .put("run_id", Json::text(run_id))
        .put("activation_id", Json::text(activation_id))
        .put("valid", Json::Bool(false))
        .put("stop_valid", Json::Bool(false))
        .put("missing", texts_json(&missing))
        .put("missing_detail", detail.done())
        .put("error", Json::text(message))
        .done()
}

fn stop_validation_missing(err: &StopValidationError) -> (r: String)
    ensures
        r@ == err.deep_view().missing(),
{
    match err {
        StopValidationError::MissingArtifact { artifact_key } => cat2(
            "artifact:",
            artifact_key.as_str(),
        ),
        StopValidationError::MissingEffect { effect_key } => cat2("effect:", effect_key.as_str()),
        StopValidationError::RunNotFound
        | StopValidationError::ActivationNotFound
        | StopValidationError::ActivationNotFoundInRun => "activation".to_string(),
    }
}

/// A route that was taken, or could be.
#[derive(Debug)]
pub struct RouteDecision {
    pub run_id: String,
    pub flow_lock_id: String,
    pub route_index: u64,
    pub route_id: String,
    pub trigger: Json,
    pub predicate: Json,
    pub for_each: Json,
    pub planned_activation_ids: Vec<String>,
    pub applied_activation_ids: Vec<String>,
}

#[verifier::ext_equal]
pub struct RouteDecisionView {
    pub run_id: Seq<char>,
    pub flow_lock_id: Seq<char>,
    pub route_index: u64,
    pub route_id: Seq<char>,
    pub trigger: JsonView,
    pub predicate: JsonView,
    pub for_each: JsonView,
    pub planned_activation_ids: Seq<Seq<char>>,
    pub applied_activation_ids: Seq<Seq<char>>,
}

impl DeepView for RouteDecision {
    type V = RouteDecisionView;

    open spec fn deep_view(&self) -> RouteDecisionView {
        RouteDecisionView {
            run_id: self.run_id@,
            flow_lock_id: self.flow_lock_id@,
            route_index: self.route_index,
            route_id: self.route_id@,
            trigger: self.trigger@,
            predicate: self.predicate@,
            for_each: self.for_each@,
            planned_activation_ids: self.planned_activation_ids.deep_view(),
            applied_activation_ids: self.applied_activation_ids.deep_view(),
        }
    }
}

impl RouteDecisionView {
    pub open spec fn json(self) -> JsonView {
        JsonView::Record(
            no_fields()
                .push(("run_id"@, JsonView::Text(self.run_id)))
                .push(("flow_lock_id"@, JsonView::Text(self.flow_lock_id)))
                .push(("route_index"@, JsonView::Unsigned(self.route_index)))
                .push(("route_id"@, JsonView::Text(self.route_id)))
                .push(("trigger"@, self.trigger))
                .push(("predicate"@, self.predicate))
                .push(("for_each"@, self.for_each))
                .push(("activate"@, text_list(self.applied_activation_ids)))
                .push(("planned_activation_ids"@, text_list(self.planned_activation_ids)))
                .push(("applied_activation_ids"@, text_list(self.applied_activation_ids))),
        )
    }
}

impl RouteDecision {
    pub fn to_json(&self) -> (r: Json)
        ensures
            r@ == self.deep_view().json(),
    {
        Fields::new()
            .put("run_id", Json::text(self.run_id.as_str()))
            .put("flow_lock_id", Json::text(self.flow_lock_id.as_str()))
            .put("route_index", Json::Unsigned(self.route_index))
            .put("route_id", Json::text(self.route_id.as_str()))
            .put("trigger", self.trigger.clone())
            .put("predicate", self.predicate.clone())
            .put("for_each", self.for_each.clone())
            .put("activate", texts_json(&self.applied_activation_ids))
            .put("planned_activation_ids", texts_json(&self.planned_activation_ids))
            .put("applied_activation_ids", texts_json(&self.applied_activation_ids))
            .done()
    }
}

pub fn route_decisions_json(decisions: &Vec<RouteDecision>) -> (r: Vec<Json>)
    ensures
        r.deep_view() == Seq::new(
            decisions.deep_view().len(),
            |i: int| decisions.deep_view()[i].json(),
        ),
{
    let mut out: Vec<Json> = Vec::new();
    let ghost model = decisions.deep_view();
    let mut i: usize = 0;
    while i < decisions.len()
        invariant
            i <= decisions.len(),
            out.len() == i,
            model == decisions.deep_view(),
            forall|j: int| 0 <= j < i ==> (#[trigger] out@[j])@ == model[j].json(),
        decreases decisions.len() - i,
    {
        out.push(decisions[i].to_json());
        i += 1;
    }
    assert(out.deep_view() =~= Seq::new(model.len(), |i: int| model[i].json()));
    out
}

/// What a payload holds: the JSON value that it spells, or the text itself.
pub open spec fn payload_value(payload: Seq<char>) -> JsonView {
    match json_parse(payload) {
        Ok(value) => value,
        Err(_) => JsonView::Text(payload),
    }
}

pub fn parse_payload_value(payload: &str) -> (r: Json)
    ensures
        r@ == payload_value(payload@),
{
    match parse_json(payload) {
        Ok(value) => value,
        Err(_) => Json::text(payload),
    }
}

/// The payload that stands for a value: a text as it is, anything else as it is printed.
pub open spec fn payload_text(value: Option<JsonView>) -> Seq<char> {
    match value {
        Some(JsonView::Text(text)) => text,
        Some(value) => json_compact(value_of(ordered(value))),
        None => "null"@,
    }
}

pub fn payload_string(value: Option<&Json>) -> (r: String)
    ensures
        r@ == payload_text(value.deep_view()),
{
    match value {
        Some(Json::Text(text)) => text.clone(),
        Some(value) => compact(&order_fields(value)),
        None => "null".to_string(),
    }
}

/// An effect of an activation.
#[derive(Debug)]
pub struct EffectEntry {
    pub run_id: String,
    pub activation_id: String,
    pub effect_key: String,
    pub payload: String,
}

#[verifier::ext_equal]
pub struct EffectEntryView {
    pub run_id: Seq<char>,
    pub activation_id: Seq<char>,
    pub effect_key: Seq<char>,
    pub payload: Seq<char>,
}

impl DeepView for EffectEntry {
    type V = EffectEntryView;

    open spec fn deep_view(&self) -> EffectEntryView {
        EffectEntryView {
            run_id: self.run_id@,
            activation_id: self.activation_id@,
            effect_key: self.effect_key@,
            payload: self.payload@,
        }
    }
}

/// The effects of a run, by activation and key.
pub open spec fn effects_of(effects: Seq<EffectEntryView>, run_id: Seq<char>) -> JsonView
    decreases effects.len(),
{
    if effects.len() == 0 {
        JsonView::Record(no_fields())
    } else {
        let front = effects_of(effects.drop_last(), run_id);
        let effect = effects.last();
        if effect.run_id == run_id {
            with_field(
                front,
                effect.activation_id + "/"@ + effect.effect_key,
                payload_value(effect.payload),
            )
        } else {
            front
        }
    }
}

pub fn effects_json(effects: &Vec<EffectEntry>, run_id: &str) -> (r: Json)
    ensures
        r@ == effects_of(effects.deep_view(), run_id@),
{
    let mut out = Fields::new().done();
    let ghost model = effects.deep_view();
    let mut i: usize = 0;
    assert(model.take(0) =~= Seq::<EffectEntryView>::empty());
    while i < effects.len()
        invariant
            i <= effects.len(),
            model == effects.deep_view(),
            out@ == effects_of(model.take(i as int), run_id@),
        decreases effects.len() - i,
    {
        assert(model.take(i + 1).drop_last() =~= model.take(i as int));
        assert(model.take(i + 1).last() == effects@[i as int].deep_view());
        if same(effects[i].run_id.as_str(), run_id) {
            let key = cat3(effects[i].activation_id.as_str(), "/", effects[i].effect_key.as_str());
            out = out.with(key.as_str(), parse_payload_value(effects[i].payload.as_str()));
        }
        i += 1;
    }
    assert(model.take(i as int) =~= model);
    out
}

/// The payloads of a context, by key.
pub open spec fn context_payloads(entries: Seq<(Seq<char>, Seq<char>)>) -> JsonView
    decreases entries.len(),
{
    if entries.len() == 0 {
        JsonView::Record(no_fields())
    } else {
        with_field(
            context_payloads(entries.drop_last()),
            entries.last().0,
            payload_value(entries.last().1),
        )
    }
}

pub fn parse_context_payloads(entries: &Vec<(String, String)>) -> (r: Json)
    ensures
        r@ == context_payloads(entries.deep_view()),
{
    let mut out = Fields::new().done();
    let ghost model = entries.deep_view();
    let mut i: usize = 0;
    assert(model.take(0) =~= Seq::<(Seq<char>, Seq<char>)>::empty());
    while i < entries.len()
        invariant
            i <= entries.len(),
            model == entries.deep_view(),
            out@ == context_payloads(model.take(i as int)),
        decreases entries.len() - i,
    {
        assert(model.take(i + 1).drop_last() =~= model.take(i as int));
        assert(model.take(i + 1).last() == (entries@[i as int].0@, entries@[i as int].1@));
        out = out.with(entries[i].0.as_str(), parse_payload_value(entries[i].1.as_str()));
        i += 1;
    }
    assert(model.take(i as int) =~= model);
    out
}

/// A field under one of two names; the first one counts.
pub open spec fn either_field(
    value: JsonView,
    key: Seq<char>,
    alias: Seq<char>,
) -> Option<JsonView> {
    match field(value, key) {
        Some(item) => Some(item),
        None => field(value, alias),
    }
}

pub fn get_either<'a>(value: &'a Json, key: &str, alias: &str) -> (r: Option<&'a Json>)
    ensures
        r.deep_view() == either_field(value@, key@, alias@),
{
    match value.get(key) {
        Some(item) => Some(item),
        None => value.get(alias),
    }
}

/// An unsigned number that may be missing, under one of two names.
pub open spec fn optional_u64(value: JsonView, key: Seq<char>, alias: Seq<char>) -> Result<
    Option<u64>,
    FailureView,
> {
    match field(value, key) {
        Some(item) => match unsigned_of(item) {
            Some(n) => Ok(Some(n)),
            None => Err(
                FailureView::plain(
                    "malformed_request"@,
                    key + " must be an unsigned integer"@,
                ),
            ),
        },
        None => match field(value, alias) {
            Some(item) => match unsigned_of(item) {
                Some(n) => Ok(Some(n)),
                None => Err(
                    FailureView::plain(
                        "malformed_request"@,
                        alias + " must be an unsigned integer"@,
                    ),
                ),
            },
            None => Ok(None),
        },
    }
}

pub fn optional_u64_field(value: &Json, key: &str, alias: &str) -> (r: Result<
    Option<u64>,
    DriverFailure,
>)
    ensures
        result_of(r) == optional_u64(value@, key@, alias@),
{
    match value.get(key) {
        Some(item) => match item.as_u64() {
            Some(n) => Ok(Some(n)),
            None => Err(
                DriverFailure::told(
                    "malformed_request",
                    cat2(key, " must be an unsigned integer"),
                ),
            ),
        },
        None => match value.get(alias) {
            Some(item) => match item.as_u64() {
                Some(n) => Ok(Some(n)),
                None => Err(
                    DriverFailure::told(
                        "malformed_request",
                        cat2(alias, " must be an unsigned integer"),
                    ),
                ),
            },
            None => Ok(None),
        },
    }
}

/// A text that has to be there.
pub open spec fn demanded(value: JsonView, key: Seq<char>) -> Result<Seq<char>, FailureView> {
    match text_field(value, key) {
        Some(text) => Ok(text),
        None => Err(FailureView::plain("malformed_request"@, key + " is required"@)),
    }
}

pub fn required_string<'a>(value: &'a Json, key: &str) -> (r: Result<&'a str, DriverFailure>)
    ensures
        result_of(r) == demanded(value@, key@),
{
    match value.text_at(key) {
        Some(text) => Ok(text),
        None => Err(DriverFailure::told("malformed_request", cat2(key, " is required"))),
    }
}

/// A text that has to be there, with more than white space in it.
pub open spec fn demanded_filled(value: JsonView, key: Seq<char>) -> Result<
    Seq<char>,
    FailureView,
> {
    match demanded(value, key) {
        Err(failure) => Err(failure),
        Ok(text) => if is_blank(text) {
            Err(FailureView::plain("malformed_request"@, key + " must be non-empty"@))
        } else {
            Ok(text)
        },
    }
}

pub fn required_nonempty<'a>(value: &'a Json, key: &str) -> (r: Result<&'a str, DriverFailure>)
    ensures
        result_of(r) == demanded_filled(value@, key@),
{
    match required_string(value, key) {
        Err(failure) => Err(failure),
        Ok(text) => if blank(text) {
            Err(DriverFailure::told("malformed_request", cat2(key, " must be non-empty")))
        } else {
            Ok(text)
        },
    }
}

/// An answer with the id of its request.
pub fn with_id(id: Json, response: Json) -> (r: Json)
    ensures
        r@ == with_field(response@, "id"@, id@),
{
    response.with("id", id)
}

/// The answer to a request that is refused.
pub open spec fn refusal(id: JsonView, code: Seq<char>, message: Seq<char>) -> JsonView {
    JsonView::Record(
        no_fields()
            .push(("id"@, id))
            .push(("ok"@, JsonView::Bool(false)))
            .push(("error"@, JsonView::Record(
                no_fields()
                    .push(("code"@, JsonView::Text(code)))
                    .push(("message"@, JsonView::Text(message))),
            ))),
    )
}

pub fn driver_error(id: Json, code: &str, message: &str) -> (r: Json)
    ensures
        r@ == refusal(id@, code@, message@),
{
    Fields::new()
        .put("id", id)
        .put("ok", Json::Bool(false))
        .put(
            "error",
            Fields::new().put("code", Json::text(code)).put("message", Json::text(message)).done(),
        )
        .done()
}

} // verus!
