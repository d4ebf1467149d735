//! Requests to the driver: which are heard, what they ask for, and who may ask.
use vstd::prelude::*;

use crate::flow::contract::{node_contract, NodeContract, NodeContractView};
use crate::flow::export::{order_fields, ordered};
use crate::flow::model::{FlowDraft, FlowDraftView, FlowRoute, FlowRouteView};
use crate::json::{
    field, fields_of, flag_field, json_parse, no_fields, parse_json, read, text_field, with_field,
    Fields, Json, JsonView,
};
use crate::text::{cat2, same};

use super::delivery::{PlannedEvent, PlannedEventView};
use super::failure::{result_of, DriverFailure, FailureView};
use super::participant::{DEFAULT_STOP_ATTEMPT_LIMIT, MAX_STOP_ATTEMPT_LIMIT};
use super::prompt::{owed_artifacts, owed_effects};
use super::protocol::{named, wire_from_name, DriverWire};
use super::replay::{DriverDurableEvent, DriverEventView};
use super::wire::{
    driver_error, either_field, get_either, optional_u64, optional_u64_field, payload_string,
    payload_text, refusal, FlowLockMode, RunMode,
};

verus! {

broadcast use vstd::string::group_string_axioms;

/// How many connections are served at once.
pub const MAX_IPC_CONNECTIONS: usize = 32;

/// Whether one connection more is served.
pub fn reserve_connection(active: usize) -> (r: Option<usize>)
    ensures
        r == (if active < MAX_IPC_CONNECTIONS {
            Some((active + 1) as usize)
        } else {
            None
        }),
{
    if active >= MAX_IPC_CONNECTIONS {
        None
    } else {
        Some(active + 1)
    }
}

/// What came of reading a request.
#[derive(Debug, Clone, Copy, PartialEq, Eq, Structural)]
pub enum FrameFault {
    /// It is no text.
    NotText,
    TooLarge,
    Truncated,
    TimedOut,
    Unreadable,
}

impl FrameFault {
    pub open spec fn code(self) -> Seq<char> {
        match self {
            FrameFault::NotText => "malformed_request"@,
            FrameFault::TooLarge => "request_too_large"@,
            FrameFault::Truncated => "truncated_request"@,
            FrameFault::TimedOut => "request_timeout"@,
            FrameFault::Unreadable => "malformed_request"@,
        }
    }

    pub open spec fn text(self) -> Seq<char> {
        match self {
            FrameFault::NotText => "request must be valid UTF-8 JSON"@,
            FrameFault::TooLarge => "driver IPC request exceeds the maximum frame size"@,
            FrameFault::Truncated => "driver IPC request must end with a newline"@,
            FrameFault::TimedOut => "driver IPC request read deadline exceeded"@,
            FrameFault::Unreadable => "request could not be read"@,
        }
    }

    /// What is answered.
    pub fn response(self) -> (r: Json)
        ensures
            r@ == refusal(JsonView::Null, self.code(), self.text()),
    {
        match self {
            FrameFault::NotText => driver_error(
                Json::Null,
                "malformed_request",
                "request must be valid UTF-8 JSON",
            ),
            FrameFault::TooLarge => driver_error(
                Json::Null,
                "request_too_large",
                "driver IPC request exceeds the maximum frame size",
            ),
            FrameFault::Truncated => driver_error(
                Json::Null,
                "truncated_request",
                "driver IPC request must end with a newline",
            ),
            FrameFault::TimedOut => driver_error(
                Json::Null,
                "request_timeout",
                "driver IPC request read deadline exceeded",
            ),
            FrameFault::Unreadable => driver_error(
                Json::Null,
                "malformed_request",
                "request could not be read",
            ),
        }
    }
}

/// A request that is heard.
#[derive(Debug)]
pub struct IpcRequest {
    pub id: Json,
    pub op: String,
    pub run_id: String,
    pub request: Json,
}

#[verifier::ext_equal]
pub struct IpcRequestView {
    pub id: JsonView,
    pub op: Seq<char>,
    pub run_id: Seq<char>,
    pub request: JsonView,
}

impl DeepView for IpcRequest {
    type V = IpcRequestView;

    open spec fn deep_view(&self) -> IpcRequestView {
        IpcRequestView {
            id: self.id@,
            op: self.op@,
            run_id: self.run_id@,
            request: self.request@,
        }
    }
}

/// The id of a request.
pub open spec fn id_of(request: JsonView) -> JsonView {
    match field(request, "id"@) {
        Some(id) => id,
        None => JsonView::Null,
    }
}

/// What is heard of a value, or what is answered to it: it must be an object with the token of
/// the driver, an operation and a run.
pub open spec fn heard(
    request: JsonView,
    auth_token: Seq<char>,
) -> Result<IpcRequestView, JsonView> {
    let id = id_of(request);
    if request !is Record {
        Err(refusal(JsonView::Null, "malformed_request"@, "request must be a JSON object"@))
    } else {
        match text_field(request, "token"@) {
            None => Err(refusal(id, "unauthorized"@, "driver IPC token is required"@)),
            Some(token) => if token != auth_token {
                Err(refusal(id, "unauthorized"@, "driver IPC token is invalid"@))
            } else {
                match text_field(request, "op"@) {
                    None => Err(refusal(id, "malformed_request"@, "op is required"@)),
                    Some(op) => match text_field(request, "run_id"@) {
                        None => Err(refusal(id, "malformed_request"@, "run_id is required"@)),
                        Some(run_id) => Ok(IpcRequestView { id, op, run_id, request }),
                    },
                }
            },
        }
    }
}

/// What is heard of a line.
pub open spec fn heard_line(line: Seq<char>, auth_token: Seq<char>) -> Result<
    IpcRequestView,
    JsonView,
> {
    match json_parse(line) {
        Ok(request) => heard(request, auth_token),
        Err(_) => Err(
            refusal(JsonView::Null, "malformed_request"@, "request must be a JSON object"@),
        ),
    }
}

/// The model of a request that is heard, or of what is answered.
pub open spec fn heard_result(r: Result<IpcRequest, Json>) -> Result<IpcRequestView, JsonView> {
    match r {
        Ok(request) => Ok(request.deep_view()),
        Err(response) => Err(response@),
    }
}

/// What is heard of a value, or what is answered to it.
pub fn hear_request(request: Json, auth_token: &str) -> (r: Result<IpcRequest, Json>)
    ensures
        heard_result(r) == heard(request@, auth_token@),
{
    if !request.is_record() {
        return Err(
            driver_error(Json::Null, "malformed_request", "request must be a JSON object"),
        );
    }
    let id = match request.get("id") {
        Some(id) => id.clone(),
        None => Json::Null,
    };
    let token = match request.text_at("token") {
        Some(token) => token,
        None => return Err(driver_error(id, "unauthorized", "driver IPC token is required")),
    };
    if !same(token, auth_token) {
        return Err(driver_error(id, "unauthorized", "driver IPC token is invalid"));
    }
    let op = match request.text_at("op") {
        Some(op) => op.to_string(),
        None => return Err(driver_error(id, "malformed_request", "op is required")),
    };
    let run_id = match request.text_at("run_id") {
        Some(run_id) => run_id.to_string(),
        None => return Err(driver_error(id, "malformed_request", "run_id is required")),
    };
    Ok(IpcRequest { id, op, run_id, request })
}

/// What is heard of a line, or what is answered to it.
pub fn handle_ipc_line(line: &str, auth_token: &str) -> (r: Result<IpcRequest, Json>)
    ensures
        heard_result(r) == heard_line(line@, auth_token@),
{
    match parse_json(line) {
        Ok(request) => hear_request(request, auth_token),
        Err(_) => Err(
            driver_error(Json::Null, "malformed_request", "request must be a JSON object"),
        ),
    }
}

/// Nothing is heard without the token of the driver.
pub proof fn lemma_only_the_token_is_heard(line: Seq<char>, auth_token: Seq<char>)
    ensures
        heard_line(line, auth_token) is Ok ==> json_parse(line) is Ok && text_field(
            json_parse(line)->Ok_0,
            "token"@,
        ) == Some(auth_token),
{
}

/// Whether a request ends the driver.
pub fn requests_shutdown(op: &str, run_id: &str, own_run: &str) -> (r: bool)
    ensures
        r == (op@ == "shutdown"@ && run_id@ == own_run@),
{
    same(op, "shutdown") && same(run_id, own_run)
}

/// Whether an answer tells of an agent that exited.
pub open spec fn tells_exit(response: JsonView) -> bool {
    flag_field(response, "ok"@) == Some(true) && flag_field(response, "participant_exited"@)
        == Some(true)
}

fn is_true(flag: Option<bool>) -> (r: bool)
    ensures
        r == (flag == Some(true)),
{
    match flag {
        Some(flag) => flag,
        None => false,
    }
}

pub fn tells_participant_exit(response: &Json) -> (r: bool)
    ensures
        r == tells_exit(response@),
{
    is_true(response.flag_at("ok")) && is_true(response.flag_at("participant_exited"))
}

/// Whether the receipt of an answer is to be waited for.
pub fn requires_acknowledgement(response: &Json) -> (r: bool)
    ensures
        r == (flag_field(response@, "response_ack_required"@) == Some(true)),
{
    is_true(response.flag_at("response_ack_required"))
}

/// Whether a line is the receipt of an answer.
pub open spec fn acknowledges(line: Seq<char>) -> bool {
    match json_parse(line) {
        Ok(value) => text_field(value, "ack"@) == Some("response_received"@),
        Err(_) => false,
    }
}

pub fn response_acknowledged(line: &str) -> (r: bool)
    ensures
        r == acknowledges(line@),
{
    match parse_json(line) {
        Ok(value) => match value.text_at("ack") {
            Some(ack) => same(ack, "response_received"),
            None => false,
        },
        Err(_) => false,
    }
}

/// Whether the pane of an agent that exited is to be ended: only once its hook has the answer,
/// or asked again.
pub open spec fn ends_after(response: JsonView, written: bool, acknowledged: bool) -> bool {
    written && tells_exit(response) && (acknowledged || flag_field(response, "idempotent"@) == Some(
        true,
    ))
}

pub fn participant_exit_cleanup(response: &Json, written: bool, acknowledged: bool) -> (r: bool)
    ensures
        r == ends_after(response@, written, acknowledged),
{
    written && tells_participant_exit(response) && (acknowledged || is_true(
        response.flag_at("idempotent"),
    ))
}

/// What a request is about.
#[derive(Debug, Clone, Copy, PartialEq, Eq, Structural)]
pub enum Dispatch {
    /// Another run.
    WrongRun,
    Tool(DriverWire),
    ParticipantBind,
    ParticipantStop,
    ParticipantExited,
    Shutdown,
    Unknown,
}

/// What a request is about.
pub open spec fn dispatch_of(op: Seq<char>, run_id: Seq<char>, own_run: Seq<char>) -> Dispatch {
    if run_id != own_run {
        Dispatch::WrongRun
    } else {
        match named(op) {
            Some(wire) => Dispatch::Tool(wire),
            None => if op == "participant_bind"@ {
                Dispatch::ParticipantBind
            } else if op == "participant_stop"@ {
                Dispatch::ParticipantStop
            } else if op == "participant_exited"@ {
                Dispatch::ParticipantExited
            } else if op == "shutdown"@ {
                Dispatch::Shutdown
            } else {
                Dispatch::Unknown
            },
        }
    }
}

impl Dispatch {
    /// Whether what is published must be brought up to date before.
    pub open spec fn mutates(self) -> bool {
        match self {
            Dispatch::Tool(wire) => !wire.only_reads(),
            Dispatch::ParticipantBind => true,
            Dispatch::ParticipantStop => true,
            Dispatch::ParticipantExited => true,
            _ => false,
        }
    }

    pub fn is_mutation(self) -> (r: bool)
        ensures
            r == self.mutates(),
    {
        match self {
            Dispatch::Tool(wire) => wire.is_mutation(),
            Dispatch::ParticipantBind => true,
            Dispatch::ParticipantStop => true,
            Dispatch::ParticipantExited => true,
            _ => false,
        }
    }
}

/// What a request is about.
pub fn dispatch_request(op: &str, run_id: &str, own_run: &str) -> (r: Dispatch)
    ensures
        r == dispatch_of(op@, run_id@, own_run@),
{
    if !same(run_id, own_run) {
        return Dispatch::WrongRun;
    }
    match wire_from_name(op) {
        Some(wire) => Dispatch::Tool(wire),
        None => {
            if same(op, "participant_bind") {
                Dispatch::ParticipantBind
            } else if same(op, "participant_stop") {
                Dispatch::ParticipantStop
            } else if same(op, "participant_exited") {
                Dispatch::ParticipantExited
            } else if same(op, "shutdown") {
                Dispatch::Shutdown
            } else {
                Dispatch::Unknown
            }
        },
    }
}

/// What is told where what is published could not be brought up to date.
pub open spec fn publication_fault(private: bool, message: Seq<char>) -> FailureView {
    FailureView::plain(
        "publication_blocked"@,
        (if private {
            "private publication obligations must reconcile before mutation: "@
        } else {
            "pending public publication must reconcile before mutation: "@
        }) + message,
    )
}

pub fn publication_blocked(private: bool, message: &str) -> (r: DriverFailure)
    ensures
        r.deep_view() == publication_fault(private, message@),
{
    let head = if private {
        "private publication obligations must reconcile before mutation: "
    } else {
        "pending public publication must reconcile before mutation: "
    };
    DriverFailure::told("publication_blocked", cat2(head, message))
}

/// Where the history of a run stands.
#[derive(Debug, Clone, Copy)]
pub struct Authority {
    /// The number of the last event of the run.
    pub event_cursor: u64,
    /// How many events the driver has written.
    pub driver_event_count: u64,
}

impl Authority {
    /// A number that grows with every event.
    pub open spec fn generation(self) -> u64 {
        if self.event_cursor + self.driver_event_count > u64::MAX {
            u64::MAX
        } else {
            (self.event_cursor + self.driver_event_count) as u64
        }
    }

    pub fn context_generation(&self) -> (r: u64)
        ensures
            r == self.generation(),
    {
        self.event_cursor.saturating_add(self.driver_event_count)
    }
}

/// An answer that tells where the history stands.
pub open spec fn with_authority(response: JsonView, authority: Authority) -> JsonView {
    if response is Record {
        with_field(
            with_field(response, "event_cursor"@, JsonView::Unsigned(authority.event_cursor)),
            "context_generation"@,
            JsonView::Unsigned(authority.generation()),
        )
    } else {
        response
    }
}

pub fn with_authority_fields(response: Json, authority: &Authority) -> (r: Json)
    ensures
        r@ == with_authority(response@, *authority),
{
    if response.is_record() {
        response.with("event_cursor", Json::Unsigned(authority.event_cursor)).with(
            "context_generation",
            Json::Unsigned(authority.context_generation()),
        )
    } else {
        response
    }
}

pub open spec fn optional_number(n: Option<u64>) -> JsonView {
    match n {
        Some(n) => JsonView::Unsigned(n),
        None => JsonView::Null,
    }
}

fn optional_number_json(n: Option<u64>) -> (r: Json)
    ensures
        r@ == optional_number(n),
{
    match n {
        Some(n) => Json::Unsigned(n),
        None => Json::Null,
    }
}

/// What is told to one whose knowledge is out of date.
pub open spec fn stale(
    cursor: Option<u64>,
    generation: Option<u64>,
    authority: Authority,
) -> FailureView {
    FailureView {
        extra: JsonView::Record(
            no_fields()
                .push(("expected_event_cursor"@, optional_number(cursor)))
                .push(("actual_event_cursor"@, JsonView::Unsigned(authority.event_cursor)))
                .push(("expected_context_generation"@, optional_number(generation)))
                .push(("actual_context_generation"@, JsonView::Unsigned(authority.generation()))),
        ),
        ..FailureView::plain(
            "conflict"@,
            "stale driver authority cursor or context generation"@,
        )
    }
}

/// Whether what a request expects of the history is so; what it does not name may be anything.
pub open spec fn authority_fits(
    request: JsonView,
    authority: Authority,
) -> Result<(), FailureView> {
    match optional_u64(request, "expected_event_cursor"@, "expectedEventCursor"@) {
        Err(failure) => Err(failure),
        Ok(cursor) => match optional_u64(
            request,
            "expected_context_generation"@,
            "expectedContextGeneration"@,
        ) {
            Err(failure) => Err(failure),
            Ok(generation) => if (cursor is Some && cursor->0 != authority.event_cursor) || (
            generation is Some && generation->0 != authority.generation()) {
                Err(stale(cursor, generation, authority))
            } else {
                Ok(())
            },
        },
    }
}

pub fn check_expected_authority(request: &Json, authority: &Authority) -> (r: Result<
    (),
    DriverFailure,
>)
    ensures
        result_of(r) == authority_fits(request@, *authority),
{
    let cursor = match optional_u64_field(request, "expected_event_cursor", "expectedEventCursor") {
        Err(failure) => return Err(failure),
        Ok(cursor) => cursor,
    };
    let generation = match optional_u64_field(
        request,
        "expected_context_generation",
        "expectedContextGeneration",
    ) {
        Err(failure) => return Err(failure),
        Ok(generation) => generation,
    };
    let actual_generation = authority.context_generation();
    let cursor_stale = match cursor {
        Some(expected) => expected != authority.event_cursor,
        None => false,
    };
    let generation_stale = match generation {
        Some(expected) => expected != actual_generation,
        None => false,
    };
    if cursor_stale || generation_stale {
        return Err(
            DriverFailure::new(
                "conflict",
                "stale driver authority cursor or context generation",
            ).with_extra(
                Fields::new()
                    .put("expected_event_cursor", optional_number_json(cursor))
                    .put("actual_event_cursor", Json::Unsigned(authority.event_cursor))
                    .put("expected_context_generation", optional_number_json(generation))
                    .put("actual_context_generation", Json::Unsigned(actual_generation))
                    .done(),
            ),
        );
    }
    Ok(())
}

/// The numbers that an answer gives are those that are expected as long as nothing is written;
/// after any event of the driver the generation is another one, unless it is at its highest.
pub proof fn lemma_authority_goes_stale(authority: Authority)
    requires
        authority.event_cursor + authority.driver_event_count < u64::MAX,
    ensures
        ({
            let later = Authority {
                driver_event_count: (authority.driver_event_count + 1) as u64,
                ..authority
            };
            later.generation() == authority.generation() + 1
        }),
{
}

/// The event that is written next.
pub open spec fn next_event(
    event: PlannedEventView,
    driver_event_count: u64,
    at_ms: u64,
) -> DriverEventView {
    DriverEventView {
        seq: if driver_event_count == u64::MAX {
            u64::MAX
        } else {
            (driver_event_count + 1) as u64
        },
        at_ms,
        kind: event.kind,
        payload: event.payload,
    }
}

pub fn append_driver_event(event: PlannedEvent, driver_event_count: u64, at_ms: u64) -> (r:
    DriverDurableEvent)
    ensures
        r.deep_view() == next_event(event.deep_view(), driver_event_count, at_ms),
{
    DriverDurableEvent {
        seq: driver_event_count.saturating_add(1),
        at_ms,
        kind: event.kind.to_string(),
        payload: event.payload,
    }
}

/// The mode of a run that a request asks for.
pub open spec fn asked_mode(request: JsonView) -> Result<RunMode, FailureView> {
    match either_field(request, "run_mode"@, "runMode"@) {
        Some(JsonView::Text(mode)) => if mode == "finite"@ {
            Ok(RunMode::Finite)
        } else if mode == "continuous"@ {
            Ok(RunMode::Continuous)
        } else if mode == "manual"@ {
            Ok(RunMode::Manual)
        } else {
            Err(FailureView::plain("malformed_request"@, "unknown run mode: "@ + mode))
        },
        _ => Ok(RunMode::Finite),
    }
}

pub fn run_mode_from_request(request: &Json) -> (r: Result<RunMode, DriverFailure>)
    ensures
        result_of(r) == asked_mode(request@),
{
    match get_either(request, "run_mode", "runMode") {
        Some(Json::Text(mode)) => {
            if same(mode.as_str(), "finite") {
                Ok(RunMode::Finite)
            } else if same(mode.as_str(), "continuous") {
                Ok(RunMode::Continuous)
            } else if same(mode.as_str(), "manual") {
                Ok(RunMode::Manual)
            } else {
                Err(
                    DriverFailure::told(
                        "malformed_request",
                        cat2("unknown run mode: ", mode.as_str()),
                    ),
                )
            }
        },
        _ => Ok(RunMode::Finite),
    }
}

/// How many activations a run may have, as a request asks.
pub open spec fn asked_activation_limit(request: JsonView) -> Result<u64, FailureView> {
    match optional_u64(request, "activation_limit"@, "activationLimit"@) {
        Err(failure) => Err(failure),
        Ok(Some(limit)) => Ok(limit),
        Ok(None) => Ok(u64::MAX),
    }
}

pub fn activation_limit_from_request(request: &Json) -> (r: Result<u64, DriverFailure>)
    ensures
        result_of(r) == asked_activation_limit(request@),
{
    match optional_u64_field(request, "activation_limit", "activationLimit") {
        Err(failure) => Err(failure),
        Ok(Some(limit)) => Ok(limit),
        Ok(None) => Ok(0xffff_ffff_ffff_ffff),
    }
}

/// How often an agent may try to stop, as a request asks.
pub open spec fn asked_stop_limit(request: JsonView) -> Result<u32, FailureView> {
    match optional_u64(request, "stop_attempt_limit"@, "stopAttemptLimit"@) {
        Err(failure) => Err(failure),
        Ok(None) => Ok(DEFAULT_STOP_ATTEMPT_LIMIT),
        Ok(Some(limit)) => if limit > u32::MAX {
            Err(FailureView::plain("malformed_request"@, "stop_attempt_limit is out of range"@))
        } else if 1 <= limit <= MAX_STOP_ATTEMPT_LIMIT {
            Ok(limit as u32)
        } else {
            Err(
                FailureView::plain(
                    "malformed_request"@,
                    "stop_attempt_limit must be between 1 and 8"@,
                ),
            )
        },
    }
}

pub fn stop_attempt_limit_from_request(request: &Json) -> (r: Result<u32, DriverFailure>)
    ensures
        result_of(r) == asked_stop_limit(request@),
{
    let limit = match optional_u64_field(request, "stop_attempt_limit", "stopAttemptLimit") {
        Err(failure) => return Err(failure),
        Ok(None) => return Ok(DEFAULT_STOP_ATTEMPT_LIMIT),
        Ok(Some(limit)) => limit,
    };
    if limit > 0xffff_ffff {
        return Err(
            DriverFailure::new("malformed_request", "stop_attempt_limit is out of range"),
        );
    }
    if limit < 1 || limit > MAX_STOP_ATTEMPT_LIMIT as u64 {
        return Err(
            DriverFailure::new(
                "malformed_request",
                "stop_attempt_limit must be between 1 and 8",
            ),
        );
    }
    Ok(limit as u32)
}

/// The first of three fields that is there.
pub open spec fn any_field(value: JsonView, a: Seq<char>, b: Seq<char>, c: Seq<char>) -> Option<
    JsonView,
> {
    match field(value, a) {
        Some(item) => Some(item),
        None => either_field(value, b, c),
    }
}

fn get_any<'a>(value: &'a Json, a: &str, b: &str, c: &str) -> (r: Option<&'a Json>)
    ensures
        match r {
            Some(item) => any_field(value@, a@, b@, c@) == Some(item@),
            None => any_field(value@, a@, b@, c@) is None,
        },
{
    match value.get(a) {
        Some(item) => Some(item),
        None => get_either(value, b, c),
    }
}

/// How a lock is to be applied, as a request asks.
pub open spec fn asked_lock_mode(request: JsonView) -> Result<FlowLockMode, FailureView> {
    match any_field(request, "mode"@, "apply_mode"@, "applyMode"@) {
        Some(JsonView::Text(mode)) => if mode == "future_activations"@ || mode
            == "futureActivations"@ || mode == "future-activations"@ {
            Ok(FlowLockMode::FutureActivations)
        } else if mode == "checkpoint_restart"@ || mode == "checkpointRestart"@ || mode
            == "checkpoint-restart"@ {
            Ok(FlowLockMode::CheckpointRestart)
        } else {
            Err(FailureView::plain("malformed_request"@, "unknown flow lock mode: "@ + mode))
        },
        _ => Ok(FlowLockMode::FutureActivations),
    }
}

pub fn flow_lock_mode_from_request(request: &Json) -> (r: Result<FlowLockMode, DriverFailure>)
    ensures
        result_of(r) == asked_lock_mode(request@),
{
    match get_any(request, "mode", "apply_mode", "applyMode") {
        Some(Json::Text(mode)) => {
            let mode = mode.as_str();
            if same(mode, "future_activations") || same(mode, "futureActivations") || same(
                mode,
                "future-activations",
            ) {
                Ok(FlowLockMode::FutureActivations)
            } else if same(mode, "checkpoint_restart") || same(mode, "checkpointRestart") || same(
                mode,
                "checkpoint-restart",
            ) {
                Ok(FlowLockMode::CheckpointRestart)
            } else {
                Err(
                    DriverFailure::told(
                        "malformed_request",
                        cat2("unknown flow lock mode: ", mode),
                    ),
                )
            }
        },
        _ => Ok(FlowLockMode::FutureActivations),
    }
}

/// The artifact that a request is about.
pub open spec fn asked_artifact(request: JsonView) -> Result<Seq<char>, FailureView> {
    let named = match field(request, "artifact_id"@) {
        Some(item) => Some(item),
        None => any_field(request, "artifact_key"@, "artifactKey"@, "key"@),
    };
    match named {
        Some(JsonView::Text(key)) => Ok(key),
        _ => Err(FailureView::plain("malformed_request"@, "artifact id is required"@)),
    }
}

pub fn artifact_key_from_request<'a>(request: &'a Json) -> (r: Result<&'a str, DriverFailure>)
    ensures
        result_of(r) == asked_artifact(request@),
{
    let named = match request.get("artifact_id") {
        Some(item) => Some(item),
        None => get_any(request, "artifact_key", "artifactKey", "key"),
    };
    match named {
        Some(Json::Text(key)) => Ok(key.as_str()),
        _ => Err(DriverFailure::new("malformed_request", "artifact id is required")),
    }
}

/// An entry that is to be put on the board of a run.
#[derive(Debug)]
pub struct BoardEntry {
    pub key: String,
    pub value: String,
    pub expected_version: Option<u64>,
}

#[verifier::ext_equal]
pub struct BoardEntryView {
    pub key: Seq<char>,
    pub value: Seq<char>,
    pub expected_version: Option<u64>,
}

impl DeepView for BoardEntry {
    type V = BoardEntryView;

    open spec fn deep_view(&self) -> BoardEntryView {
        BoardEntryView {
            key: self.key@,
            value: self.value@,
            expected_version: self.expected_version,
        }
    }
}

/// The entries that fields put on the board.
pub open spec fn entries_of(
    fields: Seq<(Seq<char>, JsonView)>,
    expected_version: Option<u64>,
) -> Seq<BoardEntryView> {
    Seq::new(
        fields.len(),
        |i: int|
            BoardEntryView {
                key: fields[i].0,
                value: payload_text(Some(fields[i].1)),
                expected_version,
            },
    )
}

/// The entries that a request puts on the board, in the order of their keys.
pub open spec fn asked_entries(request: JsonView) -> Result<Seq<BoardEntryView>, FailureView> {
    match field(request, "patch"@) {
        Some(JsonView::Record(fields)) => match optional_u64(
            request,
            "expected_version"@,
            "expected_version"@,
        ) {
            Err(failure) => Err(failure),
            Ok(expected_version) => Ok(
                entries_of(fields_of(ordered(JsonView::Record(fields))), expected_version),
            ),
        },
        _ => Err(FailureView::plain("malformed_request"@, "patch object is required"@)),
    }
}

pub fn board_entries_from_request(request: &Json) -> (r: Result<Vec<BoardEntry>, DriverFailure>)
    ensures
        result_of(r) == asked_entries(request@),
{
    let patch = match request.get("patch") {
        Some(patch) => patch,
        None => return Err(DriverFailure::new("malformed_request", "patch object is required")),
    };
    if !patch.is_record() {
        return Err(DriverFailure::new("malformed_request", "patch object is required"));
    }
    let expected_version = match optional_u64_field(
        request,
        "expected_version",
        "expected_version",
    ) {
        Err(failure) => return Err(failure),
        Ok(version) => version,
    };
    let sorted = order_fields(patch);
    let ghost model = fields_of(sorted@);
    let fields = match &sorted {
        Json::Record(fields) => fields,
        _ => {
            let none: Vec<BoardEntry> = Vec::new();
            assert(none.deep_view() =~= entries_of(model, expected_version));
            return Ok(none);
        },
    };
    let mut out: Vec<BoardEntry> = Vec::new();
    let mut i: usize = 0;
    while i < fields.len()
        invariant
            i <= fields.len(),
            sorted is Record,
            *fields == sorted->Record_0,
            model == fields_of(sorted@),
            model.len() == fields@.len(),
            out.len() == i,
            forall|j: int|
                0 <= j < i ==> (#[trigger] out@[j]).deep_view() == (BoardEntryView {
                    key: model[j].0,
                    value: payload_text(Some(model[j].1)),
                    expected_version,
                }),
        decreases fields.len() - i,
    {
        let entry = &fields[i];
        assert(model[i as int] == (entry.0@, entry.1@));
        out.push(
            BoardEntry {
                key: entry.0.clone(),
                value: payload_string(Some(&entry.1)),
                expected_version,
            },
        );
        i += 1;
    }
    assert(out.deep_view() =~= entries_of(model, expected_version));
    Ok(out)
}

/// A node that is to be activated, and what it must leave behind before it may stop.
#[derive(Debug)]
pub struct NodeSpec {
    pub id: String,
    pub required_artifacts: Vec<String>,
    pub required_effects: Vec<String>,
}

#[verifier::ext_equal]
pub struct NodeSpecView {
    pub id: Seq<char>,
    pub required_artifacts: Seq<Seq<char>>,
    pub required_effects: Seq<Seq<char>>,
}

impl DeepView for NodeSpec {
    type V = NodeSpecView;

    open spec fn deep_view(&self) -> NodeSpecView {
        NodeSpecView {
            id: self.id@,
            required_artifacts: self.required_artifacts.deep_view(),
            required_effects: self.required_effects.deep_view(),
        }
    }
}

/// The node of a contract.
pub open spec fn spec_of(contract: NodeContractView) -> NodeSpecView {
    NodeSpecView {
        id: contract.node_id,
        required_artifacts: owed_artifacts(contract.artifact_requirements),
        required_effects: owed_effects(contract.effect_requirements),
    }
}

pub fn node_spec_from_contract(contract: &NodeContract) -> (r: NodeSpec)
    ensures
        r.deep_view() == spec_of(contract.deep_view()),
{
    let ghost artifacts = contract.artifact_requirements.deep_view();
    let ghost effects = contract.effect_requirements.deep_view();
    let mut required_artifacts: Vec<String> = Vec::new();
    let mut i: usize = 0;
    assert(artifacts.take(0).len() == 0);
    assert(required_artifacts.deep_view() =~= Seq::<Seq<char>>::empty());
    while i < contract.artifact_requirements.len()
        invariant
            i <= contract.artifact_requirements.len(),
            artifacts == contract.artifact_requirements.deep_view(),
            required_artifacts.deep_view() == owed_artifacts(artifacts.take(i as int)),
        decreases contract.artifact_requirements.len() - i,
    {
        let ghost before = required_artifacts.deep_view();
        let item = &contract.artifact_requirements[i];
        assert(artifacts.take(i + 1).drop_last() =~= artifacts.take(i as int));
        assert(artifacts.take(i + 1).last() == item.deep_view());
        if item.required {
            required_artifacts.push(item.id.clone());
            assert(required_artifacts.deep_view() =~= before.push(item.id@));
        }
        i += 1;
    }
    assert(artifacts.take(i as int) =~= artifacts);
    let mut required_effects: Vec<String> = Vec::new();
    let mut k: usize = 0;
    assert(effects.take(0).len() == 0);
    assert(required_effects.deep_view() =~= Seq::<Seq<char>>::empty());
    while k < contract.effect_requirements.len()
        invariant
            k <= contract.effect_requirements.len(),
            effects == contract.effect_requirements.deep_view(),
            required_effects.deep_view() == owed_effects(effects.take(k as int)),
        decreases contract.effect_requirements.len() - k,
    {
        let ghost before = required_effects.deep_view();
        let item = &contract.effect_requirements[k];
        assert(effects.take(k + 1).drop_last() =~= effects.take(k as int));
        assert(effects.take(k + 1).last() == item.deep_view());
        if item.required {
            required_effects.push(item.id.clone());
            assert(required_effects.deep_view() =~= before.push(item.id@));
        }
        k += 1;
    }
    assert(effects.take(k as int) =~= effects);
    NodeSpec { id: contract.node_id.clone(), required_artifacts, required_effects }
}

/// Whether a route leads to a node.
pub open spec fn is_target(routes: Seq<FlowRouteView>, node_id: Seq<char>) -> bool {
    exists|i: int| 0 <= i < routes.len() && (#[trigger] routes[i]).activate == node_id
}

fn has_route_to(routes: &Vec<FlowRoute>, node_id: &str) -> (r: bool)
    ensures
        r == is_target(routes.deep_view(), node_id@),
{
    let ghost model = routes.deep_view();
    let mut i: usize = 0;
    while i < routes.len()
        invariant
            i <= routes.len(),
            model == routes.deep_view(),
            forall|j: int| 0 <= j < i ==> (#[trigger] model[j]).activate != node_id@,
        decreases routes.len() - i,
    {
        assert(model[i as int] == routes@[i as int].deep_view());
        if same(routes[i].activate.as_str(), node_id) {
            return true;
        }
        i += 1;
    }
    false
}

/// The nodes of contracts that no route leads to.
pub open spec fn untargeted(
    contracts: Seq<NodeContractView>,
    routes: Seq<FlowRouteView>,
) -> Seq<NodeSpecView>
    decreases contracts.len(),
{
    if contracts.len() == 0 {
        Seq::empty()
    } else {
        let front = untargeted(contracts.drop_last(), routes);
        if is_target(routes, contracts.last().node_id) {
            front
        } else {
            front.push(spec_of(contracts.last()))
        }
    }
}

/// The nodes that a run starts with: those that no route leads to, or all if there are none.
pub open spec fn first_nodes(draft: FlowDraftView) -> Seq<NodeSpecView> {
    let contracts = Seq::new(draft.nodes.len(), |i: int| node_contract(draft, draft.nodes[i]));
    let initial = untargeted(contracts, draft.routes);
    if initial.len() == 0 {
        Seq::new(contracts.len(), |i: int| spec_of(contracts[i]))
    } else {
        initial
    }
}

pub fn initial_node_specs(draft: &FlowDraft) -> (r: Vec<NodeSpec>)
    ensures
        r.deep_view() == first_nodes(draft.deep_view()),
{
    let contracts = NodeContract::from_draft(draft);
    let ghost model = contracts.deep_view();
    let ghost routes = draft.deep_view().routes;
    let mut initial: Vec<NodeSpec> = Vec::new();
    let mut i: usize = 0;
    assert(model.take(0) =~= Seq::<NodeContractView>::empty());
    assert(initial.deep_view() =~= Seq::<NodeSpecView>::empty());
    while i < contracts.len()
        invariant
            i <= contracts.len(),
            model == contracts.deep_view(),
            routes == draft.routes.deep_view(),
            initial.deep_view() == untargeted(model.take(i as int), routes),
        decreases contracts.len() - i,
    {
        let ghost before = initial.deep_view();
        let contract = &contracts[i];
        assert(model.take(i + 1).drop_last() =~= model.take(i as int));
        assert(model.take(i + 1).last() == contract.deep_view());
        if !has_route_to(&draft.routes, contract.node_id.as_str()) {
            let node = node_spec_from_contract(contract);
            initial.push(node);
            assert(initial.deep_view() =~= before.push(spec_of(contract.deep_view())));
        }
        i += 1;
    }
    assert(model.take(i as int) =~= model);
    assert(initial.deep_view().len() == initial.len());
    if initial.len() > 0 {
        return initial;
    }
    let mut all: Vec<NodeSpec> = Vec::new();
    let mut k: usize = 0;
    while k < contracts.len()
        invariant
            k <= contracts.len(),
            model == contracts.deep_view(),
            all.len() == k,
            forall|j: int| 0 <= j < k ==> (#[trigger] all@[j]).deep_view() == spec_of(model[j]),
        decreases contracts.len() - k,
    {
        all.push(node_spec_from_contract(&contracts[k]));
        k += 1;
    }
    assert(all.deep_view() =~= Seq::new(model.len(), |i: int| spec_of(model[i])));
    all
}

/// A run of a flow with nodes starts with some node.
pub proof fn lemma_runs_start(draft: FlowDraftView)
    requires
        draft.nodes.len() > 0,
    ensures
        first_nodes(draft).len() > 0,
{
}

/// Whether the node that a request spells out is the one that it names.
pub fn check_node_spec(spec_id: &str, node_id: &str) -> (r: Result<(), DriverFailure>)
    ensures
        result_of(r) == (if spec_id@ == node_id@ {
            Ok::<(), FailureView>(())
        } else {
            Err(
                FailureView::plain(
                    "malformed_request"@,
                    "node_spec id does not match node_id"@,
                ),
            )
        }),
{
    if same(spec_id, node_id) {
        Ok(())
    } else {
        Err(DriverFailure::new("malformed_request", "node_spec id does not match node_id"))
    }
}

} // verus!
