//! Messages to agents, and what their hooks observe.
use vstd::prelude::*;
use vstd::utf8::encode_utf8;

use crate::flow::export::{order_fields, ordered};
use crate::input_ledger::{machine_input_payload_hash, payload_hash};
use crate::json::{
    compact, field, json_compact, no_fields, text_field, text_of, value_of, Fields, Json, JsonView,
};
use crate::number::{decimal, decimal_index};
use crate::text::{blank, cat2, cat4, contains_text, is_blank, same};

use super::delivery::{
    AmbiguousDelivery, AmbiguousDeliveryView, Deliveries, PlannedEvent, PlannedEventView,
    SubmittedDelivery, SubmittedDeliveryView,
};
use super::failure::{result_of, DriverFailure, FailureView};
use super::keys::DeliveryKeyView;
use super::participant::pane_of;
use super::records::{StoredPane, StoredPaneView};
use super::replay::{DriverStateView, ReplayedDriverEvents};
use super::wire::{demanded_filled, required_nonempty, ActivationStatus};

verus! {

broadcast use vstd::string::group_string_axioms;

/// How long the id of a session, a hook or an activation may be, in bytes.
pub const HOOK_ID_MAX_BYTES: usize = 128;

/// How long any other id may be, in bytes.
pub const SOURCE_NATIVE_ID_MAX_BYTES: usize = 256;

/// How long what a hook observed may be, in bytes.
pub const HOOK_PAYLOAD_MAX_BYTES: usize = 65536;

/// How many bytes a text takes.
pub open spec fn byte_count(text: Seq<char>) -> nat {
    encode_utf8(text).len()
}

/// What is wrong with an id: it must have something in it, and not too much.
pub open spec fn id_fault(label: Seq<char>, value: Seq<char>, max_bytes: usize) -> Option<
    FailureView,
> {
    if is_blank(value) {
        Some(FailureView::plain("malformed_request"@, label + " must be non-empty"@))
    } else if byte_count(value) > max_bytes {
        Some(
            FailureView::plain(
                "malformed_request"@,
                label + " exceeds "@ + decimal(max_bytes as nat) + " bytes"@,
            ),
        )
    } else {
        None
    }
}

pub fn validate_bounded_id(label: &str, value: &str, max_bytes: usize) -> (r: Result<
    (),
    DriverFailure,
>)
    ensures
        match r {
            Ok(_) => id_fault(label@, value@, max_bytes) is None,
            Err(failure) => id_fault(label@, value@, max_bytes) == Some(failure.deep_view()),
        },
{
    if blank(value) {
        return Err(
            DriverFailure::told("malformed_request", cat2(label, " must be non-empty")),
        );
    }
    if value.as_bytes().len() > max_bytes {
        return Err(
            DriverFailure::told(
                "malformed_request",
                cat4(label, " exceeds ", decimal_index(max_bytes).as_str(), " bytes"),
            ),
        );
    }
    Ok(())
}

/// A character that the name of a hook may hold.
pub open spec fn is_hook_char(c: char) -> bool {
    ('a' <= c <= 'z') || ('A' <= c <= 'Z') || ('0' <= c <= '9') || c == '_' || c == '-' || c == '.'
}

/// Whether a hook has a name within a namespace: something before the first dot, and something
/// behind it.
pub open spec fn has_namespace(hook: Seq<char>) -> bool {
    &&& exists|i: int|
        0 < i < hook.len() - 1 && #[trigger] hook[i] == '.' && forall|j: int|
            0 <= j < i ==> hook[j] != '.'
    &&& forall|i: int| 0 <= i < hook.len() ==> is_hook_char(#[trigger] hook[i])
}

pub fn is_namespaced_hook(hook: &str) -> (r: bool)
    ensures
        r == has_namespace(hook@),
{
    let n: usize = hook.unicode_len();
    let mut dot: Option<usize> = None;
    let mut i: usize = 0;
    while i < n
        invariant
            i <= n,
            n == hook@.len(),
            forall|j: int| 0 <= j < i ==> is_hook_char(#[trigger] hook@[j]),
            match dot {
                Some(at) => at < i && hook@[at as int] == '.' && forall|j: int|
                    0 <= j < at ==> hook@[j] != '.',
                None => forall|j: int| 0 <= j < i ==> hook@[j] != '.',
            },
        decreases n - i,
    {
        let c = hook.get_char(i);
        let allowed = ('a' <= c && c <= 'z') || ('A' <= c && c <= 'Z') || ('0' <= c && c <= '9')
            || c == '_' || c == '-' || c == '.';
        if !allowed {
            assert(!is_hook_char(hook@[i as int]));
            return false;
        }
        if c == '.' && dot.is_none() {
            dot = Some(i);
        }
        i += 1;
    }
    match dot {
        Some(at) => {
            if at > 0 && at + 1 < n {
                assert(hook@[at as int] == '.');
                true
            } else {
                assert forall|i: int|
                    0 < i < hook@.len() - 1 && #[trigger] hook@[i] == '.' implies !(forall|j: int|
                    0 <= j < i ==> hook@[j] != '.') by {
                    if i > at {
                        assert(hook@[at as int] == '.');
                    }
                }
                false
            }
        },
        None => false,
    }
}

/// What is wrong with the name of a hook.
pub open spec fn hook_name_fault(hook: Seq<char>) -> Option<FailureView> {
    match id_fault("hook"@, hook, HOOK_ID_MAX_BYTES) {
        Some(failure) => Some(failure),
        None => if hook == "compaction_pending"@ || hook == "compaction_finished"@ || has_namespace(
            hook,
        ) {
            None
        } else {
            Some(
                FailureView::plain(
                    "malformed_request"@,
                    "hook must be a documented hook name or namespaced extension"@,
                ),
            )
        },
    }
}

pub fn validate_hook_name(hook: &str) -> (r: Result<(), DriverFailure>)
    ensures
        match r {
            Ok(_) => hook_name_fault(hook@) is None,
            Err(failure) => hook_name_fault(hook@) == Some(failure.deep_view()),
        },
{
    match validate_bounded_id("hook", hook, HOOK_ID_MAX_BYTES) {
        Err(failure) => return Err(failure),
        Ok(_) => {},
    }
    if same(hook, "compaction_pending") || same(hook, "compaction_finished")
        || is_namespaced_hook(hook) {
        return Ok(());
    }
    Err(
        DriverFailure::new(
            "malformed_request",
            "hook must be a documented hook name or namespaced extension",
        ),
    )
}

/// An id that a request may hold.
pub open spec fn asked_id(request: JsonView, key: Seq<char>, max_bytes: usize) -> Result<
    Option<Seq<char>>,
    FailureView,
> {
    match field(request, key) {
        None => Ok(None),
        Some(value) => match text_of(value) {
            None => Err(FailureView::plain("malformed_request"@, key + " must be a string"@)),
            Some(text) => match id_fault(key, text, max_bytes) {
                Some(failure) => Err(failure),
                None => Ok(Some(text)),
            },
        },
    }
}

pub fn optional_bounded_id(request: &Json, key: &str, max_bytes: usize) -> (r: Result<
    Option<String>,
    DriverFailure,
>)
    ensures
        result_of(r) == asked_id(request@, key@, max_bytes),
{
    let value = match request.get(key) {
        None => return Ok(None),
        Some(value) => value,
    };
    let text = match value.as_str() {
        None => return Err(
            DriverFailure::told("malformed_request", cat2(key, " must be a string")),
        ),
        Some(text) => text,
    };
    match validate_bounded_id(key, text, max_bytes) {
        Err(failure) => Err(failure),
        Ok(_) => Ok(Some(text.to_string())),
    }
}

/// What a hook observed.
#[derive(Debug)]
pub struct HookFact {
    pub session_id: String,
    pub hook: String,
    pub source_native_id: String,
    pub activation_id: Option<String>,
    pub payload: Json,
    pub causal_id: Option<String>,
    pub correlation_id: Option<String>,
}

#[verifier::ext_equal]
pub struct HookFactView {
    pub session_id: Seq<char>,
    pub hook: Seq<char>,
    pub source_native_id: Seq<char>,
    pub activation_id: Option<Seq<char>>,
    pub payload: JsonView,
    pub causal_id: Option<Seq<char>>,
    pub correlation_id: Option<Seq<char>>,
}

impl DeepView for HookFact {
    type V = HookFactView;

    open spec fn deep_view(&self) -> HookFactView {
        HookFactView {
            session_id: self.session_id@,
            hook: self.hook@,
            source_native_id: self.source_native_id@,
            activation_id: self.activation_id.deep_view(),
            payload: self.payload@,
            causal_id: self.causal_id.deep_view(),
            correlation_id: self.correlation_id.deep_view(),
        }
    }
}

/// A text that has to be there and to be an id.
pub open spec fn filled_id(request: JsonView, key: Seq<char>, max_bytes: usize) -> Result<
    Seq<char>,
    FailureView,
> {
    match demanded_filled(request, key) {
        Err(failure) => Err(failure),
        Ok(text) => match id_fault(key, text, max_bytes) {
            Some(failure) => Err(failure),
            None => Ok(text),
        },
    }
}

/// The name of a hook in a request.
pub open spec fn asked_hook(request: JsonView) -> Result<Seq<char>, FailureView> {
    match demanded_filled(request, "hook"@) {
        Err(failure) => Err(failure),
        Ok(hook) => match hook_name_fault(hook) {
            Some(failure) => Err(failure),
            None => Ok(hook),
        },
    }
}

/// Where an observation comes from; by default it is named after the session and the hook.
pub open spec fn asked_source(request: JsonView, session_id: Seq<char>, hook: Seq<char>) -> Result<
    Seq<char>,
    FailureView,
> {
    let source = match field(request, "source_native_id"@) {
        Some(value) => match text_of(value) {
            None => Err(
                FailureView::plain("malformed_request"@, "source_native_id must be a string"@),
            ),
            Some(text) => Ok(text),
        },
        None => Ok("hook:"@ + session_id + ":"@ + hook),
    };
    match source {
        Err(failure) => Err(failure),
        Ok(text) => match id_fault("source_native_id"@, text, SOURCE_NATIVE_ID_MAX_BYTES) {
            Some(failure) => Err(failure),
            None => Ok(text),
        },
    }
}

/// The activation that an observation is about, which must be one of the run.
pub open spec fn asked_activation(request: JsonView, known: Seq<Seq<char>>) -> Result<
    Option<Seq<char>>,
    FailureView,
> {
    match text_field(request, "activation_id"@) {
        None => Ok(None),
        Some(id) => match id_fault("activation_id"@, id, HOOK_ID_MAX_BYTES) {
            Some(failure) => Err(failure),
            None => if known.contains(id) {
                Ok(Some(id))
            } else {
                Err(
                    FailureView::plain(
                        "activation_not_found"@,
                        "activation not found for driver-owned run"@,
                    ),
                )
            },
        },
    }
}

/// What was observed.
pub open spec fn asked_payload(request: JsonView) -> Result<JsonView, FailureView> {
    let payload = match field(request, "payload"@) {
        Some(payload) => payload,
        None => JsonView::Null,
    };
    if byte_count(json_compact(value_of(ordered(payload)))) > HOOK_PAYLOAD_MAX_BYTES {
        Err(FailureView::plain("malformed_request"@, "payload exceeds 65536 bytes"@))
    } else {
        Ok(payload)
    }
}

/// What a request says that a hook observed. The first fault counts.
pub open spec fn hook_fact_in(request: JsonView, known: Seq<Seq<char>>) -> Result<
    HookFactView,
    FailureView,
> {
    match filled_id(request, "session_id"@, HOOK_ID_MAX_BYTES) {
        Err(failure) => Err(failure),
        Ok(session_id) => match asked_hook(request) {
            Err(failure) => Err(failure),
            Ok(hook) => match asked_source(request, session_id, hook) {
                Err(failure) => Err(failure),
                Ok(source_native_id) => match asked_activation(request, known) {
                    Err(failure) => Err(failure),
                    Ok(activation_id) => match asked_payload(request) {
                        Err(failure) => Err(failure),
                        Ok(payload) => match asked_id(
                            request,
                            "causal_id"@,
                            SOURCE_NATIVE_ID_MAX_BYTES,
                        ) {
                            Err(failure) => Err(failure),
                            Ok(causal_id) => match asked_id(
                                request,
                                "correlation_id"@,
                                SOURCE_NATIVE_ID_MAX_BYTES,
                            ) {
                                Err(failure) => Err(failure),
                                Ok(correlation_id) => Ok(
                                    HookFactView {
                                        session_id,
                                        hook,
                                        source_native_id,
                                        activation_id,
                                        payload,
                                        causal_id,
                                        correlation_id,
                                    },
                                ),
                            },
                        },
                    },
                },
            },
        },
    }
}

fn source_in(request: &Json, session_id: &str, hook: &str) -> (r: Result<String, DriverFailure>)
    ensures
        result_of(r) == asked_source(request@, session_id@, hook@),
{
    let source = match request.get("source_native_id") {
        Some(value) => match value.as_str() {
            None => return Err(
                DriverFailure::new("malformed_request", "source_native_id must be a string"),
            ),
            Some(text) => text.to_string(),
        },
        None => cat4("hook:", session_id, ":", hook),
    };
    match validate_bounded_id("source_native_id", source.as_str(), SOURCE_NATIVE_ID_MAX_BYTES) {
        Err(failure) => Err(failure),
        Ok(_) => Ok(source),
    }
}

fn activation_in(request: &Json, known: &Vec<String>) -> (r: Result<Option<String>, DriverFailure>)
    ensures
        result_of(r) == asked_activation(request@, known.deep_view()),
{
    let id = match request.text_at("activation_id") {
        None => return Ok(None),
        Some(id) => id,
    };
    match validate_bounded_id("activation_id", id, HOOK_ID_MAX_BYTES) {
        Err(failure) => return Err(failure),
        Ok(_) => {},
    }
    let listed = known.as_slice();
    assert(listed.deep_view() =~= known.deep_view());
    if contains_text(listed, id) {
        Ok(Some(id.to_string()))
    } else {
        Err(
            DriverFailure::new(
                "activation_not_found",
                "activation not found for driver-owned run",
            ),
        )
    }
}

fn payload_in(request: &Json) -> (r: Result<Json, DriverFailure>)
    ensures
        result_of(r) == asked_payload(request@),
{
    let payload = match request.get("payload") {
        Some(payload) => payload.clone(),
        None => Json::Null,
    };
    let printed = compact(&order_fields(&payload));
    if printed.as_str().as_bytes().len() > HOOK_PAYLOAD_MAX_BYTES {
        Err(DriverFailure::new("malformed_request", "payload exceeds 65536 bytes"))
    } else {
        Ok(payload)
    }
}

impl HookFact {
    /// What a request says that a hook observed, in a run with the given activations.
    pub fn from_request(request: &Json, known: &Vec<String>) -> (r: Result<Self, DriverFailure>)
        ensures
            result_of(r) == hook_fact_in(request@, known.deep_view()),
    {
        let session_id = match required_nonempty(request, "session_id") {
            Err(failure) => return Err(failure),
            Ok(text) => text,
        };
        match validate_bounded_id("session_id", session_id, HOOK_ID_MAX_BYTES) {
            Err(failure) => return Err(failure),
            Ok(_) => {},
        }
        let hook = match required_nonempty(request, "hook") {
            Err(failure) => return Err(failure),
            Ok(text) => text,
        };
        match validate_hook_name(hook) {
            Err(failure) => return Err(failure),
            Ok(_) => {},
        }
        let source_native_id = match source_in(request, session_id, hook) {
            Err(failure) => return Err(failure),
            Ok(source) => source,
        };
        let activation_id = match activation_in(request, known) {
            Err(failure) => return Err(failure),
            Ok(activation_id) => activation_id,
        };
        let payload = match payload_in(request) {
            Err(failure) => return Err(failure),
            Ok(payload) => payload,
        };
        let causal_id = match optional_bounded_id(
            request,
            "causal_id",
            SOURCE_NATIVE_ID_MAX_BYTES,
        ) {
            Err(failure) => return Err(failure),
            Ok(id) => id,
        };
        let correlation_id = match optional_bounded_id(
            request,
            "correlation_id",
            SOURCE_NATIVE_ID_MAX_BYTES,
        ) {
            Err(failure) => return Err(failure),
            Ok(id) => id,
        };
        Ok(
            HookFact {
                session_id: session_id.to_string(),
                hook: hook.to_string(),
                source_native_id,
                activation_id,
                payload,
                causal_id,
                correlation_id,
            },
        )
    }
}

/// What is taken of an observation is within its bounds.
pub proof fn lemma_observations_are_bounded(
    request: JsonView,
    known: Seq<Seq<char>>,
    fact: HookFactView,
)
    requires
        hook_fact_in(request, known) == Ok::<HookFactView, FailureView>(fact),
    ensures
        byte_count(fact.session_id) <= HOOK_ID_MAX_BYTES,
        byte_count(fact.hook) <= HOOK_ID_MAX_BYTES,
        byte_count(fact.source_native_id) <= SOURCE_NATIVE_ID_MAX_BYTES,
        fact.activation_id matches Some(id) ==> known.contains(id),
        byte_count(json_compact(value_of(ordered(fact.payload)))) <= HOOK_PAYLOAD_MAX_BYTES,
{
}

/// The event that says that an observation was recorded.
pub open spec fn hook_event(
    session_id: Seq<char>,
    hook: Seq<char>,
    source_native_id: Seq<char>,
    record_generation: u64,
) -> PlannedEventView {
    PlannedEventView {
        kind: "hook_fact_recorded"@,
        payload: JsonView::Record(
            no_fields()
                .push(("session_id"@, JsonView::Text(session_id)))
                .push(("hook"@, JsonView::Text(hook)))
                .push(("source_native_id"@, JsonView::Text(source_native_id)))
                .push(("record_generation"@, JsonView::Unsigned(record_generation))),
        ),
    }
}

pub fn hook_fact_recorded_event(fact: &HookFact, record_generation: u64) -> (r: PlannedEvent)
    ensures
        r.deep_view() == hook_event(
            fact.deep_view().session_id,
            fact.deep_view().hook,
            fact.deep_view().source_native_id,
            record_generation,
        ),
{
    PlannedEvent {
        kind: "hook_fact_recorded",
        payload: Fields::new()
            .put("session_id", Json::text(fact.session_id.as_str()))
            .put("hook", Json::text(fact.hook.as_str()))
            .put("source_native_id", Json::text(fact.source_native_id.as_str()))
            .put("record_generation", Json::Unsigned(record_generation))
            .done(),
    }
}

/// What is told of an observation that was recorded.
pub open spec fn hook_report(
    run_id: Seq<char>,
    session_id: Seq<char>,
    hook: Seq<char>,
    record_generation: u64,
    run_assets: JsonView,
) -> JsonView {
    JsonView::Record(
        no_fields()
            .push(("ok"@, JsonView::Bool(true)))
            .push(("run_id"@, JsonView::Text(run_id)))
            .push(("session_id"@, JsonView::Text(session_id)))
            .push(("hook"@, JsonView::Text(hook)))
            .push(("record_generation"@, JsonView::Unsigned(record_generation)))
            .push(("run_assets"@, run_assets)),
    )
}

pub fn record_hook_fact_response(
    run_id: &str,
    session_id: &str,
    hook: &str,
    record_generation: u64,
    run_assets: Json,
) -> (r: Json)
    ensures
        r@ == hook_report(
            run_id@,
            session_id@,
            hook@,
            record_generation,
            run_assets@,
        ),
{
    Fields::new()
        .put("ok", Json::Bool(true))
        .put("run_id", Json::text(run_id))
        .put("session_id", Json::text(session_id))
        .put("hook", Json::text(hook))
        .put("record_generation", Json::Unsigned(record_generation))
        .put("run_assets", run_assets)
        .done()
}

/// What is told of a message that arrived.
pub open spec fn receipt_report(
    run_id: Seq<char>,
    activation_id: Seq<char>,
    message_id: Seq<char>,
    receipt: JsonView,
    message_count: u64,
) -> JsonView {
    JsonView::Record(
        no_fields()
            .push(("ok"@, JsonView::Bool(true)))
            .push(("run_id"@, JsonView::Text(run_id)))
            .push(("activation_id"@, JsonView::Text(activation_id)))
            .push(("message_id"@, JsonView::Text(message_id)))
            .push(("receipt"@, receipt))
            .push(("message_count"@, JsonView::Unsigned(message_count))),
    )
}

pub fn message_response(
    run_id: &str,
    activation_id: &str,
    message_id: &str,
    receipt: Json,
    message_count: u64,
) -> (r: Json)
    ensures
        r@ == receipt_report(
            run_id@,
            activation_id@,
            message_id@,
            receipt@,
            message_count,
        ),
{
    Fields::new()
        .put("ok", Json::Bool(true))
        .put("run_id", Json::text(run_id))
        .put("activation_id", Json::text(activation_id))
        .put("message_id", Json::text(message_id))
        .put("receipt", receipt)
        .put("message_count", Json::Unsigned(message_count))
        .done()
}

/// What is told of a message that may have arrived.
pub open spec fn ambiguous_report(run_id: Seq<char>, receipt: JsonView) -> JsonView {
    JsonView::Record(
        no_fields()
            .push(("ok"@, JsonView::Bool(false)))
            .push(("run_id"@, JsonView::Text(run_id)))
            .push(
                (
                    "error"@,
                    JsonView::Record(
                        no_fields()
                            .push(("code"@, JsonView::Text("ambiguous_delivery"@)))
                            .push(
                                (
                                    "message"@,
                                    JsonView::Text(
                                        "message delivery may have reached the receiver"@,
                                    ),
                                ),
                            ),
                    ),
                ),
            )
            .push(("receipt"@, receipt))
            .push(
                (
                    "recovery"@,
                    JsonView::Record(
                        no_fields()
                            .push(("action"@, JsonView::Text("resume_run"@)))
                            .push(("resolution_required"@, JsonView::Bool(true))),
                    ),
                ),
            ),
    )
}

pub fn ambiguous_message_response(run_id: &str, receipt: Json) -> (r: Json)
    ensures
        r@ == ambiguous_report(run_id@, receipt@),
{
    Fields::new()
        .put("ok", Json::Bool(false))
        .put("run_id", Json::text(run_id))
        .put(
            "error",
            Fields::new()
                .put("code", Json::text("ambiguous_delivery"))
                .put("message", Json::text("message delivery may have reached the receiver"))
                .done(),
        )
        .put("receipt", receipt)
        .put(
            "recovery",
            Fields::new()
                .put("action", Json::text("resume_run"))
                .put("resolution_required", Json::Bool(true))
                .done(),
        )
        .done()
}

/// A message to an agent.
#[derive(Debug)]
pub struct MessageRequest {
    pub activation_id: String,
    pub message_id: String,
    pub text: String,
}

#[verifier::ext_equal]
pub struct MessageRequestView {
    pub activation_id: Seq<char>,
    pub message_id: Seq<char>,
    pub text: Seq<char>,
}

impl DeepView for MessageRequest {
    type V = MessageRequestView;

    open spec fn deep_view(&self) -> MessageRequestView {
        MessageRequestView {
            activation_id: self.activation_id@,
            message_id: self.message_id@,
            text: self.text@,
        }
    }
}

/// The message in a request. The first fault counts.
pub open spec fn message_in(request: JsonView) -> Result<MessageRequestView, FailureView> {
    match demanded_filled(request, "activation_id"@) {
        Err(failure) => Err(failure),
        Ok(activation_id) => match demanded_filled(request, "message_id"@) {
            Err(failure) => Err(failure),
            Ok(message_id) => match demanded_filled(request, "text"@) {
                Err(failure) => Err(failure),
                Ok(text) => Ok(MessageRequestView { activation_id, message_id, text }),
            },
        },
    }
}

impl MessageRequest {
    pub fn from_request(request: &Json) -> (r: Result<Self, DriverFailure>)
        ensures
            result_of(r) == message_in(request@),
    {
        let activation_id = match required_nonempty(request, "activation_id") {
            Err(failure) => return Err(failure),
            Ok(text) => text,
        };
        let message_id = match required_nonempty(request, "message_id") {
            Err(failure) => return Err(failure),
            Ok(text) => text,
        };
        let text = match required_nonempty(request, "text") {
            Err(failure) => return Err(failure),
            Ok(text) => text,
        };
        Ok(
            MessageRequest {
                activation_id: activation_id.to_string(),
                message_id: message_id.to_string(),
                text: text.to_string(),
            },
        )
    }
}

/// The open delivery of a message, from the `n`-th pair on.
pub open spec fn open_message(
    pairs: Seq<(DeliveryKeyView, AmbiguousDeliveryView)>,
    message_id: Seq<char>,
    n: int,
) -> Option<AmbiguousDeliveryView>
    decreases pairs.len() - n,
{
    if n < 0 || n >= pairs.len() {
        None
    } else if pairs[n].1.message_id == Some(message_id) {
        Some(pairs[n].1)
    } else {
        open_message(pairs, message_id, n + 1)
    }
}

/// The delivery of a message that arrived, from the `n`-th pair on.
pub open spec fn arrived_message(
    pairs: Seq<(DeliveryKeyView, SubmittedDeliveryView)>,
    message_id: Seq<char>,
    n: int,
) -> Option<SubmittedDeliveryView>
    decreases pairs.len() - n,
{
    if n < 0 || n >= pairs.len() {
        None
    } else if pairs[n].1.message_id == Some(message_id) {
        Some(pairs[n].1)
    } else {
        arrived_message(pairs, message_id, n + 1)
    }
}

/// How many messages arrived.
pub open spec fn messages_among(pairs: Seq<(DeliveryKeyView, SubmittedDeliveryView)>) -> nat
    decreases pairs.len(),
{
    if pairs.len() == 0 {
        0
    } else {
        messages_among(pairs.drop_last()) + (if pairs.last().1.message_id is Some {
            1nat
        } else {
            0nat
        })
    }
}

impl Deliveries {
    fn open_message(&self, message_id: &str) -> (r: Option<AmbiguousDelivery>)
        ensures
            r.deep_view() == open_message(self.ambiguous.pairs(), message_id@, 0),
    {
        let n: usize = self.ambiguous.len();
        let ghost pairs = self.ambiguous.pairs();
        let mut i: usize = 0;
        while i < n
            invariant
                i <= n,
                pairs == self.ambiguous.pairs(),
                n == pairs.len(),
                open_message(pairs, message_id@, 0) == open_message(pairs, message_id@, i as int),
            decreases n - i,
        {
            let delivery = self.ambiguous.value_at(i);
            if let Some(id) = &delivery.message_id {
                if same(id.as_str(), message_id) {
                    return Some(delivery.clone());
                }
            }
            i += 1;
        }
        None
    }

    fn arrived_message(&self, message_id: &str) -> (r: Option<SubmittedDelivery>)
        ensures
            r.deep_view() == arrived_message(self.submitted.pairs(), message_id@, 0),
    {
        let n: usize = self.submitted.len();
        let ghost pairs = self.submitted.pairs();
        let mut i: usize = 0;
        while i < n
            invariant
                i <= n,
                pairs == self.submitted.pairs(),
                n == pairs.len(),
                arrived_message(pairs, message_id@, 0) == arrived_message(
                    pairs,
                    message_id@,
                    i as int,
                ),
            decreases n - i,
        {
            let delivery = self.submitted.value_at(i);
            if let Some(id) = &delivery.message_id {
                if same(id.as_str(), message_id) {
                    return Some(delivery.clone());
                }
            }
            i += 1;
        }
        None
    }

    /// How many messages arrived.
    pub fn participant_message_count(&self) -> (r: usize)
        ensures
            r == messages_among(self.submitted.pairs()),
    {
        let n: usize = self.submitted.len();
        let ghost pairs = self.submitted.pairs();
        let mut count: usize = 0;
        let mut i: usize = 0;
        assert(pairs.take(0).len() == 0);
        while i < n
            invariant
                i <= n,
                pairs == self.submitted.pairs(),
                n == pairs.len(),
                count <= i,
                count == messages_among(pairs.take(i as int)),
            decreases n - i,
        {
            assert(pairs.take(i + 1).drop_last() =~= pairs.take(i as int));
            assert(pairs.take(i + 1).last() == pairs[i as int]);
            if self.submitted.value_at(i).message_id.is_some() {
                count += 1;
            }
            i += 1;
        }
        assert(pairs.take(n as int) =~= pairs);
        count
    }
}

/// What is to be done with a message.
#[derive(Debug)]
pub enum MessageStep {
    /// It may have arrived before.
    Open(AmbiguousDelivery),
    /// It arrived before.
    Arrived(SubmittedDelivery),
    /// It is to be sent to this pane.
    Send(StoredPane),
}

#[verifier::ext_equal]
pub enum MessageStepView {
    Open(AmbiguousDeliveryView),
    Arrived(SubmittedDeliveryView),
    Send(StoredPaneView),
}

impl DeepView for MessageStep {
    type V = MessageStepView;

    open spec fn deep_view(&self) -> MessageStepView {
        match self {
            MessageStep::Open(delivery) => MessageStepView::Open(delivery.deep_view()),
            MessageStep::Arrived(delivery) => MessageStepView::Arrived(delivery.deep_view()),
            MessageStep::Send(pane) => MessageStepView::Send(pane.deep_view()),
        }
    }
}

pub open spec fn message_conflict() -> FailureView {
    FailureView::plain(
        "message_id_conflict"@,
        "message_id is already bound to a different target or payload"@,
    )
}

fn message_id_conflict() -> (r: DriverFailure)
    ensures
        r.deep_view() == message_conflict(),
{
    DriverFailure::new(
        "message_id_conflict",
        "message_id is already bound to a different target or payload",
    )
}

/// What is to be done with a message: the same message is sent once, and its id stands for it
/// alone.
pub open spec fn message_step(
    state: DriverStateView,
    open: Seq<(DeliveryKeyView, AmbiguousDeliveryView)>,
    arrived: Seq<(DeliveryKeyView, SubmittedDeliveryView)>,
    message: MessageRequestView,
    status: Option<ActivationStatus>,
) -> Result<MessageStepView, FailureView> {
    match open_message(open, message.message_id, 0) {
        Some(delivery) => if delivery.activation_id == message.activation_id
            && delivery.payload_hash == payload_hash(message.text) {
            Ok(MessageStepView::Open(delivery))
        } else {
            Err(message_conflict())
        },
        None => match arrived_message(arrived, message.message_id, 0) {
            Some(delivery) => if delivery.activation_id == message.activation_id
                && delivery.payload_hash == payload_hash(message.text) {
                Ok(MessageStepView::Arrived(delivery))
            } else {
                Err(message_conflict())
            },
            None => match status {
                None => Err(
                    FailureView::plain(
                        "activation_not_found"@,
                        "target activation was not found"@,
                    ),
                ),
                Some(status) => if status != ActivationStatus::Running {
                    Err(
                        FailureView {
                            extra: JsonView::Record(
                                no_fields()
                                    .push(
                                        ("activation_id"@, JsonView::Text(message.activation_id)),
                                    ),
                            ),
                            ..FailureView::plain(
                                "activation_not_running"@,
                                "target activation must be running"@,
                            )
                        },
                    )
                } else {
                    match pane_of(state, message.activation_id) {
                        None => Err(
                            FailureView::plain(
                                "pane_not_owned"@,
                                "target activation has no exact driver-owned pane"@,
                            ),
                        ),
                        Some(pane) => Ok(MessageStepView::Send(pane)),
                    }
                },
            },
        },
    }
}

impl ReplayedDriverEvents {
    /// What is to be done with a message.
    pub fn send_message(&self, message: &MessageRequest, status: Option<ActivationStatus>) -> (r:
        Result<MessageStep, DriverFailure>)
        ensures
            result_of(r) == message_step(
                self.deep_view(),
                self.deliveries.ambiguous.pairs(),
                self.deliveries.submitted.pairs(),
                message.deep_view(),
                status,
            ),
    {
        let hash = machine_input_payload_hash(message.text.as_str());
        if let Some(delivery) = self.deliveries.open_message(message.message_id.as_str()) {
            if same(delivery.activation_id.as_str(), message.activation_id.as_str()) && same(
                delivery.payload_hash.as_str(),
                hash.as_str(),
            ) {
                return Ok(MessageStep::Open(delivery));
            }
            return Err(message_id_conflict());
        }
        if let Some(delivery) = self.deliveries.arrived_message(message.message_id.as_str()) {
            if same(delivery.activation_id.as_str(), message.activation_id.as_str()) && same(
                delivery.payload_hash.as_str(),
                hash.as_str(),
            ) {
                return Ok(MessageStep::Arrived(delivery));
            }
            return Err(message_id_conflict());
        }
        match status {
            None => return Err(
                DriverFailure::new("activation_not_found", "target activation was not found"),
            ),
            Some(status) => {
                if status != ActivationStatus::Running {
                    return Err(
                        DriverFailure::new(
                            "activation_not_running",
                            "target activation must be running",
                        ).with_extra(
                            Fields::new()
                                .put(
                                    "activation_id",
                                    Json::text(message.activation_id.as_str()),
                                )
                                .done(),
                        ),
                    );
                }
            },
        }
        let pane = match &self.tmux {
            Some(tmux) => tmux.panes.get(&message.activation_id),
            None => None,
        };
        match pane {
            Some(pane) => Ok(MessageStep::Send(pane.clone())),
            None => Err(
                DriverFailure::new(
                    "pane_not_owned",
                    "target activation has no exact driver-owned pane",
                ),
            ),
        }
    }
}

/// What is written down of a message that arrived.
pub open spec fn message_payload(pane_id: Seq<char>, transaction_id: Seq<char>) -> JsonView {
    JsonView::Record(
        no_fields()
            .push(("pane_id"@, JsonView::Text(pane_id)))
            .push(("transaction_id"@, JsonView::Text(transaction_id))),
    )
}

pub fn message_arrival(pane_id: &str, transaction_id: &str) -> (r: Json)
    ensures
        r@ == message_payload(pane_id@, transaction_id@),
{
    Fields::new()
        .put("pane_id", Json::text(pane_id))
        .put("transaction_id", Json::text(transaction_id))
        .done()
}

proof fn lemma_open_is_found(
    pairs: Seq<(DeliveryKeyView, AmbiguousDeliveryView)>,
    message_id: Seq<char>,
    n: int,
    i: int,
)
    requires
        0 <= n <= i < pairs.len(),
        pairs[i].1.message_id == Some(message_id),
    ensures
        open_message(pairs, message_id, n) is Some,
    decreases i - n,
{
    if n < i && pairs[n].1.message_id != Some(message_id) {
        lemma_open_is_found(pairs, message_id, n + 1, i);
    }
}

proof fn lemma_arrived_is_found(
    pairs: Seq<(DeliveryKeyView, SubmittedDeliveryView)>,
    message_id: Seq<char>,
    n: int,
    i: int,
)
    requires
        0 <= n <= i < pairs.len(),
        pairs[i].1.message_id == Some(message_id),
    ensures
        arrived_message(pairs, message_id, n) is Some,
    decreases i - n,
{
    if n < i && pairs[n].1.message_id != Some(message_id) {
        lemma_arrived_is_found(pairs, message_id, n + 1, i);
    }
}

/// A message that was begun, or that arrived, is not sent again.
pub proof fn lemma_messages_are_sent_once(
    state: DriverStateView,
    open: Seq<(DeliveryKeyView, AmbiguousDeliveryView)>,
    arrived: Seq<(DeliveryKeyView, SubmittedDeliveryView)>,
    message: MessageRequestView,
    status: Option<ActivationStatus>,
)
    requires
        (exists|i: int|
            0 <= i < open.len() && (#[trigger] open[i]).1.message_id == Some(message.message_id))
            || (exists|i: int|
            0 <= i < arrived.len() && (#[trigger] arrived[i]).1.message_id == Some(
                message.message_id,
            )),
    ensures
        match message_step(state, open, arrived, message, status) {
            Ok(step) => step !is Send,
            Err(_) => true,
        },
{
    if exists|i: int|
        0 <= i < open.len() && (#[trigger] open[i]).1.message_id == Some(message.message_id) {
        let i = choose|i: int|
            0 <= i < open.len() && (#[trigger] open[i]).1.message_id == Some(message.message_id);
        lemma_open_is_found(open, message.message_id, 0, i);
    } else {
        let i = choose|i: int|
            0 <= i < arrived.len() && (#[trigger] arrived[i]).1.message_id == Some(
                message.message_id,
            );
        lemma_arrived_is_found(arrived, message.message_id, 0, i);
    }
}

} // verus!
