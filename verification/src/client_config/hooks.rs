//! The hooks of the tools that agents run in: what they ask the driver, and what they make of
//! its answer.
use vstd::prelude::*;

use crate::driver::fields::{signed_json, signed_to_json};
use crate::driver::participant::{BindingFileView, ParticipantBindingFile};
use crate::driver::replay::{collect_texts, texts_among};
use crate::json::{
    field, flag_field, items_field, json_parse, no_fields, parse_json, read, text_field, unread,
    Fields, Json, JsonView,
};
use crate::number::{hex, hex_text};
use crate::text::{blank, cat2, cat3, has_prefix, is_blank, same, starts_with};

use super::Client;

verus! {

broadcast use vstd::string::group_string_axioms;

/// The names under which tools tell which session they are, in the order in which they count.
pub open spec fn session_keys() -> Seq<Seq<char>> {
    seq!["session_id"@, "sessionId"@, "thread_id"@, "conversation_id"@]
}

/// The first text among the fields of an event, from the `n`-th name on.
pub open spec fn first_text(event: JsonView, keys: Seq<Seq<char>>, n: int) -> Option<Seq<char>>
    decreases keys.len() - n,
{
    if n < 0 || n >= keys.len() {
        None
    } else {
        match text_field(event, keys[n]) {
            Some(text) => Some(text),
            None => first_text(event, keys, n + 1),
        }
    }
}

/// The session that an event comes from.
pub open spec fn session_of(event: JsonView) -> Option<Seq<char>> {
    match first_text(event, session_keys(), 0) {
        Some(id) => if is_blank(id) {
            None
        } else {
            Some(id)
        },
        None => None,
    }
}

fn native_session_id(event: &Json) -> (r: Option<String>)
    ensures
        r.deep_view() == session_of(event@),
{
    proof {
        reveal_with_fuel(first_text, 5);
    }
    let found = match event.text_at("session_id") {
        Some(id) => Some(id),
        None => match event.text_at("sessionId") {
            Some(id) => Some(id),
            None => match event.text_at("thread_id") {
                Some(id) => Some(id),
                None => event.text_at("conversation_id"),
            },
        },
    };
    match found {
        Some(id) => {
            if blank(id) {
                None
            } else {
                Some(id.to_string())
            }
        },
        None => None,
    }
}

/// The tool that a source belongs to.
pub open spec fn client_of(source: Seq<char>) -> Option<Client> {
    if has_prefix(source, Client::Codex.prefix()) {
        Some(Client::Codex)
    } else if has_prefix(source, Client::Claude.prefix()) {
        Some(Client::Claude)
    } else {
        None
    }
}

fn platform_for_source(source: &str) -> (r: Option<Client>)
    ensures
        r == client_of(source@),
{
    if starts_with(source, Client::Codex.source_prefix()) {
        Some(Client::Codex)
    } else if starts_with(source, Client::Claude.source_prefix()) {
        Some(Client::Claude)
    } else {
        None
    }
}

/// Why a hook does not run in the pane that it belongs to.
pub open spec fn pane_fault(pane: Option<Seq<char>>, own: Seq<char>) -> Option<Seq<char>> {
    if pane is None || is_blank(pane->0) {
        Some("TMUX_PANE is required for participant hooks"@)
    } else if pane->0 != own {
        Some("participant binding does not match the current tmux pane"@)
    } else {
        None
    }
}

fn validate_current_pane(pane: Option<&str>, own: &str) -> (r: Option<&'static str>)
    ensures
        ({
            let fault = pane_fault(
                match pane {
                    Some(pane) => Some(pane@),
                    None => None,
                },
                own@,
            );
            match r {
                Some(message) => fault == Some(message@),
                None => fault is None,
            }
        }),
{
    match pane {
        None => Some("TMUX_PANE is required for participant hooks"),
        Some(pane) => {
            if blank(pane) {
                Some("TMUX_PANE is required for participant hooks")
            } else if !same(pane, own) {
                Some("participant binding does not match the current tmux pane")
            } else {
                None
            }
        },
    }
}

/// What a hook reads, and whether it is the occasion that is meant.
pub open spec fn heard(input: Seq<char>, name: Seq<char>) -> Result<JsonView, Seq<char>> {
    match json_parse(input) {
        Err(message) => Err("parse "@ + name + " hook JSON failed: "@ + message),
        Ok(event) => if text_field(event, "hook_event_name"@) == Some(name) {
            Ok(event)
        } else {
            Err(name + " hook event is required"@)
        },
    }
}

fn hear(input: &str, name: &str) -> (r: Result<Json, String>)
    ensures
        match r {
            Ok(event) => heard(input@, name@) == read(event@),
            Err(message) => heard(input@, name@) == unread(message@),
        },
{
    match parse_json(input) {
        Err(message) => Err(
            crate::text::cat4("parse ", name, " hook JSON failed: ", message.as_str()),
        ),
        Ok(event) => {
            let told = match event.text_at("hook_event_name") {
                Some(told) => same(told, name),
                None => false,
            };
            if told {
                Ok(event)
            } else {
                Err(cat2(name, " hook event is required"))
            }
        },
    }
}

/// What the driver is asked when a session starts.
pub open spec fn bind_arguments(
    binding: BindingFileView,
    session: Seq<char>,
    platform: Seq<char>,
    source: Seq<char>,
) -> JsonView {
    JsonView::Record(
        no_fields()
            .push(("activation_id"@, JsonView::Text(binding.activation_id)))
            .push(("allocation_generation"@, JsonView::Unsigned(binding.allocation_generation)))
            .push(("pane_id"@, JsonView::Text(binding.pane_id)))
            .push(("readiness_nonce"@, JsonView::Text(binding.readiness_nonce)))
            .push(("participant_handle"@, JsonView::Text(binding.handle)))
            .push(("participant_credential"@, JsonView::Text(binding.credential)))
            .push(("native_session_id"@, JsonView::Text(session)))
            .push(("platform"@, JsonView::Text(platform)))
            .push(("source"@, JsonView::Text(source))),
    )
}

/// What the driver is asked when a session starts, or why it is not asked.
pub open spec fn start_request(
    binding: BindingFileView,
    pane: Option<Seq<char>>,
    input: Seq<char>,
    source: Seq<char>,
) -> Result<JsonView, Seq<char>> {
    match pane_fault(pane, binding.pane_id) {
        Some(message) => Err(message),
        None => match heard(input, "SessionStart"@) {
            Err(message) => Err(message),
            Ok(event) => match session_of(event) {
                None => Err("native coding session id is required"@),
                Some(session) => match client_of(source) {
                    None => Err("unsupported participant platform source"@),
                    Some(client) => Ok(bind_arguments(binding, session, client.name(), source)),
                },
            },
        },
    }
}

/// What the driver is asked when a session starts.
pub fn session_start_request(
    binding: &ParticipantBindingFile,
    pane: Option<&str>,
    input: &str,
    source: &str,
) -> (r: Result<Json, String>)
    ensures
        ({
            let told = start_request(
                binding.deep_view(),
                match pane {
                    Some(pane) => Some(pane@),
                    None => None,
                },
                input@,
                source@,
            );
            match r {
                Ok(arguments) => told == read(arguments@),
                Err(message) => told == unread(message@),
            }
        }),
{
    if let Some(message) = validate_current_pane(pane, binding.pane_id.as_str()) {
        return Err(message.to_string());
    }
    let event = match hear(input, "SessionStart") {
        Ok(event) => event,
        Err(message) => return Err(message),
    };
    let session = match native_session_id(&event) {
        Some(session) => session,
        None => return Err("native coding session id is required".to_string()),
    };
    let platform = match platform_for_source(source) {
        Some(client) => client.to_text(),
        None => return Err("unsupported participant platform source".to_string()),
    };
    Ok(
        Fields::new()
            .put("activation_id", Json::text(binding.activation_id.as_str()))
            .put("allocation_generation", Json::Unsigned(binding.allocation_generation))
            .put("pane_id", Json::text(binding.pane_id.as_str()))
            .put("readiness_nonce", Json::text(binding.readiness_nonce.as_str()))
            .put("participant_handle", Json::text(binding.handle.as_str()))
            .put("participant_credential", Json::text(binding.credential.as_str()))
            .put("native_session_id", Json::text(session.as_str()))
            .put("platform", Json::text(platform.as_str()))
            .put("source", Json::text(source))
            .done(),
    )
}

/// What went wrong by the answer of a driver.
pub open spec fn answer_fault(response: JsonView, otherwise: Seq<char>) -> Option<Seq<char>> {
    if flag_field(response, "ok"@) == Some(true) {
        None
    } else {
        match field(response, "error"@) {
            Some(error) => match text_field(error, "message"@) {
                Some(message) => Some(message),
                None => Some(otherwise),
            },
            None => Some(otherwise),
        }
    }
}

/// Whether a driver did what it was asked.
pub fn check_answer(response: &Json, otherwise: &str) -> (r: Result<(), String>)
    ensures
        match r {
            Ok(_) => answer_fault(response@, otherwise@) is None,
            Err(message) => answer_fault(response@, otherwise@) == Some(message@),
        },
{
    if let Some(true) = response.flag_at("ok") {
        return Ok(());
    }
    match response.get("error") {
        Some(error) => match error.text_at("message") {
            Some(message) => Err(message.to_string()),
            None => Err(otherwise.to_string()),
        },
        None => Err(otherwise.to_string()),
    }
}

/// How a hook that runs at a stop is told apart from every other.
pub fn stop_invocation_id(random: &[u8]) -> (r: String)
    ensures
        r@ == "stop-random:"@ + hex(random@),
{
    cat2("stop-random:", hex_text(random).as_str())
}

/// What the driver is asked when a session stops.
pub open spec fn stop_arguments(
    binding: BindingFileView,
    session: Seq<char>,
    invocation_id: Seq<char>,
) -> JsonView {
    JsonView::Record(
        no_fields()
            .push(("activation_id"@, JsonView::Text(binding.activation_id)))
            .push(("participant_handle"@, JsonView::Text(binding.handle)))
            .push(("participant_credential"@, JsonView::Text(binding.credential)))
            .push(("native_session_id"@, JsonView::Text(session)))
            .push(("invocation_id"@, JsonView::Text(invocation_id)))
            .push(("reason"@, JsonView::Text("participant requested stop"@))),
    )
}

/// What the driver is asked when a session stops, or why it is not asked.
pub open spec fn asked_stop(
    binding: BindingFileView,
    pane: Option<Seq<char>>,
    input: Seq<char>,
    invocation_id: Seq<char>,
) -> Result<JsonView, Seq<char>> {
    match pane_fault(pane, binding.pane_id) {
        Some(message) => Err(message),
        None => match heard(input, "Stop"@) {
            Err(message) => Err(message),
            Ok(event) => match session_of(event) {
                None => Err("native coding session id is required"@),
                Some(session) => Ok(stop_arguments(binding, session, invocation_id)),
            },
        },
    }
}

/// What the driver is asked when a session stops.
pub fn stop_request(
    binding: &ParticipantBindingFile,
    pane: Option<&str>,
    input: &str,
    invocation_id: &str,
) -> (r: Result<Json, String>)
    ensures
        ({
            let told = asked_stop(
                binding.deep_view(),
                match pane {
                    Some(pane) => Some(pane@),
                    None => None,
                },
                input@,
                invocation_id@,
            );
            match r {
                Ok(arguments) => told == read(arguments@),
                Err(message) => told == unread(message@),
            }
        }),
{
    if let Some(message) = validate_current_pane(pane, binding.pane_id.as_str()) {
        return Err(message.to_string());
    }
    let event = match hear(input, "Stop") {
        Ok(event) => event,
        Err(message) => return Err(message),
    };
    let session = match native_session_id(&event) {
        Some(session) => session,
        None => return Err("native coding session id is required".to_string()),
    };
    Ok(
        Fields::new()
            .put("activation_id", Json::text(binding.activation_id.as_str()))
            .put("participant_handle", Json::text(binding.handle.as_str()))
            .put("participant_credential", Json::text(binding.credential.as_str()))
            .put("native_session_id", Json::text(session.as_str()))
            .put("invocation_id", Json::text(invocation_id))
            .put("reason", Json::text("participant requested stop"))
            .done(),
    )
}

/// Texts with a text between them.
pub open spec fn listed(items: Seq<Seq<char>>, between: Seq<char>) -> Seq<char>
    decreases items.len(),
{
    if items.len() == 0 {
        Seq::empty()
    } else if items.len() == 1 {
        items[0]
    } else {
        listed(items.drop_last(), between) + between + items.last()
    }
}

fn list_texts(items: &Vec<String>, between: &str) -> (r: String)
    ensures
        r@ == listed(items.deep_view(), between@),
{
    let ghost model = items.deep_view();
    let mut out = String::new();
    let mut i: usize = 0;
    assert(model.take(0) =~= Seq::<Seq<char>>::empty());
    assert(out@ =~= Seq::<char>::empty());
    while i < items.len()
        invariant
            i <= items.len(),
            model == items.deep_view(),
            out@ == listed(model.take(i as int), between@),
        decreases items.len() - i,
    {
        assert(model.take(i + 1).drop_last() =~= model.take(i as int));
        assert(model.take(i + 1).last() == items@[i as int]@);
        if i > 0 {
            out = cat3(out.as_str(), between, items[i].as_str());
        } else {
            assert(model.take(1)[0] == items@[0]@);
            out = items[i].clone();
        }
        i += 1;
    }
    assert(model.take(i as int) =~= model);
    out
}

/// The texts that a field lists.
pub open spec fn texts_at(value: JsonView, key: Seq<char>) -> Seq<Seq<char>> {
    match items_field(value, key) {
        Some(items) => texts_among(items),
        None => Seq::empty(),
    }
}

fn string_array(value: &Json, key: &str) -> (r: Vec<String>)
    ensures
        r.deep_view() == texts_at(value@, key@),
{
    let listed = match value.get(key) {
        Some(items) => items.as_list(),
        None => None,
    };
    match listed {
        Some(items) => collect_texts(items),
        None => {
            let none: Vec<String> = Vec::new();
            assert(none.deep_view() =~= Seq::<Seq<char>>::empty());
            none
        },
    }
}

/// What is missing, by the answer of a driver.
pub open spec fn missing_text(response: JsonView) -> Seq<char> {
    let artifacts = texts_at(response, "missing_artifacts"@);
    let effects = texts_at(response, "missing_effects"@);
    let first = "artifacts: "@ + listed(artifacts, ", "@);
    let second = "effects: "@ + listed(effects, ", "@);
    if artifacts.len() == 0 && effects.len() == 0 {
        "Required outputs are not complete."@
    } else if effects.len() == 0 {
        "Missing required outputs: "@ + first + "."@
    } else if artifacts.len() == 0 {
        "Missing required outputs: "@ + second + "."@
    } else {
        "Missing required outputs: "@ + (first + "; "@ + second) + "."@
    }
}

fn missing_stop_feedback(response: &Json) -> (r: String)
    ensures
        r@ == missing_text(response@),
{
    let artifacts = string_array(response, "missing_artifacts");
    let effects = string_array(response, "missing_effects");
    assert(artifacts.deep_view().len() == artifacts.len());
    assert(effects.deep_view().len() == effects.len());
    if artifacts.len() == 0 && effects.len() == 0 {
        return "Required outputs are not complete.".to_string();
    }
    let first = cat2("artifacts: ", list_texts(&artifacts, ", ").as_str());
    let second = cat2("effects: ", list_texts(&effects, ", ").as_str());
    let missing = if effects.len() == 0 {
        first
    } else if artifacts.len() == 0 {
        second
    } else {
        cat3(first.as_str(), "; ", second.as_str())
    };
    cat3("Missing required outputs: ", missing.as_str(), ".")
}

/// What a tool is told when its session wants to stop.
pub open spec fn stop_answer_of(platform: Seq<char>, response: JsonView) -> Result<
    JsonView,
    Seq<char>,
> {
    match answer_fault(response, "participant stop validation failed"@) {
        Some(message) => Err(message),
        None => if platform != Client::Codex.name() && platform != Client::Claude.name() {
            Err("unsupported Stop hook platform"@)
        } else if text_field(response, "hook_action"@) == Some("allow"@) {
            Ok(JsonView::Record(no_fields()))
        } else {
            Ok(
                JsonView::Record(
                    no_fields()
                        .push(("decision"@, JsonView::Text("block"@)))
                        .push(("reason"@, JsonView::Text(missing_text(response)))),
                ),
            )
        },
    }
}

/// What a tool is told when its session wants to stop.
pub fn stop_answer(platform: &str, response: &Json) -> (r: Result<Json, String>)
    ensures
        match r {
            Ok(answer) => stop_answer_of(platform@, response@) == read(answer@),
            Err(message) => stop_answer_of(platform@, response@) == unread(message@),
        },
{
    if let Err(message) = check_answer(response, "participant stop validation failed") {
        return Err(message);
    }
    if !same(platform, Client::Codex.to_text().as_str()) && !same(
        platform,
        Client::Claude.to_text().as_str(),
    ) {
        return Err("unsupported Stop hook platform".to_string());
    }
    let allowed = match response.text_at("hook_action") {
        Some(action) => same(action, "allow"),
        None => false,
    };
    if allowed {
        Ok(Fields::new().done())
    } else {
        Ok(
            Fields::new()
                .put("decision", Json::text("block"))
                .put("reason", Json::text(missing_stop_feedback(response).as_str()))
                .done(),
        )
    }
}

/// What the driver is told when an agent has exited.
pub open spec fn exit_arguments(binding: BindingFileView, exit_status: i32) -> JsonView {
    JsonView::Record(
        no_fields()
            .push(("activation_id"@, JsonView::Text(binding.activation_id)))
            .push(("participant_handle"@, JsonView::Text(binding.handle)))
            .push(("participant_credential"@, JsonView::Text(binding.credential)))
            .push(("exit_status"@, signed_json(exit_status as i64))),
    )
}

/// What the driver is told when an agent has exited.
pub fn participant_exited_request(binding: &ParticipantBindingFile, exit_status: i32) -> (r: Json)
    ensures
        r@ == exit_arguments(binding.deep_view(), exit_status),
{
    Fields::new()
        .put("activation_id", Json::text(binding.activation_id.as_str()))
        .put("participant_handle", Json::text(binding.handle.as_str()))
        .put("participant_credential", Json::text(binding.credential.as_str()))
        .put("exit_status", signed_to_json(exit_status as i64))
        .done()
}

/// A session is let go only where the driver allows it: every other answer keeps it, or is an
/// error.
pub proof fn lemma_sessions_stop_only_when_allowed(platform: Seq<char>, response: JsonView)
    ensures
        stop_answer_of(platform, response) == Ok::<JsonView, Seq<char>>(
            JsonView::Record(no_fields()),
        ) ==> flag_field(response, "ok"@) == Some(true) && text_field(response, "hook_action"@)
            == Some("allow"@),
{
    let blocked = no_fields()
        .push(("decision"@, JsonView::Text("block"@)))
        .push(("reason"@, JsonView::Text(missing_text(response))));
    assert(blocked.len() == 2);
    assert(no_fields().len() == 0);
}

} // verus!
