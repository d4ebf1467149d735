//! The panes that the driver owns: how they are asked for, named, made and told apart.
use vstd::prelude::*;

use crate::adapters::tmux::adapter::{session_found, TmuxAdapter};
use crate::adapters::tmux::error::{file_name, path_file_name, TmuxError, TmuxErrorView};
use crate::adapters::tmux::model::{
    TmuxPane, TmuxPaneView, TmuxSession, TmuxSessionView, TmuxWindow, TmuxWindowView,
};
use crate::adapters::tmux::pane_creation::{
    marked_pane_found, marked_pane_split_off, marked_session_pane_created,
    marked_window_pane_created,
};
use crate::adapters::tmux::pipe::{completion_path, default_pipe_completion_path};
use crate::adapters::tmux::runner::{outcome, CommandRunner};
use crate::hash::{framed, framed_all, push_framed, sha256_hex, sha256_hex_text};
use crate::json::{field, flag_field, no_fields, text_of, unsigned_of, Fields, Json, JsonView};
use crate::number::{big_endian, decimal, decimal_text, push_u64_be};
use crate::order::Comparable;
use crate::split::{join_path, parent_path, path_joined, path_parent};
use crate::text::{cat2, cat4, char_vec, same, trim, trimmed};

use super::delivery::{PlannedEvent, PlannedEventView};
use super::failure::{result_of, DriverFailure, FailureView};
use super::records::{
    DriverTmuxActuationConfig, DriverTmuxActuationConfigView, StoredPane, StoredPaneView,
    TmuxPaneAllocationIntent, TmuxPaneAllocationIntentView, TmuxPaneCleanupIntent,
    TmuxPaneCleanupIntentView,
};
use super::replay::{DriverStateView, DriverTmuxState, DriverTmuxStateView, ReplayedDriverEvents};
use super::wire::{demanded, either_field, get_either, required_string};

verus! {

broadcast use vstd::string::group_string_axioms;

/// Where the panes of a run are to be, and what runs in them.
#[derive(Debug)]
pub struct DriverTmuxConfig {
    pub session: String,
    pub window: String,
    pub agent_command: String,
    pub actuation: DriverTmuxActuationConfig,
    pub existing_window_id: Option<String>,
}

#[verifier::ext_equal]
pub struct DriverTmuxConfigView {
    pub session: Seq<char>,
    pub window: Seq<char>,
    pub agent_command: Seq<char>,
    pub actuation: DriverTmuxActuationConfigView,
    pub existing_window_id: Option<Seq<char>>,
}

impl DeepView for DriverTmuxConfig {
    type V = DriverTmuxConfigView;

    open spec fn deep_view(&self) -> DriverTmuxConfigView {
        DriverTmuxConfigView {
            session: self.session@,
            window: self.window@,
            agent_command: self.agent_command@,
            actuation: self.actuation.deep_view(),
            existing_window_id: self.existing_window_id.deep_view(),
        }
    }
}

impl TmuxPaneAllocationIntent {
    /// Where the pane is to be.
    pub fn config(&self) -> (r: DriverTmuxConfig)
        ensures
            r.deep_view() == (DriverTmuxConfigView {
                session: self.deep_view().session_id,
                window: self.deep_view().window_name,
                agent_command: self.deep_view().agent_command,
                actuation: self.deep_view().actuation,
                existing_window_id: self.deep_view().existing_window_id,
            }),
    {
        DriverTmuxConfig {
            session: self.session_id.clone(),
            window: self.window_name.clone(),
            agent_command: self.agent_command.clone(),
            actuation: self.actuation.clone(),
            existing_window_id: self.existing_window_id.clone(),
        }
    }
}

impl DriverTmuxState {
    /// Where more panes are to be.
    pub fn config(&self) -> (r: DriverTmuxConfig)
        ensures
            r.deep_view() == (DriverTmuxConfigView {
                session: self.deep_view().session_id,
                window: self.deep_view().window_name,
                agent_command: self.deep_view().agent_command,
                actuation: self.deep_view().actuation,
                existing_window_id: Some(self.deep_view().window_id),
            }),
    {
        DriverTmuxConfig {
            session: self.session_id.clone(),
            window: self.window_name.clone(),
            agent_command: self.agent_command.clone(),
            actuation: self.actuation.clone(),
            existing_window_id: Some(self.window_id.clone()),
        }
    }
}

/// How often a prompt is submitted, as a request says.
pub open spec fn asked_key_count(object: JsonView) -> Result<usize, Seq<char>> {
    match either_field(object, "prompt_submit_key_count"@, "promptSubmitKeyCount"@) {
        None => Ok(1),
        Some(value) => match unsigned_of(value) {
            None => Err("tmux.prompt_submit_key_count must be an unsigned integer"@),
            Some(count) => if 1 <= count <= 4 {
                Ok(count as usize)
            } else {
                Err("tmux.prompt_submit_key_count must be between 1 and 4"@)
            },
        },
    }
}

/// The text that shows that an agent is ready, as a request says.
pub open spec fn asked_pattern(object: JsonView) -> Result<Option<Seq<char>>, Seq<char>> {
    match either_field(object, "agent_ready_pattern"@, "agentReadyPattern"@) {
        None => Ok(None),
        Some(value) => match text_of(value) {
            None => Err("tmux.agent_ready_pattern must be a string"@),
            Some(pattern) => if trimmed(pattern).len() == 0 {
                Err("tmux.agent_ready_pattern must be non-empty"@)
            } else {
                Ok(Some(trimmed(pattern)))
            },
        },
    }
}

/// How long an agent is waited for, as a request says.
pub open spec fn asked_timeout(object: JsonView) -> Result<u64, Seq<char>> {
    match either_field(object, "agent_ready_timeout_ms"@, "agentReadyTimeoutMs"@) {
        None => Ok(30_000),
        Some(value) => match unsigned_of(value) {
            None => Err("tmux.agent_ready_timeout_ms must be an unsigned integer"@),
            Some(timeout) => if 100 <= timeout <= 300_000 {
                Ok(timeout)
            } else {
                Err("tmux.agent_ready_timeout_ms must be between 100 and 300000"@)
            },
        },
    }
}

/// How agents are to be set to work, as a request says. The first fault counts.
pub open spec fn asked_actuation(object: JsonView) -> Result<
    DriverTmuxActuationConfigView,
    Seq<char>,
> {
    match asked_key_count(object) {
        Err(message) => Err(message),
        Ok(prompt_submit_key_count) => match asked_pattern(object) {
            Err(message) => Err(message),
            Ok(agent_ready_pattern) => match asked_timeout(object) {
                Err(message) => Err(message),
                Ok(agent_ready_timeout_ms) => Ok(
                    DriverTmuxActuationConfigView {
                        prompt_submit_key_count,
                        agent_ready_pattern,
                        agent_ready_timeout_ms,
                    },
                ),
            },
        },
    }
}

pub fn parse_tmux_actuation_config(object: &Json) -> (r: Result<
    DriverTmuxActuationConfig,
    &'static str,
>)
    ensures
        match r {
            Ok(config) => asked_actuation(object@) == Ok::<
                DriverTmuxActuationConfigView,
                Seq<char>,
            >(config.deep_view()),
            Err(message) => asked_actuation(object@) == Err::<
                DriverTmuxActuationConfigView,
                Seq<char>,
            >(message@),
        },
{
    let count: usize = match get_either(
        object,
        "prompt_submit_key_count",
        "promptSubmitKeyCount",
    ) {
        None => 1,
        Some(value) => match value.as_u64() {
            None => return Err("tmux.prompt_submit_key_count must be an unsigned integer"),
            Some(count) => {
                if count < 1 || count > 4 {
                    return Err("tmux.prompt_submit_key_count must be between 1 and 4");
                }
                count as usize
            },
        },
    };
    let pattern = match get_either(object, "agent_ready_pattern", "agentReadyPattern") {
        None => None,
        Some(value) => match value.as_str() {
            None => return Err("tmux.agent_ready_pattern must be a string"),
            Some(pattern) => {
                let pattern = trim(pattern);
                if pattern.is_empty() {
                    return Err("tmux.agent_ready_pattern must be non-empty");
                }
                Some(pattern.to_string())
            },
        },
    };
    let timeout: u64 = match get_either(
        object,
        "agent_ready_timeout_ms",
        "agentReadyTimeoutMs",
    ) {
        None => 30_000,
        Some(value) => match value.as_u64() {
            None => return Err("tmux.agent_ready_timeout_ms must be an unsigned integer"),
            Some(timeout) => {
                if timeout < 100 || timeout > 300_000 {
                    return Err("tmux.agent_ready_timeout_ms must be between 100 and 300000");
                }
                timeout
            },
        },
    };
    Ok(
        DriverTmuxActuationConfig {
            prompt_submit_key_count: count,
            agent_ready_pattern: pattern,
            agent_ready_timeout_ms: timeout,
        },
    )
}

/// Where the panes of a run are to be, as a request says; nowhere unless it asks for them.
pub open spec fn asked_tmux(request: JsonView) -> Result<
    Option<DriverTmuxConfigView>,
    FailureView,
> {
    match field(request, "tmux"@) {
        None => Ok(None),
        Some(object) => if object !is Record {
            Err(FailureView::plain("malformed_request"@, "tmux must be an object"@))
        } else if flag_field(object, "enabled"@) != Some(true) {
            Ok(None)
        } else {
            match demanded(object, "session"@) {
                Err(failure) => Err(failure),
                Ok(session) => match demanded(object, "window"@) {
                    Err(failure) => Err(failure),
                    Ok(window) => match either_field(object, "agent_command"@, "agentCommand"@) {
                        Some(JsonView::Text(command)) => if trimmed(session).len() == 0
                            || trimmed(window).len() == 0 || trimmed(command).len() == 0 {
                            Err(
                                FailureView::plain(
                                    "malformed_request"@,
                                    "tmux session, window, and agent command must be non-empty"@,
                                ),
                            )
                        } else {
                            match asked_actuation(object) {
                                Err(message) => Err(
                                    FailureView::plain("malformed_request"@, message),
                                ),
                                Ok(actuation) => Ok(
                                    Some(
                                        DriverTmuxConfigView {
                                            session: trimmed(session),
                                            window: trimmed(window),
                                            agent_command: trimmed(command),
                                            actuation,
                                            existing_window_id: match either_field(
                                                object,
                                                "window_id"@,
                                                "windowId"@,
                                            ) {
                                                Some(value) => text_of(value),
                                                None => None,
                                            },
                                        },
                                    ),
                                ),
                            }
                        },
                        _ => Err(
                            FailureView::plain(
                                "malformed_request"@,
                                "tmux.agent_command is required"@,
                            ),
                        ),
                    },
                },
            }
        },
    }
}

pub fn tmux_config_from_request(request: &Json) -> (r: Result<
    Option<DriverTmuxConfig>,
    DriverFailure,
>)
    ensures
        result_of(r) == asked_tmux(request@),
{
    let object = match request.get("tmux") {
        None => return Ok(None),
        Some(object) => object,
    };
    if !object.is_record() {
        return Err(DriverFailure::new("malformed_request", "tmux must be an object"));
    }
    let enabled = match object.flag_at("enabled") {
        Some(flag) => flag,
        None => false,
    };
    if !enabled {
        return Ok(None);
    }
    let session = match required_string(object, "session") {
        Err(failure) => return Err(failure),
        Ok(text) => trim(text),
    };
    let window = match required_string(object, "window") {
        Err(failure) => return Err(failure),
        Ok(text) => trim(text),
    };
    let command = match get_either(object, "agent_command", "agentCommand") {
        Some(Json::Text(text)) => trim(text.as_str()),
        _ => return Err(
            DriverFailure::new("malformed_request", "tmux.agent_command is required"),
        ),
    };
    if session.is_empty() || window.is_empty() || command.is_empty() {
        return Err(
            DriverFailure::new(
                "malformed_request",
                "tmux session, window, and agent command must be non-empty",
            ),
        );
    }
    let actuation = match parse_tmux_actuation_config(object) {
        Err(message) => return Err(DriverFailure::new("malformed_request", message)),
        Ok(actuation) => actuation,
    };
    let existing_window_id = match get_either(object, "window_id", "windowId") {
        Some(value) => match value.as_str() {
            Some(text) => Some(text.to_string()),
            None => None,
        },
        None => None,
    };
    Ok(
        Some(
            DriverTmuxConfig {
                session: session.to_string(),
                window: window.to_string(),
                agent_command: command.to_string(),
                actuation,
                existing_window_id,
            },
        ),
    )
}

/// The name of the work to make a pane, the same whenever it is tried again.
pub open spec fn allocation_id(
    run_id: Seq<char>,
    activation_id: Seq<char>,
    generation: u64,
) -> Seq<char> {
    "alloc_"@ + sha256_hex(
        framed_all(
            Seq::<Seq<char>>::empty()
                .push("tmux-pane-allocation"@)
                .push(run_id)
                .push(activation_id)
                .push(decimal(generation as nat)),
        ),
    )
}

pub fn tmux_allocation_operation_id(
    run_id: &str,
    activation_id: &str,
    allocation_generation: u64,
) -> (r: String)
    ensures
        r@ == allocation_id(run_id@, activation_id@, allocation_generation),
{
    let mut bytes: Vec<u8> = Vec::new();
    let generation = decimal_text(allocation_generation);
    let ghost t0 = Seq::<Seq<char>>::empty();
    let ghost t1 = t0.push("tmux-pane-allocation"@);
    let ghost t2 = t1.push(run_id@);
    let ghost t3 = t2.push(activation_id@);
    let ghost t4 = t3.push(generation@);
    push_framed("tmux-pane-allocation", &mut bytes);
    push_framed(run_id, &mut bytes);
    push_framed(activation_id, &mut bytes);
    push_framed(generation.as_str(), &mut bytes);
    proof {
        lemma_framed_push(t0, "tmux-pane-allocation"@);
        lemma_framed_push(t1, run_id@);
        lemma_framed_push(t2, activation_id@);
        lemma_framed_push(t3, generation@);
        assert(bytes@ =~= framed_all(t4));
    }
    cat2("alloc_", sha256_hex_text(bytes.as_slice()).as_str())
}

proof fn lemma_framed_push(texts: Seq<Seq<char>>, text: Seq<char>)
    ensures
        framed_all(texts.push(text)) == framed_all(texts) + framed(text),
{
    assert(texts.push(text).drop_last() =~= texts);
}

/// The name of the work to start a helper on a pane.
pub open spec fn capture_id(
    run_id: Seq<char>,
    activation_id: Seq<char>,
    pane: StoredPaneView,
) -> Seq<char> {
    "capture-"@ + sha256_hex(
        framed_all(
            Seq::<Seq<char>>::empty()
                .push("humanize.tmux.pipe_capture.v1"@)
                .push(run_id)
                .push(activation_id)
                .push(pane.pane_id)
                .push(pane.window_id),
        ) + big_endian(pane.allocation_generation as nat, 8),
    )
}

pub fn pipe_capture_operation_id(run_id: &str, activation_id: &str, pane: &StoredPane) -> (r:
    String)
    ensures
        r@ == capture_id(run_id@, activation_id@, pane.deep_view()),
{
    let mut bytes: Vec<u8> = Vec::new();
    let ghost t0 = Seq::<Seq<char>>::empty();
    let ghost t1 = t0.push("humanize.tmux.pipe_capture.v1"@);
    let ghost t2 = t1.push(run_id@);
    let ghost t3 = t2.push(activation_id@);
    let ghost t4 = t3.push(pane.pane_id@);
    let ghost t5 = t4.push(pane.window_id@);
    push_framed("humanize.tmux.pipe_capture.v1", &mut bytes);
    push_framed(run_id, &mut bytes);
    push_framed(activation_id, &mut bytes);
    push_framed(pane.pane_id.as_str(), &mut bytes);
    push_framed(pane.window_id.as_str(), &mut bytes);
    proof {
        lemma_framed_push(t0, "humanize.tmux.pipe_capture.v1"@);
        lemma_framed_push(t1, run_id@);
        lemma_framed_push(t2, activation_id@);
        lemma_framed_push(t3, pane.pane_id@);
        lemma_framed_push(t4, pane.window_id@);
        assert(bytes@ =~= framed_all(t5));
    }
    push_u64_be(pane.allocation_generation, &mut bytes);
    cat2("capture-", sha256_hex_text(bytes.as_slice()).as_str())
}

/// The name of the work to end a pane.
pub open spec fn cleanup_id(
    run_id: Seq<char>,
    activation_id: Seq<char>,
    pane: StoredPaneView,
) -> Seq<char> {
    "cleanup-"@ + sha256_hex(
        framed_all(
            Seq::<Seq<char>>::empty()
                .push("humanize.tmux.pane_cleanup.v1"@)
                .push(run_id)
                .push(activation_id)
                .push(pane.session_id)
                .push(pane.window_id)
                .push(pane.window_name)
                .push(pane.pane_id),
        ) + big_endian(pane.allocation_generation as nat, 8),
    )
}

pub fn tmux_cleanup_operation_id(run_id: &str, activation_id: &str, pane: &StoredPane) -> (r:
    String)
    ensures
        r@ == cleanup_id(run_id@, activation_id@, pane.deep_view()),
{
    let mut bytes: Vec<u8> = Vec::new();
    let ghost t0 = Seq::<Seq<char>>::empty();
    let ghost t1 = t0.push("humanize.tmux.pane_cleanup.v1"@);
    let ghost t2 = t1.push(run_id@);
    let ghost t3 = t2.push(activation_id@);
    let ghost t4 = t3.push(pane.session_id@);
    let ghost t5 = t4.push(pane.window_id@);
    let ghost t6 = t5.push(pane.window_name@);
    let ghost t7 = t6.push(pane.pane_id@);
    push_framed("humanize.tmux.pane_cleanup.v1", &mut bytes);
    push_framed(run_id, &mut bytes);
    push_framed(activation_id, &mut bytes);
    push_framed(pane.session_id.as_str(), &mut bytes);
    push_framed(pane.window_id.as_str(), &mut bytes);
    push_framed(pane.window_name.as_str(), &mut bytes);
    push_framed(pane.pane_id.as_str(), &mut bytes);
    proof {
        lemma_framed_push(t0, "humanize.tmux.pane_cleanup.v1"@);
        lemma_framed_push(t1, run_id@);
        lemma_framed_push(t2, activation_id@);
        lemma_framed_push(t3, pane.session_id@);
        lemma_framed_push(t4, pane.window_id@);
        lemma_framed_push(t5, pane.window_name@);
        lemma_framed_push(t6, pane.pane_id@);
        assert(bytes@ =~= framed_all(t7));
    }
    push_u64_be(pane.allocation_generation, &mut bytes);
    cat2("cleanup-", sha256_hex_text(bytes.as_slice()).as_str())
}

/// A path with a slash for every backslash.
pub open spec fn with_slashes(s: Seq<char>) -> Seq<char> {
    Seq::new(
        s.len(),
        |i: int|
            if s[i] == '\\' {
                '/'
            } else {
                s[i]
            },
    )
}

fn slashed(s: &str) -> (r: String)
    ensures
        r@ == with_slashes(s@),
{
    let chars = char_vec(s);
    let mut out = String::new();
    let mut i: usize = 0;
    while i < chars.len()
        invariant
            i <= chars.len(),
            chars@ == s@,
            out@ == with_slashes(s@).take(i as int),
        decreases chars.len() - i,
    {
        let c = if chars[i] == '\\' {
            '/'
        } else {
            chars[i]
        };
        out.push(c);
        assert(with_slashes(s@).take(i + 1) =~= with_slashes(s@).take(i as int).push(c));
        i += 1;
    }
    assert(with_slashes(s@).take(i as int) =~= with_slashes(s@));
    out
}

/// Where a helper says that it is ready to the driver with the given process id: beside the
/// transcript.
pub open spec fn ack_path(transcript: Seq<char>, pid: u32) -> Seq<char> {
    let name = match file_name(transcript) {
        Some(name) => name,
        None => "pipe"@,
    };
    let ack = "."@ + name + ".driver-ready-"@ + decimal(pid as nat);
    with_slashes(
        match parent_path(transcript) {
            Some(parent) => path_joined(parent, ack),
            None => ack,
        },
    )
}

pub fn pipe_ack_relative_path(pipe_relative_path: &str, pid: u32) -> (r: String)
    ensures
        r@ == ack_path(pipe_relative_path@, pid),
{
    let name = match path_file_name(pipe_relative_path) {
        Some(name) => name,
        None => "pipe".to_string(),
    };
    let ack = cat4(".", name.as_str(), ".driver-ready-", decimal_text(pid as u64).as_str());
    let path = match path_parent(pipe_relative_path) {
        Some(parent) => join_path(parent.as_str(), ack.as_str()),
        None => ack,
    };
    slashed(path.as_str())
}

pub fn pipe_completion_relative_path(ack_relative_path: &str) -> (r: String)
    ensures
        r@ == with_slashes(completion_path(ack_relative_path@)),
{
    slashed(default_pipe_completion_path(ack_relative_path).as_str())
}

/// Whether a binding is to another window, or to other work, than the one that stands.
pub open spec fn rebinds(current: DriverTmuxStateView, wanted: DriverTmuxConfigView) -> bool {
    ||| current.session_id != wanted.session
    ||| Some(current.window_id) != wanted.existing_window_id
    ||| current.window_name != wanted.window
    ||| current.agent_command != wanted.agent_command
    ||| current.actuation != wanted.actuation
}

/// Whether a request for panes changes the binding: only where it names a window, and where
/// none stands or another one does.
pub open spec fn binding_changes(
    current: Option<DriverTmuxStateView>,
    wanted: DriverTmuxConfigView,
) -> bool {
    wanted.existing_window_id matches Some(window_id) && window_id.len() > 0 && match current {
        None => true,
        Some(current) => rebinds(current, wanted),
    }
}

pub fn should_replace_binding(current: &Option<DriverTmuxState>, wanted: &DriverTmuxConfig) -> (r:
    bool)
    ensures
        r == binding_changes(current.deep_view(), wanted.deep_view()),
{
    let window_id = match &wanted.existing_window_id {
        Some(window_id) => window_id,
        None => return false,
    };
    if window_id.as_str().is_empty() {
        return false;
    }
    match current {
        None => true,
        Some(current) => !same(current.session_id.as_str(), wanted.session.as_str()) || !same(
            current.window_id.as_str(),
            window_id.as_str(),
        ) || !same(current.window_name.as_str(), wanted.window.as_str()) || !same(
            current.agent_command.as_str(),
            wanted.agent_command.as_str(),
        ) || !current.actuation.same_as(&wanted.actuation),
    }
}

/// The event that a binding is written down with.
pub open spec fn binding_event(
    session_id: Seq<char>,
    window_name: Seq<char>,
    window_id: Seq<char>,
    agent_command: Seq<char>,
    actuation: DriverTmuxActuationConfigView,
) -> PlannedEventView {
    PlannedEventView {
        kind: "tmux_bound"@,
        payload: JsonView::Record(
            no_fields()
                .push(("session_id"@, JsonView::Text(session_id)))
                .push(("window_name"@, JsonView::Text(window_name)))
                .push(("window_id"@, JsonView::Text(window_id)))
                .push(("agent_command"@, JsonView::Text(agent_command)))
                .push(("actuation"@, actuation.json())),
        ),
    }
}

pub fn tmux_binding_event(
    session_id: &str,
    window_name: &str,
    window_id: &str,
    agent_command: &str,
    actuation: &DriverTmuxActuationConfig,
) -> (r: PlannedEvent)
    ensures
        r.deep_view() == binding_event(
            session_id@,
            window_name@,
            window_id@,
            agent_command@,
            actuation.deep_view(),
        ),
{
    PlannedEvent {
        kind: "tmux_bound",
        payload: Fields::new()
            .put("session_id", Json::text(session_id))
            .put("window_name", Json::text(window_name))
            .put("window_id", Json::text(window_id))
            .put("agent_command", Json::text(agent_command))
            .put("actuation", actuation.to_json())
            .done(),
    }
}

/// The pane that is to be made for an activation: the one that was begun, or the next one.
pub open spec fn allocation_to_make(
    state: DriverStateView,
    config: DriverTmuxConfigView,
    run_id: Seq<char>,
    activation_id: Seq<char>,
) -> TmuxPaneAllocationIntentView {
    if state.pending_tmux_allocations.dom().contains(activation_id) {
        state.pending_tmux_allocations[activation_id]
    } else {
        TmuxPaneAllocationIntentView {
            operation_id: allocation_id(
                run_id,
                activation_id,
                state.next_generation(activation_id),
            ),
            activation_id,
            allocation_generation: state.next_generation(activation_id),
            session_id: config.session,
            window_name: config.window,
            agent_command: config.agent_command,
            actuation: config.actuation,
            existing_window_id: match state.tmux {
                Some(tmux) => if tmux.window_id.len() > 0 {
                    Some(tmux.window_id)
                } else {
                    config.existing_window_id
                },
                None => config.existing_window_id,
            },
        }
    }
}

impl ReplayedDriverEvents {
    /// The pane that is to be made for an activation, and whether it was begun before.
    pub fn plan_allocation(
        &self,
        config: &DriverTmuxConfig,
        run_id: &str,
        activation_id: &str,
    ) -> (r: (TmuxPaneAllocationIntent, bool))
        ensures
            r.0.deep_view() == allocation_to_make(
                self.deep_view(),
                config.deep_view(),
                run_id@,
                activation_id@,
            ),
            r.1 == self.deep_view().pending_tmux_allocations.dom().contains(activation_id@),
    {
        match self.pending_tmux_allocations.get(&activation_id.to_string()) {
            Some(intent) => (intent.clone(), true),
            None => {
                let generation = self.next_allocation_generation(activation_id);
                let existing_window_id = match &self.tmux {
                    Some(tmux) => if !tmux.window_id.as_str().is_empty() {
                        Some(tmux.window_id.clone())
                    } else {
                        config.existing_window_id.clone()
                    },
                    None => config.existing_window_id.clone(),
                };
                (
                    TmuxPaneAllocationIntent {
                        operation_id: tmux_allocation_operation_id(
                            run_id,
                            activation_id,
                            generation,
                        ),
                        activation_id: activation_id.to_string(),
                        allocation_generation: generation,
                        session_id: config.session.clone(),
                        window_name: config.window.clone(),
                        agent_command: config.agent_command.clone(),
                        actuation: config.actuation.clone(),
                        existing_window_id,
                    },
                    false,
                )
            },
        }
    }
}

/// What is told of something that tmux refused.
pub open spec fn tmux_failure(error: TmuxErrorView) -> FailureView {
    FailureView::plain("tmux_error"@, error.text())
}

pub fn from_tmux(error: TmuxError) -> (r: DriverFailure)
    ensures
        r.deep_view() == tmux_failure(error.deep_view()),
{
    DriverFailure::told("tmux_error", error.to_text())
}

/// A result of tmux as a result of the driver.
pub open spec fn as_driver<T>(r: Result<T, TmuxErrorView>) -> Result<T, FailureView> {
    match r {
        Ok(value) => Ok(value),
        Err(error) => Err(tmux_failure(error)),
    }
}

/// The window and the pane out of a session, a window and a pane.
pub open spec fn without_session(
    r: Result<(TmuxSessionView, TmuxWindowView, TmuxPaneView), TmuxErrorView>,
) -> Result<(TmuxWindowView, TmuxPaneView), TmuxErrorView> {
    match r {
        Ok((_, window, pane)) => Ok((window, pane)),
        Err(error) => Err(error),
    }
}

/// A pane in a window that is known.
pub open spec fn in_window(
    window: TmuxWindowView,
    pane: Result<TmuxPaneView, TmuxErrorView>,
) -> Result<(TmuxWindowView, TmuxPaneView), TmuxErrorView> {
    match pane {
        Ok(pane) => Ok((window, pane)),
        Err(error) => Err(error),
    }
}

/// What may come of a pane that is made under its mark: in the window that is named, in a new
/// window of the session, or in a new session.
pub open spec fn identified_pane_created<R: CommandRunner>(
    runner: R,
    run_id: Seq<char>,
    intent: TmuxPaneAllocationIntentView,
    r: Result<(TmuxWindowView, TmuxPaneView), FailureView>,
) -> bool {
    match intent.existing_window_id {
        Some(window_id) => {
            let window = TmuxWindowView {
                session_id: intent.session_id,
                run_id,
                name: intent.window_name,
                id: window_id,
            };
            exists|pane: Result<TmuxPaneView, TmuxErrorView>| #[trigger]
                marked_pane_split_off(
                    runner,
                    window,
                    intent.activation_id,
                    intent.operation_id,
                    pane,
                ) && r == as_driver(in_window(window, pane))
        },
        None => exists|found: Result<bool, TmuxErrorView>| #[trigger]
            session_found(runner, intent.session_id, found) && match found {
                Err(error) => r == Err::<(TmuxWindowView, TmuxPaneView), FailureView>(
                    tmux_failure(error),
                ),
                Ok(true) => exists|made: Result<(TmuxWindowView, TmuxPaneView), TmuxErrorView>|
                 #[trigger]
                    marked_window_pane_created(
                        runner,
                        intent.session_id,
                        run_id,
                        intent.window_name,
                        intent.activation_id,
                        intent.operation_id,
                        made,
                    ) && r == as_driver(made),
                Ok(false) => exists|
                    made: Result<(TmuxSessionView, TmuxWindowView, TmuxPaneView), TmuxErrorView>,
                |
                 #[trigger]
                    marked_session_pane_created(
                        runner,
                        intent.session_id,
                        run_id,
                        intent.window_name,
                        intent.activation_id,
                        intent.operation_id,
                        made,
                    ) && r == as_driver(without_session(made)),
            },
    }
}

/// Makes a pane under its mark.
pub fn create_identified_tmux_pane<R: CommandRunner>(
    adapter: &TmuxAdapter<R>,
    run_id: &str,
    intent: &TmuxPaneAllocationIntent,
) -> (r: Result<(TmuxWindow, TmuxPane), DriverFailure>)
    ensures
        identified_pane_created(adapter.runs(), run_id@, intent.deep_view(), result_of(r)),
{
    match &intent.existing_window_id {
        Some(window_id) => {
            let window = TmuxWindow::new_named(
                intent.session_id.clone(),
                run_id.to_string(),
                intent.window_name.clone(),
                window_id.clone(),
            );
            let split = adapter.split_pane_for_activation_identified(
                &window,
                intent.activation_id.clone(),
                intent.operation_id.as_str(),
            );
            assert(marked_pane_split_off(
                adapter.runs(),
                window.deep_view(),
                intent.deep_view().activation_id,
                intent.deep_view().operation_id,
                outcome(split),
            ));
            match split {
                Err(error) => Err(from_tmux(error)),
                Ok(pane) => Ok((window, pane)),
            }
        },
        None => {
            let session = TmuxSession::new(intent.session_id.clone());
            let found = adapter.has_session(&session);
            assert(session_found(
                adapter.runs(),
                intent.deep_view().session_id,
                outcome(found),
            ));
            match found {
                Err(error) => Err(from_tmux(error)),
                Ok(true) => {
                    let made = adapter.create_window_named_with_pane_identified(
                        &session,
                        run_id.to_string(),
                        intent.window_name.clone(),
                        intent.activation_id.clone(),
                        intent.operation_id.as_str(),
                    );
                    assert(marked_window_pane_created(
                        adapter.runs(),
                        intent.deep_view().session_id,
                        run_id@,
                        intent.deep_view().window_name,
                        intent.deep_view().activation_id,
                        intent.deep_view().operation_id,
                        outcome(made),
                    ));
                    match made {
                        Err(error) => Err(from_tmux(error)),
                        Ok(pair) => Ok(pair),
                    }
                },
                Ok(false) => {
                    let made = adapter.create_session_with_window_pane_identified(
                        intent.session_id.clone(),
                        run_id.to_string(),
                        intent.window_name.clone(),
                        intent.activation_id.clone(),
                        intent.operation_id.as_str(),
                    );
                    assert(marked_session_pane_created(
                        adapter.runs(),
                        intent.deep_view().session_id,
                        run_id@,
                        intent.deep_view().window_name,
                        intent.deep_view().activation_id,
                        intent.deep_view().operation_id,
                        outcome(made),
                    ));
                    match made {
                        Err(error) => Err(from_tmux(error)),
                        Ok((_, window, pane)) => Ok((window, pane)),
                    }
                },
            }
        },
    }
}

/// What may come of the pane of an intent: the one that carries its mark, or a new one.
pub open spec fn identified_pane_ensured<R: CommandRunner>(
    runner: R,
    run_id: Seq<char>,
    intent: TmuxPaneAllocationIntentView,
    r: Result<(TmuxWindowView, TmuxPaneView), FailureView>,
) -> bool {
    exists|found: Result<Option<(TmuxWindowView, TmuxPaneView)>, TmuxErrorView>| #[trigger]
        marked_pane_found(
            runner,
            intent.session_id,
            run_id,
            intent.window_name,
            intent.activation_id,
            intent.operation_id,
            found,
        ) && match found {
            Err(error) => r == Err::<(TmuxWindowView, TmuxPaneView), FailureView>(
                tmux_failure(error),
            ),
            Ok(Some(pair)) => r == Ok::<(TmuxWindowView, TmuxPaneView), FailureView>(pair),
            Ok(None) => identified_pane_created(runner, run_id, intent, r),
        }
}

/// The pane of an intent: it is made only if none carries its mark.
pub fn ensure_identified_tmux_pane<R: CommandRunner>(
    adapter: &TmuxAdapter<R>,
    run_id: &str,
    intent: &TmuxPaneAllocationIntent,
) -> (r: Result<(TmuxWindow, TmuxPane), DriverFailure>)
    ensures
        identified_pane_ensured(adapter.runs(), run_id@, intent.deep_view(), result_of(r)),
{
    let found = adapter.find_identified_pane(
        intent.session_id.as_str(),
        run_id,
        intent.window_name.as_str(),
        intent.activation_id.as_str(),
        intent.operation_id.as_str(),
    );
    assert(marked_pane_found(
        adapter.runs(),
        intent.deep_view().session_id,
        run_id@,
        intent.deep_view().window_name,
        intent.deep_view().activation_id,
        intent.deep_view().operation_id,
        outcome(found),
    ));
    match found {
        Err(error) => Err(from_tmux(error)),
        Ok(Some(pair)) => Ok(pair),
        Ok(None) => create_identified_tmux_pane(adapter, run_id, intent),
    }
}

/// The event that a pane is written down with.
pub open spec fn allocated_event(
    activation_id: Seq<char>,
    operation_id: Seq<char>,
    pane: StoredPaneView,
) -> PlannedEventView {
    PlannedEventView {
        kind: "tmux_pane_allocated"@,
        payload: JsonView::Record(
            no_fields()
                .push(("activation_id"@, JsonView::Text(activation_id)))
                .push(("operation_id"@, JsonView::Text(operation_id)))
                .push(("pane"@, pane.json())),
        ),
    }
}

pub fn pane_allocated_event(activation_id: &str, operation_id: &str, pane: &StoredPane) -> (r:
    PlannedEvent)
    ensures
        r.deep_view() == allocated_event(activation_id@, operation_id@, pane.deep_view()),
{
    PlannedEvent {
        kind: "tmux_pane_allocated",
        payload: Fields::new()
            .put("activation_id", Json::text(activation_id))
            .put("operation_id", Json::text(operation_id))
            .put("pane", pane.to_json())
            .done(),
    }
}

/// The pane that is to be ended: the one that was begun, where it is this one.
pub open spec fn cleanup_to_do(
    state: DriverStateView,
    run_id: Seq<char>,
    activation_id: Seq<char>,
    pane: StoredPaneView,
    reason: Seq<char>,
) -> Result<TmuxPaneCleanupIntentView, FailureView> {
    if state.pending_tmux_cleanups.dom().contains(activation_id) {
        let intent = state.pending_tmux_cleanups[activation_id];
        if intent.run_id != run_id || intent.activation_id != activation_id
            || intent.allocation_generation != pane.allocation_generation || intent.pane != pane {
            Err(
                FailureView::plain(
                    "tmux_error"@,
                    "pending pane cleanup belongs to a different allocation"@,
                ),
            )
        } else {
            Ok(intent)
        }
    } else {
        Ok(
            TmuxPaneCleanupIntentView {
                operation_id: cleanup_id(run_id, activation_id, pane),
                run_id,
                activation_id,
                allocation_generation: pane.allocation_generation,
                pane,
                reason,
            },
        )
    }
}

impl ReplayedDriverEvents {
    /// The pane that is to be ended, and whether this was begun before.
    pub fn ensure_tmux_pane_cleanup_intent(
        &self,
        run_id: &str,
        activation_id: &str,
        pane: &StoredPane,
        reason: &str,
    ) -> (r: Result<(TmuxPaneCleanupIntent, bool), DriverFailure>)
        ensures
            match r {
                Ok((intent, begun)) => {
                    &&& cleanup_to_do(
                        self.deep_view(),
                        run_id@,
                        activation_id@,
                        pane.deep_view(),
                        reason@,
                    ) == Ok::<TmuxPaneCleanupIntentView, FailureView>(intent.deep_view())
                    &&& begun == self.deep_view().pending_tmux_cleanups.dom().contains(
                        activation_id@,
                    )
                },
                Err(failure) => cleanup_to_do(
                    self.deep_view(),
                    run_id@,
                    activation_id@,
                    pane.deep_view(),
                    reason@,
                ) == Err::<TmuxPaneCleanupIntentView, FailureView>(failure.deep_view()),
            },
    {
        match self.pending_tmux_cleanups.get(&activation_id.to_string()) {
            Some(intent) => {
                if !same(intent.run_id.as_str(), run_id) || !same(
                    intent.activation_id.as_str(),
                    activation_id,
                ) || intent.allocation_generation != pane.allocation_generation
                    || !intent.pane.same_as(pane) {
                    return Err(
                        DriverFailure::new(
                            "tmux_error",
                            "pending pane cleanup belongs to a different allocation",
                        ),
                    );
                }
                Ok((intent.clone(), true))
            },
            None => Ok(
                (
                    TmuxPaneCleanupIntent {
                        operation_id: tmux_cleanup_operation_id(run_id, activation_id, pane),
                        run_id: run_id.to_string(),
                        activation_id: activation_id.to_string(),
                        allocation_generation: pane.allocation_generation,
                        pane: pane.clone(),
                        reason: reason.to_string(),
                    },
                    false,
                ),
            ),
        }
    }
}

/// The work on a pane has the same name whenever it is tried again: the name depends on the
/// run, the activation and the pane alone.
pub proof fn lemma_cleanup_keeps_its_name(
    state: DriverStateView,
    run_id: Seq<char>,
    activation_id: Seq<char>,
    pane: StoredPaneView,
    reason: Seq<char>,
    later_reason: Seq<char>,
)
    requires
        !state.pending_tmux_cleanups.dom().contains(activation_id),
    ensures
        ({
            let first = cleanup_to_do(state, run_id, activation_id, pane, reason)->Ok_0;
            let begun = DriverStateView {
                pending_tmux_cleanups: state.pending_tmux_cleanups.insert(activation_id, first),
                ..state
            };
            cleanup_to_do(begun, run_id, activation_id, pane, later_reason) == Ok::<
                TmuxPaneCleanupIntentView,
                FailureView,
            >(first)
        }),
{
}

/// A pane that was begun and not finished is tried again as it was begun, whatever is asked
/// for meanwhile.
pub proof fn lemma_allocation_is_resumed(
    state: DriverStateView,
    config: DriverTmuxConfigView,
    later_config: DriverTmuxConfigView,
    run_id: Seq<char>,
    activation_id: Seq<char>,
)
    ensures
        ({
            let first = allocation_to_make(state, config, run_id, activation_id);
            let begun = DriverStateView {
                pending_tmux_allocations: state.pending_tmux_allocations.insert(
                    activation_id,
                    first,
                ),
                ..state
            };
            allocation_to_make(begun, later_config, run_id, activation_id) == first
        }),
{
}

} // verus!
