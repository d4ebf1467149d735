//! The agents of a run: how they are started and bound to a session, what they may ask for,
//! and how they stop and exit.
use vstd::prelude::*;
use vstd::utf8::encode_utf8;

use crate::hash::{sha256_hex, sha256_hex_text};
use crate::json::{
    field, no_fields, option_text, option_text_json, text_field, text_list, unsigned_field, Fields,
    Json, JsonView,
};
use crate::split::{
    components, join_path, lemma_piece_behind, lemma_whole_piece, part_components, path_components,
    path_joined, pieces, Component, ComponentView,
};
use crate::table::Table;
use crate::text::{blank, cat2, cat3, is_blank, same};

use super::delivery::{PlannedEvent, PlannedEventView};
use super::failure::{result_of, DriverFailure, FailureView};
use super::fields::{optional_signed_json, optional_signed_to_json, read_small_signed, small_signed_of};
use super::keys::{allocation_key, AllocationKey, AllocationKeyView};
use super::lifecycle::has_pane;
use super::protocol::DriverWire;
use super::records::{ParticipantBinding, ParticipantBindingView, StoredPane, StoredPaneView};
use super::replay::{DriverStateView, ReplayedDriverEvents};
use super::wire::{
    activation_status_name, demanded, demanded_filled, required_nonempty, required_string,
    stop_decision_kind_name, texts_json, ActivationStatus, StopDecision, StopDecisionView,
};

verus! {

broadcast use vstd::string::group_string_axioms;

/// How often an agent may try to stop, where nothing else is asked for.
pub const DEFAULT_STOP_ATTEMPT_LIMIT: u32 = 3;

/// How often an agent may try to stop at most.
pub const MAX_STOP_ATTEMPT_LIMIT: u32 = 8;

/// What only an agent and the driver know.
#[derive(Debug)]
pub struct ParticipantBindingFile {
    pub run_id: String,
    pub activation_id: String,
    pub allocation_generation: u64,
    pub pane_id: String,
    pub readiness_nonce: String,
    pub handle: String,
    pub credential: String,
    pub runs_root: String,
}

#[verifier::ext_equal]
pub struct BindingFileView {
    pub run_id: Seq<char>,
    pub activation_id: Seq<char>,
    pub allocation_generation: u64,
    pub pane_id: Seq<char>,
    pub readiness_nonce: Seq<char>,
    pub handle: Seq<char>,
    pub credential: Seq<char>,
    pub runs_root: Seq<char>,
}

impl DeepView for ParticipantBindingFile {
    type V = BindingFileView;

    open spec fn deep_view(&self) -> BindingFileView {
        BindingFileView {
            run_id: self.run_id@,
            activation_id: self.activation_id@,
            allocation_generation: self.allocation_generation,
            pane_id: self.pane_id@,
            readiness_nonce: self.readiness_nonce@,
            handle: self.handle@,
            credential: self.credential@,
            runs_root: self.runs_root@,
        }
    }
}

/// The key of a binding.
pub open spec fn key_in(binding: ParticipantBindingView) -> AllocationKeyView {
    AllocationKeyView {
        activation_id: binding.activation_id,
        generation: binding.allocation_generation,
    }
}

impl ParticipantBinding {
    pub fn key(&self) -> (r: AllocationKey)
        ensures
            r.deep_view() == key_in(self.deep_view()),
    {
        allocation_key(self.activation_id.as_str(), self.allocation_generation)
    }
}

/// What is kept of a credential.
pub open spec fn credential_digest(credential: Seq<char>) -> Seq<char> {
    "sha256:"@ + sha256_hex(encode_utf8(credential))
}

pub fn participant_credential_hash(credential: &str) -> (r: String)
    ensures
        r@ == credential_digest(credential@),
{
    cat2("sha256:", sha256_hex_text(credential.as_bytes()).as_str())
}

pub open spec fn unauthorized() -> FailureView {
    FailureView::plain(
        "participant_unauthorized"@,
        "participant binding credential is invalid for the current allocation"@,
    )
}

pub fn participant_unauthorized() -> (r: DriverFailure)
    ensures
        r.deep_view() == unauthorized(),
{
    DriverFailure::new(
        "participant_unauthorized",
        "participant binding credential is invalid for the current allocation",
    )
}

/// Whether the file of a binding is where it has to be.
pub open spec fn file_placed(binding: ParticipantBindingView) -> bool {
    let parts = path_components(binding.binding_file);
    &&& parts.len() == 2
    &&& parts[0] == ComponentView::Normal("bindings"@)
    &&& parts[1] == ComponentView::Normal(binding.handle + ".json"@)
}

pub open spec fn misplaced() -> FailureView {
    FailureView::plain(
        "participant_binding_invalid"@,
        "participant binding file identity is invalid"@,
    )
}

/// Where the file of a binding is.
pub open spec fn file_of(private_root: Seq<char>, binding: ParticipantBindingView) -> Result<
    Seq<char>,
    FailureView,
> {
    if file_placed(binding) {
        Ok(path_joined(private_root, binding.binding_file))
    } else {
        Err(misplaced())
    }
}

pub fn participant_binding_path(private_root: &str, binding: &ParticipantBinding) -> (r: Result<
    String,
    DriverFailure,
>)
    ensures
        result_of(r) == file_of(private_root@, binding.deep_view()),
{
    let parts = components(binding.binding_file.as_str());
    let ghost model = parts.deep_view();
    let expected = cat2(binding.handle.as_str(), ".json");
    let mut valid = parts.len() == 2;
    if valid {
        assert(model[0] == parts@[0].deep_view());
        assert(model[1] == parts@[1].deep_view());
        valid = match &parts[0] {
            Component::Normal(name) => same(name.as_str(), "bindings"),
            _ => false,
        } && match &parts[1] {
            Component::Normal(name) => same(name.as_str(), expected.as_str()),
            _ => false,
        };
    }
    if valid {
        Ok(join_path(private_root, binding.binding_file.as_str()))
    } else {
        Err(
            DriverFailure::new(
                "participant_binding_invalid",
                "participant binding file identity is invalid",
            ),
        )
    }
}

/// Whether a file is that of a binding.
pub open spec fn file_fits(
    file: BindingFileView,
    binding: ParticipantBindingView,
    runs_root: Seq<char>,
) -> bool {
    &&& file.run_id == binding.run_id
    &&& file.activation_id == binding.activation_id
    &&& file.allocation_generation == binding.allocation_generation
    &&& file.pane_id == binding.pane_id
    &&& file.readiness_nonce == binding.readiness_nonce
    &&& file.handle == binding.handle
    &&& file.runs_root == runs_root
}

/// The credential of a binding, from its file, which may not be there to be read.
pub open spec fn secret_of(
    binding: ParticipantBindingView,
    file: Option<BindingFileView>,
    runs_root: Seq<char>,
) -> Result<Seq<char>, FailureView> {
    if !file_placed(binding) {
        Err(misplaced())
    } else {
        match file {
            None => Err(
                FailureView::plain(
                    "participant_binding_invalid"@,
                    "private participant binding is unavailable"@,
                ),
            ),
            Some(file) => if file_fits(file, binding, runs_root) {
                Ok(file.credential)
            } else {
                Err(
                    FailureView::plain(
                        "participant_binding_invalid"@,
                        "private participant binding does not match its durable identity"@,
                    ),
                )
            },
        }
    }
}

pub fn participant_binding_secret<'a>(
    binding: &ParticipantBinding,
    file: &'a Option<ParticipantBindingFile>,
    runs_root: &str,
) -> (r: Result<&'a str, DriverFailure>)
    ensures
        result_of(r) == secret_of(binding.deep_view(), file.deep_view(), runs_root@),
{
    match participant_binding_path("", binding) {
        Err(failure) => return Err(failure),
        Ok(_) => {},
    }
    match file {
        None => Err(
            DriverFailure::new(
                "participant_binding_invalid",
                "private participant binding is unavailable",
            ),
        ),
        Some(file) => {
            if !same(file.run_id.as_str(), binding.run_id.as_str()) || !same(
                file.activation_id.as_str(),
                binding.activation_id.as_str(),
            ) || file.allocation_generation != binding.allocation_generation || !same(
                file.pane_id.as_str(),
                binding.pane_id.as_str(),
            ) || !same(file.readiness_nonce.as_str(), binding.readiness_nonce.as_str()) || !same(
                file.handle.as_str(),
                binding.handle.as_str(),
            ) || !same(file.runs_root.as_str(), runs_root) {
                return Err(
                    DriverFailure::new(
                        "participant_binding_invalid",
                        "private participant binding does not match its durable identity",
                    ),
                );
            }
            Ok(file.credential.as_str())
        },
    }
}

/// A binding for an agent that is to be started.
pub open spec fn new_binding(
    run_id: Seq<char>,
    activation_id: Seq<char>,
    pane: StoredPaneView,
    readiness_nonce: Seq<char>,
    handle: Seq<char>,
    credential: Seq<char>,
) -> ParticipantBindingView {
    ParticipantBindingView {
        run_id,
        activation_id,
        allocation_generation: pane.allocation_generation,
        pane_id: pane.pane_id,
        readiness_nonce,
        handle,
        credential_hash: credential_digest(credential),
        binding_file: "bindings/"@ + handle + ".json"@,
        native_session_id: None,
        platform: None,
        source: None,
        exit_status: None,
    }
}

/// The file of a new binding is where it has to be.
pub proof fn lemma_new_bindings_are_placed(
    run_id: Seq<char>,
    activation_id: Seq<char>,
    pane: StoredPaneView,
    readiness_nonce: Seq<char>,
    handle: Seq<char>,
    credential: Seq<char>,
)
    requires
        !handle.contains('/'),
    ensures
        file_placed(
            new_binding(run_id, activation_id, pane, readiness_nonce, handle, credential),
        ),
{
    reveal_strlit("bindings/");
    reveal_strlit("bindings");
    reveal_strlit(".json");
    reveal_strlit(".");
    reveal_strlit("..");
    let name = handle + ".json"@;
    let path = "bindings/"@ + handle + ".json"@;
    assert(!name.contains('/')) by {
        if name.contains('/') {
            let k = choose|k: int| 0 <= k < name.len() && name[k] == '/';
            if k < handle.len() {
                assert(handle[k] == '/');
            } else {
                assert(".json"@[k - handle.len()] == '/');
            }
        }
    }
    assert(path =~= "bindings"@.push('/') + name);
    lemma_whole_piece("bindings"@, '/');
    lemma_piece_behind("bindings"@, name, '/');
    assert(pieces(path, '/') =~= seq!["bindings"@, name]);
    reveal_with_fuel(part_components, 3);
    assert(path[0] == 'b');
    assert("bindings"@.len() == 8);
    assert("."@.len() == 1);
    assert(".."@.len() == 2);
    assert(path_components(path) =~= seq![
        ComponentView::Normal("bindings"@),
        ComponentView::Normal(name),
    ]);
}

pub fn new_participant_binding(
    run_id: &str,
    activation_id: &str,
    pane: &StoredPane,
    readiness_nonce: &str,
    handle: &str,
    credential: &str,
) -> (r: ParticipantBinding)
    ensures
        r.deep_view() == new_binding(
            run_id@,
            activation_id@,
            pane.deep_view(),
            readiness_nonce@,
            handle@,
            credential@,
        ),
{
    ParticipantBinding {
        run_id: run_id.to_string(),
        activation_id: activation_id.to_string(),
        allocation_generation: pane.allocation_generation,
        pane_id: pane.pane_id.clone(),
        readiness_nonce: readiness_nonce.to_string(),
        handle: handle.to_string(),
        credential_hash: participant_credential_hash(credential),
        binding_file: cat3("bindings/", handle, ".json"),
        native_session_id: None,
        platform: None,
        source: None,
        exit_status: None,
    }
}

/// The binding of an agent that was started before: it must be for this very pane.
pub open spec fn binding_begun(
    state: DriverStateView,
    activation_id: Seq<char>,
    pane: StoredPaneView,
    readiness_nonce: Seq<char>,
) -> Result<Option<ParticipantBindingView>, FailureView> {
    let key = AllocationKeyView { activation_id, generation: pane.allocation_generation };
    if !state.participant_bindings.dom().contains(key) {
        Ok(None)
    } else {
        let binding = state.participant_bindings[key];
        if binding.pane_id != pane.pane_id || binding.readiness_nonce != readiness_nonce {
            Err(
                FailureView::plain(
                    "participant_binding_conflict"@,
                    "participant binding does not match the current allocation"@,
                ),
            )
        } else {
            Ok(Some(binding))
        }
    }
}

/// The event that says that an agent was started.
pub open spec fn started_event(binding: ParticipantBindingView, limit: u32) -> PlannedEventView {
    PlannedEventView {
        kind: "participant_started"@,
        payload: JsonView::Record(
            no_fields()
                .push(("binding"@, binding.json()))
                .push(("stop_attempt_limit"@, JsonView::Unsigned(limit as u64))),
        ),
    }
}

pub fn participant_started_event(binding: &ParticipantBinding, limit: Option<u32>) -> (r:
    PlannedEvent)
    ensures
        r.deep_view() == started_event(
            binding.deep_view(),
            match limit {
                Some(limit) => limit,
                None => DEFAULT_STOP_ATTEMPT_LIMIT,
            },
        ),
{
    let limit: u32 = match limit {
        Some(limit) => limit,
        None => DEFAULT_STOP_ATTEMPT_LIMIT,
    };
    PlannedEvent {
        kind: "participant_started",
        payload: Fields::new()
            .put("binding", binding.to_json())
            .put("stop_attempt_limit", Json::Unsigned(limit as u64))
            .done(),
    }
}

/// A request of an agent to be bound.
#[derive(Debug)]
pub struct BindRequest {
    pub activation_id: String,
    pub allocation_generation: u64,
    pub pane_id: String,
    pub readiness_nonce: String,
    pub handle: String,
    pub credential: String,
    pub native_session_id: String,
    pub platform: String,
    pub source: String,
}

#[verifier::ext_equal]
pub struct BindRequestView {
    pub activation_id: Seq<char>,
    pub allocation_generation: u64,
    pub pane_id: Seq<char>,
    pub readiness_nonce: Seq<char>,
    pub handle: Seq<char>,
    pub credential: Seq<char>,
    pub native_session_id: Seq<char>,
    pub platform: Seq<char>,
    pub source: Seq<char>,
}

impl DeepView for BindRequest {
    type V = BindRequestView;

    open spec fn deep_view(&self) -> BindRequestView {
        BindRequestView {
            activation_id: self.activation_id@,
            allocation_generation: self.allocation_generation,
            pane_id: self.pane_id@,
            readiness_nonce: self.readiness_nonce@,
            handle: self.handle@,
            credential: self.credential@,
            native_session_id: self.native_session_id@,
            platform: self.platform@,
            source: self.source@,
        }
    }
}

pub open spec fn generation_required() -> FailureView {
    FailureView::plain("malformed_request"@, "allocation_generation is required"@)
}

/// What a request of an agent to be bound says. The first fault counts.
pub open spec fn bind_request_in(request: JsonView) -> Result<BindRequestView, FailureView> {
    let activation_id = demanded(request, "activation_id"@);
    let generation = unsigned_field(request, "allocation_generation"@);
    let pane_id = demanded(request, "pane_id"@);
    let readiness_nonce = demanded(request, "readiness_nonce"@);
    let handle = demanded(request, "participant_handle"@);
    let credential = demanded(request, "participant_credential"@);
    let native_session_id = demanded_filled(request, "native_session_id"@);
    let platform = demanded_filled(request, "platform"@);
    let source = demanded_filled(request, "source"@);
    if activation_id is Err {
        Err(activation_id->Err_0)
    } else if generation is None {
        Err(generation_required())
    } else if pane_id is Err {
        Err(pane_id->Err_0)
    } else if readiness_nonce is Err {
        Err(readiness_nonce->Err_0)
    } else if handle is Err {
        Err(handle->Err_0)
    } else if credential is Err {
        Err(credential->Err_0)
    } else if native_session_id is Err {
        Err(native_session_id->Err_0)
    } else if platform is Err {
        Err(platform->Err_0)
    } else if source is Err {
        Err(source->Err_0)
    } else {
        Ok(
            BindRequestView {
                activation_id: activation_id->Ok_0,
                allocation_generation: generation->0,
                pane_id: pane_id->Ok_0,
                readiness_nonce: readiness_nonce->Ok_0,
                handle: handle->Ok_0,
                credential: credential->Ok_0,
                native_session_id: native_session_id->Ok_0,
                platform: platform->Ok_0,
                source: source->Ok_0,
            },
        )
    }
}

impl BindRequest {
    pub fn from_request(request: &Json) -> (r: Result<Self, DriverFailure>)
        ensures
            result_of(r) == bind_request_in(request@),
    {
        let activation_id = match required_string(request, "activation_id") {
            Err(failure) => return Err(failure),
            Ok(text) => text,
        };
        let allocation_generation = match request.unsigned_at("allocation_generation") {
            None => return Err(
                DriverFailure::new("malformed_request", "allocation_generation is required"),
            ),
            Some(generation) => generation,
        };
        let pane_id = match required_string(request, "pane_id") {
            Err(failure) => return Err(failure),
            Ok(text) => text,
        };
        let readiness_nonce = match required_string(request, "readiness_nonce") {
            Err(failure) => return Err(failure),
            Ok(text) => text,
        };
        let handle = match required_string(request, "participant_handle") {
            Err(failure) => return Err(failure),
            Ok(text) => text,
        };
        let credential = match required_string(request, "participant_credential") {
            Err(failure) => return Err(failure),
            Ok(text) => text,
        };
        let native_session_id = match required_nonempty(request, "native_session_id") {
            Err(failure) => return Err(failure),
            Ok(text) => text,
        };
        let platform = match required_nonempty(request, "platform") {
            Err(failure) => return Err(failure),
            Ok(text) => text,
        };
        let source = match required_nonempty(request, "source") {
            Err(failure) => return Err(failure),
            Ok(text) => text,
        };
        Ok(
            BindRequest {
                activation_id: activation_id.to_string(),
                allocation_generation,
                pane_id: pane_id.to_string(),
                readiness_nonce: readiness_nonce.to_string(),
                handle: handle.to_string(),
                credential: credential.to_string(),
                native_session_id: native_session_id.to_string(),
                platform: platform.to_string(),
                source: source.to_string(),
            },
        )
    }
}

/// The pane of an activation.
pub open spec fn pane_of(state: DriverStateView, activation_id: Seq<char>) -> Option<
    StoredPaneView,
> {
    match state.tmux {
        Some(tmux) => if tmux.panes.dom().contains(activation_id) {
            Some(tmux.panes[activation_id])
        } else {
            None
        },
        None => None,
    }
}

/// Whether an activation has the very pane of a binding.
pub open spec fn holds_pane(state: DriverStateView, binding: ParticipantBindingView) -> bool {
    match pane_of(state, binding.activation_id) {
        Some(pane) => pane.pane_id == binding.pane_id && pane.allocation_generation
            == binding.allocation_generation,
        None => false,
    }
}

/// Whether a request fits the binding that it is about.
pub open spec fn request_fits(
    state: DriverStateView,
    run_id: Seq<char>,
    binding: ParticipantBindingView,
    request: BindRequestView,
    secret: Seq<char>,
) -> bool {
    &&& binding.run_id == run_id
    &&& binding.pane_id == request.pane_id
    &&& binding.readiness_nonce == request.readiness_nonce
    &&& binding.handle == request.handle
    &&& secret == request.credential
    &&& holds_pane(state, binding)
}

/// Whether a binding is bound to the session that a request names; `None` if it is bound to
/// another one.
pub open spec fn bound_to(
    binding: ParticipantBindingView,
    request: BindRequestView,
) -> Option<bool> {
    if binding.native_session_id is None && binding.platform is None && binding.source is None {
        Some(false)
    } else if binding.native_session_id == Some(request.native_session_id) && binding.platform
        == Some(request.platform) && binding.source == Some(request.source) {
        Some(true)
    } else {
        None
    }
}

/// What becomes of a request of an agent to be bound: whether it is bound already.
pub open spec fn bind_decision(
    state: DriverStateView,
    run_id: Seq<char>,
    request: BindRequestView,
    file: Option<BindingFileView>,
    runs_root: Seq<char>,
) -> Result<bool, FailureView> {
    let key = AllocationKeyView {
        activation_id: request.activation_id,
        generation: request.allocation_generation,
    };
    if !state.participant_bindings.dom().contains(key) {
        Err(
            FailureView::plain(
                "participant_binding_not_found"@,
                "participant allocation binding was not started by the driver"@,
            ),
        )
    } else {
        let binding = state.participant_bindings[key];
        match secret_of(binding, file, runs_root) {
            Err(failure) => Err(failure),
            Ok(secret) => if !request_fits(state, run_id, binding, request, secret) {
                Err(
                    FailureView::plain(
                        "participant_binding_mismatch"@,
                        "participant binding does not match the current driver-owned allocation"@,
                    ),
                )
            } else {
                match bound_to(binding, request) {
                    Some(bound) => Ok(bound),
                    None => Err(
                        FailureView::plain(
                            "participant_binding_conflict"@,
                            "participant allocation is already bound to a different native session"@,
                        ),
                    ),
                }
            },
        }
    }
}

/// The event that binds an agent.
pub open spec fn bound_event(request: BindRequestView) -> PlannedEventView {
    PlannedEventView {
        kind: "participant_bound"@,
        payload: JsonView::Record(
            no_fields()
                .push(("activation_id"@, JsonView::Text(request.activation_id)))
                .push(("allocation_generation"@, JsonView::Unsigned(request.allocation_generation)))
                .push(("native_session_id"@, JsonView::Text(request.native_session_id)))
                .push(("platform"@, JsonView::Text(request.platform)))
                .push(("source"@, JsonView::Text(request.source))),
        ),
    }
}

/// The event that binds an agent.
pub fn participant_bound_event(request: &BindRequest) -> (r: PlannedEvent)
    ensures
        r.deep_view() == bound_event(request.deep_view()),
{
    PlannedEvent {
        kind: "participant_bound",
        payload: Fields::new()
            .put("activation_id", Json::text(request.activation_id.as_str()))
            .put("allocation_generation", Json::Unsigned(request.allocation_generation))
            .put("native_session_id", Json::text(request.native_session_id.as_str()))
            .put("platform", Json::text(request.platform.as_str()))
            .put("source", Json::text(request.source.as_str()))
            .done(),
    }
}

/// A binding with the session of a request.
pub open spec fn bound(
    binding: ParticipantBindingView,
    request: BindRequestView,
) -> ParticipantBindingView {
    ParticipantBindingView {
        native_session_id: Some(request.native_session_id),
        platform: Some(request.platform),
        source: Some(request.source),
        ..binding
    }
}

/// The state once an agent is bound.
pub open spec fn with_bound(state: DriverStateView, request: BindRequestView) -> DriverStateView {
    let key = AllocationKeyView {
        activation_id: request.activation_id,
        generation: request.allocation_generation,
    };
    if state.participant_bindings.dom().contains(key) {
        DriverStateView {
            participant_bindings: state.participant_bindings.insert(
                key,
                bound(state.participant_bindings[key], request),
            ),
            ..state
        }
    } else {
        state
    }
}

/// What is told of a participant that is ready.
pub open spec fn ready_report(
    state: DriverStateView,
    activation_id: Seq<char>,
    pane_id: Seq<char>,
    generation: u64,
) -> Option<JsonView> {
    let key = AllocationKeyView { activation_id, generation };
    if !state.participant_bindings.dom().contains(key) {
        None
    } else {
        let binding = state.participant_bindings[key];
        match binding.native_session_id {
            None => None,
            Some(native_session_id) => if binding.pane_id != pane_id {
                None
            } else {
                Some(
                    JsonView::Record(
                        no_fields()
                            .push(("status"@, JsonView::Text("ready"@)))
                            .push(("platform"@, option_text(binding.platform)))
                            .push(("source"@, option_text(binding.source)))
                            .push(("native_session_id"@, JsonView::Text(native_session_id)))
                            .push(("allocation_generation"@, JsonView::Unsigned(generation))),
                    ),
                )
            },
        }
    }
}

/// The binding of an activation with the highest generation among pairs; of two with the same,
/// the later one.
pub open spec fn latest_binding(
    pairs: Seq<(AllocationKeyView, ParticipantBindingView)>,
    activation_id: Seq<char>,
) -> Option<ParticipantBindingView>
    decreases pairs.len(),
{
    if pairs.len() == 0 {
        None
    } else {
        let front = latest_binding(pairs.drop_last(), activation_id);
        let last = pairs.last().1;
        if last.activation_id != activation_id {
            front
        } else {
            match front {
                Some(best) => if best.allocation_generation > last.allocation_generation {
                    front
                } else {
                    Some(last)
                },
                None => Some(last),
            }
        }
    }
}

/// How the participant of an activation is shown.
pub open spec fn participant_status(binding: Option<ParticipantBindingView>) -> JsonView {
    match binding {
        None => JsonView::Null,
        Some(binding) => JsonView::Record(
            no_fields()
                .push(("started"@, JsonView::Bool(true)))
                .push(("bound"@, JsonView::Bool(binding.native_session_id is Some)))
                .push(("platform"@, option_text(binding.platform)))
                .push(("source"@, option_text(binding.source)))
                .push(("native_session_id"@, option_text(binding.native_session_id)))
                .push(("allocation_generation"@, JsonView::Unsigned(binding.allocation_generation)))
                .push(("exited"@, JsonView::Bool(binding.exit_status is Some)))
                .push(("exit_status"@, optional_signed_json(binding.exit_status))),
        ),
    }
}

impl ReplayedDriverEvents {
    fn pane_of(&self, activation_id: &str) -> (r: Option<&StoredPane>)
        ensures
            r.deep_view() == pane_of(self.deep_view(), activation_id@),
    {
        match &self.tmux {
            Some(tmux) => tmux.panes.get(&activation_id.to_string()),
            None => None,
        }
    }

    fn holds_pane(&self, binding: &ParticipantBinding) -> (r: bool)
        ensures
            r == holds_pane(self.deep_view(), binding.deep_view()),
    {
        match self.pane_of(binding.activation_id.as_str()) {
            Some(pane) => same(pane.pane_id.as_str(), binding.pane_id.as_str())
                && pane.allocation_generation == binding.allocation_generation,
            None => false,
        }
    }

    /// The binding of an agent that was started before.
    pub fn participant_begun(
        &self,
        activation_id: &str,
        pane: &StoredPane,
        readiness_nonce: &str,
    ) -> (r: Result<Option<ParticipantBinding>, DriverFailure>)
        ensures
            result_of(r) == binding_begun(
                self.deep_view(),
                activation_id@,
                pane.deep_view(),
                readiness_nonce@,
            ),
    {
        let key = allocation_key(activation_id, pane.allocation_generation);
        match self.participant_bindings.get(&key) {
            None => Ok(None),
            Some(binding) => {
                if !same(binding.pane_id.as_str(), pane.pane_id.as_str()) || !same(
                    binding.readiness_nonce.as_str(),
                    readiness_nonce,
                ) {
                    return Err(
                        DriverFailure::new(
                            "participant_binding_conflict",
                            "participant binding does not match the current allocation",
                        ),
                    );
                }
                Ok(Some(binding.clone()))
            },
        }
    }

    /// An agent is started, once the event that says so is written down.
    pub fn participant_runs(&mut self, binding: ParticipantBinding)
        ensures
            final(self).deep_view() == (DriverStateView {
                participant_bindings: old(self).deep_view().participant_bindings.insert(
                    key_in(binding.deep_view()),
                    binding.deep_view(),
                ),
                ..old(self).deep_view()
            }),
    {
        let key = binding.key();
        self.participant_bindings.insert(key, binding);
    }

    /// The binding that a request of an agent to be bound is about.
    pub fn binding_for(&self, request: &BindRequest) -> (r: Option<ParticipantBinding>)
        ensures
            ({
                let key = AllocationKeyView {
                    activation_id: request.deep_view().activation_id,
                    generation: request.deep_view().allocation_generation,
                };
                match r {
                    Some(binding) => {
                        &&& self.deep_view().participant_bindings.dom().contains(key)
                        &&& self.deep_view().participant_bindings[key] == binding.deep_view()
                    },
                    None => !self.deep_view().participant_bindings.dom().contains(key),
                }
            }),
    {
        let key = allocation_key(request.activation_id.as_str(), request.allocation_generation);
        match self.participant_bindings.get(&key) {
            Some(binding) => Some(binding.clone()),
            None => None,
        }
    }

    /// Whether an agent is bound already, or why it cannot be. The file is that of the binding
    /// that the request is about.
    pub fn bind_participant(
        &self,
        run_id: &str,
        request: &BindRequest,
        file: &Option<ParticipantBindingFile>,
        runs_root: &str,
    ) -> (r: Result<bool, DriverFailure>)
        ensures
            match r {
                Ok(bound) => bind_decision(
                    self.deep_view(),
                    run_id@,
                    request.deep_view(),
                    file.deep_view(),
                    runs_root@,
                ) == Ok::<bool, FailureView>(bound),
                Err(failure) => bind_decision(
                    self.deep_view(),
                    run_id@,
                    request.deep_view(),
                    file.deep_view(),
                    runs_root@,
                ) == Err::<bool, FailureView>(failure.deep_view()),
            },
    {
        let binding = match self.binding_for(request) {
            None => return Err(
                DriverFailure::new(
                    "participant_binding_not_found",
                    "participant allocation binding was not started by the driver",
                ),
            ),
            Some(binding) => binding,
        };
        let secret = match participant_binding_secret(&binding, file, runs_root) {
            Err(failure) => return Err(failure),
            Ok(secret) => secret,
        };
        if !same(binding.run_id.as_str(), run_id) || !same(
            binding.pane_id.as_str(),
            request.pane_id.as_str(),
        ) || !same(binding.readiness_nonce.as_str(), request.readiness_nonce.as_str()) || !same(
            binding.handle.as_str(),
            request.handle.as_str(),
        ) || !same(secret, request.credential.as_str()) || !self.holds_pane(&binding) {
            return Err(
                DriverFailure::new(
                    "participant_binding_mismatch",
                    "participant binding does not match the current driver-owned allocation",
                ),
            );
        }
        match (&binding.native_session_id, &binding.platform, &binding.source) {
            (None, None, None) => Ok(false),
            (Some(session), Some(platform), Some(source)) => {
                if same(session.as_str(), request.native_session_id.as_str()) && same(
                    platform.as_str(),
                    request.platform.as_str(),
                ) && same(source.as_str(), request.source.as_str()) {
                    Ok(true)
                } else {
                    Err(
                        DriverFailure::new(
                            "participant_binding_conflict",
                            "participant allocation is already bound to a different native session",
                        ),
                    )
                }
            },
            _ => Err(
                DriverFailure::new(
                    "participant_binding_conflict",
                    "participant allocation is already bound to a different native session",
                ),
            ),
        }
    }

    /// An agent is bound, once the event that says so is written down.
    pub fn participant_bound(&mut self, request: &BindRequest)
        ensures
            final(self).deep_view() == with_bound(old(self).deep_view(), request.deep_view()),
    {
        let key = allocation_key(request.activation_id.as_str(), request.allocation_generation);
        let existing = match self.participant_bindings.get(&key) {
            Some(binding) => binding.clone(),
            None => return,
        };
        let bound = ParticipantBinding {
            run_id: existing.run_id,
            activation_id: existing.activation_id,
            allocation_generation: existing.allocation_generation,
            pane_id: existing.pane_id,
            readiness_nonce: existing.readiness_nonce,
            handle: existing.handle,
            credential_hash: existing.credential_hash,
            binding_file: existing.binding_file,
            native_session_id: Some(request.native_session_id.clone()),
            platform: Some(request.platform.clone()),
            source: Some(request.source.clone()),
            exit_status: existing.exit_status,
        };
        self.participant_bindings.insert(key, bound);
    }

    /// What is told of a participant that is ready.
    pub fn participant_readiness(
        &self,
        activation_id: &str,
        pane_id: &str,
        allocation_generation: u64,
    ) -> (r: Option<Json>)
        ensures
            match r {
                Some(told) => ready_report(
                    self.deep_view(),
                    activation_id@,
                    pane_id@,
                    allocation_generation,
                ) == Some(told@),
                None => ready_report(
                    self.deep_view(),
                    activation_id@,
                    pane_id@,
                    allocation_generation,
                ) is None,
            },
    {
        let key = allocation_key(activation_id, allocation_generation);
        let binding = match self.participant_bindings.get(&key) {
            Some(binding) => binding,
            None => return None,
        };
        let session = match &binding.native_session_id {
            Some(session) => session,
            None => return None,
        };
        if !same(binding.pane_id.as_str(), pane_id) {
            return None;
        }
        Some(
            Fields::new()
                .put("status", Json::text("ready"))
                .put("platform", option_text_json(&binding.platform))
                .put("source", option_text_json(&binding.source))
                .put("native_session_id", Json::text(session.as_str()))
                .put("allocation_generation", Json::Unsigned(allocation_generation))
                .done(),
        )
    }

    /// How the participant of an activation is shown.
    pub fn participant_status_projection(&self, activation_id: &str) -> (r: Json)
        ensures
            r@ == participant_status(
                latest_binding(self.participant_bindings.pairs(), activation_id@),
            ),
    {
        let n: usize = self.participant_bindings.len();
        let ghost pairs = self.participant_bindings.pairs();
        let mut best: Option<&ParticipantBinding> = None;
        let mut i: usize = 0;
        assert(pairs.take(0) =~= Seq::<(AllocationKeyView, ParticipantBindingView)>::empty());
        while i < n
            invariant
                i <= n,
                pairs == self.participant_bindings.pairs(),
                n == pairs.len(),
                best.deep_view() == latest_binding(pairs.take(i as int), activation_id@),
            decreases n - i,
        {
            assert(pairs.take(i + 1).drop_last() =~= pairs.take(i as int));
            assert(pairs.take(i + 1).last() == pairs[i as int]);
            let binding = self.participant_bindings.value_at(i);
            if same(binding.activation_id.as_str(), activation_id) {
                let better = match best {
                    Some(best) => best.allocation_generation <= binding.allocation_generation,
                    None => true,
                };
                if better {
                    best = Some(binding);
                }
            }
            i += 1;
        }
        assert(pairs.take(n as int) =~= pairs);
        match best {
            None => Json::Null,
            Some(binding) => Fields::new()
                .put("started", Json::Bool(true))
                .put("bound", Json::Bool(binding.native_session_id.is_some()))
                .put("platform", option_text_json(&binding.platform))
                .put("source", option_text_json(&binding.source))
                .put("native_session_id", option_text_json(&binding.native_session_id))
                .put("allocation_generation", Json::Unsigned(binding.allocation_generation))
                .put("exited", Json::Bool(binding.exit_status.is_some()))
                .put("exit_status", optional_signed_to_json(binding.exit_status))
                .done(),
        }
    }
}

/// An agent that is bound is bound to that session for good: the same request is answered as
/// one that was met before, and one with another session is refused.
pub proof fn lemma_binding_is_final(
    state: DriverStateView,
    run_id: Seq<char>,
    request: BindRequestView,
    other: BindRequestView,
    file: Option<BindingFileView>,
    runs_root: Seq<char>,
)
    requires
        bind_decision(state, run_id, request, file, runs_root) is Ok,
        other.native_session_id != request.native_session_id,
        other == (BindRequestView { native_session_id: other.native_session_id, ..request }),
    ensures
        bind_decision(with_bound(state, request), run_id, request, file, runs_root) == Ok::<
            bool,
            FailureView,
        >(true),
        bind_decision(with_bound(state, request), run_id, other, file, runs_root) is Err,
{
    let key = AllocationKeyView {
        activation_id: request.activation_id,
        generation: request.allocation_generation,
    };
    let before = state.participant_bindings[key];
    let after = with_bound(state, request).participant_bindings[key];
    assert(after == bound(before, request));
    assert(file_placed(after) == file_placed(before));
    assert(holds_pane(with_bound(state, request), after) == holds_pane(state, before));
}

/// Whether an agent may use a tool at all.
pub open spec fn in_scope(wire: DriverWire) -> bool {
    match wire {
        DriverWire::Context => true,
        DriverWire::DeliverArtifact => true,
        DriverWire::RecordEffect => true,
        DriverWire::ValidateStop => true,
        _ => false,
    }
}

/// The binding that a request with a credential is about: that of the pane which the
/// activation has.
pub open spec fn claimed_binding(state: DriverStateView, activation_id: Seq<char>) -> Result<
    ParticipantBindingView,
    FailureView,
> {
    match pane_of(state, activation_id) {
        None => Err(unauthorized()),
        Some(pane) => {
            let key = AllocationKeyView { activation_id, generation: pane.allocation_generation };
            if state.participant_bindings.dom().contains(key) {
                Ok(state.participant_bindings[key])
            } else {
                Err(unauthorized())
            }
        },
    }
}

/// Whether a request with a credential may use a tool: the activation that it acts for, or none
/// for a request without one.
pub open spec fn tool_decision(
    state: DriverStateView,
    wire: DriverWire,
    request: JsonView,
    file: Option<BindingFileView>,
    runs_root: Seq<char>,
) -> Result<Option<Seq<char>>, FailureView> {
    let handle = text_field(request, "participant_handle"@);
    let credential = text_field(request, "participant_credential"@);
    if handle is None && credential is None {
        Ok(None)
    } else if handle is None || credential is None {
        Err(unauthorized())
    } else if !in_scope(wire) {
        Err(
            FailureView::plain(
                "participant_scope_denied"@,
                "driver operation is outside the participant tool scope"@,
            ),
        )
    } else {
        match demanded(request, "activation_id"@) {
            Err(failure) => Err(failure),
            Ok(activation_id) => match claimed_binding(state, activation_id) {
                Err(failure) => Err(failure),
                Ok(binding) => match secret_of(binding, file, runs_root) {
                    Err(failure) => Err(failure),
                    Ok(secret) => if binding.pane_id == pane_of(state, activation_id)->0.pane_id
                        && binding.handle == handle->0 && secret == credential->0
                        && binding.native_session_id is Some {
                        Ok(Some(activation_id))
                    } else {
                        Err(unauthorized())
                    },
                },
            },
        }
    }
}

/// An agent acts only for the activation whose pane it runs in, with the credential of its
/// binding, and only with the tools that are for it.
pub proof fn lemma_agents_act_for_themselves(
    state: DriverStateView,
    wire: DriverWire,
    request: JsonView,
    file: Option<BindingFileView>,
    runs_root: Seq<char>,
    activation_id: Seq<char>,
)
    requires
        tool_decision(state, wire, request, file, runs_root) == Ok::<
            Option<Seq<char>>,
            FailureView,
        >(Some(activation_id)),
    ensures
        in_scope(wire),
        text_field(request, "activation_id"@) == Some(activation_id),
        has_pane(state.tmux, activation_id),
        file is Some && text_field(request, "participant_credential"@) == Some(
            file->0.credential,
        ) && file->0.activation_id == claimed_binding(state, activation_id)->Ok_0.activation_id,
{
}

/// What a hook of an agent has to show.
pub open spec fn hook_decision(
    state: DriverStateView,
    request: JsonView,
    file: Option<BindingFileView>,
    runs_root: Seq<char>,
) -> Result<ParticipantBindingView, FailureView> {
    let activation_id = demanded(request, "activation_id"@);
    let handle = demanded(request, "participant_handle"@);
    let credential = demanded(request, "participant_credential"@);
    let native_session_id = demanded(request, "native_session_id"@);
    if activation_id is Err {
        Err(activation_id->Err_0)
    } else if handle is Err {
        Err(handle->Err_0)
    } else if credential is Err {
        Err(credential->Err_0)
    } else if native_session_id is Err {
        Err(native_session_id->Err_0)
    } else {
        match claimed_binding(state, activation_id->Ok_0) {
            Err(failure) => Err(failure),
            Ok(binding) => match secret_of(binding, file, runs_root) {
                Err(failure) => Err(failure),
                Ok(secret) => if binding.pane_id == pane_of(
                    state,
                    activation_id->Ok_0,
                )->0.pane_id && binding.handle == handle->Ok_0 && secret == credential->Ok_0
                    && binding.native_session_id == Some(native_session_id->Ok_0) {
                    Ok(binding)
                } else {
                    Err(unauthorized())
                },
            },
        }
    }
}

impl ReplayedDriverEvents {
    /// The binding that a request with a credential is about.
    pub fn claimed_binding(&self, activation_id: &str) -> (r: Result<
        ParticipantBinding,
        DriverFailure,
    >)
        ensures
            result_of(r) == claimed_binding(self.deep_view(), activation_id@),
    {
        match self.pane_of(activation_id) {
            None => Err(participant_unauthorized()),
            Some(pane) => {
                let key = allocation_key(activation_id, pane.allocation_generation);
                match self.participant_bindings.get(&key) {
                    Some(binding) => Ok(binding.clone()),
                    None => Err(participant_unauthorized()),
                }
            },
        }
    }

    fn has_pane_id(&self, activation_id: &str, pane_id: &str) -> (r: bool)
        ensures
            pane_of(self.deep_view(), activation_id@) is Some ==> r == (pane_id@ == pane_of(
                self.deep_view(),
                activation_id@,
            )->0.pane_id),
    {
        match self.pane_of(activation_id) {
            Some(pane) => same(pane_id, pane.pane_id.as_str()),
            None => false,
        }
    }

    /// Whether a request may use a tool. The file is that of the binding that the request is
    /// about.
    pub fn authorize_participant_tool(
        &self,
        wire: DriverWire,
        request: &Json,
        file: &Option<ParticipantBindingFile>,
        runs_root: &str,
    ) -> (r: Result<Option<String>, DriverFailure>)
        ensures
            result_of(r) == tool_decision(
                self.deep_view(),
                wire,
                request@,
                file.deep_view(),
                runs_root@,
            ),
    {
        let handle = request.text_at("participant_handle");
        let credential = request.text_at("participant_credential");
        let (handle, credential) = match (handle, credential) {
            (None, None) => return Ok(None),
            (Some(handle), Some(credential)) => (handle, credential),
            _ => return Err(participant_unauthorized()),
        };
        let allowed = match wire {
            DriverWire::Context => true,
            DriverWire::DeliverArtifact => true,
            DriverWire::RecordEffect => true,
            DriverWire::ValidateStop => true,
            _ => false,
        };
        if !allowed {
            return Err(
                DriverFailure::new(
                    "participant_scope_denied",
                    "driver operation is outside the participant tool scope",
                ),
            );
        }
        let activation_id = match required_string(request, "activation_id") {
            Err(failure) => return Err(failure),
            Ok(text) => text,
        };
        let binding = match self.claimed_binding(activation_id) {
            Err(failure) => return Err(failure),
            Ok(binding) => binding,
        };
        let secret = match participant_binding_secret(&binding, file, runs_root) {
            Err(failure) => return Err(failure),
            Ok(secret) => secret,
        };
        if self.has_pane_id(activation_id, binding.pane_id.as_str()) && same(
            binding.handle.as_str(),
            handle,
        ) && same(secret, credential) && binding.native_session_id.is_some() {
            Ok(Some(activation_id.to_string()))
        } else {
            Err(participant_unauthorized())
        }
    }

    /// Whether a hook of an agent may be heard. The file is that of the binding that the
    /// request is about.
    pub fn authorize_participant_hook(
        &self,
        request: &Json,
        file: &Option<ParticipantBindingFile>,
        runs_root: &str,
    ) -> (r: Result<ParticipantBinding, DriverFailure>)
        ensures
            result_of(r) == hook_decision(
                self.deep_view(),
                request@,
                file.deep_view(),
                runs_root@,
            ),
    {
        let activation_id = match required_string(request, "activation_id") {
            Err(failure) => return Err(failure),
            Ok(text) => text,
        };
        let handle = match required_string(request, "participant_handle") {
            Err(failure) => return Err(failure),
            Ok(text) => text,
        };
        let credential = match required_string(request, "participant_credential") {
            Err(failure) => return Err(failure),
            Ok(text) => text,
        };
        let session = match required_string(request, "native_session_id") {
            Err(failure) => return Err(failure),
            Ok(text) => text,
        };
        let binding = match self.claimed_binding(activation_id) {
            Err(failure) => return Err(failure),
            Ok(binding) => binding,
        };
        let secret = match participant_binding_secret(&binding, file, runs_root) {
            Err(failure) => return Err(failure),
            Ok(secret) => secret,
        };
        let session_fits = match &binding.native_session_id {
            Some(bound) => same(bound.as_str(), session),
            None => false,
        };
        if self.has_pane_id(activation_id, binding.pane_id.as_str()) && same(
            binding.handle.as_str(),
            handle,
        ) && same(secret, credential) && session_fits {
            Ok(binding)
        } else {
            Err(participant_unauthorized())
        }
    }
}

/// Why an agent wants to stop, as its hook says.
pub open spec fn stop_reason(request: JsonView) -> Seq<char> {
    match text_field(request, "reason"@) {
        Some(reason) => if is_blank(reason) {
            "participant requested stop"@
        } else {
            reason
        },
        None => "participant requested stop"@,
    }
}

pub fn participant_stop_reason<'a>(request: &'a Json) -> (r: &'a str)
    ensures
        r@ == stop_reason(request@),
{
    match request.text_at("reason") {
        Some(reason) => if blank(reason) {
            "participant requested stop"
        } else {
            reason
        },
        None => "participant requested stop",
    }
}

/// What the history of a run tells of stops.
#[derive(Debug)]
pub enum StopEvent {
    /// An agent wanted to stop, with a hook of this id.
    Observed(String, String, Option<String>),
    /// What it was told.
    Decided(String, String, StopDecision),
    /// Something else.
    Other,
}

#[verifier::ext_equal]
pub enum StopEventView {
    Observed(Seq<char>, Seq<char>, Option<Seq<char>>),
    Decided(Seq<char>, Seq<char>, StopDecisionView),
    Other,
}

impl DeepView for StopEvent {
    type V = StopEventView;

    open spec fn deep_view(&self) -> StopEventView {
        match self {
            StopEvent::Observed(run_id, activation_id, invocation_id) => StopEventView::Observed(
                run_id@,
                activation_id@,
                invocation_id.deep_view(),
            ),
            StopEvent::Decided(run_id, activation_id, decision) => StopEventView::Decided(
                run_id@,
                activation_id@,
                decision.deep_view(),
            ),
            StopEvent::Other => StopEventView::Other,
        }
    }
}

/// What a hook was told, from the `n`-th event on: the first word to the activation after the
/// hook was heard.
pub open spec fn told_to_hook(
    events: Seq<StopEventView>,
    run_id: Seq<char>,
    activation_id: Seq<char>,
    invocation_id: Seq<char>,
    heard: bool,
    n: int,
) -> Option<int>
    decreases events.len() - n,
{
    if n < 0 || n >= events.len() {
        None
    } else {
        match events[n] {
            StopEventView::Observed(run, activation, invocation) => told_to_hook(
                events,
                run_id,
                activation_id,
                invocation_id,
                heard || (run == run_id && activation == activation_id && invocation == Some(
                    invocation_id,
                )),
                n + 1,
            ),
            StopEventView::Decided(run, activation, _) => if heard && run == run_id && activation
                == activation_id {
                Some(n)
            } else {
                told_to_hook(events, run_id, activation_id, invocation_id, heard, n + 1)
            },
            StopEventView::Other => told_to_hook(
                events,
                run_id,
                activation_id,
                invocation_id,
                heard,
                n + 1,
            ),
        }
    }
}

/// What a hook was told before, by its place in the history.
pub fn stop_decision_for_invocation(
    events: &Vec<StopEvent>,
    run_id: &str,
    activation_id: &str,
    invocation_id: &str,
) -> (r: Option<usize>)
    ensures
        match r {
            Some(at) => {
                &&& at < events@.len()
                &&& events.deep_view()[at as int] is Decided
                &&& told_to_hook(
                    events.deep_view(),
                    run_id@,
                    activation_id@,
                    invocation_id@,
                    false,
                    0,
                ) == Some(at as int)
            },
            None => told_to_hook(
                events.deep_view(),
                run_id@,
                activation_id@,
                invocation_id@,
                false,
                0,
            ) is None,
        },
{
    let ghost model = events.deep_view();
    let mut heard = false;
    let mut i: usize = 0;
    while i < events.len()
        invariant
            i <= events.len(),
            model == events.deep_view(),
            told_to_hook(model, run_id@, activation_id@, invocation_id@, false, 0) == told_to_hook(
                model,
                run_id@,
                activation_id@,
                invocation_id@,
                heard,
                i as int,
            ),
        decreases events.len() - i,
    {
        assert(model[i as int] == events@[i as int].deep_view());
        match &events[i] {
            StopEvent::Observed(run, activation, invocation) => {
                let fits = match invocation {
                    Some(invocation) => same(invocation.as_str(), invocation_id),
                    None => false,
                };
                if same(run.as_str(), run_id) && same(activation.as_str(), activation_id)
                    && fits {
                    heard = true;
                }
            },
            StopEvent::Decided(run, activation, _) => {
                if heard && same(run.as_str(), run_id) && same(
                    activation.as_str(),
                    activation_id,
                ) {
                    return Some(i);
                }
            },
            StopEvent::Other => {},
        }
        i += 1;
    }
    None
}

/// What is told to an agent that wanted to stop.
pub open spec fn stop_report(
    run_id: Seq<char>,
    decision: StopDecisionView,
    status: Option<ActivationStatus>,
    idempotent: bool,
) -> JsonView {
    JsonView::Record(
        no_fields()
            .push(("ok"@, JsonView::Bool(true)))
            .push(("run_id"@, JsonView::Text(run_id)))
            .push(("decision"@, JsonView::Text(decision.kind.name())))
            .push(("hook_action"@, JsonView::Text(decision.hook_action())))
            .push(("attempt"@, JsonView::Unsigned(decision.attempt as u64)))
            .push(("missing_artifacts"@, text_list(decision.missing_artifacts)))
            .push(("missing_effects"@, text_list(decision.missing_effects)))
            .push(("reason"@, JsonView::Text(decision.reason)))
            .push(
                (
                    "activation_status"@,
                    match status {
                        Some(status) => JsonView::Text(status.name()),
                        None => JsonView::Null,
                    },
                ),
            )
            .push(("idempotent"@, JsonView::Bool(idempotent))),
    )
}

pub fn stop_response(
    run_id: &str,
    decision: &StopDecision,
    status: Option<ActivationStatus>,
    idempotent: bool,
) -> (r: Json)
    ensures
        r@ == stop_report(run_id@, decision.deep_view(), status, idempotent),
{
    let status_told = match status {
        Some(status) => Json::text(activation_status_name(status)),
        None => Json::Null,
    };
    Fields::new()
        .put("ok", Json::Bool(true))
        .put("run_id", Json::text(run_id))
        .put("decision", Json::text(stop_decision_kind_name(decision.kind)))
        .put("hook_action", Json::text(decision.hook_action()))
        .put("attempt", Json::Unsigned(decision.attempt as u64))
        .put("missing_artifacts", texts_json(&decision.missing_artifacts))
        .put("missing_effects", texts_json(&decision.missing_effects))
        .put("reason", Json::text(decision.reason.as_str()))
        .put("activation_status", status_told)
        .put("idempotent", Json::Bool(idempotent))
        .done()
}

/// A word that an agent exited.
#[derive(Debug)]
pub struct ExitNotice {
    pub activation_id: String,
    pub handle: String,
    pub credential: String,
    pub exit_status: i32,
}

#[verifier::ext_equal]
pub struct ExitNoticeView {
    pub activation_id: Seq<char>,
    pub handle: Seq<char>,
    pub credential: Seq<char>,
    pub exit_status: i32,
}

impl DeepView for ExitNotice {
    type V = ExitNoticeView;

    open spec fn deep_view(&self) -> ExitNoticeView {
        ExitNoticeView {
            activation_id: self.activation_id@,
            handle: self.handle@,
            credential: self.credential@,
            exit_status: self.exit_status,
        }
    }
}

/// What a word that an agent exited says. The first fault counts.
pub open spec fn exit_notice_in(request: JsonView) -> Result<ExitNoticeView, FailureView> {
    let activation_id = demanded(request, "activation_id"@);
    let handle = demanded(request, "participant_handle"@);
    let credential = demanded(request, "participant_credential"@);
    let exit_status = match field(request, "exit_status"@) {
        Some(value) => small_signed_of(value),
        None => None,
    };
    if activation_id is Err {
        Err(activation_id->Err_0)
    } else if handle is Err {
        Err(handle->Err_0)
    } else if credential is Err {
        Err(credential->Err_0)
    } else if exit_status is None {
        Err(FailureView::plain("malformed_request"@, "exit_status is required"@))
    } else {
        Ok(
            ExitNoticeView {
                activation_id: activation_id->Ok_0,
                handle: handle->Ok_0,
                credential: credential->Ok_0,
                exit_status: exit_status->0,
            },
        )
    }
}

impl ExitNotice {
    pub fn from_request(request: &Json) -> (r: Result<Self, DriverFailure>)
        ensures
            result_of(r) == exit_notice_in(request@),
    {
        let activation_id = match required_string(request, "activation_id") {
            Err(failure) => return Err(failure),
            Ok(text) => text,
        };
        let handle = match required_string(request, "participant_handle") {
            Err(failure) => return Err(failure),
            Ok(text) => text,
        };
        let credential = match required_string(request, "participant_credential") {
            Err(failure) => return Err(failure),
            Ok(text) => text,
        };
        let status = match request.get("exit_status") {
            Some(value) => read_small_signed(value),
            None => None,
        };
        match status {
            None => Err(DriverFailure::new("malformed_request", "exit_status is required")),
            Some(exit_status) => Ok(
                ExitNotice {
                    activation_id: activation_id.to_string(),
                    handle: handle.to_string(),
                    credential: credential.to_string(),
                    exit_status,
                },
            ),
        }
    }
}

/// The bindings among pairs that a word of an exit may be about.
pub open spec fn exit_candidates_in(
    pairs: Seq<(AllocationKeyView, ParticipantBindingView)>,
    activation_id: Seq<char>,
    handle: Seq<char>,
) -> Seq<ParticipantBindingView>
    decreases pairs.len(),
{
    if pairs.len() == 0 {
        Seq::empty()
    } else {
        let front = exit_candidates_in(pairs.drop_last(), activation_id, handle);
        let last = pairs.last().1;
        if last.activation_id == activation_id && last.handle == handle {
            front.push(last)
        } else {
            front
        }
    }
}

/// The binding that a word of an exit is about, from the `n`-th on: the first with its
/// credential. One that exited is known by the digest of its credential, since its file is gone.
pub open spec fn exited_among(
    candidates: Seq<ParticipantBindingView>,
    files: Seq<Option<BindingFileView>>,
    credential: Seq<char>,
    runs_root: Seq<char>,
    n: int,
) -> Result<int, FailureView>
    decreases candidates.len() - n,
{
    if n < 0 || n >= candidates.len() {
        Err(unauthorized())
    } else if candidates[n].exit_status is Some {
        if candidates[n].credential_hash == credential_digest(credential) {
            Ok(n)
        } else {
            exited_among(candidates, files, credential, runs_root, n + 1)
        }
    } else {
        match secret_of(candidates[n], files[n], runs_root) {
            Err(failure) => Err(failure),
            Ok(secret) => if secret == credential {
                Ok(n)
            } else {
                exited_among(candidates, files, credential, runs_root, n + 1)
            },
        }
    }
}

/// What becomes of a word of an exit: whether it was heard before.
pub open spec fn exit_decision(
    state: DriverStateView,
    binding: ParticipantBindingView,
    exit_status: i32,
) -> Result<bool, FailureView> {
    match binding.exit_status {
        Some(recorded) => if recorded != exit_status {
            Err(
                FailureView::plain(
                    "participant_exit_conflict"@,
                    "participant exit status conflicts with the durable observation"@,
                ),
            )
        } else {
            Ok(true)
        },
        None => if holds_pane(state, binding) {
            Ok(false)
        } else {
            Err(unauthorized())
        },
    }
}

impl ReplayedDriverEvents {
    /// The bindings that a word of an exit may be about.
    pub fn exit_candidates(&self, activation_id: &str, handle: &str) -> (r: Vec<ParticipantBinding>)
        ensures
            r.deep_view() == exit_candidates_in(
                self.participant_bindings.pairs(),
                activation_id@,
                handle@,
            ),
    {
        let n: usize = self.participant_bindings.len();
        let ghost pairs = self.participant_bindings.pairs();
        let mut out: Vec<ParticipantBinding> = Vec::new();
        let mut i: usize = 0;
        assert(pairs.take(0) =~= Seq::<(AllocationKeyView, ParticipantBindingView)>::empty());
        assert(out.deep_view() =~= Seq::<ParticipantBindingView>::empty());
        while i < n
            invariant
                i <= n,
                pairs == self.participant_bindings.pairs(),
                n == pairs.len(),
                out.deep_view() == exit_candidates_in(
                    pairs.take(i as int),
                    activation_id@,
                    handle@,
                ),
            decreases n - i,
        {
            let ghost before = out.deep_view();
            assert(pairs.take(i + 1).drop_last() =~= pairs.take(i as int));
            assert(pairs.take(i + 1).last() == pairs[i as int]);
            let binding = self.participant_bindings.value_at(i);
            if same(binding.activation_id.as_str(), activation_id) && same(
                binding.handle.as_str(),
                handle,
            ) {
                out.push(binding.clone());
                assert(out.deep_view() =~= before.push(pairs[i as int].1));
            }
            i += 1;
        }
        assert(pairs.take(n as int) =~= pairs);
        out
    }

    /// Whether a word of an exit was heard before, or why it is refused.
    pub fn participant_exited(&self, binding: &ParticipantBinding, exit_status: i32) -> (r: Result<
        bool,
        DriverFailure,
    >)
        ensures
            match r {
                Ok(heard) => exit_decision(self.deep_view(), binding.deep_view(), exit_status)
                    == Ok::<bool, FailureView>(heard),
                Err(failure) => exit_decision(self.deep_view(), binding.deep_view(), exit_status)
                    == Err::<bool, FailureView>(failure.deep_view()),
            },
    {
        match binding.exit_status {
            Some(recorded) => {
                if recorded != exit_status {
                    return Err(
                        DriverFailure::new(
                            "participant_exit_conflict",
                            "participant exit status conflicts with the durable observation",
                        ),
                    );
                }
                Ok(true)
            },
            None => {
                if self.holds_pane(binding) {
                    Ok(false)
                } else {
                    Err(participant_unauthorized())
                }
            },
        }
    }
}

/// The binding that a word of an exit is about, with the file of each.
pub fn exited_candidate(
    candidates: &Vec<ParticipantBinding>,
    files: &Vec<Option<ParticipantBindingFile>>,
    credential: &str,
    runs_root: &str,
) -> (r: Result<usize, DriverFailure>)
    requires
        candidates@.len() == files@.len(),
    ensures
        match r {
            Ok(at) => exited_among(
                candidates.deep_view(),
                files.deep_view(),
                credential@,
                runs_root@,
                0,
            ) == Ok::<int, FailureView>(at as int) && at < candidates@.len(),
            Err(failure) => exited_among(
                candidates.deep_view(),
                files.deep_view(),
                credential@,
                runs_root@,
                0,
            ) == Err::<int, FailureView>(failure.deep_view()),
        },
{
    let ghost model = candidates.deep_view();
    let ghost held = files.deep_view();
    let digest = participant_credential_hash(credential);
    let mut i: usize = 0;
    while i < candidates.len()
        invariant
            i <= candidates.len(),
            candidates@.len() == files@.len(),
            model == candidates.deep_view(),
            held == files.deep_view(),
            digest@ == credential_digest(credential@),
            exited_among(model, held, credential@, runs_root@, 0) == exited_among(
                model,
                held,
                credential@,
                runs_root@,
                i as int,
            ),
        decreases candidates.len() - i,
    {
        let binding = &candidates[i];
        assert(model[i as int] == binding.deep_view());
        assert(held[i as int] == files@[i as int].deep_view());
        let fits = if binding.exit_status.is_some() {
            same(binding.credential_hash.as_str(), digest.as_str())
        } else {
            match participant_binding_secret(binding, &files[i], runs_root) {
                Err(failure) => return Err(failure),
                Ok(secret) => same(secret, credential),
            }
        };
        if fits {
            return Ok(i);
        }
        i += 1;
    }
    Err(participant_unauthorized())
}

/// What is told of an exit.
pub open spec fn exit_report(run_id: Seq<char>, idempotent: bool) -> JsonView {
    JsonView::Record(
        no_fields()
            .push(("ok"@, JsonView::Bool(true)))
            .push(("run_id"@, JsonView::Text(run_id)))
            .push(("participant_exited"@, JsonView::Bool(true)))
            .push(("idempotent"@, JsonView::Bool(idempotent)))
            .push(("response_ack_required"@, JsonView::Bool(true))),
    )
}

pub fn exit_response(run_id: &str, idempotent: bool) -> (r: Json)
    ensures
        r@ == exit_report(run_id@, idempotent),
{
    Fields::new()
        .put("ok", Json::Bool(true))
        .put("run_id", Json::text(run_id))
        .put("participant_exited", Json::Bool(true))
        .put("idempotent", Json::Bool(idempotent))
        .put("response_ack_required", Json::Bool(true))
        .done()
}

/// What is told of a binding.
pub open spec fn bind_report(run_id: Seq<char>, idempotent: bool, actuation: JsonView) -> JsonView {
    JsonView::Record(
        no_fields()
            .push(("ok"@, JsonView::Bool(true)))
            .push(("run_id"@, JsonView::Text(run_id)))
            .push(("participant_bound"@, JsonView::Bool(true)))
            .push(("idempotent"@, JsonView::Bool(idempotent)))
            .push(("actuation"@, actuation)),
    )
}

pub fn bind_participant_response(run_id: &str, idempotent: bool, actuation: Json) -> (r: Json)
    ensures
        r@ == bind_report(run_id@, idempotent, actuation@),
{
    Fields::new()
        .put("ok", Json::Bool(true))
        .put("run_id", Json::text(run_id))
        .put("participant_bound", Json::Bool(true))
        .put("idempotent", Json::Bool(idempotent))
        .put("actuation", actuation)
        .done()
}

/// Whether an activation has come to an end.
pub open spec fn has_ended(status: ActivationStatus) -> bool {
    match status {
        ActivationStatus::Blocked => true,
        ActivationStatus::Completed => true,
        ActivationStatus::Failed => true,
        ActivationStatus::Cancelled => true,
        _ => false,
    }
}

/// Whether the pane of an agent that exited is to be ended: if nothing has changed since, and
/// the activation has come to an end.
pub open spec fn ends_pane(
    state: DriverStateView,
    run_id: Seq<char>,
    expected: ParticipantBindingView,
    status: Option<ActivationStatus>,
) -> bool {
    &&& expected.run_id == run_id
    &&& expected.exit_status is Some
    &&& state.participant_bindings.dom().contains(key_in(expected))
    &&& {
        let binding = state.participant_bindings[key_in(expected)];
        &&& binding.run_id == expected.run_id
        &&& binding.activation_id == expected.activation_id
        &&& binding.allocation_generation == expected.allocation_generation
        &&& binding.handle == expected.handle
        &&& binding.pane_id == expected.pane_id
        &&& binding.exit_status == expected.exit_status
        &&& holds_pane(state, binding)
    }
    &&& status is Some && has_ended(status->0)
}

/// The binding of an agent that exited, which a request names, from the `n`-th pair on.
pub open spec fn exited_named(
    pairs: Seq<(AllocationKeyView, ParticipantBindingView)>,
    run_id: Seq<char>,
    activation_id: Seq<char>,
    handle: Seq<char>,
    n: int,
) -> Option<ParticipantBindingView>
    decreases pairs.len() - n,
{
    if n < 0 || n >= pairs.len() {
        None
    } else if pairs[n].1.run_id == run_id && pairs[n].1.activation_id == activation_id
        && pairs[n].1.handle == handle && pairs[n].1.exit_status is Some {
        Some(pairs[n].1)
    } else {
        exited_named(pairs, run_id, activation_id, handle, n + 1)
    }
}

impl ReplayedDriverEvents {
    /// Whether the pane of an agent that exited is to be ended.
    pub fn reconcile_exited_participant(
        &self,
        run_id: &str,
        expected: &ParticipantBinding,
        status: Option<ActivationStatus>,
    ) -> (r: bool)
        ensures
            r == ends_pane(self.deep_view(), run_id@, expected.deep_view(), status),
    {
        if !same(expected.run_id.as_str(), run_id) || expected.exit_status.is_none() {
            return false;
        }
        let key = expected.key();
        let binding = match self.participant_bindings.get(&key) {
            Some(binding) => binding,
            None => return false,
        };
        if !same(binding.run_id.as_str(), expected.run_id.as_str()) || !same(
            binding.activation_id.as_str(),
            expected.activation_id.as_str(),
        ) || binding.allocation_generation != expected.allocation_generation || !same(
            binding.handle.as_str(),
            expected.handle.as_str(),
        ) || !same(binding.pane_id.as_str(), expected.pane_id.as_str()) || binding.exit_status
            != expected.exit_status {
            return false;
        }
        if !self.holds_pane(binding) {
            return false;
        }
        match status {
            Some(status) => match status {
                ActivationStatus::Blocked
                | ActivationStatus::Completed
                | ActivationStatus::Failed
                | ActivationStatus::Cancelled => true,
                _ => false,
            },
            None => false,
        }
    }

    /// The binding of an agent that exited, which a request names.
    pub fn exited_participant_binding(&self, run_id: &str, request: &Json) -> (r: Option<
        ParticipantBinding,
    >)
        ensures
            r.deep_view() == (match (
                text_field(request@, "activation_id"@),
                text_field(request@, "participant_handle"@),
            ) {
                (Some(activation_id), Some(handle)) => exited_named(
                    self.participant_bindings.pairs(),
                    run_id@,
                    activation_id,
                    handle,
                    0,
                ),
                _ => None,
            }),
    {
        let activation_id = match request.text_at("activation_id") {
            Some(text) => text,
            None => return None,
        };
        let handle = match request.text_at("participant_handle") {
            Some(text) => text,
            None => return None,
        };
        let n: usize = self.participant_bindings.len();
        let ghost pairs = self.participant_bindings.pairs();
        let mut i: usize = 0;
        while i < n
            invariant
                i <= n,
                pairs == self.participant_bindings.pairs(),
                n == pairs.len(),
                text_field(request@, "activation_id"@) == Some(activation_id@),
                text_field(request@, "participant_handle"@) == Some(handle@),
                exited_named(pairs, run_id@, activation_id@, handle@, 0) == exited_named(
                    pairs,
                    run_id@,
                    activation_id@,
                    handle@,
                    i as int,
                ),
            decreases n - i,
        {
            let binding = self.participant_bindings.value_at(i);
            if same(binding.run_id.as_str(), run_id) && same(
                binding.activation_id.as_str(),
                activation_id,
            ) && same(binding.handle.as_str(), handle) && binding.exit_status.is_some() {
                return Some(binding.clone());
            }
            i += 1;
        }
        None
    }
}

/// An exit that the history of a run tells of.
#[derive(Debug)]
pub struct ParticipantExit {
    pub activation_id: String,
    pub allocation_generation: u64,
    pub exit_status: i32,
}

#[verifier::ext_equal]
pub struct ParticipantExitView {
    pub activation_id: Seq<char>,
    pub allocation_generation: u64,
    pub exit_status: i32,
}

impl DeepView for ParticipantExit {
    type V = ParticipantExitView;

    open spec fn deep_view(&self) -> ParticipantExitView {
        ParticipantExitView {
            activation_id: self.activation_id@,
            allocation_generation: self.allocation_generation,
            exit_status: self.exit_status,
        }
    }
}

/// What is wrong with an exit that the history of a run tells of.
#[derive(Debug, Clone, Copy, PartialEq, Eq, Structural)]
pub enum ExitFault {
    NotStarted,
    Conflict,
}

impl ExitFault {
    pub open spec fn text(self) -> Seq<char> {
        match self {
            ExitFault::NotStarted => "participant exit event has no started binding"@,
            ExitFault::Conflict => "participant exit event conflicts with its binding projection"@,
        }
    }

    pub fn message(self) -> (r: &'static str)
        ensures
            r@ == self.text(),
    {
        match self {
            ExitFault::NotStarted => "participant exit event has no started binding",
            ExitFault::Conflict => "participant exit event conflicts with its binding projection",
        }
    }
}

/// Bindings with one exit more.
pub open spec fn with_exit(
    bindings: Map<AllocationKeyView, ParticipantBindingView>,
    exit: ParticipantExitView,
) -> Result<Map<AllocationKeyView, ParticipantBindingView>, ExitFault> {
    let key = AllocationKeyView {
        activation_id: exit.activation_id,
        generation: exit.allocation_generation,
    };
    if !bindings.dom().contains(key) {
        Err(ExitFault::NotStarted)
    } else if bindings[key].exit_status is Some && bindings[key].exit_status != Some(
        exit.exit_status,
    ) {
        Err(ExitFault::Conflict)
    } else {
        Ok(
            bindings.insert(
                key,
                ParticipantBindingView {
                    exit_status: Some(exit.exit_status),
                    ..bindings[key]
                },
            ),
        )
    }
}

/// Bindings with the exits that the history of a run tells of.
pub open spec fn with_exits(
    bindings: Map<AllocationKeyView, ParticipantBindingView>,
    exits: Seq<ParticipantExitView>,
) -> Result<Map<AllocationKeyView, ParticipantBindingView>, ExitFault>
    decreases exits.len(),
{
    if exits.len() == 0 {
        Ok(bindings)
    } else {
        match with_exits(bindings, exits.drop_last()) {
            Err(fault) => Err(fault),
            Ok(before) => with_exit(before, exits.last()),
        }
    }
}

proof fn lemma_fault_stays(
    bindings: Map<AllocationKeyView, ParticipantBindingView>,
    exits: Seq<ParticipantExitView>,
    n: int,
)
    requires
        0 <= n <= exits.len(),
        with_exits(bindings, exits.take(n)) is Err,
    ensures
        with_exits(bindings, exits) == with_exits(bindings, exits.take(n)),
    decreases exits.len() - n,
{
    if n == exits.len() {
        assert(exits.take(n) =~= exits);
    } else {
        assert(exits.take(n + 1).drop_last() =~= exits.take(n));
        lemma_fault_stays(bindings, exits, n + 1);
    }
}

/// Takes down the exits that the history of a run tells of.
pub fn project_participant_exits(
    exits: &Vec<ParticipantExit>,
    bindings: &mut Table<AllocationKey, ParticipantBinding>,
) -> (r: Result<(), ExitFault>)
    ensures
        match r {
            Ok(_) => with_exits(old(bindings).deep_view(), exits.deep_view()) == Ok::<
                Map<AllocationKeyView, ParticipantBindingView>,
                ExitFault,
            >(final(bindings).deep_view()),
            Err(fault) => with_exits(old(bindings).deep_view(), exits.deep_view()) == Err::<
                Map<AllocationKeyView, ParticipantBindingView>,
                ExitFault,
            >(fault),
        },
{
    let ghost start = bindings.deep_view();
    let ghost model = exits.deep_view();
    let mut i: usize = 0;
    assert(model.take(0) =~= Seq::<ParticipantExitView>::empty());
    while i < exits.len()
        invariant
            i <= exits.len(),
            model == exits.deep_view(),
            start == old(bindings).deep_view(),
            with_exits(start, model.take(i as int)) == Ok::<
                Map<AllocationKeyView, ParticipantBindingView>,
                ExitFault,
            >(bindings.deep_view()),
        decreases exits.len() - i,
    {
        let exit = &exits[i];
        assert(model.take(i + 1).drop_last() =~= model.take(i as int));
        assert(model.take(i + 1).last() == exit.deep_view());
        let key = allocation_key(exit.activation_id.as_str(), exit.allocation_generation);
        let existing = match bindings.get(&key) {
            Some(binding) => binding.clone(),
            None => {
                proof {
                    lemma_fault_stays(start, model, i + 1);
                }
                return Err(ExitFault::NotStarted);
            },
        };
        let conflict = match existing.exit_status {
            Some(recorded) => recorded != exit.exit_status,
            None => false,
        };
        if conflict {
            proof {
                lemma_fault_stays(start, model, i + 1);
            }
            return Err(ExitFault::Conflict);
        }
        let gone = ParticipantBinding {
            run_id: existing.run_id,
            activation_id: existing.activation_id,
            allocation_generation: existing.allocation_generation,
            pane_id: existing.pane_id,
            readiness_nonce: existing.readiness_nonce,
            handle: existing.handle,
            credential_hash: existing.credential_hash,
            binding_file: existing.binding_file,
            native_session_id: existing.native_session_id,
            platform: existing.platform,
            source: existing.source,
            exit_status: Some(exit.exit_status),
        };
        bindings.insert(key, gone);
        i += 1;
    }
    assert(model.take(i as int) =~= model);
    Ok(())
}

/// A word of an exit that was taken down is answered as one that was heard before, and one
/// with another status is refused.
pub proof fn lemma_exit_is_final(
    state: DriverStateView,
    exit: ParticipantExitView,
    other: i32,
)
    requires
        with_exit(state.participant_bindings, exit) is Ok,
        other != exit.exit_status,
    ensures
        ({
            let key = AllocationKeyView {
                activation_id: exit.activation_id,
                generation: exit.allocation_generation,
            };
            let after = DriverStateView {
                participant_bindings: with_exit(state.participant_bindings, exit)->Ok_0,
                ..state
            };
            let binding = after.participant_bindings[key];
            &&& exit_decision(after, binding, exit.exit_status) == Ok::<bool, FailureView>(true)
            &&& exit_decision(after, binding, other) is Err
            &&& with_exit(after.participant_bindings, exit) is Ok
        }),
{
}

impl DriverStateView {
    /// The binding whose file is to be removed with its pane: one that has ended is removed on
    /// its own.
    pub open spec fn to_retire(self, activation_id: Seq<char>, generation: u64) -> Option<
        ParticipantBindingView,
    > {
        let key = AllocationKeyView { activation_id, generation };
        if self.participant_bindings.dom().contains(key)
            && self.participant_bindings[key].exit_status is None {
            Some(self.participant_bindings[key])
        } else {
            None
        }
    }
}

impl ReplayedDriverEvents {
    /// The binding whose file is to be removed with its pane.
    pub fn retire_participant_binding(
        &self,
        activation_id: &str,
        allocation_generation: u64,
    ) -> (r: Option<ParticipantBinding>)
        ensures
            r.deep_view() == self.deep_view().to_retire(activation_id@, allocation_generation),
    {
        match self.participant_bindings.get(&allocation_key(activation_id, allocation_generation)) {
            Some(binding) => if binding.exit_status.is_none() {
                Some(binding.clone())
            } else {
                None
            },
            None => None,
        }
    }
}

} // verus!
