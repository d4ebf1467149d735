//! What the tools of a driver are asked for: every request is read into the step that it stands
//! for, or refused.
use vstd::prelude::*;

use crate::flow::lock::{FlowLock, FlowLockView};
use crate::json::{field, text_field, Json, JsonView};

use super::binding::{given_package, take_package};
use super::failure::{result_of, DriverFailure, FailureView};
use super::message::{message_in, MessageRequest, MessageRequestView};
use super::operation::Control;
use super::participant::{
    hook_decision, participant_stop_reason, stop_decision_for_invocation, stop_reason,
    told_to_hook, ParticipantBindingFile, BindingFileView, StopEvent, StopEventView,
};
use super::protocol::DriverWire;
use super::replay::{DriverStateView, ReplayedDriverEvents};
use super::request::{
    artifact_key_from_request, asked_artifact, asked_entries, asked_lock_mode,
    board_entries_from_request, flow_lock_mode_from_request, BoardEntry, BoardEntryView,
};
use super::revision::{reading, FlowReview, FlowReviewView, StoredFlowRevision, StoredRevisionView};
use super::wire::{
    demanded, demanded_filled, payload_string, payload_text, required_nonempty, required_string,
    FlowLockMode,
};

verus! {

broadcast use vstd::string::group_string_axioms;

/// What a tool is to do.
#[derive(Debug)]
pub enum ToolStep {
    BindRun,
    /// Tell the context of the run, to an agent only its own.
    Context(Option<String>),
    Status,
    Why,
    Control(Control),
    /// An activation delivers an artifact with a payload.
    DeliverArtifact(String, String, String),
    /// An activation puts entries on the board.
    PatchBoard(String, Vec<BoardEntry>),
    /// An activation has had an effect, with a payload.
    RecordEffect(String, String, String),
    ValidateStop(String),
    /// An activation was seen to stop, for a reason.
    ObserveStop(String, String),
    /// A node is to be activated.
    Activate(String),
    /// A node is to be activated for every item of an artifact.
    Fanout(String, String),
    ApplyFlowRevision,
    /// The routes of a lock are to be shown: of the one given, or of the latest.
    PreviewFlowRoutes(bool),
    RecordHookFact,
    SendMessage(MessageRequest),
    ViewTerminal,
    ViewSnapshot,
}

#[verifier::ext_equal]
pub enum ToolStepView {
    BindRun,
    Context(Option<Seq<char>>),
    Status,
    Why,
    Control(Control),
    DeliverArtifact(Seq<char>, Seq<char>, Seq<char>),
    PatchBoard(Seq<char>, Seq<BoardEntryView>),
    RecordEffect(Seq<char>, Seq<char>, Seq<char>),
    ValidateStop(Seq<char>),
    ObserveStop(Seq<char>, Seq<char>),
    Activate(Seq<char>),
    Fanout(Seq<char>, Seq<char>),
    ApplyFlowRevision,
    PreviewFlowRoutes(bool),
    RecordHookFact,
    SendMessage(MessageRequestView),
    ViewTerminal,
    ViewSnapshot,
}

impl DeepView for ToolStep {
    type V = ToolStepView;

    open spec fn deep_view(&self) -> ToolStepView {
        match self {
            ToolStep::BindRun => ToolStepView::BindRun,
            ToolStep::Context(own) => ToolStepView::Context(own.deep_view()),
            ToolStep::Status => ToolStepView::Status,
            ToolStep::Why => ToolStepView::Why,
            ToolStep::Control(control) => ToolStepView::Control(*control),
            ToolStep::DeliverArtifact(activation_id, key, payload) => {
                ToolStepView::DeliverArtifact(activation_id@, key@, payload@)
            },
            ToolStep::PatchBoard(activation_id, entries) => ToolStepView::PatchBoard(
                activation_id@,
                entries.deep_view(),
            ),
            ToolStep::RecordEffect(activation_id, key, payload) => ToolStepView::RecordEffect(
                activation_id@,
                key@,
                payload@,
            ),
            ToolStep::ValidateStop(activation_id) => ToolStepView::ValidateStop(activation_id@),
            ToolStep::ObserveStop(activation_id, reason) => ToolStepView::ObserveStop(
                activation_id@,
                reason@,
            ),
            ToolStep::Activate(node_id) => ToolStepView::Activate(node_id@),
            ToolStep::Fanout(node_id, key) => ToolStepView::Fanout(node_id@, key@),
            ToolStep::ApplyFlowRevision => ToolStepView::ApplyFlowRevision,
            ToolStep::PreviewFlowRoutes(given) => ToolStepView::PreviewFlowRoutes(*given),
            ToolStep::RecordHookFact => ToolStepView::RecordHookFact,
            ToolStep::SendMessage(message) => ToolStepView::SendMessage(message.deep_view()),
            ToolStep::ViewTerminal => ToolStepView::ViewTerminal,
            ToolStep::ViewSnapshot => ToolStepView::ViewSnapshot,
        }
    }
}

/// Whose context is asked for: an agent that gives its handle asks for its own.
pub open spec fn asked_context(request: JsonView) -> Result<Option<Seq<char>>, FailureView> {
    match text_field(request, "participant_handle"@) {
        None => Ok(None),
        Some(_) => match demanded(request, "activation_id"@) {
            Err(failure) => Err(failure),
            Ok(activation_id) => Ok(Some(activation_id)),
        },
    }
}

/// An activation and something that it names, with a payload.
pub open spec fn asked_payload(request: JsonView, named: Result<Seq<char>, FailureView>) -> Result<
    (Seq<char>, Seq<char>, Seq<char>),
    FailureView,
> {
    match (demanded(request, "activation_id"@), named) {
        (Err(failure), _) => Err(failure),
        (_, Err(failure)) => Err(failure),
        (Ok(activation_id), Ok(name)) => Ok(
            (activation_id, name, payload_text(field(request, "payload"@))),
        ),
    }
}

/// The step that a request to a tool stands for. The first fault counts.
pub open spec fn tool_step(wire: DriverWire, request: JsonView) -> Result<
    ToolStepView,
    FailureView,
> {
    match wire {
        DriverWire::BindRun => Ok(ToolStepView::BindRun),
        DriverWire::Context => match asked_context(request) {
            Err(failure) => Err(failure),
            Ok(own) => Ok(ToolStepView::Context(own)),
        },
        DriverWire::Status => Ok(ToolStepView::Status),
        DriverWire::Why => Ok(ToolStepView::Why),
        DriverWire::Pause => Ok(ToolStepView::Control(Control::Pause)),
        DriverWire::Resume => Ok(ToolStepView::Control(Control::Resume)),
        DriverWire::Complete => Ok(ToolStepView::Control(Control::Complete)),
        DriverWire::Stop => Ok(ToolStepView::Control(Control::Stop)),
        DriverWire::DeliverArtifact => match asked_payload(request, asked_artifact(request)) {
            Err(failure) => Err(failure),
            Ok((activation_id, key, payload)) => Ok(
                ToolStepView::DeliverArtifact(activation_id, key, payload),
            ),
        },
        DriverWire::PatchBoard => match (
            demanded(request, "activation_id"@),
            asked_entries(request),
        ) {
            (Err(failure), _) => Err(failure),
            (_, Err(failure)) => Err(failure),
            (Ok(activation_id), Ok(entries)) => Ok(
                ToolStepView::PatchBoard(activation_id, entries),
            ),
        },
        DriverWire::RecordEffect => match asked_payload(
            request,
            demanded(request, "effect_key"@),
        ) {
            Err(failure) => Err(failure),
            Ok((activation_id, key, payload)) => Ok(
                ToolStepView::RecordEffect(activation_id, key, payload),
            ),
        },
        DriverWire::ValidateStop => match demanded(request, "activation_id"@) {
            Err(failure) => Err(failure),
            Ok(activation_id) => Ok(ToolStepView::ValidateStop(activation_id)),
        },
        DriverWire::ObserveStop => match demanded(request, "activation_id"@) {
            Err(failure) => Err(failure),
            Ok(activation_id) => Ok(
                ToolStepView::ObserveStop(
                    activation_id,
                    match text_field(request, "reason"@) {
                        Some(reason) => reason,
                        None => "observed stop"@,
                    },
                ),
            ),
        },
        DriverWire::Activate => match demanded(request, "node_id"@) {
            Err(failure) => Err(failure),
            Ok(node_id) => Ok(ToolStepView::Activate(node_id)),
        },
        DriverWire::Fanout => match (demanded(request, "node_id"@), asked_artifact(request)) {
            (Err(failure), _) => Err(failure),
            (_, Err(failure)) => Err(failure),
            (Ok(node_id), Ok(key)) => Ok(ToolStepView::Fanout(node_id, key)),
        },
        DriverWire::ApplyFlowRevision => Ok(ToolStepView::ApplyFlowRevision),
        DriverWire::PreviewFlowRoutes => Ok(
            ToolStepView::PreviewFlowRoutes(field(request, "flow_lock"@) is Some),
        ),
        DriverWire::RecordHookFact => Ok(ToolStepView::RecordHookFact),
        DriverWire::SendMessage => match message_in(request) {
            Err(failure) => Err(failure),
            Ok(message) => Ok(ToolStepView::SendMessage(message)),
        },
        DriverWire::ViewTerminal => Ok(ToolStepView::ViewTerminal),
        DriverWire::ViewSnapshot => Ok(ToolStepView::ViewSnapshot),
    }
}

/// The step that a request to a tool stands for.
pub fn handle_tool_wire(wire: DriverWire, request: &Json) -> (r: Result<ToolStep, DriverFailure>)
    ensures
        result_of(r) == tool_step(wire, request@),
{
    match wire {
        DriverWire::BindRun => Ok(ToolStep::BindRun),
        DriverWire::Context => {
            if request.text_at("participant_handle").is_none() {
                return Ok(ToolStep::Context(None));
            }
            match required_string(request, "activation_id") {
                Err(failure) => Err(failure),
                Ok(activation_id) => Ok(ToolStep::Context(Some(activation_id.to_string()))),
            }
        },
        DriverWire::Status => Ok(ToolStep::Status),
        DriverWire::Why => Ok(ToolStep::Why),
        DriverWire::Pause => Ok(ToolStep::Control(Control::Pause)),
        DriverWire::Resume => Ok(ToolStep::Control(Control::Resume)),
        DriverWire::Complete => Ok(ToolStep::Control(Control::Complete)),
        DriverWire::Stop => Ok(ToolStep::Control(Control::Stop)),
        DriverWire::DeliverArtifact => {
            let activation_id = match required_string(request, "activation_id") {
                Err(failure) => return Err(failure),
                Ok(activation_id) => activation_id,
            };
            match artifact_key_from_request(request) {
                Err(failure) => Err(failure),
                Ok(key) => Ok(
                    ToolStep::DeliverArtifact(
                        activation_id.to_string(),
                        key.to_string(),
                        payload_string(request.get("payload")),
                    ),
                ),
            }
        },
        DriverWire::PatchBoard => {
            let activation_id = match required_string(request, "activation_id") {
                Err(failure) => return Err(failure),
                Ok(activation_id) => activation_id,
            };
            match board_entries_from_request(request) {
                Err(failure) => Err(failure),
                Ok(entries) => Ok(ToolStep::PatchBoard(activation_id.to_string(), entries)),
            }
        },
        DriverWire::RecordEffect => {
            let activation_id = match required_string(request, "activation_id") {
                Err(failure) => return Err(failure),
                Ok(activation_id) => activation_id,
            };
            match required_string(request, "effect_key") {
                Err(failure) => Err(failure),
                Ok(key) => Ok(
                    ToolStep::RecordEffect(
                        activation_id.to_string(),
                        key.to_string(),
                        payload_string(request.get("payload")),
                    ),
                ),
            }
        },
        DriverWire::ValidateStop => match required_string(request, "activation_id") {
            Err(failure) => Err(failure),
            Ok(activation_id) => Ok(ToolStep::ValidateStop(activation_id.to_string())),
        },
        DriverWire::ObserveStop => match required_string(request, "activation_id") {
            Err(failure) => Err(failure),
            Ok(activation_id) => {
                let reason = match request.text_at("reason") {
                    Some(reason) => reason,
                    None => "observed stop",
                };
                Ok(ToolStep::ObserveStop(activation_id.to_string(), reason.to_string()))
            },
        },
        DriverWire::Activate => match required_string(request, "node_id") {
            Err(failure) => Err(failure),
            Ok(node_id) => Ok(ToolStep::Activate(node_id.to_string())),
        },
        DriverWire::Fanout => {
            let node_id = match required_string(request, "node_id") {
                Err(failure) => return Err(failure),
                Ok(node_id) => node_id,
            };
            match artifact_key_from_request(request) {
                Err(failure) => Err(failure),
                Ok(key) => Ok(ToolStep::Fanout(node_id.to_string(), key.to_string())),
            }
        },
        DriverWire::ApplyFlowRevision => Ok(ToolStep::ApplyFlowRevision),
        DriverWire::PreviewFlowRoutes => Ok(
            ToolStep::PreviewFlowRoutes(request.get("flow_lock").is_some()),
        ),
        DriverWire::RecordHookFact => Ok(ToolStep::RecordHookFact),
        DriverWire::SendMessage => match MessageRequest::from_request(request) {
            Err(failure) => Err(failure),
            Ok(message) => Ok(ToolStep::SendMessage(message)),
        },
        DriverWire::ViewTerminal => Ok(ToolStep::ViewTerminal),
        DriverWire::ViewSnapshot => Ok(ToolStep::ViewSnapshot),
    }
}

/// What a request asks of one tool, no other does: the step tells the tool.
pub proof fn lemma_steps_tell_their_tool(a: DriverWire, b: DriverWire, x: JsonView, y: JsonView)
    requires
        tool_step(a, x) is Ok,
        tool_step(a, x) == tool_step(b, y),
    ensures
        a == b,
{
}

/// A lock that is to be applied to a run, and how: it needs a review that allows it.
pub open spec fn revision_asked(
    request: JsonView,
    parsed: Result<FlowLockView, Seq<char>>,
    loaded: Result<FlowReviewView, Seq<char>>,
) -> Result<(StoredRevisionView, FlowLockMode), FailureView> {
    match (given_package(request, parsed, loaded), asked_lock_mode(request)) {
        (Err(failure), _) => Err(failure),
        (_, Err(failure)) => Err(failure),
        (Ok(package), Ok(mode)) => Ok((package, mode)),
    }
}

pub fn apply_flow_revision(
    request: &Json,
    parsed: Result<FlowLock, String>,
    loaded: Result<FlowReview, String>,
) -> (r: Result<(StoredFlowRevision, FlowLockMode), DriverFailure>)
    ensures
        match r {
            Ok((package, mode)) => revision_asked(request@, reading(parsed), reading(loaded))
                == Ok::<(StoredRevisionView, FlowLockMode), FailureView>(
                (package.deep_view(), mode),
            ),
            Err(failure) => revision_asked(request@, reading(parsed), reading(loaded)) == Err::<
                (StoredRevisionView, FlowLockMode),
                FailureView,
            >(failure.deep_view()),
        },
{
    let package = match take_package(request, parsed, loaded) {
        Err(failure) => return Err(failure),
        Ok(package) => package,
    };
    match flow_lock_mode_from_request(request) {
        Err(failure) => Err(failure),
        Ok(mode) => Ok((package, mode)),
    }
}

/// What is to be done when an agent asks to stop.
#[derive(Debug)]
pub enum StopStep {
    /// It was told before, at this place in the history.
    Told(String, usize),
    /// It is to be observed that this activation wants to stop, in this call and for this
    /// reason.
    Observe(String, String, String),
}

#[verifier::ext_equal]
pub enum StopStepView {
    Told(Seq<char>, int),
    Observe(Seq<char>, Seq<char>, Seq<char>),
}

impl DeepView for StopStep {
    type V = StopStepView;

    open spec fn deep_view(&self) -> StopStepView {
        match self {
            StopStep::Told(activation_id, at) => StopStepView::Told(activation_id@, *at as int),
            StopStep::Observe(activation_id, invocation_id, reason) => StopStepView::Observe(
                activation_id@,
                invocation_id@,
                reason@,
            ),
        }
    }
}

/// What is to be done when an agent asks to stop: it is heard only if it is the agent of its
/// activation, and told again what it was told in the same call.
pub open spec fn stop_asked(
    state: DriverStateView,
    run_id: Seq<char>,
    request: JsonView,
    file: Option<BindingFileView>,
    runs_root: Seq<char>,
    events: Seq<StopEventView>,
) -> Result<StopStepView, FailureView> {
    match (
        hook_decision(state, request, file, runs_root),
        demanded_filled(request, "invocation_id"@),
    ) {
        (Err(failure), _) => Err(failure),
        (_, Err(failure)) => Err(failure),
        (Ok(binding), Ok(invocation_id)) => match told_to_hook(
            events,
            run_id,
            binding.activation_id,
            invocation_id,
            false,
            0,
        ) {
            Some(at) => Ok(StopStepView::Told(binding.activation_id, at)),
            None => Ok(
                StopStepView::Observe(binding.activation_id, invocation_id, stop_reason(request)),
            ),
        },
    }
}

impl ReplayedDriverEvents {
    /// What is to be done when an agent asks to stop.
    pub fn participant_stop(
        &self,
        run_id: &str,
        request: &Json,
        file: &Option<ParticipantBindingFile>,
        runs_root: &str,
        events: &Vec<StopEvent>,
    ) -> (r: Result<StopStep, DriverFailure>)
        ensures
            result_of(r) == stop_asked(
                self.deep_view(),
                run_id@,
                request@,
                file.deep_view(),
                runs_root@,
                events.deep_view(),
            ),
    {
        let binding = match self.authorize_participant_hook(request, file, runs_root) {
            Err(failure) => return Err(failure),
            Ok(binding) => binding,
        };
        let invocation_id = match required_nonempty(request, "invocation_id") {
            Err(failure) => return Err(failure),
            Ok(text) => text,
        };
        match stop_decision_for_invocation(
            events,
            run_id,
            binding.activation_id.as_str(),
            invocation_id,
        ) {
            Some(at) => Ok(StopStep::Told(binding.activation_id, at)),
            None => Ok(
                StopStep::Observe(
                    binding.activation_id,
                    invocation_id.to_string(),
                    participant_stop_reason(request).to_string(),
                ),
            ),
        }
    }
}

proof fn lemma_told_is_found(
    events: Seq<StopEventView>,
    run_id: Seq<char>,
    activation_id: Seq<char>,
    invocation_id: Seq<char>,
    heard: bool,
    n: int,
    seen: int,
    told: int,
)
    requires
        0 <= n <= told < events.len(),
        events[told] is Decided,
        events[told]->Decided_0 == run_id,
        events[told]->Decided_1 == activation_id,
        heard || n <= seen < told && events[seen] == StopEventView::Observed(
            run_id,
            activation_id,
            Some(invocation_id),
        ),
    ensures
        told_to_hook(events, run_id, activation_id, invocation_id, heard, n) is Some,
    decreases events.len() - n,
{
    if n < told {
        match events[n] {
            StopEventView::Decided(run, activation, _) => {
                if !(heard && run == run_id && activation == activation_id) {
                    lemma_told_is_found(
                        events,
                        run_id,
                        activation_id,
                        invocation_id,
                        heard,
                        n + 1,
                        seen,
                        told,
                    );
                }
            },
            StopEventView::Observed(run, activation, invocation) => {
                lemma_told_is_found(
                    events,
                    run_id,
                    activation_id,
                    invocation_id,
                    heard || (run == run_id && activation == activation_id && invocation == Some(
                        invocation_id,
                    )),
                    n + 1,
                    seen,
                    told,
                );
            },
            StopEventView::Other => {
                lemma_told_is_found(
                    events,
                    run_id,
                    activation_id,
                    invocation_id,
                    heard,
                    n + 1,
                    seen,
                    told,
                );
            },
        }
    }
}

/// An agent that was heard and told is told the same whenever it asks again in the same call.
pub proof fn lemma_stops_are_told_once(
    events: Seq<StopEventView>,
    more: Seq<StopEventView>,
    run_id: Seq<char>,
    activation_id: Seq<char>,
    invocation_id: Seq<char>,
    heard: bool,
    n: int,
)
    requires
        0 <= n,
        told_to_hook(events, run_id, activation_id, invocation_id, heard, n) is Some,
    ensures
        told_to_hook(events + more, run_id, activation_id, invocation_id, heard, n) == told_to_hook(
            events,
            run_id,
            activation_id,
            invocation_id,
            heard,
            n,
        ),
    decreases events.len() - n,
{
    assert((events + more)[n] == events[n]);
    match events[n] {
        StopEventView::Decided(run, activation, _) => {
            if !(heard && run == run_id && activation == activation_id) {
                lemma_stops_are_told_once(
                    events,
                    more,
                    run_id,
                    activation_id,
                    invocation_id,
                    heard,
                    n + 1,
                );
            }
        },
        StopEventView::Observed(run, activation, invocation) => {
            lemma_stops_are_told_once(
                events,
                more,
                run_id,
                activation_id,
                invocation_id,
                heard || (run == run_id && activation == activation_id && invocation == Some(
                    invocation_id,
                )),
                n + 1,
            );
        },
        StopEventView::Other => {
            lemma_stops_are_told_once(
                events,
                more,
                run_id,
                activation_id,
                invocation_id,
                heard,
                n + 1,
            );
        },
    }
}

/// Once it is observed and decided that an agent wants to stop, the call is answered from the
/// history.
pub proof fn lemma_answered_stops_are_found(
    events: Seq<StopEventView>,
    run_id: Seq<char>,
    activation_id: Seq<char>,
    invocation_id: Seq<char>,
    seen: int,
    told: int,
)
    requires
        0 <= seen < told < events.len(),
        events[seen] == StopEventView::Observed(run_id, activation_id, Some(invocation_id)),
        events[told] is Decided,
        events[told]->Decided_0 == run_id,
        events[told]->Decided_1 == activation_id,
    ensures
        told_to_hook(events, run_id, activation_id, invocation_id, false, 0) is Some,
{
    lemma_told_is_found(events, run_id, activation_id, invocation_id, false, 0, seen, told);
}

} // verus!
