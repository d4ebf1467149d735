//! How activations are put to work: an agent is launched in the pane, and gets its prompt.
use vstd::prelude::*;

use crate::adapters::tmux::input::{
    AcceptanceView, AttemptView, InputRequestView, TmuxSubmissionAcceptance,
};
use crate::flow::model::{FlowDraft, FlowDraftView, NodeDriver};
use crate::input_ledger::{
    machine_input_payload_hash, normalize_machine_input_text, normalized, payload_hash,
    MachineInputRecord, MachineInputRecordView, MachineInputStatus,
};
use crate::json::{flag_field, no_fields, option_text, option_text_json, with_field, Fields, Json, JsonView};
use crate::text::same;

use super::delivery::{
    ambiguous_delivery_warning, delivery_warning, AmbiguousDelivery, AmbiguousDeliveryView,
    DELIVERY_ROLE_AGENT_LAUNCH, DELIVERY_ROLE_NODE_PROMPT,
};
use super::failure::{copied, DriverFailure, FailureView};
use super::lifecycle::{Activation, ActivationView};
use super::prompt::{
    agent_backed, agent_launch_command, find_node, is_autonomous_agent_backed_driver,
    launch_command, node_with_id,
};
use super::records::{
    DriverTmuxActuationConfig, DriverTmuxActuationConfigView, StoredPane, StoredPaneView,
};
use super::wire::ActivationStatus;

verus! {

broadcast use vstd::string::group_string_axioms;

/// What the launch of an agent is entered as in the ledger, in place of the command.
pub const AGENT_LAUNCH_LEDGER_PROJECTION: &'static str = "participant-agent-launch";

/// What came of putting activations to work.
#[derive(Debug)]
pub struct DriverActuation {
    sent: Vec<Json>,
    warnings: Vec<Json>,
}

#[verifier::ext_equal]
pub struct DriverActuationView {
    pub sent: Seq<JsonView>,
    pub warnings: Seq<JsonView>,
}

impl DeepView for DriverActuation {
    type V = DriverActuationView;

    closed spec fn deep_view(&self) -> DriverActuationView {
        DriverActuationView { sent: self.sent.deep_view(), warnings: self.warnings.deep_view() }
    }
}

impl DriverActuationView {
    pub open spec fn none() -> DriverActuationView {
        DriverActuationView { sent: Seq::empty(), warnings: Seq::empty() }
    }

    pub open spec fn json(self) -> JsonView {
        JsonView::Record(
            no_fields()
                .push(("sent"@, JsonView::List(self.sent)))
                .push(("warnings"@, JsonView::List(self.warnings))),
        )
    }

    /// Whether the run is to be paused: for any warning that does not say otherwise.
    pub open spec fn pauses(self) -> bool {
        exists|i: int|
            0 <= i < self.warnings.len() && flag_field(
                #[trigger] self.warnings[i],
                "pause_required"@,
            ) != Some(false)
    }

    pub open spec fn with(self, outcome: ActuationOutcomeView) -> DriverActuationView {
        match outcome {
            ActuationOutcomeView::Sent(told) => DriverActuationView {
                sent: self.sent.push(told),
                ..self
            },
            ActuationOutcomeView::Warned(told) => DriverActuationView {
                warnings: self.warnings.push(told),
                ..self
            },
            ActuationOutcomeView::Failed(_) => self,
        }
    }
}

impl Default for DriverActuation {
    fn default() -> (r: Self)
        ensures
            r.deep_view() == DriverActuationView::none(),
    {
        let r = DriverActuation { sent: Vec::new(), warnings: Vec::new() };
        assert(r.sent.deep_view() =~= Seq::<JsonView>::empty());
        assert(r.warnings.deep_view() =~= Seq::<JsonView>::empty());
        r
    }
}

impl DriverActuation {
    pub fn with_warnings(warnings: Vec<Json>) -> (r: Self)
        ensures
            r.deep_view() == (DriverActuationView {
                sent: Seq::empty(),
                warnings: warnings.deep_view(),
            }),
    {
        let r = DriverActuation { sent: Vec::new(), warnings };
        assert(r.sent.deep_view() =~= Seq::<JsonView>::empty());
        r
    }

    pub fn to_json(&self) -> (r: Json)
        ensures
            r@ == self.deep_view().json(),
    {
        Fields::new()
            .put("sent", Json::list(copied(&self.sent)))
            .put("warnings", Json::list(copied(&self.warnings)))
            .done()
    }

    pub fn requires_pause(&self) -> (r: bool)
        ensures
            r == self.deep_view().pauses(),
    {
        let mut i: usize = 0;
        while i < self.warnings.len()
            invariant
                i <= self.warnings.len(),
                forall|j: int|
                    0 <= j < i ==> flag_field(
                        #[trigger] self.deep_view().warnings[j],
                        "pause_required"@,
                    ) == Some(false),
            decreases self.warnings.len() - i,
        {
            assert(self.deep_view().warnings[i as int] == self.warnings@[i as int]@);
            match self.warnings[i].flag_at("pause_required") {
                Some(false) => {},
                _ => {
                    return true;
                },
            }
            i += 1;
        }
        false
    }

    /// Takes down what came of one activation.
    pub fn add_outcome(&mut self, outcome: ActuationOutcome)
        ensures
            final(self).deep_view() == old(self).deep_view().with(outcome.deep_view()),
    {
        match outcome {
            ActuationOutcome::Sent(told) => {
                let ghost before = self.sent.deep_view();
                self.sent.push(told);
                assert(self.sent.deep_view() =~= before.push(told@));
            },
            ActuationOutcome::Warned(told) => {
                let ghost before = self.warnings.deep_view();
                self.warnings.push(told);
                assert(self.warnings.deep_view() =~= before.push(told@));
            },
            ActuationOutcome::Failed(_) => {},
        }
    }
}

/// What came of one activation.
#[derive(Debug)]
pub enum ActuationOutcome {
    Sent(Json),
    Warned(Json),
    Failed(DriverFailure),
}

#[verifier::ext_equal]
pub enum ActuationOutcomeView {
    Sent(JsonView),
    Warned(JsonView),
    Failed(FailureView),
}

impl DeepView for ActuationOutcome {
    type V = ActuationOutcomeView;

    open spec fn deep_view(&self) -> ActuationOutcomeView {
        match self {
            ActuationOutcome::Sent(told) => ActuationOutcomeView::Sent(told@),
            ActuationOutcome::Warned(told) => ActuationOutcomeView::Warned(told@),
            ActuationOutcome::Failed(failure) => ActuationOutcomeView::Failed(failure.deep_view()),
        }
    }
}

impl Clone for ActuationOutcome {
    fn clone(&self) -> (r: Self)
        ensures
            r.deep_view() == self.deep_view(),
    {
        match self {
            ActuationOutcome::Sent(told) => ActuationOutcome::Sent(told.clone()),
            ActuationOutcome::Warned(told) => ActuationOutcome::Warned(told.clone()),
            ActuationOutcome::Failed(failure) => ActuationOutcome::Failed(failure.clone()),
        }
    }
}

/// Whether an activation is to be put to work.
#[derive(Debug)]
pub enum ActuationGate {
    /// It is passed over.
    Skip,
    /// It cannot be.
    Warn(Json),
    /// A human does the work, and needs no prompt.
    Settle,
    /// It is.
    Go,
}

#[verifier::ext_equal]
pub enum ActuationGateView {
    Skip,
    Warn(JsonView),
    Settle,
    Go,
}

impl DeepView for ActuationGate {
    type V = ActuationGateView;

    open spec fn deep_view(&self) -> ActuationGateView {
        match self {
            ActuationGate::Skip => ActuationGateView::Skip,
            ActuationGate::Warn(told) => ActuationGateView::Warn(told@),
            ActuationGate::Settle => ActuationGateView::Settle,
            ActuationGate::Go => ActuationGateView::Go,
        }
    }
}

/// What is told of an activation that cannot be put to work.
pub open spec fn cannot_work(
    activation: ActivationView,
    driver: NodeDriver,
    message: Seq<char>,
) -> JsonView {
    JsonView::Record(
        no_fields()
            .push(("activation_id"@, JsonView::Text(activation.activation_id)))
            .push(("node_id"@, JsonView::Text(activation.node_id)))
            .push(("driver"@, JsonView::Text(driver.name())))
            .push(("message"@, JsonView::Text(message))),
    )
}

fn cannot_work_json(activation: &Activation, driver: NodeDriver, message: &str) -> (r: Json)
    ensures
        r@ == cannot_work(activation.deep_view(), driver, message@),
{
    Fields::new()
        .put("activation_id", Json::text(activation.activation_id.as_str()))
        .put("node_id", Json::text(activation.node_id.as_str()))
        .put("driver", Json::text(driver.as_str()))
        .put("message", Json::text(message))
        .done()
}

/// Whether an activation is to be put to work.
pub open spec fn gate_of(
    draft: FlowDraftView,
    activation: Option<ActivationView>,
    has_pane: bool,
    settled: bool,
) -> ActuationGateView {
    match activation {
        None => ActuationGateView::Skip,
        Some(activation) => if activation.status != ActivationStatus::Running {
            ActuationGateView::Skip
        } else {
            match node_with_id(draft.nodes, activation.node_id) {
                None => ActuationGateView::Skip,
                Some(node) => match node.action {
                    None => ActuationGateView::Skip,
                    Some(action) => if !has_pane {
                        ActuationGateView::Warn(
                            cannot_work(
                                activation,
                                action.driver,
                                "tmux pane mapping is required for agent actuation"@,
                            ),
                        )
                    } else if settled {
                        ActuationGateView::Skip
                    } else if action.driver == NodeDriver::Human {
                        ActuationGateView::Settle
                    } else if !agent_backed(action.driver) {
                        ActuationGateView::Warn(
                            cannot_work(
                                activation,
                                action.driver,
                                "action driver is not supported for autonomous tmux actuation"@,
                            ),
                        )
                    } else {
                        ActuationGateView::Go
                    },
                },
            }
        },
    }
}

pub fn actuation_gate(
    draft: &FlowDraft,
    activation: &Option<Activation>,
    has_pane: bool,
    settled: bool,
) -> (r: ActuationGate)
    ensures
        r.deep_view() == gate_of(draft.deep_view(), activation.deep_view(), has_pane, settled),
{
    let activation = match activation {
        Some(activation) => activation,
        None => return ActuationGate::Skip,
    };
    if activation.status != ActivationStatus::Running {
        return ActuationGate::Skip;
    }
    let node = match find_node(draft, activation.node_id.as_str()) {
        Some(node) => node,
        None => return ActuationGate::Skip,
    };
    let action = match &node.action {
        Some(action) => action,
        None => return ActuationGate::Skip,
    };
    if !has_pane {
        return ActuationGate::Warn(
            cannot_work_json(
                activation,
                action.driver,
                "tmux pane mapping is required for agent actuation",
            ),
        );
    }
    if settled {
        return ActuationGate::Skip;
    }
    if let NodeDriver::Human = action.driver {
        return ActuationGate::Settle;
    }
    if !is_autonomous_agent_backed_driver(action.driver) {
        return ActuationGate::Warn(
            cannot_work_json(
                activation,
                action.driver,
                "action driver is not supported for autonomous tmux actuation",
            ),
        );
    }
    ActuationGate::Go
}

/// Whether an entry of the ledger tells that a text was submitted to a pane.
pub open spec fn submits(
    record: MachineInputRecordView,
    run_id: Seq<char>,
    activation_id: Seq<char>,
    pane_id: Seq<char>,
    generation: u64,
    text: Seq<char>,
    projection: Seq<char>,
) -> bool {
    &&& record.run_id == run_id
    &&& record.activation_id == activation_id
    &&& record.pane_id == pane_id
    &&& record.allocation_generation == generation
    &&& record.normalized_text == normalized(projection)
    &&& record.payload_hash == payload_hash(text)
    &&& record.status == MachineInputStatus::Submitted
}

/// The transaction with which a text was submitted to a pane last.
pub open spec fn last_submission(
    records: Seq<MachineInputRecordView>,
    run_id: Seq<char>,
    activation_id: Seq<char>,
    pane_id: Seq<char>,
    generation: u64,
    text: Seq<char>,
    projection: Seq<char>,
) -> Option<Seq<char>>
    decreases records.len(),
{
    if records.len() == 0 {
        None
    } else if submits(
        records.last(),
        run_id,
        activation_id,
        pane_id,
        generation,
        text,
        projection,
    ) {
        Some(records.last().transaction_id)
    } else {
        last_submission(
            records.drop_last(),
            run_id,
            activation_id,
            pane_id,
            generation,
            text,
            projection,
        )
    }
}

/// Input that was submitted is found in the ledger by what was sent and what is shown of it.
pub proof fn lemma_sent_input_is_found(
    records: Seq<MachineInputRecordView>,
    attempt: AttemptView,
    request: InputRequestView,
    now_ms: u64,
)
    ensures
        last_submission(
            records.push(attempt.recorded(request, now_ms, MachineInputStatus::Submitted)),
            request.metadata.run_id,
            request.metadata.activation_id,
            request.metadata.pane_id,
            request.metadata.allocation_generation,
            request.text,
            request.shown(),
        ) == Some(attempt.transaction_id),
{
}

/// The transaction with which a text was submitted to a pane last, by the ledger.
pub fn submitted_machine_input(
    records: &Vec<MachineInputRecord>,
    run_id: &str,
    activation_id: &str,
    pane_id: &str,
    generation: u64,
    text: &str,
    projection: &str,
) -> (r: Option<String>)
    ensures
        r.deep_view() == last_submission(
            records.deep_view(),
            run_id@,
            activation_id@,
            pane_id@,
            generation,
            text@,
            projection@,
        ),
{
    let normalized_text = normalize_machine_input_text(projection);
    let hash = machine_input_payload_hash(text);
    let ghost model = records.deep_view();
    let mut i: usize = records.len();
    assert(model.take(i as int) =~= model);
    while i > 0
        invariant
            i <= records.len(),
            model == records.deep_view(),
            normalized_text@ == normalized(projection@),
            hash@ == payload_hash(text@),
            last_submission(
                model,
                run_id@,
                activation_id@,
                pane_id@,
                generation,
                text@,
                projection@,
            )
                == last_submission(
                model.take(i as int),
                run_id@,
                activation_id@,
                pane_id@,
                generation,
                text@,
                projection@,
            ),
        decreases i,
    {
        i -= 1;
        assert(model.take(i + 1).drop_last() =~= model.take(i as int));
        assert(model.take(i + 1).last() == records@[i as int].deep_view());
        let record = &records[i];
        if same(record.run_id.as_str(), run_id) && same(
            record.activation_id.as_str(),
            activation_id,
        ) && same(record.pane_id.as_str(), pane_id) && record.allocation_generation
            == generation && same(
            record.normalized_text.as_str(),
            normalized_text.as_str(),
        ) && same(record.payload_hash.as_str(), hash.as_str()) && record.status
            == MachineInputStatus::Submitted {
            return Some(record.transaction_id.clone());
        }
    }
    None
}

/// An activation that is to be put to work.
#[derive(Debug)]
pub struct ActuationTask {
    pub activation_id: String,
    pub node_id: String,
    pub driver: NodeDriver,
    pub pane: StoredPane,
    pub agent_command: String,
    pub actuation: DriverTmuxActuationConfig,
    pub prompt: String,
    /// Whether the agent is known to be launched.
    pub launched: bool,
    /// The launch of which it is not known whether it arrived.
    pub launch_pending: Option<AmbiguousDelivery>,
    /// The prompt of which it is not known whether it arrived.
    pub prompt_pending: Option<AmbiguousDelivery>,
}

#[verifier::ext_equal]
pub struct ActuationTaskView {
    pub activation_id: Seq<char>,
    pub node_id: Seq<char>,
    pub driver: NodeDriver,
    pub pane: StoredPaneView,
    pub agent_command: Seq<char>,
    pub actuation: DriverTmuxActuationConfigView,
    pub prompt: Seq<char>,
    pub launched: bool,
    pub launch_pending: Option<AmbiguousDeliveryView>,
    pub prompt_pending: Option<AmbiguousDeliveryView>,
}

impl DeepView for ActuationTask {
    type V = ActuationTaskView;

    open spec fn deep_view(&self) -> ActuationTaskView {
        ActuationTaskView {
            activation_id: self.activation_id@,
            node_id: self.node_id@,
            driver: self.driver,
            pane: self.pane.deep_view(),
            agent_command: self.agent_command@,
            actuation: self.actuation.deep_view(),
            prompt: self.prompt@,
            launched: self.launched,
            launch_pending: self.launch_pending.deep_view(),
            prompt_pending: self.prompt_pending.deep_view(),
        }
    }
}

/// How far an activation has come.
#[derive(Debug, Clone, Copy, PartialEq, Eq, Structural)]
pub enum ActuationStage {
    /// A helper is to be started on the pane.
    Capture,
    /// The participant is to be started.
    Participant,
    /// Whether the launch arrived is to be looked up.
    LaunchSearch,
    /// That the launch arrived after all is to be written down.
    LaunchRecover,
    /// The launch is to be begun.
    LaunchStart,
    /// The launch is to be sent.
    LaunchSend,
    /// The launch is to be recorded.
    LaunchRecord,
    /// That the launch arrived is to be written down.
    LaunchFinish,
    /// Whether the prompt arrived is to be looked up.
    PromptSearch,
    /// That the prompt arrived after all is to be written down.
    PromptRecover,
    /// Whether the participant is ready is to be found out.
    Readiness,
    /// The text that shows that the agent is ready is to be waited for.
    Marker,
    /// What the agent shows when it is ready is to be waited for.
    Surface,
    /// The prompt is to be begun.
    PromptStart,
    /// The prompt is to be sent.
    PromptSend,
    /// The prompt is to be recorded.
    PromptRecord,
    /// That the prompt arrived is to be written down.
    PromptFinish,
    /// Nothing is left to do.
    Over,
}

/// What is to be done next.
#[derive(Debug)]
pub enum ActuationAction {
    /// Start a helper on the pane, and tell the word that shows that the participant is ready.
    StartCapture,
    /// Start the participant with that word, and tell where its binding is.
    StartParticipant(String),
    /// Look a submission of a text up in the ledger, by what it is entered as.
    FindInput(String, String),
    /// Begin input of a role.
    StartDelivery(&'static str, String),
    /// Send a text, and enter it in the ledger as another.
    SendLaunch(String, String),
    /// Send a text, and submit it so often, to an agent with the given command, which is watched
    /// so many milliseconds for the sign that it took the text in.
    SendPrompt(String, usize, String, u64),
    /// Record the input that was sent.
    RecordInput(&'static str),
    /// Write down that input of a role arrived.
    FinishDelivery(&'static str, Json),
    /// Tell whether the participant is ready.
    ReadReadiness,
    /// Wait for a text, at most so many milliseconds.
    AwaitMarker(String, u64),
    /// Wait for what an agent with the given command shows, at most so many milliseconds.
    AwaitSurface(String, u64),
    /// Stop: this is what came of it.
    Finish(ActuationOutcome),
}

#[verifier::ext_equal]
pub enum ActuationActionView {
    StartCapture,
    StartParticipant(Seq<char>),
    FindInput(Seq<char>, Seq<char>),
    StartDelivery(Seq<char>, Seq<char>),
    SendLaunch(Seq<char>, Seq<char>),
    SendPrompt(Seq<char>, usize, Seq<char>, u64),
    RecordInput(Seq<char>),
    FinishDelivery(Seq<char>, JsonView),
    ReadReadiness,
    AwaitMarker(Seq<char>, u64),
    AwaitSurface(Seq<char>, u64),
    Finish(ActuationOutcomeView),
}

impl DeepView for ActuationAction {
    type V = ActuationActionView;

    open spec fn deep_view(&self) -> ActuationActionView {
        match self {
            ActuationAction::StartCapture => ActuationActionView::StartCapture,
            ActuationAction::StartParticipant(nonce) => ActuationActionView::StartParticipant(
                nonce@,
            ),
            ActuationAction::FindInput(text, projection) => ActuationActionView::FindInput(
                text@,
                projection@,
            ),
            ActuationAction::StartDelivery(role, text) => ActuationActionView::StartDelivery(
                role@,
                text@,
            ),
            ActuationAction::SendLaunch(text, projection) => ActuationActionView::SendLaunch(
                text@,
                projection@,
            ),
            ActuationAction::SendPrompt(text, count, command, timeout) =>
                ActuationActionView::SendPrompt(text@, *count, command@, *timeout),
            ActuationAction::RecordInput(role) => ActuationActionView::RecordInput(role@),
            ActuationAction::FinishDelivery(role, payload) => ActuationActionView::FinishDelivery(
                role@,
                payload@,
            ),
            ActuationAction::ReadReadiness => ActuationActionView::ReadReadiness,
            ActuationAction::AwaitMarker(pattern, timeout) => ActuationActionView::AwaitMarker(
                pattern@,
                *timeout,
            ),
            ActuationAction::AwaitSurface(command, timeout) => ActuationActionView::AwaitSurface(
                command@,
                *timeout,
            ),
            ActuationAction::Finish(outcome) => ActuationActionView::Finish(outcome.deep_view()),
        }
    }
}

/// What came of what was to be done.
#[derive(Debug)]
pub enum ActuationEvent {
    /// The word that shows that the participant is ready.
    Nonce(String),
    /// Where the program is that tells of an exit, and where the binding is.
    Participant(String, String),
    /// The transaction that was found.
    Found(Option<String>),
    /// The delivery that was begun.
    Begun(AmbiguousDelivery),
    /// The transaction that was sent, and the sign that it was taken in.
    Sent(String, Option<TmuxSubmissionAcceptance>),
    /// What is told of a participant that is ready.
    Ready(Option<Json>),
    /// The kind of agent that shows that it is ready, where it is known.
    Shown(Option<String>),
    Done,
    /// Why tmux refused.
    Refused(String),
    Failed(DriverFailure),
}

#[verifier::ext_equal]
pub enum ActuationEventView {
    Nonce(Seq<char>),
    Participant(Seq<char>, Seq<char>),
    Found(Option<Seq<char>>),
    Begun(AmbiguousDeliveryView),
    Sent(Seq<char>, Option<AcceptanceView>),
    Ready(Option<JsonView>),
    Shown(Option<Seq<char>>),
    Done,
    Refused(Seq<char>),
    Failed(FailureView),
}

impl DeepView for ActuationEvent {
    type V = ActuationEventView;

    open spec fn deep_view(&self) -> ActuationEventView {
        match self {
            ActuationEvent::Nonce(nonce) => ActuationEventView::Nonce(nonce@),
            ActuationEvent::Participant(hook_binary, binding_file) =>
                ActuationEventView::Participant(hook_binary@, binding_file@),
            ActuationEvent::Found(found) => ActuationEventView::Found(found.deep_view()),
            ActuationEvent::Begun(delivery) => ActuationEventView::Begun(delivery.deep_view()),
            ActuationEvent::Sent(transaction, sign) => ActuationEventView::Sent(
                transaction@,
                sign.deep_view(),
            ),
            ActuationEvent::Ready(ready) => ActuationEventView::Ready(
                match ready {
                    Some(told) => Some(told@),
                    None => None,
                },
            ),
            ActuationEvent::Shown(profile) => ActuationEventView::Shown(profile.deep_view()),
            ActuationEvent::Done => ActuationEventView::Done,
            ActuationEvent::Refused(text) => ActuationEventView::Refused(text@),
            ActuationEvent::Failed(failure) => ActuationEventView::Failed(failure.deep_view()),
        }
    }
}

/// An activation that is being put to work.
#[derive(Debug)]
pub struct ActuationMachine {
    task: ActuationTask,
    nonce: String,
    command: String,
    launch_transaction: Option<String>,
    prompt_transaction: String,
    acceptance: Option<TmuxSubmissionAcceptance>,
    readiness: Json,
    delivery: Option<AmbiguousDelivery>,
    outcome: Option<ActuationOutcome>,
    stage: ActuationStage,
}

#[verifier::ext_equal]
pub struct ActuationView {
    pub task: ActuationTaskView,
    /// The word that shows that the participant is ready.
    pub nonce: Seq<char>,
    /// The command that launches the agent.
    pub command: Seq<char>,
    pub launch_transaction: Option<Seq<char>>,
    pub prompt_transaction: Seq<char>,
    /// The sign that the prompt was taken in.
    pub acceptance: Option<AcceptanceView>,
    /// What is told of a participant that is ready.
    pub readiness: JsonView,
    /// The delivery that was begun last.
    pub delivery: Option<AmbiguousDeliveryView>,
    pub outcome: Option<ActuationOutcomeView>,
    pub stage: ActuationStage,
}

impl DeepView for ActuationMachine {
    type V = ActuationView;

    closed spec fn deep_view(&self) -> ActuationView {
        ActuationView {
            task: self.task.deep_view(),
            nonce: self.nonce@,
            command: self.command@,
            launch_transaction: self.launch_transaction.deep_view(),
            prompt_transaction: self.prompt_transaction@,
            acceptance: self.acceptance.deep_view(),
            readiness: self.readiness@,
            delivery: self.delivery.deep_view(),
            outcome: self.outcome.deep_view(),
            stage: self.stage,
        }
    }
}

/// What is told of a readiness that is waited for.
pub open spec fn readiness_pending(
    task: ActuationTaskView,
    message: Seq<char>,
    error: Option<Seq<char>>,
) -> JsonView {
    let told = no_fields()
        .push(("activation_id"@, JsonView::Text(task.activation_id)))
        .push(("pane_id"@, JsonView::Text(task.pane.pane_id)))
        .push(("allocation_generation"@, JsonView::Unsigned(task.pane.allocation_generation)))
        .push(("status"@, JsonView::Text("readiness_pending"@)))
        .push(("pause_required"@, JsonView::Bool(false)))
        .push(("message"@, JsonView::Text(message)));
    JsonView::Record(
        match error {
            Some(error) => told.push(("error"@, JsonView::Text(error))),
            None => told,
        },
    )
}

fn readiness_pending_json(task: &ActuationTask, message: &str, error: Option<&str>) -> (r: Json)
    ensures
        r@ == readiness_pending(task.deep_view(), message@, error.deep_view()),
{
    let told = Fields::new()
        .put("activation_id", Json::text(task.activation_id.as_str()))
        .put("pane_id", Json::text(task.pane.pane_id.as_str()))
        .put("allocation_generation", Json::Unsigned(task.pane.allocation_generation))
        .put("status", Json::text("readiness_pending"))
        .put("pause_required", Json::Bool(false))
        .put("message", Json::text(message));
    match error {
        Some(error) => told.put("error", Json::text(error)).done(),
        None => told.done(),
    }
}

/// What is written down of input that arrived after all.
pub open spec fn recovered_payload(pane_id: Seq<char>, transaction: Seq<char>) -> JsonView {
    JsonView::Record(
        no_fields()
            .push(("pane_id"@, JsonView::Text(pane_id)))
            .push(("transaction_id"@, JsonView::Text(transaction)))
            .push(("recovered"@, JsonView::Bool(true))),
    )
}

/// What is written down of a launch that arrived.
pub open spec fn launch_payload(pane_id: Seq<char>, transaction: Option<Seq<char>>) -> JsonView {
    JsonView::Record(
        no_fields()
            .push(("pane_id"@, JsonView::Text(pane_id)))
            .push(("transaction_id"@, option_text(transaction))),
    )
}

/// What is told of the sign that a prompt was taken in.
pub open spec fn acceptance_json(acceptance: Option<AcceptanceView>) -> JsonView {
    match acceptance {
        Some(sign) => JsonView::Record(
            no_fields().push(("profile"@, JsonView::Text(sign.profile))).push(
                ("signal"@, JsonView::Text(sign.signal)),
            ),
        ),
        None => JsonView::Null,
    }
}

fn acceptance_to_json(acceptance: &Option<TmuxSubmissionAcceptance>) -> (r: Json)
    ensures
        r@ == acceptance_json(acceptance.deep_view()),
{
    match acceptance {
        Some(sign) => Fields::new()
            .put("profile", Json::text(sign.profile()))
            .put("signal", Json::text(sign.signal()))
            .done(),
        None => Json::Null,
    }
}

/// What is written down of a prompt that arrived.
pub open spec fn prompt_payload(
    pane_id: Seq<char>,
    transaction: Seq<char>,
    acceptance: Option<AcceptanceView>,
) -> JsonView {
    JsonView::Record(
        no_fields()
            .push(("pane_id"@, JsonView::Text(pane_id)))
            .push(("transaction_id"@, JsonView::Text(transaction)))
            .push(("acceptance"@, acceptance_json(acceptance))),
    )
}

/// What is told first of a prompt that arrived.
pub open spec fn sent_start(view: ActuationView) -> Seq<(Seq<char>, JsonView)> {
    no_fields()
        .push(("activation_id"@, JsonView::Text(view.task.activation_id)))
        .push(("node_id"@, JsonView::Text(view.task.node_id)))
        .push(("driver"@, JsonView::Text(view.task.driver.name())))
        .push(("agent_command"@, JsonView::Text(view.task.agent_command)))
        .push(("agent_launch_transaction_id"@, option_text(view.launch_transaction)))
        .push(("prompt_transaction_id"@, JsonView::Text(view.prompt_transaction)))
}

/// What is told of a prompt that arrived.
pub open spec fn sent_report(view: ActuationView) -> JsonView {
    JsonView::Record(
        sent_start(view)
            .push(
                (
                    "prompt_submit_key_count"@,
                    JsonView::Unsigned(view.task.actuation.prompt_submit_key_count as u64),
                ),
            )
            .push(("readiness"@, view.readiness))
            .push(("pane_id"@, JsonView::Text(view.task.pane.pane_id)))
            .push(("session_id"@, JsonView::Text(view.task.pane.session_id)))
            .push(("window_id"@, JsonView::Text(view.task.pane.window_id)))
            .push(("window_name"@, JsonView::Text(view.task.pane.window_name))),
    )
}

/// What is told of a prompt that had arrived after all.
pub open spec fn recovered_report(view: ActuationView) -> JsonView {
    JsonView::Record(
        sent_start(view)
            .push(
                (
                    "readiness"@,
                    JsonView::Record(
                        no_fields().push(("status"@, JsonView::Text("submission_recovered"@))),
                    ),
                ),
            )
            .push(("pane_id"@, JsonView::Text(view.task.pane.pane_id)))
            .push(("session_id"@, JsonView::Text(view.task.pane.session_id)))
            .push(("window_id"@, JsonView::Text(view.task.pane.window_id)))
            .push(("window_name"@, JsonView::Text(view.task.pane.window_name)))
            .push(("recovered"@, JsonView::Bool(true))),
    )
}

impl ActuationView {
    pub open spec fn fresh(task: ActuationTaskView) -> ActuationView {
        ActuationView {
            task,
            nonce: Seq::empty(),
            command: Seq::empty(),
            launch_transaction: None,
            prompt_transaction: Seq::empty(),
            acceptance: None,
            readiness: JsonView::Null,
            delivery: None,
            outcome: None,
            stage: ActuationStage::Capture,
        }
    }

    pub open spec fn at(self, stage: ActuationStage) -> ActuationView {
        ActuationView { stage, ..self }
    }

    pub open spec fn over(self, outcome: ActuationOutcomeView) -> ActuationView {
        ActuationView { outcome: Some(outcome), stage: ActuationStage::Over, ..self }
    }

    /// Input may have arrived, and is not repeated.
    pub open spec fn barred(self, delivery: AmbiguousDeliveryView) -> ActuationView {
        self.over(
            ActuationOutcomeView::Warned(
                delivery_warning(delivery, self.task.node_id, self.task.driver.name()),
            ),
        )
    }

    /// tmux refused input, which may have arrived all the same.
    pub open spec fn refused(self, text: Seq<char>) -> ActuationView {
        match self.delivery {
            Some(delivery) => self.over(
                ActuationOutcomeView::Warned(
                    with_field(
                        delivery_warning(delivery, self.task.node_id, self.task.driver.name()),
                        "error"@,
                        JsonView::Text(text),
                    ),
                ),
            ),
            None => self,
        }
    }

    /// How it goes on to the launch.
    pub open spec fn launching(self) -> ActuationView {
        if self.task.launched {
            self.prompting()
        } else {
            match self.task.launch_pending {
                Some(delivery) => if delivery.pane_id == self.task.pane.pane_id {
                    self.at(ActuationStage::LaunchSearch)
                } else {
                    self.barred(delivery)
                },
                None => self.at(ActuationStage::LaunchStart),
            }
        }
    }

    /// How it goes on to the prompt.
    pub open spec fn prompting(self) -> ActuationView {
        match self.task.prompt_pending {
            Some(delivery) => if delivery.pane_id == self.task.pane.pane_id {
                self.at(ActuationStage::PromptSearch)
            } else {
                self.barred(delivery)
            },
            None => self.at(ActuationStage::Readiness),
        }
    }

    /// Where an activation is after an event.
    pub open spec fn advanced(self, event: ActuationEventView) -> ActuationView {
        match (self.stage, event) {
            (ActuationStage::Over, _) => self,
            (_, ActuationEventView::Failed(failure)) => self.over(
                ActuationOutcomeView::Failed(failure),
            ),
            (ActuationStage::Capture, ActuationEventView::Nonce(nonce)) => ActuationView {
                nonce,
                stage: ActuationStage::Participant,
                ..self
            },
            (
                ActuationStage::Participant,
                ActuationEventView::Participant(hook_binary, binding_file),
            ) => ActuationView {
                command: launch_command(self.task.agent_command, hook_binary, binding_file),
                ..self
            }.launching(),
            (ActuationStage::LaunchSearch, ActuationEventView::Found(found)) => match found {
                Some(transaction) => ActuationView {
                    launch_transaction: Some(transaction),
                    stage: ActuationStage::LaunchRecover,
                    ..self
                },
                None => match self.task.launch_pending {
                    Some(delivery) => self.barred(delivery),
                    None => self,
                },
            },
            (ActuationStage::LaunchRecover, ActuationEventView::Done) => self.prompting(),
            (ActuationStage::LaunchStart, ActuationEventView::Begun(delivery)) => ActuationView {
                delivery: Some(delivery),
                stage: ActuationStage::LaunchSend,
                ..self
            },
            (
                ActuationStage::LaunchSend,
                ActuationEventView::Sent(transaction, _),
            ) => ActuationView {
                launch_transaction: Some(transaction),
                stage: ActuationStage::LaunchRecord,
                ..self
            },
            (ActuationStage::LaunchSend, ActuationEventView::Refused(text)) => self.refused(text),
            (ActuationStage::LaunchRecord, ActuationEventView::Done) => self.at(
                ActuationStage::LaunchFinish,
            ),
            (ActuationStage::LaunchFinish, ActuationEventView::Done) => self.prompting(),
            (ActuationStage::PromptSearch, ActuationEventView::Found(found)) => match found {
                Some(transaction) => ActuationView {
                    prompt_transaction: transaction,
                    stage: ActuationStage::PromptRecover,
                    ..self
                },
                None => match self.task.prompt_pending {
                    Some(delivery) => self.barred(delivery),
                    None => self,
                },
            },
            (ActuationStage::PromptRecover, ActuationEventView::Done) => self.over(
                ActuationOutcomeView::Sent(recovered_report(self)),
            ),
            (ActuationStage::Readiness, ActuationEventView::Ready(ready)) => match ready {
                Some(told) => ActuationView {
                    readiness: told,
                    stage: if self.task.actuation.agent_ready_pattern is Some {
                        ActuationStage::Marker
                    } else {
                        ActuationStage::Surface
                    },
                    ..self
                },
                None => self.over(
                    ActuationOutcomeView::Warned(
                        readiness_pending(
                            self.task,
                            "participant SessionStart binding is pending"@,
                            None,
                        ),
                    ),
                ),
            },
            (ActuationStage::Marker, ActuationEventView::Done) => ActuationView {
                readiness: with_field(
                    self.readiness,
                    "tmux_marker"@,
                    JsonView::Text("observed"@),
                ),
                stage: ActuationStage::PromptStart,
                ..self
            },
            (ActuationStage::Marker, ActuationEventView::Refused(text)) => self.over(
                ActuationOutcomeView::Warned(
                    readiness_pending(
                        self.task,
                        "configured tmux readiness marker is pending"@,
                        Some(text),
                    ),
                ),
            ),
            (ActuationStage::Surface, ActuationEventView::Shown(profile)) => ActuationView {
                readiness: match profile {
                    Some(profile) => with_field(
                        with_field(self.readiness, "tmux_marker"@, JsonView::Text("observed"@)),
                        "tmux_profile"@,
                        JsonView::Text(profile),
                    ),
                    None => self.readiness,
                },
                stage: ActuationStage::PromptStart,
                ..self
            },
            (ActuationStage::Surface, ActuationEventView::Refused(text)) => self.over(
                ActuationOutcomeView::Warned(
                    readiness_pending(
                        self.task,
                        "inferred tmux input surface is pending"@,
                        Some(text),
                    ),
                ),
            ),
            (ActuationStage::PromptStart, ActuationEventView::Begun(delivery)) => ActuationView {
                delivery: Some(delivery),
                stage: ActuationStage::PromptSend,
                ..self
            },
            (ActuationStage::PromptSend, ActuationEventView::Sent(transaction, sign)) =>
                ActuationView {
                prompt_transaction: transaction,
                acceptance: sign,
                stage: ActuationStage::PromptRecord,
                ..self
            },
            (ActuationStage::PromptSend, ActuationEventView::Refused(text)) => self.refused(text),
            (ActuationStage::PromptRecord, ActuationEventView::Done) => self.at(
                ActuationStage::PromptFinish,
            ),
            (ActuationStage::PromptFinish, ActuationEventView::Done) => self.over(
                ActuationOutcomeView::Sent(sent_report(self)),
            ),
            (_, _) => self,
        }
    }

    /// Where an activation is after several events.
    pub open spec fn after(self, events: Seq<ActuationEventView>) -> ActuationView
        decreases events.len(),
    {
        if events.len() == 0 {
            self
        } else {
            self.after(events.drop_last()).advanced(events.last())
        }
    }

    /// The pane that the delivery went to of which it was not known whether it arrived.
    pub open spec fn pending_pane(self, pending: Option<AmbiguousDeliveryView>) -> Seq<char> {
        match pending {
            Some(delivery) => delivery.pane_id,
            None => self.task.pane.pane_id,
        }
    }

    /// What is to be done next.
    pub open spec fn action(self) -> ActuationActionView {
        let launch = DELIVERY_ROLE_AGENT_LAUNCH@;
        let prompt = DELIVERY_ROLE_NODE_PROMPT@;
        match self.stage {
            ActuationStage::Capture => ActuationActionView::StartCapture,
            ActuationStage::Participant => ActuationActionView::StartParticipant(self.nonce),
            ActuationStage::LaunchSearch => ActuationActionView::FindInput(
                self.command,
                AGENT_LAUNCH_LEDGER_PROJECTION@,
            ),
            ActuationStage::LaunchRecover => ActuationActionView::FinishDelivery(
                launch,
                recovered_payload(
                    self.pending_pane(self.task.launch_pending),
                    match self.launch_transaction {
                        Some(transaction) => transaction,
                        None => Seq::empty(),
                    },
                ),
            ),
            ActuationStage::LaunchStart => ActuationActionView::StartDelivery(launch, self.command),
            ActuationStage::LaunchSend => ActuationActionView::SendLaunch(
                self.command,
                AGENT_LAUNCH_LEDGER_PROJECTION@,
            ),
            ActuationStage::LaunchRecord => ActuationActionView::RecordInput(launch),
            ActuationStage::LaunchFinish => ActuationActionView::FinishDelivery(
                launch,
                launch_payload(self.task.pane.pane_id, self.launch_transaction),
            ),
            ActuationStage::PromptSearch => ActuationActionView::FindInput(
                self.task.prompt,
                self.task.prompt,
            ),
            ActuationStage::PromptRecover => ActuationActionView::FinishDelivery(
                prompt,
                recovered_payload(
                    self.pending_pane(self.task.prompt_pending),
                    self.prompt_transaction,
                ),
            ),
            ActuationStage::Readiness => ActuationActionView::ReadReadiness,
            ActuationStage::Marker => ActuationActionView::AwaitMarker(
                match self.task.actuation.agent_ready_pattern {
                    Some(pattern) => pattern,
                    None => Seq::empty(),
                },
                self.task.actuation.agent_ready_timeout_ms,
            ),
            ActuationStage::Surface => ActuationActionView::AwaitSurface(
                self.task.agent_command,
                self.task.actuation.agent_ready_timeout_ms,
            ),
            ActuationStage::PromptStart => ActuationActionView::StartDelivery(
                prompt,
                self.task.prompt,
            ),
            ActuationStage::PromptSend => ActuationActionView::SendPrompt(
                self.task.prompt,
                self.task.actuation.prompt_submit_key_count,
                self.task.agent_command,
                self.task.actuation.agent_ready_timeout_ms,
            ),
            ActuationStage::PromptRecord => ActuationActionView::RecordInput(prompt),
            ActuationStage::PromptFinish => ActuationActionView::FinishDelivery(
                prompt,
                prompt_payload(self.task.pane.pane_id, self.prompt_transaction, self.acceptance),
            ),
            ActuationStage::Over => ActuationActionView::Finish(
                match self.outcome {
                    Some(outcome) => outcome,
                    None => ActuationOutcomeView::Warned(JsonView::Null),
                },
            ),
        }
    }
}

impl ActuationMachine {
    /// Begins to put an activation to work.
    pub fn new(task: ActuationTask) -> (r: Self)
        ensures
            r.deep_view() == ActuationView::fresh(task.deep_view()),
    {
        let r = ActuationMachine {
            task,
            nonce: String::new(),
            command: String::new(),
            launch_transaction: None,
            prompt_transaction: String::new(),
            acceptance: None,
            readiness: Json::Null,
            delivery: None,
            outcome: None,
            stage: ActuationStage::Capture,
        };
        assert(r.nonce@ =~= Seq::<char>::empty());
        assert(r.command@ =~= Seq::<char>::empty());
        assert(r.prompt_transaction@ =~= Seq::<char>::empty());
        r
    }

    fn end(&mut self, outcome: ActuationOutcome)
        ensures
            final(self).deep_view() == old(self).deep_view().over(outcome.deep_view()),
    {
        self.outcome = Some(outcome);
        self.stage = ActuationStage::Over;
    }

    fn bar(&mut self, delivery: &AmbiguousDelivery)
        ensures
            final(self).deep_view() == old(self).deep_view().barred(delivery.deep_view()),
    {
        let warning = ambiguous_delivery_warning(
            delivery,
            self.task.node_id.as_str(),
            self.task.driver.as_str(),
        );
        self.end(ActuationOutcome::Warned(warning));
    }

    fn refuse(&mut self, text: &str)
        ensures
            final(self).deep_view() == old(self).deep_view().refused(text@),
    {
        let warning = match &self.delivery {
            Some(delivery) => ambiguous_delivery_warning(
                delivery,
                self.task.node_id.as_str(),
                self.task.driver.as_str(),
            ).with("error", Json::text(text)),
            None => return,
        };
        self.end(ActuationOutcome::Warned(warning));
    }

    fn launch(&mut self)
        ensures
            final(self).deep_view() == old(self).deep_view().launching(),
    {
        if self.task.launched {
            self.prompt();
            return;
        }
        match self.task.launch_pending.clone() {
            Some(delivery) => {
                if same(delivery.pane_id.as_str(), self.task.pane.pane_id.as_str()) {
                    self.stage = ActuationStage::LaunchSearch;
                } else {
                    self.bar(&delivery);
                }
            },
            None => {
                self.stage = ActuationStage::LaunchStart;
            },
        }
    }

    fn prompt(&mut self)
        ensures
            final(self).deep_view() == old(self).deep_view().prompting(),
    {
        match self.task.prompt_pending.clone() {
            Some(delivery) => {
                if same(delivery.pane_id.as_str(), self.task.pane.pane_id.as_str()) {
                    self.stage = ActuationStage::PromptSearch;
                } else {
                    self.bar(&delivery);
                }
            },
            None => {
                self.stage = ActuationStage::Readiness;
            },
        }
    }

    fn recovered(&self, pending: &Option<AmbiguousDelivery>, transaction: &str) -> (r: Json)
        ensures
            r@ == recovered_payload(
                self.deep_view().pending_pane(pending.deep_view()),
                transaction@,
            ),
    {
        let pane_id = match pending {
            Some(delivery) => delivery.pane_id.as_str(),
            None => self.task.pane.pane_id.as_str(),
        };
        Fields::new()
            .put("pane_id", Json::text(pane_id))
            .put("transaction_id", Json::text(transaction))
            .put("recovered", Json::Bool(true))
            .done()
    }

    /// What is to be done next.
    pub fn action(&self) -> (r: ActuationAction)
        ensures
            r.deep_view() == self.deep_view().action(),
    {
        match self.stage {
            ActuationStage::Capture => ActuationAction::StartCapture,
            ActuationStage::Participant => ActuationAction::StartParticipant(self.nonce.clone()),
            ActuationStage::LaunchSearch => ActuationAction::FindInput(
                self.command.clone(),
                AGENT_LAUNCH_LEDGER_PROJECTION.to_string(),
            ),
            ActuationStage::LaunchRecover => {
                let none = String::new();
                assert(none@ =~= Seq::<char>::empty());
                let transaction = match &self.launch_transaction {
                    Some(transaction) => transaction.as_str(),
                    None => none.as_str(),
                };
                ActuationAction::FinishDelivery(
                    DELIVERY_ROLE_AGENT_LAUNCH,
                    self.recovered(&self.task.launch_pending, transaction),
                )
            },
            ActuationStage::LaunchStart => ActuationAction::StartDelivery(
                DELIVERY_ROLE_AGENT_LAUNCH,
                self.command.clone(),
            ),
            ActuationStage::LaunchSend => ActuationAction::SendLaunch(
                self.command.clone(),
                AGENT_LAUNCH_LEDGER_PROJECTION.to_string(),
            ),
            ActuationStage::LaunchRecord => ActuationAction::RecordInput(
                DELIVERY_ROLE_AGENT_LAUNCH,
            ),
            ActuationStage::LaunchFinish => ActuationAction::FinishDelivery(
                DELIVERY_ROLE_AGENT_LAUNCH,
                Fields::new()
                    .put("pane_id", Json::text(self.task.pane.pane_id.as_str()))
                    .put("transaction_id", option_text_json(&self.launch_transaction))
                    .done(),
            ),
            ActuationStage::PromptSearch => ActuationAction::FindInput(
                self.task.prompt.clone(),
                self.task.prompt.clone(),
            ),
            ActuationStage::PromptRecover => ActuationAction::FinishDelivery(
                DELIVERY_ROLE_NODE_PROMPT,
                self.recovered(&self.task.prompt_pending, self.prompt_transaction.as_str()),
            ),
            ActuationStage::Readiness => ActuationAction::ReadReadiness,
            ActuationStage::Marker => {
                let pattern = match &self.task.actuation.agent_ready_pattern {
                    Some(pattern) => pattern.clone(),
                    None => {
                        let none = String::new();
                        assert(none@ =~= Seq::<char>::empty());
                        none
                    },
                };
                ActuationAction::AwaitMarker(pattern, self.task.actuation.agent_ready_timeout_ms)
            },
            ActuationStage::Surface => ActuationAction::AwaitSurface(
                self.task.agent_command.clone(),
                self.task.actuation.agent_ready_timeout_ms,
            ),
            ActuationStage::PromptStart => ActuationAction::StartDelivery(
                DELIVERY_ROLE_NODE_PROMPT,
                self.task.prompt.clone(),
            ),
            ActuationStage::PromptSend => ActuationAction::SendPrompt(
                self.task.prompt.clone(),
                self.task.actuation.prompt_submit_key_count,
                self.task.agent_command.clone(),
                self.task.actuation.agent_ready_timeout_ms,
            ),
            ActuationStage::PromptRecord => ActuationAction::RecordInput(
                DELIVERY_ROLE_NODE_PROMPT,
            ),
            ActuationStage::PromptFinish => ActuationAction::FinishDelivery(
                DELIVERY_ROLE_NODE_PROMPT,
                Fields::new()
                    .put("pane_id", Json::text(self.task.pane.pane_id.as_str()))
                    .put("transaction_id", Json::text(self.prompt_transaction.as_str()))
                    .put("acceptance", acceptance_to_json(&self.acceptance))
                    .done(),
            ),
            ActuationStage::Over => ActuationAction::Finish(
                match &self.outcome {
                    Some(outcome) => outcome.clone(),
                    None => ActuationOutcome::Warned(Json::Null),
                },
            ),
        }
    }

    fn report_start(&self) -> (r: Fields)
        ensures
            r@ == sent_start(self.deep_view()),
    {
        Fields::new()
            .put("activation_id", Json::text(self.task.activation_id.as_str()))
            .put("node_id", Json::text(self.task.node_id.as_str()))
            .put("driver", Json::text(self.task.driver.as_str()))
            .put("agent_command", Json::text(self.task.agent_command.as_str()))
            .put("agent_launch_transaction_id", option_text_json(&self.launch_transaction))
            .put("prompt_transaction_id", Json::text(self.prompt_transaction.as_str()))
    }

    fn sent_report(&self) -> (r: Json)
        ensures
            r@ == sent_report(self.deep_view()),
    {
        self.report_start()
            .put(
                "prompt_submit_key_count",
                Json::Unsigned(self.task.actuation.prompt_submit_key_count as u64),
            )
            .put("readiness", self.readiness.clone())
            .put("pane_id", Json::text(self.task.pane.pane_id.as_str()))
            .put("session_id", Json::text(self.task.pane.session_id.as_str()))
            .put("window_id", Json::text(self.task.pane.window_id.as_str()))
            .put("window_name", Json::text(self.task.pane.window_name.as_str()))
            .done()
    }

    fn recovered_report(&self) -> (r: Json)
        ensures
            r@ == recovered_report(self.deep_view()),
    {
        self.report_start()
            .put(
                "readiness",
                Fields::new().put("status", Json::text("submission_recovered")).done(),
            )
            .put("pane_id", Json::text(self.task.pane.pane_id.as_str()))
            .put("session_id", Json::text(self.task.pane.session_id.as_str()))
            .put("window_id", Json::text(self.task.pane.window_id.as_str()))
            .put("window_name", Json::text(self.task.pane.window_name.as_str()))
            .put("recovered", Json::Bool(true))
            .done()
    }

    fn advance_done(&mut self)
        ensures
            final(self).deep_view() == old(self).deep_view().advanced(ActuationEventView::Done),
    {
        match self.stage {
            ActuationStage::LaunchRecover => {
                self.prompt();
            },
            ActuationStage::LaunchRecord => {
                self.stage = ActuationStage::LaunchFinish;
            },
            ActuationStage::LaunchFinish => {
                self.prompt();
            },
            ActuationStage::PromptRecover => {
                let report = self.recovered_report();
                self.end(ActuationOutcome::Sent(report));
            },
            ActuationStage::Marker => {
                self.readiness = self.readiness.clone().with("tmux_marker", Json::text("observed"));
                self.stage = ActuationStage::PromptStart;
            },
            ActuationStage::PromptRecord => {
                self.stage = ActuationStage::PromptFinish;
            },
            ActuationStage::PromptFinish => {
                let report = self.sent_report();
                self.end(ActuationOutcome::Sent(report));
            },
            _ => {},
        }
    }

    fn advance_refused(&mut self, text: &str)
        ensures
            final(self).deep_view() == old(self).deep_view().advanced(
                ActuationEventView::Refused(text@),
            ),
    {
        match self.stage {
            ActuationStage::LaunchSend => {
                self.refuse(text);
            },
            ActuationStage::PromptSend => {
                self.refuse(text);
            },
            ActuationStage::Marker => {
                let warning = readiness_pending_json(
                    &self.task,
                    "configured tmux readiness marker is pending",
                    Some(text),
                );
                self.end(ActuationOutcome::Warned(warning));
            },
            ActuationStage::Surface => {
                let warning = readiness_pending_json(
                    &self.task,
                    "inferred tmux input surface is pending",
                    Some(text),
                );
                self.end(ActuationOutcome::Warned(warning));
            },
            _ => {},
        }
    }

    fn advance_found(&mut self, found: Option<String>)
        ensures
            final(self).deep_view() == old(self).deep_view().advanced(
                ActuationEventView::Found(found.deep_view()),
            ),
    {
        match self.stage {
            ActuationStage::LaunchSearch => {
                match found {
                    Some(transaction) => {
                        self.launch_transaction = Some(transaction);
                        self.stage = ActuationStage::LaunchRecover;
                    },
                    None => {
                        if let Some(delivery) = self.task.launch_pending.clone() {
                            self.bar(&delivery);
                        }
                    },
                }
            },
            ActuationStage::PromptSearch => {
                match found {
                    Some(transaction) => {
                        self.prompt_transaction = transaction;
                        self.stage = ActuationStage::PromptRecover;
                    },
                    None => {
                        if let Some(delivery) = self.task.prompt_pending.clone() {
                            self.bar(&delivery);
                        }
                    },
                }
            },
            _ => {},
        }
    }

    fn advance_ready(&mut self, ready: Option<Json>)
        ensures
            final(self).deep_view() == old(self).deep_view().advanced(
                ActuationEventView::Ready(
                    match ready {
                        Some(told) => Some(told@),
                        None => None,
                    },
                ),
            ),
    {
        if let ActuationStage::Readiness = self.stage {
            match ready {
                Some(told) => {
                    self.readiness = told;
                    self.stage = if self.task.actuation.agent_ready_pattern.is_some() {
                        ActuationStage::Marker
                    } else {
                        ActuationStage::Surface
                    };
                },
                None => {
                    let warning = readiness_pending_json(
                        &self.task,
                        "participant SessionStart binding is pending",
                        None,
                    );
                    self.end(ActuationOutcome::Warned(warning));
                },
            }
        }
    }

    /// Goes on with what came of what was to be done. What does not answer it is passed over.
    pub fn advance(&mut self, event: ActuationEvent)
        ensures
            final(self).deep_view() == old(self).deep_view().advanced(event.deep_view()),
    {
        match event {
            ActuationEvent::Failed(failure) => {
                match self.stage {
                    ActuationStage::Over => {},
                    _ => {
                        self.end(ActuationOutcome::Failed(failure));
                    },
                }
            },
            ActuationEvent::Nonce(nonce) => {
                if let ActuationStage::Capture = self.stage {
                    self.nonce = nonce;
                    self.stage = ActuationStage::Participant;
                }
            },
            ActuationEvent::Participant(hook_binary, binding_file) => {
                if let ActuationStage::Participant = self.stage {
                    self.command = agent_launch_command(
                        self.task.agent_command.as_str(),
                        hook_binary.as_str(),
                        binding_file.as_str(),
                    );
                    self.launch();
                }
            },
            ActuationEvent::Found(found) => {
                self.advance_found(found);
            },
            ActuationEvent::Begun(delivery) => {
                match self.stage {
                    ActuationStage::LaunchStart => {
                        self.delivery = Some(delivery);
                        self.stage = ActuationStage::LaunchSend;
                    },
                    ActuationStage::PromptStart => {
                        self.delivery = Some(delivery);
                        self.stage = ActuationStage::PromptSend;
                    },
                    _ => {},
                }
            },
            ActuationEvent::Sent(transaction, sign) => {
                match self.stage {
                    ActuationStage::LaunchSend => {
                        self.launch_transaction = Some(transaction);
                        self.stage = ActuationStage::LaunchRecord;
                    },
                    ActuationStage::PromptSend => {
                        self.prompt_transaction = transaction;
                        self.acceptance = sign;
                        self.stage = ActuationStage::PromptRecord;
                    },
                    _ => {},
                }
            },
            ActuationEvent::Ready(ready) => {
                self.advance_ready(ready);
            },
            ActuationEvent::Shown(profile) => {
                if let ActuationStage::Surface = self.stage {
                    if let Some(profile) = profile {
                        self.readiness = self.readiness.clone().with(
                            "tmux_marker",
                            Json::text("observed"),
                        ).with("tmux_profile", Json::text(profile.as_str()));
                    }
                    self.stage = ActuationStage::PromptStart;
                }
            },
            ActuationEvent::Done => {
                self.advance_done();
            },
            ActuationEvent::Refused(text) => {
                self.advance_refused(text.as_str());
            },
        }
    }
}

/// Whether an activation is at, or past, the point where its agent is launched.
spec fn past_launch(stage: ActuationStage) -> bool {
    match stage {
        ActuationStage::PromptSearch => true,
        ActuationStage::PromptRecover => true,
        ActuationStage::Readiness => true,
        ActuationStage::Marker => true,
        ActuationStage::Surface => true,
        ActuationStage::PromptStart => true,
        ActuationStage::PromptSend => true,
        ActuationStage::PromptRecord => true,
        ActuationStage::PromptFinish => true,
        _ => false,
    }
}

spec fn in_launch(stage: ActuationStage) -> bool {
    match stage {
        ActuationStage::LaunchStart => true,
        ActuationStage::LaunchSend => true,
        ActuationStage::LaunchRecord => true,
        ActuationStage::LaunchFinish => true,
        _ => false,
    }
}

spec fn in_prompt(stage: ActuationStage) -> bool {
    match stage {
        ActuationStage::Readiness => true,
        ActuationStage::Marker => true,
        ActuationStage::Surface => true,
        ActuationStage::PromptStart => true,
        ActuationStage::PromptSend => true,
        ActuationStage::PromptRecord => true,
        ActuationStage::PromptFinish => true,
        _ => false,
    }
}

/// What holds of an activation at every stage.
spec fn sound(view: ActuationView) -> bool {
    &&& in_launch(view.stage) ==> view.task.launch_pending is None && !view.task.launched
    &&& in_prompt(view.stage) ==> view.task.prompt_pending is None
    &&& view.stage == ActuationStage::LaunchSearch || view.stage == ActuationStage::LaunchRecover
        ==> view.task.launch_pending is Some
    &&& view.stage == ActuationStage::PromptSearch || view.stage == ActuationStage::PromptRecover
        ==> view.task.prompt_pending is Some
    &&& view.stage == ActuationStage::LaunchRecover || view.stage == ActuationStage::LaunchRecord
        || view.stage == ActuationStage::LaunchFinish ==> view.launch_transaction is Some
    &&& past_launch(view.stage) && !view.task.launched ==> view.launch_transaction is Some
    &&& view.stage == ActuationStage::LaunchSend || view.stage == ActuationStage::PromptSend
        ==> view.delivery is Some
    &&& view.stage == ActuationStage::Marker ==> view.task.actuation.agent_ready_pattern is Some
    &&& (view.stage == ActuationStage::Over) == (view.outcome is Some)
}

proof fn lemma_sound(task: ActuationTaskView, events: Seq<ActuationEventView>)
    ensures
        sound(ActuationView::fresh(task).after(events)),
        ActuationView::fresh(task).after(events).task == task,
    decreases events.len(),
{
    if events.len() > 0 {
        lemma_sound(task, events.drop_last());
    }
}

pub(crate) proof fn lemma_task_stays(task: ActuationTaskView, events: Seq<ActuationEventView>)
    ensures
        ActuationView::fresh(task).after(events).task == task,
{
    lemma_sound(task, events);
}

/// Input that may have arrived is not repeated: no agent is launched while a launch is open,
/// nor after one arrived, and no prompt is sent while one is open.
pub proof fn lemma_open_input_is_not_repeated(
    task: ActuationTaskView,
    events: Seq<ActuationEventView>,
)
    ensures
        ({
            let action = ActuationView::fresh(task).after(events).action();
            &&& action is SendLaunch ==> task.launch_pending is None && !task.launched
            &&& action is SendPrompt ==> task.prompt_pending is None
        }),
{
    lemma_sound(task, events);
}

/// A prompt is sent only to an agent that is known to be launched, and its delivery is begun
/// before.
pub proof fn lemma_prompt_follows_launch(task: ActuationTaskView, events: Seq<ActuationEventView>)
    ensures
        ({
            let view = ActuationView::fresh(task).after(events);
            &&& view.action() is SendPrompt ==> (task.launched || view.launch_transaction is Some)
                && view.delivery is Some
            &&& view.action() is SendLaunch ==> view.delivery is Some
        }),
{
    lemma_sound(task, events);
}

/// A readiness that is waited for does not pause the run.
pub proof fn lemma_pending_readiness_does_not_pause(
    task: ActuationTaskView,
    message: Seq<char>,
    error: Option<Seq<char>>,
)
    ensures
        flag_field(readiness_pending(task, message, error), "pause_required"@) == Some(false),
{
    reveal_strlit("pause_required");
    reveal_strlit("message");
    reveal_strlit("error");
    assert("pause_required"@.len() == 14);
    assert("message"@.len() == 7);
    assert("error"@.len() == 5);
    let told = no_fields()
        .push(("activation_id"@, JsonView::Text(task.activation_id)))
        .push(("pane_id"@, JsonView::Text(task.pane.pane_id)))
        .push(("allocation_generation"@, JsonView::Unsigned(task.pane.allocation_generation)))
        .push(("status"@, JsonView::Text("readiness_pending"@)));
    let flag = ("pause_required"@, JsonView::Bool(false));
    let text = ("message"@, JsonView::Text(message));
    let key = "pause_required"@;
    super::fields::lemma_lookup_push(told, key, JsonView::Bool(false), key);
    super::fields::lemma_lookup_push(told.push(flag), "message"@, JsonView::Text(message), key);
    match error {
        Some(error) => {
            super::fields::lemma_lookup_push(
                told.push(flag).push(text),
                "error"@,
                JsonView::Text(error),
                key,
            );
        },
        None => {},
    }
}

} // verus!
