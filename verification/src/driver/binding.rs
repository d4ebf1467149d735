//! How a run is bound to a flow: what is asked for, whether it stands, and the steps in which a
//! run is started.
use vstd::prelude::*;

use crate::flow::lock::{FlowLock, FlowLockView};
use crate::json::{field, Json, JsonView};

use super::failure::{result_of, DriverFailure, FailureView};
use super::lifecycle::{running_activation_ids, running_in, Activation, ActivationView};
use super::operation::{
    activations_of, bind_run_report, bind_run_response, binding_conflict, binding_stands,
    bound_flow_lock, bound_lock, check_run_binding, missing_package, package_missing,
    run_activation_ids, RunBinding, RunBindingView,
};
use super::request::{
    activation_limit_from_request, asked_activation_limit, asked_mode, asked_stop_limit,
    first_nodes, initial_node_specs, run_mode_from_request, stop_attempt_limit_from_request,
    NodeSpec, NodeSpecView,
};
use super::revision::{
    named_review, reading, review_fault, revision_fault, FlowReview, FlowReviewView, StoredFlowRevision,
    StoredRevisionView,
};
use super::wire::{RunMode, RunStatus};

verus! {

broadcast use vstd::string::group_string_axioms;

/// A run that was bound before.
#[derive(Debug)]
pub struct KnownRun {
    pub flow_lock_id: Option<String>,
    pub content_hash: Option<String>,
    pub run_mode: Option<RunMode>,
    pub initial_activation_limit: Option<u64>,
    pub stop_attempt_limit: Option<u32>,
    pub activations: Vec<Activation>,
}

#[verifier::ext_equal]
pub struct KnownRunView {
    pub flow_lock_id: Option<Seq<char>>,
    pub content_hash: Option<Seq<char>>,
    pub run_mode: Option<RunMode>,
    pub initial_activation_limit: Option<u64>,
    pub stop_attempt_limit: Option<u32>,
    pub activations: Seq<ActivationView>,
}

impl DeepView for KnownRun {
    type V = KnownRunView;

    open spec fn deep_view(&self) -> KnownRunView {
        KnownRunView {
            flow_lock_id: self.flow_lock_id.deep_view(),
            content_hash: self.content_hash.deep_view(),
            run_mode: self.run_mode,
            initial_activation_limit: self.initial_activation_limit,
            stop_attempt_limit: self.stop_attempt_limit,
            activations: self.activations.deep_view(),
        }
    }
}

/// A run as it is to be bound.
#[derive(Debug)]
pub struct BindPlan {
    pub run_id: String,
    pub run_mode: RunMode,
    pub activation_limit: u64,
    pub stop_attempt_limit: u32,
    pub package: StoredFlowRevision,
    /// Whether the run is still to be started.
    pub fresh: bool,
    /// The nodes that it is started with.
    pub nodes: Vec<NodeSpec>,
    /// The activations that are told.
    pub activation_ids: Vec<String>,
    /// The activations that panes are for.
    pub pane_ids: Vec<String>,
}

#[verifier::ext_equal]
pub struct BindPlanView {
    pub run_id: Seq<char>,
    pub run_mode: RunMode,
    pub activation_limit: u64,
    pub stop_attempt_limit: u32,
    pub package: StoredRevisionView,
    pub fresh: bool,
    pub nodes: Seq<NodeSpecView>,
    pub activation_ids: Seq<Seq<char>>,
    pub pane_ids: Seq<Seq<char>>,
}

impl DeepView for BindPlan {
    type V = BindPlanView;

    open spec fn deep_view(&self) -> BindPlanView {
        BindPlanView {
            run_id: self.run_id@,
            run_mode: self.run_mode,
            activation_limit: self.activation_limit,
            stop_attempt_limit: self.stop_attempt_limit,
            package: self.package.deep_view(),
            fresh: self.fresh,
            nodes: self.nodes.deep_view(),
            activation_ids: self.activation_ids.deep_view(),
            pane_ids: self.pane_ids.deep_view(),
        }
    }
}

/// The lock that a request gives, if a review allows it.
pub open spec fn given_package(
    request: JsonView,
    parsed: Result<FlowLockView, Seq<char>>,
    loaded: Result<FlowReviewView, Seq<char>>,
) -> Result<StoredRevisionView, FailureView> {
    match revision_fault(request, parsed, loaded) {
        Some(failure) => Err(failure),
        None => Ok(
            StoredRevisionView {
                flow_lock: parsed->Ok_0,
                review_id: named_review(request)->0,
            },
        ),
    }
}

pub fn take_package(
    request: &Json,
    parsed: Result<FlowLock, String>,
    loaded: Result<FlowReview, String>,
) -> (r: Result<StoredFlowRevision, DriverFailure>)
    ensures
        result_of(r) == given_package(request@, reading(parsed), reading(loaded)),
{
    let made = StoredFlowRevision::from_request(request, parsed, loaded);
    proof {
        if made is Ok {
            assert(made->Ok_0.deep_view() =~= given_package(
                request@,
                reading(parsed),
                reading(loaded),
            )->Ok_0);
        }
    }
    made
}

/// How a run that was bound before is bound again: to the lock that the request gives, or to the
/// one that is held; and only as it is bound already.
pub open spec fn rebound(
    run_id: Seq<char>,
    request: JsonView,
    known: KnownRunView,
    held: Option<StoredRevisionView>,
    parsed: Result<FlowLockView, Seq<char>>,
    loaded: Result<FlowReviewView, Seq<char>>,
    run_mode: RunMode,
    activation_limit: u64,
    stop_attempt_limit: u32,
) -> Result<BindPlanView, FailureView> {
    match bound_lock(known.flow_lock_id, known.content_hash) {
        Err(failure) => Err(failure),
        Ok((lock_id, content_hash)) => {
            let package = if field(request, "flow_lock"@) is Some {
                given_package(request, parsed, loaded)
            } else {
                match held {
                    Some(package) => Ok(package),
                    None => Err(package_missing()),
                }
            };
            match package {
                Err(failure) => Err(failure),
                Ok(package) => if binding_stands(
                    RunBindingView {
                        flow_lock_id: lock_id,
                        content_hash,
                        run_mode: known.run_mode,
                        initial_activation_limit: known.initial_activation_limit,
                        stop_attempt_limit: known.stop_attempt_limit,
                    },
                    package.flow_lock.id,
                    package.flow_lock.content_hash,
                    run_mode,
                    activation_limit,
                    stop_attempt_limit,
                ) {
                    Ok(
                        BindPlanView {
                            run_id,
                            run_mode,
                            activation_limit,
                            stop_attempt_limit,
                            package,
                            fresh: false,
                            nodes: Seq::empty(),
                            activation_ids: activations_of(known.activations, run_id),
                            pane_ids: running_in(known.activations, run_id),
                        },
                    )
                } else {
                    Err(
                        binding_conflict(
                            "existing run is bound to a different immutable flow lock or run configuration"@,
                        ),
                    )
                },
            }
        },
    }
}

/// The names of nodes.
pub open spec fn names_of(nodes: Seq<NodeSpecView>) -> Seq<Seq<char>> {
    Seq::new(nodes.len(), |i: int| nodes[i].id)
}

/// How a run is bound: a new one is started with the first nodes of its flow, one that was bound
/// before stays as it is.
pub open spec fn bind_decision(
    run_id: Seq<char>,
    request: JsonView,
    known: Option<KnownRunView>,
    held: Option<StoredRevisionView>,
    parsed: Result<FlowLockView, Seq<char>>,
    loaded: Result<FlowReviewView, Seq<char>>,
) -> Result<BindPlanView, FailureView> {
    match (asked_mode(request), asked_activation_limit(request), asked_stop_limit(request)) {
        (Err(failure), _, _) => Err(failure),
        (_, Err(failure), _) => Err(failure),
        (_, _, Err(failure)) => Err(failure),
        (Ok(run_mode), Ok(activation_limit), Ok(stop_attempt_limit)) => match known {
            Some(known) => rebound(
                run_id,
                request,
                known,
                held,
                parsed,
                loaded,
                run_mode,
                activation_limit,
                stop_attempt_limit,
            ),
            None => match given_package(request, parsed, loaded) {
                Err(failure) => Err(failure),
                Ok(package) => {
                    let nodes = first_nodes(package.flow_lock.draft);
                    Ok(
                        BindPlanView {
                            run_id,
                            run_mode,
                            activation_limit,
                            stop_attempt_limit,
                            package,
                            fresh: true,
                            nodes,
                            activation_ids: names_of(nodes),
                            pane_ids: names_of(nodes),
                        },
                    )
                },
            },
        },
    }
}

fn node_names(nodes: &Vec<NodeSpec>) -> (r: Vec<String>)
    ensures
        r.deep_view() == names_of(nodes.deep_view()),
{
    let ghost model = nodes.deep_view();
    let mut out: Vec<String> = Vec::new();
    let mut i: usize = 0;
    while i < nodes.len()
        invariant
            i <= nodes.len(),
            model == nodes.deep_view(),
            out.len() == i,
            forall|j: int| 0 <= j < i ==> (#[trigger] out@[j])@ == model[j].id,
        decreases nodes.len() - i,
    {
        out.push(nodes[i].id.clone());
        i += 1;
    }
    assert(out.deep_view() =~= names_of(model));
    out
}

/// How a run is bound, from what is known of it, the lock that is held for it, and what was read
/// of the lock and the review that a request gives.
pub fn bind_run(
    run_id: &str,
    request: &Json,
    known: Option<&KnownRun>,
    held: Option<StoredFlowRevision>,
    parsed: Result<FlowLock, String>,
    loaded: Result<FlowReview, String>,
) -> (r: Result<BindPlan, DriverFailure>)
    ensures
        result_of(r) == bind_decision(
            run_id@,
            request@,
            match known {
                Some(known) => Some(known.deep_view()),
                None => None,
            },
            held.deep_view(),
            reading(parsed),
            reading(loaded),
        ),
{
    let run_mode = match run_mode_from_request(request) {
        Ok(mode) => mode,
        Err(failure) => return Err(failure),
    };
    let activation_limit = match activation_limit_from_request(request) {
        Ok(limit) => limit,
        Err(failure) => return Err(failure),
    };
    let stop_attempt_limit = match stop_attempt_limit_from_request(request) {
        Ok(limit) => limit,
        Err(failure) => return Err(failure),
    };
    let known = match known {
        Some(known) => known,
        None => {
            let package = match take_package(request, parsed, loaded) {
                Ok(package) => package,
                Err(failure) => return Err(failure),
            };
            let nodes = initial_node_specs(package.lock().draft());
            let activation_ids = node_names(&nodes);
            let pane_ids = node_names(&nodes);
            return Ok(
                BindPlan {
                    run_id: run_id.to_string(),
                    run_mode,
                    activation_limit,
                    stop_attempt_limit,
                    package,
                    fresh: true,
                    nodes,
                    activation_ids,
                    pane_ids,
                },
            );
        },
    };
    let (lock_id, content_hash) = match bound_flow_lock(&known.flow_lock_id, &known.content_hash) {
        Ok(bound) => bound,
        Err(failure) => return Err(failure),
    };
    let package = if request.get("flow_lock").is_some() {
        match take_package(request, parsed, loaded) {
            Ok(package) => package,
            Err(failure) => return Err(failure),
        }
    } else {
        match held {
            Some(package) => package,
            None => return Err(missing_package()),
        }
    };
    let bound = RunBinding {
        flow_lock_id: lock_id,
        content_hash,
        run_mode: known.run_mode,
        initial_activation_limit: known.initial_activation_limit,
        stop_attempt_limit: known.stop_attempt_limit,
    };
    if let Err(failure) = check_run_binding(
        &bound,
        package.lock_id(),
        package.content_hash(),
        run_mode,
        activation_limit,
        stop_attempt_limit,
    ) {
        return Err(failure);
    }
    let nodes: Vec<NodeSpec> = Vec::new();
    assert(nodes.deep_view() =~= Seq::<NodeSpecView>::empty());
    Ok(
        BindPlan {
            run_id: run_id.to_string(),
            run_mode,
            activation_limit,
            stop_attempt_limit,
            package,
            fresh: false,
            nodes,
            activation_ids: run_activation_ids(&known.activations, run_id),
            pane_ids: running_activation_ids(&known.activations, run_id),
        },
    )
}

/// A run that was bound before is not started again, and keeps its lock and its configuration.
pub proof fn lemma_bound_runs_stay(
    run_id: Seq<char>,
    request: JsonView,
    known: KnownRunView,
    held: Option<StoredRevisionView>,
    parsed: Result<FlowLockView, Seq<char>>,
    loaded: Result<FlowReviewView, Seq<char>>,
)
    ensures
        match bind_decision(run_id, request, Some(known), held, parsed, loaded) {
            Ok(plan) => {
                &&& !plan.fresh
                &&& plan.nodes.len() == 0
                &&& known.flow_lock_id == Some(plan.package.flow_lock.id)
                &&& known.content_hash == Some(plan.package.flow_lock.content_hash)
                &&& known.run_mode == Some(plan.run_mode)
                &&& known.initial_activation_limit == Some(plan.activation_limit)
                &&& known.stop_attempt_limit == Some(plan.stop_attempt_limit)
            },
            Err(_) => true,
        },
{
}

/// A new run is started only with the lock that its request gives and that a review allows.
pub proof fn lemma_new_runs_are_allowed(
    run_id: Seq<char>,
    request: JsonView,
    held: Option<StoredRevisionView>,
    parsed: Result<FlowLockView, Seq<char>>,
    loaded: Result<FlowReviewView, Seq<char>>,
)
    ensures
        match bind_decision(run_id, request, None, held, parsed, loaded) {
            Ok(plan) => {
                &&& plan.fresh
                &&& parsed == Ok::<FlowLockView, Seq<char>>(plan.package.flow_lock)
                &&& loaded is Ok
                &&& review_fault(loaded->Ok_0, plan.package.flow_lock) is None
            },
            Err(_) => true,
        },
{
}

/// How far the binding of a run has come.
#[derive(Debug, Clone, Copy, PartialEq, Eq, Structural)]
pub enum BindStage {
    Write,
    Start,
    Apply,
    Run,
    Activate(usize),
    Tick,
    Commit,
    Publish,
    Show,
    Panes,
    Look,
    Over,
}

/// What is to be done next to bind a run.
#[derive(Debug, Clone, Copy, PartialEq, Eq, Structural)]
pub enum BindAction {
    /// Write the lock down.
    WriteRevision,
    /// Start the run, with its mode and its limits.
    StartRun,
    /// Apply the lock to the activations to come.
    ApplyLock,
    /// Let the run go.
    SetRunning,
    /// Activate this one of the nodes.
    ActivateNode(usize),
    /// Follow the routes.
    Tick,
    /// Keep what the run has become, and tell of it.
    Commit,
    /// Tell that the lock is at hand.
    PublishRevision,
    /// Tell of the lock among the assets of the run.
    PublishAsset,
    /// Give panes to those who need them.
    BindPanes,
    /// Look at what the run has become.
    ReadRun,
    /// Stop.
    Finish,
}

/// What came of it.
#[derive(Debug)]
pub enum BindEvent {
    Done,
    /// The routes were followed, through these steps.
    Ticked(Json),
    /// Panes were given.
    Panes(Json),
    /// The run is this far.
    Stands(RunStatus, Option<u64>, u64),
    Failed(DriverFailure),
}

#[verifier::ext_equal]
pub enum BindEventView {
    Done,
    Ticked(JsonView),
    Panes(JsonView),
    Stands(RunStatus, Option<u64>, u64),
    Failed(FailureView),
}

impl DeepView for BindEvent {
    type V = BindEventView;

    open spec fn deep_view(&self) -> BindEventView {
        match self {
            BindEvent::Done => BindEventView::Done,
            BindEvent::Ticked(pipeline) => BindEventView::Ticked(pipeline@),
            BindEvent::Panes(tmux) => BindEventView::Panes(tmux@),
            BindEvent::Stands(status, limit, used) => BindEventView::Stands(
                *status,
                *limit,
                *used,
            ),
            BindEvent::Failed(failure) => BindEventView::Failed(failure.deep_view()),
        }
    }
}

/// A run that is being bound.
#[derive(Debug)]
pub struct BindMachine {
    plan: BindPlan,
    stage: BindStage,
    pipeline: Json,
    tmux: Json,
    outcome: Option<Result<Json, DriverFailure>>,
}

#[verifier::ext_equal]
pub struct BindView {
    pub plan: BindPlanView,
    pub stage: BindStage,
    pub pipeline: JsonView,
    pub tmux: JsonView,
    pub outcome: Option<Result<JsonView, FailureView>>,
}

/// The model of what came out.
pub open spec fn answer_of(outcome: Option<Result<Json, DriverFailure>>) -> Option<
    Result<JsonView, FailureView>,
> {
    match outcome {
        None => None,
        Some(Ok(told)) => Some(Ok(told@)),
        Some(Err(failure)) => Some(Err(failure.deep_view())),
    }
}

impl DeepView for BindMachine {
    type V = BindView;

    closed spec fn deep_view(&self) -> BindView {
        BindView {
            plan: self.plan.deep_view(),
            stage: self.stage,
            pipeline: self.pipeline@,
            tmux: self.tmux@,
            outcome: answer_of(self.outcome),
        }
    }
}

impl BindView {
    pub open spec fn fresh(plan: BindPlanView) -> BindView {
        BindView {
            plan,
            stage: if plan.fresh {
                BindStage::Write
            } else {
                BindStage::Publish
            },
            pipeline: JsonView::List(Seq::empty()),
            tmux: JsonView::Null,
            outcome: None,
        }
    }

    pub open spec fn action(self) -> BindAction {
        match self.stage {
            BindStage::Write => BindAction::WriteRevision,
            BindStage::Start => BindAction::StartRun,
            BindStage::Apply => BindAction::ApplyLock,
            BindStage::Run => BindAction::SetRunning,
            BindStage::Activate(i) => BindAction::ActivateNode(i),
            BindStage::Tick => BindAction::Tick,
            BindStage::Commit => BindAction::Commit,
            BindStage::Publish => BindAction::PublishRevision,
            BindStage::Show => BindAction::PublishAsset,
            BindStage::Panes => BindAction::BindPanes,
            BindStage::Look => BindAction::ReadRun,
            BindStage::Over => BindAction::Finish,
        }
    }

    /// The stage of a node, or the one behind all nodes.
    pub open spec fn from_node(self, i: int) -> BindStage {
        if i < self.plan.nodes.len() {
            BindStage::Activate(i as usize)
        } else {
            BindStage::Tick
        }
    }

    pub open spec fn at(self, stage: BindStage) -> BindView {
        BindView { stage, ..self }
    }

    pub open spec fn ended(self, outcome: Result<JsonView, FailureView>) -> BindView {
        BindView { stage: BindStage::Over, outcome: Some(outcome), ..self }
    }

    /// What is told of the run.
    pub open spec fn report(
        self,
        status: RunStatus,
        activation_limit: Option<u64>,
        activations_used: u64,
    ) -> JsonView {
        bind_run_report(
            self.plan.run_id,
            status,
            self.plan.package.flow_lock.id,
            self.plan.package.flow_lock.content_hash,
            self.plan.package.json(),
            self.plan.run_mode,
            self.plan.activation_limit,
            self.plan.stop_attempt_limit,
            activation_limit,
            activations_used,
            self.plan.activation_ids,
            self.tmux,
            self.pipeline,
        )
    }

    pub open spec fn advanced(self, event: BindEventView) -> BindView {
        match (self.stage, event) {
            (BindStage::Over, _) => self,
            (_, BindEventView::Failed(failure)) => self.ended(Err(failure)),
            (BindStage::Write, BindEventView::Done) => self.at(BindStage::Start),
            (BindStage::Start, BindEventView::Done) => self.at(BindStage::Apply),
            (BindStage::Apply, BindEventView::Done) => self.at(BindStage::Run),
            (BindStage::Run, BindEventView::Done) => self.at(self.from_node(0)),
            (BindStage::Activate(i), BindEventView::Done) => self.at(self.from_node(i + 1)),
            (BindStage::Tick, BindEventView::Ticked(pipeline)) => BindView {
                stage: BindStage::Commit,
                pipeline,
                ..self
            },
            (BindStage::Commit, BindEventView::Done) => self.at(BindStage::Publish),
            (BindStage::Publish, BindEventView::Done) => self.at(BindStage::Show),
            (BindStage::Show, BindEventView::Done) => self.at(BindStage::Panes),
            (BindStage::Panes, BindEventView::Panes(tmux)) => BindView {
                stage: BindStage::Look,
                tmux,
                ..self
            },
            (BindStage::Look, BindEventView::Stands(status, limit, used)) => self.ended(
                Ok(self.report(status, limit, used)),
            ),
            _ => self,
        }
    }

    /// The state after events.
    pub open spec fn after(self, events: Seq<BindEventView>) -> BindView
        decreases events.len(),
    {
        if events.len() == 0 {
            self
        } else {
            self.after(events.drop_last()).advanced(events.last())
        }
    }

    /// Whether an action came up among events and was done.
    pub open spec fn did(self, events: Seq<BindEventView>, action: BindAction) -> bool {
        exists|i: int|
            0 <= i < events.len() && (#[trigger] self.after(events.take(i))).action() == action
                && events[i] is Done
    }
}

impl BindMachine {
    pub fn new(plan: BindPlan) -> (r: Self)
        ensures
            r.deep_view() == BindView::fresh(plan.deep_view()),
    {
        let none: Vec<Json> = Vec::new();
        assert(none.deep_view() =~= Seq::<JsonView>::empty());
        BindMachine {
            stage: if plan.fresh {
                BindStage::Write
            } else {
                BindStage::Publish
            },
            plan,
            pipeline: Json::list(none),
            tmux: Json::Null,
            outcome: None,
        }
    }

    /// The run as it is to be bound.
    pub fn plan(&self) -> (r: &BindPlan)
        ensures
            r.deep_view() == self.deep_view().plan,
    {
        &self.plan
    }

    pub fn action(&self) -> (r: BindAction)
        ensures
            r == self.deep_view().action(),
    {
        match self.stage {
            BindStage::Write => BindAction::WriteRevision,
            BindStage::Start => BindAction::StartRun,
            BindStage::Apply => BindAction::ApplyLock,
            BindStage::Run => BindAction::SetRunning,
            BindStage::Activate(i) => BindAction::ActivateNode(i),
            BindStage::Tick => BindAction::Tick,
            BindStage::Commit => BindAction::Commit,
            BindStage::Publish => BindAction::PublishRevision,
            BindStage::Show => BindAction::PublishAsset,
            BindStage::Panes => BindAction::BindPanes,
            BindStage::Look => BindAction::ReadRun,
            BindStage::Over => BindAction::Finish,
        }
    }

    fn go_on(&mut self)
        ensures
            final(self).deep_view() == old(self).deep_view().advanced(BindEventView::Done),
    {
        let n: usize = self.plan.nodes.len();
        assert(n == self.plan.deep_view().nodes.len());
        self.stage = match self.stage {
            BindStage::Write => BindStage::Start,
            BindStage::Start => BindStage::Apply,
            BindStage::Apply => BindStage::Run,
            BindStage::Run => if n > 0 {
                BindStage::Activate(0)
            } else {
                BindStage::Tick
            },
            BindStage::Activate(i) => if i < n && i + 1 < n {
                BindStage::Activate(i + 1)
            } else {
                BindStage::Tick
            },
            BindStage::Commit => BindStage::Publish,
            BindStage::Publish => BindStage::Show,
            BindStage::Show => BindStage::Panes,
            other => other,
        };
    }

    /// Goes on with what came of the last action.
    pub fn advance(&mut self, event: BindEvent)
        ensures
            final(self).deep_view() == old(self).deep_view().advanced(event.deep_view()),
    {
        match event {
            BindEvent::Done => {
                self.go_on();
            },
            BindEvent::Ticked(pipeline) => {
                if let BindStage::Tick = self.stage {
                    self.pipeline = pipeline;
                    self.stage = BindStage::Commit;
                }
            },
            BindEvent::Panes(tmux) => {
                if let BindStage::Panes = self.stage {
                    self.tmux = tmux;
                    self.stage = BindStage::Look;
                }
            },
            BindEvent::Stands(status, limit, used) => {
                if let BindStage::Look = self.stage {
                    let told = bind_run_response(
                        self.plan.run_id.as_str(),
                        status,
                        self.plan.package.lock_id(),
                        self.plan.package.content_hash(),
                        self.plan.package.response_json(),
                        self.plan.run_mode,
                        self.plan.activation_limit,
                        self.plan.stop_attempt_limit,
                        limit,
                        used,
                        &self.plan.activation_ids,
                        self.tmux.clone(),
                        self.pipeline.clone(),
                    );
                    self.outcome = Some(Ok(told));
                    self.stage = BindStage::Over;
                }
            },
            BindEvent::Failed(failure) => {
                match self.stage {
                    BindStage::Over => {},
                    _ => {
                        self.outcome = Some(Err(failure));
                        self.stage = BindStage::Over;
                    },
                }
            },
        }
    }

    /// What came out, once it is over.
    pub fn into_outcome(self) -> (r: Option<Result<Json, DriverFailure>>)
        ensures
            answer_of(r) == self.deep_view().outcome,
    {
        self.outcome
    }
}

impl BindView {
    /// What does not change: the plan, and that a run that was bound before is not begun.
    pub open spec fn steady(self, start: BindView) -> bool {
        &&& self.plan == start.plan
        &&& (self.stage == BindStage::Over) == (self.outcome is Some)
        &&& !self.plan.fresh ==> match self.stage {
            BindStage::Publish => true,
            BindStage::Show => true,
            BindStage::Panes => true,
            BindStage::Look => true,
            BindStage::Over => true,
            _ => false,
        }
    }

    /// Whether the lock of a new run is written once it goes on.
    pub open spec fn written(self, start: BindView, events: Seq<BindEventView>) -> bool {
        &&& self.plan.fresh ==> match self.stage {
            BindStage::Write => true,
            BindStage::Over => true,
            _ => start.did(events, BindAction::WriteRevision),
        }
        &&& self.outcome matches Some(Ok(_)) ==> self.plan.fresh ==> start.did(
            events,
            BindAction::WriteRevision,
        )
    }

    /// Whether the nodes of a new run are active once it goes on, and what it became is kept.
    pub open spec fn activated(self, start: BindView, events: Seq<BindEventView>) -> bool {
        &&& match self.stage {
            BindStage::Activate(i) => {
                &&& i < self.plan.nodes.len()
                &&& forall|k: int|
                    0 <= k < i ==> #[trigger] start.did(
                        events,
                        BindAction::ActivateNode(k as usize),
                    )
            },
            BindStage::Tick => start.did_all_nodes(events),
            BindStage::Commit => start.did_all_nodes(events),
            BindStage::Publish | BindStage::Show | BindStage::Panes | BindStage::Look =>
                self.plan.fresh ==> start.did_all_nodes(events) && start.did(
                    events,
                    BindAction::Commit,
                ),
            _ => true,
        }
        &&& self.outcome matches Some(Ok(_)) ==> self.plan.fresh ==> {
            &&& start.did_all_nodes(events)
            &&& start.did(events, BindAction::Commit)
        }
    }

    /// What holds at every stage.
    pub open spec fn sound(self, start: BindView, events: Seq<BindEventView>) -> bool {
        &&& self.steady(start)
        &&& self.written(start, events)
        &&& self.activated(start, events)
    }

    /// Whether every node was activated.
    pub open spec fn did_all_nodes(self, events: Seq<BindEventView>) -> bool {
        forall|k: int|
            0 <= k < self.plan.nodes.len() ==> #[trigger] self.did(
                events,
                BindAction::ActivateNode(k as usize),
            )
    }
}

proof fn lemma_did_stays(start: BindView, events: Seq<BindEventView>, action: BindAction)
    requires
        events.len() > 0,
        start.did(events.drop_last(), action),
    ensures
        start.did(events, action),
{
    let front = events.drop_last();
    let i = choose|i: int|
        0 <= i < front.len() && (#[trigger] start.after(front.take(i))).action() == action
            && front[i] is Done;
    assert(front.take(i) =~= events.take(i));
    assert(start.after(events.take(i)).action() == action);
}

proof fn lemma_did_last(start: BindView, events: Seq<BindEventView>)
    requires
        events.len() > 0,
        events.last() is Done,
    ensures
        start.did(events, start.after(events.drop_last()).action()),
{
    let i = events.len() - 1;
    assert(events.take(i) =~= events.drop_last());
    assert(start.after(events.take(i)).action() == start.after(events.drop_last()).action());
}

#[verifier::spinoff_prover]
proof fn lemma_bind_steady(plan: BindPlanView, events: Seq<BindEventView>)
    requires
        plan.nodes.len() <= usize::MAX,
    ensures
        BindView::fresh(plan).after(events).steady(BindView::fresh(plan)),
    decreases events.len(),
{
    if events.len() > 0 {
        lemma_bind_steady(plan, events.drop_last());
    }
}

#[verifier::spinoff_prover]
proof fn lemma_bind_written(plan: BindPlanView, events: Seq<BindEventView>)
    requires
        plan.nodes.len() <= usize::MAX,
    ensures
        BindView::fresh(plan).after(events).written(BindView::fresh(plan), events),
    decreases events.len(),
{
    let start = BindView::fresh(plan);
    if events.len() > 0 {
        let front = events.drop_last();
        lemma_bind_written(plan, front);
        lemma_bind_steady(plan, front);
        if start.did(front, BindAction::WriteRevision) {
            lemma_did_stays(start, events, BindAction::WriteRevision);
        }
        if events.last() is Done {
            lemma_did_last(start, events);
        }
    }
}

proof fn lemma_nodes_stay(
    start: BindView,
    events: Seq<BindEventView>,
    n: int,
)
    requires
        events.len() > 0,
        forall|k: int|
            0 <= k < n ==> #[trigger] start.did(
                events.drop_last(),
                BindAction::ActivateNode(k as usize),
            ),
    ensures
        forall|k: int|
            0 <= k < n ==> #[trigger] start.did(events, BindAction::ActivateNode(k as usize)),
{
    assert forall|k: int| 0 <= k < n implies #[trigger] start.did(
        events,
        BindAction::ActivateNode(k as usize),
    ) by {
        assert(start.did(events.drop_last(), BindAction::ActivateNode(k as usize)));
        lemma_did_stays(start, events, BindAction::ActivateNode(k as usize));
    }
}

#[verifier::spinoff_prover]
proof fn lemma_bind_activated(plan: BindPlanView, events: Seq<BindEventView>)
    requires
        plan.nodes.len() <= usize::MAX,
    ensures
        BindView::fresh(plan).after(events).activated(BindView::fresh(plan), events),
    decreases events.len(),
{
    let start = BindView::fresh(plan);
    if events.len() > 0 {
        let front = events.drop_last();
        lemma_bind_activated(plan, front);
        lemma_bind_steady(plan, front);
        let before = start.after(front);
        match before.stage {
            BindStage::Activate(i) => lemma_nodes_stay(start, events, i as int),
            _ => if start.did_all_nodes(front) {
                lemma_nodes_stay(start, events, plan.nodes.len() as int);
            },
        }
        if start.did(front, BindAction::Commit) {
            lemma_did_stays(start, events, BindAction::Commit);
        }
        if events.last() is Done {
            lemma_did_last(start, events);
        }
    }
}

proof fn lemma_bind_sound(plan: BindPlanView, events: Seq<BindEventView>)
    requires
        plan.nodes.len() <= usize::MAX,
    ensures
        BindView::fresh(plan).after(events).sound(BindView::fresh(plan), events),
{
    lemma_bind_steady(plan, events);
    lemma_bind_written(plan, events);
    lemma_bind_activated(plan, events);
}

/// A run that was bound before is not started again while it is bound: nothing of it is written,
/// started or activated.
pub proof fn lemma_bound_runs_are_left_alone(plan: BindPlanView, events: Seq<BindEventView>)
    requires
        plan.nodes.len() <= usize::MAX,
        !plan.fresh,
    ensures
        ({
            let action = BindView::fresh(plan).after(events).action();
            &&& action != BindAction::WriteRevision
            &&& action != BindAction::StartRun
            &&& !(action is ActivateNode)
            &&& action != BindAction::Commit
        }),
{
    lemma_bind_sound(plan, events);
}

/// The lock of a run is written down before the run is started.
pub proof fn lemma_locks_are_kept_before_runs_start(
    plan: BindPlanView,
    events: Seq<BindEventView>,
)
    requires
        plan.nodes.len() <= usize::MAX,
        BindView::fresh(plan).after(events).action() == BindAction::StartRun,
    ensures
        BindView::fresh(plan).did(events, BindAction::WriteRevision),
{
    lemma_bind_sound(plan, events);
}

/// Panes are given only once what the run has become is kept; and it has become that with all
/// the nodes that it starts with.
pub proof fn lemma_runs_are_kept_before_panes_are_given(
    plan: BindPlanView,
    events: Seq<BindEventView>,
)
    requires
        plan.nodes.len() <= usize::MAX,
        plan.fresh,
        BindView::fresh(plan).after(events).action() == BindAction::BindPanes,
    ensures
        BindView::fresh(plan).did(events, BindAction::Commit),
        BindView::fresh(plan).did_all_nodes(events),
{
    lemma_bind_sound(plan, events);
}

/// A new run is told to be bound only if its lock is written, its nodes are active and what it
/// has become is kept.
pub proof fn lemma_told_runs_are_bound(plan: BindPlanView, events: Seq<BindEventView>)
    requires
        plan.nodes.len() <= usize::MAX,
        plan.fresh,
        BindView::fresh(plan).after(events).outcome matches Some(Ok(_)),
    ensures
        BindView::fresh(plan).did(events, BindAction::WriteRevision),
        BindView::fresh(plan).did_all_nodes(events),
        BindView::fresh(plan).did(events, BindAction::Commit),
{
    lemma_bind_sound(plan, events);
}

} // verus!
