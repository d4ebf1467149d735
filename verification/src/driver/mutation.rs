//! What a request that changes a run goes through: the run is changed, what it has become is kept,
//! and only then is anything done about it.
use vstd::prelude::*;

use crate::json::{Json, JsonView};

use super::actuation::{DriverActuation, DriverActuationView};
use super::failure::{DriverFailure, FailureView};
use super::operation::is_terminal;
use super::tools::{ToolStep, ToolStepView};
use super::wire::RunStatus;

verus! {

broadcast use vstd::string::group_string_axioms;

/// How far the work after a change has come.
#[derive(Debug, Clone, Copy, PartialEq, Eq, Structural)]
pub enum SettleStage {
    Allocate,
    Actuate,
    Pause,
    Over,
}

/// What is to be done next.
#[derive(Debug, Clone, Copy, PartialEq, Eq, Structural)]
pub enum SettleAction {
    /// Give panes to those who need them.
    GivePanes,
    /// Put those who wait to work.
    Actuate,
    /// Pause the run until its effects are clear.
    PauseRun,
    /// Stop.
    Finish,
}

/// What came of it.
#[derive(Debug)]
pub enum SettleEvent {
    Done,
    Panes(Vec<Json>),
    Actuated(DriverActuation),
    Failed(DriverFailure),
}

#[verifier::ext_equal]
pub enum SettleEventView {
    Done,
    Panes(Seq<JsonView>),
    Actuated(DriverActuationView),
    Failed(FailureView),
}

impl DeepView for SettleEvent {
    type V = SettleEventView;

    open spec fn deep_view(&self) -> SettleEventView {
        match self {
            SettleEvent::Done => SettleEventView::Done,
            SettleEvent::Panes(panes) => SettleEventView::Panes(panes.deep_view()),
            SettleEvent::Actuated(actuation) => SettleEventView::Actuated(actuation.deep_view()),
            SettleEvent::Failed(failure) => SettleEventView::Failed(failure.deep_view()),
        }
    }
}

/// The work after a change.
#[derive(Debug)]
pub struct SettleMachine {
    stage: SettleStage,
    panes: Vec<Json>,
    actuation: DriverActuation,
    fault: Option<DriverFailure>,
}

#[verifier::ext_equal]
pub struct SettleView {
    pub stage: SettleStage,
    pub panes: Seq<JsonView>,
    pub actuation: DriverActuationView,
    pub fault: Option<FailureView>,
}

impl DeepView for SettleMachine {
    type V = SettleView;

    closed spec fn deep_view(&self) -> SettleView {
        SettleView {
            stage: self.stage,
            panes: self.panes.deep_view(),
            actuation: self.actuation.deep_view(),
            fault: self.fault.deep_view(),
        }
    }
}

/// The model of what came out.
pub open spec fn settled_of(
    outcome: Option<Result<(Vec<Json>, DriverActuation), DriverFailure>>,
) -> Option<Result<(Seq<JsonView>, DriverActuationView), FailureView>> {
    match outcome {
        None => None,
        Some(Ok((panes, actuation))) => Some(Ok((panes.deep_view(), actuation.deep_view()))),
        Some(Err(failure)) => Some(Err(failure.deep_view())),
    }
}

impl SettleView {
    /// Where it starts: nothing is done for a run that does not go.
    pub open spec fn fresh(going: bool) -> SettleView {
        SettleView {
            stage: if going {
                SettleStage::Allocate
            } else {
                SettleStage::Over
            },
            panes: Seq::empty(),
            actuation: DriverActuationView::none(),
            fault: None,
        }
    }

    pub open spec fn action(self) -> SettleAction {
        match self.stage {
            SettleStage::Allocate => SettleAction::GivePanes,
            SettleStage::Actuate => SettleAction::Actuate,
            SettleStage::Pause => SettleAction::PauseRun,
            SettleStage::Over => SettleAction::Finish,
        }
    }

    pub open spec fn advanced(self, event: SettleEventView) -> SettleView {
        match (self.stage, event) {
            (SettleStage::Over, _) => self,
            (SettleStage::Pause, SettleEventView::Failed(failure)) => SettleView {
                stage: SettleStage::Over,
                fault: Some(failure),
                ..self
            },
            (_, SettleEventView::Failed(failure)) => SettleView {
                stage: SettleStage::Pause,
                fault: Some(failure),
                ..self
            },
            (SettleStage::Allocate, SettleEventView::Panes(panes)) => SettleView {
                stage: SettleStage::Actuate,
                panes,
                ..self
            },
            (SettleStage::Actuate, SettleEventView::Actuated(actuation)) => SettleView {
                stage: if actuation.pauses() {
                    SettleStage::Pause
                } else {
                    SettleStage::Over
                },
                actuation,
                ..self
            },
            (SettleStage::Pause, SettleEventView::Done) => SettleView {
                stage: SettleStage::Over,
                ..self
            },
            _ => self,
        }
    }

    /// What came out, once it is over.
    pub open spec fn outcome(self) -> Option<
        Result<(Seq<JsonView>, DriverActuationView), FailureView>,
    > {
        if self.stage != SettleStage::Over {
            None
        } else {
            match self.fault {
                Some(failure) => Some(Err(failure)),
                None => Some(Ok((self.panes, self.actuation))),
            }
        }
    }

    /// The state after events.
    pub open spec fn after(self, events: Seq<SettleEventView>) -> SettleView
        decreases events.len(),
    {
        if events.len() == 0 {
            self
        } else {
            self.after(events.drop_last()).advanced(events.last())
        }
    }

    /// Whether it came to a pause among events.
    pub open spec fn came_to_pause(self, events: Seq<SettleEventView>) -> bool {
        exists|i: int|
            0 <= i < events.len() && (#[trigger] self.after(events.take(i))).stage
                == SettleStage::Pause
    }
}

impl SettleMachine {
    pub fn new(going: bool) -> (r: Self)
        ensures
            r.deep_view() == SettleView::fresh(going),
    {
        let panes: Vec<Json> = Vec::new();
        assert(panes.deep_view() =~= Seq::<JsonView>::empty());
        SettleMachine {
            stage: if going {
                SettleStage::Allocate
            } else {
                SettleStage::Over
            },
            panes,
            actuation: DriverActuation::default(),
            fault: None,
        }
    }

    pub fn action(&self) -> (r: SettleAction)
        ensures
            r == self.deep_view().action(),
    {
        match self.stage {
            SettleStage::Allocate => SettleAction::GivePanes,
            SettleStage::Actuate => SettleAction::Actuate,
            SettleStage::Pause => SettleAction::PauseRun,
            SettleStage::Over => SettleAction::Finish,
        }
    }

    /// Goes on with what came of the last action.
    pub fn advance(&mut self, event: SettleEvent)
        ensures
            final(self).deep_view() == old(self).deep_view().advanced(event.deep_view()),
    {
        match event {
            SettleEvent::Done => {
                if let SettleStage::Pause = self.stage {
                    self.stage = SettleStage::Over;
                }
            },
            SettleEvent::Panes(panes) => {
                if let SettleStage::Allocate = self.stage {
                    self.panes = panes;
                    self.stage = SettleStage::Actuate;
                }
            },
            SettleEvent::Actuated(actuation) => {
                if let SettleStage::Actuate = self.stage {
                    self.stage = if actuation.requires_pause() {
                        SettleStage::Pause
                    } else {
                        SettleStage::Over
                    };
                    self.actuation = actuation;
                }
            },
            SettleEvent::Failed(failure) => {
                match self.stage {
                    SettleStage::Over => {},
                    SettleStage::Pause => {
                        self.fault = Some(failure);
                        self.stage = SettleStage::Over;
                    },
                    _ => {
                        self.fault = Some(failure);
                        self.stage = SettleStage::Pause;
                    },
                }
            },
        }
    }

    /// The panes that were given and what came of putting agents to work, once it is over.
    pub fn into_outcome(self) -> (r: Option<
        Result<(Vec<Json>, DriverActuation), DriverFailure>,
    >)
        ensures
            settled_of(r) == self.deep_view().outcome(),
    {
        match self.stage {
            SettleStage::Over => match self.fault {
                Some(failure) => Some(Err(failure)),
                None => Some(Ok((self.panes, self.actuation))),
            },
            _ => None,
        }
    }
}

impl SettleView {
    pub open spec fn sound(self, start: SettleView, events: Seq<SettleEventView>) -> bool {
        &&& start.stage == SettleStage::Over ==> self == start
        &&& match self.stage {
            SettleStage::Allocate => self.fault is None && !self.actuation.pauses(),
            SettleStage::Actuate => self.fault is None && !self.actuation.pauses(),
            SettleStage::Pause => true,
            SettleStage::Over => self.fault is Some || self.actuation.pauses()
                ==> start.came_to_pause(events),
        }
    }
}

proof fn lemma_settle_sound(going: bool, events: Seq<SettleEventView>)
    ensures
        SettleView::fresh(going).after(events).sound(SettleView::fresh(going), events),
    decreases events.len(),
{
    let start = SettleView::fresh(going);
    if events.len() > 0 {
        let front = events.drop_last();
        lemma_settle_sound(going, front);
        if start.came_to_pause(front) {
            let i = choose|i: int|
                0 <= i < front.len() && (#[trigger] start.after(front.take(i))).stage
                    == SettleStage::Pause;
            assert(front.take(i) =~= events.take(i));
            assert(start.after(events.take(i)).stage == SettleStage::Pause);
        }
        let last = events.len() - 1;
        assert(events.take(last) =~= front);
        assert(start.after(events.take(last)) == start.after(front));
    }
}

/// A run whose effects are in doubt is paused: wherever something failed, or a warning asks for
/// it, the run is told to pause before the work is over.
pub proof fn lemma_doubt_pauses_the_run(going: bool, events: Seq<SettleEventView>)
    requires
        ({
            let end = SettleView::fresh(going).after(events);
            end.outcome() matches Some(result) && (result is Err || end.actuation.pauses())
        }),
    ensures
        SettleView::fresh(going).came_to_pause(events),
{
    lemma_settle_sound(going, events);
}

/// Nothing is done for a run that does not go.
pub proof fn lemma_resting_runs_are_left_alone(events: Seq<SettleEventView>)
    ensures
        SettleView::fresh(false).after(events).action() == SettleAction::Finish,
        SettleView::fresh(false).after(events).outcome() == Some(
            Ok::<(Seq<JsonView>, DriverActuationView), FailureView>(
                (Seq::empty(), DriverActuationView::none()),
            ),
        ),
{
    lemma_settle_sound(false, events);
}

/// When the panes of a run are ended with a change.
#[derive(Debug, Clone, Copy, PartialEq, Eq, Structural)]
pub enum PanesEnd {
    Never,
    IfEnded,
    Always,
}

/// What a change of a run is made of.
#[derive(Debug, Clone, Copy, PartialEq, Eq, Structural)]
pub struct MutationPlan {
    /// How many changes are made before the routes are followed.
    pub changes: usize,
    /// Whether a lock comes with it.
    pub locks: bool,
    pub end: PanesEnd,
}

impl DeepView for MutationPlan {
    type V = MutationPlan;

    open spec fn deep_view(&self) -> MutationPlan {
        *self
    }
}

/// What the change that a tool is asked for is made of, where it is one.
pub open spec fn mutation_of(step: ToolStepView) -> Option<MutationPlan> {
    let one = MutationPlan { changes: 1, locks: false, end: PanesEnd::Never };
    match step {
        ToolStepView::DeliverArtifact(_, _, _) => Some(one),
        ToolStepView::RecordEffect(_, _, _) => Some(one),
        ToolStepView::Activate(_) => Some(one),
        ToolStepView::Fanout(_, _) => Some(one),
        ToolStepView::PatchBoard(_, entries) => Some(
            MutationPlan { changes: entries.len() as usize, ..one },
        ),
        ToolStepView::ApplyFlowRevision => Some(MutationPlan { locks: true, ..one }),
        ToolStepView::ObserveStop(_, _) => Some(
            MutationPlan { changes: 0, locks: false, end: PanesEnd::IfEnded },
        ),
        ToolStepView::Control(control) => Some(
            MutationPlan {
                changes: 0,
                locks: false,
                end: if control.ends() {
                    PanesEnd::Always
                } else {
                    PanesEnd::Never
                },
            },
        ),
        _ => None,
    }
}

pub fn plan_mutation(step: &ToolStep) -> (r: Option<MutationPlan>)
    ensures
        r == mutation_of(step.deep_view()),
{
    let one = MutationPlan { changes: 1, locks: false, end: PanesEnd::Never };
    match step {
        ToolStep::DeliverArtifact(_, _, _) => Some(one),
        ToolStep::RecordEffect(_, _, _) => Some(one),
        ToolStep::Activate(_) => Some(one),
        ToolStep::Fanout(_, _) => Some(one),
        ToolStep::PatchBoard(_, entries) => Some(
            MutationPlan { changes: entries.len(), locks: false, end: PanesEnd::Never },
        ),
        ToolStep::ApplyFlowRevision => Some(
            MutationPlan { changes: 1, locks: true, end: PanesEnd::Never },
        ),
        ToolStep::ObserveStop(_, _) => Some(
            MutationPlan { changes: 0, locks: false, end: PanesEnd::IfEnded },
        ),
        ToolStep::Control(control) => Some(
            MutationPlan {
                changes: 0,
                locks: false,
                end: if control.finalizes() {
                    PanesEnd::Always
                } else {
                    PanesEnd::Never
                },
            },
        ),
        _ => None,
    }
}

/// How far a change has come.
#[derive(Debug, Clone, Copy, PartialEq, Eq, Structural)]
pub enum MutationStage {
    Write,
    Change(usize),
    Tick,
    Commit,
    Publish,
    Show,
    Settle,
    End,
    Over,
}

/// What is to be done next.
#[derive(Debug, Clone, Copy, PartialEq, Eq, Structural)]
pub enum MutationAction {
    /// Write down the lock.
    WriteRevision,
    /// Make this one of the changes.
    ChangeRun(usize),
    /// Follow the routes.
    Tick,
    /// Keep what the run has become, and tell of it.
    Commit,
    /// Tell that the lock is at hand.
    PublishRevision,
    /// Tell of the lock among the assets of the run.
    PublishAsset,
    /// Give panes, and put agents to work.
    Settle,
    /// End the panes of the run.
    EndPanes,
    /// Stop.
    Finish,
}

/// What came of it.
#[derive(Debug)]
pub enum MutationEvent {
    Done,
    /// A change was made, and answered with this.
    Changed(Json),
    /// The routes were followed, through these steps.
    Ticked(Json),
    /// Panes were given and agents put to work; the run is this far.
    Settled(Vec<Json>, Json, RunStatus),
    /// Panes were ended, and this is told of them.
    Ended(Json),
    Failed(DriverFailure),
}

#[verifier::ext_equal]
pub enum MutationEventView {
    Done,
    Changed(JsonView),
    Ticked(JsonView),
    Settled(Seq<JsonView>, JsonView, RunStatus),
    Ended(JsonView),
    Failed(FailureView),
}

impl DeepView for MutationEvent {
    type V = MutationEventView;

    open spec fn deep_view(&self) -> MutationEventView {
        match self {
            MutationEvent::Done => MutationEventView::Done,
            MutationEvent::Changed(answer) => MutationEventView::Changed(answer@),
            MutationEvent::Ticked(pipeline) => MutationEventView::Ticked(pipeline@),
            MutationEvent::Settled(panes, actuation, status) => MutationEventView::Settled(
                panes.deep_view(),
                actuation@,
                *status,
            ),
            MutationEvent::Ended(lifecycle) => MutationEventView::Ended(lifecycle@),
            MutationEvent::Failed(failure) => MutationEventView::Failed(failure.deep_view()),
        }
    }
}

/// What is told of a change.
#[derive(Debug)]
pub struct MutationReport {
    /// What the last change was answered with.
    pub answer: Json,
    pub pipeline: Json,
    pub panes: Vec<Json>,
    pub actuation: Json,
    pub lifecycle: Json,
}

#[verifier::ext_equal]
pub struct MutationReportView {
    pub answer: JsonView,
    pub pipeline: JsonView,
    pub panes: Seq<JsonView>,
    pub actuation: JsonView,
    pub lifecycle: JsonView,
}

impl DeepView for MutationReport {
    type V = MutationReportView;

    open spec fn deep_view(&self) -> MutationReportView {
        MutationReportView {
            answer: self.answer@,
            pipeline: self.pipeline@,
            panes: self.panes.deep_view(),
            actuation: self.actuation@,
            lifecycle: self.lifecycle@,
        }
    }
}

/// A change of a run on its way.
#[derive(Debug)]
pub struct MutationMachine {
    plan: MutationPlan,
    stage: MutationStage,
    report: MutationReport,
    fault: Option<DriverFailure>,
}

#[verifier::ext_equal]
pub struct MutationView {
    pub plan: MutationPlan,
    pub stage: MutationStage,
    pub report: MutationReportView,
    pub fault: Option<FailureView>,
}

impl DeepView for MutationMachine {
    type V = MutationView;

    closed spec fn deep_view(&self) -> MutationView {
        MutationView {
            plan: self.plan,
            stage: self.stage,
            report: self.report.deep_view(),
            fault: self.fault.deep_view(),
        }
    }
}

impl MutationView {
    /// The stage of a change, or the one behind all changes.
    pub open spec fn from_change(plan: MutationPlan, i: int) -> MutationStage {
        if i < plan.changes {
            MutationStage::Change(i as usize)
        } else {
            MutationStage::Tick
        }
    }

    pub open spec fn fresh(plan: MutationPlan) -> MutationView {
        MutationView {
            plan,
            stage: if plan.locks {
                MutationStage::Write
            } else {
                MutationView::from_change(plan, 0)
            },
            report: MutationReportView {
                answer: JsonView::Null,
                pipeline: JsonView::List(Seq::empty()),
                panes: Seq::empty(),
                actuation: JsonView::Null,
                lifecycle: JsonView::Null,
            },
            fault: None,
        }
    }

    pub open spec fn at(self, stage: MutationStage) -> MutationView {
        MutationView { stage, ..self }
    }

    pub open spec fn action(self) -> MutationAction {
        match self.stage {
            MutationStage::Write => MutationAction::WriteRevision,
            MutationStage::Change(i) => MutationAction::ChangeRun(i),
            MutationStage::Tick => MutationAction::Tick,
            MutationStage::Commit => MutationAction::Commit,
            MutationStage::Publish => MutationAction::PublishRevision,
            MutationStage::Show => MutationAction::PublishAsset,
            MutationStage::Settle => MutationAction::Settle,
            MutationStage::End => MutationAction::EndPanes,
            MutationStage::Over => MutationAction::Finish,
        }
    }

    /// Whether the panes of the run are ended, with the run as it is.
    pub open spec fn ends_panes(self, status: RunStatus) -> bool {
        match self.plan.end {
            PanesEnd::Never => false,
            PanesEnd::IfEnded => status == RunStatus::Completed || status == RunStatus::Stopped,
            PanesEnd::Always => true,
        }
    }

    pub open spec fn advanced(self, event: MutationEventView) -> MutationView {
        match (self.stage, event) {
            (MutationStage::Over, _) => self,
            (_, MutationEventView::Failed(failure)) => MutationView {
                stage: MutationStage::Over,
                fault: Some(failure),
                ..self
            },
            (MutationStage::Write, MutationEventView::Done) => self.at(
                MutationView::from_change(self.plan, 0),
            ),
            (MutationStage::Change(i), MutationEventView::Changed(answer)) => MutationView {
                stage: MutationView::from_change(self.plan, i + 1),
                report: MutationReportView { answer, ..self.report },
                ..self
            },
            (MutationStage::Tick, MutationEventView::Ticked(pipeline)) => MutationView {
                stage: MutationStage::Commit,
                report: MutationReportView { pipeline, ..self.report },
                ..self
            },
            (MutationStage::Commit, MutationEventView::Done) => self.at(
                if self.plan.locks {
                    MutationStage::Publish
                } else {
                    MutationStage::Settle
                },
            ),
            (MutationStage::Publish, MutationEventView::Done) => self.at(MutationStage::Show),
            (MutationStage::Show, MutationEventView::Done) => self.at(MutationStage::Settle),
            (MutationStage::Settle, MutationEventView::Settled(panes, actuation, status)) => {
                MutationView {
                    stage: if self.ends_panes(status) {
                        MutationStage::End
                    } else {
                        MutationStage::Over
                    },
                    report: MutationReportView { panes, actuation, ..self.report },
                    ..self
                }
            },
            (MutationStage::End, MutationEventView::Ended(lifecycle)) => MutationView {
                stage: MutationStage::Over,
                report: MutationReportView { lifecycle, ..self.report },
                ..self
            },
            _ => self,
        }
    }

    /// What came out, once it is over.
    pub open spec fn outcome(self) -> Option<Result<MutationReportView, FailureView>> {
        if self.stage != MutationStage::Over {
            None
        } else {
            match self.fault {
                Some(failure) => Some(Err(failure)),
                None => Some(Ok(self.report)),
            }
        }
    }

    /// The state after events.
    pub open spec fn after(self, events: Seq<MutationEventView>) -> MutationView
        decreases events.len(),
    {
        if events.len() == 0 {
            self
        } else {
            self.after(events.drop_last()).advanced(events.last())
        }
    }

    /// Whether an event says that the action at hand was done.
    pub open spec fn accepts(self, event: MutationEventView) -> bool {
        !(event is Failed) && self.advanced(event).stage != self.stage
    }

    /// Whether an action came up among events and was done.
    pub open spec fn did(self, events: Seq<MutationEventView>, action: MutationAction) -> bool {
        exists|i: int|
            0 <= i < events.len() && (#[trigger] self.after(events.take(i))).action() == action
                && self.after(events.take(i)).accepts(events[i])
    }

    /// Whether the first changes were made.
    pub open spec fn changed(self, events: Seq<MutationEventView>, n: int) -> bool {
        forall|k: int|
            0 <= k < n ==> #[trigger] self.did(events, MutationAction::ChangeRun(k as usize))
    }
}

/// The model of what came out.
pub open spec fn mutated_of(outcome: Option<Result<MutationReport, DriverFailure>>) -> Option<
    Result<MutationReportView, FailureView>,
> {
    match outcome {
        None => None,
        Some(Ok(report)) => Some(Ok(report.deep_view())),
        Some(Err(failure)) => Some(Err(failure.deep_view())),
    }
}

impl MutationMachine {
    pub fn new(plan: MutationPlan) -> (r: Self)
        ensures
            r.deep_view() == MutationView::fresh(plan),
    {
        let pipeline: Vec<Json> = Vec::new();
        let panes: Vec<Json> = Vec::new();
        assert(pipeline.deep_view() =~= Seq::<JsonView>::empty());
        assert(panes.deep_view() =~= Seq::<JsonView>::empty());
        MutationMachine {
            plan,
            stage: if plan.locks {
                MutationStage::Write
            } else if plan.changes > 0 {
                MutationStage::Change(0)
            } else {
                MutationStage::Tick
            },
            report: MutationReport {
                answer: Json::Null,
                pipeline: Json::list(pipeline),
                panes,
                actuation: Json::Null,
                lifecycle: Json::Null,
            },
            fault: None,
        }
    }

    pub fn action(&self) -> (r: MutationAction)
        ensures
            r == self.deep_view().action(),
    {
        match self.stage {
            MutationStage::Write => MutationAction::WriteRevision,
            MutationStage::Change(i) => MutationAction::ChangeRun(i),
            MutationStage::Tick => MutationAction::Tick,
            MutationStage::Commit => MutationAction::Commit,
            MutationStage::Publish => MutationAction::PublishRevision,
            MutationStage::Show => MutationAction::PublishAsset,
            MutationStage::Settle => MutationAction::Settle,
            MutationStage::End => MutationAction::EndPanes,
            MutationStage::Over => MutationAction::Finish,
        }
    }

    /// Goes on with what came of the last action.
    pub fn advance(&mut self, event: MutationEvent)
        ensures
            final(self).deep_view() == old(self).deep_view().advanced(event.deep_view()),
    {
        match event {
            MutationEvent::Done => {
                self.stage = match self.stage {
                    MutationStage::Write => if self.plan.changes > 0 {
                        MutationStage::Change(0)
                    } else {
                        MutationStage::Tick
                    },
                    MutationStage::Commit => if self.plan.locks {
                        MutationStage::Publish
                    } else {
                        MutationStage::Settle
                    },
                    MutationStage::Publish => MutationStage::Show,
                    MutationStage::Show => MutationStage::Settle,
                    other => other,
                };
            },
            MutationEvent::Changed(answer) => {
                if let MutationStage::Change(i) = self.stage {
                    self.report.answer = answer;
                    self.stage = if i < self.plan.changes && i + 1 < self.plan.changes {
                        MutationStage::Change(i + 1)
                    } else {
                        MutationStage::Tick
                    };
                }
            },
            MutationEvent::Ticked(pipeline) => {
                if let MutationStage::Tick = self.stage {
                    self.report.pipeline = pipeline;
                    self.stage = MutationStage::Commit;
                }
            },
            MutationEvent::Settled(panes, actuation, status) => {
                if let MutationStage::Settle = self.stage {
                    self.report.panes = panes;
                    self.report.actuation = actuation;
                    let ends: bool = match self.plan.end {
                        PanesEnd::Never => false,
                        PanesEnd::IfEnded => is_terminal(status),
                        PanesEnd::Always => true,
                    };
                    self.stage = if ends {
                        MutationStage::End
                    } else {
                        MutationStage::Over
                    };
                }
            },
            MutationEvent::Ended(lifecycle) => {
                if let MutationStage::End = self.stage {
                    self.report.lifecycle = lifecycle;
                    self.stage = MutationStage::Over;
                }
            },
            MutationEvent::Failed(failure) => {
                match self.stage {
                    MutationStage::Over => {},
                    _ => {
                        self.fault = Some(failure);
                        self.stage = MutationStage::Over;
                    },
                }
            },
        }
    }

    /// What is told of the change, once it is over.
    pub fn into_outcome(self) -> (r: Option<Result<MutationReport, DriverFailure>>)
        ensures
            mutated_of(r) == self.deep_view().outcome(),
    {
        match self.stage {
            MutationStage::Over => match self.fault {
                Some(failure) => Some(Err(failure)),
                None => Some(Ok(self.report)),
            },
            _ => None,
        }
    }
}

impl MutationView {
    /// What holds at every stage.
    pub open spec fn sound(self, start: MutationView, events: Seq<MutationEventView>) -> bool {
        let n = self.plan.changes as int;
        let written = self.plan.locks ==> start.did(events, MutationAction::WriteRevision);
        let kept = start.changed(events, n) && start.did(events, MutationAction::Commit);
        &&& self.plan == start.plan
        &&& match self.stage {
            MutationStage::Write => true,
            MutationStage::Change(i) => i < n && written && start.changed(events, i as int),
            MutationStage::Tick => written && start.changed(events, n),
            MutationStage::Commit => written && start.changed(events, n),
            MutationStage::Publish => written && kept,
            MutationStage::Show => written && kept,
            MutationStage::Settle => written && kept,
            MutationStage::End => written && kept && self.plan.end != PanesEnd::Never,
            MutationStage::Over => self.fault is None ==> written && kept,
        }
    }
}

proof fn lemma_did_stays(
    start: MutationView,
    events: Seq<MutationEventView>,
    action: MutationAction,
)
    requires
        events.len() > 0,
        start.did(events.drop_last(), action),
    ensures
        start.did(events, action),
{
    let front = events.drop_last();
    let i = choose|i: int|
        0 <= i < front.len() && (#[trigger] start.after(front.take(i))).action() == action
            && start.after(front.take(i)).accepts(front[i]);
    assert(front.take(i) =~= events.take(i));
    assert(start.after(events.take(i)).action() == action);
}

proof fn lemma_did_last(start: MutationView, events: Seq<MutationEventView>)
    requires
        events.len() > 0,
        start.after(events.drop_last()).accepts(events.last()),
    ensures
        start.did(events, start.after(events.drop_last()).action()),
{
    let i = events.len() - 1;
    assert(events.take(i) =~= events.drop_last());
    assert(start.after(events.take(i)).action() == start.after(events.drop_last()).action());
}

proof fn lemma_mutation_sound(plan: MutationPlan, events: Seq<MutationEventView>)
    ensures
        MutationView::fresh(plan).after(events).sound(MutationView::fresh(plan), events),
    decreases events.len(),
{
    let start = MutationView::fresh(plan);
    if events.len() > 0 {
        let front = events.drop_last();
        lemma_mutation_sound(plan, front);
        assert forall|action: MutationAction| #[trigger] start.did(front, action) implies
            start.did(events, action) by {
            lemma_did_stays(start, events, action);
        }
        if start.after(front).accepts(events.last()) {
            lemma_did_last(start, events);
        }
        assert forall|k: int|
            0 <= k < plan.changes && start.did(
                front,
                MutationAction::ChangeRun(k as usize),
            ) implies #[trigger] start.did(events, MutationAction::ChangeRun(k as usize)) by {
            lemma_did_stays(start, events, MutationAction::ChangeRun(k as usize));
        }
    }
}

/// What a run becomes is kept only if none of its changes was refused.
pub proof fn lemma_refused_changes_are_not_kept(
    plan: MutationPlan,
    events: Seq<MutationEventView>,
)
    requires
        MutationView::fresh(plan).after(events).action() == MutationAction::Commit,
    ensures
        MutationView::fresh(plan).changed(events, plan.changes as int),
{
    lemma_mutation_sound(plan, events);
}

/// No pane is given or ended, and no lock told of, before what the run has become is kept.
pub proof fn lemma_changes_are_kept_before_they_show(
    plan: MutationPlan,
    events: Seq<MutationEventView>,
)
    requires
        ({
            let action = MutationView::fresh(plan).after(events).action();
            ||| action == MutationAction::PublishRevision
            ||| action == MutationAction::PublishAsset
            ||| action == MutationAction::Settle
            ||| action == MutationAction::EndPanes
        }),
    ensures
        MutationView::fresh(plan).did(events, MutationAction::Commit),
{
    lemma_mutation_sound(plan, events);
}

/// A change is told to have been made only if it was made and kept, and its lock was written
/// down.
pub proof fn lemma_told_changes_are_kept(plan: MutationPlan, events: Seq<MutationEventView>)
    requires
        MutationView::fresh(plan).after(events).outcome() matches Some(Ok(_)),
    ensures
        MutationView::fresh(plan).changed(events, plan.changes as int),
        MutationView::fresh(plan).did(events, MutationAction::Commit),
        plan.locks ==> MutationView::fresh(plan).did(events, MutationAction::WriteRevision),
{
    lemma_mutation_sound(plan, events);
}

/// What only looks at a run changes nothing.
pub proof fn lemma_looks_change_nothing(step: ToolStepView)
    requires
        ({
            ||| step is Context
            ||| step is Status
            ||| step is Why
            ||| step is ValidateStop
            ||| step is PreviewFlowRoutes
            ||| step is ViewTerminal
            ||| step is ViewSnapshot
        }),
    ensures
        mutation_of(step) is None,
{
}

} // verus!
