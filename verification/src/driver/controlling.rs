//! The course of a request to control a run: a word on input is taken down first, and a run is
//! not resumed while any input may have arrived.
use vstd::prelude::*;

use crate::json::{Json, JsonView};

use super::actuation::{DriverActuation, DriverActuationView};
use super::delivery::{
    delivery_meant, resolution_event, resolution_in, resolution_report, resolved,
    AmbiguousDelivery, AmbiguousDeliveryView, InputDeliveryResolution, PlannedEvent,
    PlannedEventView, ResolutionView,
};
use super::failure::{DriverFailure, FailureView};
use super::keys::DeliveryKeyView;
use super::operation::{
    control_report, control_response, control_step, resume_pending_report,
    resume_pending_response, rests, Control, ControlStep, ControlStepView,
};
use super::replay::{DriverStateView, ReplayedDriverEvents};
use super::wire::{optional_u64, optional_u64_field, RunStatus};

verus! {

broadcast use vstd::string::group_string_axioms;

/// Deliveries that may have arrived, in their order.
pub type OpenDeliveries = Seq<(DeliveryKeyView, AmbiguousDeliveryView)>;

/// What is told of the deliveries that keep a run from being resumed.
pub open spec fn open_warnings(open: OpenDeliveries) -> DriverActuationView {
    DriverActuationView {
        sent: Seq::empty(),
        warnings: Seq::new(open.len(), |i: int| open[i].1.json()),
    }
}

/// How many activations a run may have from now on, where a request to resume it says so.
pub open spec fn limit_asked(control: Control, request: JsonView) -> Result<
    Option<u64>,
    FailureView,
> {
    if control == Control::Resume {
        optional_u64(request, "activation_limit"@, "activationLimit"@)
    } else {
        Ok(None)
    }
}

/// What came of a request to control a run.
#[derive(Debug)]
pub enum ControlOutcome {
    Answer(Json),
    Failed(DriverFailure),
    /// A run that does not rest cannot be resumed.
    NotResting(RunStatus),
}

#[verifier::ext_equal]
pub enum ControlOutcomeView {
    Answer(JsonView),
    Failed(FailureView),
    NotResting(RunStatus),
}

impl DeepView for ControlOutcome {
    type V = ControlOutcomeView;

    open spec fn deep_view(&self) -> ControlOutcomeView {
        match self {
            ControlOutcome::Answer(told) => ControlOutcomeView::Answer(told@),
            ControlOutcome::Failed(failure) => ControlOutcomeView::Failed(failure.deep_view()),
            ControlOutcome::NotResting(status) => ControlOutcomeView::NotResting(*status),
        }
    }
}

impl Clone for ControlOutcome {
    fn clone(&self) -> (r: Self)
        ensures
            r.deep_view() == self.deep_view(),
    {
        match self {
            ControlOutcome::Answer(told) => ControlOutcome::Answer(told.clone()),
            ControlOutcome::Failed(failure) => ControlOutcome::Failed(failure.clone()),
            ControlOutcome::NotResting(status) => ControlOutcome::NotResting(*status),
        }
    }
}

/// What is known of a run that has been settled again.
#[derive(Debug)]
struct Settled {
    pipeline: Json,
    allocations: Vec<Json>,
    actuation: Json,
}

#[verifier::ext_equal]
pub struct SettledView {
    /// What the step of the run went through.
    pub pipeline: JsonView,
    /// The panes that were given.
    pub allocations: Seq<JsonView>,
    /// What came of putting activations to work.
    pub actuation: JsonView,
}

impl DeepView for Settled {
    type V = SettledView;

    closed spec fn deep_view(&self) -> SettledView {
        SettledView {
            pipeline: self.pipeline@,
            allocations: self.allocations.deep_view(),
            actuation: self.actuation@,
        }
    }
}

/// How far a request to control a run has come.
#[derive(Debug)]
enum ControlStage {
    /// The word on a delivery is to be written down, and then taken down.
    Resolve(AmbiguousDelivery, InputDeliveryResolution, PlannedEvent),
    /// The run is to take its step.
    Tick(Option<u64>),
    /// What the run became is to be kept.
    Commit(Json),
    /// Panes are to be given, and activations put to work.
    Settle(Json),
    /// The panes of the run are to be ended.
    End(Settled),
    /// Where the run stands now is to be found out.
    Look(Settled, Json),
    /// Nothing is left to do.
    Over(ControlOutcome),
}

#[verifier::ext_equal]
pub enum ControlStageView {
    Resolve(AmbiguousDeliveryView, ResolutionView, PlannedEventView),
    Tick(Option<u64>),
    Commit(JsonView),
    Settle(JsonView),
    End(SettledView),
    Look(SettledView, JsonView),
    Over(ControlOutcomeView),
}

impl DeepView for ControlStage {
    type V = ControlStageView;

    closed spec fn deep_view(&self) -> ControlStageView {
        match self {
            ControlStage::Resolve(delivery, resolution, event) => ControlStageView::Resolve(
                delivery.deep_view(),
                resolution.deep_view(),
                event.deep_view(),
            ),
            ControlStage::Tick(limit) => ControlStageView::Tick(*limit),
            ControlStage::Commit(pipeline) => ControlStageView::Commit(pipeline@),
            ControlStage::Settle(pipeline) => ControlStageView::Settle(pipeline@),
            ControlStage::End(settled) => ControlStageView::End(settled.deep_view()),
            ControlStage::Look(settled, lifecycle) => ControlStageView::Look(
                settled.deep_view(),
                lifecycle@,
            ),
            ControlStage::Over(outcome) => ControlStageView::Over(outcome.deep_view()),
        }
    }
}

/// What is to be done next.
#[derive(Debug)]
pub enum ControlAction {
    /// Write an event down; once it is, the word on input is taken down with `resolve`.
    WriteResolution(PlannedEvent),
    /// Let the run take its step under control, with so many activations where it is said.
    Tick(Control, Option<u64>),
    /// Keep what the run became.
    Commit,
    /// Give panes, and put activations to work.
    Settle,
    /// End the panes of the run, for this reason.
    EndPanes(&'static str),
    /// Tell where the run stands.
    ReadStatus,
    /// Stop: this is what came of it.
    Finish(ControlOutcome),
}

#[verifier::ext_equal]
pub enum ControlActionView {
    WriteResolution(PlannedEventView),
    Tick(Control, Option<u64>),
    Commit,
    Settle,
    EndPanes(Seq<char>),
    ReadStatus,
    Finish(ControlOutcomeView),
}

impl DeepView for ControlAction {
    type V = ControlActionView;

    open spec fn deep_view(&self) -> ControlActionView {
        match self {
            ControlAction::WriteResolution(event) => ControlActionView::WriteResolution(
                event.deep_view(),
            ),
            ControlAction::Tick(control, limit) => ControlActionView::Tick(*control, *limit),
            ControlAction::Commit => ControlActionView::Commit,
            ControlAction::Settle => ControlActionView::Settle,
            ControlAction::EndPanes(reason) => ControlActionView::EndPanes(reason@),
            ControlAction::ReadStatus => ControlActionView::ReadStatus,
            ControlAction::Finish(outcome) => ControlActionView::Finish(outcome.deep_view()),
        }
    }
}

/// What came of what was to be done.
#[derive(Debug)]
pub enum ControlEvent {
    /// What the step of the run went through.
    Ticked(Json),
    /// What the run became is kept.
    Committed,
    /// The panes that were given, and what came of putting activations to work.
    Settled(Vec<Json>, DriverActuation),
    /// What is told of the panes that were ended.
    Ended(Json),
    /// Where the run stands.
    Stands(RunStatus),
    Failed(DriverFailure),
}

#[verifier::ext_equal]
pub enum ControlEventView {
    /// The word on input is taken down; these deliveries are still open.
    Resolved(OpenDeliveries),
    Ticked(JsonView),
    Committed,
    Settled(Seq<JsonView>, DriverActuationView),
    Ended(JsonView),
    Stands(RunStatus),
    Failed(FailureView),
}

impl DeepView for ControlEvent {
    type V = ControlEventView;

    open spec fn deep_view(&self) -> ControlEventView {
        match self {
            ControlEvent::Ticked(pipeline) => ControlEventView::Ticked(pipeline@),
            ControlEvent::Committed => ControlEventView::Committed,
            ControlEvent::Settled(allocations, actuation) => ControlEventView::Settled(
                allocations.deep_view(),
                actuation.deep_view(),
            ),
            ControlEvent::Ended(told) => ControlEventView::Ended(told@),
            ControlEvent::Stands(status) => ControlEventView::Stands(*status),
            ControlEvent::Failed(failure) => ControlEventView::Failed(failure.deep_view()),
        }
    }
}

/// A run that is being controlled.
#[derive(Debug)]
pub struct ControlMachine {
    control: Control,
    run_id: String,
    request: Json,
    status: RunStatus,
    resolution: Json,
    stage: ControlStage,
}

#[verifier::ext_equal]
pub struct ControlView {
    pub control: Control,
    pub run_id: Seq<char>,
    pub request: JsonView,
    /// Where the run stood when it was to be controlled.
    pub status: RunStatus,
    /// What is told of the word on input that was taken down.
    pub resolution: JsonView,
    pub stage: ControlStageView,
}

impl DeepView for ControlMachine {
    type V = ControlView;

    closed spec fn deep_view(&self) -> ControlView {
        ControlView {
            control: self.control,
            run_id: self.run_id@,
            request: self.request@,
            status: self.status,
            resolution: self.resolution@,
            stage: self.stage.deep_view(),
        }
    }
}

impl ControlView {
    pub open spec fn at(self, stage: ControlStageView) -> ControlView {
        ControlView { stage, ..self }
    }

    pub open spec fn over(self, outcome: ControlOutcomeView) -> ControlView {
        self.at(ControlStageView::Over(outcome))
    }

    /// The run is not resumed: the deliveries that are open are told, and nothing is done.
    pub open spec fn pending(self, open: OpenDeliveries) -> ControlView {
        self.over(
            ControlOutcomeView::Answer(
                resume_pending_report(
                    self.run_id,
                    self.status,
                    open_warnings(open).json(),
                    self.resolution,
                ),
            ),
        )
    }

    /// The run is to take its step, unless what the request says of it is at fault.
    pub open spec fn ready(self) -> ControlView {
        match limit_asked(self.control, self.request) {
            Err(failure) => self.over(ControlOutcomeView::Failed(failure)),
            Ok(limit) => self.at(ControlStageView::Tick(limit)),
        }
    }

    /// A request, before anything is done.
    pub open spec fn fresh(
        control: Control,
        run_id: Seq<char>,
        request: JsonView,
        status: RunStatus,
        state: DriverStateView,
        open: OpenDeliveries,
    ) -> ControlView {
        let bare = ControlView {
            control,
            run_id,
            request,
            status,
            resolution: JsonView::Null,
            stage: ControlStageView::Tick(None),
        };
        match control_step(control, request, status, open) {
            Err(failure) => bare.over(ControlOutcomeView::Failed(failure)),
            Ok(ControlStepView::NotResting(status)) => bare.over(
                ControlOutcomeView::NotResting(status),
            ),
            Ok(ControlStepView::Pending) => bare.pending(open),
            Ok(ControlStepView::Apply) => bare.ready(),
            Ok(ControlStepView::Resolve(resolution)) => match delivery_meant(
                open,
                resolution.started_event_sequence,
            ) {
                Err(failure) => bare.over(ControlOutcomeView::Failed(failure)),
                Ok(delivery) => match resolution_event(state.deliveries, delivery, resolution) {
                    Err(failure) => bare.over(ControlOutcomeView::Failed(failure)),
                    Ok(event) => bare.at(ControlStageView::Resolve(delivery, resolution, event)),
                },
            },
        }
    }

    /// Where a request is after an event.
    pub open spec fn advanced(self, event: ControlEventView) -> ControlView {
        match (self.stage, event) {
            (ControlStageView::Over(_), _) => self,
            (_, ControlEventView::Failed(failure)) => self.over(
                ControlOutcomeView::Failed(failure),
            ),
            (
                ControlStageView::Resolve(delivery, resolution, _),
                ControlEventView::Resolved(open),
            ) => {
                let told = ControlView {
                    resolution: resolution_report(delivery, resolution),
                    ..self
                };
                if open.len() > 0 {
                    told.pending(open)
                } else {
                    told.ready()
                }
            },
            (ControlStageView::Tick(_), ControlEventView::Ticked(pipeline)) => self.at(
                ControlStageView::Commit(pipeline),
            ),
            (ControlStageView::Commit(pipeline), ControlEventView::Committed) => self.at(
                ControlStageView::Settle(pipeline),
            ),
            (
                ControlStageView::Settle(pipeline),
                ControlEventView::Settled(allocations, actuation),
            ) => {
                let settled = SettledView { pipeline, allocations, actuation: actuation.json() };
                if self.control.ends() {
                    self.at(ControlStageView::End(settled))
                } else {
                    self.at(ControlStageView::Look(settled, JsonView::Null))
                }
            },
            (ControlStageView::End(settled), ControlEventView::Ended(told)) => self.at(
                ControlStageView::Look(settled, told),
            ),
            (
                ControlStageView::Look(settled, lifecycle),
                ControlEventView::Stands(status),
            ) => self.over(
                ControlOutcomeView::Answer(
                    control_report(
                        self.run_id,
                        status,
                        settled.allocations,
                        settled.actuation,
                        self.resolution,
                        lifecycle,
                        settled.pipeline,
                    ),
                ),
            ),
            (_, _) => self,
        }
    }

    /// Where a request is after several events.
    pub open spec fn after(self, events: Seq<ControlEventView>) -> ControlView
        decreases events.len(),
    {
        if events.len() == 0 {
            self
        } else {
            self.after(events.drop_last()).advanced(events.last())
        }
    }

    /// What is to be done next.
    pub open spec fn action(self) -> ControlActionView {
        match self.stage {
            ControlStageView::Resolve(_, _, event) => ControlActionView::WriteResolution(event),
            ControlStageView::Tick(limit) => ControlActionView::Tick(self.control, limit),
            ControlStageView::Commit(_) => ControlActionView::Commit,
            ControlStageView::Settle(_) => ControlActionView::Settle,
            ControlStageView::End(_) => ControlActionView::EndPanes("run_terminal"@),
            ControlStageView::Look(_, _) => ControlActionView::ReadStatus,
            ControlStageView::Over(outcome) => ControlActionView::Finish(outcome),
        }
    }
}

impl ControlMachine {
    /// Begins to control a run, which stands as given.
    pub fn begin(
        control: Control,
        run_id: &str,
        request: Json,
        status: RunStatus,
        state: &ReplayedDriverEvents,
    ) -> (r: Self)
        ensures
            r.deep_view() == ControlView::fresh(
                control,
                run_id@,
                request@,
                status,
                state.deep_view(),
                state.deliveries.ambiguous.pairs(),
            ),
    {
        let step = state.control(control, &request, status);
        let mut machine = ControlMachine {
            control,
            run_id: run_id.to_string(),
            request,
            status,
            resolution: Json::Null,
            stage: ControlStage::Tick(None),
        };
        match step {
            Err(failure) => machine.end(ControlOutcome::Failed(failure)),
            Ok(ControlStep::NotResting(status)) => machine.end(ControlOutcome::NotResting(status)),
            Ok(ControlStep::Pending) => machine.wait(state),
            Ok(ControlStep::Apply) => machine.make_ready(),
            Ok(ControlStep::Resolve(resolution)) => {
                match state.deliveries.delivery_for_resolution(&resolution) {
                    Err(failure) => machine.end(ControlOutcome::Failed(failure)),
                    Ok(delivery) => match state.deliveries.plan_resolution(&delivery, &resolution) {
                        Err(failure) => machine.end(ControlOutcome::Failed(failure)),
                        Ok(event) => {
                            machine.stage = ControlStage::Resolve(delivery, resolution, event);
                        },
                    },
                }
            },
        }
        machine
    }

    fn end(&mut self, outcome: ControlOutcome)
        ensures
            final(self).deep_view() == old(self).deep_view().over(outcome.deep_view()),
    {
        self.stage = ControlStage::Over(outcome);
    }

    fn wait(&mut self, state: &ReplayedDriverEvents)
        ensures
            final(self).deep_view() == old(self).deep_view().pending(
                state.deliveries.ambiguous.pairs(),
            ),
    {
        let warnings = state.open_deliveries();
        assert(warnings.deep_view() =~= open_warnings(
            state.deliveries.ambiguous.pairs(),
        ).warnings);
        let actuation = DriverActuation::with_warnings(warnings);
        let told = resume_pending_response(
            self.run_id.as_str(),
            self.status,
            actuation.to_json(),
            self.resolution.clone(),
        );
        self.end(ControlOutcome::Answer(told));
    }

    fn make_ready(&mut self)
        ensures
            final(self).deep_view() == old(self).deep_view().ready(),
    {
        let limit = match self.control {
            Control::Resume => optional_u64_field(
                &self.request,
                "activation_limit",
                "activationLimit",
            ),
            _ => Ok(None),
        };
        match limit {
            Err(failure) => self.end(ControlOutcome::Failed(failure)),
            Ok(limit) => {
                self.stage = ControlStage::Tick(limit);
            },
        }
    }

    /// What is to be done next.
    pub fn action(&self) -> (r: ControlAction)
        ensures
            r.deep_view() == self.deep_view().action(),
    {
        match &self.stage {
            ControlStage::Resolve(_, _, event) => ControlAction::WriteResolution(
                PlannedEvent { kind: event.kind, payload: event.payload.clone() },
            ),
            ControlStage::Tick(limit) => ControlAction::Tick(self.control, *limit),
            ControlStage::Commit(_) => ControlAction::Commit,
            ControlStage::Settle(_) => ControlAction::Settle,
            ControlStage::End(_) => ControlAction::EndPanes("run_terminal"),
            ControlStage::Look(_, _) => ControlAction::ReadStatus,
            ControlStage::Over(outcome) => ControlAction::Finish(outcome.clone()),
        }
    }

    /// Takes the word on input down, once its event is written. Where there is none to take
    /// down, nothing changes.
    pub fn resolve(&mut self, state: &mut ReplayedDriverEvents)
        ensures
            match old(self).deep_view().stage {
                ControlStageView::Resolve(delivery, resolution, _) => {
                    &&& final(state).deep_view() == (DriverStateView {
                        deliveries: resolved(
                            old(state).deep_view().deliveries,
                            delivery,
                            resolution,
                        ),
                        ..old(state).deep_view()
                    })
                    &&& final(self).deep_view() == old(self).deep_view().advanced(
                        ControlEventView::Resolved(final(state).deliveries.ambiguous.pairs()),
                    )
                },
                _ => {
                    &&& *final(state) == *old(state)
                    &&& final(self).deep_view() == old(self).deep_view()
                },
            },
    {
        match &self.stage {
            ControlStage::Resolve(delivery, resolution, _) => {
                state.deliveries.resolve_input_delivery(delivery, resolution);
                let told = resolution.report(delivery);
                self.resolution = told;
                if state.deliveries.ambiguous.len() > 0 {
                    self.wait(state);
                } else {
                    self.make_ready();
                }
            },
            _ => {},
        }
    }

    /// Goes on with what came of what was to be done. What does not answer it is passed over.
    pub fn advance(self, event: ControlEvent) -> (r: Self)
        ensures
            r.deep_view() == self.deep_view().advanced(event.deep_view()),
    {
        let stage = match (self.stage, event) {
            (ControlStage::Over(outcome), _) => ControlStage::Over(outcome),
            (_, ControlEvent::Failed(failure)) => ControlStage::Over(
                ControlOutcome::Failed(failure),
            ),
            (ControlStage::Tick(_), ControlEvent::Ticked(pipeline)) => ControlStage::Commit(
                pipeline,
            ),
            (ControlStage::Commit(pipeline), ControlEvent::Committed) => ControlStage::Settle(
                pipeline,
            ),
            (
                ControlStage::Settle(pipeline),
                ControlEvent::Settled(allocations, actuation),
            ) => {
                let settled = Settled { pipeline, allocations, actuation: actuation.to_json() };
                if self.control.finalizes() {
                    ControlStage::End(settled)
                } else {
                    ControlStage::Look(settled, Json::Null)
                }
            },
            (ControlStage::End(settled), ControlEvent::Ended(told)) => ControlStage::Look(
                settled,
                told,
            ),
            (ControlStage::Look(settled, lifecycle), ControlEvent::Stands(status)) => {
                let told = control_response(
                    self.run_id.as_str(),
                    status,
                    settled.allocations,
                    settled.actuation,
                    self.resolution.clone(),
                    lifecycle,
                    settled.pipeline,
                );
                ControlStage::Over(ControlOutcome::Answer(told))
            },
            (stage, _) => stage,
        };
        ControlMachine {
            control: self.control,
            run_id: self.run_id,
            request: self.request,
            status: self.status,
            resolution: self.resolution,
            stage,
        }
    }
}

/// Whether an event says that nothing is open once a word on input is taken down.
pub open spec fn leaves_none_open(event: ControlEventView) -> bool {
    event is Resolved && event->Resolved_0.len() == 0
}

impl ControlView {
    /// Whether the word on input was taken down during events, with nothing open behind it.
    pub open spec fn cleared(self, events: Seq<ControlEventView>) -> bool {
        exists|i: int|
            0 <= i < events.len() && (#[trigger] self.after(events.take(i))).stage is Resolve
                && leaves_none_open(events[i])
    }
}

proof fn lemma_clearing_stays(start: ControlView, events: Seq<ControlEventView>)
    requires
        events.len() > 0,
        start.cleared(events.drop_last()),
    ensures
        start.cleared(events),
{
    let front = events.drop_last();
    let i = choose|i: int|
        0 <= i < front.len() && (#[trigger] start.after(front.take(i))).stage is Resolve
            && leaves_none_open(front[i]);
    assert(front.take(i) =~= events.take(i));
    assert(start.after(events.take(i)).stage is Resolve);
}

/// An open delivery keeps a run from being resumed: the run takes no step, and nothing of it is
/// kept or settled, unless nothing was open at first or nothing is left open once the word of
/// the request is taken down.
pub proof fn lemma_open_deliveries_keep_runs_from_resuming(
    run_id: Seq<char>,
    request: JsonView,
    status: RunStatus,
    state: DriverStateView,
    open: OpenDeliveries,
    events: Seq<ControlEventView>,
)
    requires
        open.len() > 0,
    ensures
        ({
            let fresh = ControlView::fresh(Control::Resume, run_id, request, status, state, open);
            let action = fresh.after(events).action();
            action is WriteResolution || action is Finish || fresh.cleared(events)
        }),
    decreases events.len(),
{
    let fresh = ControlView::fresh(Control::Resume, run_id, request, status, state, open);
    if events.len() > 0 {
        let front = events.drop_last();
        lemma_open_deliveries_keep_runs_from_resuming(run_id, request, status, state, open, front);
        if fresh.cleared(front) {
            lemma_clearing_stays(fresh, events);
        } else {
            let before = fresh.after(front);
            if before.stage is Resolve && events.last() is Resolved {
                assert(events.take(events.len() - 1) =~= front);
                assert(fresh.after(events.take(events.len() - 1)).stage is Resolve);
            }
        }
    }
}

/// A run that rests is asked to resume without a word on input while a delivery is open: it is
/// answered at once that this is pending, and nothing else is done.
pub proof fn lemma_pending_resumptions_are_told(
    run_id: Seq<char>,
    request: JsonView,
    status: RunStatus,
    state: DriverStateView,
    open: OpenDeliveries,
)
    requires
        open.len() > 0,
        rests(status),
        resolution_in(request) == Ok::<Option<ResolutionView>, FailureView>(None),
    ensures
        ControlView::fresh(Control::Resume, run_id, request, status, state, open).action()
            == ControlActionView::Finish(
            ControlOutcomeView::Answer(
                resume_pending_report(
                    run_id,
                    status,
                    open_warnings(open).json(),
                    JsonView::Null,
                ),
            ),
        ),
{
}

/// What a run becomes is kept before panes are given, and its panes are ended only where it is
/// stopped or completed.
pub proof fn lemma_control_goes_in_order(machine: ControlView, event: ControlEventView)
    ensures
        machine.advanced(event).stage is Commit ==> machine.stage is Commit || (
        machine.stage is Tick && event is Ticked),
        machine.advanced(event).stage is Settle ==> machine.stage is Settle || (
        machine.stage is Commit && event is Committed),
        machine.advanced(event).stage is End ==> machine.stage is End || (machine.stage is Settle
            && event is Settled && machine.control.ends()),
        machine.advanced(event).stage is Look ==> machine.stage is Look || (machine.stage is End
            && event is Ended) || (machine.stage is Settle && event is Settled
            && !machine.control.ends()),
        machine.advanced(event).control == machine.control,
{
}

} // verus!
