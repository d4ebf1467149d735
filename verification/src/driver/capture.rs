//! How what a pane prints comes to be kept: a helper is planned, started, told of and
//! acknowledged, one step after the other.
use vstd::prelude::*;

use crate::adapters::tmux::pipe::{PipeDescriptorView, PipeSinkIdentity, TmuxPipeCaptureDescriptor};

use super::cleanup::{ActivationAsset, AssetView};
use super::delivery::{PlannedEvent, PlannedEventView};
use super::failure::{result_of, DriverFailure, FailureView};
use super::keys::{allocation_key, AllocationKeyView};
use super::lifecycle::{
    capture_begun, capture_stands, capture_started_event, capture_to_start, new_capture_intent,
    pipe_capture_started_event,
};
use super::records::{
    StoredPane, StoredPaneView, TmuxPipeCaptureIntent, TmuxPipeCaptureIntentView,
};
use super::replay::{DriverStateView, ReplayedDriverEvents};

verus! {

broadcast use vstd::string::group_string_axioms;

/// How far it has come.
#[derive(Debug, Clone, Copy, PartialEq, Eq, Structural)]
pub enum CaptureStage {
    Prepare,
    Plan,
    Start,
    Record,
    Acknowledge,
    RemoveAck,
    Nonce,
    Over,
}

/// What is to be done next.
#[derive(Debug, Clone, Copy, PartialEq, Eq, Structural)]
pub enum CaptureAction {
    /// Make the file that takes in what the pane prints.
    Prepare,
    /// Keep that a helper is to be started.
    KeepIntent,
    /// Start the helper.
    StartHelper,
    /// Keep that the helper runs.
    KeepStart,
    /// Note among the assets of the run that the helper runs.
    Acknowledge,
    /// Take away the file in which the helper said that it is ready.
    RemoveAck,
    /// Find the word by which the agent of the activation is known.
    ReadNonce,
    /// Stop.
    Finish,
}

/// What came of it.
#[derive(Debug)]
pub enum CaptureEvent {
    Done,
    /// The file is there: its place, what it is known by, the process that asked for it, and the
    /// word that the helper is to answer with.
    Prepared(String, PipeSinkIdentity, u32, String),
    Started(TmuxPipeCaptureDescriptor),
    Nonce(String),
    Failed(DriverFailure),
}

#[verifier::ext_equal]
pub enum CaptureEventView {
    Done,
    Prepared(Seq<char>, PipeSinkIdentity, u32, Seq<char>),
    Started(PipeDescriptorView),
    Nonce(Seq<char>),
    Failed(FailureView),
}

impl DeepView for CaptureEvent {
    type V = CaptureEventView;

    open spec fn deep_view(&self) -> CaptureEventView {
        match self {
            CaptureEvent::Done => CaptureEventView::Done,
            CaptureEvent::Prepared(transcript, identity, pid, nonce) => {
                CaptureEventView::Prepared(transcript@, *identity, *pid, nonce@)
            },
            CaptureEvent::Started(descriptor) => CaptureEventView::Started(
                descriptor.deep_view(),
            ),
            CaptureEvent::Nonce(nonce) => CaptureEventView::Nonce(nonce@),
            CaptureEvent::Failed(failure) => CaptureEventView::Failed(failure.deep_view()),
        }
    }
}

/// A helper on a pane that is being started, or found to run.
#[derive(Debug)]
pub struct CaptureMachine {
    run_id: String,
    activation_id: String,
    pane: StoredPane,
    stage: CaptureStage,
    intent: Option<TmuxPipeCaptureIntent>,
    descriptor: Option<TmuxPipeCaptureDescriptor>,
    outcome: Option<Result<String, DriverFailure>>,
}

#[verifier::ext_equal]
pub struct CaptureView {
    pub run_id: Seq<char>,
    pub activation_id: Seq<char>,
    pub pane: StoredPaneView,
    pub stage: CaptureStage,
    pub intent: Option<TmuxPipeCaptureIntentView>,
    pub descriptor: Option<PipeDescriptorView>,
    pub outcome: Option<Result<Seq<char>, FailureView>>,
}

/// The model of what came out.
pub open spec fn nonce_of(outcome: Option<Result<String, DriverFailure>>) -> Option<
    Result<Seq<char>, FailureView>,
> {
    match outcome {
        None => None,
        Some(result) => Some(result_of(result)),
    }
}

impl DeepView for CaptureMachine {
    type V = CaptureView;

    closed spec fn deep_view(&self) -> CaptureView {
        CaptureView {
            run_id: self.run_id@,
            activation_id: self.activation_id@,
            pane: self.pane.deep_view(),
            stage: self.stage,
            intent: self.intent.deep_view(),
            descriptor: self.descriptor.deep_view(),
            outcome: nonce_of(self.outcome),
        }
    }
}

/// The event that says that a helper is to be started.
pub open spec fn capture_intent_event(intent: TmuxPipeCaptureIntentView) -> PlannedEventView {
    PlannedEventView { kind: "pipe_capture_intent"@, payload: intent.json() }
}

impl CaptureView {
    pub open spec fn at(self, stage: CaptureStage) -> CaptureView {
        CaptureView { stage, ..self }
    }

    pub open spec fn ended(self, outcome: Result<Seq<char>, FailureView>) -> CaptureView {
        CaptureView { stage: CaptureStage::Over, outcome: Some(outcome), ..self }
    }

    /// Where it starts: a helper that runs is left alone, and one that was planned is started as
    /// it was planned.
    pub open spec fn fresh(
        state: DriverStateView,
        asset: Option<AssetView>,
        run_id: Seq<char>,
        activation_id: Seq<char>,
        pane: StoredPaneView,
    ) -> CaptureView {
        let start = CaptureView {
            run_id,
            activation_id,
            pane,
            stage: CaptureStage::Prepare,
            intent: None,
            descriptor: None,
            outcome: None,
        };
        let key = AllocationKeyView { activation_id, generation: pane.allocation_generation };
        if capture_stands(asset, pane, state.pipe_captures, activation_id) {
            if state.participant_bindings.dom().contains(key) {
                start.ended(Ok(state.participant_bindings[key].readiness_nonce))
            } else {
                start.at(CaptureStage::Nonce)
            }
        } else {
            match capture_begun(state.pending_pipe_captures, activation_id, pane) {
                Err(failure) => start.ended(Err(failure)),
                Ok(None) => start,
                Ok(Some(intent)) => CaptureView {
                    stage: CaptureStage::Start,
                    intent: Some(intent),
                    ..start
                },
            }
        }
    }

    pub open spec fn action(self) -> CaptureAction {
        match self.stage {
            CaptureStage::Prepare => CaptureAction::Prepare,
            CaptureStage::Plan => CaptureAction::KeepIntent,
            CaptureStage::Start => CaptureAction::StartHelper,
            CaptureStage::Record => CaptureAction::KeepStart,
            CaptureStage::Acknowledge => CaptureAction::Acknowledge,
            CaptureStage::RemoveAck => CaptureAction::RemoveAck,
            CaptureStage::Nonce => CaptureAction::ReadNonce,
            CaptureStage::Over => CaptureAction::Finish,
        }
    }

    /// The event that is to be kept, where one is.
    pub open spec fn event(self) -> Option<PlannedEventView> {
        match (self.stage, self.intent, self.descriptor) {
            (CaptureStage::Plan, Some(intent), _) => Some(capture_intent_event(intent)),
            (CaptureStage::Record, Some(intent), Some(descriptor)) => Some(
                capture_started_event(
                    self.activation_id,
                    self.pane.allocation_generation,
                    intent.operation_id,
                    descriptor,
                ),
            ),
            _ => None,
        }
    }

    pub open spec fn advanced(self, event: CaptureEventView) -> CaptureView {
        match (self.stage, event) {
            (CaptureStage::Over, _) => self,
            (_, CaptureEventView::Failed(failure)) => self.ended(Err(failure)),
            (
                CaptureStage::Prepare,
                CaptureEventView::Prepared(transcript, identity, pid, nonce),
            ) => CaptureView {
                stage: CaptureStage::Plan,
                intent: Some(
                    capture_to_start(
                        self.run_id,
                        self.activation_id,
                        self.pane,
                        transcript,
                        identity,
                        pid,
                        nonce,
                    ),
                ),
                ..self
            },
            (CaptureStage::Plan, CaptureEventView::Done) => self.at(CaptureStage::Start),
            (CaptureStage::Start, CaptureEventView::Started(descriptor)) => CaptureView {
                stage: CaptureStage::Record,
                descriptor: Some(descriptor),
                ..self
            },
            (CaptureStage::Record, CaptureEventView::Done) => self.at(CaptureStage::Acknowledge),
            (CaptureStage::Acknowledge, CaptureEventView::Done) => self.at(
                CaptureStage::RemoveAck,
            ),
            (CaptureStage::RemoveAck, CaptureEventView::Done) => self.at(CaptureStage::Nonce),
            (CaptureStage::Nonce, CaptureEventView::Nonce(nonce)) => self.ended(Ok(nonce)),
            _ => self,
        }
    }

    /// The state after events.
    pub open spec fn after(self, events: Seq<CaptureEventView>) -> CaptureView
        decreases events.len(),
    {
        if events.len() == 0 {
            self
        } else {
            self.after(events.drop_last()).advanced(events.last())
        }
    }

    /// Whether an action came up among events and was done.
    pub open spec fn did(self, events: Seq<CaptureEventView>, action: CaptureAction) -> bool {
        exists|i: int|
            0 <= i < events.len() && (#[trigger] self.after(events.take(i))).action() == action
                && events[i] is Done
    }
}

impl CaptureMachine {
    pub fn new(
        state: &ReplayedDriverEvents,
        asset: &Option<ActivationAsset>,
        run_id: &str,
        activation_id: &str,
        pane: &StoredPane,
    ) -> (r: Self)
        ensures
            r.deep_view() == CaptureView::fresh(
                state.deep_view(),
                asset.deep_view(),
                run_id@,
                activation_id@,
                pane.deep_view(),
            ),
    {
        let mut machine = CaptureMachine {
            run_id: run_id.to_string(),
            activation_id: activation_id.to_string(),
            pane: pane.clone(),
            stage: CaptureStage::Prepare,
            intent: None,
            descriptor: None,
            outcome: None,
        };
        if state.capture_stands(asset, pane, activation_id) {
            let key = allocation_key(activation_id, pane.allocation_generation);
            match state.participant_bindings.get(&key) {
                Some(binding) => {
                    machine.stage = CaptureStage::Over;
                    machine.outcome = Some(Ok(binding.readiness_nonce.clone()));
                },
                None => {
                    machine.stage = CaptureStage::Nonce;
                },
            }
            return machine;
        }
        match state.pending_capture(activation_id, pane) {
            Err(failure) => {
                machine.stage = CaptureStage::Over;
                machine.outcome = Some(Err(failure));
            },
            Ok(None) => {},
            Ok(Some(intent)) => {
                machine.stage = CaptureStage::Start;
                machine.intent = Some(intent);
            },
        }
        machine
    }

    pub fn action(&self) -> (r: CaptureAction)
        ensures
            r == self.deep_view().action(),
    {
        match self.stage {
            CaptureStage::Prepare => CaptureAction::Prepare,
            CaptureStage::Plan => CaptureAction::KeepIntent,
            CaptureStage::Start => CaptureAction::StartHelper,
            CaptureStage::Record => CaptureAction::KeepStart,
            CaptureStage::Acknowledge => CaptureAction::Acknowledge,
            CaptureStage::RemoveAck => CaptureAction::RemoveAck,
            CaptureStage::Nonce => CaptureAction::ReadNonce,
            CaptureStage::Over => CaptureAction::Finish,
        }
    }

    /// The helper, once it is planned.
    pub fn intent(&self) -> (r: Option<&TmuxPipeCaptureIntent>)
        ensures
            r.deep_view() == self.deep_view().intent,
    {
        match &self.intent {
            Some(intent) => Some(intent),
            None => None,
        }
    }

    /// The event that is to be kept, where one is.
    pub fn event(&self) -> (r: Option<PlannedEvent>)
        ensures
            r.deep_view() == self.deep_view().event(),
    {
        match (&self.stage, &self.intent, &self.descriptor) {
            (CaptureStage::Plan, Some(intent), _) => Some(
                PlannedEvent { kind: "pipe_capture_intent", payload: intent.to_json() },
            ),
            (CaptureStage::Record, Some(intent), Some(descriptor)) => Some(
                pipe_capture_started_event(
                    self.activation_id.as_str(),
                    self.pane.allocation_generation,
                    intent.operation_id.as_str(),
                    descriptor,
                ),
            ),
            _ => None,
        }
    }

    /// Goes on with what came of the last action.
    pub fn advance(&mut self, event: CaptureEvent)
        ensures
            final(self).deep_view() == old(self).deep_view().advanced(event.deep_view()),
    {
        match event {
            CaptureEvent::Done => {
                self.stage = match self.stage {
                    CaptureStage::Plan => CaptureStage::Start,
                    CaptureStage::Record => CaptureStage::Acknowledge,
                    CaptureStage::Acknowledge => CaptureStage::RemoveAck,
                    CaptureStage::RemoveAck => CaptureStage::Nonce,
                    other => other,
                };
            },
            CaptureEvent::Prepared(transcript, identity, pid, nonce) => {
                if let CaptureStage::Prepare = self.stage {
                    self.intent = Some(
                        new_capture_intent(
                            self.run_id.as_str(),
                            self.activation_id.as_str(),
                            &self.pane,
                            transcript.as_str(),
                            identity,
                            pid,
                            nonce.as_str(),
                        ),
                    );
                    self.stage = CaptureStage::Plan;
                }
            },
            CaptureEvent::Started(descriptor) => {
                if let CaptureStage::Start = self.stage {
                    self.descriptor = Some(descriptor);
                    self.stage = CaptureStage::Record;
                }
            },
            CaptureEvent::Nonce(nonce) => {
                if let CaptureStage::Nonce = self.stage {
                    self.outcome = Some(Ok(nonce));
                    self.stage = CaptureStage::Over;
                }
            },
            CaptureEvent::Failed(failure) => {
                match self.stage {
                    CaptureStage::Over => {},
                    _ => {
                        self.outcome = Some(Err(failure));
                        self.stage = CaptureStage::Over;
                    },
                }
            },
        }
    }

    /// The word by which the agent is known, once it is over.
    pub fn into_outcome(self) -> (r: Option<Result<String, DriverFailure>>)
        ensures
            nonce_of(r) == self.deep_view().outcome,
    {
        self.outcome
    }
}

impl CaptureView {
    /// What holds at every stage.
    pub open spec fn sound(self, start: CaptureView, events: Seq<CaptureEventView>) -> bool {
        let planned = start.stage == CaptureStage::Start || start.did(
            events,
            CaptureAction::KeepIntent,
        );
        let waits = start.stage == CaptureStage::Nonce || start.stage == CaptureStage::Over;
        &&& (self.stage == CaptureStage::Over) == (self.outcome is Some)
        &&& waits ==> (self.stage == CaptureStage::Nonce || self.stage == CaptureStage::Over)
        &&& match self.stage {
            CaptureStage::Prepare => true,
            CaptureStage::Plan => self.intent is Some,
            CaptureStage::Start => planned && self.intent is Some,
            CaptureStage::Record => planned && self.intent is Some && self.descriptor is Some,
            CaptureStage::Acknowledge => planned && start.did(events, CaptureAction::KeepStart),
            CaptureStage::RemoveAck => planned && start.did(events, CaptureAction::KeepStart)
                && start.did(events, CaptureAction::Acknowledge),
            CaptureStage::Nonce => start.stage == CaptureStage::Nonce || planned && start.did(
                events,
                CaptureAction::KeepStart,
            ) && start.did(events, CaptureAction::Acknowledge),
            CaptureStage::Over => self.outcome matches Some(Ok(_)) ==> waits || planned
                && start.did(events, CaptureAction::KeepStart) && start.did(
                events,
                CaptureAction::Acknowledge,
            ),
        }
    }
}

proof fn lemma_did_stays(start: CaptureView, events: Seq<CaptureEventView>, action: CaptureAction)
    requires
        events.len() > 0,
        start.did(events.drop_last(), action),
    ensures
        start.did(events, action),
{
    let front = events.drop_last();
    let i = choose|i: int|
        0 <= i < front.len() && (#[trigger] start.after(front.take(i))).action() == action
            && front[i] is Done;
    assert(front.take(i) =~= events.take(i));
    assert(start.after(events.take(i)).action() == action);
}

proof fn lemma_did_last(start: CaptureView, events: Seq<CaptureEventView>)
    requires
        events.len() > 0,
        events.last() is Done,
    ensures
        start.did(events, start.after(events.drop_last()).action()),
{
    let i = events.len() - 1;
    assert(events.take(i) =~= events.drop_last());
    assert(start.after(events.take(i)).action() == start.after(events.drop_last()).action());
}

proof fn lemma_capture_sound(
    state: DriverStateView,
    asset: Option<AssetView>,
    run_id: Seq<char>,
    activation_id: Seq<char>,
    pane: StoredPaneView,
    events: Seq<CaptureEventView>,
)
    ensures
        ({
            let start = CaptureView::fresh(state, asset, run_id, activation_id, pane);
            start.after(events).sound(start, events)
        }),
    decreases events.len(),
{
    let start = CaptureView::fresh(state, asset, run_id, activation_id, pane);
    if events.len() > 0 {
        let front = events.drop_last();
        lemma_capture_sound(state, asset, run_id, activation_id, pane, front);
        assert forall|action: CaptureAction| #[trigger] start.did(front, action) implies start.did(
            events,
            action,
        ) by {
            lemma_did_stays(start, events, action);
        }
        if events.last() is Done {
            lemma_did_last(start, events);
        }
    }
}

/// A helper that runs is left alone: none is prepared, planned or started in its place.
pub proof fn lemma_running_helpers_are_left_alone(
    state: DriverStateView,
    asset: Option<AssetView>,
    run_id: Seq<char>,
    activation_id: Seq<char>,
    pane: StoredPaneView,
    events: Seq<CaptureEventView>,
)
    requires
        capture_stands(asset, pane, state.pipe_captures, activation_id),
    ensures
        ({
            let start = CaptureView::fresh(state, asset, run_id, activation_id, pane);
            let action = start.after(events).action();
            action == CaptureAction::ReadNonce || action == CaptureAction::Finish
        }),
{
    lemma_capture_sound(state, asset, run_id, activation_id, pane, events);
}

/// A helper is started only once it is kept that it is to be: now, or before a restart.
pub proof fn lemma_helpers_are_planned_before_they_start(
    state: DriverStateView,
    asset: Option<AssetView>,
    run_id: Seq<char>,
    activation_id: Seq<char>,
    pane: StoredPaneView,
    events: Seq<CaptureEventView>,
)
    requires
        CaptureView::fresh(state, asset, run_id, activation_id, pane).after(events).action()
            == CaptureAction::StartHelper,
    ensures
        state.pending_pipe_captures.dom().contains(activation_id) || CaptureView::fresh(
            state,
            asset,
            run_id,
            activation_id,
            pane,
        ).did(events, CaptureAction::KeepIntent),
{
    lemma_capture_sound(state, asset, run_id, activation_id, pane, events);
}

/// That a helper runs is kept before it is noted among the assets.
pub proof fn lemma_starts_are_kept_before_they_are_noted(
    state: DriverStateView,
    asset: Option<AssetView>,
    run_id: Seq<char>,
    activation_id: Seq<char>,
    pane: StoredPaneView,
    events: Seq<CaptureEventView>,
)
    requires
        CaptureView::fresh(state, asset, run_id, activation_id, pane).after(events).action()
            == CaptureAction::Acknowledge,
    ensures
        CaptureView::fresh(state, asset, run_id, activation_id, pane).did(
            events,
            CaptureAction::KeepStart,
        ),
{
    lemma_capture_sound(state, asset, run_id, activation_id, pane, events);
}

/// It ends well only if a helper runs: one that did before, or one that was kept and noted.
pub proof fn lemma_panes_are_captured_in_the_end(
    state: DriverStateView,
    asset: Option<AssetView>,
    run_id: Seq<char>,
    activation_id: Seq<char>,
    pane: StoredPaneView,
    events: Seq<CaptureEventView>,
)
    requires
        CaptureView::fresh(state, asset, run_id, activation_id, pane).after(events).outcome
            matches Some(Ok(_)),
    ensures
        capture_stands(asset, pane, state.pipe_captures, activation_id) || ({
            let start = CaptureView::fresh(state, asset, run_id, activation_id, pane);
            &&& start.did(events, CaptureAction::KeepStart)
            &&& start.did(events, CaptureAction::Acknowledge)
        }),
{
    lemma_capture_sound(state, asset, run_id, activation_id, pane, events);
    let start = CaptureView::fresh(state, asset, run_id, activation_id, pane);
    if !capture_stands(asset, pane, state.pipe_captures, activation_id) && start.stage
        == CaptureStage::Over {
        lemma_over_stays(start, events);
    }
}

proof fn lemma_over_stays(start: CaptureView, events: Seq<CaptureEventView>)
    requires
        start.stage == CaptureStage::Over,
    ensures
        start.after(events) == start,
    decreases events.len(),
{
    if events.len() > 0 {
        lemma_over_stays(start, events.drop_last());
    }
}

} // verus!
