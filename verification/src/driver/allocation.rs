//! How an activation comes to its pane: the pane is planned, made or found, and kept, one step
//! after the other; and which panes are gone.
use vstd::prelude::*;

use crate::adapters::tmux::adapter::TmuxAdapter;
use crate::adapters::tmux::argv::target_of_pane;
use crate::adapters::tmux::error::{owned_fault, TmuxErrorView};
use crate::adapters::tmux::model::{
    TmuxActivationMetadata, TmuxActivationMetadataView, TmuxPane, TmuxPaneView, TmuxWindow,
    TmuxWindowView,
};
use crate::adapters::tmux::pane_presence::{presence_probed, TmuxPanePresence};
use crate::adapters::tmux::runner::{outcome, CommandRunner};
use crate::json::{Json, JsonView};
use crate::order::Comparable;
use crate::table::Table;
use crate::text::same;

use super::actuation::{DriverActuation, DriverActuationView};
use super::delivery::{PlannedEvent, PlannedEventView};
use super::failure::{
    among, lemma_left_panes_are_kept, result_of, DriverFailure, FailureView,
};
use super::laws::logged;
use super::lifecycle::{
    has_pane, no_panes, no_panes_json, owned_panes, owned_panes_json, place_with_operator,
    told_panes, told_panes_json, with_operator_window,
};
use super::ownership::{
    allocated_event, allocation_to_make, asked_tmux, binding_changes, binding_event, from_tmux,
    pane_allocated_event, should_replace_binding, tmux_binding_event, tmux_config_from_request,
    tmux_failure, DriverTmuxConfig, DriverTmuxConfigView,
};
use super::records::{
    DriverPaneConfig, DriverPaneConfigView, StoredPane, StoredPaneView, TmuxPaneAllocationIntent, TmuxPaneAllocationIntentView,
};
use super::replay::{
    DriverStateView, DriverTmuxState, DriverTmuxStateView, ReplayFault, ReplayedDriverEvents,
};
use super::restart::lemma_tmux_binding_survives;

verus! {

broadcast use vstd::string::group_string_axioms;

/// What is said of the pane of an activation when it is looked for.
pub open spec fn sought(
    run_id: Seq<char>,
    activation_id: Seq<char>,
    pane: StoredPaneView,
) -> TmuxActivationMetadataView {
    TmuxActivationMetadataView {
        session_id: pane.session_id,
        run_id,
        window_name: pane.window_name,
        window_id: pane.window_id,
        activation_id,
        pane_id: pane.pane_id,
        allocation_generation: 0,
    }
}

/// What may come of looking for a pane.
pub open spec fn pane_sought<R: CommandRunner>(
    runner: R,
    metadata: TmuxActivationMetadataView,
    r: Result<TmuxPanePresence, TmuxErrorView>,
) -> bool {
    match owned_fault("pane"@, metadata.session_id) {
        Some(fault) => r == Err::<TmuxPanePresence, TmuxErrorView>(fault),
        None => presence_probed(
            runner,
            target_of_pane(metadata.pane()),
            metadata.identity(),
            true,
            r,
        ),
    }
}

/// Whether each of the first activations has been looked after: the pane of one that has one was
/// found to be there, or to be gone.
pub open spec fn looked_after<R: CommandRunner>(
    runner: R,
    run_id: Seq<char>,
    tmux: Option<DriverTmuxStateView>,
    activation_ids: Seq<Seq<char>>,
    gone: Seq<bool>,
) -> bool {
    &&& gone.len() <= activation_ids.len()
    &&& forall|i: int|
        0 <= i < gone.len() ==> if has_pane(tmux, activation_ids[i]) {
            pane_sought(
                runner,
                sought(run_id, activation_ids[i], tmux->0.panes[activation_ids[i]]),
                Ok(
                    if #[trigger] gone[i] {
                        TmuxPanePresence::Absent
                    } else {
                        TmuxPanePresence::Present
                    },
                ),
            )
        } else {
            !gone[i]
        }
}

/// The activations whose panes are gone.
pub open spec fn bereft(activation_ids: Seq<Seq<char>>, gone: Seq<bool>) -> Seq<Seq<char>>
    decreases gone.len(),
{
    if gone.len() == 0 {
        Seq::empty()
    } else if gone.last() {
        bereft(activation_ids, gone.drop_last()).push(activation_ids[gone.len() - 1])
    } else {
        bereft(activation_ids, gone.drop_last())
    }
}

/// What may come of looking for the panes of activations. The first fault counts.
pub open spec fn stale_found<R: CommandRunner>(
    runner: R,
    run_id: Seq<char>,
    tmux: Option<DriverTmuxStateView>,
    activation_ids: Seq<Seq<char>>,
    r: Result<Seq<Seq<char>>, FailureView>,
) -> bool {
    match r {
        Ok(stale) => exists|gone: Seq<bool>|
            gone.len() == activation_ids.len() && #[trigger] looked_after(
                runner,
                run_id,
                tmux,
                activation_ids,
                gone,
            ) && stale == bereft(activation_ids, gone),
        Err(failure) => exists|gone: Seq<bool>, error: TmuxErrorView|
            gone.len() < activation_ids.len() && #[trigger] looked_after(
                runner,
                run_id,
                tmux,
                activation_ids,
                gone,
            ) && has_pane(tmux, activation_ids[gone.len() as int]) && #[trigger] pane_sought(
                runner,
                sought(
                    run_id,
                    activation_ids[gone.len() as int],
                    tmux->0.panes[activation_ids[gone.len() as int]],
                ),
                Err(error),
            ) && failure == tmux_failure(error),
    }
}

/// The activations whose panes are gone, so that they are to be cleaned up after.
pub fn stale_tmux_panes<R: CommandRunner>(
    adapter: &TmuxAdapter<R>,
    run_id: &str,
    tmux: &Option<DriverTmuxState>,
    activation_ids: &Vec<String>,
) -> (r: Result<Vec<String>, DriverFailure>)
    ensures
        stale_found(
            adapter.runs(),
            run_id@,
            tmux.deep_view(),
            activation_ids.deep_view(),
            result_of(r),
        ),
{
    let mut stale: Vec<String> = Vec::new();
    let ghost ids = activation_ids.deep_view();
    let ghost mut gone: Seq<bool> = Seq::empty();
    assert(stale.deep_view() =~= bereft(ids, gone));
    let mut i: usize = 0;
    while i < activation_ids.len()
        invariant
            i <= activation_ids.len(),
            ids == activation_ids.deep_view(),
            gone.len() == i,
            looked_after(adapter.runs(), run_id@, tmux.deep_view(), ids, gone),
            stale.deep_view() == bereft(ids, gone),
        decreases activation_ids.len() - i,
    {
        let activation_id = &activation_ids[i];
        assert(ids[i as int] == activation_id@);
        let ghost before = gone;
        let pane = match tmux {
            Some(tmux) => tmux.panes.get(activation_id),
            None => None,
        };
        match pane {
            None => {
                proof {
                    gone = gone.push(false);
                }
            },
            Some(pane) => {
                let metadata = TmuxActivationMetadata::new(
                    pane.session_id.clone(),
                    run_id.to_string(),
                    pane.window_name.clone(),
                    pane.window_id.clone(),
                    activation_id.clone(),
                    pane.pane_id.clone(),
                );
                assert(metadata.deep_view() == sought(run_id@, ids[i as int], pane.deep_view()));
                let found = adapter.probe_exact_pane_presence(&metadata);
                assert(pane_sought(adapter.runs(), metadata.deep_view(), outcome(found)));
                match found {
                    Err(error) => {
                        assert(looked_after(
                            adapter.runs(),
                            run_id@,
                            tmux.deep_view(),
                            ids,
                            gone,
                        ));
                        return Err(from_tmux(error));
                    },
                    Ok(TmuxPanePresence::Present) => {
                        proof {
                            gone = gone.push(false);
                        }
                    },
                    Ok(TmuxPanePresence::Absent) => {
                        let ghost known = stale.deep_view();
                        stale.push(activation_id.clone());
                        assert(stale.deep_view() =~= known.push(ids[i as int]));
                        proof {
                            gone = gone.push(true);
                        }
                    },
                }
            },
        }
        assert(gone.drop_last() =~= before);
        i += 1;
    }
    Ok(stale)
}

/// What is to be done about the panes that a request asks for.
#[derive(Debug)]
pub enum PanesStep {
    /// Nothing: this is told of them.
    Told(Json),
    /// They are to be given, here.
    Give(DriverTmuxConfig),
}

/// The deliveries that are in doubt.
pub open spec fn doubts(state: ReplayedDriverEvents) -> Seq<JsonView> {
    Seq::new(
        state.deliveries.ambiguous.pairs().len(),
        |i: int| state.deliveries.ambiguous.pairs()[i].1.json(),
    )
}

/// Whether a step is the right one for a request for panes: none are given where none are asked
/// for, nor to a run that does not go.
pub open spec fn panes_asked(
    state: ReplayedDriverEvents,
    request: JsonView,
    going: bool,
    operator: Option<DriverPaneConfigView>,
    r: Result<PanesStep, DriverFailure>,
) -> bool {
    match asked_tmux(request) {
        Err(failure) => r is Err && r->Err_0.deep_view() == failure,
        Ok(None) => r matches Ok(PanesStep::Told(told)) && told@ == no_panes(
            DriverActuationView::none().json(),
        ),
        Ok(Some(config)) => if going {
            r matches Ok(PanesStep::Give(place)) && place.deep_view() == place_with_operator(
                config,
                operator,
            )
        } else {
            r matches Ok(PanesStep::Told(told)) && told@ == told_panes(
                state.tmux is Some,
                state.tmux.deep_view(),
                owned_panes(state.tmux),
                (DriverActuationView { sent: Seq::empty(), warnings: doubts(state) }).json(),
            )
        },
    }
}

impl ReplayedDriverEvents {
    /// What is to be done about the panes that a request asks for.
    pub fn bind_tmux_step(
        &self,
        request: &Json,
        going: bool,
        operator: &Option<DriverPaneConfig>,
    ) -> (r: Result<PanesStep, DriverFailure>)
        ensures
            panes_asked(*self, request@, going, operator.deep_view(), r),
    {
        let config = match tmux_config_from_request(request) {
            Err(failure) => return Err(failure),
            Ok(None) => return Ok(
                PanesStep::Told(no_panes_json(DriverActuation::default().to_json())),
            ),
            Ok(Some(config)) => config,
        };
        if going {
            return Ok(PanesStep::Give(with_operator_window(config, operator)));
        }
        let warnings = self.open_deliveries();
        Ok(
            PanesStep::Told(
                told_panes_json(
                    self.tmux.is_some(),
                    &self.tmux,
                    owned_panes_json(&self.tmux),
                    DriverActuation::with_warnings(warnings).to_json(),
                ),
            ),
        )
    }

    /// The event that says that the panes of the run are in another window from now on, where a
    /// request says so.
    pub fn rebinding_event(&self, wanted: &DriverTmuxConfig) -> (r: Option<PlannedEvent>)
        ensures
            r.deep_view() == (if binding_changes(self.deep_view().tmux, wanted.deep_view()) {
                Some(
                    binding_event(
                        wanted.deep_view().session,
                        wanted.deep_view().window,
                        wanted.deep_view().existing_window_id->0,
                        wanted.deep_view().agent_command,
                        wanted.deep_view().actuation,
                    ),
                )
            } else {
                None
            }),
    {
        if !should_replace_binding(&self.tmux, wanted) {
            return None;
        }
        match &wanted.existing_window_id {
            Some(window_id) => Some(
                tmux_binding_event(
                    wanted.session.as_str(),
                    wanted.window.as_str(),
                    window_id.as_str(),
                    wanted.agent_command.as_str(),
                    &wanted.actuation,
                ),
            ),
            None => None,
        }
    }

    /// The panes of the run are in another window, once the event that says so is written down:
    /// it has none there yet.
    pub fn rebind(&mut self, wanted: &DriverTmuxConfig)
        ensures
            final(self).deep_view() == (DriverStateView {
                tmux: Some(
                    DriverTmuxStateView {
                        session_id: wanted.deep_view().session,
                        window_name: wanted.deep_view().window,
                        window_id: match wanted.deep_view().existing_window_id {
                            Some(window_id) => window_id,
                            None => Seq::empty(),
                        },
                        agent_command: wanted.deep_view().agent_command,
                        actuation: wanted.deep_view().actuation,
                        panes: Map::empty(),
                    },
                ),
                ..old(self).deep_view()
            }),
    {
        let window_id = match &wanted.existing_window_id {
            Some(window_id) => window_id.clone(),
            None => {
                let none = String::new();
                assert(none@ =~= Seq::<char>::empty());
                none
            },
        };
        self.tmux = Some(
            DriverTmuxState {
                session_id: wanted.session.clone(),
                window_name: wanted.window.clone(),
                window_id,
                agent_command: wanted.agent_command.clone(),
                actuation: wanted.actuation.clone(),
                panes: Table::new(),
            },
        );
    }
}

/// A binding that a request changes survives a restart: the events lead to the same state.
pub proof fn lemma_rebinding_survives(
    state: DriverStateView,
    wanted: DriverTmuxConfigView,
    seq: u64,
    at_ms: u64,
)
    requires
        binding_changes(state.tmux, wanted),
    ensures
        state.replayed(
            logged(
                binding_event(
                    wanted.session,
                    wanted.window,
                    wanted.existing_window_id->0,
                    wanted.agent_command,
                    wanted.actuation,
                ),
                seq,
                at_ms,
            ),
        ) == Ok::<DriverStateView, ReplayFault>(
            DriverStateView {
                tmux: Some(
                    DriverTmuxStateView {
                        session_id: wanted.session,
                        window_name: wanted.window,
                        window_id: wanted.existing_window_id->0,
                        agent_command: wanted.agent_command,
                        actuation: wanted.actuation,
                        panes: Map::empty(),
                    },
                ),
                ..state
            },
        ),
{
    lemma_tmux_binding_survives(
        state,
        wanted.session,
        wanted.window,
        wanted.existing_window_id->0,
        wanted.agent_command,
        wanted.actuation,
        seq,
        at_ms,
    );
}

/// How far it has come.
#[derive(Debug, Clone, Copy, PartialEq, Eq, Structural)]
pub enum AllocationStage {
    Plan,
    Make,
    Bind,
    Publish,
    Over,
}

/// What is to be done next.
#[derive(Debug, Clone, Copy, PartialEq, Eq, Structural)]
pub enum AllocationAction {
    /// Keep that a pane is to be made.
    KeepIntent,
    /// Find the pane that carries the mark of the intent, or make it.
    EnsurePane,
    /// Keep in which window the panes of the run are.
    KeepBinding,
    /// Keep that the activation has the pane.
    KeepPane,
    /// Stop.
    Finish,
}

/// What came of it.
#[derive(Debug)]
pub enum AllocationEvent {
    Done,
    Made(TmuxWindow, TmuxPane),
    Failed(DriverFailure),
}

#[verifier::ext_equal]
pub enum AllocationEventView {
    Done,
    Made(TmuxWindowView, TmuxPaneView),
    Failed(FailureView),
}

impl DeepView for AllocationEvent {
    type V = AllocationEventView;

    open spec fn deep_view(&self) -> AllocationEventView {
        match self {
            AllocationEvent::Done => AllocationEventView::Done,
            AllocationEvent::Made(window, pane) => AllocationEventView::Made(
                window.deep_view(),
                pane.deep_view(),
            ),
            AllocationEvent::Failed(failure) => AllocationEventView::Failed(failure.deep_view()),
        }
    }
}

/// A pane on its way to an activation.
#[derive(Debug)]
pub struct AllocationMachine {
    activation_id: String,
    intent: TmuxPaneAllocationIntent,
    bound: Option<DriverTmuxConfig>,
    stage: AllocationStage,
    pane: Option<StoredPane>,
    outcome: Option<Result<StoredPane, DriverFailure>>,
}

#[verifier::ext_equal]
pub struct AllocationView {
    pub activation_id: Seq<char>,
    pub intent: TmuxPaneAllocationIntentView,
    /// The window that the panes of the run are in, and what agents are started with.
    pub bound: Option<DriverTmuxConfigView>,
    pub stage: AllocationStage,
    pub pane: Option<StoredPaneView>,
    pub outcome: Option<Result<StoredPaneView, FailureView>>,
}

/// The model of what came out.
pub open spec fn pane_outcome(outcome: Option<Result<StoredPane, DriverFailure>>) -> Option<
    Result<StoredPaneView, FailureView>,
> {
    match outcome {
        None => None,
        Some(result) => Some(result_of(result)),
    }
}

impl DeepView for AllocationMachine {
    type V = AllocationView;

    closed spec fn deep_view(&self) -> AllocationView {
        AllocationView {
            activation_id: self.activation_id@,
            intent: self.intent.deep_view(),
            bound: self.bound.deep_view(),
            stage: self.stage,
            pane: self.pane.deep_view(),
            outcome: pane_outcome(self.outcome),
        }
    }
}

/// What the panes of a run are bound to.
pub open spec fn bound_to(tmux: Option<DriverTmuxStateView>) -> Option<DriverTmuxConfigView> {
    match tmux {
        None => None,
        Some(tmux) => Some(
            DriverTmuxConfigView {
                session: tmux.session_id,
                window: tmux.window_name,
                agent_command: tmux.agent_command,
                actuation: tmux.actuation,
                existing_window_id: Some(tmux.window_id),
            },
        ),
    }
}

/// What they are bound to once a pane of this intent is there.
pub open spec fn binding_of(
    intent: TmuxPaneAllocationIntentView,
    pane: StoredPaneView,
) -> DriverTmuxConfigView {
    DriverTmuxConfigView {
        session: pane.session_id,
        window: pane.window_name,
        agent_command: intent.agent_command,
        actuation: intent.actuation,
        existing_window_id: Some(pane.window_id),
    }
}

/// The state with the panes of the run bound to where a pane of an intent is. Those that it has
/// stay.
pub open spec fn bound_beside(
    state: DriverStateView,
    intent: TmuxPaneAllocationIntentView,
    pane: StoredPaneView,
) -> DriverStateView {
    DriverStateView {
        tmux: Some(
            DriverTmuxStateView {
                session_id: pane.session_id,
                window_name: pane.window_name,
                window_id: pane.window_id,
                agent_command: intent.agent_command,
                actuation: intent.actuation,
                panes: match state.tmux {
                    Some(tmux) => tmux.panes,
                    None => Map::empty(),
                },
            },
        ),
        ..state
    }
}

impl ReplayedDriverEvents {
    /// The panes of the run are bound to where a new one is, once the event that says so is
    /// written down.
    pub fn bind_beside(&mut self, intent: &TmuxPaneAllocationIntent, pane: &StoredPane)
        ensures
            final(self).deep_view() == bound_beside(
                old(self).deep_view(),
                intent.deep_view(),
                pane.deep_view(),
            ),
    {
        let mut known: Option<DriverTmuxState> = None;
        core::mem::swap(&mut known, &mut self.tmux);
        let panes = match known {
            Some(tmux) => tmux.panes,
            None => Table::new(),
        };
        self.tmux = Some(
            DriverTmuxState {
                session_id: pane.session_id.clone(),
                window_name: pane.window_name.clone(),
                window_id: pane.window_id.clone(),
                agent_command: intent.agent_command.clone(),
                actuation: intent.actuation.clone(),
                panes,
            },
        );
    }
}

/// The window of the first pane survives a restart: as long as the run has no pane, the events
/// lead to the same state.
pub proof fn lemma_first_window_survives(
    state: DriverStateView,
    intent: TmuxPaneAllocationIntentView,
    pane: StoredPaneView,
    seq: u64,
    at_ms: u64,
)
    requires
        state.tmux matches Some(tmux) ==> tmux.panes == Map::<Seq<char>, StoredPaneView>::empty(),
    ensures
        state.replayed(
            logged(
                binding_event(
                    pane.session_id,
                    pane.window_name,
                    pane.window_id,
                    intent.agent_command,
                    intent.actuation,
                ),
                seq,
                at_ms,
            ),
        ) == Ok::<DriverStateView, ReplayFault>(bound_beside(state, intent, pane)),
{
    lemma_tmux_binding_survives(
        state,
        pane.session_id,
        pane.window_name,
        pane.window_id,
        intent.agent_command,
        intent.actuation,
        seq,
        at_ms,
    );
}

/// The event that says that a pane is to be made.
pub open spec fn allocation_intent_event(
    intent: TmuxPaneAllocationIntentView,
) -> PlannedEventView {
    PlannedEventView { kind: "tmux_pane_allocation_intent"@, payload: intent.json() }
}

impl AllocationView {
    pub open spec fn at(self, stage: AllocationStage) -> AllocationView {
        AllocationView { stage, ..self }
    }

    pub open spec fn ended(self, outcome: Result<StoredPaneView, FailureView>) -> AllocationView {
        AllocationView { stage: AllocationStage::Over, outcome: Some(outcome), ..self }
    }

    /// Where it starts: a pane that was planned is made as it was planned.
    pub open spec fn fresh(
        state: DriverStateView,
        config: DriverTmuxConfigView,
        run_id: Seq<char>,
        activation_id: Seq<char>,
    ) -> AllocationView {
        AllocationView {
            activation_id,
            intent: allocation_to_make(state, config, run_id, activation_id),
            bound: bound_to(state.tmux),
            stage: if state.pending_tmux_allocations.dom().contains(activation_id) {
                AllocationStage::Make
            } else {
                AllocationStage::Plan
            },
            pane: None,
            outcome: None,
        }
    }

    pub open spec fn action(self) -> AllocationAction {
        match self.stage {
            AllocationStage::Plan => AllocationAction::KeepIntent,
            AllocationStage::Make => AllocationAction::EnsurePane,
            AllocationStage::Bind => AllocationAction::KeepBinding,
            AllocationStage::Publish => AllocationAction::KeepPane,
            AllocationStage::Over => AllocationAction::Finish,
        }
    }

    /// The event that is to be kept, where one is.
    pub open spec fn event(self) -> Option<PlannedEventView> {
        match (self.stage, self.pane) {
            (AllocationStage::Plan, _) => Some(allocation_intent_event(self.intent)),
            (AllocationStage::Bind, Some(pane)) => Some(
                binding_event(
                    pane.session_id,
                    pane.window_name,
                    pane.window_id,
                    self.intent.agent_command,
                    self.intent.actuation,
                ),
            ),
            (AllocationStage::Publish, Some(pane)) => Some(
                allocated_event(self.activation_id, self.intent.operation_id, pane),
            ),
            _ => None,
        }
    }

    /// A failure, with the pane that is left behind, where one is.
    pub open spec fn failure(self, failure: FailureView) -> FailureView {
        match self.pane {
            Some(pane) => failure.leaving(seq![pane.shown(self.activation_id)]),
            None => failure,
        }
    }

    pub open spec fn advanced(self, event: AllocationEventView) -> AllocationView {
        match (self.stage, event) {
            (AllocationStage::Over, _) => self,
            (_, AllocationEventView::Failed(failure)) => self.ended(Err(self.failure(failure))),
            (AllocationStage::Plan, AllocationEventView::Done) => self.at(AllocationStage::Make),
            (AllocationStage::Make, AllocationEventView::Made(window, pane)) => {
                let stored = StoredPaneView::made(window, pane, self.intent.allocation_generation);
                AllocationView {
                    stage: if self.bound == Some(binding_of(self.intent, stored)) {
                        AllocationStage::Publish
                    } else {
                        AllocationStage::Bind
                    },
                    pane: Some(stored),
                    ..self
                }
            },
            (AllocationStage::Bind, AllocationEventView::Done) => self.at(
                AllocationStage::Publish,
            ),
            (AllocationStage::Publish, AllocationEventView::Done) => match self.pane {
                Some(pane) => self.ended(Ok(pane)),
                None => self,
            },
            _ => self,
        }
    }

    /// The state after events.
    pub open spec fn after(self, events: Seq<AllocationEventView>) -> AllocationView
        decreases events.len(),
    {
        if events.len() == 0 {
            self
        } else {
            self.after(events.drop_last()).advanced(events.last())
        }
    }

    /// Whether an action came up among events and was done.
    pub open spec fn did(
        self,
        events: Seq<AllocationEventView>,
        action: AllocationAction,
    ) -> bool {
        exists|i: int|
            0 <= i < events.len() && (#[trigger] self.after(events.take(i))).action() == action
                && events[i] is Done
    }
}

impl AllocationMachine {
    pub fn new(
        state: &ReplayedDriverEvents,
        config: &DriverTmuxConfig,
        run_id: &str,
        activation_id: &str,
    ) -> (r: Self)
        ensures
            r.deep_view() == AllocationView::fresh(
                state.deep_view(),
                config.deep_view(),
                run_id@,
                activation_id@,
            ),
    {
        let (intent, begun) = state.plan_allocation(config, run_id, activation_id);
        AllocationMachine {
            activation_id: activation_id.to_string(),
            intent,
            bound: match &state.tmux {
                Some(tmux) => Some(tmux.config()),
                None => None,
            },
            stage: if begun {
                AllocationStage::Make
            } else {
                AllocationStage::Plan
            },
            pane: None,
            outcome: None,
        }
    }

    /// The pane as it is to be made.
    pub fn intent(&self) -> (r: &TmuxPaneAllocationIntent)
        ensures
            r.deep_view() == self.deep_view().intent,
    {
        &self.intent
    }

    pub fn action(&self) -> (r: AllocationAction)
        ensures
            r == self.deep_view().action(),
    {
        match self.stage {
            AllocationStage::Plan => AllocationAction::KeepIntent,
            AllocationStage::Make => AllocationAction::EnsurePane,
            AllocationStage::Bind => AllocationAction::KeepBinding,
            AllocationStage::Publish => AllocationAction::KeepPane,
            AllocationStage::Over => AllocationAction::Finish,
        }
    }

    /// The event that is to be kept, where one is.
    pub fn event(&self) -> (r: Option<PlannedEvent>)
        ensures
            r.deep_view() == self.deep_view().event(),
    {
        match (&self.stage, &self.pane) {
            (AllocationStage::Plan, _) => Some(
                PlannedEvent {
                    kind: "tmux_pane_allocation_intent",
                    payload: self.intent.to_json(),
                },
            ),
            (AllocationStage::Bind, Some(pane)) => Some(
                tmux_binding_event(
                    pane.session_id.as_str(),
                    pane.window_name.as_str(),
                    pane.window_id.as_str(),
                    self.intent.agent_command.as_str(),
                    &self.intent.actuation,
                ),
            ),
            (AllocationStage::Publish, Some(pane)) => Some(
                pane_allocated_event(
                    self.activation_id.as_str(),
                    self.intent.operation_id.as_str(),
                    pane,
                ),
            ),
            _ => None,
        }
    }

    fn is_bound_to(&self, pane: &StoredPane) -> (r: bool)
        ensures
            r == (self.deep_view().bound == Some(
                binding_of(self.deep_view().intent, pane.deep_view()),
            )),
    {
        match &self.bound {
            None => false,
            Some(bound) => {
                let window_id = match &bound.existing_window_id {
                    Some(window_id) => window_id,
                    None => return false,
                };
                same(bound.session.as_str(), pane.session_id.as_str()) && same(
                    bound.window.as_str(),
                    pane.window_name.as_str(),
                ) && same(window_id.as_str(), pane.window_id.as_str()) && same(
                    bound.agent_command.as_str(),
                    self.intent.agent_command.as_str(),
                ) && bound.actuation.same_as(&self.intent.actuation)
            },
        }
    }

    /// Goes on with what came of the last action.
    pub fn advance(&mut self, event: AllocationEvent)
        ensures
            final(self).deep_view() == old(self).deep_view().advanced(event.deep_view()),
    {
        match event {
            AllocationEvent::Done => {
                match self.stage {
                    AllocationStage::Plan => {
                        self.stage = AllocationStage::Make;
                    },
                    AllocationStage::Bind => {
                        self.stage = AllocationStage::Publish;
                    },
                    AllocationStage::Publish => {
                        if let Some(pane) = &self.pane {
                            self.outcome = Some(Ok(pane.clone()));
                            self.stage = AllocationStage::Over;
                        }
                    },
                    _ => {},
                }
            },
            AllocationEvent::Made(window, pane) => {
                if let AllocationStage::Make = self.stage {
                    let stored = StoredPane::from_tmux_pane(
                        &window,
                        &pane,
                        self.intent.allocation_generation,
                    );
                    self.stage = if self.is_bound_to(&stored) {
                        AllocationStage::Publish
                    } else {
                        AllocationStage::Bind
                    };
                    self.pane = Some(stored);
                }
            },
            AllocationEvent::Failed(failure) => {
                match self.stage {
                    AllocationStage::Over => {},
                    _ => {
                        let failure = match &self.pane {
                            Some(pane) => {
                                let mut left: Vec<Json> = Vec::new();
                                left.push(pane.shown(self.activation_id.as_str()));
                                assert(left.deep_view() =~= seq![
                                    pane.deep_view().shown(self.activation_id@),
                                ]);
                                failure.with_tmux_cleanup(left)
                            },
                            None => failure,
                        };
                        self.outcome = Some(Err(failure));
                        self.stage = AllocationStage::Over;
                    },
                }
            },
        }
    }

    /// The pane of the activation, once it is over.
    pub fn into_outcome(self) -> (r: Option<Result<StoredPane, DriverFailure>>)
        ensures
            pane_outcome(r) == self.deep_view().outcome,
    {
        self.outcome
    }
}

impl AllocationView {
    /// What holds at every stage.
    pub open spec fn sound(
        self,
        start: AllocationView,
        events: Seq<AllocationEventView>,
    ) -> bool {
        let planned = start.stage == AllocationStage::Make || start.did(
            events,
            AllocationAction::KeepIntent,
        );
        &&& self.activation_id == start.activation_id
        &&& self.intent == start.intent
        &&& (self.stage == AllocationStage::Over) == (self.outcome is Some)
        &&& match self.stage {
            AllocationStage::Plan => self.pane is None,
            AllocationStage::Make => planned && self.pane is None,
            AllocationStage::Bind | AllocationStage::Publish => planned && self.pane is Some,
            AllocationStage::Over => match self.outcome->0 {
                Ok(pane) => planned && self.pane == Some(pane) && start.did(
                    events,
                    AllocationAction::KeepPane,
                ),
                Err(failure) => self.pane matches Some(pane) ==> among(
                    failure.left_panes(),
                    pane.shown(self.activation_id),
                ),
            },
        }
    }
}

proof fn lemma_did_stays(
    start: AllocationView,
    events: Seq<AllocationEventView>,
    action: AllocationAction,
)
    requires
        events.len() > 0,
        start.did(events.drop_last(), action),
    ensures
        start.did(events, action),
{
    let front = events.drop_last();
    let i = choose|i: int|
        0 <= i < front.len() && (#[trigger] start.after(front.take(i))).action() == action
            && front[i] is Done;
    assert(front.take(i) =~= events.take(i));
    assert(start.after(events.take(i)).action() == action);
}

proof fn lemma_did_last(start: AllocationView, events: Seq<AllocationEventView>)
    requires
        events.len() > 0,
        events.last() is Done,
    ensures
        start.did(events, start.after(events.drop_last()).action()),
{
    let i = events.len() - 1;
    assert(events.take(i) =~= events.drop_last());
    assert(start.after(events.take(i)).action() == start.after(events.drop_last()).action());
}

proof fn lemma_allocation_sound(
    state: DriverStateView,
    config: DriverTmuxConfigView,
    run_id: Seq<char>,
    activation_id: Seq<char>,
    events: Seq<AllocationEventView>,
)
    ensures
        ({
            let start = AllocationView::fresh(state, config, run_id, activation_id);
            start.after(events).sound(start, events)
        }),
    decreases events.len(),
{
    let start = AllocationView::fresh(state, config, run_id, activation_id);
    if events.len() > 0 {
        let front = events.drop_last();
        lemma_allocation_sound(state, config, run_id, activation_id, front);
        assert forall|action: AllocationAction| #[trigger] start.did(front, action) implies
            start.did(events, action) by {
            lemma_did_stays(start, events, action);
        }
        let before = start.after(front);
        match events.last() {
            AllocationEventView::Failed(failure) => {
                if let Some(pane) = before.pane {
                    let shown = seq![pane.shown(before.activation_id)];
                    lemma_left_panes_are_kept(failure, shown, 0);
                    assert(shown[0] == pane.shown(before.activation_id));
                }
            },
            AllocationEventView::Done => {
                lemma_did_last(start, events);
            },
            _ => {},
        }
    }
}

/// A pane is made only once it is kept that it is to be: now, or before a restart.
pub proof fn lemma_panes_are_planned_before_they_are_made(
    state: DriverStateView,
    config: DriverTmuxConfigView,
    run_id: Seq<char>,
    activation_id: Seq<char>,
    events: Seq<AllocationEventView>,
)
    requires
        AllocationView::fresh(state, config, run_id, activation_id).after(events).action()
            == AllocationAction::EnsurePane,
    ensures
        state.pending_tmux_allocations.dom().contains(activation_id) || AllocationView::fresh(
            state,
            config,
            run_id,
            activation_id,
        ).did(events, AllocationAction::KeepIntent),
{
    lemma_allocation_sound(state, config, run_id, activation_id, events);
}

/// An activation is told to have a pane only once this is kept.
pub proof fn lemma_panes_are_kept_before_they_are_told(
    state: DriverStateView,
    config: DriverTmuxConfigView,
    run_id: Seq<char>,
    activation_id: Seq<char>,
    events: Seq<AllocationEventView>,
)
    requires
        AllocationView::fresh(state, config, run_id, activation_id).after(events).outcome
            matches Some(Ok(_)),
    ensures
        AllocationView::fresh(state, config, run_id, activation_id).did(
            events,
            AllocationAction::KeepPane,
        ),
{
    lemma_allocation_sound(state, config, run_id, activation_id, events);
}

/// No pane is forgotten: where one was made and could not be kept, the failure tells of it.
pub proof fn lemma_made_panes_are_told(
    state: DriverStateView,
    config: DriverTmuxConfigView,
    run_id: Seq<char>,
    activation_id: Seq<char>,
    events: Seq<AllocationEventView>,
)
    requires
        AllocationView::fresh(state, config, run_id, activation_id).after(events).outcome
            matches Some(Err(_)),
        AllocationView::fresh(state, config, run_id, activation_id).after(events).pane is Some,
    ensures
        ({
            let end = AllocationView::fresh(state, config, run_id, activation_id).after(events);
            among(end.outcome->0->Err_0.left_panes(), end.pane->0.shown(activation_id))
        }),
{
    lemma_allocation_sound(state, config, run_id, activation_id, events);
}

/// The activations whose panes are gone are among those that were looked after, and had a pane.
pub proof fn lemma_only_lost_panes_are_stale<R: CommandRunner>(
    runner: R,
    run_id: Seq<char>,
    tmux: Option<DriverTmuxStateView>,
    activation_ids: Seq<Seq<char>>,
    stale: Seq<Seq<char>>,
    activation_id: Seq<char>,
)
    requires
        stale_found(runner, run_id, tmux, activation_ids, Ok(stale)),
        stale.contains(activation_id),
    ensures
        activation_ids.contains(activation_id),
        has_pane(tmux, activation_id),
        pane_sought(
            runner,
            sought(run_id, activation_id, tmux->0.panes[activation_id]),
            Ok(TmuxPanePresence::Absent),
        ),
{
    let gone = choose|gone: Seq<bool>|
        gone.len() == activation_ids.len() && #[trigger] looked_after(
            runner,
            run_id,
            tmux,
            activation_ids,
            gone,
        ) && stale == bereft(activation_ids, gone);
    lemma_bereft(activation_ids, gone, activation_id);
    let i = choose|i: int|
        0 <= i < gone.len() && #[trigger] gone[i] && activation_ids[i] == activation_id;
    assert(gone[i]);
}

proof fn lemma_bereft(
    activation_ids: Seq<Seq<char>>,
    gone: Seq<bool>,
    activation_id: Seq<char>,
)
    requires
        gone.len() <= activation_ids.len(),
        bereft(activation_ids, gone).contains(activation_id),
    ensures
        exists|i: int|
            0 <= i < gone.len() && #[trigger] gone[i] && activation_ids[i] == activation_id,
    decreases gone.len(),
{
    if gone.len() > 0 {
        let front = gone.drop_last();
        let last = gone.len() - 1;
        if gone.last() && activation_ids[last] == activation_id {
            assert(gone[last]);
        } else {
            let found = bereft(activation_ids, gone);
            let j = choose|j: int| 0 <= j < found.len() && found[j] == activation_id;
            assert(bereft(activation_ids, front)[j] == activation_id);
            lemma_bereft(activation_ids, front, activation_id);
            let i = choose|i: int|
                0 <= i < front.len() && #[trigger] front[i] && activation_ids[i] == activation_id;
            assert(gone[i]);
        }
    }
}

} // verus!
