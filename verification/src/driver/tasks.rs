//! Which activations are put to work, by what the driver knows: from the panes that they have,
//! the input that arrived and the input of which that is not known.
use vstd::prelude::*;

use crate::flow::model::{FlowDraft, FlowDraftView};
use crate::json::{Json, JsonView};

use super::actuation::{
    actuation_gate, gate_of, lemma_open_input_is_not_repeated, lemma_task_stays,
    ActuationEventView, ActuationGate, ActuationGateView, ActuationOutcome, ActuationOutcomeView,
    ActuationStage, ActuationTask, ActuationTaskView, ActuationView, DriverActuation,
    DriverActuationView,
};
use super::delivery::{
    delivery_warning, AmbiguousDeliveryView, DeliveriesView, DELIVERY_ROLE_AGENT_LAUNCH,
    DELIVERY_ROLE_NODE_PROMPT,
};
use super::keys::{key_of, AllocationKeyView};
use super::lifecycle::{Activation, ActivationView};
use super::prompt::{find_node, first_prompt, initial_agent_prompt, node_with_id};
use super::replay::{DriverStateView, DriverTmuxStateView, ReplayedDriverEvents};
use super::wire::ActivationStatus;

verus! {

broadcast use vstd::string::group_string_axioms;

/// What is to be done about an activation.
#[derive(Debug)]
pub enum PlannedActuation {
    /// Nothing.
    Skip,
    /// It cannot be put to work, and this is told.
    Warn(Json),
    /// It needs nothing, which is remembered.
    Settle,
    /// It is put to work.
    Go(ActuationTask),
}

#[verifier::ext_equal]
pub enum PlannedActuationView {
    Skip,
    Warn(JsonView),
    Settle,
    Go(ActuationTaskView),
}

impl DeepView for PlannedActuation {
    type V = PlannedActuationView;

    open spec fn deep_view(&self) -> PlannedActuationView {
        match self {
            PlannedActuation::Skip => PlannedActuationView::Skip,
            PlannedActuation::Warn(told) => PlannedActuationView::Warn(told@),
            PlannedActuation::Settle => PlannedActuationView::Settle,
            PlannedActuation::Go(task) => PlannedActuationView::Go(task.deep_view()),
        }
    }
}

/// The input of an allocation of which it is not known whether it arrived.
pub open spec fn open_input(
    deliveries: DeliveriesView,
    activation_id: Seq<char>,
    role: Seq<char>,
    generation: u64,
) -> Option<AmbiguousDeliveryView> {
    let key = key_of(activation_id, role, None, generation);
    if deliveries.ambiguous.dom().contains(key) {
        Some(deliveries.ambiguous[key])
    } else {
        None
    }
}

/// The allocation that an activation has.
pub open spec fn allocation_of(tmux: DriverTmuxStateView, activation_id: Seq<char>) ->
    AllocationKeyView {
    AllocationKeyView {
        activation_id,
        generation: tmux.panes[activation_id].allocation_generation,
    }
}

/// What is needed to put an activation to work.
pub open spec fn task_of(
    state: DriverStateView,
    tmux: DriverTmuxStateView,
    draft: FlowDraftView,
    activation: ActivationView,
    activation_id: Seq<char>,
) -> ActuationTaskView {
    let node = node_with_id(draft.nodes, activation.node_id)->Some_0;
    let action = node.action->Some_0;
    let pane = tmux.panes[activation_id];
    let launched = state.deliveries.launched.contains(allocation_of(tmux, activation_id));
    ActuationTaskView {
        activation_id: activation.activation_id,
        node_id: activation.node_id,
        driver: action.driver,
        pane,
        agent_command: tmux.agent_command,
        actuation: tmux.actuation,
        prompt: first_prompt(draft, node, action),
        launched,
        launch_pending: if launched {
            None
        } else {
            open_input(
                state.deliveries,
                activation.activation_id,
                DELIVERY_ROLE_AGENT_LAUNCH@,
                pane.allocation_generation,
            )
        },
        prompt_pending: open_input(
            state.deliveries,
            activation.activation_id,
            DELIVERY_ROLE_NODE_PROMPT@,
            pane.allocation_generation,
        ),
    }
}

/// What is to be done about an activation. Without a window of tmux, or without the flow of the
/// run, that is nothing.
pub open spec fn plan_of(
    state: DriverStateView,
    draft: Option<FlowDraftView>,
    activation: Option<ActivationView>,
    activation_id: Seq<char>,
) -> PlannedActuationView {
    match (state.tmux, draft) {
        (Some(tmux), Some(draft)) => {
            let has_pane = tmux.panes.dom().contains(activation_id);
            let settled = has_pane && state.deliveries.settled.contains(
                allocation_of(tmux, activation_id),
            );
            match gate_of(draft, activation, has_pane, settled) {
                ActuationGateView::Skip => PlannedActuationView::Skip,
                ActuationGateView::Warn(told) => PlannedActuationView::Warn(told),
                ActuationGateView::Settle => PlannedActuationView::Settle,
                ActuationGateView::Go => PlannedActuationView::Go(
                    task_of(state, tmux, draft, activation->Some_0, activation_id),
                ),
            }
        },
        _ => PlannedActuationView::Skip,
    }
}

/// The state where it is remembered that an activation needs nothing.
pub open spec fn settled_for(state: DriverStateView, activation_id: Seq<char>) -> DriverStateView {
    DriverStateView {
        deliveries: state.deliveries.settling(
            activation_id,
            state.tmux->Some_0.panes[activation_id].allocation_generation,
        ),
        ..state
    }
}

impl ReplayedDriverEvents {
    /// What is needed to put an activation to work, where it is to be.
    pub fn task_for(
        &self,
        draft: &FlowDraft,
        activation: &Activation,
        activation_id: &String,
    ) -> (r: ActuationTask)
        requires
            self.deep_view().tmux matches Some(tmux) && tmux.panes.dom().contains(activation_id@),
            node_with_id(draft.deep_view().nodes, activation.deep_view().node_id) matches Some(node)
                && node.action is Some,
        ensures
            r.deep_view() == task_of(
                self.deep_view(),
                self.deep_view().tmux->Some_0,
                draft.deep_view(),
                activation.deep_view(),
                activation_id@,
            ),
    {
        let tmux = self.tmux.as_ref().unwrap();
        let pane = tmux.panes.get(activation_id).unwrap();
        let node = find_node(draft, activation.node_id.as_str()).unwrap();
        let action = node.action.as_ref().unwrap();
        let generation: u64 = pane.allocation_generation;
        let launched = self.deliveries.launched.contains(activation_id.as_str(), generation);
        let launch_pending = if launched {
            None
        } else {
            self.deliveries.ambiguous_input_delivery(
                activation.activation_id.as_str(),
                DELIVERY_ROLE_AGENT_LAUNCH,
                generation,
            )
        };
        let prompt_pending = self.deliveries.ambiguous_input_delivery(
            activation.activation_id.as_str(),
            DELIVERY_ROLE_NODE_PROMPT,
            generation,
        );
        ActuationTask {
            activation_id: activation.activation_id.clone(),
            node_id: activation.node_id.clone(),
            driver: action.driver,
            pane: pane.clone(),
            agent_command: tmux.agent_command.clone(),
            actuation: tmux.actuation.clone(),
            prompt: initial_agent_prompt(draft, node, action),
            launched,
            launch_pending,
            prompt_pending,
        }
    }

    /// What is to be done about an activation; that one needs nothing is remembered.
    pub fn plan_actuation(
        &mut self,
        draft: Option<&FlowDraft>,
        activation: &Option<Activation>,
        activation_id: &String,
    ) -> (r: PlannedActuation)
        ensures
            r.deep_view() == plan_of(
                old(self).deep_view(),
                match draft {
                    Some(draft) => Some(draft.deep_view()),
                    None => None,
                },
                activation.deep_view(),
                activation_id@,
            ),
            final(self).deep_view() == if r is Settle {
                settled_for(old(self).deep_view(), activation_id@)
            } else {
                old(self).deep_view()
            },
    {
        let draft = match draft {
            Some(draft) => draft,
            None => return PlannedActuation::Skip,
        };
        let generation: Option<u64> = match &self.tmux {
            Some(tmux) => match tmux.panes.get(activation_id) {
                Some(pane) => Some(pane.allocation_generation),
                None => None,
            },
            None => return PlannedActuation::Skip,
        };
        let settled = match generation {
            Some(generation) => self.deliveries.settled.contains(
                activation_id.as_str(),
                generation,
            ),
            None => false,
        };
        match actuation_gate(draft, activation, generation.is_some(), settled) {
            ActuationGate::Skip => PlannedActuation::Skip,
            ActuationGate::Warn(told) => PlannedActuation::Warn(told),
            ActuationGate::Settle => {
                let ghost before = self.deep_view();
                if let Some(generation) = generation {
                    self.deliveries.settle(activation_id.as_str(), generation);
                }
                assert(self.deep_view() =~= settled_for(before, activation_id@));
                PlannedActuation::Settle
            },
            ActuationGate::Go => match activation {
                Some(activation) => PlannedActuation::Go(
                    self.task_for(draft, activation, activation_id),
                ),
                None => PlannedActuation::Skip,
            },
        }
    }
}

/// What is known and told when the next activation is to be put to work, and which one that is.
#[verifier::ext_equal]
pub struct RoundView {
    pub state: DriverStateView,
    pub told: DriverActuationView,
    pub next: Option<(int, ActuationTaskView)>,
}

/// A round over activations, from one of them on, up to the next that is put to work.
pub open spec fn round(
    state: DriverStateView,
    told: DriverActuationView,
    draft: Option<FlowDraftView>,
    activations: Seq<Option<ActivationView>>,
    activation_ids: Seq<Seq<char>>,
    from: int,
) -> RoundView
    decreases activation_ids.len() - from,
{
    if from < 0 || from >= activation_ids.len() {
        RoundView { state, told, next: None }
    } else {
        match plan_of(state, draft, activations[from], activation_ids[from]) {
            PlannedActuationView::Skip => round(
                state,
                told,
                draft,
                activations,
                activation_ids,
                from + 1,
            ),
            PlannedActuationView::Warn(warning) => round(
                state,
                told.with(ActuationOutcomeView::Warned(warning)),
                draft,
                activations,
                activation_ids,
                from + 1,
            ),
            PlannedActuationView::Settle => round(
                settled_for(state, activation_ids[from]),
                told,
                draft,
                activations,
                activation_ids,
                from + 1,
            ),
            PlannedActuationView::Go(task) => RoundView { state, told, next: Some((from, task)) },
        }
    }
}

impl ReplayedDriverEvents {
    /// The next activation that is put to work, from one of them on, with its place. What is to
    /// be told of those before it is told.
    pub fn next_actuation(
        &mut self,
        draft: Option<&FlowDraft>,
        activations: &Vec<Option<Activation>>,
        activation_ids: &Vec<String>,
        from: usize,
        told: &mut DriverActuation,
    ) -> (r: Option<(usize, ActuationTask)>)
        requires
            activations.len() == activation_ids.len(),
        ensures
            ({
                let came = round(
                    old(self).deep_view(),
                    old(told).deep_view(),
                    match draft {
                        Some(draft) => Some(draft.deep_view()),
                        None => None,
                    },
                    activations.deep_view(),
                    activation_ids.deep_view(),
                    from as int,
                );
                &&& final(self).deep_view() == came.state
                &&& final(told).deep_view() == came.told
                &&& match (r, came.next) {
                    (Some((place, task)), Some((due, wanted))) => place == due && task.deep_view()
                        == wanted,
                    (None, None) => true,
                    _ => false,
                }
            }),
    {
        let ghost flow = match draft {
            Some(draft) => Some(draft.deep_view()),
            None => None,
        };
        let ghost known = activations.deep_view();
        let ghost ids = activation_ids.deep_view();
        let ghost came = round(self.deep_view(), told.deep_view(), flow, known, ids, from as int);
        let mut i: usize = from;
        while i < activation_ids.len()
            invariant
                activations.len() == activation_ids.len(),
                flow == (match draft {
                    Some(draft) => Some(draft.deep_view()),
                    None => None,
                }),
                known == activations.deep_view(),
                ids == activation_ids.deep_view(),
                came == round(
                    old(self).deep_view(),
                    old(told).deep_view(),
                    flow,
                    known,
                    ids,
                    from as int,
                ),
                came == round(self.deep_view(), told.deep_view(), flow, known, ids, i as int),
            decreases activation_ids.len() - i,
        {
            assert(known[i as int] == activations@[i as int].deep_view());
            assert(ids[i as int] == activation_ids@[i as int]@);
            match self.plan_actuation(draft, &activations[i], &activation_ids[i]) {
                PlannedActuation::Skip => {},
                PlannedActuation::Settle => {},
                PlannedActuation::Warn(warning) => {
                    told.add_outcome(ActuationOutcome::Warned(warning));
                },
                PlannedActuation::Go(task) => {
                    return Some((i, task));
                },
            }
            i += 1;
        }
        None
    }
}

/// Nothing is done about an activation that is unknown, that does not run, whose node has no
/// action, or that is settled for the allocation of its pane: no input is sent to it, and
/// nothing is told of it.
pub proof fn lemma_finished_activations_are_skipped(
    state: DriverStateView,
    draft: FlowDraftView,
    activation: Option<ActivationView>,
    activation_id: Seq<char>,
)
    requires
        state.tmux is Some,
    ensures
        ({
            let tmux = state.tmux->Some_0;
            let idle = match activation {
                None => true,
                Some(activation) => activation.status != ActivationStatus::Running || (
                match node_with_id(draft.nodes, activation.node_id) {
                    None => true,
                    Some(node) => node.action is None,
                }),
            };
            let settled = tmux.panes.dom().contains(activation_id)
                && state.deliveries.settled.contains(allocation_of(tmux, activation_id));
            plan_of(state, Some(draft), activation, activation_id) is Skip <==> idle || settled
        }),
{
}

/// A round in which nothing is to be done changes nothing and tells nothing. That is so without
/// a window of tmux and without the flow of the run.
pub proof fn lemma_idle_rounds_change_nothing(
    state: DriverStateView,
    told: DriverActuationView,
    draft: Option<FlowDraftView>,
    activations: Seq<Option<ActivationView>>,
    activation_ids: Seq<Seq<char>>,
    from: int,
)
    requires
        state.tmux is None || draft is None || forall|i: int|
            from <= i < activation_ids.len() ==> plan_of(
                state,
                draft,
                activations[i],
                #[trigger] activation_ids[i],
            ) is Skip,
    ensures
        round(state, told, draft, activations, activation_ids, from) == (RoundView {
            state,
            told,
            next: None,
        }),
    decreases activation_ids.len() - from,
{
    if 0 <= from < activation_ids.len() {
        assert(plan_of(state, draft, activations[from], activation_ids[from]) is Skip);
        lemma_idle_rounds_change_nothing(
            state,
            told,
            draft,
            activations,
            activation_ids,
            from + 1,
        );
    }
}

/// An activation that is settled stays so: nothing is done about it a second time.
pub proof fn lemma_settled_once(
    state: DriverStateView,
    draft: FlowDraftView,
    activation: Option<ActivationView>,
    activation_id: Seq<char>,
)
    requires
        plan_of(state, Some(draft), activation, activation_id) is Settle,
    ensures
        plan_of(
            settled_for(state, activation_id),
            Some(draft),
            activation,
            activation_id,
        ) is Skip,
{
}

/// A prompt of which it is not known whether it arrived is not sent again, whatever happens.
/// Where the ledger has no entry of it either, that is told instead.
pub proof fn lemma_doubtful_prompts_are_not_repeated(
    state: DriverStateView,
    draft: FlowDraftView,
    activation: ActivationView,
    activation_id: Seq<char>,
    events: Seq<ActuationEventView>,
)
    requires
        activation.activation_id == activation_id,
        plan_of(state, Some(draft), Some(activation), activation_id) is Go,
        state.deliveries.ambiguous.dom().contains(
            key_of(
                activation_id,
                DELIVERY_ROLE_NODE_PROMPT@,
                None,
                allocation_of(state.tmux->Some_0, activation_id).generation,
            ),
        ),
    ensures
        ({
            let task = plan_of(state, Some(draft), Some(activation), activation_id)->Go_0;
            let machine = ActuationView::fresh(task).after(events);
            &&& machine.action() !is SendPrompt
            &&& machine.stage == ActuationStage::PromptSearch ==> machine.advanced(
                ActuationEventView::Found(None),
            ).outcome == Some(
                ActuationOutcomeView::Warned(
                    delivery_warning(
                        task.prompt_pending->Some_0,
                        task.node_id,
                        task.driver.name(),
                    ),
                ),
            )
        }),
{
    let task = plan_of(state, Some(draft), Some(activation), activation_id)->Go_0;
    lemma_open_input_is_not_repeated(task, events);
    lemma_task_stays(task, events);
}

} // verus!
