//! What the driver does with the panes of a run over its life: which are to be made, put to
//! work, given up and ended.
use vstd::prelude::*;

use crate::adapters::tmux::pipe::{PipeDescriptorView, PipeSinkIdentity, TmuxPipeCaptureDescriptor};
use crate::json::{field, no_fields, option_text, text_list, text_list_json, Fields, Json, JsonView};
use crate::order::Comparable;
use crate::table::Table;
use crate::text::same;

use super::cleanup::{ActivationAsset, AssetView};
use super::delivery::{barriers_of, barriers_up, PlannedEvent, PlannedEventView};
use super::failure::{alike, among, copied, is_among, result_of, DriverFailure, FailureView};
use super::keys::AllocationKeyView;
use super::ownership::{
    ack_path, capture_id, pipe_ack_relative_path, pipe_capture_operation_id,
    pipe_completion_relative_path, with_slashes, DriverTmuxConfig, DriverTmuxConfigView,
};
use super::records::{
    descriptor_json, descriptor_to_json, DriverPaneConfig, DriverPaneConfigView, StoredPane,
    StoredPaneView, TmuxPaneAllocationIntentView, TmuxPipeCaptureIntent, TmuxPipeCaptureIntentView,
};
use super::replay::{DriverStateView, DriverTmuxState, DriverTmuxStateView, ReplayedDriverEvents};
use super::wire::{ActivationStatus, RunStatus};

verus! {

broadcast use vstd::string::group_string_axioms;

/// An activation, as far as the driver needs to know it.
#[derive(Debug)]
pub struct Activation {
    pub activation_id: String,
    pub node_id: String,
    pub run_id: String,
    pub status: ActivationStatus,
}

#[verifier::ext_equal]
pub struct ActivationView {
    pub activation_id: Seq<char>,
    pub node_id: Seq<char>,
    pub run_id: Seq<char>,
    pub status: ActivationStatus,
}

impl DeepView for Activation {
    type V = ActivationView;

    open spec fn deep_view(&self) -> ActivationView {
        ActivationView {
            activation_id: self.activation_id@,
            node_id: self.node_id@,
            run_id: self.run_id@,
            status: self.status,
        }
    }
}

/// The activations of a run that are running.
pub open spec fn running_in(activations: Seq<ActivationView>, run_id: Seq<char>) -> Seq<Seq<char>>
    decreases activations.len(),
{
    if activations.len() == 0 {
        Seq::empty()
    } else {
        let front = running_in(activations.drop_last(), run_id);
        let last = activations.last();
        if last.run_id == run_id && last.status == ActivationStatus::Running {
            front.push(last.activation_id)
        } else {
            front
        }
    }
}

pub fn running_activation_ids(activations: &Vec<Activation>, run_id: &str) -> (r: Vec<String>)
    ensures
        r.deep_view() == running_in(activations.deep_view(), run_id@),
{
    let ghost model = activations.deep_view();
    let mut out: Vec<String> = Vec::new();
    let mut i: usize = 0;
    assert(model.take(0) =~= Seq::<ActivationView>::empty());
    assert(out.deep_view() =~= Seq::<Seq<char>>::empty());
    while i < activations.len()
        invariant
            i <= activations.len(),
            model == activations.deep_view(),
            out.deep_view() == running_in(model.take(i as int), run_id@),
        decreases activations.len() - i,
    {
        let ghost before = out.deep_view();
        assert(model.take(i + 1).drop_last() =~= model.take(i as int));
        assert(model.take(i + 1).last() == activations@[i as int].deep_view());
        let activation = &activations[i];
        if same(activation.run_id.as_str(), run_id) && activation.status
            == ActivationStatus::Running {
            out.push(activation.activation_id.clone());
            assert(out.deep_view() =~= before.push(activation.deep_view().activation_id));
        }
        i += 1;
    }
    assert(model.take(i as int) =~= model);
    out
}

/// Whether an activation has a pane.
pub open spec fn has_pane(tmux: Option<DriverTmuxStateView>, activation_id: Seq<char>) -> bool {
    tmux is Some && tmux->0.panes.dom().contains(activation_id)
}

pub fn owns_pane(tmux: &Option<DriverTmuxState>, activation_id: &String) -> (r: bool)
    ensures
        r == has_pane(tmux.deep_view(), activation_id@),
{
    match tmux {
        Some(tmux) => tmux.panes.contains_key(activation_id),
        None => false,
    }
}

/// The activations that lack a pane.
pub open spec fn lacking_panes(
    tmux: Option<DriverTmuxStateView>,
    activation_ids: Seq<Seq<char>>,
) -> Seq<Seq<char>>
    decreases activation_ids.len(),
{
    if activation_ids.len() == 0 {
        Seq::empty()
    } else {
        let front = lacking_panes(tmux, activation_ids.drop_last());
        if has_pane(tmux, activation_ids.last()) {
            front
        } else {
            front.push(activation_ids.last())
        }
    }
}

pub fn missing_tmux_panes(tmux: &Option<DriverTmuxState>, activation_ids: &Vec<String>) -> (r: Vec<
    String,
>)
    ensures
        r.deep_view() == lacking_panes(tmux.deep_view(), activation_ids.deep_view()),
{
    let ghost model = activation_ids.deep_view();
    let mut out: Vec<String> = Vec::new();
    let mut i: usize = 0;
    assert(model.take(0) =~= Seq::<Seq<char>>::empty());
    assert(out.deep_view() =~= Seq::<Seq<char>>::empty());
    while i < activation_ids.len()
        invariant
            i <= activation_ids.len(),
            model == activation_ids.deep_view(),
            out.deep_view() == lacking_panes(tmux.deep_view(), model.take(i as int)),
        decreases activation_ids.len() - i,
    {
        let ghost before = out.deep_view();
        assert(model.take(i + 1).drop_last() =~= model.take(i as int));
        assert(model.take(i + 1).last() == activation_ids@[i as int]@);
        if !owns_pane(tmux, &activation_ids[i]) {
            out.push(activation_ids[i].clone());
            assert(out.deep_view() =~= before.push(activation_ids@[i as int]@));
        }
        i += 1;
    }
    assert(model.take(i as int) =~= model);
    out
}

/// The first pane among those of activations that was begun and not finished.
pub open spec fn first_begun(
    pending: Map<Seq<char>, TmuxPaneAllocationIntentView>,
    activation_ids: Seq<Seq<char>>,
) -> Option<TmuxPaneAllocationIntentView>
    decreases activation_ids.len(),
{
    if activation_ids.len() == 0 {
        None
    } else {
        match first_begun(pending, activation_ids.drop_last()) {
            Some(intent) => Some(intent),
            None => if pending.dom().contains(activation_ids.last()) {
                Some(pending[activation_ids.last()])
            } else {
                None
            },
        }
    }
}

/// Where a pane that was begun is to be.
pub open spec fn place_of(intent: TmuxPaneAllocationIntentView) -> DriverTmuxConfigView {
    DriverTmuxConfigView {
        session: intent.session_id,
        window: intent.window_name,
        agent_command: intent.agent_command,
        actuation: intent.actuation,
        existing_window_id: intent.existing_window_id,
    }
}

/// Where more panes are to be.
pub open spec fn place_in(tmux: DriverTmuxStateView) -> DriverTmuxConfigView {
    DriverTmuxConfigView {
        session: tmux.session_id,
        window: tmux.window_name,
        agent_command: tmux.agent_command,
        actuation: tmux.actuation,
        existing_window_id: Some(tmux.window_id),
    }
}

/// Where the panes that are lacking are to be: in the window that is bound, else where the
/// first of them was begun; nowhere if there is neither.
pub open spec fn place_for_lacking(
    state: DriverStateView,
    running: Seq<Seq<char>>,
) -> Option<DriverTmuxConfigView> {
    match state.tmux {
        Some(tmux) => Some(place_in(tmux)),
        None => match first_begun(state.pending_tmux_allocations, running) {
            Some(intent) => Some(place_of(intent)),
            None => None,
        },
    }
}

/// The activations, of those that have a pane, that have not got their prompt.
pub open spec fn waiting_in(
    activations: Seq<ActivationView>,
    run_id: Seq<char>,
    tmux: DriverTmuxStateView,
    settled: Set<AllocationKeyView>,
) -> Seq<Seq<char>>
    decreases activations.len(),
{
    if activations.len() == 0 {
        Seq::empty()
    } else {
        let front = waiting_in(activations.drop_last(), run_id, tmux, settled);
        let last = activations.last();
        if last.run_id == run_id && last.status == ActivationStatus::Running
            && tmux.panes.dom().contains(last.activation_id) && !settled.contains(
            AllocationKeyView {
                activation_id: last.activation_id,
                generation: tmux.panes[last.activation_id].allocation_generation,
            },
        ) {
            front.push(last.activation_id)
        } else {
            front
        }
    }
}

impl ReplayedDriverEvents {
    /// Where the panes that running activations lack are to be.
    pub fn allocation_config(&self, running: &Vec<String>) -> (r: Option<DriverTmuxConfig>)
        ensures
            r.deep_view() == place_for_lacking(self.deep_view(), running.deep_view()),
    {
        if let Some(tmux) = &self.tmux {
            return Some(tmux.config());
        }
        let ghost model = running.deep_view();
        let ghost pending = self.deep_view().pending_tmux_allocations;
        let mut i: usize = 0;
        assert(model.take(0) =~= Seq::<Seq<char>>::empty());
        while i < running.len()
            invariant
                i <= running.len(),
                model == running.deep_view(),
                self.tmux is None,
                pending == self.deep_view().pending_tmux_allocations,
                first_begun(pending, model.take(i as int)) is None,
            decreases running.len() - i,
        {
            assert(model.take(i + 1).drop_last() =~= model.take(i as int));
            assert(model.take(i + 1).last() == running@[i as int]@);
            if let Some(intent) = self.pending_tmux_allocations.get(&running[i]) {
                proof {
                    lemma_first_begun_stays(pending, model, i + 1);
                }
                return Some(intent.config());
            }
            i += 1;
        }
        assert(model.take(i as int) =~= model);
        None
    }

    /// The activations that are to get their prompt.
    pub fn pending_tmux_actuation_ids(&self, activations: &Vec<Activation>, run_id: &str) -> (r: Vec<
        String,
    >)
        ensures
            r.deep_view() == match self.deep_view().tmux {
                Some(tmux) => waiting_in(
                    activations.deep_view(),
                    run_id@,
                    tmux,
                    self.deep_view().deliveries.settled,
                ),
                None => Seq::empty(),
            },
    {
        let mut out: Vec<String> = Vec::new();
        assert(out.deep_view() =~= Seq::<Seq<char>>::empty());
        let tmux = match &self.tmux {
            Some(tmux) => tmux,
            None => return out,
        };
        let ghost model = activations.deep_view();
        let ghost settled = self.deep_view().deliveries.settled;
        let mut i: usize = 0;
        assert(model.take(0) =~= Seq::<ActivationView>::empty());
        while i < activations.len()
            invariant
                i <= activations.len(),
                model == activations.deep_view(),
                settled == self.deep_view().deliveries.settled,
                out.deep_view() == waiting_in(
                    model.take(i as int),
                    run_id@,
                    tmux.deep_view(),
                    settled,
                ),
            decreases activations.len() - i,
        {
            let ghost before = out.deep_view();
            assert(model.take(i + 1).drop_last() =~= model.take(i as int));
            assert(model.take(i + 1).last() == activations@[i as int].deep_view());
            let activation = &activations[i];
            if same(activation.run_id.as_str(), run_id) && activation.status
                == ActivationStatus::Running {
                if let Some(pane) = tmux.panes.get(&activation.activation_id) {
                    if !self.deliveries.settled.contains(
                        activation.activation_id.as_str(),
                        pane.allocation_generation,
                    ) {
                        out.push(activation.activation_id.clone());
                        assert(out.deep_view() =~= before.push(
                            activation.deep_view().activation_id,
                        ));
                    }
                }
            }
            i += 1;
        }
        assert(model.take(i as int) =~= model);
        out
    }
}

proof fn lemma_first_begun_stays(
    pending: Map<Seq<char>, TmuxPaneAllocationIntentView>,
    ids: Seq<Seq<char>>,
    n: int,
)
    requires
        0 <= n <= ids.len(),
        first_begun(pending, ids.take(n)) is Some,
    ensures
        first_begun(pending, ids) == first_begun(pending, ids.take(n)),
    decreases ids.len() - n,
{
    if n == ids.len() {
        assert(ids.take(n) =~= ids);
    } else {
        assert(ids.take(n + 1).drop_last() =~= ids.take(n));
        lemma_first_begun_stays(pending, ids, n + 1);
    }
}

/// An activation that waits for its prompt is running, and has a pane.
pub proof fn lemma_waiting_have_panes(
    activations: Seq<ActivationView>,
    run_id: Seq<char>,
    tmux: DriverTmuxStateView,
    settled: Set<AllocationKeyView>,
    i: int,
)
    requires
        0 <= i < waiting_in(activations, run_id, tmux, settled).len(),
    ensures
        tmux.panes.dom().contains(waiting_in(activations, run_id, tmux, settled)[i]),
        running_in(activations, run_id).contains(
            waiting_in(activations, run_id, tmux, settled)[i],
        ),
    decreases activations.len(),
{
    let front = waiting_in(activations.drop_last(), run_id, tmux, settled);
    let all = running_in(activations, run_id);
    let before = running_in(activations.drop_last(), run_id);
    if i < front.len() {
        lemma_waiting_have_panes(activations.drop_last(), run_id, tmux, settled, i);
        let j = before.index_of(front[i]);
        assert(all[j] == front[i]);
    } else {
        assert(all.last() == activations.last().activation_id);
        assert(all[all.len() - 1] == activations.last().activation_id);
    }
}

/// An activation does not wait for its prompt while it lacks a pane.
pub proof fn lemma_lacking_lack(
    tmux: Option<DriverTmuxStateView>,
    activation_ids: Seq<Seq<char>>,
    i: int,
)
    requires
        0 <= i < lacking_panes(tmux, activation_ids).len(),
    ensures
        !has_pane(tmux, lacking_panes(tmux, activation_ids)[i]),
    decreases activation_ids.len(),
{
    let front = lacking_panes(tmux, activation_ids.drop_last());
    if i < front.len() {
        lemma_lacking_lack(tmux, activation_ids.drop_last(), i);
    }
}

/// How panes are shown.
pub open spec fn shown_panes(pairs: Seq<(Seq<char>, StoredPaneView)>) -> Seq<JsonView> {
    Seq::new(pairs.len(), |i: int| pairs[i].1.shown(pairs[i].0))
}

/// The panes of a table, in the order of the activations.
pub open spec fn panes_in(panes: Table<String, StoredPane>) -> Seq<JsonView> {
    shown_panes(panes.pairs())
}

/// The panes that the driver owns.
pub open spec fn owned_panes(tmux: Option<DriverTmuxState>) -> Seq<JsonView> {
    match tmux {
        Some(tmux) => panes_in(tmux.panes),
        None => Seq::empty(),
    }
}

pub fn owned_panes_json(tmux: &Option<DriverTmuxState>) -> (r: Vec<Json>)
    ensures
        r.deep_view() == owned_panes(*tmux),
{
    let mut out: Vec<Json> = Vec::new();
    match tmux {
        None => {
            assert(out.deep_view() =~= Seq::<JsonView>::empty());
            out
        },
        Some(tmux) => {
            let n: usize = tmux.panes.len();
            let ghost pairs = tmux.panes.pairs();
            let mut i: usize = 0;
            while i < n
                invariant
                    i <= n,
                    pairs == tmux.panes.pairs(),
                    n == pairs.len(),
                    out.len() == i,
                    forall|j: int|
                        0 <= j < i ==> (#[trigger] out@[j])@ == pairs[j].1.shown(pairs[j].0),
                decreases n - i,
            {
                let key = tmux.panes.key_at(i);
                let pane = tmux.panes.value_at(i);
                out.push(pane.shown(key.as_str()));
                i += 1;
            }
            assert(out.deep_view() =~= shown_panes(pairs));
            out
        },
    }
}

/// What is told of the panes of a run that asked for none.
pub open spec fn no_panes(actuation: JsonView) -> JsonView {
    JsonView::Record(
        no_fields()
            .push(("enabled"@, JsonView::Bool(false)))
            .push(("panes"@, JsonView::List(Seq::empty())))
            .push(("actuation"@, actuation)),
    )
}

pub fn no_panes_json(actuation: Json) -> (r: Json)
    ensures
        r@ == no_panes(actuation@),
{
    let none: Vec<Json> = Vec::new();
    assert(none.deep_view() =~= Seq::<JsonView>::empty());
    Fields::new()
        .put("enabled", Json::Bool(false))
        .put("panes", Json::list(none))
        .put("actuation", actuation)
        .done()
}

/// What is told of the panes of a run.
pub open spec fn told_panes(
    enabled: bool,
    tmux: Option<DriverTmuxStateView>,
    panes: Seq<JsonView>,
    actuation: JsonView,
) -> JsonView {
    JsonView::Record(
        no_fields()
            .push(("enabled"@, JsonView::Bool(enabled)))
            .push(
                (
                    "session_id"@,
                    option_text(
                        match tmux {
                            Some(tmux) => Some(tmux.session_id),
                            None => None,
                        },
                    ),
                ),
            )
            .push(
                (
                    "window_id"@,
                    option_text(
                        match tmux {
                            Some(tmux) => Some(tmux.window_id),
                            None => None,
                        },
                    ),
                ),
            )
            .push(
                (
                    "window_name"@,
                    option_text(
                        match tmux {
                            Some(tmux) => Some(tmux.window_name),
                            None => None,
                        },
                    ),
                ),
            )
            .push(("panes"@, JsonView::List(panes)))
            .push(("actuation"@, actuation)),
    )
}

pub fn told_panes_json(
    enabled: bool,
    tmux: &Option<DriverTmuxState>,
    panes: Vec<Json>,
    actuation: Json,
) -> (r: Json)
    ensures
        r@ == told_panes(enabled, tmux.deep_view(), panes.deep_view(), actuation@),
{
    let (session_id, window_id, window_name) = match tmux {
        Some(tmux) => (
            Json::text(tmux.session_id.as_str()),
            Json::text(tmux.window_id.as_str()),
            Json::text(tmux.window_name.as_str()),
        ),
        None => (Json::Null, Json::Null, Json::Null),
    };
    Fields::new()
        .put("enabled", Json::Bool(enabled))
        .put("session_id", session_id)
        .put("window_id", window_id)
        .put("window_name", window_name)
        .put("panes", Json::list(panes))
        .put("actuation", actuation)
        .done()
}

/// Where the panes of a run are to be: in the window of the operator, where it is the one that
/// is meant and no other is named.
pub open spec fn place_with_operator(
    config: DriverTmuxConfigView,
    operator: Option<DriverPaneConfigView>,
) -> DriverTmuxConfigView {
    match operator {
        Some(operator) => if config.existing_window_id is None && operator.session_id
            == config.session && operator.window_name == config.window {
            DriverTmuxConfigView { existing_window_id: Some(operator.window_id), ..config }
        } else {
            config
        },
        None => config,
    }
}

pub fn with_operator_window(
    config: DriverTmuxConfig,
    operator: &Option<DriverPaneConfig>,
) -> (r: DriverTmuxConfig)
    ensures
        r.deep_view() == place_with_operator(config.deep_view(), operator.deep_view()),
{
    match operator {
        Some(operator) => {
            let meant = config.existing_window_id.is_none() && same(
                operator.session_id.as_str(),
                config.session.as_str(),
            ) && same(operator.window_name.as_str(), config.window.as_str());
            if meant {
                DriverTmuxConfig {
                    session: config.session,
                    window: config.window,
                    agent_command: config.agent_command,
                    actuation: config.actuation,
                    existing_window_id: Some(operator.window_id.clone()),
                }
            } else {
                config
            }
        },
        None => config,
    }
}

/// The panes that reports tell of.
pub open spec fn told_gone(outcomes: Seq<JsonView>) -> Seq<JsonView>
    decreases outcomes.len(),
{
    if outcomes.len() == 0 {
        Seq::empty()
    } else {
        let front = told_gone(outcomes.drop_last());
        match field(outcomes.last(), "pane"@) {
            Some(pane) => front.push(pane),
            None => front,
        }
    }
}

fn gone_in(outcomes: &Vec<Json>) -> (r: Vec<Json>)
    ensures
        r.deep_view() == told_gone(outcomes.deep_view()),
{
    let ghost model = outcomes.deep_view();
    let mut out: Vec<Json> = Vec::new();
    let mut i: usize = 0;
    assert(model.take(0) =~= Seq::<JsonView>::empty());
    assert(out.deep_view() =~= Seq::<JsonView>::empty());
    while i < outcomes.len()
        invariant
            i <= outcomes.len(),
            model == outcomes.deep_view(),
            out.deep_view() == told_gone(model.take(i as int)),
        decreases outcomes.len() - i,
    {
        let ghost before = out.deep_view();
        assert(model.take(i + 1).drop_last() =~= model.take(i as int));
        assert(model.take(i + 1).last() == outcomes@[i as int]@);
        if let Some(pane) = outcomes[i].get("pane") {
            out.push(pane.clone());
            assert(out.deep_view() =~= before.push(pane@));
        }
        i += 1;
    }
    assert(model.take(i as int) =~= model);
    out
}

/// The panes that are left of those that were reported: not those that were owned and given
/// up, nor those that are gone.
pub open spec fn still_reported(
    reported: Seq<JsonView>,
    before: Seq<JsonView>,
    after: Seq<JsonView>,
    gone: Seq<JsonView>,
) -> Seq<JsonView>
    decreases reported.len(),
{
    if reported.len() == 0 {
        Seq::empty()
    } else {
        let front = still_reported(reported.drop_last(), before, after, gone);
        let pane = reported.last();
        if (!among(before, pane) || among(after, pane)) && !among(gone, pane) {
            front.push(pane)
        } else {
            front
        }
    }
}

/// The panes that are not gone.
pub open spec fn not_gone(panes: Seq<JsonView>, gone: Seq<JsonView>) -> Seq<JsonView>
    decreases panes.len(),
{
    if panes.len() == 0 {
        Seq::empty()
    } else {
        let front = not_gone(panes.drop_last(), gone);
        if among(gone, panes.last()) {
            front
        } else {
            front.push(panes.last())
        }
    }
}

/// What is told where panes could not be made ready: with the panes that are left over after
/// those of the run were ended.
pub open spec fn bind_failure(
    failure: FailureView,
    cleanup_outcomes: Seq<JsonView>,
    before: Seq<JsonView>,
    after: Seq<JsonView>,
) -> FailureView {
    let outcomes = failure.gone_panes() + cleanup_outcomes;
    let gone = told_gone(outcomes);
    failure.losing_all(outcomes).leaving_only(
        still_reported(failure.left_panes(), before, after, gone) + not_gone(after, gone),
    )
}

pub fn bind_cleanup_failure(
    failure: DriverFailure,
    cleanup_outcomes: Vec<Json>,
    owned_before: &Vec<Json>,
    owned_after: &Vec<Json>,
) -> (r: DriverFailure)
    ensures
        r.deep_view() == bind_failure(
            failure.deep_view(),
            cleanup_outcomes.deep_view(),
            owned_before.deep_view(),
            owned_after.deep_view(),
        ),
{
    let reported = failure.tmux_cleanup_panes();
    let mut outcomes = failure.tmux_release_outcomes();
    let ghost first = outcomes.deep_view();
    let ghost added = cleanup_outcomes.deep_view();
    let mut i: usize = 0;
    assert(outcomes.deep_view() =~= first + added.take(0));
    while i < cleanup_outcomes.len()
        invariant
            i <= cleanup_outcomes.len(),
            added == cleanup_outcomes.deep_view(),
            outcomes.deep_view() == first + added.take(i as int),
        decreases cleanup_outcomes.len() - i,
    {
        let ghost before = outcomes.deep_view();
        outcomes.push(cleanup_outcomes[i].clone());
        assert(outcomes.deep_view() =~= before.push(added[i as int]));
        i += 1;
        assert(outcomes.deep_view() =~= first + added.take(i as int));
    }
    assert(added.take(i as int) =~= added);
    let gone = gone_in(&outcomes);
    let mut left: Vec<Json> = Vec::new();
    let ghost model = reported.deep_view();
    let mut k: usize = 0;
    assert(model.take(0) =~= Seq::<JsonView>::empty());
    assert(left.deep_view() =~= Seq::<JsonView>::empty());
    while k < reported.len()
        invariant
            k <= reported.len(),
            model == reported.deep_view(),
            left.deep_view() == still_reported(
                model.take(k as int),
                owned_before.deep_view(),
                owned_after.deep_view(),
                gone.deep_view(),
            ),
        decreases reported.len() - k,
    {
        let ghost before = left.deep_view();
        assert(model.take(k + 1).drop_last() =~= model.take(k as int));
        assert(model.take(k + 1).last() == reported@[k as int]@);
        let pane = &reported[k];
        if (!is_among(owned_before, pane) || is_among(owned_after, pane)) && !is_among(
            &gone,
            pane,
        ) {
            left.push(pane.clone());
            assert(left.deep_view() =~= before.push(pane@));
        }
        k += 1;
    }
    assert(model.take(k as int) =~= model);
    let ghost kept = left.deep_view();
    let ghost owned = owned_after.deep_view();
    let mut n: usize = 0;
    assert(owned.take(0) =~= Seq::<JsonView>::empty());
    assert(left.deep_view() =~= kept + not_gone(owned.take(0), gone.deep_view()));
    while n < owned_after.len()
        invariant
            n <= owned_after.len(),
            owned == owned_after.deep_view(),
            left.deep_view() == kept + not_gone(owned.take(n as int), gone.deep_view()),
        decreases owned_after.len() - n,
    {
        let ghost before = left.deep_view();
        let ghost so_far = not_gone(owned.take(n as int), gone.deep_view());
        assert(owned.take(n + 1).drop_last() =~= owned.take(n as int));
        assert(owned.take(n + 1).last() == owned_after@[n as int]@);
        if !is_among(&gone, &owned_after[n]) {
            left.push(owned_after[n].clone());
            assert(left.deep_view() =~= before.push(owned[n as int]));
            assert(left.deep_view() =~= kept + so_far.push(owned[n as int]));
        }
        n += 1;
    }
    assert(owned.take(n as int) =~= owned);
    failure.with_tmux_release_outcomes(outcomes).replacing_tmux_cleanup(left)
}

proof fn lemma_not_gone_keeps(panes: Seq<JsonView>, gone: Seq<JsonView>, i: int)
    requires
        0 <= i < panes.len(),
        !among(gone, panes[i]),
    ensures
        among(not_gone(panes, gone), panes[i]),
    decreases panes.len(),
{
    let all = not_gone(panes, gone);
    if i == panes.len() - 1 {
        assert(alike(all[all.len() - 1], panes[i]));
    } else {
        let rest = panes.drop_last();
        lemma_not_gone_keeps(rest, gone, i);
        let front = not_gone(rest, gone);
        let j = choose|j: int| 0 <= j < front.len() && alike(#[trigger] front[j], rest[i]);
        assert(alike(all[j], panes[i]));
    }
}

/// No pane that the driver still owns is passed over in what is told, unless it is gone.
pub proof fn lemma_owned_panes_are_told(
    failure: FailureView,
    cleanup_outcomes: Seq<JsonView>,
    before: Seq<JsonView>,
    after: Seq<JsonView>,
    i: int,
)
    requires
        0 <= i < after.len(),
        !among(told_gone(failure.gone_panes() + cleanup_outcomes), after[i]),
    ensures
        ({
            let gone = told_gone(failure.gone_panes() + cleanup_outcomes);
            among(
                still_reported(failure.left_panes(), before, after, gone) + not_gone(after, gone),
                after[i],
            )
        }),
{
    let gone = told_gone(failure.gone_panes() + cleanup_outcomes);
    let first = still_reported(failure.left_panes(), before, after, gone);
    let second = not_gone(after, gone);
    lemma_not_gone_keeps(after, gone, i);
    let j = choose|j: int| 0 <= j < second.len() && alike(#[trigger] second[j], after[i]);
    assert((first + second)[first.len() + j] == second[j]);
}

/// The event that takes panes from activations.
pub open spec fn release_event(
    activation_ids: Seq<Seq<char>>,
    barriers: Seq<JsonView>,
) -> PlannedEventView {
    PlannedEventView {
        kind: "tmux_panes_released"@,
        payload: JsonView::Record(
            no_fields()
                .push(("activation_ids"@, text_list(activation_ids)))
                .push(("delivery_barriers"@, JsonView::List(barriers))),
        ),
    }
}

impl DriverStateView {
    /// The barriers that panes leave behind.
    pub open spec fn barriers(self, activation_ids: Seq<Seq<char>>) -> Seq<JsonView> {
        match self.tmux {
            Some(tmux) => barriers_of(self.deliveries, tmux.panes, activation_ids),
            None => Seq::empty(),
        }
    }

    /// An activation gives up its pane.
    pub open spec fn let_go(self, activation_id: Seq<char>) -> DriverStateView {
        DriverStateView {
            pending_tmux_allocations: self.pending_tmux_allocations,
            ..self.released(activation_id)
        }
    }

    pub open spec fn all_let_go(self, activation_ids: Seq<Seq<char>>) -> DriverStateView
        decreases activation_ids.len(),
    {
        if activation_ids.len() == 0 {
            self
        } else {
            self.all_let_go(activation_ids.drop_last()).let_go(activation_ids.last())
        }
    }

    /// Activations give up their panes, and the barriers of the panes go up.
    pub open spec fn giving_up(
        self,
        activation_ids: Seq<Seq<char>>,
        barriers: Seq<JsonView>,
        sequence: u64,
    ) -> DriverStateView {
        let barred = DriverStateView {
            deliveries: barriers_up(self.deliveries, barriers, sequence),
            ..self
        };
        if self.tmux is Some {
            barred.all_let_go(activation_ids)
        } else {
            barred
        }
    }
}

impl ReplayedDriverEvents {
    /// The event that takes panes from activations, and the barriers that they leave behind;
    /// nothing is to be done for no activation.
    pub fn plan_release(&self, activation_ids: &Vec<String>) -> (r: Option<
        (PlannedEvent, Vec<Json>),
    >)
        ensures
            match r {
                Some((event, barriers)) => {
                    &&& activation_ids@.len() > 0
                    &&& barriers.deep_view() == self.deep_view().barriers(
                        activation_ids.deep_view(),
                    )
                    &&& event.deep_view() == release_event(
                        activation_ids.deep_view(),
                        barriers.deep_view(),
                    )
                },
                None => activation_ids@.len() == 0,
            },
    {
        if activation_ids.len() == 0 {
            return None;
        }
        let barriers = match &self.tmux {
            Some(tmux) => self.deliveries.released_delivery_barriers(
                &tmux.panes,
                activation_ids,
            ),
            None => {
                let none: Vec<Json> = Vec::new();
                assert(none.deep_view() =~= Seq::<JsonView>::empty());
                none
            },
        };
        let listed = activation_ids.as_slice();
        assert(listed.deep_view() =~= activation_ids.deep_view());
        let event = PlannedEvent {
            kind: "tmux_panes_released",
            payload: Fields::new()
                .put("activation_ids", text_list_json(listed))
                .put("delivery_barriers", Json::list(copied(&barriers)))
                .done(),
        };
        Some((event, barriers))
    }

    fn let_go(&mut self, activation_id: &String)
        ensures
            final(self).deep_view() == old(self).deep_view().let_go(activation_id@),
    {
        match &mut self.tmux {
            Some(tmux) => {
                let _ = tmux.panes.remove(activation_id);
            },
            None => {},
        }
        let _ = self.pending_pipe_captures.remove(activation_id);
        let _ = self.pipe_captures.remove(activation_id);
        self.deliveries.launched.remove_activation(activation_id.as_str());
        self.deliveries.settled.remove_activation(activation_id.as_str());
    }

    /// Takes their panes from activations, once the event that says so is written down.
    pub fn release_tmux_panes(
        &mut self,
        activation_ids: &Vec<String>,
        barriers: &Vec<Json>,
        event_sequence: u64,
    )
        ensures
            final(self).deep_view() == old(self).deep_view().giving_up(
                activation_ids.deep_view(),
                barriers.deep_view(),
                event_sequence,
            ),
    {
        self.deliveries.install_released_delivery_barriers(barriers, event_sequence);
        if self.tmux.is_some() {
            let ghost start = self.deep_view();
            let ghost model = activation_ids.deep_view();
            let mut i: usize = 0;
            assert(model.take(0) =~= Seq::<Seq<char>>::empty());
            while i < activation_ids.len()
                invariant
                    i <= activation_ids.len(),
                    model == activation_ids.deep_view(),
                    self.deep_view() == start.all_let_go(model.take(i as int)),
                decreases activation_ids.len() - i,
            {
                assert(model.take(i + 1).drop_last() =~= model.take(i as int));
                assert(model.take(i + 1).last() == activation_ids@[i as int]@);
                self.let_go(&activation_ids[i]);
                i += 1;
            }
            assert(model.take(i as int) =~= model);
        }
    }
}

proof fn lemma_let_go_is_complete(state: DriverStateView, activation_ids: Seq<Seq<char>>, i: int)
    requires
        0 <= i < activation_ids.len(),
    ensures
        !has_pane(state.all_let_go(activation_ids).tmux, activation_ids[i]),
        (state.tmux is Some) == (state.all_let_go(activation_ids).tmux is Some),
    decreases activation_ids.len(),
{
    if i < activation_ids.len() - 1 {
        lemma_let_go_is_complete(state, activation_ids.drop_last(), i);
    } else if activation_ids.len() > 1 {
        lemma_let_go_is_complete(state, activation_ids.drop_last(), 0);
    }
}

/// No activation that gave up its pane has one.
pub proof fn lemma_given_up_panes_are_gone(
    state: DriverStateView,
    activation_ids: Seq<Seq<char>>,
    barriers: Seq<JsonView>,
    sequence: u64,
    i: int,
)
    requires
        0 <= i < activation_ids.len(),
    ensures
        !has_pane(state.giving_up(activation_ids, barriers, sequence).tmux, activation_ids[i]),
{
    let barred = DriverStateView {
        deliveries: barriers_up(state.deliveries, barriers, sequence),
        ..state
    };
    lemma_let_go_is_complete(barred, activation_ids, i);
}

/// Whether the helper on a pane runs, so that it need not be started again.
pub open spec fn capture_stands(
    asset: Option<AssetView>,
    pane: StoredPaneView,
    captures: Map<Seq<char>, (u64, PipeDescriptorView)>,
    activation_id: Seq<char>,
) -> bool {
    match asset {
        Some(asset) => {
            &&& asset.pane_id.len() == 0 || asset.pane_id == pane.pane_id
            &&& asset.allocation_generation == pane.allocation_generation
            &&& asset.capture_phase == "capturing"@
            &&& asset.pipe_acknowledged
            &&& captures.dom().contains(activation_id)
            &&& captures[activation_id].0 == pane.allocation_generation
        },
        None => false,
    }
}

/// The helper that is to be started on a pane.
pub open spec fn capture_to_start(
    run_id: Seq<char>,
    activation_id: Seq<char>,
    pane: StoredPaneView,
    transcript: Seq<char>,
    identity: PipeSinkIdentity,
    pid: u32,
    nonce: Seq<char>,
) -> TmuxPipeCaptureIntentView {
    TmuxPipeCaptureIntentView {
        operation_id: capture_id(run_id, activation_id, pane),
        activation_id,
        allocation_generation: pane.allocation_generation,
        pane,
        transcript_relative_path: transcript,
        transcript_identity: identity,
        ack_relative_path: ack_path(transcript, pid),
        completion_relative_path: with_slashes(
            crate::adapters::tmux::pipe::completion_path(ack_path(transcript, pid)),
        ),
        ack_nonce: nonce,
    }
}

pub fn new_capture_intent(
    run_id: &str,
    activation_id: &str,
    pane: &StoredPane,
    transcript: &str,
    identity: PipeSinkIdentity,
    pid: u32,
    nonce: &str,
) -> (r: TmuxPipeCaptureIntent)
    ensures
        r.deep_view() == capture_to_start(
            run_id@,
            activation_id@,
            pane.deep_view(),
            transcript@,
            identity,
            pid,
            nonce@,
        ),
{
    let ack = pipe_ack_relative_path(transcript, pid);
    let completion = pipe_completion_relative_path(ack.as_str());
    TmuxPipeCaptureIntent {
        operation_id: pipe_capture_operation_id(run_id, activation_id, pane),
        activation_id: activation_id.to_string(),
        allocation_generation: pane.allocation_generation,
        pane: pane.clone(),
        transcript_relative_path: transcript.to_string(),
        transcript_identity: identity,
        ack_relative_path: ack,
        completion_relative_path: completion,
        ack_nonce: nonce.to_string(),
    }
}

/// The helper on a pane that was begun and not finished, where there is one; it must be for
/// this very pane.
pub open spec fn capture_begun(
    pending: Map<Seq<char>, TmuxPipeCaptureIntentView>,
    activation_id: Seq<char>,
    pane: StoredPaneView,
) -> Result<Option<TmuxPipeCaptureIntentView>, FailureView> {
    if !pending.dom().contains(activation_id) {
        Ok(None)
    } else if pending[activation_id].allocation_generation != pane.allocation_generation
        || pending[activation_id].pane != pane {
        Err(
            FailureView::plain(
                "tmux_error"@,
                "pending pipe capture belongs to a different pane allocation"@,
            ),
        )
    } else {
        Ok(Some(pending[activation_id]))
    }
}

/// The event that says that a helper runs.
pub open spec fn capture_started_event(
    activation_id: Seq<char>,
    generation: u64,
    operation_id: Seq<char>,
    descriptor: PipeDescriptorView,
) -> PlannedEventView {
    PlannedEventView {
        kind: "pipe_capture_started"@,
        payload: JsonView::Record(
            no_fields()
                .push(("activation_id"@, JsonView::Text(activation_id)))
                .push(("allocation_generation"@, JsonView::Unsigned(generation)))
                .push(("operation_id"@, JsonView::Text(operation_id)))
                .push(("descriptor"@, descriptor_json(descriptor))),
        ),
    }
}

pub fn pipe_capture_started_event(
    activation_id: &str,
    generation: u64,
    operation_id: &str,
    descriptor: &TmuxPipeCaptureDescriptor,
) -> (r: PlannedEvent)
    ensures
        r.deep_view() == capture_started_event(
            activation_id@,
            generation,
            operation_id@,
            descriptor.deep_view(),
        ),
{
    PlannedEvent {
        kind: "pipe_capture_started",
        payload: Fields::new()
            .put("activation_id", Json::text(activation_id))
            .put("allocation_generation", Json::Unsigned(generation))
            .put("operation_id", Json::text(operation_id))
            .put("descriptor", descriptor_to_json(descriptor))
            .done(),
    }
}

impl ReplayedDriverEvents {
    /// Whether the helper on a pane runs, so that it need not be started again.
    pub fn capture_stands(
        &self,
        asset: &Option<ActivationAsset>,
        pane: &StoredPane,
        activation_id: &str,
    ) -> (r: bool)
        ensures
            r == capture_stands(
                asset.deep_view(),
                pane.deep_view(),
                self.deep_view().pipe_captures,
                activation_id@,
            ),
    {
        match asset {
            Some(asset) => {
                if !(asset.pane_id.as_str().is_empty() || same(
                    asset.pane_id.as_str(),
                    pane.pane_id.as_str(),
                )) || asset.allocation_generation != pane.allocation_generation || !same(
                    asset.capture_phase.as_str(),
                    "capturing",
                ) || !asset.pipe_acknowledged {
                    return false;
                }
                match self.pipe_captures.get(&activation_id.to_string()) {
                    Some(capture) => capture.0 == pane.allocation_generation,
                    None => false,
                }
            },
            None => false,
        }
    }

    /// The helper on a pane that was begun and not finished.
    pub fn pending_capture(&self, activation_id: &str, pane: &StoredPane) -> (r: Result<
        Option<TmuxPipeCaptureIntent>,
        DriverFailure,
    >)
        ensures
            result_of(r) == capture_begun(
                self.deep_view().pending_pipe_captures,
                activation_id@,
                pane.deep_view(),
            ),
    {
        match self.pending_pipe_captures.get(&activation_id.to_string()) {
            None => Ok(None),
            Some(intent) => {
                if intent.allocation_generation != pane.allocation_generation
                    || !intent.pane.same_as(pane) {
                    return Err(
                        DriverFailure::new(
                            "tmux_error",
                            "pending pipe capture belongs to a different pane allocation",
                        ),
                    );
                }
                Ok(Some(intent.clone()))
            },
        }
    }

    /// A helper runs, once the event that says so is written down.
    pub fn capture_runs(
        &mut self,
        activation_id: &str,
        generation: u64,
        descriptor: TmuxPipeCaptureDescriptor,
    )
        ensures
            final(self).deep_view() == (DriverStateView {
                pending_pipe_captures: old(self).deep_view().pending_pipe_captures.remove(
                    activation_id@,
                ),
                pipe_captures: old(self).deep_view().pipe_captures.insert(
                    activation_id@,
                    (generation, descriptor.deep_view()),
                ),
                ..old(self).deep_view()
            }),
    {
        let key = activation_id.to_string();
        let _ = self.pending_pipe_captures.remove(&key);
        self.pipe_captures.insert(key, (generation, descriptor));
    }
}

/// What came of the end of each pane.
pub open spec fn ended_of(
    results: Seq<(Seq<char>, Result<JsonView, FailureView>)>,
) -> Seq<JsonView>
    decreases results.len(),
{
    if results.len() == 0 {
        Seq::empty()
    } else {
        let front = ended_of(results.drop_last());
        match results.last().1 {
            Ok(report) => front.push(report),
            Err(_) => front,
        }
    }
}

/// What is told of each pane that could not be ended.
pub open spec fn faults_of(
    results: Seq<(Seq<char>, Result<JsonView, FailureView>)>,
) -> Seq<JsonView>
    decreases results.len(),
{
    if results.len() == 0 {
        Seq::empty()
    } else {
        let front = faults_of(results.drop_last());
        match results.last().1 {
            Ok(_) => front,
            Err(failure) => front.push(failure.cleanup(Some(results.last().0))),
        }
    }
}

/// The panes that are gone, though this could not be written down.
pub open spec fn gone_of(
    results: Seq<(Seq<char>, Result<JsonView, FailureView>)>,
) -> Seq<JsonView>
    decreases results.len(),
{
    if results.len() == 0 {
        Seq::empty()
    } else {
        let front = gone_of(results.drop_last());
        match results.last().1 {
            Ok(_) => front,
            Err(failure) => front + failure.gone_panes(),
        }
    }
}

/// What is told of the end of all panes.
pub open spec fn ending_told(
    reason: Seq<char>,
    results: Seq<(Seq<char>, Result<JsonView, FailureView>)>,
) -> Result<JsonView, FailureView> {
    if faults_of(results).len() == 0 {
        Ok(
            JsonView::Record(
                no_fields()
                    .push(("reason"@, JsonView::Text(reason)))
                    .push(("finalized"@, JsonView::List(ended_of(results)))),
            ),
        )
    } else {
        Err(
            (FailureView {
                extra: JsonView::Record(
                    no_fields()
                        .push(("cleanup_errors"@, JsonView::List(faults_of(results))))
                        .push(("finalized"@, JsonView::List(ended_of(results)))),
                ),
                ..FailureView::plain(
                    "tmux_cleanup_failed"@,
                    "one or more driver-owned activation panes could not be finalized"@,
                )
            }).losing_all(gone_of(results)),
        )
    }
}

/// What came of the end of panes, as a model.
pub open spec fn endings(
    results: Seq<(String, Result<Json, DriverFailure>)>,
) -> Seq<(Seq<char>, Result<JsonView, FailureView>)> {
    Seq::new(
        results.len(),
        |i: int|
            (
                results[i].0@,
                match results[i].1 {
                    Ok(report) => Ok(report@),
                    Err(failure) => Err(failure.deep_view()),
                },
            ),
    )
}

fn append(out: &mut Vec<Json>, more: Vec<Json>)
    ensures
        final(out).deep_view() == old(out).deep_view() + more.deep_view(),
{
    let ghost start = out.deep_view();
    let ghost added = more.deep_view();
    let mut i: usize = 0;
    assert(out.deep_view() =~= start + added.take(0));
    while i < more.len()
        invariant
            i <= more.len(),
            added == more.deep_view(),
            out.deep_view() == start + added.take(i as int),
        decreases more.len() - i,
    {
        let ghost before = out.deep_view();
        out.push(more[i].clone());
        assert(out.deep_view() =~= before.push(added[i as int]));
        i += 1;
        assert(out.deep_view() =~= start + added.take(i as int));
    }
    assert(added.take(i as int) =~= added);
}

/// What is told of the end of all panes.
pub fn finalize_terminal_node_panes(
    reason: &str,
    results: &Vec<(String, Result<Json, DriverFailure>)>,
) -> (r: Result<Json, DriverFailure>)
    ensures
        match r {
            Ok(report) => ending_told(reason@, endings(results@)) == Ok::<JsonView, FailureView>(
                report@,
            ),
            Err(failure) => ending_told(reason@, endings(results@)) == Err::<
                JsonView,
                FailureView,
            >(failure.deep_view()),
        },
{
    let ghost model = endings(results@);
    let mut finalized: Vec<Json> = Vec::new();
    let mut errors: Vec<Json> = Vec::new();
    let mut outcomes: Vec<Json> = Vec::new();
    let mut i: usize = 0;
    assert(model.take(0) =~= Seq::<(Seq<char>, Result<JsonView, FailureView>)>::empty());
    assert(finalized.deep_view() =~= Seq::<JsonView>::empty());
    assert(errors.deep_view() =~= Seq::<JsonView>::empty());
    assert(outcomes.deep_view() =~= Seq::<JsonView>::empty());
    while i < results.len()
        invariant
            i <= results.len(),
            model == endings(results@),
            finalized.deep_view() == ended_of(model.take(i as int)),
            errors.deep_view() == faults_of(model.take(i as int)),
            outcomes.deep_view() == gone_of(model.take(i as int)),
        decreases results.len() - i,
    {
        let ghost ended = finalized.deep_view();
        let ghost faults = errors.deep_view();
        assert(model.take(i + 1).drop_last() =~= model.take(i as int));
        assert(model.take(i + 1).last() == model[i as int]);
        match &results[i].1 {
            Ok(report) => {
                finalized.push(report.clone());
                assert(finalized.deep_view() =~= ended.push(report@));
            },
            Err(failure) => {
                append(&mut outcomes, failure.tmux_release_outcomes());
                let told = failure.to_cleanup_json(Some(results[i].0.as_str()));
                errors.push(told);
                assert(errors.deep_view() =~= faults.push(told@));
            },
        }
        i += 1;
    }
    assert(model.take(i as int) =~= model);
    assert(errors.deep_view().len() == errors.len());
    if errors.len() == 0 {
        Ok(
            Fields::new()
                .put("reason", Json::text(reason))
                .put("finalized", Json::list(finalized))
                .done(),
        )
    } else {
        let failure = DriverFailure::new(
            "tmux_cleanup_failed",
            "one or more driver-owned activation panes could not be finalized",
        ).with_extra(
            Fields::new()
                .put("cleanup_errors", Json::list(errors))
                .put("finalized", Json::list(finalized))
                .done(),
        );
        Err(failure.with_tmux_release_outcomes(outcomes))
    }
}

/// Each pane is told of once: as ended, or as one that could not be.
pub proof fn lemma_every_pane_is_told(results: Seq<(Seq<char>, Result<JsonView, FailureView>)>)
    ensures
        ended_of(results).len() + faults_of(results).len() == results.len(),
    decreases results.len(),
{
    if results.len() > 0 {
        lemma_every_pane_is_told(results.drop_last());
    }
}

/// What is told of the end of the driver.
pub open spec fn exit_told(
    reason: Seq<char>,
    nodes: Result<JsonView, FailureView>,
    operator: Result<(), FailureView>,
) -> Result<JsonView, FailureView> {
    if nodes is Ok && operator is Ok {
        Ok(
            JsonView::Record(
                no_fields()
                    .push(("reason"@, JsonView::Text(reason)))
                    .push(("nodes"@, nodes->Ok_0))
                    .push(("operator_pane_released"@, JsonView::Bool(true))),
            ),
        )
    } else {
        let none = Seq::<JsonView>::empty();
        let (node_fault, node_gone) = match nodes {
            Ok(_) => (none, none),
            Err(failure) => (none.push(failure.cleanup(None)), failure.gone_panes()),
        };
        let (operator_fault, operator_gone) = match operator {
            Ok(_) => (none, none),
            Err(failure) => (none.push(failure.cleanup(Some("driver"@))), failure.gone_panes()),
        };
        Err(
            (FailureView {
                extra: JsonView::Record(
                    no_fields()
                        .push(("cleanup_errors"@, JsonView::List(node_fault + operator_fault))),
                ),
                ..FailureView::plain(
                    "tmux_cleanup_failed"@,
                    "driver shutdown could not finalize every owned pane"@,
                )
            }).losing_all(node_gone + operator_gone),
        )
    }
}

/// What is told of the end of the driver, once all panes and that of the operator were to be
/// ended.
pub fn finalize_for_exit(
    reason: &str,
    nodes: Result<Json, DriverFailure>,
    operator: Result<(), DriverFailure>,
) -> (r: Result<Json, DriverFailure>)
    ensures
        ({
            let nodes = match nodes {
                Ok(report) => Ok(report@),
                Err(failure) => Err(failure.deep_view()),
            };
            let operator = match operator {
                Ok(_) => Ok(()),
                Err(failure) => Err(failure.deep_view()),
            };
            match r {
                Ok(report) => exit_told(reason@, nodes, operator) == Ok::<JsonView, FailureView>(
                    report@,
                ),
                Err(failure) => exit_told(reason@, nodes, operator) == Err::<
                    JsonView,
                    FailureView,
                >(failure.deep_view()),
            }
        }),
{
    let mut errors: Vec<Json> = Vec::new();
    let mut outcomes: Vec<Json> = Vec::new();
    let ghost none = Seq::<JsonView>::empty();
    assert(errors.deep_view() =~= none);
    assert(outcomes.deep_view() =~= none);
    let mut nodes_told = Json::Null;
    let mut nodes_ended = true;
    let ghost mut node_fault = none;
    let ghost mut node_gone = none;
    match nodes {
        Ok(report) => {
            nodes_told = report;
        },
        Err(failure) => {
            nodes_ended = false;
            append(&mut outcomes, failure.tmux_release_outcomes());
            let told = failure.to_cleanup_json(None);
            errors.push(told);
            assert(errors.deep_view() =~= none.push(told@));
            proof {
                node_fault = none.push(told@);
                node_gone = failure.deep_view().gone_panes();
            }
            assert(outcomes.deep_view() =~= node_gone);
        },
    }
    match operator {
        Ok(_) => {
            if nodes_ended {
                return Ok(
                    Fields::new()
                        .put("reason", Json::text(reason))
                        .put("nodes", nodes_told)
                        .put("operator_pane_released", Json::Bool(true))
                        .done(),
                );
            }
            assert(errors.deep_view() =~= node_fault + none);
            assert(outcomes.deep_view() =~= node_gone + none);
        },
        Err(failure) => {
            append(&mut outcomes, failure.tmux_release_outcomes());
            let told = failure.to_cleanup_json(Some("driver"));
            errors.push(told);
            assert(errors.deep_view() =~= node_fault + none.push(told@));
            assert(outcomes.deep_view() =~= node_gone + failure.deep_view().gone_panes());
        },
    }
    let failure = DriverFailure::new(
        "tmux_cleanup_failed",
        "driver shutdown could not finalize every owned pane",
    ).with_extra(Fields::new().put("cleanup_errors", Json::list(errors)).done());
    Err(failure.with_tmux_release_outcomes(outcomes))
}

/// Whether a run that was running when the driver stopped is to be paused.
pub open spec fn pauses_on_restart(bound: bool, status: RunStatus, known: bool) -> bool {
    bound && status == RunStatus::Running && known
}

pub fn suspends_replayed_run(bound: bool, status: RunStatus, known: bool) -> (r: bool)
    ensures
        r == pauses_on_restart(bound, status, known),
{
    bound && status == RunStatus::Running && known
}

/// Whether a run is to be paused when the driver stops: unless it is at rest.
pub open spec fn pauses_on_exit(bound: bool, status: RunStatus, known: bool) -> bool {
    bound && known && status != RunStatus::Paused && status != RunStatus::Completed && status
        != RunStatus::Stopped
}

pub fn suspends_run_for_exit(bound: bool, status: RunStatus, known: bool) -> (r: bool)
    ensures
        r == pauses_on_exit(bound, status, known),
{
    bound && known && match status {
        RunStatus::Paused | RunStatus::Completed | RunStatus::Stopped => false,
        _ => true,
    }
}

/// What is to be done with the pane of the operator.
#[derive(Debug)]
pub enum OperatorPaneStep {
    /// Nothing.
    Keep,
    /// It is to be owned.
    Own(PlannedEvent),
    /// The old one is to be ended, and then this one owned.
    Replace(PlannedEvent),
}

pub enum OperatorStepView {
    Keep,
    Own(PlannedEventView),
    Replace(PlannedEventView),
}

impl DeepView for OperatorPaneStep {
    type V = OperatorStepView;

    open spec fn deep_view(&self) -> OperatorStepView {
        match self {
            OperatorPaneStep::Keep => OperatorStepView::Keep,
            OperatorPaneStep::Own(event) => OperatorStepView::Own(event.deep_view()),
            OperatorPaneStep::Replace(event) => OperatorStepView::Replace(event.deep_view()),
        }
    }
}

/// The pane of the operator, as the driver is told of it.
pub open spec fn operator_pane_of(config: DriverPaneConfigView) -> StoredPaneView {
    StoredPaneView {
        pane_id: config.pane_id,
        session_id: config.session_id,
        window_id: config.window_id,
        window_name: config.window_name,
        allocation_generation: 0,
    }
}

/// The event that says that the driver owns a pane.
pub open spec fn owned_event(pane: StoredPaneView) -> PlannedEventView {
    PlannedEventView {
        kind: "driver_pane_owned"@,
        payload: JsonView::Record(no_fields().push(("pane"@, pane.json()))),
    }
}

/// What is to be done with the pane of the operator.
pub open spec fn operator_step(
    current: Option<StoredPaneView>,
    configured: Option<DriverPaneConfigView>,
) -> OperatorStepView {
    match configured {
        None => OperatorStepView::Keep,
        Some(config) => match current {
            None => OperatorStepView::Own(owned_event(operator_pane_of(config))),
            Some(pane) => if pane == operator_pane_of(config) {
                OperatorStepView::Keep
            } else {
                OperatorStepView::Replace(owned_event(operator_pane_of(config)))
            },
        },
    }
}

pub fn register_configured_operator_pane(
    current: &Option<StoredPane>,
    configured: &Option<DriverPaneConfig>,
) -> (r: OperatorPaneStep)
    ensures
        r.deep_view() == operator_step(current.deep_view(), configured.deep_view()),
{
    let config = match configured {
        None => return OperatorPaneStep::Keep,
        Some(config) => config,
    };
    let pane = StoredPane::from_driver_config(config);
    assert(pane.deep_view() == operator_pane_of(config.deep_view()));
    if let Some(current) = current {
        if current.same_as(&pane) {
            return OperatorPaneStep::Keep;
        }
    }
    let event = PlannedEvent {
        kind: "driver_pane_owned",
        payload: Fields::new().put("pane", pane.to_json()).done(),
    };
    if current.is_some() {
        OperatorPaneStep::Replace(event)
    } else {
        OperatorPaneStep::Own(event)
    }
}

/// The event that says that the driver gave a pane up.
pub open spec fn given_up_event(pane: StoredPaneView, reason: Seq<char>) -> PlannedEventView {
    PlannedEventView {
        kind: "driver_pane_released"@,
        payload: JsonView::Record(
            no_fields().push(("pane"@, pane.json())).push(("reason"@, JsonView::Text(reason))),
        ),
    }
}

pub fn operator_pane_released_event(pane: &StoredPane, reason: &str) -> (r: PlannedEvent)
    ensures
        r.deep_view() == given_up_event(pane.deep_view(), reason@),
{
    PlannedEvent {
        kind: "driver_pane_released",
        payload: Fields::new().put("pane", pane.to_json()).put("reason", Json::text(reason)).done(),
    }
}

/// A revision of a flow that the assets of a run tell of.
#[derive(Debug)]
pub struct AssetRevision {
    pub revision_id: String,
    pub flow_lock_id: String,
    pub content_hash: String,
    pub apply_state: String,
}

#[verifier::ext_equal]
pub struct AssetRevisionView {
    pub revision_id: Seq<char>,
    pub flow_lock_id: Seq<char>,
    pub content_hash: Seq<char>,
    pub apply_state: Seq<char>,
}

impl DeepView for AssetRevision {
    type V = AssetRevisionView;

    open spec fn deep_view(&self) -> AssetRevisionView {
        AssetRevisionView {
            revision_id: self.revision_id@,
            flow_lock_id: self.flow_lock_id@,
            content_hash: self.content_hash@,
            apply_state: self.apply_state@,
        }
    }
}

impl AssetRevisionView {
    /// Whether this is a revision of a lock in the given state.
    pub open spec fn is_of(
        self,
        lock_id: Seq<char>,
        content_hash: Seq<char>,
        apply_state: Seq<char>,
    ) -> bool {
        self.flow_lock_id == lock_id && self.content_hash == content_hash && self.apply_state
            == apply_state
    }
}

/// What is to be done so that the assets tell of a lock that is used.
#[derive(Debug)]
pub enum RevisionStep {
    /// Nothing: they do.
    Published,
    /// The revision with this id is to be marked as used.
    Commit(String),
    /// The lock is to be added.
    Persist,
}

pub enum RevisionStepView {
    Published,
    Commit(Seq<char>),
    Persist,
}

impl DeepView for RevisionStep {
    type V = RevisionStepView;

    open spec fn deep_view(&self) -> RevisionStepView {
        match self {
            RevisionStep::Published => RevisionStepView::Published,
            RevisionStep::Commit(id) => RevisionStepView::Commit(id@),
            RevisionStep::Persist => RevisionStepView::Persist,
        }
    }
}

/// The first revision of a lock in the given state, from the `n`-th on.
pub open spec fn revision_from(
    revisions: Seq<AssetRevisionView>,
    lock_id: Seq<char>,
    content_hash: Seq<char>,
    apply_state: Seq<char>,
    n: int,
) -> Option<Seq<char>>
    decreases revisions.len() - n,
{
    if n < 0 || n >= revisions.len() {
        None
    } else if revisions[n].is_of(lock_id, content_hash, apply_state) {
        Some(revisions[n].revision_id)
    } else {
        revision_from(revisions, lock_id, content_hash, apply_state, n + 1)
    }
}

/// What is to be done so that the assets tell of a lock that is used.
pub open spec fn revision_step(
    revisions: Seq<AssetRevisionView>,
    lock_id: Seq<char>,
    content_hash: Seq<char>,
) -> RevisionStepView {
    if revision_from(revisions, lock_id, content_hash, "applied"@, 0) is Some {
        RevisionStepView::Published
    } else {
        match revision_from(revisions, lock_id, content_hash, "prepared"@, 0) {
            Some(id) => RevisionStepView::Commit(id),
            None => RevisionStepView::Persist,
        }
    }
}

fn find_revision(
    revisions: &Vec<AssetRevision>,
    lock_id: &str,
    content_hash: &str,
    apply_state: &str,
) -> (r: Option<String>)
    ensures
        r.deep_view() == revision_from(
            revisions.deep_view(),
            lock_id@,
            content_hash@,
            apply_state@,
            0,
        ),
{
    let ghost model = revisions.deep_view();
    let mut i: usize = 0;
    while i < revisions.len()
        invariant
            i <= revisions.len(),
            model == revisions.deep_view(),
            revision_from(model, lock_id@, content_hash@, apply_state@, 0) == revision_from(
                model,
                lock_id@,
                content_hash@,
                apply_state@,
                i as int,
            ),
        decreases revisions.len() - i,
    {
        let revision = &revisions[i];
        assert(model[i as int] == revision.deep_view());
        if same(revision.flow_lock_id.as_str(), lock_id) && same(
            revision.content_hash.as_str(),
            content_hash,
        ) && same(revision.apply_state.as_str(), apply_state) {
            return Some(revision.revision_id.clone());
        }
        i += 1;
    }
    None
}

pub fn publish_run_asset_flow_revision(
    revisions: &Vec<AssetRevision>,
    lock_id: &str,
    content_hash: &str,
) -> (r: RevisionStep)
    ensures
        r.deep_view() == revision_step(revisions.deep_view(), lock_id@, content_hash@),
{
    if find_revision(revisions, lock_id, content_hash, "applied").is_some() {
        return RevisionStep::Published;
    }
    match find_revision(revisions, lock_id, content_hash, "prepared") {
        Some(id) => RevisionStep::Commit(id),
        None => RevisionStep::Persist,
    }
}

} // verus!
