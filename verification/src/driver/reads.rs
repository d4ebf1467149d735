//! Answers to those who only look at a run. Each tells how far the run had come.
use vstd::prelude::*;

use crate::flow::lock::{FlowLock, FlowLockView};
use crate::json::{field, lemma_field_set, text_field, with_field, Json, JsonView};
use crate::table::Table;

use super::failure::{result_of, DriverFailure, FailureView};
use super::read_model::{
    check_latest_lock, check_preview_request, context_report, context_response, latest_fault,
    own_context, own_context_report, pane_mapping_name, pane_name, participant_context_projection,
    participant_context_response, preview_fault, preview_flow_routes_response, require_run,
    routes_report, stop_valid_report, stop_valid_response,
};
use super::records::StoredPaneView;
use super::replay::DriverTmuxState;
use super::request::{with_authority, with_authority_fields, Authority};
use super::revision::{reading, StoredFlowRevision, StoredRevisionView};
use super::tools::asked_context;
use super::wire::{
    demanded, required_string, stop_validation_error_json, StopFaultView, StopValidationError,
};

verus! {

broadcast use vstd::string::group_string_axioms;

/// A run that is not there.
pub open spec fn no_run() -> FailureView {
    FailureView::plain("run_not_found"@, "run not found"@)
}

/// What is told of the context of a run: to an agent only what is its own.
pub open spec fn context_told(
    has_run: bool,
    request: JsonView,
    run_id: Seq<char>,
    context: JsonView,
    authority: Authority,
) -> Result<JsonView, FailureView> {
    if !has_run {
        Err(no_run())
    } else {
        match asked_context(request) {
            Err(failure) => Err(failure),
            Ok(Some(activation_id)) => Ok(
                with_authority(
                    own_context_report(own_context(context, activation_id)),
                    authority,
                ),
            ),
            Ok(None) => Ok(with_authority(context_report(run_id, context), authority)),
        }
    }
}

pub fn get_context_response(
    has_run: bool,
    request: &Json,
    run_id: &str,
    context: Json,
    authority: &Authority,
) -> (r: Result<Json, DriverFailure>)
    ensures
        result_of(r) == context_told(has_run, request@, run_id@, context@, *authority),
{
    match require_run(has_run) {
        Err(failure) => return Err(failure),
        Ok(_) => {},
    }
    if request.text_at("participant_handle").is_none() {
        return Ok(with_authority_fields(context_response(run_id, context), authority));
    }
    match required_string(request, "activation_id") {
        Err(failure) => Err(failure),
        Ok(activation_id) => {
            let own = participant_context_projection(context, activation_id);
            Ok(with_authority_fields(participant_context_response(own), authority))
        },
    }
}

/// The model of what speaks against a stop.
pub open spec fn verdict_of(verdict: Result<(), (StopValidationError, String)>) -> Result<
    (),
    (StopFaultView, Seq<char>),
> {
    match verdict {
        Ok(_) => Ok(()),
        Err((fault, message)) => Err((fault.deep_view(), message@)),
    }
}

/// What is told to one who asks whether an activation may stop.
pub open spec fn stop_told(
    has_run: bool,
    request: JsonView,
    run_id: Seq<char>,
    verdict: Result<(), (StopFaultView, Seq<char>)>,
    authority: Authority,
) -> Result<JsonView, FailureView> {
    if !has_run {
        Err(no_run())
    } else {
        match demanded(request, "activation_id"@) {
            Err(failure) => Err(failure),
            Ok(activation_id) => Ok(
                with_authority(
                    match verdict {
                        Ok(_) => stop_valid_report(run_id, activation_id),
                        Err((fault, message)) => fault.response(run_id, activation_id, message),
                    },
                    authority,
                ),
            ),
        }
    }
}

pub fn validate_stop(
    has_run: bool,
    request: &Json,
    run_id: &str,
    verdict: Result<(), (StopValidationError, String)>,
    authority: &Authority,
) -> (r: Result<Json, DriverFailure>)
    ensures
        result_of(r) == stop_told(has_run, request@, run_id@, verdict_of(verdict), *authority),
{
    match require_run(has_run) {
        Err(failure) => return Err(failure),
        Ok(_) => {},
    }
    match required_string(request, "activation_id") {
        Err(failure) => Err(failure),
        Ok(activation_id) => {
            let told = match verdict {
                Ok(_) => stop_valid_response(run_id, activation_id),
                Err((fault, message)) => stop_validation_error_json(
                    run_id,
                    activation_id,
                    &fault,
                    message.as_str(),
                ),
            };
            Ok(with_authority_fields(told, authority))
        },
    }
}

/// The lock that was applied last, as far as it is known.
#[derive(Debug)]
pub struct LatestLock {
    /// Whether the run names an application.
    pub named: bool,
    /// What the lock of that application holds.
    pub applied_hash: Option<String>,
    /// The lock itself.
    pub package: Option<StoredFlowRevision>,
}

#[verifier::ext_equal]
pub struct LatestLockView {
    pub named: bool,
    pub applied_hash: Option<Seq<char>>,
    pub package: Option<StoredRevisionView>,
}

impl DeepView for LatestLock {
    type V = LatestLockView;

    open spec fn deep_view(&self) -> LatestLockView {
        LatestLockView {
            named: self.named,
            applied_hash: self.applied_hash.deep_view(),
            package: self.package.deep_view(),
        }
    }
}

impl LatestLockView {
    pub open spec fn held_hash(self) -> Option<Seq<char>> {
        match self.package {
            Some(package) => Some(package.flow_lock.content_hash),
            None => None,
        }
    }
}

/// The lock that a request gives along.
pub open spec fn given_lock(parsed: Result<FlowLockView, Seq<char>>) -> Result<
    StoredRevisionView,
    FailureView,
> {
    match parsed {
        Err(message) => Err(FailureView::plain("invalid_flow_lock"@, message)),
        Ok(flow_lock) => Ok(StoredRevisionView { flow_lock, review_id: Seq::empty() }),
    }
}

/// The lock whose routes are to be shown, and whether it was given along: else it is the one that
/// was applied last. It must be the one that the request names.
pub open spec fn lock_to_preview(
    has_run: bool,
    request: JsonView,
    parsed: Result<FlowLockView, Seq<char>>,
    latest: LatestLockView,
) -> Result<(StoredRevisionView, bool), FailureView> {
    let explicit = field(request, "flow_lock"@) is Some;
    let chosen = if explicit {
        given_lock(parsed)
    } else {
        match latest_fault(latest.named, latest.applied_hash, latest.held_hash()) {
            Some(failure) => Err(failure),
            None => Ok(latest.package->0),
        }
    };
    if !has_run {
        Err(no_run())
    } else {
        match chosen {
            Err(failure) => Err(failure),
            Ok(package) => match preview_fault(
                request,
                package.flow_lock.id,
                package.flow_lock.content_hash,
            ) {
                Some(failure) => Err(failure),
                None => Ok((package, explicit)),
            },
        }
    }
}

pub fn choose_preview_lock(
    has_run: bool,
    request: &Json,
    parsed: Result<FlowLock, String>,
    latest: LatestLock,
) -> (r: Result<(StoredFlowRevision, bool), DriverFailure>)
    ensures
        match r {
            Ok((package, explicit)) => lock_to_preview(
                has_run,
                request@,
                reading(parsed),
                latest.deep_view(),
            ) == Ok::<(StoredRevisionView, bool), FailureView>((package.deep_view(), explicit)),
            Err(failure) => lock_to_preview(has_run, request@, reading(parsed), latest.deep_view())
                == Err::<(StoredRevisionView, bool), FailureView>(failure.deep_view()),
        },
{
    match require_run(has_run) {
        Err(failure) => return Err(failure),
        Ok(_) => {},
    }
    let explicit = request.get("flow_lock").is_some();
    let package = if explicit {
        match StoredFlowRevision::from_preview_request(request, parsed) {
            Err(failure) => return Err(failure),
            Ok(package) => package,
        }
    } else {
        let held = match &latest.package {
            Some(package) => Some(package.content_hash().to_string()),
            None => None,
        };
        match check_latest_lock(latest.named, &latest.applied_hash, &held) {
            Err(failure) => return Err(failure),
            Ok(_) => {},
        }
        match latest.package {
            Some(package) => package,
            None => return Err(
                DriverFailure::new("flow_lock_not_found", "flow lock package not found"),
            ),
        }
    };
    match check_preview_request(request, package.lock_id(), package.content_hash()) {
        Err(failure) => Err(failure),
        Ok(_) => Ok((package, explicit)),
    }
}

/// What is told of the routes of a lock.
pub open spec fn routes_told(
    run_id: Seq<char>,
    package: StoredRevisionView,
    explicit: bool,
    routes: JsonView,
    authority: Authority,
) -> JsonView {
    with_authority(
        routes_report(
            run_id,
            package.flow_lock.id,
            package.flow_lock.content_hash,
            if explicit {
                "explicit"@
            } else {
                "latest_applied"@
            },
            routes,
        ),
        authority,
    )
}

pub fn preview_flow_routes(
    run_id: &str,
    package: &StoredFlowRevision,
    explicit: bool,
    routes: Json,
    authority: &Authority,
) -> (r: Json)
    ensures
        r@ == routes_told(run_id@, package.deep_view(), explicit, routes@, *authority),
{
    let source = if explicit {
        "explicit"
    } else {
        "latest_applied"
    };
    with_authority_fields(
        preview_flow_routes_response(
            run_id,
            package.lock_id(),
            package.content_hash(),
            source,
            routes,
        ),
        authority,
    )
}

/// A pane, as it is shown beside its activation.
#[derive(Debug)]
pub struct PaneMapping {
    pub activation_id: String,
    pub run_id: String,
    pub pane: String,
    pub session_id: String,
    pub window_id: String,
    pub window_name: String,
    pub pane_id: String,
    pub status: String,
}

#[verifier::ext_equal]
pub struct PaneMappingView {
    pub activation_id: Seq<char>,
    pub run_id: Seq<char>,
    pub pane: Seq<char>,
    pub session_id: Seq<char>,
    pub window_id: Seq<char>,
    pub window_name: Seq<char>,
    pub pane_id: Seq<char>,
    pub status: Seq<char>,
}

impl DeepView for PaneMapping {
    type V = PaneMappingView;

    open spec fn deep_view(&self) -> PaneMappingView {
        PaneMappingView {
            activation_id: self.activation_id@,
            run_id: self.run_id@,
            pane: self.pane@,
            session_id: self.session_id@,
            window_id: self.window_id@,
            window_name: self.window_name@,
            pane_id: self.pane_id@,
            status: self.status@,
        }
    }
}

/// How a pane is shown beside its activation, whose status may not be known.
pub open spec fn mapping_of(
    run_id: Seq<char>,
    activation_id: Seq<char>,
    pane: StoredPaneView,
    statuses: Map<Seq<char>, Seq<char>>,
) -> PaneMappingView {
    PaneMappingView {
        activation_id,
        run_id,
        pane: pane_name(pane),
        session_id: pane.session_id,
        window_id: pane.window_id,
        window_name: pane.window_name,
        pane_id: pane.pane_id,
        status: if statuses.dom().contains(activation_id) {
            statuses[activation_id]
        } else {
            "unknown"@
        },
    }
}

/// How all panes are shown, in the order of their activations.
pub open spec fn mappings_of(
    run_id: Seq<char>,
    panes: Seq<(Seq<char>, StoredPaneView)>,
    statuses: Map<Seq<char>, Seq<char>>,
) -> Seq<PaneMappingView> {
    Seq::new(panes.len(), |i: int| mapping_of(run_id, panes[i].0, panes[i].1, statuses))
}

/// The panes of a run in the order of their activations.
pub open spec fn panes_of(tmux: Option<DriverTmuxState>) -> Seq<(Seq<char>, StoredPaneView)> {
    match tmux {
        Some(tmux) => tmux.panes.pairs(),
        None => Seq::empty(),
    }
}

pub fn pane_mappings(
    run_id: &str,
    tmux: &Option<DriverTmuxState>,
    statuses: &Table<String, String>,
) -> (r: Vec<PaneMapping>)
    ensures
        r.deep_view() == mappings_of(run_id@, panes_of(*tmux), statuses.deep_view()),
{
    let mut out: Vec<PaneMapping> = Vec::new();
    match tmux {
        None => {
            assert(out.deep_view() =~= mappings_of(
                run_id@,
                panes_of(*tmux),
                statuses.deep_view(),
            ));
            out
        },
        Some(tmux) => {
            let n: usize = tmux.panes.len();
            let ghost pairs = tmux.panes.pairs();
            let ghost known = statuses.deep_view();
            let mut i: usize = 0;
            while i < n
                invariant
                    i <= n,
                    pairs == tmux.panes.pairs(),
                    known == statuses.deep_view(),
                    n == pairs.len(),
                    out.len() == i,
                    forall|j: int|
                        0 <= j < i ==> (#[trigger] out@[j]).deep_view() == mapping_of(
                            run_id@,
                            pairs[j].0,
                            pairs[j].1,
                            known,
                        ),
                decreases n - i,
            {
                let activation_id = tmux.panes.key_at(i);
                let pane = tmux.panes.value_at(i);
                let status = match statuses.get(activation_id) {
                    Some(status) => status.clone(),
                    None => "unknown".to_string(),
                };
                out.push(
                    PaneMapping {
                        activation_id: activation_id.clone(),
                        run_id: run_id.to_string(),
                        pane: pane_mapping_name(pane),
                        session_id: pane.session_id.clone(),
                        window_id: pane.window_id.clone(),
                        window_name: pane.window_name.clone(),
                        pane_id: pane.pane_id.clone(),
                        status,
                    },
                );
                i += 1;
            }
            assert(out.deep_view() =~= mappings_of(run_id@, pairs, known));
            out
        },
    }
}

/// Every answer to one who looks at a run tells how far the run had come.
pub proof fn lemma_answers_tell_how_far_the_run_had_come(
    has_run: bool,
    request: JsonView,
    run_id: Seq<char>,
    context: JsonView,
    verdict: Result<(), (StopFaultView, Seq<char>)>,
    authority: Authority,
)
    ensures
        context_told(has_run, request, run_id, context, authority) matches Ok(told) ==> told_at(
            told,
            authority,
        ),
        stop_told(has_run, request, run_id, verdict, authority) matches Ok(told) ==> told_at(
            told,
            authority,
        ),
{
    assert forall|response: JsonView| response is Record implies told_at(
        #[trigger] with_authority(response, authority),
        authority,
    ) by {
        lemma_authority_is_told(response, authority);
    }
}

/// Whether an answer tells how far the run had come.
pub open spec fn told_at(response: JsonView, authority: Authority) -> bool {
    &&& field(response, "event_cursor"@) == Some(JsonView::Unsigned(authority.event_cursor))
    &&& field(response, "context_generation"@) == Some(
        JsonView::Unsigned(authority.generation()),
    )
}

proof fn lemma_authority_is_told(response: JsonView, authority: Authority)
    requires
        response is Record,
    ensures
        told_at(with_authority(response, authority), authority),
{
    reveal_strlit("event_cursor");
    reveal_strlit("context_generation");
    assert("event_cursor"@.len() == 12);
    assert("context_generation"@.len() == 18);
    let first = with_field(
        response,
        "event_cursor"@,
        JsonView::Unsigned(authority.event_cursor),
    );
    lemma_field_set(
        response,
        "event_cursor"@,
        JsonView::Unsigned(authority.event_cursor),
        "event_cursor"@,
    );
    lemma_field_set(
        first,
        "context_generation"@,
        JsonView::Unsigned(authority.generation()),
        "event_cursor"@,
    );
    lemma_field_set(
        first,
        "context_generation"@,
        JsonView::Unsigned(authority.generation()),
        "context_generation"@,
    );
}

/// An agent that gives its handle is told what is its own of the context, whatever else the run
/// knows.
pub proof fn lemma_agents_are_told_their_own(
    request: JsonView,
    run_id: Seq<char>,
    context: JsonView,
    authority: Authority,
    activation_id: Seq<char>,
)
    requires
        text_field(request, "participant_handle"@) is Some,
        demanded(request, "activation_id"@) == Ok::<Seq<char>, FailureView>(activation_id),
    ensures
        context_told(true, request, run_id, context, authority) == Ok::<JsonView, FailureView>(
            with_authority(own_context_report(own_context(context, activation_id)), authority),
        ),
{
}

} // verus!
