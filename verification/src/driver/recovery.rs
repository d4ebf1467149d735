//! What is found of a run when its driver is started again.
use vstd::prelude::*;

use crate::text::same;

use super::failure::{DriverFailure, FailureView};
use super::loading::{
    load_revisions, loaded, loading, LoadedDriver, LoadedView, RevisionFault, RevisionFaultView,
    RevisionFile, RevisionFileView,
};
use super::participant::{
    project_participant_exits, with_exits, ExitFault, ParticipantExit, ParticipantExitView,
};
use super::replay::{DriverDurableEvent, DriverEventView, DriverStateView};
use super::revision::{
    reading, review_fault, FlowReview, FlowReviewView, StoredFlowRevision, StoredRevisionView,
};

verus! {

broadcast use vstd::string::group_string_axioms;

/// The file that is locked while a driver is started.
pub const ATTACH_LOCK_FILE: &'static str = "attach.lock";

/// How long it is waited for that lock, in milliseconds.
pub const ATTACH_LOCK_TIMEOUT_MS: u64 = 15000;

/// The window that a run was shown in.
#[derive(Debug, PartialEq, Eq)]
pub struct DriverRecoveryTmux {
    pub session_id: String,
    pub window_name: String,
}

#[verifier::ext_equal]
pub struct RecoveryTmuxView {
    pub session_id: Seq<char>,
    pub window_name: Seq<char>,
}

impl DeepView for DriverRecoveryTmux {
    type V = RecoveryTmuxView;

    open spec fn deep_view(&self) -> RecoveryTmuxView {
        RecoveryTmuxView { session_id: self.session_id@, window_name: self.window_name@ }
    }
}

/// What a run can be gone on with.
#[derive(Debug, PartialEq, Eq)]
pub struct DriverRecoveryState {
    pub tmux: Option<DriverRecoveryTmux>,
}

#[verifier::ext_equal]
pub struct RecoveryStateView {
    pub tmux: Option<RecoveryTmuxView>,
}

impl DeepView for DriverRecoveryState {
    type V = RecoveryStateView;

    open spec fn deep_view(&self) -> RecoveryStateView {
        RecoveryStateView { tmux: self.tmux.deep_view() }
    }
}

/// The state of a driver as it is gone on with.
pub open spec fn recovery_of(state: DriverStateView) -> RecoveryStateView {
    RecoveryStateView {
        tmux: match state.tmux {
            Some(tmux) => Some(
                RecoveryTmuxView { session_id: tmux.session_id, window_name: tmux.window_name },
            ),
            None => None,
        },
    }
}

/// Whether the directory of a run is that of the run that is asked for.
pub open spec fn identity_fault(found: Option<Seq<char>>, expected: Seq<char>) -> Option<
    Seq<char>,
> {
    match found {
        None => Some("private run identity is missing"@),
        Some(run_id) => if run_id != expected {
            Some("private run identity does not match the requested run"@)
        } else {
            None
        },
    }
}

pub fn validate_private_run_id(found: Option<&str>, expected_run_id: &str) -> (r: Result<
    (),
    &'static str,
>)
    ensures
        ({
            let fault = identity_fault(
                match found {
                    Some(run_id) => Some(run_id@),
                    None => None,
                },
                expected_run_id@,
            );
            match r {
                Ok(_) => fault is None,
                Err(message) => fault == Some(message@),
            }
        }),
{
    match found {
        None => Err("private run identity is missing"),
        Some(run_id) => {
            if same(run_id, expected_run_id) {
                Ok(())
            } else {
                Err("private run identity does not match the requested run")
            }
        },
    }
}

/// What is found of a run, from the lock that its events name, the content that they name, the
/// lock that was stored, and the state of its driver.
pub open spec fn recovered(
    lock_named: bool,
    content_hash: Option<Seq<char>>,
    package: Option<StoredRevisionView>,
    replay: Result<LoadedView, RevisionFaultView>,
) -> Result<Option<RecoveryStateView>, Seq<char>> {
    if !lock_named || content_hash is None || package is None {
        Ok(None)
    } else if package->0.flow_lock.content_hash != content_hash->0 {
        Err("durable runtime binding does not match its immutable flow lock"@)
    } else {
        match replay {
            Ok(driver) => Ok(Some(recovery_of(driver.state))),
            Err(fault) => Err(fault.text()),
        }
    }
}

/// What is found of a run.
pub fn load_driver_recovery_state(
    lock_named: bool,
    content_hash: Option<&str>,
    package: Option<&StoredFlowRevision>,
    replay: Result<LoadedDriver, RevisionFault>,
) -> (r: Result<Option<DriverRecoveryState>, String>)
    ensures
        ({
            let told = recovered(
                lock_named,
                match content_hash {
                    Some(hash) => Some(hash@),
                    None => None,
                },
                match package {
                    Some(package) => Some(package.deep_view()),
                    None => None,
                },
                loading(replay),
            );
            match r {
                Ok(state) => told is Ok && told->Ok_0 == state.deep_view(),
                Err(message) => told is Err && told->Err_0 == message@,
            }
        }),
{
    if !lock_named {
        return Ok(None);
    }
    let hash = match content_hash {
        Some(hash) => hash,
        None => return Ok(None),
    };
    let package = match package {
        Some(package) => package,
        None => return Ok(None),
    };
    if !same(package.content_hash(), hash) {
        return Err(
            "durable runtime binding does not match its immutable flow lock".to_string(),
        );
    }
    match replay {
        Err(fault) => Err(fault.message()),
        Ok(driver) => {
            let tmux = match driver.state.tmux {
                Some(tmux) => Some(
                    DriverRecoveryTmux {
                        session_id: tmux.session_id,
                        window_name: tmux.window_name,
                    },
                ),
                None => None,
            };
            Ok(Some(DriverRecoveryState { tmux }))
        },
    }
}

/// What came of the attempt to lock a file.
#[derive(Debug, Clone, Copy, PartialEq, Eq, Structural)]
pub enum LockAttempt {
    Locked,
    Held,
    Failed,
}

/// What is to be done after the attempt to lock a file.
#[derive(Debug, Clone, Copy, PartialEq, Eq, Structural)]
pub enum LockStep {
    Go,
    Wait,
    GiveUp,
    /// The lock was held for too long.
    TimedOut,
}

/// What is to be done after the attempt to lock a file: while it is held, it is tried again.
pub fn attach_lock_step(attempt: LockAttempt, elapsed_ms: u64) -> (r: LockStep)
    ensures
        r == match attempt {
            LockAttempt::Locked => LockStep::Go,
            LockAttempt::Failed => LockStep::GiveUp,
            LockAttempt::Held => if elapsed_ms >= ATTACH_LOCK_TIMEOUT_MS {
                LockStep::TimedOut
            } else {
                LockStep::Wait
            },
        },
{
    match attempt {
        LockAttempt::Locked => LockStep::Go,
        LockAttempt::Failed => LockStep::GiveUp,
        LockAttempt::Held => {
            if elapsed_ms >= ATTACH_LOCK_TIMEOUT_MS {
                LockStep::TimedOut
            } else {
                LockStep::Wait
            }
        },
    }
}

/// Why the state of a driver cannot be had.
#[derive(Debug, PartialEq, Eq)]
pub enum LoadFault {
    /// Its own events cannot be followed, or a file that they name is not usable.
    Events(RevisionFault),
    /// The ends of agents do not agree with them.
    Exits(ExitFault),
}

#[verifier::ext_equal]
pub enum LoadFaultView {
    Events(RevisionFaultView),
    Exits(ExitFault),
}

impl DeepView for LoadFault {
    type V = LoadFaultView;

    open spec fn deep_view(&self) -> LoadFaultView {
        match self {
            LoadFault::Events(fault) => LoadFaultView::Events(fault.deep_view()),
            LoadFault::Exits(fault) => LoadFaultView::Exits(*fault),
        }
    }
}

impl LoadFaultView {
    pub open spec fn text(self) -> Seq<char> {
        match self {
            LoadFaultView::Events(fault) => fault.text(),
            LoadFaultView::Exits(fault) => fault.text(),
        }
    }
}

impl LoadFault {
    pub fn message(&self) -> (r: String)
        ensures
            r@ == self.deep_view().text(),
    {
        match self {
            LoadFault::Events(fault) => fault.message(),
            LoadFault::Exits(fault) => fault.message().to_string(),
        }
    }
}

/// The state of a driver, from its own events, from what was found where they name files, and
/// from the ends of agents that the history of the run tells of.
pub open spec fn state_at_load(
    root: Seq<char>,
    events: Seq<DriverEventView>,
    files: Seq<RevisionFileView>,
    exits: Seq<ParticipantExitView>,
) -> Result<LoadedView, LoadFaultView> {
    match loaded(root, events, files, events.len() as int) {
        Err(fault) => Err(LoadFaultView::Events(fault)),
        Ok(driver) => match with_exits(driver.state.participant_bindings, exits) {
            Err(fault) => Err(LoadFaultView::Exits(fault)),
            Ok(participant_bindings) => Ok(
                LoadedView {
                    state: DriverStateView { participant_bindings, ..driver.state },
                    ..driver
                },
            ),
        },
    }
}

/// The state of a driver that is started again.
pub fn load_driver_state(
    root: &str,
    events: &Vec<DriverDurableEvent>,
    files: &Vec<RevisionFile>,
    exits: &Vec<ParticipantExit>,
) -> (r: Result<LoadedDriver, LoadFault>)
    requires
        files.len() == events.len(),
    ensures
        match r {
            Ok(driver) => state_at_load(
                root@,
                events.deep_view(),
                files.deep_view(),
                exits.deep_view(),
            ) == Ok::<LoadedView, LoadFaultView>(driver.deep_view()),
            Err(fault) => state_at_load(
                root@,
                events.deep_view(),
                files.deep_view(),
                exits.deep_view(),
            ) == Err::<LoadedView, LoadFaultView>(fault.deep_view()),
        },
{
    let LoadedDriver { mut state, locks } = match load_revisions(root, events, files) {
        Ok(driver) => driver,
        Err(fault) => return Err(LoadFault::Events(fault)),
    };
    let ghost before = state.deep_view();
    match project_participant_exits(exits, &mut state.participant_bindings) {
        Ok(_) => {
            assert(state.deep_view() =~= DriverStateView {
                participant_bindings: state.participant_bindings.deep_view(),
                ..before
            });
            Ok(LoadedDriver { state, locks })
        },
        Err(fault) => Err(LoadFault::Exits(fault)),
    }
}

/// Why a lock may not be used, by what was read of its review.
pub open spec fn use_fault(
    package: StoredRevisionView,
    loaded: Result<FlowReviewView, Seq<char>>,
) -> Option<FailureView> {
    match loaded {
        Ok(review) => review_fault(review, package.flow_lock),
        Err(message) => Some(
            FailureView::plain("review_invalid"@, "flow review load failed: "@ + message),
        ),
    }
}

/// The model of locks and of what was read of their reviews.
pub open spec fn read_reviews(
    items: Seq<(StoredFlowRevision, Result<FlowReview, String>)>,
) -> Seq<(StoredRevisionView, Result<FlowReviewView, Seq<char>>)> {
    Seq::new(items.len(), |i: int| (items[i].0.deep_view(), reading(items[i].1)))
}

/// Whether every lock of a run may be used; if not, why not the first that may not.
pub fn authorize_revisions(items: &Vec<(StoredFlowRevision, Result<FlowReview, String>)>) -> (r:
    Result<(), DriverFailure>)
    ensures
        ({
            let model = read_reviews(items@);
            match r {
                Ok(_) => forall|i: int|
                    0 <= i < model.len() ==> use_fault(
                        (#[trigger] model[i]).0,
                        model[i].1,
                    ) is None,
                Err(failure) => exists|i: int|
                    0 <= i < model.len() && use_fault((#[trigger] model[i]).0, model[i].1) == Some(
                        failure.deep_view(),
                    ) && forall|j: int|
                        0 <= j < i ==> use_fault((#[trigger] model[j]).0, model[j].1) is None,
            }
        }),
{
    let ghost model = read_reviews(items@);
    let mut i: usize = 0;
    while i < items.len()
        invariant
            i <= items.len(),
            model == read_reviews(items@),
            model.len() == items.len(),
            forall|j: int| 0 <= j < i ==> use_fault((#[trigger] model[j]).0, model[j].1) is None,
        decreases items.len() - i,
    {
        let item = &items[i];
        assert(model[i as int] == (item.0.deep_view(), reading(item.1)));
        if let Err(failure) = item.0.authorize(&item.1) {
            assert(use_fault(model[i as int].0, model[i as int].1) == Some(failure.deep_view()));
            return Err(failure);
        }
        i += 1;
    }
    Ok(())
}

/// What is to be brought in order before a driver that is started again serves, in this order.
#[derive(Debug, Clone, Copy, PartialEq, Eq, Structural)]
pub enum LoadAction {
    /// Finish what was begun to be told.
    ReconcileOutbox,
    /// Look which records were told.
    RefreshSources,
    /// Bring the seal of the run up to date.
    ReconcileSeal,
    /// Tell what is still owed of deliveries and agents.
    ReconcileObligations,
    /// Write the state of the run down for those who only look.
    RepairProjections,
    /// Let go of an operator pane that is gone.
    ReconcileOperatorPane,
    /// Go on with cleanups that were begun.
    ReconcileCleanups,
    /// Let go of panes that are gone.
    ReconcilePanes,
    /// Go on with agents that have ended.
    ReconcileExits,
    /// Pause a run that was running.
    SuspendRun,
    /// Own the operator pane.
    RegisterOperatorPane,
    /// Serve.
    Serve,
}

impl LoadAction {
    /// The place of an action in the order.
    pub open spec fn place(self) -> int {
        match self {
            LoadAction::ReconcileOutbox => 0,
            LoadAction::RefreshSources => 1,
            LoadAction::ReconcileSeal => 2,
            LoadAction::ReconcileObligations => 3,
            LoadAction::RepairProjections => 4,
            LoadAction::ReconcileOperatorPane => 5,
            LoadAction::ReconcileCleanups => 6,
            LoadAction::ReconcilePanes => 7,
            LoadAction::ReconcileExits => 8,
            LoadAction::SuspendRun => 9,
            LoadAction::RegisterOperatorPane => 10,
            LoadAction::Serve => 11,
        }
    }
}

/// What is done behind an action that succeeded: the one with the next place.
pub fn next_load_action(action: LoadAction) -> (r: LoadAction)
    ensures
        r.place() == (if action == LoadAction::Serve {
            action.place()
        } else {
            action.place() + 1
        }),
{
    match action {
        LoadAction::ReconcileOutbox => LoadAction::RefreshSources,
        LoadAction::RefreshSources => LoadAction::ReconcileSeal,
        LoadAction::ReconcileSeal => LoadAction::ReconcileObligations,
        LoadAction::ReconcileObligations => LoadAction::RepairProjections,
        LoadAction::RepairProjections => LoadAction::ReconcileOperatorPane,
        LoadAction::ReconcileOperatorPane => LoadAction::ReconcileCleanups,
        LoadAction::ReconcileCleanups => LoadAction::ReconcilePanes,
        LoadAction::ReconcilePanes => LoadAction::ReconcileExits,
        LoadAction::ReconcileExits => LoadAction::SuspendRun,
        LoadAction::SuspendRun => LoadAction::RegisterOperatorPane,
        LoadAction::RegisterOperatorPane => LoadAction::Serve,
        LoadAction::Serve => LoadAction::Serve,
    }
}

/// Two actions do not share a place, so that the order decides what is done.
pub proof fn lemma_load_places_differ(a: LoadAction, b: LoadAction)
    ensures
        a.place() == b.place() ==> a == b,
        0 <= a.place() <= LoadAction::Serve.place(),
{
}

} // verus!
