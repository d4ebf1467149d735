//! How an agent comes to its binding: what it is known by is drawn, kept in a private file and
//! told of, one step after the other.
use vstd::prelude::*;

use super::delivery::{PlannedEvent, PlannedEventView};
use super::failure::{result_of, DriverFailure, FailureView};
use super::participant::{
    binding_begun, file_of, new_binding, new_participant_binding, participant_binding_path,
    participant_binding_secret, participant_started_event, secret_of, started_event,
    BindingFileView, ParticipantBindingFile, DEFAULT_STOP_ATTEMPT_LIMIT,
};
use super::records::{
    ParticipantBinding, ParticipantBindingView, StoredPane, StoredPaneView,
};
use super::replay::{DriverStateView, ReplayedDriverEvents};

verus! {

broadcast use vstd::string::group_string_axioms;

/// How far it has come.
#[derive(Debug, Clone, Copy, PartialEq, Eq, Structural)]
pub enum EnrolStage {
    Check,
    Draw,
    Directory,
    Write,
    Record,
    Undo,
    Over,
}

/// What is to be done next.
#[derive(Debug, Clone, Copy, PartialEq, Eq, Structural)]
pub enum EnrolAction {
    /// Read the private file of the binding that stands.
    ReadFile,
    /// Draw a handle and a credential.
    Draw,
    /// Make sure that private files have a directory.
    EnsureDirectory,
    /// Write the private file.
    WriteFile,
    /// Keep that the agent is started.
    KeepStart,
    /// Take the private file away again.
    RemoveFile,
    /// Stop.
    Finish,
}

/// What came of it.
#[derive(Debug)]
pub enum EnrolEvent {
    Done,
    /// The private file, if it could be read.
    File(Option<ParticipantBindingFile>),
    /// A handle and a credential.
    Drawn(String, String),
    Failed(DriverFailure),
}

#[verifier::ext_equal]
pub enum EnrolEventView {
    Done,
    File(Option<BindingFileView>),
    Drawn(Seq<char>, Seq<char>),
    Failed(FailureView),
}

impl DeepView for EnrolEvent {
    type V = EnrolEventView;

    open spec fn deep_view(&self) -> EnrolEventView {
        match self {
            EnrolEvent::Done => EnrolEventView::Done,
            EnrolEvent::File(file) => EnrolEventView::File(file.deep_view()),
            EnrolEvent::Drawn(handle, credential) => EnrolEventView::Drawn(handle@, credential@),
            EnrolEvent::Failed(failure) => EnrolEventView::Failed(failure.deep_view()),
        }
    }
}

/// For whom an agent is started, and where.
#[derive(Debug)]
pub struct EnrolPlan {
    pub run_id: String,
    pub activation_id: String,
    pub pane: StoredPane,
    pub readiness_nonce: String,
    pub runs_root: String,
    pub private_root: String,
    pub stop_attempt_limit: Option<u32>,
}

#[verifier::ext_equal]
pub struct EnrolPlanView {
    pub run_id: Seq<char>,
    pub activation_id: Seq<char>,
    pub pane: StoredPaneView,
    pub readiness_nonce: Seq<char>,
    pub runs_root: Seq<char>,
    pub private_root: Seq<char>,
    pub stop_attempt_limit: Option<u32>,
}

impl DeepView for EnrolPlan {
    type V = EnrolPlanView;

    open spec fn deep_view(&self) -> EnrolPlanView {
        EnrolPlanView {
            run_id: self.run_id@,
            activation_id: self.activation_id@,
            pane: self.pane.deep_view(),
            readiness_nonce: self.readiness_nonce@,
            runs_root: self.runs_root@,
            private_root: self.private_root@,
            stop_attempt_limit: self.stop_attempt_limit,
        }
    }
}

/// An agent that is being started.
#[derive(Debug)]
pub struct EnrolMachine {
    plan: EnrolPlan,
    stage: EnrolStage,
    binding: Option<ParticipantBinding>,
    credential: Option<String>,
    fault: Option<DriverFailure>,
}

#[verifier::ext_equal]
pub struct EnrolView {
    pub plan: EnrolPlanView,
    pub stage: EnrolStage,
    pub binding: Option<ParticipantBindingView>,
    pub credential: Option<Seq<char>>,
    pub fault: Option<FailureView>,
}

impl DeepView for EnrolMachine {
    type V = EnrolView;

    closed spec fn deep_view(&self) -> EnrolView {
        EnrolView {
            plan: self.plan.deep_view(),
            stage: self.stage,
            binding: self.binding.deep_view(),
            credential: self.credential.deep_view(),
            fault: self.fault.deep_view(),
        }
    }
}

/// A private file that could not be written.
pub open spec fn unwritten() -> FailureView {
    FailureView::plain(
        "participant_binding_persistence_failed"@,
        "private participant binding could not be persisted"@,
    )
}

/// The model of what came out.
pub open spec fn enrolled_of(outcome: Option<Result<ParticipantBinding, DriverFailure>>) -> Option<
    Result<ParticipantBindingView, FailureView>,
> {
    match outcome {
        None => None,
        Some(result) => Some(result_of(result)),
    }
}

impl EnrolView {
    pub open spec fn at(self, stage: EnrolStage) -> EnrolView {
        EnrolView { stage, ..self }
    }

    pub open spec fn failing(self, failure: FailureView) -> EnrolView {
        EnrolView { stage: EnrolStage::Over, fault: Some(failure), ..self }
    }

    /// Where it starts: a binding that stands is checked, and no other one is made.
    pub open spec fn fresh(state: DriverStateView, plan: EnrolPlanView) -> EnrolView {
        let start = EnrolView {
            plan,
            stage: EnrolStage::Draw,
            binding: None,
            credential: None,
            fault: None,
        };
        match binding_begun(state, plan.activation_id, plan.pane, plan.readiness_nonce) {
            Err(failure) => start.failing(failure),
            Ok(None) => start,
            Ok(Some(binding)) => EnrolView {
                stage: EnrolStage::Check,
                binding: Some(binding),
                ..start
            },
        }
    }

    pub open spec fn action(self) -> EnrolAction {
        match self.stage {
            EnrolStage::Check => EnrolAction::ReadFile,
            EnrolStage::Draw => EnrolAction::Draw,
            EnrolStage::Directory => EnrolAction::EnsureDirectory,
            EnrolStage::Write => EnrolAction::WriteFile,
            EnrolStage::Record => EnrolAction::KeepStart,
            EnrolStage::Undo => EnrolAction::RemoveFile,
            EnrolStage::Over => EnrolAction::Finish,
        }
    }

    /// The private file of the binding.
    pub open spec fn file(self) -> Option<BindingFileView> {
        match (self.binding, self.credential) {
            (Some(binding), Some(credential)) => Some(
                BindingFileView {
                    run_id: binding.run_id,
                    activation_id: binding.activation_id,
                    allocation_generation: binding.allocation_generation,
                    pane_id: binding.pane_id,
                    readiness_nonce: binding.readiness_nonce,
                    handle: binding.handle,
                    credential,
                    runs_root: self.plan.runs_root,
                },
            ),
            _ => None,
        }
    }

    /// The event that is to be kept, where one is.
    pub open spec fn event(self) -> Option<PlannedEventView> {
        match (self.stage, self.binding) {
            (EnrolStage::Record, Some(binding)) => Some(
                started_event(
                    binding,
                    match self.plan.stop_attempt_limit {
                        Some(limit) => limit,
                        None => DEFAULT_STOP_ATTEMPT_LIMIT,
                    },
                ),
            ),
            _ => None,
        }
    }

    pub open spec fn advanced(self, event: EnrolEventView) -> EnrolView {
        match (self.stage, event) {
            (EnrolStage::Over, _) => self,
            (EnrolStage::Undo, _) => self.at(EnrolStage::Over),
            (EnrolStage::Write, EnrolEventView::Failed(_)) => self.failing(unwritten()),
            (EnrolStage::Record, EnrolEventView::Failed(failure)) => EnrolView {
                stage: EnrolStage::Undo,
                fault: Some(failure),
                ..self
            },
            (_, EnrolEventView::Failed(failure)) => self.failing(failure),
            (EnrolStage::Check, EnrolEventView::File(file)) => match self.binding {
                Some(binding) => match secret_of(binding, file, self.plan.runs_root) {
                    Err(failure) => self.failing(failure),
                    Ok(_) => self.at(EnrolStage::Over),
                },
                None => self,
            },
            (EnrolStage::Draw, EnrolEventView::Drawn(handle, credential)) => {
                let binding = new_binding(
                    self.plan.run_id,
                    self.plan.activation_id,
                    self.plan.pane,
                    self.plan.readiness_nonce,
                    handle,
                    credential,
                );
                match file_of(self.plan.private_root, binding) {
                    Err(failure) => self.failing(failure),
                    Ok(_) => EnrolView {
                        stage: EnrolStage::Directory,
                        binding: Some(binding),
                        credential: Some(credential),
                        ..self
                    },
                }
            },
            (EnrolStage::Directory, EnrolEventView::Done) => self.at(EnrolStage::Write),
            (EnrolStage::Write, EnrolEventView::Done) => self.at(EnrolStage::Record),
            (EnrolStage::Record, EnrolEventView::Done) => self.at(EnrolStage::Over),
            _ => self,
        }
    }

    /// What came out, once it is over.
    pub open spec fn outcome(self) -> Option<Result<ParticipantBindingView, FailureView>> {
        if self.stage != EnrolStage::Over {
            None
        } else {
            match (self.fault, self.binding) {
                (Some(failure), _) => Some(Err(failure)),
                (None, Some(binding)) => Some(Ok(binding)),
                (None, None) => None,
            }
        }
    }

    /// The state after events.
    pub open spec fn after(self, events: Seq<EnrolEventView>) -> EnrolView
        decreases events.len(),
    {
        if events.len() == 0 {
            self
        } else {
            self.after(events.drop_last()).advanced(events.last())
        }
    }

    /// Whether an action came up among events and was done.
    pub open spec fn did(self, events: Seq<EnrolEventView>, action: EnrolAction) -> bool {
        exists|i: int|
            0 <= i < events.len() && (#[trigger] self.after(events.take(i))).action() == action
                && events[i] is Done
    }

    /// Whether an action came up among events, whatever came of it.
    pub open spec fn tried(self, events: Seq<EnrolEventView>, action: EnrolAction) -> bool {
        exists|i: int|
            0 <= i < events.len() && (#[trigger] self.after(events.take(i))).action() == action
    }
}

impl EnrolMachine {
    pub fn new(state: &ReplayedDriverEvents, plan: EnrolPlan) -> (r: Self)
        ensures
            r.deep_view() == EnrolView::fresh(state.deep_view(), plan.deep_view()),
    {
        let begun = state.participant_begun(
            plan.activation_id.as_str(),
            &plan.pane,
            plan.readiness_nonce.as_str(),
        );
        match begun {
            Err(failure) => EnrolMachine {
                plan,
                stage: EnrolStage::Over,
                binding: None,
                credential: None,
                fault: Some(failure),
            },
            Ok(None) => EnrolMachine {
                plan,
                stage: EnrolStage::Draw,
                binding: None,
                credential: None,
                fault: None,
            },
            Ok(Some(binding)) => EnrolMachine {
                plan,
                stage: EnrolStage::Check,
                binding: Some(binding),
                credential: None,
                fault: None,
            },
        }
    }

    pub fn action(&self) -> (r: EnrolAction)
        ensures
            r == self.deep_view().action(),
    {
        match self.stage {
            EnrolStage::Check => EnrolAction::ReadFile,
            EnrolStage::Draw => EnrolAction::Draw,
            EnrolStage::Directory => EnrolAction::EnsureDirectory,
            EnrolStage::Write => EnrolAction::WriteFile,
            EnrolStage::Record => EnrolAction::KeepStart,
            EnrolStage::Undo => EnrolAction::RemoveFile,
            EnrolStage::Over => EnrolAction::Finish,
        }
    }

    /// The binding, once there is one.
    pub fn binding(&self) -> (r: Option<&ParticipantBinding>)
        ensures
            r.deep_view() == self.deep_view().binding,
    {
        match &self.binding {
            Some(binding) => Some(binding),
            None => None,
        }
    }

    /// The private file of a new binding.
    pub fn file(&self) -> (r: Option<ParticipantBindingFile>)
        ensures
            r.deep_view() == self.deep_view().file(),
    {
        match (&self.binding, &self.credential) {
            (Some(binding), Some(credential)) => Some(
                ParticipantBindingFile {
                    run_id: binding.run_id.clone(),
                    activation_id: binding.activation_id.clone(),
                    allocation_generation: binding.allocation_generation,
                    pane_id: binding.pane_id.clone(),
                    readiness_nonce: binding.readiness_nonce.clone(),
                    handle: binding.handle.clone(),
                    credential: credential.clone(),
                    runs_root: self.plan.runs_root.clone(),
                },
            ),
            _ => None,
        }
    }

    /// The event that is to be kept, where one is.
    pub fn event(&self) -> (r: Option<PlannedEvent>)
        ensures
            r.deep_view() == self.deep_view().event(),
    {
        match (&self.stage, &self.binding) {
            (EnrolStage::Record, Some(binding)) => Some(
                participant_started_event(binding, self.plan.stop_attempt_limit),
            ),
            _ => None,
        }
    }

    fn fail(&mut self, failure: DriverFailure)
        ensures
            final(self).deep_view() == old(self).deep_view().failing(failure.deep_view()),
    {
        self.fault = Some(failure);
        self.stage = EnrolStage::Over;
    }

    fn take_drawn(&mut self, handle: String, credential: String)
        requires
            old(self).deep_view().stage == EnrolStage::Draw,
        ensures
            final(self).deep_view() == old(self).deep_view().advanced(
                EnrolEventView::Drawn(handle@, credential@),
            ),
    {
        let binding = new_participant_binding(
            self.plan.run_id.as_str(),
            self.plan.activation_id.as_str(),
            &self.plan.pane,
            self.plan.readiness_nonce.as_str(),
            handle.as_str(),
            credential.as_str(),
        );
        match participant_binding_path(self.plan.private_root.as_str(), &binding) {
            Err(failure) => {
                self.fail(failure);
            },
            Ok(_) => {
                self.binding = Some(binding);
                self.credential = Some(credential);
                self.stage = EnrolStage::Directory;
            },
        }
    }

    fn take_file(&mut self, file: Option<ParticipantBindingFile>)
        requires
            old(self).deep_view().stage == EnrolStage::Check,
        ensures
            final(self).deep_view() == old(self).deep_view().advanced(
                EnrolEventView::File(file.deep_view()),
            ),
    {
        let checked = match &self.binding {
            None => return,
            Some(binding) => {
                match participant_binding_secret(binding, &file, self.plan.runs_root.as_str()) {
                    Err(failure) => Some(failure),
                    Ok(_) => None,
                }
            },
        };
        match checked {
            Some(failure) => {
                self.fail(failure);
            },
            None => {
                self.stage = EnrolStage::Over;
            },
        }
    }

    /// Goes on with what came of the last action.
    pub fn advance(&mut self, event: EnrolEvent)
        ensures
            final(self).deep_view() == old(self).deep_view().advanced(event.deep_view()),
    {
        match self.stage {
            EnrolStage::Over => return,
            EnrolStage::Undo => {
                self.stage = EnrolStage::Over;
                return;
            },
            _ => {},
        }
        match event {
            EnrolEvent::Failed(failure) => {
                match self.stage {
                    EnrolStage::Write => {
                        self.fail(
                            DriverFailure::new(
                                "participant_binding_persistence_failed",
                                "private participant binding could not be persisted",
                            ),
                        );
                    },
                    EnrolStage::Record => {
                        self.fault = Some(failure);
                        self.stage = EnrolStage::Undo;
                    },
                    _ => {
                        self.fail(failure);
                    },
                }
            },
            EnrolEvent::File(file) => {
                if let EnrolStage::Check = self.stage {
                    self.take_file(file);
                }
            },
            EnrolEvent::Drawn(handle, credential) => {
                if let EnrolStage::Draw = self.stage {
                    self.take_drawn(handle, credential);
                }
            },
            EnrolEvent::Done => {
                self.stage = match self.stage {
                    EnrolStage::Directory => EnrolStage::Write,
                    EnrolStage::Write => EnrolStage::Record,
                    EnrolStage::Record => EnrolStage::Over,
                    other => other,
                };
            },
        }
    }

    /// The binding of the agent, once it is over.
    pub fn into_outcome(self) -> (r: Option<Result<ParticipantBinding, DriverFailure>>)
        ensures
            enrolled_of(r) == self.deep_view().outcome(),
    {
        match self.stage {
            EnrolStage::Over => match self.fault {
                Some(failure) => Some(Err(failure)),
                None => match self.binding {
                    Some(binding) => Some(Ok(binding)),
                    None => None,
                },
            },
            _ => None,
        }
    }
}

impl EnrolView {
    /// What holds at every stage.
    pub open spec fn sound(self, start: EnrolView, events: Seq<EnrolEventView>) -> bool {
        let known = start.stage == EnrolStage::Check;
        &&& self.plan == start.plan
        &&& known ==> self.binding == start.binding && self.credential is None
        &&& self.fault is Some ==> self.stage == EnrolStage::Undo || self.stage
            == EnrolStage::Over
        &&& match self.stage {
            EnrolStage::Check => known && self.binding is Some,
            EnrolStage::Draw => !known,
            EnrolStage::Directory => !known && self.binding is Some,
            EnrolStage::Write => !known && self.binding is Some,
            EnrolStage::Record => !known && self.binding is Some && start.did(
                events,
                EnrolAction::WriteFile,
            ),
            EnrolStage::Undo => !known && self.fault is Some,
            EnrolStage::Over => {
                &&& self.fault is Some || self.binding is Some
                &&& self.fault is None ==> known || start.did(events, EnrolAction::WriteFile)
                    && start.did(events, EnrolAction::KeepStart)
                &&& self.fault is Some && start.did(events, EnrolAction::WriteFile)
                    ==> start.tried(events, EnrolAction::RemoveFile)
            },
        }
        &&& match self.stage {
            EnrolStage::Check | EnrolStage::Draw | EnrolStage::Directory | EnrolStage::Write =>
                !start.did(events, EnrolAction::WriteFile),
            _ => true,
        }
    }
}

proof fn lemma_did_stays(start: EnrolView, events: Seq<EnrolEventView>, action: EnrolAction)
    requires
        events.len() > 0,
        start.did(events.drop_last(), action),
    ensures
        start.did(events, action),
{
    let front = events.drop_last();
    let i = choose|i: int|
        0 <= i < front.len() && (#[trigger] start.after(front.take(i))).action() == action
            && front[i] is Done;
    assert(front.take(i) =~= events.take(i));
    assert(start.after(events.take(i)).action() == action);
}

proof fn lemma_tried_stays(start: EnrolView, events: Seq<EnrolEventView>, action: EnrolAction)
    requires
        events.len() > 0,
        start.tried(events.drop_last(), action),
    ensures
        start.tried(events, action),
{
    let front = events.drop_last();
    let i = choose|i: int|
        0 <= i < front.len() && (#[trigger] start.after(front.take(i))).action() == action;
    assert(front.take(i) =~= events.take(i));
    assert(start.after(events.take(i)).action() == action);
}

proof fn lemma_did_before(start: EnrolView, events: Seq<EnrolEventView>, action: EnrolAction)
    requires
        events.len() > 0,
        start.did(events, action),
    ensures
        start.did(events.drop_last(), action) || (start.after(events.drop_last()).action()
            == action && events.last() is Done),
{
    let front = events.drop_last();
    let i = choose|i: int|
        0 <= i < events.len() && (#[trigger] start.after(events.take(i))).action() == action
            && events[i] is Done;
    if i < front.len() {
        assert(front.take(i) =~= events.take(i));
        assert(start.after(front.take(i)).action() == action);
        assert(front[i] is Done);
    } else {
        assert(events.take(i) =~= front);
    }
}

proof fn lemma_came_last(start: EnrolView, events: Seq<EnrolEventView>)
    requires
        events.len() > 0,
    ensures
        start.tried(events, start.after(events.drop_last()).action()),
        events.last() is Done ==> start.did(
            events,
            start.after(events.drop_last()).action(),
        ),
{
    let i = events.len() - 1;
    assert(events.take(i) =~= events.drop_last());
    assert(start.after(events.take(i)).action() == start.after(events.drop_last()).action());
}

proof fn lemma_enrol_sound(
    state: DriverStateView,
    plan: EnrolPlanView,
    events: Seq<EnrolEventView>,
)
    ensures
        EnrolView::fresh(state, plan).after(events).sound(EnrolView::fresh(state, plan), events),
    decreases events.len(),
{
    let start = EnrolView::fresh(state, plan);
    if events.len() > 0 {
        lemma_enrol_sound(state, plan, events.drop_last());
        let front = events.drop_last();
        if start.did(front, EnrolAction::WriteFile) {
            lemma_did_stays(start, events, EnrolAction::WriteFile);
        }
        if start.did(front, EnrolAction::KeepStart) {
            lemma_did_stays(start, events, EnrolAction::KeepStart);
        }
        if start.tried(front, EnrolAction::RemoveFile) {
            lemma_tried_stays(start, events, EnrolAction::RemoveFile);
        }
        if start.did(events, EnrolAction::WriteFile) {
            lemma_did_before(start, events, EnrolAction::WriteFile);
        }
        lemma_came_last(start, events);
    }
}

/// A binding that stands is not replaced: no handle is drawn and no file written beside it.
pub proof fn lemma_standing_bindings_stay(
    state: DriverStateView,
    plan: EnrolPlanView,
    events: Seq<EnrolEventView>,
)
    requires
        binding_begun(state, plan.activation_id, plan.pane, plan.readiness_nonce) matches Ok(
            Some(_),
        ),
    ensures
        ({
            let end = EnrolView::fresh(state, plan).after(events);
            &&& end.action() == EnrolAction::ReadFile || end.action() == EnrolAction::Finish
            &&& end.outcome() matches Some(Ok(binding)) ==> Ok::<
                Option<ParticipantBindingView>,
                FailureView,
            >(Some(binding)) == binding_begun(
                state,
                plan.activation_id,
                plan.pane,
                plan.readiness_nonce,
            )
        }),
{
    lemma_enrol_sound(state, plan, events);
}

/// An agent is told to be started only once its private file is written, and then in the
/// events.
pub proof fn lemma_files_are_written_before_starts_are_kept(
    state: DriverStateView,
    plan: EnrolPlanView,
    events: Seq<EnrolEventView>,
)
    requires
        EnrolView::fresh(state, plan).after(events).action() == EnrolAction::KeepStart,
    ensures
        EnrolView::fresh(state, plan).did(events, EnrolAction::WriteFile),
{
    lemma_enrol_sound(state, plan, events);
}

/// No private file stays behind an agent that was not started: where it was written and the start
/// could not be kept, it is taken away.
pub proof fn lemma_files_of_failed_starts_are_removed(
    state: DriverStateView,
    plan: EnrolPlanView,
    events: Seq<EnrolEventView>,
)
    requires
        EnrolView::fresh(state, plan).after(events).outcome() matches Some(Err(_)),
        EnrolView::fresh(state, plan).did(events, EnrolAction::WriteFile),
    ensures
        EnrolView::fresh(state, plan).tried(events, EnrolAction::RemoveFile),
{
    lemma_enrol_sound(state, plan, events);
}

/// The private file of a new binding opens it: what is drawn for an agent is what is asked of it
/// later.
pub proof fn lemma_new_files_open_their_bindings(
    state: DriverStateView,
    plan: EnrolPlanView,
    events: Seq<EnrolEventView>,
)
    requires
        EnrolView::fresh(state, plan).after(events).file() is Some,
    ensures
        ({
            let end = EnrolView::fresh(state, plan).after(events);
            secret_of(end.binding->0, end.file(), plan.runs_root) == Ok::<Seq<char>, FailureView>(
                end.credential->0,
            )
        }),
    decreases events.len(),
{
    let start = EnrolView::fresh(state, plan);
    lemma_enrol_sound(state, plan, events);
    if events.len() > 0 {
        let before = start.after(events.drop_last());
        lemma_enrol_sound(state, plan, events.drop_last());
        if before.file() is Some {
            lemma_new_files_open_their_bindings(state, plan, events.drop_last());
        }
    }
}

} // verus!
