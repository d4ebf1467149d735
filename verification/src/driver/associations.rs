//! What is told of the agents of a run, record by record: that an agent is ready, that its
//! session belongs to the run, that it does the work of an activation, and how it ended.
use vstd::prelude::*;

use crate::text::same;

use super::failure::{DriverFailure, FailureView};
use super::publication::{obligations, participant_obligations, ParticipantTold};
use super::records::{ParticipantBinding, ParticipantBindingView};

verus! {

broadcast use vstd::string::group_string_axioms;

/// What a session is to a run.
#[derive(Debug, Clone, Copy, PartialEq, Eq, Structural)]
pub enum SessionRelation {
    Orchestrates,
    Executes,
    Ended,
}

/// What names a record of a session: the session, what it is to the run, and the run or the
/// activation.
#[derive(Debug, PartialEq, Eq)]
pub struct SessionMark {
    pub session: String,
    pub relation: SessionRelation,
    pub subject: String,
}

#[verifier::ext_equal]
pub struct SessionMarkView {
    pub session: Seq<char>,
    pub relation: SessionRelation,
    pub subject: Seq<char>,
}

impl DeepView for SessionMark {
    type V = SessionMarkView;

    open spec fn deep_view(&self) -> SessionMarkView {
        SessionMarkView {
            session: self.session@,
            relation: self.relation,
            subject: self.subject@,
        }
    }
}

/// A record that is due.
#[derive(Debug)]
pub enum ParticipantRecord {
    /// That the agent at this place is ready.
    Ready {
        place: usize,
        activation_id: String,
        allocation_generation: u64,
        readiness_nonce: String,
        pane_id: String,
        source: String,
    },
    /// What a session is to the run.
    Associate {
        mark: SessionMark,
        activation: Option<String>,
        platform: String,
        exit_status: Option<i32>,
    },
    /// Nothing, or nothing more because of a failure.
    Finish(Option<DriverFailure>),
}

#[verifier::ext_equal]
pub enum ParticipantRecordView {
    Ready {
        place: usize,
        activation_id: Seq<char>,
        allocation_generation: u64,
        readiness_nonce: Seq<char>,
        pane_id: Seq<char>,
        source: Seq<char>,
    },
    Associate {
        mark: SessionMarkView,
        activation: Option<Seq<char>>,
        platform: Seq<char>,
        exit_status: Option<i32>,
    },
    Finish(Option<FailureView>),
}

impl DeepView for ParticipantRecord {
    type V = ParticipantRecordView;

    open spec fn deep_view(&self) -> ParticipantRecordView {
        match self {
            ParticipantRecord::Ready {
                place,
                activation_id,
                allocation_generation,
                readiness_nonce,
                pane_id,
                source,
            } => ParticipantRecordView::Ready {
                place: *place,
                activation_id: activation_id@,
                allocation_generation: *allocation_generation,
                readiness_nonce: readiness_nonce@,
                pane_id: pane_id@,
                source: source@,
            },
            ParticipantRecord::Associate { mark, activation, platform, exit_status } =>
                ParticipantRecordView::Associate {
                mark: mark.deep_view(),
                activation: activation.deep_view(),
                platform: platform@,
                exit_status: *exit_status,
            },
            ParticipantRecord::Finish(failure) => ParticipantRecordView::Finish(
                failure.deep_view(),
            ),
        }
    }
}

/// What came of a record.
#[derive(Debug)]
pub enum ParticipantRecordEvent {
    /// Whether it is shown that the agent is ready.
    Projected(bool),
    Recorded,
    Failed(DriverFailure),
}

#[verifier::ext_equal]
pub enum ParticipantRecordEventView {
    Projected(bool),
    Recorded,
    Failed(FailureView),
}

impl DeepView for ParticipantRecordEvent {
    type V = ParticipantRecordEventView;

    open spec fn deep_view(&self) -> ParticipantRecordEventView {
        match self {
            ParticipantRecordEvent::Projected(shown) => ParticipantRecordEventView::Projected(
                *shown,
            ),
            ParticipantRecordEvent::Recorded => ParticipantRecordEventView::Recorded,
            ParticipantRecordEvent::Failed(failure) => ParticipantRecordEventView::Failed(
                failure.deep_view(),
            ),
        }
    }
}

/// The mark of what the session of an agent is to a run.
pub open spec fn mark_of(
    binding: ParticipantBindingView,
    relation: SessionRelation,
    run_id: Seq<char>,
) -> SessionMarkView {
    SessionMarkView {
        session: match binding.native_session_id {
            Some(session) => session,
            None => Seq::empty(),
        },
        relation,
        subject: match relation {
            SessionRelation::Orchestrates => run_id,
            _ => binding.activation_id,
        },
    }
}

/// What was told of an agent.
pub open spec fn told_of(
    binding: ParticipantBindingView,
    run_id: Seq<char>,
    told: Seq<SessionMarkView>,
) -> ParticipantTold {
    ParticipantTold {
        started: told.contains(mark_of(binding, SessionRelation::Orchestrates, run_id)),
        bound: told.contains(mark_of(binding, SessionRelation::Executes, run_id)),
        ended: told.contains(mark_of(binding, SessionRelation::Ended, run_id)),
    }
}

/// The record of what the session of an agent is to a run.
pub open spec fn association(
    binding: ParticipantBindingView,
    relation: SessionRelation,
    run_id: Seq<char>,
    exit_status: Option<i32>,
) -> ParticipantRecordView {
    ParticipantRecordView::Associate {
        mark: mark_of(binding, relation, run_id),
        activation: match relation {
            SessionRelation::Orchestrates => None,
            _ => Some(binding.activation_id),
        },
        platform: match binding.platform {
            Some(platform) => platform,
            None => Seq::empty(),
        },
        exit_status,
    }
}

/// The record that is due of the agent at a place, if one is.
pub open spec fn due_of(
    binding: ParticipantBindingView,
    place: usize,
    run_id: Seq<char>,
    told: Seq<SessionMarkView>,
    ready: Option<usize>,
) -> Option<ParticipantRecordView> {
    match obligations(binding, told_of(binding, run_id, told)) {
        Err(failure) => Some(ParticipantRecordView::Finish(Some(failure))),
        Ok(owed) => if owed.bound {
            if ready != Some(place) {
                Some(
                    ParticipantRecordView::Ready {
                        place,
                        activation_id: binding.activation_id,
                        allocation_generation: binding.allocation_generation,
                        readiness_nonce: binding.readiness_nonce,
                        pane_id: binding.pane_id,
                        source: match binding.source {
                            Some(source) => source,
                            None => Seq::empty(),
                        },
                    },
                )
            } else if owed.started {
                Some(association(binding, SessionRelation::Orchestrates, run_id, None))
            } else {
                Some(association(binding, SessionRelation::Executes, run_id, None))
            }
        } else {
            match owed.ended {
                Some(status) => Some(
                    association(binding, SessionRelation::Ended, run_id, Some(status)),
                ),
                None => None,
            }
        },
    }
}

/// The record that is due, of the first agent from a place on of which one is.
pub open spec fn due_from(
    bindings: Seq<ParticipantBindingView>,
    from: int,
    run_id: Seq<char>,
    told: Seq<SessionMarkView>,
    ready: Option<usize>,
) -> ParticipantRecordView
    decreases bindings.len() - from,
{
    if from < 0 || from >= bindings.len() {
        ParticipantRecordView::Finish(None)
    } else {
        match due_of(bindings[from], from as usize, run_id, told, ready) {
            Some(record) => record,
            None => due_from(bindings, from + 1, run_id, told, ready),
        }
    }
}

/// What is told of the agents of a run.
#[derive(Debug)]
pub struct AssociationMachine {
    bindings: Vec<ParticipantBinding>,
    run_id: String,
    told: Vec<SessionMark>,
    ready: Option<usize>,
    failure: Option<DriverFailure>,
}

#[verifier::ext_equal]
pub struct AssociationView {
    pub bindings: Seq<ParticipantBindingView>,
    pub run_id: Seq<char>,
    /// What was told, before and since.
    pub told: Seq<SessionMarkView>,
    /// The agent that was shown to be ready last.
    pub ready: Option<usize>,
    pub failure: Option<FailureView>,
}

impl DeepView for AssociationMachine {
    type V = AssociationView;

    closed spec fn deep_view(&self) -> AssociationView {
        AssociationView {
            bindings: self.bindings.deep_view(),
            run_id: self.run_id@,
            told: self.told.deep_view(),
            ready: self.ready,
            failure: self.failure.deep_view(),
        }
    }
}

/// What is told where an agent cannot be shown to be ready.
pub open spec fn unprojected() -> FailureView {
    FailureView::plain(
        "publication_blocked"@,
        "native participant binding could not be projected"@,
    )
}

impl AssociationView {
    pub open spec fn fresh(
        bindings: Seq<ParticipantBindingView>,
        run_id: Seq<char>,
        told: Seq<SessionMarkView>,
    ) -> AssociationView {
        AssociationView { bindings, run_id, told, ready: None, failure: None }
    }

    /// The record that is due.
    pub open spec fn due(self) -> ParticipantRecordView {
        match self.failure {
            Some(failure) => ParticipantRecordView::Finish(Some(failure)),
            None => due_from(self.bindings, 0, self.run_id, self.told, self.ready),
        }
    }

    /// After what came of the record that was due. What does not fit it changes nothing.
    pub open spec fn advanced(self, event: ParticipantRecordEventView) -> AssociationView {
        match (self.due(), event) {
            (ParticipantRecordView::Finish(_), _) => self,
            (_, ParticipantRecordEventView::Failed(failure)) => AssociationView {
                failure: Some(failure),
                ..self
            },
            (
                ParticipantRecordView::Ready { place, .. },
                ParticipantRecordEventView::Projected(shown),
            ) => if shown {
                AssociationView { ready: Some(place), ..self }
            } else {
                AssociationView { failure: Some(unprojected()), ..self }
            },
            (
                ParticipantRecordView::Associate { mark, .. },
                ParticipantRecordEventView::Recorded,
            ) => AssociationView { told: self.told.push(mark), ..self },
            _ => self,
        }
    }
}

fn is_told(
    told: &Vec<SessionMark>,
    session: &str,
    relation: SessionRelation,
    subject: &str,
) -> (r: bool)
    ensures
        r == told.deep_view().contains(
            (SessionMarkView { session: session@, relation, subject: subject@ }),
        ),
{
    let ghost wanted = SessionMarkView { session: session@, relation, subject: subject@ };
    let ghost model = told.deep_view();
    let mut i: usize = 0;
    while i < told.len()
        invariant
            i <= told.len(),
            model == told.deep_view(),
            wanted == (SessionMarkView { session: session@, relation, subject: subject@ }),
            forall|j: int| 0 <= j < i ==> #[trigger] model[j] != wanted,
        decreases told.len() - i,
    {
        let mark = &told[i];
        assert(model[i as int] == mark.deep_view());
        if same(mark.session.as_str(), session) && mark.relation == relation && same(
            mark.subject.as_str(),
            subject,
        ) {
            assert(model[i as int] =~= wanted);
            return true;
        }
        i += 1;
    }
    false
}

fn associate(
    binding: &ParticipantBinding,
    relation: SessionRelation,
    run_id: &str,
    exit_status: Option<i32>,
) -> (r: ParticipantRecord)
    ensures
        r.deep_view() == association(binding.deep_view(), relation, run_id@, exit_status),
{
    let session = match &binding.native_session_id {
        Some(session) => session.clone(),
        None => String::new(),
    };
    let platform = match &binding.platform {
        Some(platform) => platform.clone(),
        None => String::new(),
    };
    let (subject, activation) = match relation {
        SessionRelation::Orchestrates => (run_id.to_string(), None),
        _ => (binding.activation_id.clone(), Some(binding.activation_id.clone())),
    };
    let mark = SessionMark { session, relation, subject };
    assert(mark.deep_view() =~= mark_of(binding.deep_view(), relation, run_id@));
    ParticipantRecord::Associate { mark, activation, platform, exit_status }
}

fn next_of(
    binding: &ParticipantBinding,
    place: usize,
    run_id: &str,
    told: &Vec<SessionMark>,
    ready: Option<usize>,
) -> (r: Option<ParticipantRecord>)
    ensures
        r.deep_view() == due_of(binding.deep_view(), place, run_id@, told.deep_view(), ready),
{
    let session = match &binding.native_session_id {
        Some(session) => session.clone(),
        None => String::new(),
    };
    let known = ParticipantTold {
        started: is_told(told, session.as_str(), SessionRelation::Orchestrates, run_id),
        bound: is_told(
            told,
            session.as_str(),
            SessionRelation::Executes,
            binding.activation_id.as_str(),
        ),
        ended: is_told(
            told,
            session.as_str(),
            SessionRelation::Ended,
            binding.activation_id.as_str(),
        ),
    };
    assert(session@ =~= mark_of(
        binding.deep_view(),
        SessionRelation::Executes,
        run_id@,
    ).session);
    assert(known == told_of(binding.deep_view(), run_id@, told.deep_view()));
    let owed = match participant_obligations(binding, known) {
        Err(failure) => return Some(ParticipantRecord::Finish(Some(failure))),
        Ok(owed) => owed,
    };
    if owed.bound {
        let is_ready = match ready {
            Some(shown) => shown == place,
            None => false,
        };
        if !is_ready {
            let source = match &binding.source {
                Some(source) => source.clone(),
                None => String::new(),
            };
            Some(
                ParticipantRecord::Ready {
                    place,
                    activation_id: binding.activation_id.clone(),
                    allocation_generation: binding.allocation_generation,
                    readiness_nonce: binding.readiness_nonce.clone(),
                    pane_id: binding.pane_id.clone(),
                    source,
                },
            )
        } else if owed.started {
            Some(associate(binding, SessionRelation::Orchestrates, run_id, None))
        } else {
            Some(associate(binding, SessionRelation::Executes, run_id, None))
        }
    } else {
        match owed.ended {
            Some(status) => Some(
                associate(binding, SessionRelation::Ended, run_id, Some(status)),
            ),
            None => None,
        }
    }
}

impl AssociationMachine {
    pub fn new(bindings: Vec<ParticipantBinding>, run_id: String, told: Vec<SessionMark>) -> (r:
        Self)
        ensures
            r.deep_view() == AssociationView::fresh(
                bindings.deep_view(),
                run_id@,
                told.deep_view(),
            ),
    {
        AssociationMachine { bindings, run_id, told, ready: None, failure: None }
    }

    /// The record that is due.
    pub fn due(&self) -> (r: ParticipantRecord)
        ensures
            r.deep_view() == self.deep_view().due(),
    {
        match &self.failure {
            Some(failure) => return ParticipantRecord::Finish(Some(failure.clone())),
            None => {},
        }
        let ghost view = self.deep_view();
        let mut i: usize = 0;
        while i < self.bindings.len()
            invariant
                i <= self.bindings.len(),
                view == self.deep_view(),
                view.due() == due_from(
                    view.bindings,
                    i as int,
                    view.run_id,
                    view.told,
                    view.ready,
                ),
            decreases self.bindings.len() - i,
        {
            assert(view.bindings[i as int] == self.bindings@[i as int].deep_view());
            match next_of(
                &self.bindings[i],
                i,
                self.run_id.as_str(),
                &self.told,
                self.ready,
            ) {
                Some(record) => return record,
                None => {},
            }
            i += 1;
        }
        ParticipantRecord::Finish(None)
    }

    /// After what came of the record that was due. What does not fit it changes nothing.
    pub fn advance(self, event: ParticipantRecordEvent) -> (r: Self)
        ensures
            r.deep_view() == self.deep_view().advanced(event.deep_view()),
    {
        let due = self.due();
        let mut next = self;
        match (due, event) {
            (ParticipantRecord::Finish(_), _) => {},
            (_, ParticipantRecordEvent::Failed(failure)) => {
                next.failure = Some(failure);
            },
            (ParticipantRecord::Ready { place, .. }, ParticipantRecordEvent::Projected(shown)) => {
                if shown {
                    next.ready = Some(place);
                } else {
                    next.failure = Some(
                        DriverFailure::new(
                            "publication_blocked",
                            "native participant binding could not be projected",
                        ),
                    );
                }
            },
            (ParticipantRecord::Associate { mark, .. }, ParticipantRecordEvent::Recorded) => {
                let ghost before = next.told.deep_view();
                next.told.push(mark);
                assert(next.told.deep_view() =~= before.push(mark.deep_view()));
            },
            _ => {},
        }
        next
    }
}

proof fn lemma_due_is_of_a_binding(
    bindings: Seq<ParticipantBindingView>,
    from: int,
    run_id: Seq<char>,
    told: Seq<SessionMarkView>,
    ready: Option<usize>,
) -> (place: int)
    requires
        0 <= from,
        bindings.len() <= usize::MAX,
    ensures
        due_from(bindings, from, run_id, told, ready) == ParticipantRecordView::Finish(None)
            || (from <= place < bindings.len() && due_of(
            bindings[place],
            place as usize,
            run_id,
            told,
            ready,
        ) == Some(due_from(bindings, from, run_id, told, ready))),
        forall|i: int|
            from <= i < bindings.len() && due_from(bindings, from, run_id, told, ready)
                == ParticipantRecordView::Finish(None) ==> #[trigger] due_of(
                bindings[i],
                i as usize,
                run_id,
                told,
                ready,
            ) is None,
    decreases bindings.len() - from,
{
    if from >= bindings.len() {
        from
    } else if due_of(bindings[from], from as usize, run_id, told, ready) is Some {
        from
    } else {
        lemma_due_is_of_a_binding(bindings, from + 1, run_id, told, ready)
    }
}

/// What an agent must have been shown and told before a record of it is due.
pub open spec fn comes_after(view: AssociationView, record: ParticipantRecordView) -> bool {
    match record {
        ParticipantRecordView::Associate { mark, .. } => exists|i: int|
            0 <= i < view.bindings.len() && mark == mark_of(
                #[trigger] view.bindings[i],
                mark.relation,
                view.run_id,
            ) && match mark.relation {
                SessionRelation::Orchestrates => view.ready == Some(i as usize),
                SessionRelation::Executes => view.ready == Some(i as usize) && view.told.contains(
                    mark_of(view.bindings[i], SessionRelation::Orchestrates, view.run_id),
                ),
                SessionRelation::Ended => view.bindings[i].exit_status is Some
                    && view.told.contains(
                    mark_of(view.bindings[i], SessionRelation::Executes, view.run_id),
                ),
            },
        _ => true,
    }
}

/// The records of an agent come in their order: it is shown to be ready, then its session is
/// told to belong to the run, then to do the work, and only then how it ended. None of them is
/// told twice.
pub proof fn lemma_agents_are_told_in_order(view: AssociationView)
    requires
        view.bindings.len() <= usize::MAX,
    ensures
        comes_after(view, view.due()),
        view.due() matches ParticipantRecordView::Associate { mark, .. } ==> !view.told.contains(
            mark,
        ),
{
    if view.failure is None {
        let place = lemma_due_is_of_a_binding(
            view.bindings,
            0,
            view.run_id,
            view.told,
            view.ready,
        );
        if let ParticipantRecordView::Associate { mark, .. } = view.due() {
            let binding = view.bindings[place];
            assert(due_of(binding, place as usize, view.run_id, view.told, view.ready) == Some(
                view.due(),
            ));
            assert(mark == mark_of(view.bindings[place], mark.relation, view.run_id));
        }
    }
}

/// An agent that cannot be shown to be ready keeps everything else from being told, and so does
/// any other failure; without one, nothing is left to be told in the end.
pub proof fn lemma_agents_are_told_or_it_is_known(view: AssociationView)
    requires
        view.bindings.len() <= usize::MAX,
    ensures
        view.due() is Ready ==> view.advanced(ParticipantRecordEventView::Projected(false)).due()
            == ParticipantRecordView::Finish(Some(unprojected())),
        forall|failure: FailureView|
            view.due() !is Finish ==> (#[trigger] view.advanced(
                ParticipantRecordEventView::Failed(failure),
            )).due() == ParticipantRecordView::Finish(Some(failure)),
        view.due() == ParticipantRecordView::Finish(None) ==> forall|i: int|
            0 <= i < view.bindings.len() ==> #[trigger] due_of(
                view.bindings[i],
                i as usize,
                view.run_id,
                view.told,
                view.ready,
            ) is None,
{
    if view.failure is None {
        let place = lemma_due_is_of_a_binding(
            view.bindings,
            0,
            view.run_id,
            view.told,
            view.ready,
        );
    }
}

} // verus!
