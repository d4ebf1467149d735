//! The course of a request: what is published is brought up to date, then it is settled who
//! asks and whether what they know is up to date, then the request is carried out.
use vstd::prelude::*;

use crate::json::{field, no_fields, with_field, Json, JsonView};

use super::failure::{result_of, DriverFailure, FailureView};
use super::operation::{shutdown_report, shutdown_response};
use super::participant::{tool_decision, ParticipantBindingFile};
use super::protocol::{named, CursorPolicy, DriverWire};
use super::replay::ReplayedDriverEvents;
use super::request::{
    authority_fits, check_expected_authority, dispatch_of, dispatch_request,
    publication_blocked, publication_fault, with_authority, with_authority_fields, Authority,
    Dispatch,
};
use super::wire::{driver_error, with_id};

verus! {

broadcast use vstd::string::group_string_axioms;

/// The answer to a request that is about another run or about nothing known.
pub open spec fn refused(dispatch: Dispatch, id: JsonView) -> Option<JsonView> {
    match dispatch {
        Dispatch::WrongRun => Some(
            super::wire::refusal(id, "wrong_run"@, "driver owns a different run"@),
        ),
        Dispatch::Unknown => Some(
            super::wire::refusal(id, "unknown_op"@, "unknown driver operation"@),
        ),
        _ => None,
    }
}

/// The answer to a request that is about another run or about nothing known.
pub fn refusal(dispatch: Dispatch, id: Json) -> (r: Option<Json>)
    ensures
        r.deep_view() == refused(dispatch, id@),
{
    match dispatch {
        Dispatch::WrongRun => Some(driver_error(id, "wrong_run", "driver owns a different run")),
        Dispatch::Unknown => Some(driver_error(id, "unknown_op", "unknown driver operation")),
        _ => None,
    }
}

/// Where a request stands.
#[derive(Debug, Clone, Copy, PartialEq, Eq, Structural)]
pub enum RequestStage {
    /// What is to be published is brought up to date.
    Outbox,
    /// The manifest of the assets of the run is read.
    Manifest,
    /// The seal of what is published is brought up to date.
    Seal,
    /// What is owed to those who read along is brought up to date.
    Obligations,
    /// It is settled who asks.
    Authorize,
    /// It is settled whether what they know is up to date.
    Cursor,
    /// The request is carried out.
    Handle,
    /// The driver is asked to end.
    Shutdown,
    /// The request is answered.
    Over,
}

impl RequestStage {
    /// How far a stage is from the start.
    pub open spec fn rank(self) -> int {
        match self {
            RequestStage::Outbox => 0,
            RequestStage::Manifest => 1,
            RequestStage::Seal => 2,
            RequestStage::Obligations => 3,
            RequestStage::Authorize => 4,
            RequestStage::Cursor => 5,
            RequestStage::Handle => 6,
            RequestStage::Shutdown => 6,
            RequestStage::Over => 7,
        }
    }
}

/// What is done next.
#[derive(Debug)]
pub enum RequestAction {
    ReconcileOutbox,
    LoadManifest,
    ReconcileSeal,
    ReconcileObligations,
    /// It is asked who may use a tool.
    Authorize(DriverWire),
    /// The history is asked where it stands.
    ReadAuthority,
    RunTool(DriverWire),
    BindParticipant,
    StopParticipant,
    ParticipantExited,
    Answer(Json),
}

#[verifier::ext_equal]
pub enum RequestActionView {
    ReconcileOutbox,
    LoadManifest,
    ReconcileSeal,
    ReconcileObligations,
    Authorize(DriverWire),
    ReadAuthority,
    RunTool(DriverWire),
    BindParticipant,
    StopParticipant,
    ParticipantExited,
    Answer(JsonView),
}

impl DeepView for RequestAction {
    type V = RequestActionView;

    open spec fn deep_view(&self) -> RequestActionView {
        match self {
            RequestAction::ReconcileOutbox => RequestActionView::ReconcileOutbox,
            RequestAction::LoadManifest => RequestActionView::LoadManifest,
            RequestAction::ReconcileSeal => RequestActionView::ReconcileSeal,
            RequestAction::ReconcileObligations => RequestActionView::ReconcileObligations,
            RequestAction::Authorize(wire) => RequestActionView::Authorize(*wire),
            RequestAction::ReadAuthority => RequestActionView::ReadAuthority,
            RequestAction::RunTool(wire) => RequestActionView::RunTool(*wire),
            RequestAction::BindParticipant => RequestActionView::BindParticipant,
            RequestAction::StopParticipant => RequestActionView::StopParticipant,
            RequestAction::ParticipantExited => RequestActionView::ParticipantExited,
            RequestAction::Answer(answer) => RequestActionView::Answer(answer@),
        }
    }
}

/// What came of what was done.
#[derive(Debug)]
pub enum RequestEvent {
    Done,
    Failed(DriverFailure),
    Authorized(Result<Option<String>, DriverFailure>),
    Stands(Authority),
    Handled(Result<Json, DriverFailure>),
}

#[verifier::ext_equal]
pub enum RequestEventView {
    Done,
    Failed(FailureView),
    Authorized(Result<Option<Seq<char>>, FailureView>),
    Stands(Authority),
    Handled(Result<JsonView, FailureView>),
}

/// What came of carrying a request out.
pub open spec fn handled(r: Result<Json, DriverFailure>) -> Result<JsonView, FailureView> {
    match r {
        Ok(response) => Ok(response@),
        Err(failure) => Err(failure.deep_view()),
    }
}

impl DeepView for RequestEvent {
    type V = RequestEventView;

    open spec fn deep_view(&self) -> RequestEventView {
        match self {
            RequestEvent::Done => RequestEventView::Done,
            RequestEvent::Failed(failure) => RequestEventView::Failed(failure.deep_view()),
            RequestEvent::Authorized(result) => RequestEventView::Authorized(result_of(*result)),
            RequestEvent::Stands(authority) => RequestEventView::Stands(*authority),
            RequestEvent::Handled(result) => RequestEventView::Handled(handled(*result)),
        }
    }
}

/// A request that is being answered.
#[derive(Debug)]
pub struct RequestMachine {
    id: Json,
    dispatch: Dispatch,
    own_run: String,
    request: Json,
    stage: RequestStage,
    answer: Json,
}

#[verifier::ext_equal]
pub struct RequestView {
    pub id: JsonView,
    pub dispatch: Dispatch,
    pub own_run: Seq<char>,
    pub request: JsonView,
    pub stage: RequestStage,
    /// What is answered once the request is over.
    pub answer: JsonView,
}

impl DeepView for RequestMachine {
    type V = RequestView;

    closed spec fn deep_view(&self) -> RequestView {
        RequestView {
            id: self.id@,
            dispatch: self.dispatch,
            own_run: self.own_run@,
            request: self.request@,
            stage: self.stage,
            answer: self.answer@,
        }
    }
}

impl RequestView {
    /// Whether a request that changes something is heard only from those who are up to date.
    pub open spec fn needs_cursor(self) -> bool {
        self.dispatch matches Dispatch::Tool(wire) && wire.policy()
            == CursorPolicy::ExpectedAuthority
    }

    pub open spec fn at(self, stage: RequestStage) -> RequestView {
        RequestView { stage, ..self }
    }

    pub open spec fn answered(self, answer: JsonView) -> RequestView {
        RequestView { stage: RequestStage::Over, answer, ..self }
    }

    /// The stage where what is published is up to date.
    pub open spec fn admitted(self) -> RequestView {
        self.at(
            match self.dispatch {
                Dispatch::Tool(_) => RequestStage::Authorize,
                Dispatch::Shutdown => RequestStage::Shutdown,
                _ => RequestStage::Handle,
            },
        )
    }

    /// A request that has come in.
    pub open spec fn begun(
        id: JsonView,
        op: Seq<char>,
        run_id: Seq<char>,
        request: JsonView,
        own_run: Seq<char>,
    ) -> RequestView {
        let dispatch = dispatch_of(op, run_id, own_run);
        let new = RequestView {
            id,
            dispatch,
            own_run,
            request,
            stage: RequestStage::Outbox,
            answer: JsonView::Null,
        };
        match refused(dispatch, id) {
            Some(answer) => new.answered(answer),
            None => if dispatch.mutates() {
                new
            } else {
                new.admitted()
            },
        }
    }

    /// What is done next.
    pub open spec fn action(self) -> RequestActionView {
        match self.stage {
            RequestStage::Outbox => RequestActionView::ReconcileOutbox,
            RequestStage::Manifest => RequestActionView::LoadManifest,
            RequestStage::Seal => RequestActionView::ReconcileSeal,
            RequestStage::Obligations => RequestActionView::ReconcileObligations,
            RequestStage::Authorize => match self.dispatch {
                Dispatch::Tool(wire) => RequestActionView::Authorize(wire),
                _ => RequestActionView::Answer(self.answer),
            },
            RequestStage::Cursor => RequestActionView::ReadAuthority,
            RequestStage::Shutdown => RequestActionView::ReadAuthority,
            RequestStage::Handle => match self.dispatch {
                Dispatch::Tool(wire) => RequestActionView::RunTool(wire),
                Dispatch::ParticipantBind => RequestActionView::BindParticipant,
                Dispatch::ParticipantStop => RequestActionView::StopParticipant,
                Dispatch::ParticipantExited => RequestActionView::ParticipantExited,
                _ => RequestActionView::Answer(self.answer),
            },
            RequestStage::Over => RequestActionView::Answer(self.answer),
        }
    }

    /// Where the request stands after an event. One that does not fit changes nothing.
    pub open spec fn advanced(self, event: RequestEventView) -> RequestView {
        match (self.stage, event) {
            (RequestStage::Outbox, RequestEventView::Done) => self.at(RequestStage::Manifest),
            (RequestStage::Outbox, RequestEventView::Failed(failure)) => self.answered(
                publication_fault(false, failure.message).response(self.id),
            ),
            (RequestStage::Manifest, RequestEventView::Done) => self.at(RequestStage::Seal),
            (RequestStage::Manifest, RequestEventView::Failed(failure)) => self.answered(
                failure.response(self.id),
            ),
            (RequestStage::Seal, RequestEventView::Done) => self.at(RequestStage::Obligations),
            (RequestStage::Seal, RequestEventView::Failed(failure)) => self.answered(
                failure.response(self.id),
            ),
            (RequestStage::Obligations, RequestEventView::Done) => self.admitted(),
            (RequestStage::Obligations, RequestEventView::Failed(failure)) => self.answered(
                publication_fault(true, failure.message).response(self.id),
            ),
            (RequestStage::Authorize, RequestEventView::Authorized(result)) => match result {
                Err(failure) => self.answered(failure.response(self.id)),
                Ok(_) => if self.needs_cursor() {
                    self.at(RequestStage::Cursor)
                } else {
                    self.at(RequestStage::Handle)
                },
            },
            (RequestStage::Cursor, RequestEventView::Stands(authority)) => match authority_fits(
                self.request,
                authority,
            ) {
                Err(failure) => self.answered(failure.response(self.id)),
                Ok(_) => self.at(RequestStage::Handle),
            },
            (RequestStage::Shutdown, RequestEventView::Stands(authority)) => self.answered(
                with_field(
                    with_authority(shutdown_report(self.own_run), authority),
                    "id"@,
                    self.id,
                ),
            ),
            (RequestStage::Handle, RequestEventView::Handled(result)) => match result {
                Err(failure) => self.answered(failure.response(self.id)),
                Ok(response) => self.answered(with_field(response, "id"@, self.id)),
            },
            _ => self,
        }
    }

    /// Where the request stands after events.
    pub open spec fn after(self, events: Seq<RequestEventView>) -> RequestView
        decreases events.len(),
    {
        if events.len() == 0 {
            self
        } else {
            self.after(events.drop_last()).advanced(events.last())
        }
    }

    /// Whether the event at `i` met the request at a stage and let it go on.
    pub open spec fn passes(
        self,
        events: Seq<RequestEventView>,
        stage: RequestStage,
        i: int,
    ) -> bool {
        &&& self.after(events.take(i)).stage == stage
        &&& self.after(events.take(i)).advanced(events[i]).stage != stage
        &&& self.after(events.take(i)).advanced(events[i]).stage != RequestStage::Over
    }

    /// Whether the request stood at a stage and went on from it.
    pub open spec fn passed(self, events: Seq<RequestEventView>, stage: RequestStage) -> bool {
        exists|i: int| 0 <= i < events.len() && #[trigger] self.passes(events, stage, i)
    }

    /// Whether a request has to go through a stage before it is carried out.
    pub open spec fn requires_stage(self, stage: RequestStage) -> bool {
        match stage {
            RequestStage::Outbox => self.dispatch.mutates(),
            RequestStage::Manifest => self.dispatch.mutates(),
            RequestStage::Seal => self.dispatch.mutates(),
            RequestStage::Obligations => self.dispatch.mutates(),
            RequestStage::Authorize => self.dispatch is Tool,
            RequestStage::Cursor => self.needs_cursor(),
            _ => false,
        }
    }

    /// Whether the request has gone through every stage that it had to.
    pub open spec fn in_order(self, events: Seq<RequestEventView>) -> bool {
        let now = self.after(events);
        now.stage != RequestStage::Over ==> forall|stage: RequestStage| #[trigger]
            now.requires_stage(stage) && stage.rank() < now.stage.rank() ==> self.passed(
                events,
                stage,
            )
    }
}

proof fn lemma_passed_stays(
    start: RequestView,
    events: Seq<RequestEventView>,
    event: RequestEventView,
    stage: RequestStage,
)
    requires
        start.passed(events, stage),
    ensures
        start.passed(events.push(event), stage),
{
    let i = choose|i: int| 0 <= i < events.len() && #[trigger] start.passes(events, stage, i);
    assert(events.push(event).take(i) =~= events.take(i));
    assert(start.passes(events.push(event), stage, i));
}

proof fn lemma_same_request(start: RequestView, events: Seq<RequestEventView>)
    ensures
        start.after(events).dispatch == start.dispatch,
        start.after(events).id == start.id,
    decreases events.len(),
{
    if events.len() > 0 {
        lemma_same_request(start, events.drop_last());
    }
}

/// A request is carried out only after everything that has to come before: one that changes
/// something after what is published, the manifest, the seal and what is owed were brought up
/// to date, each of them with success; one with a tool after it was settled who asks; one that
/// is heard only from those who are up to date after that was settled too.
pub proof fn lemma_requests_are_handled_in_order(
    id: JsonView,
    op: Seq<char>,
    run_id: Seq<char>,
    request: JsonView,
    own_run: Seq<char>,
    events: Seq<RequestEventView>,
)
    ensures
        RequestView::begun(id, op, run_id, request, own_run).in_order(events),
    decreases events.len(),
{
    let start = RequestView::begun(id, op, run_id, request, own_run);
    if events.len() > 0 {
        let before = events.drop_last();
        let event = events.last();
        lemma_requests_are_handled_in_order(id, op, run_id, request, own_run, before);
        lemma_same_request(start, before);
        assert(events =~= before.push(event));
        assert(events.take(before.len() as int) =~= before);
        let was = start.after(before);
        let now = start.after(events);
        if now.stage != RequestStage::Over {
            assert forall|stage: RequestStage| #[trigger]
                now.requires_stage(stage) && stage.rank() < now.stage.rank() implies start.passed(
                events,
                stage,
            ) by {
                assert(was.requires_stage(stage));
                if stage.rank() < was.stage.rank() {
                    lemma_passed_stays(start, before, event, stage);
                } else {
                    assert(was.stage == stage);
                    assert(start.passes(events, stage, before.len() as int));
                }
            }
        }
    }
}

/// A request only goes on: it never comes back to a stage that it has left.
pub proof fn lemma_requests_only_go_on(
    start: RequestView,
    events: Seq<RequestEventView>,
    event: RequestEventView,
)
    ensures
        start.after(events).stage.rank() <= start.after(events.push(event)).stage.rank(),
        start.after(events).stage.rank() == start.after(events.push(event)).stage.rank() ==>
            start.after(events) == start.after(events.push(event)),
{
    assert(events.push(event).drop_last() =~= events);
}

/// The code of a refusal.
pub open spec fn refusal_code(answer: JsonView) -> Option<JsonView> {
    match field(answer, "error"@) {
        Some(error) => field(error, "code"@),
        None => None,
    }
}

/// A request about another run is answered with `wrong_run` and one whose operation is neither
/// the name of a tool nor one of the four others with `unknown_op`, both before anything is
/// done; no other request is answered before anything is done.
pub proof fn lemma_refusals(
    id: JsonView,
    op: Seq<char>,
    run_id: Seq<char>,
    request: JsonView,
    own_run: Seq<char>,
)
    ensures
        ({
            let start = RequestView::begun(id, op, run_id, request, own_run);
            let wrong_run = run_id != own_run;
            let unknown = run_id == own_run && named(op) is None && op != "participant_bind"@ && op
                != "participant_stop"@ && op != "participant_exited"@ && op != "shutdown"@;
            &&& wrong_run ==> start.stage == RequestStage::Over && refusal_code(start.answer)
                == Some(JsonView::Text("wrong_run"@))
            &&& unknown ==> start.stage == RequestStage::Over && refusal_code(start.answer)
                == Some(JsonView::Text("unknown_op"@))
            &&& start.stage == RequestStage::Over ==> wrong_run || unknown
            &&& refusal_code(start.answer) == Some(JsonView::Text("unknown_op"@)) <==> unknown
        }),
{
    reveal_strlit("id");
    reveal_strlit("ok");
    reveal_strlit("error");
    reveal_strlit("code");
    reveal_strlit("message");
    reveal_strlit("wrong_run");
    reveal_strlit("unknown_op");
    assert("error"@.len() == 5 && "ok"@.len() == 2 && "id"@.len() == 2);
    assert("code"@.len() == 4 && "message"@.len() == 7);
    assert("wrong_run"@.len() == 9 && "unknown_op"@.len() == 10);
    let dispatch = dispatch_of(op, run_id, own_run);
    let start = RequestView::begun(id, op, run_id, request, own_run);
    assert(field(JsonView::Null, "error"@) is None);
    if let Some(answer) = refused(dispatch, id) {
        lemma_refusal_code(id, "wrong_run"@, "driver owns a different run"@);
        lemma_refusal_code(id, "unknown_op"@, "unknown driver operation"@);
    }
}

proof fn lemma_refusal_code(id: JsonView, code: Seq<char>, message: Seq<char>)
    ensures
        refusal_code(super::wire::refusal(id, code, message)) == Some(JsonView::Text(code)),
{
    reveal_strlit("id");
    reveal_strlit("ok");
    reveal_strlit("error");
    reveal_strlit("code");
    reveal_strlit("message");
    assert("error"@.len() == 5 && "ok"@.len() == 2 && "id"@.len() == 2);
    assert("code"@.len() == 4 && "message"@.len() == 7);
    reveal_with_fuel(crate::json::lookup, 4);
    let inner = no_fields().push(("code"@, JsonView::Text(code))).push(
        ("message"@, JsonView::Text(message)),
    );
    assert(inner.drop_last() =~= no_fields().push(("code"@, JsonView::Text(code))));
    let error = JsonView::Record(inner);
    assert(field(error, "code"@) == Some(JsonView::Text(code)));
}

/// A request that has come in.
pub fn handle_request(id: Json, op: &str, run_id: &str, request: Json, own_run: &str) -> (r:
    RequestMachine)
    ensures
        r.deep_view() == RequestView::begun(id@, op@, run_id@, request@, own_run@),
{
    let dispatch = dispatch_request(op, run_id, own_run);
    let refused = refusal(dispatch, id.clone());
    let stage = match refused {
        Some(_) => RequestStage::Over,
        None => if dispatch.is_mutation() {
            RequestStage::Outbox
        } else {
            RequestMachine::admitted_stage(dispatch)
        },
    };
    let answer = match refused {
        Some(answer) => answer,
        None => Json::Null,
    };
    RequestMachine { id, dispatch, own_run: own_run.to_string(), request, stage, answer }
}

impl RequestMachine {
    fn admitted_stage(dispatch: Dispatch) -> (r: RequestStage)
        ensures
            forall|view: RequestView|
                view.dispatch == dispatch ==> #[trigger] view.admitted() == view.at(r),
    {
        match dispatch {
            Dispatch::Tool(_) => RequestStage::Authorize,
            Dispatch::Shutdown => RequestStage::Shutdown,
            _ => RequestStage::Handle,
        }
    }

    fn at(self, stage: RequestStage) -> (r: Self)
        ensures
            r.deep_view() == self.deep_view().at(stage),
    {
        let mut next = self;
        next.stage = stage;
        next
    }

    fn answered(self, answer: Json) -> (r: Self)
        ensures
            r.deep_view() == self.deep_view().answered(answer@),
    {
        let mut next = self;
        next.stage = RequestStage::Over;
        next.answer = answer;
        next
    }

    fn failed(self, failure: &DriverFailure) -> (r: Self)
        ensures
            r.deep_view() == self.deep_view().answered(
                failure.deep_view().response(self.deep_view().id),
            ),
    {
        let answer = failure.to_response(self.id.clone());
        self.answered(answer)
    }

    /// What is done next.
    pub fn action(&self) -> (r: RequestAction)
        ensures
            r.deep_view() == self.deep_view().action(),
    {
        match self.stage {
            RequestStage::Outbox => RequestAction::ReconcileOutbox,
            RequestStage::Manifest => RequestAction::LoadManifest,
            RequestStage::Seal => RequestAction::ReconcileSeal,
            RequestStage::Obligations => RequestAction::ReconcileObligations,
            RequestStage::Authorize => match self.dispatch {
                Dispatch::Tool(wire) => RequestAction::Authorize(wire),
                _ => RequestAction::Answer(self.answer.clone()),
            },
            RequestStage::Cursor => RequestAction::ReadAuthority,
            RequestStage::Shutdown => RequestAction::ReadAuthority,
            RequestStage::Handle => match self.dispatch {
                Dispatch::Tool(wire) => RequestAction::RunTool(wire),
                Dispatch::ParticipantBind => RequestAction::BindParticipant,
                Dispatch::ParticipantStop => RequestAction::StopParticipant,
                Dispatch::ParticipantExited => RequestAction::ParticipantExited,
                _ => RequestAction::Answer(self.answer.clone()),
            },
            RequestStage::Over => RequestAction::Answer(self.answer.clone()),
        }
    }

    /// The request after an event. One that does not fit changes nothing.
    pub fn advance(self, event: RequestEvent) -> (r: Self)
        ensures
            r.deep_view() == self.deep_view().advanced(event.deep_view()),
    {
        match (self.stage, event) {
            (RequestStage::Outbox, RequestEvent::Done) => self.at(RequestStage::Manifest),
            (RequestStage::Outbox, RequestEvent::Failed(failure)) => {
                let told = publication_blocked(false, failure.message.as_str());
                self.failed(&told)
            },
            (RequestStage::Manifest, RequestEvent::Done) => self.at(RequestStage::Seal),
            (RequestStage::Manifest, RequestEvent::Failed(failure)) => self.failed(&failure),
            (RequestStage::Seal, RequestEvent::Done) => self.at(RequestStage::Obligations),
            (RequestStage::Seal, RequestEvent::Failed(failure)) => self.failed(&failure),
            (RequestStage::Obligations, RequestEvent::Done) => {
                let stage = RequestMachine::admitted_stage(self.dispatch);
                self.at(stage)
            },
            (RequestStage::Obligations, RequestEvent::Failed(failure)) => {
                let told = publication_blocked(true, failure.message.as_str());
                self.failed(&told)
            },
            (RequestStage::Authorize, RequestEvent::Authorized(result)) => match result {
                Err(failure) => self.failed(&failure),
                Ok(_) => {
                    let cursor = match self.dispatch {
                        Dispatch::Tool(wire) => match wire.cursor_policy() {
                            CursorPolicy::ExpectedAuthority => true,
                            _ => false,
                        },
                        _ => false,
                    };
                    if cursor {
                        self.at(RequestStage::Cursor)
                    } else {
                        self.at(RequestStage::Handle)
                    }
                },
            },
            (RequestStage::Cursor, RequestEvent::Stands(authority)) => {
                match check_expected_authority(&self.request, &authority) {
                    Err(failure) => self.failed(&failure),
                    Ok(_) => self.at(RequestStage::Handle),
                }
            },
            (RequestStage::Shutdown, RequestEvent::Stands(authority)) => {
                let report = with_authority_fields(
                    shutdown_response(self.own_run.as_str()),
                    &authority,
                );
                let answer = with_id(self.id.clone(), report);
                self.answered(answer)
            },
            (RequestStage::Handle, RequestEvent::Handled(result)) => match result {
                Err(failure) => self.failed(&failure),
                Ok(response) => {
                    let answer = with_id(self.id.clone(), response);
                    self.answered(answer)
                },
            },
            _ => self,
        }
    }

    /// The request after it was settled who asks. The file is that of the binding that the
    /// request is about.
    pub fn authorize(
        self,
        state: &ReplayedDriverEvents,
        file: &Option<ParticipantBindingFile>,
        runs_root: &str,
    ) -> (r: Self)
        ensures
            r.deep_view() == (match (self.deep_view().stage, self.deep_view().dispatch) {
                (RequestStage::Authorize, Dispatch::Tool(wire)) => self.deep_view().advanced(
                    RequestEventView::Authorized(
                        tool_decision(
                            state.deep_view(),
                            wire,
                            self.deep_view().request,
                            file.deep_view(),
                            runs_root@,
                        ),
                    ),
                ),
                _ => self.deep_view(),
            }),
    {
        match (self.stage, self.dispatch) {
            (RequestStage::Authorize, Dispatch::Tool(wire)) => {
                let result = state.authorize_participant_tool(
                    wire,
                    &self.request,
                    file,
                    runs_root,
                );
                self.advance(RequestEvent::Authorized(result))
            },
            _ => self,
        }
    }
}

} // verus!
