use humanize_plugin::driver::actuation::{
    ActuationAction, ActuationEvent, ActuationMachine, ActuationOutcome, DriverActuation,
};
use humanize_plugin::driver::associations::{
    AssociationMachine, ParticipantRecord, ParticipantRecordEvent, SessionMark, SessionRelation,
};
use humanize_plugin::driver::context::{
    artifact_versions_json, artifacts_json, board_json, board_versions_json, run_context,
    ActivationEntry, ApplicationEntry, ArtifactEntry, BoardEntry, BoardVersion, LockReview,
    RunFacts, SlotEntry, StopAttempts,
};
use humanize_plugin::driver::delivery::{
    start_input_delivery_with_message, PlannedEvent, DELIVERY_ROLE_NODE_PROMPT,
};
use humanize_plugin::driver::failure::DriverFailure;
use humanize_plugin::driver::handling::{
    handle_request, refusal, RequestAction, RequestEvent, RequestMachine,
};
use humanize_plugin::driver::lifecycle::Activation;
use humanize_plugin::driver::ownership::{pane_allocated_event, tmux_binding_event};
use humanize_plugin::driver::participant::new_participant_binding;
use humanize_plugin::driver::protocol::DriverWire;
use humanize_plugin::driver::records::{
    DriverTmuxActuationConfig, ParticipantBinding, StoredPane,
};
use humanize_plugin::driver::replay::{
    replay_driver_events, DriverDurableEvent, ReplayedDriverEvents,
};
use humanize_plugin::driver::request::{Authority, Dispatch};
use humanize_plugin::driver::tasks::PlannedActuation;
use humanize_plugin::driver::wire::{ActivationStatus, EffectEntry, FlowLockMode, RunStatus};
use humanize_plugin::flow::export::order_fields;
use humanize_plugin::flow::{FlowDraft, FlowNode, NodeAction, NodeDriver};
use humanize_plugin::json::{compact, parse_json, Json};

fn text(value: &str) -> String {
    value.to_string()
}

fn object(json: &str) -> Json {
    parse_json(json).unwrap()
}

fn begin(op: &str, run_id: &str) -> RequestMachine {
    handle_request(Json::text("q"), op, run_id, object("{}"), "run-1")
}

fn answer(machine: &RequestMachine) -> Json {
    match machine.action() {
        RequestAction::Answer(answer) => answer,
        other => panic!("an answer was due, not {other:?}"),
    }
}

fn code(answer: &Json) -> String {
    text(answer.get("error").unwrap().text_at("code").unwrap())
}

fn message(answer: &Json) -> String {
    text(answer.get("error").unwrap().text_at("message").unwrap())
}

#[test]
fn requests_about_nothing_known_are_refused() {
    let wrong = refusal(Dispatch::WrongRun, Json::text("q")).unwrap();
    assert_eq!(
        compact(&wrong),
        "{\"id\":\"q\",\"ok\":false,\"error\":{\"code\":\"wrong_run\",\"message\":\"driver owns a different run\"}}"
    );
    let unknown = refusal(Dispatch::Unknown, Json::Null).unwrap();
    assert_eq!(code(&unknown), "unknown_op");
    assert_eq!(message(&unknown), "unknown driver operation");
    assert!(refusal(Dispatch::Shutdown, Json::Null).is_none());
    assert_eq!(code(&answer(&begin("status", "run-2"))), "wrong_run");
    assert_eq!(code(&answer(&begin("dance", "run-1"))), "unknown_op");
    for wire in DriverWire::ALL {
        assert!(!matches!(begin(wire.as_str(), "run-1").action(), RequestAction::Answer(_)));
    }
}

#[test]
fn changes_wait_for_what_is_published() {
    let mut machine = begin("pause", "run-1");
    assert!(matches!(machine.action(), RequestAction::ReconcileOutbox));
    machine = machine.advance(RequestEvent::Handled(Ok(Json::Null)));
    assert!(matches!(machine.action(), RequestAction::ReconcileOutbox));
    machine = machine.advance(RequestEvent::Done);
    assert!(matches!(machine.action(), RequestAction::LoadManifest));
    machine = machine.advance(RequestEvent::Done);
    assert!(matches!(machine.action(), RequestAction::ReconcileSeal));
    machine = machine.advance(RequestEvent::Done);
    assert!(matches!(machine.action(), RequestAction::ReconcileObligations));
    machine = machine.advance(RequestEvent::Done);
    assert!(matches!(machine.action(), RequestAction::Authorize(DriverWire::Pause)));
    machine = machine.authorize(&ReplayedDriverEvents::new(), &None, "/runs");
    assert!(matches!(machine.action(), RequestAction::ReadAuthority));
    let now = Authority { event_cursor: 4, driver_event_count: 3 };
    machine = machine.advance(RequestEvent::Stands(now));
    assert!(matches!(machine.action(), RequestAction::RunTool(DriverWire::Pause)));
    machine = machine.advance(RequestEvent::Handled(Ok(object("{\"ok\":true}"))));
    assert_eq!(compact(&answer(&machine)), "{\"ok\":true,\"id\":\"q\"}");
}

#[test]
fn failures_before_a_change_are_told() {
    let failed = || RequestEvent::Failed(DriverFailure::told("io", text("disk full")));
    let first = begin("participant_bind", "run-1").advance(failed());
    assert_eq!(code(&answer(&first)), "publication_blocked");
    assert_eq!(
        message(&answer(&first)),
        "pending public publication must reconcile before mutation: disk full"
    );
    let second = begin("participant_bind", "run-1").advance(RequestEvent::Done).advance(failed());
    assert_eq!(code(&answer(&second)), "io");
    let mut third = begin("participant_bind", "run-1");
    for _ in 0..3 {
        third = third.advance(RequestEvent::Done);
    }
    assert_eq!(
        message(&answer(&third.advance(failed()))),
        "private publication obligations must reconcile before mutation: disk full"
    );
    let mut bind = begin("participant_bind", "run-1");
    for _ in 0..4 {
        bind = bind.advance(RequestEvent::Done);
    }
    assert!(matches!(bind.action(), RequestAction::BindParticipant));
}

#[test]
fn stale_changes_are_refused_and_reads_are_not() {
    let request = object("{\"expected_event_cursor\":3}");
    let now = Authority { event_cursor: 4, driver_event_count: 0 };
    let mut stale = handle_request(Json::Null, "pause", "run-1", request, "run-1");
    for _ in 0..4 {
        stale = stale.advance(RequestEvent::Done);
    }
    stale = stale.authorize(&ReplayedDriverEvents::new(), &None, "/runs");
    assert_eq!(code(&answer(&stale.advance(RequestEvent::Stands(now)))), "conflict");
    let read = begin("status", "run-1").authorize(&ReplayedDriverEvents::new(), &None, "/runs");
    assert!(matches!(read.action(), RequestAction::RunTool(DriverWire::Status)));
    let half = object("{\"participant_handle\":\"h\"}");
    let half = handle_request(Json::Null, "status", "run-1", half, "run-1");
    let refused = half.authorize(&ReplayedDriverEvents::new(), &None, "/runs");
    assert_eq!(code(&answer(&refused)), "participant_unauthorized");
}

#[test]
fn drivers_say_that_they_will_end() {
    let machine = begin("shutdown", "run-1");
    assert!(matches!(machine.action(), RequestAction::ReadAuthority));
    let now = Authority { event_cursor: 4, driver_event_count: 3 };
    let told = answer(&machine.advance(RequestEvent::Stands(now)));
    assert_eq!(told.text_at("shutdown"), Some("requested"));
    assert_eq!(told.text_at("run_id"), Some("run-1"));
    assert_eq!(told.unsigned_at("context_generation"), Some(7));
    assert_eq!(told.text_at("id"), Some("q"));
}

fn pane() -> StoredPane {
    StoredPane {
        pane_id: text("%2"),
        session_id: text("flow"),
        window_id: text("@1"),
        window_name: text("main"),
        allocation_generation: 1,
    }
}

fn bound(activation_id: &str, exit_status: Option<i32>) -> ParticipantBinding {
    let mut binding = new_participant_binding("run-1", activation_id, &pane(), "n1", "h1", "c1");
    binding.native_session_id = Some(text("s1"));
    binding.platform = Some(text("codex"));
    binding.source = Some(text("codex_session_start"));
    binding.exit_status = exit_status;
    binding
}

fn relation(machine: &AssociationMachine) -> SessionRelation {
    match machine.due() {
        ParticipantRecord::Associate { mark, .. } => mark.relation,
        other => panic!("a record was due, not {other:?}"),
    }
}

#[test]
fn agents_are_told_record_by_record() {
    let bindings = vec![bound("act-1", Some(3)), bound("act-2", None)];
    let mut machine = AssociationMachine::new(bindings, text("run-1"), vec![]);
    match machine.due() {
        ParticipantRecord::Ready { place, activation_id, source, allocation_generation, .. } => {
            assert_eq!((place, allocation_generation), (0, 1));
            assert_eq!(activation_id, "act-1");
            assert_eq!(source, "codex_session_start");
        }
        other => panic!("readiness was due, not {other:?}"),
    }
    machine = machine.advance(ParticipantRecordEvent::Projected(true));
    assert_eq!(relation(&machine), SessionRelation::Orchestrates);
    machine = machine.advance(ParticipantRecordEvent::Recorded);
    assert_eq!(relation(&machine), SessionRelation::Executes);
    machine = machine.advance(ParticipantRecordEvent::Recorded);
    match machine.due() {
        ParticipantRecord::Associate { mark, activation, platform, exit_status } => {
            assert_eq!(mark.relation, SessionRelation::Ended);
            assert_eq!((mark.session.as_str(), mark.subject.as_str()), ("s1", "act-1"));
            assert_eq!(activation.as_deref(), Some("act-1"));
            assert_eq!(platform, "codex");
            assert_eq!(exit_status, Some(3));
        }
        other => panic!("the end was due, not {other:?}"),
    }
    machine = machine.advance(ParticipantRecordEvent::Recorded);
    assert!(matches!(machine.due(), ParticipantRecord::Ready { place: 1, .. }));
    machine = machine.advance(ParticipantRecordEvent::Projected(true));
    assert_eq!(relation(&machine), SessionRelation::Executes);
    machine = machine.advance(ParticipantRecordEvent::Recorded);
    assert!(matches!(machine.due(), ParticipantRecord::Finish(None)));
}

#[test]
fn agents_that_cannot_be_shown_are_not_told() {
    let machine = AssociationMachine::new(vec![bound("act-1", None)], text("run-1"), vec![]);
    match machine.advance(ParticipantRecordEvent::Projected(false)).due() {
        ParticipantRecord::Finish(Some(failure)) => {
            assert_eq!(failure.code, "publication_blocked");
            assert_eq!(failure.message, "native participant binding could not be projected");
        }
        other => panic!("a failure was due, not {other:?}"),
    }
    let mut nameless = bound("act-1", None);
    nameless.platform = None;
    let machine = AssociationMachine::new(vec![nameless], text("run-1"), vec![]);
    match machine.due() {
        ParticipantRecord::Finish(Some(failure)) => {
            assert_eq!(failure.message, "bound participant is missing its native platform");
        }
        other => panic!("a failure was due, not {other:?}"),
    }
    let told = vec![SessionMark {
        session: text("s1"),
        relation: SessionRelation::Executes,
        subject: text("act-1"),
    }];
    let machine = AssociationMachine::new(vec![bound("act-1", None)], text("run-1"), told);
    assert!(matches!(machine.due(), ParticipantRecord::Finish(None)));
}

fn event(seq: u64, planned: PlannedEvent) -> DriverDurableEvent {
    DriverDurableEvent { seq, at_ms: 10, kind: text(planned.kind), payload: planned.payload }
}

fn working_state() -> ReplayedDriverEvents {
    let settings = DriverTmuxActuationConfig {
        prompt_submit_key_count: 1,
        agent_ready_pattern: None,
        agent_ready_timeout_ms: 5,
    };
    replay_driver_events(&vec![
        event(1, tmux_binding_event("flow", "main", "@1", "agent", &settings)),
        event(2, pane_allocated_event("act-1", "op-1", &pane())),
    ])
    .unwrap()
}

fn draft(driver: NodeDriver) -> FlowDraft {
    let action = NodeAction {
        driver,
        prompt_ref: None,
        resource_refs: Vec::new(),
        reads: Vec::new(),
        writes: Vec::new(),
        verdict_artifact: None,
    };
    let node = FlowNode { id: text("root"), action: Some(action), ..FlowNode::default() };
    FlowDraft { nodes: vec![node], ..FlowDraft::default() }
}

fn activation(id: &str, status: ActivationStatus) -> Option<Activation> {
    Some(Activation {
        activation_id: text(id),
        node_id: text("root"),
        run_id: text("run-1"),
        status,
    })
}

#[test]
fn activations_are_planned_by_what_the_driver_knows() {
    let flow = draft(NodeDriver::Agent);
    let mut state = working_state();
    let running = activation("act-1", ActivationStatus::Running);
    let id = text("act-1");
    match state.plan_actuation(Some(&flow), &running, &id) {
        PlannedActuation::Go(task) => {
            assert_eq!(task.pane.pane_id, "%2");
            assert_eq!(task.agent_command, "agent");
            assert!(!task.launched);
            assert!(task.launch_pending.is_none() && task.prompt_pending.is_none());
        }
        other => panic!("it was to be put to work, not {other:?}"),
    }
    assert!(matches!(state.plan_actuation(Some(&flow), &None, &id), PlannedActuation::Skip));
    assert!(matches!(state.plan_actuation(None, &running, &id), PlannedActuation::Skip));
    let blocked = activation("act-1", ActivationStatus::Blocked);
    assert!(matches!(state.plan_actuation(Some(&flow), &blocked, &id), PlannedActuation::Skip));
    let homeless = activation("act-2", ActivationStatus::Running);
    assert!(matches!(
        state.plan_actuation(Some(&flow), &homeless, &text("act-2")),
        PlannedActuation::Warn(_)
    ));
    state.deliveries.settle("act-1", 0);
    assert!(matches!(state.plan_actuation(Some(&flow), &running, &id), PlannedActuation::Go(_)));
    state.deliveries.settle("act-1", 1);
    assert!(matches!(state.plan_actuation(Some(&flow), &running, &id), PlannedActuation::Skip));
    let mut other = working_state();
    let human = draft(NodeDriver::Human);
    assert!(matches!(other.plan_actuation(Some(&human), &running, &id), PlannedActuation::Settle));
    assert!(matches!(other.plan_actuation(Some(&human), &running, &id), PlannedActuation::Skip));
}

#[test]
fn rounds_stop_at_what_is_put_to_work() {
    let flow = draft(NodeDriver::Agent);
    let mut state = working_state();
    let ids = vec![text("act-9"), text("act-2"), text("act-1"), text("act-1")];
    let activations = vec![
        None,
        activation("act-2", ActivationStatus::Running),
        activation("act-1", ActivationStatus::Running),
        activation("act-1", ActivationStatus::Completed),
    ];
    let mut told = DriverActuation::default();
    let (place, task) =
        state.next_actuation(Some(&flow), &activations, &ids, 0, &mut told).unwrap();
    assert_eq!((place, task.activation_id.as_str()), (2, "act-1"));
    assert!(told.requires_pause());
    assert!(state.next_actuation(Some(&flow), &activations, &ids, 3, &mut told).is_none());
    let warnings = told.to_json();
    assert_eq!(
        compact(&warnings),
        "{\"sent\":[],\"warnings\":[{\"activation_id\":\"act-2\",\"node_id\":\"root\",\"driver\":\"agent\",\"message\":\"tmux pane mapping is required for agent actuation\"}]}"
    );
    let mut bare = ReplayedDriverEvents::new();
    let mut nothing = DriverActuation::default();
    assert!(bare.next_actuation(Some(&flow), &activations, &ids, 0, &mut nothing).is_none());
    assert_eq!(compact(&nothing.to_json()), "{\"sent\":[],\"warnings\":[]}");
}

#[test]
fn doubtful_prompts_are_told_and_not_repeated() {
    let mut state = working_state();
    let doubtful = start_input_delivery_with_message(
        Some(&pane()),
        "act-1",
        "%2",
        DELIVERY_ROLE_NODE_PROMPT,
        None,
        "do it",
        5,
    )
    .unwrap();
    state.deliveries.begin(doubtful);
    state.deliveries.launch("act-1", 1);
    let running = activation("act-1", ActivationStatus::Running);
    let task = match state.plan_actuation(Some(&draft(NodeDriver::Agent)), &running, &text("act-1"))
    {
        PlannedActuation::Go(task) => task,
        other => panic!("it was to be put to work, not {other:?}"),
    };
    assert!(task.launched && task.launch_pending.is_none() && task.prompt_pending.is_some());
    let mut machine = ActuationMachine::new(task);
    machine.advance(ActuationEvent::Nonce(text("n1")));
    machine.advance(ActuationEvent::Participant(text("/b"), text("/f")));
    assert!(matches!(machine.action(), ActuationAction::FindInput(_, _)));
    machine.advance(ActuationEvent::Found(None));
    assert!(matches!(machine.action(), ActuationAction::Finish(ActuationOutcome::Warned(_))));
}

fn artifact(id: &str, run_id: &str, key: &str, payload: &str, at: u64) -> ArtifactEntry {
    ArtifactEntry {
        artifact_id: text(id),
        run_id: text(run_id),
        artifact_key: text(key),
        payload: text(payload),
        event_sequence: at,
    }
}

fn slot(run_id: &str, key: &str, artifact_id: &str) -> SlotEntry {
    SlotEntry { run_id: text(run_id), key: text(key), artifact_id: text(artifact_id) }
}

#[test]
fn other_runs_do_not_show() {
    let records = vec![
        artifact("a1", "run-1", "plan", "1", 3),
        artifact("a2", "run-2", "plan", "2", 4),
        artifact("a3", "run-1", "plan", "not json", 9),
    ];
    assert_eq!(compact(&artifacts_json(&records, "run-1")), "{\"plan\":\"not json\"}");
    let slots = vec![
        slot("run-1", "plan", "a3"),
        slot("run-2", "plan", "a2"),
        slot("run-1", "gone", "a9"),
        slot("run-1", "draft", "a1"),
    ];
    assert_eq!(
        compact(&artifact_versions_json(&slots, &records, "run-1")),
        "{\"plan\":9,\"draft\":3}"
    );
    let versions = vec![
        BoardVersion { run_id: text("run-1"), key: text("k"), version: 5 },
        BoardVersion { run_id: text("run-2"), key: text("l"), version: 6 },
    ];
    assert_eq!(compact(&board_versions_json(&versions, "run-1")), "{\"k\":5}");
    let boards = vec![BoardEntry { run_id: text("run-2"), board: object("{\"l\":\"x\"}") }];
    assert_eq!(compact(&board_json(&boards, "run-2")), "{\"l\":\"x\"}");
    assert_eq!(compact(&board_json(&boards, "run-1")), "{}");
}

#[test]
fn runs_are_known_by_their_facts() {
    let entry = |run_id: &str, id: &str| ActivationEntry {
        run_id: text(run_id),
        activation_id: text(id),
        node_id: text("root"),
        stable_key: Json::Null,
        activation_generation: 2,
        trigger: Json::text("start"),
        status: ActivationStatus::Running,
        context: vec![(text("n"), text("7"))],
    };
    let application = |run_id: &str, id: &str, at: u64| ApplicationEntry {
        run_id: text(run_id),
        application_id: text(id),
        lock_id: text("lock-1"),
        content_hash: text("h"),
        mode: FlowLockMode::FutureActivations,
        event_sequence: at,
    };
    let facts = RunFacts {
        run_id: text("run-1"),
        status: RunStatus::Running,
        run_status_reason: None,
        run_mode: None,
        initial_activation_limit: None,
        activation_limit: Some(8),
        stop_attempt_limit: Some(3),
        activations_used: 1,
        authority: Authority { event_cursor: 9, driver_event_count: 2 },
        activations: vec![entry("run-1", "act-1"), entry("run-2", "act-9")],
        attempts: vec![StopAttempts {
            run_id: text("run-1"),
            activation_id: text("act-1"),
            attempts: 2,
        }],
        artifacts: vec![artifact("a1", "run-1", "plan", "1", 3)],
        slots: vec![slot("run-1", "plan", "a1")],
        boards: vec![],
        board_versions: vec![],
        effects: vec![EffectEntry {
            run_id: text("run-1"),
            activation_id: text("act-1"),
            effect_key: text("e"),
            payload: text("true"),
        }],
        applications: vec![
            application("run-1", "late", 7),
            application("run-2", "other", 1),
            application("run-1", "early", 4),
        ],
        reviews: vec![LockReview { lock_id: text("lock-1"), review_id: text("review-1") }],
        run_assets: object("{\"activations\":{\"act-1\":{\"readiness_nonce\":\"n\",\"x\":1}}}"),
    };
    let known = order_fields(&run_context(&ReplayedDriverEvents::new(), facts));
    let shown = known.get("activations").unwrap();
    assert!(shown.get("act-9").is_none());
    let own = shown.get("act-1").unwrap();
    assert_eq!(own.unsigned_at("stop_attempts"), Some(2));
    assert_eq!(own.get("context").unwrap().unsigned_at("n"), Some(7));
    assert!(matches!(own.get("participant"), Some(Json::Null)));
    assert_eq!(known.get("artifact_versions").unwrap().unsigned_at("plan"), Some(3));
    assert_eq!(compact(known.get("effects").unwrap()), "{\"act-1/e\":true}");
    assert_eq!(known.unsigned_at("context_generation"), Some(11));
    assert_eq!(compact(known.get("ambiguous_deliveries").unwrap()), "[]");
    assert_eq!(
        compact(known.get("run_assets").unwrap()),
        "{\"activations\":{\"act-1\":{\"x\":1}}}"
    );
    let revisions = compact(known.get("flow_revisions").unwrap());
    assert!(revisions.starts_with("[{\"content_hash\":\"h\",\"event_sequence\":4"));
    assert!(revisions.contains("\"review\":\"review-1\"") && !revisions.contains("other"));
}
