use humanize_plugin::driver::binding::{
    bind_run, BindAction, BindEvent, BindMachine, BindPlan, KnownRun,
};
use humanize_plugin::driver::delivery::{
    start_event, start_input_delivery_with_message, PlannedEvent, DELIVERY_ROLE_AGENT_LAUNCH,
};
use humanize_plugin::driver::failure::DriverFailure;
use humanize_plugin::driver::lifecycle::Activation;
use humanize_plugin::driver::loading::{
    load_revisions, revision_named_by, RevisionFault, RevisionFile,
};
use humanize_plugin::driver::ownership::{pane_allocated_event, tmux_binding_event};
use humanize_plugin::driver::participant::{ExitFault, ParticipantExit};
use humanize_plugin::driver::records::{DriverTmuxActuationConfig, StoredPane};
use humanize_plugin::driver::recovery::{
    authorize_revisions, load_driver_state, next_load_action, LoadAction, LoadFault,
};
use humanize_plugin::driver::replay::{
    replay_driver_events, DriverDurableEvent, ReplayFault,
};
use humanize_plugin::driver::revision::{FlowReview, ReviewStatus, StoredFlowRevision};
use humanize_plugin::driver::wire::{ActivationStatus, RunMode, RunStatus};
use humanize_plugin::flow::{
    flow_check, flow_lock, flow_suggest, FlowCheckMode, FlowDraft, FlowLock, FlowNode,
    FlowResource, FlowSuggestInput, ResourceKind,
};
use humanize_plugin::json::{compact, parse_json, Json};

fn text(value: &str) -> String {
    value.to_string()
}

fn object(json: &str) -> Json {
    parse_json(json).unwrap()
}

fn lock() -> FlowLock {
    let readme =
        FlowResource { id: text("README.md"), kind: ResourceKind::Readme, source: text("a") };
    let nodes = vec![
        FlowNode { id: text("one"), ..FlowNode::default() },
        FlowNode { id: text("two"), ..FlowNode::default() },
    ];
    let draft = FlowDraft { nodes, resources: vec![readme], ..FlowDraft::default() };
    flow_lock(&draft, FlowCheckMode::Core).unwrap()
}

fn review(status: ReviewStatus) -> Result<FlowReview, String> {
    Ok(FlowReview {
        flow_lock_id: text(lock().id()),
        content_hash: text(lock().content_hash()),
        status,
    })
}

const REQUEST: &str = "{\"review_id\":\"r1\",\"flow_lock\":{},\"activation_limit\":9}";

fn plan(status: ReviewStatus) -> Result<BindPlan, DriverFailure> {
    bind_run("run-1", &object(REQUEST), None, None, Ok(lock()), review(status))
}

fn known() -> KnownRun {
    let activation = |id: &str, status: ActivationStatus| Activation {
        activation_id: text(id),
        node_id: text("n"),
        run_id: text("run-1"),
        status,
    };
    KnownRun {
        flow_lock_id: Some(text(lock().id())),
        content_hash: Some(text(lock().content_hash())),
        run_mode: Some(RunMode::Finite),
        initial_activation_limit: Some(9),
        stop_attempt_limit: Some(3),
        activations: vec![
            activation("one", ActivationStatus::Running),
            activation("two", ActivationStatus::Completed),
        ],
    }
}

#[test]
fn new_runs_need_an_allowed_lock() {
    let made = plan(ReviewStatus::Approved).unwrap();
    assert!(made.fresh);
    assert_eq!(made.activation_ids, vec![text("one"), text("two")]);
    assert_eq!(made.activation_limit, 9);
    assert_eq!(plan(ReviewStatus::Pending).err().unwrap().code, "review_pending");
    let bare = bind_run("run-1", &object("{}"), None, None, Ok(lock()), review(ReviewStatus::Approved));
    assert_eq!(bare.err().unwrap().message, "flow_lock is required");
    let wild = object("{\"run_mode\":\"wild\"}");
    assert!(bind_run("run-1", &wild, None, None, Ok(lock()), Err(text("x"))).is_err());
}

#[test]
fn bound_runs_stay_as_they_are() {
    let held = || Some(StoredFlowRevision::stored(lock(), text("r1")));
    let ask = |request: &str, known: &KnownRun, held: Option<StoredFlowRevision>| {
        bind_run("run-1", &object(request), Some(known), held, Err(text("x")), Err(text("x")))
    };
    let again = ask("{\"activation_limit\":9}", &known(), held()).unwrap();
    assert!(!again.fresh);
    assert!(again.nodes.is_empty());
    assert_eq!(again.activation_ids, vec![text("one"), text("two")]);
    assert_eq!(again.pane_ids, vec![text("one")]);
    assert_eq!(
        ask("{\"activation_limit\":8}", &known(), held()).err().unwrap().code,
        "run_binding_conflict"
    );
    assert_eq!(
        ask("{\"activation_limit\":9}", &known(), None).err().unwrap().message,
        "existing run immutable flow lock package is unavailable"
    );
    let mut lost = known();
    lost.content_hash = None;
    assert_eq!(
        ask("{\"activation_limit\":9}", &lost, held()).err().unwrap().message,
        "existing run has no immutable content hash binding"
    );
}

fn play(mut machine: BindMachine, fail_at: Option<BindAction>) -> (Vec<BindAction>, BindMachine) {
    let mut seen = Vec::new();
    loop {
        let action = machine.action();
        seen.push(action);
        if Some(action) == fail_at {
            machine.advance(BindEvent::Failed(DriverFailure::new("io_error", "disk full")));
            continue;
        }
        match action {
            BindAction::Finish => return (seen, machine),
            BindAction::Tick => machine.advance(BindEvent::Ticked(object("[\"routes\"]"))),
            BindAction::BindPanes => machine.advance(BindEvent::Panes(object("{\"enabled\":true}"))),
            BindAction::ReadRun => {
                machine.advance(BindEvent::Stands(RunStatus::Running, Some(9), 2))
            }
            _ => machine.advance(BindEvent::Done),
        }
    }
}

#[test]
fn new_runs_are_started_step_by_step() {
    let (seen, machine) = play(BindMachine::new(plan(ReviewStatus::Approved).unwrap()), None);
    assert_eq!(
        seen,
        vec![
            BindAction::WriteRevision,
            BindAction::StartRun,
            BindAction::ApplyLock,
            BindAction::SetRunning,
            BindAction::ActivateNode(0),
            BindAction::ActivateNode(1),
            BindAction::Tick,
            BindAction::Commit,
            BindAction::PublishRevision,
            BindAction::PublishAsset,
            BindAction::BindPanes,
            BindAction::ReadRun,
            BindAction::Finish,
        ]
    );
    let told = machine.into_outcome().unwrap().unwrap();
    assert_eq!(told.text_at("run_status"), Some("running"));
    assert_eq!(told.unsigned_at("activations_used"), Some(2));
    assert_eq!(compact(told.get("pipeline").unwrap()), "[\"routes\"]");
}

#[test]
fn runs_that_cannot_be_kept_get_no_panes() {
    let machine = BindMachine::new(plan(ReviewStatus::Approved).unwrap());
    let (seen, machine) = play(machine, Some(BindAction::Commit));
    assert!(!seen.contains(&BindAction::BindPanes));
    assert_eq!(machine.into_outcome().unwrap().err().unwrap().message, "disk full");
}

#[test]
fn bound_runs_are_not_started_again() {
    let request = object("{\"activation_limit\":9}");
    let held = Some(StoredFlowRevision::stored(lock(), text("r1")));
    let known = known();
    let plan =
        bind_run("run-1", &request, Some(&known), held, Err(text("x")), Err(text("x"))).unwrap();
    let (seen, _) = play(BindMachine::new(plan), None);
    assert_eq!(
        seen,
        vec![
            BindAction::PublishRevision,
            BindAction::PublishAsset,
            BindAction::BindPanes,
            BindAction::ReadRun,
            BindAction::Finish,
        ]
    );
}

#[test]
fn drivers_bring_everything_in_order_before_they_serve() {
    let mut action = LoadAction::ReconcileOutbox;
    let mut seen = vec![action];
    while action != LoadAction::Serve {
        action = next_load_action(action);
        seen.push(action);
    }
    assert_eq!(seen.len(), 12);
    assert_eq!(next_load_action(LoadAction::Serve), LoadAction::Serve);
    let at = |wanted: LoadAction| seen.iter().position(|found| *found == wanted).unwrap();
    assert!(at(LoadAction::ReconcileCleanups) < at(LoadAction::ReconcilePanes));
    assert!(at(LoadAction::SuspendRun) < at(LoadAction::RegisterOperatorPane));
}

#[test]
fn every_lock_of_a_run_is_allowed() {
    let item = |status: ReviewStatus| {
        (StoredFlowRevision::stored(lock(), text("r1")), review(status))
    };
    assert!(authorize_revisions(&vec![item(ReviewStatus::Approved)]).is_ok());
    let refused =
        authorize_revisions(&vec![item(ReviewStatus::Approved), item(ReviewStatus::Rejected)]);
    assert_eq!(refused.err().unwrap().code, "review_rejected");
}

fn event(seq: u64, planned: PlannedEvent) -> DriverDurableEvent {
    let line =
        DriverDurableEvent { seq, at_ms: 1, kind: text(planned.kind), payload: planned.payload }
            .to_line();
    DriverDurableEvent::from_json(&object(&line)).unwrap()
}

fn pane() -> StoredPane {
    StoredPane {
        pane_id: text("%2"),
        session_id: text("flow"),
        window_id: text("@1"),
        window_name: text("main"),
        allocation_generation: 1,
    }
}

#[test]
fn loading_joins_events_and_ends() {
    let damaged =
        DriverDurableEvent { seq: 1, at_ms: 1, kind: text("pipe_capture_intent"), payload: Json::Null };
    assert_eq!(
        load_driver_state("/runs/r", &vec![damaged], &vec![RevisionFile::Missing], &vec![]).err(),
        Some(LoadFault::Events(RevisionFault::Event(ReplayFault::Malformed)))
    );
    let exit =
        ParticipantExit { activation_id: text("a"), allocation_generation: 1, exit_status: 0 };
    let fault = load_driver_state("/runs/r", &vec![], &vec![], &vec![exit]).err().unwrap();
    assert_eq!(fault, LoadFault::Exits(ExitFault::NotStarted));
    assert_eq!(fault.message(), ExitFault::NotStarted.message());
    assert!(load_driver_state("/runs/r", &vec![], &vec![], &vec![]).is_ok());
}

fn revision_event(seq: u64, file: &str) -> DriverDurableEvent {
    let payload =
        parse_json(&format!("{{\"lock_id\":\"lock-1\",\"revision_file\":\"{file}\"}}")).unwrap();
    DriverDurableEvent { seq, at_ms: 1, kind: text("flow_revision_available"), payload }
}

fn revision() -> RevisionFile {
    let lock = flow_lock(&FlowDraft::default(), FlowCheckMode::Core).unwrap();
    RevisionFile::Read(StoredFlowRevision::stored(lock, text("review-1")))
}

#[test]
fn every_file_that_an_event_names_has_to_hold_a_lock() {
    let events = vec![revision_event(1, "a.json"), revision_event(2, "b.json")];
    let named = revision_named_by(&events[0]).unwrap();
    assert_eq!(named, (text("lock-1"), text("a.json")));
    let driver = load_revisions("/runs/r", &events, &vec![revision(), revision()]).unwrap();
    assert_eq!(driver.locks.get(&text("lock-1")), Some(&1));
    let gone = load_revisions("/runs/r", &events, &vec![RevisionFile::Missing, revision()]);
    let fault = gone.err().unwrap();
    assert_eq!(fault, RevisionFault::File(text("flow revision file /runs/r/a.json is missing")));
    assert_eq!(fault.message(), "flow revision file /runs/r/a.json is missing");
    let files = vec![revision(), RevisionFile::Malformed(text("no lock"))];
    let torn = load_revisions("/runs/r", &events, &files);
    assert_eq!(torn.err().unwrap().message(), "no lock");
    let outside = vec![revision_event(1, "../a.json")];
    let fault = load_revisions("/runs/r", &outside, &vec![revision()]).err().unwrap();
    assert_eq!(fault, RevisionFault::Event(ReplayFault::OutsideRoot));
}

#[test]
fn stored_records_may_be_lists() {
    let listed = parse_json("[\"%2\",\"flow\",\"@1\",\"main\"]").unwrap();
    let pane = StoredPane::from_json(&listed).unwrap();
    assert_eq!((pane.pane_id.as_str(), pane.allocation_generation), ("%2", 0));
    let whole = parse_json("[\"%2\",\"flow\",\"@1\",\"main\",7]").unwrap();
    assert_eq!(StoredPane::from_json(&whole).unwrap().allocation_generation, 7);
    assert!(StoredPane::from_json(&parse_json("[\"%2\",\"flow\",\"@1\"]").unwrap()).is_none());
    let long = parse_json("[\"%2\",\"flow\",\"@1\",\"main\",7,8]").unwrap();
    assert!(StoredPane::from_json(&long).is_none());
    let event = DriverDurableEvent::from_json(&parse_json("[3,4,\"x\",null]").unwrap()).unwrap();
    assert_eq!((event.seq, event.at_ms, event.kind.as_str()), (3, 4, "x"));
    let settings = DriverTmuxActuationConfig::from_json(&parse_json("[]").unwrap()).unwrap();
    assert_eq!(settings.prompt_submit_key_count, 1);
    assert_eq!(settings.agent_ready_timeout_ms, 30_000);
}

#[test]
fn doubt_survives_a_restart() {
    let settings = DriverTmuxActuationConfig {
        prompt_submit_key_count: 1,
        agent_ready_pattern: None,
        agent_ready_timeout_ms: 1,
    };
    let sent = start_input_delivery_with_message(
        Some(&pane()),
        "act-1",
        "%2",
        DELIVERY_ROLE_AGENT_LAUNCH,
        None,
        "agent",
        3,
    )
    .unwrap();
    let begun = event(3, start_event(&sent));
    let mut events = vec![
        event(1, tmux_binding_event("flow", "main", "@1", "agent", &settings)),
        event(2, pane_allocated_event("act-1", "op-1", &pane())),
        begun,
    ];
    let mut live = replay_driver_events(&events).unwrap();
    let arrived = live
        .deliveries
        .finish_event("act-1", DELIVERY_ROLE_AGENT_LAUNCH, None, 1, object("{\"pane_id\":\"%2\"}"))
        .unwrap();
    live.deliveries.finish_input_delivery("act-1", DELIVERY_ROLE_AGENT_LAUNCH, None, 1);
    events.push(event(4, arrived));
    let ids = vec![text("act-1")];
    let (released, barriers) = live.plan_release(&ids).unwrap();
    assert_eq!(barriers.len(), 1);
    live.release_tmux_panes(&ids, &barriers, 5);
    events.push(event(5, released));
    let again = replay_driver_events(&events).unwrap();
    assert_eq!(live.deliveries.ambiguous.len(), 1);
    assert_eq!(again.deliveries.ambiguous.len(), 1);
    assert_eq!(
        compact(&again.deliveries.ambiguous.value_at(0).to_json()),
        compact(&live.deliveries.ambiguous.value_at(0).to_json())
    );
    assert_eq!(again.deliveries.submitted.len(), 0);
}

#[test]
fn suggested_flows_have_no_findings() {
    let input = |nodes: Vec<String>| FlowSuggestInput {
        goal: text("Ship it"),
        readme: text("What this is."),
        nodes,
        artifact: Some(text("Final Report!")),
    };
    for nodes in [vec![], vec![text("Plan A"), text("plan a"), text("..")]] {
        let draft = flow_suggest(input(nodes)).unwrap();
        for mode in [FlowCheckMode::Core, FlowCheckMode::Strict] {
            assert!(flow_check(&draft, mode).diagnostics.is_empty());
            assert!(flow_lock(&draft, mode).is_ok());
        }
    }
}
