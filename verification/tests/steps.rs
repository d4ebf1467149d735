use std::cell::RefCell;
use std::rc::Rc;

use humanize_plugin::adapters::tmux::{
    CommandOutput, CommandRunner, PipeSinkIdentity, TmuxAdapter, TmuxError, TmuxPane,
    TmuxPipeCaptureDescriptor, TmuxWindow,
};
use humanize_plugin::driver::actuation::DriverActuation;
use humanize_plugin::driver::allocation::{
    stale_tmux_panes, AllocationAction, AllocationEvent, AllocationMachine, PanesStep,
};
use humanize_plugin::driver::capture::{CaptureAction, CaptureEvent, CaptureMachine};
use humanize_plugin::driver::cleanup::ActivationAsset;
use humanize_plugin::driver::enrolment::{EnrolAction, EnrolEvent, EnrolMachine, EnrolPlan};
use humanize_plugin::driver::failure::DriverFailure;
use humanize_plugin::driver::mutation::{
    plan_mutation, MutationAction, MutationEvent, MutationMachine, MutationPlan, PanesEnd,
    SettleAction, SettleEvent, SettleMachine,
};
use humanize_plugin::driver::operation::Control;
use humanize_plugin::driver::ownership::DriverTmuxConfig;
use humanize_plugin::driver::participant::participant_credential_hash;
use humanize_plugin::driver::reads::{
    choose_preview_lock, get_context_response, pane_mappings, preview_flow_routes, validate_stop,
    LatestLock,
};
use humanize_plugin::driver::records::{
    DriverPaneConfig, DriverTmuxActuationConfig, StoredPane,
};
use humanize_plugin::driver::replay::ReplayedDriverEvents;
use humanize_plugin::driver::request::Authority;
use humanize_plugin::driver::revision::StoredFlowRevision;
use humanize_plugin::driver::tools::ToolStep;
use humanize_plugin::driver::wire::{RunStatus, StopValidationError};
use humanize_plugin::flow::{
    flow_lock, FlowCheckMode, FlowDraft, FlowLock, FlowNode, FlowResource, ResourceKind,
};
use humanize_plugin::json::{parse_json, Json};
use humanize_plugin::table::Table;

#[derive(Clone)]
struct Scripted {
    answers: Rc<RefCell<Vec<CommandOutput>>>,
}

impl CommandRunner for Scripted {
    fn run(&self, _argv: Vec<String>) -> Result<CommandOutput, TmuxError> {
        match self.answers.borrow_mut().pop() {
            Some(answer) => Ok(answer),
            None => Ok(CommandOutput::success(String::new())),
        }
    }
}

fn adapter(mut answers: Vec<CommandOutput>) -> TmuxAdapter<Scripted> {
    answers.reverse();
    TmuxAdapter::with_runner(Scripted { answers: Rc::new(RefCell::new(answers)) })
}

fn text(value: &str) -> String {
    value.to_string()
}

fn object(json: &str) -> Json {
    parse_json(json).unwrap()
}

fn failure(message: &str) -> DriverFailure {
    DriverFailure::new("persistence_failed", message)
}

fn pane(id: &str) -> StoredPane {
    StoredPane {
        pane_id: text(id),
        session_id: text("flow"),
        window_id: text("@1"),
        window_name: text("main"),
        allocation_generation: 0,
    }
}

fn config(window_id: Option<&str>) -> DriverTmuxConfig {
    DriverTmuxConfig {
        session: text("flow"),
        window: text("main"),
        agent_command: text("agent"),
        actuation: DriverTmuxActuationConfig {
            prompt_submit_key_count: 2,
            agent_ready_pattern: None,
            agent_ready_timeout_ms: 500,
        },
        existing_window_id: window_id.map(text),
    }
}

fn bound() -> ReplayedDriverEvents {
    let mut state = ReplayedDriverEvents::new();
    let wanted = config(Some("@1"));
    assert!(state.rebinding_event(&wanted).is_some());
    state.rebind(&wanted);
    assert!(state.rebinding_event(&wanted).is_none());
    state
}

fn identity() -> PipeSinkIdentity {
    PipeSinkIdentity { dev: 1, ino: 2, uid: 3, mode: 0o600, nlink: 1 }
}

fn descriptor() -> TmuxPipeCaptureDescriptor {
    TmuxPipeCaptureDescriptor {
        transcript_relative_path: text("t/pipe.log"),
        completion_relative_path: text("t/pipe.done"),
        transcript_identity: identity(),
        nonce: text("word"),
        helper_pid: 77,
        helper_process_start_time_ticks: 88,
        external_helper: true,
    }
}

#[test]
fn helpers_are_started_step_by_step() {
    let state = bound();
    let mut machine = CaptureMachine::new(&state, &None, "run-1", "act-1", &pane("%2"));
    assert_eq!(machine.action(), CaptureAction::Prepare);
    assert!(machine.intent().is_none());
    let prepared = CaptureEvent::Prepared(text("t/pipe.log"), identity(), 9, text("word"));
    machine.advance(prepared);
    assert_eq!(machine.action(), CaptureAction::KeepIntent);
    assert_eq!(machine.event().unwrap().kind, "pipe_capture_intent");
    assert_eq!(machine.intent().unwrap().ack_nonce, "word");
    machine.advance(CaptureEvent::Done);
    assert_eq!(machine.action(), CaptureAction::StartHelper);
    machine.advance(CaptureEvent::Started(descriptor()));
    assert_eq!(machine.action(), CaptureAction::KeepStart);
    let kept = machine.event().unwrap();
    assert_eq!(kept.kind, "pipe_capture_started");
    assert_eq!(kept.payload.text_at("activation_id"), Some("act-1"));
    let steps = [CaptureAction::Acknowledge, CaptureAction::RemoveAck, CaptureAction::ReadNonce];
    for step in steps {
        machine.advance(CaptureEvent::Done);
        assert_eq!(machine.action(), step);
    }
    machine.advance(CaptureEvent::Nonce(text("n1")));
    assert_eq!(machine.action(), CaptureAction::Finish);
    assert_eq!(machine.into_outcome().unwrap().unwrap(), "n1");
}

#[test]
fn helpers_that_run_are_left_alone() {
    let mut state = bound();
    state.capture_runs("act-1", 0, descriptor());
    let asset = Some(ActivationAsset {
        allocation_generation: 0,
        pane_id: text("%2"),
        capture_phase: text("capturing"),
        capture_complete: false,
        pipe_acknowledged: true,
        resource_cleanup_status: String::new(),
        resource_cleanup_error: None,
    });
    let machine = CaptureMachine::new(&state, &asset, "run-1", "act-1", &pane("%2"));
    assert_eq!(machine.action(), CaptureAction::ReadNonce);
    let other = CaptureMachine::new(&state, &None, "run-1", "act-1", &pane("%2"));
    assert_eq!(other.action(), CaptureAction::Prepare);
}

#[test]
fn helpers_that_were_planned_are_started_as_planned() {
    let mut state = bound();
    let mut machine = CaptureMachine::new(&state, &None, "run-1", "act-1", &pane("%2"));
    machine.advance(CaptureEvent::Prepared(text("t/pipe.log"), identity(), 9, text("word")));
    let intent = machine.intent().unwrap().clone();
    machine.advance(CaptureEvent::Failed(failure("full")));
    assert_eq!(machine.into_outcome().unwrap().err().unwrap().message, "full");
    state.pending_pipe_captures.insert(text("act-1"), intent);
    let again = CaptureMachine::new(&state, &None, "run-1", "act-1", &pane("%2"));
    assert_eq!(again.action(), CaptureAction::StartHelper);
    assert_eq!(again.intent().unwrap().ack_nonce, "word");
    let elsewhere = CaptureMachine::new(&state, &None, "run-1", "act-1", &pane("%3"));
    assert_eq!(elsewhere.action(), CaptureAction::Finish);
    assert_eq!(
        elsewhere.into_outcome().unwrap().err().unwrap().message,
        "pending pipe capture belongs to a different pane allocation"
    );
}

fn made() -> AllocationEvent {
    let window =
        TmuxWindow::new_named(text("flow"), text("run-1"), text("main"), text("@1"));
    let pane = TmuxPane::new_in_session(text("flow"), text("@1"), text("act-1"), text("%2"));
    AllocationEvent::Made(window, pane)
}

#[test]
fn panes_are_planned_made_and_kept() {
    let state = bound();
    let mut machine = AllocationMachine::new(&state, &config(None), "run-1", "act-1");
    assert_eq!(machine.action(), AllocationAction::KeepIntent);
    assert_eq!(machine.event().unwrap().kind, "tmux_pane_allocation_intent");
    assert_eq!(machine.intent().allocation_generation, 0);
    machine.advance(AllocationEvent::Done);
    assert_eq!(machine.action(), AllocationAction::EnsurePane);
    assert!(machine.event().is_none());
    machine.advance(made());
    assert_eq!(machine.action(), AllocationAction::KeepPane);
    assert_eq!(machine.event().unwrap().kind, "tmux_pane_allocated");
    machine.advance(AllocationEvent::Done);
    assert_eq!(machine.into_outcome().unwrap().unwrap(), pane("%2"));
}

#[test]
fn windows_are_kept_before_their_panes() {
    let state = ReplayedDriverEvents::new();
    let mut machine = AllocationMachine::new(&state, &config(None), "run-1", "act-1");
    machine.advance(AllocationEvent::Done);
    machine.advance(made());
    assert_eq!(machine.action(), AllocationAction::KeepBinding);
    let event = machine.event().unwrap();
    assert_eq!(event.kind, "tmux_bound");
    assert_eq!(event.payload.text_at("window_id"), Some("@1"));
    let mut moved = bound();
    moved.take_pane("act-0", pane("%1"));
    let elsewhere = StoredPane { window_id: text("@2"), ..pane("%2") };
    moved.bind_beside(machine.intent(), &elsewhere);
    let tmux = moved.tmux.unwrap();
    assert_eq!(tmux.window_id, "@2");
    assert_eq!(tmux.panes.get(&text("act-0")), Some(&pane("%1")));
    machine.advance(AllocationEvent::Done);
    assert_eq!(machine.action(), AllocationAction::KeepPane);
}

#[test]
fn panes_that_cannot_be_kept_are_told() {
    let mut state = bound();
    let mut machine = AllocationMachine::new(&state, &config(None), "run-1", "act-1");
    let intent = machine.intent().clone();
    machine.advance(AllocationEvent::Done);
    machine.advance(made());
    machine.advance(AllocationEvent::Failed(failure("full")));
    let told = machine.into_outcome().unwrap().err().unwrap();
    assert_eq!(told.message, "full");
    assert_eq!(told.tmux_cleanup_panes(), vec![pane("%2").shown("act-1")]);
    state.pending_tmux_allocations.insert(text("act-1"), intent);
    let again = AllocationMachine::new(&state, &config(None), "run-1", "act-1");
    assert_eq!(again.action(), AllocationAction::EnsurePane);
}

#[test]
fn panes_that_are_gone_are_found() {
    let mut state = bound();
    state.take_pane("act-1", pane("%2"));
    state.take_pane("act-2", pane("%3"));
    let ids = vec![text("act-1"), text("act-0"), text("act-2")];
    let tmux = adapter(vec![
        CommandOutput::success(text("flow|@1|main|%2")),
        CommandOutput::failure(text("can't find pane")),
        CommandOutput::success(text("flow|@1|main|%2\n")),
    ]);
    let stale = stale_tmux_panes(&tmux, "run-1", &state.tmux, &ids).unwrap();
    assert_eq!(stale, vec![text("act-2")]);
    let broken = adapter(vec![
        CommandOutput::failure(text("busy")),
        CommandOutput::success(text("flow|@1|main|%2\n")),
    ]);
    let fault = stale_tmux_panes(&broken, "run-1", &state.tmux, &ids).err().unwrap();
    assert_eq!(fault.code, "tmux_error");
    assert!(stale_tmux_panes(&adapter(vec![]), "run-1", &None, &ids).unwrap().is_empty());
}

#[test]
fn panes_are_given_where_they_are_asked_for() {
    let state = bound();
    let operator = Some(DriverPaneConfig {
        session_id: text("s"),
        window_id: text("@7"),
        window_name: text("w"),
        pane_id: text("%1"),
    });
    let asked = object(
        "{\"tmux\":{\"enabled\":true,\"session\":\"s\",\"window\":\"w\",\"agent_command\":\"a\"}}",
    );
    match state.bind_tmux_step(&asked, true, &operator).unwrap() {
        PanesStep::Give(place) => assert_eq!(place.existing_window_id, Some(text("@7"))),
        other => panic!("{:?}", other),
    }
    match state.bind_tmux_step(&asked, false, &operator).unwrap() {
        PanesStep::Told(told) => {
            assert_eq!(told.flag_at("enabled"), Some(true));
            assert_eq!(told.text_at("window_id"), Some("@1"));
        }
        other => panic!("{:?}", other),
    }
    match state.bind_tmux_step(&object("{}"), true, &operator).unwrap() {
        PanesStep::Told(told) => assert_eq!(told.flag_at("enabled"), Some(false)),
        other => panic!("{:?}", other),
    }
    assert!(state.bind_tmux_step(&object("{\"tmux\":1}"), true, &operator).is_err());
}

#[test]
fn doubt_pauses_a_run() {
    let mut calm = SettleMachine::new(true);
    assert_eq!(calm.action(), SettleAction::GivePanes);
    calm.advance(SettleEvent::Panes(vec![object("{\"pane_id\":\"%2\"}")]));
    assert_eq!(calm.action(), SettleAction::Actuate);
    calm.advance(SettleEvent::Actuated(DriverActuation::default()));
    assert_eq!(calm.action(), SettleAction::Finish);
    assert_eq!(calm.into_outcome().unwrap().unwrap().0.len(), 1);

    let mut warned = SettleMachine::new(true);
    warned.advance(SettleEvent::Panes(vec![]));
    warned.advance(SettleEvent::Actuated(DriverActuation::with_warnings(vec![object("{}")])));
    assert_eq!(warned.action(), SettleAction::PauseRun);
    warned.advance(SettleEvent::Done);
    assert!(warned.into_outcome().unwrap().is_ok());

    let mut failed = SettleMachine::new(true);
    failed.advance(SettleEvent::Failed(failure("first")));
    assert_eq!(failed.action(), SettleAction::PauseRun);
    failed.advance(SettleEvent::Done);
    assert_eq!(failed.into_outcome().unwrap().err().unwrap().message, "first");

    let resting = SettleMachine::new(false);
    assert_eq!(resting.action(), SettleAction::Finish);
    assert!(resting.into_outcome().unwrap().unwrap().0.is_empty());
}

#[test]
fn changes_are_planned_from_their_tools() {
    let artifact = ToolStep::DeliverArtifact(text("a"), text("k"), text("p"));
    let one = MutationPlan { changes: 1, locks: false, end: PanesEnd::Never };
    assert_eq!(plan_mutation(&artifact), Some(one));
    assert_eq!(
        plan_mutation(&ToolStep::ApplyFlowRevision),
        Some(MutationPlan { locks: true, ..one })
    );
    assert_eq!(
        plan_mutation(&ToolStep::ObserveStop(text("a"), text("r"))),
        Some(MutationPlan { changes: 0, locks: false, end: PanesEnd::IfEnded })
    );
    assert_eq!(
        plan_mutation(&ToolStep::Control(Control::Stop)).unwrap().end,
        PanesEnd::Always
    );
    assert_eq!(
        plan_mutation(&ToolStep::Control(Control::Pause)).unwrap().end,
        PanesEnd::Never
    );
    assert_eq!(plan_mutation(&ToolStep::Status), None);
}

fn settled(status: RunStatus) -> MutationEvent {
    MutationEvent::Settled(vec![], Json::Null, status)
}

#[test]
fn changes_are_kept_before_they_show() {
    let plan = MutationPlan { changes: 2, locks: true, end: PanesEnd::IfEnded };
    let mut machine = MutationMachine::new(plan);
    let script = [
        (MutationAction::WriteRevision, MutationEvent::Done),
        (MutationAction::ChangeRun(0), MutationEvent::Changed(Json::Unsigned(1))),
        (MutationAction::ChangeRun(1), MutationEvent::Changed(Json::Unsigned(2))),
        (MutationAction::Tick, MutationEvent::Ticked(object("[\"t\"]"))),
        (MutationAction::Commit, MutationEvent::Done),
        (MutationAction::PublishRevision, MutationEvent::Done),
        (MutationAction::PublishAsset, MutationEvent::Done),
        (MutationAction::Settle, settled(RunStatus::Completed)),
        (MutationAction::EndPanes, MutationEvent::Ended(object("{\"reason\":\"r\"}"))),
    ];
    for (action, event) in script {
        assert_eq!(machine.action(), action);
        machine.advance(event);
    }
    let report = machine.into_outcome().unwrap().unwrap();
    assert_eq!(report.answer.as_u64(), Some(2));
    assert_eq!(report.lifecycle.text_at("reason"), Some("r"));
}

#[test]
fn refused_changes_are_not_kept() {
    let plan = MutationPlan { changes: 2, locks: false, end: PanesEnd::Never };
    let mut machine = MutationMachine::new(plan);
    machine.advance(MutationEvent::Changed(Json::Unsigned(1)));
    machine.advance(MutationEvent::Failed(failure("no")));
    assert_eq!(machine.action(), MutationAction::Finish);
    assert_eq!(machine.into_outcome().unwrap().err().unwrap().message, "no");
    let quiet = MutationPlan { changes: 0, locks: false, end: PanesEnd::IfEnded };
    let mut going = MutationMachine::new(quiet);
    going.advance(MutationEvent::Ticked(Json::Null));
    going.advance(MutationEvent::Done);
    going.advance(settled(RunStatus::Running));
    assert_eq!(going.action(), MutationAction::Finish);
    assert!(going.into_outcome().unwrap().is_ok());
}

fn plan() -> EnrolPlan {
    EnrolPlan {
        run_id: text("run-1"),
        activation_id: text("act-1"),
        pane: pane("%2"),
        readiness_nonce: text("n1"),
        runs_root: text("/h/runs"),
        private_root: text("/h/private"),
        stop_attempt_limit: None,
    }
}

#[test]
fn agents_are_enrolled_once() {
    let mut state = bound();
    let mut machine = EnrolMachine::new(&state, plan());
    assert_eq!(machine.action(), EnrolAction::Draw);
    machine.advance(EnrolEvent::Drawn(text("h1"), text("c1")));
    assert_eq!(machine.action(), EnrolAction::EnsureDirectory);
    machine.advance(EnrolEvent::Done);
    assert_eq!(machine.action(), EnrolAction::WriteFile);
    let file = machine.file().unwrap();
    assert_eq!((file.handle.as_str(), file.credential.as_str()), ("h1", "c1"));
    machine.advance(EnrolEvent::Done);
    assert_eq!(machine.action(), EnrolAction::KeepStart);
    let event = machine.event().unwrap();
    assert_eq!(event.kind, "participant_started");
    assert_eq!(event.payload.unsigned_at("stop_attempt_limit"), Some(3));
    machine.advance(EnrolEvent::Done);
    let binding = machine.into_outcome().unwrap().unwrap();
    assert_eq!(binding.credential_hash, participant_credential_hash("c1"));
    state.participant_runs(binding);

    let mut again = EnrolMachine::new(&state, plan());
    assert_eq!(again.action(), EnrolAction::ReadFile);
    again.advance(EnrolEvent::File(Some(file)));
    assert_eq!(again.into_outcome().unwrap().unwrap().handle, "h1");
    let mut lost = EnrolMachine::new(&state, plan());
    lost.advance(EnrolEvent::File(None));
    assert_eq!(
        lost.into_outcome().unwrap().err().unwrap().code,
        "participant_binding_invalid"
    );
    let other = EnrolMachine::new(&state, EnrolPlan { readiness_nonce: text("n2"), ..plan() });
    assert_eq!(
        other.into_outcome().unwrap().err().unwrap().code,
        "participant_binding_conflict"
    );
}

#[test]
fn files_of_agents_that_did_not_start_are_removed() {
    let state = bound();
    let mut machine = EnrolMachine::new(&state, plan());
    machine.advance(EnrolEvent::Drawn(text("h1"), text("c1")));
    machine.advance(EnrolEvent::Done);
    machine.advance(EnrolEvent::Done);
    machine.advance(EnrolEvent::Failed(failure("full")));
    assert_eq!(machine.action(), EnrolAction::RemoveFile);
    machine.advance(EnrolEvent::Failed(failure("gone")));
    assert_eq!(machine.into_outcome().unwrap().err().unwrap().message, "full");

    let mut unwritten = EnrolMachine::new(&state, plan());
    unwritten.advance(EnrolEvent::Drawn(text("h1"), text("c1")));
    unwritten.advance(EnrolEvent::Done);
    unwritten.advance(EnrolEvent::Failed(failure("full")));
    assert_eq!(
        unwritten.into_outcome().unwrap().err().unwrap().message,
        "private participant binding could not be persisted"
    );
    let mut odd = EnrolMachine::new(&state, plan());
    odd.advance(EnrolEvent::Drawn(text("../h1"), text("c1")));
    assert!(odd.into_outcome().unwrap().is_err());
}

const AUTHORITY: Authority = Authority { event_cursor: 5, driver_event_count: 2 };

#[test]
fn contexts_are_told_to_those_who_may_know() {
    let context = || object("{\"run_id\":\"run-1\",\"board\":{},\"run_assets\":{}}");
    let all =
        get_context_response(true, &object("{}"), "run-1", context(), &AUTHORITY).unwrap();
    assert_eq!(all.text_at("run_id"), Some("run-1"));
    assert_eq!(all.unsigned_at("context_generation"), Some(7));
    let agent = object("{\"participant_handle\":\"h1\",\"activation_id\":\"act-1\"}");
    let own = get_context_response(true, &agent, "run-1", context(), &AUTHORITY).unwrap();
    assert_eq!(own.text_at("run_id"), None);
    assert!(own.get("context").unwrap().get("run_assets").is_none());
    assert_eq!(own.unsigned_at("event_cursor"), Some(5));
    let nobody = get_context_response(false, &agent, "run-1", context(), &AUTHORITY);
    assert_eq!(nobody.err().unwrap().code, "run_not_found");
    let nameless = object("{\"participant_handle\":\"h1\"}");
    assert!(get_context_response(true, &nameless, "run-1", context(), &AUTHORITY).is_err());
}

#[test]
fn stops_are_judged() {
    let request = object("{\"activation_id\":\"act-1\"}");
    let free = validate_stop(true, &request, "run-1", Ok(()), &AUTHORITY).unwrap();
    assert_eq!(free.flag_at("stop_valid"), Some(true));
    let missing = StopValidationError::MissingArtifact { artifact_key: text("plan") };
    let held =
        validate_stop(true, &request, "run-1", Err((missing, text("missing plan"))), &AUTHORITY)
            .unwrap();
    assert_eq!(held.flag_at("ok"), Some(false));
    assert_eq!(held.text_at("error"), Some("missing plan"));
    assert_eq!(held.unsigned_at("event_cursor"), Some(5));
    assert!(validate_stop(false, &request, "run-1", Ok(()), &AUTHORITY).is_err());
    assert!(validate_stop(true, &object("{}"), "run-1", Ok(()), &AUTHORITY).is_err());
}

fn lock() -> FlowLock {
    let readme =
        FlowResource { id: text("README.md"), kind: ResourceKind::Readme, source: text("a") };
    let nodes = vec![FlowNode { id: text("one"), ..FlowNode::default() }];
    let draft = FlowDraft { nodes, resources: vec![readme], ..FlowDraft::default() };
    flow_lock(&draft, FlowCheckMode::Core).unwrap()
}

fn latest(named: bool, hash: Option<&str>) -> LatestLock {
    let given = object("{\"flow_lock\":{}}");
    LatestLock {
        named,
        applied_hash: hash.map(text),
        package: Some(StoredFlowRevision::from_preview_request(&given, Ok(lock())).unwrap()),
    }
}

#[test]
fn routes_are_shown_of_the_lock_that_is_meant() {
    let nothing = || Err(text("not read"));
    let held = text(lock().content_hash());
    let ask = |request: &str, latest: LatestLock| {
        choose_preview_lock(true, &object(request), nothing(), latest)
    };
    let (package, explicit) = ask("{}", latest(true, Some(&held))).unwrap();
    assert!(!explicit);
    let told = preview_flow_routes("run-1", &package, explicit, object("[]"), &AUTHORITY);
    assert_eq!(told.text_at("source"), Some("latest_applied"));
    assert_eq!(told.text_at("content_hash"), Some(held.as_str()));
    let code = |request: &str, latest: LatestLock| ask(request, latest).err().unwrap().code;
    assert_eq!(code("{}", latest(false, None)), "flow_lock_required");
    assert_eq!(code("{}", latest(true, None)), "flow_lock_not_found");
    assert_eq!(code("{}", latest(true, Some("other"))), "flow_lock_hash_mismatch");
    assert_eq!(
        code("{\"flow_lock_id\":\"other\"}", latest(true, Some(&held))),
        "flow_lock_identity_mismatch"
    );
    assert_eq!(code("{\"flow_lock\":{}}", latest(false, None)), "invalid_flow_lock");
    let given = object("{\"flow_lock\":{}}");
    let (_, explicit) =
        choose_preview_lock(true, &given, Ok(lock()), latest(false, None)).unwrap();
    assert!(explicit);
    assert!(choose_preview_lock(false, &given, Ok(lock()), latest(false, None)).is_err());
}

#[test]
fn panes_are_shown_beside_their_activations() {
    let mut state = bound();
    state.take_pane("b", pane("%3"));
    state.take_pane("a", pane("%2"));
    let mut statuses: Table<String, String> = Table::new();
    statuses.insert(text("a"), text("running"));
    let shown = pane_mappings("run-1", &state.tmux, &statuses);
    assert_eq!(shown.len(), 2);
    assert_eq!((shown[0].activation_id.as_str(), shown[0].status.as_str()), ("a", "running"));
    assert_eq!(shown[0].pane, "flow:@1.%2");
    assert_eq!(shown[1].status, "unknown");
    assert!(pane_mappings("run-1", &None, &statuses).is_empty());
}
