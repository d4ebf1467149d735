use humanize_plugin::adapters::tmux::input::{submission_acceptance, HarnessProfile};
use humanize_plugin::driver::actuation::{
    actuation_gate, submitted_machine_input, ActuationAction, ActuationEvent, ActuationGate,
    ActuationMachine, ActuationOutcome, ActuationTask, DriverActuation,
    AGENT_LAUNCH_LEDGER_PROJECTION,
};
use humanize_plugin::driver::delivery::{
    start_input_delivery_with_message, AmbiguousDelivery, DELIVERY_ROLE_AGENT_LAUNCH,
    DELIVERY_ROLE_NODE_PROMPT,
};
use humanize_plugin::driver::lifecycle::Activation;
use humanize_plugin::driver::message::{
    is_namespaced_hook, message_arrival, validate_bounded_id, validate_hook_name, HookFact,
    MessageRequest, MessageStep,
};
use humanize_plugin::driver::ownership::tmux_binding_event;
use humanize_plugin::driver::participant::{
    exited_candidate, new_participant_binding, participant_binding_path, participant_bound_event,
    participant_credential_hash, participant_started_event, participant_stop_reason,
    project_participant_exits, stop_decision_for_invocation, stop_response, BindRequest,
    ExitFault, ExitNotice, ParticipantBindingFile, ParticipantExit, StopEvent,
};
use humanize_plugin::driver::prompt::{
    agent_launch_command, initial_agent_prompt, is_autonomous_agent_backed_driver,
};
use humanize_plugin::driver::protocol::DriverWire;
use humanize_plugin::driver::records::{
    DriverTmuxActuationConfig, ParticipantBinding, StoredPane,
};
use humanize_plugin::driver::replay::{
    replay_driver_events, DriverDurableEvent, ReplayedDriverEvents,
};
use humanize_plugin::driver::wire::{ActivationStatus, StopDecision, StopDecisionKind};
use humanize_plugin::flow::{FlowDraft, FlowNode, FlowResource, NodeAction, NodeDriver, ResourceKind};
use humanize_plugin::input_ledger::{MachineInputRecord, MachineInputSubmission};
use humanize_plugin::json::{compact, parse_json, Json};

fn text(value: &str) -> String {
    value.to_string()
}

fn object(json: &str) -> Json {
    parse_json(json).unwrap()
}

fn pane() -> StoredPane {
    StoredPane {
        pane_id: text("%2"),
        session_id: text("flow"),
        window_id: text("@1"),
        window_name: text("main"),
        allocation_generation: 1,
    }
}

fn settings(pattern: Option<&str>) -> DriverTmuxActuationConfig {
    DriverTmuxActuationConfig {
        prompt_submit_key_count: 2,
        agent_ready_pattern: pattern.map(text),
        agent_ready_timeout_ms: 500,
    }
}

fn delivery(role: &str, sequence: u64) -> AmbiguousDelivery {
    start_input_delivery_with_message(Some(&pane()), "act-1", "%2", role, None, "x", sequence)
        .unwrap()
}

fn task() -> ActuationTask {
    ActuationTask {
        activation_id: text("act-1"),
        node_id: text("n"),
        driver: NodeDriver::Agent,
        pane: pane(),
        agent_command: text("agent"),
        actuation: settings(None),
        prompt: text("do it"),
        launched: false,
        launch_pending: None,
        prompt_pending: None,
    }
}

fn state() -> ReplayedDriverEvents {
    let planned = tmux_binding_event("flow", "main", "@1", "agent", &settings(None));
    let event = DriverDurableEvent {
        seq: 1,
        at_ms: 1,
        kind: text(planned.kind),
        payload: planned.payload,
    };
    let mut state = replay_driver_events(&vec![event]).unwrap();
    state.take_pane("act-1", pane());
    state
}

fn binding() -> ParticipantBinding {
    new_participant_binding("run-1", "act-1", &pane(), "n1", "h1", "c1")
}

fn file() -> Option<ParticipantBindingFile> {
    Some(ParticipantBindingFile {
        run_id: text("run-1"),
        activation_id: text("act-1"),
        allocation_generation: 1,
        pane_id: text("%2"),
        readiness_nonce: text("n1"),
        handle: text("h1"),
        credential: text("c1"),
        runs_root: text("/h/runs"),
    })
}

fn bind_request(session: &str) -> BindRequest {
    BindRequest {
        activation_id: text("act-1"),
        allocation_generation: 1,
        pane_id: text("%2"),
        readiness_nonce: text("n1"),
        handle: text("h1"),
        credential: text("c1"),
        native_session_id: text(session),
        platform: text("codex"),
        source: text("codex_session_start"),
    }
}

#[test]
fn agents_are_started_before_they_are_told_their_task() {
    let mut machine = ActuationMachine::new(task());
    let mut done: Vec<String> = Vec::new();
    for _ in 0..30 {
        let event = match machine.action() {
            ActuationAction::StartCapture => ActuationEvent::Nonce(text("n1")),
            ActuationAction::StartParticipant(nonce) => {
                assert_eq!(nonce, "n1");
                ActuationEvent::Participant(text("/b/hook"), text("/b/file"))
            }
            ActuationAction::FindInput(_, _) => ActuationEvent::Found(None),
            ActuationAction::StartDelivery(role, _) => {
                done.push(format!("begin {}", role));
                ActuationEvent::Begun(delivery(role, 3))
            }
            ActuationAction::SendLaunch(command, shown) => {
                assert_eq!(command, agent_launch_command("agent", "/b/hook", "/b/file"));
                assert_eq!(shown, AGENT_LAUNCH_LEDGER_PROJECTION);
                done.push(text("launch"));
                ActuationEvent::Sent(text("tx-1"), None)
            }
            ActuationAction::SendPrompt(prompt, keys, command, _) => {
                assert_eq!((prompt.as_str(), keys, command.as_str()), ("do it", 2, "agent"));
                done.push(text("prompt"));
                let codex = HarnessProfile::new("codex", "working");
                ActuationEvent::Sent(text("tx-2"), submission_acceptance(Some(codex), true))
            }
            ActuationAction::RecordInput(_) => ActuationEvent::Done,
            ActuationAction::FinishDelivery(role, payload) => {
                if role == "node_prompt" {
                    assert_eq!(
                        compact(payload.get("acceptance").unwrap()),
                        "{\"profile\":\"codex\",\"signal\":\"working_state\"}"
                    );
                }
                done.push(format!("end {}", role));
                ActuationEvent::Done
            }
            ActuationAction::ReadReadiness => {
                ActuationEvent::Ready(Some(object("{\"platform\":\"codex\"}")))
            }
            ActuationAction::AwaitMarker(_, _) => ActuationEvent::Done,
            ActuationAction::AwaitSurface(_, _) => ActuationEvent::Shown(None),
            ActuationAction::Finish(outcome) => {
                match outcome {
                    ActuationOutcome::Sent(told) => {
                        assert_eq!(told.text_at("activation_id"), Some("act-1"));
                    }
                    other => panic!("{:?}", other),
                }
                break;
            }
        };
        machine.advance(event);
    }
    assert_eq!(
        done,
        vec![
            "begin agent_launch",
            "launch",
            "end agent_launch",
            "begin node_prompt",
            "prompt",
            "end node_prompt",
        ]
    );
}

#[test]
fn open_launches_are_not_repeated() {
    let mut open = task();
    open.launch_pending = Some(delivery(DELIVERY_ROLE_AGENT_LAUNCH, 3));
    let mut machine = ActuationMachine::new(open);
    machine.advance(ActuationEvent::Nonce(text("n1")));
    machine.advance(ActuationEvent::Participant(text("/b/hook"), text("/b/file")));
    assert!(matches!(machine.action(), ActuationAction::FindInput(_, _)));
    machine.advance(ActuationEvent::Found(None));
    match machine.action() {
        ActuationAction::Finish(ActuationOutcome::Warned(warning)) => {
            assert_eq!(warning.text_at("node_id"), Some("n"));
            let mut told = DriverActuation::with_warnings(vec![]);
            told.add_outcome(ActuationOutcome::Warned(warning));
            assert!(told.requires_pause());
        }
        other => panic!("{:?}", other),
    }
}

#[test]
fn agents_that_are_not_ready_wait_without_a_pause() {
    let mut launched = task();
    launched.launched = true;
    let mut machine = ActuationMachine::new(launched);
    machine.advance(ActuationEvent::Nonce(text("n1")));
    machine.advance(ActuationEvent::Participant(text("/b/hook"), text("/b/file")));
    while !matches!(machine.action(), ActuationAction::ReadReadiness) {
        match machine.action() {
            ActuationAction::FindInput(_, _) => machine.advance(ActuationEvent::Found(None)),
            other => panic!("{:?}", other),
        }
    }
    machine.advance(ActuationEvent::Ready(None));
    match machine.action() {
        ActuationAction::Finish(ActuationOutcome::Warned(warning)) => {
            let mut told = DriverActuation::with_warnings(vec![]);
            told.add_outcome(ActuationOutcome::Warned(warning));
            assert!(!told.requires_pause());
        }
        other => panic!("{:?}", other),
    }
}

#[test]
fn nodes_of_people_are_left_to_them() {
    assert!(is_autonomous_agent_backed_driver(NodeDriver::Agent));
    assert!(is_autonomous_agent_backed_driver(NodeDriver::Review));
    assert!(!is_autonomous_agent_backed_driver(NodeDriver::Human));
    let draft = draft();
    let activation = Some(Activation {
        activation_id: text("act-1"),
        node_id: text("n"),
        run_id: text("run-1"),
        status: ActivationStatus::Running,
    });
    assert!(matches!(actuation_gate(&draft, &activation, true, false), ActuationGate::Go));
    assert!(matches!(actuation_gate(&draft, &activation, false, false), ActuationGate::Warn(_)));
    assert!(matches!(actuation_gate(&draft, &activation, true, true), ActuationGate::Skip));
    assert!(matches!(actuation_gate(&draft, &None, true, false), ActuationGate::Skip));
}

fn action() -> NodeAction {
    NodeAction {
        driver: NodeDriver::Agent,
        prompt_ref: Some(text("p.md")),
        resource_refs: Vec::new(),
        reads: Vec::new(),
        writes: Vec::new(),
        verdict_artifact: None,
    }
}

fn draft() -> FlowDraft {
    let prompt =
        FlowResource { id: text("p.md"), kind: ResourceKind::Prompt, source: text("Fix it.") };
    let node = FlowNode { id: text("n"), action: Some(action()), ..FlowNode::default() };
    FlowDraft { nodes: vec![node], resources: vec![prompt], ..FlowDraft::default() }
}

#[test]
fn prompts_start_with_the_task_and_end_with_the_exit() {
    let draft = draft();
    let told = initial_agent_prompt(&draft, &draft.nodes[0], &action());
    assert!(told.starts_with("Fix it.\n\nExecution boundaries:\n- Workspace access: "));
    assert!(told.ends_with("\n\nDeliver required outputs through Humanize, then exit normally."));
    let mut bare = action();
    bare.prompt_ref = None;
    assert!(initial_agent_prompt(&draft, &draft.nodes[0], &bare)
        .starts_with("Complete the assigned task."));
    assert_eq!(
        agent_launch_command("agent", "/b/h", "/f"),
        "env HUMANIZE_PARTICIPANT_BINDING_FILE='/f' sh -c 'agent; status=$?; '\\''/b/h'\\'' --participant-exited-hook --exit-status \"$status\"; exit \"$status\"'"
    );
}

#[test]
fn sent_input_is_found_in_the_ledger() {
    let submission = |sent: bool| {
        let told = MachineInputSubmission {
            run_id: "run-1",
            activation_id: "act-1",
            pane_id: "%2",
            allocation_generation: 4,
            started_at_ms: 1,
            submitted_at_ms: 2,
            text: "do it",
            submit_key_count: 1,
            transaction_id: text("tx-9"),
        };
        if sent {
            MachineInputRecord::submitted(told)
        } else {
            MachineInputRecord::started(told)
        }
    };
    let found = |records: &Vec<MachineInputRecord>, pane: &str, generation: u64| {
        submitted_machine_input(records, "run-1", "act-1", pane, generation, "do it", "do it")
    };
    assert_eq!(found(&vec![submission(true)], "%2", 4).as_deref(), Some("tx-9"));
    assert_eq!(found(&vec![submission(true)], "%3", 4), None);
    assert_eq!(found(&vec![submission(true)], "%2", 5), None);
    assert_eq!(found(&vec![submission(false)], "%2", 4), None);
}

#[test]
fn credentials_are_kept_as_hashes() {
    assert_eq!(
        participant_credential_hash("abc"),
        "sha256:ba7816bf8f01cfea414140de5dae2223b00361a396177a9cb410ff61f20015ad"
    );
    let made = binding();
    assert_eq!(made.credential_hash, participant_credential_hash("c1"));
    assert_eq!(made.binding_file, "bindings/h1.json");
    assert_eq!(participant_binding_path("/p", &made).unwrap(), "/p/bindings/h1.json");
    let mut moved = binding();
    moved.binding_file = text("../h1.json");
    assert_eq!(
        participant_binding_path("/p", &moved).err().unwrap().code,
        "participant_binding_invalid"
    );
}

#[test]
fn agents_are_bound_once() {
    let mut state = state();
    let decide = |state: &ReplayedDriverEvents, session: &str| {
        state.bind_participant("run-1", &bind_request(session), &file(), "/h/runs")
    };
    assert_eq!(
        decide(&state, "s1").err().unwrap().code,
        "participant_binding_not_found"
    );
    state.participant_runs(binding());
    assert_eq!(decide(&state, "s1").unwrap(), false);
    state.participant_bound(&bind_request("s1"));
    assert_eq!(decide(&state, "s1").unwrap(), true);
    assert_eq!(decide(&state, "s2").err().unwrap().code, "participant_binding_conflict");
    let mut wrong = bind_request("s1");
    wrong.credential = text("guess");
    assert_eq!(
        state.bind_participant("run-1", &wrong, &file(), "/h/runs").err().unwrap().code,
        "participant_binding_mismatch"
    );
    assert_eq!(
        state.bind_participant("run-1", &bind_request("s1"), &None, "/h/runs").err().unwrap().code,
        "participant_binding_invalid"
    );
}

#[test]
fn bindings_survive_a_restart() {
    let mut live = state();
    live.participant_runs(binding());
    live.participant_bound(&bind_request("s1"));
    let events = vec![
        participant_started_event(&binding(), Some(3)),
        participant_bound_event(&bind_request("s1")),
    ];
    let mut again = state();
    for (at, planned) in events.into_iter().enumerate() {
        let event = DriverDurableEvent {
            seq: at as u64 + 2,
            at_ms: 1,
            kind: text(planned.kind),
            payload: planned.payload,
        };
        again.apply(&event).unwrap();
    }
    let found = |state: &ReplayedDriverEvents| {
        state.claimed_binding("act-1").unwrap().native_session_id
    };
    assert_eq!(found(&again), Some(text("s1")));
    assert_eq!(found(&again), found(&live));
    assert!(again.participant_readiness("act-1", "%2", 1).is_some());
    assert!(again.participant_readiness("act-1", "%2", 2).is_none());
}

#[test]
fn agents_act_for_themselves_alone() {
    let mut state = state();
    state.participant_runs(binding());
    state.participant_bound(&bind_request("s1"));
    let ask = |wire: DriverWire, json: &str| {
        state.authorize_participant_tool(wire, &object(json), &file(), "/h/runs")
    };
    let own = "{\"activation_id\":\"act-1\",\"participant_handle\":\"h1\",\"participant_credential\":\"c1\"}";
    assert_eq!(ask(DriverWire::DeliverArtifact, own).unwrap(), Some(text("act-1")));
    assert_eq!(ask(DriverWire::Stop, own).err().unwrap().code, "participant_scope_denied");
    let guess = own.replace("c1", "c2");
    assert_eq!(
        ask(DriverWire::DeliverArtifact, &guess).err().unwrap().code,
        "participant_unauthorized"
    );
    assert_eq!(ask(DriverWire::Stop, "{}").unwrap(), None);
    let hook = own.replace("}", ",\"native_session_id\":\"s1\"}");
    assert!(state.authorize_participant_hook(&object(&hook), &file(), "/h/runs").is_ok());
    let other = own.replace("}", ",\"native_session_id\":\"s2\"}");
    assert!(state.authorize_participant_hook(&object(&other), &file(), "/h/runs").is_err());
}

#[test]
fn the_end_of_an_agent_is_final() {
    let mut state = state();
    state.participant_runs(binding());
    let exit = |status: i32| ParticipantExit {
        activation_id: text("act-1"),
        allocation_generation: 1,
        exit_status: status,
    };
    assert_eq!(state.participant_exited(&binding(), 0).unwrap(), false);
    project_participant_exits(&vec![exit(0), exit(0)], &mut state.participant_bindings).unwrap();
    let known = state.participant_bindings.value_at(0).clone();
    assert_eq!(known.exit_status, Some(0));
    assert_eq!(state.participant_exited(&known, 0).unwrap(), true);
    assert_eq!(
        state.participant_exited(&known, 1).err().unwrap().code,
        "participant_exit_conflict"
    );
    assert_eq!(
        project_participant_exits(&vec![exit(1)], &mut state.participant_bindings),
        Err(ExitFault::Conflict)
    );
    let mut none = ReplayedDriverEvents::new();
    assert_eq!(
        project_participant_exits(&vec![exit(1)], &mut none.participant_bindings),
        Err(ExitFault::NotStarted)
    );
}

#[test]
fn ends_are_told_by_the_agent_itself() {
    let mut state = state();
    state.participant_runs(binding());
    let found = state.exit_candidates("act-1", "h1");
    assert_eq!(found.len(), 1);
    assert_eq!(state.exit_candidates("act-1", "h2").len(), 0);
    assert_eq!(exited_candidate(&found, &vec![file()], "c1", "/h/runs").unwrap(), 0);
    assert!(exited_candidate(&found, &vec![file()], "c2", "/h/runs").is_err());
    let notice = ExitNotice::from_request(&object(
        "{\"activation_id\":\"act-1\",\"participant_handle\":\"h1\",\"participant_credential\":\"c1\",\"exit_status\":-2}",
    ))
    .unwrap();
    assert_eq!(notice.exit_status, -2);
    let silent = ExitNotice::from_request(&object(
        "{\"activation_id\":\"act-1\",\"participant_handle\":\"h1\",\"participant_credential\":\"c1\"}",
    ));
    assert_eq!(silent.err().unwrap().message, "exit_status is required");
}

#[test]
fn stops_are_decided_once_per_call() {
    let decision = |reason: &str| StopDecision {
        kind: StopDecisionKind::Allow,
        attempt: 1,
        missing_artifacts: vec![],
        missing_effects: vec![],
        reason: text(reason),
    };
    let events = vec![
        StopEvent::Observed(text("run-1"), text("act-1"), Some(text("call-1"))),
        StopEvent::Other,
        StopEvent::Decided(text("run-1"), text("act-1"), decision("first")),
    ];
    assert_eq!(stop_decision_for_invocation(&events, "run-1", "act-1", "call-1"), Some(2));
    assert_eq!(stop_decision_for_invocation(&events, "run-1", "act-1", "call-2"), None);
    let told = stop_response("run-1", &decision("first"), Some(ActivationStatus::Completed), true);
    assert_eq!(told.text_at("hook_action"), Some("allow"));
    assert_eq!(told.flag_at("idempotent"), Some(true));
    assert_eq!(participant_stop_reason(&object("{}")), "participant requested stop");
    assert_eq!(participant_stop_reason(&object("{\"reason\":\"done\"}")), "done");
}

fn message(text_of: &str) -> MessageRequest {
    MessageRequest::from_request(&object(&format!(
        "{{\"activation_id\":\"act-1\",\"message_id\":\"m1\",\"text\":\"{}\"}}",
        text_of
    )))
    .unwrap()
}

#[test]
fn messages_are_sent_once() {
    let mut state = state();
    let step = |state: &ReplayedDriverEvents, told: &str| {
        state.send_message(&message(told), Some(ActivationStatus::Running))
    };
    assert!(matches!(step(&state, "hi"), Ok(MessageStep::Send(_))));
    let begun = start_input_delivery_with_message(
        Some(&pane()),
        "act-1",
        "%2",
        "participant_message",
        Some("m1"),
        "hi",
        5,
    )
    .unwrap();
    state.deliveries.begin(begun.clone());
    assert!(matches!(step(&state, "hi"), Ok(MessageStep::Open(_))));
    state.deliveries.finish_input_delivery("act-1", "participant_message", Some("m1"), 1);
    assert!(matches!(step(&state, "hi"), Ok(MessageStep::Arrived(_))));
    assert_eq!(step(&state, "other").err().unwrap().code, "message_id_conflict");
    assert_eq!(state.deliveries.participant_message_count(), 1);
    assert_eq!(message_arrival("%2", "tx").text_at("transaction_id"), Some("tx"));
}

#[test]
fn messages_need_a_running_agent() {
    let state = state();
    let refusal = |status: Option<ActivationStatus>| {
        state.send_message(&message("hi"), status).err().unwrap().code
    };
    assert_eq!(refusal(None), "activation_not_found");
    assert_eq!(refusal(Some(ActivationStatus::Completed)), "activation_not_running");
    let bare = ReplayedDriverEvents::new();
    let refused = bare.send_message(&message("hi"), Some(ActivationStatus::Running));
    assert_eq!(refused.err().unwrap().code, "pane_not_owned");
    let empty = MessageRequest::from_request(&object(
        "{\"activation_id\":\"a\",\"message_id\":\"m\",\"text\":\" \"}",
    ));
    assert_eq!(empty.err().unwrap().code, "malformed_request");
}

#[test]
fn observations_are_bounded() {
    assert!(validate_bounded_id("hook", "x", 128).is_ok());
    assert_eq!(
        validate_bounded_id("hook", &"x".repeat(129), 128).err().unwrap().message,
        "hook exceeds 128 bytes"
    );
    assert_eq!(
        validate_bounded_id("hook", "", 128).err().unwrap().message,
        "hook must be non-empty"
    );
    assert!(validate_hook_name("compaction_pending").is_ok());
    assert!(!is_namespaced_hook("plain"));
    assert!(validate_hook_name("plain").is_err());
    let known = vec![text("act-1")];
    let fact = HookFact::from_request(
        &object("{\"session_id\":\"s\",\"hook\":\"compaction_pending\",\"activation_id\":\"act-1\"}"),
        &known,
    )
    .unwrap();
    assert_eq!(fact.source_native_id, "hook:s:compaction_pending");
    let lost = HookFact::from_request(
        &object("{\"session_id\":\"s\",\"hook\":\"compaction_pending\",\"activation_id\":\"act-2\"}"),
        &known,
    );
    assert_eq!(lost.err().unwrap().code, "activation_not_found");
    let long = format!(
        "{{\"session_id\":\"s\",\"hook\":\"compaction_pending\",\"payload\":\"{}\"}}",
        "x".repeat(65536)
    );
    assert_eq!(
        HookFact::from_request(&object(&long), &known).err().unwrap().message,
        "payload exceeds 65536 bytes"
    );
    assert_eq!(
        delivery(DELIVERY_ROLE_NODE_PROMPT, 3).to_submitted().started_event_sequence,
        3
    );
}
