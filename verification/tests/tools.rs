use humanize_plugin::driver::client::cleanup_stale_driver_ipc;
use humanize_plugin::driver::operation::Control;
use humanize_plugin::driver::ownership::tmux_binding_event;
use humanize_plugin::driver::participant::{
    new_participant_binding, project_participant_exits, BindRequest, ParticipantBindingFile,
    ParticipantExit, StopEvent,
};
use humanize_plugin::driver::protocol::DriverWire;
use humanize_plugin::driver::records::{DriverTmuxActuationConfig, StoredPane};
use humanize_plugin::driver::replay::{
    replay_driver_events, DriverDurableEvent, ReplayedDriverEvents,
};
use humanize_plugin::driver::revision::{FlowReview, ReviewStatus};
use humanize_plugin::driver::storage::Contact;
use humanize_plugin::driver::tools::{
    apply_flow_revision, handle_tool_wire, StopStep, ToolStep,
};
use humanize_plugin::driver::wire::{FlowLockMode, StopDecision, StopDecisionKind};
use humanize_plugin::flow::{
    flow_lock, FlowCheckMode, FlowDraft, FlowLock, FlowNode, FlowResource, ResourceKind,
};
use humanize_plugin::json::{parse_json, Json};

fn text(value: &str) -> String {
    value.to_string()
}

fn object(json: &str) -> Json {
    parse_json(json).unwrap()
}

fn step(wire: DriverWire, json: &str) -> ToolStep {
    handle_tool_wire(wire, &object(json)).unwrap()
}

fn refusal(wire: DriverWire, json: &str) -> String {
    handle_tool_wire(wire, &object(json)).err().unwrap().message
}

#[test]
fn requests_without_arguments_are_steps() {
    assert!(matches!(step(DriverWire::BindRun, "{}"), ToolStep::BindRun));
    assert!(matches!(step(DriverWire::Status, "{}"), ToolStep::Status));
    assert!(matches!(step(DriverWire::Why, "{}"), ToolStep::Why));
    assert!(matches!(step(DriverWire::Pause, "{}"), ToolStep::Control(Control::Pause)));
    assert!(matches!(step(DriverWire::Resume, "{}"), ToolStep::Control(Control::Resume)));
    assert!(matches!(step(DriverWire::Complete, "{}"), ToolStep::Control(Control::Complete)));
    assert!(matches!(step(DriverWire::Stop, "{}"), ToolStep::Control(Control::Stop)));
    assert!(matches!(step(DriverWire::ApplyFlowRevision, "{}"), ToolStep::ApplyFlowRevision));
    assert!(matches!(step(DriverWire::RecordHookFact, "{}"), ToolStep::RecordHookFact));
    assert!(matches!(step(DriverWire::ViewTerminal, "{}"), ToolStep::ViewTerminal));
    assert!(matches!(step(DriverWire::ViewSnapshot, "{}"), ToolStep::ViewSnapshot));
}

#[test]
fn agents_ask_for_their_own_context() {
    assert!(matches!(step(DriverWire::Context, "{}"), ToolStep::Context(None)));
    let own = "{\"participant_handle\":\"h1\",\"activation_id\":\"act-1\"}";
    match step(DriverWire::Context, own) {
        ToolStep::Context(Some(id)) => assert_eq!(id, "act-1"),
        other => panic!("{:?}", other),
    }
    assert_eq!(
        refusal(DriverWire::Context, "{\"participant_handle\":\"h1\"}"),
        "activation_id is required"
    );
}

#[test]
fn artifacts_and_effects_carry_payloads() {
    let told = "{\"activation_id\":\"act-1\",\"artifact_id\":\"plan\",\"payload\":\"p\"}";
    match step(DriverWire::DeliverArtifact, told) {
        ToolStep::DeliverArtifact(id, key, payload) => {
            assert_eq!((id.as_str(), key.as_str(), payload.as_str()), ("act-1", "plan", "p"));
        }
        other => panic!("{:?}", other),
    }
    assert_eq!(
        refusal(DriverWire::DeliverArtifact, "{\"activation_id\":\"act-1\"}"),
        "artifact id is required"
    );
    assert_eq!(refusal(DriverWire::DeliverArtifact, "{}"), "activation_id is required");
    let effect = "{\"activation_id\":\"act-1\",\"effect_key\":\"pushed\",\"payload\":\"p\"}";
    match step(DriverWire::RecordEffect, effect) {
        ToolStep::RecordEffect(id, key, payload) => {
            assert_eq!((id.as_str(), key.as_str(), payload.as_str()), ("act-1", "pushed", "p"));
        }
        other => panic!("{:?}", other),
    }
    assert_eq!(
        refusal(DriverWire::RecordEffect, "{\"activation_id\":\"act-1\"}"),
        "effect_key is required"
    );
}

#[test]
fn boards_take_every_entry_of_a_patch() {
    let told = "{\"activation_id\":\"act-1\",\"patch\":{\"a\":\"1\",\"b\":\"2\"},\"expected_version\":4}";
    match step(DriverWire::PatchBoard, told) {
        ToolStep::PatchBoard(id, entries) => {
            assert_eq!(id, "act-1");
            assert_eq!(entries.len(), 2);
            assert_eq!((entries[0].key.as_str(), entries[0].value.as_str()), ("a", "1"));
            assert_eq!(entries[1].expected_version, Some(4));
        }
        other => panic!("{:?}", other),
    }
    assert_eq!(
        refusal(DriverWire::PatchBoard, "{\"activation_id\":\"act-1\",\"patch\":3}"),
        "patch object is required"
    );
}

#[test]
fn stops_and_nodes_are_named() {
    match step(DriverWire::ObserveStop, "{\"activation_id\":\"act-1\"}") {
        ToolStep::ObserveStop(id, reason) => {
            assert_eq!((id.as_str(), reason.as_str()), ("act-1", "observed stop"));
        }
        other => panic!("{:?}", other),
    }
    assert!(matches!(
        step(DriverWire::ValidateStop, "{\"activation_id\":\"act-1\"}"),
        ToolStep::ValidateStop(_)
    ));
    assert!(matches!(step(DriverWire::Activate, "{\"node_id\":\"n\"}"), ToolStep::Activate(_)));
    assert_eq!(refusal(DriverWire::Activate, "{}"), "node_id is required");
    match step(DriverWire::Fanout, "{\"node_id\":\"n\",\"artifactKey\":\"items\"}") {
        ToolStep::Fanout(node, key) => {
            assert_eq!((node.as_str(), key.as_str()), ("n", "items"));
        }
        other => panic!("{:?}", other),
    }
    assert!(matches!(
        step(DriverWire::PreviewFlowRoutes, "{\"flow_lock\":{}}"),
        ToolStep::PreviewFlowRoutes(true)
    ));
    assert!(matches!(
        step(DriverWire::PreviewFlowRoutes, "{}"),
        ToolStep::PreviewFlowRoutes(false)
    ));
}

fn lock() -> FlowLock {
    let readme =
        FlowResource { id: text("README.md"), kind: ResourceKind::Readme, source: text("a") };
    let nodes = vec![FlowNode { id: text("one"), ..FlowNode::default() }];
    let draft = FlowDraft { nodes, resources: vec![readme], ..FlowDraft::default() };
    flow_lock(&draft, FlowCheckMode::Core).unwrap()
}

fn review(status: ReviewStatus) -> Result<FlowReview, String> {
    Ok(FlowReview {
        flow_lock_id: text(lock().id()),
        content_hash: text(lock().content_hash()),
        status,
    })
}

#[test]
fn new_locks_need_leave_and_a_mode() {
    let ask = |mode: &str, status: ReviewStatus| {
        let request = format!("{{\"review_id\":\"r1\",\"flow_lock\":{{}},\"mode\":\"{}\"}}", mode);
        apply_flow_revision(&object(&request), Ok(lock()), review(status))
    };
    let (_, mode) = ask("checkpoint-restart", ReviewStatus::Approved).unwrap();
    assert_eq!(mode, FlowLockMode::CheckpointRestart);
    let (_, mode) = ask("future_activations", ReviewStatus::Approved).unwrap();
    assert_eq!(mode, FlowLockMode::FutureActivations);
    assert_eq!(
        ask("now", ReviewStatus::Approved).err().unwrap().message,
        "unknown flow lock mode: now"
    );
    assert_eq!(ask("now", ReviewStatus::Pending).err().unwrap().code, "review_pending");
}

fn state() -> ReplayedDriverEvents {
    let pane = StoredPane {
        pane_id: text("%2"),
        session_id: text("flow"),
        window_id: text("@1"),
        window_name: text("main"),
        allocation_generation: 1,
    };
    let settings = DriverTmuxActuationConfig {
        prompt_submit_key_count: 2,
        agent_ready_pattern: None,
        agent_ready_timeout_ms: 500,
    };
    let planned = tmux_binding_event("flow", "main", "@1", "agent", &settings);
    let event = DriverDurableEvent {
        seq: 1,
        at_ms: 1,
        kind: text(planned.kind),
        payload: planned.payload,
    };
    let mut state = replay_driver_events(&vec![event]).unwrap();
    let binding = new_participant_binding("run-1", "act-1", &pane, "n1", "h1", "c1");
    state.take_pane("act-1", pane);
    state.participant_runs(binding);
    state.participant_bound(&BindRequest {
        activation_id: text("act-1"),
        allocation_generation: 1,
        pane_id: text("%2"),
        readiness_nonce: text("n1"),
        handle: text("h1"),
        credential: text("c1"),
        native_session_id: text("s1"),
        platform: text("codex"),
        source: text("codex_session_start"),
    });
    state
}

fn file() -> Option<ParticipantBindingFile> {
    Some(ParticipantBindingFile {
        run_id: text("run-1"),
        activation_id: text("act-1"),
        allocation_generation: 1,
        pane_id: text("%2"),
        readiness_nonce: text("n1"),
        handle: text("h1"),
        credential: text("c1"),
        runs_root: text("/h/runs"),
    })
}

#[test]
fn agents_are_told_once_whether_they_may_stop() {
    let state = state();
    let decision = StopDecision {
        kind: StopDecisionKind::Allow,
        attempt: 1,
        missing_artifacts: vec![],
        missing_effects: vec![],
        reason: text("first"),
    };
    let events = vec![
        StopEvent::Observed(text("run-1"), text("act-1"), Some(text("call-1"))),
        StopEvent::Decided(text("run-1"), text("act-1"), decision),
    ];
    let ask = |credential: &str, call: &str| {
        let request = format!(
            "{{\"activation_id\":\"act-1\",\"participant_handle\":\"h1\",\"participant_credential\":\"{}\",\"native_session_id\":\"s1\",\"invocation_id\":\"{}\"}}",
            credential, call
        );
        state.participant_stop("run-1", &object(&request), &file(), "/h/runs", &events)
    };
    match ask("c1", "call-1").unwrap() {
        StopStep::Told(id, at) => assert_eq!((id.as_str(), at), ("act-1", 1)),
        other => panic!("{:?}", other),
    }
    match ask("c1", "call-2").unwrap() {
        StopStep::Observe(id, call, reason) => {
            assert_eq!((id.as_str(), call.as_str()), ("act-1", "call-2"));
            assert_eq!(reason, "participant requested stop");
        }
        other => panic!("{:?}", other),
    }
    assert_eq!(ask("c2", "call-1").err().unwrap().code, "participant_unauthorized");
    assert!(ask("c1", "").is_err());
}

#[test]
fn bindings_are_retired_while_the_agent_runs() {
    let mut state = state();
    assert_eq!(state.retire_participant_binding("act-1", 1).unwrap().handle, "h1");
    assert!(state.retire_participant_binding("act-1", 2).is_none());
    assert!(state.retire_participant_binding("act-2", 1).is_none());
    let exit = ParticipantExit {
        activation_id: text("act-1"),
        allocation_generation: 1,
        exit_status: 0,
    };
    project_participant_exits(&vec![exit], &mut state.participant_bindings).unwrap();
    assert!(state.retire_participant_binding("act-1", 1).is_none());
}

#[test]
fn only_dead_sockets_are_taken_away() {
    assert_eq!(cleanup_stale_driver_ipc(None, Contact::Answered), Ok(false));
    assert_eq!(cleanup_stale_driver_ipc(Some((true, true)), Contact::Refused), Ok(true));
    assert_eq!(cleanup_stale_driver_ipc(Some((true, true)), Contact::NotFound), Ok(true));
    assert_eq!(
        cleanup_stale_driver_ipc(Some((true, true)), Contact::Answered),
        Err("driver IPC socket still accepts connections")
    );
    assert_eq!(
        cleanup_stale_driver_ipc(Some((true, true)), Contact::Unclear),
        Err("driver IPC socket liveness is indeterminate")
    );
    assert_eq!(
        cleanup_stale_driver_ipc(Some((true, false)), Contact::Refused),
        Err("stale driver socket owner is not the current user")
    );
    assert_eq!(
        cleanup_stale_driver_ipc(Some((false, true)), Contact::Refused),
        Err("stale driver IPC endpoint is not a socket and was not removed")
    );
}
