use humanize_plugin::driver::delivery::{start_input_delivery_with_message, AmbiguousDelivery};
use humanize_plugin::driver::failure::DriverFailure;
use humanize_plugin::driver::ledger_lines::{next_input_to_publish, read_entry};
use humanize_plugin::driver::lifecycle::Activation;
use humanize_plugin::driver::operation::{
    bound_flow_lock, check_run_binding, console_activations, console_revisions, console_status,
    handle_console_command, has_bound_run, is_terminal, run_activation_ids, ConsoleCommand,
    Control, ControlStep, RunBinding,
};
use humanize_plugin::driver::protocol::DriverWire;
use humanize_plugin::driver::publication::{
    injected_append_failure, machine_input_to_publish, participant_obligations,
    private_runtime_is_terminal, reconcile_private_runtime_batch, CommitAction, CommitEvent,
    CommitMachine, ParticipantTold, ReconcileFault,
};
use humanize_plugin::driver::participant::new_participant_binding;
use humanize_plugin::driver::read_model::{
    check_latest_lock, check_preview_request, hide_readiness_nonces,
    participant_context_projection, why_response,
};
use humanize_plugin::driver::records::StoredPane;
use humanize_plugin::driver::replay::{DriverDurableEvent, ReplayedDriverEvents};
use humanize_plugin::driver::request::{
    activation_limit_from_request, append_driver_event, artifact_key_from_request,
    board_entries_from_request, check_expected_authority, dispatch_request,
    flow_lock_mode_from_request, handle_ipc_line, participant_exit_cleanup,
    requests_shutdown, reserve_connection, response_acknowledged, run_mode_from_request,
    stop_attempt_limit_from_request, with_authority_fields, Authority, Dispatch, FrameFault,
    MAX_IPC_CONNECTIONS,
};
use humanize_plugin::driver::revision::{
    authorize_review, check_referenced_lock, read_runtime_events, referenced_lock_path,
    request_review_id, revision_relative_path, runtime_event_batch, write_lock_revision,
    BatchFault, FlowReview, ReviewStatus, RevisionWrite, StoredFlowRevision,
};
use humanize_plugin::driver::wire::{ActivationStatus, FlowLockMode, RunMode, RunStatus};
use humanize_plugin::flow::{
    flow_lock, FlowCheckMode, FlowDraft, FlowLock, FlowNode, FlowResource, ResourceKind,
};
use humanize_plugin::input_ledger::{
    MachineInputRecord, MachineInputStatus, MachineInputSubmission,
};
use humanize_plugin::json::{compact, parse_json, Json};

fn text(value: &str) -> String {
    value.to_string()
}

fn object(json: &str) -> Json {
    parse_json(json).unwrap()
}

fn code(response: &Json) -> String {
    text(response.get("error").unwrap().text_at("code").unwrap())
}

#[test]
fn connections_are_counted() {
    assert_eq!(reserve_connection(0), Some(1));
    assert_eq!(reserve_connection(MAX_IPC_CONNECTIONS - 1), Some(MAX_IPC_CONNECTIONS));
    assert_eq!(reserve_connection(MAX_IPC_CONNECTIONS), None);
}

#[test]
fn broken_frames_are_answered() {
    assert_eq!(code(&FrameFault::NotText.response()), "malformed_request");
    assert_eq!(code(&FrameFault::TooLarge.response()), "request_too_large");
    assert_eq!(code(&FrameFault::Truncated.response()), "truncated_request");
    assert_eq!(code(&FrameFault::TimedOut.response()), "request_timeout");
    assert_eq!(code(&FrameFault::Unreadable.response()), "malformed_request");
}

#[test]
fn only_those_with_the_token_are_heard() {
    let token = "SECRET-REDACTED";
    let line = format!(
        "{{\"id\":7,\"token\":\"{}\",\"op\":\"status\",\"run_id\":\"run-1\"}}",
        token
    );
    let heard = handle_ipc_line(&line, token).unwrap();
    assert_eq!((heard.op.as_str(), heard.run_id.as_str()), ("status", "run-1"));
    assert_eq!(heard.id.as_u64(), Some(7));
    let refusal = |line: &str, token: &str| handle_ipc_line(line, token).err().unwrap();
    assert_eq!(code(&refusal(&line, "other")), "unauthorized");
    assert_eq!(refusal(&line, "other").unsigned_at("id"), Some(7));
    assert_eq!(code(&refusal("{}", token)), "unauthorized");
    assert_eq!(code(&refusal("[]", token)), "malformed_request");
    assert_eq!(code(&refusal("{", token)), "malformed_request");
    let silent = format!("{{\"token\":\"{}\"}}", token);
    assert_eq!(code(&refusal(&silent, token)), "malformed_request");
}

#[test]
fn requests_find_their_way() {
    assert_eq!(dispatch_request("status", "run-2", "run-1"), Dispatch::WrongRun);
    assert_eq!(dispatch_request("status", "run-1", "run-1"), Dispatch::Tool(DriverWire::Status));
    assert_eq!(dispatch_request("participant_bind", "run-1", "run-1"), Dispatch::ParticipantBind);
    assert_eq!(dispatch_request("participant_stop", "run-1", "run-1"), Dispatch::ParticipantStop);
    assert_eq!(
        dispatch_request("participant_exited", "run-1", "run-1"),
        Dispatch::ParticipantExited
    );
    assert_eq!(dispatch_request("shutdown", "run-1", "run-1"), Dispatch::Shutdown);
    assert_eq!(dispatch_request("dance", "run-1", "run-1"), Dispatch::Unknown);
    assert!(!Dispatch::Tool(DriverWire::Status).is_mutation());
    assert!(Dispatch::Tool(DriverWire::Pause).is_mutation());
    assert!(requests_shutdown("shutdown", "run-1", "run-1"));
    assert!(!requests_shutdown("shutdown", "run-2", "run-1"));
}

#[test]
fn authority_goes_stale() {
    let now = Authority { event_cursor: 4, driver_event_count: 3 };
    let told = with_authority_fields(object("{\"ok\":true}"), &now);
    assert_eq!(told.unsigned_at("event_cursor"), Some(4));
    assert_eq!(told.unsigned_at("context_generation"), Some(now.context_generation()));
    let good = format!(
        "{{\"expected_event_cursor\":4,\"expected_context_generation\":{}}}",
        now.context_generation()
    );
    assert!(check_expected_authority(&object(&good), &now).is_ok());
    let stale = good.replace("\"expected_event_cursor\":4", "\"expected_event_cursor\":3");
    let refused = check_expected_authority(&object(&stale), &now).err().unwrap();
    assert_eq!(refused.code, "conflict");
}

#[test]
fn agents_that_left_are_cleaned_up_once_they_know() {
    let left = object("{\"ok\":true,\"participant_exited\":true}");
    assert!(!participant_exit_cleanup(&left, true, false));
    assert!(participant_exit_cleanup(&left, true, true));
    assert!(!participant_exit_cleanup(&object("{\"ok\":true}"), true, true));
    assert!(response_acknowledged("{\"ack\":\"response_received\"}"));
    assert!(!response_acknowledged("{\"ack\":\"no\"}"));
    assert!(!response_acknowledged("{"));
}

#[test]
fn runs_start_in_a_known_mode() {
    assert_eq!(run_mode_from_request(&object("{}")).unwrap(), RunMode::Finite);
    assert_eq!(
        run_mode_from_request(&object("{\"runMode\":\"manual\"}")).unwrap(),
        RunMode::Manual
    );
    assert!(run_mode_from_request(&object("{\"run_mode\":\"wild\"}")).is_err());
    assert_eq!(activation_limit_from_request(&object("{\"activation_limit\":5}")).unwrap(), 5);
    assert_eq!(stop_attempt_limit_from_request(&object("{}")).unwrap(), 3);
    assert_eq!(
        stop_attempt_limit_from_request(&object("{\"stopAttemptLimit\":8}")).unwrap(),
        8
    );
    assert!(stop_attempt_limit_from_request(&object("{\"stop_attempt_limit\":9}")).is_err());
    assert!(stop_attempt_limit_from_request(&object("{\"stop_attempt_limit\":0}")).is_err());
    assert_eq!(
        flow_lock_mode_from_request(&object("{\"applyMode\":\"checkpointRestart\"}")).unwrap(),
        FlowLockMode::CheckpointRestart
    );
    assert!(flow_lock_mode_from_request(&object("{\"mode\":\"later\"}")).is_err());
}

#[test]
fn artifacts_and_patches_are_named() {
    assert_eq!(artifact_key_from_request(&object("{\"key\":\"plan\"}")).unwrap(), "plan");
    assert!(artifact_key_from_request(&object("{}")).is_err());
    let entries = board_entries_from_request(&object(
        "{\"patch\":{\"a\":1,\"b\":\"x\"},\"expected_version\":2}",
    ))
    .unwrap();
    assert_eq!(entries.len(), 2);
    assert!(entries.iter().any(|entry| entry.key == "a" && entry.value == "1"));
    assert!(board_entries_from_request(&object("{\"patch\":3}")).is_err());
}

#[test]
fn events_are_numbered_and_dated() {
    let planned = humanize_plugin::driver::delivery::PlannedEvent {
        kind: "driver_pane_released",
        payload: Json::Null,
    };
    let event: DriverDurableEvent = append_driver_event(planned, 6, 99);
    assert_eq!((event.seq, event.at_ms), (7, 99));
}

#[test]
fn consoles_understand_their_words() {
    assert!(handle_console_command("  ").is_none());
    assert_eq!(handle_console_command(" status "), Some(ConsoleCommand::Status));
    assert_eq!(
        handle_console_command("pause"),
        Some(ConsoleCommand::Control(Control::Pause))
    );
    assert_eq!(handle_console_command("shutdown"), Some(ConsoleCommand::Quit));
    assert_eq!(handle_console_command("dance"), Some(ConsoleCommand::Unknown));
    assert_eq!(ConsoleCommand::Unknown.immediate_output(), Some("unknown command; try help"));
    assert_eq!(ConsoleCommand::Status.immediate_output(), None);
    assert_eq!(
        console_status("run-1", RunStatus::Running),
        "run_id=run-1 run_status=running"
    );
    let activations = vec![
        activation("a", "run-1", ActivationStatus::Running),
        activation("b", "run-2", ActivationStatus::Running),
    ];
    assert_eq!(console_activations(&activations, "run-1"), "run_id=run-1 activations=a:running");
    assert_eq!(
        console_revisions("run-1", &vec![text("x"), text("y")]),
        "run_id=run-1 revisions=x,y"
    );
    assert_eq!(run_activation_ids(&activations, "run-2"), vec![text("b")]);
}

fn activation(id: &str, run_id: &str, status: ActivationStatus) -> Activation {
    Activation { activation_id: text(id), node_id: text("n"), run_id: text(run_id), status }
}

#[test]
fn only_resting_runs_resume() {
    let state = ReplayedDriverEvents::new();
    let step = |control: Control, status: RunStatus| {
        state.control(control, &object("{}"), status).unwrap()
    };
    assert!(matches!(step(Control::Resume, RunStatus::Paused), ControlStep::Apply));
    assert!(matches!(step(Control::Resume, RunStatus::Running), ControlStep::NotResting(_)));
    assert!(matches!(step(Control::Pause, RunStatus::Running), ControlStep::Apply));
    assert!(Control::Stop.finalizes() && Control::Complete.finalizes());
    assert!(!Control::Pause.finalizes());
    assert!(is_terminal(RunStatus::Stopped) && !is_terminal(RunStatus::Paused));
}

#[test]
fn open_input_is_resolved_before_a_run_goes_on() {
    let mut state = ReplayedDriverEvents::new();
    state.deliveries.begin(delivery());
    assert_eq!(state.open_deliveries().len(), 1);
    assert!(matches!(
        state.control(Control::Resume, &object("{}"), RunStatus::Paused),
        Ok(ControlStep::Pending)
    ));
    assert!(matches!(
        state.control(Control::Stop, &object("{}"), RunStatus::Paused),
        Ok(ControlStep::Apply)
    ));
    let resolved = object(
        "{\"delivery_resolution\":{\"started_event_sequence\":5,\"outcome\":\"submitted\",\"evidence\":\"seen\"}}",
    );
    assert!(matches!(
        state.control(Control::Resume, &resolved, RunStatus::Paused),
        Ok(ControlStep::Resolve(_))
    ));
}

fn bound() -> RunBinding {
    RunBinding {
        flow_lock_id: text("lock"),
        content_hash: text("h"),
        run_mode: Some(RunMode::Finite),
        initial_activation_limit: Some(5),
        stop_attempt_limit: Some(3),
    }
}

#[test]
fn runs_keep_their_lock() {
    assert!(check_run_binding(&bound(), "lock", "h", RunMode::Finite, 5, 3).is_ok());
    assert!(check_run_binding(&bound(), "lock", "g", RunMode::Finite, 5, 3).is_err());
    assert!(check_run_binding(&bound(), "lock", "h", RunMode::Manual, 5, 3).is_err());
    assert!(check_run_binding(&bound(), "lock", "h", RunMode::Finite, 6, 3).is_err());
    let lock = Some(text("lock"));
    let hash = Some(text("h"));
    assert_eq!(bound_flow_lock(&lock, &hash).unwrap(), (text("lock"), text("h")));
    assert_eq!(bound_flow_lock(&None, &hash).err().unwrap().code, "run_binding_conflict");
    assert_eq!(bound_flow_lock(&lock, &None).err().unwrap().code, "run_binding_conflict");
    assert!(has_bound_run(&hash, &hash, true));
    assert!(!has_bound_run(&None, &hash, true));
}

fn pane() -> StoredPane {
    StoredPane {
        pane_id: text("%2"),
        session_id: text("flow"),
        window_id: text("@1"),
        window_name: text("main"),
        allocation_generation: 1,
    }
}

fn delivery() -> AmbiguousDelivery {
    start_input_delivery_with_message(
        Some(&pane()),
        "act-1",
        "%2",
        "node_prompt",
        None,
        "do it",
        5,
    )
    .unwrap()
}

#[test]
fn agents_know_what_is_their_own() {
    let context = object(
        "{\"run_id\":\"run-1\",\"run_assets\":{},\"flow_revisions\":[],\"ambiguous_deliveries\":[],\"activations\":{\"a\":{\"x\":1},\"b\":{\"x\":2}}}",
    );
    let told = participant_context_projection(context, "a");
    for hidden in ["run_id", "run_assets", "flow_revisions", "ambiguous_deliveries"] {
        assert!(told.get(hidden).is_none(), "{}", hidden);
    }
    let kept = compact(told.get("activations").unwrap());
    assert!(kept.contains("\"x\":1") && !kept.contains("\"x\":2"));
}

#[test]
fn nonces_are_not_shown() {
    let assets = object("{\"activations\":{\"a\":{\"readiness_nonce\":\"n1\",\"pane_id\":\"%2\"}}}");
    let told = compact(&hide_readiness_nonces(assets));
    assert_eq!(told, "{\"activations\":{\"a\":{\"pane_id\":\"%2\"}}}");
}

#[test]
fn reasons_are_told() {
    let given = why_response("run-1", RunStatus::Blocked, &Some(text("out of tries")));
    assert!(compact(&given).contains("out of tries"));
    let bare = why_response("run-1", RunStatus::Running, &None);
    assert!(compact(&bare).contains("run is running"));
}

#[test]
fn previews_are_of_the_lock_that_is_named() {
    let hash = Some(text("h"));
    let other = Some(text("g"));
    let refusal = |named: bool, a: &Option<String>, b: &Option<String>| {
        check_latest_lock(named, a, b).err().unwrap().code
    };
    assert!(check_latest_lock(true, &hash, &hash).is_ok());
    assert_eq!(refusal(false, &hash, &hash), "flow_lock_required");
    assert_eq!(refusal(true, &None, &hash), "flow_lock_not_found");
    assert_eq!(refusal(true, &hash, &None), "flow_lock_not_found");
    assert_eq!(refusal(true, &hash, &other), "flow_lock_hash_mismatch");
    assert!(check_preview_request(&object("{\"flow_lock_id\":\"lock\"}"), "lock", "h").is_ok());
    assert_eq!(
        check_preview_request(&object("{\"flow_lock_id\":\"x\"}"), "lock", "h").err().unwrap().code,
        "flow_lock_identity_mismatch"
    );
}

fn lock(source: &str) -> FlowLock {
    let readme =
        FlowResource { id: text("README.md"), kind: ResourceKind::Readme, source: text(source) };
    let node = FlowNode { id: text("root"), ..FlowNode::default() };
    let draft = FlowDraft { nodes: vec![node], resources: vec![readme], ..FlowDraft::default() };
    flow_lock(&draft, FlowCheckMode::Core).unwrap()
}

fn review(status: ReviewStatus) -> Result<FlowReview, String> {
    let lock = lock("a");
    Ok(FlowReview {
        flow_lock_id: text(lock.id()),
        content_hash: text(lock.content_hash()),
        status,
    })
}

#[test]
fn locks_are_used_only_when_they_are_allowed() {
    let refusal = |loaded: Result<FlowReview, String>, source: &str| {
        authorize_review(&loaded, &lock(source)).err().unwrap().code
    };
    assert!(authorize_review(&review(ReviewStatus::Approved), &lock("a")).is_ok());
    assert!(authorize_review(&review(ReviewStatus::Bypassed), &lock("a")).is_ok());
    assert_eq!(refusal(review(ReviewStatus::Pending), "a"), "review_pending");
    assert_eq!(refusal(review(ReviewStatus::Rejected), "a"), "review_rejected");
    assert_eq!(refusal(review(ReviewStatus::Approved), "b"), "review_binding_mismatch");
    assert_eq!(refusal(Err(text("gone")), "a"), "review_invalid");
    assert_eq!(request_review_id(&object("{\"reviewId\":\"r1\"}")).unwrap(), "r1");
    assert_eq!(request_review_id(&object("{}")).err().unwrap().code, "review_missing");
    let request = object("{\"review_id\":\"r1\",\"flow_lock\":{}}");
    let stored = StoredFlowRevision::from_request(
        &request,
        Ok(lock("a")),
        review(ReviewStatus::Approved),
    )
    .unwrap();
    assert_eq!(stored.review_id(), "r1");
    let refused =
        StoredFlowRevision::from_request(&request, Ok(lock("a")), review(ReviewStatus::Pending));
    assert_eq!(refused.err().unwrap().code, "review_pending");
}

#[test]
fn kept_locks_are_not_overwritten() {
    let one = StoredFlowRevision::stored(lock("a"), text("r1"));
    let two = StoredFlowRevision::stored(lock("b"), text("r1"));
    assert_eq!(write_lock_revision(None, None, &one).unwrap(), RevisionWrite::Write);
    assert_eq!(write_lock_revision(Some(&one), None, &one).unwrap(), RevisionWrite::Kept);
    assert_eq!(
        write_lock_revision(Some(&two), None, &one).err().unwrap().code,
        "revision_hash_conflict"
    );
    assert_eq!(
        write_lock_revision(None, Some("{}"), &one).err().unwrap().code,
        "revision_hash_conflict"
    );
    assert_eq!(revision_relative_path("sha256:ab"), "driver/revisions/sha256_ab.json");
    assert_eq!(referenced_lock_path("/p", "sha256:ab"), "/p/driver/revisions/sha256_ab.json");
    assert!(check_referenced_lock(&one, one.lock_id(), one.content_hash()).is_ok());
    assert!(check_referenced_lock(&one, two.lock_id(), one.content_hash()).is_err());
}

#[test]
fn batches_of_events_are_read_back() {
    let first = runtime_event_batch(0, vec![object("1"), object("2")]);
    let second = runtime_event_batch(2, vec![object("3")]);
    let events = read_runtime_events(&vec![first, second]).unwrap();
    assert_eq!(events.iter().map(|event| event.as_u64().unwrap()).collect::<Vec<u64>>(), [1, 2, 3]);
    let late = runtime_event_batch(1, vec![object("3")]);
    assert_eq!(read_runtime_events(&vec![late]).err(), Some(BatchFault::CountMismatch));
    assert_eq!(read_runtime_events(&vec![object("7")]).unwrap().len(), 1);
}

#[test]
fn half_told_events_are_not_told_twice() {
    let events = |items: &[u64]| items.iter().map(|n| Json::Unsigned(*n)).collect::<Vec<Json>>();
    assert_eq!(reconcile_private_runtime_batch(&events(&[1]), 1, &events(&[2, 3])), Ok(true));
    assert_eq!(
        reconcile_private_runtime_batch(&events(&[1, 2, 3]), 1, &events(&[2, 3])),
        Ok(false)
    );
    assert_eq!(
        reconcile_private_runtime_batch(&events(&[1, 2]), 1, &events(&[2, 3])),
        Err(ReconcileFault::Torn)
    );
    assert_eq!(
        reconcile_private_runtime_batch(&events(&[1, 9, 3]), 1, &events(&[2, 3])),
        Err(ReconcileFault::Conflict)
    );
    assert!(private_runtime_is_terminal(RunStatus::Completed));
    assert!(injected_append_failure(None, false, 3).is_none());
}

#[test]
fn events_are_kept_before_they_are_told() {
    let mut machine = CommitMachine::new(5, 3, None);
    let mut seen = Vec::new();
    loop {
        let action = machine.action();
        seen.push(action);
        match action {
            CommitAction::Finish => break,
            CommitAction::Reconcile => machine.advance(CommitEvent::Reconciled(3)),
            _ => machine.advance(CommitEvent::Done),
        }
    }
    let at = |wanted: &dyn Fn(&CommitAction) -> bool| seen.iter().position(|a| wanted(a)).unwrap();
    let kept = at(&|action| matches!(action, CommitAction::Append(_)));
    let told = at(&|action| matches!(action, CommitAction::Publish));
    assert!(kept < told);
    assert_eq!(machine.persisted_event_count(), 5);
    let (blocked, failure) = machine.into_parts();
    assert!(blocked.is_none() && failure.is_none());
}

#[test]
fn failed_commits_are_known() {
    let mut machine = CommitMachine::new(5, 3, None);
    while !matches!(machine.action(), CommitAction::Append(_)) {
        match machine.action() {
            CommitAction::Reconcile => machine.advance(CommitEvent::Reconciled(3)),
            _ => machine.advance(CommitEvent::Done),
        }
    }
    machine.advance(CommitEvent::Failed(DriverFailure::new("persistence_failed", "disk full")));
    assert!(matches!(machine.action(), CommitAction::Finish));
    let (blocked, failure) = machine.into_parts();
    assert!(blocked.is_some());
    assert!(failure.unwrap().message.contains("disk full"));
}

#[test]
fn told_agents_owe_nothing() {
    let mut bound = new_participant_binding("run-1", "act-1", &pane(), "n1", "h1", "c1");
    let none = ParticipantTold { started: false, bound: false, ended: false };
    let owed = participant_obligations(&bound, none).unwrap();
    assert!(!owed.started && !owed.bound && owed.ended.is_none());
    bound.native_session_id = Some(text("s1"));
    assert_eq!(participant_obligations(&bound, none).err().unwrap().code, "publication_blocked");
    bound.platform = Some(text("codex"));
    bound.source = Some(text("codex_session_start"));
    bound.exit_status = Some(1);
    let owed = participant_obligations(&bound, none).unwrap();
    assert!(owed.started && owed.bound);
    assert_eq!(owed.ended, Some(1));
    let all = ParticipantTold { started: true, bound: true, ended: true };
    let owed = participant_obligations(&bound, all).unwrap();
    assert!(!owed.started && !owed.bound && owed.ended.is_none());
}

#[test]
fn entries_of_the_ledger_are_read_back_and_told_once() {
    let record = MachineInputRecord::submitted(MachineInputSubmission {
        run_id: "run-1",
        activation_id: "act-1",
        pane_id: "%2",
        allocation_generation: 1,
        started_at_ms: 1,
        submitted_at_ms: 2,
        text: "do it",
        submit_key_count: 1,
        transaction_id: text("tx"),
    });
    let again = read_entry(&object(&record.to_line())).unwrap();
    assert_eq!(again, record);
    let listed = "[\"r\",\"a\",\"%2\",1,2,3,\"h\",\"t\",1,\"tx\",{\"failed\":null}]";
    assert_eq!(read_entry(&object(listed)).unwrap().status, MachineInputStatus::Failed);
    assert!(read_entry(&object("[\"r\"]")).is_none());
    assert!(read_entry(&object("{\"run_id\":\"r\"}")).is_none());
    let records = vec![again];
    let mut other = delivery();
    other.activation_id = text("act-9");
    let deliveries = vec![other, delivery()];
    let none: Vec<String> = vec![];
    let next = |told: &Vec<String>, from: usize| {
        next_input_to_publish(&records, "run-1", &deliveries, told, from)
    };
    assert_eq!(next(&none, 0).unwrap(), Some((1, 0)));
    assert_eq!(next(&none, 2).unwrap(), None);
    assert_eq!(next(&vec![text("tx")], 0).unwrap(), None);
    let mut odd = delivery();
    odd.role = text("gossip");
    let fault = next_input_to_publish(&records, "run-1", &vec![odd, delivery()], &none, 0);
    assert_eq!(fault.err().unwrap().message, "private input delivery has an unknown role");
}

#[test]
fn input_is_published_with_its_record() {
    let record = MachineInputRecord::submitted(MachineInputSubmission {
        run_id: "run-1",
        activation_id: "act-1",
        pane_id: "%2",
        allocation_generation: 1,
        started_at_ms: 1,
        submitted_at_ms: 2,
        text: "do it",
        submit_key_count: 1,
        transaction_id: text("tx"),
    });
    let records = vec![record];
    assert_eq!(machine_input_to_publish(&records, "run-1", &delivery()).unwrap(), Some(0));
    assert_eq!(machine_input_to_publish(&records, "run-2", &delivery()).unwrap(), None);
    let mut later = delivery();
    later.allocation_generation = 2;
    assert_eq!(machine_input_to_publish(&records, "run-1", &later).unwrap(), None);
    let mut odd = delivery();
    odd.role = text("gossip");
    assert_eq!(
        machine_input_to_publish(&records, "run-1", &odd).err().unwrap().code,
        "publication_blocked"
    );
}
