use humanize_plugin::driver::client::{
    ambiguous_response_error, ipc_metadata, probe_driver_endpoint, response_timeout,
    retries_participant_stop, socket_path_for_run_root, validate_owner_and_mode,
    validate_relative_identity, DriverClient, DriverConfig, DriverEndpointState,
    DriverIpcMetadata, ResponseFault,
};
use humanize_plugin::driver::ipc::{write_frame, FrameBuffer, FrameRead, MAX_FRAME_BYTES};
use humanize_plugin::driver::loading::{load_revisions, LoadedDriver, RevisionFault};
use humanize_plugin::driver::recovery::{
    attach_lock_step, load_driver_recovery_state, validate_private_run_id, LockAttempt, LockStep,
    ATTACH_LOCK_TIMEOUT_MS,
};
use humanize_plugin::driver::replay::ReplayFault;
use humanize_plugin::driver::revision::StoredFlowRevision;
use humanize_plugin::driver::storage::{
    durable_length, read_records, record_bytes, record_lines, remove_stale_socket,
    safe_file_segment, validate_run_id, Contact, StaleSocket,
};
use humanize_plugin::flow::{flow_lock, FlowCheckMode, FlowDraft};
use humanize_plugin::json::{parse_json, Fields, Json};

fn text(value: &str) -> String {
    value.to_string()
}

fn metadata(run_id: &str) -> DriverIpcMetadata {
    DriverIpcMetadata {
        run_id: text(run_id),
        socket_path: text("s"),
        auth_token_path: text("ipc-token"),
        updated_at_ms: 1,
    }
}

fn client() -> DriverClient {
    DriverClient::from_run_root(metadata("run-1"), "run-1", "/runs/run-1/s", "SECRET-REDACTED\n")
        .unwrap()
}

fn config(token_path: Option<&str>) -> DriverConfig {
    DriverConfig {
        run_id: text("run-1"),
        runs_root: text("/runs"),
        runtime_root: text("/rt"),
        auth_token: text("t"),
        auth_token_path: token_path.map(text),
        review_root: text("/reviews"),
        operator_pane: None,
    }
}

#[test]
fn sockets_and_tokens_lie_in_the_private_directory() {
    assert_eq!(socket_path_for_run_root("/runs/run-1"), "/runs/run-1/s");
    assert_eq!(config(None).socket_path("/runs/run-1"), "/runs/run-1/s");
    assert_eq!(config(None).token_path("/d").unwrap(), "/d/ipc-token");
    assert_eq!(config(Some("/d/ipc-token")).token_path("/d").unwrap(), "/d/ipc-token");
    assert_eq!(
        config(Some("/tmp/x")).token_path("/d"),
        Err("driver IPC token path must be the private run token file")
    );
}

#[test]
fn clients_talk_to_the_driver_of_their_run() {
    let other = DriverClient::from_run_root(metadata("run-2"), "run-1", "/runs/run-1/s", "t");
    assert_eq!(other.err().unwrap(), "driver IPC metadata run identity mismatch");
    let mut moved = metadata("run-1");
    moved.socket_path = text("/tmp/s");
    let moved = DriverClient::from_run_root(moved, "run-1", "/runs/run-1/s", "t");
    assert_eq!(moved.err().unwrap(), "driver IPC socket path does not match the run endpoint");
    let mut swapped = metadata("run-1");
    swapped.auth_token_path = text("../ipc-token");
    let swapped = DriverClient::from_run_root(swapped, "run-1", "/runs/run-1/s", "t");
    assert_eq!(swapped.err().unwrap(), "driver IPC token path does not match the run endpoint");
    let silent = DriverClient::from_run_root(metadata("run-1"), "run-1", "/runs/run-1/s", " \n");
    assert_eq!(silent.err().unwrap(), "driver IPC token file is empty");
    assert_eq!(client().socket_path(), "/runs/run-1/s");
}

#[test]
fn requests_carry_the_run_and_the_token() {
    let arguments = Fields::new().put("zone", Json::Unsigned(1)).put("op", Json::text("x")).done();
    let request = client().prepare_request("status", "run-1", &arguments).unwrap();
    assert_eq!(
        String::from_utf8(request.bytes).unwrap(),
        "{\"id\":\"mcp\",\"op\":\"status\",\"run_id\":\"run-1\",\"token\":\"SECRET-REDACTED\",\"zone\":1}\n"
    );
    assert_eq!(request.response_timeout_ms, 2000);
    assert_eq!(
        client().prepare_request("status", "run-2", &arguments).err().unwrap(),
        "driver client request run identity mismatch"
    );
}

#[test]
fn requests_that_are_no_record_say_nothing_more() {
    let request = client().prepare_request("why", "run-1", &Json::Null).unwrap();
    let line = String::from_utf8(request.bytes).unwrap();
    assert!(!line.contains("null"));
}

#[test]
fn oversized_requests_are_not_sent() {
    let long = Fields::new().put("text", Json::Text("x".repeat(MAX_FRAME_BYTES))).done();
    assert_eq!(
        client().prepare_request("send_message", "run-1", &long).err().unwrap(),
        "driver IPC request exceeds the maximum frame size"
    );
}

#[test]
fn answers_to_questions_are_due_sooner() {
    for op in ["status", "context", "why"] {
        assert_eq!(response_timeout(op), 2000);
    }
    assert_eq!(response_timeout("pause"), 30000);
}

#[test]
fn stops_are_asked_for_once_more_when_the_answer_is_lost() {
    let open = [
        ResponseFault::UnexpectedEof,
        ResponseFault::ConnectionReset,
        ResponseFault::ConnectionAborted,
        ResponseFault::BrokenPipe,
        ResponseFault::TimedOut,
    ];
    for fault in open {
        assert!(ambiguous_response_error(fault));
        assert!(retries_participant_stop(1, fault));
        assert!(!retries_participant_stop(2, fault));
    }
    assert!(!retries_participant_stop(1, ResponseFault::Other));
}

#[test]
fn endpoints_are_dead_only_when_it_is_clear() {
    assert_eq!(
        probe_driver_endpoint(false, Contact::Unclear),
        Some(DriverEndpointState::Dead)
    );
    assert_eq!(
        probe_driver_endpoint(true, Contact::Answered),
        Some(DriverEndpointState::Accepting)
    );
    assert_eq!(probe_driver_endpoint(true, Contact::Refused), Some(DriverEndpointState::Dead));
    assert_eq!(probe_driver_endpoint(true, Contact::Unclear), None);
}

#[test]
fn private_files_have_private_permissions() {
    assert!(validate_owner_and_mode(true, 0o100600, 0o600, "token").is_ok());
    assert_eq!(
        validate_owner_and_mode(true, 0o100644, 0o600, "token"),
        Err(text("token permissions must be 600, found 644"))
    );
    assert_eq!(
        validate_owner_and_mode(true, 0o100007, 0o600, "token"),
        Err(text("token permissions must be 600, found 7"))
    );
    assert_eq!(
        validate_owner_and_mode(false, 0o100600, 0o600, "token"),
        Err(text("token owner is not the current user"))
    );
}

#[test]
fn endpoints_are_named_by_one_plain_word() {
    assert!(validate_relative_identity("s", "s", "socket").is_ok());
    assert!(validate_relative_identity("./s", "s", "socket").is_err());
    assert!(validate_relative_identity("/s", "s", "socket").is_err());
    let told = ipc_metadata("run-1", "/runs/run-1/s", 9).unwrap();
    assert_eq!((told.socket_path.as_str(), told.auth_token_path.as_str()), ("s", "ipc-token"));
    assert_eq!(told.updated_at_ms, 9);
}

#[test]
fn frames_are_read_back_in_any_pieces() {
    let value = Fields::new().put("b", Json::Unsigned(2)).put("a", Json::text("x\ny")).done();
    let bytes = write_frame(&value);
    assert_eq!(bytes, b"{\"a\":\"x\\ny\",\"b\":2}\n");
    let buffer = match FrameBuffer::new().take(&bytes[..3]) {
        FrameRead::More(buffer) => buffer,
        other => panic!("{:?}", other),
    };
    match buffer.take(&bytes[3..]) {
        FrameRead::Complete(line, used) => {
            assert_eq!(used, bytes.len() - 3);
            let read = parse_json(std::str::from_utf8(&line).unwrap()).unwrap();
            assert_eq!(read.text_at("a"), Some("x\ny"));
        }
        other => panic!("{:?}", other),
    }
    assert!(matches!(FrameBuffer::new().take(&[]), FrameRead::Truncated));
}

#[test]
fn frames_have_a_largest_size() {
    let mut line = vec![b'x'; MAX_FRAME_BYTES];
    line.push(b'\n');
    assert!(matches!(FrameBuffer::new().take(&line), FrameRead::Complete(_, _)));
    line.insert(0, b'x');
    assert!(matches!(FrameBuffer::new().take(&line), FrameRead::TooLarge));
    assert!(matches!(FrameBuffer::new().take(&line[..MAX_FRAME_BYTES + 1]), FrameRead::TooLarge));
}

#[test]
fn torn_records_are_dropped() {
    assert_eq!(durable_length(b"one\ntwo\nthr"), 8);
    assert_eq!(durable_length(b"thr"), 0);
    assert_eq!(durable_length(b""), 0);
    assert_eq!(record_bytes("{}"), b"{}\n");
}

#[test]
fn records_come_back_in_order() {
    let lines = record_lines("{\"a\":1}\n\n  \n{\"a\":2}\n");
    let records = read_records(&lines).unwrap();
    let found: Vec<u64> = records.iter().map(|r| r.unsigned_at("a").unwrap()).collect();
    assert_eq!(found, vec![1, 2]);
    assert!(read_records(&vec![text("{")]).is_err());
}

#[test]
fn file_names_hold_no_separators() {
    assert_eq!(safe_file_segment("a/b c"), "a_b_c");
    assert_eq!(safe_file_segment("a-b_c.d"), "a-b_c.d");
    assert_eq!(safe_file_segment(""), "id");
    assert_eq!(safe_file_segment(&safe_file_segment("a/b")), "a_b");
    assert!(validate_run_id("run-1").is_ok());
    for bad in ["", "a/b", "a\\b", "a\tb"] {
        assert!(validate_run_id(bad).is_err(), "{}", bad);
    }
}

#[test]
fn live_sockets_are_not_removed() {
    assert_eq!(remove_stale_socket(true, Contact::Answered, true, true), StaleSocket::InUse);
    assert_eq!(remove_stale_socket(true, Contact::Refused, true, true), StaleSocket::Remove);
    assert_eq!(remove_stale_socket(true, Contact::Refused, true, false), StaleSocket::NotSocket);
    assert_eq!(remove_stale_socket(true, Contact::NotFound, false, false), StaleSocket::Gone);
    assert_eq!(remove_stale_socket(true, Contact::Unclear, true, true), StaleSocket::Indeterminate);
    assert_eq!(remove_stale_socket(false, Contact::Refused, true, true), StaleSocket::Outside);
}

#[test]
fn runs_are_recovered_only_under_their_own_name() {
    assert!(validate_private_run_id(Some("r"), "r").is_ok());
    assert_eq!(
        validate_private_run_id(Some("q"), "r"),
        Err("private run identity does not match the requested run")
    );
    assert_eq!(validate_private_run_id(None, "r"), Err("private run identity is missing"));
    let none = load_driver_recovery_state(false, None, None, Ok(loaded()));
    assert!(none.unwrap().is_none());
    let torn = || Err(RevisionFault::Event(ReplayFault::Malformed));
    assert!(load_driver_recovery_state(true, Some("h"), None, torn()).unwrap().is_none());
    let lock = flow_lock(&FlowDraft::default(), FlowCheckMode::Core).unwrap();
    let hash = lock.content_hash().to_string();
    let package = StoredFlowRevision::stored(lock, String::from("review-1"));
    let found = load_driver_recovery_state(true, Some(&hash), Some(&package), Ok(loaded()));
    assert!(found.unwrap().unwrap().tmux.is_none());
    let fault = load_driver_recovery_state(true, Some(&hash), Some(&package), torn());
    assert_eq!(fault.err().unwrap(), "driver event payload is malformed");
    let other = load_driver_recovery_state(true, Some("h"), Some(&package), Ok(loaded()));
    assert_eq!(
        other.err().unwrap(),
        "durable runtime binding does not match its immutable flow lock"
    );
}

fn loaded() -> LoadedDriver {
    load_revisions("/runs/r", &vec![], &vec![]).unwrap()
}

#[test]
fn attach_locks_are_waited_for() {
    assert_eq!(attach_lock_step(LockAttempt::Locked, 0), LockStep::Go);
    assert_eq!(attach_lock_step(LockAttempt::Held, 0), LockStep::Wait);
    assert_eq!(attach_lock_step(LockAttempt::Held, ATTACH_LOCK_TIMEOUT_MS), LockStep::TimedOut);
    assert_eq!(attach_lock_step(LockAttempt::Failed, 0), LockStep::GiveUp);
}
