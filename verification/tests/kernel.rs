use humanize_plugin::flow::predicate::FlowPredicate;
use humanize_plugin::input_ledger::{
    is_safe_run_path_segment, machine_input_payload_hash, machine_input_run_path_segment,
    machine_input_transaction_id, normalize_machine_input_text, MachineInputClock,
    MachineInputLedger, MachineInputRecord, MachineInputStatus, MachineInputSubmission,
};
use humanize_plugin::kernel::{
    Artifact, ArtifactPayload, Board, BoardPatch, BoardPatchError, BoardValue, CompletionRule,
    Contract, ContractPermit, ContractProduction, ContractRequirement, Node,
};

fn text(value: &str) -> String {
    value.to_string()
}

#[test]
fn nodes_tell_what_they_were_made_of() {
    let node = Node::new(text("n1"), text("Audit"), text("c1"));
    assert_eq!(node.id(), "n1");
    assert_eq!(node.name(), "Audit");
    assert_eq!(node.contract_id(), "c1");
}

#[test]
fn artifacts_are_fingerprinted_by_all_they_hold() {
    let empty = Artifact::new(text("a1"), text("Report"), text("schema"), ArtifactPayload::new());
    assert_eq!(empty.fingerprint(), "18ed2dc3a11381a8");
    let mut payload = ArtifactPayload::new();
    payload.insert(text("k"), text("v"));
    let full = Artifact::new(text("a1"), text("Report"), text("schema"), payload);
    assert_eq!(full.fingerprint(), "b6514692d7c6ffa3");
    assert_eq!(full.payload().get(&text("k")), Some(&text("v")));
    assert_eq!(full.id(), "a1");
    assert_eq!(full.name(), "Report");
    assert_eq!(full.schema(), "schema");
}

#[test]
fn boards_take_patches_for_the_version_they_have() {
    let mut board = Board::new(text("b"));
    assert_eq!(board.version(), 0);
    let patch = BoardPatch::new(0)
        .set(text("x"), BoardValue::Number(3))
        .set(text("y"), BoardValue::Bool(true))
        .remove(text("x"));
    assert_eq!(board.apply(patch), Ok(1));
    assert_eq!(board.version(), 1);
    assert!(board.get("x").is_none());
    assert!(matches!(board.get("y"), Some(BoardValue::Bool(true))));
}

#[test]
fn boards_refuse_patches_for_another_version_unchanged() {
    let mut board = Board::new(text("b"));
    board.apply(BoardPatch::new(0).set(text("x"), BoardValue::Text(text("old")))).unwrap();
    let late = BoardPatch::new(0).set(text("x"), BoardValue::Text(text("new")));
    assert_eq!(
        board.apply(late),
        Err(BoardPatchError::VersionConflict { expected: 0, actual: 1 })
    );
    assert_eq!(board.version(), 1);
    assert!(matches!(board.get("x"), Some(BoardValue::Text(value)) if value == "old"));
}

#[test]
fn contracts_collect_what_they_ask_for() {
    let contract = Contract::new(text("c"))
        .require(ContractRequirement::artifact_schema(text("in")))
        .produce(ContractProduction::artifact_schema(text("out")))
        .permit(ContractPermit::RecordEffect)
        .with_completion(CompletionRule::Predicate(
            FlowPredicate::exists_artifact(text("out")).unwrap(),
        ));
    assert_eq!(contract.required_artifacts().len(), 1);
    assert_eq!(contract.required_artifacts()[0].schema(), "in");
    assert_eq!(contract.produced_artifacts()[0].schema(), "out");
    assert_eq!(contract.permits(), &[ContractPermit::RecordEffect]);
    assert!(matches!(contract.completion(), CompletionRule::Predicate(_)));
    assert_eq!(contract.id(), "c");
}

#[test]
fn input_is_normalized_before_it_is_hashed() {
    assert_eq!(normalize_machine_input_text("hello\r\nworld\r\n\n"), "hello\nworld");
    assert_eq!(normalize_machine_input_text("a\rb"), "a\nb");
    assert_eq!(machine_input_payload_hash("hello\r\nworld\n"), "fnv1a64:7401c5c6850a2279");
    assert_eq!(
        machine_input_payload_hash("hello\nworld"),
        machine_input_payload_hash("hello\r\nworld\n\n")
    );
}

#[test]
fn transactions_are_named_by_what_they_are() {
    let hash = machine_input_payload_hash("hello\nworld");
    assert_eq!(
        machine_input_transaction_id("run-1", "act-1", "%5", &hash, 17, 3),
        "machine-input:07bb411ac6f4b732"
    );
    assert_ne!(
        machine_input_transaction_id("run-1", "act-1", "%5", &hash, 17, 4),
        machine_input_transaction_id("run-1", "act-1", "%5", &hash, 17, 3)
    );
}

#[test]
fn runs_get_a_directory_of_their_own() {
    assert!(is_safe_run_path_segment("run-1.a_b"));
    assert!(!is_safe_run_path_segment(".."));
    assert!(!is_safe_run_path_segment("a/b"));
    assert!(!is_safe_run_path_segment(""));
    assert_eq!(machine_input_run_path_segment("run-1"), "run-1");
    assert_eq!(machine_input_run_path_segment(""), "run-cbf29ce484222325");
    assert!(is_safe_run_path_segment(&machine_input_run_path_segment("../up")));
    assert!(machine_input_run_path_segment("a/b").starts_with("a_b-"));
}

fn submission<'a>(body: &'a str) -> MachineInputSubmission<'a> {
    MachineInputSubmission {
        run_id: "run-1",
        activation_id: "act-1",
        pane_id: "%5",
        allocation_generation: 2,
        started_at_ms: 17,
        submitted_at_ms: 18,
        text: body,
        submit_key_count: 1,
        transaction_id: text("tx"),
    }
}

#[test]
fn ledgers_keep_their_entries_in_order() {
    let mut ledger = MachineInputLedger::in_memory();
    assert!(ledger.append(MachineInputRecord::started(submission("one")), None).is_none());
    assert!(ledger.append(MachineInputRecord::submitted(submission("one")), None).is_none());
    let records = ledger.records();
    assert_eq!(records.len(), 2);
    assert_eq!(records[0].status, MachineInputStatus::Started);
    assert_eq!(records[1].status, MachineInputStatus::Submitted);
    let lines = ledger.jsonl_lines();
    assert_eq!(lines.len(), 2);
    assert!(lines[0].starts_with("{\"run_id\":\"run-1\",\"activation_id\":\"act-1\""));
    assert!(lines[0].contains("\"pane_id\":\"%5\",\"allocation_generation\":2"));
    assert!(lines[1].ends_with("\"status\":\"submitted\"}"));
}

#[test]
fn ledgers_number_their_transactions() {
    let mut ledger = MachineInputLedger::in_memory();
    let first = ledger.next_sequence();
    let second = ledger.next_sequence();
    assert_eq!(first, 1);
    assert_eq!(second, first + 1);
    ledger.append(MachineInputRecord::started(submission("one")), None);
    ledger.append(MachineInputRecord::started(submission("one")), None);
    assert_eq!(ledger.records().len(), 2);
    assert_eq!(ledger.last_sequence(), 2);
    assert_eq!(ledger.next_sequence(), 3);
}

#[test]
fn ledgers_lie_where_the_store_has_the_run() {
    assert_eq!(
        MachineInputLedger::runtime_default_path("run-1", None),
        "./run-1/machine-inputs.jsonl"
    );
    assert_eq!(
        MachineInputLedger::runtime_default_path("run-1", Some(text("/runs/run-1"))),
        "/runs/run-1/machine-inputs.jsonl"
    );
    let mut ledger = MachineInputLedger::runtime_default();
    let record = MachineInputRecord::started(submission("one"));
    let write = ledger.append(record, Some(text("/runs/run-1"))).unwrap();
    assert_eq!(write.path, "/runs/run-1/machine-inputs.jsonl");
    assert!(ledger.records().is_empty());
}

#[test]
fn ledgers_at_a_path_tell_what_to_write() {
    let mut ledger = MachineInputLedger::at_path(text("/tmp/ledger.jsonl"));
    let write = ledger.append(MachineInputRecord::failed(submission("one")), None).unwrap();
    assert_eq!(write.path, "/tmp/ledger.jsonl");
    assert!(write.line.contains("\"status\":\"failed\""));
    assert!(ledger.records().is_empty());
}

#[test]
fn entries_may_show_another_text() {
    let record = MachineInputRecord::submitted_with_projection(submission("secret"), "shown\r\n");
    assert_eq!(record.normalized_text, "shown");
    assert_eq!(record.payload_hash, machine_input_payload_hash("secret"));
    let plain = MachineInputRecord::submitted(submission("secret"));
    assert_eq!(plain.normalized_text, "secret");
    assert_eq!(plain.payload_hash, record.payload_hash);
}

#[test]
fn clocks_tell_the_time_they_were_given() {
    assert_eq!(MachineInputClock::realtime().now_ms(5), 5);
    assert_eq!(MachineInputClock::fixed(9).now_ms(5), 9);
}
