use humanize_plugin::driver::actuation::DriverActuation;
use humanize_plugin::driver::controlling::{
    ControlAction, ControlEvent, ControlMachine, ControlOutcome,
};
use humanize_plugin::driver::delivery::{start_input_delivery_with_message, AmbiguousDelivery};
use humanize_plugin::driver::failure::DriverFailure;
use humanize_plugin::driver::message::MessageRequest;
use humanize_plugin::driver::messaging::{
    MessageAction, MessageEvent, MessageMachine, MessageOutcome,
};
use humanize_plugin::driver::operation::Control;
use humanize_plugin::driver::ownership::tmux_binding_event;
use humanize_plugin::driver::records::{DriverTmuxActuationConfig, StoredPane};
use humanize_plugin::driver::replay::{
    replay_driver_events, DriverDurableEvent, ReplayedDriverEvents,
};
use humanize_plugin::driver::wire::{ActivationStatus, RunStatus};
use humanize_plugin::input_ledger::{
    machine_input_payload_hash, MachineInputRecord, MachineInputSubmission,
};
use humanize_plugin::json::{compact, parse_json, Json};

fn text(value: &str) -> String {
    value.to_string()
}

fn object(json: &str) -> Json {
    parse_json(json).unwrap()
}

fn pane() -> StoredPane {
    StoredPane {
        pane_id: text("%2"),
        session_id: text("flow"),
        window_id: text("@1"),
        window_name: text("main"),
        allocation_generation: 1,
    }
}

fn delivery(message_id: Option<&str>, told: &str, sequence: u64) -> AmbiguousDelivery {
    let role = if message_id.is_some() { "participant_message" } else { "node_prompt" };
    start_input_delivery_with_message(
        Some(&pane()),
        "act-1",
        "%2",
        role,
        message_id,
        told,
        sequence,
    )
    .unwrap()
}

fn begin(control: Control, request: &str, state: &ReplayedDriverEvents) -> ControlMachine {
    ControlMachine::begin(control, "run-1", object(request), RunStatus::Paused, state)
}

fn answer(machine: &ControlMachine) -> Json {
    match machine.action() {
        ControlAction::Finish(ControlOutcome::Answer(told)) => told,
        other => panic!("an answer was due, not {other:?}"),
    }
}

const WORD: &str = "{\"delivery_resolution\":{\"started_event_sequence\":5,\"outcome\":\"not_submitted\",\"evidence\":\" seen \"}}";

#[test]
fn open_input_keeps_a_run_from_going_on() {
    let mut state = ReplayedDriverEvents::new();
    state.deliveries.begin(delivery(None, "do it", 5));
    let told = answer(&begin(Control::Resume, "{}", &state));
    let open = compact(&delivery(None, "do it", 5).to_json());
    assert_eq!(
        compact(&told),
        format!(
            "{{\"ok\":true,\"run_id\":\"run-1\",\"run_status\":\"paused\",\"tmux_allocations\":[],\"actuation\":{{\"sent\":[],\"warnings\":[{open}]}},\"delivery_resolution\":null,\"resume_pending\":true,\"lifecycle\":null,\"pipeline\":[]}}"
        )
    );
    for other in [Control::Pause, Control::Complete, Control::Stop] {
        match begin(other, "{}", &state).action() {
            ControlAction::Tick(control, limit) => {
                assert_eq!((control, limit), (other, None));
            }
            action => panic!("{action:?}"),
        }
    }
}

#[test]
fn a_word_on_input_lets_a_run_go_on() {
    let mut state = ReplayedDriverEvents::new();
    state.deliveries.begin(delivery(None, "do it", 5));
    let mut machine = begin(Control::Resume, WORD, &state);
    match machine.action() {
        ControlAction::WriteResolution(event) => {
            assert_eq!(event.kind, "input_delivery_not_submitted");
            assert_eq!(event.payload.text_at("evidence"), Some("seen"));
        }
        action => panic!("{action:?}"),
    }
    machine.resolve(&mut state);
    assert!(state.open_deliveries().is_empty());
    assert!(matches!(machine.action(), ControlAction::Tick(Control::Resume, None)));
    machine = machine.advance(ControlEvent::Ticked(Json::text("p")));
    assert!(matches!(machine.action(), ControlAction::Commit));
    machine = machine.advance(ControlEvent::Committed);
    assert!(matches!(machine.action(), ControlAction::Settle));
    machine = machine.advance(ControlEvent::Settled(vec![], DriverActuation::default()));
    assert!(matches!(machine.action(), ControlAction::ReadStatus));
    machine = machine.advance(ControlEvent::Stands(RunStatus::Running));
    assert_eq!(
        compact(&answer(&machine)),
        "{\"ok\":true,\"run_id\":\"run-1\",\"run_status\":\"running\",\"tmux_allocations\":[],\"actuation\":{\"sent\":[],\"warnings\":[]},\"delivery_resolution\":{\"started_event_sequence\":5,\"activation_id\":\"act-1\",\"role\":\"node_prompt\",\"message_id\":null,\"outcome\":\"not_submitted\",\"evidence\":\"seen\"},\"lifecycle\":null,\"pipeline\":\"p\"}"
    );
}

#[test]
fn one_word_is_not_enough_for_two_deliveries() {
    let mut state = ReplayedDriverEvents::new();
    state.deliveries.begin(delivery(None, "do it", 5));
    state.deliveries.begin(delivery(Some("m1"), "hi", 6));
    let mut machine = begin(Control::Resume, WORD, &state);
    machine.resolve(&mut state);
    let told = answer(&machine);
    assert_eq!(told.flag_at("resume_pending"), Some(true));
    let warnings = told.get("actuation").unwrap().get("warnings").unwrap();
    assert_eq!(compact(warnings), format!("[{}]", compact(&delivery(Some("m1"), "hi", 6).to_json())));
    assert_eq!(told.get("delivery_resolution").unwrap().text_at("outcome"), Some("not_submitted"));
}

#[test]
fn panes_end_with_the_run_alone() {
    let state = ReplayedDriverEvents::new();
    let settled = |control: Control| {
        let mut machine = begin(control, "{}", &state);
        machine = machine.advance(ControlEvent::Ticked(Json::Null));
        machine = machine.advance(ControlEvent::Committed);
        machine.advance(ControlEvent::Settled(vec![], DriverActuation::default()))
    };
    assert!(matches!(settled(Control::Stop).action(), ControlAction::EndPanes("run_terminal")));
    assert!(matches!(settled(Control::Complete).action(), ControlAction::EndPanes(_)));
    assert!(matches!(settled(Control::Pause).action(), ControlAction::ReadStatus));
    let mut machine = settled(Control::Stop).advance(ControlEvent::Ended(Json::text("done")));
    machine = machine.advance(ControlEvent::Stands(RunStatus::Stopped));
    assert_eq!(answer(&machine).text_at("lifecycle"), Some("done"));
}

#[test]
fn failed_controls_are_told() {
    let state = ReplayedDriverEvents::new();
    let code = |machine: &ControlMachine| match machine.action() {
        ControlAction::Finish(ControlOutcome::Failed(failure)) => failure.code,
        other => panic!("{other:?}"),
    };
    let limit = begin(Control::Resume, "{\"activation_limit\":-1}", &state);
    assert_eq!(code(&limit), "malformed_request");
    assert!(matches!(
        begin(Control::Resume, "{\"activationLimit\":9}", &state).action(),
        ControlAction::Tick(Control::Resume, Some(9))
    ));
    assert_eq!(code(&begin(Control::Resume, WORD, &state)), "delivery_barrier_conflict");
    let failed = begin(Control::Pause, "{}", &state)
        .advance(ControlEvent::Failed(DriverFailure::new("runtime_error", "no")));
    assert_eq!(code(&failed), "runtime_error");
    let running = ControlMachine::begin(
        Control::Resume,
        "run-1",
        object("{}"),
        RunStatus::Running,
        &state,
    );
    assert!(matches!(
        running.action(),
        ControlAction::Finish(ControlOutcome::NotResting(RunStatus::Running))
    ));
}

fn owning_state() -> ReplayedDriverEvents {
    let settings = DriverTmuxActuationConfig {
        agent_ready_pattern: None,
        agent_ready_timeout_ms: 10,
        prompt_submit_key_count: 1,
    };
    let planned = tmux_binding_event("flow", "main", "@1", "agent", &settings);
    let event = DriverDurableEvent {
        seq: 1,
        at_ms: 1,
        kind: text(planned.kind),
        payload: planned.payload,
    };
    let mut state = replay_driver_events(&vec![event]).unwrap();
    state.take_pane("act-1", pane());
    state
}

fn message(state: &ReplayedDriverEvents) -> MessageMachine {
    let request = MessageRequest::from_request(&object(
        "{\"activation_id\":\"act-1\",\"message_id\":\"m1\",\"text\":\"hi\"}",
    ))
    .unwrap();
    MessageMachine::new("run-1", request, Some(ActivationStatus::Running), state)
}

fn sent() -> MachineInputRecord {
    MachineInputRecord::submitted(MachineInputSubmission {
        run_id: "run-1",
        activation_id: "act-1",
        pane_id: "%2",
        allocation_generation: 1,
        started_at_ms: 1,
        submitted_at_ms: 2,
        text: "hi",
        submit_key_count: 1,
        transaction_id: text("tx-1"),
    })
}

fn may_have_arrived(machine: &MessageMachine) -> Json {
    match machine.action() {
        MessageAction::Finish(MessageOutcome::Ambiguous(told)) => told,
        other => panic!("{other:?}"),
    }
}

#[test]
fn messages_arrive_step_by_step() {
    let mut state = owning_state();
    let mut machine = message(&state);
    match machine.action() {
        MessageAction::WriteStart(event) => {
            assert_eq!(event.kind, "input_delivery_started");
            assert_eq!(
                compact(&event.payload),
                format!(
                    "{{\"activation_id\":\"act-1\",\"pane_id\":\"%2\",\"allocation_generation\":1,\"role\":\"participant_message\",\"message_id\":\"m1\",\"payload_hash\":\"{}\",\"reason\":\"submission_receipt_incomplete\"}}",
                    machine_input_payload_hash("hi")
                )
            );
        }
        other => panic!("{other:?}"),
    }
    machine.begin(7, &mut state);
    assert_eq!(state.open_deliveries().len(), 1);
    match machine.action() {
        MessageAction::Send(target, told) => {
            assert_eq!((target.pane_id(), target.run_id(), told.as_str()), ("%2", "run-1", "hi"));
            assert_eq!(target.allocation_generation(), 1);
        }
        other => panic!("{other:?}"),
    }
    machine = machine.advance(MessageEvent::Sent(sent()));
    match machine.action() {
        MessageAction::Record(role, record) => {
            assert_eq!((role, record.transaction_id.as_str()), ("participant_message", "tx-1"));
        }
        other => panic!("{other:?}"),
    }
    machine = machine.advance(MessageEvent::Recorded);
    match machine.action() {
        MessageAction::WriteArrival(event) => {
            assert_eq!(event.kind, "participant_message_submitted");
            assert_eq!(
                compact(&event.payload),
                "{\"pane_id\":\"%2\",\"transaction_id\":\"tx-1\",\"activation_id\":\"act-1\",\"message_id\":\"m1\",\"started_event_sequence\":7,\"allocation_generation\":1}"
            );
        }
        other => panic!("{other:?}"),
    }
    machine.arrive(&mut state);
    assert!(state.open_deliveries().is_empty());
    let receipt = |machine: &MessageMachine| match machine.action() {
        MessageAction::Finish(MessageOutcome::Receipt(told)) => told,
        other => panic!("{other:?}"),
    };
    let told = receipt(&machine);
    assert_eq!(told.unsigned_at("message_count"), Some(1));
    assert_eq!(told.get("receipt").unwrap().text_at("status"), Some("submitted"));
    assert_eq!(compact(&receipt(&message(&state))), compact(&told));
}

#[test]
fn begun_messages_may_have_arrived() {
    let mut state = owning_state();
    let failure = || DriverFailure::new("run_asset_error", "no");
    let unwritten = message(&state).advance(MessageEvent::Failed(failure()));
    assert!(matches!(
        unwritten.action(),
        MessageAction::Finish(MessageOutcome::Failed(DriverFailure { code: "run_asset_error", .. }))
    ));
    assert!(state.open_deliveries().is_empty());
    let mut machine = message(&state);
    machine.begin(7, &mut state);
    let refused = may_have_arrived(&machine.advance(MessageEvent::Refused));
    assert_eq!(refused.get("error").unwrap().text_at("code"), Some("ambiguous_delivery"));
    assert_eq!(refused.get("receipt").unwrap().unsigned_at("started_event_sequence"), Some(7));
    assert_eq!(compact(&may_have_arrived(&message(&state))), compact(&refused));
    for steps in 1..3 {
        let mut fresh = owning_state();
        let mut machine = message(&fresh);
        machine.begin(7, &mut fresh);
        machine = machine.advance(MessageEvent::Sent(sent()));
        if steps == 2 {
            machine = machine.advance(MessageEvent::Recorded);
        }
        let told = may_have_arrived(&machine.advance(MessageEvent::Failed(failure())));
        assert_eq!(compact(&told), compact(&refused));
    }
}
