use humanize_plugin::adapters::tmux::{PipeSinkIdentity, TmuxPanePresence};
use humanize_plugin::driver::cleanup::{ActivationAsset, CleanupAction, CleanupEvent, CleanupMachine};
use humanize_plugin::driver::delivery::{
    ambiguous_delivery_warning, input_delivery_resolution_from_request, start_event,
    start_input_delivery_with_message, AmbiguousDelivery, Deliveries, PlannedEvent,
    DELIVERY_ROLE_AGENT_LAUNCH, DELIVERY_ROLE_NODE_PROMPT, DELIVERY_ROLE_PARTICIPANT_MESSAGE,
};
use humanize_plugin::driver::failure::DriverFailure;
use humanize_plugin::driver::keys::delivery_key;
use humanize_plugin::driver::lifecycle::{
    missing_tmux_panes, new_capture_intent, publish_run_asset_flow_revision,
    register_configured_operator_pane, running_activation_ids, suspends_replayed_run,
    suspends_run_for_exit, Activation, AssetRevision, OperatorPaneStep, RevisionStep,
};
use humanize_plugin::driver::ownership::{
    pane_allocated_event, parse_tmux_actuation_config, should_replace_binding,
    tmux_allocation_operation_id, tmux_binding_event, tmux_cleanup_operation_id,
    tmux_config_from_request, DriverTmuxConfig,
};
use humanize_plugin::driver::records::{
    DriverPaneConfig, DriverTmuxActuationConfig, StoredPane, TmuxPaneAllocationIntent,
    TmuxPaneCleanupIntent, TmuxPipeCaptureIntent,
};
use humanize_plugin::driver::replay::{
    contained_relative_path, replay_driver_events, DriverDurableEvent, ReplayFault,
    ReplayedDriverEvents,
};
use humanize_plugin::driver::wire::{ActivationStatus, RunStatus};
use humanize_plugin::json::{compact, parse_json, Fields, Json};

fn text(value: &str) -> String {
    value.to_string()
}

fn pane(pane_id: &str, generation: u64) -> StoredPane {
    StoredPane {
        pane_id: text(pane_id),
        session_id: text("flow"),
        window_id: text("@1"),
        window_name: text("main"),
        allocation_generation: generation,
    }
}

fn actuation() -> DriverTmuxActuationConfig {
    DriverTmuxActuationConfig {
        prompt_submit_key_count: 1,
        agent_ready_pattern: None,
        agent_ready_timeout_ms: 500,
    }
}

fn event(seq: u64, planned: PlannedEvent) -> DriverDurableEvent {
    DriverDurableEvent { seq, at_ms: 10, kind: text(planned.kind), payload: planned.payload }
}

fn begun(role: &str, message_id: Option<&str>, sequence: u64) -> AmbiguousDelivery {
    start_input_delivery_with_message(
        Some(&pane("%2", 1)),
        "act-1",
        "%2",
        role,
        message_id,
        "hello",
        sequence,
    )
    .unwrap()
}

fn object(json: &str) -> Json {
    parse_json(json).unwrap()
}

fn config() -> DriverTmuxConfig {
    DriverTmuxConfig {
        session: text("flow"),
        window: text("main"),
        agent_command: text("agent"),
        actuation: actuation(),
        existing_window_id: None,
    }
}

#[test]
fn input_goes_only_to_the_pane_of_its_agent() {
    let own = pane("%2", 1);
    let refusal = |pane: Option<&StoredPane>| {
        start_input_delivery_with_message(
            pane,
            "act-1",
            "%3",
            DELIVERY_ROLE_NODE_PROMPT,
            None,
            "x",
            1,
        )
        .err()
        .unwrap()
        .code
    };
    assert_eq!(refusal(Some(&own)), "pane_not_owned");
    assert_eq!(refusal(None), "pane_not_owned");
    let delivery = begun(DELIVERY_ROLE_NODE_PROMPT, None, 4);
    assert_eq!(delivery.reason, "submission_receipt_incomplete");
    assert_eq!(delivery.started_event_sequence, 4);
    assert_eq!(delivery.allocation_generation, 1);
}

#[test]
fn begun_input_is_open_until_it_arrived() {
    let mut deliveries = Deliveries::new();
    deliveries.begin(begun(DELIVERY_ROLE_NODE_PROMPT, None, 4));
    let open = deliveries.ambiguous_input_delivery("act-1", DELIVERY_ROLE_NODE_PROMPT, 1);
    assert_eq!(open.unwrap().started_event_sequence, 4);
    assert!(deliveries
        .ambiguous_input_delivery("act-1", DELIVERY_ROLE_AGENT_LAUNCH, 1)
        .is_none());
    let told = deliveries
        .finish_event("act-1", DELIVERY_ROLE_NODE_PROMPT, None, 1, Fields::new().done())
        .unwrap();
    assert_eq!(told.kind, "prompt_submitted");
    assert_eq!(told.payload.unsigned_at("started_event_sequence"), Some(4));
    deliveries.finish_input_delivery("act-1", DELIVERY_ROLE_NODE_PROMPT, None, 1);
    assert!(deliveries
        .ambiguous_input_delivery("act-1", DELIVERY_ROLE_NODE_PROMPT, 1)
        .is_none());
    assert_eq!(deliveries.submitted.len(), 1);
    assert!(deliveries.settled.contains("act-1", 1));
}

#[test]
fn input_that_was_not_begun_does_not_arrive() {
    let deliveries = Deliveries::new();
    let finish = |role: &str| {
        deliveries.finish_event("act-1", role, None, 1, Fields::new().done()).err().unwrap().code
    };
    assert_eq!(finish(DELIVERY_ROLE_NODE_PROMPT), "delivery_barrier_conflict");
    assert_eq!(finish("gossip"), "malformed_request");
}

#[test]
fn events_of_a_delivery_bring_it_back() {
    let delivery = begun(DELIVERY_ROLE_PARTICIPANT_MESSAGE, Some("m1"), 3);
    let mut live = ReplayedDriverEvents::new();
    let first = event(3, start_event(&delivery));
    live.deliveries.begin(delivery);
    let second = live
        .deliveries
        .finish_event(
            "act-1",
            DELIVERY_ROLE_PARTICIPANT_MESSAGE,
            Some("m1"),
            1,
            Fields::new().put("pane_id", Json::text("%2")).done(),
        )
        .unwrap();
    live.deliveries.finish_input_delivery(
        "act-1",
        DELIVERY_ROLE_PARTICIPANT_MESSAGE,
        Some("m1"),
        1,
    );
    let again = replay_driver_events(&vec![first, event(4, second)]).unwrap();
    let key = delivery_key("act-1", DELIVERY_ROLE_PARTICIPANT_MESSAGE, Some("m1"), 1);
    assert_eq!(again.deliveries.ambiguous.len(), 0);
    let told = compact(&again.deliveries.submitted.get(&key).unwrap().to_json());
    assert_eq!(told, compact(&live.deliveries.submitted.get(&key).unwrap().to_json()));
}

#[test]
fn open_input_is_resolved_by_the_operator() {
    let mut deliveries = Deliveries::new();
    deliveries.begin(begun(DELIVERY_ROLE_NODE_PROMPT, None, 4));
    let request = object(
        "{\"deliveryResolution\":{\"startedEventSequence\":4,\"outcome\":\"not_submitted\",\"evidence\":\" empty prompt \"}}",
    );
    let resolution = input_delivery_resolution_from_request(&request).unwrap().unwrap();
    let delivery = deliveries.delivery_for_resolution(&resolution).unwrap();
    let told = deliveries.plan_resolution(&delivery, &resolution).unwrap();
    assert_eq!(told.kind, "input_delivery_not_submitted");
    deliveries.resolve_input_delivery(&delivery, &resolution);
    assert_eq!(deliveries.ambiguous.len(), 0);
    assert_eq!(deliveries.submitted.len(), 0);
    let gone = deliveries.delivery_for_resolution(&resolution).err().unwrap();
    assert_eq!(gone.code, "delivery_barrier_conflict");
    assert_eq!(gone.extra.unsigned_at("started_event_sequence"), Some(4));
}

#[test]
fn resolutions_are_checked() {
    let refusal = |json: &str| {
        input_delivery_resolution_from_request(&object(json)).err().unwrap().message
    };
    assert!(input_delivery_resolution_from_request(&object("{}")).unwrap().is_none());
    assert_eq!(
        refusal("{\"delivery_resolution\":1}"),
        "delivery_resolution must be an object"
    );
    assert_eq!(
        refusal("{\"delivery_resolution\":{\"started_event_sequence\":0}}"),
        "delivery resolution started_event_sequence must be a positive integer"
    );
    assert_eq!(
        refusal(
            "{\"delivery_resolution\":{\"started_event_sequence\":1,\"outcome\":\"lost\",\"evidence\":\"x\"}}"
        ),
        "delivery resolution outcome must be submitted or not_submitted"
    );
    assert_eq!(
        refusal(
            "{\"delivery_resolution\":{\"started_event_sequence\":1,\"outcome\":\"submitted\",\"evidence\":\" \"}}"
        ),
        "delivery resolution evidence must be non-empty"
    );
}

#[test]
fn warnings_name_the_agent() {
    let told = ambiguous_delivery_warning(&begun(DELIVERY_ROLE_NODE_PROMPT, None, 4), "n", "agent");
    assert_eq!(told.text_at("activation_id"), Some("act-1"));
    assert_eq!(told.text_at("node_id"), Some("n"));
    assert_eq!(told.text_at("driver"), Some("agent"));
}

fn bound_event() -> PlannedEvent {
    tmux_binding_event("flow", "main", "@1", "agent", &actuation())
}

#[test]
fn allocated_panes_survive_a_restart() {
    let events = vec![
        event(1, bound_event()),
        event(2, pane_allocated_event("act-1", "op-1", &pane("%2", 1))),
    ];
    let state = replay_driver_events(&events).unwrap();
    let tmux = state.tmux.as_ref().unwrap();
    assert_eq!(tmux.panes.get(&text("act-1")).unwrap().pane_id, "%2");
    assert_eq!(state.next_allocation_generation("act-1"), 2);
    assert_eq!(state.next_allocation_generation("act-2"), 0);
}

#[test]
fn replay_goes_on_where_it_ended() {
    let mut state = replay_driver_events(&vec![event(1, bound_event())]).unwrap();
    state.apply(&event(2, pane_allocated_event("act-1", "op-1", &pane("%2", 1)))).unwrap();
    assert_eq!(state.tmux.unwrap().panes.len(), 1);
}

#[test]
fn damaged_events_are_not_followed() {
    let damaged = DriverDurableEvent {
        seq: 1,
        at_ms: 1,
        kind: text("tmux_pane_cleanup_intent"),
        payload: Json::Null,
    };
    assert_eq!(replay_driver_events(&vec![damaged]).err(), Some(ReplayFault::Malformed));
    let unknown =
        DriverDurableEvent { seq: 1, at_ms: 1, kind: text("rumour"), payload: Json::Null };
    assert!(replay_driver_events(&vec![unknown]).is_ok());
    assert_eq!(contained_relative_path("/r", "a/b").unwrap(), "/r/a/b");
    assert_eq!(contained_relative_path("/r", "../b").err(), Some(ReplayFault::OutsideRoot));
    assert_eq!(contained_relative_path("/r", "/b").err(), Some(ReplayFault::OutsideRoot));
}

#[test]
fn events_are_read_back_from_their_line() {
    let written = event(5, pane_allocated_event("act-1", "op-1", &pane("%2", 1)));
    let line = written.to_line();
    let read = DriverDurableEvent::from_json(&object(&line)).unwrap();
    assert_eq!((read.seq, read.at_ms, read.kind.as_str()), (5, 10, "tmux_pane_allocated"));
    assert_eq!(read.to_line(), line);
    assert!(DriverDurableEvent::from_json(&object("{\"seq\":1}")).is_none());
}

#[test]
fn records_are_read_back() {
    let stored = pane("%2", 3);
    let read = StoredPane::from_json(&stored.to_json()).unwrap();
    assert_eq!(compact(&read.to_json()), compact(&stored.to_json()));
    let intent = TmuxPaneCleanupIntent {
        operation_id: text("op"),
        run_id: text("run-1"),
        activation_id: text("act-1"),
        allocation_generation: 3,
        pane: pane("%2", 3),
        reason: text("done"),
    };
    let read = TmuxPaneCleanupIntent::from_json(&intent.to_json()).unwrap();
    assert_eq!(compact(&read.to_json()), compact(&intent.to_json()));
    assert!(StoredPane::from_json(&Json::Null).is_none());
    let bare = object("{\"prompt_submit_key_count\":2}");
    assert!(DriverTmuxActuationConfig::from_json(&bare).is_some());
}

#[test]
fn released_panes_leave_the_others() {
    let mut state = replay_driver_events(&vec![
        event(1, bound_event()),
        event(2, pane_allocated_event("act-1", "op-1", &pane("%2", 1))),
        event(3, pane_allocated_event("act-2", "op-2", &pane("%3", 1))),
    ])
    .unwrap();
    let gone = vec![text("act-1")];
    let (planned, barriers) = state.plan_release(&gone).unwrap();
    assert_eq!(planned.kind, "tmux_panes_released");
    state.release_tmux_panes(&gone, &barriers, 4);
    let tmux = state.tmux.as_ref().unwrap();
    assert!(tmux.panes.get(&text("act-1")).is_none());
    assert!(tmux.panes.get(&text("act-2")).is_some());
    assert_eq!(state.next_allocation_generation("act-1"), 2);
    assert!(state.plan_release(&vec![]).is_none());
}

#[test]
fn operations_are_named_by_what_they_are_about() {
    let first = tmux_allocation_operation_id("run-1", "act-1", 1);
    assert_eq!(first, tmux_allocation_operation_id("run-1", "act-1", 1));
    assert_ne!(first, tmux_allocation_operation_id("run-1", "act-1", 2));
    assert_ne!(first, tmux_allocation_operation_id("run-1a", "ct-1", 1));
    let one = tmux_cleanup_operation_id("run-1", "act-1", &pane("%2", 1));
    assert_ne!(one, tmux_cleanup_operation_id("run-1", "act-1", &pane("%3", 1)));
}

#[test]
fn allocations_are_resumed() {
    let mut state = ReplayedDriverEvents::new();
    let (intent, begun) = state.plan_allocation(&config(), "run-1", "act-1");
    assert!(!begun);
    assert_eq!(intent.allocation_generation, 0);
    let kept = TmuxPaneAllocationIntent::from_json(&intent.to_json()).unwrap();
    state.pending_tmux_allocations.insert(text("act-1"), kept);
    let (again, begun) = state.plan_allocation(&config(), "run-1", "act-1");
    assert!(begun);
    assert_eq!(again.operation_id, intent.operation_id);
}

#[test]
fn cleanups_keep_their_name() {
    let mut state = ReplayedDriverEvents::new();
    let own = pane("%2", 1);
    let (intent, begun) =
        state.ensure_tmux_pane_cleanup_intent("run-1", "act-1", &own, "done").unwrap();
    assert!(!begun);
    state.pending_tmux_cleanups.insert(text("act-1"), intent);
    let (again, begun) =
        state.ensure_tmux_pane_cleanup_intent("run-1", "act-1", &own, "other").unwrap();
    assert!(begun);
    assert_eq!(again.reason, "done");
    let other = state.ensure_tmux_pane_cleanup_intent("run-1", "act-1", &pane("%3", 2), "done");
    assert!(other.is_err());
}

#[test]
fn bindings_are_replaced_when_they_differ() {
    let state = replay_driver_events(&vec![event(1, bound_event())]).unwrap();
    let mut wanted = config();
    assert!(!should_replace_binding(&None, &wanted));
    wanted.existing_window_id = Some(text("@1"));
    assert!(should_replace_binding(&None, &wanted));
    assert!(!should_replace_binding(&state.tmux, &wanted));
    wanted.session = text("other");
    assert!(should_replace_binding(&state.tmux, &wanted));
}

#[test]
fn configurations_of_requests_are_checked() {
    assert!(tmux_config_from_request(&object("{}")).unwrap().is_none());
    let off = object("{\"tmux\":{\"enabled\":false}}");
    assert!(tmux_config_from_request(&off).unwrap().is_none());
    let told = tmux_config_from_request(&object(
        "{\"tmux\":{\"enabled\":true,\"session\":\"flow\",\"window\":\"main\",\"agent_command\":\"agent\"}}",
    ))
    .unwrap()
    .unwrap();
    assert_eq!((told.session.as_str(), told.window.as_str()), ("flow", "main"));
    assert!(tmux_config_from_request(&object("{\"tmux\":{\"enabled\":true,\"session\":1}}")).is_err());
    assert!(parse_tmux_actuation_config(&object("{}")).is_ok());
    assert!(parse_tmux_actuation_config(&object("{\"prompt_submit_key_count\":0}")).is_err());
}

fn activation(id: &str, run_id: &str, status: ActivationStatus) -> Activation {
    Activation { activation_id: text(id), node_id: text("n"), run_id: text(run_id), status }
}

#[test]
fn running_agents_need_panes() {
    let activations = vec![
        activation("act-1", "run-1", ActivationStatus::Running),
        activation("act-2", "run-1", ActivationStatus::Completed),
        activation("act-3", "run-2", ActivationStatus::Running),
    ];
    let running = running_activation_ids(&activations, "run-1");
    assert_eq!(running, vec![text("act-1")]);
    let state = replay_driver_events(&vec![event(1, bound_event())]).unwrap();
    assert_eq!(missing_tmux_panes(&state.tmux, &running), vec![text("act-1")]);
    assert_eq!(state.pending_tmux_actuation_ids(&activations, "run-1").len(), 0);
    assert_eq!(state.allocation_config(&running).unwrap().session, "flow");
}

#[test]
fn captures_are_planned_for_their_pane() {
    let identity = PipeSinkIdentity { dev: 1, ino: 2, uid: 3, mode: 384, nlink: 1 };
    let intent =
        new_capture_intent("run-1", "act-1", &pane("%2", 1), "logs/t.log", identity, 9, "n1");
    assert_eq!(intent.transcript_relative_path, "logs/t.log");
    assert_eq!(intent.allocation_generation, 1);
    let mut state = ReplayedDriverEvents::new();
    let kept = TmuxPipeCaptureIntent::from_json(&intent.to_json()).unwrap();
    state.pending_pipe_captures.insert(text("act-1"), kept);
    assert!(state.pending_capture("act-1", &pane("%2", 1)).unwrap().is_some());
    assert!(state.pending_capture("act-2", &pane("%2", 1)).unwrap().is_none());
}

#[test]
fn operator_panes_are_owned_once() {
    let told = |pane_id: &str| {
        Some(DriverPaneConfig {
            session_id: text("flow"),
            window_id: text("@1"),
            window_name: text("main"),
            pane_id: text(pane_id),
        })
    };
    assert!(matches!(register_configured_operator_pane(&None, &None), OperatorPaneStep::Keep));
    assert!(matches!(
        register_configured_operator_pane(&None, &told("%1")),
        OperatorPaneStep::Own(_)
    ));
    let owned = Some(StoredPane::from_driver_config(&told("%1").unwrap()));
    assert!(matches!(
        register_configured_operator_pane(&owned, &told("%1")),
        OperatorPaneStep::Keep
    ));
    assert!(matches!(
        register_configured_operator_pane(&owned, &told("%7")),
        OperatorPaneStep::Replace(_)
    ));
}

#[test]
fn resting_runs_are_not_suspended() {
    assert!(suspends_replayed_run(true, RunStatus::Running, true));
    assert!(!suspends_replayed_run(false, RunStatus::Running, true));
    assert!(!suspends_replayed_run(true, RunStatus::Completed, true));
    assert!(!suspends_run_for_exit(true, RunStatus::Stopped, true));
    assert!(suspends_run_for_exit(true, RunStatus::Running, true));
}

#[test]
fn revisions_are_published_once() {
    let made = |state: &str| {
        vec![AssetRevision {
            revision_id: text("rev-1"),
            flow_lock_id: text("lock"),
            content_hash: text("h"),
            apply_state: text(state),
        }]
    };
    assert!(matches!(
        publish_run_asset_flow_revision(&vec![], "lock", "h"),
        RevisionStep::Persist
    ));
    assert!(matches!(
        publish_run_asset_flow_revision(&made("applied"), "lock", "h"),
        RevisionStep::Published
    ));
    assert!(!matches!(
        publish_run_asset_flow_revision(&made("pending"), "lock", "h"),
        RevisionStep::Published
    ));
}

fn cleanup(owned: bool) -> CleanupMachine {
    let intent = TmuxPaneCleanupIntent {
        operation_id: text("op"),
        run_id: text("run-1"),
        activation_id: text("act-1"),
        allocation_generation: 1,
        pane: pane("%2", 1),
        reason: text("done"),
    };
    let current = if owned { Some(pane("%2", 1)) } else { None };
    CleanupMachine::new("run-1", &intent, &current, false)
}

fn asset() -> ActivationAsset {
    ActivationAsset {
        allocation_generation: 1,
        pane_id: text("%2"),
        capture_phase: text("running"),
        capture_complete: false,
        pipe_acknowledged: false,
        resource_cleanup_status: text("pending"),
        resource_cleanup_error: None,
    }
}

#[test]
fn screens_are_kept_before_panes_go() {
    let mut machine = cleanup(true);
    let mut done: Vec<&str> = Vec::new();
    for _ in 0..40 {
        let (name, told) = match machine.action() {
            CleanupAction::ReadAssets => ("assets", CleanupEvent::Assets(Some(asset()))),
            CleanupAction::ReadCompletion => ("completion", CleanupEvent::Completion(false)),
            CleanupAction::ProbePane => {
                ("probe", CleanupEvent::Presence(TmuxPanePresence::Present))
            }
            CleanupAction::ReadSnapshot => ("snapshot", CleanupEvent::Text(None)),
            CleanupAction::CapturePane => ("capture", CleanupEvent::Text(Some(text("screen")))),
            CleanupAction::SaveSnapshot(screen) => {
                assert_eq!(screen, "screen");
                ("save", CleanupEvent::Done)
            }
            CleanupAction::KillPane => ("kill", CleanupEvent::Done),
            CleanupAction::MarkCleanup(_, _) => ("mark", CleanupEvent::Done),
            CleanupAction::AwaitCompletion => ("await", CleanupEvent::Done),
            CleanupAction::CompleteCapture(_) => ("complete", CleanupEvent::Done),
            CleanupAction::FailCapture(_) => ("salvage", CleanupEvent::Done),
            CleanupAction::RemoveCompletion => ("remove", CleanupEvent::Done),
            CleanupAction::Release => ("release", CleanupEvent::Done),
            CleanupAction::RetireBinding => ("retire", CleanupEvent::Done),
            CleanupAction::Append(planned) => {
                assert_eq!(planned.kind, "tmux_pane_cleanup_receipt");
                ("receipt", CleanupEvent::Done)
            }
            CleanupAction::Finish(outcome) => {
                let (told, _) = outcome.unwrap();
                assert_eq!(told.text_at("status"), Some("complete"));
                break;
            }
        };
        done.push(name);
        machine.advance(told);
    }
    let at = |name: &str| done.iter().position(|found| *found == name).unwrap();
    assert!(at("capture") < at("save"), "{:?}", done);
    assert!(at("save") < at("kill"), "{:?}", done);
    assert!(at("kill") < at("release"), "{:?}", done);
    assert_eq!(*done.last().unwrap(), "receipt");
}

#[test]
fn refused_cleanups_are_told() {
    let mut machine = cleanup(true);
    machine.advance(CleanupEvent::Failed(DriverFailure::new("io_error", "disk full")));
    let mut ended = false;
    for _ in 0..10 {
        match machine.action() {
            CleanupAction::Finish(outcome) => {
                assert_eq!(outcome.err().unwrap().message, "disk full");
                ended = true;
                break;
            }
            _ => machine.advance(CleanupEvent::Done),
        }
    }
    assert!(ended);
}
