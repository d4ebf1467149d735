use humanize_plugin::driver::message::record_hook_fact_response;
use humanize_plugin::driver::operation::{
    activate_node_response, apply_flow_revision_response, console_error, console_why,
    control_response, deliver_artifact_response, fanout_response, observe_stop_response,
    patch_board_response, record_effect_response, resume_pending_response, shutdown_response,
};
use humanize_plugin::driver::read_model::{view_snapshot_response, view_terminal_response};
use humanize_plugin::driver::request::check_node_spec;
use humanize_plugin::driver::revision::referenced_locks;
use humanize_plugin::driver::wire::{
    route_decisions_json, stop_decisions_json, FlowLockMode, RouteDecision, RunStatus,
    StopDecision, StopDecisionKind,
};
use humanize_plugin::json::{compact, Json};

fn text(value: &str) -> String {
    value.to_string()
}

fn list() -> Json {
    Json::list(vec![])
}

#[test]
fn answers_to_controls_tell_where_the_run_stands() {
    let pending = resume_pending_response("r", RunStatus::Paused, Json::text("a"), Json::Null);
    assert_eq!(
        compact(&pending),
        "{\"ok\":true,\"run_id\":\"r\",\"run_status\":\"paused\",\"tmux_allocations\":[],\"actuation\":\"a\",\"delivery_resolution\":null,\"resume_pending\":true,\"lifecycle\":null,\"pipeline\":[]}"
    );
    let done = control_response(
        "r",
        RunStatus::Running,
        vec![Json::text("t")],
        Json::text("a"),
        Json::Null,
        Json::text("l"),
        list(),
    );
    assert_eq!(
        compact(&done),
        "{\"ok\":true,\"run_id\":\"r\",\"run_status\":\"running\",\"tmux_allocations\":[\"t\"],\"actuation\":\"a\",\"delivery_resolution\":null,\"lifecycle\":\"l\",\"pipeline\":[]}"
    );
    assert_eq!(
        compact(&shutdown_response("r")),
        "{\"ok\":true,\"run_id\":\"r\",\"shutdown\":\"requested\"}"
    );
}

#[test]
fn answers_to_agents_tell_what_was_taken_in() {
    let artifact = deliver_artifact_response(
        "r",
        RunStatus::Running,
        "act-1",
        "plan",
        "art-1",
        list(),
        vec![],
        Json::Null,
        vec![],
    );
    assert_eq!(
        compact(&artifact),
        "{\"ok\":true,\"run_id\":\"r\",\"run_status\":\"running\",\"activation_id\":\"act-1\",\"artifact_key\":\"plan\",\"artifact_id\":\"art-1\",\"pipeline\":[],\"tmux_allocations\":[],\"actuation\":null,\"route_decisions\":[]}"
    );
    let board =
        patch_board_response("r", RunStatus::Running, "act-1", 7, vec![], Json::Null, list());
    assert_eq!(
        compact(&board),
        "{\"ok\":true,\"run_id\":\"r\",\"run_status\":\"running\",\"activation_id\":\"act-1\",\"board_version\":7,\"tmux_allocations\":[],\"actuation\":null,\"pipeline\":[]}"
    );
    let effect =
        record_effect_response("r", RunStatus::Running, "act-1", "e", vec![], Json::Null, list());
    assert_eq!(
        compact(&effect),
        "{\"ok\":true,\"run_id\":\"r\",\"run_status\":\"running\",\"activation_id\":\"act-1\",\"effect_key\":\"e\",\"tmux_allocations\":[],\"actuation\":null,\"pipeline\":[]}"
    );
    let stop = observe_stop_response(
        "r",
        "act-1",
        RunStatus::Completed,
        vec![],
        vec![],
        Json::Null,
        Json::text("l"),
        list(),
    );
    assert_eq!(
        compact(&stop),
        "{\"ok\":true,\"run_id\":\"r\",\"activation_id\":\"act-1\",\"run_status\":\"completed\",\"stop_decisions\":[],\"tmux_allocations\":[],\"actuation\":null,\"lifecycle\":\"l\",\"pipeline\":[]}"
    );
    let fact = record_hook_fact_response("r", "s1", "Stop", 4, Json::Null);
    assert_eq!(
        compact(&fact),
        "{\"ok\":true,\"run_id\":\"r\",\"session_id\":\"s1\",\"hook\":\"Stop\",\"record_generation\":4,\"run_assets\":null}"
    );
}

#[test]
fn answers_to_operators_tell_what_was_begun() {
    let node = activate_node_response("r", "act-1", vec![], Json::Null, list());
    assert_eq!(
        compact(&node),
        "{\"ok\":true,\"run_id\":\"r\",\"activation_id\":\"act-1\",\"tmux_allocations\":[],\"actuation\":null,\"pipeline\":[]}"
    );
    let ids = vec![text("a"), text("b")];
    let fan = fanout_response("r", "n", "plan", &ids, vec![], Json::Null, list());
    assert_eq!(
        compact(&fan),
        "{\"ok\":true,\"run_id\":\"r\",\"node_id\":\"n\",\"artifact_key\":\"plan\",\"activation_ids\":[\"a\",\"b\"],\"tmux_allocations\":[],\"actuation\":null,\"pipeline\":[]}"
    );
    let applied = apply_flow_revision_response(
        "r",
        "lock-1",
        "sha256:x",
        FlowLockMode::CheckpointRestart,
        vec![],
        Json::Null,
        list(),
    );
    assert!(compact(&applied).starts_with(
        "{\"ok\":true,\"run_id\":\"r\",\"flow_lock_id\":\"lock-1\",\"content_hash\":\"sha256:x\",\"apply_mode\":\"checkpoint_restart\""
    ));
    assert!(check_node_spec("n", "n").is_ok());
    assert_eq!(check_node_spec("m", "n").err().unwrap().code, "malformed_request");
}

#[test]
fn views_say_how_they_are_shown() {
    assert_eq!(
        compact(&view_terminal_response("board", 2)),
        "{\"ok\":true,\"format\":\"terminal\",\"dashboard\":\"board\",\"run_count\":2}"
    );
    assert_eq!(
        compact(&view_snapshot_response(1, Json::Null)),
        "{\"ok\":true,\"format\":\"json\",\"run_count\":1,\"snapshot\":null}"
    );
    assert!(console_why("r", RunStatus::Paused).contains("paused"));
    assert!(console_error("r", "no such thing").contains("no such thing"));
}

#[test]
fn decisions_are_listed_in_their_order() {
    let decision = |kind: StopDecisionKind, attempt: u32| StopDecision {
        kind,
        attempt,
        missing_artifacts: vec![text("plan")],
        missing_effects: vec![],
        reason: text("not yet"),
    };
    let told = stop_decisions_json(&vec![
        decision(StopDecisionKind::Deny, 1),
        decision(StopDecisionKind::Allow, 2),
    ]);
    assert_eq!(told.len(), 2);
    assert!(compact(&told[0]).contains("\"deny\"") && compact(&told[0]).contains("not yet"));
    assert!(compact(&told[1]).contains("\"allow\""));
    let route = RouteDecision {
        run_id: text("r"),
        flow_lock_id: text("lock-1"),
        route_index: 3,
        route_id: text("route"),
        trigger: Json::Null,
        predicate: Json::text("p"),
        for_each: Json::Null,
        planned_activation_ids: vec![text("a")],
        applied_activation_ids: vec![],
    };
    let told = route_decisions_json(&vec![route]);
    assert_eq!(told[0].unsigned_at("route_index"), Some(3));
    assert_eq!(told[0].text_at("flow_lock_id"), Some("lock-1"));
    let locks = referenced_locks(&vec![
        (text("lock-1"), text("old")),
        (text("lock-2"), text("x")),
        (text("lock-1"), text("new")),
    ]);
    assert_eq!(locks.len(), 2);
    assert_eq!(locks.get(&text("lock-1")), Some(&text("new")));
}
