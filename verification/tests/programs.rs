use humanize_plugin::cli::{token_from_file, DriverArgs, DriverCommand, TokenSource, DRIVER_USAGE};
use humanize_plugin::client_config::hooks::{
    check_answer, participant_exited_request, session_start_request, stop_answer,
    stop_invocation_id, stop_request,
};
use humanize_plugin::client_config::{
    render_client_config, Client, ClientConfigError, ClientConfigTarget,
};
use humanize_plugin::driver::participant::ParticipantBindingFile;
use humanize_plugin::guard::{
    blocked_attempt_arguments, guard_tmux_argv, hook_denial, native_hook_command,
    parse_server_command, pre_tool_use_denial, ready_source, server_usage, strip_double_dash,
    BlockedEvidence, CommandFinding, GuardArgs, ServerCommand,
};
use humanize_plugin::json::{compact, parse_json, Fields, Json};

fn text(value: &str) -> String {
    value.to_string()
}

fn args(line: &[&str]) -> Vec<String> {
    line.iter().map(|word| text(word)).collect()
}

const NEEDED: [&str; 6] =
    ["--run-id", "run-1", "--runs-root", "/h/runs", "--runtime-root", "/h/rt"];

fn run_args(more: &[&str]) -> DriverArgs {
    let mut line = NEEDED.to_vec();
    line.extend_from_slice(more);
    match DriverArgs::parse(&args(&line)) {
        Ok(DriverCommand::Run(found)) => found,
        other => panic!("{:?}", other),
    }
}

#[test]
fn drivers_are_told_where_their_run_is() {
    let found = run_args(&["--auth-token", "SECRET-REDACTED"]);
    assert_eq!(found.run_id, "run-1");
    assert_eq!(found.runs_root, "/h/runs");
    assert_eq!(found.runtime_root, "/h/rt");
    assert_eq!(found.review_root, "/h/reviews");
    assert!(found.operator_pane.is_none());
    assert!(matches!(found.auth_token(), Ok(TokenSource::Given(_))));
}

#[test]
fn tokens_are_given_or_read() {
    let filed = run_args(&["--auth-token-file", "/h/t"]);
    match filed.auth_token() {
        Ok(TokenSource::File(path)) => assert_eq!(path, "/h/t"),
        other => panic!("{:?}", other),
    }
    assert_eq!(
        run_args(&[]).auth_token().err().unwrap(),
        "--auth-token or --auth-token-file is required"
    );
    assert_eq!(token_from_file(" a b \n").unwrap(), "a b");
    assert_eq!(token_from_file("\n"), Err("auth token file is empty"));
}

#[test]
fn drivers_refuse_what_they_do_not_know() {
    let refusal = |line: &[&str]| DriverArgs::parse(&args(line)).err().unwrap();
    assert_eq!(refusal(&["--nonsense"]), "unknown argument: --nonsense");
    assert_eq!(refusal(&[]), "--runs-root is required");
    assert_eq!(refusal(&["--runs-root", "/h"]), "--run-id is required");
    assert_eq!(
        refusal(&["--runs-root", "/h", "--run-id", "r"]),
        "--runtime-root is required"
    );
    assert!(matches!(DriverArgs::parse(&args(&["-h"])), Ok(DriverCommand::Help)));
    assert!(DRIVER_USAGE.starts_with("Usage: humanize-plugin-driver --run-id RUN"));
}

#[test]
fn operator_panes_are_told_whole_or_not_at_all() {
    let mut line = NEEDED.to_vec();
    line.extend_from_slice(&["--driver-session", "s"]);
    assert_eq!(
        DriverArgs::parse(&args(&line)).err().unwrap(),
        "all driver pane identity arguments are required together"
    );
    let whole = run_args(&[
        "--driver-session",
        "s",
        "--driver-window-id",
        "@1",
        "--driver-window-name",
        "main",
        "--driver-pane-id",
        "%1",
    ]);
    assert_eq!(whole.operator_pane.unwrap().pane_id, "%1");
}

#[test]
fn servers_serve_when_nothing_is_asked() {
    let command = |line: &[&str]| parse_server_command(&args(line));
    assert!(matches!(command(&[]), Ok(ServerCommand::Serve)));
    assert!(matches!(command(&["--version"]), Ok(ServerCommand::Version)));
    assert!(matches!(command(&["--list-tools"]), Ok(ServerCommand::ListTools)));
    assert!(matches!(
        command(&[&Client::Codex.pre_tool_use_flag()]),
        Ok(ServerCommand::PreToolUseHook)
    ));
    assert!(matches!(
        command(&[&Client::Claude.stop_hook_flag()]),
        Ok(ServerCommand::StopHook(Client::Claude))
    ));
    assert!(matches!(
        command(&["--participant-exited-hook", "--exit-status", "-9"]),
        Ok(ServerCommand::ParticipantExitedHook(-9))
    ));
    assert!(command(&["--participant-exited-hook", "--exit-status", "x"])
        .err()
        .unwrap()
        .starts_with("invalid participant exit status\n"));
    let lost = command(&["--what"]).err().unwrap();
    assert!(lost.ends_with(&server_usage()));
    assert!(command(&["--print-client-config"])
        .err()
        .unwrap()
        .starts_with("missing client config target or command\n"));
}

#[test]
fn guards_know_their_panes() {
    let found = GuardArgs::parse(&args(&[
        "--owned-pane",
        "a",
        "--current-pane",
        "c",
        "--owned-pane",
        "b",
        "--",
        "send-keys",
        "x",
    ]))
    .unwrap();
    assert_eq!(found.owned_panes, args(&["a", "b"]));
    assert_eq!(found.current_pane.as_deref(), Some("c"));
    assert_eq!(found.tmux_args, args(&["send-keys", "x"]));
    let refusal = |line: &[&str]| GuardArgs::parse(&args(line)).err().unwrap();
    assert!(refusal(&["--owned-pane"]).starts_with("missing owned pane target\n"));
    assert!(refusal(&["--current-pane"]).starts_with("missing current pane target\n"));
    assert!(refusal(&["--"]).starts_with("missing tmux arguments\n"));
    assert!(refusal(&[]).starts_with("missing tmux arguments\n"));
    assert!(refusal(&["x"]).starts_with("unknown guard argument: x\n"));
}

#[test]
fn words_for_tmux_start_with_its_name() {
    assert_eq!(guard_tmux_argv(&args(&["list-panes"])), args(&["tmux", "list-panes"]));
    assert_eq!(guard_tmux_argv(&args(&["/bin/tmux", "x"])), args(&["/bin/tmux", "x"]));
    assert_eq!(strip_double_dash(&args(&["--", "--", "x"])), args(&["--", "x"]));
    assert_eq!(strip_double_dash(&args(&["x"])), args(&["x"]));
    assert_eq!(ready_source(&args(&[])).unwrap(), "session_start");
    assert_eq!(ready_source(&args(&["--source", "a"])).unwrap(), "a");
    assert!(ready_source(&args(&["--source"])).is_err());
}

#[test]
fn only_shell_commands_are_looked_into() {
    let event = |name: &str, tool: &str| {
        format!(
            "{{\"hook_event_name\":\"{}\",\"tool_name\":\"{}\",\"tool_input\":{{\"command\":\"ls\"}}}}",
            name, tool
        )
    };
    assert_eq!(native_hook_command(&event("PreToolUse", "Bash")).as_deref(), Some("ls"));
    assert_eq!(native_hook_command(&event("Stop", "Bash")), None);
    assert_eq!(native_hook_command(&event("PreToolUse", "Edit")), None);
    assert_eq!(native_hook_command("{"), None);
}

#[test]
fn only_harmless_commands_go_through() {
    assert!(pre_tool_use_denial(&CommandFinding::Harmless).is_none());
    let denied = [
        CommandFinding::Unread,
        CommandFinding::OwnersUnknown,
        CommandFinding::Unclear,
        CommandFinding::OwnerUnknown,
        CommandFinding::Unrecorded,
        CommandFinding::Blocked(text("no")),
    ];
    for finding in &denied {
        assert!(pre_tool_use_denial(finding).is_some());
    }
    assert_eq!(
        hook_denial("no"),
        "{\"hookSpecificOutput\":{\"hookEventName\":\"PreToolUse\",\"permissionDecision\":\"deny\",\"permissionDecisionReason\":\"no\"}}"
    );
}

#[test]
fn blocked_attempts_are_told_without_their_text() {
    let evidence = BlockedEvidence {
        evidence_hash: text("e1"),
        operation: text("send-keys"),
        option_flags: Json::list(vec![]),
        target_hash: text("t1"),
        payload_hash: text("p1"),
        payload_length: 5,
    };
    let told = blocked_attempt_arguments("s", "act-1", "PreToolUse", &evidence);
    assert_eq!(told.text_at("source_native_id"), Some("tmux_guard_blocked:e1"));
    assert_eq!(told.text_at("activation_id"), Some("act-1"));
    assert_eq!(told.get("payload").unwrap().unsigned_at("payload_length"), Some(5));
    let driver = blocked_attempt_arguments("s", "driver", "PreToolUse", &evidence);
    assert!(driver.get("activation_id").is_none());
}

const TARGETS: [ClientConfigTarget; 6] = [
    ClientConfigTarget::CodexSession,
    ClientConfigTarget::CodexPersistent,
    ClientConfigTarget::CodexHooksJson,
    ClientConfigTarget::ClaudeProject,
    ClientConfigTarget::ClaudeSessionJson,
    ClientConfigTarget::ClaudeHooksJson,
];

#[test]
fn targets_are_found_by_their_names() {
    for target in TARGETS {
        assert_eq!(ClientConfigTarget::from_str(&target.to_text()).unwrap(), target);
    }
    let unknown = ClientConfigTarget::from_str("vim").err().unwrap();
    assert_eq!(unknown.to_text(), "unknown client config target: vim");
}

#[test]
fn configurations_name_the_command() {
    let empty = render_client_config(ClientConfigTarget::CodexPersistent, " ");
    assert!(matches!(empty, Err(ClientConfigError::EmptyCommand)));
    assert_eq!(
        render_client_config(ClientConfigTarget::CodexPersistent, "/b/it's").unwrap(),
        "codex mcp add humanize_plugin -- '/b/it'\\''s'"
    );
    assert_eq!(
        render_client_config(ClientConfigTarget::CodexSession, "/b/m").unwrap(),
        "codex -C \"$PWD\" \\\n  -c 'mcp_servers.humanize_plugin.command=\"/b/m\"' \\\n  -c 'mcp_servers.humanize_plugin.args=[]'"
    );
    assert!(render_client_config(ClientConfigTarget::ClaudeProject, "/b/m")
        .unwrap()
        .ends_with(" mcp add --scope project humanize_plugin -- /b/m"));
    let json = render_client_config(ClientConfigTarget::ClaudeSessionJson, "/b/m").unwrap();
    let server = parse_json(&json).unwrap();
    let server = server.get("mcpServers").unwrap().get("humanize_plugin").unwrap();
    assert_eq!(server.text_at("command"), Some("/b/m"));
}

#[test]
fn hooks_call_the_command_back() {
    for target in [ClientConfigTarget::CodexHooksJson, ClientConfigTarget::ClaudeHooksJson] {
        let json = parse_json(&render_client_config(target, "/b/m n").unwrap()).unwrap();
        let hooks = json.get("hooks").unwrap();
        for (occasion, flag) in [
            ("SessionStart", text("--agent-ready-hook")),
            ("PreToolUse", target.client().pre_tool_use_flag()),
            ("Stop", target.client().stop_hook_flag()),
        ] {
            let told = compact(hooks.get(occasion).unwrap());
            assert!(told.contains(&flag), "{}", told);
            assert!(told.contains("'/b/m n' --"), "{}", told);
        }
    }
}

fn binding() -> ParticipantBindingFile {
    ParticipantBindingFile {
        run_id: text("run-1"),
        activation_id: text("act-1"),
        allocation_generation: 3,
        pane_id: text("%2"),
        readiness_nonce: text("n1"),
        handle: text("h1"),
        credential: text("c1"),
        runs_root: text("/h/runs"),
    }
}

#[test]
fn sessions_are_bound_by_their_start() {
    let input = "{\"hook_event_name\":\"SessionStart\",\"session_id\":\"s1\"}";
    let source = format!("{}session_start", Client::Codex.source_prefix());
    let told = session_start_request(&binding(), Some("%2"), input, &source).unwrap();
    assert_eq!(told.text_at("native_session_id"), Some("s1"));
    assert_eq!(told.text_at("platform"), Some("codex"));
    assert_eq!(told.unsigned_at("allocation_generation"), Some(3));
    let refusal = |pane: Option<&str>, input: &str, source: &str| {
        session_start_request(&binding(), pane, input, source).err().unwrap()
    };
    assert_eq!(
        refusal(None, input, &source),
        "TMUX_PANE is required for participant hooks"
    );
    assert_eq!(
        refusal(Some("%3"), input, &source),
        "participant binding does not match the current tmux pane"
    );
    assert_eq!(
        refusal(Some("%2"), input, "vim_start"),
        "unsupported participant platform source"
    );
    assert_eq!(
        refusal(Some("%2"), "{\"hook_event_name\":\"SessionStart\"}", &source),
        "native coding session id is required"
    );
    assert_eq!(
        refusal(Some("%2"), "{\"session_id\":\"s1\"}", &source),
        "SessionStart hook event is required"
    );
    assert!(refusal(Some("%2"), "{", &source).starts_with("parse SessionStart hook JSON failed: "));
}

#[test]
fn stops_are_asked_for_under_a_name_of_their_own() {
    assert_eq!(stop_invocation_id(&[0, 255, 16]), "stop-random:00ff10");
    let input = "{\"hook_event_name\":\"Stop\",\"sessionId\":\"s1\"}";
    let told = stop_request(&binding(), Some("%2"), input, "stop-random:01").unwrap();
    assert_eq!(told.text_at("invocation_id"), Some("stop-random:01"));
    assert_eq!(told.text_at("reason"), Some("participant requested stop"));
    assert_eq!(told.text_at("native_session_id"), Some("s1"));
    let exited = participant_exited_request(&binding(), -3);
    assert_eq!(exited.get("exit_status").unwrap().as_i64(), Some(-3));
}

fn allowed() -> Json {
    Fields::new().put("ok", Json::Bool(true)).put("hook_action", Json::text("allow")).done()
}

#[test]
fn sessions_stop_when_the_driver_allows_it() {
    let codex = Client::Codex.to_text();
    assert_eq!(compact(&stop_answer(&codex, &allowed()).unwrap()), "{}");
    let denied = Fields::new()
        .put("ok", Json::Bool(true))
        .put("hook_action", Json::text("deny"))
        .put("missing_artifacts", Json::list(vec![Json::text("plan"), Json::text("code")]))
        .put("missing_effects", Json::list(vec![Json::text("push")]))
        .done();
    let told = stop_answer(&codex, &denied).unwrap();
    assert_eq!(told.text_at("decision"), Some("block"));
    assert_eq!(
        told.text_at("reason"),
        Some("Missing required outputs: artifacts: plan, code; effects: push.")
    );
    let bare = Fields::new().put("ok", Json::Bool(true)).done();
    assert_eq!(
        stop_answer(&codex, &bare).unwrap().text_at("reason"),
        Some("Required outputs are not complete.")
    );
    assert_eq!(
        stop_answer("vim", &allowed()).err().unwrap(),
        "unsupported Stop hook platform"
    );
}

#[test]
fn refusals_of_the_driver_are_passed_on() {
    assert!(check_answer(&allowed(), "failed").is_ok());
    let error = Fields::new().put("message", Json::text("no such run")).done();
    let told = Fields::new().put("ok", Json::Bool(false)).put("error", error).done();
    assert_eq!(check_answer(&told, "failed").err().unwrap(), "no such run");
    assert_eq!(check_answer(&Json::Null, "failed").err().unwrap(), "failed");
    let codex = Client::Codex.to_text();
    assert_eq!(stop_answer(&codex, &told).err().unwrap(), "no such run");
}
