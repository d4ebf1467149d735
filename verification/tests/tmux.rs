use std::cell::RefCell;
use std::rc::Rc;

use humanize_plugin::adapters::hooks::{
    build_stop_hook_payload, DriverDecision, HookAction, StopHookInput,
};
use humanize_plugin::adapters::lifecycle::{LifecycleCleanupAction, LifecycleStatus};
use humanize_plugin::adapters::tmux::delay::Delay;
use humanize_plugin::adapters::tmux::error::{restricted_operation, validate_session_id};
use humanize_plugin::adapters::tmux::input::{
    pane_text_wait, submission_acceptance, HarnessProfile, InputAction, InputEvent, InputMachine, PaneTextWait,
};
use humanize_plugin::adapters::tmux::pipe::{
    completion_wait, default_pipe_completion_path, exit_wait, process_matches, process_start_time,
    ready_wait, shell_single_quote_str, transcript_place, PipeFile, PipeWait,
};
use humanize_plugin::adapters::tmux::runner::program_for;
use humanize_plugin::adapters::tmux::steps::{
    next_for_kill_pane, next_for_session, next_for_session_pane, TmuxStep,
};
use humanize_plugin::adapters::tmux::{
    CommandOutput, CommandRunner, PipeCaptureRequest, PipeSinkIdentity, PipeSinkReady,
    TmuxActivation, TmuxActivationMetadata, TmuxActivationRequest, TmuxAdapter, TmuxError,
    TmuxInputTransaction, TmuxInputTransactionConfig, TmuxPane, TmuxPanePresence,
    TmuxPipeCapture, TmuxSession, TmuxWindow,
};
use humanize_plugin::input_ledger::{MachineInputLedger, MachineInputRecord, MachineInputStatus};

#[derive(Clone)]
struct Scripted {
    asked: Rc<RefCell<Vec<Vec<String>>>>,
    answers: Rc<RefCell<Vec<CommandOutput>>>,
    gone: Rc<RefCell<Vec<String>>>,
}

impl Scripted {
    fn new(mut answers: Vec<CommandOutput>) -> Self {
        answers.reverse();
        Scripted {
            asked: Rc::new(RefCell::new(Vec::new())),
            answers: Rc::new(RefCell::new(answers)),
            gone: Rc::new(RefCell::new(Vec::new())),
        }
    }

    fn asked(&self) -> Vec<Vec<String>> {
        self.asked.borrow().clone()
    }
}

impl CommandRunner for Scripted {
    fn run(&self, argv: Vec<String>) -> Result<CommandOutput, TmuxError> {
        if argv.is_empty() {
            return Err(TmuxError::EmptyArgv);
        }
        self.asked.borrow_mut().push(argv);
        match self.answers.borrow_mut().pop() {
            Some(answer) => Ok(answer),
            None => Ok(CommandOutput::success(String::new())),
        }
    }

    fn pipe_sink_producer_closed(&self, target: &str) {
        self.gone.borrow_mut().push(target.to_string());
    }
}

fn text(value: &str) -> String {
    value.to_string()
}

fn printed(value: &str) -> CommandOutput {
    CommandOutput::success(text(value))
}

fn refused(value: &str) -> CommandOutput {
    CommandOutput::failure(text(value))
}

fn words(line: &[&str]) -> Vec<String> {
    line.iter().map(|word| text(word)).collect()
}

fn adapter(answers: Vec<CommandOutput>) -> (TmuxAdapter<Scripted>, Scripted) {
    let runner = Scripted::new(answers);
    (TmuxAdapter::with_runner(runner.clone()), runner)
}

fn metadata() -> TmuxActivationMetadata {
    TmuxActivationMetadata::new(
        text("flow"),
        text("run-1"),
        text("main"),
        text("@1"),
        text("act-1"),
        text("%2"),
    )
}

fn pane() -> TmuxPane {
    TmuxPane::new_in_session(text("flow"), text("@1"), text("act-1"), text("%2"))
}

fn refusal<T>(outcome: Result<T, TmuxError>) -> String {
    match outcome {
        Ok(_) => panic!("an error was due"),
        Err(error) => error.to_text(),
    }
}

#[test]
fn session_names_are_checked() {
    assert!(validate_session_id("flow").is_ok());
    assert!(matches!(
        validate_session_id(""),
        Err(TmuxError::InvalidSessionName { reason: "tmux session name must not be empty" })
    ));
    assert!(matches!(validate_session_id("a:b"), Err(TmuxError::InvalidSessionName { .. })));
    assert!(matches!(validate_session_id("a.b"), Err(TmuxError::InvalidSessionName { .. })));
    assert_eq!(refusal(validate_session_id("dev")), "tmux session named dev is reserved");
}

#[test]
fn reserved_sessions_are_never_touched() {
    let (tmux, runner) = adapter(vec![]);
    assert!(matches!(
        tmux.ensure_session(text("dev")),
        Err(TmuxError::ReservedSession { .. })
    ));
    assert!(tmux.kill_session(&TmuxSession::new(text("dev"))).is_err());
    assert!(runner.asked().is_empty());
}

#[test]
fn sessions_are_made_only_where_they_are_missing() {
    let (tmux, runner) = adapter(vec![printed("")]);
    assert!(tmux.ensure_session(text("flow")).is_ok());
    assert_eq!(runner.asked(), vec![words(&["tmux", "has-session", "-t", "flow"])]);
    let (tmux, runner) = adapter(vec![refused("no"), printed("")]);
    assert!(tmux.ensure_session(text("flow")).is_ok());
    assert_eq!(
        runner.asked(),
        vec![
            words(&["tmux", "has-session", "-t", "flow"]),
            words(&["tmux", "new-session", "-d", "-s", "flow"]),
        ]
    );
    let (tmux, runner) = adapter(vec![refused("no"), refused("full")]);
    assert!(tmux.ensure_session(text("flow")).is_err());
    assert_eq!(runner.asked().len(), 2);
}

#[test]
fn the_runner_is_told_when_a_pane_is_gone() {
    let (tmux, runner) = adapter(vec![printed("")]);
    assert!(tmux.kill_pane(&pane()).is_ok());
    assert_eq!(runner.asked(), vec![words(&["tmux", "kill-pane", "-t", "flow:@1.%2"])]);
    assert_eq!(runner.gone.borrow().clone(), vec![text("flow:@1.%2")]);
    let (tmux, runner) = adapter(vec![refused("no such pane")]);
    assert!(tmux.kill_pane(&pane()).is_err());
    assert_eq!(runner.asked().len(), 1);
    assert!(runner.gone.borrow().is_empty());
}

#[test]
fn sessions_with_a_pane_take_one_command() {
    let (tmux, runner) = adapter(vec![printed("@1|%2\n")]);
    let (_, window, made) = tmux
        .create_session_with_window_pane(text("flow"), text("run-1"), text("main"), text("act-1"))
        .unwrap();
    assert_eq!((window.id(), made.id()), ("@1", "%2"));
    assert_eq!(
        runner.asked(),
        vec![words(&[
            "tmux",
            "new-session",
            "-d",
            "-P",
            "-F",
            "#{window_id}|#{pane_id}",
            "-s",
            "flow",
            "-n",
            "main",
        ])]
    );
}

#[test]
fn steps_follow_the_answers() {
    let pending = vec![Ok(refused("no"))];
    assert!(matches!(next_for_session("flow", &vec![]), TmuxStep::Run(_)));
    assert!(matches!(next_for_session("flow", &pending), TmuxStep::Run(_)));
    assert!(matches!(next_for_session("dev", &vec![]), TmuxStep::Finish(Err(_))));
    let done = vec![Ok(printed(""))];
    assert!(matches!(next_for_kill_pane(&pane(), &done, false), TmuxStep::PaneGone(_)));
    assert!(matches!(next_for_kill_pane(&pane(), &done, true), TmuxStep::Finish(Ok(()))));
    assert!(matches!(next_for_kill_pane(&pane(), &pending, false), TmuxStep::Finish(Err(_))));
    let made = next_for_session_pane("flow", "run-1", "main", "act-1", &pending);
    assert!(matches!(made, TmuxStep::Finish(Err(_))));
}

#[test]
fn another_tmux_takes_the_place_of_tmux_alone() {
    let asked = words(&["/usr/bin/tmux", "ls"]);
    assert_eq!(program_for(&asked, Some(text("/opt/tmux"))).as_deref(), Some("/opt/tmux"));
    assert_eq!(program_for(&asked, Some(text(""))).as_deref(), Some("/usr/bin/tmux"));
    assert_eq!(program_for(&asked, None).as_deref(), Some("/usr/bin/tmux"));
    let other = words(&["sh", "-c", "tmux"]);
    assert_eq!(program_for(&other, Some(text("/opt/tmux"))).as_deref(), Some("sh"));
    assert!(program_for(&vec![], Some(text("/opt/tmux"))).is_none());
}

#[test]
fn panes_without_a_session_are_refused() {
    let (tmux, runner) = adapter(vec![]);
    let lost = TmuxPane::new(text("@1"), text("act-1"), text("%2"));
    assert_eq!(refusal(tmux.kill_pane(&lost)), "tmux pane requires session ownership");
    assert_eq!(refusal(tmux.capture_pane(&lost)), "tmux pane requires session ownership");
    assert!(runner.asked().is_empty());
}

#[test]
fn sessions_that_exist_are_kept() {
    let (tmux, runner) = adapter(vec![printed("")]);
    assert_eq!(tmux.ensure_session(text("flow")).unwrap().id(), "flow");
    assert_eq!(runner.asked(), vec![words(&["tmux", "has-session", "-t", "flow"])]);
}

#[test]
fn sessions_that_are_missing_are_made() {
    let (tmux, runner) = adapter(vec![refused("no session"), printed("")]);
    assert_eq!(tmux.ensure_session(text("flow")).unwrap().id(), "flow");
    assert_eq!(
        runner.asked(),
        vec![
            words(&["tmux", "has-session", "-t", "flow"]),
            words(&["tmux", "new-session", "-d", "-s", "flow"]),
        ]
    );
}

#[test]
fn windows_take_the_id_that_tmux_prints() {
    let (tmux, runner) = adapter(vec![printed(" @7\n")]);
    let session = TmuxSession::new(text("flow"));
    let window = tmux.create_window_named(&session, text("run-1"), text("main")).unwrap();
    assert_eq!(window.id(), "@7");
    assert_eq!(window.name(), "main");
    assert_eq!(
        runner.asked(),
        vec![words(&[
            "tmux",
            "new-window",
            "-P",
            "-F",
            "#{window_id}",
            "-t",
            "flow",
            "-n",
            "main",
        ])]
    );
    let (silent, _) = adapter(vec![printed(" \n")]);
    assert_eq!(
        refusal(silent.create_window_named(&session, text("run-1"), text("main"))),
        "tmux did not return window id"
    );
}

#[test]
fn failed_commands_tell_their_status_and_hide_their_text() {
    let (tmux, _) = adapter(vec![refused("the secret words")]);
    let error = match tmux.send_keys_literal(&pane(), "top secret") {
        Ok(_) => panic!("an error was due"),
        Err(error) => error,
    };
    let told = error.to_text();
    assert!(told.starts_with("tmux command failed with status 1 (operation=send-keys "));
    assert!(!told.contains("secret"));
    match error {
        TmuxError::CommandFailed { diagnostic, status } => {
            assert_eq!(status, 1);
            assert_eq!(diagnostic.detail_length, 16);
            assert!(diagnostic.command_hash.starts_with("sha256:"));
            assert_eq!(diagnostic.command_hash.len(), 71);
        }
        other => panic!("{}", other.to_text()),
    }
}

#[test]
fn only_known_operations_are_named() {
    assert_eq!(restricted_operation(&words(&["tmux", "kill-pane", "-t", "x"])), "kill-pane");
    assert_eq!(restricted_operation(&words(&["/usr/bin/tmux", "kill-pane"])), "kill-pane");
    assert_eq!(restricted_operation(&words(&["tmux", "do-evil"])), "command");
    assert_eq!(restricted_operation(&words(&["tmux"])), "command");
    assert_eq!(restricted_operation(&[]), "command");
}

#[test]
fn panes_are_what_tmux_shows() {
    let shown = "flow|@1|main|%2\n";
    let (tmux, _) = adapter(vec![printed(shown)]);
    assert!(tmux.validate_exact_pane(&metadata()).is_ok());
    let (other, _) = adapter(vec![printed("flow|@1|main|%3\n")]);
    assert_eq!(
        refusal(other.validate_exact_pane(&metadata())),
        "tmux pane metadata mismatch: expected flow:@1(main).%2, got flow:@1(main).%3"
    );
    let (tabs, _) = adapter(vec![printed("flow\t@1\tmain\t%2")]);
    assert!(tabs.validate_exact_pane(&metadata()).is_ok());
}

#[test]
fn presence_is_told_by_the_list_of_all_panes() {
    let (here, _) = adapter(vec![printed("flow|@1|main|%2")]);
    assert_eq!(here.probe_exact_pane_presence(&metadata()).unwrap(), TmuxPanePresence::Present);

    let (gone, runner) = adapter(vec![refused("can't find pane"), printed("flow|@1|main|%9\n")]);
    assert_eq!(gone.probe_exact_pane_presence(&metadata()).unwrap(), TmuxPanePresence::Absent);
    assert_eq!(runner.asked().len(), 2);
    assert_eq!(runner.asked()[1][1], "list-panes");

    let (listed, _) = adapter(vec![refused("busy"), printed("flow|@1|main|%2\n")]);
    assert!(matches!(
        listed.probe_exact_pane_presence(&metadata()),
        Err(TmuxError::CommandFailed { .. })
    ));
}

#[test]
fn marked_panes_are_found_again() {
    let mark = "HUMANIZE_TMUX_OPERATION_ID=op-1";
    let listed = format!("flow|@1|main|%2|\"exec env {} sh\"\n", mark);
    let (tmux, _) = adapter(vec![printed(&listed)]);
    let found = tmux.find_identified_pane("flow", "run-1", "main", "act-1", "op-1").unwrap();
    let (window, pane) = found.unwrap();
    assert_eq!((window.id(), pane.id()), ("@1", "%2"));

    let (none, _) = adapter(vec![printed("flow|@1|main|%2|sh\n")]);
    assert!(none.find_identified_pane("flow", "run-1", "main", "act-1", "op-1").unwrap().is_none());

    let (unsafe_id, runner) = adapter(vec![]);
    assert!(matches!(
        unsafe_id.find_identified_pane("flow", "run-1", "main", "act-1", "op 1"),
        Err(TmuxError::InvalidOperationId)
    ));
    assert!(runner.asked().is_empty());
}

#[test]
fn activations_get_a_session_a_window_and_a_pane() {
    let (tmux, runner) = adapter(vec![refused("no session"), printed("@1\n"), printed("%2\n")]);
    let request =
        TmuxActivationRequest::new(text("flow"), text("run-1"), text("main"), text("act-1"));
    let activation = tmux.prepare_activation(request).unwrap();
    assert_eq!(activation.pane().id(), "%2");
    assert_eq!(activation.window().id(), "@1");
    assert_eq!(activation.metadata().activation_id(), "act-1");
    assert_eq!(runner.asked()[0], words(&["tmux", "has-session", "-t", "flow"]));
}

#[test]
fn agents_that_are_done_lose_their_pane() {
    let (tmux, runner) = adapter(vec![printed("")]);
    let window = TmuxWindow::new_named(text("flow"), text("run-1"), text("main"), text("@1"));
    let handle = TmuxActivation::new(TmuxSession::new(text("flow")), window, pane()).into_handle();
    for status in [LifecycleStatus::Running, LifecycleStatus::Blocked, LifecycleStatus::Failed] {
        let kept = tmux.cleanup_activation(&handle, status).unwrap();
        assert_eq!(kept.action(), LifecycleCleanupAction::PreservePane);
    }
    assert!(runner.asked().is_empty());
    let killed = tmux.cleanup_activation(&handle, LifecycleStatus::ContractSatisfied).unwrap();
    assert_eq!(killed.action(), LifecycleCleanupAction::KillPane);
    assert_eq!(runner.asked(), vec![words(&["tmux", "kill-pane", "-t", "flow:@1.%2"])]);
}

struct Played {
    ran: Vec<Vec<String>>,
    told: Vec<MachineInputRecord>,
    slept: Vec<Delay>,
    asked: Vec<String>,
    outcome: Result<TmuxInputTransaction, TmuxError>,
}

fn play(machine: InputMachine, runner: &Scripted, ledger_works: bool) -> Played {
    watch(machine, runner, ledger_works, None, true)
}

fn watch(
    mut machine: InputMachine,
    runner: &Scripted,
    ledger_works: bool,
    profile: Option<HarnessProfile>,
    works: bool,
) -> Played {
    let mut played = Played {
        ran: Vec::new(),
        told: Vec::new(),
        slept: Vec::new(),
        asked: Vec::new(),
        outcome: Err(TmuxError::EmptyArgv),
    };
    let mut now: u64 = 1000;
    loop {
        let event = match machine.action() {
            InputAction::Run(argv) => {
                played.ran.push(argv.clone());
                InputEvent::Ran(runner.run(argv))
            }
            InputAction::Open => InputEvent::Opened { now_ms: now, sequence: 4 },
            InputAction::Append(record) => {
                played.told.push(record);
                if ledger_works {
                    InputEvent::Appended(Ok(()))
                } else {
                    InputEvent::Appended(Err(text("disk full")))
                }
            }
            InputAction::Sleep(delay) => {
                played.slept.push(delay);
                InputEvent::Slept
            }
            InputAction::Clock => {
                now += 5;
                InputEvent::Clock(now)
            }
            InputAction::Recognize(command) => {
                played.asked.push(command);
                InputEvent::Recognized(profile)
            }
            InputAction::Watch(metadata, pattern, timeout) => {
                played.asked.push(format!(
                    "{} {} {}",
                    metadata.pane_id(),
                    pattern,
                    timeout.as_millis()
                ));
                if works {
                    InputEvent::Watched(Ok(()))
                } else {
                    InputEvent::Watched(Err(TmuxError::AgentReadinessTimeout { timeout_ms: 250 }))
                }
            }
            InputAction::Finish(outcome) => {
                played.outcome = outcome;
                return played;
            }
        };
        machine = machine.advance(event);
    }
}

fn quick(keys: usize) -> TmuxInputTransactionConfig {
    TmuxInputTransactionConfig::deterministic(MachineInputLedger::in_memory(), 7)
        .with_submit_key_count(keys)
}

fn watched(profile: Option<HarnessProfile>, works: bool, command: &str) -> Played {
    let shown = || printed("flow|@1|main|%2");
    let runner = Scripted::new(vec![
        shown(),
        printed(""),
        printed(""),
        printed(""),
        shown(),
        printed(""),
        shown(),
        printed(""),
    ]);
    let tmux = TmuxAdapter::with_runner(runner.clone()).with_input_transaction_config(quick(1));
    let prompt = "first line\nsecond '$HOME' \\ path\nthird line";
    let machine = tmux.send_clean_input_transaction_with_agent_acceptance(
        &metadata(),
        prompt,
        2,
        command,
        Delay::from_millis(2000),
    );
    let played = watch(machine, &runner, true, profile, works);
    let names: Vec<&str> = played.ran.iter().map(|argv| argv[1].as_str()).collect();
    assert_eq!(
        names,
        vec![
            "display-message",
            "send-keys",
            "set-buffer",
            "paste-buffer",
            "display-message",
            "send-keys",
            "display-message",
            "send-keys",
        ]
    );
    assert_eq!(played.ran[1].last().unwrap(), "C-u");
    assert_eq!(played.ran[2].last().unwrap(), prompt);
    assert_eq!(played.ran[7].last().unwrap(), "Enter");
    let statuses: Vec<MachineInputStatus> = played.told.iter().map(|told| told.status).collect();
    assert_eq!(statuses, vec![MachineInputStatus::Started, MachineInputStatus::Submitted]);
    played
}

#[test]
fn known_agents_accept_what_they_show_to_work_on() {
    let codex = HarnessProfile::new("codex", "esc to interrupt");
    assert_eq!((codex.name(), codex.acceptance_pattern()), ("codex", "esc to interrupt"));
    let played = watched(Some(codex), true, "codex");
    assert_eq!(played.asked, vec!["codex", "%2 esc to interrupt 2000"]);
    let sent = played.outcome.unwrap();
    assert_eq!(sent.record().status, MachineInputStatus::Submitted);
    assert_eq!(sent.acceptance().unwrap().profile(), "codex");
    assert_eq!(sent.acceptance().unwrap().signal(), "working_state");
}

#[test]
fn submissions_without_a_sign_are_not_accepted() {
    let codex = HarnessProfile::new("codex", "esc to interrupt");
    let sent = watched(Some(codex), false, "codex").outcome.unwrap();
    assert_eq!(sent.record().status, MachineInputStatus::Submitted);
    assert!(sent.acceptance().is_none());
    let played = watched(None, true, "custom-agent --interactive");
    assert_eq!(played.asked, vec!["custom-agent --interactive"]);
    let sent = played.outcome.unwrap();
    assert_eq!(sent.record().status, MachineInputStatus::Submitted);
    assert!(sent.acceptance().is_none());
    assert!(submission_acceptance(None, true).is_none());
    assert!(submission_acceptance(Some(codex), false).is_none());
    assert!(submission_acceptance(Some(codex), true).is_some());
}

#[test]
fn input_is_written_down_before_and_after_it_is_sent() {
    let shown = || printed("flow|@1|main|%2");
    let runner = Scripted::new(vec![
        shown(),
        printed(""),
        printed(""),
        shown(),
        printed(""),
        shown(),
        printed(""),
    ]);
    let tmux = TmuxAdapter::with_runner(runner.clone()).with_input_transaction_config(quick(2));
    let played = play(tmux.send_input_transaction(&metadata(), "hello"), &runner, true);
    let names: Vec<&str> = played.ran.iter().map(|argv| argv[1].as_str()).collect();
    assert_eq!(
        names,
        vec![
            "display-message",
            "set-buffer",
            "paste-buffer",
            "display-message",
            "send-keys",
            "display-message",
            "send-keys",
        ]
    );
    assert_eq!(played.ran[1][5], "hello");
    assert_eq!(played.ran[4], words(&["tmux", "send-keys", "-t", "flow:@1.%2", "Enter"]));
    assert_eq!(played.told.len(), 2);
    assert_eq!(played.told[0].status, MachineInputStatus::Started);
    assert_eq!(played.told[1].status, MachineInputStatus::Submitted);
    assert_eq!(played.told[0].transaction_id, played.told[1].transaction_id);
    assert_eq!(played.told[1].started_at_ms, 1000);
    assert_eq!(played.told[1].submitted_at_ms, 1005);
    let done = played.outcome.unwrap();
    assert_eq!(done.transaction_id(), played.told[1].transaction_id);
}

#[test]
fn input_to_another_pane_is_not_sent() {
    let runner = Scripted::new(vec![printed("flow|@1|main|%9")]);
    let tmux = TmuxAdapter::with_runner(runner.clone()).with_input_transaction_config(quick(1));
    let played = play(tmux.send_input_transaction(&metadata(), "hello"), &runner, true);
    assert_eq!(played.ran.len(), 1);
    assert!(played.told.is_empty());
    assert!(matches!(played.outcome, Err(TmuxError::PaneMetadataMismatch(_))));
}

#[test]
fn input_is_not_submitted_to_a_pane_that_changed() {
    let runner = Scripted::new(vec![
        printed("flow|@1|main|%2"),
        printed(""),
        printed(""),
        printed("flow|@1|main|%9"),
    ]);
    let tmux = TmuxAdapter::with_runner(runner.clone()).with_input_transaction_config(quick(1));
    let played = play(tmux.send_input_transaction(&metadata(), "hello"), &runner, true);
    assert!(played.ran.iter().all(|argv| argv[1] != "send-keys"));
    assert_eq!(played.told.len(), 2);
    assert_eq!(played.told[1].status, MachineInputStatus::Failed);
    assert!(matches!(played.outcome, Err(TmuxError::PaneMetadataMismatch(_))));
}

#[test]
fn input_that_cannot_be_written_down_is_not_sent() {
    let runner = Scripted::new(vec![printed("flow|@1|main|%2")]);
    let tmux = TmuxAdapter::with_runner(runner.clone()).with_input_transaction_config(quick(1));
    let played = play(tmux.send_input_transaction(&metadata(), "hello"), &runner, false);
    assert_eq!(played.ran.len(), 1);
    assert!(matches!(played.outcome, Err(TmuxError::InputLedger { .. })));
}

#[test]
fn clean_input_clears_the_line_first() {
    let runner = Scripted::new(vec![printed("flow|@1|main|%2"), refused("no pane")]);
    let tmux = TmuxAdapter::with_runner(runner.clone()).with_input_transaction_config(quick(1));
    let played = play(tmux.send_clean_input_transaction(&metadata(), "hello"), &runner, true);
    assert_eq!(played.ran[1], words(&["tmux", "send-keys", "-t", "flow:@1.%2", "C-u"]));
    assert!(matches!(played.outcome, Err(TmuxError::CommandFailed { status: 1, .. })));
    assert_eq!(played.told[1].status, MachineInputStatus::Failed);
}

#[test]
fn shown_input_may_differ_from_what_is_sent() {
    let runner = Scripted::new(vec![printed("flow|@1|main|%9")]);
    let tmux = TmuxAdapter::with_runner(runner.clone()).with_input_transaction_config(quick(1));
    let machine = tmux.send_input_transaction_with_projection(&metadata(), "real", "public");
    let event = InputEvent::Ran(Ok(printed("flow|@1|main|%2")));
    let machine = machine.advance(event).advance(InputEvent::Opened { now_ms: 1, sequence: 1 });
    match machine.action() {
        InputAction::Append(record) => {
            assert_eq!(record.normalized_text, "public");
            assert!(record.status == MachineInputStatus::Started);
        }
        _ => panic!("the record comes first"),
    }
}

#[test]
fn waits_for_text_end_in_time() {
    let limit = Delay::from_millis(120);
    assert!(matches!(
        pane_text_wait("ready now", "ready", Delay::zero(), limit),
        PaneTextWait::Found
    ));
    assert!(matches!(
        pane_text_wait("", "ready", Delay::zero(), limit),
        PaneTextWait::Sleep(_)
    ));
    match pane_text_wait("", "ready", limit, limit) {
        PaneTextWait::TimedOut(error) => assert_eq!(
            error.to_text(),
            "tmux pane did not reach configured readiness within 120 ms"
        ),
        _ => panic!("the time is up"),
    }
}

fn identity() -> PipeSinkIdentity {
    PipeSinkIdentity { dev: 1, ino: 2, uid: 3, mode: 384, nlink: 1 }
}

fn request() -> PipeCaptureRequest {
    PipeCaptureRequest {
        root: text("/r"),
        transcript_relative_path: text("t.log"),
        identity: identity(),
        ack_relative_path: text("t.ready"),
        completion_relative_path: text("t.done"),
        ack_nonce: text("n1"),
        preserve_ready_ack: false,
    }
}

#[test]
fn helpers_are_started_with_quoted_words() {
    assert_eq!(shell_single_quote_str("it's"), "'it'\\''s'");
    assert_eq!(
        request().command("/bin/sink"),
        "'/bin/sink' --pipe-sink --root '/r' --relative 't.log' --dev 1 --ino 2 --uid 3 \
         --mode 384 --nlink 1 --ack-relative 't.ready' --completion-relative 't.done' \
         --ack-nonce 'n1'"
    );
}

#[test]
fn refused_helpers_do_not_show_their_command() {
    let (tmux, runner) = adapter(vec![refused("nonce n1 leaked")]);
    let told = refusal(tmux.start_pipe_sink(&pane(), &request(), "/bin/sink"));
    assert_eq!(runner.asked()[0][1], "pipe-pane");
    let (again, _) = adapter(vec![refused("other words")]);
    assert_eq!(told, refusal(again.start_pipe_sink(&pane(), &request(), "/bin/sink")));
}

#[test]
fn captures_keep_what_they_were_started_with() {
    let ready = PipeSinkReady { pid: 9, process_start_time_ticks: 77 };
    let capture = TmuxPipeCapture::started(&request(), ready, true);
    let descriptor = capture.descriptor();
    assert_eq!(descriptor.helper_pid, 9);
    assert_eq!(descriptor.helper_process_start_time_ticks, 77);
    let again = TmuxPipeCapture::from_descriptor(text("/r"), descriptor);
    assert_eq!(again.root(), capture.root());
    assert_eq!(again.descriptor().nonce, "n1");
}

#[test]
fn helpers_are_waited_for_until_time_is_up() {
    let argv = words(&["tmux", "pipe-pane"]);
    assert!(matches!(ready_wait(PipeFile::Good, true, &request(), &argv), PipeWait::Ready));
    assert!(matches!(ready_wait(PipeFile::Missing, false, &request(), &argv), PipeWait::Again));
    assert!(matches!(ready_wait(PipeFile::Missing, true, &request(), &argv), PipeWait::Failed(_)));
    assert!(matches!(completion_wait(PipeFile::Good, false, true, Some(true)), PipeWait::Ready));
    assert!(matches!(
        completion_wait(PipeFile::Missing, false, true, Some(true)),
        PipeWait::Again
    ));
    assert!(matches!(
        completion_wait(PipeFile::Missing, true, true, Some(true)),
        PipeWait::Failed(_)
    ));
    assert!(matches!(exit_wait(false, None, false), PipeWait::Ready));
    assert!(matches!(exit_wait(true, Some(false), false), PipeWait::Ready));
    assert!(matches!(exit_wait(true, Some(true), false), PipeWait::Again));
    assert!(matches!(exit_wait(true, Some(true), true), PipeWait::Failed(_)));
}

#[test]
fn processes_are_told_apart_by_their_start() {
    let stat = "12 (a) b) S 1 2 3 4 5 6 7 8 9 10 11 12 13 14 15 16 17 18 4242 20";
    assert_eq!(process_start_time(stat), Some(4242));
    assert_eq!(process_matches(stat, 4242), Some(true));
    assert_eq!(process_matches(stat, 4243), Some(false));
    assert_eq!(process_start_time("no bracket"), None);
    assert_eq!(process_start_time("1 (x) S 2"), None);
}

#[test]
fn last_words_lie_beside_the_first() {
    assert_eq!(default_pipe_completion_path("logs/p.ready"), "logs/p.ready.complete");
    assert_eq!(default_pipe_completion_path("p.ready"), "p.ready.complete");
    let place = transcript_place("/runs/a/out.log").unwrap();
    assert_eq!((place.root.as_str(), place.file_name.as_str()), ("/runs/a", "out.log"));
    assert!(transcript_place("/").is_err());
}

#[test]
fn delays_saturate_and_compare() {
    let second = Delay::from_secs(1);
    assert_eq!(second.as_millis(), 1000);
    assert_eq!(Delay::from_parts(2, 500).subsec_nanos(), 500);
    assert_eq!(second.minus(Delay::from_millis(400)), Delay::from_millis(600));
    assert_eq!(second.at_most(Delay::from_millis(3)), Delay::from_millis(3));
    assert_eq!(second.at_least(Delay::from_secs(4)), Delay::from_secs(4));
    assert!(second.reaches(Delay::from_millis(1000)));
    assert_eq!(Delay::from_secs(u64::MAX).saturating_mul(3).as_secs(), u64::MAX);
}

#[test]
fn stop_hooks_say_what_the_driver_decided() {
    let input = StopHookInput::new(text("s1"), text("act-1"));
    let allowed = build_stop_hook_payload(&input, DriverDecision::Allow);
    assert_eq!(allowed.action(), HookAction::Allow);
    assert_eq!(allowed.reason(), None);
    let blocked =
        build_stop_hook_payload(&input, DriverDecision::Block { reason: text("work is left") });
    assert_eq!(blocked.action(), HookAction::Block);
    assert_eq!(blocked.reason(), Some("work is left"));
    assert_eq!((blocked.session_id(), blocked.activation_id()), ("s1", "act-1"));
}
