//! Sessions, windows and panes: made, looked at, typed into and ended.
use vstd::prelude::*;

use crate::adapters::lifecycle::{
    AdapterCapabilities, LifecycleCleanup, LifecycleCleanupAction, LifecycleCleanupView,
    LifecycleStatus,
};

use super::argv::{
    capture_pane_argv, capture_pane_words, display_pane_argv, display_pane_words,
    has_session_argv, has_session_words, kill_session_argv, kill_session_words,
    kill_window_argv, kill_window_words, list_windows_argv, list_windows_words,
    metadata_pane_target, new_session_window_argv, new_session_window_words, new_window_argv,
    new_window_words, pane_target, send_key_argv, send_key_words, send_literal_argv, send_literal_words, target_of_pane,
    target_of_window, window_target,
};
use super::config::{InputConfigView, TmuxInputTransactionConfig};
use super::delay::Delay;
use super::error::{
    owned_fault, session_fault, validate_owned_session_id, validate_session_id, TmuxError,
    TmuxErrorView,
};
use super::model::{
    CommandOutput, TmuxActivationMetadata, TmuxActivationMetadataView, TmuxAgentHandle,
    TmuxLifecycleObservation, TmuxLifecycleObservationView, TmuxPane, TmuxPaneIdentity,
    TmuxPaneIdentityView, TmuxPaneMetadataMismatch, TmuxPaneMetadataMismatchView, TmuxPaneView,
    TmuxSession, TmuxSessionView, TmuxWindow, TmuxWindowView,
};
use super::record::{
    identity_matches, listed_window_id, pane_identity_matches, pane_identity_stdout, printed,
    printed_identity, text_lines, trimmed_stdout, window_listed,
};
use super::runner::{outcome, ran, run_checked, success, CommandRunner, Reply};
use super::steps::{
    answers, followed, kill_pane_asks, kill_pane_step, lemma_followed_further, next_for_kill_pane,
    next_for_owned, next_for_session, owned_asks, owned_step, session_asks, session_step,
    TmuxStep, TmuxStepView,
};

verus! {

broadcast use vstd::string::group_string_axioms;

/// What drives tmux.
#[derive(Debug)]
pub struct TmuxAdapter<R: CommandRunner> {
    runner: R,
    input_config: TmuxInputTransactionConfig,
    pipe_sink_executable: Option<String>,
    pipe_ready_timeout: Delay,
    pipe_completion_timeout: Delay,
}

/// What may come of a session that has to be there: the answers to the commands that its
/// steps ask for, and what the steps make of them.
pub open spec fn session_ensured<R: CommandRunner>(
    runner: R,
    id: Seq<char>,
    r: Result<TmuxSessionView, TmuxErrorView>,
) -> bool {
    exists|replies: Seq<Reply>| #[trigger]
        followed(runner, session_asks(id), replies) && session_step(id, replies)
            == TmuxStepView::Finish(r)
}

/// What may come of the end of a pane, by its steps.
pub open spec fn pane_killed<R: CommandRunner>(
    runner: R,
    pane: TmuxPaneView,
    r: Result<(), TmuxErrorView>,
) -> bool {
    exists|replies: Seq<Reply>| #[trigger]
        followed(runner, kill_pane_asks(pane), replies) && kill_pane_step(pane, replies, true)
            == TmuxStepView::Finish(r)
}

/// What the question may be answered whether a session is there.
pub open spec fn session_found<R: CommandRunner>(
    runner: R,
    id: Seq<char>,
    r: Result<bool, TmuxErrorView>,
) -> bool {
    match session_fault(id) {
        Some(fault) => r == Err::<bool, TmuxErrorView>(fault),
        None => exists|found: Reply| #[trigger]
            runner.replies(has_session_argv(id), found) && r == (match found {
                Err(error) => Err(error),
                Ok(output) => Ok(output.status == 0),
            }),
    }
}

/// A window of which tmux printed the id.
pub open spec fn window_made(
    made: Reply,
    session: Seq<char>,
    run_id: Seq<char>,
    name: Seq<char>,
) -> Result<TmuxWindowView, TmuxErrorView> {
    match made {
        Err(error) => Err(error),
        Ok(output) => match printed(output, "window id"@) {
            Err(error) => Err(error),
            Ok(id) => Ok(TmuxWindowView { session_id: session, run_id, name, id }),
        },
    }
}

/// What may come of a new window.
pub open spec fn window_created<R: CommandRunner>(
    runner: R,
    session: Seq<char>,
    run_id: Seq<char>,
    name: Seq<char>,
    r: Result<TmuxWindowView, TmuxErrorView>,
) -> bool {
    match session_fault(session) {
        Some(fault) => r == Err::<TmuxWindowView, TmuxErrorView>(fault),
        None => exists|made: Reply| #[trigger]
            ran(runner, new_window_argv(session, name), made) && r == window_made(
                made,
                session,
                run_id,
                name,
            ),
    }
}

/// What may come of a window that has to be there: one with the name, or a new one.
pub open spec fn window_ensured<R: CommandRunner>(
    runner: R,
    session: Seq<char>,
    run_id: Seq<char>,
    name: Seq<char>,
    r: Result<TmuxWindowView, TmuxErrorView>,
) -> bool {
    match session_fault(session) {
        Some(fault) => r == Err::<TmuxWindowView, TmuxErrorView>(fault),
        None => exists|listed: Reply| #[trigger]
            ran(runner, list_windows_argv(session), listed) && match listed {
                Err(error) => r == Err::<TmuxWindowView, TmuxErrorView>(error),
                Ok(output) => match window_listed(text_lines(output.stdout), name, 0) {
                    Err(error) => r == Err::<TmuxWindowView, TmuxErrorView>(error),
                    Ok(Some(id)) => r == Ok::<TmuxWindowView, TmuxErrorView>(
                        TmuxWindowView { session_id: session, run_id, name, id },
                    ),
                    Ok(None) => window_created(runner, session, run_id, name, r),
                },
            },
    }
}

/// The session that goes with a window.
pub open spec fn with_session(
    id: Seq<char>,
    window: Result<TmuxWindowView, TmuxErrorView>,
) -> Result<(TmuxSessionView, TmuxWindowView), TmuxErrorView> {
    match window {
        Err(error) => Err(error),
        Ok(window) => Ok((TmuxSessionView { id }, window)),
    }
}

/// What may come of a new session and its window.
pub open spec fn session_window_created<R: CommandRunner>(
    runner: R,
    session: Seq<char>,
    run_id: Seq<char>,
    name: Seq<char>,
    r: Result<(TmuxSessionView, TmuxWindowView), TmuxErrorView>,
) -> bool {
    match session_fault(session) {
        Some(fault) => r == Err::<(TmuxSessionView, TmuxWindowView), TmuxErrorView>(fault),
        None => exists|made: Reply| #[trigger]
            ran(runner, new_session_window_argv(session, name), made) && r == with_session(
                session,
                window_made(made, session, run_id, name),
            ),
    }
}

/// What may come of the window for an activation: in a session that is there, or in a new one.
pub open spec fn activation_window<R: CommandRunner>(
    runner: R,
    session: Seq<char>,
    run_id: Seq<char>,
    name: Seq<char>,
    r: Result<(TmuxSessionView, TmuxWindowView), TmuxErrorView>,
) -> bool {
    match session_fault(session) {
        Some(fault) => r == Err::<(TmuxSessionView, TmuxWindowView), TmuxErrorView>(fault),
        None => exists|found: Reply| #[trigger]
            runner.replies(has_session_argv(session), found) && match found {
                Err(error) => r == Err::<(TmuxSessionView, TmuxWindowView), TmuxErrorView>(error),
                Ok(output) => if output.status == 0 {
                    exists|window: Result<TmuxWindowView, TmuxErrorView>| #[trigger]
                        window_ensured(runner, session, run_id, name, window) && r
                            == with_session(session, window)
                } else {
                    session_window_created(runner, session, run_id, name, r)
                },
            },
    }
}

/// What may come of a command on something that lives in a session, by its steps.
pub open spec fn owned_made<R: CommandRunner>(
    runner: R,
    kind: Seq<char>,
    session: Seq<char>,
    argv: Seq<Seq<char>>,
    made: Reply,
) -> bool {
    exists|replies: Seq<Reply>| #[trigger]
        followed(runner, owned_asks(kind, session, argv), replies) && owned_step(
            kind,
            session,
            argv,
            replies,
        ) == TmuxStepView::Finish(made)
}

/// What may come of such a command of which only the success counts.
pub open spec fn owned_run<R: CommandRunner>(
    runner: R,
    kind: Seq<char>,
    session: Seq<char>,
    argv: Seq<Seq<char>>,
    r: Result<(), TmuxErrorView>,
) -> bool {
    exists|made: Reply| #[trigger] owned_made(runner, kind, session, argv, made) && r == success(
        made,
    )
}

/// What may come of a look at a pane.
pub open spec fn pane_captured<R: CommandRunner>(
    runner: R,
    pane: TmuxPaneView,
    r: Result<Seq<char>, TmuxErrorView>,
) -> bool {
    exists|made: Reply| #[trigger]
        owned_made(
            runner,
            "pane"@,
            pane.session_id,
            capture_pane_argv(target_of_pane(pane)),
            made,
        ) && r == (match made {
            Err(error) => Err(error),
            Ok(output) => Ok(output.stdout),
        })
}

impl TmuxActivationMetadataView {
    /// What tells the pane of an activation apart.
    pub open spec fn identity(self) -> TmuxPaneIdentityView {
        TmuxPaneIdentityView {
            session_id: self.session_id,
            window_id: self.window_id,
            window_name: self.window_name,
            pane_id: self.pane_id,
        }
    }
}

/// Whether the pane that tmux tells of is the one of an activation.
pub open spec fn pane_verdict(metadata: TmuxActivationMetadataView, made: Reply) -> Result<
    (),
    TmuxErrorView,
> {
    match made {
        Err(error) => Err(error),
        Ok(output) => match printed_identity(output) {
            Err(error) => Err(error),
            Ok(actual) => if identity_matches(metadata.identity(), actual, true) {
                Ok(())
            } else {
                Err(
                    TmuxErrorView::PaneMetadataMismatch(
                        TmuxPaneMetadataMismatchView { expected: metadata.identity(), actual },
                    ),
                )
            },
        },
    }
}

/// What may come of the question whether a pane is still the one of an activation.
pub open spec fn pane_validated<R: CommandRunner>(
    runner: R,
    metadata: TmuxActivationMetadataView,
    r: Result<(), TmuxErrorView>,
) -> bool {
    match owned_fault("pane"@, metadata.session_id) {
        Some(fault) => r == Err::<(), TmuxErrorView>(fault),
        None => exists|made: Reply| #[trigger]
            ran(runner, display_pane_argv(target_of_pane(metadata.pane())), made) && r
                == pane_verdict(metadata, made),
    }
}

/// The identity of the pane of an activation.
pub fn metadata_identity(metadata: &TmuxActivationMetadata) -> (r: TmuxPaneIdentity)
    ensures
        r.deep_view() == metadata.deep_view().identity(),
{
    TmuxPaneIdentity::new(
        metadata.session_id().to_string(),
        metadata.window_id().to_string(),
        metadata.window_name().to_string(),
        metadata.pane_id().to_string(),
    )
}

/// Whether the pane that tmux told of is the one of an activation.
pub fn judge_pane(metadata: &TmuxActivationMetadata, output: &CommandOutput) -> (r: Result<
    (),
    TmuxError,
>)
    ensures
        outcome(r) == pane_verdict(metadata.deep_view(), Ok(output.deep_view())),
{
    match pane_identity_stdout(output) {
        Err(error) => Err(error),
        Ok(actual) => {
            let expected = metadata_identity(metadata);
            if pane_identity_matches(&expected, &actual, true) {
                Ok(())
            } else {
                Err(
                    TmuxError::PaneMetadataMismatch(
                        Box::new(TmuxPaneMetadataMismatch::new(expected, actual)),
                    ),
                )
            }
        },
    }
}

impl<R: CommandRunner> TmuxAdapter<R> {
    pub closed spec fn runs(&self) -> R {
        self.runner
    }

    pub closed spec fn config(&self) -> InputConfigView {
        self.input_config.deep_view()
    }

    pub closed spec fn sink(&self) -> Option<Seq<char>> {
        self.pipe_sink_executable.deep_view()
    }

    pub closed spec fn ready_limit(&self) -> nat {
        self.pipe_ready_timeout.deep_view()
    }

    pub closed spec fn completion_limit(&self) -> nat {
        self.pipe_completion_timeout.deep_view()
    }

    pub fn with_runner(runner: R) -> (r: Self)
        ensures
            r.runs() == runner,
            r.config() == InputConfigView::default_runtime(),
            r.sink() is None,
            r.ready_limit() == 2_000_000_000,
            r.completion_limit() == 2_000_000_000,
    {
        TmuxAdapter {
            runner,
            input_config: TmuxInputTransactionConfig::runtime(),
            pipe_sink_executable: None,
            pipe_ready_timeout: Delay::from_secs(2),
            pipe_completion_timeout: Delay::from_secs(2),
        }
    }

    pub fn with_pipe_sink_executable(self, executable: String) -> (r: Self)
        ensures
            r.sink() == Some(executable@),
            r.runs() == self.runs(),
            r.config() == self.config(),
            r.ready_limit() == self.ready_limit(),
            r.completion_limit() == self.completion_limit(),
    {
        let mut next = self;
        next.pipe_sink_executable = Some(executable);
        next
    }

    pub fn with_pipe_capture_timeouts(
        self,
        ready_timeout: Delay,
        completion_timeout: Delay,
    ) -> (r: Self)
        ensures
            r.ready_limit() == ready_timeout.deep_view(),
            r.completion_limit() == completion_timeout.deep_view(),
            r.runs() == self.runs(),
            r.config() == self.config(),
            r.sink() == self.sink(),
    {
        let mut next = self;
        next.pipe_ready_timeout = ready_timeout;
        next.pipe_completion_timeout = completion_timeout;
        next
    }

    pub fn with_input_transaction_config(self, input_config: TmuxInputTransactionConfig) -> (r:
        Self)
        ensures
            r.config() == input_config.deep_view(),
            r.runs() == self.runs(),
            r.sink() == self.sink(),
            r.ready_limit() == self.ready_limit(),
            r.completion_limit() == self.completion_limit(),
    {
        let mut next = self;
        next.input_config = input_config;
        next
    }

    pub fn runner(&self) -> (r: &R)
        ensures
            *r == self.runs(),
    {
        &self.runner
    }

    pub fn input_config(&self) -> (r: &TmuxInputTransactionConfig)
        ensures
            r.deep_view() == self.config(),
    {
        &self.input_config
    }

    pub fn pipe_sink_executable(&self) -> (r: Option<&str>)
        ensures
            match r {
                Some(path) => self.sink() == Some(path@),
                None => self.sink() is None,
            },
    {
        match &self.pipe_sink_executable {
            Some(path) => Some(path.as_str()),
            None => None,
        }
    }

    pub fn pipe_ready_timeout(&self) -> (r: Delay)
        ensures
            r.deep_view() == self.ready_limit(),
    {
        self.pipe_ready_timeout
    }

    pub fn pipe_completion_timeout(&self) -> (r: Delay)
        ensures
            r.deep_view() == self.completion_limit(),
    {
        self.pipe_completion_timeout
    }

    pub fn ensure_session(&self, session_id: String) -> (r: Result<TmuxSession, TmuxError>)
        ensures
            session_ensured(self.runs(), session_id@, outcome(r)),
    {
        let ghost asks = session_asks(session_id@);
        let mut replies: Vec<Result<CommandOutput, TmuxError>> = Vec::new();
        loop
            invariant
                asks == session_asks(session_id@),
                followed(self.runner, asks, answers(replies@)),
                replies.len() <= 2,
            decreases 2 - replies.len(),
        {
            let ghost before = answers(replies@);
            match next_for_session(session_id.as_str(), &replies) {
                TmuxStep::Run(argv) => {
                    let reply = self.runner.run(argv);
                    replies.push(reply);
                    proof {
                        lemma_followed_further(self.runner, asks, before, outcome(reply));
                        assert(answers(replies@) =~= before.push(outcome(reply)));
                    }
                },
                TmuxStep::PaneGone(_) => {
                    assert(false);
                },
                TmuxStep::Finish(result) => {
                    return result;
                },
            }
        }
    }

    pub fn has_session(&self, session: &TmuxSession) -> (r: Result<bool, TmuxError>)
        ensures
            session_found(self.runs(), session.deep_view().id, outcome(r)),
    {
        match validate_session_id(session.id()) {
            Err(error) => return Err(error),
            Ok(_) => {},
        }
        match self.runner.run(has_session_words(session.id())) {
            Err(error) => Err(error),
            Ok(check) => Ok(check.is_success()),
        }
    }

    fn create_session_with_window(
        &self,
        session_id: &str,
        run_id: String,
        window_name: String,
    ) -> (r: Result<(TmuxSession, TmuxWindow), TmuxError>)
        ensures
            session_window_created(
                self.runs(),
                session_id@,
                run_id@,
                window_name@,
                outcome(r),
            ),
    {
        let session = TmuxSession::new(session_id.to_string());
        match validate_session_id(session.id()) {
            Err(error) => return Err(error),
            Ok(_) => {},
        }
        let output = match run_checked(
            &self.runner,
            new_session_window_words(session.id(), window_name.as_str()),
        ) {
            Err(error) => return Err(error),
            Ok(output) => output,
        };
        match trimmed_stdout(&output, "window id") {
            Err(error) => Err(error),
            Ok(window_id) => {
                let window = TmuxWindow::new_named(
                    session.id().to_string(),
                    run_id,
                    window_name,
                    window_id,
                );
                Ok((session, window))
            },
        }
    }

    /// A window named after its run.
    pub fn create_window(&self, session: &TmuxSession, run_id: String) -> (r: Result<
        TmuxWindow,
        TmuxError,
    >)
        ensures
            window_created(
                self.runs(),
                session.deep_view().id,
                run_id@,
                run_id@,
                outcome(r),
            ),
    {
        let name = run_id.clone();
        self.create_window_named(session, run_id, name)
    }

    pub fn create_window_named(
        &self,
        session: &TmuxSession,
        run_id: String,
        window_name: String,
    ) -> (r: Result<TmuxWindow, TmuxError>)
        ensures
            window_created(
                self.runs(),
                session.deep_view().id,
                run_id@,
                window_name@,
                outcome(r),
            ),
    {
        match validate_session_id(session.id()) {
            Err(error) => return Err(error),
            Ok(_) => {},
        }
        let output = match run_checked(
            &self.runner,
            new_window_words(session.id(), window_name.as_str()),
        ) {
            Err(error) => return Err(error),
            Ok(output) => output,
        };
        match trimmed_stdout(&output, "window id") {
            Err(error) => Err(error),
            Ok(window_id) => Ok(
                TmuxWindow::new_named(session.id().to_string(), run_id, window_name, window_id),
            ),
        }
    }

    fn ensure_window_named(
        &self,
        session: &TmuxSession,
        run_id: String,
        window_name: String,
    ) -> (r: Result<TmuxWindow, TmuxError>)
        ensures
            window_ensured(
                self.runs(),
                session.deep_view().id,
                run_id@,
                window_name@,
                outcome(r),
            ),
    {
        match validate_session_id(session.id()) {
            Err(error) => return Err(error),
            Ok(_) => {},
        }
        let output = match run_checked(&self.runner, list_windows_words(session.id())) {
            Err(error) => return Err(error),
            Ok(output) => output,
        };
        match listed_window_id(&output, window_name.as_str()) {
            Err(error) => Err(error),
            Ok(Some(window_id)) => Ok(
                TmuxWindow::new_named(session.id().to_string(), run_id, window_name, window_id),
            ),
            Ok(None) => self.create_window_named(session, run_id, window_name),
        }
    }

    pub(crate) fn prepare_activation_window(
        &self,
        session_id: &str,
        run_id: String,
        window_name: String,
    ) -> (r: Result<(TmuxSession, TmuxWindow), TmuxError>)
        ensures
            activation_window(self.runs(), session_id@, run_id@, window_name@, outcome(r)),
    {
        let session = TmuxSession::new(session_id.to_string());
        match validate_session_id(session.id()) {
            Err(error) => return Err(error),
            Ok(_) => {},
        }
        let check = match self.runner.run(has_session_words(session.id())) {
            Err(error) => return Err(error),
            Ok(output) => output,
        };
        if check.is_success() {
            match self.ensure_window_named(&session, run_id, window_name) {
                Err(error) => Err(error),
                Ok(window) => Ok((session, window)),
            }
        } else {
            self.create_session_with_window(session.id(), run_id, window_name)
        }
    }

    /// The runner is told when the pane is gone.
    pub fn kill_pane(&self, pane: &TmuxPane) -> (r: Result<(), TmuxError>)
        ensures
            pane_killed(self.runs(), pane.deep_view(), outcome(r)),
    {
        let ghost asks = kill_pane_asks(pane.deep_view());
        let mut replies: Vec<Result<CommandOutput, TmuxError>> = Vec::new();
        let mut told = false;
        loop
            invariant
                asks == kill_pane_asks(pane.deep_view()),
                followed(self.runner, asks, answers(replies@)),
                replies.len() <= 1,
                told ==> replies.len() == 1,
            decreases
                1 - replies.len(),
                if told {
                    0int
                } else {
                    1
                },
        {
            let ghost before = answers(replies@);
            match next_for_kill_pane(pane, &replies, told) {
                TmuxStep::Run(argv) => {
                    let reply = self.runner.run(argv);
                    replies.push(reply);
                    proof {
                        lemma_followed_further(self.runner, asks, before, outcome(reply));
                        assert(answers(replies@) =~= before.push(outcome(reply)));
                    }
                },
                TmuxStep::PaneGone(target) => {
                    self.runner.pipe_sink_producer_closed(target.as_str());
                    told = true;
                },
                TmuxStep::Finish(result) => {
                    return result;
                },
            }
        }
    }

    /// A command on something that lives in a session.
    fn run_owned(&self, kind: &'static str, session: &str, argv: Vec<String>) -> (r: Result<
        CommandOutput,
        TmuxError,
    >)
        ensures
            owned_made(self.runs(), kind@, session@, argv.deep_view(), outcome(r)),
    {
        let ghost asks = owned_asks(kind@, session@, argv.deep_view());
        let mut replies: Vec<Result<CommandOutput, TmuxError>> = Vec::new();
        loop
            invariant
                asks == owned_asks(kind@, session@, argv.deep_view()),
                followed(self.runner, asks, answers(replies@)),
                replies.len() <= 1,
            decreases 1 - replies.len(),
        {
            let ghost before = answers(replies@);
            match next_for_owned(kind, session, &argv, &replies) {
                TmuxStep::Run(words) => {
                    let reply = self.runner.run(words);
                    replies.push(reply);
                    proof {
                        lemma_followed_further(self.runner, asks, before, outcome(reply));
                        assert(answers(replies@) =~= before.push(outcome(reply)));
                    }
                },
                TmuxStep::PaneGone(_) => {
                    assert(false);
                },
                TmuxStep::Finish(result) => {
                    return result;
                },
            }
        }
    }

    pub fn kill_window(&self, window: &TmuxWindow) -> (r: Result<(), TmuxError>)
        ensures
            owned_run(
                self.runs(),
                "window"@,
                window.deep_view().session_id,
                kill_window_argv(target_of_window(window.deep_view())),
                outcome(r),
            ),
    {
        match self.run_owned("window", window.session_id(), kill_window_words(window_target(window).as_str())) {
            Err(error) => Err(error),
            Ok(_) => Ok(()),
        }
    }

    pub fn kill_session(&self, session: &TmuxSession) -> (r: Result<(), TmuxError>)
        ensures
            owned_run(
                self.runs(),
                "session"@,
                session.deep_view().id,
                kill_session_argv(session.deep_view().id),
                outcome(r),
            ),
    {
        match self.run_owned("session", session.id(), kill_session_words(session.id())) {
            Err(error) => Err(error),
            Ok(_) => Ok(()),
        }
    }

    pub fn send_keys_literal(&self, pane: &TmuxPane, text: &str) -> (r: Result<(), TmuxError>)
        ensures
            owned_run(
                self.runs(),
                "pane"@,
                pane.deep_view().session_id,
                send_literal_argv(target_of_pane(pane.deep_view()), text@),
                outcome(r),
            ),
    {
        match self.run_owned("pane", pane.session_id(), send_literal_words(pane_target(pane).as_str(), text)) {
            Err(error) => Err(error),
            Ok(_) => Ok(()),
        }
    }

    pub fn send_key(&self, pane: &TmuxPane, key: &str) -> (r: Result<(), TmuxError>)
        ensures
            owned_run(
                self.runs(),
                "pane"@,
                pane.deep_view().session_id,
                send_key_argv(target_of_pane(pane.deep_view()), key@),
                outcome(r),
            ),
    {
        match self.run_owned("pane", pane.session_id(), send_key_words(pane_target(pane).as_str(), key)) {
            Err(error) => Err(error),
            Ok(_) => Ok(()),
        }
    }

    pub fn capture_pane(&self, pane: &TmuxPane) -> (r: Result<String, TmuxError>)
        ensures
            pane_captured(self.runs(), pane.deep_view(), outcome(r)),
    {
        match self.run_owned(
            "pane",
            pane.session_id(),
            capture_pane_words(pane_target(pane).as_str()),
        ) {
            Err(error) => Err(error),
            Ok(output) => Ok(output.stdout),
        }
    }

    /// Whether the pane of an activation is still the one that was recorded.
    pub fn validate_exact_pane(&self, metadata: &TmuxActivationMetadata) -> (r: Result<
        (),
        TmuxError,
    >)
        ensures
            pane_validated(self.runs(), metadata.deep_view(), outcome(r)),
    {
        match validate_owned_session_id("pane", metadata.session_id()) {
            Err(error) => return Err(error),
            Ok(_) => {},
        }
        let target = metadata_pane_target(metadata);
        let output = match run_checked(&self.runner, display_pane_words(target.as_str())) {
            Err(error) => return Err(error),
            Ok(output) => output,
        };
        judge_pane(metadata, &output)
    }

    pub fn capabilities(&self) -> (r: AdapterCapabilities)
        ensures
            r == AdapterCapabilities::of_tmux(),
    {
        AdapterCapabilities::tmux_lifecycle()
    }

    /// What the pane of an activation shows while it runs.
    pub fn observe_lifecycle(&self, handle: &TmuxAgentHandle) -> (r: Result<
        TmuxLifecycleObservation,
        TmuxError,
    >)
        ensures
            exists|captured: Result<Seq<char>, TmuxErrorView>| #[trigger]
                pane_captured(self.runs(), handle.deep_view().pane, captured) && outcome(r) == (
                match captured {
                    Err(error) => Err(error),
                    Ok(text) => Ok(
                        TmuxLifecycleObservationView {
                            metadata: handle.deep_view().metadata,
                            captured_text: text,
                            status: LifecycleStatus::Running,
                        },
                    ),
                }),
    {
        match self.capture_pane(handle.pane()) {
            Err(error) => {
                assert(pane_captured(
                    self.runs(),
                    handle.deep_view().pane,
                    Err(error.deep_view()),
                ));
                Err(error)
            },
            Ok(text) => {
                assert(pane_captured(self.runs(), handle.deep_view().pane, Ok(text@)));
                Ok(
                    TmuxLifecycleObservation::new(
                        handle.metadata().clone(),
                        text,
                        LifecycleStatus::Running,
                    ),
                )
            },
        }
    }

    /// The pane of an activation ends when its contract is met, and is kept otherwise.
    pub fn cleanup_activation(
        &self,
        handle: &TmuxAgentHandle,
        status: LifecycleStatus,
    ) -> (r: Result<LifecycleCleanup, TmuxError>)
        ensures
            match status.cleanup() {
                LifecycleCleanupAction::PreservePane => outcome(r) == Ok::<
                    LifecycleCleanupView,
                    TmuxErrorView,
                >(LifecycleCleanupView { action: LifecycleCleanupAction::PreservePane, status }),
                LifecycleCleanupAction::KillPane => exists|killed: Result<(), TmuxErrorView>|
                 #[trigger]
                    pane_killed(
                        self.runs(),
                        handle.deep_view().pane,
                        killed,
                    ) && outcome(r) == (match killed {
                        Err(error) => Err(error),
                        Ok(_) => Ok(
                            LifecycleCleanupView {
                                action: LifecycleCleanupAction::KillPane,
                                status,
                            },
                        ),
                    }),
            },
    {
        match status {
            LifecycleStatus::ContractSatisfied => {
                let ghost pane = handle.deep_view().pane;
                match self.kill_pane(handle.pane()) {
                    Err(error) => {
                        assert(pane_killed(self.runs(), pane, Err(error.deep_view())));
                        Err(error)
                    },
                    Ok(_) => {
                        assert(pane_killed(self.runs(), pane, Ok(())));
                        Ok(LifecycleCleanup::new(LifecycleCleanupAction::KillPane, status))
                    },
                }
            },
            LifecycleStatus::Running | LifecycleStatus::Blocked | LifecycleStatus::Failed => Ok(
                LifecycleCleanup::new(LifecycleCleanupAction::PreservePane, status),
            ),
        }
    }
}

} // verus!
