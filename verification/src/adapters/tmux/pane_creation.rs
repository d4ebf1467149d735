//! Panes for activations, and panes that can be found again by a mark.
use vstd::prelude::*;

use crate::text::{cat2, cat3, char_vec, same};

use super::adapter::{activation_window, TmuxAdapter};
use super::argv::{
    list_started_panes_argv, list_started_panes_words, new_session_pane_running_argv,
    new_session_pane_running_words, new_window_pane_argv, new_window_pane_running_argv,
    new_window_pane_running_words, new_window_pane_words, split_window_argv,
    split_window_running_argv, split_window_running_words, split_window_words,
    target_of_window, window_target,
};
use super::error::{
    contains_char, owned_fault, session_fault, validate_owned_session_id, validate_session_id,
    TmuxError, TmuxErrorView,
};
use super::model::{
    CommandOutput, CommandOutputView, TmuxActivation, TmuxActivationMetadata,
    TmuxActivationRequest, TmuxActivationRequestView, TmuxActivationView, TmuxPane, TmuxPaneView,
    TmuxSession, TmuxSessionView, TmuxWindow, TmuxWindowView,
};
use super::record::{
    contains_substring, holds_text, lines, pieces_up_to, printed, split_up_to, text_lines,
    trimmed_stdout, window_and_pane, window_pane_stdout,
};
use super::runner::{outcome, ran, run_checked, CommandRunner, Reply};
use super::steps::{
    answers, followed, lemma_followed_further, next_for_session_pane, session_pane_asks,
    session_pane_step,
    TmuxStep, TmuxStepView,
};

verus! {

broadcast use vstd::string::group_string_axioms;

/// The characters of operation ids.
pub open spec fn is_operation_char(c: char) -> bool {
    ('a' <= c && c <= 'z') || ('A' <= c && c <= 'Z') || ('0' <= c && c <= '9') || c == '-' || c
        == '_'
}

/// Whether an operation id can stand in a shell command as it is.
pub open spec fn is_operation_id(id: Seq<char>) -> bool {
    id.len() > 0 && forall|i: int| 0 <= i < id.len() ==> is_operation_char(#[trigger] id[i])
}

pub fn operation_id_is_safe(id: &str) -> (r: bool)
    ensures
        r == is_operation_id(id@),
{
    let chars = char_vec(id);
    if chars.len() == 0 {
        return false;
    }
    let mut i: usize = 0;
    while i < chars.len()
        invariant
            i <= chars.len(),
            chars@ == id@,
            forall|j: int| 0 <= j < i ==> is_operation_char(#[trigger] id@[j]),
        decreases chars.len() - i,
    {
        let c = chars[i];
        if !(('a' <= c && c <= 'z') || ('A' <= c && c <= 'Z') || ('0' <= c && c <= '9') || c == '-'
            || c == '_') {
            assert(!is_operation_char(id@[i as int]));
            return false;
        }
        i += 1;
    }
    true
}

/// The mark by which a pane is found again.
pub open spec fn marker(operation_id: Seq<char>) -> Seq<char> {
    "HUMANIZE_TMUX_OPERATION_ID="@ + operation_id
}

/// The command that starts a shell under a mark.
pub open spec fn marked_shell(operation_id: Seq<char>) -> Seq<char> {
    "exec env "@ + marker(operation_id) + " \"${SHELL:-/bin/sh}\""@
}

pub fn identified_pane_marker(operation_id: &str) -> (r: Result<String, TmuxError>)
    ensures
        outcome(r) == (if is_operation_id(operation_id@) {
            Ok(marker(operation_id@))
        } else {
            Err(TmuxErrorView::InvalidOperationId)
        }),
{
    if !operation_id_is_safe(operation_id) {
        return Err(TmuxError::InvalidOperationId);
    }
    Ok(cat2("HUMANIZE_TMUX_OPERATION_ID=", operation_id))
}

pub fn identified_pane_shell_command(operation_id: &str) -> (r: Result<String, TmuxError>)
    ensures
        outcome(r) == (if is_operation_id(operation_id@) {
            Ok(marked_shell(operation_id@))
        } else {
            Err(TmuxErrorView::InvalidOperationId)
        }),
{
    match identified_pane_marker(operation_id) {
        Err(error) => Err(error),
        Ok(mark) => Ok(cat3("exec env ", mark.as_str(), " \"${SHELL:-/bin/sh}\"")),
    }
}

/// A window and its pane, of which tmux printed the ids.
pub open spec fn pane_made(
    made: Reply,
    session: Seq<char>,
    run_id: Seq<char>,
    name: Seq<char>,
    activation_id: Seq<char>,
) -> Result<(TmuxWindowView, TmuxPaneView), TmuxErrorView> {
    match made {
        Err(error) => Err(error),
        Ok(output) => match window_and_pane(output) {
            Err(error) => Err(error),
            Ok((window_id, pane_id)) => Ok(
                (
                    TmuxWindowView { session_id: session, run_id, name, id: window_id },
                    TmuxPaneView { session_id: session, window_id, activation_id, id: pane_id },
                ),
            ),
        },
    }
}

/// A pane of a window, of which tmux printed the id.
pub open spec fn pane_split(
    made: Reply,
    window: TmuxWindowView,
    activation_id: Seq<char>,
) -> Result<TmuxPaneView, TmuxErrorView> {
    match made {
        Err(error) => Err(error),
        Ok(output) => match printed(output, "pane id"@) {
            Err(error) => Err(error),
            Ok(id) => Ok(
                TmuxPaneView {
                    session_id: window.session_id,
                    window_id: window.id,
                    activation_id,
                    id,
                },
            ),
        },
    }
}

/// What may come of a new pane in a window.
pub open spec fn pane_split_off<R: CommandRunner>(
    runner: R,
    window: TmuxWindowView,
    activation_id: Seq<char>,
    r: Result<TmuxPaneView, TmuxErrorView>,
) -> bool {
    match owned_fault("window"@, window.session_id) {
        Some(fault) => r == Err::<TmuxPaneView, TmuxErrorView>(fault),
        None => exists|made: Reply| #[trigger]
            ran(runner, split_window_argv(target_of_window(window)), made) && r == pane_split(
                made,
                window,
                activation_id,
            ),
    }
}

/// What may come of a new pane in a window that can be found again.
pub open spec fn marked_pane_split_off<R: CommandRunner>(
    runner: R,
    window: TmuxWindowView,
    activation_id: Seq<char>,
    operation_id: Seq<char>,
    r: Result<TmuxPaneView, TmuxErrorView>,
) -> bool {
    match owned_fault("window"@, window.session_id) {
        Some(fault) => r == Err::<TmuxPaneView, TmuxErrorView>(fault),
        None => if !is_operation_id(operation_id) {
            r == Err::<TmuxPaneView, TmuxErrorView>(TmuxErrorView::InvalidOperationId)
        } else {
            exists|made: Reply| #[trigger]
                ran(
                    runner,
                    split_window_running_argv(
                        target_of_window(window),
                        marked_shell(operation_id),
                    ),
                    made,
                ) && r == pane_split(made, window, activation_id)
        },
    }
}

/// The session that goes with a window and its pane.
pub open spec fn in_session(
    id: Seq<char>,
    made: Result<(TmuxWindowView, TmuxPaneView), TmuxErrorView>,
) -> Result<(TmuxSessionView, TmuxWindowView, TmuxPaneView), TmuxErrorView> {
    match made {
        Err(error) => Err(error),
        Ok((window, pane)) => Ok((TmuxSessionView { id }, window, pane)),
    }
}

/// What may come of a new session with a window and a pane, by its steps.
pub open spec fn session_pane_created<R: CommandRunner>(
    runner: R,
    session: Seq<char>,
    run_id: Seq<char>,
    name: Seq<char>,
    activation_id: Seq<char>,
    r: Result<(TmuxSessionView, TmuxWindowView, TmuxPaneView), TmuxErrorView>,
) -> bool {
    exists|replies: Seq<Reply>| #[trigger]
        followed(runner, session_pane_asks(session, run_id, name, activation_id), replies)
            && session_pane_step(session, run_id, name, activation_id, replies)
            == TmuxStepView::Finish(r)
}

/// What may come of a new session with a window and a pane that can be found again.
pub open spec fn marked_session_pane_created<R: CommandRunner>(
    runner: R,
    session: Seq<char>,
    run_id: Seq<char>,
    name: Seq<char>,
    activation_id: Seq<char>,
    operation_id: Seq<char>,
    r: Result<(TmuxSessionView, TmuxWindowView, TmuxPaneView), TmuxErrorView>,
) -> bool {
    match session_fault(session) {
        Some(fault) => r == Err::<
            (TmuxSessionView, TmuxWindowView, TmuxPaneView),
            TmuxErrorView,
        >(fault),
        None => if !is_operation_id(operation_id) {
            r == Err::<(TmuxSessionView, TmuxWindowView, TmuxPaneView), TmuxErrorView>(
                TmuxErrorView::InvalidOperationId,
            )
        } else {
            exists|made: Reply| #[trigger]
                ran(
                    runner,
                    new_session_pane_running_argv(session, name, marked_shell(operation_id)),
                    made,
                ) && r == in_session(
                    session,
                    pane_made(made, session, run_id, name, activation_id),
                )
        },
    }
}

/// What may come of a new window with a pane.
pub open spec fn window_pane_created<R: CommandRunner>(
    runner: R,
    session: Seq<char>,
    run_id: Seq<char>,
    name: Seq<char>,
    activation_id: Seq<char>,
    r: Result<(TmuxWindowView, TmuxPaneView), TmuxErrorView>,
) -> bool {
    match session_fault(session) {
        Some(fault) => r == Err::<(TmuxWindowView, TmuxPaneView), TmuxErrorView>(fault),
        None => exists|made: Reply| #[trigger]
            ran(runner, new_window_pane_argv(session, name), made) && r == pane_made(
                made,
                session,
                run_id,
                name,
                activation_id,
            ),
    }
}

/// What may come of a new window with a pane that can be found again.
pub open spec fn marked_window_pane_created<R: CommandRunner>(
    runner: R,
    session: Seq<char>,
    run_id: Seq<char>,
    name: Seq<char>,
    activation_id: Seq<char>,
    operation_id: Seq<char>,
    r: Result<(TmuxWindowView, TmuxPaneView), TmuxErrorView>,
) -> bool {
    match session_fault(session) {
        Some(fault) => r == Err::<(TmuxWindowView, TmuxPaneView), TmuxErrorView>(fault),
        None => if !is_operation_id(operation_id) {
            r == Err::<(TmuxWindowView, TmuxPaneView), TmuxErrorView>(
                TmuxErrorView::InvalidOperationId,
            )
        } else {
            exists|made: Reply| #[trigger]
                ran(
                    runner,
                    new_window_pane_running_argv(session, name, marked_shell(operation_id)),
                    made,
                ) && r == pane_made(made, session, run_id, name, activation_id)
        },
    }
}

/// The five fields of a pane and the command that started it; only the last one may hold
/// the separator.
pub open spec fn started_fields(line: Seq<char>) -> Seq<Seq<char>> {
    if line.contains('|') {
        pieces_up_to(line, '|', 5)
    } else {
        pieces_up_to(line, '\t', 5)
    }
}

/// Whether a line tells of the pane that is looked for.
pub open spec fn is_marked_line(
    line: Seq<char>,
    session: Seq<char>,
    name: Seq<char>,
    mark: Seq<char>,
) -> bool {
    let fields = started_fields(line);
    &&& fields.len() == 5
    &&& fields[0] == session
    &&& fields[2] == name
    &&& holds_text(fields[4], mark)
}

/// The window and the pane in the first line, from line `n` on, that tells of the pane
/// looked for.
pub open spec fn marked_pane(
    lines: Seq<Seq<char>>,
    session: Seq<char>,
    name: Seq<char>,
    mark: Seq<char>,
    n: int,
) -> Option<(Seq<char>, Seq<char>)>
    decreases lines.len() - n,
{
    if n < 0 || n >= lines.len() {
        None
    } else if is_marked_line(lines[n], session, name, mark) {
        Some((started_fields(lines[n])[1], started_fields(lines[n])[3]))
    } else {
        marked_pane(lines, session, name, mark, n + 1)
    }
}

/// What a look for a marked pane finds in what tmux listed.
pub open spec fn marked_pane_in(
    output: CommandOutputView,
    session: Seq<char>,
    run_id: Seq<char>,
    name: Seq<char>,
    activation_id: Seq<char>,
    mark: Seq<char>,
) -> Option<(TmuxWindowView, TmuxPaneView)> {
    if output.status != 0 {
        None
    } else {
        match marked_pane(text_lines(output.stdout), session, name, mark, 0) {
            None => None,
            Some((window_id, pane_id)) => Some(
                (
                    TmuxWindowView { session_id: session, run_id, name, id: window_id },
                    TmuxPaneView { session_id: session, window_id, activation_id, id: pane_id },
                ),
            ),
        }
    }
}

/// What may come of a look for a marked pane.
pub open spec fn marked_pane_found<R: CommandRunner>(
    runner: R,
    session: Seq<char>,
    run_id: Seq<char>,
    name: Seq<char>,
    activation_id: Seq<char>,
    operation_id: Seq<char>,
    r: Result<Option<(TmuxWindowView, TmuxPaneView)>, TmuxErrorView>,
) -> bool {
    match session_fault(session) {
        Some(fault) => r == Err::<Option<(TmuxWindowView, TmuxPaneView)>, TmuxErrorView>(fault),
        None => if !is_operation_id(operation_id) {
            r == Err::<Option<(TmuxWindowView, TmuxPaneView)>, TmuxErrorView>(
                TmuxErrorView::InvalidOperationId,
            )
        } else {
            exists|listed: Reply| #[trigger]
                runner.replies(list_started_panes_argv(), listed) && r == (match listed {
                    Err(error) => Err(error),
                    Ok(output) => Ok(
                        marked_pane_in(
                            output,
                            session,
                            run_id,
                            name,
                            activation_id,
                            marker(operation_id),
                        ),
                    ),
                })
        },
    }
}

/// What may come of an activation that gets a pane in a window.
pub open spec fn pane_given<R: CommandRunner>(
    runner: R,
    session: TmuxSessionView,
    window: TmuxWindowView,
    activation_id: Seq<char>,
    r: Result<TmuxActivationView, TmuxErrorView>,
) -> bool {
    exists|split: Result<TmuxPaneView, TmuxErrorView>| #[trigger]
        pane_split_off(runner, window, activation_id, split) && r == (match split {
            Err(error) => Err(error),
            Ok(pane) => Ok(
                TmuxActivationView {
                    session,
                    window,
                    pane,
                    metadata: TmuxActivationMetadata::describes(session, window, pane),
                },
            ),
        })
}

/// What may come of an activation that is to get a pane of its own.
pub open spec fn activation_prepared<R: CommandRunner>(
    runner: R,
    request: TmuxActivationRequestView,
    r: Result<TmuxActivationView, TmuxErrorView>,
) -> bool {
    exists|made: Result<(TmuxSessionView, TmuxWindowView), TmuxErrorView>| #[trigger]
        activation_window(
            runner,
            request.session_id,
            request.run_id,
            request.window_name,
            made,
        ) && match made {
            Err(error) => r == Err::<TmuxActivationView, TmuxErrorView>(error),
            Ok((session, window)) => pane_given(
                runner,
                session,
                window,
                request.activation_id,
                r,
            ),
        }
}

pub fn window_with_pane(
    output: &CommandOutput,
    session: &str,
    run_id: String,
    window_name: String,
    activation_id: String,
) -> (r: Result<(TmuxWindow, TmuxPane), TmuxError>)
    ensures
        outcome(r) == pane_made(
            Ok(output.deep_view()),
            session@,
            run_id@,
            window_name@,
            activation_id@,
        ),
{
    match window_pane_stdout(output) {
        Err(error) => Err(error),
        Ok((window_id, pane_id)) => {
            let pane = TmuxPane::new_in_session(
                session.to_string(),
                window_id.clone(),
                activation_id,
                pane_id,
            );
            let window = TmuxWindow::new_named(
                session.to_string(),
                run_id,
                window_name,
                window_id,
            );
            Ok((window, pane))
        },
    }
}

fn split_off(output: &CommandOutput, window: &TmuxWindow, activation_id: String) -> (r: Result<
    TmuxPane,
    TmuxError,
>)
    ensures
        outcome(r) == pane_split(Ok(output.deep_view()), window.deep_view(), activation_id@),
{
    match trimmed_stdout(output, "pane id") {
        Err(error) => Err(error),
        Ok(pane_id) => Ok(
            TmuxPane::new_in_session(
                window.session_id().to_string(),
                window.id().to_string(),
                activation_id,
                pane_id,
            ),
        ),
    }
}

/// The marked pane in what tmux listed.
pub fn find_marked_pane(
    output: &CommandOutput,
    session_id: &str,
    run_id: &str,
    window_name: &str,
    activation_id: &str,
    mark: &str,
) -> (r: Option<(TmuxWindow, TmuxPane)>)
    ensures
        r.deep_view() == marked_pane_in(
            output.deep_view(),
            session_id@,
            run_id@,
            window_name@,
            activation_id@,
            mark@,
        ),
{
    if !output.is_success() {
        return None;
    }
    let listed = lines(output.stdout.as_str());
    let ghost model = text_lines(output.stdout@);
    let mut i: usize = 0;
    while i < listed.len()
        invariant
            i <= listed.len(),
            model == listed.deep_view(),
            model == text_lines(output.stdout@),
            output.status == 0,
            marked_pane(model, session_id@, window_name@, mark@, 0) == marked_pane(
                model,
                session_id@,
                window_name@,
                mark@,
                i as int,
            ),
        decreases listed.len() - i,
    {
        assert(model[i as int] == listed@[i as int]@);
        let line = listed[i].as_str();
        let fields = if contains_char(line, '|') {
            split_up_to(line, '|', 5)
        } else {
            split_up_to(line, '\t', 5)
        };
        let ghost parts = started_fields(model[i as int]);
        assert(fields.deep_view() == parts);
        assert(fields.len() == parts.len());
        if fields.len() == 5 {
            assert(parts[0] == fields@[0]@ && parts[1] == fields@[1]@ && parts[2] == fields@[2]@
                && parts[3] == fields@[3]@ && parts[4] == fields@[4]@);
            if same(fields[0].as_str(), session_id) && same(fields[2].as_str(), window_name)
                && contains_substring(fields[4].as_str(), mark) {
                let window = TmuxWindow::new_named(
                    session_id.to_string(),
                    run_id.to_string(),
                    window_name.to_string(),
                    fields[1].clone(),
                );
                let pane = TmuxPane::new_in_session(
                    session_id.to_string(),
                    fields[1].clone(),
                    activation_id.to_string(),
                    fields[3].clone(),
                );
                return Some((window, pane));
            }
        }
        i += 1;
    }
    None
}

impl<R: CommandRunner> TmuxAdapter<R> {
    pub fn create_session_with_window_pane(
        &self,
        session_id: String,
        run_id: String,
        window_name: String,
        activation_id: String,
    ) -> (r: Result<(TmuxSession, TmuxWindow, TmuxPane), TmuxError>)
        ensures
            session_pane_created(
                self.runs(),
                session_id@,
                run_id@,
                window_name@,
                activation_id@,
                outcome(r),
            ),
    {
        let ghost asks = session_pane_asks(session_id@, run_id@, window_name@, activation_id@);
        let mut replies: Vec<Result<CommandOutput, TmuxError>> = Vec::new();
        loop
            invariant
                asks == session_pane_asks(session_id@, run_id@, window_name@, activation_id@),
                followed(self.runs(), asks, answers(replies@)),
                replies.len() <= 1,
            decreases 1 - replies.len(),
        {
            let ghost before = answers(replies@);
            match next_for_session_pane(
                session_id.as_str(),
                run_id.as_str(),
                window_name.as_str(),
                activation_id.as_str(),
                &replies,
            ) {
                TmuxStep::Run(argv) => {
                    let reply = self.runner().run(argv);
                    replies.push(reply);
                    proof {
                        lemma_followed_further(self.runs(), asks, before, outcome(reply));
                        assert(answers(replies@) =~= before.push(outcome(reply)));
                    }
                },
                TmuxStep::PaneGone(_) => {
                    assert(false);
                },
                TmuxStep::Finish(result) => {
                    return result;
                },
            }
        }
    }

    pub fn create_session_with_window_pane_identified(
        &self,
        session_id: String,
        run_id: String,
        window_name: String,
        activation_id: String,
        operation_id: &str,
    ) -> (r: Result<(TmuxSession, TmuxWindow, TmuxPane), TmuxError>)
        ensures
            marked_session_pane_created(
                self.runs(),
                session_id@,
                run_id@,
                window_name@,
                activation_id@,
                operation_id@,
                outcome(r),
            ),
    {
        let session = TmuxSession::new(session_id);
        match validate_session_id(session.id()) {
            Err(error) => return Err(error),
            Ok(_) => {},
        }
        let command = match identified_pane_shell_command(operation_id) {
            Err(error) => return Err(error),
            Ok(command) => command,
        };
        let output = match run_checked(
            self.runner(),
            new_session_pane_running_words(session.id(), window_name.as_str(), command.as_str()),
        ) {
            Err(error) => return Err(error),
            Ok(output) => output,
        };
        match window_with_pane(&output, session.id(), run_id, window_name, activation_id) {
            Err(error) => Err(error),
            Ok((window, pane)) => Ok((session, window, pane)),
        }
    }

    pub fn create_window_named_with_pane(
        &self,
        session: &TmuxSession,
        run_id: String,
        window_name: String,
        activation_id: String,
    ) -> (r: Result<(TmuxWindow, TmuxPane), TmuxError>)
        ensures
            window_pane_created(
                self.runs(),
                session.deep_view().id,
                run_id@,
                window_name@,
                activation_id@,
                outcome(r),
            ),
    {
        match validate_session_id(session.id()) {
            Err(error) => return Err(error),
            Ok(_) => {},
        }
        let output = match run_checked(
            self.runner(),
            new_window_pane_words(session.id(), window_name.as_str()),
        ) {
            Err(error) => return Err(error),
            Ok(output) => output,
        };
        window_with_pane(&output, session.id(), run_id, window_name, activation_id)
    }

    pub fn create_window_named_with_pane_identified(
        &self,
        session: &TmuxSession,
        run_id: String,
        window_name: String,
        activation_id: String,
        operation_id: &str,
    ) -> (r: Result<(TmuxWindow, TmuxPane), TmuxError>)
        ensures
            marked_window_pane_created(
                self.runs(),
                session.deep_view().id,
                run_id@,
                window_name@,
                activation_id@,
                operation_id@,
                outcome(r),
            ),
    {
        match validate_session_id(session.id()) {
            Err(error) => return Err(error),
            Ok(_) => {},
        }
        let command = match identified_pane_shell_command(operation_id) {
            Err(error) => return Err(error),
            Ok(command) => command,
        };
        let output = match run_checked(
            self.runner(),
            new_window_pane_running_words(session.id(), window_name.as_str(), command.as_str()),
        ) {
            Err(error) => return Err(error),
            Ok(output) => output,
        };
        window_with_pane(&output, session.id(), run_id, window_name, activation_id)
    }

    pub fn split_pane_for_activation(
        &self,
        window: &TmuxWindow,
        activation_id: String,
    ) -> (r: Result<TmuxPane, TmuxError>)
        ensures
            pane_split_off(self.runs(), window.deep_view(), activation_id@, outcome(r)),
    {
        match validate_owned_session_id("window", window.session_id()) {
            Err(error) => return Err(error),
            Ok(_) => {},
        }
        let target = window_target(window);
        let output = match run_checked(self.runner(), split_window_words(target.as_str())) {
            Err(error) => return Err(error),
            Ok(output) => output,
        };
        split_off(&output, window, activation_id)
    }

    pub fn split_pane_for_activation_identified(
        &self,
        window: &TmuxWindow,
        activation_id: String,
        operation_id: &str,
    ) -> (r: Result<TmuxPane, TmuxError>)
        ensures
            marked_pane_split_off(
                self.runs(),
                window.deep_view(),
                activation_id@,
                operation_id@,
                outcome(r),
            ),
    {
        match validate_owned_session_id("window", window.session_id()) {
            Err(error) => return Err(error),
            Ok(_) => {},
        }
        let target = window_target(window);
        let command = match identified_pane_shell_command(operation_id) {
            Err(error) => return Err(error),
            Ok(command) => command,
        };
        let output = match run_checked(
            self.runner(),
            split_window_running_words(target.as_str(), command.as_str()),
        ) {
            Err(error) => return Err(error),
            Ok(output) => output,
        };
        split_off(&output, window, activation_id)
    }

    pub fn find_identified_pane(
        &self,
        session_id: &str,
        run_id: &str,
        window_name: &str,
        activation_id: &str,
        operation_id: &str,
    ) -> (r: Result<Option<(TmuxWindow, TmuxPane)>, TmuxError>)
        ensures
            marked_pane_found(
                self.runs(),
                session_id@,
                run_id@,
                window_name@,
                activation_id@,
                operation_id@,
                outcome(r),
            ),
    {
        match validate_session_id(session_id) {
            Err(error) => return Err(error),
            Ok(_) => {},
        }
        let mark = match identified_pane_marker(operation_id) {
            Err(error) => return Err(error),
            Ok(mark) => mark,
        };
        match self.runner().run(list_started_panes_words()) {
            Err(error) => Err(error),
            Ok(output) => Ok(
                find_marked_pane(
                    &output,
                    session_id,
                    run_id,
                    window_name,
                    activation_id,
                    mark.as_str(),
                ),
            ),
        }
    }

    /// A window and a pane of its own for an activation.
    pub fn prepare_activation(&self, request: TmuxActivationRequest) -> (r: Result<
        TmuxActivation,
        TmuxError,
    >)
        ensures
            activation_prepared(self.runs(), request.deep_view(), outcome(r)),
    {
        let prepared = self.prepare_activation_window(
            request.session_id(),
            request.run_id().to_string(),
            request.window_name().to_string(),
        );
        let ghost window_made = outcome(prepared);
        assert(activation_window(
            self.runs(),
            request.deep_view().session_id,
            request.deep_view().run_id,
            request.deep_view().window_name,
            window_made,
        ));
        let (session, window) = match prepared {
            Err(error) => return Err(error),
            Ok(made) => made,
        };
        let split = self.split_pane_for_activation(&window, request.activation_id().to_string());
        assert(pane_split_off(
            self.runs(),
            window.deep_view(),
            request.deep_view().activation_id,
            outcome(split),
        ));
        let ghost views = (session.deep_view(), window.deep_view());
        let r = match split {
            Err(error) => Err(error),
            Ok(pane) => Ok(TmuxActivation::new(session, window, pane)),
        };
        assert(window_made == Ok::<(TmuxSessionView, TmuxWindowView), TmuxErrorView>(views));
        assert(pane_given(
            self.runs(),
            views.0,
            views.1,
            request.deep_view().activation_id,
            outcome(r),
        ));
        r
    }
}

} // verus!
