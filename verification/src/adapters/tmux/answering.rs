//! What sessions, windows and panes are told of, in terms of what tmux answered.
use vstd::prelude::*;

use crate::text::trimmed;

use super::adapter::{
    owned_made, owned_run, pane_captured, pane_validated, pane_verdict, session_found,
    window_created, window_made,
};
use super::argv::{
    capture_pane_argv, display_pane_argv, has_session_argv, list_panes_argv, new_window_argv,
    pipe_pane_argv, split_window_argv, split_window_running_argv, target_of_pane, target_of_window,
};
use super::error::{owned_fault, session_fault, TmuxErrorView};
use super::model::{
    CommandOutputView, TmuxActivationMetadataView, TmuxPaneIdentityView, TmuxPaneView,
    TmuxWindowView,
};
use super::pane_creation::{
    is_operation_id, marked_pane_split_off, marked_shell, pane_made, pane_split, pane_split_off,
};
use super::pane_presence::{presence_probed, TmuxPanePresence};
use super::pipe::{pipe_started, PipeCaptureRequestView};
use super::record::printed_identity;
use super::runner::{checked, ran, success, CommandRunner, Reply};
use super::steps::{answered, followed, owned_asks, owned_step, TmuxStepView};

verus! {

broadcast use vstd::string::group_string_axioms;

/// A session is there exactly when tmux ends well on being asked for it.
pub proof fn lemma_sessions_are_found_by_their_status<R: CommandRunner>(
    runner: R,
    id: Seq<char>,
    found: bool,
) -> (output: CommandOutputView)
    requires
        session_found(runner, id, Ok(found)),
    ensures
        runner.replies(has_session_argv(id), Ok(output)),
        found <==> output.status == 0,
        session_fault(id) is None,
{
    let reply = choose|reply: Reply| #[trigger]
        runner.replies(has_session_argv(id), reply) && Ok::<bool, TmuxErrorView>(found) == (
        match reply {
            Err(error) => Err(error),
            Ok(output) => Ok(output.status == 0),
        });
    reply->Ok_0
}

/// A window that was made has the id that tmux printed, in the session and under the name that were
/// asked for.
pub proof fn lemma_made_windows_are_those_printed<R: CommandRunner>(
    runner: R,
    session: Seq<char>,
    run_id: Seq<char>,
    name: Seq<char>,
    window: TmuxWindowView,
) -> (output: CommandOutputView)
    requires
        window_created(runner, session, run_id, name, Ok(window)),
    ensures
        runner.replies(new_window_argv(session, name), Ok(output)),
        output.status == 0,
        window.id == trimmed(output.stdout),
        window.id.len() > 0,
        window.session_id == session,
        window.name == name,
        window.run_id == run_id,
{
    let argv = new_window_argv(session, name);
    let made = choose|made: Reply| #[trigger]
        ran(runner, argv, made) && Ok::<TmuxWindowView, TmuxErrorView>(window)
            == window_made(made, session, run_id, name);
    let reply = choose|reply: Reply| #[trigger]
        runner.replies(argv, reply) && made == checked(argv, reply);
    reply->Ok_0
}

/// A pane that was split off lies in its window, belongs to its activation and has the id that tmux
/// printed.
pub proof fn lemma_split_panes_are_those_printed<R: CommandRunner>(
    runner: R,
    window: TmuxWindowView,
    activation_id: Seq<char>,
    pane: TmuxPaneView,
) -> (output: CommandOutputView)
    requires
        pane_split_off(runner, window, activation_id, Ok(pane)),
    ensures
        runner.replies(split_window_argv(target_of_window(window)), Ok(output)),
        output.status == 0,
        pane.id == trimmed(output.stdout),
        pane.id.len() > 0,
        pane.session_id == window.session_id,
        pane.window_id == window.id,
        pane.activation_id == activation_id,
        owned_fault("window"@, window.session_id) is None,
{
    let argv = split_window_argv(target_of_window(window));
    let made = choose|made: Reply| #[trigger]
        ran(runner, argv, made) && Ok::<TmuxPaneView, TmuxErrorView>(pane)
            == pane_split(made, window, activation_id);
    let reply = choose|reply: Reply| #[trigger]
        runner.replies(argv, reply) && made == checked(argv, reply);
    reply->Ok_0
}

/// A marked pane runs the shell that carries the mark of its operation, and its operation has a
/// plain name.
pub proof fn lemma_marked_panes_run_the_marked_shell<R: CommandRunner>(
    runner: R,
    window: TmuxWindowView,
    activation_id: Seq<char>,
    operation_id: Seq<char>,
    pane: TmuxPaneView,
) -> (output: CommandOutputView)
    requires
        marked_pane_split_off(runner, window, activation_id, operation_id, Ok(pane)),
    ensures
        runner.replies(
            split_window_running_argv(target_of_window(window), marked_shell(operation_id)),
            Ok(output),
        ),
        output.status == 0,
        is_operation_id(operation_id),
        pane.id == trimmed(output.stdout),
        pane.session_id == window.session_id,
        pane.window_id == window.id,
        pane.activation_id == activation_id,
{
    let argv = split_window_running_argv(target_of_window(window), marked_shell(operation_id));
    let made = choose|made: Reply| #[trigger]
        ran(runner, argv, made) && Ok::<TmuxPaneView, TmuxErrorView>(pane)
            == pane_split(made, window, activation_id);
    let reply = choose|reply: Reply| #[trigger]
        runner.replies(argv, reply) && made == checked(argv, reply);
    reply->Ok_0
}

/// A window and a pane that were made together are in the session and under the name that were
/// asked for, and the pane belongs to the activation.
pub proof fn lemma_windows_are_made_with_their_pane(
    made: Reply,
    session: Seq<char>,
    run_id: Seq<char>,
    name: Seq<char>,
    activation_id: Seq<char>,
)
    ensures
        match pane_made(made, session, run_id, name, activation_id) {
            Ok((window, pane)) => {
                &&& made is Ok
                &&& window.session_id == session
                &&& window.run_id == run_id
                &&& window.name == name
                &&& pane.session_id == session
                &&& pane.window_id == window.id
                &&& pane.activation_id == activation_id
            },
            Err(_) => true,
        },
        made is Err ==> pane_made(made, session, run_id, name, activation_id) is Err,
{
}

/// A pane that tmux shows, with a good end, is held against what is expected; a pane is only found
/// missing where tmux did not show it and listed its panes.
pub proof fn lemma_missing_panes_were_not_shown<R: CommandRunner>(
    runner: R,
    target: Seq<char>,
    expected: TmuxPaneIdentityView,
    by_name: bool,
) -> (replies: (CommandOutputView, CommandOutputView))
    requires
        presence_probed(runner, target, expected, by_name, Ok(TmuxPanePresence::Absent)),
    ensures
        runner.replies(display_pane_argv(target), Ok(replies.0)),
        replies.0.status != 0 ==> runner.replies(list_panes_argv(), Ok(replies.1))
            && replies.1.status == 0,
{
    let shown = choose|shown: Reply|
        runner.replies(display_pane_argv(target), shown) && shown is Ok && (shown->Ok_0.status != 0
            ==> exists|listed: Reply| ran(runner, list_panes_argv(), listed)
            && listed is Ok);
    let output = shown->Ok_0;
    if output.status != 0 {
        let listed = choose|listed: Reply|
            ran(runner, list_panes_argv(), listed) && listed is Ok;
        let reply = choose|reply: Reply| #[trigger]
            runner.replies(list_panes_argv(), reply) && listed == checked(
                list_panes_argv(),
                reply,
            );
        (output, reply->Ok_0)
    } else {
        (output, output)
    }
}

/// What is captured of a pane is what tmux printed for it.
pub proof fn lemma_captured_panes_are_those_printed<R: CommandRunner>(
    runner: R,
    pane: TmuxPaneView,
    text: Seq<char>,
) -> (output: CommandOutputView)
    requires
        pane_captured(runner, pane, Ok(text)),
    ensures
        runner.replies(capture_pane_argv(target_of_pane(pane)), Ok(output)),
        output.status == 0,
        text == output.stdout,
{
    let argv = capture_pane_argv(target_of_pane(pane));
    let asks = owned_asks("pane"@, pane.session_id, argv);
    let made = choose|made: Reply| #[trigger]
        owned_made(runner, "pane"@, pane.session_id, argv, made) && Ok::<Seq<char>, TmuxErrorView>(
            text,
        ) == (match made {
            Err(error) => Err(error),
            Ok(output) => Ok(output.stdout),
        });
    let replies = choose|replies: Seq<Reply>| #[trigger]
        followed(runner, asks, replies) && owned_step("pane"@, pane.session_id, argv, replies)
            == TmuxStepView::Finish(made);
    assert(answered(runner, asks, replies, 0));
    assert(replies.take(0) =~= Seq::<Reply>::empty());
    replies[0]->Ok_0
}

/// A command on something that is owned went well only if tmux answered it with a good end.
pub proof fn lemma_owned_commands_were_answered<R: CommandRunner>(
    runner: R,
    kind: Seq<char>,
    session: Seq<char>,
    argv: Seq<Seq<char>>,
) -> (output: CommandOutputView)
    requires
        owned_run(runner, kind, session, argv, Ok(())),
    ensures
        runner.replies(argv, Ok(output)),
        output.status == 0,
        owned_fault(kind, session) is None,
{
    let asks = owned_asks(kind, session, argv);
    let made = choose|made: Reply| #[trigger]
        owned_made(runner, kind, session, argv, made) && Ok::<(), TmuxErrorView>(()) == success(
            made,
        );
    let replies = choose|replies: Seq<Reply>| #[trigger]
        followed(runner, asks, replies) && owned_step(kind, session, argv, replies)
            == TmuxStepView::Finish(made);
    assert(answered(runner, asks, replies, 0));
    assert(replies.take(0) =~= Seq::<Reply>::empty());
    replies[0]->Ok_0
}

/// A pane passes only if tmux shows the very pane that is known: its session, its window and its
/// own id.
pub proof fn lemma_valid_panes_are_shown<R: CommandRunner>(
    runner: R,
    known: TmuxActivationMetadataView,
) -> (output: CommandOutputView)
    requires
        pane_validated(runner, known, Ok(())),
    ensures
        runner.replies(display_pane_argv(target_of_pane(known.pane())), Ok(output)),
        output.status == 0,
        printed_identity(output) is Ok,
        printed_identity(output)->Ok_0.pane_id == known.pane_id,
        printed_identity(output)->Ok_0.session_id == known.session_id,
        printed_identity(output)->Ok_0.window_id == known.window_id,
        printed_identity(output)->Ok_0.window_name == known.window_name,
{
    let argv = display_pane_argv(target_of_pane(known.pane()));
    let made = choose|made: Reply| #[trigger]
        ran(runner, argv, made) && Ok::<(), TmuxErrorView>(()) == pane_verdict(known, made);
    let reply = choose|reply: Reply| #[trigger]
        runner.replies(argv, reply) && made == checked(argv, reply);
    reply->Ok_0
}

/// A pane is piped only if tmux took the command of the sink for it.
pub proof fn lemma_pipes_were_taken<R: CommandRunner>(
    runner: R,
    pane: TmuxPaneView,
    request: PipeCaptureRequestView,
    sink: Seq<char>,
) -> (output: CommandOutputView)
    requires
        pipe_started(runner, pane, request, sink, Ok(())),
    ensures
        runner.replies(pipe_pane_argv(target_of_pane(pane), request.command(sink)), Ok(output)),
        output.status == 0,
        owned_fault("pane"@, pane.session_id) is None,
{
    let argv = pipe_pane_argv(target_of_pane(pane), request.command(sink));
    let made = choose|made: Reply| #[trigger] ran(runner, argv, made) && made is Ok;
    let reply = choose|reply: Reply| #[trigger]
        runner.replies(argv, reply) && made == checked(argv, reply);
    reply->Ok_0
}

} // verus!
