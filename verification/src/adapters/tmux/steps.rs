//! What is done next on tmux, from what was answered so far. The steps say which commands
//! run at all: an operation runs those that they ask for, and nothing else.
use vstd::prelude::*;

use super::argv::{
    has_session_argv, has_session_words, kill_pane_argv, kill_pane_words, new_session_argv,
    new_session_pane_argv, new_session_pane_words, new_session_words, pane_target,
    target_of_pane,
};
use super::error::{
    owned_fault, session_fault, validate_owned_session_id, validate_session_id, TmuxError,
    TmuxErrorView,
};
use super::model::{
    CommandOutput, CommandOutputView, TmuxPane, TmuxPaneView, TmuxSession, TmuxSessionView,
    TmuxWindow, TmuxWindowView,
};
use super::pane_creation::{in_session, pane_made, window_with_pane};
use super::runner::{check_reply, checked, copy_words, outcome, CommandRunner, Reply};

verus! {

broadcast use vstd::string::group_string_axioms;

/// What is done next.
#[derive(Debug)]
pub enum TmuxStep<T> {
    /// A command is run.
    Run(Vec<String>),
    /// The runner is told that a pane is gone.
    PaneGone(String),
    /// Nothing more is done.
    Finish(Result<T, TmuxError>),
}

#[verifier::ext_equal]
pub enum TmuxStepView<T> {
    Run(Seq<Seq<char>>),
    PaneGone(Seq<char>),
    Finish(Result<T, TmuxErrorView>),
}

impl<T: DeepView> DeepView for TmuxStep<T> {
    type V = TmuxStepView<T::V>;

    open spec fn deep_view(&self) -> TmuxStepView<T::V> {
        match self {
            TmuxStep::Run(argv) => TmuxStepView::Run(argv.deep_view()),
            TmuxStep::PaneGone(target) => TmuxStepView::PaneGone(target@),
            TmuxStep::Finish(result) => TmuxStepView::Finish(outcome(*result)),
        }
    }
}

impl<T> TmuxStepView<T> {
    /// The command that is run next, if one is.
    pub open spec fn command(self) -> Option<Seq<Seq<char>>> {
        match self {
            TmuxStepView::Run(argv) => Some(argv),
            _ => None,
        }
    }
}

/// Whether a command ran and left with zero.
pub open spec fn left_with_zero(reply: Reply) -> bool {
    match reply {
        Ok(output) => output.status == 0,
        Err(_) => false,
    }
}

/// What was answered so far.
pub open spec fn answers(replies: Seq<Result<CommandOutput, TmuxError>>) -> Seq<Reply> {
    replies.map_values(|reply: Result<CommandOutput, TmuxError>| outcome(reply))
}

/// Whether a runner may give the answer at `i` to the command that comes next there.
pub open spec fn answered<R: CommandRunner>(
    runner: R,
    asks: spec_fn(Seq<Reply>) -> Option<Seq<Seq<char>>>,
    replies: Seq<Reply>,
    i: int,
) -> bool {
    match asks(replies.take(i)) {
        Some(argv) => runner.replies(argv, replies[i]),
        None => false,
    }
}

/// Whether a runner may give these answers, each to the command that comes next.
pub open spec fn followed<R: CommandRunner>(
    runner: R,
    asks: spec_fn(Seq<Reply>) -> Option<Seq<Seq<char>>>,
    replies: Seq<Reply>,
) -> bool {
    forall|i: int| 0 <= i < replies.len() ==> #[trigger] answered(runner, asks, replies, i)
}

pub(crate) proof fn lemma_followed_further<R: CommandRunner>(
    runner: R,
    asks: spec_fn(Seq<Reply>) -> Option<Seq<Seq<char>>>,
    replies: Seq<Reply>,
    reply: Reply,
)
    requires
        followed(runner, asks, replies),
        asks(replies) matches Some(argv) && runner.replies(argv, reply),
    ensures
        followed(runner, asks, replies.push(reply)),
{
    let all = replies.push(reply);
    assert forall|i: int| 0 <= i < all.len() implies #[trigger] answered(
        runner,
        asks,
        all,
        i,
    ) by {
        assert(all.take(i) =~= replies.take(i));
        if i == replies.len() {
            assert(replies.take(i) =~= replies);
        } else {
            assert(answered(runner, asks, replies, i));
        }
    }
}

/// The commands that run where the answers are these, from the given one on.
pub open spec fn commands(
    asks: spec_fn(Seq<Reply>) -> Option<Seq<Seq<char>>>,
    replies: Seq<Reply>,
    from: int,
) -> Seq<Seq<Seq<char>>>
    decreases replies.len() - from,
{
    match asks(replies.take(from)) {
        None => Seq::empty(),
        Some(argv) => if 0 <= from < replies.len() {
            seq![argv] + commands(asks, replies, from + 1)
        } else {
            seq![argv]
        },
    }
}

/// The step of a session that has to be there.
pub open spec fn session_step(id: Seq<char>, replies: Seq<Reply>) -> TmuxStepView<
    TmuxSessionView,
> {
    match session_fault(id) {
        Some(fault) => TmuxStepView::Finish(Err(fault)),
        None => if replies.len() == 0 {
            TmuxStepView::Run(has_session_argv(id))
        } else {
            match replies[0] {
                Err(error) => TmuxStepView::Finish(Err(error)),
                Ok(output) => if output.status == 0 {
                    TmuxStepView::Finish(Ok(TmuxSessionView { id }))
                } else if replies.len() == 1 {
                    TmuxStepView::Run(new_session_argv(id))
                } else {
                    TmuxStepView::Finish(
                        match checked(new_session_argv(id), replies[1]) {
                            Err(error) => Err(error),
                            Ok(_) => Ok(TmuxSessionView { id }),
                        },
                    )
                },
            }
        },
    }
}

/// The commands of a session that has to be there.
pub open spec fn session_asks(id: Seq<char>) -> spec_fn(Seq<Reply>) -> Option<Seq<Seq<char>>> {
    |replies: Seq<Reply>| session_step(id, replies).command()
}

/// The step of a session that has to be there.
pub fn next_for_session(id: &str, replies: &Vec<Result<CommandOutput, TmuxError>>) -> (r: TmuxStep<
    TmuxSession,
>)
    ensures
        r.deep_view() == session_step(id@, answers(replies@)),
{
    match validate_session_id(id) {
        Err(error) => return TmuxStep::Finish(Err(error)),
        Ok(_) => {},
    }
    if replies.len() == 0 {
        return TmuxStep::Run(has_session_words(id));
    }
    match &replies[0] {
        Err(error) => TmuxStep::Finish(Err(error.clone())),
        Ok(output) => if output.is_success() {
            TmuxStep::Finish(Ok(TmuxSession::new(id.to_string())))
        } else if replies.len() == 1 {
            TmuxStep::Run(new_session_words(id))
        } else {
            let argv = new_session_words(id);
            match check_reply(&argv, &replies[1]) {
                Err(error) => TmuxStep::Finish(Err(error)),
                Ok(_) => TmuxStep::Finish(Ok(TmuxSession::new(id.to_string()))),
            }
        },
    }
}

/// The step of a command on something that lives in a session.
pub open spec fn owned_step(
    kind: Seq<char>,
    session: Seq<char>,
    argv: Seq<Seq<char>>,
    replies: Seq<Reply>,
) -> TmuxStepView<CommandOutputView> {
    match owned_fault(kind, session) {
        Some(fault) => TmuxStepView::Finish(Err(fault)),
        None => if replies.len() == 0 {
            TmuxStepView::Run(argv)
        } else {
            TmuxStepView::Finish(checked(argv, replies[0]))
        },
    }
}

/// The commands on something that lives in a session.
pub open spec fn owned_asks(
    kind: Seq<char>,
    session: Seq<char>,
    argv: Seq<Seq<char>>,
) -> spec_fn(Seq<Reply>) -> Option<Seq<Seq<char>>> {
    |replies: Seq<Reply>| owned_step(kind, session, argv, replies).command()
}

/// The step of a command on something that lives in a session.
pub fn next_for_owned(
    kind: &'static str,
    session: &str,
    argv: &Vec<String>,
    replies: &Vec<Result<CommandOutput, TmuxError>>,
) -> (r: TmuxStep<CommandOutput>)
    ensures
        r.deep_view() == owned_step(kind@, session@, argv.deep_view(), answers(replies@)),
{
    match validate_owned_session_id(kind, session) {
        Err(error) => return TmuxStep::Finish(Err(error)),
        Ok(_) => {},
    }
    if replies.len() == 0 {
        TmuxStep::Run(copy_words(argv))
    } else {
        TmuxStep::Finish(check_reply(argv, &replies[0]))
    }
}

/// The step of the end of a pane.
pub open spec fn kill_pane_step(
    pane: TmuxPaneView,
    replies: Seq<Reply>,
    told: bool,
) -> TmuxStepView<()> {
    let target = target_of_pane(pane);
    match owned_fault("pane"@, pane.session_id) {
        Some(fault) => TmuxStepView::Finish(Err(fault)),
        None => if replies.len() == 0 {
            TmuxStepView::Run(kill_pane_argv(target))
        } else {
            match checked(kill_pane_argv(target), replies[0]) {
                Err(error) => TmuxStepView::Finish(Err(error)),
                Ok(_) => if told {
                    TmuxStepView::Finish(Ok(()))
                } else {
                    TmuxStepView::PaneGone(target)
                },
            }
        },
    }
}

/// The commands of the end of a pane.
pub open spec fn kill_pane_asks(pane: TmuxPaneView) -> spec_fn(Seq<Reply>) -> Option<
    Seq<Seq<char>>,
> {
    |replies: Seq<Reply>| kill_pane_step(pane, replies, false).command()
}

/// The step of the end of a pane.
pub fn next_for_kill_pane(
    pane: &TmuxPane,
    replies: &Vec<Result<CommandOutput, TmuxError>>,
    told: bool,
) -> (r: TmuxStep<()>)
    ensures
        r.deep_view() == kill_pane_step(pane.deep_view(), answers(replies@), told),
{
    match validate_owned_session_id("pane", pane.session_id()) {
        Err(error) => return TmuxStep::Finish(Err(error)),
        Ok(_) => {},
    }
    let target = pane_target(pane);
    let argv = kill_pane_words(target.as_str());
    if replies.len() == 0 {
        return TmuxStep::Run(argv);
    }
    match check_reply(&argv, &replies[0]) {
        Err(error) => TmuxStep::Finish(Err(error)),
        Ok(_) => if told {
            TmuxStep::Finish(Ok(()))
        } else {
            TmuxStep::PaneGone(target)
        },
    }
}

/// The step of a new session with a window and a pane.
pub open spec fn session_pane_step(
    session: Seq<char>,
    run_id: Seq<char>,
    name: Seq<char>,
    activation_id: Seq<char>,
    replies: Seq<Reply>,
) -> TmuxStepView<(TmuxSessionView, TmuxWindowView, TmuxPaneView)> {
    match session_fault(session) {
        Some(fault) => TmuxStepView::Finish(Err(fault)),
        None => if replies.len() == 0 {
            TmuxStepView::Run(new_session_pane_argv(session, name))
        } else {
            TmuxStepView::Finish(
                in_session(
                    session,
                    pane_made(
                        checked(new_session_pane_argv(session, name), replies[0]),
                        session,
                        run_id,
                        name,
                        activation_id,
                    ),
                ),
            )
        },
    }
}

/// The commands of a new session with a window and a pane.
pub open spec fn session_pane_asks(
    session: Seq<char>,
    run_id: Seq<char>,
    name: Seq<char>,
    activation_id: Seq<char>,
) -> spec_fn(Seq<Reply>) -> Option<Seq<Seq<char>>> {
    |replies: Seq<Reply>|
        session_pane_step(session, run_id, name, activation_id, replies).command()
}

/// The step of a new session with a window and a pane.
pub fn next_for_session_pane(
    session: &str,
    run_id: &str,
    window_name: &str,
    activation_id: &str,
    replies: &Vec<Result<CommandOutput, TmuxError>>,
) -> (r: TmuxStep<(TmuxSession, TmuxWindow, TmuxPane)>)
    ensures
        r.deep_view() == session_pane_step(
            session@,
            run_id@,
            window_name@,
            activation_id@,
            answers(replies@),
        ),
{
    match validate_session_id(session) {
        Err(error) => return TmuxStep::Finish(Err(error)),
        Ok(_) => {},
    }
    let argv = new_session_pane_words(session, window_name);
    if replies.len() == 0 {
        return TmuxStep::Run(argv);
    }
    let output = match check_reply(&argv, &replies[0]) {
        Err(error) => return TmuxStep::Finish(Err(error)),
        Ok(output) => output,
    };
    match window_with_pane(
        &output,
        session,
        run_id.to_string(),
        window_name.to_string(),
        activation_id.to_string(),
    ) {
        Err(error) => TmuxStep::Finish(Err(error)),
        Ok((window, pane)) => TmuxStep::Finish(
            Ok((TmuxSession::new(session.to_string()), window, pane)),
        ),
    }
}

/// A session is only asked for where its id is accepted, and only made where it is not
/// there: one command at most before that, two in all. It is there in the end where one of
/// the two left with zero.
pub proof fn lemma_sessions_are_made_once(id: Seq<char>, replies: Seq<Reply>)
    requires
        replies.len() >= 2,
    ensures
        commands(session_asks(id), replies, 0) == (
        if session_fault(id) is Some {
            Seq::<Seq<Seq<char>>>::empty()
        } else if replies[0] is Ok && !left_with_zero(replies[0]) {
            seq![has_session_argv(id), new_session_argv(id)]
        } else {
            seq![has_session_argv(id)]
        }),
        session_step(id, replies) matches TmuxStepView::Finish(made) && (made is Ok
            <==> session_fault(id) is None && replies[0] is Ok && (left_with_zero(replies[0])
            || left_with_zero(replies[1]))),
{
    let asks = session_asks(id);
    reveal_with_fuel(commands, 4);
    assert(replies.take(0) =~= Seq::empty());
    assert(replies.take(1).len() == 1 && replies.take(1)[0] == replies[0]);
    assert(replies.take(2).len() == 2 && replies.take(2)[0] == replies[0]);
    assert(commands(asks, replies, 0) =~= (if session_fault(id) is Some {
        Seq::<Seq<Seq<char>>>::empty()
    } else if replies[0] is Ok && !left_with_zero(replies[0]) {
        seq![has_session_argv(id), new_session_argv(id)]
    } else {
        seq![has_session_argv(id)]
    }));
}

/// A pane is ended by one command, which is not run at all where its session is refused. The
/// runner is told that the pane is gone if and only if that command left with zero, and then
/// the pane is ended; everything else is a failure.
pub proof fn lemma_ended_panes_are_told(pane: TmuxPaneView, replies: Seq<Reply>)
    requires
        replies.len() >= 1,
    ensures
        commands(kill_pane_asks(pane), replies, 0) == (
        if owned_fault("pane"@, pane.session_id) is Some {
            Seq::<Seq<Seq<char>>>::empty()
        } else {
            seq![kill_pane_argv(target_of_pane(pane))]
        }),
        kill_pane_step(pane, replies, false) == TmuxStepView::<()>::PaneGone(target_of_pane(pane))
            <==> owned_fault("pane"@, pane.session_id) is None && left_with_zero(replies[0]),
        kill_pane_step(pane, replies, true) == TmuxStepView::Finish(Ok::<(), TmuxErrorView>(()))
            <==> kill_pane_step(pane, replies, false) is PaneGone,
        kill_pane_step(pane, replies, false) !is PaneGone ==> (kill_pane_step(pane, replies, false)
            matches TmuxStepView::Finish(made) && made is Err),
        kill_pane_step(pane, Seq::empty(), false) !is PaneGone,
{
    let asks = kill_pane_asks(pane);
    reveal_with_fuel(commands, 3);
    assert(replies.take(0) =~= Seq::empty());
    assert(replies.take(1).len() == 1 && replies.take(1)[0] == replies[0]);
    assert(commands(asks, replies, 0) =~= (if owned_fault("pane"@, pane.session_id) is Some {
        Seq::<Seq<Seq<char>>>::empty()
    } else {
        seq![kill_pane_argv(target_of_pane(pane))]
    }));
}

/// A command on something that lives in a session is run once, and not at all where the session
/// is refused.
pub proof fn lemma_owned_commands_run_once(
    kind: Seq<char>,
    session: Seq<char>,
    argv: Seq<Seq<char>>,
    replies: Seq<Reply>,
)
    requires
        replies.len() >= 1,
    ensures
        commands(owned_asks(kind, session, argv), replies, 0) == (if owned_fault(
            kind,
            session,
        ) is Some {
            Seq::<Seq<Seq<char>>>::empty()
        } else {
            seq![argv]
        }),
        owned_step(kind, session, argv, replies) matches TmuxStepView::Finish(made) && (made is Ok
            <==> owned_fault(kind, session) is None && left_with_zero(replies[0])),
{
    let asks = owned_asks(kind, session, argv);
    reveal_with_fuel(commands, 3);
    assert(replies.take(0) =~= Seq::empty());
    assert(replies.take(1).len() == 1 && replies.take(1)[0] == replies[0]);
    assert(commands(asks, replies, 0) =~= (if owned_fault(kind, session) is Some {
        Seq::<Seq<Seq<char>>>::empty()
    } else {
        seq![argv]
    }));
}

/// A session with a window and a pane is made by one command, which is not run at all where
/// the id of the session is refused.
pub proof fn lemma_session_panes_take_one_command(
    session: Seq<char>,
    run_id: Seq<char>,
    name: Seq<char>,
    activation_id: Seq<char>,
    replies: Seq<Reply>,
)
    requires
        replies.len() >= 1,
    ensures
        commands(session_pane_asks(session, run_id, name, activation_id), replies, 0) == (
        if session_fault(session) is Some {
            Seq::<Seq<Seq<char>>>::empty()
        } else {
            seq![new_session_pane_argv(session, name)]
        }),
        session_pane_step(session, run_id, name, activation_id, replies) is Finish,
{
    let asks = session_pane_asks(session, run_id, name, activation_id);
    reveal_with_fuel(commands, 3);
    assert(replies.take(0) =~= Seq::empty());
    assert(replies.take(1).len() == 1 && replies.take(1)[0] == replies[0]);
    assert(commands(asks, replies, 0) =~= (if session_fault(session) is Some {
        Seq::<Seq<Seq<char>>>::empty()
    } else {
        seq![new_session_pane_argv(session, name)]
    }));
}

} // verus!
