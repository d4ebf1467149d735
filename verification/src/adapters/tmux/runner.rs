//! What runs commands, and what its answers mean.
use vstd::prelude::*;

use super::error::{is_tmux_program, names_tmux, TmuxError, TmuxErrorView};
use super::model::{CommandOutput, CommandOutputView};

verus! {

/// What a command may be answered.
pub type Reply = Result<CommandOutputView, TmuxErrorView>;

/// The model of a result.
pub open spec fn outcome<T: DeepView>(r: Result<T, TmuxError>) -> Result<T::V, TmuxErrorView> {
    match r {
        Ok(value) => Ok(value.deep_view()),
        Err(error) => Err(error.deep_view()),
    }
}

/// What runs commands.
pub trait CommandRunner: Clone {
    /// Whether a command may be answered in the given way: in any, unless a runner says more.
    open spec fn replies(&self, argv: Seq<Seq<char>>, reply: Reply) -> bool {
        true
    }

    fn run(&self, argv: Vec<String>) -> (r: Result<CommandOutput, TmuxError>)
        ensures
            self.replies(argv.deep_view(), outcome(r)),
    ;

    /// Whether the helper that takes in what a pane prints is a process of its own.
    fn pipe_sink_helper_is_external(&self) -> bool {
        true
    }

    /// Whether drivers can be launched as processes of their own.
    fn supports_external_driver_launch(&self) -> bool {
        false
    }

    /// Told when a pane is gone.
    fn pipe_sink_producer_closed(&self, _target: &str) {
    }
}

/// The program that a command starts: the one that it names, or, where that is tmux, the
/// tmux program that is asked for in its place.
pub open spec fn started_program(argv: Seq<Seq<char>>, tmux: Option<Seq<char>>) -> Option<
    Seq<char>,
> {
    if argv.len() == 0 {
        None
    } else {
        match tmux {
            Some(binary) if binary.len() > 0 && names_tmux(argv[0]) => Some(binary),
            _ => Some(argv[0]),
        }
    }
}

/// The program that a command starts, where there is a command.
pub fn program_for(argv: &Vec<String>, tmux: Option<String>) -> (r: Option<String>)
    ensures
        r.deep_view() == started_program(argv.deep_view(), tmux.deep_view()),
{
    if argv.len() == 0 {
        return None;
    }
    match tmux {
        Some(binary) => {
            if !binary.as_str().is_empty() && is_tmux_program(argv[0].as_str()) {
                Some(binary)
            } else {
                Some(argv[0].clone())
            }
        },
        None => Some(argv[0].clone()),
    }
}

/// An answer, where every status but zero is a failure.
pub open spec fn checked(argv: Seq<Seq<char>>, reply: Reply) -> Reply {
    match reply {
        Err(error) => Err(error),
        Ok(output) => if output.status == 0 {
            Ok(output)
        } else {
            Err(TmuxErrorView::command_failed(argv, output.status, output.stderr))
        },
    }
}

/// Whether a command that has to succeed may come out in the given way.
pub open spec fn ran<R: CommandRunner>(runner: R, argv: Seq<Seq<char>>, made: Reply) -> bool {
    exists|reply: Reply| #[trigger] runner.replies(argv, reply) && made == checked(argv, reply)
}

/// Of a command that has to succeed only that it did.
pub open spec fn success(made: Reply) -> Result<(), TmuxErrorView> {
    match made {
        Ok(_) => Ok(()),
        Err(error) => Err(error),
    }
}

/// An answer to a command that has to succeed.
pub fn check_reply(argv: &Vec<String>, reply: &Result<CommandOutput, TmuxError>) -> (r: Result<
    CommandOutput,
    TmuxError,
>)
    ensures
        outcome(r) == checked(argv.deep_view(), outcome(*reply)),
{
    match reply {
        Err(error) => Err(error.clone()),
        Ok(output) => if output.is_success() {
            Ok(output.clone())
        } else {
            let words = argv.as_slice();
            assert(words.deep_view() =~= argv.deep_view());
            Err(TmuxError::command_failed(words, output.status, output.stderr.as_str()))
        },
    }
}

/// The words of a command once more.
pub fn copy_words(argv: &Vec<String>) -> (r: Vec<String>)
    ensures
        r.deep_view() == argv.deep_view(),
{
    let ghost model = argv.deep_view();
    let mut copy: Vec<String> = Vec::new();
    let mut i: usize = 0;
    assert(copy.deep_view() =~= model.take(0));
    while i < argv.len()
        invariant
            i <= argv.len(),
            model == argv.deep_view(),
            copy.deep_view() == model.take(i as int),
        decreases argv.len() - i,
    {
        let ghost before = copy.deep_view();
        copy.push(argv[i].clone());
        assert(copy.deep_view() =~= before.push(argv@[i as int]@));
        assert(model.take(i + 1) =~= model.take(i as int).push(model[i as int]));
        i += 1;
    }
    assert(model.take(i as int) =~= model);
    copy
}

/// A command that has to succeed.
pub fn run_checked<R: CommandRunner>(runner: &R, argv: Vec<String>) -> (r: Result<
    CommandOutput,
    TmuxError,
>)
    ensures
        ran(*runner, argv.deep_view(), outcome(r)),
{
    let ghost model = argv.deep_view();
    let words = argv.as_slice();
    assert(words.deep_view() =~= model);
    let copy = copy_words(&argv);
    match runner.run(copy) {
        Err(error) => {
            assert(runner.replies(model, Err(error.deep_view())));
            Err(error)
        },
        Ok(output) => {
            assert(runner.replies(model, Ok(output.deep_view())));
            if output.is_success() {
                Ok(output)
            } else {
                Err(TmuxError::command_failed(words, output.status, output.stderr.as_str()))
            }
        },
    }
}

} // verus!
