//! What a pane prints, taken down by a helper: how the helper is started, and how long
//! it is waited for.
use vstd::prelude::*;

use crate::number::{decimal, decimal_text, read_u64, unsigned_value};
use crate::split::{
    components, join_path, parent_path, path_components, path_joined, path_parent, render, rendered,
};
use crate::text::{cat2, cat3, char_vec};

use super::adapter::TmuxAdapter;
use super::argv::{pane_target, pipe_pane_argv, pipe_pane_words, target_of_pane, Argv};
use super::error::{
    file_name, owned_fault, path_file_name, validate_owned_session_id, TmuxError, TmuxErrorView,
};
use super::model::{TmuxPane, TmuxPaneView};
use super::record::{split_words, words};
use super::runner::{outcome, ran, run_checked, CommandRunner, Reply};

verus! {

broadcast use vstd::string::group_string_axioms;

/// What stands for a character inside single quotes of a shell.
pub open spec fn quoted_char(c: char) -> Seq<char> {
    if c == '\'' {
        "'\\''"@
    } else {
        seq![c]
    }
}

/// What stands for a text inside single quotes of a shell.
pub open spec fn quoted_body(s: Seq<char>) -> Seq<char>
    decreases s.len(),
{
    if s.len() == 0 {
        Seq::empty()
    } else {
        quoted_char(s[0]) + quoted_body(s.skip(1))
    }
}

/// A text as one word of a shell command.
pub open spec fn shell_quoted(s: Seq<char>) -> Seq<char> {
    "'"@ + quoted_body(s) + "'"@
}

pub fn shell_single_quote_str(value: &str) -> (r: String)
    ensures
        r@ == shell_quoted(value@),
{
    let chars = char_vec(value);
    let mut out = "'".to_string();
    let mut i: usize = 0;
    assert(value@.skip(0) =~= value@);
    while i < chars.len()
        invariant
            i <= chars.len(),
            chars@ == value@,
            out@ + quoted_body(value@.skip(i as int)) == "'"@ + quoted_body(value@),
        decreases chars.len() - i,
    {
        let c = chars[i];
        let ghost before = out@;
        let ghost rest = value@.skip(i as int);
        assert(rest.skip(1) =~= value@.skip(i + 1));
        if c == '\'' {
            out.push_str("'\\''");
        } else {
            out.push(c);
            assert(out@ =~= before + seq![c]);
        }
        assert(out@ + quoted_body(value@.skip(i + 1)) =~= before + quoted_body(rest));
        i += 1;
    }
    assert(value@.skip(i as int) =~= Seq::<char>::empty());
    assert(out@ =~= "'"@ + quoted_body(value@));
    out.push_str("'");
    out
}

/// What a shell makes of a word that is quoted all over: single quotes keep everything as it
/// stands, a backslash outside them keeps the next character.
pub open spec fn shell_value(s: Seq<char>, inside: bool) -> Option<Seq<char>>
    decreases s.len(),
{
    if s.len() == 0 {
        if inside {
            None
        } else {
            Some(Seq::empty())
        }
    } else if s[0] == '\'' {
        shell_value(s.skip(1), !inside)
    } else if inside {
        match shell_value(s.skip(1), true) {
            Some(rest) => Some(seq![s[0]] + rest),
            None => None,
        }
    } else if s[0] == '\\' && s.len() > 1 {
        match shell_value(s.skip(2), false) {
            Some(rest) => Some(seq![s[1]] + rest),
            None => None,
        }
    } else {
        None
    }
}

proof fn lemma_body_keeps_its_text(s: Seq<char>)
    ensures
        shell_value(quoted_body(s) + "'"@, true) == Some(s),
    decreases s.len(),
{
    reveal_strlit("'");
    reveal_strlit("'\\''");
    let whole = quoted_body(s) + "'"@;
    if s.len() == 0 {
        assert(whole =~= seq!['\'']);
        assert(whole.skip(1) =~= Seq::<char>::empty());
        assert(shell_value(whole.skip(1), false) == Some(Seq::<char>::empty()));
        assert(s =~= Seq::<char>::empty());
    } else {
        let rest = quoted_body(s.skip(1)) + "'"@;
        lemma_body_keeps_its_text(s.skip(1));
        assert(whole =~= quoted_char(s[0]) + rest);
        assert(seq![s[0]] + s.skip(1) =~= s);
        if s[0] == '\'' {
            let a = whole.skip(1);
            assert(a =~= seq!['\\', '\'', '\''] + rest);
            let b = a.skip(2);
            assert(b =~= seq!['\''] + rest);
            assert(b.skip(1) =~= rest);
            assert(shell_value(b, false) == Some(s.skip(1)));
            assert(shell_value(a, false) == Some(seq![a[1]] + s.skip(1)));
            assert(a[1] == '\'');
            assert(whole[0] == '\'');
            assert(shell_value(whole, true) == shell_value(a, false));
        } else {
            assert(whole[0] == s[0]);
            assert(whole.skip(1) =~= rest);
        }
    }
}

/// A shell reads a quoted text back as it was, whatever is in it.
pub proof fn lemma_quoting_keeps_the_text(s: Seq<char>)
    ensures
        shell_value(shell_quoted(s), false) == Some(s),
{
    reveal_strlit("'");
    lemma_body_keeps_its_text(s);
    let whole = shell_quoted(s);
    assert(whole =~= "'"@ + (quoted_body(s) + "'"@));
    assert(whole.skip(1) =~= quoted_body(s) + "'"@);
}

/// What tells the file apart that a helper writes to.
#[derive(Debug, Clone, Copy, PartialEq, Eq, Structural)]
pub struct PipeSinkIdentity {
    pub dev: u64,
    pub ino: u64,
    pub uid: u32,
    pub mode: u32,
    pub nlink: u64,
}

/// A helper that has said that it is ready.
#[derive(Debug, Clone, Copy, PartialEq, Eq, Structural)]
pub struct PipeSinkReady {
    pub pid: u32,
    pub process_start_time_ticks: u64,
}

/// What a helper is started with.
#[derive(Debug)]
pub struct PipeCaptureRequest {
    pub root: String,
    pub transcript_relative_path: String,
    pub identity: PipeSinkIdentity,
    pub ack_relative_path: String,
    pub completion_relative_path: String,
    pub ack_nonce: String,
    pub preserve_ready_ack: bool,
}

#[verifier::ext_equal]
pub struct PipeCaptureRequestView {
    pub root: Seq<char>,
    pub transcript_relative_path: Seq<char>,
    pub identity: PipeSinkIdentity,
    pub ack_relative_path: Seq<char>,
    pub completion_relative_path: Seq<char>,
    pub ack_nonce: Seq<char>,
    pub preserve_ready_ack: bool,
}

impl DeepView for PipeCaptureRequest {
    type V = PipeCaptureRequestView;

    open spec fn deep_view(&self) -> PipeCaptureRequestView {
        PipeCaptureRequestView {
            root: self.root@,
            transcript_relative_path: self.transcript_relative_path@,
            identity: self.identity,
            ack_relative_path: self.ack_relative_path@,
            completion_relative_path: self.completion_relative_path@,
            ack_nonce: self.ack_nonce@,
            preserve_ready_ack: self.preserve_ready_ack,
        }
    }
}

impl PipeCaptureRequestView {
    /// The command that starts the helper.
    pub open spec fn command(self, sink: Seq<char>) -> Seq<char> {
        shell_quoted(sink) + " --pipe-sink --root "@ + shell_quoted(self.root) + " --relative "@
            + shell_quoted(self.transcript_relative_path) + " --dev "@ + decimal(
            self.identity.dev as nat,
        ) + " --ino "@ + decimal(self.identity.ino as nat) + " --uid "@ + decimal(
            self.identity.uid as nat,
        ) + " --mode "@ + decimal(self.identity.mode as nat) + " --nlink "@ + decimal(
            self.identity.nlink as nat,
        ) + " --ack-relative "@ + shell_quoted(self.ack_relative_path)
            + " --completion-relative "@ + shell_quoted(self.completion_relative_path)
            + " --ack-nonce "@ + shell_quoted(self.ack_nonce)
    }
}

impl PipeCaptureRequest {
    pub fn command(&self, sink: &str) -> (r: String)
        ensures
            r@ == self.deep_view().command(sink@),
    {
        let mut out = shell_single_quote_str(sink);
        out.push_str(" --pipe-sink --root ");
        out.push_str(shell_single_quote_str(self.root.as_str()).as_str());
        out.push_str(" --relative ");
        out.push_str(shell_single_quote_str(self.transcript_relative_path.as_str()).as_str());
        out.push_str(" --dev ");
        out.push_str(decimal_text(self.identity.dev).as_str());
        out.push_str(" --ino ");
        out.push_str(decimal_text(self.identity.ino).as_str());
        out.push_str(" --uid ");
        out.push_str(decimal_text(self.identity.uid as u64).as_str());
        out.push_str(" --mode ");
        out.push_str(decimal_text(self.identity.mode as u64).as_str());
        out.push_str(" --nlink ");
        out.push_str(decimal_text(self.identity.nlink).as_str());
        out.push_str(" --ack-relative ");
        out.push_str(shell_single_quote_str(self.ack_relative_path.as_str()).as_str());
        out.push_str(" --completion-relative ");
        out.push_str(shell_single_quote_str(self.completion_relative_path.as_str()).as_str());
        out.push_str(" --ack-nonce ");
        out.push_str(shell_single_quote_str(self.ack_nonce.as_str()).as_str());
        out
    }
}

/// A helper that takes down what a pane prints.
#[derive(Debug, PartialEq, Eq)]
pub struct TmuxPipeCapture {
    root: String,
    descriptor: TmuxPipeCaptureDescriptor,
}

/// What of a helper is kept, so that it can be found again.
#[derive(Debug, PartialEq, Eq)]
pub struct TmuxPipeCaptureDescriptor {
    pub transcript_relative_path: String,
    pub completion_relative_path: String,
    pub transcript_identity: PipeSinkIdentity,
    pub nonce: String,
    pub helper_pid: u32,
    pub helper_process_start_time_ticks: u64,
    pub external_helper: bool,
}

#[verifier::ext_equal]
pub struct PipeDescriptorView {
    pub transcript_relative_path: Seq<char>,
    pub completion_relative_path: Seq<char>,
    pub transcript_identity: PipeSinkIdentity,
    pub nonce: Seq<char>,
    pub helper_pid: u32,
    pub helper_process_start_time_ticks: u64,
    pub external_helper: bool,
}

impl DeepView for TmuxPipeCaptureDescriptor {
    type V = PipeDescriptorView;

    open spec fn deep_view(&self) -> PipeDescriptorView {
        PipeDescriptorView {
            transcript_relative_path: self.transcript_relative_path@,
            completion_relative_path: self.completion_relative_path@,
            transcript_identity: self.transcript_identity,
            nonce: self.nonce@,
            helper_pid: self.helper_pid,
            helper_process_start_time_ticks: self.helper_process_start_time_ticks,
            external_helper: self.external_helper,
        }
    }
}

impl Clone for TmuxPipeCaptureDescriptor {
    fn clone(&self) -> (r: Self)
        ensures
            r.deep_view() == self.deep_view(),
    {
        TmuxPipeCaptureDescriptor {
            transcript_relative_path: self.transcript_relative_path.clone(),
            completion_relative_path: self.completion_relative_path.clone(),
            transcript_identity: self.transcript_identity,
            nonce: self.nonce.clone(),
            helper_pid: self.helper_pid,
            helper_process_start_time_ticks: self.helper_process_start_time_ticks,
            external_helper: self.external_helper,
        }
    }
}

#[verifier::ext_equal]
pub struct PipeCaptureView {
    pub root: Seq<char>,
    pub descriptor: PipeDescriptorView,
}

impl DeepView for TmuxPipeCapture {
    type V = PipeCaptureView;

    closed spec fn deep_view(&self) -> PipeCaptureView {
        PipeCaptureView { root: self.root@, descriptor: self.descriptor.deep_view() }
    }
}

impl TmuxPipeCapture {
    pub fn descriptor(&self) -> (r: TmuxPipeCaptureDescriptor)
        ensures
            r.deep_view() == self.deep_view().descriptor,
    {
        self.descriptor.clone()
    }

    pub fn from_descriptor(root: String, descriptor: TmuxPipeCaptureDescriptor) -> (r: Self)
        ensures
            r.deep_view() == (PipeCaptureView { root: root@, descriptor: descriptor.deep_view() }),
    {
        TmuxPipeCapture { root, descriptor }
    }

    pub fn root(&self) -> (r: &str)
        ensures
            r@ == self.deep_view().root,
    {
        self.root.as_str()
    }

    /// A helper that was started as asked, and is ready.
    pub fn started(
        request: &PipeCaptureRequest,
        ready: PipeSinkReady,
        external_helper: bool,
    ) -> (r: Self)
        ensures
            r.deep_view() == (PipeCaptureView {
                root: request.deep_view().root,
                descriptor: PipeDescriptorView {
                    transcript_relative_path: request.deep_view().transcript_relative_path,
                    completion_relative_path: request.deep_view().completion_relative_path,
                    transcript_identity: request.deep_view().identity,
                    nonce: request.deep_view().ack_nonce,
                    helper_pid: ready.pid,
                    helper_process_start_time_ticks: ready.process_start_time_ticks,
                    external_helper,
                },
            }),
    {
        TmuxPipeCapture {
            root: request.root.clone(),
            descriptor: TmuxPipeCaptureDescriptor {
                transcript_relative_path: request.transcript_relative_path.clone(),
                completion_relative_path: request.completion_relative_path.clone(),
                transcript_identity: request.identity,
                nonce: request.ack_nonce.clone(),
                helper_pid: ready.pid,
                helper_process_start_time_ticks: ready.process_start_time_ticks,
                external_helper,
            },
        }
    }
}

/// What is shown of the command that starts a helper: not the command itself.
pub open spec fn redacted_argv(target: Seq<char>) -> Seq<Seq<char>> {
    pipe_pane_argv(target, "<pipe-sink-command-redacted>"@)
}

pub fn pipe_sink_redacted_argv(target: &str) -> (r: Vec<String>)
    ensures
        r.deep_view() == redacted_argv(target@),
{
    pipe_pane_words(target, "<pipe-sink-command-redacted>")
}

/// An error of which nothing but its kind and status is shown.
pub open spec fn redacted(error: TmuxErrorView, argv: Seq<Seq<char>>) -> TmuxErrorView {
    match error {
        TmuxErrorView::Io { diagnostic: _ } => TmuxErrorView::io(argv, "pipe sink setup failed"@),
        TmuxErrorView::CommandFailed { diagnostic: _, status } => TmuxErrorView::command_failed(
            argv,
            status,
            "pipe sink setup failed"@,
        ),
        _ => error,
    }
}

pub fn redact_pipe_sink_error(error: TmuxError, redacted_argv: &[String]) -> (r: TmuxError)
    ensures
        r.deep_view() == redacted(error.deep_view(), redacted_argv.deep_view()),
{
    match error {
        TmuxError::Io { diagnostic: _ } => TmuxError::io(redacted_argv, "pipe sink setup failed"),
        TmuxError::CommandFailed { diagnostic: _, status } => TmuxError::command_failed(
            redacted_argv,
            status,
            "pipe sink setup failed",
        ),
        other => other,
    }
}

/// What may come of the start of a helper.
pub open spec fn pipe_started<R: CommandRunner>(
    runner: R,
    pane: TmuxPaneView,
    request: PipeCaptureRequestView,
    sink: Seq<char>,
    r: Result<(), TmuxErrorView>,
) -> bool {
    match owned_fault("pane"@, pane.session_id) {
        Some(fault) => r == Err::<(), TmuxErrorView>(fault),
        None => exists|made: Reply| #[trigger]
            ran(runner, pipe_pane_argv(target_of_pane(pane), request.command(sink)), made) && r
                == (match made {
                Err(error) => Err(redacted(error, redacted_argv(target_of_pane(pane)))),
                Ok(_) => Ok(()),
            }),
    }
}

impl<R: CommandRunner> TmuxAdapter<R> {
    /// Starts a helper on a pane; that it is ready is waited for with `ready_wait`.
    pub fn start_pipe_sink(
        &self,
        pane: &TmuxPane,
        request: &PipeCaptureRequest,
        sink: &str,
    ) -> (r: Result<(), TmuxError>)
        ensures
            pipe_started(
                self.runs(),
                pane.deep_view(),
                request.deep_view(),
                sink@,
                outcome(r),
            ),
    {
        match validate_owned_session_id("pane", pane.session_id()) {
            Err(error) => return Err(error),
            Ok(_) => {},
        }
        let target = pane_target(pane);
        let command = request.command(sink);
        let shown = pipe_sink_redacted_argv(target.as_str());
        let listed = shown.as_slice();
        assert(listed.deep_view() =~= redacted_argv(target@));
        match run_checked(self.runner(), pipe_pane_words(target.as_str(), command.as_str())) {
            Err(error) => {
                assert(ran(
                    self.runs(),
                    pipe_pane_argv(target@, command@),
                    Err(error.deep_view()),
                ));
                Err(redact_pipe_sink_error(error, listed))
            },
            Ok(output) => {
                assert(ran(
                    self.runs(),
                    pipe_pane_argv(target@, command@),
                    Ok(output.deep_view()),
                ));
                Ok(())
            },
        }
    }
}

/// What a look for a file of the helper found.
#[derive(Debug, Clone, Copy, PartialEq, Eq, Structural)]
pub enum PipeFile {
    Good,
    Missing,
    Faulty,
}

/// How a wait goes on.
#[derive(Debug)]
pub enum PipeWait {
    Ready,
    Again,
    Failed(TmuxError),
}

pub enum PipeWaitView {
    Ready,
    Again,
    Failed(TmuxErrorView),
}

impl DeepView for PipeWait {
    type V = PipeWaitView;

    open spec fn deep_view(&self) -> PipeWaitView {
        match self {
            PipeWait::Ready => PipeWaitView::Ready,
            PipeWait::Again => PipeWaitView::Again,
            PipeWait::Failed(error) => PipeWaitView::Failed(error.deep_view()),
        }
    }
}

/// How the wait for a helper that is to say that it is ready goes on.
pub open spec fn waits_for_ready(
    found: PipeFile,
    late: bool,
    request: PipeCaptureRequestView,
    argv: Seq<Seq<char>>,
) -> PipeWaitView {
    match found {
        PipeFile::Good => PipeWaitView::Ready,
        PipeFile::Faulty => PipeWaitView::Failed(
            TmuxErrorView::io(argv, "pipe sink setup failed"@),
        ),
        PipeFile::Missing => if late {
            PipeWaitView::Failed(
                TmuxErrorView::io(
                    argv,
                    "pipe sink did not acknowledge readiness: "@ + path_joined(
                        request.root,
                        request.ack_relative_path,
                    ),
                ),
            )
        } else {
            PipeWaitView::Again
        },
    }
}

pub fn ready_wait(
    found: PipeFile,
    late: bool,
    request: &PipeCaptureRequest,
    argv: &[String],
) -> (r: PipeWait)
    ensures
        r.deep_view() == waits_for_ready(found, late, request.deep_view(), argv.deep_view()),
{
    match found {
        PipeFile::Good => PipeWait::Ready,
        PipeFile::Faulty => PipeWait::Failed(TmuxError::io(argv, "pipe sink setup failed")),
        PipeFile::Missing => {
            if late {
                let path = join_path(request.root.as_str(), request.ack_relative_path.as_str());
                let detail = cat2("pipe sink did not acknowledge readiness: ", path.as_str());
                PipeWait::Failed(TmuxError::io(argv, detail.as_str()))
            } else {
                PipeWait::Again
            }
        },
    }
}

/// What is shown where the end of a helper cannot be confirmed.
pub open spec fn completion_fault() -> TmuxErrorView {
    TmuxErrorView::io(
        Seq::<Seq<char>>::empty().push("pipe-sink"@).push("<completion-redacted>"@),
        "pipe sink completion failed"@,
    )
}

pub fn pipe_completion_error() -> (r: TmuxError)
    ensures
        r.deep_view() == completion_fault(),
{
    let argv = Argv::new().with("pipe-sink").with("<completion-redacted>").done();
    let listed = argv.as_slice();
    assert(listed.deep_view() =~= Seq::<Seq<char>>::empty().push("pipe-sink"@).push(
        "<completion-redacted>"@,
    ));
    TmuxError::io(listed, "pipe sink completion failed")
}

/// How the wait for the last word of a helper goes on. A helper of its own that is gone, or
/// that cannot be looked at, will not say it any more.
pub open spec fn waits_for_completion(
    found: PipeFile,
    late: bool,
    external_helper: bool,
    helper_runs: Option<bool>,
) -> PipeWaitView {
    match found {
        PipeFile::Good => PipeWaitView::Ready,
        PipeFile::Faulty => PipeWaitView::Failed(completion_fault()),
        PipeFile::Missing => if (external_helper && helper_runs != Some(true)) || late {
            PipeWaitView::Failed(completion_fault())
        } else {
            PipeWaitView::Again
        },
    }
}

pub fn completion_wait(
    found: PipeFile,
    late: bool,
    external_helper: bool,
    helper_runs: Option<bool>,
) -> (r: PipeWait)
    ensures
        r.deep_view() == waits_for_completion(found, late, external_helper, helper_runs),
{
    match found {
        PipeFile::Good => PipeWait::Ready,
        PipeFile::Faulty => PipeWait::Failed(pipe_completion_error()),
        PipeFile::Missing => {
            let gone = external_helper && match helper_runs {
                Some(runs) => !runs,
                None => true,
            };
            if gone || late {
                PipeWait::Failed(pipe_completion_error())
            } else {
                PipeWait::Again
            }
        },
    }
}

/// How the wait for the end of a helper goes on. There is nothing to wait for where the
/// helper is no process of its own.
pub open spec fn waits_for_exit(
    external_helper: bool,
    helper_runs: Option<bool>,
    late: bool,
) -> PipeWaitView {
    if !external_helper || helper_runs == Some(false) {
        PipeWaitView::Ready
    } else if helper_runs is None || late {
        PipeWaitView::Failed(completion_fault())
    } else {
        PipeWaitView::Again
    }
}

pub fn exit_wait(external_helper: bool, helper_runs: Option<bool>, late: bool) -> (r: PipeWait)
    ensures
        r.deep_view() == waits_for_exit(external_helper, helper_runs, late),
{
    if !external_helper {
        return PipeWait::Ready;
    }
    match helper_runs {
        None => PipeWait::Failed(pipe_completion_error()),
        Some(false) => PipeWait::Ready,
        Some(true) => {
            if late {
                PipeWait::Failed(pipe_completion_error())
            } else {
                PipeWait::Again
            }
        },
    }
}

/// What stands behind the last closing bracket of a text.
pub open spec fn behind_last_bracket(s: Seq<char>) -> Option<Seq<char>>
    decreases s.len(),
{
    if s.len() == 0 {
        None
    } else if s.last() == ')' {
        Some(Seq::empty())
    } else {
        match behind_last_bracket(s.drop_last()) {
            Some(rest) => Some(rest.push(s.last())),
            None => None,
        }
    }
}

/// When a process was started, as the kernel tells it: the twentieth word behind the name of
/// the program, which stands in brackets.
pub open spec fn start_time_in(stat: Seq<char>) -> Option<u64> {
    match behind_last_bracket(stat) {
        None => None,
        Some(fields) => if words(fields).len() > 19 {
            unsigned_value(words(fields)[19])
        } else {
            None
        },
    }
}

proof fn lemma_behind_bracket(s: Seq<char>, at: int)
    requires
        0 <= at < s.len(),
        s[at] == ')',
        forall|j: int| at < j < s.len() ==> s[j] != ')',
    ensures
        behind_last_bracket(s) == Some(s.skip(at + 1)),
    decreases s.len(),
{
    if at == s.len() - 1 {
        assert(s.skip(at + 1) =~= Seq::<char>::empty());
    } else {
        lemma_behind_bracket(s.drop_last(), at);
        assert(s.drop_last().skip(at + 1).push(s.last()) =~= s.skip(at + 1));
    }
}

proof fn lemma_no_bracket(s: Seq<char>)
    requires
        forall|j: int| 0 <= j < s.len() ==> s[j] != ')',
    ensures
        behind_last_bracket(s) is None,
    decreases s.len(),
{
    if s.len() > 0 {
        lemma_no_bracket(s.drop_last());
    }
}

/// Reads when a process was started.
pub fn process_start_time(stat: &str) -> (r: Option<u64>)
    ensures
        r == start_time_in(stat@),
{
    let n: usize = stat.unicode_len();
    let mut i: usize = n;
    while i > 0 && stat.get_char(i - 1) != ')'
        invariant
            i <= n,
            n == stat@.len(),
            forall|j: int| i <= j < n ==> stat@[j] != ')',
        decreases i,
    {
        i -= 1;
    }
    if i == 0 {
        proof {
            lemma_no_bracket(stat@);
        }
        return None;
    }
    proof {
        lemma_behind_bracket(stat@, i - 1);
    }
    let fields = split_words(stat.substring_char(i, n));
    assert(stat@.subrange(i as int, n as int) =~= stat@.skip(i as int));
    let ghost model = words(stat@.skip(i as int));
    assert(fields.len() == model.len());
    if fields.len() > 19 {
        assert(model[19] == fields@[19]@);
        read_u64(fields[19].as_str())
    } else {
        None
    }
}

/// Whether a process is still the one that was started at the given time.
pub fn process_matches(stat: &str, expected_start_time_ticks: u64) -> (r: Option<bool>)
    ensures
        r == (match start_time_in(stat@) {
            Some(time) => Some(time == expected_start_time_ticks),
            None => None,
        }),
{
    match process_start_time(stat) {
        Some(time) => Some(time == expected_start_time_ticks),
        None => None,
    }
}

/// Where a helper leaves its last word by default: beside the file in which it says that it is
/// ready.
pub open spec fn completion_path(ack: Seq<char>) -> Seq<char> {
    let parts = path_components(ack);
    match file_name(ack) {
        Some(name) => path_joined(rendered(parts.drop_last()), name + ".complete"@),
        None => path_joined(rendered(parts), "pipe.ready.complete"@),
    }
}

pub fn default_pipe_completion_path(ack_relative_path: &str) -> (r: String)
    ensures
        r@ == completion_path(ack_relative_path@),
{
    let parts = components(ack_relative_path);
    let ghost model = path_components(ack_relative_path@);
    let listed = parts.as_slice();
    assert(listed.deep_view() =~= model);
    match path_file_name(ack_relative_path) {
        Some(name) => {
            let last: usize = parts.len() - 1;
            assert(model.take(last as int) =~= model.drop_last());
            let front = render(listed, last);
            join_path(front.as_str(), cat2(name.as_str(), ".complete").as_str())
        },
        None => {
            assert(model.take(model.len() as int) =~= model);
            let front = render(listed, parts.len());
            join_path(front.as_str(), "pipe.ready.complete")
        },
    }
}

/// The directory and the name of a transcript, and the file in which its helper says that it
/// is ready.
#[derive(Debug)]
pub struct TranscriptPlace {
    pub root: String,
    pub file_name: String,
    pub ack_name: String,
}

#[verifier::ext_equal]
pub struct TranscriptPlaceView {
    pub root: Seq<char>,
    pub file_name: Seq<char>,
    pub ack_name: Seq<char>,
}

impl DeepView for TranscriptPlace {
    type V = TranscriptPlaceView;

    open spec fn deep_view(&self) -> TranscriptPlaceView {
        TranscriptPlaceView {
            root: self.root@,
            file_name: self.file_name@,
            ack_name: self.ack_name@,
        }
    }
}

/// Where a transcript lies.
pub open spec fn place_of(path: Seq<char>) -> Result<TranscriptPlaceView, TmuxErrorView> {
    let argv = Seq::<Seq<char>>::empty().push("pipe-sink"@);
    match parent_path(path) {
        None => Err(TmuxErrorView::io(argv, "transcript path must have a parent"@)),
        Some(root) => match file_name(path) {
            None => Err(TmuxErrorView::io(argv, "transcript path must have a utf-8 file name"@)),
            Some(name) => Ok(
                TranscriptPlaceView { root, file_name: name, ack_name: "."@ + name + ".ready"@ },
            ),
        },
    }
}

pub fn transcript_place(path: &str) -> (r: Result<TranscriptPlace, TmuxError>)
    ensures
        outcome(r) == place_of(path@),
{
    let argv = Argv::new().with("pipe-sink").done();
    let listed = argv.as_slice();
    assert(listed.deep_view() =~= Seq::<Seq<char>>::empty().push("pipe-sink"@));
    match path_parent(path) {
        None => Err(TmuxError::io(listed, "transcript path must have a parent")),
        Some(root) => match path_file_name(path) {
            None => Err(TmuxError::io(listed, "transcript path must have a utf-8 file name")),
            Some(name) => {
                let ack_name = cat3(".", name.as_str(), ".ready");
                Ok(TranscriptPlace { root, file_name: name, ack_name })
            },
        },
    }
}

} // verus!
