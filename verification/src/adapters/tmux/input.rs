//! Input typed into the pane of an activation: recorded before it is typed, submitted only
//! while the pane is still the right one, and recorded again when it is done.
use vstd::prelude::*;

use crate::input_ledger::{
    machine_input_payload_hash, machine_input_transaction_id, normalized, payload_hash,
    transaction_id_of, MachineInputRecord, MachineInputRecordView, MachineInputStatus,
    MachineInputSubmission,
};
use crate::text::char_vec;

use super::adapter::{judge_pane, pane_verdict, TmuxAdapter};
use super::argv::{
    display_pane_argv, display_pane_words, metadata_pane_target, paste_buffer_argv,
    paste_buffer_words, send_key_argv, send_key_words, set_buffer_argv, set_buffer_words,
    target_of_pane,
};
use super::config::{InputConfigView, TmuxInputTransactionConfig};
use super::delay::Delay;
use super::error::{owned_fault, validate_owned_session_id, TmuxError, TmuxErrorView};
use super::model::{
    CommandOutput, TmuxActivation, TmuxActivationMetadata, TmuxActivationMetadataView,
    TmuxAgentHandle,
};
use super::record::{contains_substring, holds_text};
use super::runner::{checked, outcome, CommandRunner, Reply};

verus! {

broadcast use vstd::string::group_string_axioms;

/// The sign by which an agent was seen to take input in.
#[derive(Debug, Clone, Copy, PartialEq, Eq)]
pub struct TmuxSubmissionAcceptance {
    profile: &'static str,
    signal: &'static str,
}

#[verifier::ext_equal]
pub struct AcceptanceView {
    pub profile: Seq<char>,
    pub signal: Seq<char>,
}

impl DeepView for TmuxSubmissionAcceptance {
    type V = AcceptanceView;

    closed spec fn deep_view(&self) -> AcceptanceView {
        AcceptanceView { profile: self.profile@, signal: self.signal@ }
    }
}

impl TmuxSubmissionAcceptance {
    /// An agent of the given kind that was seen to work.
    fn working(profile: &'static str) -> (r: Self)
        ensures
            r.deep_view() == (AcceptanceView { profile: profile@, signal: "working_state"@ }),
    {
        TmuxSubmissionAcceptance { profile, signal: "working_state" }
    }

    pub fn profile(&self) -> (r: &'static str)
        ensures
            r@ == self.deep_view().profile,
    {
        self.profile
    }

    pub fn signal(&self) -> (r: &'static str)
        ensures
            r@ == self.deep_view().signal,
    {
        self.signal
    }
}

/// Input that was submitted.
#[derive(Debug, PartialEq, Eq)]
pub struct TmuxInputTransaction {
    record: MachineInputRecord,
    acceptance: Option<TmuxSubmissionAcceptance>,
}

#[verifier::ext_equal]
pub struct TransactionView {
    pub record: MachineInputRecordView,
    pub acceptance: Option<AcceptanceView>,
}

impl DeepView for TmuxInputTransaction {
    type V = TransactionView;

    closed spec fn deep_view(&self) -> TransactionView {
        TransactionView {
            record: self.record.deep_view(),
            acceptance: self.acceptance.deep_view(),
        }
    }
}

impl TmuxInputTransaction {
    pub fn transaction_id(&self) -> (r: &str)
        ensures
            r@ == self.deep_view().record.transaction_id,
    {
        self.record.transaction_id.as_str()
    }

    pub fn record(&self) -> (r: &MachineInputRecord)
        ensures
            r.deep_view() == self.deep_view().record,
    {
        &self.record
    }

    pub fn acceptance(&self) -> (r: Option<&TmuxSubmissionAcceptance>)
        ensures
            match r {
                Some(sign) => self.deep_view().acceptance == Some(sign.deep_view()),
                None => self.deep_view().acceptance is None,
            },
    {
        match &self.acceptance {
            Some(sign) => Some(sign),
            None => None,
        }
    }
}

/// A kind of agent that is known: its name, and the text that it shows while it works.
#[derive(Debug, Clone, Copy, PartialEq, Eq)]
pub struct HarnessProfile {
    name: &'static str,
    acceptance_pattern: &'static str,
}

#[verifier::ext_equal]
pub struct HarnessProfileView {
    pub name: Seq<char>,
    pub acceptance_pattern: Seq<char>,
}

impl DeepView for HarnessProfile {
    type V = HarnessProfileView;

    closed spec fn deep_view(&self) -> HarnessProfileView {
        HarnessProfileView { name: self.name@, acceptance_pattern: self.acceptance_pattern@ }
    }
}

impl HarnessProfile {
    pub fn new(name: &'static str, acceptance_pattern: &'static str) -> (r: Self)
        ensures
            r.deep_view() == (HarnessProfileView {
                name: name@,
                acceptance_pattern: acceptance_pattern@,
            }),
    {
        HarnessProfile { name, acceptance_pattern }
    }

    pub fn name(&self) -> (r: &'static str)
        ensures
            r@ == self.deep_view().name,
    {
        self.name
    }

    pub fn acceptance_pattern(&self) -> (r: &'static str)
        ensures
            r@ == self.deep_view().acceptance_pattern,
    {
        self.acceptance_pattern
    }
}

/// The sign that input was taken in: there is one exactly where the agent is of a known kind and
/// showed in time that it works.
pub open spec fn acceptance_of(profile: Option<HarnessProfileView>, shown: bool) -> Option<
    AcceptanceView,
> {
    match profile {
        Some(profile) => if shown {
            Some(AcceptanceView { profile: profile.name, signal: "working_state"@ })
        } else {
            None
        },
        None => None,
    }
}

pub fn submission_acceptance(profile: Option<HarnessProfile>, shown: bool) -> (r: Option<
    TmuxSubmissionAcceptance,
>)
    ensures
        r.deep_view() == acceptance_of(profile.deep_view(), shown),
        r is Some <==> (profile is Some && shown),
{
    match profile {
        Some(profile) => if shown {
            Some(TmuxSubmissionAcceptance::working(profile.name))
        } else {
            None
        },
        None => None,
    }
}

/// An agent that is watched for the sign that it took input in, and for how long.
#[derive(Debug)]
pub struct AgentSubmissionAcceptance {
    agent_command: String,
    timeout: Delay,
}

#[verifier::ext_equal]
pub struct AgentWatchView {
    pub agent_command: Seq<char>,
    pub timeout: nat,
}

impl DeepView for AgentSubmissionAcceptance {
    type V = AgentWatchView;

    closed spec fn deep_view(&self) -> AgentWatchView {
        AgentWatchView {
            agent_command: self.agent_command@,
            timeout: self.timeout.deep_view(),
        }
    }
}

/// Input that is to be typed.
#[derive(Debug)]
pub struct InputRequest {
    metadata: TmuxActivationMetadata,
    text: String,
    clear_before_input: bool,
    /// What is recorded in place of the text.
    projection: Option<String>,
    submit_key_count: usize,
    settle: Delay,
    pause: Delay,
    acceptance: Option<AgentSubmissionAcceptance>,
}

#[verifier::ext_equal]
pub struct InputRequestView {
    pub metadata: TmuxActivationMetadataView,
    pub text: Seq<char>,
    pub clear_before_input: bool,
    pub projection: Option<Seq<char>>,
    pub submit_key_count: usize,
    pub settle: nat,
    pub pause: nat,
    /// The agent that is watched once the input is submitted.
    pub acceptance: Option<AgentWatchView>,
}

impl DeepView for InputRequest {
    type V = InputRequestView;

    closed spec fn deep_view(&self) -> InputRequestView {
        InputRequestView {
            metadata: self.metadata.deep_view(),
            text: self.text@,
            clear_before_input: self.clear_before_input,
            projection: self.projection.deep_view(),
            submit_key_count: self.submit_key_count,
            settle: self.settle.deep_view(),
            pause: self.pause.deep_view(),
            acceptance: self.acceptance.deep_view(),
        }
    }
}

impl InputRequestView {
    /// Input under the given settings; it is submitted at least once.
    pub open spec fn configured(
        metadata: TmuxActivationMetadataView,
        text: Seq<char>,
        clear_before_input: bool,
        submit_key_count: usize,
        config: InputConfigView,
    ) -> InputRequestView {
        InputRequestView {
            metadata,
            text,
            clear_before_input,
            projection: None,
            submit_key_count: if submit_key_count >= 1 {
                submit_key_count
            } else {
                1
            },
            settle: config.delay_before_submit(text),
            pause: config.submit_key_delay,
            acceptance: None,
        }
    }

    /// The same input, recorded as another text.
    pub open spec fn shown_as(self, projection: Seq<char>) -> InputRequestView {
        InputRequestView { projection: Some(projection), ..self }
    }

    /// The same input to an agent that is watched for the sign that it took the input in.
    pub open spec fn watched(self, agent_command: Seq<char>, timeout: nat) -> InputRequestView {
        InputRequestView { acceptance: Some(AgentWatchView { agent_command, timeout }), ..self }
    }

    /// What is recorded.
    pub open spec fn shown(self) -> Seq<char> {
        match self.projection {
            Some(projection) => projection,
            None => self.text,
        }
    }
}

impl InputRequest {
    pub fn new(
        metadata: &TmuxActivationMetadata,
        text: &str,
        clear_before_input: bool,
        submit_key_count: usize,
        input_config: &TmuxInputTransactionConfig,
    ) -> (r: Self)
        ensures
            r.deep_view() == InputRequestView::configured(
                metadata.deep_view(),
                text@,
                clear_before_input,
                submit_key_count,
                input_config.deep_view(),
            ),
    {
        InputRequest {
            metadata: metadata.clone(),
            text: text.to_string(),
            clear_before_input,
            projection: None,
            submit_key_count: if submit_key_count >= 1 {
                submit_key_count
            } else {
                1
            },
            settle: input_config.prompt_to_submit_delay(text),
            pause: input_config.submit_key_delay(),
            acceptance: None,
        }
    }

    /// The same input, recorded as another text.
    pub fn shown_as(self, projection: &str) -> (r: Self)
        ensures
            r.deep_view() == self.deep_view().shown_as(projection@),
    {
        InputRequest {
            metadata: self.metadata,
            text: self.text,
            clear_before_input: self.clear_before_input,
            projection: Some(projection.to_string()),
            submit_key_count: self.submit_key_count,
            settle: self.settle,
            pause: self.pause,
            acceptance: self.acceptance,
        }
    }

    /// The same input to an agent that is watched for the sign that it took the input in.
    pub fn watched(self, agent_command: &str, timeout: Delay) -> (r: Self)
        ensures
            r.deep_view() == self.deep_view().watched(agent_command@, timeout.deep_view()),
    {
        InputRequest {
            metadata: self.metadata,
            text: self.text,
            clear_before_input: self.clear_before_input,
            projection: self.projection,
            submit_key_count: self.submit_key_count,
            settle: self.settle,
            pause: self.pause,
            acceptance: Some(
                AgentSubmissionAcceptance { agent_command: agent_command.to_string(), timeout },
            ),
        }
    }
}

/// Input that has been recorded as started.
#[derive(Debug)]
pub struct MachineInputAttempt {
    started_at_ms: u64,
    transaction_id: String,
}

#[verifier::ext_equal]
pub struct AttemptView {
    pub started_at_ms: u64,
    pub transaction_id: Seq<char>,
}

impl DeepView for MachineInputAttempt {
    type V = AttemptView;

    closed spec fn deep_view(&self) -> AttemptView {
        AttemptView {
            started_at_ms: self.started_at_ms,
            transaction_id: self.transaction_id@,
        }
    }
}

impl AttemptView {
    /// The entry of the ledger that records the input with the given status and time.
    pub open spec fn recorded(
        self,
        request: InputRequestView,
        submitted_at_ms: u64,
        status: MachineInputStatus,
    ) -> MachineInputRecordView {
        MachineInputRecordView {
            run_id: request.metadata.run_id,
            activation_id: request.metadata.activation_id,
            pane_id: request.metadata.pane_id,
            allocation_generation: request.metadata.allocation_generation,
            started_at_ms: self.started_at_ms,
            submitted_at_ms,
            payload_hash: payload_hash(request.text),
            normalized_text: normalized(request.shown()),
            submit_key_count: request.submit_key_count,
            transaction_id: self.transaction_id,
            status,
        }
    }

    /// The buffer that the input goes through.
    pub open spec fn buffer_name(self) -> Seq<char> {
        with_hyphens(self.transaction_id)
    }
}

/// A text with a hyphen for every colon.
pub open spec fn with_hyphens(s: Seq<char>) -> Seq<char> {
    Seq::new(
        s.len(),
        |i: int|
            if s[i] == ':' {
                '-'
            } else {
                s[i]
            },
    )
}

fn hyphenate(s: &str) -> (r: String)
    ensures
        r@ == with_hyphens(s@),
{
    let chars = char_vec(s);
    let mut out = String::new();
    let mut i: usize = 0;
    while i < chars.len()
        invariant
            i <= chars.len(),
            chars@ == s@,
            out@ == with_hyphens(s@).take(i as int),
        decreases chars.len() - i,
    {
        let c = if chars[i] == ':' {
            '-'
        } else {
            chars[i]
        };
        out.push(c);
        assert(with_hyphens(s@).take(i + 1) =~= with_hyphens(s@).take(i as int).push(c));
        i += 1;
    }
    assert(with_hyphens(s@).take(i as int) =~= with_hyphens(s@));
    out
}

impl MachineInputAttempt {
    fn submission<'a>(&'a self, request: &'a InputRequest, submitted_at_ms: u64) -> (r:
        MachineInputSubmission<'a>)
        ensures
            forall|status: MachineInputStatus| #[trigger]
                r.recorded(status) == (MachineInputRecordView {
                    normalized_text: normalized(request.deep_view().text),
                    ..self.deep_view().recorded(request.deep_view(), submitted_at_ms, status)
                }),
    {
        MachineInputSubmission {
            run_id: request.metadata.run_id(),
            activation_id: request.metadata.activation_id(),
            pane_id: request.metadata.pane_id(),
            allocation_generation: request.metadata.allocation_generation(),
            started_at_ms: self.started_at_ms,
            submitted_at_ms,
            text: request.text.as_str(),
            submit_key_count: request.submit_key_count,
            transaction_id: self.transaction_id.clone(),
        }
    }

    fn started_record(&self, request: &InputRequest) -> (r: MachineInputRecord)
        ensures
            r.deep_view() == self.deep_view().recorded(
                request.deep_view(),
                self.deep_view().started_at_ms,
                MachineInputStatus::Started,
            ),
    {
        let submission = self.submission(request, self.started_at_ms);
        match &request.projection {
            Some(projection) => MachineInputRecord::started_with_projection(
                submission,
                projection.as_str(),
            ),
            None => MachineInputRecord::started(submission),
        }
    }

    fn submitted_record(&self, request: &InputRequest, now_ms: u64) -> (r: MachineInputRecord)
        ensures
            r.deep_view() == self.deep_view().recorded(
                request.deep_view(),
                now_ms,
                MachineInputStatus::Submitted,
            ),
    {
        let submission = self.submission(request, now_ms);
        match &request.projection {
            Some(projection) => MachineInputRecord::submitted_with_projection(
                submission,
                projection.as_str(),
            ),
            None => MachineInputRecord::submitted(submission),
        }
    }

    fn failed_record(&self, request: &InputRequest, now_ms: u64) -> (r: MachineInputRecord)
        ensures
            r.deep_view() == self.deep_view().recorded(
                request.deep_view(),
                now_ms,
                MachineInputStatus::Failed,
            ),
    {
        let submission = self.submission(request, now_ms);
        match &request.projection {
            Some(projection) => MachineInputRecord::failed_with_projection(
                submission,
                projection.as_str(),
            ),
            None => MachineInputRecord::failed(submission),
        }
    }
}

/// How far input has come, and what is waited for.
#[derive(Debug)]
enum Stage {
    /// The answer whether the pane is the right one.
    Validate,
    /// The time, and the number of the transaction.
    Open,
    /// That the start is recorded.
    Start(MachineInputAttempt),
    /// That what stands in the pane is cleared.
    Clear(MachineInputAttempt),
    /// That the text is in a buffer.
    Buffer(MachineInputAttempt),
    /// That the buffer is typed.
    Paste(MachineInputAttempt),
    /// That the agent has had time to take the text in.
    Settle(MachineInputAttempt),
    /// The answer whether the pane is still the right one, with so many keys sent.
    Confirm(MachineInputAttempt, usize),
    /// That the key is sent that submits the text.
    Submit(MachineInputAttempt, usize),
    /// That the time between two keys is over.
    Pause(MachineInputAttempt, usize),
    /// The time.
    Close(MachineInputAttempt),
    /// That the end is recorded.
    Record(MachineInputRecord),
    /// The time, after a failure.
    Fail(MachineInputAttempt, TmuxError),
    /// That a failure is recorded.
    FailRecord(MachineInputRecord, TmuxError),
    /// The kind of the agent that is watched.
    Recognize(MachineInputRecord),
    /// Whether the agent shows that it works.
    Watch(MachineInputRecord, HarnessProfile),
    /// Nothing more.
    Done(Result<TmuxInputTransaction, TmuxError>),
}

#[verifier::ext_equal]
pub enum StageView {
    Validate,
    Open,
    Start(AttemptView),
    Clear(AttemptView),
    Buffer(AttemptView),
    Paste(AttemptView),
    Settle(AttemptView),
    Confirm(AttemptView, usize),
    Submit(AttemptView, usize),
    Pause(AttemptView, usize),
    Close(AttemptView),
    Record(MachineInputRecordView),
    Fail(AttemptView, TmuxErrorView),
    FailRecord(MachineInputRecordView, TmuxErrorView),
    Recognize(MachineInputRecordView),
    Watch(MachineInputRecordView, HarnessProfileView),
    Done(Result<TransactionView, TmuxErrorView>),
}

impl DeepView for Stage {
    type V = StageView;

    closed spec fn deep_view(&self) -> StageView {
        match self {
            Stage::Validate => StageView::Validate,
            Stage::Open => StageView::Open,
            Stage::Start(a) => StageView::Start(a.deep_view()),
            Stage::Clear(a) => StageView::Clear(a.deep_view()),
            Stage::Buffer(a) => StageView::Buffer(a.deep_view()),
            Stage::Paste(a) => StageView::Paste(a.deep_view()),
            Stage::Settle(a) => StageView::Settle(a.deep_view()),
            Stage::Confirm(a, sent) => StageView::Confirm(a.deep_view(), *sent),
            Stage::Submit(a, sent) => StageView::Submit(a.deep_view(), *sent),
            Stage::Pause(a, sent) => StageView::Pause(a.deep_view(), *sent),
            Stage::Close(a) => StageView::Close(a.deep_view()),
            Stage::Record(record) => StageView::Record(record.deep_view()),
            Stage::Fail(a, error) => StageView::Fail(a.deep_view(), error.deep_view()),
            Stage::FailRecord(record, error) => StageView::FailRecord(
                record.deep_view(),
                error.deep_view(),
            ),
            Stage::Recognize(record) => StageView::Recognize(record.deep_view()),
            Stage::Watch(record, profile) => StageView::Watch(
                record.deep_view(),
                profile.deep_view(),
            ),
            Stage::Done(r) => StageView::Done(outcome(*r)),
        }
    }
}

/// What is to be done next.
#[derive(Debug)]
pub enum InputAction {
    /// Run a command.
    Run(Vec<String>),
    /// Tell the time and the next number of a transaction.
    Open,
    /// Put an entry into the ledger.
    Append(MachineInputRecord),
    /// Wait.
    Sleep(Delay),
    /// Tell the time.
    Clock,
    /// Tell of what known kind the agent with the given command is.
    Recognize(String),
    /// Wait until the pane shows a text, in whatever case, at most for so long.
    Watch(TmuxActivationMetadata, String, Delay),
    /// Stop: this is what came of the input.
    Finish(Result<TmuxInputTransaction, TmuxError>),
}

#[verifier::ext_equal]
pub enum InputActionView {
    Run(Seq<Seq<char>>),
    Open,
    Append(MachineInputRecordView),
    Sleep(nat),
    Clock,
    Recognize(Seq<char>),
    Watch(TmuxActivationMetadataView, Seq<char>, nat),
    Finish(Result<TransactionView, TmuxErrorView>),
}

impl DeepView for InputAction {
    type V = InputActionView;

    open spec fn deep_view(&self) -> InputActionView {
        match self {
            InputAction::Run(argv) => InputActionView::Run(argv.deep_view()),
            InputAction::Open => InputActionView::Open,
            InputAction::Append(record) => InputActionView::Append(record.deep_view()),
            InputAction::Sleep(delay) => InputActionView::Sleep(delay.deep_view()),
            InputAction::Clock => InputActionView::Clock,
            InputAction::Recognize(command) => InputActionView::Recognize(command@),
            InputAction::Watch(metadata, pattern, timeout) => InputActionView::Watch(
                metadata.deep_view(),
                pattern@,
                timeout.deep_view(),
            ),
            InputAction::Finish(r) => InputActionView::Finish(outcome(*r)),
        }
    }
}

/// What came of an action.
#[derive(Debug)]
pub enum InputEvent {
    Ran(Result<CommandOutput, TmuxError>),
    Opened { now_ms: u64, sequence: u64 },
    Appended(Result<(), String>),
    Slept,
    Clock(u64),
    /// The kind of the agent, where it is known.
    Recognized(Option<HarnessProfile>),
    /// Whether the text showed in time.
    Watched(Result<(), TmuxError>),
}

#[verifier::ext_equal]
pub enum InputEventView {
    Ran(Reply),
    Opened { now_ms: u64, sequence: u64 },
    Appended(Result<(), Seq<char>>),
    Slept,
    Clock(u64),
    Recognized(Option<HarnessProfileView>),
    Watched(Result<(), TmuxErrorView>),
}

impl DeepView for InputEvent {
    type V = InputEventView;

    open spec fn deep_view(&self) -> InputEventView {
        match self {
            InputEvent::Ran(r) => InputEventView::Ran(outcome(*r)),
            InputEvent::Opened { now_ms, sequence } => InputEventView::Opened {
                now_ms: *now_ms,
                sequence: *sequence,
            },
            InputEvent::Appended(r) => InputEventView::Appended(
                match r {
                    Ok(_) => Ok(()),
                    Err(detail) => Err(detail@),
                },
            ),
            InputEvent::Slept => InputEventView::Slept,
            InputEvent::Clock(now_ms) => InputEventView::Clock(*now_ms),
            InputEvent::Recognized(profile) => InputEventView::Recognized(profile.deep_view()),
            InputEvent::Watched(r) => InputEventView::Watched(
                match r {
                    Ok(_) => Ok(()),
                    Err(error) => Err(error.deep_view()),
                },
            ),
        }
    }
}

/// Input on its way.
#[derive(Debug)]
pub struct InputMachine {
    request: InputRequest,
    stage: Stage,
}

#[verifier::ext_equal]
pub struct InputMachineView {
    pub request: InputRequestView,
    pub stage: StageView,
}

impl DeepView for InputMachine {
    type V = InputMachineView;

    closed spec fn deep_view(&self) -> InputMachineView {
        InputMachineView { request: self.request.deep_view(), stage: self.stage.deep_view() }
    }
}

impl InputRequestView {
    /// The agent that is watched, where there is one.
    pub open spec fn agent(self) -> AgentWatchView {
        match self.acceptance {
            Some(agent) => agent,
            None => AgentWatchView { agent_command: Seq::empty(), timeout: 0 },
        }
    }

    pub open spec fn target(self) -> Seq<char> {
        target_of_pane(self.metadata.pane())
    }

    /// The command of a stage, where it waits for one.
    pub open spec fn command(self, stage: StageView) -> Option<Seq<Seq<char>>> {
        match stage {
            StageView::Validate => Some(display_pane_argv(self.target())),
            StageView::Confirm(_, _) => Some(display_pane_argv(self.target())),
            StageView::Clear(_) => Some(send_key_argv(self.target(), "C-u"@)),
            StageView::Buffer(a) => Some(set_buffer_argv(a.buffer_name(), self.text)),
            StageView::Paste(a) => Some(paste_buffer_argv(a.buffer_name(), self.target())),
            StageView::Submit(_, _) => Some(send_key_argv(self.target(), "Enter"@)),
            _ => None,
        }
    }
}

impl InputMachineView {
    /// Input that has not begun; it is over at once where the session of the pane is refused.
    pub open spec fn fresh(request: InputRequestView) -> InputMachineView {
        InputMachineView {
            request,
            stage: match owned_fault("pane"@, request.metadata.session_id) {
                Some(fault) => StageView::Done(Err(fault)),
                None => StageView::Validate,
            },
        }
    }

    /// What is to be done next.
    pub open spec fn action(self) -> InputActionView {
        match self.stage {
            StageView::Open => InputActionView::Open,
            StageView::Start(a) => InputActionView::Append(
                a.recorded(self.request, a.started_at_ms, MachineInputStatus::Started),
            ),
            StageView::Settle(_) => InputActionView::Sleep(self.request.settle),
            StageView::Pause(_, _) => InputActionView::Sleep(self.request.pause),
            StageView::Close(_) => InputActionView::Clock,
            StageView::Fail(_, _) => InputActionView::Clock,
            StageView::Record(record) => InputActionView::Append(record),
            StageView::FailRecord(record, _) => InputActionView::Append(record),
            StageView::Recognize(_) => InputActionView::Recognize(
                self.request.agent().agent_command,
            ),
            StageView::Watch(_, profile) => InputActionView::Watch(
                self.request.metadata,
                profile.acceptance_pattern,
                self.request.agent().timeout,
            ),
            StageView::Done(r) => InputActionView::Finish(r),
            _ => InputActionView::Run(self.request.command(self.stage)->Some_0),
        }
    }

    /// What came of the command of a stage, which has to succeed.
    pub open spec fn made(self, reply: Reply) -> Reply {
        checked(self.request.command(self.stage)->Some_0, reply)
    }

    /// The stage behind an event that fits.
    pub open spec fn next(self, event: InputEventView) -> StageView {
        let request = self.request;
        match (self.stage, event) {
            (StageView::Validate, InputEventView::Ran(reply)) => match pane_verdict(
                request.metadata,
                self.made(reply),
            ) {
                Err(error) => StageView::Done(Err(error)),
                Ok(_) => StageView::Open,
            },
            (StageView::Open, InputEventView::Opened { now_ms, sequence }) => StageView::Start(
                AttemptView {
                    started_at_ms: now_ms,
                    transaction_id: transaction_id_of(
                        request.metadata.run_id,
                        request.metadata.activation_id,
                        request.metadata.pane_id,
                        payload_hash(request.text),
                        now_ms,
                        sequence,
                    ),
                },
            ),
            (StageView::Start(a), InputEventView::Appended(r)) => match r {
                Err(detail) => StageView::Done(Err(TmuxErrorView::input_ledger(detail))),
                Ok(_) => if request.clear_before_input {
                    StageView::Clear(a)
                } else {
                    StageView::Buffer(a)
                },
            },
            (StageView::Clear(a), InputEventView::Ran(reply)) => match self.made(reply) {
                Err(error) => StageView::Fail(a, error),
                Ok(_) => StageView::Buffer(a),
            },
            (StageView::Buffer(a), InputEventView::Ran(reply)) => match self.made(reply) {
                Err(error) => StageView::Fail(a, error),
                Ok(_) => StageView::Paste(a),
            },
            (StageView::Paste(a), InputEventView::Ran(reply)) => match self.made(reply) {
                Err(error) => StageView::Fail(a, error),
                Ok(_) => StageView::Settle(a),
            },
            (StageView::Settle(a), InputEventView::Slept) => StageView::Confirm(a, 0),
            (StageView::Confirm(a, sent), InputEventView::Ran(reply)) => match pane_verdict(
                request.metadata,
                self.made(reply),
            ) {
                Err(error) => StageView::Fail(a, error),
                Ok(_) => StageView::Submit(a, sent),
            },
            (StageView::Submit(a, sent), InputEventView::Ran(reply)) => match self.made(reply) {
                Err(error) => StageView::Fail(a, error),
                Ok(_) => if sent + 1 < request.submit_key_count {
                    StageView::Pause(a, (sent + 1) as usize)
                } else {
                    StageView::Close(a)
                },
            },
            (StageView::Pause(a, sent), InputEventView::Slept) => StageView::Confirm(a, sent),
            (StageView::Close(a), InputEventView::Clock(now_ms)) => StageView::Record(
                a.recorded(request, now_ms, MachineInputStatus::Submitted),
            ),
            (StageView::Record(record), InputEventView::Appended(r)) => match r {
                Err(detail) => StageView::Done(Err(TmuxErrorView::input_ledger(detail))),
                Ok(_) => if request.acceptance is Some {
                    StageView::Recognize(record)
                } else {
                    StageView::Done(Ok(TransactionView { record, acceptance: None }))
                },
            },
            (StageView::Recognize(record), InputEventView::Recognized(profile)) => match profile {
                Some(profile) => StageView::Watch(record, profile),
                None => StageView::Done(
                    Ok(TransactionView { record, acceptance: acceptance_of(None, false) }),
                ),
            },
            (StageView::Watch(record, profile), InputEventView::Watched(r)) => StageView::Done(
                Ok(TransactionView { record, acceptance: acceptance_of(Some(profile), r is Ok) }),
            ),
            (StageView::Fail(a, error), InputEventView::Clock(now_ms)) => StageView::FailRecord(
                a.recorded(request, now_ms, MachineInputStatus::Failed),
                error,
            ),
            (StageView::FailRecord(_, error), InputEventView::Appended(_)) => StageView::Done(
                Err(error),
            ),
            _ => self.stage,
        }
    }

    /// The input behind an event; one that does not fit changes nothing.
    pub open spec fn advanced(self, event: InputEventView) -> InputMachineView {
        InputMachineView { request: self.request, stage: self.next(event) }
    }

    /// The input behind events.
    pub open spec fn after(self, events: Seq<InputEventView>) -> InputMachineView
        decreases events.len(),
    {
        if events.len() == 0 {
            self
        } else {
            self.after(events.drop_last()).advanced(events.last())
        }
    }
}

fn reply_of(argv: Vec<String>, reply: Result<CommandOutput, TmuxError>) -> (r: Result<
    CommandOutput,
    TmuxError,
>)
    ensures
        outcome(r) == checked(argv.deep_view(), outcome(reply)),
{
    match reply {
        Err(error) => Err(error),
        Ok(output) => if output.is_success() {
            Ok(output)
        } else {
            let words = argv.as_slice();
            assert(words.deep_view() =~= argv.deep_view());
            Err(TmuxError::command_failed(words, output.status, output.stderr.as_str()))
        },
    }
}

impl InputMachine {
    pub fn new(request: InputRequest) -> (r: Self)
        ensures
            r.deep_view() == InputMachineView::fresh(request.deep_view()),
    {
        let stage = match validate_owned_session_id("pane", request.metadata.session_id()) {
            Err(error) => Stage::Done(Err(error)),
            Ok(_) => Stage::Validate,
        };
        InputMachine { request, stage }
    }

    /// What is to be done next.
    pub fn action(&self) -> (r: InputAction)
        ensures
            r.deep_view() == self.deep_view().action(),
    {
        match &self.stage {
            Stage::Validate => InputAction::Run(validate_words(&self.request)),
            Stage::Confirm(_, _) => InputAction::Run(validate_words(&self.request)),
            Stage::Clear(_) => InputAction::Run(key_words(&self.request, "C-u")),
            Stage::Submit(_, _) => InputAction::Run(key_words(&self.request, "Enter")),
            Stage::Buffer(a) => InputAction::Run(buffer_words(&self.request, a)),
            Stage::Paste(a) => InputAction::Run(paste_words(&self.request, a)),
            Stage::Open => InputAction::Open,
            Stage::Start(a) => InputAction::Append(a.started_record(&self.request)),
            Stage::Settle(_) => InputAction::Sleep(self.request.settle),
            Stage::Pause(_, _) => InputAction::Sleep(self.request.pause),
            Stage::Close(_) => InputAction::Clock,
            Stage::Fail(_, _) => InputAction::Clock,
            Stage::Record(record) => InputAction::Append(record.clone()),
            Stage::FailRecord(record, _) => InputAction::Append(record.clone()),
            Stage::Recognize(_) => InputAction::Recognize(
                match &self.request.acceptance {
                    Some(agent) => agent.agent_command.clone(),
                    None => {
                        let none = String::new();
                        assert(none@ =~= Seq::<char>::empty());
                        none
                    },
                },
            ),
            Stage::Watch(_, profile) => InputAction::Watch(
                self.request.metadata.clone(),
                profile.acceptance_pattern.to_string(),
                match &self.request.acceptance {
                    Some(agent) => agent.timeout,
                    None => Delay::from_millis(0),
                },
            ),
            Stage::Done(Ok(sent)) => InputAction::Finish(
                Ok(
                    TmuxInputTransaction {
                        record: sent.record.clone(),
                        acceptance: sent.acceptance,
                    },
                ),
            ),
            Stage::Done(Err(error)) => InputAction::Finish(Err(error.clone())),
        }
    }

    /// Goes on behind an event.
    pub fn advance(self, event: InputEvent) -> (r: Self)
        ensures
            r.deep_view() == self.deep_view().advanced(event.deep_view()),
    {
        let request = self.request;
        let stage = match (self.stage, event) {
            (Stage::Validate, InputEvent::Ran(reply)) => {
                match reply_of(validate_words(&request), reply) {
                    Err(error) => Stage::Done(Err(error)),
                    Ok(output) => match judge_pane(&request.metadata, &output) {
                        Err(error) => Stage::Done(Err(error)),
                        Ok(_) => Stage::Open,
                    },
                }
            },
            (Stage::Open, InputEvent::Opened { now_ms, sequence }) => {
                let hash = machine_input_payload_hash(request.text.as_str());
                Stage::Start(
                    MachineInputAttempt {
                        started_at_ms: now_ms,
                        transaction_id: machine_input_transaction_id(
                            request.metadata.run_id(),
                            request.metadata.activation_id(),
                            request.metadata.pane_id(),
                            hash.as_str(),
                            now_ms,
                            sequence,
                        ),
                    },
                )
            },
            (Stage::Start(a), InputEvent::Appended(r)) => match r {
                Err(detail) => Stage::Done(Err(TmuxError::input_ledger(detail.as_str()))),
                Ok(_) => if request.clear_before_input {
                    Stage::Clear(a)
                } else {
                    Stage::Buffer(a)
                },
            },
            (Stage::Clear(a), InputEvent::Ran(reply)) => {
                match reply_of(key_words(&request, "C-u"), reply) {
                    Err(error) => Stage::Fail(a, error),
                    Ok(_) => Stage::Buffer(a),
                }
            },
            (Stage::Buffer(a), InputEvent::Ran(reply)) => {
                match reply_of(buffer_words(&request, &a), reply) {
                    Err(error) => Stage::Fail(a, error),
                    Ok(_) => Stage::Paste(a),
                }
            },
            (Stage::Paste(a), InputEvent::Ran(reply)) => {
                match reply_of(paste_words(&request, &a), reply) {
                    Err(error) => Stage::Fail(a, error),
                    Ok(_) => Stage::Settle(a),
                }
            },
            (Stage::Settle(a), InputEvent::Slept) => Stage::Confirm(a, 0),
            (Stage::Confirm(a, sent), InputEvent::Ran(reply)) => {
                match reply_of(validate_words(&request), reply) {
                    Err(error) => Stage::Fail(a, error),
                    Ok(output) => match judge_pane(&request.metadata, &output) {
                        Err(error) => Stage::Fail(a, error),
                        Ok(_) => Stage::Submit(a, sent),
                    },
                }
            },
            (Stage::Submit(a, sent), InputEvent::Ran(reply)) => {
                match reply_of(key_words(&request, "Enter"), reply) {
                    Err(error) => Stage::Fail(a, error),
                    Ok(_) => if sent < request.submit_key_count && sent + 1
                        < request.submit_key_count {
                        Stage::Pause(a, sent + 1)
                    } else {
                        Stage::Close(a)
                    },
                }
            },
            (Stage::Pause(a, sent), InputEvent::Slept) => Stage::Confirm(a, sent),
            (Stage::Close(a), InputEvent::Clock(now_ms)) => Stage::Record(
                a.submitted_record(&request, now_ms),
            ),
            (Stage::Record(record), InputEvent::Appended(r)) => match r {
                Err(detail) => Stage::Done(Err(TmuxError::input_ledger(detail.as_str()))),
                Ok(_) => if request.acceptance.is_some() {
                    Stage::Recognize(record)
                } else {
                    Stage::Done(Ok(TmuxInputTransaction { record, acceptance: None }))
                },
            },
            (Stage::Recognize(record), InputEvent::Recognized(profile)) => match profile {
                Some(profile) => Stage::Watch(record, profile),
                None => Stage::Done(
                    Ok(
                        TmuxInputTransaction {
                            record,
                            acceptance: submission_acceptance(None, false),
                        },
                    ),
                ),
            },
            (Stage::Watch(record, profile), InputEvent::Watched(r)) => Stage::Done(
                Ok(
                    TmuxInputTransaction {
                        record,
                        acceptance: submission_acceptance(Some(profile), r.is_ok()),
                    },
                ),
            ),
            (Stage::Fail(a, error), InputEvent::Clock(now_ms)) => Stage::FailRecord(
                a.failed_record(&request, now_ms),
                error,
            ),
            (Stage::FailRecord(_, error), InputEvent::Appended(_)) => Stage::Done(Err(error)),
            (stage, _) => stage,
        };
        InputMachine { request, stage }
    }
}

fn validate_words(request: &InputRequest) -> (r: Vec<String>)
    ensures
        r.deep_view() == display_pane_argv(request.deep_view().target()),
{
    display_pane_words(metadata_pane_target(&request.metadata).as_str())
}

fn key_words(request: &InputRequest, key: &str) -> (r: Vec<String>)
    ensures
        r.deep_view() == send_key_argv(request.deep_view().target(), key@),
{
    send_key_words(metadata_pane_target(&request.metadata).as_str(), key)
}

fn buffer_words(request: &InputRequest, attempt: &MachineInputAttempt) -> (r: Vec<String>)
    ensures
        r.deep_view() == set_buffer_argv(
            attempt.deep_view().buffer_name(),
            request.deep_view().text,
        ),
{
    set_buffer_words(hyphenate(attempt.transaction_id.as_str()).as_str(), request.text.as_str())
}

fn paste_words(request: &InputRequest, attempt: &MachineInputAttempt) -> (r: Vec<String>)
    ensures
        r.deep_view() == paste_buffer_argv(
            attempt.deep_view().buffer_name(),
            request.deep_view().target(),
        ),
{
    paste_buffer_words(
        hyphenate(attempt.transaction_id.as_str()).as_str(),
        metadata_pane_target(&request.metadata).as_str(),
    )
}

impl<R: CommandRunner> TmuxAdapter<R> {
    /// Input under the settings of the adapter.
    pub fn send_input_transaction(&self, metadata: &TmuxActivationMetadata, text: &str) -> (r:
        InputMachine)
        ensures
            r.deep_view() == InputMachineView::fresh(
                InputRequestView::configured(
                    metadata.deep_view(),
                    text@,
                    false,
                    self.config().submit_key_count,
                    self.config(),
                ),
            ),
    {
        self.send_input_transaction_with_submit_key_count(
            metadata,
            text,
            self.input_config().submit_key_count(),
        )
    }

    pub fn send_input_transaction_with_submit_key_count(
        &self,
        metadata: &TmuxActivationMetadata,
        text: &str,
        submit_key_count: usize,
    ) -> (r: InputMachine)
        ensures
            r.deep_view() == InputMachineView::fresh(
                InputRequestView::configured(
                    metadata.deep_view(),
                    text@,
                    false,
                    submit_key_count,
                    self.config(),
                ),
            ),
    {
        InputMachine::new(
            InputRequest::new(metadata, text, false, submit_key_count, self.input_config()),
        )
    }

    /// Sends a text that is recorded as another.
    pub fn send_input_transaction_with_projection(
        &self,
        metadata: &TmuxActivationMetadata,
        text: &str,
        projection: &str,
    ) -> (r: InputMachine)
        ensures
            r.deep_view() == InputMachineView::fresh(
                InputRequestView::configured(
                    metadata.deep_view(),
                    text@,
                    false,
                    self.config().submit_key_count,
                    self.config(),
                ).shown_as(projection@),
            ),
    {
        self.send_input_transaction_with_projection_and_submit_key_count(
            metadata,
            text,
            projection,
            self.input_config().submit_key_count(),
        )
    }

    pub fn send_input_transaction_with_projection_and_submit_key_count(
        &self,
        metadata: &TmuxActivationMetadata,
        text: &str,
        projection: &str,
        submit_key_count: usize,
    ) -> (r: InputMachine)
        ensures
            r.deep_view() == InputMachineView::fresh(
                InputRequestView::configured(
                    metadata.deep_view(),
                    text@,
                    false,
                    submit_key_count,
                    self.config(),
                ).shown_as(projection@),
            ),
    {
        let request = InputRequest::new(
            metadata,
            text,
            false,
            submit_key_count,
            self.input_config(),
        );
        InputMachine::new(request.shown_as(projection))
    }

    pub fn send_clean_input_transaction(
        &self,
        metadata: &TmuxActivationMetadata,
        text: &str,
    ) -> (r: InputMachine)
        ensures
            r.deep_view() == InputMachineView::fresh(
                InputRequestView::configured(
                    metadata.deep_view(),
                    text@,
                    true,
                    self.config().submit_key_count,
                    self.config(),
                ),
            ),
    {
        self.send_clean_input_transaction_with_submit_key_count(
            metadata,
            text,
            self.input_config().submit_key_count(),
        )
    }

    pub fn send_clean_input_transaction_with_submit_key_count(
        &self,
        metadata: &TmuxActivationMetadata,
        text: &str,
        submit_key_count: usize,
    ) -> (r: InputMachine)
        ensures
            r.deep_view() == InputMachineView::fresh(
                InputRequestView::configured(
                    metadata.deep_view(),
                    text@,
                    true,
                    submit_key_count,
                    self.config(),
                ),
            ),
    {
        InputMachine::new(
            InputRequest::new(metadata, text, true, submit_key_count, self.input_config()),
        )
    }

    /// Clean input to an agent that is watched for the sign that it took the input in.
    pub fn send_clean_input_transaction_with_agent_acceptance(
        &self,
        metadata: &TmuxActivationMetadata,
        text: &str,
        submit_key_count: usize,
        agent_command: &str,
        acceptance_timeout: Delay,
    ) -> (r: InputMachine)
        ensures
            r.deep_view() == InputMachineView::fresh(
                InputRequestView::configured(
                    metadata.deep_view(),
                    text@,
                    true,
                    submit_key_count,
                    self.config(),
                ).watched(agent_command@, acceptance_timeout.deep_view()),
            ),
    {
        let request = InputRequest::new(
            metadata,
            text,
            true,
            submit_key_count,
            self.input_config(),
        );
        InputMachine::new(request.watched(agent_command, acceptance_timeout))
    }

    /// Input under settings of its own.
    pub fn send_input_transaction_with_config(
        &self,
        metadata: &TmuxActivationMetadata,
        text: &str,
        input_config: &TmuxInputTransactionConfig,
    ) -> (r: InputMachine)
        ensures
            r.deep_view() == InputMachineView::fresh(
                InputRequestView::configured(
                    metadata.deep_view(),
                    text@,
                    false,
                    input_config.deep_view().submit_key_count,
                    input_config.deep_view(),
                ),
            ),
    {
        InputMachine::new(
            InputRequest::new(
                metadata,
                text,
                false,
                input_config.submit_key_count(),
                input_config,
            ),
        )
    }

    /// The command that starts an agent, submitted once.
    pub fn start_agent(&self, activation: &TmuxActivation, command: &str) -> (r: InputMachine)
        ensures
            r.deep_view() == InputMachineView::fresh(
                InputRequestView::configured(
                    activation.deep_view().metadata,
                    command@,
                    false,
                    1,
                    self.config(),
                ),
            ),
    {
        self.send_input_transaction_with_submit_key_count(activation.metadata(), command, 1)
    }

    /// A prompt for an agent, submitted twice.
    pub fn send_prompt(&self, handle: &TmuxAgentHandle, prompt: &str) -> (r: InputMachine)
        ensures
            r.deep_view() == InputMachineView::fresh(
                InputRequestView::configured(
                    handle.deep_view().metadata,
                    prompt@,
                    false,
                    2,
                    self.config(),
                ),
            ),
    {
        self.send_input_transaction_with_submit_key_count(handle.metadata(), prompt, 2)
    }
}

/// How the wait for a text in a pane goes on.
#[derive(Debug)]
pub enum PaneTextWait {
    Found,
    Sleep(Delay),
    TimedOut(TmuxError),
}

#[verifier::ext_equal]
pub enum PaneTextWaitView {
    Found,
    Sleep(nat),
    TimedOut(TmuxErrorView),
}

impl DeepView for PaneTextWait {
    type V = PaneTextWaitView;

    open spec fn deep_view(&self) -> PaneTextWaitView {
        match self {
            PaneTextWait::Found => PaneTextWaitView::Found,
            PaneTextWait::Sleep(delay) => PaneTextWaitView::Sleep(delay.deep_view()),
            PaneTextWait::TimedOut(error) => PaneTextWaitView::TimedOut(error.deep_view()),
        }
    }
}

/// How the wait for a text goes on: another look a tenth of a second later, but not behind the
/// end of the wait.
pub open spec fn waits_for_text(
    captured: Seq<char>,
    pattern: Seq<char>,
    elapsed: nat,
    timeout: nat,
) -> PaneTextWaitView {
    if holds_text(captured, pattern) {
        PaneTextWaitView::Found
    } else if elapsed >= timeout {
        PaneTextWaitView::TimedOut(
            TmuxErrorView::AgentReadinessTimeout {
                timeout_ms: if timeout / 1_000_000 <= u64::MAX {
                    (timeout / 1_000_000) as u64
                } else {
                    u64::MAX
                },
            },
        )
    } else if timeout - elapsed <= 100_000_000 {
        PaneTextWaitView::Sleep((timeout - elapsed) as nat)
    } else {
        PaneTextWaitView::Sleep(100_000_000)
    }
}

pub fn pane_text_wait(captured: &str, pattern: &str, elapsed: Delay, timeout: Delay) -> (r:
    PaneTextWait)
    ensures
        r.deep_view() == waits_for_text(
            captured@,
            pattern@,
            elapsed.deep_view(),
            timeout.deep_view(),
        ),
{
    if contains_substring(captured, pattern) {
        PaneTextWait::Found
    } else if elapsed.reaches(timeout) {
        PaneTextWait::TimedOut(
            TmuxError::AgentReadinessTimeout { timeout_ms: timeout.as_millis() },
        )
    } else {
        PaneTextWait::Sleep(Delay::from_millis(100).at_most(timeout.minus(elapsed)))
    }
}

/// The number of keys that were sent to submit the input by the time a stage is reached.
pub open spec fn keys_sent(machine: InputMachineView) -> Option<int> {
    match machine.stage {
        StageView::Confirm(_, sent) => Some(sent as int),
        StageView::Submit(_, sent) => Some(sent as int),
        StageView::Pause(_, sent) => Some(sent as int),
        StageView::Close(_) => Some(machine.request.submit_key_count as int),
        StageView::Record(_) => Some(machine.request.submit_key_count as int),
        StageView::Recognize(_) => Some(machine.request.submit_key_count as int),
        StageView::Watch(_, _) => Some(machine.request.submit_key_count as int),
        StageView::Done(Ok(_)) => Some(machine.request.submit_key_count as int),
        StageView::Done(Err(_)) => None,
        StageView::Fail(_, _) => None,
        StageView::FailRecord(_, _) => None,
        _ => Some(0),
    }
}

/// Whether an event is the answer that a key was sent to submit the input.
pub open spec fn is_key_sent(machine: InputMachineView, event: InputEventView) -> bool {
    machine.stage is Submit && event is Ran && machine.made(event->Ran_0) is Ok
}

/// How often a key was sent to submit the input during events.
pub open spec fn key_count(machine: InputMachineView, events: Seq<InputEventView>) -> int
    decreases events.len(),
{
    if events.len() == 0 {
        0
    } else {
        let before = machine.after(events.drop_last());
        key_count(machine, events.drop_last()) + if is_key_sent(before, events.last()) {
            1int
        } else {
            0int
        }
    }
}

proof fn lemma_request_stays(machine: InputMachineView, events: Seq<InputEventView>)
    ensures
        machine.after(events).request == machine.request,
    decreases events.len(),
{
    if events.len() > 0 {
        lemma_request_stays(machine, events.drop_last());
    }
}

proof fn lemma_keys_counted(request: InputRequestView, events: Seq<InputEventView>)
    requires
        request.submit_key_count >= 1,
    ensures
        ({
            let machine = InputMachineView::fresh(request).after(events);
            keys_sent(machine) matches Some(sent) ==> {
                &&& key_count(InputMachineView::fresh(request), events) == sent
                &&& (machine.stage is Confirm || machine.stage is Submit || machine.stage is Pause)
                    ==> sent < request.submit_key_count
            }
        }),
    decreases events.len(),
{
    let fresh = InputMachineView::fresh(request);
    if events.len() > 0 {
        let front = events.drop_last();
        lemma_keys_counted(request, front);
        lemma_request_stays(fresh, front);
        lemma_request_stays(fresh, events);
        let before = fresh.after(front);
        let machine = fresh.after(events);
        assert(machine == before.advanced(events.last()));
    }
}

/// Input that comes out well has been submitted exactly as often as asked, and at least once.
pub proof fn lemma_submitted_as_often_as_asked(
    metadata: TmuxActivationMetadataView,
    text: Seq<char>,
    clear_before_input: bool,
    submit_key_count: usize,
    config: InputConfigView,
    events: Seq<InputEventView>,
)
    ensures
        ({
            let request = InputRequestView::configured(
                metadata,
                text,
                clear_before_input,
                submit_key_count,
                config,
            );
            let fresh = InputMachineView::fresh(request);
            fresh.after(events).stage matches StageView::Done(Ok(_)) ==> key_count(fresh, events)
                == (if submit_key_count >= 1 {
                submit_key_count as int
            } else {
                1
            })
        }),
{
    let request = InputRequestView::configured(
        metadata,
        text,
        clear_before_input,
        submit_key_count,
        config,
    );
    lemma_keys_counted(request, events);
    lemma_request_stays(InputMachineView::fresh(request), events);
}

/// The key that submits the input is asked for only right behind the answer that the pane is
/// still the right one.
pub proof fn lemma_key_follows_validation(machine: InputMachineView, event: InputEventView)
    requires
        machine.stage !is Submit,
        machine.advanced(event).stage is Submit,
    ensures
        machine.stage is Confirm,
        event is Ran,
        machine.action() == InputActionView::Run(display_pane_argv(machine.request.target())),
        pane_verdict(machine.request.metadata, machine.made(event->Ran_0)) == Ok::<
            (),
            TmuxErrorView,
        >(()),
        machine.advanced(event).action() == InputActionView::Run(
            send_key_argv(machine.request.target(), "Enter"@),
        ),
{
}

/// Nothing is typed before the start is recorded: the first command besides the question after
/// the pane comes right behind the entry of the start.
pub proof fn lemma_start_is_recorded_first(machine: InputMachineView, event: InputEventView)
    requires
        machine.stage is Validate || machine.stage is Open || machine.stage is Start,
        machine.advanced(event).stage != machine.stage,
        machine.advanced(event).action() is Run,
    ensures
        machine.stage is Start,
        machine.action() is Append,
        machine.action()->Append_0.status == MachineInputStatus::Started,
        event is Appended,
        event->Appended_0 is Ok,
{
    if machine.stage is Validate {
        assert(machine.advanced(event).stage is Done || machine.advanced(event).stage is Open);
    } else if machine.stage is Open {
        assert(machine.advanced(event).stage is Start);
    }
}

/// Whether every failure that is about to be recorded is recorded as one.
pub open spec fn failure_is_marked(machine: InputMachineView) -> bool {
    machine.stage matches StageView::FailRecord(record, _) ==> record.status
        == MachineInputStatus::Failed
}

proof fn lemma_failures_marked(request: InputRequestView, events: Seq<InputEventView>)
    ensures
        failure_is_marked(InputMachineView::fresh(request).after(events)),
    decreases events.len(),
{
    if events.len() > 0 {
        lemma_failures_marked(request, events.drop_last());
    }
}

/// Input that fails behind the entry of its start ends only behind an entry of the failure,
/// unless it is the ledger that fails.
pub proof fn lemma_failure_is_recorded(
    request: InputRequestView,
    events: Seq<InputEventView>,
    event: InputEventView,
)
    ensures
        ({
            let before = InputMachineView::fresh(request).after(events);
            before.stage !is Done && before.stage !is Validate && (before.advanced(
                event,
            ).stage matches StageView::Done(Err(_))) ==> {
                ||| event matches InputEventView::Appended(Err(_))
                ||| before.action() matches InputActionView::Append(record) && record.status
                    == MachineInputStatus::Failed
            }
        }),
{
    lemma_failures_marked(request, events);
}

/// Input that is submitted and recorded comes out well, whatever its agent shows: it is accepted
/// exactly where the agent is watched, is of a known kind and shows in time that it works.
pub proof fn lemma_submissions_are_accepted_by_their_sign(
    machine: InputMachineView,
    record: MachineInputRecordView,
    profile: Option<HarnessProfileView>,
    watched: Result<(), TmuxErrorView>,
)
    requires
        machine.stage == StageView::Record(record),
    ensures
        ({
            let recorded = machine.advanced(InputEventView::Appended(Ok(())));
            let known = recorded.advanced(InputEventView::Recognized(profile));
            let seen = known.advanced(InputEventView::Watched(watched));
            let ended = |acceptance: Option<AcceptanceView>|
                InputActionView::Finish(Ok(TransactionView { record, acceptance }));
            match machine.request.acceptance {
                None => recorded.action() == ended(None),
                Some(agent) => {
                    &&& recorded.action() == InputActionView::Recognize(agent.agent_command)
                    &&& profile is None ==> known.action() == ended(None)
                    &&& profile matches Some(kind) ==> known.action() == InputActionView::Watch(
                        machine.request.metadata,
                        kind.acceptance_pattern,
                        agent.timeout,
                    )
                    &&& seen.action() == ended(acceptance_of(profile, watched is Ok))
                },
            }
        }),
{
}

/// Whether an agent of a known kind was seen during events to work, behind the entry of a record.
pub open spec fn seen_working(
    machine: InputMachineView,
    events: Seq<InputEventView>,
    record: MachineInputRecordView,
    sign: AcceptanceView,
) -> bool {
    exists|i: int, profile: HarnessProfileView|
        0 <= i < events.len() && #[trigger] watches(machine.after(events.take(i)), record, profile)
            && events[i] == InputEventView::Watched(Ok(())) && acceptance_of(Some(profile), true)
            == Some(sign)
}

/// Whether an agent of a known kind is being watched, behind the entry of a record.
pub open spec fn watches(
    machine: InputMachineView,
    record: MachineInputRecordView,
    profile: HarnessProfileView,
) -> bool {
    machine.stage == StageView::Watch(record, profile)
}

/// Whether a stage waits for what a watched agent shows.
pub open spec fn is_watching(stage: StageView) -> bool {
    stage is Recognize || stage is Watch
}

/// The acceptance of input that came out well.
pub open spec fn told_acceptance(stage: StageView) -> Option<AcceptanceView> {
    match stage {
        StageView::Done(Ok(sent)) => sent.acceptance,
        _ => None,
    }
}

proof fn lemma_acceptance_step(machine: InputMachineView, event: InputEventView)
    ensures
        is_watching(machine.advanced(event).stage) ==> is_watching(machine.stage)
            || machine.request.acceptance is Some,
        told_acceptance(machine.advanced(event).stage) is Some ==> machine.advanced(event).stage
            == machine.stage || (is_watching(machine.stage) && event == InputEventView::Watched(
            Ok(()),
        )),
{
    match machine.stage {
        StageView::Watch(record, profile) => {
            if let InputEventView::Watched(r) = event {
                if let Ok(u) = r {
                    assert(u == ());
                }
            }
        },
        _ => {},
    }
}

proof fn lemma_watched_on_request(request: InputRequestView, events: Seq<InputEventView>)
    ensures
        is_watching(InputMachineView::fresh(request).after(events).stage)
            ==> request.acceptance is Some,
        told_acceptance(InputMachineView::fresh(request).after(events).stage) is Some
            ==> request.acceptance is Some,
    decreases events.len(),
{
    if events.len() > 0 {
        let fresh = InputMachineView::fresh(request);
        lemma_watched_on_request(request, events.drop_last());
        lemma_request_stays(fresh, events.drop_last());
        lemma_acceptance_step(fresh.after(events.drop_last()), events.last());
    }
}

proof fn lemma_seeing_stays(
    machine: InputMachineView,
    events: Seq<InputEventView>,
    record: MachineInputRecordView,
    sign: AcceptanceView,
)
    requires
        events.len() > 0,
        seen_working(machine, events.drop_last(), record, sign),
    ensures
        seen_working(machine, events, record, sign),
{
    let front = events.drop_last();
    let (i, profile) = choose|i: int, profile: HarnessProfileView|
        0 <= i < front.len() && #[trigger] watches(machine.after(front.take(i)), record, profile)
            && front[i] == InputEventView::Watched(Ok(())) && acceptance_of(Some(profile), true)
            == Some(sign);
    assert(front.take(i) =~= events.take(i));
    assert(watches(machine.after(events.take(i)), record, profile));
    assert(events[i] == front[i]);
}

/// Input is accepted only where its agent is watched and was seen to work.
pub proof fn lemma_accepted_input_was_seen(
    request: InputRequestView,
    events: Seq<InputEventView>,
    sent: TransactionView,
)
    requires
        InputMachineView::fresh(request).after(events).action() == InputActionView::Finish(Ok(sent)),
        sent.acceptance is Some,
    ensures
        request.acceptance is Some,
        seen_working(
            InputMachineView::fresh(request),
            events,
            sent.record,
            sent.acceptance->Some_0,
        ),
    decreases events.len(),
{
    let fresh = InputMachineView::fresh(request);
    let ended = fresh.after(events);
    assert(ended.stage == StageView::Done(Ok(sent))) by {
        lemma_finished_is_done(ended);
    }
    lemma_watched_on_request(request, events);
    if events.len() > 0 {
        let front = events.drop_last();
        let before = fresh.after(front);
        lemma_acceptance_step(before, events.last());
        if before.stage == ended.stage {
            lemma_accepted_input_was_seen(request, front, sent);
            lemma_seeing_stays(fresh, events, sent.record, sent.acceptance->Some_0);
        } else {
            lemma_watch_ends(before, sent);
            let n = events.len() - 1;
            assert(events.take(n) =~= front);
            let profile = before.stage->Watch_1;
            assert(watches(fresh.after(events.take(n)), sent.record, profile));
            assert(events[n] == InputEventView::Watched(Ok(())));
        }
    }
}

proof fn lemma_finished_is_done(machine: InputMachineView)
    ensures
        machine.action() matches InputActionView::Finish(r) ==> machine.stage == StageView::Done(r),
{
}

proof fn lemma_watch_ends(machine: InputMachineView, sent: TransactionView)
    requires
        is_watching(machine.stage),
        machine.advanced(InputEventView::Watched(Ok(()))).stage == StageView::Done(Ok(sent)),
    ensures
        machine.stage matches StageView::Watch(record, profile) && record == sent.record
            && sent.acceptance == acceptance_of(Some(profile), true),
{
}

} // verus!
