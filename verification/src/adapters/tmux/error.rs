//! What can go wrong with tmux. Commands and their output are told by hash and length
//! alone, never in full.
use vstd::prelude::*;
use vstd::utf8::encode_utf8;

use crate::hash::{framed, framed_all, push_framed, sha256_hex, sha256_hex_text};
use crate::number::{
    big_endian, decimal, decimal_text, push_u64_be, signed_decimal, signed_decimal_text,
};
use crate::split::{components, path_components, Component, ComponentView};
use crate::text::{cat2, cat3, cat5, char_vec, same};

use super::model::{TmuxPaneMetadataMismatch, TmuxPaneMetadataMismatchView};

verus! {

broadcast use vstd::string::group_string_axioms;

/// The name of the file that a path leads to.
pub open spec fn file_name(path: Seq<char>) -> Option<Seq<char>> {
    let parts = path_components(path);
    if parts.len() == 0 {
        None
    } else {
        match parts.last() {
            ComponentView::Normal(name) => Some(name),
            _ => None,
        }
    }
}

pub fn path_file_name(path: &str) -> (r: Option<String>)
    ensures
        r.deep_view() == file_name(path@),
{
    let parts = components(path);
    let ghost model = path_components(path@);
    if parts.len() == 0 {
        return None;
    }
    assert(model.last() == parts@[parts.len() - 1].deep_view());
    match &parts[parts.len() - 1] {
        Component::Normal(name) => Some(name.clone()),
        _ => None,
    }
}

/// Whether a program is tmux, wherever it lies.
pub open spec fn names_tmux(program: Seq<char>) -> bool {
    file_name(program) == Some("tmux"@)
}

pub fn is_tmux_program(value: &str) -> (r: bool)
    ensures
        r == names_tmux(value@),
{
    match path_file_name(value) {
        Some(name) => same(name.as_str(), "tmux"),
        None => false,
    }
}

/// What a command does: the word behind tmux, or the name of another program.
pub open spec fn operation_word(argv: Seq<Seq<char>>) -> Option<Seq<char>> {
    if argv.len() == 0 {
        None
    } else if names_tmux(argv[0]) {
        if argv.len() > 1 {
            Some(argv[1])
        } else {
            None
        }
    } else {
        file_name(argv[0])
    }
}

/// Whether an operation may be named in a diagnostic.
pub open spec fn is_known_operation(word: Seq<char>) -> bool {
    ||| word == "capture-pane"@
    ||| word == "current-exe"@
    ||| word == "display-message"@
    ||| word == "has-session"@
    ||| word == "kill-pane"@
    ||| word == "kill-session"@
    ||| word == "kill-window"@
    ||| word == "list-panes"@
    ||| word == "new-session"@
    ||| word == "new-window"@
    ||| word == "pipe-pane"@
    ||| word == "pipe-sink"@
    ||| word == "paste-buffer"@
    ||| word == "send-keys"@
    ||| word == "set-buffer"@
    ||| word == "split-window"@
}

/// The name of the operation of a command, where it may be named.
pub open spec fn operation_of(argv: Seq<Seq<char>>) -> Seq<char> {
    match operation_word(argv) {
        Some(word) => if is_known_operation(word) {
            word
        } else {
            "command"@
        },
        None => "command"@,
    }
}

fn known_operation(word: &str) -> (r: bool)
    ensures
        r == is_known_operation(word@),
{
    same(word, "capture-pane")
        || same(word, "current-exe")
        || same(word, "display-message")
        || same(word, "has-session")
        || same(word, "kill-pane")
        || same(word, "kill-session")
        || same(word, "kill-window")
        || same(word, "list-panes")
        || same(word, "new-session")
        || same(word, "new-window")
        || same(word, "pipe-pane")
        || same(word, "pipe-sink")
        || same(word, "paste-buffer")
        || same(word, "send-keys")
        || same(word, "set-buffer")
        || same(word, "split-window")
}

pub fn restricted_operation(argv: &[String]) -> (r: String)
    ensures
        r@ == operation_of(argv.deep_view()),
{
    let ghost model = argv.deep_view();
    if argv.len() == 0 {
        return "command".to_string();
    }
    assert(model[0] == argv@[0]@);
    let word = if is_tmux_program(argv[0].as_str()) {
        if argv.len() > 1 {
            assert(model[1] == argv@[1]@);
            Some(argv[1].clone())
        } else {
            None
        }
    } else {
        path_file_name(argv[0].as_str())
    };
    match word {
        Some(word) => if known_operation(word.as_str()) {
            word
        } else {
            "command".to_string()
        },
        None => "command".to_string(),
    }
}

/// The hash of a command: of the number of its arguments and of each one, framed.
pub open spec fn arguments_hash(argv: Seq<Seq<char>>) -> Seq<char> {
    "sha256:"@ + sha256_hex(big_endian(argv.len(), 8) + framed_all(argv))
}

fn hash_arguments(argv: &[String]) -> (r: String)
    ensures
        r@ == arguments_hash(argv.deep_view()),
{
    let ghost model = argv.deep_view();
    let mut bytes: Vec<u8> = Vec::new();
    push_u64_be(argv.len() as u64, &mut bytes);
    let ghost head = big_endian(model.len(), 8);
    let mut i: usize = 0;
    assert(bytes@ =~= head + framed_all(model.take(0)));
    while i < argv.len()
        invariant
            i <= argv.len(),
            model == argv.deep_view(),
            bytes@ == head + framed_all(model.take(i as int)),
        decreases argv.len() - i,
    {
        assert(model.take(i + 1).drop_last() =~= model.take(i as int));
        assert(model.take(i + 1).last() == argv@[i as int]@);
        push_framed(argv[i].as_str(), &mut bytes);
        i += 1;
        assert(bytes@ =~= head + framed_all(model.take(i as int)));
    }
    assert(model.take(i as int) =~= model);
    cat2("sha256:", sha256_hex_text(bytes.as_slice()).as_str())
}

/// The hash of a text, framed by its length.
pub open spec fn text_hash(text: Seq<char>) -> Seq<char> {
    "sha256:"@ + sha256_hex(framed(text))
}

fn hash_text(value: &str) -> (r: String)
    ensures
        r@ == text_hash(value@),
{
    let mut bytes: Vec<u8> = Vec::new();
    push_framed(value, &mut bytes);
    assert(bytes@ =~= framed(value@));
    cat2("sha256:", sha256_hex_text(bytes.as_slice()).as_str())
}

/// The bytes of all arguments of a command, counted modulo 2^64.
pub open spec fn arguments_length(argv: Seq<Seq<char>>) -> u64
    decreases argv.len(),
{
    if argv.len() == 0 {
        0
    } else {
        arguments_length(argv.drop_last()).wrapping_add(encode_utf8(argv.last()).len() as u64)
    }
}

fn length_of_arguments(argv: &[String]) -> (r: u64)
    ensures
        r == arguments_length(argv.deep_view()),
{
    let ghost model = argv.deep_view();
    let mut total: u64 = 0;
    let mut i: usize = 0;
    assert(model.take(0) =~= Seq::empty());
    while i < argv.len()
        invariant
            i <= argv.len(),
            model == argv.deep_view(),
            total == arguments_length(model.take(i as int)),
        decreases argv.len() - i,
    {
        assert(model.take(i + 1).drop_last() =~= model.take(i as int));
        assert(model.take(i + 1).last() == argv@[i as int]@);
        total = total.wrapping_add(argv[i].as_str().as_bytes().len() as u64);
        i += 1;
    }
    assert(model.take(i as int) =~= model);
    total
}

/// A failed command without what it said.
#[derive(Debug, PartialEq, Eq)]
pub struct TmuxCommandDiagnostic {
    pub operation: String,
    pub command_hash: String,
    pub command_length: u64,
    pub detail_hash: String,
    pub detail_length: u64,
}

#[verifier::ext_equal]
pub struct TmuxCommandDiagnosticView {
    pub operation: Seq<char>,
    pub command_hash: Seq<char>,
    pub command_length: u64,
    pub detail_hash: Seq<char>,
    pub detail_length: u64,
}

impl DeepView for TmuxCommandDiagnostic {
    type V = TmuxCommandDiagnosticView;

    open spec fn deep_view(&self) -> TmuxCommandDiagnosticView {
        TmuxCommandDiagnosticView {
            operation: self.operation.deep_view(),
            command_hash: self.command_hash.deep_view(),
            command_length: self.command_length,
            detail_hash: self.detail_hash.deep_view(),
            detail_length: self.detail_length,
        }
    }
}

impl Clone for TmuxCommandDiagnostic {
    fn clone(&self) -> (r: Self)
        ensures
            r.deep_view() == self.deep_view(),
    {
        let r = TmuxCommandDiagnostic {
            operation: self.operation.clone(),
            command_hash: self.command_hash.clone(),
            command_length: self.command_length,
            detail_hash: self.detail_hash.clone(),
            detail_length: self.detail_length,
        };
        r
    }
}

impl TmuxCommandDiagnosticView {
    /// The diagnostic of a command with the given name.
    pub open spec fn named(
        operation: Seq<char>,
        argv: Seq<Seq<char>>,
        detail: Seq<char>,
    ) -> TmuxCommandDiagnosticView {
        TmuxCommandDiagnosticView {
            operation,
            command_hash: arguments_hash(argv),
            command_length: arguments_length(argv),
            detail_hash: text_hash(detail),
            detail_length: encode_utf8(detail).len() as u64,
        }
    }

    /// How the diagnostic is written.
    pub open spec fn text(self) -> Seq<char> {
        "operation="@ + self.operation + " command_hash="@ + self.command_hash
            + " command_length="@ + decimal(self.command_length as nat) + " detail_hash="@
            + self.detail_hash + " detail_length="@ + decimal(self.detail_length as nat)
    }
}

impl TmuxCommandDiagnostic {
    fn for_operation(operation: &str, argv: &[String], detail: &str) -> (r: Self)
        ensures
            r.deep_view() == TmuxCommandDiagnosticView::named(
                operation@,
                argv.deep_view(),
                detail@,
            ),
    {
        TmuxCommandDiagnostic {
            operation: operation.to_string(),
            command_hash: hash_arguments(argv),
            command_length: length_of_arguments(argv),
            detail_hash: hash_text(detail),
            detail_length: detail.as_bytes().len() as u64,
        }
    }

    fn new(argv: &[String], detail: &str) -> (r: Self)
        ensures
            r.deep_view() == TmuxCommandDiagnosticView::named(
                operation_of(argv.deep_view()),
                argv.deep_view(),
                detail@,
            ),
    {
        let operation = restricted_operation(argv);
        TmuxCommandDiagnostic::for_operation(operation.as_str(), argv, detail)
    }

    pub fn to_text(&self) -> (r: String)
        ensures
            r@ == self.deep_view().text(),
    {
        let mut out = cat5(
            "operation=",
            self.operation.as_str(),
            " command_hash=",
            self.command_hash.as_str(),
            " command_length=",
        );
        out.push_str(decimal_text(self.command_length).as_str());
        out.push_str(" detail_hash=");
        out.push_str(self.detail_hash.as_str());
        out.push_str(" detail_length=");
        out.push_str(decimal_text(self.detail_length).as_str());
        out
    }
}

/// What can go wrong with tmux.
#[derive(Debug, PartialEq, Eq)]
pub enum TmuxError {
    EmptyArgv,
    MissingSession { target: &'static str },
    InvalidSessionName { reason: &'static str },
    InvalidOperationId,
    ReservedSession { session_id: String },
    EmptyOutput { field: &'static str },
    Io { diagnostic: TmuxCommandDiagnostic },
    InputLedger { diagnostic: TmuxCommandDiagnostic },
    AgentReadinessTimeout { timeout_ms: u64 },
    PaneMetadataMismatch(Box<TmuxPaneMetadataMismatch>),
    CommandFailed { diagnostic: TmuxCommandDiagnostic, status: i32 },
}

#[verifier::ext_equal]
pub enum TmuxErrorView {
    EmptyArgv,
    MissingSession { target: Seq<char> },
    InvalidSessionName { reason: Seq<char> },
    InvalidOperationId,
    ReservedSession { session_id: Seq<char> },
    EmptyOutput { field: Seq<char> },
    Io { diagnostic: TmuxCommandDiagnosticView },
    InputLedger { diagnostic: TmuxCommandDiagnosticView },
    AgentReadinessTimeout { timeout_ms: u64 },
    PaneMetadataMismatch(TmuxPaneMetadataMismatchView),
    CommandFailed { diagnostic: TmuxCommandDiagnosticView, status: i32 },
}

impl DeepView for TmuxError {
    type V = TmuxErrorView;

    open spec fn deep_view(&self) -> TmuxErrorView {
        match self {
            TmuxError::EmptyArgv => TmuxErrorView::EmptyArgv,
            TmuxError::MissingSession { target } => TmuxErrorView::MissingSession {
                target: target@,
            },
            TmuxError::InvalidSessionName { reason } => TmuxErrorView::InvalidSessionName {
                reason: reason@,
            },
            TmuxError::InvalidOperationId => TmuxErrorView::InvalidOperationId,
            TmuxError::ReservedSession { session_id } => TmuxErrorView::ReservedSession {
                session_id: session_id@,
            },
            TmuxError::EmptyOutput { field } => TmuxErrorView::EmptyOutput { field: field@ },
            TmuxError::Io { diagnostic } => TmuxErrorView::Io {
                diagnostic: diagnostic.deep_view(),
            },
            TmuxError::InputLedger { diagnostic } => TmuxErrorView::InputLedger {
                diagnostic: diagnostic.deep_view(),
            },
            TmuxError::AgentReadinessTimeout { timeout_ms } =>
                TmuxErrorView::AgentReadinessTimeout { timeout_ms: *timeout_ms },
            TmuxError::PaneMetadataMismatch(mismatch) => TmuxErrorView::PaneMetadataMismatch(
                mismatch.deep_view(),
            ),
            TmuxError::CommandFailed { diagnostic, status } => TmuxErrorView::CommandFailed {
                diagnostic: diagnostic.deep_view(),
                status: *status,
            },
        }
    }
}

impl Clone for TmuxError {
    fn clone(&self) -> (r: Self)
        ensures
            r.deep_view() == self.deep_view(),
    {
        match self {
            TmuxError::EmptyArgv => TmuxError::EmptyArgv,
            TmuxError::MissingSession { target } => TmuxError::MissingSession { target },
            TmuxError::InvalidSessionName { reason } => TmuxError::InvalidSessionName { reason },
            TmuxError::InvalidOperationId => TmuxError::InvalidOperationId,
            TmuxError::ReservedSession { session_id } => TmuxError::ReservedSession {
                session_id: session_id.clone(),
            },
            TmuxError::EmptyOutput { field } => TmuxError::EmptyOutput { field },
            TmuxError::Io { diagnostic } => TmuxError::Io { diagnostic: diagnostic.clone() },
            TmuxError::InputLedger { diagnostic } => TmuxError::InputLedger {
                diagnostic: diagnostic.clone(),
            },
            TmuxError::AgentReadinessTimeout { timeout_ms } => TmuxError::AgentReadinessTimeout {
                timeout_ms: *timeout_ms,
            },
            TmuxError::PaneMetadataMismatch(mismatch) => TmuxError::PaneMetadataMismatch(
                Box::new((**mismatch).clone()),
            ),
            TmuxError::CommandFailed { diagnostic, status } => TmuxError::CommandFailed {
                diagnostic: diagnostic.clone(),
                status: *status,
            },
        }
    }
}

impl TmuxErrorView {
    /// A command that could not be run.
    pub open spec fn io(argv: Seq<Seq<char>>, detail: Seq<char>) -> TmuxErrorView {
        TmuxErrorView::Io {
            diagnostic: TmuxCommandDiagnosticView::named(operation_of(argv), argv, detail),
        }
    }

    /// A command that ran and failed.
    pub open spec fn command_failed(
        argv: Seq<Seq<char>>,
        status: i32,
        detail: Seq<char>,
    ) -> TmuxErrorView {
        TmuxErrorView::CommandFailed {
            diagnostic: TmuxCommandDiagnosticView::named(operation_of(argv), argv, detail),
            status,
        }
    }

    /// A ledger that could not be written.
    pub open spec fn input_ledger(detail: Seq<char>) -> TmuxErrorView {
        TmuxErrorView::InputLedger {
            diagnostic: TmuxCommandDiagnosticView::named(
                "input-ledger"@,
                Seq::empty(),
                detail,
            ),
        }
    }

    /// How the error is written.
    pub open spec fn text(self) -> Seq<char> {
        match self {
            TmuxErrorView::EmptyArgv => "empty command argv"@,
            TmuxErrorView::MissingSession { target } => "tmux "@ + target
                + " requires session ownership"@,
            TmuxErrorView::InvalidSessionName { reason } => reason,
            TmuxErrorView::InvalidOperationId =>
                "tmux operation id must contain only ASCII letters, digits, '-' or '_'"@,
            TmuxErrorView::ReservedSession { session_id } => "tmux session named "@ + session_id
                + " is reserved"@,
            TmuxErrorView::EmptyOutput { field } => "tmux did not return "@ + field,
            TmuxErrorView::AgentReadinessTimeout { timeout_ms } =>
                "tmux pane did not reach configured readiness within "@ + decimal(
                timeout_ms as nat,
            ) + " ms"@,
            TmuxErrorView::Io { diagnostic } => "tmux I/O failure ("@ + diagnostic.text() + ")"@,
            TmuxErrorView::InputLedger { diagnostic } => "tmux input ledger failure ("@
                + diagnostic.text() + ")"@,
            TmuxErrorView::PaneMetadataMismatch(mismatch) =>
                "tmux pane metadata mismatch: expected "@ + mismatch.expected.session_id + ":"@
                + mismatch.expected.window_id + "("@ + mismatch.expected.window_name + ")."@
                + mismatch.expected.pane_id + ", got "@ + mismatch.actual.session_id + ":"@
                + mismatch.actual.window_id + "("@ + mismatch.actual.window_name + ")."@
                + mismatch.actual.pane_id,
            TmuxErrorView::CommandFailed { diagnostic, status } =>
                "tmux command failed with status "@ + signed_decimal(status as int) + " ("@
                + diagnostic.text() + ")"@,
        }
    }
}

impl TmuxError {
    pub fn io(argv: &[String], detail: &str) -> (r: Self)
        ensures
            r.deep_view() == TmuxErrorView::io(argv.deep_view(), detail@),
    {
        TmuxError::Io { diagnostic: TmuxCommandDiagnostic::new(argv, detail) }
    }

    pub fn command_failed(argv: &[String], status: i32, detail: &str) -> (r: Self)
        ensures
            r.deep_view() == TmuxErrorView::command_failed(argv.deep_view(), status, detail@),
    {
        TmuxError::CommandFailed { diagnostic: TmuxCommandDiagnostic::new(argv, detail), status }
    }

    pub fn input_ledger(detail: &str) -> (r: Self)
        ensures
            r.deep_view() == TmuxErrorView::input_ledger(detail@),
    {
        let none: Vec<String> = Vec::new();
        let listed = none.as_slice();
        assert(listed.deep_view() =~= Seq::empty());
        TmuxError::InputLedger {
            diagnostic: TmuxCommandDiagnostic::for_operation("input-ledger", listed, detail),
        }
    }

    pub fn to_text(&self) -> (r: String)
        ensures
            r@ == self.deep_view().text(),
    {
        match self {
            TmuxError::EmptyArgv => "empty command argv".to_string(),
            TmuxError::MissingSession { target } => cat3(
                "tmux ",
                target,
                " requires session ownership",
            ),
            TmuxError::InvalidSessionName { reason } => (*reason).to_string(),
            TmuxError::InvalidOperationId =>
                "tmux operation id must contain only ASCII letters, digits, '-' or '_'".to_string(),
            TmuxError::ReservedSession { session_id } => cat3(
                "tmux session named ",
                session_id.as_str(),
                " is reserved",
            ),
            TmuxError::EmptyOutput { field } => cat2("tmux did not return ", field),
            TmuxError::AgentReadinessTimeout { timeout_ms } => cat3(
                "tmux pane did not reach configured readiness within ",
                decimal_text(*timeout_ms).as_str(),
                " ms",
            ),
            TmuxError::Io { diagnostic } => cat3(
                "tmux I/O failure (",
                diagnostic.to_text().as_str(),
                ")",
            ),
            TmuxError::InputLedger { diagnostic } => cat3(
                "tmux input ledger failure (",
                diagnostic.to_text().as_str(),
                ")",
            ),
            TmuxError::PaneMetadataMismatch(mismatch) => {
                let mut out = cat5(
                    "tmux pane metadata mismatch: expected ",
                    mismatch.expected.session_id.as_str(),
                    ":",
                    mismatch.expected.window_id.as_str(),
                    "(",
                );
                out.push_str(mismatch.expected.window_name.as_str());
                out.push_str(").");
                out.push_str(mismatch.expected.pane_id.as_str());
                out.push_str(", got ");
                out.push_str(mismatch.actual.session_id.as_str());
                out.push_str(":");
                out.push_str(mismatch.actual.window_id.as_str());
                out.push_str("(");
                out.push_str(mismatch.actual.window_name.as_str());
                out.push_str(").");
                out.push_str(mismatch.actual.pane_id.as_str());
                out
            },
            TmuxError::CommandFailed { diagnostic, status } => cat5(
                "tmux command failed with status ",
                signed_decimal_text(*status as i64).as_str(),
                " (",
                diagnostic.to_text().as_str(),
                ")",
            ),
        }
    }
}

/// Why a session name is refused.
pub open spec fn session_fault(session_id: Seq<char>) -> Option<TmuxErrorView> {
    if session_id.len() == 0 {
        Some(
            TmuxErrorView::InvalidSessionName { reason: "tmux session name must not be empty"@ },
        )
    } else if session_id.contains(':') || session_id.contains('.') {
        Some(
            TmuxErrorView::InvalidSessionName {
                reason: "tmux session name must not contain tmux target delimiters ':' or '.'"@,
            },
        )
    } else if session_id == "dev"@ {
        Some(TmuxErrorView::ReservedSession { session_id })
    } else {
        None
    }
}

/// Why something that lives in a session is refused.
pub open spec fn owned_fault(target: Seq<char>, session_id: Seq<char>) -> Option<TmuxErrorView> {
    if session_id.len() == 0 {
        Some(TmuxErrorView::MissingSession { target })
    } else {
        session_fault(session_id)
    }
}

pub fn contains_char(s: &str, wanted: char) -> (r: bool)
    ensures
        r == s@.contains(wanted),
{
    let chars = char_vec(s);
    let mut i: usize = 0;
    while i < chars.len()
        invariant
            i <= chars.len(),
            chars@ == s@,
            forall|j: int| 0 <= j < i ==> s@[j] != wanted,
        decreases chars.len() - i,
    {
        if chars[i] == wanted {
            assert(s@[i as int] == wanted);
            return true;
        }
        i += 1;
    }
    false
}

pub fn validate_session_id(session_id: &str) -> (r: Result<(), TmuxError>)
    ensures
        match r {
            Ok(_) => session_fault(session_id@) is None,
            Err(error) => session_fault(session_id@) == Some(error.deep_view()),
        },
{
    if session_id.is_empty() {
        return Err(
            TmuxError::InvalidSessionName { reason: "tmux session name must not be empty" },
        );
    }
    if contains_char(session_id, ':') || contains_char(session_id, '.') {
        return Err(
            TmuxError::InvalidSessionName {
                reason: "tmux session name must not contain tmux target delimiters ':' or '.'",
            },
        );
    }
    if same(session_id, "dev") {
        return Err(TmuxError::ReservedSession { session_id: session_id.to_string() });
    }
    Ok(())
}

pub fn validate_owned_session_id(target: &'static str, session_id: &str) -> (r: Result<
    (),
    TmuxError,
>)
    ensures
        match r {
            Ok(_) => owned_fault(target@, session_id@) is None,
            Err(error) => owned_fault(target@, session_id@) == Some(error.deep_view()),
        },
{
    if session_id.is_empty() {
        return Err(TmuxError::MissingSession { target });
    }
    validate_session_id(session_id)
}

} // verus!
