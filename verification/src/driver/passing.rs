//! When requests, names, files and records pass, in terms of what they hold.
use vstd::prelude::*;
use vstd::utf8::encode_utf8;

use crate::json::{field, flag_field, json_parse, text_field, JsonView};
use crate::text::{is_blank, trimmed};

use super::client::privacy_fault;
use super::failure::FailureView;
use super::lifecycle::capture_begun;
use super::loading::{LoadedView, RevisionFaultView};
use super::message::{
    asked_id, has_namespace, hook_name_fault, id_fault, is_hook_char, HOOK_ID_MAX_BYTES,
};
use super::operation::{typed, ConsoleCommand, Control};
use super::protocol::DriverWire;
use super::read_model::{latest_fault, preview_fault};
use super::records::{StoredPaneView, TmuxPipeCaptureIntentView};
use super::recovery::{recovered, use_fault, RecoveryStateView};
use super::request::{acknowledges, ends_after, Dispatch};
use super::revision::{review_fault, FlowReviewView, StoredRevisionView};
use super::storage::{is_control, is_run_id};
use super::wire::payload_value;

verus! {

/// Asking for the context, the status, the reason, a verdict on stopping, a preview of routes or
/// a view changes nothing; every other request for a tool and every word of a participant may.
pub proof fn lemma_readers_change_nothing(wire: DriverWire)
    ensures
        Dispatch::Tool(wire).mutates() <==> {
            &&& wire != DriverWire::Context
            &&& wire != DriverWire::Status
            &&& wire != DriverWire::Why
            &&& wire != DriverWire::ValidateStop
            &&& wire != DriverWire::PreviewFlowRoutes
            &&& wire != DriverWire::ViewTerminal
            &&& wire != DriverWire::ViewSnapshot
        },
        Dispatch::ParticipantBind.mutates(),
        Dispatch::ParticipantStop.mutates(),
        Dispatch::ParticipantExited.mutates(),
        !Dispatch::WrongRun.mutates(),
        !Dispatch::Shutdown.mutates(),
        !Dispatch::Unknown.mutates(),
{
}

/// A line acknowledges an answer exactly when it is a record that says so.
pub proof fn lemma_acknowledgement_is_explicit(line: Seq<char>)
    ensures
        acknowledges(line) <==> (json_parse(line) is Ok && text_field(json_parse(line)->Ok_0, "ack"@)
            == Some("response_received"@)),
{
}

/// A pane is taken down behind an answer only when the answer was written, tells of an exit that
/// was taken in, and either reached its reader or repeats an answer that was given before.
pub proof fn lemma_panes_end_behind_their_answer(response: JsonView, written: bool, heard: bool)
    ensures
        ends_after(response, written, heard) <==> {
            &&& written
            &&& flag_field(response, "ok"@) == Some(true)
            &&& flag_field(response, "participant_exited"@) == Some(true)
            &&& heard || flag_field(response, "idempotent"@) == Some(true)
        },
        !ends_after(response, false, heard),
{
}

/// A file is private exactly when the current user owns it and its permission bits are those
/// that are asked for; what a mode says beyond its permission bits plays no part.
pub proof fn lemma_private_files_have_their_mode(
    owned: bool,
    kind: u32,
    mode: u32,
    expected: u32,
    label: Seq<char>,
)
    requires
        mode < 512,
        kind < 128,
    ensures
        privacy_fault(owned, (512 * kind + mode) as u32, expected, label) is None <==> (owned && mode
            == expected),
        privacy_fault(owned, (512 * kind + mode) as u32, expected, label) is Some ==> privacy_fault(
            owned,
            (512 * kind + mode) as u32,
            expected,
            label,
        )->0.take(label.len() as int) == label,
{
    assert((512 * kind + mode) % 512 == mode) by (nonlinear_arith)
        requires
            mode < 512,
    ;
    match privacy_fault(owned, (512 * kind + mode) as u32, expected, label) {
        Some(message) => {
            assert(message.take(label.len() as int) =~= label);
        },
        None => {},
    }
}

/// An id passes exactly when it is not blank and takes no more bytes than it may.
pub proof fn lemma_ids_are_bounded(label: Seq<char>, value: Seq<char>, max_bytes: usize)
    ensures
        id_fault(label, value, max_bytes) is None <==> (!is_blank(value) && encode_utf8(value).len()
            <= max_bytes),
        id_fault(label, value, max_bytes) is Some ==> id_fault(label, value, max_bytes)->0.code
            == "malformed_request"@,
{
}

/// The id that a request gives under a key is the text that stands there, when it passes; a
/// request without the key gives none.
pub proof fn lemma_asked_ids_stand_in_the_request(
    request: JsonView,
    key: Seq<char>,
    max_bytes: usize,
    id: Seq<char>,
)
    ensures
        asked_id(request, key, max_bytes) == Ok::<Option<Seq<char>>, FailureView>(Some(id)) <==> (
        field(request, key) == Some(JsonView::Text(id)) && !is_blank(id) && encode_utf8(id).len()
            <= max_bytes),
        asked_id(request, key, max_bytes) == Ok::<Option<Seq<char>>, FailureView>(None) <==> field(
            request,
            key,
        ) is None,
{
}

/// A hook may be named exactly when it is one of the two that are documented or lies in a
/// namespace, and is short enough.
pub proof fn lemma_hook_names_are_known_or_spaced(hook: Seq<char>)
    ensures
        hook_name_fault(hook) is None <==> {
            &&& !is_blank(hook)
            &&& encode_utf8(hook).len() <= HOOK_ID_MAX_BYTES
            &&& hook == "compaction_pending"@ || hook == "compaction_finished"@ || has_namespace(
                hook,
            )
        },
{
}

/// A namespace and a name, both of letters, digits, underscores and hyphens, with a dot between
/// them make a hook of that namespace; a text without a dot, or with a character of another kind,
/// makes none.
pub proof fn lemma_namespaces_stand_before_a_dot(space: Seq<char>, name: Seq<char>)
    requires
        space.len() > 0,
        name.len() > 0,
        forall|i: int| 0 <= i < space.len() ==> is_name_char(#[trigger] space[i]),
        forall|i: int| 0 <= i < name.len() ==> is_name_char(#[trigger] name[i]),
    ensures
        has_namespace(space + seq!['.'] + name),
        !has_namespace(space),
        !has_namespace(space + seq!['.']),
        !has_namespace(seq!['.'] + name),
        !has_namespace(space + seq!['.', ' '] + name),
        !has_namespace(space + seq!['.', '/'] + name),
{
    let whole = space + seq!['.'] + name;
    let at = space.len() as int;
    assert(whole[at] == '.');
    assert forall|j: int| 0 <= j < at implies whole[j] != '.' by {
        assert(whole[j] == space[j]);
    }
    assert forall|i: int| 0 <= i < whole.len() implies is_hook_char(
        #[trigger] whole[i],
    ) by {
        if i < at {
            assert(whole[i] == space[i]);
        } else if i > at {
            assert(whole[i] == name[i - at - 1]);
        }
    }
    let open = space + seq!['.'];
    if has_namespace(open) {
        let i = choose|i: int|
            0 < i < open.len() - 1 && #[trigger] open[i] == '.' && forall|j: int|
                0 <= j < i ==> open[j] != '.';
        assert(open[i] == space[i]);
    }
    if has_namespace(space) {
        let i = choose|i: int|
            0 < i < space.len() - 1 && #[trigger] space[i] == '.' && forall|j: int|
                0 <= j < i ==> space[j] != '.';
        assert(is_name_char(space[i]));
    }
    let bare = seq!['.'] + name;
    assert(bare[0] == '.');
    let spaced = space + seq!['.', ' '] + name;
    assert(spaced[at + 1] == ' ');
    let slashed = space + seq!['.', '/'] + name;
    assert(slashed[at + 1] == '/');
}

/// A letter, a digit, an underscore or a hyphen.
pub open spec fn is_name_char(c: char) -> bool {
    ('a' <= c <= 'z') || ('A' <= c <= 'Z') || ('0' <= c <= '9') || c == '_' || c == '-'
}

/// The flow that was applied last can be taken again exactly when it is named, its record and its
/// package are both at hand, and they agree on what it holds.
pub proof fn lemma_latest_lock_is_whole(
    named: bool,
    applied: Option<Seq<char>>,
    held: Option<Seq<char>>,
)
    ensures
        latest_fault(named, applied, held) is None <==> (named && applied is Some && held
            == applied),
        !named ==> latest_fault(named, applied, held)->0.code == "flow_lock_required"@,
        named && (applied is None || held is None) ==> latest_fault(named, applied, held)->0.code
            == "flow_lock_not_found"@,
        named && applied is Some && held is Some && held != applied ==> latest_fault(
            named,
            applied,
            held,
        )->0.code == "flow_lock_hash_mismatch"@,
{
}

/// A preview is of the package that is asked for: each of the id and the hash that the request
/// names is that of the package.
pub proof fn lemma_previews_are_of_what_is_named(
    request: JsonView,
    lock_id: Seq<char>,
    content_hash: Seq<char>,
)
    ensures
        preview_fault(request, lock_id, content_hash) is None <==> {
            &&& text_field(request, "flow_lock_id"@) is Some ==> text_field(
                request,
                "flow_lock_id"@,
            ) == Some(lock_id)
            &&& text_field(request, "content_hash"@) is Some ==> text_field(
                request,
                "content_hash"@,
            ) == Some(content_hash)
        },
{
}

/// A package may be used exactly when its review could be read and stands for its lock.
pub proof fn lemma_packages_are_used_on_review(
    package: StoredRevisionView,
    loaded: Result<FlowReviewView, Seq<char>>,
)
    ensures
        use_fault(package, loaded) is None <==> (loaded is Ok && review_fault(
            loaded->Ok_0,
            package.flow_lock,
        ) is None),
        loaded is Err ==> use_fault(package, loaded)->0.code == "review_invalid"@,
{
}

/// A capture that was begun is taken up exactly for the pane that it was begun for.
pub proof fn lemma_captures_stay_with_their_pane(
    pending: Map<Seq<char>, TmuxPipeCaptureIntentView>,
    id: Seq<char>,
    pane: StoredPaneView,
    begun: TmuxPipeCaptureIntentView,
)
    ensures
        capture_begun(pending, id, pane) == Ok::<
            Option<TmuxPipeCaptureIntentView>,
            FailureView,
        >(Some(begun)) <==> {
            &&& pending.dom().contains(id)
            &&& pending[id] == begun
            &&& begun.pane == pane
            &&& begun.allocation_generation == pane.allocation_generation
        },
        capture_begun(pending, id, pane) == Ok::<
            Option<TmuxPipeCaptureIntentView>,
            FailureView,
        >(None) <==> !pending.dom().contains(id),
{
}

/// A run is recovered exactly when its lock is named, its hash and its package are at hand, the
/// package has that hash and the events can be replayed; what lacks a part is nothing to recover.
pub proof fn lemma_runs_recover_from_their_lock(
    named: bool,
    content_hash: Option<Seq<char>>,
    package: Option<StoredRevisionView>,
    replay: Result<LoadedView, RevisionFaultView>,
)
    ensures
        recovered(named, content_hash, package, replay) == Ok::<
            Option<RecoveryStateView>,
            Seq<char>,
        >(None) <==> (!named || content_hash is None || package is None),
        recovered(named, content_hash, package, replay) is Err <==> {
            &&& named && content_hash is Some && package is Some
            &&& package->0.flow_lock.content_hash != content_hash->0 || replay is Err
        },
        match recovered(named, content_hash, package, replay) {
            Ok(Some(found)) => match replay->Ok_0.state.tmux {
                Some(tmux) => found.tmux is Some && found.tmux->0.session_id == tmux.session_id
                    && found.tmux->0.window_name == tmux.window_name,
                None => found.tmux is None,
            },
            _ => true,
        },
{
}

/// A run is named by a text with no control character and no separator in it.
pub proof fn lemma_run_ids_hold_no_separator(before: Seq<char>, after: Seq<char>)
    ensures
        !is_run_id(before + seq!['/'] + after),
        !is_run_id(before + seq!['\\'] + after),
        !is_run_id(before + seq!['\n'] + after),
        !is_run_id(Seq::empty()),
        is_run_id(before) && is_run_id(after) ==> is_run_id(before + after),
{
    let at = before.len() as int;
    assert((before + seq!['/'] + after)[at] == '/');
    assert((before + seq!['\\'] + after)[at] == '\\');
    assert((before + seq!['\n'] + after)[at] == '\n');
    let both = before + after;
    if is_run_id(before) && is_run_id(after) {
        assert forall|i: int| 0 <= i < both.len() implies !is_control(
            #[trigger] both[i],
        ) && both[i] != '/' && both[i] != '\\' by {
            if i < at {
                assert(both[i] == before[i]);
            } else {
                assert(both[i] == after[i - at]);
            }
        }
    }
}

/// What is typed at the console is taken without the blanks round it, and each word asks for one
/// thing.
pub proof fn lemma_console_words_ask_for_one_thing(line: Seq<char>)
    ensures
        typed(line) is None <==> trimmed(line).len() == 0,
        typed(line) == Some(ConsoleCommand::Help) <==> trimmed(line) == "help"@,
        typed(line) == Some(ConsoleCommand::Detach) <==> trimmed(line) == "detach"@,
        typed(line) == Some(ConsoleCommand::Quit) <==> (trimmed(line) == "quit"@ || trimmed(line)
            == "shutdown"@),
        typed(line) == Some(ConsoleCommand::Status) <==> trimmed(line) == "status"@,
        typed(line) == Some(ConsoleCommand::Why) <==> trimmed(line) == "why"@,
        typed(line) == Some(ConsoleCommand::Control(Control::Pause)) <==> trimmed(line)
            == "pause"@,
        typed(line) == Some(ConsoleCommand::Control(Control::Resume)) <==> trimmed(line)
            == "resume"@,
        typed(line) == Some(ConsoleCommand::Control(Control::Complete)) <==> trimmed(line)
            == "complete"@,
        typed(line) == Some(ConsoleCommand::Control(Control::Stop)) <==> trimmed(line) == "stop"@,
        typed(line) == Some(ConsoleCommand::Activations) <==> trimmed(line) == "activations"@,
        typed(line) == Some(ConsoleCommand::Revisions) <==> trimmed(line) == "revisions"@,
{
    reveal_strlit("help");
    reveal_strlit("detach");
    reveal_strlit("quit");
    reveal_strlit("shutdown");
    reveal_strlit("status");
    reveal_strlit("why");
    reveal_strlit("pause");
    reveal_strlit("resume");
    reveal_strlit("complete");
    reveal_strlit("stop");
    reveal_strlit("activations");
    reveal_strlit("revisions");
    assert("status"@[2] == 'a');
    assert("resume"@[2] == 's');
    assert("detach"@[2] == 't');
    assert("help"@[0] == 'h');
    assert("stop"@[0] == 's');
    assert("quit"@[0] == 'q');
    assert("shutdown"@[1] == 'h');
    assert("complete"@[0] == 'c');
}

/// What a payload says is what it reads as; a payload that does not read is a text.
pub proof fn lemma_payloads_say_what_they_read_as(payload: Seq<char>, value: JsonView)
    ensures
        json_parse(payload) == Ok::<JsonView, Seq<char>>(value) ==> payload_value(payload) == value,
        json_parse(payload) is Err ==> payload_value(payload) == JsonView::Text(payload),
{
}

} // verus!
