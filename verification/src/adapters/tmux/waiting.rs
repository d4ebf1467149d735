//! How long is waited, what is said of failures and how panes are marked, by what was seen.
use vstd::prelude::*;
use vstd::utf8::encode_utf8;

use crate::adapters::lifecycle::{LifecycleCleanupAction, LifecycleStatus};
use crate::number::unsigned_value;
use crate::split::{lemma_piece_behind, lemma_whole_piece, pieces};
use crate::text::trimmed;

use super::config::InputConfigView;
use super::error::{file_name, TmuxErrorView};
use super::input::waits_for_text;
use super::model::{
    CommandOutputView, TmuxActivationMetadata, TmuxPaneView, TmuxSessionView, TmuxWindowView,
};
use super::pane_creation::{is_operation_char, is_operation_id, marked_shell, marker};
use super::pipe::{
    behind_last_bracket, redacted, start_time_in, waits_for_completion, waits_for_exit,
    waits_for_ready, PipeCaptureRequestView, PipeFile,
};
use super::record::{holds_text, window_and_pane, words};
use super::runner::{checked, started_program, Reply};

verus! {

broadcast use vstd::string::group_string_axioms;

/// A pane is waited for exactly as long as it does not show the text and the time is not up; no
/// pause is longer than what is left, nor than a tenth of a second.
pub proof fn lemma_text_is_waited_for(
    captured: Seq<char>,
    pattern: Seq<char>,
    elapsed: nat,
    timeout: nat,
)
    ensures
        ({
            let wait = waits_for_text(captured, pattern, elapsed, timeout);
            &&& wait is Found <==> holds_text(captured, pattern)
            &&& wait is TimedOut <==> (!holds_text(captured, pattern) && elapsed >= timeout)
            &&& wait is Sleep ==> {
                &&& 0 < wait->Sleep_0 <= 100_000_000
                &&& elapsed + wait->Sleep_0 <= timeout
                &&& wait->Sleep_0 < 100_000_000 ==> elapsed + wait->Sleep_0 == timeout
            }
        }),
{
}

/// A text is held wherever it stands; what is added round it does not hide it.
pub proof fn lemma_shown_texts_are_found(before: Seq<char>, wanted: Seq<char>, after: Seq<char>)
    ensures
        holds_text(before + wanted + after, wanted),
{
    let whole = before + wanted + after;
    let at = before.len() as int;
    assert(whole.subrange(at, at + wanted.len()) =~= wanted);
}

/// A sink is ready exactly when it said so; it has failed when what it said is wrong, or when it
/// has said nothing and it is late; else it is asked again.
pub proof fn lemma_sinks_are_waited_for(
    found: PipeFile,
    late: bool,
    request: PipeCaptureRequestView,
    argv: Seq<Seq<char>>,
)
    ensures
        waits_for_ready(found, late, request, argv) is Ready <==> found == PipeFile::Good,
        waits_for_ready(found, late, request, argv) is Failed <==> (found == PipeFile::Faulty || (
        found == PipeFile::Missing && late)),
        waits_for_ready(found, late, request, argv) is Again <==> (found == PipeFile::Missing
            && !late),
{
}

/// A capture is complete exactly when its sink said so; it has failed when what the sink said is
/// wrong, or when it said nothing and is late or no longer runs.
pub proof fn lemma_completion_is_waited_for(
    found: PipeFile,
    late: bool,
    helper: bool,
    runs: Option<bool>,
)
    ensures
        waits_for_completion(found, late, helper, runs) is Ready <==> found == PipeFile::Good,
        waits_for_completion(found, late, helper, runs) is Again <==> (found == PipeFile::Missing
            && !late && (!helper || runs == Some(true))),
{
}

/// A helper has ended when there is none or it is known not to run; one that still runs is waited
/// for until it is late, and one of which nothing is known has failed.
pub proof fn lemma_exits_are_waited_for(helper: bool, runs: Option<bool>, late: bool)
    ensures
        waits_for_exit(helper, runs, late) is Ready <==> (!helper || runs == Some(false)),
        waits_for_exit(helper, runs, late) is Again <==> (helper && runs == Some(true) && !late),
{
    if runs is Some {
        assert(runs == Some(true) || runs == Some(false));
    }
}

/// What is said of a failed sink does not depend on the command that failed nor on what it printed,
/// only on its exit status.
pub proof fn lemma_failures_of_sinks_say_nothing(
    a: TmuxErrorView,
    b: TmuxErrorView,
    argv: Seq<Seq<char>>,
)
    ensures
        a is Io && b is Io ==> redacted(a, argv) == redacted(b, argv),
        a is CommandFailed && b is CommandFailed && a->CommandFailed_status
            == b->CommandFailed_status ==> redacted(a, argv) == redacted(b, argv),
        a is CommandFailed ==> redacted(a, argv) is CommandFailed && redacted(
            a,
            argv,
        )->CommandFailed_status == a->CommandFailed_status,
        a is Io ==> redacted(a, argv) is Io,
        !(a is Io) && !(a is CommandFailed) ==> redacted(a, argv) == a,
{
}

/// A marked shell carries the mark of its operation, and no two operations share a mark.
pub proof fn lemma_shells_carry_their_mark(a: Seq<char>, b: Seq<char>)
    ensures
        holds_text(marked_shell(a), marker(a)),
        marker(a) == marker(b) ==> a == b,
        marked_shell(a) == marked_shell(b) ==> a == b,
{
    let opening = "exec env "@;
    let closing = " \"${SHELL:-/bin/sh}\""@;
    lemma_shown_texts_are_found(opening, marker(a), closing);
    let prefix = "HUMANIZE_TMUX_OPERATION_ID="@;
    assert(a =~= marker(a).skip(prefix.len() as int));
    assert(b =~= marker(b).skip(prefix.len() as int));
    if marked_shell(a) == marked_shell(b) {
        let m = opening.len() as int;
        assert(marked_shell(a).len() == marked_shell(b).len());
        assert(marker(a) =~= marked_shell(a).subrange(m, m + marker(a).len()));
        assert(marker(b) =~= marked_shell(b).subrange(m, m + marker(b).len()));
    }
}

/// An operation is named without blanks, quotes and signs of the shell.
pub proof fn lemma_operations_have_plain_names(before: Seq<char>, after: Seq<char>)
    ensures
        !is_operation_id(Seq::empty()),
        !is_operation_id(before + seq![' '] + after),
        !is_operation_id(before + seq!['\''] + after),
        !is_operation_id(before + seq!['$'] + after),
        !is_operation_id(before + seq![';'] + after),
        is_operation_id(before) && is_operation_id(after) ==> is_operation_id(before + after),
{
    let at = before.len() as int;
    assert((before + seq![' '] + after)[at] == ' ');
    assert((before + seq!['\''] + after)[at] == '\'');
    assert((before + seq!['$'] + after)[at] == '$');
    assert((before + seq![';'] + after)[at] == ';');
    if is_operation_id(before) && is_operation_id(after) {
        let both = before + after;
        assert forall|i: int| 0 <= i < both.len() implies is_operation_char(
            #[trigger] both[i],
        ) by {
            if i < at {
                assert(both[i] == before[i]);
            } else {
                assert(both[i] == after[i - at]);
            }
        }
    }
}

proof fn lemma_behind_the_last_bracket(head: Seq<char>, tail: Seq<char>)
    requires
        !tail.contains(')'),
    ensures
        behind_last_bracket(head.push(')') + tail) == Some(tail),
    decreases tail.len(),
{
    let whole = head.push(')') + tail;
    if tail.len() == 0 {
        assert(whole =~= head.push(')'));
        assert(whole.last() == ')');
        assert(tail =~= Seq::<char>::empty());
    } else {
        let front = tail.drop_last();
        assert(tail[tail.len() - 1] == tail.last());
        assert(!front.contains(')')) by {
            if front.contains(')') {
                let k = choose|k: int| 0 <= k < front.len() && front[k] == ')';
                assert(tail[k] == ')');
            }
        }
        lemma_behind_the_last_bracket(head, front);
        assert(whole.drop_last() =~= head.push(')') + front);
        assert(whole.last() == tail.last());
        assert(tail.contains(tail[tail.len() - 1]));
        assert(front.push(tail.last()) =~= tail);
    }
}

/// A process started when the twentieth word behind its name in brackets says; whatever the name
/// holds, brackets and blanks too, plays no part.
pub proof fn lemma_start_times_stand_behind_the_name(name: Seq<char>, rest: Seq<char>)
    requires
        !rest.contains(')'),
    ensures
        words(rest).len() <= 19 ==> start_time_in(name.push(')') + rest) is None,
        words(rest).len() > 19 ==> start_time_in(name.push(')') + rest) == unsigned_value(
            words(rest)[19],
        ),
{
    lemma_behind_the_last_bracket(name, rest);
}

/// A window and a pane that tmux prints with a bar between them are read back, in that order.
pub proof fn lemma_printed_windows_and_panes_are_read(
    output: CommandOutputView,
    window: Seq<char>,
    pane: Seq<char>,
)
    requires
        !window.contains('|'),
        !pane.contains('|'),
        trimmed(output.stdout) == window.push('|') + pane,
    ensures
        window_and_pane(output) == Ok::<(Seq<char>, Seq<char>), TmuxErrorView>((window, pane)),
{
    let printed = window.push('|') + pane;
    lemma_whole_piece(window, '|');
    lemma_piece_behind(window, pane, '|');
    assert(printed[window.len() as int] == '|');
    assert(printed.contains('|'));
    assert(pieces(printed, '|') =~= seq![window, pane]);
}

/// A command that ended well gives what it printed; one that did not gives its exit status.
pub proof fn lemma_commands_answer_by_their_status(argv: Seq<Seq<char>>, output: CommandOutputView)
    ensures
        output.status == 0 ==> checked(argv, Ok(output)) == Reply::Ok(output),
        output.status != 0 ==> checked(argv, Ok(output)) is Err && checked(
            argv,
            Ok(output),
        )->Err_0 is CommandFailed && checked(argv, Ok(output))->Err_0->CommandFailed_status
            == output.status,
{
}

/// The program that is started is the first word, but for tmux where another program stands for
/// it.
pub proof fn lemma_first_words_are_started(
    argv: Seq<Seq<char>>,
    binary: Seq<char>,
)
    requires
        argv.len() > 0,
    ensures
        started_program(argv, None) == Some(argv[0]),
        started_program(argv, Some(Seq::empty())) == Some(argv[0]),
        file_name(argv[0]) != Some("tmux"@) ==> started_program(argv, Some(binary)) == Some(argv[0]),
        file_name(argv[0]) == Some("tmux"@) && binary.len() > 0 ==> started_program(
            argv,
            Some(binary),
        ) == Some(binary),
        started_program(Seq::empty(), Some(binary)) is None,
{
}

/// What is known of an activation names its session, its window and its pane.
pub proof fn lemma_activations_are_described(
    session: TmuxSessionView,
    window: TmuxWindowView,
    pane: TmuxPaneView,
)
    ensures
        ({
            let known = TmuxActivationMetadata::describes(session, window, pane);
            &&& known.session_id == session.id
            &&& known.run_id == window.run_id
            &&& known.window_id == window.id
            &&& known.window_name == window.name
            &&& known.pane_id == pane.id
            &&& known.activation_id == pane.activation_id
        }),
{
}

/// Before it is submitted, input is given its time for each byte, at least the shortest delay and
/// at most the longest.
pub proof fn lemma_delay_counts_the_bytes(config: InputConfigView, text: Seq<char>)
    requires
        encode_utf8(text).len() <= u32::MAX,
        config.prompt_to_submit_delay <= config.max_prompt_to_submit_delay,
    ensures
        ({
            let asked = config.prompt_byte_delay * encode_utf8(text).len();
            &&& config.prompt_to_submit_delay <= asked <= config.max_prompt_to_submit_delay
                ==> config.delay_before_submit(text) == asked
            &&& asked < config.prompt_to_submit_delay ==> config.delay_before_submit(text)
                == config.prompt_to_submit_delay
            &&& asked > config.max_prompt_to_submit_delay ==> config.delay_before_submit(text)
                == config.max_prompt_to_submit_delay
        }),
{
}

/// A pane is taken down exactly when its contract is met; in every other state it stays.
pub proof fn lemma_panes_stay_until_the_contract_is_met(status: LifecycleStatus)
    ensures
        status.cleanup() == LifecycleCleanupAction::KillPane <==> status
            == LifecycleStatus::ContractSatisfied,
        status.cleanup() == LifecycleCleanupAction::PreservePane <==> status
            != LifecycleStatus::ContractSatisfied,
{
}

} // verus!
