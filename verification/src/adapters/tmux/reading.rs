//! What is asked of tmux and what it prints, in terms of the panes and windows that are meant.
use vstd::prelude::*;

use crate::split::{lemma_piece_behind, lemma_whole_piece, pieces};
use crate::text::{is_blank, is_white_space, trimmed};

use super::adapter::pane_verdict;
use super::argv::{
    capture_pane_argv, display_pane_argv, has_session_argv, kill_pane_argv, kill_session_argv,
    kill_window_argv, new_session_argv, new_session_pane_argv, new_session_pane_running_argv,
    new_session_window_argv, new_window_argv, new_window_pane_argv, new_window_pane_running_argv,
    paste_buffer_argv, pipe_pane_argv, send_key_argv, send_literal_argv, set_buffer_argv,
    split_window_argv, split_window_running_argv,
};
use super::error::{owned_fault, session_fault, TmuxErrorView};
use super::model::{CommandOutputView, TmuxActivationMetadataView, TmuxPaneIdentityView};
use super::pane_creation::{is_marked_line, marked_pane, started_fields};
use super::pane_presence::{listed_presence, shown_presence, TmuxPanePresence};
use super::record::{
    identity_in, identity_matches, printed_identity, record_fields, text_lines, window_listed,
    without_return, word_scan, words,
};

verus! {

broadcast use vstd::string::group_string_axioms;

/// How tmux prints what tells a pane apart.
pub open spec fn printed_line(pane: TmuxPaneIdentityView) -> Seq<char> {
    pane.session_id + seq!['|'] + pane.window_id + seq!['|'] + pane.window_name + seq!['|']
        + pane.pane_id
}

/// A pane that tmux prints is read back as it is, where no part of it holds a bar.
pub proof fn lemma_printed_panes_are_read(pane: TmuxPaneIdentityView)
    requires
        !pane.session_id.contains('|'),
        !pane.window_id.contains('|'),
        !pane.window_name.contains('|'),
        !pane.pane_id.contains('|'),
    ensures
        identity_in(printed_line(pane)) == Ok::<TmuxPaneIdentityView, TmuxErrorView>(pane),
{
    let a = pane.session_id;
    let b = a.push('|') + pane.window_id;
    let c = b.push('|') + pane.window_name;
    let d = c.push('|') + pane.pane_id;
    lemma_whole_piece(a, '|');
    lemma_piece_behind(a, pane.window_id, '|');
    lemma_piece_behind(b, pane.window_name, '|');
    lemma_piece_behind(c, pane.pane_id, '|');
    assert(printed_line(pane) =~= d);
    assert(d[a.len() as int] == '|');
    assert(d.contains('|'));
    assert(pieces(d, '|') =~= seq![a, pane.window_id, pane.window_name, pane.pane_id]);
}

/// A pane is the one of an activation exactly if tmux prints the session, the window, its name and the
/// pane of the activation.
pub proof fn lemma_panes_are_told_apart(
    metadata: TmuxActivationMetadataView,
    output: CommandOutputView,
    actual: TmuxPaneIdentityView,
)
    requires
        printed_identity(output) == Ok::<TmuxPaneIdentityView, TmuxErrorView>(actual),
    ensures
        pane_verdict(metadata, Ok(output)) is Ok <==> {
            &&& actual.session_id == metadata.session_id
            &&& actual.window_id == metadata.window_id
            &&& actual.window_name == metadata.window_name
            &&& actual.pane_id == metadata.pane_id
        },
{
}

/// A pane that tmux shows is there exactly if it is the one that was meant; the name of its window
/// counts only on request.
pub proof fn lemma_shown_panes_are_there(
    expected: TmuxPaneIdentityView,
    actual: TmuxPaneIdentityView,
    match_window_name: bool,
)
    ensures
        shown_presence(expected, match_window_name, Ok(actual)) == Ok::<
            TmuxPanePresence,
            TmuxErrorView,
        >(TmuxPanePresence::Present) <==> {
            &&& expected.session_id == actual.session_id
            &&& expected.window_id == actual.window_id
            &&& expected.pane_id == actual.pane_id
            &&& match_window_name ==> expected.window_name == actual.window_name
        },
        shown_presence(expected, match_window_name, Ok(actual)) is Ok,
{
}

/// A pane that tmux would not show is gone only if every line of its list can be read and none tells of
/// the pane.
pub proof fn lemma_unlisted_panes_are_gone(
    lines: Seq<Seq<char>>,
    expected: TmuxPaneIdentityView,
    match_window_name: bool,
    refusal: TmuxErrorView,
    n: int,
)
    requires
        0 <= n,
    ensures
        listed_presence(lines, expected, match_window_name, refusal, n) is Ok <==> (forall|i: int|
            n <= i < lines.len() && !is_blank(#[trigger] lines[i]) ==> identity_in(lines[i]) is Ok
                && !identity_matches(expected, identity_in(lines[i])->Ok_0, match_window_name)),
        listed_presence(lines, expected, match_window_name, refusal, n) matches Ok(presence)
            ==> presence == TmuxPanePresence::Absent,
    decreases lines.len() - n,
{
    if n < lines.len() {
        lemma_unlisted_panes_are_gone(lines, expected, match_window_name, refusal, n + 1);
        if listed_presence(lines, expected, match_window_name, refusal, n) is Ok {
            assert forall|i: int| n <= i < lines.len() && !is_blank(#[trigger] lines[i]) implies
                identity_in(lines[i]) is Ok && !identity_matches(
                expected,
                identity_in(lines[i])->Ok_0,
                match_window_name,
            ) by {
                if i > n {
                }
            }
        }
    }
}

/// A marked pane is found in the first line that tells of it, and in none where no line does.
pub proof fn lemma_marked_panes_are_found(
    lines: Seq<Seq<char>>,
    session: Seq<char>,
    name: Seq<char>,
    mark: Seq<char>,
    n: int,
)
    requires
        0 <= n,
    ensures
        marked_pane(lines, session, name, mark, n) is None <==> (forall|i: int|
            n <= i < lines.len() ==> !is_marked_line(#[trigger] lines[i], session, name, mark)),
        marked_pane(lines, session, name, mark, n) matches Some(found) ==> exists|i: int|
            {
                &&& n <= i < lines.len()
                &&& is_marked_line(#[trigger] lines[i], session, name, mark)
                &&& started_fields(lines[i])[1] == found.0
                &&& started_fields(lines[i])[3] == found.1
            },
    decreases lines.len() - n,
{
    if n < lines.len() && !is_marked_line(lines[n], session, name, mark) {
        lemma_marked_panes_are_found(lines, session, name, mark, n + 1);
    }
}

/// A window is found under its name in the first line that tells of it, and is made anew only where no
/// line does.
pub proof fn lemma_windows_are_found(lines: Seq<Seq<char>>, name: Seq<char>, n: int)
    requires
        0 <= n,
    ensures
        window_listed(lines, name, n) == Ok::<Option<Seq<char>>, TmuxErrorView>(None) <==> (forall|
            i: int,
        |
            n <= i < lines.len() ==> !(record_fields(#[trigger] lines[i]).len() == 2
                && record_fields(lines[i])[0] == name)),
        window_listed(lines, name, n) matches Ok(Some(id)) ==> id.len() > 0 && exists|i: int|
            n <= i < lines.len() && record_fields(#[trigger] lines[i]).len() == 2 && record_fields(
                lines[i],
            )[0] == name && id == trimmed(record_fields(lines[i])[1]),
    decreases lines.len() - n,
{
    if n < lines.len() && !(record_fields(lines[n]).len() == 2 && record_fields(lines[n])[0]
        == name) {
        lemma_windows_are_found(lines, name, n + 1);
    }
}

/// A session may be used exactly if its name is not empty, holds nothing by which tmux cuts its targets,
/// and is not the one that is kept for development.
pub proof fn lemma_sessions_have_plain_names(session_id: Seq<char>, target: Seq<char>)
    ensures
        session_fault(session_id) is None <==> {
            &&& session_id.len() > 0
            &&& !session_id.contains(':')
            &&& !session_id.contains('.')
            &&& session_id != "dev"@
        },
        owned_fault(target, session_id) is None <==> session_fault(session_id) is None,
{
}

proof fn lemma_word_scan(s: Seq<char>)
    ensures
        ({
            let (done, open) = word_scan(s);
            &&& forall|i: int| 0 <= i < done.len() ==> (#[trigger] done[i]).len() > 0
            &&& forall|i: int, k: int|
                0 <= i < done.len() && 0 <= k < done[i].len() ==> !is_white_space(
                    #[trigger] done[i][k],
                )
            &&& forall|k: int| 0 <= k < open.len() ==> !is_white_space(#[trigger] open[k])
            &&& done.flatten() + open == s.filter(|c: char| !is_white_space(c))
        }),
    decreases s.len(),
{
    reveal(Seq::filter);
    let dark = |c: char| !is_white_space(c);
    if s.len() > 0 {
        lemma_word_scan(s.drop_last());
        let (done, open) = word_scan(s.drop_last());
        let (d, o) = word_scan(s);
        if !is_white_space(s.last()) {
            assert(done.flatten() + o =~= (done.flatten() + open).push(s.last()));
        } else if open.len() > 0 {
            done.push(open).lemma_flatten_and_flatten_alt_are_equivalent();
            done.lemma_flatten_and_flatten_alt_are_equivalent();
            assert(done.push(open).drop_last() =~= done);
            assert(d.flatten() =~= done.flatten() + open);
            assert(d.flatten() + o =~= done.flatten() + open);
        }
    } else {
        let none = Seq::<Seq<char>>::empty();
        assert(none.flatten() =~= Seq::<char>::empty());
        assert(word_scan(s).0.flatten() + word_scan(s).1 =~= s.filter(dark));
    }
}

/// The words of a text hold all that is not white space, in order, and nothing else; none of them is
/// empty or holds white space.
pub proof fn lemma_words_hold_the_text(s: Seq<char>)
    ensures
        words(s).flatten() == s.filter(|c: char| !is_white_space(c)),
        forall|i: int| 0 <= i < words(s).len() ==> (#[trigger] words(s)[i]).len() > 0,
        forall|i: int, k: int|
            0 <= i < words(s).len() && 0 <= k < words(s)[i].len() ==> !is_white_space(
                #[trigger] words(s)[i][k],
            ),
{
    lemma_word_scan(s);
    let (done, open) = word_scan(s);
    if open.len() > 0 {
        done.push(open).lemma_flatten_and_flatten_alt_are_equivalent();
        done.lemma_flatten_and_flatten_alt_are_equivalent();
        assert(done.push(open).drop_last() =~= done);
    } else {
        assert(done.flatten() + open =~= done.flatten());
    }
}

proof fn lemma_lines_end(lines: Seq<Seq<char>>) -> (text: Seq<char>)
    requires
        forall|i: int| 0 <= i < lines.len() ==> !(#[trigger] lines[i]).contains('\n'),
    ensures
        text == Seq::new(lines.len(), |i: int| lines[i].push('\n')).flatten(),
        pieces(text, '\n') == lines.push(Seq::empty()),
    decreases lines.len(),
{
    let ended = Seq::new(lines.len(), |i: int| lines[i].push('\n'));
    if lines.len() == 0 {
        assert(ended =~= Seq::<Seq<char>>::empty());
        assert(ended.flatten() =~= Seq::<char>::empty());
        assert(pieces(Seq::<char>::empty(), '\n') =~= lines.push(Seq::<char>::empty()));
        Seq::empty()
    } else {
        let front = lines.drop_last();
        let last = lines.last();
        assert(last == lines[lines.len() - 1]);
        assert forall|i: int| 0 <= i < front.len() implies !(#[trigger] front[i]).contains(
            '\n',
        ) by {
            assert(front[i] == lines[i]);
        }
        let before = lemma_lines_end(front);
        let sooner = Seq::new(front.len(), |i: int| front[i].push('\n'));
        assert(ended =~= sooner.push(last.push('\n')));
        ended.lemma_flatten_and_flatten_alt_are_equivalent();
        sooner.lemma_flatten_and_flatten_alt_are_equivalent();
        assert(ended.drop_last() =~= sooner);
        let whole = before + last;
        let text = whole.push('\n');
        assert(ended.flatten() =~= text);
        assert(pieces(whole, '\n') =~= front.push(last)) by {
            if front.len() == 0 {
                assert(front =~= Seq::<Seq<char>>::empty());
                assert(before =~= Seq::<char>::empty());
                assert(whole =~= last);
                lemma_whole_piece(last, '\n');
            } else {
                assert(before.last() == '\n') by {
                    assert(sooner =~= Seq::new(
                        front.drop_last().len(),
                        |i: int| front[i].push('\n'),
                    ).push(front.last().push('\n')));
                }
                let cut = before.drop_last();
                assert(before =~= cut.push('\n'));
                assert(Seq::<char>::empty().len() == 0);
                lemma_piece_behind(cut, Seq::empty(), '\n');
                assert(cut.push('\n') + Seq::<char>::empty() =~= before);
                assert(pieces(cut, '\n').push(Seq::empty()) =~= front.push(Seq::empty()));
                assert(pieces(cut, '\n') =~= front) by {
                    assert(pieces(cut, '\n') =~= pieces(cut, '\n').push(Seq::empty()).drop_last());
                    assert(front =~= front.push(Seq::<char>::empty()).drop_last());
                }
                lemma_piece_behind(cut, last, '\n');
            }
        }
        assert(front.push(last) =~= lines);
        assert(!Seq::<char>::empty().contains('\n'));
        lemma_piece_behind(whole, Seq::empty(), '\n');
        assert(whole.push('\n') + Seq::<char>::empty() =~= text);
        text
    }
}

/// Lines that were printed, each with a line feed behind it, are read back as they were.
pub proof fn lemma_printed_lines_are_read(lines: Seq<Seq<char>>)
    requires
        forall|i: int|
            0 <= i < lines.len() ==> !(#[trigger] lines[i]).contains('\n') && !lines[i].contains(
                '\r',
            ),
    ensures
        text_lines(Seq::new(lines.len(), |i: int| lines[i].push('\n')).flatten()) == lines,
{
    let text = lemma_lines_end(lines);
    let parts = pieces(text, '\n');
    assert forall|i: int| 0 <= i < lines.len() implies without_return(#[trigger] parts[i])
        == lines[i] by {
        assert(parts[i] == lines[i]);
        if lines[i].len() > 0 && lines[i].last() == '\r' {
            assert(lines[i][lines[i].len() - 1] == '\r');
        }
    }
    assert(parts.last() =~= Seq::<char>::empty());
    assert(text_lines(text) =~= lines);
}

/// Whether a command is the given one of tmux.
pub open spec fn is_command(argv: Seq<Seq<char>>, name: Seq<char>) -> bool {
    argv.len() > 1 && argv[0] == "tmux"@ && argv[1] == name
}

/// Whether a word stands right behind a flag.
pub open spec fn stands_behind(argv: Seq<Seq<char>>, flag: Seq<char>, word: Seq<char>) -> bool {
    exists|i: int| 0 <= i < argv.len() - 1 && #[trigger] argv[i] == flag && argv[i + 1] == word
}

/// What ends, shows or looks at something goes to the target that is meant, and to nothing else.
pub proof fn lemma_commands_go_to_their_target(target: Seq<char>)
    ensures
        is_command(kill_pane_argv(target), "kill-pane"@),
        is_command(kill_window_argv(target), "kill-window"@),
        is_command(kill_session_argv(target), "kill-session"@),
        is_command(has_session_argv(target), "has-session"@),
        is_command(capture_pane_argv(target), "capture-pane"@),
        is_command(display_pane_argv(target), "display-message"@),
        is_command(split_window_argv(target), "split-window"@),
        stands_behind(kill_pane_argv(target), "-t"@, target),
        stands_behind(kill_window_argv(target), "-t"@, target),
        stands_behind(kill_session_argv(target), "-t"@, target),
        stands_behind(has_session_argv(target), "-t"@, target),
        stands_behind(capture_pane_argv(target), "-t"@, target),
        stands_behind(display_pane_argv(target), "-t"@, target),
        stands_behind(split_window_argv(target), "-t"@, target),
{
    assert(kill_pane_argv(target)[2] == "-t"@);
    assert(kill_window_argv(target)[2] == "-t"@);
    assert(kill_session_argv(target)[2] == "-t"@);
    assert(has_session_argv(target)[2] == "-t"@);
    assert(capture_pane_argv(target)[3] == "-t"@);
    assert(display_pane_argv(target)[3] == "-t"@);
    assert(split_window_argv(target)[5] == "-t"@);
}

/// What is typed into a pane goes to that pane as it stands: text as literal text, a buffer under its
/// name, a key as a key.
pub proof fn lemma_input_goes_to_its_pane(
    target: Seq<char>,
    text: Seq<char>,
    buffer: Seq<char>,
    command: Seq<char>,
)
    ensures
        is_command(send_literal_argv(target, text), "send-keys"@),
        stands_behind(send_literal_argv(target, text), "-t"@, target),
        stands_behind(send_literal_argv(target, text), "-l"@, text),
        is_command(set_buffer_argv(buffer, text), "set-buffer"@),
        stands_behind(set_buffer_argv(buffer, text), "-b"@, buffer),
        stands_behind(set_buffer_argv(buffer, text), "--"@, text),
        is_command(paste_buffer_argv(buffer, target), "paste-buffer"@),
        stands_behind(paste_buffer_argv(buffer, target), "-b"@, buffer),
        stands_behind(paste_buffer_argv(buffer, target), "-t"@, target),
        is_command(send_key_argv(target, text), "send-keys"@),
        stands_behind(send_key_argv(target, text), "-t"@, target),
        send_key_argv(target, text).last() == text,
        is_command(pipe_pane_argv(target, command), "pipe-pane"@),
        stands_behind(pipe_pane_argv(target, command), "-t"@, target),
        pipe_pane_argv(target, command).last() == command,
{
    assert(send_literal_argv(target, text)[2] == "-t"@);
    assert(send_literal_argv(target, text)[4] == "-l"@);
    assert(set_buffer_argv(buffer, text)[2] == "-b"@);
    assert(set_buffer_argv(buffer, text)[4] == "--"@);
    assert(paste_buffer_argv(buffer, target)[4] == "-b"@);
    assert(paste_buffer_argv(buffer, target)[6] == "-t"@);
    assert(send_key_argv(target, text)[2] == "-t"@);
    assert(pipe_pane_argv(target, command)[3] == "-t"@);
}

/// What is made is made in the session and under the name that are meant, and runs the command that is
/// meant.
pub proof fn lemma_windows_are_made_where_they_are_meant(
    session: Seq<char>,
    name: Seq<char>,
    target: Seq<char>,
    command: Seq<char>,
)
    ensures
        is_command(new_session_argv(session), "new-session"@),
        stands_behind(new_session_argv(session), "-s"@, session),
        stands_behind(new_session_window_argv(session, name), "-s"@, session),
        stands_behind(new_session_window_argv(session, name), "-n"@, name),
        is_command(new_window_argv(session, name), "new-window"@),
        stands_behind(new_window_argv(session, name), "-t"@, session),
        stands_behind(new_window_argv(session, name), "-n"@, name),
        stands_behind(new_session_pane_argv(session, name), "-s"@, session),
        stands_behind(new_session_pane_argv(session, name), "-n"@, name),
        stands_behind(new_session_pane_running_argv(session, name, command), "-s"@, session),
        stands_behind(new_session_pane_running_argv(session, name, command), "-n"@, name),
        new_session_pane_running_argv(session, name, command).last() == command,
        stands_behind(new_window_pane_argv(session, name), "-t"@, session),
        stands_behind(new_window_pane_argv(session, name), "-n"@, name),
        stands_behind(new_window_pane_running_argv(session, name, command), "-t"@, session),
        stands_behind(new_window_pane_running_argv(session, name, command), "-n"@, name),
        new_window_pane_running_argv(session, name, command).last() == command,
        is_command(split_window_running_argv(target, command), "split-window"@),
        stands_behind(split_window_running_argv(target, command), "-t"@, target),
        split_window_running_argv(target, command).last() == command,
{
    assert(new_session_argv(session)[3] == "-s"@);
    assert(new_session_window_argv(session, name)[6] == "-s"@);
    assert(new_session_window_argv(session, name)[8] == "-n"@);
    assert(new_window_argv(session, name)[5] == "-t"@);
    assert(new_window_argv(session, name)[7] == "-n"@);
    assert(new_session_pane_argv(session, name)[6] == "-s"@);
    assert(new_session_pane_argv(session, name)[8] == "-n"@);
    assert(new_session_pane_running_argv(session, name, command)[6] == "-s"@);
    assert(new_session_pane_running_argv(session, name, command)[8] == "-n"@);
    assert(new_window_pane_argv(session, name)[5] == "-t"@);
    assert(new_window_pane_argv(session, name)[7] == "-n"@);
    assert(new_window_pane_running_argv(session, name, command)[5] == "-t"@);
    assert(new_window_pane_running_argv(session, name, command)[7] == "-n"@);
    assert(split_window_running_argv(target, command)[5] == "-t"@);
}

} // verus!
