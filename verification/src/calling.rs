//! How the programs are called, in terms of the words that they are called with.
use vstd::prelude::*;

use crate::cli::{args_of, names_value, value_at, words_from};
use crate::client_config::{word, Client};
use crate::guard::{
    guard_from, past_dashes, ready_from, server_command, tmux_argv, tool_command, GuardArgsView,
    ServerCommandView,
};
use crate::json::{field, json_parse, text_field};

verus! {

broadcast use vstd::string::group_string_axioms;

proof fn lemma_client_names()
    ensures
        Client::Codex.name()[1] == 'o',
        Client::Claude.name()[1] == 'l',
        Client::Codex.name().len() == 5,
        Client::Claude.name().len() == 6,
        Client::Codex.name()[0] == 'c',
        Client::Claude.name()[0] == 'c',
{
    reveal_strlit("codex_");
    reveal_strlit("claude_");
    assert("codex_"@.len() == 6);
    assert("claude_"@.len() == 7);
    assert("codex_"@[0] == 'c');
    assert("claude_"@[0] == 'c');
    assert("codex_"@[1] == 'o');
    assert("claude_"@[1] == 'l');
}

/// The words that a tool is told to call its hooks with are the ones that the server knows them by:
/// each leads to the hook that it is for, of that very tool.
pub proof fn lemma_hooks_are_called_by_their_words(client: Client)
    ensures
        server_command(seq![client.stop_flag()]) == Ok::<ServerCommandView, Seq<char>>(
            ServerCommandView::StopHook(client),
        ),
        server_command(seq![client.pre_tool_flag()]) == Ok::<ServerCommandView, Seq<char>>(
            ServerCommandView::PreToolUseHook,
        ),
{
    lemma_client_names();
    reveal_strlit("--");
    reveal_strlit("-stop-hook");
    reveal_strlit("-pre-tool-use-hook");
    assert("--"@.len() == 2);
    assert("-stop-hook"@.len() == 10);
    assert("-pre-tool-use-hook"@.len() == 18);
    let stop = client.stop_flag();
    let tool = client.pre_tool_flag();
    assert(stop.len() == client.name().len() + 12);
    assert(tool.len() == client.name().len() + 20);
    assert(stop[2] == 'c');
    assert(tool[2] == 'c');
    assert(stop[3] == client.name()[1]);
    assert(tool[3] == client.name()[1]);
    assert(Client::Codex.stop_flag()[3] == 'o');
    assert(Client::Claude.stop_flag()[3] == 'l');
    assert(Client::Codex.stop_flag().len() == 17);
    assert(Client::Claude.stop_flag().len() == 18);
    assert(Client::Codex.pre_tool_flag().len() == 25);
    assert(Client::Claude.pre_tool_flag().len() == 26);
    reveal_strlit("--pipe-sink");
    reveal_strlit("--list-tools");
    reveal_strlit("--version");
    reveal_strlit("--guard-tmux-send");
    reveal_strlit("--agent-ready-hook");
    assert("--pipe-sink"@[2] == 'p');
    assert("--list-tools"@[2] == 'l');
    assert("--version"@[2] == 'v');
    assert("--guard-tmux-send"@[2] == 'g');
    assert("--agent-ready-hook"@[2] == 'a');
    assert(seq![stop][0] == stop);
    assert(seq![tool][0] == tool);
}

/// Called without a word the program serves; a command for tmux is handed on behind its word as it is.
pub proof fn lemma_words_are_handed_on(rest: Seq<Seq<char>>)
    ensures
        server_command(Seq::empty()) == Ok::<ServerCommandView, Seq<char>>(ServerCommandView::Serve),
        server_command(seq!["--pipe-sink"@] + rest) == Ok::<ServerCommandView, Seq<char>>(
            ServerCommandView::PipeSink(rest),
        ),
        server_command(seq!["--guard-tmux-send"@] + rest) == Ok::<ServerCommandView, Seq<char>>(
            ServerCommandView::GuardTmuxSend(rest),
        ),
        server_command(seq!["--agent-ready-hook"@] + rest) == Ok::<ServerCommandView, Seq<char>>(
            ServerCommandView::AgentReadyHook(rest),
        ),
        server_command(seq!["--guarded-tmux"@] + rest) == Ok::<ServerCommandView, Seq<char>>(
            ServerCommandView::GuardedTmux(rest),
        ),
{
    reveal_strlit("--pipe-sink");
    reveal_strlit("--list-tools");
    reveal_strlit("--version");
    reveal_strlit("--guard-tmux-send");
    reveal_strlit("--guarded-tmux");
    reveal_strlit("--agent-ready-hook");
    reveal_strlit("--print-client-config");
    reveal_strlit("--participant-exited-hook");
    reveal_strlit("--");
    reveal_strlit("-stop-hook");
    reveal_strlit("-pre-tool-use-hook");
    assert("--"@.len() == 2);
    lemma_client_names();
    assert("--pipe-sink"@[3] == 'i' && "--pipe-sink"@[2] == 'p');
    assert("--list-tools"@[2] == 'l');
    assert("--version"@[2] == 'v');
    assert("--guard-tmux-send"@[7] == '-' && "--guard-tmux-send"@[2] == 'g');
    assert("--guarded-tmux"@[7] == 'e' && "--guarded-tmux"@[2] == 'g');
    assert("--agent-ready-hook"@[2] == 'a');
    assert("--print-client-config"@[3] == 'r' && "--print-client-config"@[2] == 'p');
    assert("--participant-exited-hook"@[3] == 'a' && "--participant-exited-hook"@[2] == 'p');
    assert(Client::Codex.stop_flag()[2] == 'c');
    assert(Client::Claude.stop_flag()[2] == 'c');
    assert(Client::Codex.pre_tool_flag()[2] == 'c');
    assert(Client::Claude.pre_tool_flag()[2] == 'c');
    assert((seq!["--pipe-sink"@] + rest).skip(1) =~= rest);
    assert((seq!["--guard-tmux-send"@] + rest).skip(1) =~= rest);
    assert((seq!["--agent-ready-hook"@] + rest).skip(1) =~= rest);
    assert((seq!["--guarded-tmux"@] + rest).skip(1) =~= rest);
}

/// The words for owned panes, each behind its flag.
pub open spec fn owned_words(panes: Seq<Seq<char>>) -> Seq<Seq<char>>
    decreases panes.len(),
{
    if panes.len() == 0 {
        Seq::empty()
    } else {
        owned_words(panes.drop_last()).push("--owned-pane"@).push(panes.last())
    }
}

proof fn lemma_owned_words_length(panes: Seq<Seq<char>>)
    ensures
        owned_words(panes).len() == 2 * panes.len(),
    decreases panes.len(),
{
    if panes.len() > 0 {
        lemma_owned_words_length(panes.drop_last());
    }
}

proof fn lemma_owned_word(panes: Seq<Seq<char>>, k: int)
    requires
        0 <= k < panes.len(),
    ensures
        owned_words(panes)[2 * k] == "--owned-pane"@,
        owned_words(panes)[2 * k + 1] == panes[k],
    decreases panes.len(),
{
    let front = panes.drop_last();
    lemma_owned_words_length(front);
    if k < front.len() {
        lemma_owned_word(front, k);
        assert(owned_words(panes)[2 * k] == owned_words(front)[2 * k]);
        assert(owned_words(panes)[2 * k + 1] == owned_words(front)[2 * k + 1]);
    }
}

proof fn lemma_guard_reads_on(
    panes: Seq<Seq<char>>,
    args: Seq<Seq<char>>,
    tmux_args: Seq<Seq<char>>,
    k: int,
)
    requires
        args == owned_words(panes) + seq!["--"@] + tmux_args,
        tmux_args.len() > 0,
        0 <= k <= panes.len(),
    ensures
        guard_from(args, 2 * k, panes.take(k), None) == Ok::<GuardArgsView, Seq<char>>(
            GuardArgsView { owned_panes: panes, current_pane: None, tmux_args },
        ),
    decreases panes.len() - k,
{
    lemma_owned_words_length(panes);
    reveal_strlit("--owned-pane");
    reveal_strlit("--current-pane");
    reveal_strlit("--");
    assert("--owned-pane"@.len() == 12);
    assert("--current-pane"@.len() == 14);
    assert("--"@.len() == 2);
    if k < panes.len() {
        lemma_owned_word(panes, k);
        assert(args[2 * k] == "--owned-pane"@);
        assert(args[2 * k + 1] == panes[k]);
        assert(panes.take(k).push(panes[k]) =~= panes.take(k + 1));
        lemma_guard_reads_on(panes, args, tmux_args, k + 1);
        assert(2 * (k + 1) == 2 * k + 2);
    } else {
        assert(panes.take(k) =~= panes);
        assert(args[2 * k] == "--"@);
        assert(args.skip(2 * k + 1) =~= tmux_args);
    }
}

/// The owned panes that a guard is called with, and the command behind the dashes, are read as they
/// were written.
pub proof fn lemma_guards_read_their_words(panes: Seq<Seq<char>>, tmux_args: Seq<Seq<char>>)
    requires
        tmux_args.len() > 0,
    ensures
        guard_from(
            owned_words(panes) + seq!["--"@] + tmux_args,
            0,
            Seq::empty(),
            None,
        ) == Ok::<GuardArgsView, Seq<char>>(
            GuardArgsView { owned_panes: panes, current_pane: None, tmux_args },
        ),
{
    assert(panes.take(0) =~= Seq::<Seq<char>>::empty());
    lemma_guard_reads_on(panes, owned_words(panes) + seq!["--"@] + tmux_args, tmux_args, 0);
}

/// The source of a readiness is the one that is named last.
pub proof fn lemma_ready_sources_are_read(source: Seq<char>, other: Seq<char>)
    ensures
        ready_from(Seq::empty(), 0, other) == Ok::<Seq<char>, Seq<char>>(other),
        ready_from(seq!["--source"@, source], 0, other) == Ok::<Seq<char>, Seq<char>>(source),
{
    reveal_with_fuel(ready_from, 3);
}

/// A command for tmux is run by tmux, and what it holds behind the program stays as it is.
pub proof fn lemma_tmux_runs_its_commands(args: Seq<Seq<char>>)
    requires
        args.len() == 0 || !crate::guard::is_tmux(args[0]),
    ensures
        tmux_argv(args)[0] == "tmux"@,
        tmux_argv(args).skip(1) == args,
{
    assert(tmux_argv(args).skip(1) =~= args);
}

/// Leading dashes are passed over once.
pub proof fn lemma_dashes_are_passed_over(args: Seq<Seq<char>>)
    ensures
        past_dashes(seq!["--"@] + args) == args,
        args.len() > 0 && args[0] != "--"@ ==> past_dashes(args) == args,
{
    assert((seq!["--"@] + args).skip(1) =~= args);
}

/// A command is looked at only where a tool is about to run it in a shell; it is the one that the tool
/// names.
pub proof fn lemma_shell_commands_are_looked_at(input: Seq<char>, command: Seq<char>)
    ensures
        tool_command(input) == Some(command) <==> {
            &&& json_parse(input) is Ok
            &&& text_field(json_parse(input)->Ok_0, "hook_event_name"@) == Some("PreToolUse"@)
            &&& text_field(json_parse(input)->Ok_0, "tool_name"@) == Some("Bash"@)
            &&& field(json_parse(input)->Ok_0, "tool_input"@) is Some
            &&& text_field(field(json_parse(input)->Ok_0, "tool_input"@)->0, "command"@) == Some(
                command,
            )
        },
{
}

/// Words in pairs: names of values, each with its value behind it.
pub open spec fn in_pairs(args: Seq<Seq<char>>) -> bool {
    &&& args.len() % 2 == 0
    &&& forall|k: int| 0 <= 2 * k < args.len() ==> names_value(#[trigger] args[2 * k])
}

proof fn lemma_values_read_on(
    args: Seq<Seq<char>>,
    i: int,
    found: Map<Seq<char>, Seq<char>>,
    name: Seq<char>,
)
    requires
        in_pairs(args),
        0 <= i <= args.len(),
        i % 2 == 0,
    ensures
        words_from(args, i, found) is Values,
        ({
            let read = words_from(args, i, found)->Values_0;
            &&& read.dom().contains(name) <==> found.dom().contains(name) || exists|k: int|
                i <= 2 * k < args.len() && #[trigger] args[2 * k] == name
            &&& (forall|k: int| i <= 2 * k < args.len() ==> #[trigger] args[2 * k] != name)
                ==> read.dom().contains(name) == found.dom().contains(name) && read[name]
                == found[name]
            &&& forall|k: int|
                i <= 2 * k < args.len() && #[trigger] args[2 * k] == name && (forall|l: int|
                    k < l && 2 * l < args.len() ==> #[trigger] args[2 * l] != name) ==> read[name]
                    == args[2 * k + 1]
        }),
    decreases args.len() - i,
{
    if i < args.len() {
        let h = i / 2;
        assert(2 * h == i);
        assert(names_value(args[2 * h]));
        let next = found.insert(args[i], args[i + 1]);
        lemma_values_read_on(args, i + 2, next, name);
        let read = words_from(args, i, found)->Values_0;
        assert(read == words_from(args, i + 2, next)->Values_0);
        if args[i] == name {
            assert(args[2 * h] == name);
        }
        assert forall|k: int|
            i <= 2 * k < args.len() && #[trigger] args[2 * k] == name && (forall|l: int|
                k < l && 2 * l < args.len() ==> #[trigger] args[2 * l] != name) implies read[name]
            == args[2 * k + 1] by {
            if 2 * k == i {
                assert forall|l: int| i + 2 <= 2 * l < args.len() implies #[trigger] args[2 * l]
                    != name by {
                    assert(k < l);
                }
            }
        }
    }
}

/// Of several values with one name the driver is called with the last one; a name that is not there has
/// no value.
pub proof fn lemma_last_values_count(args: Seq<Seq<char>>, name: Seq<char>, k: int)
    requires
        in_pairs(args),
        0 <= 2 * k < args.len(),
        args[2 * k] == name,
        forall|l: int| k < l && 2 * l < args.len() ==> #[trigger] args[2 * l] != name,
    ensures
        words_from(args, 0, Map::empty()) is Values,
        value_at(words_from(args, 0, Map::empty())->Values_0, name) == Some(args[2 * k + 1]),
{
    lemma_values_read_on(args, 0, Map::empty(), name);
}

/// A driver is called to run exactly if its run, the root of the runs and that of its runtime are
/// given, and of its pane either everything or nothing; it runs with what was given.
pub proof fn lemma_drivers_run_what_they_are_given(found: Map<Seq<char>, Seq<char>>)
    ensures
        args_of(found) is Ok <==> {
            let pane = |name: Seq<char>| value_at(found, name) is Some;
            &&& value_at(found, "--runs-root"@) is Some
            &&& value_at(found, "--run-id"@) is Some
            &&& value_at(found, "--runtime-root"@) is Some
            &&& pane("--driver-session"@) == pane("--driver-window-id"@)
            &&& pane("--driver-session"@) == pane("--driver-window-name"@)
            &&& pane("--driver-session"@) == pane("--driver-pane-id"@)
        },
        args_of(found) matches Ok(args) ==> {
            &&& value_at(found, "--runs-root"@) == Some(args.runs_root)
            &&& value_at(found, "--run-id"@) == Some(args.run_id)
            &&& value_at(found, "--runtime-root"@) == Some(args.runtime_root)
            &&& args.auth_token == value_at(found, "--auth-token"@)
            &&& args.auth_token_file == value_at(found, "--auth-token-file"@)
            &&& value_at(found, "--review-root"@) matches Some(root) ==> args.review_root == root
            &&& args.operator_pane matches Some(pane) ==> {
                &&& value_at(found, "--driver-session"@) == Some(pane.session_id)
                &&& value_at(found, "--driver-window-id"@) == Some(pane.window_id)
                &&& value_at(found, "--driver-window-name"@) == Some(pane.window_name)
                &&& value_at(found, "--driver-pane-id"@) == Some(pane.pane_id)
            }
        },
{
}

} // verus!
