//! What is offered to agents for their configuration, and how they are launched.
use vstd::prelude::*;

use crate::adapters::tmux::pipe::{lemma_quoting_keeps_the_text, shell_quoted, shell_value};
use crate::driver::prompt::{agent_backed, launch_command};
use crate::flow::export::{lemma_ordered_field, ordered};
use crate::flow::model::NodeDriver;
use crate::guard::{blocked_arguments, denial_text, BlockedEvidence};
use crate::json::{
    distinct_keys, field, flag_field, json_compact, lemma_field_at, no_fields, text_field, value_of,
    JsonView,
};

use super::{client_config, hook_json, hooks_value, session_value, word, Client, ClientConfigTarget};
use super::hooks::answer_fault;

verus! {

broadcast use vstd::string::group_string_axioms;

/// The hook that a configuration has for an occasion.
pub open spec fn hook_for(config: JsonView, occasion: Seq<char>) -> JsonView {
    field(field(field(config, "hooks"@)->0, occasion)->0->List_0[0], "hooks"@)->0->List_0[0]
}

proof fn lemma_hook_fields(hook: JsonView, command: Seq<char>, status: Seq<char>)
    requires
        hook == hook_json(command, status),
    ensures
        field(hook, "type"@) == Some(JsonView::Text("command"@)),
        field(hook, "command"@) == Some(JsonView::Text(command)),
{
    let fields = hook->Record_0;
    reveal_strlit("type");
    reveal_strlit("command");
    reveal_strlit("statusMessage");
    assert("type"@.len() == 4);
    assert("command"@.len() == 7);
    assert("statusMessage"@.len() == 13);
    assert(distinct_keys(fields));
    lemma_field_at(fields, 0);
    lemma_field_at(fields, 1);
    lemma_field_at(fields, 2);
}

/// At the start of a session, before a shell command and at a stop, the command that was given is
/// run as one word, each time with the flag of that occasion and of that client; only shell
/// commands are looked at beforehand.
pub proof fn lemma_hooks_run_the_command(command: Seq<char>, client: Client)
    ensures
        ({
            let config = hooks_value(command, client);
            let name = word(command);
            &&& field(hook_for(config, "SessionStart"@), "command"@) == Some(
                JsonView::Text(
                    name + " --agent-ready-hook --source "@ + (client.prefix() + "session_start"@),
                ),
            )
            &&& field(hook_for(config, "PreToolUse"@), "command"@) == Some(
                JsonView::Text(name + " "@ + client.pre_tool_flag()),
            )
            &&& field(hook_for(config, "Stop"@), "command"@) == Some(
                JsonView::Text(name + " "@ + client.stop_flag()),
            )
            &&& field(hook_for(config, "SessionStart"@), "type"@) == Some(
                JsonView::Text("command"@),
            )
            &&& field(hook_for(config, "PreToolUse"@), "type"@) == Some(JsonView::Text("command"@))
            &&& field(hook_for(config, "Stop"@), "type"@) == Some(JsonView::Text("command"@))
            &&& field(
                field(field(config, "hooks"@)->0, "PreToolUse"@)->0->List_0[0],
                "matcher"@,
            ) == Some(JsonView::Text("Bash"@))
        }),
{
    let config = hooks_value(command, client);
    lemma_field_at(config->Record_0, 0);
    let fields = config->Record_0[0].1->Record_0;
    reveal_strlit("SessionStart");
    reveal_strlit("PreToolUse");
    reveal_strlit("Stop");
    assert("Stop"@.len() == 4);
    assert("PreToolUse"@.len() == 10);
    assert("SessionStart"@.len() == 12);
    assert(distinct_keys(fields));
    lemma_field_at(fields, 0);
    lemma_field_at(fields, 1);
    lemma_field_at(fields, 2);
    reveal_strlit("hooks");
    reveal_strlit("matcher");
    assert("hooks"@.len() == 5);
    assert("matcher"@.len() == 7);
    let start = fields[0].1->List_0[0]->Record_0;
    let before = fields[1].1->List_0[0]->Record_0;
    let stop = fields[2].1->List_0[0]->Record_0;
    lemma_field_at(start, 0);
    assert(distinct_keys(before));
    lemma_field_at(before, 0);
    lemma_field_at(before, 1);
    lemma_field_at(stop, 0);
    let name = word(command);
    lemma_hook_fields(
        hook_for(config, "SessionStart"@),
        name + " --agent-ready-hook --source "@ + (client.prefix() + "session_start"@),
        "Recording Humanize agent readiness"@,
    );
    lemma_hook_fields(
        hook_for(config, "PreToolUse"@),
        name + " "@ + client.pre_tool_flag(),
        "Checking Humanize tmux ownership"@,
    );
    lemma_hook_fields(
        hook_for(config, "Stop"@),
        name + " "@ + client.stop_flag(),
        "Validating Humanize participant completion"@,
    );
}

/// The server that a session is given is the command itself, with no arguments.
pub proof fn lemma_sessions_are_given_the_server(command: Seq<char>)
    ensures
        ({
            let server = field(field(session_value(command), "mcpServers"@)->0, "humanize_plugin"@);
            &&& server is Some
            &&& field(server->0, "command"@) == Some(JsonView::Text(command))
            &&& field(server->0, "args"@) == Some(JsonView::List(Seq::empty()))
        }),
{
    let outer = session_value(command)->Record_0;
    lemma_field_at(outer, 0);
    let inner = outer[0].1->Record_0;
    lemma_field_at(inner, 0);
    let fields = inner[0].1->Record_0;
    reveal_strlit("command");
    reveal_strlit("args");
    assert("args"@.len() == 4);
    assert("command"@.len() == 7);
    assert(distinct_keys(fields));
    lemma_field_at(fields, 0);
    lemma_field_at(fields, 1);
}

/// A line that adds the server for good ends with the command as one word.
pub proof fn lemma_added_servers_are_the_command(command: Seq<char>)
    ensures
        ({
            let line = client_config(ClientConfigTarget::CodexPersistent, command);
            line.skip(line.len() - word(command).len()) == word(command)
        }),
        ({
            let line = client_config(ClientConfigTarget::ClaudeProject, command);
            line.skip(line.len() - word(command).len()) == word(command)
        }),
{
    let a = client_config(ClientConfigTarget::CodexPersistent, command);
    assert(a.skip(a.len() - word(command).len()) =~= word(command));
    let b = client_config(ClientConfigTarget::ClaudeProject, command);
    assert(b.skip(b.len() - word(command).len()) =~= word(command));
}

/// A launched agent finds its private file under the variable, runs the command that was asked
/// for, and tells its exit status by the hook program, whatever stands in the three texts.
pub proof fn lemma_launched_agents_run_their_command(
    command: Seq<char>,
    hook_binary: Seq<char>,
    binding_file: Seq<char>,
) -> (quoted: (Seq<char>, Seq<char>, Seq<char>))
    ensures
        launch_command(command, hook_binary, binding_file)
            == "env HUMANIZE_PARTICIPANT_BINDING_FILE="@ + quoted.0 + " sh -c "@ + quoted.1,
        shell_value(quoted.0, false) == Some(binding_file),
        shell_value(quoted.1, false) == Some(
            command + "; status=$?; "@ + quoted.2
                + " --participant-exited-hook --exit-status \"$status\"; exit \"$status\""@,
        ),
        shell_value(quoted.2, false) == Some(hook_binary),
{
    let wrapper = command + "; status=$?; "@ + shell_quoted(hook_binary)
        + " --participant-exited-hook --exit-status \"$status\"; exit \"$status\""@;
    lemma_quoting_keeps_the_text(binding_file);
    lemma_quoting_keeps_the_text(wrapper);
    lemma_quoting_keeps_the_text(hook_binary);
    (shell_quoted(binding_file), shell_quoted(wrapper), shell_quoted(hook_binary))
}

/// Agents stand behind exactly the nodes that work and those that review.
pub proof fn lemma_agents_work_and_review(driver: NodeDriver)
    ensures
        agent_backed(driver) <==> (driver == NodeDriver::Agent || driver == NodeDriver::Review),
{
}

/// What is told of a command that was kept from a pane names the session, the hook and the evidence,
/// and tells the operation and digests, but neither the target nor what was to be typed.
pub proof fn lemma_kept_commands_are_told(
    session_id: Seq<char>,
    activation_id: Seq<char>,
    hook: Seq<char>,
    evidence: BlockedEvidence,
)
    ensures
        ({
            let told = blocked_arguments(session_id, activation_id, hook, evidence);
            let payload = field(told, "payload"@)->0;
            &&& field(told, "session_id"@) == Some(JsonView::Text(session_id))
            &&& field(told, "hook"@) == Some(JsonView::Text(hook))
            &&& field(told, "source_native_id"@) == Some(
                JsonView::Text("tmux_guard_blocked:"@ + evidence.evidence_hash@),
            )
            &&& field(told, "activation_id"@) == (if activation_id == "driver"@ {
                None
            } else {
                Some(JsonView::Text(activation_id))
            })
            &&& field(payload, "decision"@) == Some(JsonView::Text("blocked"@))
            &&& field(payload, "operation"@) == Some(JsonView::Text(evidence.operation@))
            &&& field(payload, "option_flags"@) == Some(evidence.option_flags@)
            &&& field(payload, "target_hash"@) == Some(JsonView::Text(evidence.target_hash@))
            &&& field(payload, "payload_hash"@) == Some(JsonView::Text(evidence.payload_hash@))
            &&& field(payload, "payload_length"@) == Some(
                JsonView::Unsigned(evidence.payload_length),
            )
        }),
{
    let told = blocked_arguments(session_id, activation_id, hook, evidence)->Record_0;
    reveal_strlit("activation_id");
    assert("activation_id"@.len() == 13);
    reveal_strlit("session_id");
    reveal_strlit("hook");
    reveal_strlit("source_native_id");
    reveal_strlit("payload");
    assert("hook"@.len() == 4);
    assert("payload"@.len() == 7);
    assert("session_id"@.len() == 10);
    assert("source_native_id"@.len() == 16);
    assert(distinct_keys(told));
    lemma_field_at(told, 0);
    lemma_field_at(told, 1);
    lemma_field_at(told, 2);
    lemma_field_at(told, 3);
    if activation_id == "driver"@ {
        lemma_no_such_key(told, "activation_id"@);
    } else {
        lemma_field_at(told, 4);
    }
    let fields = told[3].1->Record_0;
    reveal_strlit("decision");
    reveal_strlit("operation");
    reveal_strlit("option_flags");
    reveal_strlit("target_hash");
    reveal_strlit("payload_hash");
    reveal_strlit("payload_length");
    assert("decision"@.len() == 8);
    assert("operation"@.len() == 9);
    assert("target_hash"@.len() == 11);
    assert("option_flags"@.len() == 12);
    assert("payload_hash"@.len() == 12);
    assert("payload_length"@.len() == 14);
    assert("option_flags"@[0] == 'o');
    assert("payload_hash"@[0] == 'p');
    assert(distinct_keys(fields));
    lemma_field_at(fields, 0);
    lemma_field_at(fields, 1);
    lemma_field_at(fields, 2);
    lemma_field_at(fields, 3);
    lemma_field_at(fields, 4);
    lemma_field_at(fields, 5);
}

proof fn lemma_no_such_key(fields: Seq<(Seq<char>, JsonView)>, key: Seq<char>)
    requires
        forall|i: int| 0 <= i < fields.len() ==> (#[trigger] fields[i]).0 != key,
    ensures
        field(JsonView::Record(fields), key) is None,
    decreases fields.len(),
{
    if fields.len() > 0 {
        assert(fields[fields.len() - 1].0 != key);
        lemma_no_such_key(fields.drop_last(), key);
    }
}

/// A client that is told no is told so before the tool is used, with the reason.
pub proof fn lemma_denials_are_told_with_their_reason(reason: Seq<char>) -> (told: JsonView)
    ensures
        denial_text(reason) == json_compact(value_of(told)),
        ({
            let decision = field(told, "hookSpecificOutput"@)->0;
            &&& field(told, "hookSpecificOutput"@) is Some
            &&& field(decision, "hookEventName"@) == Some(JsonView::Text("PreToolUse"@))
            &&& field(decision, "permissionDecision"@) == Some(JsonView::Text("deny"@))
            &&& field(decision, "permissionDecisionReason"@) == Some(JsonView::Text(reason))
        }),
{
    let fields = no_fields()
        .push(("hookEventName"@, JsonView::Text("PreToolUse"@)))
        .push(("permissionDecision"@, JsonView::Text("deny"@)))
        .push(("permissionDecisionReason"@, JsonView::Text(reason)));
    reveal_strlit("hookEventName");
    reveal_strlit("permissionDecision");
    reveal_strlit("permissionDecisionReason");
    assert("hookEventName"@.len() == 13);
    assert("permissionDecision"@.len() == 18);
    assert("permissionDecisionReason"@.len() == 24);
    assert(distinct_keys(fields));
    lemma_field_at(fields, 0);
    lemma_field_at(fields, 1);
    lemma_field_at(fields, 2);
    lemma_ordered_field(fields, "hookEventName"@);
    lemma_ordered_field(fields, "permissionDecision"@);
    lemma_ordered_field(fields, "permissionDecisionReason"@);
    let outer = no_fields().push(("hookSpecificOutput"@, JsonView::Record(fields)));
    lemma_field_at(outer, 0);
    lemma_ordered_field(outer, "hookSpecificOutput"@);
    ordered(JsonView::Record(outer))
}

/// An answer is good exactly when it says so; what is said of one that is not is its own message
/// where it has one.
pub proof fn lemma_answers_say_how_they_are(answer: JsonView, otherwise: Seq<char>)
    ensures
        answer_fault(answer, otherwise) is None <==> flag_field(answer, "ok"@) == Some(true),
        flag_field(answer, "ok"@) != Some(true) && field(answer, "error"@) is Some && text_field(
            field(answer, "error"@)->0,
            "message"@,
        ) is Some ==> answer_fault(answer, otherwise) == text_field(
            field(answer, "error"@)->0,
            "message"@,
        ),
        flag_field(answer, "ok"@) != Some(true) && field(answer, "error"@) is None ==> answer_fault(
            answer,
            otherwise,
        ) == Some(otherwise),
{
}

} // verus!
