//! The command line of the server, and what its hooks answer.
use vstd::prelude::*;

use crate::adapters::tmux::error::{file_name, path_file_name};
use crate::client_config::Client;
use crate::flow::export::{order_fields, ordered};
use crate::json::{
    compact, field, json_compact, json_parse, no_fields, parse_json, text_field, value_of, Fields,
    Json, JsonView,
};
use crate::number::{read_i32, signed_value};
use crate::text::{cat2, cat3, same};

verus! {

broadcast use vstd::string::group_string_axioms;

/// How the server is called.
pub open spec fn usage() -> Seq<char> {
    "usage: humanize-plugin-mcp [--list-tools|--version|--print-client-config <target> --command <path>|--agent-ready-hook [--source <name>]|"@
        + Client::Codex.pre_tool_flag() + "|"@ + Client::Claude.pre_tool_flag() + "|"@
        + Client::Codex.stop_flag() + "|"@ + Client::Claude.stop_flag()
        + "|--participant-exited-hook --exit-status <code>|--guarded-tmux -- <tmux args...>|--guard-tmux-send [--owned-pane <target>...] [--current-pane <target>] -- <tmux args...>]"@
}

pub fn server_usage() -> (r: String)
    ensures
        r@ == usage(),
{
    let mut out = "usage: humanize-plugin-mcp [--list-tools|--version|--print-client-config <target> --command <path>|--agent-ready-hook [--source <name>]|".to_string();
    out.push_str(Client::Codex.pre_tool_use_flag().as_str());
    out.push_str("|");
    out.push_str(Client::Claude.pre_tool_use_flag().as_str());
    out.push_str("|");
    out.push_str(Client::Codex.stop_hook_flag().as_str());
    out.push_str("|");
    out.push_str(Client::Claude.stop_hook_flag().as_str());
    out.push_str(
        "|--participant-exited-hook --exit-status <code>|--guarded-tmux -- <tmux args...>|--guard-tmux-send [--owned-pane <target>...] [--current-pane <target>] -- <tmux args...>]",
    );
    out
}

/// What the server is called to do.
#[derive(Debug)]
pub enum ServerCommand {
    /// Serve.
    Serve,
    /// Keep what a pane shows.
    PipeSink(Vec<String>),
    ListTools,
    Version,
    /// Tell what the tool with the given name is configured with, for a command.
    PrintClientConfig(String, String),
    GuardTmuxSend(Vec<String>),
    AgentReadyHook(Vec<String>),
    PreToolUseHook,
    /// A session of the given tool wants to stop.
    StopHook(Client),
    ParticipantExitedHook(i32),
    GuardedTmux(Vec<String>),
}

#[verifier::ext_equal]
pub enum ServerCommandView {
    Serve,
    PipeSink(Seq<Seq<char>>),
    ListTools,
    Version,
    PrintClientConfig(Seq<char>, Seq<char>),
    GuardTmuxSend(Seq<Seq<char>>),
    AgentReadyHook(Seq<Seq<char>>),
    PreToolUseHook,
    StopHook(Client),
    ParticipantExitedHook(i32),
    GuardedTmux(Seq<Seq<char>>),
}

impl DeepView for ServerCommand {
    type V = ServerCommandView;

    open spec fn deep_view(&self) -> ServerCommandView {
        match self {
            ServerCommand::Serve => ServerCommandView::Serve,
            ServerCommand::PipeSink(args) => ServerCommandView::PipeSink(args.deep_view()),
            ServerCommand::ListTools => ServerCommandView::ListTools,
            ServerCommand::Version => ServerCommandView::Version,
            ServerCommand::PrintClientConfig(target, command) => {
                ServerCommandView::PrintClientConfig(target@, command@)
            },
            ServerCommand::GuardTmuxSend(args) => ServerCommandView::GuardTmuxSend(
                args.deep_view(),
            ),
            ServerCommand::AgentReadyHook(args) => ServerCommandView::AgentReadyHook(
                args.deep_view(),
            ),
            ServerCommand::PreToolUseHook => ServerCommandView::PreToolUseHook,
            ServerCommand::StopHook(client) => ServerCommandView::StopHook(*client),
            ServerCommand::ParticipantExitedHook(status) => {
                ServerCommandView::ParticipantExitedHook(*status)
            },
            ServerCommand::GuardedTmux(args) => ServerCommandView::GuardedTmux(args.deep_view()),
        }
    }
}

/// A message, and how the server is called.
pub open spec fn with_usage(message: Seq<char>) -> Seq<char> {
    message + "\n"@ + usage()
}

pub fn usage_error(message: &str) -> (r: String)
    ensures
        r@ == with_usage(message@),
{
    cat3(message, "\n", server_usage().as_str())
}

/// What the server is called to do.
pub open spec fn server_command(args: Seq<Seq<char>>) -> Result<ServerCommandView, Seq<char>> {
    let rest = args.skip(1);
    if args.len() == 0 {
        Ok(ServerCommandView::Serve)
    } else if args[0] == "--pipe-sink"@ {
        Ok(ServerCommandView::PipeSink(rest))
    } else if args.len() == 1 && args[0] == "--list-tools"@ {
        Ok(ServerCommandView::ListTools)
    } else if args.len() == 1 && args[0] == "--version"@ {
        Ok(ServerCommandView::Version)
    } else if args.len() == 4 && args[0] == "--print-client-config"@ && args[2] == "--command"@ {
        Ok(ServerCommandView::PrintClientConfig(args[1], args[3]))
    } else if args[0] == "--guard-tmux-send"@ {
        Ok(ServerCommandView::GuardTmuxSend(rest))
    } else if args[0] == "--agent-ready-hook"@ {
        Ok(ServerCommandView::AgentReadyHook(rest))
    } else if args.len() == 1 && (args[0] == Client::Codex.pre_tool_flag() || args[0]
        == Client::Claude.pre_tool_flag()) {
        Ok(ServerCommandView::PreToolUseHook)
    } else if args.len() == 1 && args[0] == Client::Codex.stop_flag() {
        Ok(ServerCommandView::StopHook(Client::Codex))
    } else if args.len() == 1 && args[0] == Client::Claude.stop_flag() {
        Ok(ServerCommandView::StopHook(Client::Claude))
    } else if args.len() == 3 && args[0] == "--participant-exited-hook"@ && args[1]
        == "--exit-status"@ {
        match signed_value(args[2]) {
            Some(status) => Ok(ServerCommandView::ParticipantExitedHook(status)),
            None => Err(with_usage("invalid participant exit status"@)),
        }
    } else if args[0] == "--guarded-tmux"@ {
        Ok(ServerCommandView::GuardedTmux(rest))
    } else if args[0] == "--print-client-config"@ {
        Err(with_usage("missing client config target or command"@))
    } else {
        Err(usage())
    }
}

/// The words from the given one on.
fn words_behind(args: &Vec<String>, start: usize) -> (r: Vec<String>)
    requires
        start <= args.len(),
    ensures
        r.deep_view() == args.deep_view().skip(start as int),
{
    let ghost model = args.deep_view();
    let mut out: Vec<String> = Vec::new();
    let mut i: usize = start;
    assert(out.deep_view() =~= model.subrange(start as int, i as int));
    while i < args.len()
        invariant
            start <= i <= args.len(),
            model == args.deep_view(),
            out.deep_view() == model.subrange(start as int, i as int),
        decreases args.len() - i,
    {
        let ghost before = out.deep_view();
        out.push(args[i].clone());
        proof {
            assert(out.deep_view() =~= before.push(args@[i as int]@));
            assert(model.subrange(start as int, i + 1) =~= model.subrange(start as int, i as int).push(
                model[i as int],
            ));
        }
        i += 1;
    }
    assert(model.subrange(start as int, i as int) =~= model.skip(start as int));
    out
}

/// Reads the words that the server is called with.
pub fn parse_server_command(args: &Vec<String>) -> (r: Result<ServerCommand, String>)
    ensures
        match r {
            Ok(command) => server_command(args.deep_view()) == Ok::<ServerCommandView, Seq<char>>(
                command.deep_view(),
            ),
            Err(message) => server_command(args.deep_view()) == Err::<
                ServerCommandView,
                Seq<char>,
            >(message@),
        },
{
    let ghost model = args.deep_view();
    if args.len() == 0 {
        return Ok(ServerCommand::Serve);
    }
    let n: usize = args.len();
    let first = args[0].as_str();
    proof {
        assert(model[0] == args@[0]@);
        if n == 4 {
            assert(model[1] == args@[1]@);
            assert(model[2] == args@[2]@);
            assert(model[3] == args@[3]@);
        }
        if n == 3 {
            assert(model[1] == args@[1]@);
            assert(model[2] == args@[2]@);
        }
    }
    if same(first, "--pipe-sink") {
        return Ok(ServerCommand::PipeSink(words_behind(args, 1)));
    }
    if n == 1 && same(first, "--list-tools") {
        return Ok(ServerCommand::ListTools);
    }
    if n == 1 && same(first, "--version") {
        return Ok(ServerCommand::Version);
    }
    if n == 4 && same(first, "--print-client-config") && same(args[2].as_str(), "--command") {
        return Ok(ServerCommand::PrintClientConfig(args[1].clone(), args[3].clone()));
    }
    if same(first, "--guard-tmux-send") {
        return Ok(ServerCommand::GuardTmuxSend(words_behind(args, 1)));
    }
    if same(first, "--agent-ready-hook") {
        return Ok(ServerCommand::AgentReadyHook(words_behind(args, 1)));
    }
    if n == 1 && (same(first, Client::Codex.pre_tool_use_flag().as_str()) || same(
        first,
        Client::Claude.pre_tool_use_flag().as_str(),
    )) {
        return Ok(ServerCommand::PreToolUseHook);
    }
    if n == 1 && same(first, Client::Codex.stop_hook_flag().as_str()) {
        return Ok(ServerCommand::StopHook(Client::Codex));
    }
    if n == 1 && same(first, Client::Claude.stop_hook_flag().as_str()) {
        return Ok(ServerCommand::StopHook(Client::Claude));
    }
    if n == 3 && same(first, "--participant-exited-hook") && same(
        args[1].as_str(),
        "--exit-status",
    ) {
        return match read_i32(args[2].as_str()) {
            Some(status) => Ok(ServerCommand::ParticipantExitedHook(status)),
            None => Err(usage_error("invalid participant exit status")),
        };
    }
    if same(first, "--guarded-tmux") {
        return Ok(ServerCommand::GuardedTmux(words_behind(args, 1)));
    }
    if same(first, "--print-client-config") {
        return Err(usage_error("missing client config target or command"));
    }
    Err(server_usage())
}

/// A command to tmux that is to be looked at.
#[derive(Debug)]
pub struct GuardArgs {
    /// The panes that are owned, where they are told.
    pub owned_panes: Vec<String>,
    pub current_pane: Option<String>,
    pub tmux_args: Vec<String>,
}

#[verifier::ext_equal]
pub struct GuardArgsView {
    pub owned_panes: Seq<Seq<char>>,
    pub current_pane: Option<Seq<char>>,
    pub tmux_args: Seq<Seq<char>>,
}

impl DeepView for GuardArgs {
    type V = GuardArgsView;

    open spec fn deep_view(&self) -> GuardArgsView {
        GuardArgsView {
            owned_panes: self.owned_panes.deep_view(),
            current_pane: self.current_pane.deep_view(),
            tmux_args: self.tmux_args.deep_view(),
        }
    }
}

/// What the words from the `i`-th on ask to look at.
pub open spec fn guard_from(
    args: Seq<Seq<char>>,
    i: int,
    owned_panes: Seq<Seq<char>>,
    current_pane: Option<Seq<char>>,
) -> Result<GuardArgsView, Seq<char>>
    decreases args.len() - i,
{
    if i < 0 || i >= args.len() {
        Err("missing tmux arguments"@)
    } else if args[i] == "--owned-pane"@ {
        if i + 1 < args.len() {
            guard_from(args, i + 2, owned_panes.push(args[i + 1]), current_pane)
        } else {
            Err("missing owned pane target"@)
        }
    } else if args[i] == "--current-pane"@ {
        if i + 1 < args.len() {
            guard_from(args, i + 2, owned_panes, Some(args[i + 1]))
        } else {
            Err("missing current pane target"@)
        }
    } else if args[i] == "--"@ {
        if i + 1 < args.len() {
            Ok(GuardArgsView { owned_panes, current_pane, tmux_args: args.skip(i + 1) })
        } else {
            Err("missing tmux arguments"@)
        }
    } else {
        Err("unknown guard argument: "@ + args[i])
    }
}

impl GuardArgs {
    /// Reads what is to be looked at.
    pub fn parse(args: &Vec<String>) -> (r: Result<Self, String>)
        ensures
            ({
                let told = guard_from(args.deep_view(), 0, Seq::empty(), None);
                match r {
                    Ok(guard) => told == Ok::<GuardArgsView, Seq<char>>(guard.deep_view()),
                    Err(message) => told is Err && message@ == with_usage(told->Err_0),
                }
            }),
    {
        let ghost model = args.deep_view();
        let mut owned_panes: Vec<String> = Vec::new();
        let mut current_pane: Option<String> = None;
        let mut i: usize = 0;
        assert(owned_panes.deep_view() =~= Seq::<Seq<char>>::empty());
        while i < args.len()
            invariant
                i <= args.len(),
                model == args.deep_view(),
                guard_from(model, 0, Seq::empty(), None) == guard_from(
                    model,
                    i as int,
                    owned_panes.deep_view(),
                    current_pane.deep_view(),
                ),
            decreases args.len() - i,
        {
            assert(model[i as int] == args@[i as int]@);
            let arg = args[i].as_str();
            if same(arg, "--owned-pane") {
                if i + 1 >= args.len() {
                    return Err(usage_error("missing owned pane target"));
                }
                let ghost before = owned_panes.deep_view();
                owned_panes.push(args[i + 1].clone());
                proof {
                    assert(model[i + 1] == args@[i + 1]@);
                    assert(owned_panes.deep_view() =~= before.push(args@[i + 1]@));
                }
                i += 2;
            } else if same(arg, "--current-pane") {
                if i + 1 >= args.len() {
                    return Err(usage_error("missing current pane target"));
                }
                assert(model[i + 1] == args@[i + 1]@);
                current_pane = Some(args[i + 1].clone());
                i += 2;
            } else if same(arg, "--") {
                if i + 1 >= args.len() {
                    return Err(usage_error("missing tmux arguments"));
                }
                return Ok(
                    GuardArgs { owned_panes, current_pane, tmux_args: words_behind(args, i + 1) },
                );
            } else {
                return Err(usage_error(cat2("unknown guard argument: ", arg).as_str()));
            }
        }
        Err(usage_error("missing tmux arguments"))
    }
}

/// What the words from the `i`-th on say of where an agent got ready.
pub open spec fn ready_from(args: Seq<Seq<char>>, i: int, source: Seq<char>) -> Result<
    Seq<char>,
    Seq<char>,
>
    decreases args.len() - i,
{
    if i < 0 || i >= args.len() {
        Ok(source)
    } else if args[i] == "--source"@ {
        if i + 1 < args.len() {
            ready_from(args, i + 2, args[i + 1])
        } else {
            Err("missing ready source"@)
        }
    } else {
        Err("unknown ready argument: "@ + args[i])
    }
}

/// Where an agent got ready.
pub fn ready_source(args: &Vec<String>) -> (r: Result<String, String>)
    ensures
        ({
            let told = ready_from(args.deep_view(), 0, "session_start"@);
            match r {
                Ok(source) => told == Ok::<Seq<char>, Seq<char>>(source@),
                Err(message) => told is Err && message@ == with_usage(told->Err_0),
            }
        }),
{
    let ghost model = args.deep_view();
    let mut source = "session_start".to_string();
    let mut i: usize = 0;
    while i < args.len()
        invariant
            i <= args.len(),
            model == args.deep_view(),
            ready_from(model, 0, "session_start"@) == ready_from(model, i as int, source@),
        decreases args.len() - i,
    {
        assert(model[i as int] == args@[i as int]@);
        if !same(args[i].as_str(), "--source") {
            return Err(
                usage_error(cat2("unknown ready argument: ", args[i].as_str()).as_str()),
            );
        }
        if i + 1 >= args.len() {
            return Err(usage_error("missing ready source"));
        }
        assert(model[i + 1] == args@[i + 1]@);
        source = args[i + 1].clone();
        i += 2;
    }
    Ok(source)
}

/// Whether a word is the program tmux.
pub open spec fn is_tmux(word: Seq<char>) -> bool {
    file_name(word) == Some("tmux"@)
}

fn is_tmux_program(word: &str) -> (r: bool)
    ensures
        r == is_tmux(word@),
{
    match path_file_name(word) {
        Some(name) => same(name.as_str(), "tmux"),
        None => false,
    }
}

/// A command to tmux with the program before it.
pub open spec fn tmux_argv(args: Seq<Seq<char>>) -> Seq<Seq<char>> {
    if args.len() > 0 && is_tmux(args[0]) {
        args
    } else {
        seq!["tmux"@] + args
    }
}

pub fn guard_tmux_argv(tmux_args: &Vec<String>) -> (r: Vec<String>)
    ensures
        r.deep_view() == tmux_argv(tmux_args.deep_view()),
{
    let ghost model = tmux_args.deep_view();
    let mut out: Vec<String> = Vec::new();
    let mut named = false;
    if tmux_args.len() > 0 {
        assert(model[0] == tmux_args@[0]@);
        named = is_tmux_program(tmux_args[0].as_str());
    }
    if named {
        let words = words_behind(tmux_args, 0);
        assert(model.skip(0) =~= model);
        return words;
    }
    out.push("tmux".to_string());
    let ghost head = seq!["tmux"@];
    assert(out.deep_view() =~= head + model.take(0));
    let mut i: usize = 0;
    while i < tmux_args.len()
        invariant
            i <= tmux_args.len(),
            model == tmux_args.deep_view(),
            out.deep_view() == head + model.take(i as int),
        decreases tmux_args.len() - i,
    {
        let ghost before = out.deep_view();
        out.push(tmux_args[i].clone());
        proof {
            assert(out.deep_view() =~= before.push(tmux_args@[i as int]@));
            assert(head + model.take(i + 1) =~= (head + model.take(i as int)).push(
                model[i as int],
            ));
        }
        i += 1;
    }
    assert(model.take(i as int) =~= model);
    out
}

/// Words without a leading `--`.
pub open spec fn past_dashes(args: Seq<Seq<char>>) -> Seq<Seq<char>> {
    if args.len() > 0 && args[0] == "--"@ {
        args.skip(1)
    } else {
        args
    }
}

pub fn strip_double_dash(args: &Vec<String>) -> (r: Vec<String>)
    ensures
        r.deep_view() == past_dashes(args.deep_view()),
{
    if args.len() > 0 {
        assert(args.deep_view()[0] == args@[0]@);
        if same(args[0].as_str(), "--") {
            return words_behind(args, 1);
        }
    }
    assert(args.deep_view().skip(0) =~= args.deep_view());
    words_behind(args, 0)
}

/// The command that a tool is about to run.
pub open spec fn tool_command(input: Seq<char>) -> Option<Seq<char>> {
    match json_parse(input) {
        Ok(event) => if text_field(event, "hook_event_name"@) == Some("PreToolUse"@)
            && text_field(event, "tool_name"@) == Some("Bash"@) {
            match field(event, "tool_input"@) {
                Some(input) => text_field(input, "command"@),
                None => None,
            }
        } else {
            None
        },
        Err(_) => None,
    }
}

/// The command that a tool is about to run, from what its hook reads.
pub fn native_hook_command(input: &str) -> (r: Option<String>)
    ensures
        r.deep_view() == tool_command(input@),
{
    let event = match parse_json(input) {
        Ok(event) => event,
        Err(_) => return None,
    };
    let meant = match (event.text_at("hook_event_name"), event.text_at("tool_name")) {
        (Some(name), Some(tool)) => same(name, "PreToolUse") && same(tool, "Bash"),
        _ => false,
    };
    if !meant {
        return None;
    }
    match event.get("tool_input") {
        Some(input) => match input.text_at("command") {
            Some(command) => Some(command.to_string()),
            None => None,
        },
        None => None,
    }
}

/// What was found of a command that a tool is about to run.
#[derive(Debug)]
pub enum CommandFinding {
    /// The request could not be read.
    Unread,
    /// The panes that are owned are not known.
    OwnersUnknown,
    /// The command could not be looked at.
    Unclear,
    /// It sends nothing to an owned pane.
    Harmless,
    /// It sends to a pane, and the owner is not known.
    OwnerUnknown,
    /// It sends to an owned pane, for the given reason it must not; this could not be recorded.
    Unrecorded,
    /// It sends to an owned pane, for the given reason it must not.
    Blocked(String),
}

/// Why a command is not run.
pub open spec fn denial(finding: CommandFinding) -> Option<Seq<char>> {
    match finding {
        CommandFinding::Harmless => None,
        CommandFinding::Unread => Some(
            "The native hook request did not match the supported Humanize PreToolUse protocol. The command remains denied; repair the hook integration before retrying."@,
        ),
        CommandFinding::OwnersUnknown => Some(
            "Humanize tmux ownership could not be verified. Route model control through MCP and repair the durable run metadata."@,
        ),
        CommandFinding::Unclear => Some(
            "The shell command could not be safely inspected for tmux input. Use literal supported shell syntax and route Humanize pane control through MCP."@,
        ),
        CommandFinding::OwnerUnknown => Some(
            "Humanize tmux ownership could not be resolved safely. Route model control through MCP and repair the durable run metadata."@,
        ),
        CommandFinding::Unrecorded => Some(
            "The blocked Humanize tmux input attempt could not be durably recorded. The command remains denied; route model control through MCP and repair run storage."@,
        ),
        CommandFinding::Blocked(reason) => Some(reason@),
    }
}

/// Why a command is not run.
pub fn pre_tool_use_denial(finding: &CommandFinding) -> (r: Option<String>)
    ensures
        r.deep_view() == denial(*finding),
{
    match finding {
        CommandFinding::Harmless => None,
        CommandFinding::Unread => Some(
            "The native hook request did not match the supported Humanize PreToolUse protocol. The command remains denied; repair the hook integration before retrying.".to_string(),
        ),
        CommandFinding::OwnersUnknown => Some(
            "Humanize tmux ownership could not be verified. Route model control through MCP and repair the durable run metadata.".to_string(),
        ),
        CommandFinding::Unclear => Some(
            "The shell command could not be safely inspected for tmux input. Use literal supported shell syntax and route Humanize pane control through MCP.".to_string(),
        ),
        CommandFinding::OwnerUnknown => Some(
            "Humanize tmux ownership could not be resolved safely. Route model control through MCP and repair the durable run metadata.".to_string(),
        ),
        CommandFinding::Unrecorded => Some(
            "The blocked Humanize tmux input attempt could not be durably recorded. The command remains denied; route model control through MCP and repair run storage.".to_string(),
        ),
        CommandFinding::Blocked(reason) => Some(reason.clone()),
    }
}

/// Only a command that was looked at and sends nothing to an owned pane is run.
pub proof fn lemma_only_harmless_commands_run(finding: CommandFinding)
    ensures
        denial(finding) is None ==> finding is Harmless,
{
}

/// What a tool is told so that it does not run a command.
pub open spec fn denial_text(reason: Seq<char>) -> Seq<char> {
    json_compact(
        value_of(
            ordered(
                JsonView::Record(
                    no_fields().push(
                        (
                            "hookSpecificOutput"@,
                            JsonView::Record(
                                no_fields()
                                    .push(("hookEventName"@, JsonView::Text("PreToolUse"@)))
                                    .push(("permissionDecision"@, JsonView::Text("deny"@)))
                                    .push(("permissionDecisionReason"@, JsonView::Text(reason))),
                            ),
                        ),
                    ),
                ),
            ),
        ),
    )
}

pub fn hook_denial(reason: &str) -> (r: String)
    ensures
        r@ == denial_text(reason@),
{
    let output = Fields::new()
        .put("hookEventName", Json::text("PreToolUse"))
        .put("permissionDecision", Json::text("deny"))
        .put("permissionDecisionReason", Json::text(reason))
        .done();
    compact(&order_fields(&Fields::new().put("hookSpecificOutput", output).done()))
}

/// A command that was kept from an owned pane, as far as it is told.
#[derive(Debug)]
pub struct BlockedEvidence {
    pub evidence_hash: String,
    pub operation: String,
    pub option_flags: Json,
    pub target_hash: String,
    pub payload_hash: String,
    pub payload_length: u64,
}

/// What the driver is told of a command that was kept from an owned pane. The pane of the driver
/// belongs to no activation.
pub open spec fn blocked_arguments(
    session_id: Seq<char>,
    activation_id: Seq<char>,
    hook: Seq<char>,
    evidence: BlockedEvidence,
) -> JsonView {
    let payload = JsonView::Record(
        no_fields()
            .push(("decision"@, JsonView::Text("blocked"@)))
            .push(("operation"@, JsonView::Text(evidence.operation@)))
            .push(("option_flags"@, evidence.option_flags@))
            .push(("target_hash"@, JsonView::Text(evidence.target_hash@)))
            .push(("payload_hash"@, JsonView::Text(evidence.payload_hash@)))
            .push(("payload_length"@, JsonView::Unsigned(evidence.payload_length))),
    );
    let told = no_fields()
        .push(("session_id"@, JsonView::Text(session_id)))
        .push(("hook"@, JsonView::Text(hook)))
        .push(
        (
            "source_native_id"@,
            JsonView::Text("tmux_guard_blocked:"@ + evidence.evidence_hash@),
        ),
    ).push(("payload"@, payload));
    if activation_id == "driver"@ {
        JsonView::Record(told)
    } else {
        JsonView::Record(told.push(("activation_id"@, JsonView::Text(activation_id))))
    }
}

pub fn blocked_attempt_arguments(
    session_id: &str,
    activation_id: &str,
    hook: &str,
    evidence: &BlockedEvidence,
) -> (r: Json)
    ensures
        r@ == blocked_arguments(session_id@, activation_id@, hook@, *evidence),
{
    let payload = Fields::new()
        .put("decision", Json::text("blocked"))
        .put("operation", Json::text(evidence.operation.as_str()))
        .put("option_flags", evidence.option_flags.clone())
        .put("target_hash", Json::text(evidence.target_hash.as_str()))
        .put("payload_hash", Json::text(evidence.payload_hash.as_str()))
        .put("payload_length", Json::Unsigned(evidence.payload_length))
        .done();
    let told = Fields::new()
        .put("session_id", Json::text(session_id))
        .put("hook", Json::text(hook))
        .put(
        "source_native_id",
        Json::text(cat2("tmux_guard_blocked:", evidence.evidence_hash.as_str()).as_str()),
    ).put("payload", payload);
    if same(activation_id, "driver") {
        told.done()
    } else {
        told.put("activation_id", Json::text(activation_id)).done()
    }
}

} // verus!
