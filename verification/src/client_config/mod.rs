//! What the tools that agents run in are configured with.
use vstd::prelude::*;

use crate::adapters::tmux::pipe::{
    lemma_quoting_keeps_the_text, shell_quoted, shell_single_quote_str, shell_value,
};
use crate::flow::export::{order_fields, ordered};
use crate::json::{
    compact, json_compact, json_pretty, no_fields, pretty, value_of, Fields, Json, JsonView,
};
use crate::text::{blank, cat2, cat3, is_blank, same};

pub mod hearing;
pub mod hooks;
pub mod offering;

verus! {

broadcast use vstd::string::group_string_axioms;

/// A tool that agents run in.
#[derive(Debug, Clone, Copy, PartialEq, Eq, Structural)]
pub enum Client {
    Codex,
    Claude,
}

impl Client {
    /// What the sources of its hooks begin with: its name and an underscore.
    pub open spec fn prefix(self) -> Seq<char> {
        match self {
            Client::Codex => "codex_"@,
            Client::Claude => "claude_"@,
        }
    }

    /// Its name.
    pub open spec fn name(self) -> Seq<char> {
        self.prefix().drop_last()
    }

    pub fn source_prefix(self) -> (r: &'static str)
        ensures
            r@ == self.prefix(),
            r@.len() > 0,
    {
        proof {
            reveal_strlit("codex_");
            reveal_strlit("claude_");
        }
        match self {
            Client::Codex => "codex_",
            Client::Claude => "claude_",
        }
    }

    pub fn to_text(self) -> (r: String)
        ensures
            r@ == self.name(),
    {
        let prefix = self.source_prefix();
        let n: usize = prefix.unicode_len();
        let name = prefix.substring_char(0, n - 1);
        assert(name@ =~= self.prefix().drop_last());
        name.to_string()
    }

    /// The word that calls its hook before it uses a tool.
    pub open spec fn pre_tool_flag(self) -> Seq<char> {
        "--"@ + self.name() + "-pre-tool-use-hook"@
    }

    pub fn pre_tool_use_flag(self) -> (r: String)
        ensures
            r@ == self.pre_tool_flag(),
    {
        cat3("--", self.to_text().as_str(), "-pre-tool-use-hook")
    }

    /// The word that calls its hook when a session wants to stop.
    pub open spec fn stop_flag(self) -> Seq<char> {
        "--"@ + self.name() + "-stop-hook"@
    }

    pub fn stop_hook_flag(self) -> (r: String)
        ensures
            r@ == self.stop_flag(),
    {
        cat3("--", self.to_text().as_str(), "-stop-hook")
    }
}

/// What is configured, and how it is written.
#[derive(Debug, Clone, Copy, PartialEq, Eq, Structural)]
pub enum ClientConfigTarget {
    CodexSession,
    CodexPersistent,
    CodexHooksJson,
    ClaudeProject,
    ClaudeSessionJson,
    ClaudeHooksJson,
}

impl ClientConfigTarget {
    pub open spec fn tool(self) -> Client {
        match self {
            ClientConfigTarget::CodexSession => Client::Codex,
            ClientConfigTarget::CodexPersistent => Client::Codex,
            ClientConfigTarget::CodexHooksJson => Client::Codex,
            ClientConfigTarget::ClaudeProject => Client::Claude,
            ClientConfigTarget::ClaudeSessionJson => Client::Claude,
            ClientConfigTarget::ClaudeHooksJson => Client::Claude,
        }
    }

    pub open spec fn form(self) -> Seq<char> {
        match self {
            ClientConfigTarget::CodexSession => "-session"@,
            ClientConfigTarget::CodexPersistent => "-persistent"@,
            ClientConfigTarget::CodexHooksJson => "-hooks-json"@,
            ClientConfigTarget::ClaudeProject => "-project"@,
            ClientConfigTarget::ClaudeSessionJson => "-session-json"@,
            ClientConfigTarget::ClaudeHooksJson => "-hooks-json"@,
        }
    }

    /// How the target is called: by the tool, and by what is configured.
    pub open spec fn name(self) -> Seq<char> {
        self.tool().name() + self.form()
    }

    pub fn client(self) -> (r: Client)
        ensures
            r == self.tool(),
    {
        match self {
            ClientConfigTarget::CodexSession => Client::Codex,
            ClientConfigTarget::CodexPersistent => Client::Codex,
            ClientConfigTarget::CodexHooksJson => Client::Codex,
            ClientConfigTarget::ClaudeProject => Client::Claude,
            ClientConfigTarget::ClaudeSessionJson => Client::Claude,
            ClientConfigTarget::ClaudeHooksJson => Client::Claude,
        }
    }

    pub fn to_text(self) -> (r: String)
        ensures
            r@ == self.name(),
    {
        let form = match self {
            ClientConfigTarget::CodexSession => "-session",
            ClientConfigTarget::CodexPersistent => "-persistent",
            ClientConfigTarget::CodexHooksJson => "-hooks-json",
            ClientConfigTarget::ClaudeProject => "-project",
            ClientConfigTarget::ClaudeSessionJson => "-session-json",
            ClientConfigTarget::ClaudeHooksJson => "-hooks-json",
        };
        cat2(self.client().to_text().as_str(), form)
    }

    /// The target with a name.
    pub fn from_str(value: &str) -> (r: Result<Self, ClientConfigError>)
        ensures
            match r {
                Ok(target) => target.name() == value@,
                Err(error) => {
                    &&& forall|target: ClientConfigTarget| #[trigger] target.name() != value@
                    &&& error.deep_view() == ClientConfigErrorView::UnknownTarget(value@)
                },
            },
    {
        if same(value, ClientConfigTarget::CodexSession.to_text().as_str()) {
            Ok(ClientConfigTarget::CodexSession)
        } else if same(value, ClientConfigTarget::CodexPersistent.to_text().as_str()) {
            Ok(ClientConfigTarget::CodexPersistent)
        } else if same(value, ClientConfigTarget::CodexHooksJson.to_text().as_str()) {
            Ok(ClientConfigTarget::CodexHooksJson)
        } else if same(value, ClientConfigTarget::ClaudeProject.to_text().as_str()) {
            Ok(ClientConfigTarget::ClaudeProject)
        } else if same(value, ClientConfigTarget::ClaudeSessionJson.to_text().as_str()) {
            Ok(ClientConfigTarget::ClaudeSessionJson)
        } else if same(value, ClientConfigTarget::ClaudeHooksJson.to_text().as_str()) {
            Ok(ClientConfigTarget::ClaudeHooksJson)
        } else {
            Err(ClientConfigError::UnknownTarget(value.to_string()))
        }
    }
}

/// No two targets have the same name.
pub proof fn lemma_target_names_differ(a: ClientConfigTarget, b: ClientConfigTarget)
    requires
        a.name() == b.name(),
    ensures
        a == b,
{
    reveal_strlit("codex_");
    reveal_strlit("claude_");
    reveal_strlit("-session");
    reveal_strlit("-persistent");
    reveal_strlit("-hooks-json");
    reveal_strlit("-project");
    reveal_strlit("-session-json");
    assert(Client::Codex.name().len() == 5);
    assert(Client::Claude.name().len() == 6);
    assert("-session"@.len() == 8);
    assert("-persistent"@.len() == 11);
    assert("-hooks-json"@.len() == 11);
    assert("-project"@.len() == 8);
    assert("-session-json"@.len() == 13);
    assert(a.name()[1] == a.tool().prefix()[1]);
    assert(b.name()[1] == b.tool().prefix()[1]);
    assert("codex_"@[1] == 'o' && "claude_"@[1] == 'l');
    assert(a.tool() == b.tool());
    assert(a.name().len() == a.tool().name().len() + a.form().len());
    assert(b.name().len() == b.tool().name().len() + b.form().len());
    if a.tool() == Client::Codex {
        assert(a.name()[6] == a.form()[1]);
        assert(b.name()[6] == b.form()[1]);
        assert("-persistent"@[1] == 'p' && "-hooks-json"@[1] == 'h');
    }
}

/// Why nothing could be configured.
#[derive(Debug, PartialEq, Eq)]
pub enum ClientConfigError {
    EmptyCommand,
    UnknownTarget(String),
}

#[verifier::ext_equal]
pub enum ClientConfigErrorView {
    EmptyCommand,
    UnknownTarget(Seq<char>),
}

impl DeepView for ClientConfigError {
    type V = ClientConfigErrorView;

    open spec fn deep_view(&self) -> ClientConfigErrorView {
        match self {
            ClientConfigError::EmptyCommand => ClientConfigErrorView::EmptyCommand,
            ClientConfigError::UnknownTarget(target) => ClientConfigErrorView::UnknownTarget(
                target@,
            ),
        }
    }
}

impl ClientConfigErrorView {
    pub open spec fn text(self) -> Seq<char> {
        match self {
            ClientConfigErrorView::EmptyCommand => "client config command must not be empty"@,
            ClientConfigErrorView::UnknownTarget(target) => "unknown client config target: "@
                + target,
        }
    }
}

impl ClientConfigError {
    pub fn to_text(&self) -> (r: String)
        ensures
            r@ == self.deep_view().text(),
    {
        match self {
            ClientConfigError::EmptyCommand => "client config command must not be empty".to_string(),
            ClientConfigError::UnknownTarget(target) => cat2(
                "unknown client config target: ",
                target.as_str(),
            ),
        }
    }
}

/// Whether a character means itself to a shell.
pub open spec fn is_plain(c: char) -> bool {
    ||| 'a' <= c <= 'z'
    ||| 'A' <= c <= 'Z'
    ||| '0' <= c <= '9'
    ||| c == '/'
    ||| c == '.'
    ||| c == '_'
    ||| c == '-'
    ||| c == '+'
    ||| c == '='
    ||| c == ':'
}

fn is_safe_shell_word(c: char) -> (r: bool)
    ensures
        r == is_plain(c),
{
    ('a' <= c && c <= 'z') || ('A' <= c && c <= 'Z') || ('0' <= c && c <= '9') || c == '/' || c
        == '.' || c == '_' || c == '-' || c == '+' || c == '=' || c == ':'
}

/// Whether a text means itself to a shell.
pub open spec fn all_plain(s: Seq<char>) -> bool {
    forall|i: int| 0 <= i < s.len() ==> is_plain(#[trigger] s[i])
}

/// A text as a word of a shell command, quoted where it must be.
pub open spec fn word(s: Seq<char>) -> Seq<char> {
    if all_plain(s) {
        s
    } else {
        shell_quoted(s)
    }
}

fn shell_word(value: &str) -> (r: String)
    ensures
        r@ == word(value@),
{
    let n: usize = value.unicode_len();
    let mut i: usize = 0;
    while i < n
        invariant
            i <= n,
            n == value@.len(),
            forall|j: int| 0 <= j < i ==> is_plain(#[trigger] value@[j]),
        decreases n - i,
    {
        if !is_safe_shell_word(value.get_char(i)) {
            return shell_single_quote_str(value);
        }
        i += 1;
    }
    value.to_string()
}

/// A shell reads a word back as the text that it was made from.
pub proof fn lemma_words_keep_their_text(s: Seq<char>)
    ensures
        word(s) == s && all_plain(s) || shell_value(word(s), false) == Some(s),
{
    lemma_quoting_keeps_the_text(s);
}

/// One command that is run at an occasion.
pub open spec fn hook_json(command: Seq<char>, status: Seq<char>) -> JsonView {
    JsonView::Record(
        no_fields()
            .push(("type"@, JsonView::Text("command"@)))
            .push(("command"@, JsonView::Text(command)))
            .push(("statusMessage"@, JsonView::Text(status))),
    )
}

fn hook(command: &str, status: &str) -> (r: Json)
    ensures
        r@ == hook_json(command@, status@),
{
    Fields::new()
        .put("type", Json::text("command"))
        .put("command", Json::text(command))
        .put("statusMessage", Json::text(status))
        .done()
}

/// One command for every case of an occasion, or for those that a word names.
pub open spec fn occasion(matcher: Option<Seq<char>>, hook: JsonView) -> JsonView {
    let hooks = JsonView::List(Seq::<JsonView>::empty().push(hook));
    let entry = match matcher {
        Some(name) => no_fields().push(("matcher"@, JsonView::Text(name))).push(
            ("hooks"@, hooks),
        ),
        None => no_fields().push(("hooks"@, hooks)),
    };
    JsonView::List(Seq::<JsonView>::empty().push(JsonView::Record(entry)))
}

fn single(item: Json) -> (r: Json)
    ensures
        r@ == JsonView::List(Seq::<JsonView>::empty().push(item@)),
{
    let mut items: Vec<Json> = Vec::new();
    assert(items.deep_view() =~= Seq::<JsonView>::empty());
    items.push(item);
    assert(items.deep_view() =~= Seq::<JsonView>::empty().push(item@));
    Json::list(items)
}

fn occasion_json(matcher: Option<&str>, hook: Json) -> (r: Json)
    ensures
        r@ == occasion(
            match matcher {
                Some(name) => Some(name@),
                None => None,
            },
            hook@,
        ),
{
    let hooks = single(hook);
    let entry = match matcher {
        Some(name) => Fields::new().put("matcher", Json::text(name)).put("hooks", hooks).done(),
        None => Fields::new().put("hooks", hooks).done(),
    };
    single(entry)
}

/// The commands that are run when a session starts, before it uses a tool, and when it stops.
pub open spec fn hooks_value(command: Seq<char>, client: Client) -> JsonView {
    let name = word(command);
    let source = client.prefix() + "session_start"@;
    JsonView::Record(
        no_fields().push(
            (
                "hooks"@,
                JsonView::Record(
                    no_fields()
                        .push(
                        (
                            "SessionStart"@,
                            occasion(
                                None,
                                hook_json(
                                    name + " --agent-ready-hook --source "@ + source,
                                    "Recording Humanize agent readiness"@,
                                ),
                            ),
                        ),
                    ).push(
                        (
                            "PreToolUse"@,
                            occasion(
                                Some("Bash"@),
                                hook_json(
                                    name + " "@ + client.pre_tool_flag(),
                                    "Checking Humanize tmux ownership"@,
                                ),
                            ),
                        ),
                    ).push(
                        (
                            "Stop"@,
                            occasion(
                                None,
                                hook_json(
                                    name + " "@ + client.stop_flag(),
                                    "Validating Humanize participant completion"@,
                                ),
                            ),
                        ),
                    ),
                ),
            ),
        ),
    )
}

/// The hooks as text.
pub open spec fn hooks_text(command: Seq<char>, client: Client) -> Seq<char> {
    json_pretty(value_of(ordered(hooks_value(command, client))))
}

fn render_hooks_json(command: &str, client: Client) -> (r: String)
    ensures
        r@ == hooks_text(command@, client),
{
    let name = shell_word(command);
    let source = cat2(client.source_prefix(), "session_start");
    let ready = cat3(name.as_str(), " --agent-ready-hook --source ", source.as_str());
    let guard = cat3(name.as_str(), " ", client.pre_tool_use_flag().as_str());
    let stop = cat3(name.as_str(), " ", client.stop_hook_flag().as_str());
    let occasions = Fields::new()
        .put(
        "SessionStart",
        occasion_json(None, hook(ready.as_str(), "Recording Humanize agent readiness")),
    ).put(
        "PreToolUse",
        occasion_json(Some("Bash"), hook(guard.as_str(), "Checking Humanize tmux ownership")),
    ).put(
        "Stop",
        occasion_json(None, hook(stop.as_str(), "Validating Humanize participant completion")),
    ).done();
    pretty(&order_fields(&Fields::new().put("hooks", occasions).done()))
}

/// The command that runs a session with the server.
pub open spec fn codex_session(command: Seq<char>) -> Seq<char> {
    "codex -C \"$PWD\" \\\n  -c "@ + shell_quoted(
        "mcp_servers.humanize_plugin.command="@ + json_compact(
            value_of(JsonView::Text(command)),
        ),
    ) + " \\\n  -c "@ + shell_quoted("mcp_servers.humanize_plugin.args=[]"@)
}

fn render_codex_session(command: &str) -> (r: String)
    ensures
        r@ == codex_session(command@),
{
    let value = compact(&Json::text(command));
    let assignment = cat2("mcp_servers.humanize_plugin.command=", value.as_str());
    let command_arg = shell_single_quote_str(assignment.as_str());
    let args_arg = shell_single_quote_str("mcp_servers.humanize_plugin.args=[]");
    crate::text::cat4(
        "codex -C \"$PWD\" \\\n  -c ",
        command_arg.as_str(),
        " \\\n  -c ",
        args_arg.as_str(),
    )
}

/// The servers of a session.
pub open spec fn session_value(command: Seq<char>) -> JsonView {
    let server = JsonView::Record(
        no_fields()
            .push(("command"@, JsonView::Text(command)))
            .push(("args"@, JsonView::List(Seq::empty()))),
    );
    JsonView::Record(
        no_fields().push(
            ("mcpServers"@, JsonView::Record(no_fields().push(("humanize_plugin"@, server)))),
        ),
    )
}

fn render_claude_session_json(command: &str) -> (r: String)
    ensures
        r@ == json_pretty(value_of(session_value(command@))),
{
    let none: Vec<Json> = Vec::new();
    assert(none.deep_view() =~= Seq::<JsonView>::empty());
    let server = Fields::new()
        .put("command", Json::text(command))
        .put("args", Json::list(none))
        .done();
    let servers = Fields::new().put("humanize_plugin", server).done();
    pretty(&Fields::new().put("mcpServers", servers).done())
}

/// What a tool is configured with.
pub open spec fn client_config(target: ClientConfigTarget, command: Seq<char>) -> Seq<char> {
    match target {
        ClientConfigTarget::CodexSession => codex_session(command),
        ClientConfigTarget::CodexPersistent => "codex mcp add humanize_plugin -- "@ + word(
            command,
        ),
        ClientConfigTarget::ClaudeProject => Client::Claude.name()
            + " mcp add --scope project humanize_plugin -- "@ + word(command),
        ClientConfigTarget::ClaudeSessionJson => json_pretty(value_of(session_value(command))),
        _ => hooks_text(command, target.tool()),
    }
}

/// What a tool is configured with, for the program with the given command.
pub fn render_client_config(target: ClientConfigTarget, command: &str) -> (r: Result<
    String,
    ClientConfigError,
>)
    ensures
        match r {
            Ok(text) => !is_blank(command@) && text@ == client_config(target, command@),
            Err(error) => is_blank(command@) && error.deep_view()
                == ClientConfigErrorView::EmptyCommand,
        },
{
    if blank(command) {
        return Err(ClientConfigError::EmptyCommand);
    }
    Ok(
        match target {
            ClientConfigTarget::CodexSession => render_codex_session(command),
            ClientConfigTarget::CodexPersistent => cat2(
                "codex mcp add humanize_plugin -- ",
                shell_word(command).as_str(),
            ),
            ClientConfigTarget::ClaudeProject => cat3(
                Client::Claude.to_text().as_str(),
                " mcp add --scope project humanize_plugin -- ",
                shell_word(command).as_str(),
            ),
            ClientConfigTarget::ClaudeSessionJson => render_claude_session_json(command),
            _ => render_hooks_json(command, target.client()),
        },
    )
}

} // verus!
