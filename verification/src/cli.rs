//! The command lines of the programs.
use vstd::prelude::*;

use crate::driver::records::{DriverPaneConfig, DriverPaneConfigView};
use crate::split::{join_path, parent_path, path_joined, path_parent};
use crate::table::Table;
use crate::text::{cat2, same, trim, trimmed};

verus! {

broadcast use vstd::string::group_string_axioms;

/// How the driver is called.
pub const DRIVER_USAGE: &'static str = "Usage: humanize-plugin-driver --run-id RUN --runs-root DIR --runtime-root DIR (--auth-token TOKEN | --auth-token-file FILE) [--review-root DIR] [--driver-session SESSION --driver-window-id WINDOW_ID --driver-window-name WINDOW --driver-pane-id PANE_ID]";

/// What a driver is called with.
#[derive(Debug)]
pub struct DriverArgs {
    pub run_id: String,
    pub runs_root: String,
    pub runtime_root: String,
    pub auth_token: Option<String>,
    pub auth_token_file: Option<String>,
    pub review_root: String,
    pub operator_pane: Option<DriverPaneConfig>,
}

#[verifier::ext_equal]
pub struct DriverArgsView {
    pub run_id: Seq<char>,
    pub runs_root: Seq<char>,
    pub runtime_root: Seq<char>,
    pub auth_token: Option<Seq<char>>,
    pub auth_token_file: Option<Seq<char>>,
    pub review_root: Seq<char>,
    pub operator_pane: Option<DriverPaneConfigView>,
}

impl DeepView for DriverArgs {
    type V = DriverArgsView;

    open spec fn deep_view(&self) -> DriverArgsView {
        DriverArgsView {
            run_id: self.run_id@,
            runs_root: self.runs_root@,
            runtime_root: self.runtime_root@,
            auth_token: self.auth_token.deep_view(),
            auth_token_file: self.auth_token_file.deep_view(),
            review_root: self.review_root@,
            operator_pane: self.operator_pane.deep_view(),
        }
    }
}

/// What a driver is to do.
#[derive(Debug)]
pub enum DriverCommand {
    Help,
    Run(DriverArgs),
}

#[verifier::ext_equal]
pub enum DriverCommandView {
    Help,
    Run(DriverArgsView),
}

impl DeepView for DriverCommand {
    type V = DriverCommandView;

    open spec fn deep_view(&self) -> DriverCommandView {
        match self {
            DriverCommand::Help => DriverCommandView::Help,
            DriverCommand::Run(args) => DriverCommandView::Run(args.deep_view()),
        }
    }
}

/// Whether a word is the name of a value that follows.
pub open spec fn names_value(arg: Seq<char>) -> bool {
    ||| arg == "--run-id"@
    ||| arg == "--runs-root"@
    ||| arg == "--runtime-root"@
    ||| arg == "--auth-token"@
    ||| arg == "--auth-token-file"@
    ||| arg == "--review-root"@
    ||| arg == "--driver-session"@
    ||| arg == "--driver-window-id"@
    ||| arg == "--driver-window-name"@
    ||| arg == "--driver-pane-id"@
}

fn is_value_name(arg: &str) -> (r: bool)
    ensures
        r == names_value(arg@),
{
    same(arg, "--run-id") || same(arg, "--runs-root") || same(arg, "--runtime-root") || same(
        arg,
        "--auth-token",
    ) || same(arg, "--auth-token-file") || same(arg, "--review-root") || same(
        arg,
        "--driver-session",
    ) || same(arg, "--driver-window-id") || same(arg, "--driver-window-name") || same(
        arg,
        "--driver-pane-id",
    )
}

/// What words say: the values by their names, that help is wanted, or the first word that says
/// nothing.
#[verifier::ext_equal]
pub enum WordsView {
    Values(Map<Seq<char>, Seq<char>>),
    Help,
    Unknown(Seq<char>),
}

/// What the words from the `i`-th on say. A name that no value follows takes an earlier value
/// back.
pub open spec fn words_from(
    args: Seq<Seq<char>>,
    i: int,
    found: Map<Seq<char>, Seq<char>>,
) -> WordsView
    decreases args.len() - i,
{
    if i < 0 || i >= args.len() {
        WordsView::Values(found)
    } else if names_value(args[i]) {
        if i + 1 < args.len() {
            words_from(args, i + 2, found.insert(args[i], args[i + 1]))
        } else {
            WordsView::Values(found.remove(args[i]))
        }
    } else if args[i] == "--help"@ || args[i] == "-h"@ {
        WordsView::Help
    } else {
        WordsView::Unknown(args[i])
    }
}

/// The value with a name.
pub open spec fn value_at(found: Map<Seq<char>, Seq<char>>, name: Seq<char>) -> Option<Seq<char>> {
    if found.dom().contains(name) {
        Some(found[name])
    } else {
        None
    }
}

fn read_value(found: &Table<String, String>, name: &str) -> (r: Option<String>)
    ensures
        r.deep_view() == value_at(found.deep_view(), name@),
{
    match found.get(&name.to_string()) {
        Some(value) => Some(value.clone()),
        None => None,
    }
}

/// The pane that the operator sits in: all of its names, or none.
pub open spec fn operator_pane_of(found: Map<Seq<char>, Seq<char>>) -> Result<
    Option<DriverPaneConfigView>,
    Seq<char>,
> {
    match (
        value_at(found, "--driver-session"@),
        value_at(found, "--driver-window-id"@),
        value_at(found, "--driver-window-name"@),
        value_at(found, "--driver-pane-id"@),
    ) {
        (None, None, None, None) => Ok(None),
        (Some(session_id), Some(window_id), Some(window_name), Some(pane_id)) => Ok(
            Some(DriverPaneConfigView { session_id, window_id, window_name, pane_id }),
        ),
        _ => Err("all driver pane identity arguments are required together"@),
    }
}

/// Where reviews are where nothing is said of it: beside the runs.
pub open spec fn reviews_beside(runs_root: Seq<char>) -> Seq<char> {
    path_joined(
        match parent_path(runs_root) {
            Some(parent) => parent,
            None => runs_root,
        },
        "reviews"@,
    )
}

/// What values call for.
pub open spec fn args_of(found: Map<Seq<char>, Seq<char>>) -> Result<DriverArgsView, Seq<char>> {
    match operator_pane_of(found) {
        Err(message) => Err(message),
        Ok(operator_pane) => match (
            value_at(found, "--runs-root"@),
            value_at(found, "--run-id"@),
            value_at(found, "--runtime-root"@),
        ) {
            (None, _, _) => Err("--runs-root is required"@),
            (Some(_), None, _) => Err("--run-id is required"@),
            (Some(_), Some(_), None) => Err("--runtime-root is required"@),
            (Some(runs_root), Some(run_id), Some(runtime_root)) => Ok(
                DriverArgsView {
                    run_id,
                    runs_root,
                    runtime_root,
                    auth_token: value_at(found, "--auth-token"@),
                    auth_token_file: value_at(found, "--auth-token-file"@),
                    review_root: match value_at(found, "--review-root"@) {
                        Some(root) => root,
                        None => reviews_beside(runs_root),
                    },
                    operator_pane,
                },
            ),
        },
    }
}

/// What a driver is called to do.
pub open spec fn driver_command(args: Seq<Seq<char>>) -> Result<DriverCommandView, Seq<char>> {
    match words_from(args, 0, Map::empty()) {
        WordsView::Help => Ok(DriverCommandView::Help),
        WordsView::Unknown(arg) => Err("unknown argument: "@ + arg),
        WordsView::Values(found) => match args_of(found) {
            Ok(args) => Ok(DriverCommandView::Run(args)),
            Err(message) => Err(message),
        },
    }
}

/// Where the token of a driver comes from.
#[derive(Debug)]
pub enum TokenSource {
    Given(String),
    File(String),
}

impl DriverArgs {
    fn from_values(found: &Table<String, String>) -> (r: Result<Self, String>)
        ensures
            match r {
                Ok(args) => args_of(found.deep_view()) == Ok::<DriverArgsView, Seq<char>>(
                    args.deep_view(),
                ),
                Err(message) => args_of(found.deep_view()) == Err::<DriverArgsView, Seq<char>>(
                    message@,
                ),
            },
    {
        let operator_pane = match (
            read_value(found, "--driver-session"),
            read_value(found, "--driver-window-id"),
            read_value(found, "--driver-window-name"),
            read_value(found, "--driver-pane-id"),
        ) {
            (None, None, None, None) => None,
            (Some(session_id), Some(window_id), Some(window_name), Some(pane_id)) => Some(
                DriverPaneConfig { session_id, window_id, window_name, pane_id },
            ),
            _ => {
                return Err(
                    "all driver pane identity arguments are required together".to_string(),
                );
            },
        };
        let runs_root = match read_value(found, "--runs-root") {
            Some(root) => root,
            None => return Err("--runs-root is required".to_string()),
        };
        let review_root = match read_value(found, "--review-root") {
            Some(root) => root,
            None => match path_parent(runs_root.as_str()) {
                Some(parent) => join_path(parent.as_str(), "reviews"),
                None => join_path(runs_root.as_str(), "reviews"),
            },
        };
        let run_id = match read_value(found, "--run-id") {
            Some(run_id) => run_id,
            None => return Err("--run-id is required".to_string()),
        };
        let runtime_root = match read_value(found, "--runtime-root") {
            Some(root) => root,
            None => return Err("--runtime-root is required".to_string()),
        };
        Ok(
            DriverArgs {
                run_id,
                runs_root,
                runtime_root,
                auth_token: read_value(found, "--auth-token"),
                auth_token_file: read_value(found, "--auth-token-file"),
                review_root,
                operator_pane,
            },
        )
    }

    /// Reads the words that a driver is called with.
    pub fn parse(args: &Vec<String>) -> (r: Result<DriverCommand, String>)
        ensures
            match r {
                Ok(command) => driver_command(args.deep_view()) == Ok::<
                    DriverCommandView,
                    Seq<char>,
                >(command.deep_view()),
                Err(message) => driver_command(args.deep_view()) == Err::<
                    DriverCommandView,
                    Seq<char>,
                >(message@),
            },
    {
        let ghost model = args.deep_view();
        let mut found: Table<String, String> = Table::new();
        let mut i: usize = 0;
        while i < args.len()
            invariant
                i <= args.len(),
                model == args.deep_view(),
                words_from(model, 0, Map::empty()) == words_from(
                    model,
                    i as int,
                    found.deep_view(),
                ),
            decreases args.len() - i,
        {
            assert(model[i as int] == args@[i as int]@);
            let arg = args[i].as_str();
            if is_value_name(arg) {
                if i + 1 < args.len() {
                    assert(model[i + 1] == args@[i + 1]@);
                    found.insert(args[i].clone(), args[i + 1].clone());
                    i += 2;
                } else {
                    let _ = found.remove(&args[i]);
                    i += 1;
                }
            } else if same(arg, "--help") || same(arg, "-h") {
                return Ok(DriverCommand::Help);
            } else {
                return Err(cat2("unknown argument: ", arg));
            }
        }
        match DriverArgs::from_values(&found) {
            Ok(args) => Ok(DriverCommand::Run(args)),
            Err(message) => Err(message),
        }
    }

    /// Where the token comes from: a token that is given counts before a file.
    pub fn auth_token(&self) -> (r: Result<TokenSource, &'static str>)
        ensures
            match r {
                Ok(TokenSource::Given(token)) => self.deep_view().auth_token == Some(token@),
                Ok(TokenSource::File(path)) => self.deep_view().auth_token is None
                    && self.deep_view().auth_token_file == Some(path@),
                Err(message) => {
                    &&& self.deep_view().auth_token is None
                    &&& self.deep_view().auth_token_file is None
                    &&& message@ == "--auth-token or --auth-token-file is required"@
                },
            },
    {
        if let Some(token) = &self.auth_token {
            return Ok(TokenSource::Given(token.clone()));
        }
        match &self.auth_token_file {
            Some(path) => Ok(TokenSource::File(path.clone())),
            None => Err("--auth-token or --auth-token-file is required"),
        }
    }
}

/// The token that a file holds.
pub fn token_from_file(content: &str) -> (r: Result<String, &'static str>)
    ensures
        match r {
            Ok(token) => token@ == trimmed(content@) && token@.len() > 0,
            Err(message) => trimmed(content@).len() == 0 && message@
                == "auth token file is empty"@,
        },
{
    let token = trim(content);
    if token.is_empty() {
        Err("auth token file is empty")
    } else {
        Ok(token.to_string())
    }
}

} // verus!
