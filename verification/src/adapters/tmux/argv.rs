//! The commands that are handed to tmux, word by word.
use vstd::prelude::*;

use crate::text::{cat3, cat5};

use super::model::{
    TmuxActivationMetadata, TmuxPane, TmuxPaneView, TmuxWindow,
    TmuxWindowView,
};

verus! {

broadcast use vstd::string::group_string_axioms;

/// The words of a command, one behind the other.
#[derive(Debug)]
pub struct Argv {
    words: Vec<String>,
}

impl View for Argv {
    type V = Seq<Seq<char>>;

    closed spec fn view(&self) -> Seq<Seq<char>> {
        self.words.deep_view()
    }
}

impl Argv {
    pub fn new() -> (r: Self)
        ensures
            r@ == Seq::<Seq<char>>::empty(),
    {
        let words: Vec<String> = Vec::new();
        assert(words.deep_view() =~= Seq::<Seq<char>>::empty());
        Argv { words }
    }

    pub fn with(self, word: &str) -> (r: Self)
        ensures
            r@ == self@.push(word@),
    {
        let mut words = self.words;
        words.push(word.to_string());
        assert(words.deep_view() =~= self@.push(word@));
        Argv { words }
    }

    pub fn done(self) -> (r: Vec<String>)
        ensures
            r.deep_view() == self@,
    {
        self.words
    }
}

pub open spec fn no_words() -> Seq<Seq<char>> {
    Seq::empty()
}

/// How tmux is told of a window.
pub open spec fn target_of_window(window: TmuxWindowView) -> Seq<char> {
    window.session_id + ":"@ + window.id
}

pub fn window_target(window: &TmuxWindow) -> (r: String)
    ensures
        r@ == target_of_window(window.deep_view()),
{
    cat3(window.session_id(), ":", window.id())
}

/// How tmux is told of a pane.
pub open spec fn target_of_pane(pane: TmuxPaneView) -> Seq<char> {
    pane.session_id + ":"@ + pane.window_id + "."@ + pane.id
}

pub fn pane_target(pane: &TmuxPane) -> (r: String)
    ensures
        r@ == target_of_pane(pane.deep_view()),
{
    cat5(pane.session_id(), ":", pane.window_id(), ".", pane.id())
}

pub fn metadata_pane_target(metadata: &TmuxActivationMetadata) -> (r: String)
    ensures
        r@ == target_of_pane(metadata.deep_view().pane()),
{
    cat5(metadata.session_id(), ":", metadata.window_id(), ".", metadata.pane_id())
}

/// Whether a session is there.
pub open spec fn has_session_argv(session: Seq<char>) -> Seq<Seq<char>> {
    no_words()
        .push("tmux"@)
        .push("has-session"@)
        .push("-t"@)
        .push(session)
}

pub fn has_session_words(session: &str) -> (r: Vec<String>)
    ensures
        r.deep_view() == has_session_argv(session@),
{
    Argv::new()
        .with("tmux")
        .with("has-session")
        .with("-t")
        .with(session)
        .done()
}

/// A new session.
pub open spec fn new_session_argv(session: Seq<char>) -> Seq<Seq<char>> {
    no_words()
        .push("tmux"@)
        .push("new-session"@)
        .push("-d"@)
        .push("-s"@)
        .push(session)
}

pub fn new_session_words(session: &str) -> (r: Vec<String>)
    ensures
        r.deep_view() == new_session_argv(session@),
{
    Argv::new()
        .with("tmux")
        .with("new-session")
        .with("-d")
        .with("-s")
        .with(session)
        .done()
}

/// A new session, of which the window is printed.
pub open spec fn new_session_window_argv(
    session: Seq<char>,
    window_name: Seq<char>,
) -> Seq<Seq<char>> {
    no_words()
        .push("tmux"@)
        .push("new-session"@)
        .push("-d"@)
        .push("-P"@)
        .push("-F"@)
        .push("#{window_id}"@)
        .push("-s"@)
        .push(session)
        .push("-n"@)
        .push(window_name)
}

pub fn new_session_window_words(session: &str, window_name: &str) -> (r: Vec<String>)
    ensures
        r.deep_view() == new_session_window_argv(session@, window_name@),
{
    Argv::new()
        .with("tmux")
        .with("new-session")
        .with("-d")
        .with("-P")
        .with("-F")
        .with("#{window_id}")
        .with("-s")
        .with(session)
        .with("-n")
        .with(window_name)
        .done()
}

/// A new window, which is printed.
pub open spec fn new_window_argv(session: Seq<char>, window_name: Seq<char>) -> Seq<Seq<char>> {
    no_words()
        .push("tmux"@)
        .push("new-window"@)
        .push("-P"@)
        .push("-F"@)
        .push("#{window_id}"@)
        .push("-t"@)
        .push(session)
        .push("-n"@)
        .push(window_name)
}

pub fn new_window_words(session: &str, window_name: &str) -> (r: Vec<String>)
    ensures
        r.deep_view() == new_window_argv(session@, window_name@),
{
    Argv::new()
        .with("tmux")
        .with("new-window")
        .with("-P")
        .with("-F")
        .with("#{window_id}")
        .with("-t")
        .with(session)
        .with("-n")
        .with(window_name)
        .done()
}

/// The windows of a session.
pub open spec fn list_windows_argv(session: Seq<char>) -> Seq<Seq<char>> {
    no_words()
        .push("tmux"@)
        .push("list-windows"@)
        .push("-t"@)
        .push(session)
        .push("-F"@)
        .push("#{window_name}|#{window_id}"@)
}

pub fn list_windows_words(session: &str) -> (r: Vec<String>)
    ensures
        r.deep_view() == list_windows_argv(session@),
{
    Argv::new()
        .with("tmux")
        .with("list-windows")
        .with("-t")
        .with(session)
        .with("-F")
        .with("#{window_name}|#{window_id}")
        .done()
}

/// The end of a pane.
pub open spec fn kill_pane_argv(target: Seq<char>) -> Seq<Seq<char>> {
    no_words()
        .push("tmux"@)
        .push("kill-pane"@)
        .push("-t"@)
        .push(target)
}

pub fn kill_pane_words(target: &str) -> (r: Vec<String>)
    ensures
        r.deep_view() == kill_pane_argv(target@),
{
    Argv::new()
        .with("tmux")
        .with("kill-pane")
        .with("-t")
        .with(target)
        .done()
}

/// The end of a window.
pub open spec fn kill_window_argv(target: Seq<char>) -> Seq<Seq<char>> {
    no_words()
        .push("tmux"@)
        .push("kill-window"@)
        .push("-t"@)
        .push(target)
}

pub fn kill_window_words(target: &str) -> (r: Vec<String>)
    ensures
        r.deep_view() == kill_window_argv(target@),
{
    Argv::new()
        .with("tmux")
        .with("kill-window")
        .with("-t")
        .with(target)
        .done()
}

/// The end of a session.
pub open spec fn kill_session_argv(session: Seq<char>) -> Seq<Seq<char>> {
    no_words()
        .push("tmux"@)
        .push("kill-session"@)
        .push("-t"@)
        .push(session)
}

pub fn kill_session_words(session: &str) -> (r: Vec<String>)
    ensures
        r.deep_view() == kill_session_argv(session@),
{
    Argv::new()
        .with("tmux")
        .with("kill-session")
        .with("-t")
        .with(session)
        .done()
}

/// Text typed as it stands.
pub open spec fn send_literal_argv(target: Seq<char>, text: Seq<char>) -> Seq<Seq<char>> {
    no_words()
        .push("tmux"@)
        .push("send-keys"@)
        .push("-t"@)
        .push(target)
        .push("-l"@)
        .push(text)
}

pub fn send_literal_words(target: &str, text: &str) -> (r: Vec<String>)
    ensures
        r.deep_view() == send_literal_argv(target@, text@),
{
    Argv::new()
        .with("tmux")
        .with("send-keys")
        .with("-t")
        .with(target)
        .with("-l")
        .with(text)
        .done()
}

/// Text put into a buffer.
pub open spec fn set_buffer_argv(buffer_name: Seq<char>, text: Seq<char>) -> Seq<Seq<char>> {
    no_words()
        .push("tmux"@)
        .push("set-buffer"@)
        .push("-b"@)
        .push(buffer_name)
        .push("--"@)
        .push(text)
}

pub fn set_buffer_words(buffer_name: &str, text: &str) -> (r: Vec<String>)
    ensures
        r.deep_view() == set_buffer_argv(buffer_name@, text@),
{
    Argv::new()
        .with("tmux")
        .with("set-buffer")
        .with("-b")
        .with(buffer_name)
        .with("--")
        .with(text)
        .done()
}

/// A buffer typed into a pane, and dropped.
pub open spec fn paste_buffer_argv(buffer_name: Seq<char>, target: Seq<char>) -> Seq<Seq<char>> {
    no_words()
        .push("tmux"@)
        .push("paste-buffer"@)
        .push("-p"@)
        .push("-d"@)
        .push("-b"@)
        .push(buffer_name)
        .push("-t"@)
        .push(target)
}

pub fn paste_buffer_words(buffer_name: &str, target: &str) -> (r: Vec<String>)
    ensures
        r.deep_view() == paste_buffer_argv(buffer_name@, target@),
{
    Argv::new()
        .with("tmux")
        .with("paste-buffer")
        .with("-p")
        .with("-d")
        .with("-b")
        .with(buffer_name)
        .with("-t")
        .with(target)
        .done()
}

/// One key.
pub open spec fn send_key_argv(target: Seq<char>, key: Seq<char>) -> Seq<Seq<char>> {
    no_words()
        .push("tmux"@)
        .push("send-keys"@)
        .push("-t"@)
        .push(target)
        .push(key)
}

pub fn send_key_words(target: &str, key: &str) -> (r: Vec<String>)
    ensures
        r.deep_view() == send_key_argv(target@, key@),
{
    Argv::new()
        .with("tmux")
        .with("send-keys")
        .with("-t")
        .with(target)
        .with(key)
        .done()
}

/// What a pane shows.
pub open spec fn capture_pane_argv(target: Seq<char>) -> Seq<Seq<char>> {
    no_words()
        .push("tmux"@)
        .push("capture-pane"@)
        .push("-p"@)
        .push("-t"@)
        .push(target)
}

pub fn capture_pane_words(target: &str) -> (r: Vec<String>)
    ensures
        r.deep_view() == capture_pane_argv(target@),
{
    Argv::new()
        .with("tmux")
        .with("capture-pane")
        .with("-p")
        .with("-t")
        .with(target)
        .done()
}

/// What a pane prints, handed to a command.
pub open spec fn pipe_pane_argv(target: Seq<char>, command: Seq<char>) -> Seq<Seq<char>> {
    no_words()
        .push("tmux"@)
        .push("pipe-pane"@)
        .push("-o"@)
        .push("-t"@)
        .push(target)
        .push(command)
}

pub fn pipe_pane_words(target: &str, command: &str) -> (r: Vec<String>)
    ensures
        r.deep_view() == pipe_pane_argv(target@, command@),
{
    Argv::new()
        .with("tmux")
        .with("pipe-pane")
        .with("-o")
        .with("-t")
        .with(target)
        .with(command)
        .done()
}

/// What tells a pane apart.
pub open spec fn display_pane_argv(target: Seq<char>) -> Seq<Seq<char>> {
    no_words()
        .push("tmux"@)
        .push("display-message"@)
        .push("-p"@)
        .push("-t"@)
        .push(target)
        .push("#{session_name}|#{window_id}|#{window_name}|#{pane_id}"@)
}

pub fn display_pane_words(target: &str) -> (r: Vec<String>)
    ensures
        r.deep_view() == display_pane_argv(target@),
{
    Argv::new()
        .with("tmux")
        .with("display-message")
        .with("-p")
        .with("-t")
        .with(target)
        .with("#{session_name}|#{window_id}|#{window_name}|#{pane_id}")
        .done()
}

/// All panes.
pub open spec fn list_panes_argv() -> Seq<Seq<char>> {
    no_words()
        .push("tmux"@)
        .push("list-panes"@)
        .push("-a"@)
        .push("-F"@)
        .push("#{session_name}|#{window_id}|#{window_name}|#{pane_id}"@)
}

pub fn list_panes_words() -> (r: Vec<String>)
    ensures
        r.deep_view() == list_panes_argv(),
{
    Argv::new()
        .with("tmux")
        .with("list-panes")
        .with("-a")
        .with("-F")
        .with("#{session_name}|#{window_id}|#{window_name}|#{pane_id}")
        .done()
}

/// All panes, with the commands that started them.
pub open spec fn list_started_panes_argv() -> Seq<Seq<char>> {
    no_words()
        .push("tmux"@)
        .push("list-panes"@)
        .push("-a"@)
        .push("-F"@)
        .push("#{session_name}|#{window_id}|#{window_name}|#{pane_id}|#{pane_start_command}"@)
}

pub fn list_started_panes_words() -> (r: Vec<String>)
    ensures
        r.deep_view() == list_started_panes_argv(),
{
    Argv::new()
        .with("tmux")
        .with("list-panes")
        .with("-a")
        .with("-F")
        .with("#{session_name}|#{window_id}|#{window_name}|#{pane_id}|#{pane_start_command}")
        .done()
}

/// A new session, of which the window and the pane are printed.
pub open spec fn new_session_pane_argv(
    session: Seq<char>,
    window_name: Seq<char>,
) -> Seq<Seq<char>> {
    no_words()
        .push("tmux"@)
        .push("new-session"@)
        .push("-d"@)
        .push("-P"@)
        .push("-F"@)
        .push("#{window_id}|#{pane_id}"@)
        .push("-s"@)
        .push(session)
        .push("-n"@)
        .push(window_name)
}

pub fn new_session_pane_words(session: &str, window_name: &str) -> (r: Vec<String>)
    ensures
        r.deep_view() == new_session_pane_argv(session@, window_name@),
{
    Argv::new()
        .with("tmux")
        .with("new-session")
        .with("-d")
        .with("-P")
        .with("-F")
        .with("#{window_id}|#{pane_id}")
        .with("-s")
        .with(session)
        .with("-n")
        .with(window_name)
        .done()
}

/// A new session whose pane runs a command.
pub open spec fn new_session_pane_running_argv(
    session: Seq<char>,
    window_name: Seq<char>,
    command: Seq<char>,
) -> Seq<Seq<char>> {
    no_words()
        .push("tmux"@)
        .push("new-session"@)
        .push("-d"@)
        .push("-P"@)
        .push("-F"@)
        .push("#{window_id}|#{pane_id}"@)
        .push("-s"@)
        .push(session)
        .push("-n"@)
        .push(window_name)
        .push(command)
}

pub fn new_session_pane_running_words(
    session: &str,
    window_name: &str,
    command: &str,
) -> (r: Vec<String>)
    ensures
        r.deep_view() == new_session_pane_running_argv(session@, window_name@, command@),
{
    Argv::new()
        .with("tmux")
        .with("new-session")
        .with("-d")
        .with("-P")
        .with("-F")
        .with("#{window_id}|#{pane_id}")
        .with("-s")
        .with(session)
        .with("-n")
        .with(window_name)
        .with(command)
        .done()
}

/// A new window, which is printed with its pane.
pub open spec fn new_window_pane_argv(
    session: Seq<char>,
    window_name: Seq<char>,
) -> Seq<Seq<char>> {
    no_words()
        .push("tmux"@)
        .push("new-window"@)
        .push("-P"@)
        .push("-F"@)
        .push("#{window_id}|#{pane_id}"@)
        .push("-t"@)
        .push(session)
        .push("-n"@)
        .push(window_name)
}

pub fn new_window_pane_words(session: &str, window_name: &str) -> (r: Vec<String>)
    ensures
        r.deep_view() == new_window_pane_argv(session@, window_name@),
{
    Argv::new()
        .with("tmux")
        .with("new-window")
        .with("-P")
        .with("-F")
        .with("#{window_id}|#{pane_id}")
        .with("-t")
        .with(session)
        .with("-n")
        .with(window_name)
        .done()
}

/// A new window whose pane runs a command.
pub open spec fn new_window_pane_running_argv(
    session: Seq<char>,
    window_name: Seq<char>,
    command: Seq<char>,
) -> Seq<Seq<char>> {
    no_words()
        .push("tmux"@)
        .push("new-window"@)
        .push("-P"@)
        .push("-F"@)
        .push("#{window_id}|#{pane_id}"@)
        .push("-t"@)
        .push(session)
        .push("-n"@)
        .push(window_name)
        .push(command)
}

pub fn new_window_pane_running_words(
    session: &str,
    window_name: &str,
    command: &str,
) -> (r: Vec<String>)
    ensures
        r.deep_view() == new_window_pane_running_argv(session@, window_name@, command@),
{
    Argv::new()
        .with("tmux")
        .with("new-window")
        .with("-P")
        .with("-F")
        .with("#{window_id}|#{pane_id}")
        .with("-t")
        .with(session)
        .with("-n")
        .with(window_name)
        .with(command)
        .done()
}

/// A new pane below another one, which is printed.
pub open spec fn split_window_argv(target: Seq<char>) -> Seq<Seq<char>> {
    no_words()
        .push("tmux"@)
        .push("split-window"@)
        .push("-P"@)
        .push("-F"@)
        .push("#{pane_id}"@)
        .push("-t"@)
        .push(target)
        .push("-v"@)
}

pub fn split_window_words(target: &str) -> (r: Vec<String>)
    ensures
        r.deep_view() == split_window_argv(target@),
{
    Argv::new()
        .with("tmux")
        .with("split-window")
        .with("-P")
        .with("-F")
        .with("#{pane_id}")
        .with("-t")
        .with(target)
        .with("-v")
        .done()
}

/// A new pane that runs a command.
pub open spec fn split_window_running_argv(
    target: Seq<char>,
    command: Seq<char>,
) -> Seq<Seq<char>> {
    no_words()
        .push("tmux"@)
        .push("split-window"@)
        .push("-P"@)
        .push("-F"@)
        .push("#{pane_id}"@)
        .push("-t"@)
        .push(target)
        .push("-v"@)
        .push(command)
}

pub fn split_window_running_words(target: &str, command: &str) -> (r: Vec<String>)
    ensures
        r.deep_view() == split_window_running_argv(target@, command@),
{
    Argv::new()
        .with("tmux")
        .with("split-window")
        .with("-P")
        .with("-F")
        .with("#{pane_id}")
        .with("-t")
        .with(target)
        .with("-v")
        .with(command)
        .done()
}

} // verus!
