//! Whether a pane is still there.
use vstd::prelude::*;

use crate::text::{blank, is_blank};

use super::adapter::{metadata_identity, TmuxAdapter};
use super::argv::{
    display_pane_argv, display_pane_words, list_panes_argv, list_panes_words,
    metadata_pane_target, pane_target, target_of_pane,
};
use super::error::{owned_fault, validate_owned_session_id, TmuxError, TmuxErrorView};
use super::model::{
    CommandOutput, TmuxActivationMetadata, TmuxPane, TmuxPaneIdentity, TmuxPaneIdentityView,
};
use super::record::{
    identity_in, identity_matches, lines, pane_identity_matches, pane_identity_stdout,
    pane_identity_text, printed_identity, text_lines,
};
use super::runner::{outcome, ran, run_checked, CommandRunner, Reply};

verus! {

broadcast use vstd::string::group_string_axioms;

/// Whether a pane is there.
#[derive(Debug, Clone, Copy, PartialEq, Eq, Structural)]
pub enum TmuxPanePresence {
    Present,
    Absent,
}

impl DeepView for TmuxPanePresence {
    type V = TmuxPanePresence;

    open spec fn deep_view(&self) -> TmuxPanePresence {
        *self
    }
}

/// What a pane that tmux shows says: it is there only if it is the one that was meant.
pub open spec fn shown_presence(
    expected: TmuxPaneIdentityView,
    match_window_name: bool,
    shown: Result<TmuxPaneIdentityView, TmuxErrorView>,
) -> Result<TmuxPanePresence, TmuxErrorView> {
    match shown {
        Err(error) => Err(error),
        Ok(actual) => Ok(
            if identity_matches(expected, actual, match_window_name) {
                TmuxPanePresence::Present
            } else {
                TmuxPanePresence::Absent
            },
        ),
    }
}

/// What the list of all panes says, from line `n` on, of a pane that tmux would not show:
/// one that is listed all the same cannot be told.
pub open spec fn listed_presence(
    lines: Seq<Seq<char>>,
    expected: TmuxPaneIdentityView,
    match_window_name: bool,
    refusal: TmuxErrorView,
    n: int,
) -> Result<TmuxPanePresence, TmuxErrorView>
    decreases lines.len() - n,
{
    if n < 0 || n >= lines.len() {
        Ok(TmuxPanePresence::Absent)
    } else if is_blank(lines[n]) {
        listed_presence(lines, expected, match_window_name, refusal, n + 1)
    } else {
        match identity_in(lines[n]) {
            Err(error) => Err(error),
            Ok(actual) => if identity_matches(expected, actual, match_window_name) {
                Err(refusal)
            } else {
                listed_presence(lines, expected, match_window_name, refusal, n + 1)
            },
        }
    }
}

/// What may come of the question whether a pane is there.
pub open spec fn presence_probed<R: CommandRunner>(
    runner: R,
    target: Seq<char>,
    expected: TmuxPaneIdentityView,
    match_window_name: bool,
    r: Result<TmuxPanePresence, TmuxErrorView>,
) -> bool {
    exists|shown: Reply| #[trigger]
        runner.replies(display_pane_argv(target), shown) && match shown {
            Err(error) => r == Err::<TmuxPanePresence, TmuxErrorView>(error),
            Ok(output) => if output.status == 0 {
                r == shown_presence(expected, match_window_name, printed_identity(output))
            } else {
                exists|listed: Reply| #[trigger]
                    ran(runner, list_panes_argv(), listed) && r == (match listed {
                        Err(error) => Err(error),
                        Ok(inventory) => listed_presence(
                            text_lines(inventory.stdout),
                            expected,
                            match_window_name,
                            TmuxErrorView::command_failed(
                                display_pane_argv(target),
                                output.status,
                                output.stderr,
                            ),
                            0,
                        ),
                    })
            },
        }
}

/// What the list of all panes says of a pane that tmux would not show.
pub fn presence_in_inventory(
    inventory: &CommandOutput,
    expected: &TmuxPaneIdentity,
    match_window_name: bool,
    refusal: TmuxError,
) -> (r: Result<TmuxPanePresence, TmuxError>)
    ensures
        outcome(r) == listed_presence(
            text_lines(inventory.stdout@),
            expected.deep_view(),
            match_window_name,
            refusal.deep_view(),
            0,
        ),
{
    let listed = lines(inventory.stdout.as_str());
    let ghost model = text_lines(inventory.stdout@);
    let mut i: usize = 0;
    while i < listed.len()
        invariant
            i <= listed.len(),
            model == listed.deep_view(),
            model == text_lines(inventory.stdout@),
            listed_presence(
                model,
                expected.deep_view(),
                match_window_name,
                refusal.deep_view(),
                0,
            ) == listed_presence(
                model,
                expected.deep_view(),
                match_window_name,
                refusal.deep_view(),
                i as int,
            ),
        decreases listed.len() - i,
    {
        assert(model[i as int] == listed@[i as int]@);
        if !blank(listed[i].as_str()) {
            match pane_identity_text(listed[i].as_str()) {
                Err(error) => return Err(error),
                Ok(actual) => {
                    if pane_identity_matches(expected, &actual, match_window_name) {
                        return Err(refusal);
                    }
                },
            }
        }
        i += 1;
    }
    Ok(TmuxPanePresence::Absent)
}

impl<R: CommandRunner> TmuxAdapter<R> {
    /// Whether the pane of an activation is there, under the window name that was recorded.
    pub fn probe_exact_pane_presence(&self, metadata: &TmuxActivationMetadata) -> (r: Result<
        TmuxPanePresence,
        TmuxError,
    >)
        ensures
            match owned_fault("pane"@, metadata.deep_view().session_id) {
                Some(fault) => outcome(r) == Err::<TmuxPanePresence, TmuxErrorView>(fault),
                None => presence_probed(
                    self.runs(),
                    target_of_pane(metadata.deep_view().pane()),
                    metadata.deep_view().identity(),
                    true,
                    outcome(r),
                ),
            },
    {
        match validate_owned_session_id("pane", metadata.session_id()) {
            Err(error) => return Err(error),
            Ok(_) => {},
        }
        self.probe_pane_identity(
            metadata_pane_target(metadata).as_str(),
            &metadata_identity(metadata),
            true,
        )
    }

    /// Whether a pane is there, whatever its window is called.
    pub fn probe_pane_presence(&self, pane: &TmuxPane) -> (r: Result<TmuxPanePresence, TmuxError>)
        ensures
            match owned_fault("pane"@, pane.deep_view().session_id) {
                Some(fault) => outcome(r) == Err::<TmuxPanePresence, TmuxErrorView>(fault),
                None => presence_probed(
                    self.runs(),
                    target_of_pane(pane.deep_view()),
                    TmuxPaneIdentityView {
                        session_id: pane.deep_view().session_id,
                        window_id: pane.deep_view().window_id,
                        window_name: ""@,
                        pane_id: pane.deep_view().id,
                    },
                    false,
                    outcome(r),
                ),
            },
    {
        match validate_owned_session_id("pane", pane.session_id()) {
            Err(error) => return Err(error),
            Ok(_) => {},
        }
        self.probe_pane_identity(
            pane_target(pane).as_str(),
            &TmuxPaneIdentity::new(
                pane.session_id().to_string(),
                pane.window_id().to_string(),
                "".to_string(),
                pane.id().to_string(),
            ),
            false,
        )
    }

    fn probe_pane_identity(
        &self,
        target: &str,
        expected: &TmuxPaneIdentity,
        match_window_name: bool,
    ) -> (r: Result<TmuxPanePresence, TmuxError>)
        ensures
            presence_probed(
                self.runs(),
                target@,
                expected.deep_view(),
                match_window_name,
                outcome(r),
            ),
    {
        let display = match self.runner().run(display_pane_words(target)) {
            Err(error) => {
                assert(self.runs().replies(display_pane_argv(target@), Err(error.deep_view())));
                return Err(error);
            },
            Ok(output) => output,
        };
        assert(self.runs().replies(display_pane_argv(target@), Ok(display.deep_view())));
        if display.is_success() {
            return match pane_identity_stdout(&display) {
                Err(error) => Err(error),
                Ok(actual) => Ok(
                    if pane_identity_matches(expected, &actual, match_window_name) {
                        TmuxPanePresence::Present
                    } else {
                        TmuxPanePresence::Absent
                    },
                ),
            };
        }
        let words = display_pane_words(target);
        let asked = words.as_slice();
        assert(asked.deep_view() =~= display_pane_argv(target@));
        let refusal = TmuxError::command_failed(asked, display.status, display.stderr.as_str());
        match run_checked(self.runner(), list_panes_words()) {
            Err(error) => {
                assert(ran(self.runs(), list_panes_argv(), Err(error.deep_view())));
                Err(error)
            },
            Ok(inventory) => {
                assert(ran(self.runs(), list_panes_argv(), Ok(inventory.deep_view())));
                presence_in_inventory(&inventory, expected, match_window_name, refusal)
            },
        }
    }
}

} // verus!
