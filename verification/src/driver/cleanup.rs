//! How the pane of an activation is ended: what is on its screen is kept first.
use vstd::prelude::*;

use crate::adapters::tmux::pane_presence::TmuxPanePresence;
use crate::json::{no_fields, option_text, option_text_json, Fields, Json, JsonView};
use crate::order::Comparable;
use crate::text::same;

use super::delivery::{PlannedEvent, PlannedEventView};
use super::failure::{DriverFailure, FailureView};
use super::records::{
    StoredPane, StoredPaneView, TmuxPaneCleanupIntent, TmuxPaneCleanupIntentView,
};

verus! {

broadcast use vstd::string::group_string_axioms;

/// What the assets of a run say of an activation.
#[derive(Debug)]
pub struct ActivationAsset {
    pub allocation_generation: u64,
    pub pane_id: String,
    pub capture_phase: String,
    pub capture_complete: bool,
    pub pipe_acknowledged: bool,
    pub resource_cleanup_status: String,
    pub resource_cleanup_error: Option<String>,
}

#[verifier::ext_equal]
pub struct AssetView {
    pub allocation_generation: u64,
    pub pane_id: Seq<char>,
    pub capture_phase: Seq<char>,
    pub capture_complete: bool,
    pub pipe_acknowledged: bool,
    pub resource_cleanup_status: Seq<char>,
    pub resource_cleanup_error: Option<Seq<char>>,
}

impl DeepView for ActivationAsset {
    type V = AssetView;

    open spec fn deep_view(&self) -> AssetView {
        AssetView {
            allocation_generation: self.allocation_generation,
            pane_id: self.pane_id@,
            capture_phase: self.capture_phase@,
            capture_complete: self.capture_complete,
            pipe_acknowledged: self.pipe_acknowledged,
            resource_cleanup_status: self.resource_cleanup_status@,
            resource_cleanup_error: self.resource_cleanup_error.deep_view(),
        }
    }
}

impl AssetView {
    /// Whether the end of the pane is recorded.
    pub open spec fn cleaned(self) -> bool {
        self.resource_cleanup_status == "complete"@
    }

    /// Whether all that the pane showed is kept.
    pub open spec fn kept(self) -> bool {
        self.capture_phase == "complete"@ && self.capture_complete
    }
}

impl ActivationAsset {
    pub fn is_cleaned(&self) -> (r: bool)
        ensures
            r == self.deep_view().cleaned(),
    {
        same(self.resource_cleanup_status.as_str(), "complete")
    }

    pub fn is_kept(&self) -> (r: bool)
        ensures
            r == self.deep_view().kept(),
    {
        same(self.capture_phase.as_str(), "complete") && self.capture_complete
    }
}

/// How far the end of a pane has come.
#[derive(Debug, Clone, Copy, PartialEq, Eq, Structural)]
pub enum CleanupStage {
    /// What the assets say is to be read.
    Assets,
    /// Whether the helper has said that it is done is to be read.
    Published,
    /// Whether the pane is there is to be found out.
    Probe,
    /// What was kept of the screen is to be read.
    Snapshot,
    /// The screen is to be read.
    Screen,
    /// The screen is to be kept.
    Save,
    /// The pane is to be ended.
    Kill,
    /// That the pane could not be ended is to be recorded.
    Refused,
    /// The helper is to be waited for.
    Await,
    /// All that the pane showed is to be put away.
    Complete,
    /// What there is of it is to be put away.
    Salvage,
    /// What the assets say now is to be read.
    Recheck,
    /// That the pane is ended is to be recorded.
    Cleaned,
    /// What the helper has said is to be removed.
    Remove,
    /// The pane is to be taken from the activation.
    Release,
    /// The binding of the participant is to be retired.
    Retire,
    /// The receipt is to be written.
    Receipt,
    /// Nothing is left to do.
    Over,
}

/// What is to be done next.
#[derive(Debug)]
pub enum CleanupAction {
    /// Tell what the assets say of the activation.
    ReadAssets,
    /// Tell whether the helper has said that it is done.
    ReadCompletion,
    /// Tell whether the pane is there.
    ProbePane,
    /// Tell what was kept of the screen.
    ReadSnapshot,
    /// Tell what is on the screen.
    CapturePane,
    /// Keep what is on the screen.
    SaveSnapshot(String),
    /// End the pane.
    KillPane,
    /// Record how the end of the pane went.
    MarkCleanup(&'static str, Option<String>),
    /// Wait until the helper says that it is done.
    AwaitCompletion,
    /// Put away all that the pane showed, and forget the helper.
    CompleteCapture(String),
    /// Put away what there is of it, and forget the helper.
    FailCapture(String),
    /// Remove what the helper has said.
    RemoveCompletion,
    /// Take the pane from the activation.
    Release,
    /// Retire the binding of the participant.
    RetireBinding,
    /// Write an event down.
    Append(PlannedEvent),
    /// Stop: this is what came of it, and what could not be kept.
    Finish(Result<(Json, Option<String>), DriverFailure>),
}

#[verifier::ext_equal]
pub enum CleanupActionView {
    ReadAssets,
    ReadCompletion,
    ProbePane,
    ReadSnapshot,
    CapturePane,
    SaveSnapshot(Seq<char>),
    KillPane,
    MarkCleanup(Seq<char>, Option<Seq<char>>),
    AwaitCompletion,
    CompleteCapture(Seq<char>),
    FailCapture(Seq<char>),
    RemoveCompletion,
    Release,
    RetireBinding,
    Append(PlannedEventView),
    Finish(Result<(JsonView, Option<Seq<char>>), FailureView>),
}

/// The model of what came of the end of a pane.
pub open spec fn cleanup_result(r: Result<(Json, Option<String>), DriverFailure>) -> Result<
    (JsonView, Option<Seq<char>>),
    FailureView,
> {
    match r {
        Ok((report, error)) => Ok((report@, error.deep_view())),
        Err(failure) => Err(failure.deep_view()),
    }
}

impl DeepView for CleanupAction {
    type V = CleanupActionView;

    open spec fn deep_view(&self) -> CleanupActionView {
        match self {
            CleanupAction::ReadAssets => CleanupActionView::ReadAssets,
            CleanupAction::ReadCompletion => CleanupActionView::ReadCompletion,
            CleanupAction::ProbePane => CleanupActionView::ProbePane,
            CleanupAction::ReadSnapshot => CleanupActionView::ReadSnapshot,
            CleanupAction::CapturePane => CleanupActionView::CapturePane,
            CleanupAction::SaveSnapshot(text) => CleanupActionView::SaveSnapshot(text@),
            CleanupAction::KillPane => CleanupActionView::KillPane,
            CleanupAction::MarkCleanup(status, error) => CleanupActionView::MarkCleanup(
                status@,
                error.deep_view(),
            ),
            CleanupAction::AwaitCompletion => CleanupActionView::AwaitCompletion,
            CleanupAction::CompleteCapture(text) => CleanupActionView::CompleteCapture(text@),
            CleanupAction::FailCapture(text) => CleanupActionView::FailCapture(text@),
            CleanupAction::RemoveCompletion => CleanupActionView::RemoveCompletion,
            CleanupAction::Release => CleanupActionView::Release,
            CleanupAction::RetireBinding => CleanupActionView::RetireBinding,
            CleanupAction::Append(event) => CleanupActionView::Append(event.deep_view()),
            CleanupAction::Finish(r) => CleanupActionView::Finish(cleanup_result(*r)),
        }
    }
}

/// What came of what was to be done.
#[derive(Debug)]
pub enum CleanupEvent {
    Assets(Option<ActivationAsset>),
    Completion(bool),
    Presence(TmuxPanePresence),
    Text(Option<String>),
    Done,
    Failed(DriverFailure),
}

#[verifier::ext_equal]
pub enum CleanupEventView {
    Assets(Option<AssetView>),
    Completion(bool),
    Presence(TmuxPanePresence),
    Text(Option<Seq<char>>),
    Done,
    Failed(FailureView),
}

impl DeepView for CleanupEvent {
    type V = CleanupEventView;

    open spec fn deep_view(&self) -> CleanupEventView {
        match self {
            CleanupEvent::Assets(asset) => CleanupEventView::Assets(asset.deep_view()),
            CleanupEvent::Completion(published) => CleanupEventView::Completion(*published),
            CleanupEvent::Presence(presence) => CleanupEventView::Presence(*presence),
            CleanupEvent::Text(text) => CleanupEventView::Text(text.deep_view()),
            CleanupEvent::Done => CleanupEventView::Done,
            CleanupEvent::Failed(failure) => CleanupEventView::Failed(failure.deep_view()),
        }
    }
}

/// The end of a pane under way.
#[derive(Debug)]
pub struct CleanupMachine {
    intent: TmuxPaneCleanupIntent,
    owned: bool,
    piped: bool,
    asset: Option<ActivationAsset>,
    published: bool,
    verified: bool,
    captured: Option<String>,
    error: Option<String>,
    failure: Option<DriverFailure>,
    stage: CleanupStage,
}

#[verifier::ext_equal]
pub struct CleanupView {
    pub intent: TmuxPaneCleanupIntentView,
    /// Whether the activation still has the pane.
    pub owned: bool,
    /// Whether a helper writes down what the pane shows.
    pub piped: bool,
    /// What the assets say of this very pane.
    pub asset: Option<AssetView>,
    /// Whether the helper had said that it is done before the pane was touched.
    pub published: bool,
    /// Whether the helper has said so by now.
    pub verified: bool,
    /// What is known of the screen.
    pub captured: Option<Seq<char>>,
    /// What could not be kept.
    pub error: Option<Seq<char>>,
    /// Why the end of the pane failed.
    pub failure: Option<FailureView>,
    pub stage: CleanupStage,
}

impl DeepView for CleanupMachine {
    type V = CleanupView;

    closed spec fn deep_view(&self) -> CleanupView {
        CleanupView {
            intent: self.intent.deep_view(),
            owned: self.owned,
            piped: self.piped,
            asset: self.asset.deep_view(),
            published: self.published,
            verified: self.verified,
            captured: self.captured.deep_view(),
            error: self.error.deep_view(),
            failure: self.failure.deep_view(),
            stage: self.stage,
        }
    }
}

/// The receipt for a pane that is ended.
pub open spec fn cleanup_receipt(
    intent: TmuxPaneCleanupIntentView,
    error: Option<Seq<char>>,
) -> PlannedEventView {
    PlannedEventView {
        kind: "tmux_pane_cleanup_receipt"@,
        payload: JsonView::Record(
            no_fields()
                .push(("operation_id"@, JsonView::Text(intent.operation_id)))
                .push(("run_id"@, JsonView::Text(intent.run_id)))
                .push(("activation_id"@, JsonView::Text(intent.activation_id)))
                .push(("allocation_generation"@, JsonView::Unsigned(intent.allocation_generation)))
                .push(("pane"@, intent.pane.json()))
                .push(("reason"@, JsonView::Text(intent.reason)))
                .push(("preservation_error"@, option_text(error))),
        ),
    }
}

/// What is reported of a pane that is ended.
pub open spec fn cleanup_report(intent: TmuxPaneCleanupIntentView) -> JsonView {
    JsonView::Record(
        no_fields()
            .push(("activation_id"@, JsonView::Text(intent.activation_id)))
            .push(("pane_id"@, JsonView::Text(intent.pane.pane_id)))
            .push(("status"@, JsonView::Text("complete"@))),
    )
}

/// A text, or nothing.
pub open spec fn text_or_nothing(text: Option<Seq<char>>) -> Seq<char> {
    match text {
        Some(text) => text,
        None => Seq::empty(),
    }
}

impl CleanupView {
    /// The end of a pane at its start: it fails if the pane is not the one that was meant.
    pub open spec fn fresh(
        run_id: Seq<char>,
        intent: TmuxPaneCleanupIntentView,
        current: Option<StoredPaneView>,
        piped: bool,
    ) -> CleanupView {
        let start = CleanupView {
            intent,
            owned: current is Some,
            piped,
            asset: None,
            published: false,
            verified: false,
            captured: None,
            error: None,
            failure: None,
            stage: CleanupStage::Assets,
        };
        if intent.run_id != run_id || intent.allocation_generation
            != intent.pane.allocation_generation {
            start.failed(
                FailureView::plain(
                    "tmux_error"@,
                    "pane cleanup intent does not match this driver run"@,
                ),
            )
        } else if current is Some && current->0 != intent.pane {
            start.failed(
                FailureView::plain(
                    "tmux_error"@,
                    "pane cleanup intent does not match the current allocation"@,
                ),
            )
        } else {
            start
        }
    }

    pub open spec fn failed(self, failure: FailureView) -> CleanupView {
        CleanupView { failure: Some(failure), stage: CleanupStage::Over, ..self }
    }

    pub open spec fn at(self, stage: CleanupStage) -> CleanupView {
        CleanupView { stage, ..self }
    }

    /// Whether the end of the pane was recorded before.
    pub open spec fn recorded(self) -> bool {
        self.asset is Some && self.asset->0.cleaned()
    }

    /// What the assets say of this very pane.
    pub open spec fn own(self, asset: Option<AssetView>) -> Option<AssetView> {
        match asset {
            Some(found) => if found.allocation_generation == self.intent.allocation_generation {
                Some(found)
            } else {
                None
            },
            None => None,
        }
    }

    /// How it goes on once the assets are known.
    pub open spec fn with_assets(self, asset: Option<AssetView>) -> CleanupView {
        let known = CleanupView { asset: self.own(asset), ..self };
        if !known.owned {
            if known.asset is Some && !known.asset->0.cleaned() {
                known.failed(
                    FailureView::plain(
                        "driver_storage_error"@,
                        "released pane cleanup has incomplete run assets"@,
                    ),
                )
            } else {
                CleanupView { error: known.recorded_error(), stage: CleanupStage::Retire, ..known }
            }
        } else if known.piped {
            known.at(CleanupStage::Published)
        } else {
            known.looking()
        }
    }

    /// What could not be kept, as the assets say.
    pub open spec fn recorded_error(self) -> Option<Seq<char>> {
        match self.asset {
            Some(asset) => asset.resource_cleanup_error,
            None => None,
        }
    }

    /// How it goes on to what is on the screen.
    pub open spec fn looking(self) -> CleanupView {
        if self.recorded() {
            CleanupView { error: self.recorded_error(), stage: CleanupStage::Recheck, ..self }
        } else if !self.published {
            self.at(CleanupStage::Probe)
        } else {
            self.recalling()
        }
    }

    /// How it goes on to what was kept of the screen.
    pub open spec fn recalling(self) -> CleanupView {
        if self.asset is Some {
            self.at(CleanupStage::Snapshot)
        } else {
            self.keeping()
        }
    }

    /// How it goes on to put away what the pane showed.
    pub open spec fn keeping(self) -> CleanupView {
        if self.asset is None || self.asset->0.kept() {
            self.at(CleanupStage::Recheck)
        } else if self.piped && !self.published {
            self.at(CleanupStage::Await)
        } else {
            self.putting_away()
        }
    }

    /// How it goes on once the helper has ended, or where there is none.
    pub open spec fn putting_away(self) -> CleanupView {
        if self.verified && self.piped && self.captured is Some && self.asset is Some
            && self.asset->0.pipe_acknowledged {
            self.at(CleanupStage::Complete)
        } else {
            CleanupView {
                error: Some(
                    if self.captured is Some {
                        "pipe capture completion is unavailable"@
                    } else {
                        "final capture snapshot is unavailable"@
                    },
                ),
                stage: CleanupStage::Salvage,
                ..self
            }
        }
    }

    /// How it goes on when all is recorded.
    pub open spec fn tidying(self) -> CleanupView {
        if self.verified && self.piped {
            self.at(CleanupStage::Remove)
        } else {
            self.at(CleanupStage::Release)
        }
    }

    /// Where the end of a pane is after an event.
    pub open spec fn advanced(self, event: CleanupEventView) -> CleanupView {
        match (self.stage, event) {
            (CleanupStage::Over, _) => self,
            (CleanupStage::Refused, CleanupEventView::Done) => self.at(CleanupStage::Over),
            (CleanupStage::Refused, CleanupEventView::Failed(_)) => self.at(CleanupStage::Over),
            (CleanupStage::Kill, CleanupEventView::Failed(failure)) => if self.asset is Some {
                CleanupView { failure: Some(failure), stage: CleanupStage::Refused, ..self }
            } else {
                self.failed(failure)
            },
            (CleanupStage::Await, CleanupEventView::Failed(failure)) => CleanupView {
                error: Some(failure.message),
                stage: CleanupStage::Salvage,
                ..self
            },
            (CleanupStage::Release, CleanupEventView::Failed(failure)) => self.failed(
                failure.losing(self.intent.pane.shown(self.intent.activation_id)),
            ),
            (_, CleanupEventView::Failed(failure)) => self.failed(failure),
            (CleanupStage::Assets, CleanupEventView::Assets(asset)) => self.with_assets(asset),
            (CleanupStage::Published, CleanupEventView::Completion(published)) => CleanupView {
                published,
                verified: published,
                ..self
            }.looking(),
            (CleanupStage::Probe, CleanupEventView::Presence(TmuxPanePresence::Present)) => self.at(
                CleanupStage::Screen,
            ),
            (CleanupStage::Probe, CleanupEventView::Presence(TmuxPanePresence::Absent)) =>
                self.recalling(),
            (CleanupStage::Snapshot, CleanupEventView::Text(captured)) => CleanupView {
                captured,
                ..self
            }.keeping(),
            (CleanupStage::Screen, CleanupEventView::Text(Some(text))) => CleanupView {
                captured: Some(text),
                stage: if self.asset is Some {
                    CleanupStage::Save
                } else {
                    CleanupStage::Kill
                },
                ..self
            },
            (CleanupStage::Save, CleanupEventView::Done) => self.at(CleanupStage::Kill),
            (CleanupStage::Kill, CleanupEventView::Done) => self.keeping(),
            (CleanupStage::Await, CleanupEventView::Done) => CleanupView {
                verified: true,
                ..self
            }.putting_away(),
            (CleanupStage::Complete, CleanupEventView::Done) => self.at(CleanupStage::Recheck),
            (CleanupStage::Salvage, CleanupEventView::Done) => self.at(CleanupStage::Recheck),
            (CleanupStage::Recheck, CleanupEventView::Assets(asset)) => match self.own(asset) {
                Some(found) => if found.cleaned() {
                    self.tidying()
                } else {
                    self.at(CleanupStage::Cleaned)
                },
                None => self.tidying(),
            },
            (CleanupStage::Cleaned, CleanupEventView::Done) => self.tidying(),
            (CleanupStage::Remove, CleanupEventView::Done) => self.at(CleanupStage::Release),
            (CleanupStage::Release, CleanupEventView::Done) => self.at(CleanupStage::Retire),
            (CleanupStage::Retire, CleanupEventView::Done) => self.at(CleanupStage::Receipt),
            (CleanupStage::Receipt, CleanupEventView::Done) => self.at(CleanupStage::Over),
            (_, _) => self,
        }
    }

    /// Where the end of a pane is after several events.
    pub open spec fn after(self, events: Seq<CleanupEventView>) -> CleanupView
        decreases events.len(),
    {
        if events.len() == 0 {
            self
        } else {
            self.after(events.drop_last()).advanced(events.last())
        }
    }

    /// What is to be done next.
    pub open spec fn action(self) -> CleanupActionView {
        match self.stage {
            CleanupStage::Assets => CleanupActionView::ReadAssets,
            CleanupStage::Published => CleanupActionView::ReadCompletion,
            CleanupStage::Probe => CleanupActionView::ProbePane,
            CleanupStage::Snapshot => CleanupActionView::ReadSnapshot,
            CleanupStage::Screen => CleanupActionView::CapturePane,
            CleanupStage::Save => CleanupActionView::SaveSnapshot(text_or_nothing(self.captured)),
            CleanupStage::Kill => CleanupActionView::KillPane,
            CleanupStage::Refused => CleanupActionView::MarkCleanup(
                "failed"@,
                match self.failure {
                    Some(failure) => Some(failure.message),
                    None => None,
                },
            ),
            CleanupStage::Await => CleanupActionView::AwaitCompletion,
            CleanupStage::Complete => CleanupActionView::CompleteCapture(
                text_or_nothing(self.captured),
            ),
            CleanupStage::Salvage => CleanupActionView::FailCapture(
                text_or_nothing(self.captured),
            ),
            CleanupStage::Recheck => CleanupActionView::ReadAssets,
            CleanupStage::Cleaned => CleanupActionView::MarkCleanup("complete"@, self.error),
            CleanupStage::Remove => CleanupActionView::RemoveCompletion,
            CleanupStage::Release => CleanupActionView::Release,
            CleanupStage::Retire => CleanupActionView::RetireBinding,
            CleanupStage::Receipt => CleanupActionView::Append(
                cleanup_receipt(self.intent, self.error),
            ),
            CleanupStage::Over => CleanupActionView::Finish(
                match self.failure {
                    Some(failure) => Err(failure),
                    None => Ok((cleanup_report(self.intent), self.error)),
                },
            ),
        }
    }
}

fn copied_text(text: &Option<String>) -> (r: String)
    ensures
        r@ == text_or_nothing(text.deep_view()),
{
    match text {
        Some(text) => text.clone(),
        None => {
            let nothing = String::new();
            assert(nothing@ =~= Seq::<char>::empty());
            nothing
        },
    }
}

impl CleanupMachine {
    /// Begins to end a pane.
    pub fn new(
        run_id: &str,
        intent: &TmuxPaneCleanupIntent,
        current: &Option<StoredPane>,
        piped: bool,
    ) -> (r: Self)
        ensures
            r.deep_view() == CleanupView::fresh(
                run_id@,
                intent.deep_view(),
                current.deep_view(),
                piped,
            ),
    {
        let (owned, meant) = match current {
            Some(pane) => (true, pane.same_as(&intent.pane)),
            None => (false, true),
        };
        let mut machine = CleanupMachine {
            intent: intent.clone(),
            owned,
            piped,
            asset: None,
            published: false,
            verified: false,
            captured: None,
            error: None,
            failure: None,
            stage: CleanupStage::Assets,
        };
        if !same(intent.run_id.as_str(), run_id) || intent.allocation_generation
            != intent.pane.allocation_generation {
            machine.fail(
                DriverFailure::new(
                    "tmux_error",
                    "pane cleanup intent does not match this driver run",
                ),
            );
        } else if !meant {
            machine.fail(
                DriverFailure::new(
                    "tmux_error",
                    "pane cleanup intent does not match the current allocation",
                ),
            );
        }
        machine
    }

    fn fail(&mut self, failure: DriverFailure)
        ensures
            final(self).deep_view() == old(self).deep_view().failed(failure.deep_view()),
    {
        self.failure = Some(failure);
        self.stage = CleanupStage::Over;
    }

    fn own(&self, asset: Option<ActivationAsset>) -> (r: Option<ActivationAsset>)
        ensures
            r.deep_view() == self.deep_view().own(asset.deep_view()),
    {
        match asset {
            Some(found) => if found.allocation_generation == self.intent.allocation_generation {
                Some(found)
            } else {
                None
            },
            None => None,
        }
    }

    fn recorded_error(&self) -> (r: Option<String>)
        ensures
            r.deep_view() == self.deep_view().recorded_error(),
    {
        match &self.asset {
            Some(asset) => asset.resource_cleanup_error.clone(),
            None => None,
        }
    }

    fn take_assets(&mut self, asset: Option<ActivationAsset>)
        ensures
            final(self).deep_view() == old(self).deep_view().with_assets(asset.deep_view()),
    {
        self.asset = self.own(asset);
        if !self.owned {
            let incomplete = match &self.asset {
                Some(asset) => !asset.is_cleaned(),
                None => false,
            };
            if incomplete {
                self.fail(
                    DriverFailure::new(
                        "driver_storage_error",
                        "released pane cleanup has incomplete run assets",
                    ),
                );
            } else {
                self.error = self.recorded_error();
                self.stage = CleanupStage::Retire;
            }
        } else if self.piped {
            self.stage = CleanupStage::Published;
        } else {
            self.look();
        }
    }

    fn look(&mut self)
        ensures
            final(self).deep_view() == old(self).deep_view().looking(),
    {
        let recorded = match &self.asset {
            Some(asset) => asset.is_cleaned(),
            None => false,
        };
        if recorded {
            self.error = self.recorded_error();
            self.stage = CleanupStage::Recheck;
        } else if !self.published {
            self.stage = CleanupStage::Probe;
        } else {
            self.recall();
        }
    }

    fn recall(&mut self)
        ensures
            final(self).deep_view() == old(self).deep_view().recalling(),
    {
        if self.asset.is_some() {
            self.stage = CleanupStage::Snapshot;
        } else {
            self.keep();
        }
    }

    fn keep(&mut self)
        ensures
            final(self).deep_view() == old(self).deep_view().keeping(),
    {
        let kept = match &self.asset {
            Some(asset) => asset.is_kept(),
            None => true,
        };
        if kept {
            self.stage = CleanupStage::Recheck;
        } else if self.piped && !self.published {
            self.stage = CleanupStage::Await;
        } else {
            self.put_away();
        }
    }

    fn put_away(&mut self)
        ensures
            final(self).deep_view() == old(self).deep_view().putting_away(),
    {
        let acknowledged = match &self.asset {
            Some(asset) => asset.pipe_acknowledged,
            None => false,
        };
        if self.verified && self.piped && self.captured.is_some() && acknowledged {
            self.stage = CleanupStage::Complete;
        } else {
            self.error = Some(
                if self.captured.is_some() {
                    "pipe capture completion is unavailable".to_string()
                } else {
                    "final capture snapshot is unavailable".to_string()
                },
            );
            self.stage = CleanupStage::Salvage;
        }
    }

    fn tidy(&mut self)
        ensures
            final(self).deep_view() == old(self).deep_view().tidying(),
    {
        self.stage = if self.verified && self.piped {
            CleanupStage::Remove
        } else {
            CleanupStage::Release
        };
    }

    /// What is to be done next.
    pub fn action(&self) -> (r: CleanupAction)
        ensures
            r.deep_view() == self.deep_view().action(),
    {
        match self.stage {
            CleanupStage::Assets => CleanupAction::ReadAssets,
            CleanupStage::Published => CleanupAction::ReadCompletion,
            CleanupStage::Probe => CleanupAction::ProbePane,
            CleanupStage::Snapshot => CleanupAction::ReadSnapshot,
            CleanupStage::Screen => CleanupAction::CapturePane,
            CleanupStage::Save => CleanupAction::SaveSnapshot(copied_text(&self.captured)),
            CleanupStage::Kill => CleanupAction::KillPane,
            CleanupStage::Refused => CleanupAction::MarkCleanup(
                "failed",
                match &self.failure {
                    Some(failure) => Some(failure.message.clone()),
                    None => None,
                },
            ),
            CleanupStage::Await => CleanupAction::AwaitCompletion,
            CleanupStage::Complete => CleanupAction::CompleteCapture(copied_text(&self.captured)),
            CleanupStage::Salvage => CleanupAction::FailCapture(copied_text(&self.captured)),
            CleanupStage::Recheck => CleanupAction::ReadAssets,
            CleanupStage::Cleaned => CleanupAction::MarkCleanup("complete", self.error.clone()),
            CleanupStage::Remove => CleanupAction::RemoveCompletion,
            CleanupStage::Release => CleanupAction::Release,
            CleanupStage::Retire => CleanupAction::RetireBinding,
            CleanupStage::Receipt => CleanupAction::Append(
                PlannedEvent {
                    kind: "tmux_pane_cleanup_receipt",
                    payload: Fields::new()
                        .put("operation_id", Json::text(self.intent.operation_id.as_str()))
                        .put("run_id", Json::text(self.intent.run_id.as_str()))
                        .put("activation_id", Json::text(self.intent.activation_id.as_str()))
                        .put(
                            "allocation_generation",
                            Json::Unsigned(self.intent.allocation_generation),
                        )
                        .put("pane", self.intent.pane.to_json())
                        .put("reason", Json::text(self.intent.reason.as_str()))
                        .put("preservation_error", option_text_json(&self.error))
                        .done(),
                },
            ),
            CleanupStage::Over => CleanupAction::Finish(
                match &self.failure {
                    Some(failure) => Err(failure.clone()),
                    None => Ok(
                        (
                            Fields::new()
                                .put(
                                    "activation_id",
                                    Json::text(self.intent.activation_id.as_str()),
                                )
                                .put("pane_id", Json::text(self.intent.pane.pane_id.as_str()))
                                .put("status", Json::text("complete"))
                                .done(),
                            self.error.clone(),
                        ),
                    ),
                },
            ),
        }
    }

    fn advance_failed(&mut self, failure: DriverFailure)
        ensures
            final(self).deep_view() == old(self).deep_view().advanced(
                CleanupEventView::Failed(failure.deep_view()),
            ),
    {
        match self.stage {
            CleanupStage::Over => {},
            CleanupStage::Refused => {
                self.stage = CleanupStage::Over;
            },
            CleanupStage::Kill => {
                if self.asset.is_some() {
                    self.failure = Some(failure);
                    self.stage = CleanupStage::Refused;
                } else {
                    self.fail(failure);
                }
            },
            CleanupStage::Await => {
                self.error = Some(failure.message);
                self.stage = CleanupStage::Salvage;
            },
            CleanupStage::Release => {
                let pane = self.intent.pane.shown(self.intent.activation_id.as_str());
                self.fail(failure.with_tmux_release_persistence_failure(pane));
            },
            _ => {
                self.fail(failure);
            },
        }
    }

    fn advance_done(&mut self)
        ensures
            final(self).deep_view() == old(self).deep_view().advanced(CleanupEventView::Done),
    {
        match self.stage {
            CleanupStage::Refused => {
                self.stage = CleanupStage::Over;
            },
            CleanupStage::Save => {
                self.stage = CleanupStage::Kill;
            },
            CleanupStage::Kill => {
                self.keep();
            },
            CleanupStage::Await => {
                self.verified = true;
                self.put_away();
            },
            CleanupStage::Complete => {
                self.stage = CleanupStage::Recheck;
            },
            CleanupStage::Salvage => {
                self.stage = CleanupStage::Recheck;
            },
            CleanupStage::Cleaned => {
                self.tidy();
            },
            CleanupStage::Remove => {
                self.stage = CleanupStage::Release;
            },
            CleanupStage::Release => {
                self.stage = CleanupStage::Retire;
            },
            CleanupStage::Retire => {
                self.stage = CleanupStage::Receipt;
            },
            CleanupStage::Receipt => {
                self.stage = CleanupStage::Over;
            },
            _ => {},
        }
    }

    /// Goes on with what came of what was to be done. What does not answer it is passed over.
    pub fn advance(&mut self, event: CleanupEvent)
        ensures
            final(self).deep_view() == old(self).deep_view().advanced(event.deep_view()),
    {
        match event {
            CleanupEvent::Failed(failure) => {
                self.advance_failed(failure);
            },
            CleanupEvent::Done => {
                self.advance_done();
            },
            CleanupEvent::Assets(asset) => {
                match self.stage {
                    CleanupStage::Assets => {
                        self.take_assets(asset);
                    },
                    CleanupStage::Recheck => {
                        match self.own(asset) {
                            Some(found) => {
                                if found.is_cleaned() {
                                    self.tidy();
                                } else {
                                    self.stage = CleanupStage::Cleaned;
                                }
                            },
                            None => {
                                self.tidy();
                            },
                        }
                    },
                    _ => {},
                }
            },
            CleanupEvent::Completion(published) => {
                if let CleanupStage::Published = self.stage {
                    self.published = published;
                    self.verified = published;
                    self.look();
                }
            },
            CleanupEvent::Presence(presence) => {
                if let CleanupStage::Probe = self.stage {
                    match presence {
                        TmuxPanePresence::Present => {
                            self.stage = CleanupStage::Screen;
                        },
                        TmuxPanePresence::Absent => {
                            self.recall();
                        },
                    }
                }
            },
            CleanupEvent::Text(text) => {
                match self.stage {
                    CleanupStage::Snapshot => {
                        self.captured = text;
                        self.keep();
                    },
                    CleanupStage::Screen => {
                        match text {
                            Some(text) => {
                                self.captured = Some(text);
                                self.stage = if self.asset.is_some() {
                                    CleanupStage::Save
                                } else {
                                    CleanupStage::Kill
                                };
                            },
                            None => {},
                        }
                    },
                    _ => {},
                }
            },
        }
    }
}

/// Whether, among events, what was to be done at a stage was done.
pub open spec fn did(
    start: CleanupView,
    events: Seq<CleanupEventView>,
    stage: CleanupStage,
) -> bool {
    exists|i: int|
        0 <= i < events.len() && (#[trigger] start.after(events.take(i))).stage == stage
            && events[i] is Done
}

proof fn lemma_did_goes_on(
    start: CleanupView,
    events: Seq<CleanupEventView>,
    stage: CleanupStage,
)
    requires
        events.len() > 0,
        did(start, events.drop_last(), stage) || (start.after(events.drop_last()).stage == stage
            && events.last() is Done),
    ensures
        did(start, events, stage),
{
    let front = events.drop_last();
    if did(start, front, stage) {
        let i = choose|i: int|
            0 <= i < front.len() && (#[trigger] start.after(front.take(i))).stage == stage
                && front[i] is Done;
        assert(front.take(i) =~= events.take(i));
        assert(start.after(events.take(i)).stage == stage);
    } else {
        assert(events.take(front.len() as int) =~= front);
        assert(start.after(events.take(front.len() as int)).stage == stage);
    }
}

/// A pane is ended only when what is on its screen is known, and, where the assets tell of the
/// activation, kept.
pub proof fn lemma_screen_is_kept_before_the_end(
    run_id: Seq<char>,
    intent: TmuxPaneCleanupIntentView,
    current: Option<StoredPaneView>,
    piped: bool,
    events: Seq<CleanupEventView>,
)
    ensures
        ({
            let start = CleanupView::fresh(run_id, intent, current, piped);
            let state = start.after(events);
            state.action() is KillPane ==> {
                &&& state.captured is Some
                &&& state.asset is Some ==> did(start, events, CleanupStage::Save)
            }
        }),
    decreases events.len(),
{
    let start = CleanupView::fresh(run_id, intent, current, piped);
    if events.len() > 0 {
        let front = events.drop_last();
        lemma_screen_is_kept_before_the_end(run_id, intent, current, piped, front);
        lemma_saving_has_a_text(start, front);
        let before = start.after(front);
        let state = start.after(events);
        if state.stage == CleanupStage::Kill && state.asset is Some {
            if before.stage == CleanupStage::Kill {
                assert(before.action() is KillPane);
                lemma_did_goes_on(start, events, CleanupStage::Save);
            } else {
                assert(before.stage == CleanupStage::Save && events.last() is Done);
                lemma_did_goes_on(start, events, CleanupStage::Save);
            }
        }
    }
}

proof fn lemma_saving_has_a_text(start: CleanupView, events: Seq<CleanupEventView>)
    requires
        start.stage == CleanupStage::Assets || start.stage == CleanupStage::Over,
    ensures
        start.after(events).stage == CleanupStage::Save ==> start.after(events).captured is Some,
    decreases events.len(),
{
    if events.len() > 0 {
        lemma_saving_has_a_text(start, events.drop_last());
    }
}

/// The receipt for a pane that the activation had is written only after the pane was taken
/// from it, and the end is told as done only after the receipt.
pub proof fn lemma_receipt_comes_last(
    run_id: Seq<char>,
    intent: TmuxPaneCleanupIntentView,
    current: Option<StoredPaneView>,
    piped: bool,
    events: Seq<CleanupEventView>,
)
    requires
        current is Some,
    ensures
        ({
            let start = CleanupView::fresh(run_id, intent, current, piped);
            let state = start.after(events);
            &&& state.action() is Append ==> did(start, events, CleanupStage::Release)
            &&& state.action() matches CleanupActionView::Finish(Ok(_)) ==> did(
                start,
                events,
                CleanupStage::Release,
            ) && did(start, events, CleanupStage::Receipt)
        }),
    decreases events.len(),
{
    let start = CleanupView::fresh(run_id, intent, current, piped);
    lemma_release_comes_first(start, events);
}

proof fn lemma_release_comes_first(start: CleanupView, events: Seq<CleanupEventView>)
    requires
        start.owned,
        start.stage == CleanupStage::Assets || (start.stage == CleanupStage::Over
            && start.failure is Some),
    ensures
        start.after(events).owned,
        start.after(events).stage == CleanupStage::Refused ==> start.after(events).failure is Some,
        start.after(events).stage == CleanupStage::Retire || start.after(events).stage
            == CleanupStage::Receipt || (start.after(events).stage == CleanupStage::Over
            && start.after(events).failure is None) ==> did(start, events, CleanupStage::Release),
        start.after(events).stage == CleanupStage::Over && start.after(events).failure is None
            ==> did(start, events, CleanupStage::Receipt),
    decreases events.len(),
{
    if events.len() > 0 {
        let front = events.drop_last();
        lemma_release_comes_first(start, front);
        let before = start.after(front);
        let state = start.after(events);
        if state.stage == CleanupStage::Retire {
            lemma_did_goes_on(start, events, CleanupStage::Release);
        } else if state.stage == CleanupStage::Receipt {
            lemma_did_goes_on(start, events, CleanupStage::Release);
        } else if state.stage == CleanupStage::Over && state.failure is None {
            lemma_did_goes_on(start, events, CleanupStage::Release);
            lemma_did_goes_on(start, events, CleanupStage::Receipt);
        }
    }
}

/// What was recorded as ended is not touched again: neither the screen is read nor is the pane
/// ended a second time.
pub proof fn lemma_recorded_end_is_final(machine: CleanupView, asset: AssetView)
    requires
        machine.stage == CleanupStage::Assets,
        machine.owned,
        asset.allocation_generation == machine.intent.allocation_generation,
        asset.cleaned(),
    ensures
        ({
            let known = machine.advanced(CleanupEventView::Assets(Some(asset)));
            let next = if machine.piped {
                known.advanced(CleanupEventView::Completion(true))
            } else {
                known
            };
            next.stage == CleanupStage::Recheck && next.error == asset.resource_cleanup_error
        }),
{
}

} // verus!
