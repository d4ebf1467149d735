//! What is known of a run, put together from the facts of its history: those of other runs are
//! left out, and of every slot the artifact that was delivered last counts.
use vstd::prelude::*;

use crate::json::{no_fields, with_field, Fields, Json, JsonView};
use crate::text::same;

use super::participant::{latest_binding, participant_status};
use super::read_model::{
    activation_context, activation_report, flow_revisions_json, hide_readiness_nonces,
    read_context_json, revisions_shown, whole_context, without_nonces, FlowApplication,
    FlowApplicationView,
};
use super::replay::ReplayedDriverEvents;
use super::request::Authority;
use super::wire::{
    context_payloads, effects_json, effects_of, parse_context_payloads, parse_payload_value,
    payload_value, ActivationStatus, EffectEntry, EffectEntryView, FlowLockMode, RunMode,
    RunStatus,
};

verus! {

broadcast use vstd::string::group_string_axioms;

/// An artifact that was delivered.
#[derive(Debug)]
pub struct ArtifactEntry {
    pub artifact_id: String,
    pub run_id: String,
    pub artifact_key: String,
    pub payload: String,
    pub event_sequence: u64,
}

#[verifier::ext_equal]
pub struct ArtifactEntryView {
    pub artifact_id: Seq<char>,
    pub run_id: Seq<char>,
    pub artifact_key: Seq<char>,
    pub payload: Seq<char>,
    pub event_sequence: u64,
}

impl DeepView for ArtifactEntry {
    type V = ArtifactEntryView;

    open spec fn deep_view(&self) -> ArtifactEntryView {
        ArtifactEntryView {
            artifact_id: self.artifact_id@,
            run_id: self.run_id@,
            artifact_key: self.artifact_key@,
            payload: self.payload@,
            event_sequence: self.event_sequence,
        }
    }
}

/// The artifact that was delivered last for a slot.
#[derive(Debug)]
pub struct SlotEntry {
    pub run_id: String,
    pub key: String,
    pub artifact_id: String,
}

#[verifier::ext_equal]
pub struct SlotEntryView {
    pub run_id: Seq<char>,
    pub key: Seq<char>,
    pub artifact_id: Seq<char>,
}

impl DeepView for SlotEntry {
    type V = SlotEntryView;

    open spec fn deep_view(&self) -> SlotEntryView {
        SlotEntryView {
            run_id: self.run_id@,
            key: self.key@,
            artifact_id: self.artifact_id@,
        }
    }
}

/// The event by which a fact of a board was set last.
#[derive(Debug)]
pub struct BoardVersion {
    pub run_id: String,
    pub key: String,
    pub version: u64,
}

#[verifier::ext_equal]
pub struct BoardVersionView {
    pub run_id: Seq<char>,
    pub key: Seq<char>,
    pub version: u64,
}

impl DeepView for BoardVersion {
    type V = BoardVersionView;

    open spec fn deep_view(&self) -> BoardVersionView {
        BoardVersionView {
            run_id: self.run_id@,
            key: self.key@,
            version: self.version,
        }
    }
}

/// The board of a run.
#[derive(Debug)]
pub struct BoardEntry {
    pub run_id: String,
    pub board: Json,
}

#[verifier::ext_equal]
pub struct BoardEntryView {
    pub run_id: Seq<char>,
    pub board: JsonView,
}

impl DeepView for BoardEntry {
    type V = BoardEntryView;

    open spec fn deep_view(&self) -> BoardEntryView {
        BoardEntryView {
            run_id: self.run_id@,
            board: self.board@,
        }
    }
}

/// How often an activation has tried to stop.
#[derive(Debug)]
pub struct StopAttempts {
    pub run_id: String,
    pub activation_id: String,
    pub attempts: u32,
}

#[verifier::ext_equal]
pub struct StopAttemptsView {
    pub run_id: Seq<char>,
    pub activation_id: Seq<char>,
    pub attempts: u32,
}

impl DeepView for StopAttempts {
    type V = StopAttemptsView;

    open spec fn deep_view(&self) -> StopAttemptsView {
        StopAttemptsView {
            run_id: self.run_id@,
            activation_id: self.activation_id@,
            attempts: self.attempts,
        }
    }
}

/// An activation, as the history of a run tells of it.
#[derive(Debug)]
pub struct ActivationEntry {
    pub run_id: String,
    pub activation_id: String,
    pub node_id: String,
    pub stable_key: Json,
    pub activation_generation: u64,
    pub trigger: Json,
    pub status: ActivationStatus,
    pub context: Vec<(String, String)>,
}

#[verifier::ext_equal]
pub struct ActivationEntryView {
    pub run_id: Seq<char>,
    pub activation_id: Seq<char>,
    pub node_id: Seq<char>,
    pub stable_key: JsonView,
    pub activation_generation: u64,
    pub trigger: JsonView,
    pub status: ActivationStatus,
    pub context: Seq<(Seq<char>, Seq<char>)>,
}

impl DeepView for ActivationEntry {
    type V = ActivationEntryView;

    open spec fn deep_view(&self) -> ActivationEntryView {
        ActivationEntryView {
            run_id: self.run_id@,
            activation_id: self.activation_id@,
            node_id: self.node_id@,
            stable_key: self.stable_key@,
            activation_generation: self.activation_generation,
            trigger: self.trigger@,
            status: self.status,
            context: self.context.deep_view(),
        }
    }
}

/// A lock that was applied to a run.
#[derive(Debug)]
pub struct ApplicationEntry {
    pub run_id: String,
    pub application_id: String,
    pub lock_id: String,
    pub content_hash: String,
    pub mode: FlowLockMode,
    pub event_sequence: u64,
}

#[verifier::ext_equal]
pub struct ApplicationEntryView {
    pub run_id: Seq<char>,
    pub application_id: Seq<char>,
    pub lock_id: Seq<char>,
    pub content_hash: Seq<char>,
    pub mode: FlowLockMode,
    pub event_sequence: u64,
}

impl DeepView for ApplicationEntry {
    type V = ApplicationEntryView;

    open spec fn deep_view(&self) -> ApplicationEntryView {
        ApplicationEntryView {
            run_id: self.run_id@,
            application_id: self.application_id@,
            lock_id: self.lock_id@,
            content_hash: self.content_hash@,
            mode: self.mode,
            event_sequence: self.event_sequence,
        }
    }
}

/// The review of a lock that is at hand.
#[derive(Debug)]
pub struct LockReview {
    pub lock_id: String,
    pub review_id: String,
}

#[verifier::ext_equal]
pub struct LockReviewView {
    pub lock_id: Seq<char>,
    pub review_id: Seq<char>,
}

impl DeepView for LockReview {
    type V = LockReviewView;

    open spec fn deep_view(&self) -> LockReviewView {
        LockReviewView {
            lock_id: self.lock_id@,
            review_id: self.review_id@,
        }
    }
}

/// The artifact with an id.
pub open spec fn artifact_with_id(
    records: Seq<ArtifactEntryView>,
    id: Seq<char>,
) -> Option<ArtifactEntryView>
    decreases records.len(),
{
    if records.len() == 0 {
        None
    } else if records.last().artifact_id == id {
        Some(records.last())
    } else {
        artifact_with_id(records.drop_last(), id)
    }
}

fn find_artifact<'a>(records: &'a Vec<ArtifactEntry>, id: &str) -> (r: Option<&'a ArtifactEntry>)
    ensures
        r.deep_view() == artifact_with_id(records.deep_view(), id@),
{
    let ghost model = records.deep_view();
    let mut i: usize = records.len();
    assert(model.take(i as int) =~= model);
    while i > 0
        invariant
            i <= records.len(),
            model == records.deep_view(),
            artifact_with_id(model, id@) == artifact_with_id(model.take(i as int), id@),
        decreases i,
    {
        assert(model.take(i as int).last() == records@[i - 1].deep_view());
        assert(model.take(i as int).drop_last() =~= model.take(i - 1));
        i -= 1;
        if same(records[i].artifact_id.as_str(), id) {
            return Some(&records[i]);
        }
    }
    None
}

/// The board of a run.
pub open spec fn board_entry(
    boards: Seq<BoardEntryView>,
    run_id: Seq<char>,
) -> Option<BoardEntryView>
    decreases boards.len(),
{
    if boards.len() == 0 {
        None
    } else if boards.last().run_id == run_id {
        Some(boards.last())
    } else {
        board_entry(boards.drop_last(), run_id)
    }
}

fn find_board<'a>(boards: &'a Vec<BoardEntry>, run_id: &str) -> (r: Option<&'a BoardEntry>)
    ensures
        r.deep_view() == board_entry(boards.deep_view(), run_id@),
{
    let ghost model = boards.deep_view();
    let mut i: usize = boards.len();
    assert(model.take(i as int) =~= model);
    while i > 0
        invariant
            i <= boards.len(),
            model == boards.deep_view(),
            board_entry(model, run_id@) == board_entry(model.take(i as int), run_id@),
        decreases i,
    {
        assert(model.take(i as int).last() == boards@[i - 1].deep_view());
        assert(model.take(i as int).drop_last() =~= model.take(i - 1));
        i -= 1;
        if same(boards[i].run_id.as_str(), run_id) {
            return Some(&boards[i]);
        }
    }
    None
}

/// How often an activation has tried to stop.
pub open spec fn attempts_entry(
    attempts: Seq<StopAttemptsView>,
    run_id: Seq<char>,
    activation_id: Seq<char>,
) -> Option<StopAttemptsView>
    decreases attempts.len(),
{
    if attempts.len() == 0 {
        None
    } else if attempts.last().run_id == run_id && attempts.last().activation_id == activation_id {
        Some(attempts.last())
    } else {
        attempts_entry(attempts.drop_last(), run_id, activation_id)
    }
}

fn find_attempts<'a>(
    attempts: &'a Vec<StopAttempts>,
    run_id: &str,
    activation_id: &str,
) -> (r: Option<&'a StopAttempts>)
    ensures
        r.deep_view() == attempts_entry(attempts.deep_view(), run_id@, activation_id@),
{
    let ghost model = attempts.deep_view();
    let mut i: usize = attempts.len();
    assert(model.take(i as int) =~= model);
    while i > 0
        invariant
            i <= attempts.len(),
            model == attempts.deep_view(),
            attempts_entry(model, run_id@, activation_id@) == attempts_entry(
                model.take(i as int),
                run_id@,
                activation_id@,
            ),
        decreases i,
    {
        assert(model.take(i as int).last() == attempts@[i - 1].deep_view());
        assert(model.take(i as int).drop_last() =~= model.take(i - 1));
        i -= 1;
        if same(attempts[i].run_id.as_str(), run_id) && same(
            attempts[i].activation_id.as_str(),
            activation_id,
        ) {
            return Some(&attempts[i]);
        }
    }
    None
}

/// The review of a lock.
pub open spec fn review_of(
    reviews: Seq<LockReviewView>,
    lock_id: Seq<char>,
) -> Option<LockReviewView>
    decreases reviews.len(),
{
    if reviews.len() == 0 {
        None
    } else if reviews.last().lock_id == lock_id {
        Some(reviews.last())
    } else {
        review_of(reviews.drop_last(), lock_id)
    }
}

fn find_review<'a>(reviews: &'a Vec<LockReview>, lock_id: &str) -> (r: Option<&'a LockReview>)
    ensures
        r.deep_view() == review_of(reviews.deep_view(), lock_id@),
{
    let ghost model = reviews.deep_view();
    let mut i: usize = reviews.len();
    assert(model.take(i as int) =~= model);
    while i > 0
        invariant
            i <= reviews.len(),
            model == reviews.deep_view(),
            review_of(model, lock_id@) == review_of(model.take(i as int), lock_id@),
        decreases i,
    {
        assert(model.take(i as int).last() == reviews@[i - 1].deep_view());
        assert(model.take(i as int).drop_last() =~= model.take(i - 1));
        i -= 1;
        if same(reviews[i].lock_id.as_str(), lock_id) {
            return Some(&reviews[i]);
        }
    }
    None
}

/// The board of a run; an empty one where it has none.
pub open spec fn board_of(boards: Seq<BoardEntryView>, run_id: Seq<char>) -> JsonView {
    match board_entry(boards, run_id) {
        Some(entry) => entry.board,
        None => JsonView::Record(no_fields()),
    }
}

pub fn board_json(boards: &Vec<BoardEntry>, run_id: &str) -> (r: Json)
    ensures
        r@ == board_of(boards.deep_view(), run_id@),
{
    match find_board(boards, run_id) {
        Some(entry) => entry.board.clone(),
        None => Fields::new().done(),
    }
}

/// The artifacts of a run, by their keys; of several under one key the last one counts.
pub open spec fn artifacts_of(records: Seq<ArtifactEntryView>, run_id: Seq<char>) -> JsonView
    decreases records.len(),
{
    if records.len() == 0 {
        JsonView::Record(no_fields())
    } else {
        let front = artifacts_of(records.drop_last(), run_id);
        let entry = records.last();
        if entry.run_id == run_id {
            with_field(front, entry.artifact_key, payload_value(entry.payload))
        } else {
            front
        }
    }
}

pub fn artifacts_json(records: &Vec<ArtifactEntry>, run_id: &str) -> (r: Json)
    ensures
        r@ == artifacts_of(records.deep_view(), run_id@),
{
    let mut out = Fields::new().done();
    let ghost model = records.deep_view();
    let mut i: usize = 0;
    assert(model.take(0) =~= Seq::<ArtifactEntryView>::empty());
    while i < records.len()
        invariant
            i <= records.len(),
            model == records.deep_view(),
            out@ == artifacts_of(model.take(i as int), run_id@),
        decreases records.len() - i,
    {
        assert(model.take(i + 1).drop_last() =~= model.take(i as int));
        assert(model.take(i + 1).last() == records@[i as int].deep_view());
        let entry = &records[i];
        if same(entry.run_id.as_str(), run_id) {
            let value = parse_payload_value(entry.payload.as_str());
            out = out.with(entry.artifact_key.as_str(), value);
        }
        i += 1;
    }
    assert(model.take(i as int) =~= model);
    out
}

/// Of every slot of a run, the event by which its last artifact was delivered.
pub open spec fn artifact_versions_of(
    slots: Seq<SlotEntryView>,
    records: Seq<ArtifactEntryView>,
    run_id: Seq<char>,
) -> JsonView
    decreases slots.len(),
{
    if slots.len() == 0 {
        JsonView::Record(no_fields())
    } else {
        let front = artifact_versions_of(slots.drop_last(), records, run_id);
        let entry = slots.last();
        match artifact_with_id(records, entry.artifact_id) {
            Some(artifact) if entry.run_id == run_id => with_field(
                front,
                entry.key,
                JsonView::Unsigned(artifact.event_sequence),
            ),
            _ => front,
        }
    }
}

pub fn artifact_versions_json(
    slots: &Vec<SlotEntry>,
    records: &Vec<ArtifactEntry>,
    run_id: &str,
) -> (r: Json)
    ensures
        r@ == artifact_versions_of(slots.deep_view(), records.deep_view(), run_id@),
{
    let mut out = Fields::new().done();
    let ghost model = slots.deep_view();
    let mut i: usize = 0;
    assert(model.take(0) =~= Seq::<SlotEntryView>::empty());
    while i < slots.len()
        invariant
            i <= slots.len(),
            model == slots.deep_view(),
            out@ == artifact_versions_of(model.take(i as int), records.deep_view(), run_id@),
        decreases slots.len() - i,
    {
        assert(model.take(i + 1).drop_last() =~= model.take(i as int));
        assert(model.take(i + 1).last() == slots@[i as int].deep_view());
        let entry = &slots[i];
        if same(entry.run_id.as_str(), run_id) {
            if let Some(artifact) = find_artifact(records, entry.artifact_id.as_str()) {
                out = out.with(entry.key.as_str(), Json::Unsigned(artifact.event_sequence));
            }
        }
        i += 1;
    }
    assert(model.take(i as int) =~= model);
    out
}

/// Of every fact on the board of a run, the event by which it was set last.
pub open spec fn board_versions_of(versions: Seq<BoardVersionView>, run_id: Seq<char>) -> JsonView
    decreases versions.len(),
{
    if versions.len() == 0 {
        JsonView::Record(no_fields())
    } else {
        let front = board_versions_of(versions.drop_last(), run_id);
        let entry = versions.last();
        if entry.run_id == run_id {
            with_field(front, entry.key, JsonView::Unsigned(entry.version))
        } else {
            front
        }
    }
}

pub fn board_versions_json(versions: &Vec<BoardVersion>, run_id: &str) -> (r: Json)
    ensures
        r@ == board_versions_of(versions.deep_view(), run_id@),
{
    let mut out = Fields::new().done();
    let ghost model = versions.deep_view();
    let mut i: usize = 0;
    assert(model.take(0) =~= Seq::<BoardVersionView>::empty());
    while i < versions.len()
        invariant
            i <= versions.len(),
            model == versions.deep_view(),
            out@ == board_versions_of(model.take(i as int), run_id@),
        decreases versions.len() - i,
    {
        assert(model.take(i + 1).drop_last() =~= model.take(i as int));
        assert(model.take(i + 1).last() == versions@[i as int].deep_view());
        let entry = &versions[i];
        if same(entry.run_id.as_str(), run_id) {
            out = out.with(entry.key.as_str(), Json::Unsigned(entry.version));
        }
        i += 1;
    }
    assert(model.take(i as int) =~= model);
    out
}

/// How an activation of a run is shown.
pub open spec fn activation_shown(
    entry: ActivationEntryView,
    attempts: Seq<StopAttemptsView>,
    participant: JsonView,
    run_id: Seq<char>,
) -> JsonView {
    activation_report(
        entry.activation_id,
        entry.node_id,
        entry.stable_key,
        entry.activation_generation,
        entry.trigger,
        entry.status,
        context_payloads(entry.context),
        participant,
        match attempts_entry(attempts, run_id, entry.activation_id) {
            Some(tried) => tried.attempts,
            None => 0,
        },
    )
}

/// The activations of a run, by their ids, each with its participant.
pub open spec fn activations_of(
    state: ReplayedDriverEvents,
    activations: Seq<ActivationEntryView>,
    attempts: Seq<StopAttemptsView>,
    run_id: Seq<char>,
) -> JsonView
    decreases activations.len(),
{
    if activations.len() == 0 {
        JsonView::Record(no_fields())
    } else {
        let front = activations_of(state, activations.drop_last(), attempts, run_id);
        let entry = activations.last();
        if entry.run_id == run_id {
            with_field(
                front,
                entry.activation_id,
                activation_shown(
                    entry,
                    attempts,
                    participant_status(
                        latest_binding(state.participant_bindings.pairs(), entry.activation_id),
                    ),
                    run_id,
                ),
            )
        } else {
            front
        }
    }
}

pub fn activations_json(
    state: &ReplayedDriverEvents,
    activations: &Vec<ActivationEntry>,
    attempts: &Vec<StopAttempts>,
    run_id: &str,
) -> (r: Json)
    ensures
        r@ == activations_of(*state, activations.deep_view(), attempts.deep_view(), run_id@),
{
    let mut out = Fields::new().done();
    let ghost model = activations.deep_view();
    let mut i: usize = 0;
    assert(model.take(0) =~= Seq::<ActivationEntryView>::empty());
    while i < activations.len()
        invariant
            i <= activations.len(),
            model == activations.deep_view(),
            out@ == activations_of(
                *state,
                model.take(i as int),
                attempts.deep_view(),
                run_id@,
            ),
        decreases activations.len() - i,
    {
        assert(model.take(i + 1).drop_last() =~= model.take(i as int));
        assert(model.take(i + 1).last() == activations@[i as int].deep_view());
        let entry = &activations[i];
        if same(entry.run_id.as_str(), run_id) {
            let id = entry.activation_id.as_str();
            let tried: u32 = match find_attempts(attempts, run_id, id) {
                Some(tried) => tried.attempts,
                None => 0,
            };
            let shown = activation_context(
                id,
                entry.node_id.as_str(),
                entry.stable_key.clone(),
                entry.activation_generation,
                entry.trigger.clone(),
                entry.status,
                parse_context_payloads(&entry.context),
                state.participant_status_projection(id),
                tried,
            );
            out = out.with(id, shown);
        }
        i += 1;
    }
    assert(model.take(i as int) =~= model);
    out
}

/// The locks that were applied to a run, each with its review where the lock is at hand.
pub open spec fn applied_locks(
    applications: Seq<ApplicationEntryView>,
    reviews: Seq<LockReviewView>,
    run_id: Seq<char>,
) -> Seq<FlowApplicationView>
    decreases applications.len(),
{
    if applications.len() == 0 {
        Seq::empty()
    } else {
        let front = applied_locks(applications.drop_last(), reviews, run_id);
        let entry = applications.last();
        if entry.run_id == run_id {
            front.push(
                FlowApplicationView {
                    application_id: entry.application_id,
                    lock_id: entry.lock_id,
                    content_hash: entry.content_hash,
                    mode: entry.mode,
                    event_sequence: entry.event_sequence,
                    review_id: match review_of(reviews, entry.lock_id) {
                        Some(review) => Some(review.review_id),
                        None => None,
                    },
                },
            )
        } else {
            front
        }
    }
}

/// The locks that were applied to a run.
pub fn flow_applications(
    applications: &Vec<ApplicationEntry>,
    reviews: &Vec<LockReview>,
    run_id: &str,
) -> (r: Vec<FlowApplication>)
    ensures
        r.deep_view() == applied_locks(applications.deep_view(), reviews.deep_view(), run_id@),
{
    let mut out: Vec<FlowApplication> = Vec::new();
    let ghost model = applications.deep_view();
    let mut i: usize = 0;
    assert(model.take(0) =~= Seq::<ApplicationEntryView>::empty());
    assert(out.deep_view() =~= Seq::<FlowApplicationView>::empty());
    while i < applications.len()
        invariant
            i <= applications.len(),
            model == applications.deep_view(),
            out.deep_view() == applied_locks(
                model.take(i as int),
                reviews.deep_view(),
                run_id@,
            ),
        decreases applications.len() - i,
    {
        assert(model.take(i + 1).drop_last() =~= model.take(i as int));
        assert(model.take(i + 1).last() == applications@[i as int].deep_view());
        let entry = &applications[i];
        if same(entry.run_id.as_str(), run_id) {
            let review_id = match find_review(reviews, entry.lock_id.as_str()) {
                Some(review) => Some(review.review_id.clone()),
                None => None,
            };
            let next = FlowApplication {
                application_id: entry.application_id.clone(),
                lock_id: entry.lock_id.clone(),
                content_hash: entry.content_hash.clone(),
                mode: entry.mode,
                event_sequence: entry.event_sequence,
                review_id,
            };
            let ghost before = out.deep_view();
            out.push(next);
            assert(out.deep_view() =~= before.push(next.deep_view()));
        }
        i += 1;
    }
    assert(model.take(i as int) =~= model);
    out
}

/// What the history of a run, its locks and its assets say of it.
#[derive(Debug)]
pub struct RunFacts {
    pub run_id: String,
    pub status: RunStatus,
    pub run_status_reason: Option<String>,
    pub run_mode: Option<RunMode>,
    pub initial_activation_limit: Option<u64>,
    pub activation_limit: Option<u64>,
    pub stop_attempt_limit: Option<u32>,
    pub activations_used: u64,
    pub authority: Authority,
    pub activations: Vec<ActivationEntry>,
    pub attempts: Vec<StopAttempts>,
    pub artifacts: Vec<ArtifactEntry>,
    pub slots: Vec<SlotEntry>,
    pub boards: Vec<BoardEntry>,
    pub board_versions: Vec<BoardVersion>,
    pub effects: Vec<EffectEntry>,
    pub applications: Vec<ApplicationEntry>,
    pub reviews: Vec<LockReview>,
    pub run_assets: Json,
}

#[verifier::ext_equal]
pub struct RunFactsView {
    pub run_id: Seq<char>,
    pub status: RunStatus,
    pub run_status_reason: Option<Seq<char>>,
    pub run_mode: Option<RunMode>,
    pub initial_activation_limit: Option<u64>,
    pub activation_limit: Option<u64>,
    pub stop_attempt_limit: Option<u32>,
    pub activations_used: u64,
    pub authority: Authority,
    pub activations: Seq<ActivationEntryView>,
    pub attempts: Seq<StopAttemptsView>,
    pub artifacts: Seq<ArtifactEntryView>,
    pub slots: Seq<SlotEntryView>,
    pub boards: Seq<BoardEntryView>,
    pub board_versions: Seq<BoardVersionView>,
    pub effects: Seq<EffectEntryView>,
    pub applications: Seq<ApplicationEntryView>,
    pub reviews: Seq<LockReviewView>,
    pub run_assets: JsonView,
}

impl DeepView for RunFacts {
    type V = RunFactsView;

    open spec fn deep_view(&self) -> RunFactsView {
        RunFactsView {
            run_id: self.run_id@,
            status: self.status,
            run_status_reason: self.run_status_reason.deep_view(),
            run_mode: self.run_mode,
            initial_activation_limit: self.initial_activation_limit,
            activation_limit: self.activation_limit,
            stop_attempt_limit: self.stop_attempt_limit,
            activations_used: self.activations_used,
            authority: self.authority,
            activations: self.activations.deep_view(),
            attempts: self.attempts.deep_view(),
            artifacts: self.artifacts.deep_view(),
            slots: self.slots.deep_view(),
            boards: self.boards.deep_view(),
            board_versions: self.board_versions.deep_view(),
            effects: self.effects.deep_view(),
            applications: self.applications.deep_view(),
            reviews: self.reviews.deep_view(),
            run_assets: self.run_assets@,
        }
    }
}

/// Input of which it is not known whether it arrived, as it is told.
pub open spec fn doubts_told(state: ReplayedDriverEvents) -> Seq<JsonView> {
    let pairs = state.deliveries.ambiguous.pairs();
    Seq::new(pairs.len(), |i: int| pairs[i].1.json())
}

fn doubts_json(state: &ReplayedDriverEvents) -> (r: Vec<Json>)
    ensures
        r.deep_view() == doubts_told(*state),
{
    let ghost pairs = state.deliveries.ambiguous.pairs();
    let mut out: Vec<Json> = Vec::new();
    let mut i: usize = 0;
    while i < state.deliveries.ambiguous.len()
        invariant
            i <= pairs.len(),
            pairs == state.deliveries.ambiguous.pairs(),
            out.len() == i,
            forall|j: int| 0 <= j < i ==> (#[trigger] out@[j])@ == pairs[j].1.json(),
        decreases pairs.len() - i,
    {
        out.push(state.deliveries.ambiguous.value_at(i).to_json());
        i += 1;
    }
    assert(out.deep_view() =~= doubts_told(*state));
    out
}

/// All that is known of a run, from what is said of it and from the state of its driver.
pub open spec fn context_of(state: ReplayedDriverEvents, facts: RunFactsView) -> JsonView {
    whole_context(
        facts.run_id,
        facts.status,
        facts.run_status_reason,
        facts.run_mode,
        facts.initial_activation_limit,
        facts.activation_limit,
        facts.stop_attempt_limit,
        facts.activations_used,
        facts.authority.event_cursor,
        facts.authority.generation(),
        activations_of(state, facts.activations, facts.attempts, facts.run_id),
        artifacts_of(facts.artifacts, facts.run_id),
        artifact_versions_of(facts.slots, facts.artifacts, facts.run_id),
        board_of(facts.boards, facts.run_id),
        board_versions_of(facts.board_versions, facts.run_id),
        effects_of(facts.effects, facts.run_id),
        revisions_shown(applied_locks(facts.applications, facts.reviews, facts.run_id)),
        doubts_told(state),
        without_nonces(facts.run_assets),
    )
}

/// All that is known of a run.
pub fn run_context(state: &ReplayedDriverEvents, facts: RunFacts) -> (r: Json)
    ensures
        r@ == context_of(*state, facts.deep_view()),
{
    let run_id = facts.run_id.as_str();
    read_context_json(
        run_id,
        facts.status,
        &facts.run_status_reason,
        facts.run_mode,
        facts.initial_activation_limit,
        facts.activation_limit,
        facts.stop_attempt_limit,
        facts.activations_used,
        facts.authority.event_cursor,
        facts.authority.context_generation(),
        activations_json(state, &facts.activations, &facts.attempts, run_id),
        artifacts_json(&facts.artifacts, run_id),
        artifact_versions_json(&facts.slots, &facts.artifacts, run_id),
        board_json(&facts.boards, run_id),
        board_versions_json(&facts.board_versions, run_id),
        effects_json(&facts.effects, run_id),
        flow_revisions_json(flow_applications(&facts.applications, &facts.reviews, run_id)),
        doubts_json(state),
        hide_readiness_nonces(facts.run_assets),
    )
}

/// What is said of other runs changes nothing in what is known of a run.
pub proof fn lemma_other_runs_do_not_show(
    slots: Seq<SlotEntryView>,
    records: Seq<ArtifactEntryView>,
    versions: Seq<BoardVersionView>,
    slot: SlotEntryView,
    record: ArtifactEntryView,
    version: BoardVersionView,
    run_id: Seq<char>,
)
    ensures
        slot.run_id != run_id ==> artifact_versions_of(slots.push(slot), records, run_id)
            == artifact_versions_of(slots, records, run_id),
        record.run_id != run_id ==> artifacts_of(records.push(record), run_id) == artifacts_of(
            records,
            run_id,
        ),
        version.run_id != run_id ==> board_versions_of(versions.push(version), run_id)
            == board_versions_of(versions, run_id),
{
    assert(slots.push(slot).drop_last() =~= slots);
    assert(records.push(record).drop_last() =~= records);
    assert(versions.push(version).drop_last() =~= versions);
}

} // verus!
