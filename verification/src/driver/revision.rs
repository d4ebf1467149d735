//! The locks that a run may use, the reviews that allow them, and the records of its events.
use vstd::prelude::*;

use crate::flow::lock::{FlowLock, FlowLockView};
use crate::json::{
    field, items_of, json_pretty, no_fields, pretty, text_field, text_of, unsigned_field, value_of, Fields,
    Json, JsonView,
};
use crate::split::{join_path, path_joined};
use crate::table::Table;
use crate::text::{cat2, cat3, same, trim, trimmed};

use super::delivery::{PlannedEvent, PlannedEventView};
use super::failure::{alike, json_alike, DriverFailure, FailureView};
use super::replay::{DriverStateView, ReplayedDriverEvents};
use super::storage::{file_segment, safe_file_segment};

verus! {

broadcast use vstd::string::group_string_axioms;

/// The directory of the locks of a run, below that of the run.
pub const REVISIONS_DIR: &'static str = "driver/revisions";

/// Names the records that hold several events of a run.
pub const RUNTIME_EVENT_BATCH_PROTOCOL: &'static str = "humanize.driver.runtime_event_batch.v1";

/// What came of a review so far.
#[derive(Debug, Clone, Copy, PartialEq, Eq, Structural)]
pub enum ReviewStatus {
    Pending,
    Approved,
    Bypassed,
    Rejected,
}

/// A review of a lock.
#[derive(Debug)]
pub struct FlowReview {
    pub flow_lock_id: String,
    pub content_hash: String,
    pub status: ReviewStatus,
}

#[verifier::ext_equal]
pub struct FlowReviewView {
    pub flow_lock_id: Seq<char>,
    pub content_hash: Seq<char>,
    pub status: ReviewStatus,
}

impl DeepView for FlowReview {
    type V = FlowReviewView;

    open spec fn deep_view(&self) -> FlowReviewView {
        FlowReviewView {
            flow_lock_id: self.flow_lock_id@,
            content_hash: self.content_hash@,
            status: self.status,
        }
    }
}

/// Why a review does not allow a lock.
pub open spec fn review_fault(review: FlowReviewView, lock: FlowLockView) -> Option<FailureView> {
    if review.flow_lock_id != lock.id || review.content_hash != lock.content_hash {
        Some(
            FailureView::plain(
                "review_binding_mismatch"@,
                "flow review does not match the canonical flow lock identity"@,
            ),
        )
    } else {
        match review.status {
            ReviewStatus::Pending => Some(
                FailureView::plain("review_pending"@, "flow review is pending"@),
            ),
            ReviewStatus::Rejected => Some(
                FailureView::plain("review_rejected"@, "flow review was rejected"@),
            ),
            _ => None,
        }
    }
}

/// Whether a review allows a lock; it may not have been found.
pub fn authorize_review(loaded: &Result<FlowReview, String>, lock: &FlowLock) -> (r: Result<
    (),
    DriverFailure,
>)
    ensures
        match loaded {
            Ok(review) => match r {
                Ok(_) => review_fault(review.deep_view(), lock.deep_view()) is None,
                Err(failure) => review_fault(review.deep_view(), lock.deep_view()) == Some(
                    failure.deep_view(),
                ),
            },
            Err(error) => r is Err && r->Err_0.deep_view() == FailureView::plain(
                "review_invalid"@,
                "flow review load failed: "@ + error@,
            ),
        },
{
    match loaded {
        Err(error) => Err(
            DriverFailure::told(
                "review_invalid",
                cat2("flow review load failed: ", error.as_str()),
            ),
        ),
        Ok(review) => {
            if !same(review.flow_lock_id.as_str(), lock.id()) || !same(
                review.content_hash.as_str(),
                lock.content_hash(),
            ) {
                return Err(
                    DriverFailure::new(
                        "review_binding_mismatch",
                        "flow review does not match the canonical flow lock identity",
                    ),
                );
            }
            match review.status {
                ReviewStatus::Approved => Ok(()),
                ReviewStatus::Bypassed => Ok(()),
                ReviewStatus::Pending => Err(
                    DriverFailure::new("review_pending", "flow review is pending"),
                ),
                ReviewStatus::Rejected => Err(
                    DriverFailure::new("review_rejected", "flow review was rejected"),
                ),
            }
        },
    }
}

/// A lock, and the review that allows it.
#[derive(Debug)]
pub struct StoredFlowRevision {
    flow_lock: FlowLock,
    review_id: String,
}

#[verifier::ext_equal]
pub struct StoredRevisionView {
    pub flow_lock: FlowLockView,
    pub review_id: Seq<char>,
}

impl DeepView for StoredFlowRevision {
    type V = StoredRevisionView;

    closed spec fn deep_view(&self) -> StoredRevisionView {
        StoredRevisionView { flow_lock: self.flow_lock.deep_view(), review_id: self.review_id@ }
    }
}

impl StoredRevisionView {
    pub open spec fn json(self) -> JsonView {
        JsonView::Record(
            no_fields()
                .push(("flow_lock"@, FlowLock::wire_json(self.flow_lock)))
                .push(("review_id"@, JsonView::Text(self.review_id))),
        )
    }

    /// The text of the file that a lock is kept in.
    pub open spec fn text(self) -> Seq<char> {
        json_pretty(value_of(self.json()))
    }
}

/// The review that a request names.
pub open spec fn named_review(request: JsonView) -> Option<Seq<char>> {
    let named = match field(request, "review_id"@) {
        Some(value) => Some(value),
        None => field(request, "reviewId"@),
    };
    match named {
        Some(value) => match text_of(value) {
            Some(id) => if trimmed(id).len() == 0 {
                None
            } else {
                Some(id)
            },
            None => None,
        },
        None => None,
    }
}

/// The review that a request names, which it must.
pub fn request_review_id(request: &Json) -> (r: Result<String, DriverFailure>)
    ensures
        match r {
            Ok(id) => named_review(request@) == Some(id@),
            Err(failure) => named_review(request@) is None && failure.deep_view()
                == FailureView::plain("review_missing"@, "review_id is required"@),
        },
{
    let named = match request.get("review_id") {
        Some(value) => Some(value),
        None => request.get("reviewId"),
    };
    if let Some(value) = named {
        if let Some(id) = value.as_str() {
            if !trim(id).is_empty() {
                return Ok(id.to_string());
            }
        }
    }
    Err(DriverFailure::new("review_missing", "review_id is required"))
}

/// What a request holds as its lock, which it must.
pub fn request_flow_lock<'a>(request: &'a Json) -> (r: Result<&'a Json, DriverFailure>)
    ensures
        match r {
            Ok(value) => field(request@, "flow_lock"@) == Some(value@),
            Err(failure) => field(request@, "flow_lock"@) is None && failure.deep_view()
                == lock_missing(),
        },
{
    match request.get("flow_lock") {
        Some(value) => Ok(value),
        None => Err(DriverFailure::new("malformed_request", "flow_lock is required")),
    }
}

pub open spec fn lock_missing() -> FailureView {
    FailureView::plain("malformed_request"@, "flow_lock is required"@)
}

/// Why a request does not give a lock that may be used, in the order in which it is looked at.
pub open spec fn revision_fault(
    request: JsonView,
    parsed: Result<FlowLockView, Seq<char>>,
    loaded: Result<FlowReviewView, Seq<char>>,
) -> Option<FailureView> {
    if field(request, "flow_lock"@) is None {
        Some(lock_missing())
    } else {
        match parsed {
            Err(message) => Some(FailureView::plain("invalid_flow_lock"@, message)),
            Ok(lock) => if named_review(request) is None {
                Some(FailureView::plain("review_missing"@, "review_id is required"@))
            } else {
                match loaded {
                    Err(message) => Some(
                        FailureView::plain(
                            "review_invalid"@,
                            "flow review load failed: "@ + message,
                        ),
                    ),
                    Ok(review) => review_fault(review, lock),
                }
            },
        }
    }
}

/// The model of what was read.
pub open spec fn reading<T: DeepView>(r: Result<T, String>) -> Result<T::V, Seq<char>> {
    match r {
        Ok(value) => Ok(value.deep_view()),
        Err(message) => Err(message@),
    }
}

impl StoredFlowRevision {
    /// A lock that is only looked at: no review has to allow it.
    pub fn from_preview_request(request: &Json, parsed: Result<FlowLock, String>) -> (r: Result<
        Self,
        DriverFailure,
    >)
        ensures
            match r {
                Ok(revision) => {
                    &&& field(request@, "flow_lock"@) is Some
                    &&& parsed is Ok
                    &&& revision.deep_view().flow_lock == parsed->Ok_0.deep_view()
                    &&& revision.deep_view().review_id == Seq::<char>::empty()
                },
                Err(failure) => if field(request@, "flow_lock"@) is None {
                    failure.deep_view() == lock_missing()
                } else {
                    parsed is Err && failure.deep_view() == FailureView::plain(
                        "invalid_flow_lock"@,
                        parsed->Err_0@,
                    )
                },
            },
    {
        if let Err(failure) = request_flow_lock(request) {
            return Err(failure);
        }
        match parsed {
            Err(message) => Err(DriverFailure::told("invalid_flow_lock", message)),
            Ok(flow_lock) => {
                let review_id = String::new();
                assert(review_id@ =~= Seq::<char>::empty());
                Ok(StoredFlowRevision { flow_lock, review_id })
            },
        }
    }

    /// A lock that a review allows, from what was read of both.
    pub fn from_request(
        request: &Json,
        parsed: Result<FlowLock, String>,
        loaded: Result<FlowReview, String>,
    ) -> (r: Result<Self, DriverFailure>)
        ensures
            match r {
                Ok(revision) => {
                    &&& revision_fault(request@, reading(parsed), reading(loaded)) is None
                    &&& parsed is Ok
                    &&& revision.deep_view().flow_lock == parsed->Ok_0.deep_view()
                    &&& named_review(request@) == Some(revision.deep_view().review_id)
                },
                Err(failure) => revision_fault(request@, reading(parsed), reading(loaded))
                    == Some(failure.deep_view()),
            },
    {
        if let Err(failure) = request_flow_lock(request) {
            return Err(failure);
        }
        match parsed {
            Err(message) => Err(DriverFailure::told("invalid_flow_lock", message)),
            Ok(flow_lock) => {
                let review_id = match request_review_id(request) {
                    Ok(id) => id,
                    Err(failure) => return Err(failure),
                };
                match authorize_review(&loaded, &flow_lock) {
                    Ok(_) => Ok(StoredFlowRevision { flow_lock, review_id }),
                    Err(failure) => Err(failure),
                }
            },
        }
    }

    /// A lock as it was stored.
    pub fn stored(flow_lock: FlowLock, review_id: String) -> (r: Self)
        ensures
            r.deep_view() == (StoredRevisionView {
                flow_lock: flow_lock.deep_view(),
                review_id: review_id@,
            }),
    {
        StoredFlowRevision { flow_lock, review_id }
    }

    /// Whether the review of the lock still allows it.
    pub fn authorize(&self, loaded: &Result<FlowReview, String>) -> (r: Result<(), DriverFailure>)
        ensures
            match loaded {
                Ok(review) => match r {
                    Ok(_) => review_fault(review.deep_view(), self.deep_view().flow_lock) is None,
                    Err(failure) => review_fault(review.deep_view(), self.deep_view().flow_lock)
                        == Some(failure.deep_view()),
                },
                Err(error) => r is Err && r->Err_0.deep_view() == FailureView::plain(
                    "review_invalid"@,
                    "flow review load failed: "@ + error@,
                ),
            },
    {
        authorize_review(loaded, &self.flow_lock)
    }

    pub fn lock(&self) -> (r: &FlowLock)
        ensures
            r.deep_view() == self.deep_view().flow_lock,
    {
        &self.flow_lock
    }

    pub fn lock_id(&self) -> (r: &str)
        ensures
            r@ == self.deep_view().flow_lock.id,
    {
        self.flow_lock.id()
    }

    pub fn content_hash(&self) -> (r: &str)
        ensures
            r@ == self.deep_view().flow_lock.content_hash,
    {
        self.flow_lock.content_hash()
    }

    pub fn review_id(&self) -> (r: &str)
        ensures
            r@ == self.deep_view().review_id,
    {
        self.review_id.as_str()
    }

    pub fn response_json(&self) -> (r: Json)
        ensures
            r@ == self.deep_view().json(),
    {
        Fields::new()
            .put("flow_lock", self.flow_lock.to_wire_json())
            .put("review_id", Json::text(self.review_id.as_str()))
            .done()
    }
}

/// No lock is used that its review does not allow: one that names it and was approved or
/// passed over.
pub proof fn lemma_used_locks_are_allowed(
    request: JsonView,
    lock: FlowLockView,
    review: FlowReviewView,
)
    requires
        revision_fault(request, Ok(lock), Ok(review)) is None,
    ensures
        named_review(request) is Some,
        review.flow_lock_id == lock.id,
        review.content_hash == lock.content_hash,
        review.status == ReviewStatus::Approved || review.status == ReviewStatus::Bypassed,
{
}

/// The file that a lock is kept in, below the directory of the run.
pub open spec fn revision_file(content_hash: Seq<char>) -> Seq<char> {
    REVISIONS_DIR@ + "/"@ + file_segment(content_hash) + ".json"@
}

pub fn revision_relative_path(content_hash: &str) -> (r: String)
    ensures
        r@ == revision_file(content_hash@),
{
    cat2(cat3(REVISIONS_DIR, "/", safe_file_segment(content_hash).as_str()).as_str(), ".json")
}

/// What is to be done so that a lock is kept.
#[derive(Debug, Clone, Copy, PartialEq, Eq, Structural)]
pub enum RevisionWrite {
    /// Nothing: it is.
    Kept,
    /// Its file is to be written.
    Write,
}

/// What is to be done so that a lock is kept, by the lock of that id and by the text of its
/// file, where there is one.
pub open spec fn revision_write(
    known: Option<StoredRevisionView>,
    file: Option<Seq<char>>,
    package: StoredRevisionView,
) -> Result<RevisionWrite, FailureView> {
    match known {
        Some(other) => if alike(other.json(), package.json()) {
            Ok(RevisionWrite::Kept)
        } else {
            Err(
                FailureView::plain(
                    "revision_hash_conflict"@,
                    "immutable flow revision package content mismatch"@,
                ),
            )
        },
        None => match file {
            Some(text) => if trimmed(text) == trimmed(package.text()) {
                Ok(RevisionWrite::Kept)
            } else {
                Err(
                    FailureView::plain(
                        "revision_hash_conflict"@,
                        "immutable flow revision file content mismatch"@,
                    ),
                )
            },
            None => Ok(RevisionWrite::Write),
        },
    }
}

/// What is to be done so that a lock is kept. One that is kept is never changed.
pub fn write_lock_revision(
    known: Option<&StoredFlowRevision>,
    file: Option<&str>,
    package: &StoredFlowRevision,
) -> (r: Result<RevisionWrite, DriverFailure>)
    ensures
        ({
            let told = revision_write(
                match known {
                    Some(other) => Some(other.deep_view()),
                    None => None,
                },
                match file {
                    Some(text) => Some(text@),
                    None => None,
                },
                package.deep_view(),
            );
            match r {
                Ok(step) => told is Ok && told->Ok_0 == step,
                Err(failure) => told is Err && told->Err_0 == failure.deep_view(),
            }
        }),
{
    if let Some(other) = known {
        if json_alike(&other.response_json(), &package.response_json()) {
            return Ok(RevisionWrite::Kept);
        }
        return Err(
            DriverFailure::new(
                "revision_hash_conflict",
                "immutable flow revision package content mismatch",
            ),
        );
    }
    match file {
        Some(text) => {
            let expected = pretty(&package.response_json());
            if same(trim(text), trim(expected.as_str())) {
                Ok(RevisionWrite::Kept)
            } else {
                Err(
                    DriverFailure::new(
                        "revision_hash_conflict",
                        "immutable flow revision file content mismatch",
                    ),
                )
            }
        },
        None => Ok(RevisionWrite::Write),
    }
}

/// A lock that was written is kept as it is: writing it again changes nothing.
pub proof fn lemma_kept_locks_stay(package: StoredRevisionView)
    ensures
        revision_write(Some(package), None, package) == Ok::<RevisionWrite, FailureView>(
            RevisionWrite::Kept,
        ),
        revision_write(None, Some(package.text()), package) == Ok::<RevisionWrite, FailureView>(
            RevisionWrite::Kept,
        ),
{
}

/// The event that says that a lock may be used.
pub open spec fn revision_available_event(
    lock_id: Seq<char>,
    content_hash: Seq<char>,
    review_id: Seq<char>,
) -> PlannedEventView {
    PlannedEventView {
        kind: "flow_revision_available"@,
        payload: JsonView::Record(
            no_fields()
                .push(("lock_id"@, JsonView::Text(lock_id)))
                .push(("content_hash"@, JsonView::Text(content_hash)))
                .push(("revision_file"@, JsonView::Text(revision_file(content_hash))))
                .push(("review_id"@, JsonView::Text(review_id))),
        ),
    }
}

impl ReplayedDriverEvents {
    /// The event that says that a lock may be used; none if that is known.
    pub fn publish_applied_lock_revision(
        &self,
        lock_id: &String,
        content_hash: &str,
        package: &StoredFlowRevision,
    ) -> (r: Option<PlannedEvent>)
        ensures
            r.deep_view() == if self.deep_view().revisions.dom().contains(lock_id@) {
                None
            } else {
                Some(
                    revision_available_event(
                        lock_id@,
                        content_hash@,
                        package.deep_view().review_id,
                    ),
                )
            },
    {
        if self.revisions.contains_key(lock_id) {
            return None;
        }
        Some(
            PlannedEvent {
                kind: "flow_revision_available",
                payload: Fields::new()
                    .put("lock_id", Json::text(lock_id.as_str()))
                    .put("content_hash", Json::text(content_hash))
                    .put(
                        "revision_file",
                        Json::text(revision_relative_path(content_hash).as_str()),
                    )
                    .put("review_id", Json::text(package.review_id()))
                    .done(),
            },
        )
    }

    /// The lock may be used from now on.
    pub fn revision_published(&mut self, lock_id: &String, content_hash: &str)
        ensures
            final(self).deep_view() == (DriverStateView {
                revisions: old(self).deep_view().revisions.insert(
                    lock_id@,
                    revision_file(content_hash@),
                ),
                ..old(self).deep_view()
            }),
    {
        self.revisions.insert(lock_id.clone(), revision_relative_path(content_hash));
    }
}

/// The content that the events of a run name for each lock: the last one counts.
pub open spec fn references(named: Seq<(Seq<char>, Seq<char>)>) -> Map<Seq<char>, Seq<char>>
    decreases named.len(),
{
    if named.len() == 0 {
        Map::empty()
    } else {
        references(named.drop_last()).insert(named.last().0, named.last().1)
    }
}

/// The content that the events of a run name for each lock.
pub fn referenced_locks(named: &Vec<(String, String)>) -> (r: Table<String, String>)
    ensures
        r.deep_view() == references(named.deep_view()),
{
    let ghost model = named.deep_view();
    let mut out: Table<String, String> = Table::new();
    let mut i: usize = 0;
    assert(model.take(0) =~= Seq::<(Seq<char>, Seq<char>)>::empty());
    while i < named.len()
        invariant
            i <= named.len(),
            model == named.deep_view(),
            out.deep_view() == references(model.take(i as int)),
        decreases named.len() - i,
    {
        proof {
            assert(model.take(i + 1).drop_last() =~= model.take(i as int));
            assert(model.take(i + 1).last() == named@[i as int].deep_view());
        }
        out.insert(named[i].0.clone(), named[i].1.clone());
        i += 1;
    }
    assert(model.take(i as int) =~= model);
    out
}

/// Whether a stored lock is the one that the events name.
pub fn check_referenced_lock(package: &StoredFlowRevision, lock_id: &str, content_hash: &str) -> (r:
    Result<(), &'static str>)
    ensures
        r is Ok == (package.deep_view().flow_lock.id == lock_id@
            && package.deep_view().flow_lock.content_hash == content_hash@),
        r is Err ==> r->Err_0@
            == "runtime flow revision reference does not match immutable package"@,
{
    if same(package.lock_id(), lock_id) && same(package.content_hash(), content_hash) {
        Ok(())
    } else {
        Err("runtime flow revision reference does not match immutable package")
    }
}

/// The path of a lock that the events of a run name.
pub fn referenced_lock_path(private_run_root: &str, content_hash: &str) -> (r: String)
    ensures
        r@ == path_joined(private_run_root@, revision_file(content_hash@)),
{
    join_path(private_run_root, revision_relative_path(content_hash).as_str())
}

/// Why the records of events cannot be read.
#[derive(Debug, Clone, Copy, PartialEq, Eq, Structural)]
pub enum BatchFault {
    CountMissing,
    CountMismatch,
    EventsMissing,
    /// They are no list.
    EventsUnreadable,
}

impl BatchFault {
    pub open spec fn text(self) -> Seq<char> {
        match self {
            BatchFault::CountMissing => "runtime event batch base_event_count is required"@,
            BatchFault::CountMismatch => "runtime event batch base_event_count mismatch"@,
            BatchFault::EventsMissing => "runtime event batch events are required"@,
            BatchFault::EventsUnreadable => "runtime event batch events are not a list"@,
        }
    }

    pub fn message(self) -> (r: &'static str)
        ensures
            r@ == self.text(),
    {
        match self {
            BatchFault::CountMissing => "runtime event batch base_event_count is required",
            BatchFault::CountMismatch => "runtime event batch base_event_count mismatch",
            BatchFault::EventsMissing => "runtime event batch events are required",
            BatchFault::EventsUnreadable => "runtime event batch events are not a list",
        }
    }
}

/// Whether a record holds several events.
pub open spec fn is_batch(record: JsonView) -> bool {
    text_field(record, "protocol"@) == Some(RUNTIME_EVENT_BATCH_PROTOCOL@)
}

/// The events of a run with those of one more record.
pub open spec fn with_record(events: Seq<JsonView>, record: JsonView) -> Result<
    Seq<JsonView>,
    BatchFault,
> {
    if !is_batch(record) {
        Ok(events.push(record))
    } else {
        match unsigned_field(record, "base_event_count"@) {
            Some(count) => if count > usize::MAX {
                Err(BatchFault::CountMissing)
            } else if count != events.len() {
                Err(BatchFault::CountMismatch)
            } else {
                match field(record, "events"@) {
                    Some(value) => match items_of(value) {
                        Some(items) => Ok(events + items),
                        None => Err(BatchFault::EventsUnreadable),
                    },
                    None => Err(BatchFault::EventsMissing),
                }
            },
            None => Err(BatchFault::CountMissing),
        }
    }
}

/// The events of a run, from its records.
pub open spec fn events_in(records: Seq<JsonView>) -> Result<Seq<JsonView>, BatchFault>
    decreases records.len(),
{
    if records.len() == 0 {
        Ok(Seq::empty())
    } else {
        match events_in(records.drop_last()) {
            Ok(events) => with_record(events, records.last()),
            Err(fault) => Err(fault),
        }
    }
}

/// Whether the records can be read as far as given.
proof fn lemma_fault_stays(records: Seq<JsonView>, n: int)
    requires
        0 <= n <= records.len(),
        events_in(records.take(n)) is Err,
    ensures
        events_in(records) == events_in(records.take(n)),
    decreases records.len() - n,
{
    if n == records.len() {
        assert(records.take(n) =~= records);
    } else {
        assert(records.take(n + 1).drop_last() =~= records.take(n));
        lemma_fault_stays(records, n + 1);
    }
}

/// The events of a run, from its records; each is still to be read itself.
pub fn read_runtime_events(records: &Vec<Json>) -> (r: Result<Vec<Json>, BatchFault>)
    ensures
        match r {
            Ok(events) => events_in(records.deep_view()) == Ok::<Seq<JsonView>, BatchFault>(
                events.deep_view(),
            ),
            Err(fault) => events_in(records.deep_view()) == Err::<Seq<JsonView>, BatchFault>(
                fault,
            ),
        },
{
    let ghost model = records.deep_view();
    let mut events: Vec<Json> = Vec::new();
    let mut i: usize = 0;
    proof {
        assert(events.deep_view() =~= Seq::<JsonView>::empty());
        assert(model.take(0) =~= Seq::<JsonView>::empty());
    }
    while i < records.len()
        invariant
            i <= records.len(),
            model == records.deep_view(),
            events_in(model.take(i as int)) == Ok::<Seq<JsonView>, BatchFault>(
                events.deep_view(),
            ),
        decreases records.len() - i,
    {
        let record = &records[i];
        let ghost before = events.deep_view();
        proof {
            assert(model[i as int] == record@);
            assert(model.take(i + 1).drop_last() =~= model.take(i as int));
            assert(model.take(i + 1).last() == record@);
            assert(events_in(model.take(i + 1)) == with_record(before, record@));
            if with_record(before, record@) is Err {
                lemma_fault_stays(model, i + 1);
            }
        }
        let batch = match record.text_at("protocol") {
            Some(protocol) => same(protocol, RUNTIME_EVENT_BATCH_PROTOCOL),
            None => false,
        };
        if !batch {
            events.push(record.clone());
            assert(events.deep_view() =~= before.push(record@));
        } else {
            let count = match record.unsigned_at("base_event_count") {
                Some(count) => count,
                None => return Err(BatchFault::CountMissing),
            };
            if count > usize::MAX as u64 {
                return Err(BatchFault::CountMissing);
            }
            if count as usize != events.len() {
                return Err(BatchFault::CountMismatch);
            }
            let value = match record.get("events") {
                Some(value) => value,
                None => return Err(BatchFault::EventsMissing),
            };
            let items = match value.as_list() {
                Some(items) => items,
                None => return Err(BatchFault::EventsUnreadable),
            };
            push_all(&mut events, items);
        }
        i += 1;
    }
    assert(model.take(i as int) =~= model);
    Ok(events)
}

/// Puts copies of values behind others.
pub fn push_all(events: &mut Vec<Json>, items: &Vec<Json>)
    ensures
        final(events).deep_view() == old(events).deep_view() + items.deep_view(),
{
    let ghost start = events.deep_view();
    let ghost model = items.deep_view();
    let mut k: usize = 0;
    assert(start + model.take(0) =~= start);
    while k < items.len()
        invariant
            k <= items.len(),
            model == items.deep_view(),
            events.deep_view() == start + model.take(k as int),
        decreases items.len() - k,
    {
        let ghost before = events.deep_view();
        events.push(items[k].clone());
        proof {
            assert(events.deep_view() =~= before.push(items@[k as int]@));
            assert(model[k as int] == items@[k as int]@);
            assert(start + model.take(k + 1) =~= (start + model.take(k as int)).push(
                model[k as int],
            ));
        }
        k += 1;
    }
    assert(model.take(k as int) =~= model);
}

/// A record of several events, which stand behind the given number of others.
pub open spec fn batch_record(base_event_count: usize, events: Seq<JsonView>) -> JsonView {
    JsonView::Record(
        no_fields()
            .push(("protocol"@, JsonView::Text(RUNTIME_EVENT_BATCH_PROTOCOL@)))
            .push(("base_event_count"@, JsonView::Unsigned(base_event_count as u64)))
            .push(("events"@, JsonView::List(events))),
    )
}

pub fn runtime_event_batch(base_event_count: usize, events: Vec<Json>) -> (r: Json)
    ensures
        r@ == batch_record(base_event_count, events.deep_view()),
{
    Fields::new()
        .put("protocol", Json::text(RUNTIME_EVENT_BATCH_PROTOCOL))
        .put("base_event_count", Json::Unsigned(base_event_count as u64))
        .put("events", Json::list(events))
        .done()
}

/// A record of several events, written behind what is there, gives them back behind it.
pub proof fn lemma_batches_are_read_back(
    records: Seq<JsonView>,
    base_event_count: usize,
    pending: Seq<JsonView>,
)
    requires
        events_in(records) is Ok,
        events_in(records)->Ok_0.len() == base_event_count,
    ensures
        events_in(records.push(batch_record(base_event_count, pending))) == Ok::<
            Seq<JsonView>,
            BatchFault,
        >(events_in(records)->Ok_0 + pending),
{
    let record = batch_record(base_event_count, pending);
    let grown = records.push(record);
    assert(grown.drop_last() =~= records);
    assert(grown.last() == record);
    reveal_strlit("protocol");
    reveal_strlit("base_event_count");
    reveal_strlit("events");
    assert("protocol"@.len() == 8);
    assert("base_event_count"@.len() == 16);
    assert("events"@.len() == 6);
    let a = no_fields().push(("protocol"@, JsonView::Text(RUNTIME_EVENT_BATCH_PROTOCOL@)));
    let b = a.push(("base_event_count"@, JsonView::Unsigned(base_event_count as u64)));
    let c = b.push(("events"@, JsonView::List(pending)));
    super::fields::lemma_lookup_push(no_fields(), "protocol"@, a.last().1, "protocol"@);
    super::fields::lemma_lookup_push(a, "base_event_count"@, b.last().1, "protocol"@);
    super::fields::lemma_lookup_push(a, "base_event_count"@, b.last().1, "base_event_count"@);
    super::fields::lemma_lookup_push(b, "events"@, c.last().1, "protocol"@);
    super::fields::lemma_lookup_push(b, "events"@, c.last().1, "base_event_count"@);
    super::fields::lemma_lookup_push(b, "events"@, c.last().1, "events"@);
}

} // verus!
