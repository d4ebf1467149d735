//! What the driver decides on, in terms of what it was asked and of what it holds.
use vstd::prelude::*;

use crate::adapters::tmux::error::file_name;
use crate::flow::lock::FlowLockView;
use crate::json::{
    distinct_keys, field, flag_field, lemma_field_at, lemma_field_gone, lemma_field_set, no_fields,
    text_field, unsigned_field, without_field, JsonView,
};
use crate::split::path_joined;
use crate::text::{is_blank, trimmed};

use super::allocation::binding_of;
use super::binding::{given_package, rebound, KnownRunView};
use super::client::{
    answer_time, endpoint_of, leaves_open, metadata_of, DriverEndpointState, ResponseFault,
    TOKEN_FILE,
};
use super::delivery::{unsigned_or, DeliveriesView};
use super::failure::{gone, united, FailureView};
use super::fields::{defaulted_count, defaulted_unsigned, optional_text, small_unsigned};
use super::keys::DeliveryKeyView;
use super::lifecycle::{
    exit_told, operator_step, place_in, place_of, revision_from, revision_step, AssetRevisionView,
};
use super::loading::{loaded, named_revision, RevisionFileView};
use super::message::MessageRequestView;
use super::messaging::message_target;
use super::operation::{bound_lock, is_bound};
use super::ownership::{asked_actuation, asked_tmux};
use super::participant::{
    file_of, file_placed, hook_decision, stop_reason, told_to_hook, with_exits, BindingFileView,
    ParticipantExitView, StopEventView,
};
use super::reads::{lock_to_preview, mapping_of, LatestLockView};
use super::records::{
    DriverPaneConfigView, ParticipantBindingView, StoredPaneView, TmuxPaneAllocationIntentView,
};
use super::recovery::{identity_fault, state_at_load};
use super::replay::{fits_delivery, DriverEventView, DriverStateView, DriverTmuxStateView};
use super::request::asked_lock_mode;
use super::revision::{named_review, review_fault, FlowReviewView, StoredRevisionView};
use super::storage::{filled_lines, Contact};
use super::tools::{revision_asked, stop_asked, StopStepView};
use super::wire::{demanded_filled, either_field, FlowLockMode, RunMode};

verus! {

broadcast use vstd::string::group_string_axioms;

/// A driver is dead when its socket is missing or nobody listens there, alive when it answers, and
/// in doubt otherwise.
pub proof fn lemma_endpoints_are_known_by_their_answer(present: bool, contact: Contact)
    ensures
        endpoint_of(present, contact) == Some(DriverEndpointState::Accepting) <==> (present
            && contact == Contact::Answered),
        endpoint_of(present, contact) == Some(DriverEndpointState::Dead) <==> (!present || contact
            == Contact::Refused || contact == Contact::NotFound),
        endpoint_of(present, contact) is None <==> (present && contact == Contact::Unclear),
{
}

/// What changes a run is waited for longer than what only reads it.
pub proof fn lemma_changes_are_waited_for_longer(op: Seq<char>, read: Seq<char>)
    requires
        read == "status"@ || read == "context"@ || read == "why"@,
        op != "status"@ && op != "context"@ && op != "why"@,
    ensures
        answer_time(read) < answer_time(op),
{
}

/// A request whose connection broke may have been carried out; one that failed in another way was
/// not.
pub proof fn lemma_broken_connections_leave_doubt(fault: ResponseFault)
    ensures
        leaves_open(fault) <==> (fault == ResponseFault::UnexpectedEof || fault
            == ResponseFault::ConnectionReset || fault == ResponseFault::ConnectionAborted || fault
            == ResponseFault::BrokenPipe || fault == ResponseFault::TimedOut),
{
}

proof fn lemma_united_begins(items: Seq<JsonView>, more: Seq<JsonView>)
    ensures
        items.len() <= united(items, more).len(),
        united(items, more).take(items.len() as int) == items,
        united(items, more).len() <= items.len() + more.len(),
    decreases more.len(),
{
    if more.len() > 0 {
        lemma_united_begins(items, more.drop_last());
        let front = united(items, more.drop_last());
        assert(front.push(more.last()).take(items.len() as int) =~= front.take(items.len() as int));
    } else {
        assert(items.take(items.len() as int) =~= items);
    }
}

/// A failure that leaves panes behind tells them beside those that it told before, and is else the
/// failure that it was.
pub proof fn lemma_left_panes_are_told(failure: FailureView, panes: Seq<JsonView>, key: Seq<char>)
    requires
        failure.extra is Record,
        key != "tmux_cleanup"@,
    ensures
        ({
            let after = failure.leaving(panes);
            &&& after.code == failure.code
            &&& after.message == failure.message
            &&& field(after.extra, key) == field(failure.extra, key)
            &&& failure.left_panes().len() <= after.left_panes().len()
            &&& after.left_panes().take(failure.left_panes().len() as int) == failure.left_panes()
            &&& panes.len() == 0 ==> after == failure
        }),
{
    if panes.len() > 0 {
        let told = JsonView::Record(
            no_fields().push(
                ("panes"@, JsonView::List(united(failure.left_panes(), panes))),
            ),
        );
        lemma_field_set(failure.extra, "tmux_cleanup"@, told, key);
        lemma_field_set(failure.extra, "tmux_cleanup"@, told, "tmux_cleanup"@);
        lemma_field_at(told->Record_0, 0);
        lemma_united_begins(failure.left_panes(), panes);
    } else {
        assert(failure.left_panes().take(failure.left_panes().len() as int)
            =~= failure.left_panes());
    }
}

/// A driver ends well exactly when the panes of its nodes and its own were given up.
pub proof fn lemma_exits_are_told_as_they_went(
    reason: Seq<char>,
    nodes: Result<JsonView, FailureView>,
    operator: Result<(), FailureView>,
)
    ensures
        exit_told(reason, nodes, operator) is Ok <==> (nodes is Ok && operator is Ok),
        match exit_told(reason, nodes, operator) {
            Ok(told) => {
                &&& field(told, "reason"@) == Some(JsonView::Text(reason))
                &&& field(told, "nodes"@) == Some(nodes->Ok_0)
                &&& field(told, "operator_pane_released"@) == Some(JsonView::Bool(true))
            },
            Err(_) => true,
        },
{
    if nodes is Ok && operator is Ok {
        let fields = exit_told(reason, nodes, operator)->Ok_0->Record_0;
        reveal_strlit("reason");
        reveal_strlit("nodes");
        reveal_strlit("operator_pane_released");
        assert("nodes"@.len() == 5);
        assert("reason"@.len() == 6);
        assert("operator_pane_released"@.len() == 22);
        assert(distinct_keys(fields));
        lemma_field_at(fields, 0);
        lemma_field_at(fields, 1);
        lemma_field_at(fields, 2);
    }
}

/// The pane of the operator is taken over exactly when one is configured that is not held yet: as
/// the first where none is held, else in place of the one that is.
pub proof fn lemma_operator_panes_are_taken_over(
    current: Option<StoredPaneView>,
    configured: Option<DriverPaneConfigView>,
)
    ensures
        operator_step(current, configured) is Own <==> (configured is Some && current is None),
        operator_step(current, configured) is Keep <==> (configured is None || (current is Some && {
            let held = current->0;
            let wanted = configured->0;
            &&& held.pane_id == wanted.pane_id
            &&& held.session_id == wanted.session_id
            &&& held.window_id == wanted.window_id
            &&& held.window_name == wanted.window_name
            &&& held.allocation_generation == 0
        })),
{
}

/// The first revision of a lock in a state, from a place on.
proof fn lemma_revision_from(
    revisions: Seq<AssetRevisionView>,
    lock_id: Seq<char>,
    content_hash: Seq<char>,
    state: Seq<char>,
    n: int,
)
    requires
        0 <= n,
    ensures
        revision_from(revisions, lock_id, content_hash, state, n) is Some <==> exists|i: int|
            n <= i < revisions.len() && (#[trigger] revisions[i]).flow_lock_id == lock_id
                && revisions[i].content_hash == content_hash && revisions[i].apply_state == state,
    decreases revisions.len() - n,
{
    if n < revisions.len() {
        lemma_revision_from(revisions, lock_id, content_hash, state, n + 1);
        assert(revisions[n] == revisions[n]);
    }
}

/// A revision is published once: it is left alone where it was applied, finished where it was only
/// prepared, and written down where there is none.
pub proof fn lemma_revisions_are_published_once(
    revisions: Seq<AssetRevisionView>,
    lock_id: Seq<char>,
    content_hash: Seq<char>,
)
    ensures
        revision_step(revisions, lock_id, content_hash) is Published <==> exists|i: int|
            0 <= i < revisions.len() && (#[trigger] revisions[i]).flow_lock_id == lock_id
                && revisions[i].content_hash == content_hash && revisions[i].apply_state
                == "applied"@,
        revision_step(revisions, lock_id, content_hash) is Persist <==> forall|i: int|
            0 <= i < revisions.len() ==> (#[trigger] revisions[i]).flow_lock_id != lock_id
                || revisions[i].content_hash != content_hash || (revisions[i].apply_state
                != "applied"@ && revisions[i].apply_state != "prepared"@),
{
    lemma_revision_from(revisions, lock_id, content_hash, "applied"@, 0);
    lemma_revision_from(revisions, lock_id, content_hash, "prepared"@, 0);
}

/// An event names the file of a revision exactly when it makes one available, with its lock and its
/// file.
pub proof fn lemma_events_name_revisions(
    event: DriverEventView,
    lock_id: Seq<char>,
    file: Seq<char>,
)
    ensures
        named_revision(event) == Some((lock_id, file)) <==> {
            &&& event.kind == "flow_revision_available"@
            &&& text_field(event.payload, "lock_id"@) == Some(lock_id)
            &&& text_field(event.payload, "revision_file"@) == Some(file)
        },
{
}

/// A run is bound to a lock exactly when both the id and the hash of the lock are written down, and
/// it can be taken up when the package at hand has that hash and can be read.
pub proof fn lemma_runs_are_bound_to_a_lock(
    lock_id: Option<Seq<char>>,
    content_hash: Option<Seq<char>>,
    package_hash: Option<Seq<char>>,
    readable: bool,
)
    ensures
        bound_lock(lock_id, content_hash) is Ok <==> (lock_id is Some && content_hash is Some),
        bound_lock(lock_id, content_hash) is Ok ==> bound_lock(lock_id, content_hash)->Ok_0 == (
            lock_id->0,
            content_hash->0,
        ),
        is_bound(content_hash, package_hash, readable) <==> (readable && content_hash is Some
            && package_hash is Some && content_hash->0 == package_hash->0),
{
}

/// A package is taken from a request exactly when a flow lock is given that can be read, a review
/// is named, and that review stands for the lock; the package is then that lock under that review.
pub proof fn lemma_packages_come_with_a_review(
    request: JsonView,
    parsed: Result<FlowLockView, Seq<char>>,
    loaded: Result<FlowReviewView, Seq<char>>,
)
    ensures
        given_package(request, parsed, loaded) is Ok <==> {
            &&& field(request, "flow_lock"@) is Some
            &&& parsed is Ok
            &&& named_review(request) is Some
            &&& loaded is Ok
            &&& review_fault(loaded->Ok_0, parsed->Ok_0) is None
        },
        match given_package(request, parsed, loaded) {
            Ok(package) => package.flow_lock == parsed->Ok_0 && Some(package.review_id)
                == named_review(request),
            Err(_) => true,
        },
{
}

/// A review is named by the first of its two keys, by a text that is not blank.
pub proof fn lemma_reviews_are_named(request: JsonView, id: Seq<char>)
    ensures
        named_review(request) == Some(id) <==> {
            &&& trimmed(id).len() > 0
            &&& either_field(request, "review_id"@, "reviewId"@) == Some(JsonView::Text(id))
        },
{
}

/// A revision is applied exactly when its package is good and its mode is known.
pub proof fn lemma_revisions_are_asked_with_a_mode(
    request: JsonView,
    parsed: Result<FlowLockView, Seq<char>>,
    loaded: Result<FlowReviewView, Seq<char>>,
    package: StoredRevisionView,
    mode: FlowLockMode,
)
    ensures
        revision_asked(request, parsed, loaded) == Ok::<
            (StoredRevisionView, FlowLockMode),
            FailureView,
        >((package, mode)) <==> {
            &&& given_package(request, parsed, loaded) == Ok::<StoredRevisionView, FailureView>(
                package,
            )
            &&& asked_lock_mode(request) == Ok::<FlowLockMode, FailureView>(mode)
        },
{
}

/// A preview is of the lock that the request holds, or else of the one that was applied last; it is
/// told which of the two, and it is only of a run that there is.
pub proof fn lemma_previews_choose_their_lock(
    has_run: bool,
    request: JsonView,
    parsed: Result<FlowLockView, Seq<char>>,
    latest: LatestLockView,
)
    ensures
        match lock_to_preview(has_run, request, parsed, latest) {
            Ok((package, explicit)) => {
                &&& has_run
                &&& explicit <==> field(request, "flow_lock"@) is Some
                &&& explicit ==> parsed is Ok && package.flow_lock == parsed->Ok_0
                &&& !explicit ==> latest.named && latest.package == Some(package)
                    && latest.applied_hash == Some(package.flow_lock.content_hash)
                &&& text_field(request, "flow_lock_id"@) is Some ==> text_field(
                    request,
                    "flow_lock_id"@,
                ) == Some(package.flow_lock.id)
                &&& text_field(request, "content_hash"@) is Some ==> text_field(
                    request,
                    "content_hash"@,
                ) == Some(package.flow_lock.content_hash)
            },
            Err(_) => true,
        },
        has_run && field(request, "flow_lock"@) is Some && parsed is Ok && text_field(
            request,
            "flow_lock_id"@,
        ) is None && text_field(request, "content_hash"@) is None ==> lock_to_preview(
            has_run,
            request,
            parsed,
            latest,
        ) is Ok,
{
}

/// A stop that was told before is told again as it was; one that was not is looked at, for the
/// activation of the participant that asks.
pub proof fn lemma_stops_are_told_again(
    state: DriverStateView,
    run_id: Seq<char>,
    request: JsonView,
    file: Option<BindingFileView>,
    runs_root: Seq<char>,
    events: Seq<StopEventView>,
)
    ensures
        match stop_asked(state, run_id, request, file, runs_root, events) {
            Ok(step) => {
                let binding = hook_decision(state, request, file, runs_root);
                let invocation = text_field(request, "invocation_id"@);
                &&& binding is Ok
                &&& invocation is Some
                &&& !is_blank(invocation->0)
                &&& match step {
                    StopStepView::Told(id, at) => id == binding->Ok_0.activation_id && told_to_hook(
                        events,
                        run_id,
                        id,
                        invocation->0,
                        false,
                        0,
                    ) == Some(at),
                    StopStepView::Observe(id, asked, reason) => {
                        &&& id == binding->Ok_0.activation_id
                        &&& asked == invocation->0
                        &&& reason == stop_reason(request)
                        &&& told_to_hook(events, run_id, id, asked, false, 0) is None
                    },
                }
            },
            Err(_) => hook_decision(state, request, file, runs_root) is Err || text_field(
                request,
                "invocation_id"@,
            ) is None || is_blank(text_field(request, "invocation_id"@)->0),
        },
{
}

/// What must be given is a text under its key that is not blank.
pub proof fn lemma_demands_are_met_by_texts(value: JsonView, key: Seq<char>, text: Seq<char>)
    ensures
        demanded_filled(value, key) == Ok::<Seq<char>, FailureView>(text) <==> (field(value, key)
            == Some(JsonView::Text(text)) && !is_blank(text)),
{
}

/// An event belongs to the delivery that is in doubt under its key exactly when it names the start
/// of that delivery.
pub proof fn lemma_events_belong_to_their_delivery(
    deliveries: DeliveriesView,
    key: DeliveryKeyView,
    payload: JsonView,
    old: bool,
    sequence: u64,
)
    requires
        unsigned_field(payload, "started_event_sequence"@) == Some(sequence),
    ensures
        fits_delivery(deliveries, key, payload, old) <==> (deliveries.ambiguous.dom().contains(key)
            && deliveries.ambiguous[key].started_event_sequence == sequence),
{
}

/// Fields that may be missing: a text, a number and a count each stand under their key or are the
/// default; a value of another kind is refused.
pub proof fn lemma_missing_fields_have_defaults(
    value: JsonView,
    key: Seq<char>,
    text: Seq<char>,
    n: u64,
    default: u64,
    count: usize,
)
    ensures
        optional_text(value, key) == Some(Some(text)) <==> field(value, key) == Some(
            JsonView::Text(text),
        ),
        optional_text(value, key) == Some(None::<Seq<char>>) <==> (field(value, key) is None
            || field(value, key) == Some(JsonView::Null)),
        field(value, key) is None ==> defaulted_unsigned(value, key, default) == Some(default)
            && unsigned_or(value, key, default) == default && defaulted_count(value, key, count)
            == Some(count),
        field(value, key) == Some(JsonView::Unsigned(n)) ==> defaulted_unsigned(value, key, default)
            == Some(n) && unsigned_or(value, key, default) == n && (n <= u32::MAX ==> small_unsigned(
            value,
            key,
        ) == Some(n as u32)) && (n > u32::MAX ==> small_unsigned(value, key) is None),
        field(value, key) == Some(JsonView::Text(text)) ==> defaulted_unsigned(value, key, default)
            is None && defaulted_count(value, key, count) is None && small_unsigned(value, key)
            is None,
{
}

/// The private identity of a run passes exactly when it is there and is that of the run.
pub proof fn lemma_private_runs_are_their_own(found: Option<Seq<char>>, expected: Seq<char>)
    ensures
        identity_fault(found, expected) is None <==> found == Some(expected),
{
}

/// The lines of a record are those that are not blank, in their order.
pub proof fn lemma_records_are_filled_lines(parts: Seq<Seq<char>>)
    ensures
        filled_lines(parts) == parts.filter(|line: Seq<char>| !is_blank(line)),
    decreases parts.len(),
{
    reveal(Seq::filter);
    if parts.len() > 0 {
        lemma_records_are_filled_lines(parts.drop_last());
    }
}

/// A pane is shown under its activation with its session, its window and its status; an activation
/// without a status is unknown.
pub proof fn lemma_panes_are_shown(
    run_id: Seq<char>,
    id: Seq<char>,
    pane: StoredPaneView,
    statuses: Map<Seq<char>, Seq<char>>,
)
    ensures
        ({
            let shown = mapping_of(run_id, id, pane, statuses);
            &&& shown.run_id == run_id
            &&& shown.activation_id == id
            &&& shown.pane_id == pane.pane_id
            &&& shown.session_id == pane.session_id
            &&& shown.window_id == pane.window_id
            &&& shown.window_name == pane.window_name
            &&& statuses.dom().contains(id) ==> shown.status == statuses[id]
            &&& !statuses.dom().contains(id) ==> shown.status == "unknown"@
        }),
{
}

/// Panes are asked for only when tmux is switched on; then the session, the window and the command
/// are the texts that the request gives, without the blanks round them.
pub proof fn lemma_panes_are_asked_for(request: JsonView)
    ensures
        match asked_tmux(request) {
            Ok(Some(config)) => {
                let object = field(request, "tmux"@);
                &&& object is Some && object->0 is Record
                &&& flag_field(object->0, "enabled"@) == Some(true)
                &&& text_field(object->0, "session"@) is Some
                &&& config.session == trimmed(text_field(object->0, "session"@)->0)
                &&& text_field(object->0, "window"@) is Some
                &&& config.window == trimmed(text_field(object->0, "window"@)->0)
                &&& config.session.len() > 0
                &&& config.window.len() > 0
                &&& config.agent_command.len() > 0
                &&& asked_actuation(object->0) is Ok
                &&& config.actuation == asked_actuation(object->0)->Ok_0
            },
            Ok(None) => field(request, "tmux"@) is None || flag_field(
                field(request, "tmux"@)->0,
                "enabled"@,
            ) != Some(true),
            Err(failure) => failure.code == "malformed_request"@ && field(request, "tmux"@) is Some,
        },
        field(request, "tmux"@) is None ==> asked_tmux(request) is Ok && asked_tmux(request)->Ok_0
            is None,
{
}

/// A failure that tells only the panes that are left forgets those that it told before.
pub proof fn lemma_only_left_panes_are_told(
    failure: FailureView,
    panes: Seq<JsonView>,
    key: Seq<char>,
)
    requires
        failure.extra is Record,
        key != "tmux_cleanup"@,
    ensures
        ({
            let after = failure.leaving_only(panes);
            &&& after.code == failure.code
            &&& after.message == failure.message
            &&& field(after.extra, key) == field(failure.extra, key)
            &&& after.left_panes() == united(Seq::empty(), panes)
            &&& panes.len() == 0 ==> field(after.extra, "tmux_cleanup"@) is None
        }),
{
    let bare = FailureView { extra: without_field(failure.extra, "tmux_cleanup"@), ..failure };
    lemma_field_gone(failure.extra, "tmux_cleanup"@, "tmux_cleanup"@);
    lemma_field_gone(failure.extra, "tmux_cleanup"@, key);
    assert(bare.left_panes() == Seq::<JsonView>::empty());
    if panes.len() > 0 {
        let told = JsonView::Record(
            no_fields().push(("panes"@, JsonView::List(united(bare.left_panes(), panes)))),
        );
        lemma_field_set(bare.extra, "tmux_cleanup"@, told, key);
        lemma_field_set(bare.extra, "tmux_cleanup"@, told, "tmux_cleanup"@);
        lemma_field_at(told->Record_0, 0);
    }
}

/// A pane that is gone though it could not be written down is told once, with its end; the failure
/// is else what it was.
pub proof fn lemma_lost_panes_are_told(failure: FailureView, pane: JsonView, key: Seq<char>)
    requires
        failure.extra is Record,
        key != "tmux_release_outcomes"@,
    ensures
        ({
            let after = failure.losing(pane);
            &&& after.code == failure.code
            &&& after.message == failure.message
            &&& field(after.extra, key) == field(failure.extra, key)
            &&& after.gone_panes() == united(failure.gone_panes(), seq![gone(pane)])
            &&& field(gone(pane), "pane"@) == Some(pane)
            &&& field(gone(pane), "physical_release"@) == Some(JsonView::Text("complete"@))
            &&& field(gone(pane), "ownership_persistence"@) == Some(JsonView::Text("failed"@))
        }),
{
    let told = JsonView::List(united(failure.gone_panes(), seq![gone(pane)]));
    assert(Seq::<JsonView>::empty().push(gone(pane)) =~= seq![gone(pane)]);
    lemma_field_set(failure.extra, "tmux_release_outcomes"@, told, key);
    lemma_field_set(
        failure.extra,
        "tmux_release_outcomes"@,
        told,
        "tmux_release_outcomes"@,
    );
    let fields = gone(pane)->Record_0;
    reveal_strlit("pane");
    reveal_strlit("physical_release");
    reveal_strlit("ownership_persistence");
    assert("pane"@.len() == 4);
    assert("physical_release"@.len() == 16);
    assert("ownership_persistence"@.len() == 21);
    assert(distinct_keys(fields));
    lemma_field_at(fields, 0);
    lemma_field_at(fields, 1);
    lemma_field_at(fields, 2);
}

/// Loading gives the state of the events with the exits that were told; it fails where either
/// cannot be taken in.
pub proof fn lemma_loads_replay_and_take_in_exits(
    root: Seq<char>,
    events: Seq<DriverEventView>,
    files: Seq<RevisionFileView>,
    exits: Seq<ParticipantExitView>,
)
    ensures
        match state_at_load(root, events, files, exits) {
            Ok(found) => {
                let replayed = loaded(root, events, files, events.len() as int);
                &&& replayed is Ok
                &&& with_exits(replayed->Ok_0.state.participant_bindings, exits) is Ok
                &&& found.state.participant_bindings == with_exits(
                    replayed->Ok_0.state.participant_bindings,
                    exits,
                )->Ok_0
                &&& found.state.tmux == replayed->Ok_0.state.tmux
                &&& found.state.deliveries == replayed->Ok_0.state.deliveries
                &&& found.locks == replayed->Ok_0.locks
                &&& exits.len() == 0 ==> found == replayed->Ok_0
            },
            Err(_) => {
                let replayed = loaded(root, events, files, events.len() as int);
                replayed is Err || with_exits(
                    replayed->Ok_0.state.participant_bindings,
                    exits,
                ) is Err
            },
        },
{
}

/// The private file of a participant lies under its root exactly when it is named after its handle.
pub proof fn lemma_private_files_lie_where_they_belong(
    root: Seq<char>,
    binding: ParticipantBindingView,
)
    ensures
        file_of(root, binding) is Ok <==> file_placed(binding),
        file_of(root, binding) is Ok ==> file_of(root, binding)->Ok_0 == path_joined(
            root,
            binding.binding_file,
        ),
{
}

/// A run that is bound already is taken up again only under the lock, the mode and the limits that
/// it has, with the activations that it has; nothing is started anew.
pub proof fn lemma_bound_runs_are_taken_up_as_they_are(
    run_id: Seq<char>,
    request: JsonView,
    known: KnownRunView,
    held: Option<StoredRevisionView>,
    parsed: Result<FlowLockView, Seq<char>>,
    loaded: Result<FlowReviewView, Seq<char>>,
    mode: RunMode,
    limit: u64,
    stops: u32,
)
    ensures
        match rebound(run_id, request, known, held, parsed, loaded, mode, limit, stops) {
            Ok(plan) => {
                &&& plan.run_id == run_id
                &&& !plan.fresh
                &&& plan.nodes.len() == 0
                &&& plan.run_mode == mode
                &&& plan.activation_limit == limit
                &&& plan.stop_attempt_limit == stops
                &&& known.flow_lock_id == Some(plan.package.flow_lock.id)
                &&& known.content_hash == Some(plan.package.flow_lock.content_hash)
                &&& field(request, "flow_lock"@) is Some ==> parsed is Ok && plan.package.flow_lock
                    == parsed->Ok_0
                &&& field(request, "flow_lock"@) is None ==> held == Some(plan.package)
            },
            Err(_) => true,
        },
{
}

/// Panes are made where they were planned, and stay where they were made: the session, the window
/// and the command are those of the plan and of the pane.
pub proof fn lemma_panes_stay_where_they_were_planned(
    intent: TmuxPaneAllocationIntentView,
    pane: StoredPaneView,
    tmux: DriverTmuxStateView,
)
    ensures
        place_of(intent).session == intent.session_id,
        place_of(intent).window == intent.window_name,
        place_of(intent).agent_command == intent.agent_command,
        place_of(intent).existing_window_id == intent.existing_window_id,
        binding_of(intent, pane).session == pane.session_id,
        binding_of(intent, pane).window == pane.window_name,
        binding_of(intent, pane).existing_window_id == Some(pane.window_id),
        binding_of(intent, pane).agent_command == intent.agent_command,
        binding_of(intent, pane).actuation == intent.actuation,
        place_in(tmux).session == tmux.session_id,
        place_in(tmux).window == tmux.window_name,
        place_in(tmux).existing_window_id == Some(tmux.window_id),
        place_in(tmux).agent_command == tmux.agent_command,
{
}

/// A message goes to the pane of the activation that it is for.
pub proof fn lemma_messages_go_to_their_pane(
    run_id: Seq<char>,
    message: MessageRequestView,
    pane: StoredPaneView,
)
    ensures
        ({
            let target = message_target(run_id, message, pane);
            &&& target.run_id == run_id
            &&& target.activation_id == message.activation_id
            &&& target.pane_id == pane.pane_id
            &&& target.session_id == pane.session_id
            &&& target.window_id == pane.window_id
            &&& target.window_name == pane.window_name
            &&& target.allocation_generation == pane.allocation_generation
        }),
{
}

/// What is written down of an endpoint names the run, the file of the socket and the time.
pub proof fn lemma_endpoints_are_written_down(run_id: Seq<char>, socket: Seq<char>, now_ms: u64)
    ensures
        metadata_of(run_id, socket, now_ms) is Some <==> file_name(socket) is Some,
        match metadata_of(run_id, socket, now_ms) {
            Some(known) => known.run_id == run_id && Some(known.socket_path) == file_name(socket)
                && known.updated_at_ms == now_ms && known.auth_token_path == TOKEN_FILE@,
            None => true,
        },
{
}

} // verus!
