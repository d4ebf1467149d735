//! What lasts of a history: what each list, map and report keeps of the entries behind it.
use vstd::prelude::*;

use crate::adapters::tmux::pipe::PipeSinkIdentity;
use crate::flow::export::{lemma_ordered_field, ordered, ordered_fields};
use crate::flow::marks::lemma_exported_fields_are_in_order;
use crate::flow::shallow::lemma_ordered_fields_come;
use crate::json::{
    distinct_keys, field, json_parse, lemma_field_at, lemma_field_gone, lemma_field_set, lookup,
    option_text, without_field, JsonView,
};
use crate::order::{lemma_sorted, sorted, text_le, Ranked};

use super::context::{applied_locks, review_of, ApplicationEntryView, LockReviewView};
use super::delivery::{barriers_of, DeliveriesView, PlannedEventView};
use super::failure::FailureView;
use super::fields::optional_signed_json;
use super::keys::AllocationKeyView;
use super::lifecycle::{capture_begun, capture_to_start, place_with_operator, ActivationView};
use super::message::hook_event;
use super::operation::{activation_words, with_commas};
use super::ownership::DriverTmuxConfigView;
use super::participant::{
    credential_digest, exited_among, exited_named, participant_status, ready_report, secret_of,
    with_exit, with_exits, BindingFileView, ParticipantExitView,
};
use super::publication::end_count;
use super::read_model::{
    cause_of, pane_name, revisions_shown, without_nonces, FlowApplication, FlowApplicationView,
};
use super::records::{
    DriverPaneConfigView, ParticipantBindingView, StoredPaneView, TmuxPipeCaptureIntentView,
};
use super::replay::DriverStateView;
use super::request::{asked_entries, next_event};
use super::revision::references;
use super::wire::{context_payloads, optional_u64, payload_text, payload_value, RunStatus};

verus! {

broadcast use vstd::string::group_string_axioms;

/// The review that counts for a lock is the last one that names it.
pub proof fn lemma_last_review_counts(reviews: Seq<LockReviewView>, i: int)
    requires
        0 <= i < reviews.len(),
        forall|j: int| i < j < reviews.len() ==> (#[trigger] reviews[j]).lock_id != reviews[i].lock_id,
    ensures
        review_of(reviews, reviews[i].lock_id) == Some(reviews[i]),
    decreases reviews.len(),
{
    if i < reviews.len() - 1 {
        let front = reviews.drop_last();
        assert(reviews[reviews.len() - 1].lock_id != reviews[i].lock_id);
        assert(front[i] == reviews[i]);
        lemma_last_review_counts(front, i);
    }
}

/// A lock that no review names has none.
pub proof fn lemma_unreviewed_locks_have_none(reviews: Seq<LockReviewView>, lock_id: Seq<char>)
    requires
        forall|j: int| 0 <= j < reviews.len() ==> (#[trigger] reviews[j]).lock_id != lock_id,
    ensures
        review_of(reviews, lock_id) is None,
    decreases reviews.len(),
{
    if reviews.len() > 0 {
        assert(reviews[reviews.len() - 1].lock_id != lock_id);
        lemma_unreviewed_locks_have_none(reviews.drop_last(), lock_id);
    }
}

/// The applications of a run are exactly its own, in their order; each shows its lock, its hash,
/// its mode and its place among the events.
pub proof fn lemma_applications_are_those_of_the_run(
    applications: Seq<ApplicationEntryView>,
    reviews: Seq<LockReviewView>,
    run_id: Seq<char>,
)
    ensures
        ({
            let own = applications.filter(|entry: ApplicationEntryView| entry.run_id == run_id);
            let shown = applied_locks(applications, reviews, run_id);
            &&& shown.len() == own.len()
            &&& forall|i: int|
                0 <= i < shown.len() ==> {
                    &&& (#[trigger] shown[i]).application_id == own[i].application_id
                    &&& shown[i].lock_id == own[i].lock_id
                    &&& shown[i].content_hash == own[i].content_hash
                    &&& shown[i].mode == own[i].mode
                    &&& shown[i].event_sequence == own[i].event_sequence
                    &&& shown[i].review_id is Some <==> review_of(reviews, own[i].lock_id) is Some
                    &&& shown[i].review_id is Some ==> shown[i].review_id == Some(
                        review_of(reviews, own[i].lock_id)->0.review_id,
                    )
                }
        }),
    decreases applications.len(),
{
    reveal(Seq::filter);
    if applications.len() > 0 {
        lemma_applications_are_those_of_the_run(applications.drop_last(), reviews, run_id);
    }
}

/// The console names exactly the activations of the run, in their order, each with its status.
pub proof fn lemma_console_names_own_activations(
    activations: Seq<ActivationView>,
    run_id: Seq<char>,
)
    ensures
        ({
            let own = activations.filter(|a: ActivationView| a.run_id == run_id);
            let words = activation_words(activations, run_id);
            &&& words.len() == own.len()
            &&& forall|i: int|
                0 <= i < words.len() ==> #[trigger] words[i] == own[i].activation_id + ":"@
                    + own[i].status.name()
        }),
    decreases activations.len(),
{
    reveal(Seq::filter);
    if activations.len() > 0 {
        lemma_console_names_own_activations(activations.drop_last(), run_id);
    }
}

/// Two lists that are told one after the other have a comma between them.
pub proof fn lemma_commas_stand_between(a: Seq<Seq<char>>, b: Seq<Seq<char>>)
    requires
        a.len() > 0,
        b.len() > 0,
    ensures
        with_commas(a + b) == with_commas(a) + ","@ + with_commas(b),
        with_commas(seq![a[0]]) == a[0],
    decreases b.len(),
{
    let all = a + b;
    assert(all.len() >= 2);
    assert(all.last() == b.last());
    if b.len() == 1 {
        assert(all.drop_last() =~= a);
    } else {
        assert(all.drop_last() =~= a + b.drop_last());
        lemma_commas_stand_between(a, b.drop_last());
        assert(with_commas(all) =~= with_commas(a) + ","@ + with_commas(b));
    }
}

/// Of the locks that are named for a reference, the last one counts.
pub proof fn lemma_last_reference_counts(named: Seq<(Seq<char>, Seq<char>)>, i: int)
    requires
        0 <= i < named.len(),
        forall|j: int| i < j < named.len() ==> (#[trigger] named[j]).0 != named[i].0,
    ensures
        references(named).dom().contains(named[i].0),
        references(named)[named[i].0] == named[i].1,
    decreases named.len(),
{
    if i < named.len() - 1 {
        let front = named.drop_last();
        assert(named[named.len() - 1].0 != named[i].0);
        assert(front[i] == named[i]);
        lemma_last_reference_counts(front, i);
    }
}

/// A reference that is not named has no lock.
pub proof fn lemma_unnamed_references_have_none(
    named: Seq<(Seq<char>, Seq<char>)>,
    key: Seq<char>,
)
    requires
        forall|j: int| 0 <= j < named.len() ==> (#[trigger] named[j]).0 != key,
    ensures
        !references(named).dom().contains(key),
    decreases named.len(),
{
    if named.len() > 0 {
        assert(named[named.len() - 1].0 != key);
        lemma_unnamed_references_have_none(named.drop_last(), key);
    }
}

proof fn lemma_payloads_are_a_record(entries: Seq<(Seq<char>, Seq<char>)>)
    ensures
        context_payloads(entries) is Record,
{
}

/// Under a name stands what the last payload of that name says.
pub proof fn lemma_last_payload_counts(entries: Seq<(Seq<char>, Seq<char>)>, i: int)
    requires
        0 <= i < entries.len(),
        forall|j: int| i < j < entries.len() ==> (#[trigger] entries[j]).0 != entries[i].0,
    ensures
        json_parse(entries[i].1) is Ok ==> field(context_payloads(entries), entries[i].0) == Some(
            json_parse(entries[i].1)->Ok_0,
        ),
        json_parse(entries[i].1) is Err ==> field(context_payloads(entries), entries[i].0) == Some(
            JsonView::Text(entries[i].1),
        ),
    decreases entries.len(),
{
    let front = entries.drop_last();
    lemma_payloads_are_a_record(front);
    lemma_field_set(
        context_payloads(front),
        entries.last().0,
        payload_value(entries.last().1),
        entries[i].0,
    );
    if i < entries.len() - 1 {
        assert(entries[entries.len() - 1].0 != entries[i].0);
        assert(front[i] == entries[i]);
        lemma_last_payload_counts(front, i);
    }
}

/// When activations are released, their panes, their pending allocations and their captures go,
/// and those of every other activation stay as they are.
pub proof fn lemma_released_activations_are_gone(
    state: DriverStateView,
    ids: Seq<Seq<char>>,
    id: Seq<char>,
)
    ensures
        ({
            let after = state.all_released(ids);
            &&& after.tmux is Some <==> state.tmux is Some
            &&& state.tmux is Some ==> {
                &&& after.tmux->0.panes.dom().contains(id) <==> (state.tmux->0.panes.dom().contains(
                    id,
                ) && !ids.contains(id))
                &&& !ids.contains(id) ==> after.tmux->0.panes[id] == state.tmux->0.panes[id]
            }
            &&& after.pending_tmux_allocations.dom().contains(id) <==> (
            state.pending_tmux_allocations.dom().contains(id) && !ids.contains(id))
            &&& after.pending_pipe_captures.dom().contains(id) <==> (
            state.pending_pipe_captures.dom().contains(id) && !ids.contains(id))
            &&& after.pipe_captures.dom().contains(id) <==> (state.pipe_captures.dom().contains(id)
                && !ids.contains(id))
            &&& after.participant_bindings == state.participant_bindings
            &&& after.deliveries.submitted == state.deliveries.submitted
            &&& after.deliveries.ambiguous == state.deliveries.ambiguous
            &&& forall|generation: u64|
                #![auto]
                after.deliveries.launched.contains(
                    (AllocationKeyView { activation_id: id, generation }),
                ) <==> (state.deliveries.launched.contains(
                    (AllocationKeyView { activation_id: id, generation }),
                ) && !ids.contains(id))
        }),
    decreases ids.len(),
{
    if ids.len() > 0 {
        let front = ids.drop_last();
        lemma_released_activations_are_gone(state, front, id);
        assert(ids.contains(id) <==> (front.contains(id) || ids.last() == id)) by {
            if ids.contains(id) {
                let i = choose|i: int| 0 <= i < ids.len() && ids[i] == id;
                if i < front.len() {
                    assert(front[i] == id);
                }
            }
            if front.contains(id) {
                let i = choose|i: int| 0 <= i < front.len() && front[i] == id;
                assert(ids[i] == id);
            }
            assert(ids[ids.len() - 1] == ids.last());
        }
    }
}

/// What bars two lists of activations is what bars the first, and then what bars the second.
pub proof fn lemma_barriers_follow_the_activations(
    deliveries: DeliveriesView,
    panes: Map<Seq<char>, StoredPaneView>,
    a: Seq<Seq<char>>,
    b: Seq<Seq<char>>,
)
    ensures
        barriers_of(deliveries, panes, a + b) == barriers_of(deliveries, panes, a) + barriers_of(
            deliveries,
            panes,
            b,
        ),
    decreases b.len(),
{
    if b.len() == 0 {
        assert(a + b =~= a);
        assert(barriers_of(deliveries, panes, a) + barriers_of(deliveries, panes, b)
            =~= barriers_of(deliveries, panes, a));
    } else {
        assert((a + b).drop_last() =~= a + b.drop_last());
        assert((a + b).last() == b.last());
        lemma_barriers_follow_the_activations(deliveries, panes, a, b.drop_last());
        assert(barriers_of(deliveries, panes, a + b) =~= barriers_of(deliveries, panes, a)
            + barriers_of(deliveries, panes, b));
    }
}

/// Where every exit that is told was taken in, each binding that was named has the status that was
/// told, every other binding is as it was, and no binding comes or goes.
pub proof fn lemma_exits_are_taken_in(
    bindings: Map<AllocationKeyView, ParticipantBindingView>,
    exits: Seq<ParticipantExitView>,
    key: AllocationKeyView,
)
    requires
        with_exits(bindings, exits) is Ok,
    ensures
        ({
            let after = with_exits(bindings, exits)->Ok_0;
            &&& after.dom() == bindings.dom()
            &&& forall|i: int|
                0 <= i < exits.len() && (#[trigger] exits[i]).activation_id == key.activation_id
                    && exits[i].allocation_generation == key.generation ==> {
                    &&& bindings.dom().contains(key)
                    &&& after[key].exit_status == Some(exits[i].exit_status)
                    &&& bindings[key].exit_status is Some ==> bindings[key].exit_status == Some(
                        exits[i].exit_status,
                    )
                }
            &&& (forall|i: int|
                0 <= i < exits.len() ==> (#[trigger] exits[i]).activation_id != key.activation_id
                    || exits[i].allocation_generation != key.generation) ==> after[key]
                == bindings[key]
            &&& after[key].credential_hash == bindings[key].credential_hash
            &&& after[key].pane_id == bindings[key].pane_id
            &&& after[key].handle == bindings[key].handle
            &&& after[key].native_session_id == bindings[key].native_session_id
        }),
    decreases exits.len(),
{
    if exits.len() > 0 {
        let front = exits.drop_last();
        let last = exits.len() - 1;
        lemma_exits_are_taken_in(bindings, front, key);
        let before = with_exits(bindings, front)->Ok_0;
        assert(with_exit(before, exits[last]) is Ok);
        let after = with_exits(bindings, exits)->Ok_0;
        assert forall|i: int| 0 <= i < last implies #[trigger] exits[i] == front[i] by {}
        assert(after.dom() =~= bindings.dom());
        if forall|i: int|
            0 <= i < exits.len() ==> (#[trigger] exits[i]).activation_id != key.activation_id
                || exits[i].allocation_generation != key.generation {
            assert forall|i: int| 0 <= i < front.len() implies (#[trigger] front[i]).activation_id
                != key.activation_id || front[i].allocation_generation != key.generation by {
                assert(exits[i] == front[i]);
            }
        }
        if exits[last].activation_id == key.activation_id && exits[last].allocation_generation
            == key.generation {
            if before[key].exit_status is None {
                assert(bindings[key].exit_status is None) by {
                    if bindings[key].exit_status is Some {
                        lemma_statuses_stay(bindings, front, key);
                    }
                }
            } else {
                lemma_statuses_stay(bindings, front, key);
            }
        }
    }
}

proof fn lemma_statuses_stay(
    bindings: Map<AllocationKeyView, ParticipantBindingView>,
    exits: Seq<ParticipantExitView>,
    key: AllocationKeyView,
)
    requires
        with_exits(bindings, exits) is Ok,
    ensures
        bindings[key].exit_status is Some ==> with_exits(bindings, exits)->Ok_0[key].exit_status
            == bindings[key].exit_status,
    decreases exits.len(),
{
    if exits.len() > 0 {
        lemma_statuses_stay(bindings, exits.drop_last(), key);
    }
}

/// The participant that is found to have exited is the first one that the credential opens: by
/// its digest where its exit was told before, else by the secret of its file.
pub proof fn lemma_exited_participant_is_the_first_that_fits(
    candidates: Seq<ParticipantBindingView>,
    files: Seq<Option<BindingFileView>>,
    credential: Seq<char>,
    runs_root: Seq<char>,
    n: int,
)
    requires
        0 <= n,
    ensures
        match exited_among(candidates, files, credential, runs_root, n) {
            Ok(k) => {
                &&& n <= k < candidates.len()
                &&& opens(candidates[k], files[k], credential, runs_root)
                &&& forall|j: int|
                    #![trigger candidates[j]]
                    n <= j < k ==> !opens(candidates[j], files[j], credential, runs_root)
            },
            Err(_) => true,
        },
        (forall|j: int|
            #![trigger candidates[j]]
            n <= j < candidates.len() ==> !opens(candidates[j], files[j], credential, runs_root))
            ==> exited_among(candidates, files, credential, runs_root, n) is Err,
    decreases candidates.len() - n,
{
    if n < candidates.len() {
        lemma_exited_participant_is_the_first_that_fits(
            candidates,
            files,
            credential,
            runs_root,
            n + 1,
        );
        assert(candidates[n] == candidates[n]);
    }
}

/// Whether a credential is that of a participant.
pub open spec fn opens(
    candidate: ParticipantBindingView,
    file: Option<BindingFileView>,
    credential: Seq<char>,
    runs_root: Seq<char>,
) -> bool {
    if candidate.exit_status is Some {
        candidate.credential_hash == credential_digest(credential)
    } else {
        secret_of(candidate, file, runs_root) == Ok::<Seq<char>, FailureView>(credential)
    }
}

/// The exited participant of a name is one of that run, that activation and that handle which has
/// exited, and there is none exactly when no binding is such.
pub proof fn lemma_exited_by_name(
    pairs: Seq<(AllocationKeyView, ParticipantBindingView)>,
    run_id: Seq<char>,
    activation_id: Seq<char>,
    handle: Seq<char>,
    n: int,
)
    requires
        0 <= n,
    ensures
        match exited_named(pairs, run_id, activation_id, handle, n) {
            Some(found) => {
                &&& found.run_id == run_id
                &&& found.activation_id == activation_id
                &&& found.handle == handle
                &&& found.exit_status is Some
                &&& exists|i: int| n <= i < pairs.len() && #[trigger] pairs[i].1 == found
            },
            None => forall|i: int|
                n <= i < pairs.len() ==> (#[trigger] pairs[i]).1.run_id != run_id
                    || pairs[i].1.activation_id != activation_id || pairs[i].1.handle != handle
                    || pairs[i].1.exit_status is None,
        },
    decreases pairs.len() - n,
{
    if n < pairs.len() {
        lemma_exited_by_name(pairs, run_id, activation_id, handle, n + 1);
        assert(pairs[n].1 == pairs[n].1);
    }
}

/// What is shown of the assets of a run holds no readiness nonce; every other thing that is known
/// of an activation, and every other asset, stays.
pub proof fn lemma_nonces_stay_hidden(
    assets: JsonView,
    activations: Seq<(Seq<char>, JsonView)>,
    i: int,
    key: Seq<char>,
)
    requires
        field(assets, "activations"@) == Some(JsonView::Record(activations)),
        0 <= i < activations.len(),
        activations[i].1 is Record,
    ensures
        ({
            let shown = without_nonces(assets);
            &&& key != "activations"@ ==> field(shown, key) == field(assets, key)
            &&& field(shown, "activations"@) is Some
            &&& field(shown, "activations"@)->0 is Record
            &&& field(shown, "activations"@)->0->Record_0.len() == activations.len()
            &&& field(shown, "activations"@)->0->Record_0[i].0 == activations[i].0
            &&& field(
                field(shown, "activations"@)->0->Record_0[i].1,
                "readiness_nonce"@,
            ) is None
            &&& key != "readiness_nonce"@ ==> field(
                field(shown, "activations"@)->0->Record_0[i].1,
                key,
            ) == field(activations[i].1, key)
        }),
{
    let shown = field(without_nonces(assets), "activations"@);
    let hidden = JsonView::Record(
        Seq::new(
            activations.len(),
            |i: int| (activations[i].0, without_field(activations[i].1, "readiness_nonce"@)),
        ),
    );
    lemma_field_set(assets, "activations"@, hidden, "activations"@);
    lemma_field_set(assets, "activations"@, hidden, key);
    lemma_field_gone(activations[i].1, "readiness_nonce"@, "readiness_nonce"@);
    lemma_field_gone(activations[i].1, "readiness_nonce"@, key);
}

/// The count at the end of a publication is the sum of what there was and what is pending, or the
/// largest count where the sum is larger.
pub proof fn lemma_end_counts_add_up(base: usize, pending: nat)
    ensures
        base + pending <= usize::MAX ==> end_count(base, pending) == base + pending,
        base + pending > usize::MAX ==> end_count(base, pending) == usize::MAX,
        base <= end_count(base, pending) <= usize::MAX,
{
}

/// The next event has the number after the last one, and is what was planned.
pub proof fn lemma_events_are_numbered_on(event: PlannedEventView, count: u64, at_ms: u64)
    ensures
        count < u64::MAX ==> next_event(event, count, at_ms).seq == count + 1,
        next_event(event, u64::MAX, at_ms).seq == u64::MAX,
        next_event(event, count, at_ms).at_ms == at_ms,
        next_event(event, count, at_ms).kind == event.kind,
        next_event(event, count, at_ms).payload == event.payload,
{
}

/// Panes go into the window of the operator exactly when they would go there by name and no other
/// window was asked for; nothing else of the place changes.
pub proof fn lemma_panes_join_the_operator(
    config: DriverTmuxConfigView,
    operator: DriverPaneConfigView,
)
    ensures
        ({
            let place = place_with_operator(config, Some(operator));
            &&& place.session == config.session
            &&& place.window == config.window
            &&& config.existing_window_id is Some ==> place.existing_window_id
                == config.existing_window_id
            &&& config.existing_window_id is None ==> {
                &&& place.existing_window_id is Some <==> (operator.session_id == config.session
                    && operator.window_name == config.window)
                &&& place.existing_window_id is Some ==> place.existing_window_id == Some(
                    operator.window_id,
                )
            }
            &&& place_with_operator(config, None) == config
        }),
{
}

/// A pane is named by its session, its window and itself, with a colon and a dot between them.
pub proof fn lemma_pane_names_tell_the_pane(pane: StoredPaneView, other: StoredPaneView)
    requires
        !pane.session_id.contains(':') && !other.session_id.contains(':'),
        !pane.window_id.contains('.') && !other.window_id.contains('.'),
        pane_name(pane) == pane_name(other),
    ensures
        pane.session_id == other.session_id,
        pane.window_id == other.window_id,
        pane.pane_id == other.pane_id,
{
    reveal_strlit(":");
    reveal_strlit(".");
    assert(":"@.len() == 1 && ":"@[0] == ':');
    assert("."@.len() == 1 && "."@[0] == '.');
    let a = pane_name(pane);
    let b = pane_name(other);
    let m = pane.session_id.len() as int;
    let n = other.session_id.len() as int;
    assert(a[m] == ':');
    assert(b[n] == ':');
    if m < n {
        assert(b[m] == other.session_id[m]);
    }
    if n < m {
        assert(a[n] == pane.session_id[n]);
    }
    assert(pane.session_id =~= a.take(m));
    assert(other.session_id =~= b.take(n));
    let v = pane.window_id.len() as int;
    let w = other.window_id.len() as int;
    assert(a[m + 1 + v] == '.');
    assert(b[n + 1 + w] == '.');
    if v < w {
        assert(b[n + 1 + v] == other.window_id[v]);
    }
    if w < v {
        assert(a[m + 1 + w] == pane.window_id[w]);
    }
    assert(pane.window_id =~= a.subrange(m + 1, m + 1 + v));
    assert(other.window_id =~= b.subrange(n + 1, n + 1 + w));
    assert(pane.pane_id =~= a.skip(m + 2 + v));
    assert(other.pane_id =~= b.skip(n + 2 + w));
}

/// What is shown of a participant tells whether it is bound and whether it has exited, with its
/// session, its allocation and its exit status.
pub proof fn lemma_participant_status_tells(binding: ParticipantBindingView)
    ensures
        ({
            let told = participant_status(Some(binding));
            &&& field(told, "started"@) == Some(JsonView::Bool(true))
            &&& field(told, "bound"@) == Some(JsonView::Bool(binding.native_session_id is Some))
            &&& field(told, "platform"@) == Some(option_text(binding.platform))
            &&& field(told, "source"@) == Some(option_text(binding.source))
            &&& field(told, "native_session_id"@) == Some(option_text(binding.native_session_id))
            &&& field(told, "allocation_generation"@) == Some(
                JsonView::Unsigned(binding.allocation_generation),
            )
            &&& field(told, "exited"@) == Some(JsonView::Bool(binding.exit_status is Some))
            &&& field(told, "exit_status"@) == Some(optional_signed_json(binding.exit_status))
        }),
        participant_status(None) == JsonView::Null,
{
    let fields = participant_status(Some(binding))->Record_0;
    reveal_strlit("started");
    reveal_strlit("bound");
    reveal_strlit("platform");
    reveal_strlit("source");
    reveal_strlit("native_session_id");
    reveal_strlit("allocation_generation");
    reveal_strlit("exited");
    reveal_strlit("exit_status");
    assert("bound"@.len() == 5);
    assert("source"@.len() == 6);
    assert("exited"@.len() == 6);
    assert("started"@.len() == 7);
    assert("platform"@.len() == 8);
    assert("exit_status"@.len() == 11);
    assert("native_session_id"@.len() == 17);
    assert("allocation_generation"@.len() == 21);
    assert("source"@[0] == 's');
    assert("exited"@[0] == 'e');
    assert(distinct_keys(fields));
    lemma_field_at(fields, 0);
    lemma_field_at(fields, 1);
    lemma_field_at(fields, 2);
    lemma_field_at(fields, 3);
    lemma_field_at(fields, 4);
    lemma_field_at(fields, 5);
    lemma_field_at(fields, 6);
    lemma_field_at(fields, 7);
}

/// A participant is told to be ready exactly when it is bound to a session in the pane of this
/// allocation, and then its session, its platform and its allocation are told.
pub proof fn lemma_readiness_tells(
    state: DriverStateView,
    id: Seq<char>,
    pane_id: Seq<char>,
    generation: u64,
)
    ensures
        ({
            let key = AllocationKeyView { activation_id: id, generation };
            let binding = state.participant_bindings[key];
            let told = ready_report(state, id, pane_id, generation);
            &&& told is Some <==> {
                &&& state.participant_bindings.dom().contains(key)
                &&& binding.native_session_id is Some
                &&& binding.pane_id == pane_id
            }
            &&& told is Some ==> {
                &&& field(told->0, "status"@) == Some(JsonView::Text("ready"@))
                &&& field(told->0, "platform"@) == Some(option_text(binding.platform))
                &&& field(told->0, "source"@) == Some(option_text(binding.source))
                &&& field(told->0, "native_session_id"@) == Some(
                    JsonView::Text(binding.native_session_id->0),
                )
                &&& field(told->0, "allocation_generation"@) == Some(JsonView::Unsigned(generation))
            }
        }),
{
    if ready_report(state, id, pane_id, generation) is Some {
        let fields = ready_report(state, id, pane_id, generation)->0->Record_0;
        reveal_strlit("status");
        reveal_strlit("platform");
        reveal_strlit("source");
        reveal_strlit("native_session_id");
        reveal_strlit("allocation_generation");
        assert("status"@.len() == 6);
        assert("source"@.len() == 6);
        assert("platform"@.len() == 8);
        assert("native_session_id"@.len() == 17);
        assert("allocation_generation"@.len() == 21);
        assert("status"@[1] == 't');
        assert("source"@[1] == 'o');
        assert(distinct_keys(fields));
        lemma_field_at(fields, 0);
        lemma_field_at(fields, 1);
        lemma_field_at(fields, 2);
        lemma_field_at(fields, 3);
        lemma_field_at(fields, 4);
    }
}

/// The event of a hook tells the session, the hook, what it was seen in and its number.
pub proof fn lemma_hook_events_tell(
    session_id: Seq<char>,
    hook: Seq<char>,
    native_id: Seq<char>,
    generation: u64,
)
    ensures
        ({
            let event = hook_event(session_id, hook, native_id, generation);
            &&& event.kind == "hook_fact_recorded"@
            &&& field(event.payload, "session_id"@) == Some(JsonView::Text(session_id))
            &&& field(event.payload, "hook"@) == Some(JsonView::Text(hook))
            &&& field(event.payload, "source_native_id"@) == Some(JsonView::Text(native_id))
            &&& field(event.payload, "record_generation"@) == Some(JsonView::Unsigned(generation))
        }),
{
    let fields = hook_event(session_id, hook, native_id, generation).payload->Record_0;
    reveal_strlit("session_id");
    reveal_strlit("hook");
    reveal_strlit("source_native_id");
    reveal_strlit("record_generation");
    assert("hook"@.len() == 4);
    assert("session_id"@.len() == 10);
    assert("source_native_id"@.len() == 16);
    assert("record_generation"@.len() == 17);
    assert(distinct_keys(fields));
    lemma_field_at(fields, 0);
    lemma_field_at(fields, 1);
    lemma_field_at(fields, 2);
    lemma_field_at(fields, 3);
}

/// The entries that a request puts on a board are the fields of its patch, each under its key with
/// what the field says, in the order of their keys, and all with the version that is expected.
pub proof fn lemma_patches_put_their_fields(
    request: JsonView,
    fields: Seq<(Seq<char>, JsonView)>,
    version: Option<u64>,
    j: int,
)
    requires
        field(request, "patch"@) == Some(JsonView::Record(fields)),
        distinct_keys(fields),
        optional_u64(request, "expected_version"@, "expected_version"@) == Ok::<
            Option<u64>,
            FailureView,
        >(version),
        0 <= j < fields.len(),
    ensures
        asked_entries(request) is Ok,
        ({
            let entries = asked_entries(request)->Ok_0;
            &&& entries.len() == fields.len()
            &&& entries[j].expected_version == version
            &&& lookup(fields, entries[j].key) is Some
            &&& entries[j].value == payload_text(Some(ordered(lookup(fields, entries[j].key)->0)))
            &&& forall|i: int, k: int|
                0 <= i <= k < entries.len() ==> text_le(
                    (#[trigger] entries[i]).key,
                    (#[trigger] entries[k]).key,
                )
        }),
{
    let n = fields.len() as int;
    let shown = ordered_fields(fields, n);
    lemma_exported_fields_are_in_order(fields, n);
    lemma_ordered_fields_come(fields, n);
    lemma_field_at(shown, j);
    lemma_ordered_field(fields, shown[j].0);
    let entries = asked_entries(request)->Ok_0;
    assert forall|i: int, k: int| 0 <= i <= k < entries.len() implies text_le(
        (#[trigger] entries[i]).key,
        (#[trigger] entries[k]).key,
    ) by {
        assert(text_le(shown[i].0, shown[k].0));
    }
}

/// A request without a patch puts nothing.
pub proof fn lemma_patches_are_records(request: JsonView)
    requires
        field(request, "patch"@) is None || field(request, "patch"@)->0 !is Record,
    ensures
        asked_entries(request) is Err,
{
}

/// Why a run is where it is: the reason that was given, or else its status.
pub proof fn lemma_causes_are_given_reasons(reason: Seq<char>, status: RunStatus)
    ensures
        cause_of(Some(reason), status) == reason,
        cause_of(None, status) == "run is "@ + status.name(),
{
}

/// A participant is to be retired exactly when it is bound to this allocation and has not exited.
pub proof fn lemma_living_participants_are_retired(
    state: DriverStateView,
    id: Seq<char>,
    generation: u64,
    binding: ParticipantBindingView,
)
    ensures
        ({
            let key = AllocationKeyView { activation_id: id, generation };
            state.to_retire(id, generation) == Some(binding) <==> {
                &&& state.participant_bindings.dom().contains(key)
                &&& state.participant_bindings[key] == binding
                &&& binding.exit_status is None
            }
        }),
{
}

/// The revisions that are shown come in the order of their events, as many as there are.
pub proof fn lemma_revisions_are_shown_in_order(applications: Seq<FlowApplicationView>)
    ensures
        ({
            let all = sorted::<FlowApplication>(applications);
            let shown = revisions_shown(applications);
            &&& shown.len() == applications.len()
            &&& all.to_multiset() == applications.to_multiset()
            &&& forall|i: int| 0 <= i < shown.len() ==> #[trigger] shown[i] == all[i].json()
            &&& forall|i: int, j: int|
                0 <= i < j < all.len() ==> (#[trigger] all[i]).event_sequence <= (
                #[trigger] all[j]).event_sequence
        }),
{
    lemma_sorted::<FlowApplication>(applications);
    let all = sorted::<FlowApplication>(applications);
    assert forall|i: int, j: int| 0 <= i < j < all.len() implies (#[trigger] all[i]).event_sequence
        <= (#[trigger] all[j]).event_sequence by {
        assert(FlowApplication::ranks(all[i], all[j]));
    }
}

/// A capture that is to start is of its pane, into the transcript and under the nonce that it was
/// given; what it waits for lies beside the transcript.
pub proof fn lemma_captures_are_of_their_pane(
    run_id: Seq<char>,
    id: Seq<char>,
    pane: StoredPaneView,
    transcript: Seq<char>,
    identity: PipeSinkIdentity,
    pid: u32,
    nonce: Seq<char>,
)
    ensures
        ({
            let capture = capture_to_start(run_id, id, pane, transcript, identity, pid, nonce);
            &&& capture.activation_id == id
            &&& capture.pane == pane
            &&& capture.allocation_generation == pane.allocation_generation
            &&& capture.transcript_relative_path == transcript
            &&& capture.transcript_identity == identity
            &&& capture.ack_nonce == nonce
            &&& capture_begun(Map::empty().insert(id, capture), id, pane) == Ok::<
                Option<TmuxPipeCaptureIntentView>,
                FailureView,
            >(Some(capture))
        }),
{
}

} // verus!
