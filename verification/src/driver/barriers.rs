//! Input that a pane got before it was given up: it stays in doubt, and after a restart it is
//! found in doubt.
use vstd::prelude::*;

use crate::flow::export::{lemma_ordered_field, ordered};
use crate::json::{distinct_keys, lookup, no_fields, JsonView};

use super::delivery::{
    barred, barrier_payload, barriers_of, barriers_up, pane_barriers, role_barrier,
    AmbiguousDeliveryView, DeliveriesView, SubmittedDeliveryView, DELIVERY_ROLE_AGENT_LAUNCH,
    DELIVERY_ROLE_NODE_PROMPT,
};
use super::fields::lemma_lookup_push;
use super::keys::{key_of, DeliveryKeyView};
use super::laws::{lemma_key_tells_allocation, logged};
use super::lifecycle::release_event;
use super::records::StoredPaneView;
use super::replay::DriverStateView;
use super::restart::{lemma_release_is_read, lemma_texts_are_told};

verus! {

broadcast use vstd::string::group_string_axioms;

/// What is in doubt about input that a pane got before it was given up.
pub open spec fn doubt_about(delivery: SubmittedDeliveryView) -> AmbiguousDeliveryView {
    AmbiguousDeliveryView {
        activation_id: delivery.activation_id,
        pane_id: delivery.pane_id,
        allocation_generation: delivery.allocation_generation,
        role: delivery.role,
        message_id: None,
        payload_hash: delivery.payload_hash,
        started_event_sequence: delivery.started_event_sequence,
        reason: "pane_released_after_submission"@,
    }
}

proof fn lemma_barrier_is_told(delivery: SubmittedDeliveryView, sequence: u64)
    ensures
        AmbiguousDeliveryView::told(barrier_payload(delivery), sequence) == Some(
            doubt_about(delivery),
        ),
        AmbiguousDeliveryView::told(ordered(barrier_payload(delivery)), sequence) == Some(
            doubt_about(delivery),
        ),
{
    reveal_strlit("activation_id");
    reveal_strlit("pane_id");
    reveal_strlit("allocation_generation");
    reveal_strlit("role");
    reveal_strlit("message_id");
    reveal_strlit("payload_hash");
    reveal_strlit("reason");
    reveal_strlit("started_event_sequence");
    assert("activation_id"@.len() == 13);
    assert("pane_id"@.len() == 7);
    assert("allocation_generation"@.len() == 21);
    assert("role"@.len() == 4);
    assert("message_id"@.len() == 10);
    assert("payload_hash"@.len() == 12);
    assert("reason"@.len() == 6);
    assert("started_event_sequence"@.len() == 22);
    let f0 = no_fields();
    let f1 = f0.push(("activation_id"@, JsonView::Text(delivery.activation_id)));
    let f2 = f1.push(("pane_id"@, JsonView::Text(delivery.pane_id)));
    let f3 = f2.push(
        ("allocation_generation"@, JsonView::Unsigned(delivery.allocation_generation)),
    );
    let f4 = f3.push(("role"@, JsonView::Text(delivery.role)));
    let f5 = f4.push(("payload_hash"@, JsonView::Text(delivery.payload_hash)));
    let f6 = f5.push(
        ("started_event_sequence"@, JsonView::Unsigned(delivery.started_event_sequence)),
    );
    let fields = f6.push(("reason"@, JsonView::Text("pane_released_after_submission"@)));
    assert(barrier_payload(delivery) == JsonView::Record(fields));
    assert(distinct_keys(fields));
    assert forall|key: Seq<char>| #[trigger] lookup(fields, key) == (if key == "reason"@ {
        Some(JsonView::Text("pane_released_after_submission"@))
    } else if key == "started_event_sequence"@ {
        Some(JsonView::Unsigned(delivery.started_event_sequence))
    } else if key == "payload_hash"@ {
        Some(JsonView::Text(delivery.payload_hash))
    } else if key == "role"@ {
        Some(JsonView::Text(delivery.role))
    } else if key == "allocation_generation"@ {
        Some(JsonView::Unsigned(delivery.allocation_generation))
    } else if key == "pane_id"@ {
        Some(JsonView::Text(delivery.pane_id))
    } else if key == "activation_id"@ {
        Some(JsonView::Text(delivery.activation_id))
    } else {
        None
    }) by {
        lemma_lookup_push(
            f6,
            "reason"@,
            JsonView::Text("pane_released_after_submission"@),
            key,
        );
        lemma_lookup_push(
            f5,
            "started_event_sequence"@,
            JsonView::Unsigned(delivery.started_event_sequence),
            key,
        );
        lemma_lookup_push(f4, "payload_hash"@, JsonView::Text(delivery.payload_hash), key);
        lemma_lookup_push(f3, "role"@, JsonView::Text(delivery.role), key);
        lemma_lookup_push(
            f2,
            "allocation_generation"@,
            JsonView::Unsigned(delivery.allocation_generation),
            key,
        );
        lemma_lookup_push(f1, "pane_id"@, JsonView::Text(delivery.pane_id), key);
        lemma_lookup_push(f0, "activation_id"@, JsonView::Text(delivery.activation_id), key);
    }
    lemma_ordered_field(fields, "activation_id"@);
    lemma_ordered_field(fields, "pane_id"@);
    lemma_ordered_field(fields, "allocation_generation"@);
    lemma_ordered_field(fields, "role"@);
    lemma_ordered_field(fields, "message_id"@);
    lemma_ordered_field(fields, "payload_hash"@);
    lemma_ordered_field(fields, "started_event_sequence"@);
    lemma_ordered_field(fields, "reason"@);
    assert(lookup(fields, "activation_id"@) == Some(JsonView::Text(delivery.activation_id)));
    assert(lookup(fields, "pane_id"@) == Some(JsonView::Text(delivery.pane_id)));
    assert(lookup(fields, "role"@) == Some(JsonView::Text(delivery.role)));
    assert(lookup(fields, "payload_hash"@) == Some(JsonView::Text(delivery.payload_hash)));
    assert(lookup(fields, "message_id"@) is None);
}

/// A barrier that stands for input which had arrived and was not in doubt.
spec fn stands_for(
    deliveries: DeliveriesView,
    barrier: JsonView,
    key: DeliveryKeyView,
) -> bool {
    &&& deliveries.submitted.dom().contains(key)
    &&& !deliveries.ambiguous.dom().contains(key)
    &&& barrier == barrier_payload(deliveries.submitted[key])
    &&& doubt_about(deliveries.submitted[key]).key() == key
}

spec fn stands(deliveries: DeliveriesView, barrier: JsonView) -> bool {
    exists|key: DeliveryKeyView| stands_for(deliveries, barrier, key)
}

spec fn all_stand(deliveries: DeliveriesView, barriers: Seq<JsonView>) -> bool {
    forall|i: int| 0 <= i < barriers.len() ==> stands(deliveries, #[trigger] barriers[i])
}

proof fn lemma_role_barriers_stand(
    deliveries: DeliveriesView,
    activation_id: Seq<char>,
    role: Seq<char>,
    generation: u64,
)
    requires
        deliveries.indexed(),
        !role.contains(':'),
    ensures
        all_stand(deliveries, role_barrier(deliveries, activation_id, role, generation)),
{
    reveal_strlit(":");
    reveal_strlit("@");
    let barriers = role_barrier(deliveries, activation_id, role, generation);
    let key = key_of(activation_id, role, None, generation);
    if barriers.len() > 0 {
        let delivery = deliveries.submitted[key];
        assert(deliveries.submitted.dom().contains(key));
        assert(delivery.key() == key);
        lemma_key_tells_allocation(
            delivery.activation_id,
            delivery.role,
            delivery.message_id,
            delivery.allocation_generation,
            activation_id,
            role,
            None,
            generation,
        );
        let tail = "@"@ + crate::number::decimal(generation as nat);
        if delivery.message_id is Some {
            let told = delivery.role + ":"@ + delivery.message_id->0;
            assert(told + tail =~= delivery.key().role);
            assert(role + tail =~= key.role);
            assert(told.len() == role.len());
            assert(told =~= (told + tail).take(told.len() as int));
            assert(role =~= (role + tail).take(role.len() as int));
            assert(told[delivery.role.len() as int] == ':');
            assert(role.contains(':'));
        }
        assert(doubt_about(delivery).key() == key);
        assert(stands_for(deliveries, barriers[0], key));
    }
}

proof fn lemma_barriers_stand(
    deliveries: DeliveriesView,
    panes: Map<Seq<char>, StoredPaneView>,
    activation_ids: Seq<Seq<char>>,
)
    requires
        deliveries.indexed(),
    ensures
        all_stand(deliveries, barriers_of(deliveries, panes, activation_ids)),
    decreases activation_ids.len(),
{
    reveal_strlit("agent_launch");
    reveal_strlit("node_prompt");
    if activation_ids.len() > 0 {
        let id = activation_ids.last();
        let front = barriers_of(deliveries, panes, activation_ids.drop_last());
        lemma_barriers_stand(deliveries, panes, activation_ids.drop_last());
        if panes.dom().contains(id) {
            let generation = panes[id].allocation_generation;
            assert(!DELIVERY_ROLE_AGENT_LAUNCH@.contains(':'));
            assert(!DELIVERY_ROLE_NODE_PROMPT@.contains(':'));
            lemma_role_barriers_stand(deliveries, id, DELIVERY_ROLE_AGENT_LAUNCH@, generation);
            lemma_role_barriers_stand(deliveries, id, DELIVERY_ROLE_NODE_PROMPT@, generation);
            let first = role_barrier(deliveries, id, DELIVERY_ROLE_AGENT_LAUNCH@, generation);
            let second = role_barrier(deliveries, id, DELIVERY_ROLE_NODE_PROMPT@, generation);
            let all = front + pane_barriers(deliveries, id, generation);
            assert(pane_barriers(deliveries, id, generation) == first + second);
            assert forall|i: int| 0 <= i < all.len() implies stands(
                deliveries,
                #[trigger] all[i],
            ) by {
                if i < front.len() {
                    assert(all[i] == front[i]);
                } else if i < front.len() + first.len() {
                    assert(all[i] == first[i - front.len()]);
                } else {
                    assert(all[i] == second[i - front.len() - first.len()]);
                }
            }
        }
    }
}

/// Values with the fields of their objects in order.
pub open spec fn all_ordered(items: Seq<JsonView>) -> Seq<JsonView> {
    Seq::new(items.len(), |i: int| ordered(items[i]))
}

proof fn lemma_barriers_agree(
    live: DeliveriesView,
    found: DeliveriesView,
    barriers: Seq<JsonView>,
    sequence: u64,
)
    requires
        live.ambiguous == found.ambiguous,
        live.submitted == found.submitted,
        all_stand(live, barriers),
    ensures
        ({
            let a = barriers_up(live, barriers, sequence);
            let b = barred(found, all_ordered(barriers), sequence);
            &&& a.ambiguous == b.ambiguous
            &&& a.submitted == b.submitted
            &&& a.launched == live.launched
            &&& a.settled == live.settled
            &&& b.launched == found.launched
            &&& b.settled == found.settled
            &&& forall|key: DeliveryKeyView| #[trigger]
                a.ambiguous.dom().contains(key) && !live.ambiguous.dom().contains(key)
                    ==> live.submitted.dom().contains(key) && a.ambiguous[key] == doubt_about(
                    live.submitted[key],
                )
        }),
    decreases barriers.len(),
{
    let told = all_ordered(barriers);
    if barriers.len() > 0 {
        let front = barriers.drop_last();
        assert(all_stand(live, front)) by {
            assert forall|i: int| 0 <= i < front.len() implies stands(
                live,
                #[trigger] front[i],
            ) by {
                assert(front[i] == barriers[i]);
            }
        }
        lemma_barriers_agree(live, found, front, sequence);
        assert(told.drop_last() =~= all_ordered(front));
        let a = barriers_up(live, front, sequence);
        let b = barred(found, all_ordered(front), sequence);
        let last = barriers[barriers.len() - 1];
        let key = choose|key: DeliveryKeyView| stands_for(live, last, key);
        assert(stands(live, last));
        assert(stands_for(live, last, key));
        let doubt = doubt_about(live.submitted[key]);
        lemma_barrier_is_told(live.submitted[key], sequence);
        assert(told.last() == ordered(last));
        if a.ambiguous.dom().contains(key) {
            assert(a.ambiguous[key] == doubt);
            assert(b.ambiguous.insert(key, doubt) =~= a.ambiguous);
        }
    }
}

proof fn lemma_barriers_keep_work(
    deliveries: DeliveriesView,
    barriers: Seq<JsonView>,
    sequence: u64,
)
    ensures
        barriers_up(deliveries, barriers, sequence).launched == deliveries.launched,
        barriers_up(deliveries, barriers, sequence).settled == deliveries.settled,
    decreases barriers.len(),
{
    if barriers.len() > 0 {
        lemma_barriers_keep_work(deliveries, barriers.drop_last(), sequence);
    }
}

proof fn lemma_let_go_alike(a: DriverStateView, b: DriverStateView, ids: Seq<Seq<char>>)
    requires
        a.deliveries.launched == b.deliveries.launched,
        a.deliveries.settled == b.deliveries.settled,
    ensures
        a.all_released(ids).deliveries.launched == b.all_let_go(ids).deliveries.launched,
        a.all_released(ids).deliveries.settled == b.all_let_go(ids).deliveries.settled,
        a.all_released(ids).deliveries.ambiguous == a.deliveries.ambiguous,
        a.all_released(ids).deliveries.submitted == a.deliveries.submitted,
        b.all_let_go(ids).deliveries.ambiguous == b.deliveries.ambiguous,
        b.all_let_go(ids).deliveries.submitted == b.deliveries.submitted,
    decreases ids.len(),
{
    if ids.len() > 0 {
        lemma_let_go_alike(a, b, ids.drop_last());
    }
}

/// Input that panes got before they were given up is in doubt after a restart exactly as it was
/// before.
pub proof fn lemma_doubt_survives(
    state: DriverStateView,
    activation_ids: Seq<Seq<char>>,
    seq: u64,
    at_ms: u64,
)
    requires
        state.tmux is Some,
        state.deliveries.indexed(),
    ensures
        ({
            let barriers = state.barriers(activation_ids);
            state.replayed(logged(release_event(activation_ids, barriers), seq, at_ms)) matches Ok(
                after,
            ) && after.deliveries == state.giving_up(activation_ids, barriers, seq).deliveries
        }),
{
    let barriers = state.barriers(activation_ids);
    lemma_barriers_stand(state.deliveries, state.tmux->0.panes, activation_ids);
    lemma_release_is_read(state, activation_ids, barriers, seq, at_ms);
    lemma_texts_are_told(activation_ids);
    let live = DriverStateView {
        deliveries: barriers_up(state.deliveries, barriers, seq),
        ..state
    };
    let after = state.all_released(activation_ids);
    lemma_barriers_keep_work(state.deliveries, barriers, seq);
    lemma_let_go_alike(state, live, activation_ids);
    lemma_barriers_agree(state.deliveries, after.deliveries, barriers, seq);
    let told = ordered(JsonView::List(barriers));
    assert(told->List_0 =~= all_ordered(barriers));
    assert(barred(after.deliveries, all_ordered(barriers), seq) =~= state.giving_up(
        activation_ids,
        barriers,
        seq,
    ).deliveries);
}

} // verus!
