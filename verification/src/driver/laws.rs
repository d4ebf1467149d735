//! What holds of the driver across restarts: what it has done and written down is what it
//! finds again.
use vstd::prelude::*;

use crate::flow::export::{lemma_ordered_field, ordered};
use crate::json::{
    distinct_keys, fields_of, lookup, no_fields, option_text, text_field, unsigned_field,
    with_field, without_key, JsonView,
};
use crate::number::{all_digits, decimal, lemma_decimal_reads_back};

use super::delivery::{
    arrival_event, arrival_payload, barred, lemma_barriers_stay_disjoint, resolution_event,
    resolved, start_payload, AmbiguousDeliveryView, DeliveriesView, PlannedEventView,
    ResolutionView, DELIVERY_ROLE_AGENT_LAUNCH, DELIVERY_ROLE_NODE_PROMPT,
    DELIVERY_ROLE_PARTICIPANT_MESSAGE,
};
use super::fields::lemma_lookup_push;
use super::keys::{key_of, AllocationKeyView};
use super::records::StoredPaneView;
use super::replay::{fits_delivery, DriverEventView, DriverStateView, ReplayFault};

verus! {

/// An event as it stands in the log, with the fields of its payload in order.
pub open spec fn logged(event: PlannedEventView, seq: u64, at_ms: u64) -> DriverEventView {
    DriverEventView { seq, at_ms, kind: event.kind, payload: ordered(event.payload) }
}

proof fn lemma_same_suffix(x: Seq<char>, p: Seq<char>, y: Seq<char>, q: Seq<char>)
    requires
        x + "@"@ + p == y + "@"@ + q,
        all_digits(p),
        all_digits(q),
    ensures
        p == q,
{
    reveal_strlit("@");
    let left = x + "@"@ + p;
    let right = y + "@"@ + q;
    let n = left.len() as int;
    if p.len() < q.len() {
        let at = n - p.len() - 1;
        assert(left[at] == '@');
        assert(right[at] == q[at - (n - q.len())]);
    } else if q.len() < p.len() {
        let at = n - q.len() - 1;
        assert(right[at] == '@');
        assert(left[at] == p[at - (n - p.len())]);
    } else {
        assert forall|i: int| 0 <= i < p.len() implies p[i] == q[i] by {
            assert(left[n - p.len() + i] == p[i]);
            assert(right[n - q.len() + i] == q[i]);
        }
        assert(p =~= q);
    }
}

/// The key of a delivery tells its activation and its allocation.
pub proof fn lemma_key_tells_allocation(
    a: Seq<char>,
    role_a: Seq<char>,
    message_a: Option<Seq<char>>,
    generation_a: u64,
    b: Seq<char>,
    role_b: Seq<char>,
    message_b: Option<Seq<char>>,
    generation_b: u64,
)
    requires
        key_of(a, role_a, message_a, generation_a) == key_of(b, role_b, message_b, generation_b),
    ensures
        a == b,
        generation_a == generation_b,
{
    let p = decimal(generation_a as nat);
    let q = decimal(generation_b as nat);
    lemma_decimal_reads_back(generation_a as nat);
    lemma_decimal_reads_back(generation_b as nat);
    let x = match message_a {
        Some(message) => role_a + ":"@ + message,
        None => role_a,
    };
    let y = match message_b {
        Some(message) => role_b + ":"@ + message,
        None => role_b,
    };
    assert(key_of(a, role_a, message_a, generation_a).role == x + "@"@ + p);
    assert(key_of(b, role_b, message_b, generation_b).role == y + "@"@ + q);
    lemma_same_suffix(x, p, y, q);
}

proof fn lemma_start_is_told(delivery: AmbiguousDeliveryView)
    ensures
        AmbiguousDeliveryView::told(
            ordered(start_payload(delivery)),
            delivery.started_event_sequence,
        ) == Some(delivery),
{
    reveal_strlit("activation_id");
    reveal_strlit("pane_id");
    reveal_strlit("allocation_generation");
    reveal_strlit("role");
    reveal_strlit("message_id");
    reveal_strlit("payload_hash");
    reveal_strlit("reason");
    reveal_strlit("started_event_sequence");
    assert("activation_id"@.len() == 13);
    assert("pane_id"@.len() == 7);
    assert("allocation_generation"@.len() == 21);
    assert("role"@.len() == 4);
    assert("message_id"@.len() == 10);
    assert("payload_hash"@.len() == 12);
    assert("reason"@.len() == 6);
    assert("started_event_sequence"@.len() == 22);
    let f0 = no_fields();
    let f1 = f0.push(("activation_id"@, JsonView::Text(delivery.activation_id)));
    let f2 = f1.push(("pane_id"@, JsonView::Text(delivery.pane_id)));
    let f3 = f2.push(
        ("allocation_generation"@, JsonView::Unsigned(delivery.allocation_generation)),
    );
    let f4 = f3.push(("role"@, JsonView::Text(delivery.role)));
    let f5 = f4.push(("message_id"@, option_text(delivery.message_id)));
    let f6 = f5.push(("payload_hash"@, JsonView::Text(delivery.payload_hash)));
    let f7 = f6.push(("reason"@, JsonView::Text(delivery.reason)));
    let fields = f7;
    assert(start_payload(delivery) == JsonView::Record(fields));
    assert(distinct_keys(fields));
    assert(lookup(fields, "activation_id"@) == Some(JsonView::Text(delivery.activation_id))) by {
        lemma_lookup_push(f6, "reason"@, JsonView::Text(delivery.reason), "activation_id"@);
        lemma_lookup_push(
            f5,
            "payload_hash"@,
            JsonView::Text(delivery.payload_hash),
            "activation_id"@,
        );
        lemma_lookup_push(f4, "message_id"@, option_text(delivery.message_id), "activation_id"@);
        lemma_lookup_push(f3, "role"@, JsonView::Text(delivery.role), "activation_id"@);
        lemma_lookup_push(
            f2,
            "allocation_generation"@,
            JsonView::Unsigned(delivery.allocation_generation),
            "activation_id"@,
        );
        lemma_lookup_push(f1, "pane_id"@, JsonView::Text(delivery.pane_id), "activation_id"@);
        lemma_lookup_push(
            f0,
            "activation_id"@,
            JsonView::Text(delivery.activation_id),
            "activation_id"@,
        );
    }
    lemma_ordered_field(fields, "activation_id"@);
    assert(lookup(fields, "pane_id"@) == Some(JsonView::Text(delivery.pane_id))) by {
        lemma_lookup_push(f6, "reason"@, JsonView::Text(delivery.reason), "pane_id"@);
        lemma_lookup_push(f5, "payload_hash"@, JsonView::Text(delivery.payload_hash), "pane_id"@);
        lemma_lookup_push(f4, "message_id"@, option_text(delivery.message_id), "pane_id"@);
        lemma_lookup_push(f3, "role"@, JsonView::Text(delivery.role), "pane_id"@);
        lemma_lookup_push(
            f2,
            "allocation_generation"@,
            JsonView::Unsigned(delivery.allocation_generation),
            "pane_id"@,
        );
        lemma_lookup_push(f1, "pane_id"@, JsonView::Text(delivery.pane_id), "pane_id"@);
    }
    lemma_ordered_field(fields, "pane_id"@);
    assert(
        lookup(fields, "allocation_generation"@) == Some(
            JsonView::Unsigned(delivery.allocation_generation),
        )
    ) by {
        lemma_lookup_push(f6, "reason"@, JsonView::Text(delivery.reason), "allocation_generation"@);
        lemma_lookup_push(
            f5,
            "payload_hash"@,
            JsonView::Text(delivery.payload_hash),
            "allocation_generation"@,
        );
        lemma_lookup_push(
            f4,
            "message_id"@,
            option_text(delivery.message_id),
            "allocation_generation"@,
        );
        lemma_lookup_push(f3, "role"@, JsonView::Text(delivery.role), "allocation_generation"@);
        lemma_lookup_push(
            f2,
            "allocation_generation"@,
            JsonView::Unsigned(delivery.allocation_generation),
            "allocation_generation"@,
        );
    }
    lemma_ordered_field(fields, "allocation_generation"@);
    assert(lookup(fields, "role"@) == Some(JsonView::Text(delivery.role))) by {
        lemma_lookup_push(f6, "reason"@, JsonView::Text(delivery.reason), "role"@);
        lemma_lookup_push(f5, "payload_hash"@, JsonView::Text(delivery.payload_hash), "role"@);
        lemma_lookup_push(f4, "message_id"@, option_text(delivery.message_id), "role"@);
        lemma_lookup_push(f3, "role"@, JsonView::Text(delivery.role), "role"@);
    }
    lemma_ordered_field(fields, "role"@);
    assert(lookup(fields, "message_id"@) == Some(option_text(delivery.message_id))) by {
        lemma_lookup_push(f6, "reason"@, JsonView::Text(delivery.reason), "message_id"@);
        lemma_lookup_push(
            f5,
            "payload_hash"@,
            JsonView::Text(delivery.payload_hash),
            "message_id"@,
        );
        lemma_lookup_push(f4, "message_id"@, option_text(delivery.message_id), "message_id"@);
    }
    lemma_ordered_field(fields, "message_id"@);
    assert(lookup(fields, "payload_hash"@) == Some(JsonView::Text(delivery.payload_hash))) by {
        lemma_lookup_push(f6, "reason"@, JsonView::Text(delivery.reason), "payload_hash"@);
        lemma_lookup_push(
            f5,
            "payload_hash"@,
            JsonView::Text(delivery.payload_hash),
            "payload_hash"@,
        );
    }
    lemma_ordered_field(fields, "payload_hash"@);
    assert(lookup(fields, "reason"@) == Some(JsonView::Text(delivery.reason))) by {
        lemma_lookup_push(f6, "reason"@, JsonView::Text(delivery.reason), "reason"@);
    }
    lemma_ordered_field(fields, "reason"@);
    assert(lookup(fields, "started_event_sequence"@) is None) by {
        lemma_lookup_push(
            f6,
            "reason"@,
            JsonView::Text(delivery.reason),
            "started_event_sequence"@,
        );
        lemma_lookup_push(
            f5,
            "payload_hash"@,
            JsonView::Text(delivery.payload_hash),
            "started_event_sequence"@,
        );
        lemma_lookup_push(
            f4,
            "message_id"@,
            option_text(delivery.message_id),
            "started_event_sequence"@,
        );
        lemma_lookup_push(f3, "role"@, JsonView::Text(delivery.role), "started_event_sequence"@);
        lemma_lookup_push(
            f2,
            "allocation_generation"@,
            JsonView::Unsigned(delivery.allocation_generation),
            "started_event_sequence"@,
        );
        lemma_lookup_push(
            f1,
            "pane_id"@,
            JsonView::Text(delivery.pane_id),
            "started_event_sequence"@,
        );
        lemma_lookup_push(
            f0,
            "activation_id"@,
            JsonView::Text(delivery.activation_id),
            "started_event_sequence"@,
        );
    }
    lemma_ordered_field(fields, "started_event_sequence"@);
}

/// Input that was begun is found begun after a restart.
pub proof fn lemma_start_survives(
    state: DriverStateView,
    delivery: AmbiguousDeliveryView,
    at_ms: u64,
)
    ensures
        state.replayed(
            logged(
                PlannedEventView {
                    kind: "input_delivery_started"@,
                    payload: start_payload(delivery),
                },
                delivery.started_event_sequence,
                at_ms,
            ),
        ) == Ok::<DriverStateView, ReplayFault>(
            DriverStateView { deliveries: state.deliveries.begun(delivery), ..state },
        ),
{
    reveal_strlit("input_delivery_started");
    assert("input_delivery_started"@.len() == 22);
    reveal_strlit("driver_pane_owned");
    assert("driver_pane_owned"@.len() == 17);
    assert("driver_pane_owned"@ != "input_delivery_started"@);
    reveal_strlit("driver_pane_released");
    assert("driver_pane_released"@.len() == 20);
    assert("driver_pane_released"@ != "input_delivery_started"@);
    reveal_strlit("pipe_capture_intent");
    assert("pipe_capture_intent"@.len() == 19);
    assert("pipe_capture_intent"@ != "input_delivery_started"@);
    reveal_strlit("pipe_capture_started");
    assert("pipe_capture_started"@.len() == 20);
    assert("pipe_capture_started"@ != "input_delivery_started"@);
    reveal_strlit("flow_revision_available");
    assert("flow_revision_available"@.len() == 23);
    assert("flow_revision_available"@ != "input_delivery_started"@);
    reveal_strlit("tmux_bound");
    assert("tmux_bound"@.len() == 10);
    assert("tmux_bound"@ != "input_delivery_started"@);
    reveal_strlit("tmux_pane_allocation_intent");
    assert("tmux_pane_allocation_intent"@.len() == 27);
    assert("tmux_pane_allocation_intent"@ != "input_delivery_started"@);
    reveal_strlit("tmux_pane_allocated");
    assert("tmux_pane_allocated"@.len() == 19);
    assert("tmux_pane_allocated"@ != "input_delivery_started"@);
    reveal_strlit("tmux_pane_cleanup_intent");
    assert("tmux_pane_cleanup_intent"@.len() == 24);
    assert("tmux_pane_cleanup_intent"@ != "input_delivery_started"@);
    reveal_strlit("tmux_pane_cleanup_receipt");
    assert("tmux_pane_cleanup_receipt"@.len() == 25);
    assert("tmux_pane_cleanup_receipt"@ != "input_delivery_started"@);
    reveal_strlit("tmux_panes_released");
    assert("tmux_panes_released"@.len() == 19);
    assert("tmux_panes_released"@ != "input_delivery_started"@);
    lemma_start_is_told(delivery);
}

proof fn lemma_set_keeps_keys(fields: Seq<(Seq<char>, JsonView)>, key: Seq<char>)
    requires
        distinct_keys(fields),
    ensures
        distinct_keys(without_key(fields, key)),
        forall|i: int|
            0 <= i < without_key(fields, key).len() ==> (#[trigger] without_key(
                fields,
                key,
            )[i]).0 != key,
        forall|i: int|
            0 <= i < without_key(fields, key).len() ==> exists|j: int|
                0 <= j < fields.len() && fields[j] == (#[trigger] without_key(fields, key)[i]),
    decreases fields.len(),
{
    let kept = without_key(fields, key);
    if fields.len() > 0 {
        let front = fields.drop_last();
        assert(distinct_keys(front)) by {
            assert forall|i: int, j: int| 0 <= i < j < front.len() implies (#[trigger] front[i]).0
                != (#[trigger] front[j]).0 by {
                assert(fields[i].0 != fields[j].0);
            }
        }
        lemma_set_keeps_keys(front, key);
        let rest = without_key(front, key);
        assert forall|i: int| 0 <= i < rest.len() implies exists|j: int|
            0 <= j < fields.len() && fields[j] == (#[trigger] rest[i]) by {
            let j = choose|j: int| 0 <= j < front.len() && front[j] == rest[i];
            assert(fields[j] == rest[i]);
        }
        if fields.last().0 != key {
            assert forall|i: int, j: int| 0 <= i < j < kept.len() implies (#[trigger] kept[i]).0
                != (#[trigger] kept[j]).0 by {
                if j == rest.len() {
                    assert(kept[i] == rest[i]);
                    let k = choose|k: int| 0 <= k < front.len() && front[k] == rest[i];
                    assert(fields[k].0 != fields[fields.len() - 1].0);
                }
            }
            assert forall|i: int| 0 <= i < kept.len() implies exists|j: int|
                0 <= j < fields.len() && fields[j] == (#[trigger] kept[i]) by {
                if i == rest.len() {
                    assert(fields[fields.len() - 1] == kept[i]);
                } else {
                    assert(kept[i] == rest[i]);
                }
            }
        }
    }
}

proof fn lemma_field_set_in_order(value: JsonView, key: Seq<char>, item: JsonView)
    requires
        distinct_keys(fields_of(value)),
    ensures
        distinct_keys(fields_of(with_field(value, key, item))),
{
    lemma_set_keeps_keys(fields_of(value), key);
    let kept = without_key(fields_of(value), key);
    let all = kept.push((key, item));
    assert forall|i: int, j: int| 0 <= i < j < all.len() implies (#[trigger] all[i]).0 != (
    #[trigger] all[j]).0 by {
        if j == kept.len() {
            assert(all[i] == kept[i]);
        }
    }
}

proof fn lemma_arrival_is_told(
    details: JsonView,
    delivery: AmbiguousDeliveryView,
    activation_id: Seq<char>,
    message_id: Option<Seq<char>>,
)
    requires
        distinct_keys(fields_of(details)),
    ensures
        ({
            let told = ordered(arrival_payload(details, delivery, activation_id, message_id));
            &&& text_field(told, "activation_id"@) == Some(activation_id)
            &&& message_id is Some ==> text_field(told, "message_id"@) == message_id
            &&& unsigned_field(told, "started_event_sequence"@) == Some(
                delivery.started_event_sequence,
            )
            &&& unsigned_field(told, "allocation_generation"@) == Some(
                delivery.allocation_generation,
            )
        }),
{
    reveal_strlit("activation_id");
    reveal_strlit("message_id");
    reveal_strlit("started_event_sequence");
    reveal_strlit("allocation_generation");
    assert("activation_id"@.len() == 13);
    assert("message_id"@.len() == 10);
    assert("started_event_sequence"@.len() == 22);
    assert("allocation_generation"@.len() == 21);
    let named = with_field(details, "activation_id"@, JsonView::Text(activation_id));
    let with_message = match message_id {
        Some(message_id) => with_field(named, "message_id"@, JsonView::Text(message_id)),
        None => named,
    };
    let sequenced = with_field(
        with_message,
        "started_event_sequence"@,
        JsonView::Unsigned(delivery.started_event_sequence),
    );
    let payload = with_field(
        sequenced,
        "allocation_generation"@,
        JsonView::Unsigned(delivery.allocation_generation),
    );
    assert(payload == arrival_payload(details, delivery, activation_id, message_id));
    lemma_field_set_in_order(details, "activation_id"@, JsonView::Text(activation_id));
    if message_id is Some {
        lemma_field_set_in_order(named, "message_id"@, JsonView::Text(message_id->Some_0));
    }
    lemma_field_set_in_order(
        with_message,
        "started_event_sequence"@,
        JsonView::Unsigned(delivery.started_event_sequence),
    );
    lemma_field_set_in_order(
        sequenced,
        "allocation_generation"@,
        JsonView::Unsigned(delivery.allocation_generation),
    );
    let fields = fields_of(payload);
    crate::json::lemma_field_set(
        details,
        "activation_id"@,
        JsonView::Text(activation_id),
        "activation_id"@,
    );
    if message_id is Some {
        crate::json::lemma_field_set(
            named,
            "message_id"@,
            JsonView::Text(message_id->Some_0),
            "activation_id"@,
        );
    }
    crate::json::lemma_field_set(
        with_message,
        "started_event_sequence"@,
        JsonView::Unsigned(delivery.started_event_sequence),
        "activation_id"@,
    );
    crate::json::lemma_field_set(
        sequenced,
        "allocation_generation"@,
        JsonView::Unsigned(delivery.allocation_generation),
        "activation_id"@,
    );
    lemma_ordered_field(fields, "activation_id"@);
    crate::json::lemma_field_set(
        details,
        "activation_id"@,
        JsonView::Text(activation_id),
        "message_id"@,
    );
    if message_id is Some {
        crate::json::lemma_field_set(
            named,
            "message_id"@,
            JsonView::Text(message_id->Some_0),
            "message_id"@,
        );
    }
    crate::json::lemma_field_set(
        with_message,
        "started_event_sequence"@,
        JsonView::Unsigned(delivery.started_event_sequence),
        "message_id"@,
    );
    crate::json::lemma_field_set(
        sequenced,
        "allocation_generation"@,
        JsonView::Unsigned(delivery.allocation_generation),
        "message_id"@,
    );
    lemma_ordered_field(fields, "message_id"@);
    crate::json::lemma_field_set(
        details,
        "activation_id"@,
        JsonView::Text(activation_id),
        "started_event_sequence"@,
    );
    if message_id is Some {
        crate::json::lemma_field_set(
            named,
            "message_id"@,
            JsonView::Text(message_id->Some_0),
            "started_event_sequence"@,
        );
    }
    crate::json::lemma_field_set(
        with_message,
        "started_event_sequence"@,
        JsonView::Unsigned(delivery.started_event_sequence),
        "started_event_sequence"@,
    );
    crate::json::lemma_field_set(
        sequenced,
        "allocation_generation"@,
        JsonView::Unsigned(delivery.allocation_generation),
        "started_event_sequence"@,
    );
    lemma_ordered_field(fields, "started_event_sequence"@);
    crate::json::lemma_field_set(
        details,
        "activation_id"@,
        JsonView::Text(activation_id),
        "allocation_generation"@,
    );
    if message_id is Some {
        crate::json::lemma_field_set(
            named,
            "message_id"@,
            JsonView::Text(message_id->Some_0),
            "allocation_generation"@,
        );
    }
    crate::json::lemma_field_set(
        with_message,
        "started_event_sequence"@,
        JsonView::Unsigned(delivery.started_event_sequence),
        "allocation_generation"@,
    );
    crate::json::lemma_field_set(
        sequenced,
        "allocation_generation"@,
        JsonView::Unsigned(delivery.allocation_generation),
        "allocation_generation"@,
    );
    lemma_ordered_field(fields, "allocation_generation"@);
}

/// Whether a delivery is of a role and a message that go together.
pub open spec fn is_regular_delivery(role: Seq<char>, message_id: Option<Seq<char>>) -> bool {
    ||| role == DELIVERY_ROLE_AGENT_LAUNCH@ && message_id is None
    ||| role == DELIVERY_ROLE_NODE_PROMPT@ && message_id is None
    ||| role == DELIVERY_ROLE_PARTICIPANT_MESSAGE@ && message_id is Some
}

/// Input that arrived is found to have arrived after a restart.
pub proof fn lemma_arrival_survives(
    state: DriverStateView,
    activation_id: Seq<char>,
    role: Seq<char>,
    message_id: Option<Seq<char>>,
    generation: u64,
    details: JsonView,
    seq: u64,
    at_ms: u64,
)
    requires
        state.deliveries.indexed(),
        distinct_keys(fields_of(details)),
        is_regular_delivery(role, message_id),
    ensures
        arrival_event(
            state.deliveries,
            activation_id,
            role,
            message_id,
            generation,
            details,
        ) matches Ok(event) ==> state.replayed(logged(event, seq, at_ms)) == Ok::<
            DriverStateView,
            ReplayFault,
        >(
            DriverStateView {
                deliveries: state.deliveries.finished(
                    activation_id,
                    role,
                    message_id,
                    generation,
                ),
                ..state
            },
        ),
{
    let key = key_of(activation_id, role, message_id, generation);
    reveal_strlit("agent_launch");
    reveal_strlit("node_prompt");
    reveal_strlit("participant_message");
    assert("agent_launch"@.len() == 12);
    assert("node_prompt"@.len() == 11);
    assert("participant_message"@.len() == 19);
    if state.deliveries.ambiguous.dom().contains(key) {
        let delivery = state.deliveries.ambiguous[key];
        assert(delivery.key() == key);
        lemma_key_tells_allocation(
            delivery.activation_id,
            delivery.role,
            delivery.message_id,
            delivery.allocation_generation,
            activation_id,
            role,
            message_id,
            generation,
        );
        lemma_arrival_is_told(details, delivery, activation_id, message_id);
        let payload = ordered(arrival_payload(details, delivery, activation_id, message_id));
        assert(fits_delivery(state.deliveries, key, payload, false));
        if role == DELIVERY_ROLE_AGENT_LAUNCH@ {
            lemma_launch_kind();
        } else if role == DELIVERY_ROLE_NODE_PROMPT@ {
            lemma_prompt_kind();
        } else {
            lemma_message_kind();
        }
    }
}

proof fn lemma_launch_kind()
    ensures
        "driver_pane_owned"@ != "agent_launch_submitted"@,
        "driver_pane_released"@ != "agent_launch_submitted"@,
        "pipe_capture_intent"@ != "agent_launch_submitted"@,
        "pipe_capture_started"@ != "agent_launch_submitted"@,
        "flow_revision_available"@ != "agent_launch_submitted"@,
        "tmux_bound"@ != "agent_launch_submitted"@,
        "tmux_pane_allocation_intent"@ != "agent_launch_submitted"@,
        "tmux_pane_allocated"@ != "agent_launch_submitted"@,
        "tmux_pane_cleanup_intent"@ != "agent_launch_submitted"@,
        "tmux_pane_cleanup_receipt"@ != "agent_launch_submitted"@,
        "tmux_panes_released"@ != "agent_launch_submitted"@,
        "input_delivery_started"@ != "agent_launch_submitted"@,
        "input_delivery_not_submitted"@ != "agent_launch_submitted"@,
{
    reveal_strlit("agent_launch_submitted");
    assert("agent_launch_submitted"@.len() == 22);
    reveal_strlit("driver_pane_owned");
    assert("driver_pane_owned"@.len() == 17);
    assert("driver_pane_owned"@ != "agent_launch_submitted"@);
    reveal_strlit("driver_pane_released");
    assert("driver_pane_released"@.len() == 20);
    assert("driver_pane_released"@ != "agent_launch_submitted"@);
    reveal_strlit("pipe_capture_intent");
    assert("pipe_capture_intent"@.len() == 19);
    assert("pipe_capture_intent"@ != "agent_launch_submitted"@);
    reveal_strlit("pipe_capture_started");
    assert("pipe_capture_started"@.len() == 20);
    assert("pipe_capture_started"@ != "agent_launch_submitted"@);
    reveal_strlit("flow_revision_available");
    assert("flow_revision_available"@.len() == 23);
    assert("flow_revision_available"@ != "agent_launch_submitted"@);
    reveal_strlit("tmux_bound");
    assert("tmux_bound"@.len() == 10);
    assert("tmux_bound"@ != "agent_launch_submitted"@);
    reveal_strlit("tmux_pane_allocation_intent");
    assert("tmux_pane_allocation_intent"@.len() == 27);
    assert("tmux_pane_allocation_intent"@ != "agent_launch_submitted"@);
    reveal_strlit("tmux_pane_allocated");
    assert("tmux_pane_allocated"@.len() == 19);
    assert("tmux_pane_allocated"@ != "agent_launch_submitted"@);
    reveal_strlit("tmux_pane_cleanup_intent");
    assert("tmux_pane_cleanup_intent"@.len() == 24);
    assert("tmux_pane_cleanup_intent"@ != "agent_launch_submitted"@);
    reveal_strlit("tmux_pane_cleanup_receipt");
    assert("tmux_pane_cleanup_receipt"@.len() == 25);
    assert("tmux_pane_cleanup_receipt"@ != "agent_launch_submitted"@);
    reveal_strlit("tmux_panes_released");
    assert("tmux_panes_released"@.len() == 19);
    assert("tmux_panes_released"@ != "agent_launch_submitted"@);
    reveal_strlit("input_delivery_started");
    assert("input_delivery_started"@.len() == 22);
    assert("input_delivery_started"@[0] != "agent_launch_submitted"@[0]);
    assert("input_delivery_started"@ != "agent_launch_submitted"@);
    reveal_strlit("input_delivery_not_submitted");
    assert("input_delivery_not_submitted"@.len() == 28);
    assert("input_delivery_not_submitted"@ != "agent_launch_submitted"@);
}

proof fn lemma_prompt_kind()
    ensures
        "driver_pane_owned"@ != "prompt_submitted"@,
        "driver_pane_released"@ != "prompt_submitted"@,
        "pipe_capture_intent"@ != "prompt_submitted"@,
        "pipe_capture_started"@ != "prompt_submitted"@,
        "flow_revision_available"@ != "prompt_submitted"@,
        "tmux_bound"@ != "prompt_submitted"@,
        "tmux_pane_allocation_intent"@ != "prompt_submitted"@,
        "tmux_pane_allocated"@ != "prompt_submitted"@,
        "tmux_pane_cleanup_intent"@ != "prompt_submitted"@,
        "tmux_pane_cleanup_receipt"@ != "prompt_submitted"@,
        "tmux_panes_released"@ != "prompt_submitted"@,
        "input_delivery_started"@ != "prompt_submitted"@,
        "input_delivery_not_submitted"@ != "prompt_submitted"@,
        "agent_launch_submitted"@ != "prompt_submitted"@,
        "agent_launched"@ != "prompt_submitted"@,
{
    reveal_strlit("prompt_submitted");
    assert("prompt_submitted"@.len() == 16);
    reveal_strlit("driver_pane_owned");
    assert("driver_pane_owned"@.len() == 17);
    assert("driver_pane_owned"@ != "prompt_submitted"@);
    reveal_strlit("driver_pane_released");
    assert("driver_pane_released"@.len() == 20);
    assert("driver_pane_released"@ != "prompt_submitted"@);
    reveal_strlit("pipe_capture_intent");
    assert("pipe_capture_intent"@.len() == 19);
    assert("pipe_capture_intent"@ != "prompt_submitted"@);
    reveal_strlit("pipe_capture_started");
    assert("pipe_capture_started"@.len() == 20);
    assert("pipe_capture_started"@ != "prompt_submitted"@);
    reveal_strlit("flow_revision_available");
    assert("flow_revision_available"@.len() == 23);
    assert("flow_revision_available"@ != "prompt_submitted"@);
    reveal_strlit("tmux_bound");
    assert("tmux_bound"@.len() == 10);
    assert("tmux_bound"@ != "prompt_submitted"@);
    reveal_strlit("tmux_pane_allocation_intent");
    assert("tmux_pane_allocation_intent"@.len() == 27);
    assert("tmux_pane_allocation_intent"@ != "prompt_submitted"@);
    reveal_strlit("tmux_pane_allocated");
    assert("tmux_pane_allocated"@.len() == 19);
    assert("tmux_pane_allocated"@ != "prompt_submitted"@);
    reveal_strlit("tmux_pane_cleanup_intent");
    assert("tmux_pane_cleanup_intent"@.len() == 24);
    assert("tmux_pane_cleanup_intent"@ != "prompt_submitted"@);
    reveal_strlit("tmux_pane_cleanup_receipt");
    assert("tmux_pane_cleanup_receipt"@.len() == 25);
    assert("tmux_pane_cleanup_receipt"@ != "prompt_submitted"@);
    reveal_strlit("tmux_panes_released");
    assert("tmux_panes_released"@.len() == 19);
    assert("tmux_panes_released"@ != "prompt_submitted"@);
    reveal_strlit("input_delivery_started");
    assert("input_delivery_started"@.len() == 22);
    assert("input_delivery_started"@ != "prompt_submitted"@);
    reveal_strlit("input_delivery_not_submitted");
    assert("input_delivery_not_submitted"@.len() == 28);
    assert("input_delivery_not_submitted"@ != "prompt_submitted"@);
    reveal_strlit("agent_launch_submitted");
    assert("agent_launch_submitted"@.len() == 22);
    assert("agent_launch_submitted"@ != "prompt_submitted"@);
    reveal_strlit("agent_launched");
    assert("agent_launched"@.len() == 14);
    assert("agent_launched"@ != "prompt_submitted"@);
}

proof fn lemma_message_kind()
    ensures
        "driver_pane_owned"@ != "participant_message_submitted"@,
        "driver_pane_released"@ != "participant_message_submitted"@,
        "pipe_capture_intent"@ != "participant_message_submitted"@,
        "pipe_capture_started"@ != "participant_message_submitted"@,
        "flow_revision_available"@ != "participant_message_submitted"@,
        "tmux_bound"@ != "participant_message_submitted"@,
        "tmux_pane_allocation_intent"@ != "participant_message_submitted"@,
        "tmux_pane_allocated"@ != "participant_message_submitted"@,
        "tmux_pane_cleanup_intent"@ != "participant_message_submitted"@,
        "tmux_pane_cleanup_receipt"@ != "participant_message_submitted"@,
        "tmux_panes_released"@ != "participant_message_submitted"@,
        "input_delivery_started"@ != "participant_message_submitted"@,
        "input_delivery_not_submitted"@ != "participant_message_submitted"@,
        "agent_launch_submitted"@ != "participant_message_submitted"@,
        "agent_launched"@ != "participant_message_submitted"@,
        "prompt_submitted"@ != "participant_message_submitted"@,
        "node_prompt_sent"@ != "participant_message_submitted"@,
{
    reveal_strlit("participant_message_submitted");
    assert("participant_message_submitted"@.len() == 29);
    reveal_strlit("driver_pane_owned");
    assert("driver_pane_owned"@.len() == 17);
    assert("driver_pane_owned"@ != "participant_message_submitted"@);
    reveal_strlit("driver_pane_released");
    assert("driver_pane_released"@.len() == 20);
    assert("driver_pane_released"@ != "participant_message_submitted"@);
    reveal_strlit("pipe_capture_intent");
    assert("pipe_capture_intent"@.len() == 19);
    assert("pipe_capture_intent"@ != "participant_message_submitted"@);
    reveal_strlit("pipe_capture_started");
    assert("pipe_capture_started"@.len() == 20);
    assert("pipe_capture_started"@ != "participant_message_submitted"@);
    reveal_strlit("flow_revision_available");
    assert("flow_revision_available"@.len() == 23);
    assert("flow_revision_available"@ != "participant_message_submitted"@);
    reveal_strlit("tmux_bound");
    assert("tmux_bound"@.len() == 10);
    assert("tmux_bound"@ != "participant_message_submitted"@);
    reveal_strlit("tmux_pane_allocation_intent");
    assert("tmux_pane_allocation_intent"@.len() == 27);
    assert("tmux_pane_allocation_intent"@ != "participant_message_submitted"@);
    reveal_strlit("tmux_pane_allocated");
    assert("tmux_pane_allocated"@.len() == 19);
    assert("tmux_pane_allocated"@ != "participant_message_submitted"@);
    reveal_strlit("tmux_pane_cleanup_intent");
    assert("tmux_pane_cleanup_intent"@.len() == 24);
    assert("tmux_pane_cleanup_intent"@ != "participant_message_submitted"@);
    reveal_strlit("tmux_pane_cleanup_receipt");
    assert("tmux_pane_cleanup_receipt"@.len() == 25);
    assert("tmux_pane_cleanup_receipt"@ != "participant_message_submitted"@);
    reveal_strlit("tmux_panes_released");
    assert("tmux_panes_released"@.len() == 19);
    assert("tmux_panes_released"@ != "participant_message_submitted"@);
    reveal_strlit("input_delivery_started");
    assert("input_delivery_started"@.len() == 22);
    assert("input_delivery_started"@ != "participant_message_submitted"@);
    reveal_strlit("input_delivery_not_submitted");
    assert("input_delivery_not_submitted"@.len() == 28);
    assert("input_delivery_not_submitted"@ != "participant_message_submitted"@);
    reveal_strlit("agent_launch_submitted");
    assert("agent_launch_submitted"@.len() == 22);
    assert("agent_launch_submitted"@ != "participant_message_submitted"@);
    reveal_strlit("agent_launched");
    assert("agent_launched"@.len() == 14);
    assert("agent_launched"@ != "participant_message_submitted"@);
    reveal_strlit("prompt_submitted");
    assert("prompt_submitted"@.len() == 16);
    assert("prompt_submitted"@ != "participant_message_submitted"@);
    reveal_strlit("node_prompt_sent");
    assert("node_prompt_sent"@.len() == 16);
    assert("node_prompt_sent"@ != "participant_message_submitted"@);
}

proof fn lemma_dropped_kind()
    ensures
        "driver_pane_owned"@ != "input_delivery_not_submitted"@,
        "driver_pane_released"@ != "input_delivery_not_submitted"@,
        "pipe_capture_intent"@ != "input_delivery_not_submitted"@,
        "pipe_capture_started"@ != "input_delivery_not_submitted"@,
        "flow_revision_available"@ != "input_delivery_not_submitted"@,
        "tmux_bound"@ != "input_delivery_not_submitted"@,
        "tmux_pane_allocation_intent"@ != "input_delivery_not_submitted"@,
        "tmux_pane_allocated"@ != "input_delivery_not_submitted"@,
        "tmux_pane_cleanup_intent"@ != "input_delivery_not_submitted"@,
        "tmux_pane_cleanup_receipt"@ != "input_delivery_not_submitted"@,
        "tmux_panes_released"@ != "input_delivery_not_submitted"@,
        "input_delivery_started"@ != "input_delivery_not_submitted"@,
{
    reveal_strlit("input_delivery_not_submitted");
    assert("input_delivery_not_submitted"@.len() == 28);
    reveal_strlit("driver_pane_owned");
    assert("driver_pane_owned"@.len() == 17);
    assert("driver_pane_owned"@ != "input_delivery_not_submitted"@);
    reveal_strlit("driver_pane_released");
    assert("driver_pane_released"@.len() == 20);
    assert("driver_pane_released"@ != "input_delivery_not_submitted"@);
    reveal_strlit("pipe_capture_intent");
    assert("pipe_capture_intent"@.len() == 19);
    assert("pipe_capture_intent"@ != "input_delivery_not_submitted"@);
    reveal_strlit("pipe_capture_started");
    assert("pipe_capture_started"@.len() == 20);
    assert("pipe_capture_started"@ != "input_delivery_not_submitted"@);
    reveal_strlit("flow_revision_available");
    assert("flow_revision_available"@.len() == 23);
    assert("flow_revision_available"@ != "input_delivery_not_submitted"@);
    reveal_strlit("tmux_bound");
    assert("tmux_bound"@.len() == 10);
    assert("tmux_bound"@ != "input_delivery_not_submitted"@);
    reveal_strlit("tmux_pane_allocation_intent");
    assert("tmux_pane_allocation_intent"@.len() == 27);
    assert("tmux_pane_allocation_intent"@ != "input_delivery_not_submitted"@);
    reveal_strlit("tmux_pane_allocated");
    assert("tmux_pane_allocated"@.len() == 19);
    assert("tmux_pane_allocated"@ != "input_delivery_not_submitted"@);
    reveal_strlit("tmux_pane_cleanup_intent");
    assert("tmux_pane_cleanup_intent"@.len() == 24);
    assert("tmux_pane_cleanup_intent"@ != "input_delivery_not_submitted"@);
    reveal_strlit("tmux_pane_cleanup_receipt");
    assert("tmux_pane_cleanup_receipt"@.len() == 25);
    assert("tmux_pane_cleanup_receipt"@ != "input_delivery_not_submitted"@);
    reveal_strlit("tmux_panes_released");
    assert("tmux_panes_released"@.len() == 19);
    assert("tmux_panes_released"@ != "input_delivery_not_submitted"@);
    reveal_strlit("input_delivery_started");
    assert("input_delivery_started"@.len() == 22);
    assert("input_delivery_started"@ != "input_delivery_not_submitted"@);
}

/// The word that input did not arrive is found again after a restart.
pub proof fn lemma_drop_survives(
    state: DriverStateView,
    delivery: AmbiguousDeliveryView,
    resolution: ResolutionView,
    seq: u64,
    at_ms: u64,
)
    requires
        state.deliveries.ambiguous.dom().contains(delivery.key()),
        state.deliveries.ambiguous[delivery.key()] == delivery,
        !resolution.submitted,
    ensures
        resolution_event(state.deliveries, delivery, resolution) matches Ok(event)
            && state.replayed(logged(event, seq, at_ms)) == Ok::<DriverStateView, ReplayFault>(
            DriverStateView {
                deliveries: resolved(state.deliveries, delivery, resolution),
                ..state
            },
        ),
{
    let payload = resolution_event(state.deliveries, delivery, resolution)->Ok_0.payload;
    reveal_strlit("activation_id");
    reveal_strlit("pane_id");
    reveal_strlit("allocation_generation");
    reveal_strlit("role");
    reveal_strlit("message_id");
    reveal_strlit("started_event_sequence");
    reveal_strlit("evidence");
    assert("activation_id"@.len() == 13);
    assert("pane_id"@.len() == 7);
    assert("allocation_generation"@.len() == 21);
    assert("role"@.len() == 4);
    assert("message_id"@.len() == 10);
    assert("started_event_sequence"@.len() == 22);
    assert("evidence"@.len() == 8);
    let f0 = no_fields();
    let f1 = f0.push(("activation_id"@, JsonView::Text(delivery.activation_id)));
    let f2 = f1.push(("pane_id"@, JsonView::Text(delivery.pane_id)));
    let f3 = f2.push(
        ("allocation_generation"@, JsonView::Unsigned(delivery.allocation_generation)),
    );
    let f4 = f3.push(("role"@, JsonView::Text(delivery.role)));
    let f5 = f4.push(("message_id"@, option_text(delivery.message_id)));
    let f6 = f5.push(
        ("started_event_sequence"@, JsonView::Unsigned(delivery.started_event_sequence)),
    );
    let f7 = f6.push(("evidence"@, JsonView::Text(resolution.evidence)));
    let fields = f7;
    assert(payload == JsonView::Record(fields));
    assert(distinct_keys(fields));
    assert(lookup(fields, "activation_id"@) == Some(JsonView::Text(delivery.activation_id))) by {
        lemma_lookup_push(f6, "evidence"@, JsonView::Text(resolution.evidence), "activation_id"@);
        lemma_lookup_push(
            f5,
            "started_event_sequence"@,
            JsonView::Unsigned(delivery.started_event_sequence),
            "activation_id"@,
        );
        lemma_lookup_push(f4, "message_id"@, option_text(delivery.message_id), "activation_id"@);
        lemma_lookup_push(f3, "role"@, JsonView::Text(delivery.role), "activation_id"@);
        lemma_lookup_push(
            f2,
            "allocation_generation"@,
            JsonView::Unsigned(delivery.allocation_generation),
            "activation_id"@,
        );
        lemma_lookup_push(f1, "pane_id"@, JsonView::Text(delivery.pane_id), "activation_id"@);
        lemma_lookup_push(
            f0,
            "activation_id"@,
            JsonView::Text(delivery.activation_id),
            "activation_id"@,
        );
    }
    lemma_ordered_field(fields, "activation_id"@);
    assert(lookup(fields, "pane_id"@) == Some(JsonView::Text(delivery.pane_id))) by {
        lemma_lookup_push(f6, "evidence"@, JsonView::Text(resolution.evidence), "pane_id"@);
        lemma_lookup_push(
            f5,
            "started_event_sequence"@,
            JsonView::Unsigned(delivery.started_event_sequence),
            "pane_id"@,
        );
        lemma_lookup_push(f4, "message_id"@, option_text(delivery.message_id), "pane_id"@);
        lemma_lookup_push(f3, "role"@, JsonView::Text(delivery.role), "pane_id"@);
        lemma_lookup_push(
            f2,
            "allocation_generation"@,
            JsonView::Unsigned(delivery.allocation_generation),
            "pane_id"@,
        );
        lemma_lookup_push(f1, "pane_id"@, JsonView::Text(delivery.pane_id), "pane_id"@);
    }
    lemma_ordered_field(fields, "pane_id"@);
    assert(
        lookup(fields, "allocation_generation"@) == Some(
            JsonView::Unsigned(delivery.allocation_generation),
        )
    ) by {
        lemma_lookup_push(
            f6,
            "evidence"@,
            JsonView::Text(resolution.evidence),
            "allocation_generation"@,
        );
        lemma_lookup_push(
            f5,
            "started_event_sequence"@,
            JsonView::Unsigned(delivery.started_event_sequence),
            "allocation_generation"@,
        );
        lemma_lookup_push(
            f4,
            "message_id"@,
            option_text(delivery.message_id),
            "allocation_generation"@,
        );
        lemma_lookup_push(f3, "role"@, JsonView::Text(delivery.role), "allocation_generation"@);
        lemma_lookup_push(
            f2,
            "allocation_generation"@,
            JsonView::Unsigned(delivery.allocation_generation),
            "allocation_generation"@,
        );
    }
    lemma_ordered_field(fields, "allocation_generation"@);
    assert(lookup(fields, "role"@) == Some(JsonView::Text(delivery.role))) by {
        lemma_lookup_push(f6, "evidence"@, JsonView::Text(resolution.evidence), "role"@);
        lemma_lookup_push(
            f5,
            "started_event_sequence"@,
            JsonView::Unsigned(delivery.started_event_sequence),
            "role"@,
        );
        lemma_lookup_push(f4, "message_id"@, option_text(delivery.message_id), "role"@);
        lemma_lookup_push(f3, "role"@, JsonView::Text(delivery.role), "role"@);
    }
    lemma_ordered_field(fields, "role"@);
    assert(lookup(fields, "message_id"@) == Some(option_text(delivery.message_id))) by {
        lemma_lookup_push(f6, "evidence"@, JsonView::Text(resolution.evidence), "message_id"@);
        lemma_lookup_push(
            f5,
            "started_event_sequence"@,
            JsonView::Unsigned(delivery.started_event_sequence),
            "message_id"@,
        );
        lemma_lookup_push(f4, "message_id"@, option_text(delivery.message_id), "message_id"@);
    }
    lemma_ordered_field(fields, "message_id"@);
    assert(
        lookup(fields, "started_event_sequence"@) == Some(
            JsonView::Unsigned(delivery.started_event_sequence),
        )
    ) by {
        lemma_lookup_push(
            f6,
            "evidence"@,
            JsonView::Text(resolution.evidence),
            "started_event_sequence"@,
        );
        lemma_lookup_push(
            f5,
            "started_event_sequence"@,
            JsonView::Unsigned(delivery.started_event_sequence),
            "started_event_sequence"@,
        );
    }
    lemma_ordered_field(fields, "started_event_sequence"@);
    assert(lookup(fields, "evidence"@) == Some(JsonView::Text(resolution.evidence))) by {
        lemma_lookup_push(f6, "evidence"@, JsonView::Text(resolution.evidence), "evidence"@);
    }
    lemma_ordered_field(fields, "evidence"@);
    lemma_dropped_kind();
    let told = ordered(payload);
    assert(text_field(told, "message_id"@) == delivery.message_id);
    assert(fits_delivery(state.deliveries, delivery.key(), told, true));
}

proof fn lemma_barriers_stay_indexed(
    deliveries: DeliveriesView,
    barriers: Seq<JsonView>,
    sequence: u64,
)
    requires
        deliveries.indexed(),
    ensures
        barred(deliveries, barriers, sequence).indexed(),
    decreases barriers.len(),
{
    if barriers.len() > 0 {
        lemma_barriers_stay_indexed(deliveries, barriers.drop_last(), sequence);
    }
}

proof fn lemma_release_keeps_deliveries(state: DriverStateView, activation_ids: Seq<Seq<char>>)
    ensures
        state.all_released(activation_ids).deliveries.ambiguous == state.deliveries.ambiguous,
        state.all_released(activation_ids).deliveries.submitted == state.deliveries.submitted,
    decreases activation_ids.len(),
{
    if activation_ids.len() > 0 {
        lemma_release_keeps_deliveries(state, activation_ids.drop_last());
    }
}

/// No event makes input count both as arrived and as in doubt, and every one keeps input under
/// its key.
pub proof fn lemma_replay_keeps_deliveries_in_order(state: DriverStateView, event: DriverEventView)
    requires
        state.deliveries.disjoint(),
        state.deliveries.indexed(),
        state.replayed(event) is Ok,
    ensures
        state.replayed(event)->Ok_0.deliveries.disjoint(),
        state.replayed(event)->Ok_0.deliveries.indexed(),
{
    let payload = event.payload;
    match crate::json::items_field(payload, "activation_ids"@) {
        Some(items) => {
            let ids = super::replay::texts_among(items);
            lemma_release_keeps_deliveries(state, ids);
            let after = state.all_released(ids);
            assert(after.deliveries.disjoint());
            assert(after.deliveries.indexed());
            match crate::json::items_field(payload, "delivery_barriers"@) {
                Some(barriers) => {
                    lemma_barriers_stay_disjoint(after.deliveries, barriers, event.seq);
                    lemma_barriers_stay_indexed(after.deliveries, barriers, event.seq);
                },
                None => {},
            }
        },
        None => {},
    }
}

/// Whatever the log holds, input never counts both as arrived and as in doubt.
pub proof fn lemma_replayed_deliveries_are_in_order(events: Seq<DriverEventView>)
    ensures
        DriverStateView::empty().replayed_all(events) matches Ok(state) ==> {
            &&& state.deliveries.disjoint()
            &&& state.deliveries.indexed()
        },
    decreases events.len(),
{
    if events.len() > 0 {
        lemma_replayed_deliveries_are_in_order(events.drop_last());
        match DriverStateView::empty().replayed_all(events.drop_last()) {
            Ok(before) => {
                if before.replayed(events.last()) is Ok {
                    lemma_replay_keeps_deliveries_in_order(before, events.last());
                }
            },
            Err(_) => {},
        }
    }
}

/// Events that are followed one after the other, or all at once, lead to the same state.
pub proof fn lemma_replay_goes_on(
    state: DriverStateView,
    first: Seq<DriverEventView>,
    more: Seq<DriverEventView>,
)
    ensures
        state.replayed_all(first + more) == (match state.replayed_all(first) {
            Ok(between) => between.replayed_all(more),
            Err(fault) => Err(fault),
        }),
    decreases more.len(),
{
    if more.len() == 0 {
        assert(first + more =~= first);
    } else {
        assert((first + more).drop_last() =~= first + more.drop_last());
        assert((first + more).last() == more.last());
        lemma_replay_goes_on(state, first, more.drop_last());
    }
}

/// Every allocation of an activation has a higher number than the one before it, up to the
/// highest number there is.
pub proof fn lemma_generations_grow(
    state: DriverStateView,
    activation_id: Seq<char>,
    pane: StoredPaneView,
)
    requires
        state.allocation_generations.dom().contains(activation_id),
        state.allocation_generations[activation_id] < u64::MAX,
        pane.allocation_generation == state.next_generation(activation_id),
    ensures
        state.with_pane(activation_id, pane).allocation_generations[activation_id]
            > state.allocation_generations[activation_id],
{
}

/// A pane that is given up takes nothing from other activations.
pub proof fn lemma_release_leaves_others(
    state: DriverStateView,
    activation_id: Seq<char>,
    other: Seq<char>,
    generation: u64,
)
    requires
        activation_id != other,
    ensures
        ({
            let after = state.released(activation_id);
            let key = AllocationKeyView { activation_id: other, generation };
            &&& after.deliveries.launched.contains(key) == state.deliveries.launched.contains(key)
            &&& after.deliveries.settled.contains(key) == state.deliveries.settled.contains(key)
            &&& after.pipe_captures.dom().contains(other) == state.pipe_captures.dom().contains(
                other,
            )
            &&& state.tmux is Some ==> after.tmux is Some
                && after.tmux->Some_0.panes.dom().contains(other)
                == state.tmux->Some_0.panes.dom().contains(other)
            &&& after.participant_bindings == state.participant_bindings
        }),
{
}

/// Nothing is left of an activation whose pane was given up: no pane, no launch, no prompt.
pub proof fn lemma_release_is_complete(
    state: DriverStateView,
    activation_id: Seq<char>,
    generation: u64,
)
    ensures
        ({
            let after = state.released(activation_id);
            let key = AllocationKeyView { activation_id, generation };
            &&& !after.deliveries.launched.contains(key)
            &&& !after.deliveries.settled.contains(key)
            &&& !after.pipe_captures.dom().contains(activation_id)
            &&& !after.pending_pipe_captures.dom().contains(activation_id)
            &&& !after.pending_tmux_allocations.dom().contains(activation_id)
            &&& after.tmux matches Some(tmux) ==> !tmux.panes.dom().contains(activation_id)
        }),
{
}

} // verus!
