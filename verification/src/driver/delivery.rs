//! Input that is on its way to an agent: it may have arrived from the moment it is begun, and
//! is not repeated before it is known what became of it.
use vstd::prelude::*;

use crate::input_ledger::{machine_input_payload_hash, payload_hash};
use crate::json::{
    field, no_fields, option_text, option_text_json, text_field, unsigned_field, with_field, Fields,
    Json, JsonView,
};
use crate::order::Comparable;
use crate::table::Table;
use crate::text::{same, same_option, trim, trimmed};

use super::failure::{result_of, DriverFailure, FailureView};
use super::keys::{
    delivery_key, key_of, AllocationKeyView, AllocationSet, DeliveryKey, DeliveryKeyView,
};
use super::records::{StoredPane, StoredPaneView};
use super::wire::{demanded, either_field, get_either, required_string};

verus! {

broadcast use vstd::string::group_string_axioms;

pub const DELIVERY_ROLE_AGENT_LAUNCH: &'static str = "agent_launch";

pub const DELIVERY_ROLE_NODE_PROMPT: &'static str = "node_prompt";

pub const DELIVERY_ROLE_PARTICIPANT_MESSAGE: &'static str = "participant_message";

/// Input that was begun, and of which it is not known whether it arrived.
#[derive(Debug, PartialEq, Eq)]
pub struct AmbiguousDelivery {
    pub activation_id: String,
    pub pane_id: String,
    pub allocation_generation: u64,
    pub role: String,
    pub message_id: Option<String>,
    pub payload_hash: String,
    pub started_event_sequence: u64,
    pub reason: String,
}

#[verifier::ext_equal]
pub struct AmbiguousDeliveryView {
    pub activation_id: Seq<char>,
    pub pane_id: Seq<char>,
    pub allocation_generation: u64,
    pub role: Seq<char>,
    pub message_id: Option<Seq<char>>,
    pub payload_hash: Seq<char>,
    pub started_event_sequence: u64,
    pub reason: Seq<char>,
}

impl DeepView for AmbiguousDelivery {
    type V = AmbiguousDeliveryView;

    open spec fn deep_view(&self) -> AmbiguousDeliveryView {
        AmbiguousDeliveryView {
            activation_id: self.activation_id@,
            pane_id: self.pane_id@,
            allocation_generation: self.allocation_generation,
            role: self.role@,
            message_id: self.message_id.deep_view(),
            payload_hash: self.payload_hash@,
            started_event_sequence: self.started_event_sequence,
            reason: self.reason@,
        }
    }
}

impl Clone for AmbiguousDelivery {
    fn clone(&self) -> (r: Self)
        ensures
            r.deep_view() == self.deep_view(),
    {
        AmbiguousDelivery {
            activation_id: self.activation_id.clone(),
            pane_id: self.pane_id.clone(),
            allocation_generation: self.allocation_generation,
            role: self.role.clone(),
            message_id: self.message_id.clone(),
            payload_hash: self.payload_hash.clone(),
            started_event_sequence: self.started_event_sequence,
            reason: self.reason.clone(),
        }
    }
}

impl Comparable for AmbiguousDelivery {
    fn same_as(&self, other: &Self) -> (r: bool) {
        same(self.activation_id.as_str(), other.activation_id.as_str())
            && same(self.pane_id.as_str(), other.pane_id.as_str())
            && self.allocation_generation == other.allocation_generation
            && same(self.role.as_str(), other.role.as_str())
            && same_option(&self.message_id, &other.message_id)
            && same(self.payload_hash.as_str(), other.payload_hash.as_str())
            && self.started_event_sequence == other.started_event_sequence
            && same(self.reason.as_str(), other.reason.as_str())
    }
}

/// Input that arrived.
#[derive(Debug, PartialEq, Eq)]
pub struct SubmittedDelivery {
    pub activation_id: String,
    pub pane_id: String,
    pub allocation_generation: u64,
    pub role: String,
    pub message_id: Option<String>,
    pub payload_hash: String,
    pub started_event_sequence: u64,
}

#[verifier::ext_equal]
pub struct SubmittedDeliveryView {
    pub activation_id: Seq<char>,
    pub pane_id: Seq<char>,
    pub allocation_generation: u64,
    pub role: Seq<char>,
    pub message_id: Option<Seq<char>>,
    pub payload_hash: Seq<char>,
    pub started_event_sequence: u64,
}

impl SubmittedDeliveryView {
    pub open spec fn key(self) -> DeliveryKeyView {
        key_of(self.activation_id, self.role, self.message_id, self.allocation_generation)
    }
}

impl DeepView for SubmittedDelivery {
    type V = SubmittedDeliveryView;

    open spec fn deep_view(&self) -> SubmittedDeliveryView {
        SubmittedDeliveryView {
            activation_id: self.activation_id@,
            pane_id: self.pane_id@,
            allocation_generation: self.allocation_generation,
            role: self.role@,
            message_id: self.message_id.deep_view(),
            payload_hash: self.payload_hash@,
            started_event_sequence: self.started_event_sequence,
        }
    }
}

impl Clone for SubmittedDelivery {
    fn clone(&self) -> (r: Self)
        ensures
            r.deep_view() == self.deep_view(),
    {
        SubmittedDelivery {
            activation_id: self.activation_id.clone(),
            pane_id: self.pane_id.clone(),
            allocation_generation: self.allocation_generation,
            role: self.role.clone(),
            message_id: self.message_id.clone(),
            payload_hash: self.payload_hash.clone(),
            started_event_sequence: self.started_event_sequence,
        }
    }
}

impl Comparable for SubmittedDelivery {
    fn same_as(&self, other: &Self) -> (r: bool) {
        same(self.activation_id.as_str(), other.activation_id.as_str())
            && same(self.pane_id.as_str(), other.pane_id.as_str())
            && self.allocation_generation == other.allocation_generation
            && same(self.role.as_str(), other.role.as_str())
            && same_option(&self.message_id, &other.message_id)
            && same(self.payload_hash.as_str(), other.payload_hash.as_str())
            && self.started_event_sequence == other.started_event_sequence
    }
}

impl AmbiguousDeliveryView {
    /// How a delivery is shown.
    pub open spec fn json(self) -> JsonView {
        JsonView::Record(
            no_fields()
                .push(("activation_id"@, JsonView::Text(self.activation_id)))
                .push(("pane_id"@, JsonView::Text(self.pane_id)))
                .push(("allocation_generation"@, JsonView::Unsigned(self.allocation_generation)))
                .push(("role"@, JsonView::Text(self.role)))
                .push(("message_id"@, option_text(self.message_id)))
                .push(("payload_hash"@, JsonView::Text(self.payload_hash)))
                .push(("started_event_sequence"@, JsonView::Unsigned(self.started_event_sequence)))
                .push(("reason"@, JsonView::Text(self.reason)))
                .push(("status"@, JsonView::Text("ambiguous_delivery"@)))
                .push(("resolution_required"@, JsonView::Bool(true))),
        )
    }

    pub open spec fn key(self) -> DeliveryKeyView {
        key_of(self.activation_id, self.role, self.message_id, self.allocation_generation)
    }

    /// The delivery, known to have arrived.
    pub open spec fn arrived(self) -> SubmittedDeliveryView {
        SubmittedDeliveryView {
            activation_id: self.activation_id,
            pane_id: self.pane_id,
            allocation_generation: self.allocation_generation,
            role: self.role,
            message_id: self.message_id,
            payload_hash: self.payload_hash,
            started_event_sequence: self.started_event_sequence,
        }
    }

    /// The delivery that a stored event tells of. A number of an event that is missing is that
    /// of the event itself.
    pub open spec fn told(payload: JsonView, event_sequence: u64) -> Option<AmbiguousDeliveryView> {
        if text_field(payload, "activation_id"@) is Some && text_field(payload, "pane_id"@) is Some
            && text_field(payload, "role"@) is Some && text_field(payload, "payload_hash"@) is Some {
            Some(
                AmbiguousDeliveryView {
                    activation_id: text_field(payload, "activation_id"@)->Some_0,
                    pane_id: text_field(payload, "pane_id"@)->Some_0,
                    allocation_generation: unsigned_or(payload, "allocation_generation"@, 0),
                    role: text_field(payload, "role"@)->Some_0,
                    message_id: text_field(payload, "message_id"@),
                    payload_hash: text_field(payload, "payload_hash"@)->Some_0,
                    started_event_sequence: unsigned_or(
                        payload,
                        "started_event_sequence"@,
                        event_sequence,
                    ),
                    reason: match text_field(payload, "reason"@) {
                        Some(reason) => reason,
                        None => "submission_receipt_incomplete"@,
                    },
                },
            )
        } else {
            None
        }
    }
}

/// The number in a field, or another one.
pub open spec fn unsigned_or(value: JsonView, key: Seq<char>, other: u64) -> u64 {
    match unsigned_field(value, key) {
        Some(n) => n,
        None => other,
    }
}

pub fn unsigned_at_or(value: &Json, key: &str, other: u64) -> (r: u64)
    ensures
        r == unsigned_or(value@, key@, other),
{
    match value.unsigned_at(key) {
        Some(n) => n,
        None => other,
    }
}

fn owned(text: Option<&str>) -> (r: Option<String>)
    ensures
        r.deep_view() == text.deep_view(),
{
    match text {
        Some(text) => Some(text.to_string()),
        None => None,
    }
}

fn borrowed(text: &Option<String>) -> (r: Option<&str>)
    ensures
        r.deep_view() == text.deep_view(),
{
    match text {
        Some(text) => Some(text.as_str()),
        None => None,
    }
}

impl AmbiguousDelivery {
    pub fn from_payload(payload: &Json, event_sequence: u64) -> (r: Option<Self>)
        ensures
            r.deep_view() == AmbiguousDeliveryView::told(payload@, event_sequence),
    {
        let activation_id = match payload.text_at("activation_id") {
            Some(text) => text.to_string(),
            None => return None,
        };
        let pane_id = match payload.text_at("pane_id") {
            Some(text) => text.to_string(),
            None => return None,
        };
        let role = match payload.text_at("role") {
            Some(text) => text.to_string(),
            None => return None,
        };
        let payload_hash = match payload.text_at("payload_hash") {
            Some(text) => text.to_string(),
            None => return None,
        };
        Some(
            AmbiguousDelivery {
                activation_id,
                pane_id,
                allocation_generation: unsigned_at_or(payload, "allocation_generation", 0),
                role,
                message_id: owned(payload.text_at("message_id")),
                payload_hash,
                started_event_sequence: unsigned_at_or(
                    payload,
                    "started_event_sequence",
                    event_sequence,
                ),
                reason: match payload.text_at("reason") {
                    Some(reason) => reason.to_string(),
                    None => "submission_receipt_incomplete".to_string(),
                },
            },
        )
    }

    pub fn to_json(&self) -> (r: Json)
        ensures
            r@ == self.deep_view().json(),
    {
        Fields::new()
            .put("activation_id", Json::text(self.activation_id.as_str()))
            .put("pane_id", Json::text(self.pane_id.as_str()))
            .put("allocation_generation", Json::Unsigned(self.allocation_generation))
            .put("role", Json::text(self.role.as_str()))
            .put("message_id", option_text_json(&self.message_id))
            .put("payload_hash", Json::text(self.payload_hash.as_str()))
            .put("started_event_sequence", Json::Unsigned(self.started_event_sequence))
            .put("reason", Json::text(self.reason.as_str()))
            .put("status", Json::text("ambiguous_delivery"))
            .put("resolution_required", Json::Bool(true))
            .done()
    }

    pub fn key(&self) -> (r: DeliveryKey)
        ensures
            r.deep_view() == self.deep_view().key(),
    {
        delivery_key(
            self.activation_id.as_str(),
            self.role.as_str(),
            borrowed(&self.message_id),
            self.allocation_generation,
        )
    }

    pub fn to_submitted(&self) -> (r: SubmittedDelivery)
        ensures
            r.deep_view() == self.deep_view().arrived(),
    {
        SubmittedDelivery {
            activation_id: self.activation_id.clone(),
            pane_id: self.pane_id.clone(),
            allocation_generation: self.allocation_generation,
            role: self.role.clone(),
            message_id: self.message_id.clone(),
            payload_hash: self.payload_hash.clone(),
            started_event_sequence: self.started_event_sequence,
        }
    }
}

impl SubmittedDeliveryView {
    /// How a delivery is shown.
    pub open spec fn json(self) -> JsonView {
        JsonView::Record(
            no_fields()
                .push(("activation_id"@, JsonView::Text(self.activation_id)))
                .push(("pane_id"@, JsonView::Text(self.pane_id)))
                .push(("allocation_generation"@, JsonView::Unsigned(self.allocation_generation)))
                .push(("role"@, JsonView::Text(self.role)))
                .push(("message_id"@, option_text(self.message_id)))
                .push(("payload_hash"@, JsonView::Text(self.payload_hash)))
                .push(("started_event_sequence"@, JsonView::Unsigned(self.started_event_sequence)))
                .push(("status"@, JsonView::Text("submitted"@))),
        )
    }
}

impl SubmittedDelivery {
    pub fn to_json(&self) -> (r: Json)
        ensures
            r@ == self.deep_view().json(),
    {
        Fields::new()
            .put("activation_id", Json::text(self.activation_id.as_str()))
            .put("pane_id", Json::text(self.pane_id.as_str()))
            .put("allocation_generation", Json::Unsigned(self.allocation_generation))
            .put("role", Json::text(self.role.as_str()))
            .put("message_id", option_text_json(&self.message_id))
            .put("payload_hash", Json::text(self.payload_hash.as_str()))
            .put("started_event_sequence", Json::Unsigned(self.started_event_sequence))
            .put("status", Json::text("submitted"))
            .done()
    }
}

/// An event that is to be written down before anything else is done.
#[derive(Debug)]
pub struct PlannedEvent {
    pub kind: &'static str,
    pub payload: Json,
}

#[verifier::ext_equal]
pub struct PlannedEventView {
    pub kind: Seq<char>,
    pub payload: JsonView,
}

impl DeepView for PlannedEvent {
    type V = PlannedEventView;

    open spec fn deep_view(&self) -> PlannedEventView {
        PlannedEventView { kind: self.kind@, payload: self.payload@ }
    }
}

/// All deliveries of a run.
#[derive(Debug)]
pub struct Deliveries {
    pub ambiguous: Table<DeliveryKey, AmbiguousDelivery>,
    pub submitted: Table<DeliveryKey, SubmittedDelivery>,
    pub launched: AllocationSet,
    pub settled: AllocationSet,
}

#[verifier::ext_equal]
pub struct DeliveriesView {
    /// Those of which it is not known whether they arrived.
    pub ambiguous: Map<DeliveryKeyView, AmbiguousDeliveryView>,
    /// Those that arrived.
    pub submitted: Map<DeliveryKeyView, SubmittedDeliveryView>,
    /// The allocations in which an agent was launched.
    pub launched: Set<AllocationKeyView>,
    /// The allocations that have got their prompt.
    pub settled: Set<AllocationKeyView>,
}

impl DeepView for Deliveries {
    type V = DeliveriesView;

    open spec fn deep_view(&self) -> DeliveriesView {
        DeliveriesView {
            ambiguous: self.ambiguous.deep_view(),
            submitted: self.submitted.deep_view(),
            launched: self.launched@,
            settled: self.settled@,
        }
    }
}

impl DeliveriesView {
    pub open spec fn none() -> DeliveriesView {
        DeliveriesView {
            ambiguous: Map::empty(),
            submitted: Map::empty(),
            launched: Set::empty(),
            settled: Set::empty(),
        }
    }

    /// No delivery is both known to have arrived and not known to have.
    pub open spec fn disjoint(self) -> bool {
        forall|key: DeliveryKeyView|
            !(#[trigger] self.ambiguous.dom().contains(key) && self.submitted.dom().contains(key))
    }

    /// Every delivery stands under its key.
    pub open spec fn indexed(self) -> bool {
        &&& forall|key: DeliveryKeyView| #[trigger]
            self.ambiguous.dom().contains(key) ==> self.ambiguous[key].key() == key
        &&& forall|key: DeliveryKeyView| #[trigger]
            self.submitted.dom().contains(key) ==> self.submitted[key].key() == key
    }

    /// A delivery begins.
    pub open spec fn begun(self, delivery: AmbiguousDeliveryView) -> DeliveriesView {
        DeliveriesView {
            ambiguous: self.ambiguous.insert(delivery.key(), delivery),
            submitted: self.submitted.remove(delivery.key()),
            ..self
        }
    }

    /// A delivery turns out not to have arrived.
    pub open spec fn dropped(self, key: DeliveryKeyView) -> DeliveriesView {
        DeliveriesView {
            ambiguous: self.ambiguous.remove(key),
            submitted: self.submitted.remove(key),
            ..self
        }
    }

    /// A delivery turns out to have arrived.
    pub open spec fn arrived(self, key: DeliveryKeyView) -> DeliveriesView {
        DeliveriesView {
            ambiguous: self.ambiguous.remove(key),
            submitted: if self.ambiguous.dom().contains(key) {
                self.submitted.insert(key, self.ambiguous[key].arrived())
            } else {
                self.submitted
            },
            ..self
        }
    }

    /// An agent has been launched.
    pub open spec fn launching(self, activation_id: Seq<char>, generation: u64) -> DeliveriesView {
        DeliveriesView {
            launched: self.launched.insert(AllocationKeyView { activation_id, generation }),
            ..self
        }
    }

    /// An agent has got its prompt.
    pub open spec fn settling(self, activation_id: Seq<char>, generation: u64) -> DeliveriesView {
        DeliveriesView {
            settled: self.settled.insert(AllocationKeyView { activation_id, generation }),
            ..self
        }
    }

    /// What the arrival of input of the given role means.
    pub open spec fn finished(
        self,
        activation_id: Seq<char>,
        role: Seq<char>,
        message_id: Option<Seq<char>>,
        generation: u64,
    ) -> DeliveriesView {
        let after = self.arrived(key_of(activation_id, role, message_id, generation));
        if role == DELIVERY_ROLE_AGENT_LAUNCH@ {
            after.launching(activation_id, generation)
        } else if role == DELIVERY_ROLE_NODE_PROMPT@ {
            after.launching(activation_id, generation).settling(activation_id, generation)
        } else {
            after
        }
    }
}

impl Deliveries {
    pub fn new() -> (r: Self)
        ensures
            r.deep_view() == DeliveriesView::none(),
    {
        Deliveries {
            ambiguous: Table::new(),
            submitted: Table::new(),
            launched: AllocationSet::new(),
            settled: AllocationSet::new(),
        }
    }

    pub fn begin(&mut self, delivery: AmbiguousDelivery)
        ensures
            final(self).deep_view() == old(self).deep_view().begun(delivery.deep_view()),
    {
        let key = delivery.key();
        let _ = self.submitted.remove(&key);
        self.ambiguous.insert(key, delivery);
    }

    pub fn drop_delivery(&mut self, key: &DeliveryKey)
        ensures
            final(self).deep_view() == old(self).deep_view().dropped(key.deep_view()),
    {
        let _ = self.ambiguous.remove(key);
        let _ = self.submitted.remove(key);
    }

    pub fn arrive(&mut self, key: DeliveryKey)
        ensures
            final(self).deep_view() == old(self).deep_view().arrived(key.deep_view()),
    {
        match self.ambiguous.remove(&key) {
            Some(delivery) => {
                self.submitted.insert(key, delivery.to_submitted());
            },
            None => {},
        }
    }

    pub fn launch(&mut self, activation_id: &str, generation: u64)
        ensures
            final(self).deep_view() == old(self).deep_view().launching(activation_id@, generation),
    {
        self.launched.insert(activation_id, generation);
    }

    pub fn settle(&mut self, activation_id: &str, generation: u64)
        ensures
            final(self).deep_view() == old(self).deep_view().settling(activation_id@, generation),
    {
        self.settled.insert(activation_id, generation);
    }

    /// The delivery that is not known to have arrived.
    pub fn ambiguous_input_delivery(
        &self,
        activation_id: &str,
        role: &str,
        allocation_generation: u64,
    ) -> (r: Option<AmbiguousDelivery>)
        ensures
            match r {
                Some(delivery) => {
                    let key = key_of(activation_id@, role@, None, allocation_generation);
                    self.deep_view().ambiguous.dom().contains(key)
                        && self.deep_view().ambiguous[key] == delivery.deep_view()
                },
                None => !self.deep_view().ambiguous.dom().contains(
                    key_of(activation_id@, role@, None, allocation_generation),
                ),
            },
    {
        let key = delivery_key(activation_id, role, None, allocation_generation);
        match self.ambiguous.get(&key) {
            Some(delivery) => Some(delivery.clone()),
            None => None,
        }
    }
}

/// The event that input is begun with, and the delivery.
pub open spec fn start_payload(delivery: AmbiguousDeliveryView) -> JsonView {
    JsonView::Record(
        no_fields()
            .push(("activation_id"@, JsonView::Text(delivery.activation_id)))
            .push(("pane_id"@, JsonView::Text(delivery.pane_id)))
            .push(("allocation_generation"@, JsonView::Unsigned(delivery.allocation_generation)))
            .push(("role"@, JsonView::Text(delivery.role)))
            .push(("message_id"@, option_text(delivery.message_id)))
            .push(("payload_hash"@, JsonView::Text(delivery.payload_hash)))
            .push(("reason"@, JsonView::Text(delivery.reason))),
    )
}

/// The delivery that input would begin, as the event with the given number.
pub open spec fn delivery_to_start(
    pane: Option<StoredPaneView>,
    activation_id: Seq<char>,
    pane_id: Seq<char>,
    role: Seq<char>,
    message_id: Option<Seq<char>>,
    text: Seq<char>,
    sequence: u64,
) -> Result<AmbiguousDeliveryView, FailureView> {
    if pane is Some && pane->Some_0.pane_id == pane_id {
        Ok(
            AmbiguousDeliveryView {
                activation_id,
                pane_id,
                allocation_generation: pane->Some_0.allocation_generation,
                role,
                message_id,
                payload_hash: payload_hash(text),
                started_event_sequence: sequence,
                reason: "submission_receipt_incomplete"@,
            },
        )
    } else {
        Err(
            FailureView::plain(
                "pane_not_owned"@,
                "input delivery requires the exact current pane allocation"@,
            ),
        )
    }
}

/// The delivery that input begins, where `pane` is what the activation owns. It is begun with
/// the event of `start_event`, which has the given number.
pub fn start_input_delivery_with_message(
    pane: Option<&StoredPane>,
    activation_id: &str,
    pane_id: &str,
    role: &str,
    message_id: Option<&str>,
    text: &str,
    sequence: u64,
) -> (r: Result<AmbiguousDelivery, DriverFailure>)
    ensures
        result_of(r) == delivery_to_start(
            pane.deep_view(),
            activation_id@,
            pane_id@,
            role@,
            message_id.deep_view(),
            text@,
            sequence,
        ),
{
    match pane {
        Some(pane) if same(pane.pane_id.as_str(), pane_id) => Ok(
            AmbiguousDelivery {
                activation_id: activation_id.to_string(),
                pane_id: pane_id.to_string(),
                allocation_generation: pane.allocation_generation,
                role: role.to_string(),
                message_id: owned(message_id),
                payload_hash: machine_input_payload_hash(text),
                started_event_sequence: sequence,
                reason: "submission_receipt_incomplete".to_string(),
            },
        ),
        _ => Err(
            DriverFailure::new(
                "pane_not_owned",
                "input delivery requires the exact current pane allocation",
            ),
        ),
    }
}

/// The event that a delivery is begun with.
pub fn start_event(delivery: &AmbiguousDelivery) -> (r: PlannedEvent)
    ensures
        r.deep_view() == (PlannedEventView {
            kind: "input_delivery_started"@,
            payload: start_payload(delivery.deep_view()),
        }),
{
    PlannedEvent {
        kind: "input_delivery_started",
        payload: Fields::new()
            .put("activation_id", Json::text(delivery.activation_id.as_str()))
            .put("pane_id", Json::text(delivery.pane_id.as_str()))
            .put("allocation_generation", Json::Unsigned(delivery.allocation_generation))
            .put("role", Json::text(delivery.role.as_str()))
            .put("message_id", option_text_json(&delivery.message_id))
            .put("payload_hash", Json::text(delivery.payload_hash.as_str()))
            .put("reason", Json::text(delivery.reason.as_str()))
            .done(),
    }
}

/// The kind of event that tells of the arrival of input.
pub open spec fn arrival_kind(role: Seq<char>) -> Option<Seq<char>> {
    if role == DELIVERY_ROLE_AGENT_LAUNCH@ {
        Some("agent_launch_submitted"@)
    } else if role == DELIVERY_ROLE_NODE_PROMPT@ {
        Some("prompt_submitted"@)
    } else if role == DELIVERY_ROLE_PARTICIPANT_MESSAGE@ {
        Some("participant_message_submitted"@)
    } else {
        None
    }
}

/// The event that tells of the arrival of input.
pub open spec fn arrival_payload(
    details: JsonView,
    delivery: AmbiguousDeliveryView,
    activation_id: Seq<char>,
    message_id: Option<Seq<char>>,
) -> JsonView {
    let named = with_field(details, "activation_id"@, JsonView::Text(activation_id));
    let with_message = match message_id {
        Some(message_id) => with_field(named, "message_id"@, JsonView::Text(message_id)),
        None => named,
    };
    with_field(
        with_field(
            with_message,
            "started_event_sequence"@,
            JsonView::Unsigned(delivery.started_event_sequence),
        ),
        "allocation_generation"@,
        JsonView::Unsigned(delivery.allocation_generation),
    )
}

/// The event with which input arrives; there is none for input that was not begun.
pub open spec fn arrival_event(
    deliveries: DeliveriesView,
    activation_id: Seq<char>,
    role: Seq<char>,
    message_id: Option<Seq<char>>,
    generation: u64,
    details: JsonView,
) -> Result<PlannedEventView, FailureView> {
    let key = key_of(activation_id, role, message_id, generation);
    match arrival_kind(role) {
        None => Err(FailureView::plain("malformed_request"@, "unknown input delivery role"@)),
        Some(kind) => if deliveries.ambiguous.dom().contains(key) {
            Ok(
                PlannedEventView {
                    kind,
                    payload: arrival_payload(
                        details,
                        deliveries.ambiguous[key],
                        activation_id,
                        message_id,
                    ),
                },
            )
        } else {
            Err(
                FailureView::plain(
                    "delivery_barrier_conflict"@,
                    "input submission does not match an active ambiguity barrier"@,
                ),
            )
        },
    }
}

impl Deliveries {
    /// The event with which input arrives.
    pub fn finish_event(
        &self,
        activation_id: &str,
        role: &str,
        message_id: Option<&str>,
        allocation_generation: u64,
        details: Json,
    ) -> (r: Result<PlannedEvent, DriverFailure>)
        ensures
            result_of(r) == arrival_event(
                self.deep_view(),
                activation_id@,
                role@,
                message_id.deep_view(),
                allocation_generation,
                details@,
            ),
    {
        let kind = if same(role, DELIVERY_ROLE_AGENT_LAUNCH) {
            "agent_launch_submitted"
        } else if same(role, DELIVERY_ROLE_NODE_PROMPT) {
            "prompt_submitted"
        } else if same(role, DELIVERY_ROLE_PARTICIPANT_MESSAGE) {
            "participant_message_submitted"
        } else {
            return Err(DriverFailure::new("malformed_request", "unknown input delivery role"));
        };
        let key = delivery_key(activation_id, role, message_id, allocation_generation);
        match self.ambiguous.get(&key) {
            None => Err(
                DriverFailure::new(
                    "delivery_barrier_conflict",
                    "input submission does not match an active ambiguity barrier",
                ),
            ),
            Some(delivery) => {
                let named = details.with("activation_id", Json::text(activation_id));
                let with_message = match message_id {
                    Some(message_id) => named.with("message_id", Json::text(message_id)),
                    None => named,
                };
                let payload = with_message.with(
                    "started_event_sequence",
                    Json::Unsigned(delivery.started_event_sequence),
                ).with(
                    "allocation_generation",
                    Json::Unsigned(delivery.allocation_generation),
                );
                Ok(PlannedEvent { kind, payload })
            },
        }
    }

    /// Takes down that input arrived, once its event is written.
    pub fn finish_input_delivery(
        &mut self,
        activation_id: &str,
        role: &str,
        message_id: Option<&str>,
        allocation_generation: u64,
    )
        ensures
            final(self).deep_view() == old(self).deep_view().finished(
                activation_id@,
                role@,
                message_id.deep_view(),
                allocation_generation,
            ),
    {
        let key = delivery_key(activation_id, role, message_id, allocation_generation);
        self.arrive(key);
        if same(role, DELIVERY_ROLE_AGENT_LAUNCH) {
            self.launch(activation_id, allocation_generation);
        } else if same(role, DELIVERY_ROLE_NODE_PROMPT) {
            self.launch(activation_id, allocation_generation);
            self.settle(activation_id, allocation_generation);
        }
    }
}

/// A word on what became of input that may have arrived.
#[derive(Debug)]
pub struct InputDeliveryResolution {
    started_event_sequence: u64,
    submitted: bool,
    evidence: String,
}

#[verifier::ext_equal]
pub struct ResolutionView {
    pub started_event_sequence: u64,
    pub submitted: bool,
    pub evidence: Seq<char>,
}

impl DeepView for InputDeliveryResolution {
    type V = ResolutionView;

    closed spec fn deep_view(&self) -> ResolutionView {
        ResolutionView {
            started_event_sequence: self.started_event_sequence,
            submitted: self.submitted,
            evidence: self.evidence@,
        }
    }
}

impl ResolutionView {
    pub open spec fn outcome(self) -> Seq<char> {
        if self.submitted {
            "submitted"@
        } else {
            "not_submitted"@
        }
    }
}

/// The word on input in a request, where there is one.
pub open spec fn resolution_in(request: JsonView) -> Result<Option<ResolutionView>, FailureView> {
    match either_field(request, "delivery_resolution"@, "deliveryResolution"@) {
        None => Ok(None),
        Some(value) => if value !is Record {
            Err(
                FailureView::plain(
                    "malformed_request"@,
                    "delivery_resolution must be an object"@,
                ),
            )
        } else {
            match either_field(value, "started_event_sequence"@, "startedEventSequence"@) {
                Some(JsonView::Unsigned(sequence)) => if sequence == 0 {
                    Err(bad_sequence())
                } else {
                    match demanded(value, "outcome"@) {
                        Err(failure) => Err(failure),
                        Ok(outcome) => if outcome != "submitted"@ && outcome != "not_submitted"@ {
                            Err(bad_outcome())
                        } else {
                            match demanded(value, "evidence"@) {
                                Err(failure) => Err(failure),
                                Ok(evidence) => if trimmed(evidence).len() == 0 {
                                    Err(
                                        FailureView::plain(
                                            "malformed_request"@,
                                            "delivery resolution evidence must be non-empty"@,
                                        ),
                                    )
                                } else {
                                    Ok(
                                        Some(
                                            ResolutionView {
                                                started_event_sequence: sequence,
                                                submitted: outcome == "submitted"@,
                                                evidence: trimmed(evidence),
                                            },
                                        ),
                                    )
                                },
                            }
                        },
                    }
                },
                _ => Err(bad_sequence()),
            }
        },
    }
}

pub open spec fn bad_sequence() -> FailureView {
    FailureView::plain(
        "malformed_request"@,
        "delivery resolution started_event_sequence must be a positive integer"@,
    )
}

pub open spec fn bad_outcome() -> FailureView {
    FailureView::plain(
        "malformed_request"@,
        "delivery resolution outcome must be submitted or not_submitted"@,
    )
}

pub fn input_delivery_resolution_from_request(request: &Json) -> (r: Result<
    Option<InputDeliveryResolution>,
    DriverFailure,
>)
    ensures
        result_of(r) == resolution_in(request@),
{
    let value = match get_either(request, "delivery_resolution", "deliveryResolution") {
        None => return Ok(None),
        Some(value) => value,
    };
    if !value.is_record() {
        return Err(
            DriverFailure::new("malformed_request", "delivery_resolution must be an object"),
        );
    }
    let sequence = match get_either(value, "started_event_sequence", "startedEventSequence") {
        Some(Json::Unsigned(n)) if *n > 0 => *n,
        _ => return Err(
            DriverFailure::new(
                "malformed_request",
                "delivery resolution started_event_sequence must be a positive integer",
            ),
        ),
    };
    let outcome = match required_string(value, "outcome") {
        Err(failure) => return Err(failure),
        Ok(outcome) => outcome,
    };
    let submitted = same(outcome, "submitted");
    if !submitted && !same(outcome, "not_submitted") {
        return Err(
            DriverFailure::new(
                "malformed_request",
                "delivery resolution outcome must be submitted or not_submitted",
            ),
        );
    }
    let evidence = match required_string(value, "evidence") {
        Err(failure) => return Err(failure),
        Ok(evidence) => trim(evidence),
    };
    if evidence.is_empty() {
        return Err(
            DriverFailure::new(
                "malformed_request",
                "delivery resolution evidence must be non-empty",
            ),
        );
    }
    Ok(
        Some(
            InputDeliveryResolution {
                started_event_sequence: sequence,
                submitted,
                evidence: evidence.to_string(),
            },
        ),
    )
}

/// The deliveries among pairs that were begun with the given event.
pub open spec fn begun_at(
    pairs: Seq<(DeliveryKeyView, AmbiguousDeliveryView)>,
    sequence: u64,
) -> Seq<AmbiguousDeliveryView>
    decreases pairs.len(),
{
    if pairs.len() == 0 {
        Seq::empty()
    } else {
        let front = begun_at(pairs.drop_last(), sequence);
        if pairs.last().1.started_event_sequence == sequence {
            front.push(pairs.last().1)
        } else {
            front
        }
    }
}

/// The events with which the deliveries among pairs were begun.
pub open spec fn sequences_of(pairs: Seq<(DeliveryKeyView, AmbiguousDeliveryView)>) -> JsonView {
    JsonView::List(
        Seq::new(pairs.len(), |i: int| JsonView::Unsigned(pairs[i].1.started_event_sequence)),
    )
}

/// What is told where a word on input fits no delivery.
pub open spec fn unresolved(
    pairs: Seq<(DeliveryKeyView, AmbiguousDeliveryView)>,
    sequence: u64,
) -> FailureView {
    FailureView {
        extra: JsonView::Record(
            no_fields()
                .push(("started_event_sequence"@, JsonView::Unsigned(sequence)))
                .push(("active_started_event_sequences"@, sequences_of(pairs))),
        ),
        ..FailureView::plain(
            "delivery_barrier_conflict"@,
            "delivery resolution does not match an active ambiguity barrier"@,
        )
    }
}

/// The delivery that a word on input is about: the only one that was begun with the event.
pub open spec fn delivery_meant(
    pairs: Seq<(DeliveryKeyView, AmbiguousDeliveryView)>,
    sequence: u64,
) -> Result<AmbiguousDeliveryView, FailureView> {
    if begun_at(pairs, sequence).len() == 1 {
        Ok(begun_at(pairs, sequence)[0])
    } else {
        Err(unresolved(pairs, sequence))
    }
}

/// The event that takes a word on input down.
pub open spec fn resolution_event(
    deliveries: DeliveriesView,
    delivery: AmbiguousDeliveryView,
    resolution: ResolutionView,
) -> Result<PlannedEventView, FailureView> {
    if resolution.submitted {
        arrival_event(
            deliveries,
            delivery.activation_id,
            delivery.role,
            delivery.message_id,
            delivery.allocation_generation,
            JsonView::Record(
                no_fields()
                    .push(("pane_id"@, JsonView::Text(delivery.pane_id)))
                    .push(("resolution"@, JsonView::Text("submitted"@)))
                    .push(("evidence"@, JsonView::Text(resolution.evidence))),
            ),
        )
    } else {
        Ok(
            PlannedEventView {
                kind: "input_delivery_not_submitted"@,
                payload: JsonView::Record(
                    no_fields()
                        .push(("activation_id"@, JsonView::Text(delivery.activation_id)))
                        .push(("pane_id"@, JsonView::Text(delivery.pane_id)))
                        .push(("allocation_generation"@, JsonView::Unsigned(
                            delivery.allocation_generation,
                        )))
                        .push(("role"@, JsonView::Text(delivery.role)))
                        .push(("message_id"@, option_text(delivery.message_id)))
                        .push(("started_event_sequence"@, JsonView::Unsigned(
                            delivery.started_event_sequence,
                        )))
                        .push(("evidence"@, JsonView::Text(resolution.evidence))),
                ),
            },
        )
    }
}

/// What a word on input changes.
pub open spec fn resolved(
    deliveries: DeliveriesView,
    delivery: AmbiguousDeliveryView,
    resolution: ResolutionView,
) -> DeliveriesView {
    if resolution.submitted {
        deliveries.finished(
            delivery.activation_id,
            delivery.role,
            delivery.message_id,
            delivery.allocation_generation,
        )
    } else {
        deliveries.dropped(delivery.key())
    }
}

/// What is told of a word on input.
pub open spec fn resolution_report(
    delivery: AmbiguousDeliveryView,
    resolution: ResolutionView,
) -> JsonView {
    JsonView::Record(
        no_fields()
            .push(("started_event_sequence"@, JsonView::Unsigned(delivery.started_event_sequence)))
            .push(("activation_id"@, JsonView::Text(delivery.activation_id)))
            .push(("role"@, JsonView::Text(delivery.role)))
            .push(("message_id"@, option_text(delivery.message_id)))
            .push(("outcome"@, JsonView::Text(resolution.outcome())))
            .push(("evidence"@, JsonView::Text(resolution.evidence))),
    )
}

impl InputDeliveryResolution {
    pub fn report(&self, delivery: &AmbiguousDelivery) -> (r: Json)
        ensures
            r@ == resolution_report(delivery.deep_view(), self.deep_view()),
    {
        let outcome = if self.submitted {
            "submitted"
        } else {
            "not_submitted"
        };
        Fields::new()
            .put("started_event_sequence", Json::Unsigned(delivery.started_event_sequence))
            .put("activation_id", Json::text(delivery.activation_id.as_str()))
            .put("role", Json::text(delivery.role.as_str()))
            .put("message_id", option_text_json(&delivery.message_id))
            .put("outcome", Json::text(outcome))
            .put("evidence", Json::text(self.evidence.as_str()))
            .done()
    }
}

impl Deliveries {
    /// The delivery that a word on input is about.
    pub fn delivery_for_resolution(&self, resolution: &InputDeliveryResolution) -> (r: Result<
        AmbiguousDelivery,
        DriverFailure,
    >)
        ensures
            result_of(r) == delivery_meant(
                self.ambiguous.pairs(),
                resolution.deep_view().started_event_sequence,
            ),
    {
        let sequence = resolution.started_event_sequence;
        let n: usize = self.ambiguous.len();
        let ghost pairs = self.ambiguous.pairs();
        let mut found: Vec<AmbiguousDelivery> = Vec::new();
        let mut active: Vec<Json> = Vec::new();
        let mut i: usize = 0;
        assert(pairs.take(0) =~= Seq::<(DeliveryKeyView, AmbiguousDeliveryView)>::empty());
        assert(found.deep_view() =~= Seq::<AmbiguousDeliveryView>::empty());
        while i < n
            invariant
                i <= n,
                pairs == self.ambiguous.pairs(),
                n == pairs.len(),
                found.deep_view() == begun_at(pairs.take(i as int), sequence),
                active.len() == i,
                forall|j: int|
                    0 <= j < i ==> (#[trigger] active@[j])@ == JsonView::Unsigned(
                        pairs[j].1.started_event_sequence,
                    ),
            decreases n - i,
        {
            assert(pairs.take(i + 1).drop_last() =~= pairs.take(i as int));
            assert(pairs.take(i + 1).last() == pairs[i as int]);
            let delivery = self.ambiguous.value_at(i);
            active.push(Json::Unsigned(delivery.started_event_sequence));
            if delivery.started_event_sequence == sequence {
                let ghost before = found.deep_view();
                found.push(delivery.clone());
                assert(found.deep_view() =~= before.push(pairs[i as int].1));
            }
            i += 1;
        }
        assert(pairs.take(n as int) =~= pairs);
        if found.len() == 1 {
            assert(found.deep_view()[0] == found@[0].deep_view());
            return Ok(found[0].clone());
        }
        let listed = Json::list(active);
        assert(listed@->List_0 =~= sequences_of(pairs)->List_0);
        Err(
            DriverFailure::new(
                "delivery_barrier_conflict",
                "delivery resolution does not match an active ambiguity barrier",
            ).with_extra(
                Fields::new()
                    .put("started_event_sequence", Json::Unsigned(sequence))
                    .put("active_started_event_sequences", listed)
                    .done(),
            ),
        )
    }

    /// The event that takes a word on input down.
    pub fn plan_resolution(
        &self,
        delivery: &AmbiguousDelivery,
        resolution: &InputDeliveryResolution,
    ) -> (r: Result<PlannedEvent, DriverFailure>)
        ensures
            result_of(r) == resolution_event(
                self.deep_view(),
                delivery.deep_view(),
                resolution.deep_view(),
            ),
    {
        if resolution.submitted {
            let details = Fields::new()
                .put("pane_id", Json::text(delivery.pane_id.as_str()))
                .put("resolution", Json::text("submitted"))
                .put("evidence", Json::text(resolution.evidence.as_str()))
                .done();
            self.finish_event(
                delivery.activation_id.as_str(),
                delivery.role.as_str(),
                borrowed(&delivery.message_id),
                delivery.allocation_generation,
                details,
            )
        } else {
            Ok(
                PlannedEvent {
                    kind: "input_delivery_not_submitted",
                    payload: Fields::new()
                        .put("activation_id", Json::text(delivery.activation_id.as_str()))
                        .put("pane_id", Json::text(delivery.pane_id.as_str()))
                        .put(
                            "allocation_generation",
                            Json::Unsigned(delivery.allocation_generation),
                        )
                        .put("role", Json::text(delivery.role.as_str()))
                        .put("message_id", option_text_json(&delivery.message_id))
                        .put(
                            "started_event_sequence",
                            Json::Unsigned(delivery.started_event_sequence),
                        )
                        .put("evidence", Json::text(resolution.evidence.as_str()))
                        .done(),
                },
            )
        }
    }

    /// Takes a word on input down, once its event is written.
    pub fn resolve_input_delivery(
        &mut self,
        delivery: &AmbiguousDelivery,
        resolution: &InputDeliveryResolution,
    )
        ensures
            final(self).deep_view() == resolved(
                old(self).deep_view(),
                delivery.deep_view(),
                resolution.deep_view(),
            ),
    {
        if resolution.submitted {
            self.finish_input_delivery(
                delivery.activation_id.as_str(),
                delivery.role.as_str(),
                borrowed(&delivery.message_id),
                delivery.allocation_generation,
            );
        } else {
            self.drop_delivery(&delivery.key());
        }
    }
}

/// The warning of input that may have arrived.
pub open spec fn delivery_warning(
    delivery: AmbiguousDeliveryView,
    node_id: Seq<char>,
    driver: Seq<char>,
) -> JsonView {
    with_field(
        with_field(
            with_field(delivery.json(), "node_id"@, JsonView::Text(node_id)),
            "driver"@,
            JsonView::Text(driver),
        ),
        "message"@,
        JsonView::Text(
            "delivery may have reached the receiver; explicit resolution is required before retry"@,
        ),
    )
}

pub fn ambiguous_delivery_warning(delivery: &AmbiguousDelivery, node_id: &str, driver: &str) -> (r:
    Json)
    ensures
        r@ == delivery_warning(delivery.deep_view(), node_id@, driver@),
{
    delivery.to_json().with("node_id", Json::text(node_id)).with(
        "driver",
        Json::text(driver),
    ).with(
        "message",
        Json::text(
            "delivery may have reached the receiver; explicit resolution is required before retry",
        ),
    )
}

/// The barriers that a pane leaves behind when it goes: input that arrived there may have had
/// its effect, and is not repeated in another pane on its own.
pub open spec fn barrier_payload(delivery: SubmittedDeliveryView) -> JsonView {
    JsonView::Record(
        no_fields()
            .push(("activation_id"@, JsonView::Text(delivery.activation_id)))
            .push(("pane_id"@, JsonView::Text(delivery.pane_id)))
            .push(("allocation_generation"@, JsonView::Unsigned(delivery.allocation_generation)))
            .push(("role"@, JsonView::Text(delivery.role)))
            .push(("payload_hash"@, JsonView::Text(delivery.payload_hash)))
            .push(("started_event_sequence"@, JsonView::Unsigned(delivery.started_event_sequence)))
            .push(("reason"@, JsonView::Text("pane_released_after_submission"@))),
    )
}

/// The barrier of one role that a pane leaves behind, where there is one.
pub open spec fn role_barrier(
    deliveries: DeliveriesView,
    activation_id: Seq<char>,
    role: Seq<char>,
    generation: u64,
) -> Seq<JsonView> {
    let key = key_of(activation_id, role, None, generation);
    if !deliveries.ambiguous.dom().contains(key) && deliveries.submitted.dom().contains(key) {
        Seq::<JsonView>::empty().push(barrier_payload(deliveries.submitted[key]))
    } else {
        Seq::empty()
    }
}

/// The barriers that a pane leaves behind.
pub open spec fn pane_barriers(
    deliveries: DeliveriesView,
    activation_id: Seq<char>,
    generation: u64,
) -> Seq<JsonView> {
    role_barrier(deliveries, activation_id, DELIVERY_ROLE_AGENT_LAUNCH@, generation)
        + role_barrier(deliveries, activation_id, DELIVERY_ROLE_NODE_PROMPT@, generation)
}

/// The barriers that the panes of activations leave behind.
pub open spec fn barriers_of(
    deliveries: DeliveriesView,
    panes: Map<Seq<char>, StoredPaneView>,
    activation_ids: Seq<Seq<char>>,
) -> Seq<JsonView>
    decreases activation_ids.len(),
{
    if activation_ids.len() == 0 {
        Seq::empty()
    } else {
        let front = barriers_of(deliveries, panes, activation_ids.drop_last());
        let id = activation_ids.last();
        if panes.dom().contains(id) {
            front + pane_barriers(deliveries, id, panes[id].allocation_generation)
        } else {
            front
        }
    }
}

impl Deliveries {
    fn push_barrier(&self, activation_id: &str, role: &str, generation: u64, out: &mut Vec<Json>)
        ensures
            final(out).deep_view() == old(out).deep_view() + role_barrier(
                self.deep_view(),
                activation_id@,
                role@,
                generation,
            ),
    {
        let key = delivery_key(activation_id, role, None, generation);
        let ghost before = out.deep_view();
        if !self.ambiguous.contains_key(&key) {
            match self.submitted.get(&key) {
                Some(delivery) => {
                    out.push(
                        Fields::new()
                            .put("activation_id", Json::text(delivery.activation_id.as_str()))
                            .put("pane_id", Json::text(delivery.pane_id.as_str()))
                            .put(
                                "allocation_generation",
                                Json::Unsigned(delivery.allocation_generation),
                            )
                            .put("role", Json::text(delivery.role.as_str()))
                            .put("payload_hash", Json::text(delivery.payload_hash.as_str()))
                            .put(
                                "started_event_sequence",
                                Json::Unsigned(delivery.started_event_sequence),
                            )
                            .put("reason", Json::text("pane_released_after_submission"))
                            .done(),
                    );
                    assert(out.deep_view() =~= before + Seq::<JsonView>::empty().push(
                        barrier_payload(delivery.deep_view()),
                    ));
                },
                None => {
                    assert(out.deep_view() =~= before + Seq::<JsonView>::empty());
                },
            }
        } else {
            assert(out.deep_view() =~= before + Seq::<JsonView>::empty());
        }
    }

    /// The barriers that the panes of activations leave behind.
    pub fn released_delivery_barriers(
        &self,
        panes: &Table<String, StoredPane>,
        activation_ids: &Vec<String>,
    ) -> (r: Vec<Json>)
        ensures
            r.deep_view() == barriers_of(
                self.deep_view(),
                panes.deep_view(),
                activation_ids.deep_view(),
            ),
    {
        let mut out: Vec<Json> = Vec::new();
        let ghost model = activation_ids.deep_view();
        let mut i: usize = 0;
        assert(model.take(0) =~= Seq::<Seq<char>>::empty());
        assert(out.deep_view() =~= Seq::<JsonView>::empty());
        while i < activation_ids.len()
            invariant
                i <= activation_ids.len(),
                model == activation_ids.deep_view(),
                out.deep_view() == barriers_of(
                    self.deep_view(),
                    panes.deep_view(),
                    model.take(i as int),
                ),
            decreases activation_ids.len() - i,
        {
            assert(model.take(i + 1).drop_last() =~= model.take(i as int));
            assert(model.take(i + 1).last() == activation_ids@[i as int]@);
            match panes.get(&activation_ids[i]) {
                Some(pane) => {
                    let ghost before = out.deep_view();
                    let generation = pane.allocation_generation;
                    let id = activation_ids[i].as_str();
                    self.push_barrier(id, DELIVERY_ROLE_AGENT_LAUNCH, generation, &mut out);
                    self.push_barrier(id, DELIVERY_ROLE_NODE_PROMPT, generation, &mut out);
                    assert(out.deep_view() =~= before + pane_barriers(
                        self.deep_view(),
                        id@,
                        generation,
                    ));
                },
                None => {},
            }
            i += 1;
        }
        assert(model.take(i as int) =~= model);
        out
    }
}

/// What the barriers change: input that arrived counts as not known to have.
pub open spec fn barred(
    deliveries: DeliveriesView,
    barriers: Seq<JsonView>,
    sequence: u64,
) -> DeliveriesView
    decreases barriers.len(),
{
    if barriers.len() == 0 {
        deliveries
    } else {
        let front = barred(deliveries, barriers.drop_last(), sequence);
        match AmbiguousDeliveryView::told(barriers.last(), sequence) {
            Some(delivery) => front.begun(delivery),
            None => front,
        }
    }
}

impl DeliveriesView {
    /// A barrier goes up, unless one is up already.
    pub open spec fn barrier_up(self, delivery: AmbiguousDeliveryView) -> DeliveriesView {
        if self.ambiguous.dom().contains(delivery.key()) {
            DeliveriesView { submitted: self.submitted.remove(delivery.key()), ..self }
        } else {
            self.begun(delivery)
        }
    }
}

/// What the barriers change where those that are up already stay.
pub open spec fn barriers_up(
    deliveries: DeliveriesView,
    barriers: Seq<JsonView>,
    sequence: u64,
) -> DeliveriesView
    decreases barriers.len(),
{
    if barriers.len() == 0 {
        deliveries
    } else {
        let front = barriers_up(deliveries, barriers.drop_last(), sequence);
        match AmbiguousDeliveryView::told(barriers.last(), sequence) {
            Some(delivery) => front.barrier_up(delivery),
            None => front,
        }
    }
}

impl Deliveries {
    /// Puts barriers up in place of those that are up, as the event with the given number tells.
    pub fn bar(&mut self, barriers: &Vec<Json>, event_sequence: u64)
        ensures
            final(self).deep_view() == barred(
                old(self).deep_view(),
                barriers.deep_view(),
                event_sequence,
            ),
    {
        let ghost start = self.deep_view();
        let ghost model = barriers.deep_view();
        let mut i: usize = 0;
        assert(model.take(0) =~= Seq::<JsonView>::empty());
        while i < barriers.len()
            invariant
                i <= barriers.len(),
                model == barriers.deep_view(),
                self.deep_view() == barred(start, model.take(i as int), event_sequence),
            decreases barriers.len() - i,
        {
            assert(model.take(i + 1).drop_last() =~= model.take(i as int));
            assert(model.take(i + 1).last() == barriers@[i as int]@);
            match AmbiguousDelivery::from_payload(&barriers[i], event_sequence) {
                Some(delivery) => {
                    self.begin(delivery);
                },
                None => {},
            }
            i += 1;
        }
        assert(model.take(i as int) =~= model);
    }

    /// Puts barriers up where none are up, with the number of the event that tells of them.
    pub fn install_released_delivery_barriers(&mut self, barriers: &Vec<Json>, event_sequence: u64)
        ensures
            final(self).deep_view() == barriers_up(
                old(self).deep_view(),
                barriers.deep_view(),
                event_sequence,
            ),
    {
        let ghost start = self.deep_view();
        let ghost model = barriers.deep_view();
        let mut i: usize = 0;
        assert(model.take(0) =~= Seq::<JsonView>::empty());
        while i < barriers.len()
            invariant
                i <= barriers.len(),
                model == barriers.deep_view(),
                self.deep_view() == barriers_up(start, model.take(i as int), event_sequence),
            decreases barriers.len() - i,
        {
            assert(model.take(i + 1).drop_last() =~= model.take(i as int));
            assert(model.take(i + 1).last() == barriers@[i as int]@);
            match AmbiguousDelivery::from_payload(&barriers[i], event_sequence) {
                Some(delivery) => {
                    let key = delivery.key();
                    if self.ambiguous.contains_key(&key) {
                        let _ = self.submitted.remove(&key);
                    } else {
                        self.begin(delivery);
                    }
                },
                None => {},
            }
            i += 1;
        }
        assert(model.take(i as int) =~= model);
    }
}

/// Every step keeps input apart that arrived and input that may have.
pub proof fn lemma_deliveries_stay_disjoint(
    deliveries: DeliveriesView,
    delivery: AmbiguousDeliveryView,
    key: DeliveryKeyView,
    activation_id: Seq<char>,
    role: Seq<char>,
    message_id: Option<Seq<char>>,
    generation: u64,
)
    requires
        deliveries.disjoint(),
    ensures
        DeliveriesView::none().disjoint(),
        deliveries.begun(delivery).disjoint(),
        deliveries.dropped(key).disjoint(),
        deliveries.arrived(key).disjoint(),
        deliveries.finished(activation_id, role, message_id, generation).disjoint(),
{
}

/// Barriers keep them apart too.
pub proof fn lemma_barriers_stay_disjoint(
    deliveries: DeliveriesView,
    barriers: Seq<JsonView>,
    sequence: u64,
)
    requires
        deliveries.disjoint(),
    ensures
        barred(deliveries, barriers, sequence).disjoint(),
        barriers_up(deliveries, barriers, sequence).disjoint(),
    decreases barriers.len(),
{
    if barriers.len() > 0 {
        lemma_barriers_stay_disjoint(deliveries, barriers.drop_last(), sequence);
    }
}

} // verus!
