//! The state of the driver, as the events that it has written down tell it.
use vstd::prelude::*;

use crate::adapters::tmux::pipe::{PipeDescriptorView, TmuxPipeCaptureDescriptor};
use crate::flow::export::{order_fields, ordered};
use crate::json::{
    compact, field, items_field, json_compact, no_fields, text_field, text_of, unsigned_field,
    value_of, Fields, Json, JsonView,
};
use crate::order::Comparable;
use crate::split::{components, join_path, path_components, path_joined, Component};
use crate::table::Table;
use crate::text::same;

use super::delivery::{
    barred, unsigned_at_or, unsigned_or, AmbiguousDelivery, AmbiguousDeliveryView, Deliveries,
    DeliveriesView, DELIVERY_ROLE_AGENT_LAUNCH, DELIVERY_ROLE_NODE_PROMPT,
    DELIVERY_ROLE_PARTICIPANT_MESSAGE,
};
use super::keys::{
    allocation_key, delivery_key, key_of, without_activation, AllocationKey, AllocationKeyView,
    DeliveryKey, DeliveryKeyView,
};
use super::fields::{arrange, arranged};
use super::records::{
    descriptor_of, read_descriptor, DriverTmuxActuationConfig, DriverTmuxActuationConfigView,
    ParticipantBinding, ParticipantBindingView, StoredPane, StoredPaneView,
    TmuxPaneAllocationIntent, TmuxPaneAllocationIntentView, TmuxPaneCleanupIntent,
    TmuxPaneCleanupIntentView, TmuxPipeCaptureIntent, TmuxPipeCaptureIntentView,
};

verus! {

broadcast use vstd::string::group_string_axioms;

/// An event that the driver has written down.
#[derive(Debug)]
pub struct DriverDurableEvent {
    pub seq: u64,
    pub at_ms: u64,
    pub kind: String,
    pub payload: Json,
}

#[verifier::ext_equal]
pub struct DriverEventView {
    pub seq: u64,
    pub at_ms: u64,
    pub kind: Seq<char>,
    pub payload: JsonView,
}

impl DeepView for DriverDurableEvent {
    type V = DriverEventView;

    open spec fn deep_view(&self) -> DriverEventView {
        DriverEventView {
            seq: self.seq,
            at_ms: self.at_ms,
            kind: self.kind@,
            payload: self.payload@,
        }
    }
}

impl DriverEventView {
    /// How an event is stored.
    pub open spec fn json(self) -> JsonView {
        JsonView::Record(
            no_fields()
                .push(("seq"@, JsonView::Unsigned(self.seq)))
                .push(("at_ms"@, JsonView::Unsigned(self.at_ms)))
                .push(("kind"@, JsonView::Text(self.kind)))
                .push(("payload"@, ordered(self.payload))),
        )
    }

    /// The line that holds an event.
    pub open spec fn line(self) -> Seq<char> {
        json_compact(value_of(self.json()))
    }

    /// The fields in their order.
    pub open spec fn names() -> Seq<Seq<char>> {
        seq!["seq"@, "at_ms"@, "kind"@, "payload"@]
    }

    /// How an event is read, from an object or from a list; nothing where a field does not
    /// fit.
    pub open spec fn read(value: JsonView) -> Option<DriverEventView> {
        DriverEventView::read_record(arranged(value, DriverEventView::names(), 4))
    }

    /// How an event is read from an object.
    pub open spec fn read_record(value: JsonView) -> Option<DriverEventView> {
        if value is Record && unsigned_field(value, "seq"@) is Some && unsigned_field(
            value,
            "at_ms"@,
        ) is Some && text_field(value, "kind"@) is Some && field(value, "payload"@) is Some {
            Some(
                DriverEventView {
                    seq: unsigned_field(value, "seq"@)->Some_0,
                    at_ms: unsigned_field(value, "at_ms"@)->Some_0,
                    kind: text_field(value, "kind"@)->Some_0,
                    payload: field(value, "payload"@)->Some_0,
                },
            )
        } else {
            None
        }
    }
}

impl DriverDurableEvent {
    pub fn to_line(&self) -> (r: String)
        ensures
            r@ == self.deep_view().line(),
    {
        let value = Fields::new()
            .put("seq", Json::Unsigned(self.seq))
            .put("at_ms", Json::Unsigned(self.at_ms))
            .put("kind", Json::text(self.kind.as_str()))
            .put("payload", order_fields(&self.payload))
            .done();
        compact(&value)
    }

    pub fn from_json(value: &Json) -> (r: Option<Self>)
        ensures
            r.deep_view() == DriverEventView::read(value@),
    {
        let names = vec!["seq", "at_ms", "kind", "payload"];
        assert(names.deep_view() =~= DriverEventView::names());
        DriverDurableEvent::from_record(&arrange(value, &names, 4))
    }

    fn from_record(value: &Json) -> (r: Option<Self>)
        ensures
            r.deep_view() == DriverEventView::read_record(value@),
    {
        if !value.is_record() {
            return None;
        }
        let seq = match value.unsigned_at("seq") {
            Some(n) => n,
            None => return None,
        };
        let at_ms = match value.unsigned_at("at_ms") {
            Some(n) => n,
            None => return None,
        };
        let kind = match value.text_at("kind") {
            Some(text) => text.to_string(),
            None => return None,
        };
        let payload = match value.get("payload") {
            Some(item) => item.clone(),
            None => return None,
        };
        Some(DriverDurableEvent { seq, at_ms, kind, payload })
    }
}

/// The window that the panes of a run are in, and the panes.
#[derive(Debug)]
pub struct DriverTmuxState {
    pub session_id: String,
    pub window_name: String,
    pub window_id: String,
    pub agent_command: String,
    pub actuation: DriverTmuxActuationConfig,
    pub panes: Table<String, StoredPane>,
}

#[verifier::ext_equal]
pub struct DriverTmuxStateView {
    pub session_id: Seq<char>,
    pub window_name: Seq<char>,
    pub window_id: Seq<char>,
    pub agent_command: Seq<char>,
    pub actuation: DriverTmuxActuationConfigView,
    pub panes: Map<Seq<char>, StoredPaneView>,
}

impl DeepView for DriverTmuxState {
    type V = DriverTmuxStateView;

    open spec fn deep_view(&self) -> DriverTmuxStateView {
        DriverTmuxStateView {
            session_id: self.session_id@,
            window_name: self.window_name@,
            window_id: self.window_id@,
            agent_command: self.agent_command@,
            actuation: self.actuation.deep_view(),
            panes: self.panes.deep_view(),
        }
    }
}

/// Why events cannot be followed.
#[derive(Debug, Clone, Copy, PartialEq, Eq, Structural)]
pub enum ReplayFault {
    /// A payload does not hold what its event tells of.
    Malformed,
    /// A path leads out of the directory of the run.
    OutsideRoot,
    /// A participant is bound that was not started.
    NotStarted,
}

impl DeepView for ReplayFault {
    type V = ReplayFault;

    open spec fn deep_view(&self) -> ReplayFault {
        *self
    }
}

impl ReplayFault {
    pub open spec fn text(self) -> Seq<char> {
        match self {
            ReplayFault::Malformed => "driver event payload is malformed"@,
            ReplayFault::OutsideRoot => "driver event path is outside run root"@,
            ReplayFault::NotStarted => "participant bound event has no started binding"@,
        }
    }

    pub fn message(self) -> (r: &'static str)
        ensures
            r@ == self.text(),
    {
        match self {
            ReplayFault::Malformed => "driver event payload is malformed",
            ReplayFault::OutsideRoot => "driver event path is outside run root",
            ReplayFault::NotStarted => "participant bound event has no started binding",
        }
    }
}

/// Whether a path stays below the directory that it starts from.
pub open spec fn stays_below(path: Seq<char>) -> bool {
    forall|i: int|
        0 <= i < path_components(path).len() ==> {
            &&& (#[trigger] path_components(path)[i]) !is RootDir
            &&& path_components(path)[i] !is ParentDir
        }
}

/// A path below a directory.
pub fn contained_relative_path(root: &str, relative: &str) -> (r: Result<String, ReplayFault>)
    ensures
        match r {
            Ok(path) => stays_below(relative@) && path@ == path_joined(root@, relative@),
            Err(fault) => !stays_below(relative@) && fault == ReplayFault::OutsideRoot,
        },
{
    let parts = components(relative);
    let ghost model = path_components(relative@);
    let mut i: usize = 0;
    while i < parts.len()
        invariant
            i <= parts.len(),
            parts.deep_view() == model,
            model == path_components(relative@),
            forall|j: int|
                0 <= j < i ==> (#[trigger] model[j]) !is RootDir && model[j] !is ParentDir,
        decreases parts.len() - i,
    {
        assert(model[i as int] == parts@[i as int].deep_view());
        match &parts[i] {
            Component::RootDir => {
                return Err(ReplayFault::OutsideRoot);
            },
            Component::ParentDir => {
                return Err(ReplayFault::OutsideRoot);
            },
            _ => {},
        }
        i += 1;
    }
    Ok(join_path(root, relative))
}

/// The state of the driver.
#[derive(Debug)]
pub struct ReplayedDriverEvents {
    /// The files of the locks that may be used, below the directory of the run.
    pub revisions: Table<String, String>,
    pub tmux: Option<DriverTmuxState>,
    pub operator_pane: Option<StoredPane>,
    pub pipe_captures: Table<String, (u64, TmuxPipeCaptureDescriptor)>,
    pub deliveries: Deliveries,
    pub allocation_generations: Table<String, u64>,
    pub pending_tmux_allocations: Table<String, TmuxPaneAllocationIntent>,
    pub pending_pipe_captures: Table<String, TmuxPipeCaptureIntent>,
    pub pending_tmux_cleanups: Table<String, TmuxPaneCleanupIntent>,
    pub participant_bindings: Table<AllocationKey, ParticipantBinding>,
}

#[verifier::ext_equal]
pub struct DriverStateView {
    pub revisions: Map<Seq<char>, Seq<char>>,
    pub tmux: Option<DriverTmuxStateView>,
    pub operator_pane: Option<StoredPaneView>,
    pub pipe_captures: Map<Seq<char>, (u64, PipeDescriptorView)>,
    pub deliveries: DeliveriesView,
    pub allocation_generations: Map<Seq<char>, u64>,
    pub pending_tmux_allocations: Map<Seq<char>, TmuxPaneAllocationIntentView>,
    pub pending_pipe_captures: Map<Seq<char>, TmuxPipeCaptureIntentView>,
    pub pending_tmux_cleanups: Map<Seq<char>, TmuxPaneCleanupIntentView>,
    pub participant_bindings: Map<AllocationKeyView, ParticipantBindingView>,
}

impl DeepView for ReplayedDriverEvents {
    type V = DriverStateView;

    open spec fn deep_view(&self) -> DriverStateView {
        DriverStateView {
            revisions: self.revisions.deep_view(),
            tmux: self.tmux.deep_view(),
            operator_pane: self.operator_pane.deep_view(),
            pipe_captures: self.pipe_captures.deep_view(),
            deliveries: self.deliveries.deep_view(),
            allocation_generations: self.allocation_generations.deep_view(),
            pending_tmux_allocations: self.pending_tmux_allocations.deep_view(),
            pending_pipe_captures: self.pending_pipe_captures.deep_view(),
            pending_tmux_cleanups: self.pending_tmux_cleanups.deep_view(),
            participant_bindings: self.participant_bindings.deep_view(),
        }
    }
}

/// The texts among values.
pub open spec fn texts_among(items: Seq<JsonView>) -> Seq<Seq<char>>
    decreases items.len(),
{
    if items.len() == 0 {
        Seq::empty()
    } else {
        let front = texts_among(items.drop_last());
        match text_of(items.last()) {
            Some(text) => front.push(text),
            None => front,
        }
    }
}

pub fn collect_texts(items: &Vec<Json>) -> (r: Vec<String>)
    ensures
        r.deep_view() == texts_among(items.deep_view()),
{
    let mut out: Vec<String> = Vec::new();
    let ghost model = items.deep_view();
    let mut i: usize = 0;
    assert(model.take(0) =~= Seq::<JsonView>::empty());
    assert(out.deep_view() =~= Seq::<Seq<char>>::empty());
    while i < items.len()
        invariant
            i <= items.len(),
            model == items.deep_view(),
            out.deep_view() == texts_among(model.take(i as int)),
        decreases items.len() - i,
    {
        assert(model.take(i + 1).drop_last() =~= model.take(i as int));
        assert(model.take(i + 1).last() == items@[i as int]@);
        match items[i].as_str() {
            Some(text) => {
                let ghost before = out.deep_view();
                out.push(text.to_string());
                assert(out.deep_view() =~= before.push(text@));
            },
            None => {},
        }
        i += 1;
    }
    assert(model.take(i as int) =~= model);
    out
}

/// The text in a field, or an empty one.
pub open spec fn text_or_empty(value: JsonView, key: Seq<char>) -> Seq<char> {
    match text_field(value, key) {
        Some(text) => text,
        None => Seq::empty(),
    }
}

fn text_at_or_empty(value: &Json, key: &str) -> (r: String)
    ensures
        r@ == text_or_empty(value@, key@),
{
    match value.text_at(key) {
        Some(text) => text.to_string(),
        None => String::new(),
    }
}

fn text_at_owned(value: &Json, key: &str) -> (r: Option<String>)
    ensures
        r.deep_view() == text_field(value@, key@),
{
    match value.text_at(key) {
        Some(text) => Some(text.to_string()),
        None => None,
    }
}

/// Whether an event on a delivery fits the one that was begun: by the number of the event that
/// began it, which older events do not have.
pub open spec fn fits_delivery(
    deliveries: DeliveriesView,
    key: DeliveryKeyView,
    payload: JsonView,
    may_lack_sequence: bool,
) -> bool {
    match unsigned_field(payload, "started_event_sequence"@) {
        Some(sequence) => deliveries.ambiguous.dom().contains(key)
            && deliveries.ambiguous[key].started_event_sequence == sequence,
        None => may_lack_sequence,
    }
}

pub fn delivery_event_matches(
    deliveries: &Deliveries,
    key: &DeliveryKey,
    payload: &Json,
    allow_missing_sequence: bool,
) -> (r: bool)
    ensures
        r == fits_delivery(
            deliveries.deep_view(),
            key.deep_view(),
            payload@,
            allow_missing_sequence,
        ),
{
    match payload.unsigned_at("started_event_sequence") {
        Some(sequence) => match deliveries.ambiguous.get(key) {
            Some(delivery) => delivery.started_event_sequence == sequence,
            None => false,
        },
        None => allow_missing_sequence,
    }
}

impl DriverStateView {
    pub open spec fn empty() -> DriverStateView {
        DriverStateView {
            revisions: Map::empty(),
            tmux: None,
            operator_pane: None,
            pipe_captures: Map::empty(),
            deliveries: DeliveriesView::none(),
            allocation_generations: Map::empty(),
            pending_tmux_allocations: Map::empty(),
            pending_pipe_captures: Map::empty(),
            pending_tmux_cleanups: Map::empty(),
            participant_bindings: Map::empty(),
        }
    }

    /// The allocation that comes next for an activation.
    pub open spec fn next_generation(self, activation_id: Seq<char>) -> u64 {
        if self.allocation_generations.dom().contains(activation_id) {
            let last = self.allocation_generations[activation_id];
            if last < u64::MAX {
                (last + 1) as u64
            } else {
                last
            }
        } else {
            0
        }
    }

    pub open spec fn capture_started(self, payload: JsonView) -> Result<
        DriverStateView,
        ReplayFault,
    > {
        match (text_field(payload, "activation_id"@), field(payload, "descriptor"@)) {
            (Some(activation_id), Some(descriptor)) => match descriptor_of(descriptor) {
                Some(descriptor) => Ok(
                    DriverStateView {
                        pipe_captures: self.pipe_captures.insert(
                            activation_id,
                            (unsigned_or(payload, "allocation_generation"@, 0), descriptor),
                        ),
                        pending_pipe_captures: self.pending_pipe_captures.remove(activation_id),
                        ..self
                    },
                ),
                None => Err(ReplayFault::Malformed),
            },
            _ => Ok(self),
        }
    }

    pub open spec fn revision_available(self, payload: JsonView) -> Result<
        DriverStateView,
        ReplayFault,
    > {
        match (text_field(payload, "lock_id"@), text_field(payload, "revision_file"@)) {
            (Some(lock_id), Some(revision_file)) => if stays_below(revision_file) {
                Ok(
                    DriverStateView {
                        revisions: self.revisions.insert(lock_id, revision_file),
                        ..self
                    },
                )
            } else {
                Err(ReplayFault::OutsideRoot)
            },
            _ => Ok(self),
        }
    }

    pub open spec fn tmux_bound(self, payload: JsonView) -> Result<DriverStateView, ReplayFault> {
        match DriverTmuxActuationConfigView::read_or_default(payload, "actuation"@) {
            Some(actuation) => Ok(
                DriverStateView {
                    tmux: Some(
                        DriverTmuxStateView {
                            session_id: text_or_empty(payload, "session_id"@),
                            window_name: text_or_empty(payload, "window_name"@),
                            window_id: text_or_empty(payload, "window_id"@),
                            agent_command: text_or_empty(payload, "agent_command"@),
                            actuation,
                            panes: Map::empty(),
                        },
                    ),
                    ..self
                },
            ),
            None => Err(ReplayFault::Malformed),
        }
    }

    /// A pane goes to an activation.
    pub open spec fn with_pane(
        self,
        activation_id: Seq<char>,
        pane: StoredPaneView,
    ) -> DriverStateView {
        DriverStateView {
            tmux: match self.tmux {
                Some(tmux) => Some(
                    DriverTmuxStateView { panes: tmux.panes.insert(activation_id, pane), ..tmux },
                ),
                None => None,
            },
            allocation_generations: self.allocation_generations.insert(
                activation_id,
                pane.allocation_generation,
            ),
            pending_tmux_allocations: self.pending_tmux_allocations.remove(activation_id),
            ..self
        }
    }

    pub open spec fn pane_allocated(self, payload: JsonView) -> Result<
        DriverStateView,
        ReplayFault,
    > {
        match (self.tmux, text_field(payload, "activation_id"@), field(payload, "pane"@)) {
            (Some(_), Some(activation_id), Some(stored)) => match StoredPaneView::read(stored) {
                Some(pane) => Ok(
                    self.with_pane(
                        activation_id,
                        StoredPaneView {
                            allocation_generation: unsigned_or(
                                stored,
                                "allocation_generation"@,
                                self.next_generation(activation_id),
                            ),
                            ..pane
                        },
                    ),
                ),
                None => Err(ReplayFault::Malformed),
            },
            _ => Ok(self),
        }
    }

    pub open spec fn cleanup_done(self, payload: JsonView) -> Result<DriverStateView, ReplayFault> {
        match TmuxPaneCleanupIntentView::read(payload) {
            Some(receipt) => if self.pending_tmux_cleanups.dom().contains(receipt.activation_id)
                && self.pending_tmux_cleanups[receipt.activation_id] == receipt {
                Ok(
                    DriverStateView {
                        pending_tmux_cleanups: self.pending_tmux_cleanups.remove(
                            receipt.activation_id,
                        ),
                        ..self
                    },
                )
            } else {
                Ok(self)
            },
            None => Err(ReplayFault::Malformed),
        }
    }

    /// An activation gives up its pane, and all that went with it.
    pub open spec fn released(self, activation_id: Seq<char>) -> DriverStateView {
        DriverStateView {
            tmux: match self.tmux {
                Some(tmux) => Some(
                    DriverTmuxStateView { panes: tmux.panes.remove(activation_id), ..tmux },
                ),
                None => None,
            },
            pending_tmux_allocations: self.pending_tmux_allocations.remove(activation_id),
            pending_pipe_captures: self.pending_pipe_captures.remove(activation_id),
            pipe_captures: self.pipe_captures.remove(activation_id),
            deliveries: DeliveriesView {
                launched: without_activation(self.deliveries.launched, activation_id),
                settled: without_activation(self.deliveries.settled, activation_id),
                ..self.deliveries
            },
            ..self
        }
    }

    pub open spec fn all_released(self, activation_ids: Seq<Seq<char>>) -> DriverStateView
        decreases activation_ids.len(),
    {
        if activation_ids.len() == 0 {
            self
        } else {
            self.all_released(activation_ids.drop_last()).released(activation_ids.last())
        }
    }

    pub open spec fn panes_released(self, payload: JsonView, sequence: u64) -> DriverStateView {
        match (self.tmux, items_field(payload, "activation_ids"@)) {
            (Some(_), Some(items)) => {
                let after = self.all_released(texts_among(items));
                match items_field(payload, "delivery_barriers"@) {
                    Some(barriers) => DriverStateView {
                        deliveries: barred(after.deliveries, barriers, sequence),
                        ..after
                    },
                    None => after,
                }
            },
            _ => self,
        }
    }

    pub open spec fn delivery_started(self, payload: JsonView, sequence: u64) -> DriverStateView {
        match AmbiguousDeliveryView::told(payload, sequence) {
            Some(delivery) => DriverStateView { deliveries: self.deliveries.begun(delivery), ..self },
            None => self,
        }
    }

    pub open spec fn delivery_dropped(self, payload: JsonView) -> DriverStateView {
        match (text_field(payload, "activation_id"@), text_field(payload, "role"@)) {
            (Some(activation_id), Some(role)) => {
                let key = key_of(
                    activation_id,
                    role,
                    text_field(payload, "message_id"@),
                    unsigned_or(payload, "allocation_generation"@, 0),
                );
                if fits_delivery(self.deliveries, key, payload, true) {
                    DriverStateView { deliveries: self.deliveries.dropped(key), ..self }
                } else {
                    self
                }
            },
            _ => self,
        }
    }

    /// Input of a role arrives that every allocation gets once.
    pub open spec fn role_arrived(
        self,
        payload: JsonView,
        role: Seq<char>,
        may_lack_sequence: bool,
    ) -> DriverStateView {
        match text_field(payload, "activation_id"@) {
            Some(activation_id) => {
                let generation = unsigned_or(payload, "allocation_generation"@, 0);
                let key = key_of(activation_id, role, None, generation);
                if fits_delivery(self.deliveries, key, payload, may_lack_sequence) {
                    DriverStateView {
                        deliveries: self.deliveries.finished(
                            activation_id,
                            role,
                            None,
                            generation,
                        ),
                        ..self
                    }
                } else {
                    self
                }
            },
            None => self,
        }
    }

    pub open spec fn message_arrived(self, payload: JsonView) -> DriverStateView {
        match (text_field(payload, "activation_id"@), text_field(payload, "message_id"@)) {
            (Some(activation_id), Some(message_id)) => {
                let generation = unsigned_or(payload, "allocation_generation"@, 0);
                let role = DELIVERY_ROLE_PARTICIPANT_MESSAGE@;
                let key = key_of(activation_id, role, Some(message_id), generation);
                if fits_delivery(self.deliveries, key, payload, false) {
                    DriverStateView { deliveries: self.deliveries.arrived(key), ..self }
                } else {
                    self
                }
            },
            _ => self,
        }
    }

    pub open spec fn participant_bound(self, payload: JsonView) -> Result<
        DriverStateView,
        ReplayFault,
    > {
        match text_field(payload, "activation_id"@) {
            None => Ok(self),
            Some(activation_id) => {
                let key = AllocationKeyView {
                    activation_id,
                    generation: unsigned_or(payload, "allocation_generation"@, 0),
                };
                if self.participant_bindings.dom().contains(key) {
                    Ok(
                        DriverStateView {
                            participant_bindings: self.participant_bindings.insert(
                                key,
                                ParticipantBindingView {
                                    native_session_id: text_field(payload, "native_session_id"@),
                                    platform: text_field(payload, "platform"@),
                                    source: text_field(payload, "source"@),
                                    ..self.participant_bindings[key]
                                },
                            ),
                            ..self
                        },
                    )
                } else {
                    Err(ReplayFault::NotStarted)
                }
            },
        }
    }

    /// The state behind an event.
    pub open spec fn replayed(self, event: DriverEventView) -> Result<
        DriverStateView,
        ReplayFault,
    > {
        let payload = event.payload;
        if event.kind == "driver_pane_owned"@ {
            match field(payload, "pane"@) {
                None => Ok(self),
                Some(stored) => match StoredPaneView::read(stored) {
                    Some(pane) => Ok(DriverStateView { operator_pane: Some(pane), ..self }),
                    None => Err(ReplayFault::Malformed),
                },
            }
        } else if event.kind == "driver_pane_released"@ {
            Ok(DriverStateView { operator_pane: None, ..self })
        } else if event.kind == "pipe_capture_intent"@ {
            match TmuxPipeCaptureIntentView::read(payload) {
                Some(intent) => Ok(
                    DriverStateView {
                        pending_pipe_captures: self.pending_pipe_captures.insert(
                            intent.activation_id,
                            intent,
                        ),
                        ..self
                    },
                ),
                None => Err(ReplayFault::Malformed),
            }
        } else if event.kind == "pipe_capture_started"@ {
            self.capture_started(payload)
        } else if event.kind == "flow_revision_available"@ {
            self.revision_available(payload)
        } else if event.kind == "tmux_bound"@ {
            self.tmux_bound(payload)
        } else if event.kind == "tmux_pane_allocation_intent"@ {
            match TmuxPaneAllocationIntentView::read(payload) {
                Some(intent) => Ok(
                    DriverStateView {
                        pending_tmux_allocations: self.pending_tmux_allocations.insert(
                            intent.activation_id,
                            intent,
                        ),
                        ..self
                    },
                ),
                None => Err(ReplayFault::Malformed),
            }
        } else if event.kind == "tmux_pane_allocated"@ {
            self.pane_allocated(payload)
        } else if event.kind == "tmux_pane_cleanup_intent"@ {
            match TmuxPaneCleanupIntentView::read(payload) {
                Some(intent) => Ok(
                    DriverStateView {
                        pending_tmux_cleanups: self.pending_tmux_cleanups.insert(
                            intent.activation_id,
                            intent,
                        ),
                        ..self
                    },
                ),
                None => Err(ReplayFault::Malformed),
            }
        } else if event.kind == "tmux_pane_cleanup_receipt"@ {
            self.cleanup_done(payload)
        } else if event.kind == "tmux_panes_released"@ {
            Ok(self.panes_released(payload, event.seq))
        } else if event.kind == "input_delivery_started"@ {
            Ok(self.delivery_started(payload, event.seq))
        } else if event.kind == "input_delivery_not_submitted"@ {
            Ok(self.delivery_dropped(payload))
        } else if event.kind == "agent_launch_submitted"@ {
            Ok(self.role_arrived(payload, DELIVERY_ROLE_AGENT_LAUNCH@, false))
        } else if event.kind == "agent_launched"@ {
            Ok(self.role_arrived(payload, DELIVERY_ROLE_AGENT_LAUNCH@, true))
        } else if event.kind == "prompt_submitted"@ {
            Ok(self.role_arrived(payload, DELIVERY_ROLE_NODE_PROMPT@, false))
        } else if event.kind == "node_prompt_sent"@ {
            Ok(self.role_arrived(payload, DELIVERY_ROLE_NODE_PROMPT@, true))
        } else if event.kind == "participant_message_submitted"@ {
            Ok(self.message_arrived(payload))
        } else if event.kind == "participant_started"@ {
            match field(payload, "binding"@) {
                None => Ok(self),
                Some(stored) => match ParticipantBindingView::read(stored) {
                    Some(binding) => Ok(
                        DriverStateView {
                            participant_bindings: self.participant_bindings.insert(
                                AllocationKeyView {
                                    activation_id: binding.activation_id,
                                    generation: binding.allocation_generation,
                                },
                                binding,
                            ),
                            ..self
                        },
                    ),
                    None => Err(ReplayFault::Malformed),
                },
            }
        } else if event.kind == "participant_bound"@ {
            self.participant_bound(payload)
        } else {
            Ok(self)
        }
    }

    /// The state behind events.
    pub open spec fn replayed_all(self, events: Seq<DriverEventView>) -> Result<
        DriverStateView,
        ReplayFault,
    >
        decreases events.len(),
    {
        if events.len() == 0 {
            Ok(self)
        } else {
            match self.replayed_all(events.drop_last()) {
                Ok(before) => before.replayed(events.last()),
                Err(fault) => Err(fault),
            }
        }
    }
}

impl ReplayedDriverEvents {
    pub fn new() -> (r: Self)
        ensures
            r.deep_view() == DriverStateView::empty(),
    {
        ReplayedDriverEvents {
            revisions: Table::new(),
            tmux: None,
            operator_pane: None,
            pipe_captures: Table::new(),
            deliveries: Deliveries::new(),
            allocation_generations: Table::new(),
            pending_tmux_allocations: Table::new(),
            pending_pipe_captures: Table::new(),
            pending_tmux_cleanups: Table::new(),
            participant_bindings: Table::new(),
        }
    }

    /// The allocation that comes next for an activation.
    pub fn next_allocation_generation(&self, activation_id: &str) -> (r: u64)
        ensures
            r == self.deep_view().next_generation(activation_id@),
    {
        match self.allocation_generations.get(&activation_id.to_string()) {
            Some(last) => if *last < 0xffff_ffff_ffff_ffff {
                *last + 1
            } else {
                *last
            },
            None => 0,
        }
    }

    fn apply_capture_started(&mut self, payload: &Json) -> (r: Result<(), ReplayFault>)
        ensures
            match r {
                Ok(_) => old(self).deep_view().capture_started(payload@) == Ok::<
                    DriverStateView,
                    ReplayFault,
                >(final(self).deep_view()),
                Err(fault) => old(self).deep_view().capture_started(payload@) == Err::<
                    DriverStateView,
                    ReplayFault,
                >(fault),
            },
    {
        let activation_id = match payload.text_at("activation_id") {
            Some(id) => id.to_string(),
            None => return Ok(()),
        };
        match payload.get("descriptor") {
            None => Ok(()),
            Some(stored) => match read_descriptor(stored) {
                None => Err(ReplayFault::Malformed),
                Some(descriptor) => {
                    let generation = unsigned_at_or(payload, "allocation_generation", 0);
                    let _ = self.pending_pipe_captures.remove(&activation_id);
                    self.pipe_captures.insert(activation_id, (generation, descriptor));
                    Ok(())
                },
            },
        }
    }

    fn apply_revision_available(&mut self, payload: &Json) -> (r: Result<(), ReplayFault>)
        ensures
            match r {
                Ok(_) => old(self).deep_view().revision_available(payload@) == Ok::<
                    DriverStateView,
                    ReplayFault,
                >(final(self).deep_view()),
                Err(fault) => old(self).deep_view().revision_available(payload@) == Err::<
                    DriverStateView,
                    ReplayFault,
                >(fault),
            },
    {
        match (payload.text_at("lock_id"), payload.text_at("revision_file")) {
            (Some(lock_id), Some(revision_file)) => {
                match contained_relative_path("", revision_file) {
                    Ok(_) => {
                        self.revisions.insert(lock_id.to_string(), revision_file.to_string());
                        Ok(())
                    },
                    Err(fault) => Err(fault),
                }
            },
            _ => Ok(()),
        }
    }

    fn apply_tmux_bound(&mut self, payload: &Json) -> (r: Result<(), ReplayFault>)
        ensures
            match r {
                Ok(_) => old(self).deep_view().tmux_bound(payload@) == Ok::<
                    DriverStateView,
                    ReplayFault,
                >(final(self).deep_view()),
                Err(fault) => old(self).deep_view().tmux_bound(payload@) == Err::<
                    DriverStateView,
                    ReplayFault,
                >(fault),
            },
    {
        match DriverTmuxActuationConfig::read_or_default(payload, "actuation") {
            None => Err(ReplayFault::Malformed),
            Some(actuation) => {
                self.tmux = Some(
                    DriverTmuxState {
                        session_id: text_at_or_empty(payload, "session_id"),
                        window_name: text_at_or_empty(payload, "window_name"),
                        window_id: text_at_or_empty(payload, "window_id"),
                        agent_command: text_at_or_empty(payload, "agent_command"),
                        actuation,
                        panes: Table::new(),
                    },
                );
                Ok(())
            },
        }
    }

    /// Gives a pane to an activation, once this is written down.
    pub fn take_pane(&mut self, activation_id: &str, pane: StoredPane)
        ensures
            final(self).deep_view() == old(self).deep_view().with_pane(
                activation_id@,
                pane.deep_view(),
            ),
    {
        let id = activation_id.to_string();
        self.allocation_generations.insert(activation_id.to_string(), pane.allocation_generation);
        let _ = self.pending_tmux_allocations.remove(&id);
        match &mut self.tmux {
            Some(tmux) => {
                tmux.panes.insert(id, pane);
            },
            None => {},
        }
    }

    fn apply_pane_allocated(&mut self, payload: &Json) -> (r: Result<(), ReplayFault>)
        ensures
            match r {
                Ok(_) => old(self).deep_view().pane_allocated(payload@) == Ok::<
                    DriverStateView,
                    ReplayFault,
                >(final(self).deep_view()),
                Err(fault) => old(self).deep_view().pane_allocated(payload@) == Err::<
                    DriverStateView,
                    ReplayFault,
                >(fault),
            },
    {
        if self.tmux.is_none() {
            return Ok(());
        }
        let activation_id = match payload.text_at("activation_id") {
            Some(id) => id,
            None => return Ok(()),
        };
        let stored = match payload.get("pane") {
            Some(stored) => stored,
            None => return Ok(()),
        };
        match StoredPane::from_json(stored) {
            None => Err(ReplayFault::Malformed),
            Some(pane) => {
                let next = self.next_allocation_generation(activation_id);
                let generation = unsigned_at_or(stored, "allocation_generation", next);
                let pane = StoredPane {
                    pane_id: pane.pane_id,
                    session_id: pane.session_id,
                    window_id: pane.window_id,
                    window_name: pane.window_name,
                    allocation_generation: generation,
                };
                self.take_pane(activation_id, pane);
                Ok(())
            },
        }
    }

    fn apply_cleanup_done(&mut self, payload: &Json) -> (r: Result<(), ReplayFault>)
        ensures
            match r {
                Ok(_) => old(self).deep_view().cleanup_done(payload@) == Ok::<
                    DriverStateView,
                    ReplayFault,
                >(final(self).deep_view()),
                Err(fault) => old(self).deep_view().cleanup_done(payload@) == Err::<
                    DriverStateView,
                    ReplayFault,
                >(fault),
            },
    {
        match TmuxPaneCleanupIntent::from_json(payload) {
            None => Err(ReplayFault::Malformed),
            Some(receipt) => {
                let pending = match self.pending_tmux_cleanups.get(&receipt.activation_id) {
                    Some(intent) => intent.same_as(&receipt),
                    None => false,
                };
                if pending {
                    let _ = self.pending_tmux_cleanups.remove(&receipt.activation_id);
                }
                Ok(())
            },
        }
    }

    /// Takes a pane from an activation, with all that went with it.
    pub fn release(&mut self, activation_id: &String)
        ensures
            final(self).deep_view() == old(self).deep_view().released(activation_id@),
    {
        match &mut self.tmux {
            Some(tmux) => {
                let _ = tmux.panes.remove(activation_id);
            },
            None => {},
        }
        let _ = self.pending_tmux_allocations.remove(activation_id);
        let _ = self.pending_pipe_captures.remove(activation_id);
        let _ = self.pipe_captures.remove(activation_id);
        self.deliveries.launched.remove_activation(activation_id.as_str());
        self.deliveries.settled.remove_activation(activation_id.as_str());
    }

    /// Takes their panes from activations.
    pub fn release_all(&mut self, activation_ids: &Vec<String>)
        ensures
            final(self).deep_view() == old(self).deep_view().all_released(
                activation_ids.deep_view(),
            ),
    {
        let ghost start = self.deep_view();
        let ghost model = activation_ids.deep_view();
        let mut i: usize = 0;
        assert(model.take(0) =~= Seq::<Seq<char>>::empty());
        while i < activation_ids.len()
            invariant
                i <= activation_ids.len(),
                model == activation_ids.deep_view(),
                self.deep_view() == start.all_released(model.take(i as int)),
            decreases activation_ids.len() - i,
        {
            assert(model.take(i + 1).drop_last() =~= model.take(i as int));
            assert(model.take(i + 1).last() == activation_ids@[i as int]@);
            self.release(&activation_ids[i]);
            i += 1;
        }
        assert(model.take(i as int) =~= model);
    }

    fn apply_panes_released(&mut self, payload: &Json, sequence: u64)
        ensures
            final(self).deep_view() == old(self).deep_view().panes_released(payload@, sequence),
    {
        if self.tmux.is_none() {
            return ;
        }
        let items = match payload.get("activation_ids") {
            Some(value) => match value.as_list() {
                Some(items) => items,
                None => return ,
            },
            None => return ,
        };
        let ids = collect_texts(items);
        self.release_all(&ids);
        match payload.get("delivery_barriers") {
            Some(value) => match value.as_list() {
                Some(barriers) => {
                    self.deliveries.bar(barriers, sequence);
                },
                None => {},
            },
            None => {},
        }
    }

    fn apply_delivery_dropped(&mut self, payload: &Json)
        ensures
            final(self).deep_view() == old(self).deep_view().delivery_dropped(payload@),
    {
        match (payload.text_at("activation_id"), payload.text_at("role")) {
            (Some(activation_id), Some(role)) => {
                let key = delivery_key(
                    activation_id,
                    role,
                    payload.text_at("message_id"),
                    unsigned_at_or(payload, "allocation_generation", 0),
                );
                if delivery_event_matches(&self.deliveries, &key, payload, true) {
                    self.deliveries.drop_delivery(&key);
                }
            },
            _ => {},
        }
    }

    fn apply_role_arrived(&mut self, payload: &Json, role: &str, may_lack_sequence: bool)
        ensures
            final(self).deep_view() == old(self).deep_view().role_arrived(
                payload@,
                role@,
                may_lack_sequence,
            ),
    {
        match payload.text_at("activation_id") {
            Some(activation_id) => {
                let generation = unsigned_at_or(payload, "allocation_generation", 0);
                let key = delivery_key(activation_id, role, None, generation);
                if delivery_event_matches(&self.deliveries, &key, payload, may_lack_sequence) {
                    self.deliveries.finish_input_delivery(activation_id, role, None, generation);
                }
            },
            None => {},
        }
    }

    fn apply_message_arrived(&mut self, payload: &Json)
        ensures
            final(self).deep_view() == old(self).deep_view().message_arrived(payload@),
    {
        match (payload.text_at("activation_id"), payload.text_at("message_id")) {
            (Some(activation_id), Some(message_id)) => {
                let key = delivery_key(
                    activation_id,
                    DELIVERY_ROLE_PARTICIPANT_MESSAGE,
                    Some(message_id),
                    unsigned_at_or(payload, "allocation_generation", 0),
                );
                if delivery_event_matches(&self.deliveries, &key, payload, false) {
                    self.deliveries.arrive(key);
                }
            },
            _ => {},
        }
    }

    fn apply_participant_bound(&mut self, payload: &Json) -> (r: Result<(), ReplayFault>)
        ensures
            match r {
                Ok(_) => old(self).deep_view().participant_bound(payload@) == Ok::<
                    DriverStateView,
                    ReplayFault,
                >(final(self).deep_view()),
                Err(fault) => old(self).deep_view().participant_bound(payload@) == Err::<
                    DriverStateView,
                    ReplayFault,
                >(fault),
            },
    {
        let activation_id = match payload.text_at("activation_id") {
            Some(id) => id,
            None => return Ok(()),
        };
        let key = allocation_key(
            activation_id,
            unsigned_at_or(payload, "allocation_generation", 0),
        );
        let bound = match self.participant_bindings.get(&key) {
            None => return Err(ReplayFault::NotStarted),
            Some(binding) => {
                let mut next = binding.clone();
                next.native_session_id = text_at_owned(payload, "native_session_id");
                next.platform = text_at_owned(payload, "platform");
                next.source = text_at_owned(payload, "source");
                next
            },
        };
        self.participant_bindings.insert(key, bound);
        Ok(())
    }

    /// Follows an event; one that cannot be followed is a fault.
    pub fn apply(&mut self, event: &DriverDurableEvent) -> (r: Result<(), ReplayFault>)
        ensures
            match r {
                Ok(_) => old(self).deep_view().replayed(event.deep_view()) == Ok::<
                    DriverStateView,
                    ReplayFault,
                >(final(self).deep_view()),
                Err(fault) => old(self).deep_view().replayed(event.deep_view()) == Err::<
                    DriverStateView,
                    ReplayFault,
                >(fault),
            },
    {
        let kind = event.kind.as_str();
        let payload = &event.payload;
        if same(kind, "driver_pane_owned") {
            match payload.get("pane") {
                None => {},
                Some(stored) => match StoredPane::from_json(stored) {
                    Some(pane) => {
                        self.operator_pane = Some(pane);
                    },
                    None => return Err(ReplayFault::Malformed),
                },
            }
            Ok(())
        } else if same(kind, "driver_pane_released") {
            self.operator_pane = None;
            Ok(())
        } else if same(kind, "pipe_capture_intent") {
            match TmuxPipeCaptureIntent::from_json(payload) {
                Some(intent) => {
                    self.pending_pipe_captures.insert(intent.activation_id.clone(), intent);
                    Ok(())
                },
                None => Err(ReplayFault::Malformed),
            }
        } else if same(kind, "pipe_capture_started") {
            self.apply_capture_started(payload)
        } else if same(kind, "flow_revision_available") {
            self.apply_revision_available(payload)
        } else if same(kind, "tmux_bound") {
            self.apply_tmux_bound(payload)
        } else if same(kind, "tmux_pane_allocation_intent") {
            match TmuxPaneAllocationIntent::from_json(payload) {
                Some(intent) => {
                    self.pending_tmux_allocations.insert(intent.activation_id.clone(), intent);
                    Ok(())
                },
                None => Err(ReplayFault::Malformed),
            }
        } else if same(kind, "tmux_pane_allocated") {
            self.apply_pane_allocated(payload)
        } else if same(kind, "tmux_pane_cleanup_intent") {
            match TmuxPaneCleanupIntent::from_json(payload) {
                Some(intent) => {
                    self.pending_tmux_cleanups.insert(intent.activation_id.clone(), intent);
                    Ok(())
                },
                None => Err(ReplayFault::Malformed),
            }
        } else if same(kind, "tmux_pane_cleanup_receipt") {
            self.apply_cleanup_done(payload)
        } else if same(kind, "tmux_panes_released") {
            self.apply_panes_released(payload, event.seq);
            Ok(())
        } else if same(kind, "input_delivery_started") {
            match AmbiguousDelivery::from_payload(payload, event.seq) {
                Some(delivery) => {
                    self.deliveries.begin(delivery);
                },
                None => {},
            }
            Ok(())
        } else if same(kind, "input_delivery_not_submitted") {
            self.apply_delivery_dropped(payload);
            Ok(())
        } else if same(kind, "agent_launch_submitted") {
            self.apply_role_arrived(payload, DELIVERY_ROLE_AGENT_LAUNCH, false);
            Ok(())
        } else if same(kind, "agent_launched") {
            self.apply_role_arrived(payload, DELIVERY_ROLE_AGENT_LAUNCH, true);
            Ok(())
        } else if same(kind, "prompt_submitted") {
            self.apply_role_arrived(payload, DELIVERY_ROLE_NODE_PROMPT, false);
            Ok(())
        } else if same(kind, "node_prompt_sent") {
            self.apply_role_arrived(payload, DELIVERY_ROLE_NODE_PROMPT, true);
            Ok(())
        } else if same(kind, "participant_message_submitted") {
            self.apply_message_arrived(payload);
            Ok(())
        } else if same(kind, "participant_started") {
            match payload.get("binding") {
                None => {},
                Some(stored) => match ParticipantBinding::from_json(stored) {
                    Some(binding) => {
                        let key = allocation_key(
                            binding.activation_id.as_str(),
                            binding.allocation_generation,
                        );
                        self.participant_bindings.insert(key, binding);
                    },
                    None => return Err(ReplayFault::Malformed),
                },
            }
            Ok(())
        } else if same(kind, "participant_bound") {
            self.apply_participant_bound(payload)
        } else {
            Ok(())
        }
    }
}

/// The state behind events; the first that cannot be followed is a fault.
pub fn replay_driver_events(events: &Vec<DriverDurableEvent>) -> (r: Result<
    ReplayedDriverEvents,
    ReplayFault,
>)
    ensures
        match r {
            Ok(state) => DriverStateView::empty().replayed_all(events.deep_view()) == Ok::<
                DriverStateView,
                ReplayFault,
            >(state.deep_view()),
            Err(fault) => DriverStateView::empty().replayed_all(events.deep_view()) == Err::<
                DriverStateView,
                ReplayFault,
            >(fault),
        },
{
    let mut state = ReplayedDriverEvents::new();
    let ghost model = events.deep_view();
    let mut i: usize = 0;
    assert(model.take(0) =~= Seq::<DriverEventView>::empty());
    while i < events.len()
        invariant
            i <= events.len(),
            model == events.deep_view(),
            DriverStateView::empty().replayed_all(model.take(i as int)) == Ok::<
                DriverStateView,
                ReplayFault,
            >(state.deep_view()),
        decreases events.len() - i,
    {
        assert(model.take(i + 1).drop_last() =~= model.take(i as int));
        assert(model.take(i + 1).last() == events@[i as int].deep_view());
        match state.apply(&events[i]) {
            Ok(_) => {},
            Err(fault) => {
                proof {
                    lemma_fault_stays(DriverStateView::empty(), model, i + 1);
                }
                return Err(fault);
            },
        }
        i += 1;
    }
    assert(model.take(i as int) =~= model);
    Ok(state)
}

proof fn lemma_fault_stays(state: DriverStateView, events: Seq<DriverEventView>, n: int)
    requires
        0 <= n <= events.len(),
        state.replayed_all(events.take(n)) is Err,
    ensures
        state.replayed_all(events) == state.replayed_all(events.take(n)),
    decreases events.len() - n,
{
    if n == events.len() {
        assert(events.take(n) =~= events);
    } else {
        assert(events.take(n + 1).drop_last() =~= events.take(n));
        lemma_fault_stays(state, events, n + 1);
    }
}

} // verus!
