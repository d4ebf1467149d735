//! What the driver stores of panes, captures and participants, and how it reads it again.
use vstd::prelude::*;

use crate::adapters::tmux::model::{TmuxPane, TmuxPaneView, TmuxWindow, TmuxWindowView};
use crate::adapters::tmux::pipe::{
    PipeDescriptorView, PipeSinkIdentity, TmuxPipeCaptureDescriptor,
};
use crate::flow::export::{lemma_ordered_field, ordered};
use crate::json::{
    distinct_keys, field, flag_field, no_fields, option_text, option_text_json, text_field, unsigned_field,
    Fields, Json, JsonView,
};
use crate::order::Comparable;
use crate::text::{same, same_option};

use super::fields::{
    arrange, arranged, defaulted_count, defaulted_unsigned, lemma_lookup_push,
    optional_signed_json,
    optional_signed_to_json, optional_small_signed, optional_text, read_defaulted_count,
    read_defaulted_unsigned, read_optional_small_signed, read_optional_text, read_small_unsigned,
    read_text, small_unsigned,
};

verus! {

broadcast use vstd::string::group_string_axioms;

/// A pane that the driver owns, and which allocation of its activation it is.
#[derive(Debug, PartialEq, Eq)]
pub struct StoredPane {
    pub pane_id: String,
    pub session_id: String,
    pub window_id: String,
    pub window_name: String,
    pub allocation_generation: u64,
}

#[verifier::ext_equal]
pub struct StoredPaneView {
    pub pane_id: Seq<char>,
    pub session_id: Seq<char>,
    pub window_id: Seq<char>,
    pub window_name: Seq<char>,
    pub allocation_generation: u64,
}

impl DeepView for StoredPane {
    type V = StoredPaneView;

    open spec fn deep_view(&self) -> StoredPaneView {
        StoredPaneView {
            pane_id: self.pane_id@,
            session_id: self.session_id@,
            window_id: self.window_id@,
            window_name: self.window_name@,
            allocation_generation: self.allocation_generation,
        }
    }
}

impl Clone for StoredPane {
    fn clone(&self) -> (r: Self)
        ensures
            r.deep_view() == self.deep_view(),
    {
        StoredPane {
            pane_id: self.pane_id.clone(),
            session_id: self.session_id.clone(),
            window_id: self.window_id.clone(),
            window_name: self.window_name.clone(),
            allocation_generation: self.allocation_generation,
        }
    }
}

impl Comparable for StoredPane {
    fn same_as(&self, other: &Self) -> (r: bool) {
        same(self.pane_id.as_str(), other.pane_id.as_str())
            && same(self.session_id.as_str(), other.session_id.as_str())
            && same(self.window_id.as_str(), other.window_id.as_str())
            && same(self.window_name.as_str(), other.window_name.as_str())
            && self.allocation_generation == other.allocation_generation
    }
}

impl StoredPaneView {
    /// How it is stored.
    pub open spec fn json(self) -> JsonView {
        JsonView::Record(
            no_fields()
                .push(("pane_id"@, JsonView::Text(self.pane_id)))
                .push(("session_id"@, JsonView::Text(self.session_id)))
                .push(("window_id"@, JsonView::Text(self.window_id)))
                .push(("window_name"@, JsonView::Text(self.window_name)))
                .push(("allocation_generation"@, JsonView::Unsigned(self.allocation_generation))),
        )
    }

    /// The fields in their order.
    pub open spec fn names() -> Seq<Seq<char>> {
        seq![
            "pane_id"@,
            "session_id"@,
            "window_id"@,
            "window_name"@,
            "allocation_generation"@,
        ]
    }

    /// How it is read, from an object or from a list; nothing where a field does not fit.
    pub open spec fn read(value: JsonView) -> Option<StoredPaneView> {
        StoredPaneView::read_record(arranged(value, StoredPaneView::names(), 4))
    }

    /// How it is read from an object.
    pub open spec fn read_record(value: JsonView) -> Option<StoredPaneView> {
        if value !is Record {
            None
        } else {
            if text_field(value, "pane_id"@) is Some
                && text_field(value, "session_id"@) is Some
                && text_field(value, "window_id"@) is Some
                && text_field(value, "window_name"@) is Some
                && defaulted_unsigned(value, "allocation_generation"@, 0) is Some {
                Some(
                    StoredPaneView {
                        pane_id: text_field(value, "pane_id"@)->Some_0,
                        session_id: text_field(value, "session_id"@)->Some_0,
                        window_id: text_field(value, "window_id"@)->Some_0,
                        window_name: text_field(value, "window_name"@)->Some_0,
                        allocation_generation: defaulted_unsigned(
                            value,
                            "allocation_generation"@,
                            0,
                        )->Some_0,
                    },
                )
            } else {
                None
            }
        }
    }

    pub open spec fn read_at(value: JsonView, key: Seq<char>) -> Option<StoredPaneView> {
        match field(value, key) {
            Some(item) => StoredPaneView::read(item),
            None => None,
        }
    }
}

impl StoredPane {
    pub fn to_json(&self) -> (r: Json)
        ensures
            r@ == self.deep_view().json(),
    {
        Fields::new()
            .put("pane_id", Json::text(self.pane_id.as_str()))
            .put("session_id", Json::text(self.session_id.as_str()))
            .put("window_id", Json::text(self.window_id.as_str()))
            .put("window_name", Json::text(self.window_name.as_str()))
            .put("allocation_generation", Json::Unsigned(self.allocation_generation))
            .done()
    }

    pub fn from_json(value: &Json) -> (r: Option<Self>)
        ensures
            r.deep_view() == StoredPaneView::read(value@),
    {
        let names = vec![
            "pane_id",
            "session_id",
            "window_id",
            "window_name",
            "allocation_generation",
        ];
        assert(names.deep_view() =~= StoredPaneView::names());
        StoredPane::from_record(&arrange(value, &names, 4))
    }

    fn from_record(value: &Json) -> (r: Option<Self>)
        ensures
            r.deep_view() == StoredPaneView::read_record(value@),
    {
        if !value.is_record() {
            return None;
        }
        let pane_id = match read_text(value, "pane_id") {
            Some(item) => item,
            None => return None,
        };
        let session_id = match read_text(value, "session_id") {
            Some(item) => item,
            None => return None,
        };
        let window_id = match read_text(value, "window_id") {
            Some(item) => item,
            None => return None,
        };
        let window_name = match read_text(value, "window_name") {
            Some(item) => item,
            None => return None,
        };
        let allocation_generation = match read_defaulted_unsigned(
            value,
            "allocation_generation",
            0,
        ) {
            Some(item) => item,
            None => return None,
        };
        Some(StoredPane { pane_id, session_id, window_id, window_name, allocation_generation })
    }

    pub fn read_at(value: &Json, key: &str) -> (r: Option<Self>)
        ensures
            r.deep_view() == StoredPaneView::read_at(value@, key@),
    {
        match value.get(key) {
            Some(item) => StoredPane::from_json(item),
            None => None,
        }
    }
}

/// What was stored is read back, in whatever order its fields stand.
pub proof fn lemma_stored_pane_reads_back(item: StoredPaneView)
    ensures
        StoredPaneView::read(item.json()) == Some(item),
        StoredPaneView::read(ordered(item.json())) == Some(item),
{
    reveal_strlit("pane_id");
    reveal_strlit("session_id");
    reveal_strlit("window_id");
    reveal_strlit("window_name");
    reveal_strlit("allocation_generation");
    assert("pane_id"@.len() == 7);
    assert("session_id"@.len() == 10);
    assert("window_id"@.len() == 9);
    assert("window_name"@.len() == 11);
    assert("allocation_generation"@.len() == 21);
    let value = item.json();
    let f0 = no_fields();
    let f1 = f0.push(("pane_id"@, JsonView::Text(item.pane_id)));
    let f2 = f1.push(("session_id"@, JsonView::Text(item.session_id)));
    let f3 = f2.push(("window_id"@, JsonView::Text(item.window_id)));
    let f4 = f3.push(("window_name"@, JsonView::Text(item.window_name)));
    let f5 = f4.push(("allocation_generation"@, JsonView::Unsigned(item.allocation_generation)));
    assert(distinct_keys(f5));
    assert(field(value, "pane_id"@) == Some(JsonView::Text(item.pane_id))) by {
        lemma_lookup_push(
            f4,
            "allocation_generation"@,
            JsonView::Unsigned(item.allocation_generation),
            "pane_id"@,
        );
        lemma_lookup_push(f3, "window_name"@, JsonView::Text(item.window_name), "pane_id"@);
        lemma_lookup_push(f2, "window_id"@, JsonView::Text(item.window_id), "pane_id"@);
        lemma_lookup_push(f1, "session_id"@, JsonView::Text(item.session_id), "pane_id"@);
        lemma_lookup_push(f0, "pane_id"@, JsonView::Text(item.pane_id), "pane_id"@);
    }
    lemma_ordered_field(f5, "pane_id"@);
    assert(field(value, "session_id"@) == Some(JsonView::Text(item.session_id))) by {
        lemma_lookup_push(
            f4,
            "allocation_generation"@,
            JsonView::Unsigned(item.allocation_generation),
            "session_id"@,
        );
        lemma_lookup_push(f3, "window_name"@, JsonView::Text(item.window_name), "session_id"@);
        lemma_lookup_push(f2, "window_id"@, JsonView::Text(item.window_id), "session_id"@);
        lemma_lookup_push(f1, "session_id"@, JsonView::Text(item.session_id), "session_id"@);
    }
    lemma_ordered_field(f5, "session_id"@);
    assert(field(value, "window_id"@) == Some(JsonView::Text(item.window_id))) by {
        lemma_lookup_push(
            f4,
            "allocation_generation"@,
            JsonView::Unsigned(item.allocation_generation),
            "window_id"@,
        );
        lemma_lookup_push(f3, "window_name"@, JsonView::Text(item.window_name), "window_id"@);
        lemma_lookup_push(f2, "window_id"@, JsonView::Text(item.window_id), "window_id"@);
    }
    lemma_ordered_field(f5, "window_id"@);
    assert(field(value, "window_name"@) == Some(JsonView::Text(item.window_name))) by {
        lemma_lookup_push(
            f4,
            "allocation_generation"@,
            JsonView::Unsigned(item.allocation_generation),
            "window_name"@,
        );
        lemma_lookup_push(f3, "window_name"@, JsonView::Text(item.window_name), "window_name"@);
    }
    lemma_ordered_field(f5, "window_name"@);
    assert(
        field(value, "allocation_generation"@) == Some(
            JsonView::Unsigned(item.allocation_generation),
        )
    ) by {
        lemma_lookup_push(
            f4,
            "allocation_generation"@,
            JsonView::Unsigned(item.allocation_generation),
            "allocation_generation"@,
        );
    }
    lemma_ordered_field(f5, "allocation_generation"@);
    assert(StoredPaneView::read(value) == Some(item));
    assert(StoredPaneView::read(ordered(value)) == Some(item));
}

/// The pane in which the driver itself runs.
#[derive(Debug, PartialEq, Eq)]
pub struct DriverPaneConfig {
    pub session_id: String,
    pub window_id: String,
    pub window_name: String,
    pub pane_id: String,
}

#[verifier::ext_equal]
pub struct DriverPaneConfigView {
    pub session_id: Seq<char>,
    pub window_id: Seq<char>,
    pub window_name: Seq<char>,
    pub pane_id: Seq<char>,
}

impl DeepView for DriverPaneConfig {
    type V = DriverPaneConfigView;

    open spec fn deep_view(&self) -> DriverPaneConfigView {
        DriverPaneConfigView {
            session_id: self.session_id@,
            window_id: self.window_id@,
            window_name: self.window_name@,
            pane_id: self.pane_id@,
        }
    }
}

impl Clone for DriverPaneConfig {
    fn clone(&self) -> (r: Self)
        ensures
            r.deep_view() == self.deep_view(),
    {
        DriverPaneConfig {
            session_id: self.session_id.clone(),
            window_id: self.window_id.clone(),
            window_name: self.window_name.clone(),
            pane_id: self.pane_id.clone(),
        }
    }
}

impl Comparable for DriverPaneConfig {
    fn same_as(&self, other: &Self) -> (r: bool) {
        same(self.session_id.as_str(), other.session_id.as_str())
            && same(self.window_id.as_str(), other.window_id.as_str())
            && same(self.window_name.as_str(), other.window_name.as_str())
            && same(self.pane_id.as_str(), other.pane_id.as_str())
    }
}

impl DriverPaneConfigView {
    /// How it is stored.
    pub open spec fn json(self) -> JsonView {
        JsonView::Record(
            no_fields()
                .push(("session_id"@, JsonView::Text(self.session_id)))
                .push(("window_id"@, JsonView::Text(self.window_id)))
                .push(("window_name"@, JsonView::Text(self.window_name)))
                .push(("pane_id"@, JsonView::Text(self.pane_id))),
        )
    }

    /// The fields in their order.
    pub open spec fn names() -> Seq<Seq<char>> {
        seq![
            "session_id"@,
            "window_id"@,
            "window_name"@,
            "pane_id"@,
        ]
    }

    /// How it is read, from an object or from a list; nothing where a field does not fit.
    pub open spec fn read(value: JsonView) -> Option<DriverPaneConfigView> {
        DriverPaneConfigView::read_record(arranged(value, DriverPaneConfigView::names(), 4))
    }

    /// How it is read from an object.
    pub open spec fn read_record(value: JsonView) -> Option<DriverPaneConfigView> {
        if value !is Record {
            None
        } else {
            if text_field(value, "session_id"@) is Some
                && text_field(value, "window_id"@) is Some
                && text_field(value, "window_name"@) is Some
                && text_field(value, "pane_id"@) is Some {
                Some(
                    DriverPaneConfigView {
                        session_id: text_field(value, "session_id"@)->Some_0,
                        window_id: text_field(value, "window_id"@)->Some_0,
                        window_name: text_field(value, "window_name"@)->Some_0,
                        pane_id: text_field(value, "pane_id"@)->Some_0,
                    },
                )
            } else {
                None
            }
        }
    }

    pub open spec fn read_at(value: JsonView, key: Seq<char>) -> Option<DriverPaneConfigView> {
        match field(value, key) {
            Some(item) => DriverPaneConfigView::read(item),
            None => None,
        }
    }
}

impl DriverPaneConfig {
    pub fn to_json(&self) -> (r: Json)
        ensures
            r@ == self.deep_view().json(),
    {
        Fields::new()
            .put("session_id", Json::text(self.session_id.as_str()))
            .put("window_id", Json::text(self.window_id.as_str()))
            .put("window_name", Json::text(self.window_name.as_str()))
            .put("pane_id", Json::text(self.pane_id.as_str()))
            .done()
    }

    pub fn from_json(value: &Json) -> (r: Option<Self>)
        ensures
            r.deep_view() == DriverPaneConfigView::read(value@),
    {
        let names = vec![
            "session_id",
            "window_id",
            "window_name",
            "pane_id",
        ];
        assert(names.deep_view() =~= DriverPaneConfigView::names());
        DriverPaneConfig::from_record(&arrange(value, &names, 4))
    }

    fn from_record(value: &Json) -> (r: Option<Self>)
        ensures
            r.deep_view() == DriverPaneConfigView::read_record(value@),
    {
        if !value.is_record() {
            return None;
        }
        let session_id = match read_text(value, "session_id") {
            Some(item) => item,
            None => return None,
        };
        let window_id = match read_text(value, "window_id") {
            Some(item) => item,
            None => return None,
        };
        let window_name = match read_text(value, "window_name") {
            Some(item) => item,
            None => return None,
        };
        let pane_id = match read_text(value, "pane_id") {
            Some(item) => item,
            None => return None,
        };
        Some(DriverPaneConfig { session_id, window_id, window_name, pane_id })
    }

    pub fn read_at(value: &Json, key: &str) -> (r: Option<Self>)
        ensures
            r.deep_view() == DriverPaneConfigView::read_at(value@, key@),
    {
        match value.get(key) {
            Some(item) => DriverPaneConfig::from_json(item),
            None => None,
        }
    }
}

/// What was stored is read back, in whatever order its fields stand.
pub proof fn lemma_driver_pane_config_reads_back(item: DriverPaneConfigView)
    ensures
        DriverPaneConfigView::read(item.json()) == Some(item),
        DriverPaneConfigView::read(ordered(item.json())) == Some(item),
{
    reveal_strlit("session_id");
    reveal_strlit("window_id");
    reveal_strlit("window_name");
    reveal_strlit("pane_id");
    assert("session_id"@.len() == 10);
    assert("window_id"@.len() == 9);
    assert("window_name"@.len() == 11);
    assert("pane_id"@.len() == 7);
    let value = item.json();
    let f0 = no_fields();
    let f1 = f0.push(("session_id"@, JsonView::Text(item.session_id)));
    let f2 = f1.push(("window_id"@, JsonView::Text(item.window_id)));
    let f3 = f2.push(("window_name"@, JsonView::Text(item.window_name)));
    let f4 = f3.push(("pane_id"@, JsonView::Text(item.pane_id)));
    assert(distinct_keys(f4));
    assert(field(value, "session_id"@) == Some(JsonView::Text(item.session_id))) by {
        lemma_lookup_push(f3, "pane_id"@, JsonView::Text(item.pane_id), "session_id"@);
        lemma_lookup_push(f2, "window_name"@, JsonView::Text(item.window_name), "session_id"@);
        lemma_lookup_push(f1, "window_id"@, JsonView::Text(item.window_id), "session_id"@);
        lemma_lookup_push(f0, "session_id"@, JsonView::Text(item.session_id), "session_id"@);
    }
    lemma_ordered_field(f4, "session_id"@);
    assert(field(value, "window_id"@) == Some(JsonView::Text(item.window_id))) by {
        lemma_lookup_push(f3, "pane_id"@, JsonView::Text(item.pane_id), "window_id"@);
        lemma_lookup_push(f2, "window_name"@, JsonView::Text(item.window_name), "window_id"@);
        lemma_lookup_push(f1, "window_id"@, JsonView::Text(item.window_id), "window_id"@);
    }
    lemma_ordered_field(f4, "window_id"@);
    assert(field(value, "window_name"@) == Some(JsonView::Text(item.window_name))) by {
        lemma_lookup_push(f3, "pane_id"@, JsonView::Text(item.pane_id), "window_name"@);
        lemma_lookup_push(f2, "window_name"@, JsonView::Text(item.window_name), "window_name"@);
    }
    lemma_ordered_field(f4, "window_name"@);
    assert(field(value, "pane_id"@) == Some(JsonView::Text(item.pane_id))) by {
        lemma_lookup_push(f3, "pane_id"@, JsonView::Text(item.pane_id), "pane_id"@);
    }
    lemma_ordered_field(f4, "pane_id"@);
    assert(DriverPaneConfigView::read(value) == Some(item));
    assert(DriverPaneConfigView::read(ordered(value)) == Some(item));
}

impl StoredPaneView {
    /// A pane that was just made.
    pub open spec fn made(
        window: TmuxWindowView,
        pane: TmuxPaneView,
        generation: u64,
    ) -> StoredPaneView {
        StoredPaneView {
            pane_id: pane.id,
            session_id: window.session_id,
            window_id: window.id,
            window_name: window.name,
            allocation_generation: generation,
        }
    }

    /// How a pane is shown, with its activation.
    pub open spec fn shown(self, activation_id: Seq<char>) -> JsonView {
        JsonView::Record(
            no_fields()
                .push(("activation_id"@, JsonView::Text(activation_id)))
                .push(("pane_id"@, JsonView::Text(self.pane_id)))
                .push(("session_id"@, JsonView::Text(self.session_id)))
                .push(("window_id"@, JsonView::Text(self.window_id)))
                .push(("window_name"@, JsonView::Text(self.window_name)))
                .push(("allocation_generation"@, JsonView::Unsigned(self.allocation_generation))),
        )
    }

    /// The pane as tmux knows it.
    pub open spec fn pane(self, activation_id: Seq<char>) -> TmuxPaneView {
        TmuxPaneView {
            session_id: self.session_id,
            window_id: self.window_id,
            activation_id,
            id: self.pane_id,
        }
    }
}

impl StoredPane {
    pub fn from_tmux_pane(window: &TmuxWindow, pane: &TmuxPane, allocation_generation: u64) -> (r:
        Self)
        ensures
            r.deep_view() == StoredPaneView::made(
                window.deep_view(),
                pane.deep_view(),
                allocation_generation,
            ),
    {
        StoredPane {
            pane_id: pane.id().to_string(),
            session_id: window.session_id().to_string(),
            window_id: window.id().to_string(),
            window_name: window.name().to_string(),
            allocation_generation,
        }
    }

    /// The pane in which the driver itself runs.
    pub fn from_driver_config(config: &DriverPaneConfig) -> (r: Self)
        ensures
            r.deep_view() == (StoredPaneView {
                pane_id: config.deep_view().pane_id,
                session_id: config.deep_view().session_id,
                window_id: config.deep_view().window_id,
                window_name: config.deep_view().window_name,
                allocation_generation: 0,
            }),
    {
        StoredPane {
            pane_id: config.pane_id.clone(),
            session_id: config.session_id.clone(),
            window_id: config.window_id.clone(),
            window_name: config.window_name.clone(),
            allocation_generation: 0,
        }
    }

    pub fn shown(&self, activation_id: &str) -> (r: Json)
        ensures
            r@ == self.deep_view().shown(activation_id@),
    {
        Fields::new()
            .put("activation_id", Json::text(activation_id))
            .put("pane_id", Json::text(self.pane_id.as_str()))
            .put("session_id", Json::text(self.session_id.as_str()))
            .put("window_id", Json::text(self.window_id.as_str()))
            .put("window_name", Json::text(self.window_name.as_str()))
            .put("allocation_generation", Json::Unsigned(self.allocation_generation))
            .done()
    }

    pub fn tmux_pane(&self, activation_id: &str) -> (r: TmuxPane)
        ensures
            r.deep_view() == self.deep_view().pane(activation_id@),
    {
        TmuxPane::new_in_session(
            self.session_id.clone(),
            self.window_id.clone(),
            activation_id.to_string(),
            self.pane_id.clone(),
        )
    }
}

/// How agents are set to work in panes.
#[derive(Debug, PartialEq, Eq)]
pub struct DriverTmuxActuationConfig {
    pub prompt_submit_key_count: usize,
    pub agent_ready_pattern: Option<String>,
    pub agent_ready_timeout_ms: u64,
}

#[verifier::ext_equal]
pub struct DriverTmuxActuationConfigView {
    pub prompt_submit_key_count: usize,
    pub agent_ready_pattern: Option<Seq<char>>,
    pub agent_ready_timeout_ms: u64,
}

impl DeepView for DriverTmuxActuationConfig {
    type V = DriverTmuxActuationConfigView;

    open spec fn deep_view(&self) -> DriverTmuxActuationConfigView {
        DriverTmuxActuationConfigView {
            prompt_submit_key_count: self.prompt_submit_key_count,
            agent_ready_pattern: self.agent_ready_pattern.deep_view(),
            agent_ready_timeout_ms: self.agent_ready_timeout_ms,
        }
    }
}

impl Clone for DriverTmuxActuationConfig {
    fn clone(&self) -> (r: Self)
        ensures
            r.deep_view() == self.deep_view(),
    {
        DriverTmuxActuationConfig {
            prompt_submit_key_count: self.prompt_submit_key_count,
            agent_ready_pattern: self.agent_ready_pattern.clone(),
            agent_ready_timeout_ms: self.agent_ready_timeout_ms,
        }
    }
}

impl Comparable for DriverTmuxActuationConfig {
    fn same_as(&self, other: &Self) -> (r: bool) {
        self.prompt_submit_key_count == other.prompt_submit_key_count
            && same_option(&self.agent_ready_pattern, &other.agent_ready_pattern)
            && self.agent_ready_timeout_ms == other.agent_ready_timeout_ms
    }
}

impl DriverTmuxActuationConfigView {
    /// How it is stored.
    pub open spec fn json(self) -> JsonView {
        JsonView::Record(
            no_fields()
                .push(
                    (
                        "prompt_submit_key_count"@,
                        JsonView::Unsigned(self.prompt_submit_key_count as u64),
                    ),
                )
                .push(("agent_ready_pattern"@, option_text(self.agent_ready_pattern)))
                .push(("agent_ready_timeout_ms"@, JsonView::Unsigned(self.agent_ready_timeout_ms))),
        )
    }

    /// The fields in their order.
    pub open spec fn names() -> Seq<Seq<char>> {
        seq![
            "prompt_submit_key_count"@,
            "agent_ready_pattern"@,
            "agent_ready_timeout_ms"@,
        ]
    }

    /// How it is read, from an object or from a list; nothing where a field does not fit.
    pub open spec fn read(value: JsonView) -> Option<DriverTmuxActuationConfigView> {
        DriverTmuxActuationConfigView::read_record(arranged(value, DriverTmuxActuationConfigView::names(), 0))
    }

    /// How it is read from an object.
    pub open spec fn read_record(value: JsonView) -> Option<DriverTmuxActuationConfigView> {
        if value !is Record {
            None
        } else {
            if defaulted_count(value, "prompt_submit_key_count"@, 1) is Some
                && optional_text(value, "agent_ready_pattern"@) is Some
                && defaulted_unsigned(value, "agent_ready_timeout_ms"@, 30_000) is Some {
                Some(
                    DriverTmuxActuationConfigView {
                        prompt_submit_key_count: defaulted_count(
                            value,
                            "prompt_submit_key_count"@,
                            1,
                        )->Some_0,
                        agent_ready_pattern: optional_text(value, "agent_ready_pattern"@)->Some_0,
                        agent_ready_timeout_ms: defaulted_unsigned(
                            value,
                            "agent_ready_timeout_ms"@,
                            30_000,
                        )->Some_0,
                    },
                )
            } else {
                None
            }
        }
    }

    pub open spec fn read_at(
        value: JsonView,
        key: Seq<char>,
    ) -> Option<DriverTmuxActuationConfigView> {
        match field(value, key) {
            Some(item) => DriverTmuxActuationConfigView::read(item),
            None => None,
        }
    }

    pub open spec fn default_view() -> DriverTmuxActuationConfigView {
        DriverTmuxActuationConfigView { prompt_submit_key_count: 1, agent_ready_pattern: None, agent_ready_timeout_ms: 30_000 }
    }

    pub open spec fn read_or_default(
        value: JsonView,
        key: Seq<char>,
    ) -> Option<DriverTmuxActuationConfigView> {
        match field(value, key) {
            Some(item) => DriverTmuxActuationConfigView::read(item),
            None => Some(DriverTmuxActuationConfigView::default_view()),
        }
    }
}

impl DriverTmuxActuationConfig {
    pub fn to_json(&self) -> (r: Json)
        ensures
            r@ == self.deep_view().json(),
    {
        Fields::new()
            .put("prompt_submit_key_count", Json::Unsigned(self.prompt_submit_key_count as u64))
            .put("agent_ready_pattern", option_text_json(&self.agent_ready_pattern))
            .put("agent_ready_timeout_ms", Json::Unsigned(self.agent_ready_timeout_ms))
            .done()
    }

    pub fn from_json(value: &Json) -> (r: Option<Self>)
        ensures
            r.deep_view() == DriverTmuxActuationConfigView::read(value@),
    {
        let names = vec![
            "prompt_submit_key_count",
            "agent_ready_pattern",
            "agent_ready_timeout_ms",
        ];
        assert(names.deep_view() =~= DriverTmuxActuationConfigView::names());
        DriverTmuxActuationConfig::from_record(&arrange(value, &names, 0))
    }

    fn from_record(value: &Json) -> (r: Option<Self>)
        ensures
            r.deep_view() == DriverTmuxActuationConfigView::read_record(value@),
    {
        if !value.is_record() {
            return None;
        }
        let prompt_submit_key_count = match read_defaulted_count(
            value,
            "prompt_submit_key_count",
            1,
        ) {
            Some(item) => item,
            None => return None,
        };
        let agent_ready_pattern = match read_optional_text(value, "agent_ready_pattern") {
            Some(item) => item,
            None => return None,
        };
        let agent_ready_timeout_ms = match read_defaulted_unsigned(
            value,
            "agent_ready_timeout_ms",
            30_000,
        ) {
            Some(item) => item,
            None => return None,
        };
        Some(
            DriverTmuxActuationConfig { prompt_submit_key_count, agent_ready_pattern, agent_ready_timeout_ms },
        )
    }

    pub fn read_at(value: &Json, key: &str) -> (r: Option<Self>)
        ensures
            r.deep_view() == DriverTmuxActuationConfigView::read_at(value@, key@),
    {
        match value.get(key) {
            Some(item) => DriverTmuxActuationConfig::from_json(item),
            None => None,
        }
    }

    pub fn read_or_default(value: &Json, key: &str) -> (r: Option<Self>)
        ensures
            r.deep_view() == DriverTmuxActuationConfigView::read_or_default(value@, key@),
    {
        match value.get(key) {
            Some(item) => DriverTmuxActuationConfig::from_json(item),
            None => Some(DriverTmuxActuationConfig::default()),
        }
    }
}

/// What was stored is read back, in whatever order its fields stand.
pub proof fn lemma_driver_tmux_actuation_config_reads_back(item: DriverTmuxActuationConfigView)
    ensures
        DriverTmuxActuationConfigView::read(item.json()) == Some(item),
        DriverTmuxActuationConfigView::read(ordered(item.json())) == Some(item),
{
    reveal_strlit("prompt_submit_key_count");
    reveal_strlit("agent_ready_pattern");
    reveal_strlit("agent_ready_timeout_ms");
    assert("prompt_submit_key_count"@.len() == 23);
    assert("agent_ready_pattern"@.len() == 19);
    assert("agent_ready_timeout_ms"@.len() == 22);
    let value = item.json();
    let f0 = no_fields();
    let f1 = f0.push(
        ("prompt_submit_key_count"@, JsonView::Unsigned(item.prompt_submit_key_count as u64)),
    );
    let f2 = f1.push(("agent_ready_pattern"@, option_text(item.agent_ready_pattern)));
    let f3 = f2.push(("agent_ready_timeout_ms"@, JsonView::Unsigned(item.agent_ready_timeout_ms)));
    assert(distinct_keys(f3));
    assert(
        field(value, "prompt_submit_key_count"@) == Some(
            JsonView::Unsigned(item.prompt_submit_key_count as u64),
        )
    ) by {
        lemma_lookup_push(
            f2,
            "agent_ready_timeout_ms"@,
            JsonView::Unsigned(item.agent_ready_timeout_ms),
            "prompt_submit_key_count"@,
        );
        lemma_lookup_push(
            f1,
            "agent_ready_pattern"@,
            option_text(item.agent_ready_pattern),
            "prompt_submit_key_count"@,
        );
        lemma_lookup_push(
            f0,
            "prompt_submit_key_count"@,
            JsonView::Unsigned(item.prompt_submit_key_count as u64),
            "prompt_submit_key_count"@,
        );
    }
    lemma_ordered_field(f3, "prompt_submit_key_count"@);
    assert(field(value, "agent_ready_pattern"@) == Some(option_text(item.agent_ready_pattern))) by {
        lemma_lookup_push(
            f2,
            "agent_ready_timeout_ms"@,
            JsonView::Unsigned(item.agent_ready_timeout_ms),
            "agent_ready_pattern"@,
        );
        lemma_lookup_push(
            f1,
            "agent_ready_pattern"@,
            option_text(item.agent_ready_pattern),
            "agent_ready_pattern"@,
        );
    }
    lemma_ordered_field(f3, "agent_ready_pattern"@);
    assert(
        field(value, "agent_ready_timeout_ms"@) == Some(
            JsonView::Unsigned(item.agent_ready_timeout_ms),
        )
    ) by {
        lemma_lookup_push(
            f2,
            "agent_ready_timeout_ms"@,
            JsonView::Unsigned(item.agent_ready_timeout_ms),
            "agent_ready_timeout_ms"@,
        );
    }
    lemma_ordered_field(f3, "agent_ready_timeout_ms"@);
    assert(DriverTmuxActuationConfigView::read(value) == Some(item));
    assert(DriverTmuxActuationConfigView::read(ordered(value)) == Some(item));
}

impl Default for DriverTmuxActuationConfig {
    fn default() -> (r: Self)
        ensures
            r.deep_view() == DriverTmuxActuationConfigView::default_view(),
    {
        DriverTmuxActuationConfig {
            prompt_submit_key_count: 1,
            agent_ready_pattern: None,
            agent_ready_timeout_ms: 30_000,
        }
    }
}

/// A pane that is about to be made.
#[derive(Debug, PartialEq, Eq)]
pub struct TmuxPaneAllocationIntent {
    pub operation_id: String,
    pub activation_id: String,
    pub allocation_generation: u64,
    pub session_id: String,
    pub window_name: String,
    pub agent_command: String,
    pub actuation: DriverTmuxActuationConfig,
    pub existing_window_id: Option<String>,
}

#[verifier::ext_equal]
pub struct TmuxPaneAllocationIntentView {
    pub operation_id: Seq<char>,
    pub activation_id: Seq<char>,
    pub allocation_generation: u64,
    pub session_id: Seq<char>,
    pub window_name: Seq<char>,
    pub agent_command: Seq<char>,
    pub actuation: DriverTmuxActuationConfigView,
    pub existing_window_id: Option<Seq<char>>,
}

impl DeepView for TmuxPaneAllocationIntent {
    type V = TmuxPaneAllocationIntentView;

    open spec fn deep_view(&self) -> TmuxPaneAllocationIntentView {
        TmuxPaneAllocationIntentView {
            operation_id: self.operation_id@,
            activation_id: self.activation_id@,
            allocation_generation: self.allocation_generation,
            session_id: self.session_id@,
            window_name: self.window_name@,
            agent_command: self.agent_command@,
            actuation: self.actuation.deep_view(),
            existing_window_id: self.existing_window_id.deep_view(),
        }
    }
}

impl Clone for TmuxPaneAllocationIntent {
    fn clone(&self) -> (r: Self)
        ensures
            r.deep_view() == self.deep_view(),
    {
        TmuxPaneAllocationIntent {
            operation_id: self.operation_id.clone(),
            activation_id: self.activation_id.clone(),
            allocation_generation: self.allocation_generation,
            session_id: self.session_id.clone(),
            window_name: self.window_name.clone(),
            agent_command: self.agent_command.clone(),
            actuation: self.actuation.clone(),
            existing_window_id: self.existing_window_id.clone(),
        }
    }
}

impl Comparable for TmuxPaneAllocationIntent {
    fn same_as(&self, other: &Self) -> (r: bool) {
        same(self.operation_id.as_str(), other.operation_id.as_str())
            && same(self.activation_id.as_str(), other.activation_id.as_str())
            && self.allocation_generation == other.allocation_generation
            && same(self.session_id.as_str(), other.session_id.as_str())
            && same(self.window_name.as_str(), other.window_name.as_str())
            && same(self.agent_command.as_str(), other.agent_command.as_str())
            && self.actuation.same_as(&other.actuation)
            && same_option(&self.existing_window_id, &other.existing_window_id)
    }
}

impl TmuxPaneAllocationIntentView {
    /// How it is stored.
    pub open spec fn json(self) -> JsonView {
        JsonView::Record(
            no_fields()
                .push(("operation_id"@, JsonView::Text(self.operation_id)))
                .push(("activation_id"@, JsonView::Text(self.activation_id)))
                .push(("allocation_generation"@, JsonView::Unsigned(self.allocation_generation)))
                .push(("session_id"@, JsonView::Text(self.session_id)))
                .push(("window_name"@, JsonView::Text(self.window_name)))
                .push(("agent_command"@, JsonView::Text(self.agent_command)))
                .push(("actuation"@, self.actuation.json()))
                .push(("existing_window_id"@, option_text(self.existing_window_id))),
        )
    }

    /// The fields in their order.
    pub open spec fn names() -> Seq<Seq<char>> {
        seq![
            "operation_id"@,
            "activation_id"@,
            "allocation_generation"@,
            "session_id"@,
            "window_name"@,
            "agent_command"@,
            "actuation"@,
            "existing_window_id"@,
        ]
    }

    /// How it is read, from an object or from a list; nothing where a field does not fit.
    pub open spec fn read(value: JsonView) -> Option<TmuxPaneAllocationIntentView> {
        TmuxPaneAllocationIntentView::read_record(arranged(value, TmuxPaneAllocationIntentView::names(), 8))
    }

    /// How it is read from an object.
    pub open spec fn read_record(value: JsonView) -> Option<TmuxPaneAllocationIntentView> {
        if value !is Record {
            None
        } else {
            if text_field(value, "operation_id"@) is Some
                && text_field(value, "activation_id"@) is Some
                && unsigned_field(value, "allocation_generation"@) is Some
                && text_field(value, "session_id"@) is Some
                && text_field(value, "window_name"@) is Some
                && text_field(value, "agent_command"@) is Some
                && DriverTmuxActuationConfigView::read_or_default(value, "actuation"@) is Some
                && optional_text(value, "existing_window_id"@) is Some {
                Some(
                    TmuxPaneAllocationIntentView {
                        operation_id: text_field(value, "operation_id"@)->Some_0,
                        activation_id: text_field(value, "activation_id"@)->Some_0,
                        allocation_generation: unsigned_field(
                            value,
                            "allocation_generation"@,
                        )->Some_0,
                        session_id: text_field(value, "session_id"@)->Some_0,
                        window_name: text_field(value, "window_name"@)->Some_0,
                        agent_command: text_field(value, "agent_command"@)->Some_0,
                        actuation: DriverTmuxActuationConfigView::read_or_default(value, "actuation"@)->Some_0,
                        existing_window_id: optional_text(value, "existing_window_id"@)->Some_0,
                    },
                )
            } else {
                None
            }
        }
    }

    pub open spec fn read_at(
        value: JsonView,
        key: Seq<char>,
    ) -> Option<TmuxPaneAllocationIntentView> {
        match field(value, key) {
            Some(item) => TmuxPaneAllocationIntentView::read(item),
            None => None,
        }
    }
}

impl TmuxPaneAllocationIntent {
    pub fn to_json(&self) -> (r: Json)
        ensures
            r@ == self.deep_view().json(),
    {
        Fields::new()
            .put("operation_id", Json::text(self.operation_id.as_str()))
            .put("activation_id", Json::text(self.activation_id.as_str()))
            .put("allocation_generation", Json::Unsigned(self.allocation_generation))
            .put("session_id", Json::text(self.session_id.as_str()))
            .put("window_name", Json::text(self.window_name.as_str()))
            .put("agent_command", Json::text(self.agent_command.as_str()))
            .put("actuation", self.actuation.to_json())
            .put("existing_window_id", option_text_json(&self.existing_window_id))
            .done()
    }

    pub fn from_json(value: &Json) -> (r: Option<Self>)
        ensures
            r.deep_view() == TmuxPaneAllocationIntentView::read(value@),
    {
        let names = vec![
            "operation_id",
            "activation_id",
            "allocation_generation",
            "session_id",
            "window_name",
            "agent_command",
            "actuation",
            "existing_window_id",
        ];
        assert(names.deep_view() =~= TmuxPaneAllocationIntentView::names());
        TmuxPaneAllocationIntent::from_record(&arrange(value, &names, 8))
    }

    fn from_record(value: &Json) -> (r: Option<Self>)
        ensures
            r.deep_view() == TmuxPaneAllocationIntentView::read_record(value@),
    {
        if !value.is_record() {
            return None;
        }
        let operation_id = match read_text(value, "operation_id") {
            Some(item) => item,
            None => return None,
        };
        let activation_id = match read_text(value, "activation_id") {
            Some(item) => item,
            None => return None,
        };
        let allocation_generation = match value.unsigned_at("allocation_generation") {
            Some(item) => item,
            None => return None,
        };
        let session_id = match read_text(value, "session_id") {
            Some(item) => item,
            None => return None,
        };
        let window_name = match read_text(value, "window_name") {
            Some(item) => item,
            None => return None,
        };
        let agent_command = match read_text(value, "agent_command") {
            Some(item) => item,
            None => return None,
        };
        let actuation = match DriverTmuxActuationConfig::read_or_default(value, "actuation") {
            Some(item) => item,
            None => return None,
        };
        let existing_window_id = match read_optional_text(value, "existing_window_id") {
            Some(item) => item,
            None => return None,
        };
        Some(
            TmuxPaneAllocationIntent { operation_id, activation_id, allocation_generation, session_id, window_name, agent_command, actuation, existing_window_id },
        )
    }

    pub fn read_at(value: &Json, key: &str) -> (r: Option<Self>)
        ensures
            r.deep_view() == TmuxPaneAllocationIntentView::read_at(value@, key@),
    {
        match value.get(key) {
            Some(item) => TmuxPaneAllocationIntent::from_json(item),
            None => None,
        }
    }
}

/// What was stored is read back, in whatever order its fields stand.
pub proof fn lemma_tmux_pane_allocation_intent_reads_back(item: TmuxPaneAllocationIntentView)
    ensures
        TmuxPaneAllocationIntentView::read(item.json()) == Some(item),
        TmuxPaneAllocationIntentView::read(ordered(item.json())) == Some(item),
{
    reveal_strlit("operation_id");
    reveal_strlit("activation_id");
    reveal_strlit("allocation_generation");
    reveal_strlit("session_id");
    reveal_strlit("window_name");
    reveal_strlit("agent_command");
    reveal_strlit("actuation");
    reveal_strlit("existing_window_id");
    assert("operation_id"@.len() == 12);
    assert("activation_id"@.len() == 13);
    assert("allocation_generation"@.len() == 21);
    assert("session_id"@.len() == 10);
    assert("window_name"@.len() == 11);
    assert("agent_command"@.len() == 13);
    assert("actuation"@.len() == 9);
    assert("existing_window_id"@.len() == 18);
    assert("activation_id"@[1] != "agent_command"@[1]);
    let value = item.json();
    let f0 = no_fields();
    let f1 = f0.push(("operation_id"@, JsonView::Text(item.operation_id)));
    let f2 = f1.push(("activation_id"@, JsonView::Text(item.activation_id)));
    let f3 = f2.push(("allocation_generation"@, JsonView::Unsigned(item.allocation_generation)));
    let f4 = f3.push(("session_id"@, JsonView::Text(item.session_id)));
    let f5 = f4.push(("window_name"@, JsonView::Text(item.window_name)));
    let f6 = f5.push(("agent_command"@, JsonView::Text(item.agent_command)));
    let f7 = f6.push(("actuation"@, item.actuation.json()));
    let f8 = f7.push(("existing_window_id"@, option_text(item.existing_window_id)));
    assert(distinct_keys(f8));
    assert(field(value, "operation_id"@) == Some(JsonView::Text(item.operation_id))) by {
        lemma_lookup_push(
            f7,
            "existing_window_id"@,
            option_text(item.existing_window_id),
            "operation_id"@,
        );
        lemma_lookup_push(f6, "actuation"@, item.actuation.json(), "operation_id"@);
        lemma_lookup_push(
            f5,
            "agent_command"@,
            JsonView::Text(item.agent_command),
            "operation_id"@,
        );
        lemma_lookup_push(f4, "window_name"@, JsonView::Text(item.window_name), "operation_id"@);
        lemma_lookup_push(f3, "session_id"@, JsonView::Text(item.session_id), "operation_id"@);
        lemma_lookup_push(
            f2,
            "allocation_generation"@,
            JsonView::Unsigned(item.allocation_generation),
            "operation_id"@,
        );
        lemma_lookup_push(
            f1,
            "activation_id"@,
            JsonView::Text(item.activation_id),
            "operation_id"@,
        );
        lemma_lookup_push(f0, "operation_id"@, JsonView::Text(item.operation_id), "operation_id"@);
    }
    lemma_ordered_field(f8, "operation_id"@);
    assert(field(value, "activation_id"@) == Some(JsonView::Text(item.activation_id))) by {
        lemma_lookup_push(
            f7,
            "existing_window_id"@,
            option_text(item.existing_window_id),
            "activation_id"@,
        );
        lemma_lookup_push(f6, "actuation"@, item.actuation.json(), "activation_id"@);
        lemma_lookup_push(
            f5,
            "agent_command"@,
            JsonView::Text(item.agent_command),
            "activation_id"@,
        );
        lemma_lookup_push(f4, "window_name"@, JsonView::Text(item.window_name), "activation_id"@);
        lemma_lookup_push(f3, "session_id"@, JsonView::Text(item.session_id), "activation_id"@);
        lemma_lookup_push(
            f2,
            "allocation_generation"@,
            JsonView::Unsigned(item.allocation_generation),
            "activation_id"@,
        );
        lemma_lookup_push(
            f1,
            "activation_id"@,
            JsonView::Text(item.activation_id),
            "activation_id"@,
        );
    }
    lemma_ordered_field(f8, "activation_id"@);
    assert(
        field(value, "allocation_generation"@) == Some(
            JsonView::Unsigned(item.allocation_generation),
        )
    ) by {
        lemma_lookup_push(
            f7,
            "existing_window_id"@,
            option_text(item.existing_window_id),
            "allocation_generation"@,
        );
        lemma_lookup_push(f6, "actuation"@, item.actuation.json(), "allocation_generation"@);
        lemma_lookup_push(
            f5,
            "agent_command"@,
            JsonView::Text(item.agent_command),
            "allocation_generation"@,
        );
        lemma_lookup_push(
            f4,
            "window_name"@,
            JsonView::Text(item.window_name),
            "allocation_generation"@,
        );
        lemma_lookup_push(
            f3,
            "session_id"@,
            JsonView::Text(item.session_id),
            "allocation_generation"@,
        );
        lemma_lookup_push(
            f2,
            "allocation_generation"@,
            JsonView::Unsigned(item.allocation_generation),
            "allocation_generation"@,
        );
    }
    lemma_ordered_field(f8, "allocation_generation"@);
    assert(field(value, "session_id"@) == Some(JsonView::Text(item.session_id))) by {
        lemma_lookup_push(
            f7,
            "existing_window_id"@,
            option_text(item.existing_window_id),
            "session_id"@,
        );
        lemma_lookup_push(f6, "actuation"@, item.actuation.json(), "session_id"@);
        lemma_lookup_push(f5, "agent_command"@, JsonView::Text(item.agent_command), "session_id"@);
        lemma_lookup_push(f4, "window_name"@, JsonView::Text(item.window_name), "session_id"@);
        lemma_lookup_push(f3, "session_id"@, JsonView::Text(item.session_id), "session_id"@);
    }
    lemma_ordered_field(f8, "session_id"@);
    assert(field(value, "window_name"@) == Some(JsonView::Text(item.window_name))) by {
        lemma_lookup_push(
            f7,
            "existing_window_id"@,
            option_text(item.existing_window_id),
            "window_name"@,
        );
        lemma_lookup_push(f6, "actuation"@, item.actuation.json(), "window_name"@);
        lemma_lookup_push(f5, "agent_command"@, JsonView::Text(item.agent_command), "window_name"@);
        lemma_lookup_push(f4, "window_name"@, JsonView::Text(item.window_name), "window_name"@);
    }
    lemma_ordered_field(f8, "window_name"@);
    assert(field(value, "agent_command"@) == Some(JsonView::Text(item.agent_command))) by {
        lemma_lookup_push(
            f7,
            "existing_window_id"@,
            option_text(item.existing_window_id),
            "agent_command"@,
        );
        lemma_lookup_push(f6, "actuation"@, item.actuation.json(), "agent_command"@);
        lemma_lookup_push(
            f5,
            "agent_command"@,
            JsonView::Text(item.agent_command),
            "agent_command"@,
        );
    }
    lemma_ordered_field(f8, "agent_command"@);
    assert(field(value, "actuation"@) == Some(item.actuation.json())) by {
        lemma_lookup_push(
            f7,
            "existing_window_id"@,
            option_text(item.existing_window_id),
            "actuation"@,
        );
        lemma_lookup_push(f6, "actuation"@, item.actuation.json(), "actuation"@);
    }
    lemma_ordered_field(f8, "actuation"@);
    assert(field(value, "existing_window_id"@) == Some(option_text(item.existing_window_id))) by {
        lemma_lookup_push(
            f7,
            "existing_window_id"@,
            option_text(item.existing_window_id),
            "existing_window_id"@,
        );
    }
    lemma_ordered_field(f8, "existing_window_id"@);
    lemma_driver_tmux_actuation_config_reads_back(item.actuation);
    assert(TmuxPaneAllocationIntentView::read(value) == Some(item));
    assert(TmuxPaneAllocationIntentView::read(ordered(value)) == Some(item));
}

/// A pane that is about to be ended.
#[derive(Debug, PartialEq, Eq)]
pub struct TmuxPaneCleanupIntent {
    pub operation_id: String,
    pub run_id: String,
    pub activation_id: String,
    pub allocation_generation: u64,
    pub pane: StoredPane,
    pub reason: String,
}

#[verifier::ext_equal]
pub struct TmuxPaneCleanupIntentView {
    pub operation_id: Seq<char>,
    pub run_id: Seq<char>,
    pub activation_id: Seq<char>,
    pub allocation_generation: u64,
    pub pane: StoredPaneView,
    pub reason: Seq<char>,
}

impl DeepView for TmuxPaneCleanupIntent {
    type V = TmuxPaneCleanupIntentView;

    open spec fn deep_view(&self) -> TmuxPaneCleanupIntentView {
        TmuxPaneCleanupIntentView {
            operation_id: self.operation_id@,
            run_id: self.run_id@,
            activation_id: self.activation_id@,
            allocation_generation: self.allocation_generation,
            pane: self.pane.deep_view(),
            reason: self.reason@,
        }
    }
}

impl Clone for TmuxPaneCleanupIntent {
    fn clone(&self) -> (r: Self)
        ensures
            r.deep_view() == self.deep_view(),
    {
        TmuxPaneCleanupIntent {
            operation_id: self.operation_id.clone(),
            run_id: self.run_id.clone(),
            activation_id: self.activation_id.clone(),
            allocation_generation: self.allocation_generation,
            pane: self.pane.clone(),
            reason: self.reason.clone(),
        }
    }
}

impl Comparable for TmuxPaneCleanupIntent {
    fn same_as(&self, other: &Self) -> (r: bool) {
        same(self.operation_id.as_str(), other.operation_id.as_str())
            && same(self.run_id.as_str(), other.run_id.as_str())
            && same(self.activation_id.as_str(), other.activation_id.as_str())
            && self.allocation_generation == other.allocation_generation
            && self.pane.same_as(&other.pane)
            && same(self.reason.as_str(), other.reason.as_str())
    }
}

impl TmuxPaneCleanupIntentView {
    /// How it is stored.
    pub open spec fn json(self) -> JsonView {
        JsonView::Record(
            no_fields()
                .push(("operation_id"@, JsonView::Text(self.operation_id)))
                .push(("run_id"@, JsonView::Text(self.run_id)))
                .push(("activation_id"@, JsonView::Text(self.activation_id)))
                .push(("allocation_generation"@, JsonView::Unsigned(self.allocation_generation)))
                .push(("pane"@, self.pane.json()))
                .push(("reason"@, JsonView::Text(self.reason))),
        )
    }

    /// The fields in their order.
    pub open spec fn names() -> Seq<Seq<char>> {
        seq![
            "operation_id"@,
            "run_id"@,
            "activation_id"@,
            "allocation_generation"@,
            "pane"@,
            "reason"@,
        ]
    }

    /// How it is read, from an object or from a list; nothing where a field does not fit.
    pub open spec fn read(value: JsonView) -> Option<TmuxPaneCleanupIntentView> {
        TmuxPaneCleanupIntentView::read_record(arranged(value, TmuxPaneCleanupIntentView::names(), 6))
    }

    /// How it is read from an object.
    pub open spec fn read_record(value: JsonView) -> Option<TmuxPaneCleanupIntentView> {
        if value !is Record {
            None
        } else {
            if text_field(value, "operation_id"@) is Some
                && text_field(value, "run_id"@) is Some
                && text_field(value, "activation_id"@) is Some
                && unsigned_field(value, "allocation_generation"@) is Some
                && StoredPaneView::read_at(value, "pane"@) is Some
                && text_field(value, "reason"@) is Some {
                Some(
                    TmuxPaneCleanupIntentView {
                        operation_id: text_field(value, "operation_id"@)->Some_0,
                        run_id: text_field(value, "run_id"@)->Some_0,
                        activation_id: text_field(value, "activation_id"@)->Some_0,
                        allocation_generation: unsigned_field(
                            value,
                            "allocation_generation"@,
                        )->Some_0,
                        pane: StoredPaneView::read_at(value, "pane"@)->Some_0,
                        reason: text_field(value, "reason"@)->Some_0,
                    },
                )
            } else {
                None
            }
        }
    }

    pub open spec fn read_at(value: JsonView, key: Seq<char>) -> Option<TmuxPaneCleanupIntentView> {
        match field(value, key) {
            Some(item) => TmuxPaneCleanupIntentView::read(item),
            None => None,
        }
    }
}

impl TmuxPaneCleanupIntent {
    pub fn to_json(&self) -> (r: Json)
        ensures
            r@ == self.deep_view().json(),
    {
        Fields::new()
            .put("operation_id", Json::text(self.operation_id.as_str()))
            .put("run_id", Json::text(self.run_id.as_str()))
            .put("activation_id", Json::text(self.activation_id.as_str()))
            .put("allocation_generation", Json::Unsigned(self.allocation_generation))
            .put("pane", self.pane.to_json())
            .put("reason", Json::text(self.reason.as_str()))
            .done()
    }

    pub fn from_json(value: &Json) -> (r: Option<Self>)
        ensures
            r.deep_view() == TmuxPaneCleanupIntentView::read(value@),
    {
        let names = vec![
            "operation_id",
            "run_id",
            "activation_id",
            "allocation_generation",
            "pane",
            "reason",
        ];
        assert(names.deep_view() =~= TmuxPaneCleanupIntentView::names());
        TmuxPaneCleanupIntent::from_record(&arrange(value, &names, 6))
    }

    fn from_record(value: &Json) -> (r: Option<Self>)
        ensures
            r.deep_view() == TmuxPaneCleanupIntentView::read_record(value@),
    {
        if !value.is_record() {
            return None;
        }
        let operation_id = match read_text(value, "operation_id") {
            Some(item) => item,
            None => return None,
        };
        let run_id = match read_text(value, "run_id") {
            Some(item) => item,
            None => return None,
        };
        let activation_id = match read_text(value, "activation_id") {
            Some(item) => item,
            None => return None,
        };
        let allocation_generation = match value.unsigned_at("allocation_generation") {
            Some(item) => item,
            None => return None,
        };
        let pane = match StoredPane::read_at(value, "pane") {
            Some(item) => item,
            None => return None,
        };
        let reason = match read_text(value, "reason") {
            Some(item) => item,
            None => return None,
        };
        Some(
            TmuxPaneCleanupIntent { operation_id, run_id, activation_id, allocation_generation, pane, reason },
        )
    }

    pub fn read_at(value: &Json, key: &str) -> (r: Option<Self>)
        ensures
            r.deep_view() == TmuxPaneCleanupIntentView::read_at(value@, key@),
    {
        match value.get(key) {
            Some(item) => TmuxPaneCleanupIntent::from_json(item),
            None => None,
        }
    }
}

/// What was stored is read back, in whatever order its fields stand.
pub proof fn lemma_tmux_pane_cleanup_intent_reads_back(item: TmuxPaneCleanupIntentView)
    ensures
        TmuxPaneCleanupIntentView::read(item.json()) == Some(item),
        TmuxPaneCleanupIntentView::read(ordered(item.json())) == Some(item),
{
    reveal_strlit("operation_id");
    reveal_strlit("run_id");
    reveal_strlit("activation_id");
    reveal_strlit("allocation_generation");
    reveal_strlit("pane");
    reveal_strlit("reason");
    assert("operation_id"@.len() == 12);
    assert("run_id"@.len() == 6);
    assert("activation_id"@.len() == 13);
    assert("allocation_generation"@.len() == 21);
    assert("pane"@.len() == 4);
    assert("reason"@.len() == 6);
    assert("run_id"@[1] != "reason"@[1]);
    let value = item.json();
    let f0 = no_fields();
    let f1 = f0.push(("operation_id"@, JsonView::Text(item.operation_id)));
    let f2 = f1.push(("run_id"@, JsonView::Text(item.run_id)));
    let f3 = f2.push(("activation_id"@, JsonView::Text(item.activation_id)));
    let f4 = f3.push(("allocation_generation"@, JsonView::Unsigned(item.allocation_generation)));
    let f5 = f4.push(("pane"@, item.pane.json()));
    let f6 = f5.push(("reason"@, JsonView::Text(item.reason)));
    assert(distinct_keys(f6));
    assert(field(value, "operation_id"@) == Some(JsonView::Text(item.operation_id))) by {
        lemma_lookup_push(f5, "reason"@, JsonView::Text(item.reason), "operation_id"@);
        lemma_lookup_push(f4, "pane"@, item.pane.json(), "operation_id"@);
        lemma_lookup_push(
            f3,
            "allocation_generation"@,
            JsonView::Unsigned(item.allocation_generation),
            "operation_id"@,
        );
        lemma_lookup_push(
            f2,
            "activation_id"@,
            JsonView::Text(item.activation_id),
            "operation_id"@,
        );
        lemma_lookup_push(f1, "run_id"@, JsonView::Text(item.run_id), "operation_id"@);
        lemma_lookup_push(f0, "operation_id"@, JsonView::Text(item.operation_id), "operation_id"@);
    }
    lemma_ordered_field(f6, "operation_id"@);
    assert(field(value, "run_id"@) == Some(JsonView::Text(item.run_id))) by {
        lemma_lookup_push(f5, "reason"@, JsonView::Text(item.reason), "run_id"@);
        lemma_lookup_push(f4, "pane"@, item.pane.json(), "run_id"@);
        lemma_lookup_push(
            f3,
            "allocation_generation"@,
            JsonView::Unsigned(item.allocation_generation),
            "run_id"@,
        );
        lemma_lookup_push(f2, "activation_id"@, JsonView::Text(item.activation_id), "run_id"@);
        lemma_lookup_push(f1, "run_id"@, JsonView::Text(item.run_id), "run_id"@);
    }
    lemma_ordered_field(f6, "run_id"@);
    assert(field(value, "activation_id"@) == Some(JsonView::Text(item.activation_id))) by {
        lemma_lookup_push(f5, "reason"@, JsonView::Text(item.reason), "activation_id"@);
        lemma_lookup_push(f4, "pane"@, item.pane.json(), "activation_id"@);
        lemma_lookup_push(
            f3,
            "allocation_generation"@,
            JsonView::Unsigned(item.allocation_generation),
            "activation_id"@,
        );
        lemma_lookup_push(
            f2,
            "activation_id"@,
            JsonView::Text(item.activation_id),
            "activation_id"@,
        );
    }
    lemma_ordered_field(f6, "activation_id"@);
    assert(
        field(value, "allocation_generation"@) == Some(
            JsonView::Unsigned(item.allocation_generation),
        )
    ) by {
        lemma_lookup_push(f5, "reason"@, JsonView::Text(item.reason), "allocation_generation"@);
        lemma_lookup_push(f4, "pane"@, item.pane.json(), "allocation_generation"@);
        lemma_lookup_push(
            f3,
            "allocation_generation"@,
            JsonView::Unsigned(item.allocation_generation),
            "allocation_generation"@,
        );
    }
    lemma_ordered_field(f6, "allocation_generation"@);
    assert(field(value, "pane"@) == Some(item.pane.json())) by {
        lemma_lookup_push(f5, "reason"@, JsonView::Text(item.reason), "pane"@);
        lemma_lookup_push(f4, "pane"@, item.pane.json(), "pane"@);
    }
    lemma_ordered_field(f6, "pane"@);
    assert(field(value, "reason"@) == Some(JsonView::Text(item.reason))) by {
        lemma_lookup_push(f5, "reason"@, JsonView::Text(item.reason), "reason"@);
    }
    lemma_ordered_field(f6, "reason"@);
    lemma_stored_pane_reads_back(item.pane);
    assert(TmuxPaneCleanupIntentView::read(value) == Some(item));
    assert(TmuxPaneCleanupIntentView::read(ordered(value)) == Some(item));
}

/// How the identity of a file is stored.
pub open spec fn identity_json(identity: PipeSinkIdentity) -> JsonView {
    JsonView::Record(
        no_fields()
            .push(("dev"@, JsonView::Unsigned(identity.dev)))
            .push(("ino"@, JsonView::Unsigned(identity.ino)))
            .push(("uid"@, JsonView::Unsigned(identity.uid as u64)))
            .push(("mode"@, JsonView::Unsigned(identity.mode as u64)))
            .push(("nlink"@, JsonView::Unsigned(identity.nlink))),
    )
}

pub fn identity_to_json(identity: PipeSinkIdentity) -> (r: Json)
    ensures
        r@ == identity_json(identity),
{
    Fields::new()
        .put("dev", Json::Unsigned(identity.dev))
        .put("ino", Json::Unsigned(identity.ino))
        .put("uid", Json::Unsigned(identity.uid as u64))
        .put("mode", Json::Unsigned(identity.mode as u64))
        .put("nlink", Json::Unsigned(identity.nlink))
        .done()
}

/// The fields of the identity of a file in their order.
pub open spec fn identity_names() -> Seq<Seq<char>> {
    seq!["dev"@, "ino"@, "uid"@, "mode"@, "nlink"@]
}

/// How the identity of a file is read, from an object or from a list.
pub open spec fn identity_of(value: JsonView) -> Option<PipeSinkIdentity> {
    identity_in(arranged(value, identity_names(), 5))
}

/// How the identity of a file is read from an object.
pub open spec fn identity_in(value: JsonView) -> Option<PipeSinkIdentity> {
    if value is Record && unsigned_field(value, "dev"@) is Some
        && unsigned_field(value, "ino"@) is Some
        && small_unsigned(value, "uid"@) is Some
        && small_unsigned(value, "mode"@) is Some
        && unsigned_field(value, "nlink"@) is Some {
        Some(
            PipeSinkIdentity {
                dev: unsigned_field(value, "dev"@)->Some_0,
                ino: unsigned_field(value, "ino"@)->Some_0,
                uid: small_unsigned(value, "uid"@)->Some_0,
                mode: small_unsigned(value, "mode"@)->Some_0,
                nlink: unsigned_field(value, "nlink"@)->Some_0,
            },
        )
    } else {
        None
    }
}

pub open spec fn identity_at(value: JsonView, key: Seq<char>) -> Option<PipeSinkIdentity> {
    match field(value, key) {
        Some(item) => identity_of(item),
        None => None,
    }
}

pub fn read_identity_at(value: &Json, key: &str) -> (r: Option<PipeSinkIdentity>)
    ensures
        r == identity_at(value@, key@),
{
    match value.get(key) {
        Some(item) => {
            let names = vec!["dev", "ino", "uid", "mode", "nlink"];
            assert(names.deep_view() =~= identity_names());
            let item = &arrange(item, &names, 5);
            if !item.is_record() {
                return None;
            }
            let dev = match item.unsigned_at("dev") {
                Some(item) => item,
                None => return None,
            };
            let ino = match item.unsigned_at("ino") {
                Some(item) => item,
                None => return None,
            };
            let uid = match read_small_unsigned(item, "uid") {
                Some(item) => item,
                None => return None,
            };
            let mode = match read_small_unsigned(item, "mode") {
                Some(item) => item,
                None => return None,
            };
            let nlink = match item.unsigned_at("nlink") {
                Some(item) => item,
                None => return None,
            };
            Some(PipeSinkIdentity { dev, ino, uid, mode, nlink })
        },
        None => None,
    }
}

/// The identity of a file is read back as it was stored.
pub proof fn lemma_identity_reads_back(item: PipeSinkIdentity)
    ensures
        identity_of(identity_json(item)) == Some(item),
        identity_of(ordered(identity_json(item))) == Some(item),
{
    reveal_strlit("dev");
    reveal_strlit("ino");
    reveal_strlit("uid");
    reveal_strlit("mode");
    reveal_strlit("nlink");
    assert("dev"@.len() == 3);
    assert("ino"@.len() == 3);
    assert("uid"@.len() == 3);
    assert("mode"@.len() == 4);
    assert("nlink"@.len() == 5);
    assert("dev"@[0] != "ino"@[0]);
    assert("dev"@[0] != "uid"@[0]);
    assert("ino"@[0] != "uid"@[0]);
    let value = identity_json(item);
    let f0 = no_fields();
    let f1 = f0.push(("dev"@, JsonView::Unsigned(item.dev)));
    let f2 = f1.push(("ino"@, JsonView::Unsigned(item.ino)));
    let f3 = f2.push(("uid"@, JsonView::Unsigned(item.uid as u64)));
    let f4 = f3.push(("mode"@, JsonView::Unsigned(item.mode as u64)));
    let f5 = f4.push(("nlink"@, JsonView::Unsigned(item.nlink)));
    assert(distinct_keys(f5));
    assert(field(value, "dev"@) == Some(JsonView::Unsigned(item.dev))) by {
        lemma_lookup_push(f4, "nlink"@, JsonView::Unsigned(item.nlink), "dev"@);
        lemma_lookup_push(f3, "mode"@, JsonView::Unsigned(item.mode as u64), "dev"@);
        lemma_lookup_push(f2, "uid"@, JsonView::Unsigned(item.uid as u64), "dev"@);
        lemma_lookup_push(f1, "ino"@, JsonView::Unsigned(item.ino), "dev"@);
        lemma_lookup_push(f0, "dev"@, JsonView::Unsigned(item.dev), "dev"@);
    }
    lemma_ordered_field(f5, "dev"@);
    assert(field(value, "ino"@) == Some(JsonView::Unsigned(item.ino))) by {
        lemma_lookup_push(f4, "nlink"@, JsonView::Unsigned(item.nlink), "ino"@);
        lemma_lookup_push(f3, "mode"@, JsonView::Unsigned(item.mode as u64), "ino"@);
        lemma_lookup_push(f2, "uid"@, JsonView::Unsigned(item.uid as u64), "ino"@);
        lemma_lookup_push(f1, "ino"@, JsonView::Unsigned(item.ino), "ino"@);
    }
    lemma_ordered_field(f5, "ino"@);
    assert(field(value, "uid"@) == Some(JsonView::Unsigned(item.uid as u64))) by {
        lemma_lookup_push(f4, "nlink"@, JsonView::Unsigned(item.nlink), "uid"@);
        lemma_lookup_push(f3, "mode"@, JsonView::Unsigned(item.mode as u64), "uid"@);
        lemma_lookup_push(f2, "uid"@, JsonView::Unsigned(item.uid as u64), "uid"@);
    }
    lemma_ordered_field(f5, "uid"@);
    assert(field(value, "mode"@) == Some(JsonView::Unsigned(item.mode as u64))) by {
        lemma_lookup_push(f4, "nlink"@, JsonView::Unsigned(item.nlink), "mode"@);
        lemma_lookup_push(f3, "mode"@, JsonView::Unsigned(item.mode as u64), "mode"@);
    }
    lemma_ordered_field(f5, "mode"@);
    assert(field(value, "nlink"@) == Some(JsonView::Unsigned(item.nlink))) by {
        lemma_lookup_push(f4, "nlink"@, JsonView::Unsigned(item.nlink), "nlink"@);
    }
    lemma_ordered_field(f5, "nlink"@);
}

/// A helper that is about to be started on a pane.
#[derive(Debug, PartialEq, Eq)]
pub struct TmuxPipeCaptureIntent {
    pub operation_id: String,
    pub activation_id: String,
    pub allocation_generation: u64,
    pub pane: StoredPane,
    pub transcript_relative_path: String,
    pub transcript_identity: PipeSinkIdentity,
    pub ack_relative_path: String,
    pub completion_relative_path: String,
    pub ack_nonce: String,
}

#[verifier::ext_equal]
pub struct TmuxPipeCaptureIntentView {
    pub operation_id: Seq<char>,
    pub activation_id: Seq<char>,
    pub allocation_generation: u64,
    pub pane: StoredPaneView,
    pub transcript_relative_path: Seq<char>,
    pub transcript_identity: PipeSinkIdentity,
    pub ack_relative_path: Seq<char>,
    pub completion_relative_path: Seq<char>,
    pub ack_nonce: Seq<char>,
}

impl DeepView for TmuxPipeCaptureIntent {
    type V = TmuxPipeCaptureIntentView;

    open spec fn deep_view(&self) -> TmuxPipeCaptureIntentView {
        TmuxPipeCaptureIntentView {
            operation_id: self.operation_id@,
            activation_id: self.activation_id@,
            allocation_generation: self.allocation_generation,
            pane: self.pane.deep_view(),
            transcript_relative_path: self.transcript_relative_path@,
            transcript_identity: self.transcript_identity,
            ack_relative_path: self.ack_relative_path@,
            completion_relative_path: self.completion_relative_path@,
            ack_nonce: self.ack_nonce@,
        }
    }
}

impl Clone for TmuxPipeCaptureIntent {
    fn clone(&self) -> (r: Self)
        ensures
            r.deep_view() == self.deep_view(),
    {
        TmuxPipeCaptureIntent {
            operation_id: self.operation_id.clone(),
            activation_id: self.activation_id.clone(),
            allocation_generation: self.allocation_generation,
            pane: self.pane.clone(),
            transcript_relative_path: self.transcript_relative_path.clone(),
            transcript_identity: self.transcript_identity,
            ack_relative_path: self.ack_relative_path.clone(),
            completion_relative_path: self.completion_relative_path.clone(),
            ack_nonce: self.ack_nonce.clone(),
        }
    }
}

impl Comparable for TmuxPipeCaptureIntent {
    fn same_as(&self, other: &Self) -> (r: bool) {
        same(self.operation_id.as_str(), other.operation_id.as_str())
            && same(self.activation_id.as_str(), other.activation_id.as_str())
            && self.allocation_generation == other.allocation_generation
            && self.pane.same_as(&other.pane)
            && same(self.transcript_relative_path.as_str(), other.transcript_relative_path.as_str())
            && self.transcript_identity == other.transcript_identity
            && same(self.ack_relative_path.as_str(), other.ack_relative_path.as_str())
            && same(self.completion_relative_path.as_str(), other.completion_relative_path.as_str())
            && same(self.ack_nonce.as_str(), other.ack_nonce.as_str())
    }
}

impl TmuxPipeCaptureIntentView {
    /// How it is stored.
    pub open spec fn json(self) -> JsonView {
        JsonView::Record(
            no_fields()
                .push(("operation_id"@, JsonView::Text(self.operation_id)))
                .push(("activation_id"@, JsonView::Text(self.activation_id)))
                .push(("allocation_generation"@, JsonView::Unsigned(self.allocation_generation)))
                .push(("pane"@, self.pane.json()))
                .push(("transcript_relative_path"@, JsonView::Text(self.transcript_relative_path)))
                .push(("transcript_identity"@, identity_json(self.transcript_identity)))
                .push(("ack_relative_path"@, JsonView::Text(self.ack_relative_path)))
                .push(("completion_relative_path"@, JsonView::Text(self.completion_relative_path)))
                .push(("ack_nonce"@, JsonView::Text(self.ack_nonce))),
        )
    }

    /// The fields in their order.
    pub open spec fn names() -> Seq<Seq<char>> {
        seq![
            "operation_id"@,
            "activation_id"@,
            "allocation_generation"@,
            "pane"@,
            "transcript_relative_path"@,
            "transcript_identity"@,
            "ack_relative_path"@,
            "completion_relative_path"@,
            "ack_nonce"@,
        ]
    }

    /// How it is read, from an object or from a list; nothing where a field does not fit.
    pub open spec fn read(value: JsonView) -> Option<TmuxPipeCaptureIntentView> {
        TmuxPipeCaptureIntentView::read_record(arranged(value, TmuxPipeCaptureIntentView::names(), 9))
    }

    /// How it is read from an object.
    pub open spec fn read_record(value: JsonView) -> Option<TmuxPipeCaptureIntentView> {
        if value !is Record {
            None
        } else {
            if text_field(value, "operation_id"@) is Some
                && text_field(value, "activation_id"@) is Some
                && unsigned_field(value, "allocation_generation"@) is Some
                && StoredPaneView::read_at(value, "pane"@) is Some
                && text_field(value, "transcript_relative_path"@) is Some
                && identity_at(value, "transcript_identity"@) is Some
                && text_field(value, "ack_relative_path"@) is Some
                && text_field(value, "completion_relative_path"@) is Some
                && text_field(value, "ack_nonce"@) is Some {
                Some(
                    TmuxPipeCaptureIntentView {
                        operation_id: text_field(value, "operation_id"@)->Some_0,
                        activation_id: text_field(value, "activation_id"@)->Some_0,
                        allocation_generation: unsigned_field(
                            value,
                            "allocation_generation"@,
                        )->Some_0,
                        pane: StoredPaneView::read_at(value, "pane"@)->Some_0,
                        transcript_relative_path: text_field(
                            value,
                            "transcript_relative_path"@,
                        )->Some_0,
                        transcript_identity: identity_at(value, "transcript_identity"@)->Some_0,
                        ack_relative_path: text_field(value, "ack_relative_path"@)->Some_0,
                        completion_relative_path: text_field(
                            value,
                            "completion_relative_path"@,
                        )->Some_0,
                        ack_nonce: text_field(value, "ack_nonce"@)->Some_0,
                    },
                )
            } else {
                None
            }
        }
    }

    pub open spec fn read_at(value: JsonView, key: Seq<char>) -> Option<TmuxPipeCaptureIntentView> {
        match field(value, key) {
            Some(item) => TmuxPipeCaptureIntentView::read(item),
            None => None,
        }
    }
}

impl TmuxPipeCaptureIntent {
    pub fn to_json(&self) -> (r: Json)
        ensures
            r@ == self.deep_view().json(),
    {
        Fields::new()
            .put("operation_id", Json::text(self.operation_id.as_str()))
            .put("activation_id", Json::text(self.activation_id.as_str()))
            .put("allocation_generation", Json::Unsigned(self.allocation_generation))
            .put("pane", self.pane.to_json())
            .put("transcript_relative_path", Json::text(self.transcript_relative_path.as_str()))
            .put("transcript_identity", identity_to_json(self.transcript_identity))
            .put("ack_relative_path", Json::text(self.ack_relative_path.as_str()))
            .put("completion_relative_path", Json::text(self.completion_relative_path.as_str()))
            .put("ack_nonce", Json::text(self.ack_nonce.as_str()))
            .done()
    }

    pub fn from_json(value: &Json) -> (r: Option<Self>)
        ensures
            r.deep_view() == TmuxPipeCaptureIntentView::read(value@),
    {
        let names = vec![
            "operation_id",
            "activation_id",
            "allocation_generation",
            "pane",
            "transcript_relative_path",
            "transcript_identity",
            "ack_relative_path",
            "completion_relative_path",
            "ack_nonce",
        ];
        assert(names.deep_view() =~= TmuxPipeCaptureIntentView::names());
        TmuxPipeCaptureIntent::from_record(&arrange(value, &names, 9))
    }

    fn from_record(value: &Json) -> (r: Option<Self>)
        ensures
            r.deep_view() == TmuxPipeCaptureIntentView::read_record(value@),
    {
        if !value.is_record() {
            return None;
        }
        let operation_id = match read_text(value, "operation_id") {
            Some(item) => item,
            None => return None,
        };
        let activation_id = match read_text(value, "activation_id") {
            Some(item) => item,
            None => return None,
        };
        let allocation_generation = match value.unsigned_at("allocation_generation") {
            Some(item) => item,
            None => return None,
        };
        let pane = match StoredPane::read_at(value, "pane") {
            Some(item) => item,
            None => return None,
        };
        let transcript_relative_path = match read_text(value, "transcript_relative_path") {
            Some(item) => item,
            None => return None,
        };
        let transcript_identity = match read_identity_at(value, "transcript_identity") {
            Some(item) => item,
            None => return None,
        };
        let ack_relative_path = match read_text(value, "ack_relative_path") {
            Some(item) => item,
            None => return None,
        };
        let completion_relative_path = match read_text(value, "completion_relative_path") {
            Some(item) => item,
            None => return None,
        };
        let ack_nonce = match read_text(value, "ack_nonce") {
            Some(item) => item,
            None => return None,
        };
        Some(
            TmuxPipeCaptureIntent { operation_id, activation_id, allocation_generation, pane, transcript_relative_path, transcript_identity, ack_relative_path, completion_relative_path, ack_nonce },
        )
    }

    pub fn read_at(value: &Json, key: &str) -> (r: Option<Self>)
        ensures
            r.deep_view() == TmuxPipeCaptureIntentView::read_at(value@, key@),
    {
        match value.get(key) {
            Some(item) => TmuxPipeCaptureIntent::from_json(item),
            None => None,
        }
    }
}

/// What was stored is read back, in whatever order its fields stand.
pub proof fn lemma_tmux_pipe_capture_intent_reads_back(item: TmuxPipeCaptureIntentView)
    ensures
        TmuxPipeCaptureIntentView::read(item.json()) == Some(item),
        TmuxPipeCaptureIntentView::read(ordered(item.json())) == Some(item),
{
    reveal_strlit("operation_id");
    reveal_strlit("activation_id");
    reveal_strlit("allocation_generation");
    reveal_strlit("pane");
    reveal_strlit("transcript_relative_path");
    reveal_strlit("transcript_identity");
    reveal_strlit("ack_relative_path");
    reveal_strlit("completion_relative_path");
    reveal_strlit("ack_nonce");
    assert("operation_id"@.len() == 12);
    assert("activation_id"@.len() == 13);
    assert("allocation_generation"@.len() == 21);
    assert("pane"@.len() == 4);
    assert("transcript_relative_path"@.len() == 24);
    assert("transcript_identity"@.len() == 19);
    assert("ack_relative_path"@.len() == 17);
    assert("completion_relative_path"@.len() == 24);
    assert("ack_nonce"@.len() == 9);
    assert("transcript_relative_path"@[0] != "completion_relative_path"@[0]);
    let value = item.json();
    let f0 = no_fields();
    let f1 = f0.push(("operation_id"@, JsonView::Text(item.operation_id)));
    let f2 = f1.push(("activation_id"@, JsonView::Text(item.activation_id)));
    let f3 = f2.push(("allocation_generation"@, JsonView::Unsigned(item.allocation_generation)));
    let f4 = f3.push(("pane"@, item.pane.json()));
    let f5 = f4.push(("transcript_relative_path"@, JsonView::Text(item.transcript_relative_path)));
    let f6 = f5.push(("transcript_identity"@, identity_json(item.transcript_identity)));
    let f7 = f6.push(("ack_relative_path"@, JsonView::Text(item.ack_relative_path)));
    let f8 = f7.push(("completion_relative_path"@, JsonView::Text(item.completion_relative_path)));
    let f9 = f8.push(("ack_nonce"@, JsonView::Text(item.ack_nonce)));
    assert(distinct_keys(f9));
    assert(field(value, "operation_id"@) == Some(JsonView::Text(item.operation_id))) by {
        lemma_lookup_push(f8, "ack_nonce"@, JsonView::Text(item.ack_nonce), "operation_id"@);
        lemma_lookup_push(
            f7,
            "completion_relative_path"@,
            JsonView::Text(item.completion_relative_path),
            "operation_id"@,
        );
        lemma_lookup_push(
            f6,
            "ack_relative_path"@,
            JsonView::Text(item.ack_relative_path),
            "operation_id"@,
        );
        lemma_lookup_push(
            f5,
            "transcript_identity"@,
            identity_json(item.transcript_identity),
            "operation_id"@,
        );
        lemma_lookup_push(
            f4,
            "transcript_relative_path"@,
            JsonView::Text(item.transcript_relative_path),
            "operation_id"@,
        );
        lemma_lookup_push(f3, "pane"@, item.pane.json(), "operation_id"@);
        lemma_lookup_push(
            f2,
            "allocation_generation"@,
            JsonView::Unsigned(item.allocation_generation),
            "operation_id"@,
        );
        lemma_lookup_push(
            f1,
            "activation_id"@,
            JsonView::Text(item.activation_id),
            "operation_id"@,
        );
        lemma_lookup_push(f0, "operation_id"@, JsonView::Text(item.operation_id), "operation_id"@);
    }
    lemma_ordered_field(f9, "operation_id"@);
    assert(field(value, "activation_id"@) == Some(JsonView::Text(item.activation_id))) by {
        lemma_lookup_push(f8, "ack_nonce"@, JsonView::Text(item.ack_nonce), "activation_id"@);
        lemma_lookup_push(
            f7,
            "completion_relative_path"@,
            JsonView::Text(item.completion_relative_path),
            "activation_id"@,
        );
        lemma_lookup_push(
            f6,
            "ack_relative_path"@,
            JsonView::Text(item.ack_relative_path),
            "activation_id"@,
        );
        lemma_lookup_push(
            f5,
            "transcript_identity"@,
            identity_json(item.transcript_identity),
            "activation_id"@,
        );
        lemma_lookup_push(
            f4,
            "transcript_relative_path"@,
            JsonView::Text(item.transcript_relative_path),
            "activation_id"@,
        );
        lemma_lookup_push(f3, "pane"@, item.pane.json(), "activation_id"@);
        lemma_lookup_push(
            f2,
            "allocation_generation"@,
            JsonView::Unsigned(item.allocation_generation),
            "activation_id"@,
        );
        lemma_lookup_push(
            f1,
            "activation_id"@,
            JsonView::Text(item.activation_id),
            "activation_id"@,
        );
    }
    lemma_ordered_field(f9, "activation_id"@);
    assert(
        field(value, "allocation_generation"@) == Some(
            JsonView::Unsigned(item.allocation_generation),
        )
    ) by {
        lemma_lookup_push(
            f8,
            "ack_nonce"@,
            JsonView::Text(item.ack_nonce),
            "allocation_generation"@,
        );
        lemma_lookup_push(
            f7,
            "completion_relative_path"@,
            JsonView::Text(item.completion_relative_path),
            "allocation_generation"@,
        );
        lemma_lookup_push(
            f6,
            "ack_relative_path"@,
            JsonView::Text(item.ack_relative_path),
            "allocation_generation"@,
        );
        lemma_lookup_push(
            f5,
            "transcript_identity"@,
            identity_json(item.transcript_identity),
            "allocation_generation"@,
        );
        lemma_lookup_push(
            f4,
            "transcript_relative_path"@,
            JsonView::Text(item.transcript_relative_path),
            "allocation_generation"@,
        );
        lemma_lookup_push(f3, "pane"@, item.pane.json(), "allocation_generation"@);
        lemma_lookup_push(
            f2,
            "allocation_generation"@,
            JsonView::Unsigned(item.allocation_generation),
            "allocation_generation"@,
        );
    }
    lemma_ordered_field(f9, "allocation_generation"@);
    assert(field(value, "pane"@) == Some(item.pane.json())) by {
        lemma_lookup_push(f8, "ack_nonce"@, JsonView::Text(item.ack_nonce), "pane"@);
        lemma_lookup_push(
            f7,
            "completion_relative_path"@,
            JsonView::Text(item.completion_relative_path),
            "pane"@,
        );
        lemma_lookup_push(
            f6,
            "ack_relative_path"@,
            JsonView::Text(item.ack_relative_path),
            "pane"@,
        );
        lemma_lookup_push(
            f5,
            "transcript_identity"@,
            identity_json(item.transcript_identity),
            "pane"@,
        );
        lemma_lookup_push(
            f4,
            "transcript_relative_path"@,
            JsonView::Text(item.transcript_relative_path),
            "pane"@,
        );
        lemma_lookup_push(f3, "pane"@, item.pane.json(), "pane"@);
    }
    lemma_ordered_field(f9, "pane"@);
    assert(
        field(value, "transcript_relative_path"@) == Some(
            JsonView::Text(item.transcript_relative_path),
        )
    ) by {
        lemma_lookup_push(
            f8,
            "ack_nonce"@,
            JsonView::Text(item.ack_nonce),
            "transcript_relative_path"@,
        );
        lemma_lookup_push(
            f7,
            "completion_relative_path"@,
            JsonView::Text(item.completion_relative_path),
            "transcript_relative_path"@,
        );
        lemma_lookup_push(
            f6,
            "ack_relative_path"@,
            JsonView::Text(item.ack_relative_path),
            "transcript_relative_path"@,
        );
        lemma_lookup_push(
            f5,
            "transcript_identity"@,
            identity_json(item.transcript_identity),
            "transcript_relative_path"@,
        );
        lemma_lookup_push(
            f4,
            "transcript_relative_path"@,
            JsonView::Text(item.transcript_relative_path),
            "transcript_relative_path"@,
        );
    }
    lemma_ordered_field(f9, "transcript_relative_path"@);
    assert(
        field(value, "transcript_identity"@) == Some(identity_json(item.transcript_identity))
    ) by {
        lemma_lookup_push(f8, "ack_nonce"@, JsonView::Text(item.ack_nonce), "transcript_identity"@);
        lemma_lookup_push(
            f7,
            "completion_relative_path"@,
            JsonView::Text(item.completion_relative_path),
            "transcript_identity"@,
        );
        lemma_lookup_push(
            f6,
            "ack_relative_path"@,
            JsonView::Text(item.ack_relative_path),
            "transcript_identity"@,
        );
        lemma_lookup_push(
            f5,
            "transcript_identity"@,
            identity_json(item.transcript_identity),
            "transcript_identity"@,
        );
    }
    lemma_ordered_field(f9, "transcript_identity"@);
    assert(field(value, "ack_relative_path"@) == Some(JsonView::Text(item.ack_relative_path))) by {
        lemma_lookup_push(f8, "ack_nonce"@, JsonView::Text(item.ack_nonce), "ack_relative_path"@);
        lemma_lookup_push(
            f7,
            "completion_relative_path"@,
            JsonView::Text(item.completion_relative_path),
            "ack_relative_path"@,
        );
        lemma_lookup_push(
            f6,
            "ack_relative_path"@,
            JsonView::Text(item.ack_relative_path),
            "ack_relative_path"@,
        );
    }
    lemma_ordered_field(f9, "ack_relative_path"@);
    assert(
        field(value, "completion_relative_path"@) == Some(
            JsonView::Text(item.completion_relative_path),
        )
    ) by {
        lemma_lookup_push(
            f8,
            "ack_nonce"@,
            JsonView::Text(item.ack_nonce),
            "completion_relative_path"@,
        );
        lemma_lookup_push(
            f7,
            "completion_relative_path"@,
            JsonView::Text(item.completion_relative_path),
            "completion_relative_path"@,
        );
    }
    lemma_ordered_field(f9, "completion_relative_path"@);
    assert(field(value, "ack_nonce"@) == Some(JsonView::Text(item.ack_nonce))) by {
        lemma_lookup_push(f8, "ack_nonce"@, JsonView::Text(item.ack_nonce), "ack_nonce"@);
    }
    lemma_ordered_field(f9, "ack_nonce"@);
    lemma_stored_pane_reads_back(item.pane);
    lemma_identity_reads_back(item.transcript_identity);
    assert(TmuxPipeCaptureIntentView::read(value) == Some(item));
    assert(TmuxPipeCaptureIntentView::read(ordered(value)) == Some(item));
}

/// How a helper is stored.
pub open spec fn descriptor_json(item: PipeDescriptorView) -> JsonView {
    JsonView::Record(
        no_fields()
            .push(("transcript_relative_path"@, JsonView::Text(item.transcript_relative_path)))
            .push(("completion_relative_path"@, JsonView::Text(item.completion_relative_path)))
            .push(("transcript_identity"@, identity_json(item.transcript_identity)))
            .push(("nonce"@, JsonView::Text(item.nonce)))
            .push(("helper_pid"@, JsonView::Unsigned(item.helper_pid as u64)))
            .push(
                (
                    "helper_process_start_time_ticks"@,
                    JsonView::Unsigned(item.helper_process_start_time_ticks),
                ),
            )
            .push(("external_helper"@, JsonView::Bool(item.external_helper))),
    )
}

pub fn descriptor_to_json(item: &TmuxPipeCaptureDescriptor) -> (r: Json)
    ensures
        r@ == descriptor_json(item.deep_view()),
{
    Fields::new()
        .put("transcript_relative_path", Json::text(item.transcript_relative_path.as_str()))
        .put("completion_relative_path", Json::text(item.completion_relative_path.as_str()))
        .put("transcript_identity", identity_to_json(item.transcript_identity))
        .put("nonce", Json::text(item.nonce.as_str()))
        .put("helper_pid", Json::Unsigned(item.helper_pid as u64))
        .put(
            "helper_process_start_time_ticks",
            Json::Unsigned(item.helper_process_start_time_ticks),
        )
        .put("external_helper", Json::Bool(item.external_helper))
        .done()
}

/// The fields of a helper in their order.
pub open spec fn descriptor_names() -> Seq<Seq<char>> {
    seq![
        "transcript_relative_path"@,
        "completion_relative_path"@,
        "transcript_identity"@,
        "nonce"@,
        "helper_pid"@,
        "helper_process_start_time_ticks"@,
        "external_helper"@,
    ]
}

/// How a helper is read, from an object or from a list.
pub open spec fn descriptor_of(value: JsonView) -> Option<PipeDescriptorView> {
    descriptor_in(arranged(value, descriptor_names(), 7))
}

/// How a helper is read from an object.
pub open spec fn descriptor_in(value: JsonView) -> Option<PipeDescriptorView> {
    if value is Record && text_field(value, "transcript_relative_path"@) is Some
        && text_field(value, "completion_relative_path"@) is Some
        && identity_at(value, "transcript_identity"@) is Some
        && text_field(value, "nonce"@) is Some
        && small_unsigned(value, "helper_pid"@) is Some
        && unsigned_field(value, "helper_process_start_time_ticks"@) is Some
        && flag_field(value, "external_helper"@) is Some {
        Some(
            PipeDescriptorView {
                transcript_relative_path: text_field(value, "transcript_relative_path"@)->Some_0,
                completion_relative_path: text_field(value, "completion_relative_path"@)->Some_0,
                transcript_identity: identity_at(value, "transcript_identity"@)->Some_0,
                nonce: text_field(value, "nonce"@)->Some_0,
                helper_pid: small_unsigned(value, "helper_pid"@)->Some_0,
                helper_process_start_time_ticks: unsigned_field(
                    value,
                    "helper_process_start_time_ticks"@,
                )->Some_0,
                external_helper: flag_field(value, "external_helper"@)->Some_0,
            },
        )
    } else {
        None
    }
}

pub fn read_descriptor(value: &Json) -> (r: Option<TmuxPipeCaptureDescriptor>)
    ensures
        r.deep_view() == descriptor_of(value@),
{
    let names = vec![
        "transcript_relative_path",
        "completion_relative_path",
        "transcript_identity",
        "nonce",
        "helper_pid",
        "helper_process_start_time_ticks",
        "external_helper",
    ];
    assert(names.deep_view() =~= descriptor_names());
    let value = &arrange(value, &names, 7);
    if !value.is_record() {
        return None;
    }
    let transcript_relative_path = match read_text(value, "transcript_relative_path") {
        Some(item) => item,
        None => return None,
    };
    let completion_relative_path = match read_text(value, "completion_relative_path") {
        Some(item) => item,
        None => return None,
    };
    let transcript_identity = match read_identity_at(value, "transcript_identity") {
        Some(item) => item,
        None => return None,
    };
    let nonce = match read_text(value, "nonce") {
        Some(item) => item,
        None => return None,
    };
    let helper_pid = match read_small_unsigned(value, "helper_pid") {
        Some(item) => item,
        None => return None,
    };
    let helper_process_start_time_ticks = match value.unsigned_at(
        "helper_process_start_time_ticks",
    ) {
        Some(item) => item,
        None => return None,
    };
    let external_helper = match value.flag_at("external_helper") {
        Some(item) => item,
        None => return None,
    };
    Some(
        TmuxPipeCaptureDescriptor {
            transcript_relative_path,
            completion_relative_path,
            transcript_identity,
            nonce,
            helper_pid,
            helper_process_start_time_ticks,
            external_helper,
        },
    )
}

/// A helper is read back as it was stored.
pub proof fn lemma_descriptor_reads_back(item: PipeDescriptorView)
    ensures
        descriptor_of(descriptor_json(item)) == Some(item),
        descriptor_of(ordered(descriptor_json(item))) == Some(item),
{
    reveal_strlit("transcript_relative_path");
    reveal_strlit("completion_relative_path");
    reveal_strlit("transcript_identity");
    reveal_strlit("nonce");
    reveal_strlit("helper_pid");
    reveal_strlit("helper_process_start_time_ticks");
    reveal_strlit("external_helper");
    assert("transcript_relative_path"@.len() == 24);
    assert("completion_relative_path"@.len() == 24);
    assert("transcript_identity"@.len() == 19);
    assert("nonce"@.len() == 5);
    assert("helper_pid"@.len() == 10);
    assert("helper_process_start_time_ticks"@.len() == 31);
    assert("external_helper"@.len() == 15);
    assert("transcript_relative_path"@[0] != "completion_relative_path"@[0]);
    let value = descriptor_json(item);
    let f0 = no_fields();
    let f1 = f0.push(("transcript_relative_path"@, JsonView::Text(item.transcript_relative_path)));
    let f2 = f1.push(("completion_relative_path"@, JsonView::Text(item.completion_relative_path)));
    let f3 = f2.push(("transcript_identity"@, identity_json(item.transcript_identity)));
    let f4 = f3.push(("nonce"@, JsonView::Text(item.nonce)));
    let f5 = f4.push(("helper_pid"@, JsonView::Unsigned(item.helper_pid as u64)));
    let f6 = f5.push(
        (
            "helper_process_start_time_ticks"@,
            JsonView::Unsigned(item.helper_process_start_time_ticks),
        ),
    );
    let f7 = f6.push(("external_helper"@, JsonView::Bool(item.external_helper)));
    assert(distinct_keys(f7));
    assert(
        field(value, "transcript_relative_path"@) == Some(
            JsonView::Text(item.transcript_relative_path),
        )
    ) by {
        lemma_lookup_push(
            f6,
            "external_helper"@,
            JsonView::Bool(item.external_helper),
            "transcript_relative_path"@,
        );
        lemma_lookup_push(
            f5,
            "helper_process_start_time_ticks"@,
            JsonView::Unsigned(item.helper_process_start_time_ticks),
            "transcript_relative_path"@,
        );
        lemma_lookup_push(
            f4,
            "helper_pid"@,
            JsonView::Unsigned(item.helper_pid as u64),
            "transcript_relative_path"@,
        );
        lemma_lookup_push(f3, "nonce"@, JsonView::Text(item.nonce), "transcript_relative_path"@);
        lemma_lookup_push(
            f2,
            "transcript_identity"@,
            identity_json(item.transcript_identity),
            "transcript_relative_path"@,
        );
        lemma_lookup_push(
            f1,
            "completion_relative_path"@,
            JsonView::Text(item.completion_relative_path),
            "transcript_relative_path"@,
        );
        lemma_lookup_push(
            f0,
            "transcript_relative_path"@,
            JsonView::Text(item.transcript_relative_path),
            "transcript_relative_path"@,
        );
    }
    lemma_ordered_field(f7, "transcript_relative_path"@);
    assert(
        field(value, "completion_relative_path"@) == Some(
            JsonView::Text(item.completion_relative_path),
        )
    ) by {
        lemma_lookup_push(
            f6,
            "external_helper"@,
            JsonView::Bool(item.external_helper),
            "completion_relative_path"@,
        );
        lemma_lookup_push(
            f5,
            "helper_process_start_time_ticks"@,
            JsonView::Unsigned(item.helper_process_start_time_ticks),
            "completion_relative_path"@,
        );
        lemma_lookup_push(
            f4,
            "helper_pid"@,
            JsonView::Unsigned(item.helper_pid as u64),
            "completion_relative_path"@,
        );
        lemma_lookup_push(f3, "nonce"@, JsonView::Text(item.nonce), "completion_relative_path"@);
        lemma_lookup_push(
            f2,
            "transcript_identity"@,
            identity_json(item.transcript_identity),
            "completion_relative_path"@,
        );
        lemma_lookup_push(
            f1,
            "completion_relative_path"@,
            JsonView::Text(item.completion_relative_path),
            "completion_relative_path"@,
        );
    }
    lemma_ordered_field(f7, "completion_relative_path"@);
    assert(
        field(value, "transcript_identity"@) == Some(identity_json(item.transcript_identity))
    ) by {
        lemma_lookup_push(
            f6,
            "external_helper"@,
            JsonView::Bool(item.external_helper),
            "transcript_identity"@,
        );
        lemma_lookup_push(
            f5,
            "helper_process_start_time_ticks"@,
            JsonView::Unsigned(item.helper_process_start_time_ticks),
            "transcript_identity"@,
        );
        lemma_lookup_push(
            f4,
            "helper_pid"@,
            JsonView::Unsigned(item.helper_pid as u64),
            "transcript_identity"@,
        );
        lemma_lookup_push(f3, "nonce"@, JsonView::Text(item.nonce), "transcript_identity"@);
        lemma_lookup_push(
            f2,
            "transcript_identity"@,
            identity_json(item.transcript_identity),
            "transcript_identity"@,
        );
    }
    lemma_ordered_field(f7, "transcript_identity"@);
    assert(field(value, "nonce"@) == Some(JsonView::Text(item.nonce))) by {
        lemma_lookup_push(f6, "external_helper"@, JsonView::Bool(item.external_helper), "nonce"@);
        lemma_lookup_push(
            f5,
            "helper_process_start_time_ticks"@,
            JsonView::Unsigned(item.helper_process_start_time_ticks),
            "nonce"@,
        );
        lemma_lookup_push(f4, "helper_pid"@, JsonView::Unsigned(item.helper_pid as u64), "nonce"@);
        lemma_lookup_push(f3, "nonce"@, JsonView::Text(item.nonce), "nonce"@);
    }
    lemma_ordered_field(f7, "nonce"@);
    assert(field(value, "helper_pid"@) == Some(JsonView::Unsigned(item.helper_pid as u64))) by {
        lemma_lookup_push(
            f6,
            "external_helper"@,
            JsonView::Bool(item.external_helper),
            "helper_pid"@,
        );
        lemma_lookup_push(
            f5,
            "helper_process_start_time_ticks"@,
            JsonView::Unsigned(item.helper_process_start_time_ticks),
            "helper_pid"@,
        );
        lemma_lookup_push(
            f4,
            "helper_pid"@,
            JsonView::Unsigned(item.helper_pid as u64),
            "helper_pid"@,
        );
    }
    lemma_ordered_field(f7, "helper_pid"@);
    assert(
        field(value, "helper_process_start_time_ticks"@) == Some(
            JsonView::Unsigned(item.helper_process_start_time_ticks),
        )
    ) by {
        lemma_lookup_push(
            f6,
            "external_helper"@,
            JsonView::Bool(item.external_helper),
            "helper_process_start_time_ticks"@,
        );
        lemma_lookup_push(
            f5,
            "helper_process_start_time_ticks"@,
            JsonView::Unsigned(item.helper_process_start_time_ticks),
            "helper_process_start_time_ticks"@,
        );
    }
    lemma_ordered_field(f7, "helper_process_start_time_ticks"@);
    assert(field(value, "external_helper"@) == Some(JsonView::Bool(item.external_helper))) by {
        lemma_lookup_push(
            f6,
            "external_helper"@,
            JsonView::Bool(item.external_helper),
            "external_helper"@,
        );
    }
    lemma_ordered_field(f7, "external_helper"@);
    lemma_identity_reads_back(item.transcript_identity);
    assert(descriptor_of(value) == Some(item));
    assert(descriptor_of(ordered(value)) == Some(item));
}

/// An agent that was started in a pane, and the session that it turned out to be.
#[derive(Debug, PartialEq, Eq)]
pub struct ParticipantBinding {
    pub run_id: String,
    pub activation_id: String,
    pub allocation_generation: u64,
    pub pane_id: String,
    pub readiness_nonce: String,
    pub handle: String,
    pub credential_hash: String,
    pub binding_file: String,
    pub native_session_id: Option<String>,
    pub platform: Option<String>,
    pub source: Option<String>,
    pub exit_status: Option<i32>,
}

#[verifier::ext_equal]
pub struct ParticipantBindingView {
    pub run_id: Seq<char>,
    pub activation_id: Seq<char>,
    pub allocation_generation: u64,
    pub pane_id: Seq<char>,
    pub readiness_nonce: Seq<char>,
    pub handle: Seq<char>,
    pub credential_hash: Seq<char>,
    pub binding_file: Seq<char>,
    pub native_session_id: Option<Seq<char>>,
    pub platform: Option<Seq<char>>,
    pub source: Option<Seq<char>>,
    pub exit_status: Option<i32>,
}

impl DeepView for ParticipantBinding {
    type V = ParticipantBindingView;

    open spec fn deep_view(&self) -> ParticipantBindingView {
        ParticipantBindingView {
            run_id: self.run_id@,
            activation_id: self.activation_id@,
            allocation_generation: self.allocation_generation,
            pane_id: self.pane_id@,
            readiness_nonce: self.readiness_nonce@,
            handle: self.handle@,
            credential_hash: self.credential_hash@,
            binding_file: self.binding_file@,
            native_session_id: self.native_session_id.deep_view(),
            platform: self.platform.deep_view(),
            source: self.source.deep_view(),
            exit_status: self.exit_status,
        }
    }
}

impl Clone for ParticipantBinding {
    fn clone(&self) -> (r: Self)
        ensures
            r.deep_view() == self.deep_view(),
    {
        ParticipantBinding {
            run_id: self.run_id.clone(),
            activation_id: self.activation_id.clone(),
            allocation_generation: self.allocation_generation,
            pane_id: self.pane_id.clone(),
            readiness_nonce: self.readiness_nonce.clone(),
            handle: self.handle.clone(),
            credential_hash: self.credential_hash.clone(),
            binding_file: self.binding_file.clone(),
            native_session_id: self.native_session_id.clone(),
            platform: self.platform.clone(),
            source: self.source.clone(),
            exit_status: self.exit_status,
        }
    }
}

impl Comparable for ParticipantBinding {
    fn same_as(&self, other: &Self) -> (r: bool) {
        same(self.run_id.as_str(), other.run_id.as_str())
            && same(self.activation_id.as_str(), other.activation_id.as_str())
            && self.allocation_generation == other.allocation_generation
            && same(self.pane_id.as_str(), other.pane_id.as_str())
            && same(self.readiness_nonce.as_str(), other.readiness_nonce.as_str())
            && same(self.handle.as_str(), other.handle.as_str())
            && same(self.credential_hash.as_str(), other.credential_hash.as_str())
            && same(self.binding_file.as_str(), other.binding_file.as_str())
            && same_option(&self.native_session_id, &other.native_session_id)
            && same_option(&self.platform, &other.platform)
            && same_option(&self.source, &other.source)
            && self.exit_status == other.exit_status
    }
}

impl ParticipantBindingView {
    /// How it is stored.
    pub open spec fn json(self) -> JsonView {
        JsonView::Record(
            no_fields()
                .push(("run_id"@, JsonView::Text(self.run_id)))
                .push(("activation_id"@, JsonView::Text(self.activation_id)))
                .push(("allocation_generation"@, JsonView::Unsigned(self.allocation_generation)))
                .push(("pane_id"@, JsonView::Text(self.pane_id)))
                .push(("readiness_nonce"@, JsonView::Text(self.readiness_nonce)))
                .push(("handle"@, JsonView::Text(self.handle)))
                .push(("credential_hash"@, JsonView::Text(self.credential_hash)))
                .push(("binding_file"@, JsonView::Text(self.binding_file)))
                .push(("native_session_id"@, option_text(self.native_session_id)))
                .push(("platform"@, option_text(self.platform)))
                .push(("source"@, option_text(self.source)))
                .push(("exit_status"@, optional_signed_json(self.exit_status))),
        )
    }

    /// The fields in their order.
    pub open spec fn names() -> Seq<Seq<char>> {
        seq![
            "run_id"@,
            "activation_id"@,
            "allocation_generation"@,
            "pane_id"@,
            "readiness_nonce"@,
            "handle"@,
            "credential_hash"@,
            "binding_file"@,
            "native_session_id"@,
            "platform"@,
            "source"@,
            "exit_status"@,
        ]
    }

    /// How it is read, from an object or from a list; nothing where a field does not fit.
    pub open spec fn read(value: JsonView) -> Option<ParticipantBindingView> {
        ParticipantBindingView::read_record(arranged(value, ParticipantBindingView::names(), 12))
    }

    /// How it is read from an object.
    pub open spec fn read_record(value: JsonView) -> Option<ParticipantBindingView> {
        if value !is Record {
            None
        } else {
            if text_field(value, "run_id"@) is Some
                && text_field(value, "activation_id"@) is Some
                && unsigned_field(value, "allocation_generation"@) is Some
                && text_field(value, "pane_id"@) is Some
                && text_field(value, "readiness_nonce"@) is Some
                && text_field(value, "handle"@) is Some
                && text_field(value, "credential_hash"@) is Some
                && text_field(value, "binding_file"@) is Some
                && optional_text(value, "native_session_id"@) is Some
                && optional_text(value, "platform"@) is Some
                && optional_text(value, "source"@) is Some
                && optional_small_signed(value, "exit_status"@) is Some {
                Some(
                    ParticipantBindingView {
                        run_id: text_field(value, "run_id"@)->Some_0,
                        activation_id: text_field(value, "activation_id"@)->Some_0,
                        allocation_generation: unsigned_field(
                            value,
                            "allocation_generation"@,
                        )->Some_0,
                        pane_id: text_field(value, "pane_id"@)->Some_0,
                        readiness_nonce: text_field(value, "readiness_nonce"@)->Some_0,
                        handle: text_field(value, "handle"@)->Some_0,
                        credential_hash: text_field(value, "credential_hash"@)->Some_0,
                        binding_file: text_field(value, "binding_file"@)->Some_0,
                        native_session_id: optional_text(value, "native_session_id"@)->Some_0,
                        platform: optional_text(value, "platform"@)->Some_0,
                        source: optional_text(value, "source"@)->Some_0,
                        exit_status: optional_small_signed(value, "exit_status"@)->Some_0,
                    },
                )
            } else {
                None
            }
        }
    }

    pub open spec fn read_at(value: JsonView, key: Seq<char>) -> Option<ParticipantBindingView> {
        match field(value, key) {
            Some(item) => ParticipantBindingView::read(item),
            None => None,
        }
    }
}

impl ParticipantBinding {
    pub fn to_json(&self) -> (r: Json)
        ensures
            r@ == self.deep_view().json(),
    {
        Fields::new()
            .put("run_id", Json::text(self.run_id.as_str()))
            .put("activation_id", Json::text(self.activation_id.as_str()))
            .put("allocation_generation", Json::Unsigned(self.allocation_generation))
            .put("pane_id", Json::text(self.pane_id.as_str()))
            .put("readiness_nonce", Json::text(self.readiness_nonce.as_str()))
            .put("handle", Json::text(self.handle.as_str()))
            .put("credential_hash", Json::text(self.credential_hash.as_str()))
            .put("binding_file", Json::text(self.binding_file.as_str()))
            .put("native_session_id", option_text_json(&self.native_session_id))
            .put("platform", option_text_json(&self.platform))
            .put("source", option_text_json(&self.source))
            .put("exit_status", optional_signed_to_json(self.exit_status))
            .done()
    }

    pub fn from_json(value: &Json) -> (r: Option<Self>)
        ensures
            r.deep_view() == ParticipantBindingView::read(value@),
    {
        let names = vec![
            "run_id",
            "activation_id",
            "allocation_generation",
            "pane_id",
            "readiness_nonce",
            "handle",
            "credential_hash",
            "binding_file",
            "native_session_id",
            "platform",
            "source",
            "exit_status",
        ];
        assert(names.deep_view() =~= ParticipantBindingView::names());
        ParticipantBinding::from_record(&arrange(value, &names, 12))
    }

    fn from_record(value: &Json) -> (r: Option<Self>)
        ensures
            r.deep_view() == ParticipantBindingView::read_record(value@),
    {
        if !value.is_record() {
            return None;
        }
        let run_id = match read_text(value, "run_id") {
            Some(item) => item,
            None => return None,
        };
        let activation_id = match read_text(value, "activation_id") {
            Some(item) => item,
            None => return None,
        };
        let allocation_generation = match value.unsigned_at("allocation_generation") {
            Some(item) => item,
            None => return None,
        };
        let pane_id = match read_text(value, "pane_id") {
            Some(item) => item,
            None => return None,
        };
        let readiness_nonce = match read_text(value, "readiness_nonce") {
            Some(item) => item,
            None => return None,
        };
        let handle = match read_text(value, "handle") {
            Some(item) => item,
            None => return None,
        };
        let credential_hash = match read_text(value, "credential_hash") {
            Some(item) => item,
            None => return None,
        };
        let binding_file = match read_text(value, "binding_file") {
            Some(item) => item,
            None => return None,
        };
        let native_session_id = match read_optional_text(value, "native_session_id") {
            Some(item) => item,
            None => return None,
        };
        let platform = match read_optional_text(value, "platform") {
            Some(item) => item,
            None => return None,
        };
        let source = match read_optional_text(value, "source") {
            Some(item) => item,
            None => return None,
        };
        let exit_status = match read_optional_small_signed(value, "exit_status") {
            Some(item) => item,
            None => return None,
        };
        Some(
            ParticipantBinding { run_id, activation_id, allocation_generation, pane_id, readiness_nonce, handle, credential_hash, binding_file, native_session_id, platform, source, exit_status },
        )
    }

    pub fn read_at(value: &Json, key: &str) -> (r: Option<Self>)
        ensures
            r.deep_view() == ParticipantBindingView::read_at(value@, key@),
    {
        match value.get(key) {
            Some(item) => ParticipantBinding::from_json(item),
            None => None,
        }
    }
}

/// What was stored is read back, in whatever order its fields stand.
pub proof fn lemma_participant_binding_reads_back(item: ParticipantBindingView)
    ensures
        ParticipantBindingView::read(item.json()) == Some(item),
        ParticipantBindingView::read(ordered(item.json())) == Some(item),
{
    reveal_strlit("run_id");
    reveal_strlit("activation_id");
    reveal_strlit("allocation_generation");
    reveal_strlit("pane_id");
    reveal_strlit("readiness_nonce");
    reveal_strlit("handle");
    reveal_strlit("credential_hash");
    reveal_strlit("binding_file");
    reveal_strlit("native_session_id");
    reveal_strlit("platform");
    reveal_strlit("source");
    reveal_strlit("exit_status");
    assert("run_id"@.len() == 6);
    assert("activation_id"@.len() == 13);
    assert("allocation_generation"@.len() == 21);
    assert("pane_id"@.len() == 7);
    assert("readiness_nonce"@.len() == 15);
    assert("handle"@.len() == 6);
    assert("credential_hash"@.len() == 15);
    assert("binding_file"@.len() == 12);
    assert("native_session_id"@.len() == 17);
    assert("platform"@.len() == 8);
    assert("source"@.len() == 6);
    assert("exit_status"@.len() == 11);
    assert("run_id"@[0] != "handle"@[0]);
    assert("run_id"@[0] != "source"@[0]);
    assert("readiness_nonce"@[0] != "credential_hash"@[0]);
    assert("handle"@[0] != "source"@[0]);
    let value = item.json();
    let f0 = no_fields();
    let f1 = f0.push(("run_id"@, JsonView::Text(item.run_id)));
    let f2 = f1.push(("activation_id"@, JsonView::Text(item.activation_id)));
    let f3 = f2.push(("allocation_generation"@, JsonView::Unsigned(item.allocation_generation)));
    let f4 = f3.push(("pane_id"@, JsonView::Text(item.pane_id)));
    let f5 = f4.push(("readiness_nonce"@, JsonView::Text(item.readiness_nonce)));
    let f6 = f5.push(("handle"@, JsonView::Text(item.handle)));
    let f7 = f6.push(("credential_hash"@, JsonView::Text(item.credential_hash)));
    let f8 = f7.push(("binding_file"@, JsonView::Text(item.binding_file)));
    let f9 = f8.push(("native_session_id"@, option_text(item.native_session_id)));
    let f10 = f9.push(("platform"@, option_text(item.platform)));
    let f11 = f10.push(("source"@, option_text(item.source)));
    let f12 = f11.push(("exit_status"@, optional_signed_json(item.exit_status)));
    assert(distinct_keys(f12));
    assert(field(value, "run_id"@) == Some(JsonView::Text(item.run_id))) by {
        lemma_lookup_push(f11, "exit_status"@, optional_signed_json(item.exit_status), "run_id"@);
        lemma_lookup_push(f10, "source"@, option_text(item.source), "run_id"@);
        lemma_lookup_push(f9, "platform"@, option_text(item.platform), "run_id"@);
        lemma_lookup_push(f8, "native_session_id"@, option_text(item.native_session_id), "run_id"@);
        lemma_lookup_push(f7, "binding_file"@, JsonView::Text(item.binding_file), "run_id"@);
        lemma_lookup_push(f6, "credential_hash"@, JsonView::Text(item.credential_hash), "run_id"@);
        lemma_lookup_push(f5, "handle"@, JsonView::Text(item.handle), "run_id"@);
        lemma_lookup_push(f4, "readiness_nonce"@, JsonView::Text(item.readiness_nonce), "run_id"@);
        lemma_lookup_push(f3, "pane_id"@, JsonView::Text(item.pane_id), "run_id"@);
        lemma_lookup_push(
            f2,
            "allocation_generation"@,
            JsonView::Unsigned(item.allocation_generation),
            "run_id"@,
        );
        lemma_lookup_push(f1, "activation_id"@, JsonView::Text(item.activation_id), "run_id"@);
        lemma_lookup_push(f0, "run_id"@, JsonView::Text(item.run_id), "run_id"@);
    }
    lemma_ordered_field(f12, "run_id"@);
    assert(field(value, "activation_id"@) == Some(JsonView::Text(item.activation_id))) by {
        lemma_lookup_push(
            f11,
            "exit_status"@,
            optional_signed_json(item.exit_status),
            "activation_id"@,
        );
        lemma_lookup_push(f10, "source"@, option_text(item.source), "activation_id"@);
        lemma_lookup_push(f9, "platform"@, option_text(item.platform), "activation_id"@);
        lemma_lookup_push(
            f8,
            "native_session_id"@,
            option_text(item.native_session_id),
            "activation_id"@,
        );
        lemma_lookup_push(f7, "binding_file"@, JsonView::Text(item.binding_file), "activation_id"@);
        lemma_lookup_push(
            f6,
            "credential_hash"@,
            JsonView::Text(item.credential_hash),
            "activation_id"@,
        );
        lemma_lookup_push(f5, "handle"@, JsonView::Text(item.handle), "activation_id"@);
        lemma_lookup_push(
            f4,
            "readiness_nonce"@,
            JsonView::Text(item.readiness_nonce),
            "activation_id"@,
        );
        lemma_lookup_push(f3, "pane_id"@, JsonView::Text(item.pane_id), "activation_id"@);
        lemma_lookup_push(
            f2,
            "allocation_generation"@,
            JsonView::Unsigned(item.allocation_generation),
            "activation_id"@,
        );
        lemma_lookup_push(
            f1,
            "activation_id"@,
            JsonView::Text(item.activation_id),
            "activation_id"@,
        );
    }
    lemma_ordered_field(f12, "activation_id"@);
    assert(
        field(value, "allocation_generation"@) == Some(
            JsonView::Unsigned(item.allocation_generation),
        )
    ) by {
        lemma_lookup_push(
            f11,
            "exit_status"@,
            optional_signed_json(item.exit_status),
            "allocation_generation"@,
        );
        lemma_lookup_push(f10, "source"@, option_text(item.source), "allocation_generation"@);
        lemma_lookup_push(f9, "platform"@, option_text(item.platform), "allocation_generation"@);
        lemma_lookup_push(
            f8,
            "native_session_id"@,
            option_text(item.native_session_id),
            "allocation_generation"@,
        );
        lemma_lookup_push(
            f7,
            "binding_file"@,
            JsonView::Text(item.binding_file),
            "allocation_generation"@,
        );
        lemma_lookup_push(
            f6,
            "credential_hash"@,
            JsonView::Text(item.credential_hash),
            "allocation_generation"@,
        );
        lemma_lookup_push(f5, "handle"@, JsonView::Text(item.handle), "allocation_generation"@);
        lemma_lookup_push(
            f4,
            "readiness_nonce"@,
            JsonView::Text(item.readiness_nonce),
            "allocation_generation"@,
        );
        lemma_lookup_push(f3, "pane_id"@, JsonView::Text(item.pane_id), "allocation_generation"@);
        lemma_lookup_push(
            f2,
            "allocation_generation"@,
            JsonView::Unsigned(item.allocation_generation),
            "allocation_generation"@,
        );
    }
    lemma_ordered_field(f12, "allocation_generation"@);
    assert(field(value, "pane_id"@) == Some(JsonView::Text(item.pane_id))) by {
        lemma_lookup_push(f11, "exit_status"@, optional_signed_json(item.exit_status), "pane_id"@);
        lemma_lookup_push(f10, "source"@, option_text(item.source), "pane_id"@);
        lemma_lookup_push(f9, "platform"@, option_text(item.platform), "pane_id"@);
        lemma_lookup_push(
            f8,
            "native_session_id"@,
            option_text(item.native_session_id),
            "pane_id"@,
        );
        lemma_lookup_push(f7, "binding_file"@, JsonView::Text(item.binding_file), "pane_id"@);
        lemma_lookup_push(f6, "credential_hash"@, JsonView::Text(item.credential_hash), "pane_id"@);
        lemma_lookup_push(f5, "handle"@, JsonView::Text(item.handle), "pane_id"@);
        lemma_lookup_push(f4, "readiness_nonce"@, JsonView::Text(item.readiness_nonce), "pane_id"@);
        lemma_lookup_push(f3, "pane_id"@, JsonView::Text(item.pane_id), "pane_id"@);
    }
    lemma_ordered_field(f12, "pane_id"@);
    assert(field(value, "readiness_nonce"@) == Some(JsonView::Text(item.readiness_nonce))) by {
        lemma_lookup_push(
            f11,
            "exit_status"@,
            optional_signed_json(item.exit_status),
            "readiness_nonce"@,
        );
        lemma_lookup_push(f10, "source"@, option_text(item.source), "readiness_nonce"@);
        lemma_lookup_push(f9, "platform"@, option_text(item.platform), "readiness_nonce"@);
        lemma_lookup_push(
            f8,
            "native_session_id"@,
            option_text(item.native_session_id),
            "readiness_nonce"@,
        );
        lemma_lookup_push(
            f7,
            "binding_file"@,
            JsonView::Text(item.binding_file),
            "readiness_nonce"@,
        );
        lemma_lookup_push(
            f6,
            "credential_hash"@,
            JsonView::Text(item.credential_hash),
            "readiness_nonce"@,
        );
        lemma_lookup_push(f5, "handle"@, JsonView::Text(item.handle), "readiness_nonce"@);
        lemma_lookup_push(
            f4,
            "readiness_nonce"@,
            JsonView::Text(item.readiness_nonce),
            "readiness_nonce"@,
        );
    }
    lemma_ordered_field(f12, "readiness_nonce"@);
    assert(field(value, "handle"@) == Some(JsonView::Text(item.handle))) by {
        lemma_lookup_push(f11, "exit_status"@, optional_signed_json(item.exit_status), "handle"@);
        lemma_lookup_push(f10, "source"@, option_text(item.source), "handle"@);
        lemma_lookup_push(f9, "platform"@, option_text(item.platform), "handle"@);
        lemma_lookup_push(f8, "native_session_id"@, option_text(item.native_session_id), "handle"@);
        lemma_lookup_push(f7, "binding_file"@, JsonView::Text(item.binding_file), "handle"@);
        lemma_lookup_push(f6, "credential_hash"@, JsonView::Text(item.credential_hash), "handle"@);
        lemma_lookup_push(f5, "handle"@, JsonView::Text(item.handle), "handle"@);
    }
    lemma_ordered_field(f12, "handle"@);
    assert(field(value, "credential_hash"@) == Some(JsonView::Text(item.credential_hash))) by {
        lemma_lookup_push(
            f11,
            "exit_status"@,
            optional_signed_json(item.exit_status),
            "credential_hash"@,
        );
        lemma_lookup_push(f10, "source"@, option_text(item.source), "credential_hash"@);
        lemma_lookup_push(f9, "platform"@, option_text(item.platform), "credential_hash"@);
        lemma_lookup_push(
            f8,
            "native_session_id"@,
            option_text(item.native_session_id),
            "credential_hash"@,
        );
        lemma_lookup_push(
            f7,
            "binding_file"@,
            JsonView::Text(item.binding_file),
            "credential_hash"@,
        );
        lemma_lookup_push(
            f6,
            "credential_hash"@,
            JsonView::Text(item.credential_hash),
            "credential_hash"@,
        );
    }
    lemma_ordered_field(f12, "credential_hash"@);
    assert(field(value, "binding_file"@) == Some(JsonView::Text(item.binding_file))) by {
        lemma_lookup_push(
            f11,
            "exit_status"@,
            optional_signed_json(item.exit_status),
            "binding_file"@,
        );
        lemma_lookup_push(f10, "source"@, option_text(item.source), "binding_file"@);
        lemma_lookup_push(f9, "platform"@, option_text(item.platform), "binding_file"@);
        lemma_lookup_push(
            f8,
            "native_session_id"@,
            option_text(item.native_session_id),
            "binding_file"@,
        );
        lemma_lookup_push(f7, "binding_file"@, JsonView::Text(item.binding_file), "binding_file"@);
    }
    lemma_ordered_field(f12, "binding_file"@);
    assert(field(value, "native_session_id"@) == Some(option_text(item.native_session_id))) by {
        lemma_lookup_push(
            f11,
            "exit_status"@,
            optional_signed_json(item.exit_status),
            "native_session_id"@,
        );
        lemma_lookup_push(f10, "source"@, option_text(item.source), "native_session_id"@);
        lemma_lookup_push(f9, "platform"@, option_text(item.platform), "native_session_id"@);
        lemma_lookup_push(
            f8,
            "native_session_id"@,
            option_text(item.native_session_id),
            "native_session_id"@,
        );
    }
    lemma_ordered_field(f12, "native_session_id"@);
    assert(field(value, "platform"@) == Some(option_text(item.platform))) by {
        lemma_lookup_push(f11, "exit_status"@, optional_signed_json(item.exit_status), "platform"@);
        lemma_lookup_push(f10, "source"@, option_text(item.source), "platform"@);
        lemma_lookup_push(f9, "platform"@, option_text(item.platform), "platform"@);
    }
    lemma_ordered_field(f12, "platform"@);
    assert(field(value, "source"@) == Some(option_text(item.source))) by {
        lemma_lookup_push(f11, "exit_status"@, optional_signed_json(item.exit_status), "source"@);
        lemma_lookup_push(f10, "source"@, option_text(item.source), "source"@);
    }
    lemma_ordered_field(f12, "source"@);
    assert(field(value, "exit_status"@) == Some(optional_signed_json(item.exit_status))) by {
        lemma_lookup_push(
            f11,
            "exit_status"@,
            optional_signed_json(item.exit_status),
            "exit_status"@,
        );
    }
    lemma_ordered_field(f12, "exit_status"@);
    assert(ParticipantBindingView::read(value) == Some(item));
    assert(ParticipantBindingView::read(ordered(value)) == Some(item));
}

} // verus!
