//! Service intent of a flow and work profiles of its nodes, kept in extensions.
use vstd::prelude::*;

use crate::json::{
    compact, json_compact, json_parse, lemma_simple_record, lookup, no_fields, parse_json, reads_back,
    text_field, Fields, Json, JsonView,
};
use crate::text::{
    cat2, has_prefix, lemma_prefix_of_concat, same, starts_with, strip_prefix,
};

use super::model::{FlowDraft, FlowDraftView, FlowNode, FlowNodeView};

verus! {

broadcast use vstd::string::group_string_axioms;

/// Marks the extension that holds the service intent of a flow.
pub const FLOW_QOS_EXTENSION_PREFIX: &'static str = "humanize.flow_qos:";

/// Marks the extension that holds the work profile of a node.
pub const NODE_WORK_PROFILE_EXTENSION_PREFIX: &'static str = "humanize.work_profile:";

/// What a node is meant to do.
#[derive(Debug, Clone, Copy, PartialEq, Eq, Structural)]
pub enum WorkIntent {
    Produce,
    Evaluate,
    Explore,
    Synthesize,
    Coordinate,
}

impl WorkIntent {
    pub open spec fn name(self) -> Seq<char> {
        match self {
            WorkIntent::Produce => "produce"@,
            WorkIntent::Evaluate => "evaluate"@,
            WorkIntent::Explore => "explore"@,
            WorkIntent::Synthesize => "synthesize"@,
            WorkIntent::Coordinate => "coordinate"@,
        }
    }

    /// The value with the given name.
    pub open spec fn named(text: Seq<char>) -> Option<WorkIntent> {
        if text == "produce"@ {
            Some(WorkIntent::Produce)
        } else if text == "evaluate"@ {
            Some(WorkIntent::Evaluate)
        } else if text == "explore"@ {
            Some(WorkIntent::Explore)
        } else if text == "synthesize"@ {
            Some(WorkIntent::Synthesize)
        } else if text == "coordinate"@ {
            Some(WorkIntent::Coordinate)
        } else {
            None
        }
    }

    pub fn as_str(self) -> (r: &'static str)
        ensures
            r@ == self.name(),
    {
        match self {
            WorkIntent::Produce => "produce",
            WorkIntent::Evaluate => "evaluate",
            WorkIntent::Explore => "explore",
            WorkIntent::Synthesize => "synthesize",
            WorkIntent::Coordinate => "coordinate",
        }
    }

    pub fn parse(value: &str) -> (r: Option<Self>)
        ensures
            r == WorkIntent::named(value@),
    {
        if same(value, "produce") {
            Some(WorkIntent::Produce)
        } else if same(value, "evaluate") {
            Some(WorkIntent::Evaluate)
        } else if same(value, "explore") {
            Some(WorkIntent::Explore)
        } else if same(value, "synthesize") {
            Some(WorkIntent::Synthesize)
        } else if same(value, "coordinate") {
            Some(WorkIntent::Coordinate)
        } else {
            None
        }
    }

    /// Every value is found under its own name.
    pub proof fn lemma_named(self)
        ensures
            WorkIntent::named(self.name()) == Some(self),
    {
        reveal_strlit("produce");
        reveal_strlit("evaluate");
        reveal_strlit("explore");
        reveal_strlit("synthesize");
        reveal_strlit("coordinate");
        assert("produce"@ != "evaluate"@) by { assert("produce"@.len() != "evaluate"@.len()); }
        assert("produce"@ != "explore"@) by { assert("produce"@[0] != "explore"@[0]); }
        assert("produce"@ != "synthesize"@) by { assert("produce"@.len() != "synthesize"@.len()); }
        assert("produce"@ != "coordinate"@) by { assert("produce"@.len() != "coordinate"@.len()); }
        assert("evaluate"@ != "explore"@) by { assert("evaluate"@.len() != "explore"@.len()); }
        assert("evaluate"@ != "synthesize"@) by { assert("evaluate"@.len() != "synthesize"@.len()); }
        assert("evaluate"@ != "coordinate"@) by { assert("evaluate"@.len() != "coordinate"@.len()); }
        assert("explore"@ != "synthesize"@) by { assert("explore"@.len() != "synthesize"@.len()); }
        assert("explore"@ != "coordinate"@) by { assert("explore"@.len() != "coordinate"@.len()); }
        assert("synthesize"@ != "coordinate"@) by { assert("synthesize"@[0] != "coordinate"@[0]); }
    }
}

/// What a node may do with the workspace.
#[derive(Debug, Clone, Copy, PartialEq, Eq, Structural)]
pub enum WorkspaceAccess {
    Absent,
    ReadOnly,
    ReadWrite,
}

impl WorkspaceAccess {
    pub open spec fn name(self) -> Seq<char> {
        match self {
            WorkspaceAccess::Absent => "none"@,
            WorkspaceAccess::ReadOnly => "read_only"@,
            WorkspaceAccess::ReadWrite => "read_write"@,
        }
    }

    /// The value with the given name.
    pub open spec fn named(text: Seq<char>) -> Option<WorkspaceAccess> {
        if text == "none"@ {
            Some(WorkspaceAccess::Absent)
        } else if text == "read_only"@ {
            Some(WorkspaceAccess::ReadOnly)
        } else if text == "read_write"@ {
            Some(WorkspaceAccess::ReadWrite)
        } else {
            None
        }
    }

    pub fn as_str(self) -> (r: &'static str)
        ensures
            r@ == self.name(),
    {
        match self {
            WorkspaceAccess::Absent => "none",
            WorkspaceAccess::ReadOnly => "read_only",
            WorkspaceAccess::ReadWrite => "read_write",
        }
    }

    pub fn parse(value: &str) -> (r: Option<Self>)
        ensures
            r == WorkspaceAccess::named(value@),
    {
        if same(value, "none") {
            Some(WorkspaceAccess::Absent)
        } else if same(value, "read_only") {
            Some(WorkspaceAccess::ReadOnly)
        } else if same(value, "read_write") {
            Some(WorkspaceAccess::ReadWrite)
        } else {
            None
        }
    }

    /// Every value is found under its own name.
    pub proof fn lemma_named(self)
        ensures
            WorkspaceAccess::named(self.name()) == Some(self),
    {
        reveal_strlit("none");
        reveal_strlit("read_only");
        reveal_strlit("read_write");
        assert("none"@ != "read_only"@) by { assert("none"@.len() != "read_only"@.len()); }
        assert("none"@ != "read_write"@) by { assert("none"@.len() != "read_write"@.len()); }
        assert(
            "read_only"@ != "read_write"@
        ) by { assert("read_only"@.len() != "read_write"@.len()); }
    }
}

/// Whether a node may run tools.
#[derive(Debug, Clone, Copy, PartialEq, Eq, Structural)]
pub enum ToolExecution {
    Absent,
    Allowed,
}

impl ToolExecution {
    pub open spec fn name(self) -> Seq<char> {
        match self {
            ToolExecution::Absent => "none"@,
            ToolExecution::Allowed => "allowed"@,
        }
    }

    /// The value with the given name.
    pub open spec fn named(text: Seq<char>) -> Option<ToolExecution> {
        if text == "none"@ {
            Some(ToolExecution::Absent)
        } else if text == "allowed"@ {
            Some(ToolExecution::Allowed)
        } else {
            None
        }
    }

    pub fn as_str(self) -> (r: &'static str)
        ensures
            r@ == self.name(),
    {
        match self {
            ToolExecution::Absent => "none",
            ToolExecution::Allowed => "allowed",
        }
    }

    pub fn parse(value: &str) -> (r: Option<Self>)
        ensures
            r == ToolExecution::named(value@),
    {
        if same(value, "none") {
            Some(ToolExecution::Absent)
        } else if same(value, "allowed") {
            Some(ToolExecution::Allowed)
        } else {
            None
        }
    }

    /// Every value is found under its own name.
    pub proof fn lemma_named(self)
        ensures
            ToolExecution::named(self.name()) == Some(self),
    {
        reveal_strlit("none");
        reveal_strlit("allowed");
        assert("none"@ != "allowed"@) by { assert("none"@.len() != "allowed"@.len()); }
    }
}

/// How far a node may reach over the network.
#[derive(Debug, Clone, Copy, PartialEq, Eq, Structural)]
pub enum NetworkAccess {
    Absent,
    Restricted,
    Open,
}

impl NetworkAccess {
    pub open spec fn name(self) -> Seq<char> {
        match self {
            NetworkAccess::Absent => "none"@,
            NetworkAccess::Restricted => "restricted"@,
            NetworkAccess::Open => "open"@,
        }
    }

    /// The value with the given name.
    pub open spec fn named(text: Seq<char>) -> Option<NetworkAccess> {
        if text == "none"@ {
            Some(NetworkAccess::Absent)
        } else if text == "restricted"@ {
            Some(NetworkAccess::Restricted)
        } else if text == "open"@ {
            Some(NetworkAccess::Open)
        } else {
            None
        }
    }

    pub fn as_str(self) -> (r: &'static str)
        ensures
            r@ == self.name(),
    {
        match self {
            NetworkAccess::Absent => "none",
            NetworkAccess::Restricted => "restricted",
            NetworkAccess::Open => "open",
        }
    }

    pub fn parse(value: &str) -> (r: Option<Self>)
        ensures
            r == NetworkAccess::named(value@),
    {
        if same(value, "none") {
            Some(NetworkAccess::Absent)
        } else if same(value, "restricted") {
            Some(NetworkAccess::Restricted)
        } else if same(value, "open") {
            Some(NetworkAccess::Open)
        } else {
            None
        }
    }

    /// Every value is found under its own name.
    pub proof fn lemma_named(self)
        ensures
            NetworkAccess::named(self.name()) == Some(self),
    {
        reveal_strlit("none");
        reveal_strlit("restricted");
        reveal_strlit("open");
        assert("none"@ != "restricted"@) by { assert("none"@.len() != "restricted"@.len()); }
        assert("none"@ != "open"@) by { assert("none"@[0] != "open"@[0]); }
        assert("restricted"@ != "open"@) by { assert("restricted"@.len() != "open"@.len()); }
    }
}

/// How soon a flow is wanted.
#[derive(Debug, Clone, Copy, PartialEq, Eq, Structural)]
pub enum QosUrgency {
    Interactive,
    Standard,
    Background,
}

impl QosUrgency {
    pub open spec fn name(self) -> Seq<char> {
        match self {
            QosUrgency::Interactive => "interactive"@,
            QosUrgency::Standard => "standard"@,
            QosUrgency::Background => "background"@,
        }
    }

    /// The value with the given name.
    pub open spec fn named(text: Seq<char>) -> Option<QosUrgency> {
        if text == "interactive"@ {
            Some(QosUrgency::Interactive)
        } else if text == "standard"@ {
            Some(QosUrgency::Standard)
        } else if text == "background"@ {
            Some(QosUrgency::Background)
        } else {
            None
        }
    }

    pub fn as_str(self) -> (r: &'static str)
        ensures
            r@ == self.name(),
    {
        match self {
            QosUrgency::Interactive => "interactive",
            QosUrgency::Standard => "standard",
            QosUrgency::Background => "background",
        }
    }

    pub fn parse(value: &str) -> (r: Option<Self>)
        ensures
            r == QosUrgency::named(value@),
    {
        if same(value, "interactive") {
            Some(QosUrgency::Interactive)
        } else if same(value, "standard") {
            Some(QosUrgency::Standard)
        } else if same(value, "background") {
            Some(QosUrgency::Background)
        } else {
            None
        }
    }

    /// Every value is found under its own name.
    pub proof fn lemma_named(self)
        ensures
            QosUrgency::named(self.name()) == Some(self),
    {
        reveal_strlit("interactive");
        reveal_strlit("standard");
        reveal_strlit("background");
        assert(
            "interactive"@ != "standard"@
        ) by { assert("interactive"@.len() != "standard"@.len()); }
        assert(
            "interactive"@ != "background"@
        ) by { assert("interactive"@.len() != "background"@.len()); }
        assert("standard"@ != "background"@) by { assert("standard"@.len() != "background"@.len()); }
    }
}

/// What a node may do while it works.
#[derive(Debug, Clone, Copy, PartialEq, Eq, Structural)]
pub struct WorkProfile {
    pub intent: WorkIntent,
    pub workspace_access: WorkspaceAccess,
    pub tool_execution: ToolExecution,
    pub network_access: NetworkAccess,
}

impl WorkProfile {
    pub open spec fn standard() -> WorkProfile {
        WorkProfile {
            intent: WorkIntent::Produce,
            workspace_access: WorkspaceAccess::ReadWrite,
            tool_execution: ToolExecution::Allowed,
            network_access: NetworkAccess::Restricted,
        }
    }

    pub fn is_default(&self) -> (r: bool)
        ensures
            r == (*self == WorkProfile::standard()),
    {
        *self == WorkProfile::default()
    }
}

impl Default for WorkProfile {
    fn default() -> (r: Self)
        ensures
            r == WorkProfile::standard(),
    {
        WorkProfile {
            intent: WorkIntent::Produce,
            workspace_access: WorkspaceAccess::ReadWrite,
            tool_execution: ToolExecution::Allowed,
            network_access: NetworkAccess::Restricted,
        }
    }
}

/// How soon a flow is wanted, and what it is meant to reach.
#[derive(Debug, PartialEq, Eq)]
pub struct FlowQosIntent {
    pub urgency: QosUrgency,
    pub completion_target: Option<String>,
}

#[verifier::ext_equal]
pub struct QosView {
    pub urgency: QosUrgency,
    pub completion_target: Option<Seq<char>>,
}

impl DeepView for FlowQosIntent {
    type V = QosView;

    open spec fn deep_view(&self) -> QosView {
        QosView { urgency: self.urgency, completion_target: self.completion_target.deep_view() }
    }
}

impl QosView {
    pub open spec fn standard() -> QosView {
        QosView { urgency: QosUrgency::Standard, completion_target: None }
    }
}

impl Clone for FlowQosIntent {
    fn clone(&self) -> (r: Self)
        ensures
            r.deep_view() == self.deep_view(),
    {
        FlowQosIntent {
            urgency: self.urgency,
            completion_target: self.completion_target.clone(),
        }
    }
}

impl Default for FlowQosIntent {
    fn default() -> (r: Self)
        ensures
            r.deep_view() == QosView::standard(),
    {
        FlowQosIntent { urgency: QosUrgency::Standard, completion_target: None }
    }
}

impl FlowQosIntent {
    pub fn is_default(&self) -> (r: bool)
        ensures
            r == (self.deep_view() == QosView::standard()),
    {
        self.urgency == QosUrgency::Standard && self.completion_target.is_none()
    }
}

/// The extensions that do not begin with a prefix, in order.
pub open spec fn without_prefix(extensions: Seq<Seq<char>>, prefix: Seq<char>) -> Seq<Seq<char>>
    decreases extensions.len(),
{
    if extensions.len() == 0 {
        extensions
    } else {
        let front = without_prefix(extensions.drop_last(), prefix);
        if has_prefix(extensions.last(), prefix) {
            front
        } else {
            front.push(extensions.last())
        }
    }
}

fn retain_without_prefix(extensions: &Vec<String>, prefix: &str) -> (r: Vec<String>)
    ensures
        r.deep_view() == without_prefix(extensions.deep_view(), prefix@),
{
    let mut out: Vec<String> = Vec::new();
    let ghost model = extensions.deep_view();
    let mut i: usize = 0;
    assert(out.deep_view() =~= without_prefix(model.take(0), prefix@));
    while i < extensions.len()
        invariant
            i <= extensions.len(),
            model == extensions.deep_view(),
            out.deep_view() == without_prefix(model.take(i as int), prefix@),
        decreases extensions.len() - i,
    {
        let ghost before = out.deep_view();
        assert(model.take(i + 1).drop_last() =~= model.take(i as int));
        assert(model.take(i + 1).last() == extensions@[i as int]@);
        if !starts_with(extensions[i].as_str(), prefix) {
            out.push(extensions[i].clone());
            assert(out.deep_view() =~= before.push(extensions@[i as int]@));
        }
        i += 1;
    }
    assert(model.take(i as int) =~= model);
    out
}

/// No remaining extension begins with the prefix.
pub proof fn lemma_without_prefix(extensions: Seq<Seq<char>>, prefix: Seq<char>)
    ensures
        forall|i: int|
            0 <= i < without_prefix(extensions, prefix).len() ==> !has_prefix(
                #[trigger] without_prefix(extensions, prefix)[i],
                prefix,
            ),
    decreases extensions.len(),
{
    if extensions.len() > 0 {
        lemma_without_prefix(extensions.drop_last(), prefix);
        let front = without_prefix(extensions.drop_last(), prefix);
        let all = without_prefix(extensions, prefix);
        assert forall|i: int| 0 <= i < all.len() implies !has_prefix(#[trigger] all[i], prefix) by {
            if i < front.len() {
                assert(all[i] == front[i]);
            }
        }
    }
}

/// What follows the prefix of an extension, read as JSON.
pub open spec fn payload_of(extension: Seq<char>, prefix: Seq<char>) -> Option<JsonView> {
    if has_prefix(extension, prefix) {
        match json_parse(extension.skip(prefix.len() as int)) {
            Ok(value) => Some(value),
            Err(_) => None,
        }
    } else {
        None
    }
}

pub fn extension_payload(extension: &str, prefix: &str) -> (r: Option<Json>)
    ensures
        r.deep_view() == payload_of(extension@, prefix@),
{
    match strip_prefix(extension, prefix) {
        Some(payload) => match parse_json(payload) {
            Ok(value) => Some(value),
            Err(_) => None,
        },
        None => None,
    }
}

/// The service intent that a JSON value states; only an object states one.
pub open spec fn qos_of_json(value: JsonView) -> Option<QosView> {
    if value is Record {
        Some(
            QosView {
                urgency: match text_field(value, "urgency"@) {
                    Some(name) => match QosUrgency::named(name) {
                        Some(urgency) => urgency,
                        None => QosUrgency::Standard,
                    },
                    None => QosUrgency::Standard,
                },
                completion_target: text_field(value, "completion_target"@),
            },
        )
    } else {
        None
    }
}

pub fn qos_from_json(value: &Json) -> (r: Option<FlowQosIntent>)
    ensures
        r.deep_view() == qos_of_json(value@),
{
    match value {
        Json::Record(_) => {
            let urgency = match value.text_at("urgency") {
                Some(name) => match QosUrgency::parse(name) {
                    Some(urgency) => urgency,
                    None => QosUrgency::Standard,
                },
                None => QosUrgency::Standard,
            };
            let completion_target = match value.text_at("completion_target") {
                Some(target) => Some(target.to_string()),
                None => None,
            };
            Some(FlowQosIntent { urgency, completion_target })
        },
        _ => None,
    }
}

pub open spec fn qos_of_extension(extension: Seq<char>) -> Option<QosView> {
    match payload_of(extension, FLOW_QOS_EXTENSION_PREFIX@) {
        Some(value) => qos_of_json(value),
        None => None,
    }
}

/// The first service intent that the extensions state.
pub open spec fn first_qos(extensions: Seq<Seq<char>>) -> Option<QosView>
    decreases extensions.len(),
{
    if extensions.len() == 0 {
        None
    } else {
        match qos_of_extension(extensions[0]) {
            Some(qos) => Some(qos),
            None => first_qos(extensions.drop_first()),
        }
    }
}

/// The service intent of a draft: the first that its extensions state, or the
/// standard one.
pub open spec fn draft_qos(extensions: Seq<Seq<char>>) -> QosView {
    match first_qos(extensions) {
        Some(qos) => qos,
        None => QosView::standard(),
    }
}

fn parse_qos_extension(extension: &str) -> (r: Option<FlowQosIntent>)
    ensures
        r.deep_view() == qos_of_extension(extension@),
{
    match extension_payload(extension, FLOW_QOS_EXTENSION_PREFIX) {
        Some(value) => qos_from_json(&value),
        None => None,
    }
}

pub fn flow_draft_qos(draft: &FlowDraft) -> (r: FlowQosIntent)
    ensures
        r.deep_view() == draft_qos(draft.deep_view().extensions),
{
    let ghost model = draft.extensions.deep_view();
    let mut i: usize = 0;
    assert(model.skip(0) =~= model);
    while i < draft.extensions.len()
        invariant
            i <= draft.extensions.len(),
            model == draft.extensions.deep_view(),
            first_qos(model) == first_qos(model.skip(i as int)),
        decreases draft.extensions.len() - i,
    {
        assert(model.skip(i as int)[0] == draft.extensions@[i as int]@);
        assert(model.skip(i as int).drop_first() =~= model.skip(i + 1));
        match parse_qos_extension(draft.extensions[i].as_str()) {
            Some(qos) => {
                return qos;
            },
            None => {},
        }
        i += 1;
    }
    FlowQosIntent::default()
}

/// A service intent as JSON.
pub open spec fn qos_json(qos: QosView) -> JsonView {
    match qos.completion_target {
        Some(target) => JsonView::Record(
            no_fields().push(("completion_target"@, JsonView::Text(target))).push(
                ("urgency"@, JsonView::Text(qos.urgency.name())),
            ),
        ),
        None => JsonView::Record(
            no_fields().push(("urgency"@, JsonView::Text(qos.urgency.name()))),
        ),
    }
}

/// The extensions of a draft after a service intent was set: the standard intent
/// needs no extension, any other one stands behind the rest.
pub open spec fn with_qos(extensions: Seq<Seq<char>>, qos: QosView) -> Seq<Seq<char>> {
    let rest = without_prefix(extensions, FLOW_QOS_EXTENSION_PREFIX@);
    if qos == QosView::standard() {
        rest
    } else {
        rest.push(FLOW_QOS_EXTENSION_PREFIX@ + json_compact(qos_json(qos)))
    }
}

proof fn lemma_first_qos_skips(extensions: Seq<Seq<char>>, last: Seq<Seq<char>>)
    requires
        forall|i: int|
            0 <= i < extensions.len() ==> !has_prefix(
                #[trigger] extensions[i],
                FLOW_QOS_EXTENSION_PREFIX@,
            ),
    ensures
        first_qos(extensions + last) == first_qos(last),
    decreases extensions.len(),
{
    if extensions.len() == 0 {
        assert(extensions + last =~= last);
    } else {
        assert(!has_prefix(extensions[0], FLOW_QOS_EXTENSION_PREFIX@));
        assert((extensions + last)[0] == extensions[0]);
        assert((extensions + last).drop_first() =~= extensions.drop_first() + last);
        assert forall|i: int| 0 <= i < extensions.drop_first().len() implies !has_prefix(
            #[trigger] extensions.drop_first()[i],
            FLOW_QOS_EXTENSION_PREFIX@,
        ) by {
            assert(extensions.drop_first()[i] == extensions[i + 1]);
        }
        lemma_first_qos_skips(extensions.drop_first(), last);
    }
}

proof fn lemma_qos_json(qos: QosView)
    ensures
        reads_back(qos_json(qos)),
        qos_of_json(qos_json(qos)) == Some(qos),
{
    reveal_strlit("completion_target");
    reveal_strlit("urgency");
    assert("completion_target"@.len() != "urgency"@.len());
    qos.urgency.lemma_named();
    let value = qos_json(qos);
    let fields = value->Record_0;
    reveal_with_fuel(lookup, 3);
    match qos.completion_target {
        Some(target) => {
            assert(fields.drop_last() =~= no_fields().push(
                ("completion_target"@, JsonView::Text(target)),
            ));
            assert(fields.drop_last().drop_last() =~= Seq::empty());
            assert(fields.last().0 == "urgency"@);
        },
        None => {
            assert(fields.drop_last() =~= Seq::empty());
        },
    }
    lemma_simple_record(fields);
}

/// Sets the service intent of a draft; reading it gives back what was set.
pub fn set_flow_draft_qos(draft: &mut FlowDraft, qos: FlowQosIntent)
    ensures
        final(draft).deep_view() == (FlowDraftView {
            extensions: with_qos(old(draft).deep_view().extensions, qos.deep_view()),
            ..old(draft).deep_view()
        }),
        draft_qos(final(draft).deep_view().extensions) == qos.deep_view(),
{
    let ghost model = draft.extensions.deep_view();
    let ghost wanted = qos.deep_view();
    let mut rest = retain_without_prefix(&draft.extensions, FLOW_QOS_EXTENSION_PREFIX);
    let ghost kept = rest.deep_view();
    proof {
        lemma_without_prefix(model, FLOW_QOS_EXTENSION_PREFIX@);
        lemma_qos_json(wanted);
    }
    if qos.is_default() {
        draft.extensions = rest;
        proof {
            lemma_first_qos_skips(kept, Seq::empty());
            assert(kept + Seq::<Seq<char>>::empty() =~= kept);
        }
        return ;
    }
    let mut fields = Fields::new();
    if let Some(target) = &qos.completion_target {
        fields = fields.put("completion_target", Json::text(target.as_str()));
    }
    let value = fields.put("urgency", Json::text(qos.urgency.as_str())).done();
    assert(value@ == qos_json(wanted));
    let payload = compact(&value);
    let extension = cat2(FLOW_QOS_EXTENSION_PREFIX, payload.as_str());
    rest.push(extension);
    proof {
        assert(rest.deep_view() =~= kept.push(extension@));
        lemma_prefix_of_concat(FLOW_QOS_EXTENSION_PREFIX@, payload@);
        assert(qos_of_extension(extension@) == Some(wanted));
        assert(kept.push(extension@) =~= kept + seq![extension@]);
        lemma_first_qos_skips(kept, seq![extension@]);
    }
    draft.extensions = rest;
}

/// The work profile that a JSON value states; only an object states one, and what
/// it leaves out is as standard.
pub open spec fn profile_of_json(value: JsonView) -> Option<WorkProfile> {
    if value is Record {
        Some(
            WorkProfile {
                intent: match text_field(value, "intent"@) {
                    Some(name) => match WorkIntent::named(name) {
                        Some(v) => v,
                        None => WorkIntent::Produce,
                    },
                    None => WorkIntent::Produce,
                },
                workspace_access: match text_field(value, "workspace_access"@) {
                    Some(name) => match WorkspaceAccess::named(name) {
                        Some(v) => v,
                        None => WorkspaceAccess::ReadWrite,
                    },
                    None => WorkspaceAccess::ReadWrite,
                },
                tool_execution: match text_field(value, "tool_execution"@) {
                    Some(name) => match ToolExecution::named(name) {
                        Some(v) => v,
                        None => ToolExecution::Allowed,
                    },
                    None => ToolExecution::Allowed,
                },
                network_access: match text_field(value, "network_access"@) {
                    Some(name) => match NetworkAccess::named(name) {
                        Some(v) => v,
                        None => NetworkAccess::Restricted,
                    },
                    None => NetworkAccess::Restricted,
                },
            },
        )
    } else {
        None
    }
}

pub fn work_profile_from_json(value: &Json) -> (r: Option<WorkProfile>)
    ensures
        r == profile_of_json(value@),
{
    match value {
        Json::Record(_) => {
            let intent = match value.text_at("intent") {
                Some(name) => match WorkIntent::parse(name) {
                    Some(v) => v,
                    None => WorkIntent::Produce,
                },
                None => WorkIntent::Produce,
            };
            let workspace_access = match value.text_at("workspace_access") {
                Some(name) => match WorkspaceAccess::parse(name) {
                    Some(v) => v,
                    None => WorkspaceAccess::ReadWrite,
                },
                None => WorkspaceAccess::ReadWrite,
            };
            let tool_execution = match value.text_at("tool_execution") {
                Some(name) => match ToolExecution::parse(name) {
                    Some(v) => v,
                    None => ToolExecution::Allowed,
                },
                None => ToolExecution::Allowed,
            };
            let network_access = match value.text_at("network_access") {
                Some(name) => match NetworkAccess::parse(name) {
                    Some(v) => v,
                    None => NetworkAccess::Restricted,
                },
                None => NetworkAccess::Restricted,
            };
            Some(WorkProfile { intent, workspace_access, tool_execution, network_access })
        },
        _ => None,
    }
}

pub open spec fn profile_of_extension(extension: Seq<char>) -> Option<WorkProfile> {
    match payload_of(extension, NODE_WORK_PROFILE_EXTENSION_PREFIX@) {
        Some(value) => profile_of_json(value),
        None => None,
    }
}

/// The first work profile that the extensions state.
pub open spec fn first_profile(extensions: Seq<Seq<char>>) -> Option<WorkProfile>
    decreases extensions.len(),
{
    if extensions.len() == 0 {
        None
    } else {
        match profile_of_extension(extensions[0]) {
            Some(profile) => Some(profile),
            None => first_profile(extensions.drop_first()),
        }
    }
}

/// The work profile of a node: the first that its extensions state, or the
/// standard one.
pub open spec fn node_work_profile(extensions: Seq<Seq<char>>) -> WorkProfile {
    match first_profile(extensions) {
        Some(profile) => profile,
        None => WorkProfile::standard(),
    }
}

fn parse_work_profile_extension(extension: &str) -> (r: Option<WorkProfile>)
    ensures
        r == profile_of_extension(extension@),
{
    match extension_payload(extension, NODE_WORK_PROFILE_EXTENSION_PREFIX) {
        Some(value) => work_profile_from_json(&value),
        None => None,
    }
}

pub fn flow_node_work_profile(node: &FlowNode) -> (r: WorkProfile)
    ensures
        r == node_work_profile(node.deep_view().extensions),
{
    let ghost model = node.extensions.deep_view();
    let mut i: usize = 0;
    assert(model.skip(0) =~= model);
    while i < node.extensions.len()
        invariant
            i <= node.extensions.len(),
            model == node.extensions.deep_view(),
            first_profile(model) == first_profile(model.skip(i as int)),
        decreases node.extensions.len() - i,
    {
        assert(model.skip(i as int)[0] == node.extensions@[i as int]@);
        assert(model.skip(i as int).drop_first() =~= model.skip(i + 1));
        match parse_work_profile_extension(node.extensions[i].as_str()) {
            Some(profile) => {
                return profile;
            },
            None => {},
        }
        i += 1;
    }
    WorkProfile::default()
}

/// A work profile as JSON.
pub open spec fn profile_json(profile: WorkProfile) -> JsonView {
    JsonView::Record(
        no_fields().push(("intent"@, JsonView::Text(profile.intent.name()))).push(
            ("network_access"@, JsonView::Text(profile.network_access.name())),
        ).push(("tool_execution"@, JsonView::Text(profile.tool_execution.name()))).push(
            ("workspace_access"@, JsonView::Text(profile.workspace_access.name())),
        ),
    )
}

/// The extensions of a node after a work profile was set: the standard profile
/// needs no extension, any other one stands behind the rest.
pub open spec fn with_profile(extensions: Seq<Seq<char>>, profile: WorkProfile) -> Seq<Seq<char>> {
    let rest = without_prefix(extensions, NODE_WORK_PROFILE_EXTENSION_PREFIX@);
    if profile == WorkProfile::standard() {
        rest
    } else {
        rest.push(NODE_WORK_PROFILE_EXTENSION_PREFIX@ + json_compact(profile_json(profile)))
    }
}

proof fn lemma_first_profile_skips(extensions: Seq<Seq<char>>, last: Seq<Seq<char>>)
    requires
        forall|i: int|
            0 <= i < extensions.len() ==> !has_prefix(
                #[trigger] extensions[i],
                NODE_WORK_PROFILE_EXTENSION_PREFIX@,
            ),
    ensures
        first_profile(extensions + last) == first_profile(last),
    decreases extensions.len(),
{
    if extensions.len() == 0 {
        assert(extensions + last =~= last);
    } else {
        assert(!has_prefix(extensions[0], NODE_WORK_PROFILE_EXTENSION_PREFIX@));
        assert((extensions + last)[0] == extensions[0]);
        assert((extensions + last).drop_first() =~= extensions.drop_first() + last);
        assert forall|i: int| 0 <= i < extensions.drop_first().len() implies !has_prefix(
            #[trigger] extensions.drop_first()[i],
            NODE_WORK_PROFILE_EXTENSION_PREFIX@,
        ) by {
            assert(extensions.drop_first()[i] == extensions[i + 1]);
        }
        lemma_first_profile_skips(extensions.drop_first(), last);
    }
}

proof fn lemma_profile_json(profile: WorkProfile)
    ensures
        reads_back(profile_json(profile)),
        profile_of_json(profile_json(profile)) == Some(profile),
{
    reveal_strlit("intent");
    reveal_strlit("network_access");
    reveal_strlit("tool_execution");
    reveal_strlit("workspace_access");
    profile.intent.lemma_named();
    profile.network_access.lemma_named();
    profile.tool_execution.lemma_named();
    profile.workspace_access.lemma_named();
    let value = profile_json(profile);
    let f4 = value->Record_0;
    let f1 = no_fields().push(f4[0]);
    let f2 = f1.push(f4[1]);
    let f3 = f2.push(f4[2]);
    assert(f4.drop_last() =~= f3);
    assert(f3.drop_last() =~= f2);
    assert(f2.drop_last() =~= f1);
    assert(f1.drop_last() =~= no_fields());
    assert forall|i: int, j: int| 0 <= i < j < f4.len() implies (#[trigger] f4[i]).0 != (
    #[trigger] f4[j]).0 by {
        assert(f4[0].0[0] == 'i' && f4[1].0[0] == 'n' && f4[2].0[0] == 't' && f4[3].0[0] == 'w');
    }
    reveal_with_fuel(lookup, 5);
    lemma_simple_record(f4);
}

/// Sets the work profile of a node; reading it gives back what was set.
pub fn set_flow_node_work_profile(node: &mut FlowNode, profile: WorkProfile)
    ensures
        final(node).deep_view() == (FlowNodeView {
            extensions: with_profile(old(node).deep_view().extensions, profile),
            ..old(node).deep_view()
        }),
        node_work_profile(final(node).deep_view().extensions) == profile,
{
    let ghost model = node.extensions.deep_view();
    let mut rest = retain_without_prefix(&node.extensions, NODE_WORK_PROFILE_EXTENSION_PREFIX);
    let ghost kept = rest.deep_view();
    proof {
        lemma_without_prefix(model, NODE_WORK_PROFILE_EXTENSION_PREFIX@);
        lemma_profile_json(profile);
    }
    if profile.is_default() {
        node.extensions = rest;
        proof {
            lemma_first_profile_skips(kept, Seq::empty());
            assert(kept + Seq::<Seq<char>>::empty() =~= kept);
        }
        return ;
    }
    let value = Fields::new().put("intent", Json::text(profile.intent.as_str())).put(
        "network_access",
        Json::text(profile.network_access.as_str()),
    ).put("tool_execution", Json::text(profile.tool_execution.as_str())).put(
        "workspace_access",
        Json::text(profile.workspace_access.as_str()),
    ).done();
    assert(value@ == profile_json(profile));
    let payload = compact(&value);
    let extension = cat2(NODE_WORK_PROFILE_EXTENSION_PREFIX, payload.as_str());
    rest.push(extension);
    proof {
        assert(rest.deep_view() =~= kept.push(extension@));
        lemma_prefix_of_concat(NODE_WORK_PROFILE_EXTENSION_PREFIX@, payload@);
        assert(profile_of_extension(extension@) == Some(profile));
        assert(kept.push(extension@) =~= kept + seq![extension@]);
        lemma_first_profile_skips(kept, seq![extension@]);
    }
    node.extensions = rest;
}

pub fn extension_is_flow_qos(extension: &str) -> (r: bool)
    ensures
        r == has_prefix(extension@, FLOW_QOS_EXTENSION_PREFIX@),
{
    starts_with(extension, FLOW_QOS_EXTENSION_PREFIX)
}

pub fn extension_is_node_work_profile(extension: &str) -> (r: bool)
    ensures
        r == has_prefix(extension@, NODE_WORK_PROFILE_EXTENSION_PREFIX@),
{
    starts_with(extension, NODE_WORK_PROFILE_EXTENSION_PREFIX)
}

} // verus!
