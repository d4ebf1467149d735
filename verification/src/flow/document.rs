//! Flows and findings as JSON documents.
use vstd::prelude::*;

use crate::json::{
    json_view, no_fields, option_text, option_text_json, text_list, text_list_json, Fields, Json,
    JsonView,
};

use super::diagnostic::{Diagnostic, DiagnosticView, RepairKind};
use super::model::{
    ContractArtifact, ContractArtifactView, ContractCompletion, FlowContract, FlowContractView,
    FlowDraft, FlowDraftView, FlowImport, FlowImportView, FlowNode, FlowNodeView, FlowPolicies,
    FlowPoliciesView, FlowResource, FlowResourceView, FlowRoute, FlowRouteView, NodeAction,
    NodeActionView, WriteScope, WriteScopeView,
};
use super::predicate::{ArtifactRef, FactRef, FactView, FlowPredicate, PredicateView};

verus! {

broadcast use vstd::string::group_string_axioms;

/// A value with a JSON form.
pub trait Document: DeepView + Sized {
    spec fn json(value: Self::V) -> JsonView;

    fn to_json(&self) -> (r: Json)
        ensures
            r@ == Self::json(self.deep_view()),
    ;
}

/// The JSON forms of a list of values.
pub open spec fn list_of<T: Document>(items: Seq<T::V>) -> JsonView {
    JsonView::List(Seq::new(items.len(), |i: int| T::json(items[i])))
}

pub fn list_to_json<T: Document>(items: &Vec<T>) -> (r: Json)
    ensures
        r@ == list_of::<T>(items.deep_view()),
{
    let mut out: Vec<Json> = Vec::new();
    let mut i: usize = 0;
    while i < items.len()
        invariant
            i <= items.len(),
            out.len() == i,
            forall|j: int|
                0 <= j < i ==> json_view(#[trigger] out@[j]) == T::json(items@[j].deep_view()),
        decreases items.len() - i,
    {
        out.push(items[i].to_json());
        i += 1;
    }
    let r = Json::List(out);
    assert(r@->List_0 =~= list_of::<T>(items.deep_view())->List_0);
    r
}

/// The JSON form of a value that may be absent.
pub open spec fn option_of<T: Document>(value: Option<T::V>) -> JsonView {
    match value {
        Some(value) => T::json(value),
        None => JsonView::Null,
    }
}

pub fn option_to_json<T: Document>(value: &Option<T>) -> (r: Json)
    ensures
        r@ == option_of::<T>(value.deep_view()),
{
    match value {
        Some(value) => value.to_json(),
        None => Json::Null,
    }
}

fn texts_to_json(items: &Vec<String>) -> (r: Json)
    ensures
        r@ == text_list(items.deep_view()),
{
    let listed = items.as_slice();
    assert(listed.deep_view() =~= items.deep_view());
    text_list_json(listed)
}

impl Document for WriteScope {
    open spec fn json(value: WriteScopeView) -> JsonView {
        match value {
            WriteScopeView::Artifact(id) => JsonView::Record(
                no_fields().push(("artifact"@, JsonView::Text(id))),
            ),
            WriteScopeView::Resource(id) => JsonView::Record(
                no_fields().push(("resource"@, JsonView::Text(id))),
            ),
            WriteScopeView::Workspace => JsonView::Text("workspace"@),
            WriteScopeView::System => JsonView::Text("system"@),
        }
    }

    fn to_json(&self) -> (r: Json) {
        match self {
            WriteScope::Artifact(id) => Fields::new().put(
                "artifact",
                Json::text(id.as_str()),
            ).done(),
            WriteScope::Resource(id) => Fields::new().put(
                "resource",
                Json::text(id.as_str()),
            ).done(),
            WriteScope::Workspace => Json::text("workspace"),
            WriteScope::System => Json::text("system"),
        }
    }
}

impl Document for NodeAction {
    open spec fn json(value: NodeActionView) -> JsonView {
        JsonView::Record(
            no_fields().push(("driver"@, JsonView::Text(value.driver.name()))).push(
                ("prompt_ref"@, option_text(value.prompt_ref)),
            ).push(("resource_refs"@, text_list(value.resource_refs))).push(
                ("reads"@, text_list(value.reads)),
            ).push(("writes"@, text_list(value.writes))).push(
                ("verdict_artifact"@, option_text(value.verdict_artifact)),
            ),
        )
    }

    fn to_json(&self) -> (r: Json) {
        Fields::new().put("driver", Json::text(self.driver.as_str())).put(
            "prompt_ref",
            option_text_json(&self.prompt_ref),
        ).put("resource_refs", texts_to_json(&self.resource_refs)).put(
            "reads",
            texts_to_json(&self.reads),
        ).put("writes", texts_to_json(&self.writes)).put(
            "verdict_artifact",
            option_text_json(&self.verdict_artifact),
        ).done()
    }
}

impl Document for FlowNode {
    open spec fn json(value: FlowNodeView) -> JsonView {
        JsonView::Record(
            no_fields().push(("id"@, JsonView::Text(value.id))).push(
                ("contract_id"@, option_text(value.contract_id)),
            ).push(("action"@, option_of::<NodeAction>(value.action))).push(
                ("write_scopes"@, list_of::<WriteScope>(value.write_scopes)),
            ).push(("extensions"@, text_list(value.extensions))),
        )
    }

    fn to_json(&self) -> (r: Json) {
        Fields::new().put("id", Json::text(self.id.as_str())).put(
            "contract_id",
            option_text_json(&self.contract_id),
        ).put("action", option_to_json(&self.action)).put(
            "write_scopes",
            list_to_json(&self.write_scopes),
        ).put("extensions", texts_to_json(&self.extensions)).done()
    }
}

impl Document for ContractArtifact {
    open spec fn json(value: ContractArtifactView) -> JsonView {
        JsonView::Record(
            no_fields().push(("id"@, JsonView::Text(value.id))).push(
                ("schema_resource_id"@, option_text(value.schema_resource_id)),
            ),
        )
    }

    fn to_json(&self) -> (r: Json) {
        Fields::new().put("id", Json::text(self.id.as_str())).put(
            "schema_resource_id",
            option_text_json(&self.schema_resource_id),
        ).done()
    }
}

impl Document for ContractCompletion {
    open spec fn json(value: ContractCompletion) -> JsonView {
        JsonView::Text(value.name())
    }

    fn to_json(&self) -> (r: Json) {
        Json::text(self.as_str())
    }
}

impl Document for FlowContract {
    open spec fn json(value: FlowContractView) -> JsonView {
        JsonView::Record(
            no_fields().push(("id"@, JsonView::Text(value.id))).push(
                ("completion"@, option_of::<ContractCompletion>(value.completion)),
            ).push(("artifacts"@, list_of::<ContractArtifact>(value.artifacts))),
        )
    }

    fn to_json(&self) -> (r: Json) {
        Fields::new().put("id", Json::text(self.id.as_str())).put(
            "completion",
            option_to_json(&self.completion),
        ).put("artifacts", list_to_json(&self.artifacts)).done()
    }
}

impl Document for FactRef {
    open spec fn json(value: FactView) -> JsonView {
        JsonView::Record(
            no_fields().push(("kind"@, JsonView::Text(value.kind()))).push(
                ("key"@, JsonView::Text(value.key())),
            ),
        )
    }

    fn to_json(&self) -> (r: Json) {
        Fields::new().put("kind", Json::text(self.kind())).put(
            "key",
            Json::text(self.key().as_str()),
        ).done()
    }
}

impl Document for ArtifactRef {
    open spec fn json(value: Seq<char>) -> JsonView {
        JsonView::Record(no_fields().push(("key"@, JsonView::Text(value))))
    }

    fn to_json(&self) -> (r: Json) {
        Fields::new().put("key", Json::text(self.key().as_str())).done()
    }
}

impl Document for FlowPredicate {
    open spec fn json(value: PredicateView) -> JsonView {
        JsonView::Record(
            no_fields().push(("op"@, JsonView::Text(super::canonical::predicate_op(value)))).push(
                ("fact"@, FactRef::json(value.fact())),
            ),
        )
    }

    fn to_json(&self) -> (r: Json) {
        let op = match self {
            FlowPredicate::Exists { .. } => "exists",
            FlowPredicate::Truthy { .. } => "truthy",
        };
        Fields::new().put("op", Json::text(op)).put("fact", self.fact_ref().to_json()).done()
    }
}

impl Document for FlowRoute {
    open spec fn json(value: FlowRouteView) -> JsonView {
        JsonView::Record(
            no_fields().push(("predicate"@, FlowPredicate::json(value.predicate))).push(
                ("for_each"@, option_of::<ArtifactRef>(value.for_each)),
            ).push(("activate"@, JsonView::Text(value.activate))),
        )
    }

    fn to_json(&self) -> (r: Json) {
        Fields::new().put("predicate", self.predicate.to_json()).put(
            "for_each",
            option_to_json(&self.for_each),
        ).put("activate", Json::text(self.activate.as_str())).done()
    }
}

impl Document for FlowResource {
    open spec fn json(value: FlowResourceView) -> JsonView {
        JsonView::Record(
            no_fields().push(("path"@, JsonView::Text(value.id))).push(
                ("kind"@, JsonView::Text(value.kind.name())),
            ).push(("content"@, JsonView::Text(value.source))),
        )
    }

    fn to_json(&self) -> (r: Json) {
        Fields::new().put("path", Json::text(self.id.as_str())).put(
            "kind",
            Json::text(self.kind.as_str()),
        ).put("content", Json::text(self.source.as_str())).done()
    }
}

impl Document for FlowImport {
    open spec fn json(value: FlowImportView) -> JsonView {
        JsonView::Record(
            no_fields().push(("resource_id"@, JsonView::Text(value.resource_id))).push(
                ("alias"@, option_text(value.alias)),
            ),
        )
    }

    fn to_json(&self) -> (r: Json) {
        Fields::new().put("resource_id", Json::text(self.resource_id.as_str())).put(
            "alias",
            option_text_json(&self.alias),
        ).done()
    }
}

impl Document for FlowPolicies {
    open spec fn json(value: FlowPoliciesView) -> JsonView {
        JsonView::Record(
            no_fields().push(("write_scopes"@, list_of::<WriteScope>(value.write_scopes))),
        )
    }

    fn to_json(&self) -> (r: Json) {
        Fields::new().put("write_scopes", list_to_json(&self.write_scopes)).done()
    }
}

impl Document for FlowDraft {
    open spec fn json(value: FlowDraftView) -> JsonView {
        JsonView::Record(
            no_fields().push(("nodes"@, list_of::<FlowNode>(value.nodes))).push(
                ("contracts"@, list_of::<FlowContract>(value.contracts)),
            ).push(("routes"@, list_of::<FlowRoute>(value.routes))).push(
                ("resources"@, list_of::<FlowResource>(value.resources)),
            ).push(("imports"@, list_of::<FlowImport>(value.imports))).push(
                ("policies"@, FlowPolicies::json(value.policies)),
            ).push(("extensions"@, text_list(value.extensions))),
        )
    }

    fn to_json(&self) -> (r: Json) {
        Fields::new().put("nodes", list_to_json(&self.nodes)).put(
            "contracts",
            list_to_json(&self.contracts),
        ).put("routes", list_to_json(&self.routes)).put(
            "resources",
            list_to_json(&self.resources),
        ).put("imports", list_to_json(&self.imports)).put(
            "policies",
            self.policies.to_json(),
        ).put("extensions", texts_to_json(&self.extensions)).done()
    }
}

/// The names of kinds of repair.
pub open spec fn kind_list(kinds: Seq<RepairKind>) -> JsonView {
    JsonView::List(Seq::new(kinds.len(), |i: int| JsonView::Text(kinds[i].name())))
}

fn kinds_to_json(kinds: &Vec<RepairKind>) -> (r: Json)
    ensures
        r@ == kind_list(kinds@),
{
    let mut out: Vec<Json> = Vec::new();
    let mut i: usize = 0;
    while i < kinds.len()
        invariant
            i <= kinds.len(),
            out.len() == i,
            forall|j: int|
                0 <= j < i ==> json_view(#[trigger] out@[j]) == JsonView::Text(kinds@[j].name()),
        decreases kinds.len() - i,
    {
        out.push(Json::text(kinds[i].as_str()));
        i += 1;
    }
    let r = Json::List(out);
    assert(r@->List_0 =~= kind_list(kinds@)->List_0);
    r
}

impl Document for Diagnostic {
    open spec fn json(value: DiagnosticView) -> JsonView {
        JsonView::Record(
            no_fields().push(("code"@, JsonView::Text(value.code))).push(
                ("domain"@, JsonView::Text(value.domain.name())),
            ).push(("severity"@, JsonView::Text(value.severity.name()))).push(
                ("repairability"@, JsonView::Text(value.repairability.name())),
            ).push(("location"@, JsonView::Text(value.location))).push(
                ("message"@, JsonView::Text(value.message)),
            ).push(("fix_hint"@, option_text(value.fix_hint))).push(
                ("why_it_matters"@, option_text(value.why_it_matters)),
            ).push(("repair_kinds"@, kind_list(value.repair_kinds))),
        )
    }

    fn to_json(&self) -> (r: Json) {
        Fields::new().put("code", Json::text(self.code.as_str())).put(
            "domain",
            Json::text(self.domain.as_str()),
        ).put("severity", Json::text(self.severity.as_str())).put(
            "repairability",
            Json::text(self.repairability.as_str()),
        ).put("location", Json::text(self.location.as_str())).put(
            "message",
            Json::text(self.message.as_str()),
        ).put("fix_hint", option_text_json(&self.fix_hint)).put(
            "why_it_matters",
            option_text_json(&self.why_it_matters),
        ).put("repair_kinds", kinds_to_json(&self.repair_kinds)).done()
    }
}

} // verus!
