//! The manifest of a package reads back: no object in it names a field twice, and it is nested
//! only so deep.
use vstd::prelude::*;

use crate::json::{
    depth, distinct_keys, list_depth, no_fields, reads_back, record_depth, regular, text_list,
    JsonView,
};

use super::diagnostic::{Diagnostic, DiagnosticView};
use super::document::{kind_list, list_of, option_of, Document};
use super::export::{field_slot, lemma_slot_in_range, ordered, ordered_fields};
use super::lock::{FlowLockView, FLOW_LOCK_FORMAT};
use super::model::{
    ContractArtifact, ContractArtifactView, FlowContract, FlowContractView, FlowDraftView,
    FlowImport, FlowImportView, FlowNode, FlowNodeView, FlowPolicies, FlowPoliciesView,
    FlowResourceView, FlowRoute, FlowRouteView, NodeAction, NodeActionView, WriteScope,
    WriteScopeView,
};
use super::package::{bare_flow, bare_resource, bare_resources, manifest};
use super::predicate::{ArtifactRef, FactRef, FlowPredicate, PredicateView};

verus! {

broadcast use vstd::string::group_string_axioms;

/// Whether a value is regular, and nested at most so deep.
spec fn shallow(value: JsonView, n: nat) -> bool {
    regular(value) && depth(value) <= n
}

/// Whether the values of fields are regular, and nested at most so deep.
spec fn shallow_fields(fields: Seq<(Seq<char>, JsonView)>, n: nat) -> bool {
    forall|i: int| 0 <= i < fields.len() ==> shallow((#[trigger] fields[i]).1, n)
}

proof fn lemma_shallow_list(items: Seq<JsonView>, n: nat)
    requires
        forall|i: int| 0 <= i < items.len() ==> shallow(#[trigger] items[i], n),
    ensures
        shallow(JsonView::List(items), n + 1),
        list_depth(items) <= n,
    decreases items.len(),
{
    if items.len() > 0 {
        let front = items.drop_last();
        assert forall|i: int| 0 <= i < front.len() implies shallow(#[trigger] front[i], n) by {
            assert(front[i] == items[i]);
        }
        lemma_shallow_list(front, n);
        assert(shallow(items[items.len() - 1], n));
    }
    assert forall|i: int| 0 <= i < items.len() implies regular(#[trigger] items[i]) by {
        assert(shallow(items[i], n));
    }
}

proof fn lemma_record_depth(fields: Seq<(Seq<char>, JsonView)>, n: nat)
    requires
        shallow_fields(fields, n),
    ensures
        record_depth(fields) <= n,
    decreases fields.len(),
{
    if fields.len() > 0 {
        let front = fields.drop_last();
        assert forall|i: int| 0 <= i < front.len() implies shallow((#[trigger] front[i]).1, n) by {
            assert(front[i] == fields[i]);
        }
        lemma_record_depth(front, n);
        assert(shallow(fields[fields.len() - 1].1, n));
    }
}

proof fn lemma_shallow_record(fields: Seq<(Seq<char>, JsonView)>, n: nat)
    requires
        distinct_keys(fields),
        shallow_fields(fields, n),
    ensures
        shallow(JsonView::Record(fields), n + 1),
{
    lemma_record_depth(fields, n);
    assert forall|i: int| 0 <= i < fields.len() implies regular((#[trigger] fields[i]).1) by {
        assert(shallow(fields[i].1, n));
    }
}

/// Whether each of the fields is one of the first of others, with its value in order.
pub open spec fn comes_from(
    made: Seq<(Seq<char>, JsonView)>,
    fields: Seq<(Seq<char>, JsonView)>,
    n: int,
) -> bool {
    forall|k: int|
        0 <= k < made.len() ==> exists|j: int|
            0 <= j < n && #[trigger] fields[j].0 == (#[trigger] made[k]).0 && made[k].1 == ordered(
                fields[j].1,
            )
}

pub(crate) proof fn lemma_ordered_fields_come(fields: Seq<(Seq<char>, JsonView)>, n: int)
    requires
        distinct_keys(fields),
        0 <= n <= fields.len(),
    ensures
        comes_from(ordered_fields(fields, n), fields, n),
        distinct_keys(ordered_fields(fields, n)),
    decreases n,
{
    if n > 0 {
        let rest = ordered_fields(fields, n - 1);
        let next = fields[n - 1];
        lemma_ordered_fields_come(fields, n - 1);
        lemma_slot_in_range(rest, next.0);
        let at = field_slot(rest, next.0) as int;
        let made = rest.insert(at, (next.0, ordered(next.1)));
        assert forall|k: int| 0 <= k < rest.len() implies (#[trigger] rest[k]).0 != next.0 by {
            let j = choose|j: int|
                0 <= j < n - 1 && #[trigger] fields[j].0 == rest[k].0 && rest[k].1 == ordered(
                    fields[j].1,
                );
            assert(fields[j].0 != fields[n - 1].0);
        }
        assert forall|k: int| 0 <= k < made.len() implies exists|j: int|
            0 <= j < n && #[trigger] fields[j].0 == (#[trigger] made[k]).0 && made[k].1 == ordered(
                fields[j].1,
            ) by {
            if k == at {
                assert(fields[n - 1].0 == made[k].0);
            } else {
                let from = if k < at {
                    k
                } else {
                    k - 1
                };
                assert(made[k] == rest[from]);
                let j = choose|j: int|
                    0 <= j < n - 1 && #[trigger] fields[j].0 == rest[from].0 && rest[from].1
                        == ordered(fields[j].1);
                assert(fields[j].0 == made[k].0);
            }
        }
        assert forall|a: int, b: int| 0 <= a < b < made.len() implies (#[trigger] made[a]).0 != (
        #[trigger] made[b]).0 by {
            let x = if a < at {
                a
            } else {
                a - 1
            };
            let y = if b < at {
                b
            } else {
                b - 1
            };
            if a == at {
                assert(made[b] == rest[y]);
            } else if b == at {
                assert(made[a] == rest[x]);
            } else {
                assert(made[a] == rest[x] && made[b] == rest[y]);
                assert(x < y);
            }
        }
    }
}

proof fn lemma_ordered_is_shallow(value: JsonView, n: nat)
    requires
        shallow(value, n),
    ensures
        shallow(ordered(value), n),
    decreases value,
{
    match value {
        JsonView::List(items) => {
            let m = list_depth(items);
            lemma_items_within(items);
            let made = ordered(value)->List_0;
            assert forall|i: int| 0 <= i < made.len() implies shallow(#[trigger] made[i], m) by {
                assert(shallow(items[i], m));
                assert(decreases_to!(value => items[i]));
                lemma_ordered_is_shallow(items[i], m);
            }
            lemma_shallow_list(made, m);
        },
        JsonView::Record(fields) => {
            let m = record_depth(fields);
            lemma_fields_within(fields);
            let made = ordered_fields(fields, fields.len() as int);
            lemma_ordered_fields_come(fields, fields.len() as int);
            assert forall|k: int| 0 <= k < made.len() implies shallow(
                (#[trigger] made[k]).1,
                m,
            ) by {
                let j = choose|j: int|
                    0 <= j < fields.len() && #[trigger] fields[j].0 == made[k].0 && made[k].1
                        == ordered(fields[j].1);
                assert(shallow(fields[j].1, m));
                assert(decreases_to!(value => fields[j].1));
                lemma_ordered_is_shallow(fields[j].1, m);
            }
            lemma_shallow_record(made, m);
        },
        _ => {},
    }
}

proof fn lemma_items_within(items: Seq<JsonView>)
    ensures
        forall|i: int| 0 <= i < items.len() ==> depth(#[trigger] items[i]) <= list_depth(items),
    decreases items.len(),
{
    if items.len() > 0 {
        let front = items.drop_last();
        lemma_items_within(front);
        assert forall|i: int| 0 <= i < items.len() implies depth(#[trigger] items[i])
            <= list_depth(items) by {
            if i < front.len() {
                assert(front[i] == items[i]);
            }
        }
    }
}

proof fn lemma_fields_within(fields: Seq<(Seq<char>, JsonView)>)
    ensures
        forall|i: int|
            0 <= i < fields.len() ==> depth((#[trigger] fields[i]).1) <= record_depth(fields),
    decreases fields.len(),
{
    if fields.len() > 0 {
        let front = fields.drop_last();
        lemma_fields_within(front);
        assert forall|i: int| 0 <= i < fields.len() implies depth((#[trigger] fields[i]).1)
            <= record_depth(fields) by {
            if i < front.len() {
                assert(front[i] == fields[i]);
            }
        }
    }
}

proof fn lemma_texts_are_shallow(items: Seq<Seq<char>>)
    ensures
        shallow(text_list(items), 1),
{
    lemma_shallow_list(text_list(items)->List_0, 0);
}

proof fn lemma_scope_is_shallow(value: WriteScopeView)
    ensures
        shallow(WriteScope::json(value), 1),
{
    if let JsonView::Record(fields) = WriteScope::json(value) {
        lemma_shallow_record(fields, 0);
    }
}

proof fn lemma_scopes_are_shallow(values: Seq<WriteScopeView>)
    ensures
        shallow(list_of::<WriteScope>(values), 2),
{
    let items = list_of::<WriteScope>(values)->List_0;
    assert forall|i: int| 0 <= i < items.len() implies shallow(#[trigger] items[i], 1) by {
        lemma_scope_is_shallow(values[i]);
    }
    lemma_shallow_list(items, 1);
}

proof fn lemma_action_is_shallow(value: NodeActionView)
    ensures
        shallow(NodeAction::json(value), 2),
{
    reveal_strlit("driver");
    reveal_strlit("prompt_ref");
    reveal_strlit("resource_refs");
    reveal_strlit("reads");
    reveal_strlit("writes");
    reveal_strlit("verdict_artifact");
    assert("driver"@.len() == 6 && "prompt_ref"@.len() == 10);
    assert("resource_refs"@.len() == 13 && "reads"@.len() == 5);
    assert("writes"@.len() == 6 && "verdict_artifact"@.len() == 16);
    lemma_texts_are_shallow(value.resource_refs);
    lemma_texts_are_shallow(value.reads);
    lemma_texts_are_shallow(value.writes);
    let fields = NodeAction::json(value)->Record_0;
    assert("driver"@[0] == 'd' && "writes"@[0] == 'w');
    assert(distinct_keys(fields));
    lemma_shallow_record(fields, 1);
}

proof fn lemma_node_is_shallow(value: FlowNodeView)
    ensures
        shallow(FlowNode::json(value), 3),
{
    reveal_strlit("id");
    reveal_strlit("contract_id");
    reveal_strlit("action");
    reveal_strlit("write_scopes");
    reveal_strlit("extensions");
    assert("id"@.len() == 2 && "contract_id"@.len() == 11);
    assert("action"@.len() == 6 && "write_scopes"@.len() == 12);
    assert("extensions"@.len() == 10);
    if let Some(action) = value.action {
        lemma_action_is_shallow(action);
    }
    lemma_scopes_are_shallow(value.write_scopes);
    lemma_texts_are_shallow(value.extensions);
    assert(shallow(option_of::<NodeAction>(value.action), 2));
    let fields = FlowNode::json(value)->Record_0;
    assert(distinct_keys(fields));
    lemma_shallow_record(fields, 2);
}

proof fn lemma_artifact_is_shallow(value: ContractArtifactView)
    ensures
        shallow(ContractArtifact::json(value), 1),
{
    reveal_strlit("id");
    reveal_strlit("schema_resource_id");
    assert("id"@.len() == 2 && "schema_resource_id"@.len() == 18);
    let fields = ContractArtifact::json(value)->Record_0;
    assert(distinct_keys(fields));
    lemma_shallow_record(fields, 0);
}

proof fn lemma_contract_is_shallow(value: FlowContractView)
    ensures
        shallow(FlowContract::json(value), 3),
{
    reveal_strlit("id");
    reveal_strlit("completion");
    reveal_strlit("artifacts");
    assert("id"@.len() == 2 && "completion"@.len() == 10);
    assert("artifacts"@.len() == 9);
    let items = list_of::<ContractArtifact>(value.artifacts)->List_0;
    assert forall|i: int| 0 <= i < items.len() implies shallow(#[trigger] items[i], 1) by {
        lemma_artifact_is_shallow(value.artifacts[i]);
    }
    lemma_shallow_list(items, 1);
    let fields = FlowContract::json(value)->Record_0;
    assert(distinct_keys(fields));
    lemma_shallow_record(fields, 2);
}

proof fn lemma_predicate_is_shallow(value: PredicateView)
    ensures
        shallow(FlowPredicate::json(value), 2),
{
    reveal_strlit("kind");
    reveal_strlit("key");
    reveal_strlit("op");
    reveal_strlit("fact");
    assert("kind"@.len() == 4 && "key"@.len() == 3);
    assert("op"@.len() == 2 && "fact"@.len() == 4);
    let inner = FactRef::json(value.fact())->Record_0;
    assert(distinct_keys(inner));
    lemma_shallow_record(inner, 0);
    let fields = FlowPredicate::json(value)->Record_0;
    assert(distinct_keys(fields));
    lemma_shallow_record(fields, 1);
}

proof fn lemma_route_is_shallow(value: FlowRouteView)
    ensures
        shallow(FlowRoute::json(value), 3),
{
    reveal_strlit("predicate");
    reveal_strlit("for_each");
    reveal_strlit("activate");
    assert("predicate"@.len() == 9 && "for_each"@.len() == 8);
    assert("activate"@.len() == 8);
    lemma_predicate_is_shallow(value.predicate);
    if let Some(key) = value.for_each {
        lemma_shallow_record(ArtifactRef::json(key)->Record_0, 0);
    }
    assert(shallow(option_of::<ArtifactRef>(value.for_each), 1));
    let fields = FlowRoute::json(value)->Record_0;
    assert("for_each"@[0] == 'f' && "activate"@[0] == 'a');
    assert(distinct_keys(fields));
    lemma_shallow_record(fields, 2);
}

proof fn lemma_bare_resource_is_shallow(value: FlowResourceView)
    ensures
        shallow(bare_resource(value), 1),
{
    reveal_strlit("path");
    reveal_strlit("kind");
    assert("path"@.len() == 4 && "kind"@.len() == 4);
    let fields = bare_resource(value)->Record_0;
    assert("path"@[0] == 'p' && "kind"@[0] == 'k');
    assert(distinct_keys(fields));
    lemma_shallow_record(fields, 0);
}

proof fn lemma_import_is_shallow(value: FlowImportView)
    ensures
        shallow(FlowImport::json(value), 1),
{
    reveal_strlit("resource_id");
    reveal_strlit("alias");
    assert("resource_id"@.len() == 11 && "alias"@.len() == 5);
    let fields = FlowImport::json(value)->Record_0;
    assert(distinct_keys(fields));
    lemma_shallow_record(fields, 0);
}

proof fn lemma_policies_are_shallow(value: FlowPoliciesView)
    ensures
        shallow(FlowPolicies::json(value), 3),
{
    lemma_scopes_are_shallow(value.write_scopes);
    lemma_shallow_record(FlowPolicies::json(value)->Record_0, 2);
}

proof fn lemma_finding_is_shallow(value: DiagnosticView)
    ensures
        shallow(Diagnostic::json(value), 2),
{
    reveal_strlit("code");
    reveal_strlit("domain");
    reveal_strlit("severity");
    reveal_strlit("repairability");
    reveal_strlit("location");
    reveal_strlit("message");
    reveal_strlit("fix_hint");
    reveal_strlit("why_it_matters");
    reveal_strlit("repair_kinds");
    assert("code"@.len() == 4 && "domain"@.len() == 6);
    assert("severity"@.len() == 8 && "repairability"@.len() == 13);
    assert("location"@.len() == 8 && "message"@.len() == 7);
    assert("fix_hint"@.len() == 8 && "why_it_matters"@.len() == 14);
    assert("repair_kinds"@.len() == 12);
    lemma_shallow_list(kind_list(value.repair_kinds)->List_0, 0);
    let fields = Diagnostic::json(value)->Record_0;
    assert("severity"@[0] == 's' && "location"@[0] == 'l');
    assert("severity"@[0] == 's' && "fix_hint"@[0] == 'f');
    assert("location"@[0] == 'l' && "fix_hint"@[0] == 'f');
    assert(distinct_keys(fields));
    lemma_shallow_record(fields, 1);
}

proof fn lemma_flow_is_shallow(value: FlowDraftView)
    ensures
        shallow(bare_flow(value), 5),
{
    reveal_strlit("nodes");
    reveal_strlit("contracts");
    reveal_strlit("routes");
    reveal_strlit("resources");
    reveal_strlit("imports");
    reveal_strlit("policies");
    reveal_strlit("extensions");
    assert("nodes"@.len() == 5 && "contracts"@.len() == 9);
    assert("routes"@.len() == 6 && "resources"@.len() == 9);
    assert("imports"@.len() == 7 && "policies"@.len() == 8);
    assert("extensions"@.len() == 10);
    let nodes = list_of::<FlowNode>(value.nodes)->List_0;
    assert forall|i: int| 0 <= i < nodes.len() implies shallow(#[trigger] nodes[i], 3) by {
        lemma_node_is_shallow(value.nodes[i]);
    }
    lemma_shallow_list(nodes, 3);
    let contracts = list_of::<FlowContract>(value.contracts)->List_0;
    assert forall|i: int| 0 <= i < contracts.len() implies shallow(#[trigger] contracts[i], 3) by {
        lemma_contract_is_shallow(value.contracts[i]);
    }
    lemma_shallow_list(contracts, 3);
    let routes = list_of::<FlowRoute>(value.routes)->List_0;
    assert forall|i: int| 0 <= i < routes.len() implies shallow(#[trigger] routes[i], 3) by {
        lemma_route_is_shallow(value.routes[i]);
    }
    lemma_shallow_list(routes, 3);
    let resources = bare_resources(value.resources)->List_0;
    assert forall|i: int| 0 <= i < resources.len() implies shallow(#[trigger] resources[i], 1) by {
        lemma_bare_resource_is_shallow(value.resources[i]);
    }
    lemma_shallow_list(resources, 1);
    let imports = list_of::<FlowImport>(value.imports)->List_0;
    assert forall|i: int| 0 <= i < imports.len() implies shallow(#[trigger] imports[i], 1) by {
        lemma_import_is_shallow(value.imports[i]);
    }
    lemma_shallow_list(imports, 1);
    lemma_policies_are_shallow(value.policies);
    lemma_texts_are_shallow(value.extensions);
    let fields = bare_flow(value)->Record_0;
    assert("contracts"@[0] == 'c' && "resources"@[0] == 'r');
    assert(distinct_keys(fields));
    lemma_shallow_record(fields, 4);
}

/// The manifest of a package reads back.
pub proof fn lemma_manifests_read_back(lock: FlowLockView)
    ensures
        reads_back(manifest(lock)),
{
    reveal_strlit("format");
    reveal_strlit("lock_id");
    reveal_strlit("content_hash");
    reveal_strlit("check_mode");
    reveal_strlit("diagnostics");
    reveal_strlit("flow");
    assert("format"@.len() == 6 && "lock_id"@.len() == 7);
    assert("content_hash"@.len() == 12 && "check_mode"@.len() == 10);
    assert("diagnostics"@.len() == 11 && "flow"@.len() == 4);
    let findings = list_of::<Diagnostic>(lock.diagnostics)->List_0;
    assert forall|i: int| 0 <= i < findings.len() implies shallow(#[trigger] findings[i], 2) by {
        lemma_finding_is_shallow(lock.diagnostics[i]);
    }
    lemma_shallow_list(findings, 2);
    lemma_flow_is_shallow(lock.draft);
    let fields = no_fields().push(("format"@, JsonView::Text(FLOW_LOCK_FORMAT@))).push(
        ("lock_id"@, JsonView::Text(lock.id)),
    ).push(("content_hash"@, JsonView::Text(lock.content_hash))).push(
        ("check_mode"@, JsonView::Text(lock.mode.name())),
    ).push(("diagnostics"@, list_of::<Diagnostic>(lock.diagnostics))).push(
        ("flow"@, bare_flow(lock.draft)),
    );
    assert(distinct_keys(fields));
    lemma_shallow_record(fields, 5);
    lemma_ordered_is_shallow(JsonView::Record(fields), 6);
}

} // verus!
