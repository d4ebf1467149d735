//! What the order of a draft leaves as it is: a draft that can be locked can be locked in any
//! order, and in its canonical form.
use vstd::prelude::*;

use crate::order::{
    lemma_no_repeats_fixpoint, lemma_same_elements, lemma_sorted, lemma_without_repeats, sorted,
    sorted_set, Ranked,
};

use super::canonical::{
    canonical, canonical_action, canonical_contract, canonical_contracts, canonical_node,
    canonical_nodes, ids_differ, rearranged,
};
use super::check::{
    action_findings, all_contract_findings, all_contract_id_findings, all_extension_findings,
    all_import_findings, all_node_findings, all_node_id_findings, all_node_scope_findings,
    all_resource_findings, all_route_findings, artifact_id_findings, artifact_id_repeats,
    check_findings, contract_findings, contract_id_findings, contract_id_repeats,
    driver_finding, extension_findings, has_contract, has_node, has_readme, has_readme_content, has_resource,
    has_schema, import_findings, is_readme, kind_of,
    node_contract_finding, node_extension_findings, node_findings, node_id_findings,
    node_id_repeats, node_scope_findings, prompt_finding, qos_findings, readme_findings, resource_findings,
    resource_kind, resource_path_repeats, resource_ref_findings, route_findings, route_identity,
    route_repeat_finding, route_target_finding, route_with_identity, schema_findings,
    scope_findings, verdict_finding,
};
use super::contract::is_authoring_extension;
use super::diagnostic::{any_blocks, DiagnosticView, FlowCheckMode};
use super::model::{
    ContractArtifact, ContractArtifactView, FlowContract, FlowContractView, FlowDraftView,
    FlowImport, FlowNode, FlowNodeView, FlowPoliciesView, FlowResource, FlowResourceView,
    FlowRoute, FlowRouteView, NodeActionView, WriteScope, WriteScopeView,
};
use super::profile::{first_qos, qos_of_extension};

verus! {

/// Whether no finding keeps a flow from being locked.
pub open spec fn passes(findings: Seq<DiagnosticView>) -> bool {
    !any_blocks(findings)
}

pub(crate) proof fn lemma_passes_add(a: Seq<DiagnosticView>, b: Seq<DiagnosticView>)
    ensures
        passes(a + b) == (passes(a) && passes(b)),
{
    if any_blocks(a) {
        let i = choose|i: int| 0 <= i < a.len() && (#[trigger] a[i]).severity.blocks();
        assert((a + b)[i] == a[i]);
    }
    if any_blocks(b) {
        let i = choose|i: int| 0 <= i < b.len() && (#[trigger] b[i]).severity.blocks();
        assert((a + b)[a.len() + i] == b[i]);
    }
    if any_blocks(a + b) {
        let i = choose|i: int| 0 <= i < (a + b).len() && (#[trigger] (a + b)[i]).severity.blocks();
        if i < a.len() {
            assert(a[i].severity.blocks());
        } else {
            assert(b[i - a.len()].severity.blocks());
        }
    }
}

proof fn lemma_passes_push(a: Seq<DiagnosticView>, x: DiagnosticView)
    ensures
        passes(a.push(x)) == (passes(a) && !x.severity.blocks()),
{
    lemma_passes_add(a, seq![x]);
    assert(a + seq![x] =~= a.push(x));
    assert(seq![x][0] == x);
}

pub(crate) proof fn lemma_each_node_id(d: FlowDraftView, n: int)
    ensures
        passes(all_node_id_findings(d, n)) == (forall|i: int|
            0 <= i < n ==> passes(#[trigger] node_id_findings(d, i))),
    decreases n,
{
    if n > 0 {
        lemma_each_node_id(d, n - 1);
        lemma_passes_add(all_node_id_findings(d, n - 1), node_id_findings(d, n - 1));
        assert(passes(all_node_id_findings(d, n)) ==> passes(node_id_findings(d, n - 1)));
    }
}

pub(crate) proof fn lemma_each_contract_id(d: FlowDraftView, n: int)
    ensures
        passes(all_contract_id_findings(d, n)) == (forall|i: int|
            0 <= i < n ==> passes(#[trigger] contract_id_findings(d, i))),
    decreases n,
{
    if n > 0 {
        lemma_each_contract_id(d, n - 1);
        lemma_passes_add(all_contract_id_findings(d, n - 1), contract_id_findings(d, n - 1));
        assert(passes(all_contract_id_findings(d, n)) ==> passes(contract_id_findings(d, n - 1)));
    }
}

pub(crate) proof fn lemma_each_resource(d: FlowDraftView, n: int)
    ensures
        passes(all_resource_findings(d, n)) == (forall|i: int|
            0 <= i < n ==> passes(#[trigger] resource_findings(d, i))),
    decreases n,
{
    if n > 0 {
        lemma_each_resource(d, n - 1);
        lemma_passes_add(all_resource_findings(d, n - 1), resource_findings(d, n - 1));
        assert(passes(all_resource_findings(d, n)) ==> passes(resource_findings(d, n - 1)));
    }
}

pub(crate) proof fn lemma_each_import(d: FlowDraftView, n: int)
    ensures
        passes(all_import_findings(d, n)) == (forall|i: int|
            0 <= i < n ==> passes(#[trigger] import_findings(d, i))),
    decreases n,
{
    if n > 0 {
        lemma_each_import(d, n - 1);
        lemma_passes_add(all_import_findings(d, n - 1), import_findings(d, n - 1));
        assert(passes(all_import_findings(d, n)) ==> passes(import_findings(d, n - 1)));
    }
}

pub(crate) proof fn lemma_each_route(d: FlowDraftView, n: int)
    ensures
        passes(all_route_findings(d, n)) == (forall|i: int|
            0 <= i < n ==> passes(#[trigger] route_findings(d, i))),
    decreases n,
{
    if n > 0 {
        lemma_each_route(d, n - 1);
        lemma_passes_add(all_route_findings(d, n - 1), route_findings(d, n - 1));
        assert(passes(all_route_findings(d, n)) ==> passes(route_findings(d, n - 1)));
    }
}

pub(crate) proof fn lemma_each_contract(d: FlowDraftView, n: int)
    ensures
        passes(all_contract_findings(d, n)) == (forall|i: int|
            0 <= i < n ==> passes(#[trigger] contract_findings(d, i))),
    decreases n,
{
    if n > 0 {
        lemma_each_contract(d, n - 1);
        lemma_passes_add(all_contract_findings(d, n - 1), contract_findings(d, n - 1));
        assert(passes(all_contract_findings(d, n)) ==> passes(contract_findings(d, n - 1)));
    }
}

pub(crate) proof fn lemma_each_extension(d: FlowDraftView, n: int)
    ensures
        passes(all_extension_findings(d, n)) == (forall|i: int|
            0 <= i < n ==> passes(#[trigger] extension_findings(d, i))),
    decreases n,
{
    if n > 0 {
        lemma_each_extension(d, n - 1);
        lemma_passes_add(all_extension_findings(d, n - 1), extension_findings(d, n - 1));
        assert(passes(all_extension_findings(d, n)) ==> passes(extension_findings(d, n - 1)));
    }
}

pub(crate) proof fn lemma_each_node(d: FlowDraftView, n: int)
    ensures
        passes(all_node_findings(d, n)) == (forall|i: int|
            0 <= i < n ==> passes(#[trigger] node_findings(d, i))),
    decreases n,
{
    if n > 0 {
        lemma_each_node(d, n - 1);
        lemma_passes_add(all_node_findings(d, n - 1), node_findings(d, n - 1));
        assert(passes(all_node_findings(d, n)) ==> passes(node_findings(d, n - 1)));
    }
}

pub(crate) proof fn lemma_each_node_scope(d: FlowDraftView, mode: FlowCheckMode, n: int)
    ensures
        passes(all_node_scope_findings(d, mode, n)) == (forall|i: int|
            0 <= i < n ==> passes(#[trigger] node_scope_findings(d, mode, i))),
    decreases n,
{
    if n > 0 {
        lemma_each_node_scope(d, mode, n - 1);
        let last = node_scope_findings(d, mode, n - 1);
        lemma_passes_add(all_node_scope_findings(d, mode, n - 1), last);
        assert(passes(all_node_scope_findings(d, mode, n)) ==> passes(last));
    }
}

pub(crate) proof fn lemma_each_artifact_id(contract: FlowContractView, at: int, n: int)
    ensures
        passes(artifact_id_findings(contract, at, n)) == (forall|k: int|
            0 <= k < n ==> !#[trigger] artifact_id_repeats(contract, k)),
    decreases n,
{
    if n > 0 {
        lemma_each_artifact_id(contract, at, n - 1);
        if artifact_id_repeats(contract, n - 1) {
            let all = artifact_id_findings(contract, at, n);
            lemma_passes_push(artifact_id_findings(contract, at, n - 1), all.last());
            assert(all =~= artifact_id_findings(contract, at, n - 1).push(all.last()));
        }
    }
}

pub(crate) proof fn lemma_each_scope(
    scopes: Seq<WriteScopeView>,
    mode: FlowCheckMode,
    place: Seq<char>,
    n: int,
)
    ensures
        passes(scope_findings(scopes, mode, place, n)) == (mode == FlowCheckMode::Core
            || forall|k: int| 0 <= k < n ==> !(#[trigger] scopes[k]).is_broad()),
    decreases n,
{
    if n > 0 {
        lemma_each_scope(scopes, mode, place, n - 1);
        let location = place + crate::number::decimal((n - 1) as nat) + "]"@;
        let last = super::check::broad_scope(
            scopes[n - 1],
            super::check::broad_severity(mode),
            location,
        );
        lemma_passes_add(scope_findings(scopes, mode, place, n - 1), last);
        if scopes[n - 1].is_broad() && mode != FlowCheckMode::Core {
            assert(last[0].severity.blocks());
        }
    }
}

/// Things that differ by a key differ by it in any order.
proof fn lemma_keys_differ_in_any_order<A, K>(a: Seq<A>, b: Seq<A>, key: spec_fn(A) -> K)
    requires
        a.to_multiset() == b.to_multiset(),
        forall|i: int, j: int|
            0 <= i < j < a.len() ==> key(#[trigger] a[i]) != key(#[trigger] a[j]),
    ensures
        forall|i: int, j: int|
            0 <= i < j < b.len() ==> key(#[trigger] b[i]) != key(#[trigger] b[j]),
{
    assert(a.no_duplicates());
    a.lemma_multiset_has_no_duplicates();
    b.lemma_multiset_has_no_duplicates_conv();
    lemma_same_elements(a, b);
    assert forall|i: int, j: int| 0 <= i < j < b.len() implies key(#[trigger] b[i]) != key(
        #[trigger] b[j],
    ) by {
        assert(b.contains(b[i]) && b.contains(b[j]));
        let x = choose|x: int| 0 <= x < a.len() && a[x] == b[i];
        let y = choose|y: int| 0 <= y < a.len() && a[y] == b[j];
        assert(b[i] != b[j]);
        if x < y {
            assert(key(a[x]) != key(a[y]));
        } else {
            assert(key(a[y]) != key(a[x]));
        }
    }
}

proof fn lemma_same_len<A>(a: Seq<A>, b: Seq<A>)
    requires
        a.to_multiset() == b.to_multiset(),
    ensures
        a.len() == b.len(),
{
    a.to_multiset_ensures();
    b.to_multiset_ensures();
}

proof fn lemma_found<A>(a: Seq<A>, b: Seq<A>, j: int) -> (i: int)
    requires
        a.to_multiset() == b.to_multiset(),
        0 <= j < b.len(),
    ensures
        0 <= i < a.len(),
        a[i] == b[j],
{
    lemma_same_elements(a, b);
    assert(b.contains(b[j]));
    choose|i: int| 0 <= i < a.len() && a[i] == b[j]
}

proof fn lemma_lookups_found(a: FlowDraftView, b: FlowDraftView, id: Seq<char>)
    requires
        rearranged(a, b),
    ensures
        has_node(b, id) ==> has_node(a, id),
        has_contract(b, id) ==> has_contract(a, id),
        has_resource(b, id) ==> has_resource(a, id),
        has_schema(b, id) ==> has_schema(a, id),
        has_readme(b) ==> has_readme(a),
        has_readme_content(b) ==> has_readme_content(a),
{
    if has_node(b, id) {
        let j = choose|j: int| 0 <= j < b.nodes.len() && (#[trigger] b.nodes[j]).id == id;
        let i = lemma_found(a.nodes, b.nodes, j);
        assert(a.nodes[i].id == id);
    }
    if has_contract(b, id) {
        let j = choose|j: int| 0 <= j < b.contracts.len() && (#[trigger] b.contracts[j]).id == id;
        let i = lemma_found(a.contracts, b.contracts, j);
        assert(a.contracts[i].id == id);
    }
    if has_resource(b, id) {
        let j = choose|j: int| 0 <= j < b.resources.len() && (#[trigger] b.resources[j]).id == id;
        let i = lemma_found(a.resources, b.resources, j);
        assert(a.resources[i].id == id);
    }
    if has_schema(b, id) {
        let j = choose|j: int|
            0 <= j < b.resources.len() && (#[trigger] b.resources[j]).id == id
                && b.resources[j].kind == super::model::ResourceKind::Schema;
        let i = lemma_found(a.resources, b.resources, j);
        assert(a.resources[i].id == id);
    }
    if has_readme(b) {
        let j = choose|j: int| 0 <= j < b.resources.len() && is_readme(#[trigger] b.resources[j]);
        let i = lemma_found(a.resources, b.resources, j);
        assert(is_readme(a.resources[i]));
    }
    if has_readme_content(b) {
        let j = choose|j: int|
            0 <= j < b.resources.len() && is_readme(#[trigger] b.resources[j])
                && !crate::text::is_blank(b.resources[j].source);
        let i = lemma_found(a.resources, b.resources, j);
        assert(is_readme(a.resources[i]));
    }
}

/// What can be looked up in a draft does not depend on its order.
proof fn lemma_lookups_agree(a: FlowDraftView, b: FlowDraftView)
    requires
        rearranged(a, b),
    ensures
        forall|id: Seq<char>| #[trigger] has_node(a, id) == has_node(b, id),
        forall|id: Seq<char>| #[trigger] has_contract(a, id) == has_contract(b, id),
        forall|id: Seq<char>| #[trigger] has_resource(a, id) == has_resource(b, id),
        forall|id: Seq<char>| #[trigger] has_schema(a, id) == has_schema(b, id),
        has_readme(a) == has_readme(b),
        has_readme_content(a) == has_readme_content(b),
{
    assert forall|id: Seq<char>| #[trigger] has_node(a, id) == has_node(b, id) by {
        lemma_lookups_found(a, b, id);
        lemma_lookups_found(b, a, id);
    }
    assert forall|id: Seq<char>| #[trigger] has_contract(a, id) == has_contract(b, id) by {
        lemma_lookups_found(a, b, id);
        lemma_lookups_found(b, a, id);
    }
    assert forall|id: Seq<char>| #[trigger] has_resource(a, id) == has_resource(b, id) by {
        lemma_lookups_found(a, b, id);
        lemma_lookups_found(b, a, id);
    }
    assert forall|id: Seq<char>| #[trigger] has_schema(a, id) == has_schema(b, id) by {
        lemma_lookups_found(a, b, id);
        lemma_lookups_found(b, a, id);
    }
    lemma_lookups_found(a, b, Seq::empty());
    lemma_lookups_found(b, a, Seq::empty());
}

/// Whether no two resources have the same path.
pub open spec fn paths_differ(resources: Seq<FlowResourceView>) -> bool {
    forall|i: int, j: int|
        0 <= i < j < resources.len() ==> (#[trigger] resources[i]).id != (
        #[trigger] resources[j]).id
}

pub(crate) proof fn lemma_kind_is_that_of(resources: Seq<FlowResourceView>, id: Seq<char>, n: int)
    requires
        paths_differ(resources),
        0 <= n <= resources.len(),
    ensures
        match resource_kind(resources, id, n) {
            Some(kind) => exists|i: int|
                0 <= i < n && (#[trigger] resources[i]).id == id && resources[i].kind == kind,
            None => forall|i: int| 0 <= i < n ==> (#[trigger] resources[i]).id != id,
        },
    decreases n,
{
    if n > 0 && resources[n - 1].id != id {
        lemma_kind_is_that_of(resources, id, n - 1);
    }
}

proof fn lemma_kinds_agree(a: FlowDraftView, b: FlowDraftView, id: Seq<char>)
    requires
        rearranged(a, b),
        paths_differ(a.resources),
        paths_differ(b.resources),
    ensures
        kind_of(a, id) == kind_of(b, id),
{
    lemma_kind_is_that_of(a.resources, id, a.resources.len() as int);
    lemma_kind_is_that_of(b.resources, id, b.resources.len() as int);
    lemma_lookups_agree(a, b);
    assert(has_resource(a, id) == has_resource(b, id));
    match (kind_of(a, id), kind_of(b, id)) {
        (Some(x), Some(y)) => {
            let i = choose|i: int|
                0 <= i < a.resources.len() && (#[trigger] a.resources[i]).id == id
                    && a.resources[i].kind == x;
            let j = choose|j: int|
                0 <= j < b.resources.len() && (#[trigger] b.resources[j]).id == id
                    && b.resources[j].kind == y;
            let k = lemma_found(a.resources, b.resources, j);
            if i < k {
                assert(a.resources[i].id != a.resources[k].id);
            } else if k < i {
                assert(a.resources[k].id != a.resources[i].id);
            }
        },
        _ => {},
    }
}

proof fn lemma_schemas_agree(
    a: FlowDraftView,
    b: FlowDraftView,
    contract: FlowContractView,
    n: int,
)
    requires
        forall|id: Seq<char>| #[trigger] has_schema(a, id) == has_schema(b, id),
    ensures
        schema_findings(a, contract, n) == schema_findings(b, contract, n),
    decreases n,
{
    if n > 0 {
        lemma_schemas_agree(a, b, contract, n - 1);
    }
}

proof fn lemma_references_agree(
    a: FlowDraftView,
    b: FlowDraftView,
    node: FlowNodeView,
    action: NodeActionView,
    n: int,
)
    requires
        forall|id: Seq<char>| #[trigger] has_resource(a, id) == has_resource(b, id),
    ensures
        resource_ref_findings(a, node, action, n) == resource_ref_findings(b, node, action, n),
    decreases n,
{
    if n > 0 {
        lemma_references_agree(a, b, node, action, n - 1);
        assert(has_resource(a, action.resource_refs[n - 1]) == has_resource(
            b,
            action.resource_refs[n - 1],
        ));
    }
}

proof fn lemma_nodes_agree(a: FlowDraftView, b: FlowDraftView, i: int, j: int)
    requires
        rearranged(a, b),
        paths_differ(a.resources),
        paths_differ(b.resources),
        a.nodes[i] == b.nodes[j],
    ensures
        node_findings(a, i) == node_findings(b, j),
{
    lemma_lookups_agree(a, b);
    let node = a.nodes[i];
    if let Some(id) = node.contract_id {
        assert(has_contract(a, id) == has_contract(b, id));
    }
    if let Some(action) = node.action {
        if let Some(prompt) = action.prompt_ref {
            lemma_kinds_agree(a, b, prompt);
        }
        lemma_references_agree(a, b, node, action, action.resource_refs.len() as int);
        assert(action_findings(a, node, action) == action_findings(b, node, action));
    }
}

pub(crate) proof fn lemma_no_route_before(routes: Seq<FlowRouteView>, identity: Seq<char>, n: int)
    ensures
        (route_with_identity(routes, identity, n) is None) == (forall|k: int|
            0 <= k < n ==> route_identity(#[trigger] routes[k]) != identity),
    decreases n,
{
    if n > 0 {
        lemma_no_route_before(routes, identity, n - 1);
    }
}

pub(crate) proof fn lemma_resource_parts(d: FlowDraftView, i: int)
    ensures
        passes(resource_findings(d, i)) == (super::check::path_finding(d, i).len() == 0
            && !resource_path_repeats(d, i) && super::check::readme_path_finding(d, i).len() == 0
            && super::check::readme_kind_finding(d, i).len() == 0
            && super::check::skill_path_finding(d, i).len() == 0),
{
    let p = super::check::path_finding(d, i);
    let q = super::check::path_repeat_finding(d, i);
    let r = super::check::readme_path_finding(d, i);
    let s = super::check::readme_kind_finding(d, i);
    let t = super::check::skill_path_finding(d, i);
    lemma_passes_add(p, q);
    lemma_passes_add(p + q, r);
    lemma_passes_add(p + q + r, s);
    lemma_passes_add(p + q + r + s, t);
    assert(p.len() > 0 ==> p[0].severity.blocks());
    assert(q.len() > 0 ==> q[0].severity.blocks());
    assert(r.len() > 0 ==> r[0].severity.blocks());
    assert(s.len() > 0 ==> s[0].severity.blocks());
    assert(t.len() > 0 ==> t[0].severity.blocks());
}

/// What of a draft passes, part by part.
pub open spec fn parts_pass(d: FlowDraftView, mode: FlowCheckMode) -> bool {
    &&& passes(all_node_id_findings(d, d.nodes.len() as int))
    &&& passes(all_contract_id_findings(d, d.contracts.len() as int))
    &&& passes(all_resource_findings(d, d.resources.len() as int))
    &&& passes(all_import_findings(d, d.imports.len() as int))
    &&& passes(readme_findings(d))
    &&& passes(qos_findings(d))
    &&& passes(all_route_findings(d, d.routes.len() as int))
    &&& passes(all_contract_findings(d, d.contracts.len() as int))
    &&& passes(all_extension_findings(d, d.extensions.len() as int))
    &&& passes(all_node_findings(d, d.nodes.len() as int))
    &&& passes(
        scope_findings(
            d.policies.write_scopes,
            mode,
            "policies.write_scopes["@,
            d.policies.write_scopes.len() as int,
        ),
    )
    &&& passes(all_node_scope_findings(d, mode, d.nodes.len() as int))
}

pub(crate) proof fn lemma_parts(d: FlowDraftView, mode: FlowCheckMode)
    ensures
        passes(check_findings(d, mode)) == parts_pass(d, mode),
{
    let a = all_node_id_findings(d, d.nodes.len() as int);
    let b = all_contract_id_findings(d, d.contracts.len() as int);
    lemma_passes_add(a, b);
    let c = all_resource_findings(d, d.resources.len() as int);
    lemma_passes_add(a + b, c);
    let e = all_import_findings(d, d.imports.len() as int);
    lemma_passes_add(a + b + c, e);
    let f = readme_findings(d);
    lemma_passes_add(a + b + c + e, f);
    let g = qos_findings(d);
    lemma_passes_add(a + b + c + e + f, g);
    let h = all_route_findings(d, d.routes.len() as int);
    lemma_passes_add(a + b + c + e + f + g, h);
    let k = all_contract_findings(d, d.contracts.len() as int);
    lemma_passes_add(a + b + c + e + f + g + h, k);
    let l = all_extension_findings(d, d.extensions.len() as int);
    lemma_passes_add(a + b + c + e + f + g + h + k, l);
    let m = all_node_findings(d, d.nodes.len() as int);
    lemma_passes_add(a + b + c + e + f + g + h + k + l, m);
    let n = scope_findings(
        d.policies.write_scopes,
        mode,
        "policies.write_scopes["@,
        d.policies.write_scopes.len() as int,
    );
    lemma_passes_add(a + b + c + e + f + g + h + k + l + m, n);
    let o = all_node_scope_findings(d, mode, d.nodes.len() as int);
    lemma_passes_add(a + b + c + e + f + g + h + k + l + m + n, o);
}

/// A draft that can be locked has no two nodes and no two contracts with the same id.
pub proof fn lemma_lockable_ids_differ(d: FlowDraftView, mode: FlowCheckMode)
    requires
        !any_blocks(check_findings(d, mode)),
    ensures
        ids_differ(d),
{
    lemma_parts(d, mode);
    lemma_each_node_id(d, d.nodes.len() as int);
    lemma_each_contract_id(d, d.contracts.len() as int);
    assert forall|i: int, j: int|
        0 <= i < d.nodes.len() && 0 <= j < d.nodes.len() && (#[trigger] d.nodes[i]).id == (
        #[trigger] d.nodes[j]).id implies i == j by {
        let later = if i < j {
            j
        } else {
            i
        };
        assert(passes(node_id_findings(d, later)));
        if i != j {
            assert(node_id_repeats(d, later));
            assert(node_id_findings(d, later)[0].severity.blocks());
        }
    }
    assert forall|i: int, j: int|
        0 <= i < d.contracts.len() && 0 <= j < d.contracts.len() && (
        #[trigger] d.contracts[i]).id == (#[trigger] d.contracts[j]).id implies i == j by {
        let later = if i < j {
            j
        } else {
            i
        };
        assert(passes(contract_id_findings(d, later)));
        if i != j {
            assert(contract_id_repeats(d, later));
            assert(contract_id_findings(d, later)[0].severity.blocks());
        }
    }
}

proof fn lemma_ids_pass(a: FlowDraftView, b: FlowDraftView, mode: FlowCheckMode)
    requires
        rearranged(a, b),
        parts_pass(a, mode),
    ensures
        passes(all_node_id_findings(b, b.nodes.len() as int)),
        passes(all_contract_id_findings(b, b.contracts.len() as int)),
{
    lemma_parts(a, mode);
    lemma_lockable_ids_differ(a, mode);
    lemma_keys_differ_in_any_order(a.nodes, b.nodes, |node: FlowNodeView| node.id);
    lemma_keys_differ_in_any_order(
        a.contracts,
        b.contracts,
        |contract: FlowContractView| contract.id,
    );
    let node_key = |node: FlowNodeView| node.id;
    let contract_key = |contract: FlowContractView| contract.id;
    lemma_each_node_id(b, b.nodes.len() as int);
    assert forall|j: int| 0 <= j < b.nodes.len() implies passes(
        #[trigger] node_id_findings(b, j),
    ) by {
        if node_id_repeats(b, j) {
            let k = choose|k: int| 0 <= k < j && (#[trigger] b.nodes[k]).id == b.nodes[j].id;
            assert(node_key(b.nodes[k]) != node_key(b.nodes[j]));
        }
    }
    lemma_each_contract_id(a, a.contracts.len() as int);
    lemma_each_contract_id(b, b.contracts.len() as int);
    assert forall|j: int| 0 <= j < b.contracts.len() implies passes(
        #[trigger] contract_id_findings(b, j),
    ) by {
        if contract_id_repeats(b, j) {
            let k = choose|k: int|
                0 <= k < j && (#[trigger] b.contracts[k]).id == b.contracts[j].id;
            assert(contract_key(b.contracts[k]) != contract_key(b.contracts[j]));
        }
        let i = lemma_found(a.contracts, b.contracts, j);
        let contract = b.contracts[j];
        let n = contract.artifacts.len() as int;
        assert(passes(contract_id_findings(a, i)));
        lemma_each_artifact_id(contract, i, n);
        lemma_each_artifact_id(contract, j, n);
        let head = contract_id_findings(a, i).take(
            contract_id_findings(a, i).len() - artifact_id_findings(contract, i, n).len(),
        );
        assert(contract_id_findings(a, i) =~= head + artifact_id_findings(contract, i, n));
        lemma_passes_add(head, artifact_id_findings(contract, i, n));
        assert(contract_id_findings(b, j) =~= artifact_id_findings(contract, j, n));
    }
}

proof fn lemma_paths_differ(a: FlowDraftView, b: FlowDraftView, mode: FlowCheckMode)
    requires
        rearranged(a, b),
        parts_pass(a, mode),
    ensures
        paths_differ(a.resources),
        paths_differ(b.resources),
{
    lemma_each_resource(a, a.resources.len() as int);
    assert forall|i: int, j: int| 0 <= i < j < a.resources.len() implies (
    #[trigger] a.resources[i]).id != (#[trigger] a.resources[j]).id by {
        assert(passes(resource_findings(a, j)));
        lemma_resource_parts(a, j);
    }
    let key = |resource: FlowResourceView| resource.id;
    lemma_keys_differ_in_any_order(a.resources, b.resources, key);
    assert forall|i: int, j: int| 0 <= i < j < b.resources.len() implies (
    #[trigger] b.resources[i]).id != (#[trigger] b.resources[j]).id by {
        assert(key(b.resources[i]) != key(b.resources[j]));
    }
}

proof fn lemma_resources_pass(a: FlowDraftView, b: FlowDraftView, mode: FlowCheckMode)
    requires
        rearranged(a, b),
        parts_pass(a, mode),
    ensures
        passes(all_resource_findings(b, b.resources.len() as int)),
        passes(all_import_findings(b, b.imports.len() as int)),
        passes(readme_findings(b)),
{
    lemma_paths_differ(a, b, mode);
    lemma_lookups_agree(a, b);
    lemma_each_resource(a, a.resources.len() as int);
    lemma_each_resource(b, b.resources.len() as int);
    assert forall|j: int| 0 <= j < b.resources.len() implies passes(
        #[trigger] resource_findings(b, j),
    ) by {
        let i = lemma_found(a.resources, b.resources, j);
        assert(passes(resource_findings(a, i)));
        lemma_resource_parts(a, i);
        lemma_resource_parts(b, j);
    }
    lemma_each_import(a, a.imports.len() as int);
    lemma_each_import(b, b.imports.len() as int);
    assert forall|j: int| 0 <= j < b.imports.len() implies passes(
        #[trigger] import_findings(b, j),
    ) by {
        let i = lemma_found(a.imports, b.imports, j);
        assert(passes(import_findings(a, i)));
        if !has_resource(a, a.imports[i].resource_id) {
            assert(import_findings(a, i)[0].severity.blocks());
        }
    }
    lemma_same_len(a.nodes, b.nodes);
    lemma_same_len(a.contracts, b.contracts);
    lemma_same_len(a.routes, b.routes);
    lemma_same_len(a.resources, b.resources);
    lemma_same_len(a.imports, b.imports);
    lemma_same_len(a.policies.write_scopes, b.policies.write_scopes);
    lemma_same_len(a.extensions, b.extensions);
    if a.extensions.len() == 0 {
        assert(a.extensions =~= b.extensions);
    }
    if readme_findings(a).len() > 0 {
        assert(readme_findings(a)[0].severity.blocks());
    }
}

proof fn lemma_routes_pass(a: FlowDraftView, b: FlowDraftView, mode: FlowCheckMode)
    requires
        rearranged(a, b),
        parts_pass(a, mode),
    ensures
        passes(all_route_findings(b, b.routes.len() as int)),
{
    lemma_lookups_agree(a, b);
    lemma_each_route(a, a.routes.len() as int);
    lemma_each_route(b, b.routes.len() as int);
    let key = |route: FlowRouteView| route_identity(route);
    assert forall|i: int, j: int| 0 <= i < j < a.routes.len() implies key(
        #[trigger] a.routes[i],
    ) != key(#[trigger] a.routes[j]) by {
        assert(passes(route_findings(a, j)));
        lemma_passes_add(route_repeat_finding(a, j), route_target_finding(a, j));
        lemma_no_route_before(a.routes, route_identity(a.routes[j]), j);
        if route_repeat_finding(a, j).len() > 0 {
            assert(route_repeat_finding(a, j)[0].severity.blocks());
        }
    }
    lemma_keys_differ_in_any_order(a.routes, b.routes, key);
    assert forall|j: int| 0 <= j < b.routes.len() implies passes(
        #[trigger] route_findings(b, j),
    ) by {
        let i = lemma_found(a.routes, b.routes, j);
        assert(passes(route_findings(a, i)));
        lemma_passes_add(route_repeat_finding(a, i), route_target_finding(a, i));
        if !has_node(a, a.routes[i].activate) {
            assert(route_target_finding(a, i)[0].severity.blocks());
        }
        lemma_no_route_before(b.routes, route_identity(b.routes[j]), j);
        assert forall|k: int| 0 <= k < j implies route_identity(#[trigger] b.routes[k])
            != route_identity(b.routes[j]) by {
            assert(key(b.routes[k]) != key(b.routes[j]));
        }
        assert(has_node(a, b.routes[j].activate) == has_node(b, b.routes[j].activate));
        lemma_passes_add(route_repeat_finding(b, j), route_target_finding(b, j));
    }
}

proof fn lemma_bodies_pass(a: FlowDraftView, b: FlowDraftView, mode: FlowCheckMode)
    requires
        rearranged(a, b),
        parts_pass(a, mode),
    ensures
        passes(all_contract_findings(b, b.contracts.len() as int)),
        passes(all_extension_findings(b, b.extensions.len() as int)),
        passes(all_node_findings(b, b.nodes.len() as int)),
        passes(all_node_scope_findings(b, mode, b.nodes.len() as int)),
{
    lemma_lookups_agree(a, b);
    lemma_paths_differ(a, b, mode);
    lemma_each_contract(a, a.contracts.len() as int);
    lemma_each_contract(b, b.contracts.len() as int);
    assert forall|j: int| 0 <= j < b.contracts.len() implies passes(
        #[trigger] contract_findings(b, j),
    ) by {
        let i = lemma_found(a.contracts, b.contracts, j);
        assert(passes(contract_findings(a, i)));
        let contract = b.contracts[j];
        lemma_schemas_agree(a, b, contract, contract.artifacts.len() as int);
    }
    lemma_each_extension(a, a.extensions.len() as int);
    lemma_each_extension(b, b.extensions.len() as int);
    assert forall|j: int| 0 <= j < b.extensions.len() implies passes(
        #[trigger] extension_findings(b, j),
    ) by {
        let i = lemma_found(a.extensions, b.extensions, j);
        assert(passes(extension_findings(a, i)));
        if extension_findings(a, i).len() > 0 {
            assert(extension_findings(a, i)[0].severity.blocks());
        }
    }
    lemma_each_node(a, a.nodes.len() as int);
    lemma_each_node(b, b.nodes.len() as int);
    assert forall|j: int| 0 <= j < b.nodes.len() implies passes(#[trigger] node_findings(b, j)) by {
        let i = lemma_found(a.nodes, b.nodes, j);
        assert(passes(node_findings(a, i)));
        lemma_nodes_agree(a, b, i, j);
    }
    lemma_each_node_scope(a, mode, a.nodes.len() as int);
    lemma_each_node_scope(b, mode, b.nodes.len() as int);
    assert forall|j: int| 0 <= j < b.nodes.len() implies passes(
        #[trigger] node_scope_findings(b, mode, j),
    ) by {
        let i = lemma_found(a.nodes, b.nodes, j);
        assert(passes(node_scope_findings(a, mode, i)));
    }
}

proof fn lemma_scopes_pass(a: FlowDraftView, b: FlowDraftView, mode: FlowCheckMode)
    requires
        rearranged(a, b),
        parts_pass(a, mode),
    ensures
        passes(
            scope_findings(
                b.policies.write_scopes,
                mode,
                "policies.write_scopes["@,
                b.policies.write_scopes.len() as int,
            ),
        ),
{
    let mine = a.policies.write_scopes;
    let theirs = b.policies.write_scopes;
    lemma_each_scope(mine, mode, "policies.write_scopes["@, mine.len() as int);
    lemma_each_scope(theirs, mode, "policies.write_scopes["@, theirs.len() as int);
    if mode != FlowCheckMode::Core {
        assert forall|k: int| 0 <= k < theirs.len() implies !(#[trigger] theirs[k]).is_broad() by {
            let i = lemma_found(mine, theirs, k);
            assert(!mine[i].is_broad());
        }
    }
}

/// A draft that can be locked can be locked in any order that leaves it with a service intent
/// that is not blank: of several, the first one counts.
pub proof fn lemma_lockable_in_any_order(a: FlowDraftView, b: FlowDraftView, mode: FlowCheckMode)
    requires
        rearranged(a, b),
        !any_blocks(check_findings(a, mode)),
        !any_blocks(qos_findings(b)),
    ensures
        !any_blocks(check_findings(b, mode)),
{
    lemma_parts(a, mode);
    lemma_ids_pass(a, b, mode);
    lemma_resources_pass(a, b, mode);
    lemma_routes_pass(a, b, mode);
    lemma_bodies_pass(a, b, mode);
    lemma_scopes_pass(a, b, mode);
    lemma_parts(b, mode);
}

/// A draft whose lists have every entry once and in order, but for its nodes, contracts, routes
/// and resources, which stay where they are.
spec fn tidied(d: FlowDraftView) -> FlowDraftView {
    FlowDraftView {
        nodes: canonical_nodes(d.nodes),
        contracts: canonical_contracts(d.contracts),
        imports: sorted_set::<FlowImport>(d.imports),
        policies: FlowPoliciesView {
            write_scopes: sorted_set::<WriteScope>(d.policies.write_scopes),
        },
        extensions: sorted_set::<String>(d.extensions),
        ..d
    }
}

proof fn lemma_set_elements<T: Ranked>(s: Seq<T::V>)
    ensures
        forall|x: T::V| sorted_set::<T>(s).contains(x) <==> s.contains(x),
        (sorted_set::<T>(s).len() == 0) == (s.len() == 0),
{
    lemma_sorted::<T>(s);
    lemma_same_elements(sorted::<T>(s), s);
    lemma_without_repeats(sorted::<T>(s));
    if s.len() == 0 {
        if sorted_set::<T>(s).len() > 0 {
            assert(sorted_set::<T>(s).contains(sorted_set::<T>(s)[0]));
            assert(s.contains(sorted_set::<T>(s)[0]));
        }
    }
}

proof fn lemma_set_entry<T: Ranked>(s: Seq<T::V>, k: int) -> (i: int)
    requires
        0 <= k < sorted_set::<T>(s).len(),
    ensures
        0 <= i < s.len(),
        s[i] == sorted_set::<T>(s)[k],
{
    lemma_set_elements::<T>(s);
    let x = sorted_set::<T>(s)[k];
    assert(sorted_set::<T>(s).contains(x));
    assert(s.contains(x));
    choose|i: int| 0 <= i < s.len() && s[i] == sorted_set::<T>(s)[k]
}

proof fn lemma_tidied_lookups(d: FlowDraftView)
    ensures
        forall|id: Seq<char>| #[trigger] has_node(tidied(d), id) == has_node(d, id),
        forall|id: Seq<char>| #[trigger] has_contract(tidied(d), id) == has_contract(d, id),
        forall|id: Seq<char>| #[trigger] has_resource(tidied(d), id) == has_resource(d, id),
        forall|id: Seq<char>| #[trigger] has_schema(tidied(d), id) == has_schema(d, id),
{
    let t = tidied(d);
    assert forall|id: Seq<char>| #[trigger] has_node(t, id) == has_node(d, id) by {
        if has_node(t, id) {
            let j = choose|j: int| 0 <= j < t.nodes.len() && (#[trigger] t.nodes[j]).id == id;
            assert(d.nodes[j].id == id);
        }
        if has_node(d, id) {
            let j = choose|j: int| 0 <= j < d.nodes.len() && (#[trigger] d.nodes[j]).id == id;
            assert(t.nodes[j].id == id);
        }
    }
    assert forall|id: Seq<char>| #[trigger] has_contract(t, id) == has_contract(d, id) by {
        if has_contract(t, id) {
            let j = choose|j: int|
                0 <= j < t.contracts.len() && (#[trigger] t.contracts[j]).id == id;
            assert(d.contracts[j].id == id);
        }
        if has_contract(d, id) {
            let j = choose|j: int|
                0 <= j < d.contracts.len() && (#[trigger] d.contracts[j]).id == id;
            assert(t.contracts[j].id == id);
        }
    }
}

pub(crate) proof fn lemma_each_schema(d: FlowDraftView, contract: FlowContractView, n: int)
    ensures
        passes(schema_findings(d, contract, n)) == (forall|k: int|
            0 <= k < n ==> has_own_schema(d, #[trigger] contract.artifacts[k])),
    decreases n,
{
    if n > 0 {
        lemma_each_schema(d, contract, n - 1);
        let last = super::check::schema_finding(d, contract, contract.artifacts[n - 1]);
        lemma_passes_add(schema_findings(d, contract, n - 1), last);
        if !has_own_schema(d, contract.artifacts[n - 1]) {
            assert(last[0].severity.blocks());
        }
    }
}

/// Whether an artifact has a schema that is there.
pub open spec fn has_own_schema(d: FlowDraftView, artifact: ContractArtifactView) -> bool {
    artifact.schema_resource_id is Some && has_schema(d, artifact.schema_resource_id->Some_0)
}

proof fn lemma_each_reference(
    d: FlowDraftView,
    node: FlowNodeView,
    action: NodeActionView,
    n: int,
)
    ensures
        passes(resource_ref_findings(d, node, action, n)) == (forall|k: int|
            0 <= k < n ==> has_resource(d, #[trigger] action.resource_refs[k])),
    decreases n,
{
    if n > 0 {
        lemma_each_reference(d, node, action, n - 1);
        if !has_resource(d, action.resource_refs[n - 1]) {
            let all = resource_ref_findings(d, node, action, n);
            lemma_passes_push(resource_ref_findings(d, node, action, n - 1), all.last());
            assert(all =~= resource_ref_findings(d, node, action, n - 1).push(all.last()));
        }
    }
}

proof fn lemma_each_node_extension(node: FlowNodeView, n: int)
    ensures
        passes(node_extension_findings(node, n)) == (forall|k: int|
            0 <= k < n ==> is_authoring_extension(#[trigger] node.extensions[k])),
    decreases n,
{
    if n > 0 {
        lemma_each_node_extension(node, n - 1);
        if !is_authoring_extension(node.extensions[n - 1]) {
            let all = node_extension_findings(node, n);
            lemma_passes_push(node_extension_findings(node, n - 1), all.last());
            assert(all =~= node_extension_findings(node, n - 1).push(all.last()));
        }
    }
}

/// What of a node passes, part by part.
pub(crate) proof fn lemma_node_parts(d: FlowDraftView, i: int)
    ensures
        passes(node_findings(d, i)) == ({
            let node = d.nodes[i];
            &&& node_contract_finding(d, node).len() == 0
            &&& forall|k: int|
                0 <= k < node.extensions.len() ==> is_authoring_extension(
                    #[trigger] node.extensions[k],
                )
            &&& match node.action {
                Some(action) => {
                    &&& driver_finding(node, action).len() == 0
                    &&& prompt_finding(d, node, action).len() == 0
                    &&& verdict_finding(node, action).len() == 0
                    &&& forall|k: int|
                        0 <= k < action.resource_refs.len() ==> has_resource(
                            d,
                            #[trigger] action.resource_refs[k],
                        )
                },
                None => true,
            }
        }),
{
    let node = d.nodes[i];
    let first = node_contract_finding(d, node);
    let last = node_extension_findings(node, node.extensions.len() as int);
    lemma_each_node_extension(node, node.extensions.len() as int);
    assert(first.len() > 0 ==> first[0].severity.blocks());
    match node.action {
        Some(action) => {
            let p = driver_finding(node, action);
            let q = prompt_finding(d, node, action);
            let n = action.resource_refs.len() as int;
            let r = resource_ref_findings(d, node, action, n);
            let t = verdict_finding(node, action);
            lemma_each_reference(d, node, action, n);
            lemma_passes_add(p, q);
            lemma_passes_add(p + q, r);
            lemma_passes_add(p + q + r, t);
            assert(p.len() > 0 ==> p[0].severity.blocks());
            assert(q.len() > 0 ==> q[0].severity.blocks());
            assert(t.len() > 0 ==> t[0].severity.blocks());
            lemma_passes_add(first, p + q + r + t);
            lemma_passes_add(first + (p + q + r + t), last);
        },
        None => {
            let none = Seq::<DiagnosticView>::empty();
            lemma_passes_add(first, none);
            lemma_passes_add(first + none, last);
        },
    }
}

proof fn lemma_tidied_node_passes(d: FlowDraftView, i: int)
    requires
        0 <= i < d.nodes.len(),
        passes(node_findings(d, i)),
    ensures
        passes(node_findings(tidied(d), i)),
{
    let t = tidied(d);
    lemma_tidied_lookups(d);
    lemma_node_parts(d, i);
    lemma_node_parts(t, i);
    let node = d.nodes[i];
    let tidy = t.nodes[i];
    assert(tidy == canonical_node(node));
    if let Some(id) = node.contract_id {
        assert(has_contract(t, id) == has_contract(d, id));
    }
    assert forall|k: int| 0 <= k < tidy.extensions.len() implies is_authoring_extension(
        #[trigger] tidy.extensions[k],
    ) by {
        let j = lemma_set_entry::<String>(node.extensions, k);
        assert(is_authoring_extension(node.extensions[j]));
    }
    if let Some(action) = node.action {
        let refs = canonical_action(action).resource_refs;
        assert forall|k: int| 0 <= k < refs.len() implies has_resource(t, #[trigger] refs[k]) by {
            let j = lemma_set_entry::<String>(action.resource_refs, k);
            assert(has_resource(d, action.resource_refs[j]));
            assert(has_resource(t, refs[k]) == has_resource(d, refs[k]));
        }
    }
}

proof fn lemma_tidied_contract_passes(d: FlowDraftView, i: int)
    requires
        0 <= i < d.contracts.len(),
        passes(contract_findings(d, i)),
        passes(contract_id_findings(d, i)),
    ensures
        passes(contract_findings(tidied(d), i)),
        passes(contract_id_findings(tidied(d), i)),
{
    let t = tidied(d);
    lemma_tidied_lookups(d);
    let contract = d.contracts[i];
    let tidy = t.contracts[i];
    assert(tidy == canonical_contract(contract));
    let n = contract.artifacts.len() as int;
    let m = tidy.artifacts.len() as int;
    lemma_each_schema(d, contract, n);
    lemma_each_schema(t, tidy, m);
    let head = super::check::completion_finding(contract);
    lemma_passes_add(head, schema_findings(d, contract, n));
    lemma_passes_add(super::check::completion_finding(tidy), schema_findings(t, tidy, m));
    if contract.completion is None {
        assert(head[0].severity.blocks());
    }
    assert forall|k: int| 0 <= k < m implies has_own_schema(t, #[trigger] tidy.artifacts[k]) by {
        let j = lemma_set_entry::<ContractArtifact>(contract.artifacts, k);
        assert(has_own_schema(d, contract.artifacts[j]));
    }
    lemma_each_artifact_id(contract, i, n);
    lemma_each_artifact_id(tidy, i, m);
    let ids = artifact_id_findings(contract, i, n);
    let all = contract_id_findings(d, i);
    let first = all.take(all.len() - ids.len());
    assert(all =~= first + ids);
    lemma_passes_add(first, ids);
    assert(!contract_id_repeats(d, i)) by {
        if contract_id_repeats(d, i) {
            assert(first[0].severity.blocks());
        }
    }
    assert(!contract_id_repeats(t, i)) by {
        if contract_id_repeats(t, i) {
            let j = choose|j: int| 0 <= j < i && (#[trigger] t.contracts[j]).id == tidy.id;
            assert(d.contracts[j].id == contract.id);
        }
    }
    lemma_tidied_artifacts_differ(contract);
    assert(contract_id_findings(t, i) =~= artifact_id_findings(tidy, i, m));
}

proof fn lemma_tidied_artifacts_differ(contract: FlowContractView)
    requires
        forall|k: int|
            0 <= k < contract.artifacts.len() ==> !#[trigger] artifact_id_repeats(contract, k),
    ensures
        forall|k: int|
            0 <= k < canonical_contract(contract).artifacts.len()
                ==> !#[trigger] artifact_id_repeats(canonical_contract(contract), k),
{
    let mine = contract.artifacts;
    let key = |artifact: ContractArtifactView| artifact.id;
    assert forall|i: int, j: int| 0 <= i < j < mine.len() implies key(#[trigger] mine[i]) != key(
        #[trigger] mine[j],
    ) by {
        assert(!artifact_id_repeats(contract, j));
    }
    let theirs = sorted::<ContractArtifact>(mine);
    lemma_sorted::<ContractArtifact>(mine);
    lemma_keys_differ_in_any_order(mine, theirs, key);
    assert forall|i: int| 0 < i < theirs.len() implies theirs[i - 1] != #[trigger] theirs[i] by {
        assert(key(theirs[i - 1]) != key(theirs[i]));
    }
    lemma_no_repeats_fixpoint(theirs);
    let tidy = canonical_contract(contract);
    assert(tidy.artifacts == theirs);
    assert forall|k: int| 0 <= k < tidy.artifacts.len() implies !#[trigger] artifact_id_repeats(
        tidy,
        k,
    ) by {
        if artifact_id_repeats(tidy, k) {
            let j = choose|j: int|
                0 <= j < k && (#[trigger] tidy.artifacts[j]).id == tidy.artifacts[k].id;
            assert(key(theirs[j]) != key(theirs[k]));
        }
    }
}

proof fn lemma_tidied_scopes_pass(
    scopes: Seq<WriteScopeView>,
    mode: FlowCheckMode,
    place: Seq<char>,
)
    requires
        passes(scope_findings(scopes, mode, place, scopes.len() as int)),
    ensures
        ({
            let tidy = sorted_set::<WriteScope>(scopes);
            passes(scope_findings(tidy, mode, place, tidy.len() as int))
        }),
{
    let tidy = sorted_set::<WriteScope>(scopes);
    lemma_each_scope(scopes, mode, place, scopes.len() as int);
    lemma_each_scope(tidy, mode, place, tidy.len() as int);
    if mode != FlowCheckMode::Core {
        assert forall|k: int| 0 <= k < tidy.len() implies !(#[trigger] tidy[k]).is_broad() by {
            let i = lemma_set_entry::<WriteScope>(scopes, k);
            assert(!scopes[i].is_broad());
        }
    }
}

proof fn lemma_tidied_nodes_pass(d: FlowDraftView, mode: FlowCheckMode)
    requires
        parts_pass(d, mode),
    ensures
        passes(all_node_id_findings(tidied(d), d.nodes.len() as int)),
        passes(all_node_findings(tidied(d), d.nodes.len() as int)),
        passes(all_node_scope_findings(tidied(d), mode, d.nodes.len() as int)),
        passes(all_contract_id_findings(tidied(d), d.contracts.len() as int)),
        passes(all_contract_findings(tidied(d), d.contracts.len() as int)),
{
    let t = tidied(d);
    let n = d.nodes.len() as int;
    lemma_each_node_id(d, n);
    lemma_each_node_id(t, n);
    assert forall|i: int| 0 <= i < n implies passes(#[trigger] node_id_findings(t, i)) by {
        assert(passes(node_id_findings(d, i)));
        if node_id_repeats(t, i) {
            let j = choose|j: int| 0 <= j < i && (#[trigger] t.nodes[j]).id == t.nodes[i].id;
            assert(d.nodes[j].id == d.nodes[i].id);
            assert(node_id_repeats(d, i));
            assert(node_id_findings(d, i)[0].severity.blocks());
        }
    }
    lemma_each_node(d, n);
    lemma_each_node(t, n);
    assert forall|i: int| 0 <= i < n implies passes(#[trigger] node_findings(t, i)) by {
        assert(passes(node_findings(d, i)));
        lemma_tidied_node_passes(d, i);
    }
    lemma_each_node_scope(d, mode, n);
    lemma_each_node_scope(t, mode, n);
    assert forall|i: int| 0 <= i < n implies passes(#[trigger] node_scope_findings(t, mode, i)) by {
        assert(passes(node_scope_findings(d, mode, i)));
        lemma_tidied_scopes_pass(
            d.nodes[i].write_scopes,
            mode,
            "nodes["@ + d.nodes[i].id + "].write_scopes["@,
        );
    }
    let m = d.contracts.len() as int;
    lemma_each_contract_id(d, m);
    lemma_each_contract_id(t, m);
    lemma_each_contract(d, m);
    lemma_each_contract(t, m);
    assert forall|i: int| 0 <= i < m implies passes(#[trigger] contract_findings(t, i)) by {
        assert(passes(contract_findings(d, i)) && passes(contract_id_findings(d, i)));
        lemma_tidied_contract_passes(d, i);
    }
    assert forall|i: int| 0 <= i < m implies passes(#[trigger] contract_id_findings(t, i)) by {
        assert(passes(contract_findings(d, i)) && passes(contract_id_findings(d, i)));
        lemma_tidied_contract_passes(d, i);
    }
}

proof fn lemma_tidied_rest_passes(d: FlowDraftView, mode: FlowCheckMode)
    requires
        parts_pass(d, mode),
    ensures
        passes(all_resource_findings(tidied(d), d.resources.len() as int)),
        passes(all_import_findings(tidied(d), tidied(d).imports.len() as int)),
        passes(readme_findings(tidied(d))),
        passes(all_route_findings(tidied(d), d.routes.len() as int)),
        passes(all_extension_findings(tidied(d), tidied(d).extensions.len() as int)),
{
    let t = tidied(d);
    lemma_tidied_lookups(d);
    let n = d.resources.len() as int;
    lemma_each_resource(d, n);
    lemma_each_resource(t, n);
    assert forall|i: int| 0 <= i < n implies passes(#[trigger] resource_findings(t, i)) by {
        assert(passes(resource_findings(d, i)));
        lemma_resource_parts(d, i);
        lemma_resource_parts(t, i);
    }
    lemma_each_import(d, d.imports.len() as int);
    lemma_each_import(t, t.imports.len() as int);
    assert forall|k: int| 0 <= k < t.imports.len() implies passes(
        #[trigger] import_findings(t, k),
    ) by {
        let i = lemma_set_entry::<FlowImport>(d.imports, k);
        assert(passes(import_findings(d, i)));
        if !has_resource(d, d.imports[i].resource_id) {
            assert(import_findings(d, i)[0].severity.blocks());
        }
    }
    lemma_set_elements::<FlowImport>(d.imports);
    lemma_set_elements::<WriteScope>(d.policies.write_scopes);
    lemma_set_elements::<String>(d.extensions);
    if d.extensions.len() == 0 {
        assert(t.extensions =~= d.extensions);
    }
    assert(has_readme(t) == has_readme(d) && has_readme_content(t) == has_readme_content(d));
    if readme_findings(d).len() > 0 {
        assert(readme_findings(d)[0].severity.blocks());
    }
    let m = d.routes.len() as int;
    lemma_each_route(d, m);
    lemma_each_route(t, m);
    assert forall|i: int| 0 <= i < m implies passes(#[trigger] route_findings(t, i)) by {
        assert(passes(route_findings(d, i)));
        assert(has_node(t, d.routes[i].activate) == has_node(d, d.routes[i].activate));
    }
    lemma_each_extension(d, d.extensions.len() as int);
    lemma_each_extension(t, t.extensions.len() as int);
    assert forall|k: int| 0 <= k < t.extensions.len() implies passes(
        #[trigger] extension_findings(t, k),
    ) by {
        let i = lemma_set_entry::<String>(d.extensions, k);
        assert(passes(extension_findings(d, i)));
        if extension_findings(d, i).len() > 0 {
            assert(extension_findings(d, i)[0].severity.blocks());
        }
    }
}

/// A draft that can be locked can be locked in its canonical form, unless that one puts a blank
/// service intent first.
pub proof fn lemma_lockable_in_canonical_form(d: FlowDraftView, mode: FlowCheckMode)
    requires
        !any_blocks(check_findings(d, mode)),
        !any_blocks(qos_findings(canonical(d))),
    ensures
        !any_blocks(check_findings(canonical(d), mode)),
{
    let t = tidied(d);
    lemma_parts(d, mode);
    lemma_tidied_nodes_pass(d, mode);
    lemma_tidied_rest_passes(d, mode);
    lemma_tidied_scopes_pass(d.policies.write_scopes, mode, "policies.write_scopes["@);
    assert(qos_findings(t) == qos_findings(canonical(d)));
    lemma_parts(t, mode);
    lemma_sorted::<FlowNode>(t.nodes);
    lemma_sorted::<FlowContract>(t.contracts);
    lemma_sorted::<FlowRoute>(t.routes);
    lemma_sorted::<FlowResource>(t.resources);
    assert(rearranged(t, canonical(d)));
    lemma_lockable_in_any_order(t, canonical(d), mode);
}

/// Whether at most one entry of a draft states a service intent.
pub open spec fn states_one_intent(extensions: Seq<Seq<char>>) -> bool {
    forall|i: int, j: int|
        0 <= i < extensions.len() && 0 <= j < extensions.len() && qos_of_extension(
            #[trigger] extensions[i],
        ) is Some && qos_of_extension(#[trigger] extensions[j]) is Some ==> extensions[i]
            == extensions[j]
}

proof fn lemma_first_intent(extensions: Seq<Seq<char>>)
    ensures
        match first_qos(extensions) {
            Some(qos) => exists|i: int|
                0 <= i < extensions.len() && qos_of_extension(#[trigger] extensions[i]) == Some(
                    qos,
                ),
            None => forall|i: int|
                0 <= i < extensions.len() ==> qos_of_extension(#[trigger] extensions[i]) is None,
        },
    decreases extensions.len(),
{
    if extensions.len() > 0 && qos_of_extension(extensions[0]) is None {
        let rest = extensions.drop_first();
        lemma_first_intent(rest);
        match first_qos(rest) {
            Some(qos) => {
                let i = choose|i: int|
                    0 <= i < rest.len() && qos_of_extension(#[trigger] rest[i]) == Some(qos);
                assert(extensions[i + 1] == rest[i]);
            },
            None => {
                assert forall|i: int| 0 <= i < extensions.len() implies qos_of_extension(
                    #[trigger] extensions[i],
                ) is None by {
                    if i > 0 {
                        assert(extensions[i] == rest[i - 1]);
                    }
                }
            },
        }
    }
}

/// The service intent of a draft with at most one does not depend on the order.
pub proof fn lemma_one_intent_stays(d: FlowDraftView)
    requires
        states_one_intent(d.extensions),
    ensures
        qos_findings(canonical(d)) == qos_findings(d),
{
    let mine = d.extensions;
    let theirs = canonical(d).extensions;
    lemma_set_elements::<String>(mine);
    lemma_first_intent(mine);
    lemma_first_intent(theirs);
    match (first_qos(mine), first_qos(theirs)) {
        (Some(x), Some(y)) => {
            let i = choose|i: int|
                0 <= i < mine.len() && qos_of_extension(#[trigger] mine[i]) == Some(x);
            let j = choose|j: int|
                0 <= j < theirs.len() && qos_of_extension(#[trigger] theirs[j]) == Some(y);
            let k = lemma_set_entry::<String>(mine, j);
            assert(mine[i] == mine[k]);
        },
        (Some(x), None) => {
            let i = choose|i: int|
                0 <= i < mine.len() && qos_of_extension(#[trigger] mine[i]) == Some(x);
            assert(mine.contains(mine[i]));
            assert(theirs.contains(mine[i]));
            let j = choose|j: int| 0 <= j < theirs.len() && theirs[j] == mine[i];
            assert(qos_of_extension(theirs[j]) is None);
        },
        (None, Some(y)) => {
            let j = choose|j: int|
                0 <= j < theirs.len() && qos_of_extension(#[trigger] theirs[j]) == Some(y);
            let k = lemma_set_entry::<String>(mine, j);
            assert(qos_of_extension(mine[k]) is None);
        },
        _ => {},
    }
}

/// A draft that can be locked has no blank service intent first.
pub proof fn lemma_no_blank_intent(d: FlowDraftView, mode: FlowCheckMode)
    requires
        !any_blocks(check_findings(d, mode)),
    ensures
        !any_blocks(qos_findings(d)),
{
    lemma_parts(d, mode);
}

} // verus!
