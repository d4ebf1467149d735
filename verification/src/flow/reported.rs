//! What is wrong with a flow is found, and the finding says where.
use vstd::prelude::*;

use crate::number::decimal;

use super::check::{
    action_findings, all_contract_findings, all_contract_id_findings, all_extension_findings,
    all_import_findings, all_node_findings, all_node_id_findings, all_node_scope_findings,
    all_resource_findings, all_route_findings, check_findings, completion_finding,
    contract_findings, driver_finding, has_contract, has_node, is_package_path, is_readme, kind_of,
    node_contract_finding, node_extension_findings, node_findings, node_id_findings,
    node_id_repeats, path_finding, path_repeat_finding, prompt_finding, qos_findings,
    readme_findings, readme_kind_finding, readme_path_finding, resource_findings,
    resource_ref_findings, route_findings, route_identity, route_repeat_finding,
    route_target_finding, schema_findings, scope_findings, skill_path_finding, verdict_finding,
};
use super::diagnostic::{DiagnosticView, FlowCheckMode, Severity};
use super::model::{FlowDraftView, NodeActionView, ResourceKind};
use super::reordered::lemma_no_route_before;

verus! {

broadcast use vstd::string::group_string_axioms;

/// Whether one of the findings is an error of this kind at this place.
pub open spec fn tells(
    findings: Seq<DiagnosticView>,
    code: Seq<char>,
    location: Seq<char>,
) -> bool {
    exists|i: int|
        0 <= i < findings.len() && (#[trigger] findings[i]).code == code && findings[i].location
            == location && findings[i].severity == Severity::Error
}

proof fn lemma_tells_add(
    a: Seq<DiagnosticView>,
    b: Seq<DiagnosticView>,
    code: Seq<char>,
    location: Seq<char>,
)
    ensures
        tells(a, code, location) || tells(b, code, location) ==> tells(a + b, code, location),
{
    if tells(a, code, location) {
        let i = choose|i: int|
            0 <= i < a.len() && (#[trigger] a[i]).code == code && a[i].location == location
                && a[i].severity == Severity::Error;
        assert((a + b)[i] == a[i]);
    }
    if tells(b, code, location) {
        let i = choose|i: int|
            0 <= i < b.len() && (#[trigger] b[i]).code == code && b[i].location == location
                && b[i].severity == Severity::Error;
        assert((a + b)[a.len() + i] == b[i]);
    }
}

proof fn lemma_one_tells(f: DiagnosticView)
    requires
        f.severity == Severity::Error,
    ensures
        tells(seq![f], f.code, f.location),
{
    assert(seq![f][0] == f);
}

/// What a part of the check tells, the check tells.
proof fn lemma_check_tells(
    d: FlowDraftView,
    mode: FlowCheckMode,
    code: Seq<char>,
    location: Seq<char>,
)
    ensures
        tells(all_node_id_findings(d, d.nodes.len() as int), code, location) || tells(
            all_resource_findings(d, d.resources.len() as int),
            code,
            location,
        ) || tells(readme_findings(d), code, location) || tells(
            all_route_findings(d, d.routes.len() as int),
            code,
            location,
        ) || tells(all_contract_findings(d, d.contracts.len() as int), code, location) || tells(
            all_node_findings(d, d.nodes.len() as int),
            code,
            location,
        ) ==> tells(check_findings(d, mode), code, location),
{
    let a = all_node_id_findings(d, d.nodes.len() as int);
    let b = all_contract_id_findings(d, d.contracts.len() as int);
    let c = all_resource_findings(d, d.resources.len() as int);
    let e = all_import_findings(d, d.imports.len() as int);
    let f = readme_findings(d);
    let g = qos_findings(d);
    let h = all_route_findings(d, d.routes.len() as int);
    let k = all_contract_findings(d, d.contracts.len() as int);
    let l = all_extension_findings(d, d.extensions.len() as int);
    let m = all_node_findings(d, d.nodes.len() as int);
    let n = scope_findings(
        d.policies.write_scopes,
        mode,
        "policies.write_scopes["@,
        d.policies.write_scopes.len() as int,
    );
    let o = all_node_scope_findings(d, mode, d.nodes.len() as int);
    lemma_tells_add(a, b, code, location);
    lemma_tells_add(a + b, c, code, location);
    lemma_tells_add(a + b + c, e, code, location);
    lemma_tells_add(a + b + c + e, f, code, location);
    lemma_tells_add(a + b + c + e + f, g, code, location);
    lemma_tells_add(a + b + c + e + f + g, h, code, location);
    lemma_tells_add(a + b + c + e + f + g + h, k, code, location);
    lemma_tells_add(a + b + c + e + f + g + h + k, l, code, location);
    lemma_tells_add(a + b + c + e + f + g + h + k + l, m, code, location);
    lemma_tells_add(a + b + c + e + f + g + h + k + l + m, n, code, location);
    lemma_tells_add(a + b + c + e + f + g + h + k + l + m + n, o, code, location);
}

proof fn lemma_each_node_id_tells(
    d: FlowDraftView,
    n: int,
    i: int,
    code: Seq<char>,
    location: Seq<char>,
)
    requires
        0 <= i < n,
        tells(node_id_findings(d, i), code, location),
    ensures
        tells(all_node_id_findings(d, n), code, location),
    decreases n,
{
    if i < n - 1 {
        lemma_each_node_id_tells(d, n - 1, i, code, location);
    }
    lemma_tells_add(all_node_id_findings(d, n - 1), node_id_findings(d, n - 1), code, location);
}

proof fn lemma_each_route_tells(
    d: FlowDraftView,
    n: int,
    i: int,
    code: Seq<char>,
    location: Seq<char>,
)
    requires
        0 <= i < n,
        tells(route_findings(d, i), code, location),
    ensures
        tells(all_route_findings(d, n), code, location),
    decreases n,
{
    if i < n - 1 {
        lemma_each_route_tells(d, n - 1, i, code, location);
    }
    lemma_tells_add(all_route_findings(d, n - 1), route_findings(d, n - 1), code, location);
}

proof fn lemma_each_contract_tells(
    d: FlowDraftView,
    n: int,
    i: int,
    code: Seq<char>,
    location: Seq<char>,
)
    requires
        0 <= i < n,
        tells(contract_findings(d, i), code, location),
    ensures
        tells(all_contract_findings(d, n), code, location),
    decreases n,
{
    if i < n - 1 {
        lemma_each_contract_tells(d, n - 1, i, code, location);
    }
    lemma_tells_add(all_contract_findings(d, n - 1), contract_findings(d, n - 1), code, location);
}

proof fn lemma_each_node_tells(
    d: FlowDraftView,
    n: int,
    i: int,
    code: Seq<char>,
    location: Seq<char>,
)
    requires
        0 <= i < n,
        tells(node_findings(d, i), code, location),
    ensures
        tells(all_node_findings(d, n), code, location),
    decreases n,
{
    if i < n - 1 {
        lemma_each_node_tells(d, n - 1, i, code, location);
    }
    lemma_tells_add(all_node_findings(d, n - 1), node_findings(d, n - 1), code, location);
}

/// A node whose id was given to an earlier node is found, at its own place.
pub proof fn lemma_repeated_nodes_are_found(
    d: FlowDraftView,
    mode: FlowCheckMode,
    first: int,
    again: int,
)
    requires
        0 <= first < again < d.nodes.len(),
        d.nodes[first].id == d.nodes[again].id,
    ensures
        tells(
            check_findings(d, mode),
            "FLOW_DUPLICATE_NODE_ID"@,
            "nodes["@ + decimal(again as nat) + "].id"@,
        ),
{
    let code = "FLOW_DUPLICATE_NODE_ID"@;
    let location = "nodes["@ + decimal(again as nat) + "].id"@;
    assert(node_id_repeats(d, again));
    lemma_one_tells(node_id_findings(d, again)[0]);
    assert(node_id_findings(d, again) =~= seq![node_id_findings(d, again)[0]]);
    lemma_each_node_id_tells(d, d.nodes.len() as int, again, code, location);
    lemma_check_tells(d, mode, code, location);
}

/// A route to a node that there is not is found, at the route.
pub proof fn lemma_lost_routes_are_found(d: FlowDraftView, mode: FlowCheckMode, i: int)
    requires
        0 <= i < d.routes.len(),
        forall|n: int| 0 <= n < d.nodes.len() ==> (#[trigger] d.nodes[n]).id != d.routes[i].activate,
    ensures
        tells(
            check_findings(d, mode),
            "FLOW_UNKNOWN_ROUTE_TARGET"@,
            "routes["@ + decimal(i as nat) + "].activate"@,
        ),
{
    let code = "FLOW_UNKNOWN_ROUTE_TARGET"@;
    let location = "routes["@ + decimal(i as nat) + "].activate"@;
    assert(!has_node(d, d.routes[i].activate));
    lemma_one_tells(route_target_finding(d, i)[0]);
    assert(route_target_finding(d, i) =~= seq![route_target_finding(d, i)[0]]);
    lemma_tells_add(route_repeat_finding(d, i), route_target_finding(d, i), code, location);
    lemma_each_route_tells(d, d.routes.len() as int, i, code, location);
    lemma_check_tells(d, mode, code, location);
}

/// A node that names a contract that there is not is found, at the node.
pub proof fn lemma_lost_contracts_are_found(d: FlowDraftView, mode: FlowCheckMode, i: int)
    requires
        0 <= i < d.nodes.len(),
        d.nodes[i].contract_id is Some,
        forall|c: int|
            0 <= c < d.contracts.len() ==> (#[trigger] d.contracts[c]).id
                != d.nodes[i].contract_id->0,
    ensures
        tells(
            check_findings(d, mode),
            "FLOW_UNKNOWN_NODE_CONTRACT"@,
            "nodes["@ + d.nodes[i].id + "].contract_id"@,
        ),
{
    let code = "FLOW_UNKNOWN_NODE_CONTRACT"@;
    let location = "nodes["@ + d.nodes[i].id + "].contract_id"@;
    let node = d.nodes[i];
    assert(!has_contract(d, node.contract_id->0));
    let own = node_contract_finding(d, node);
    lemma_one_tells(own[0]);
    assert(own =~= seq![own[0]]);
    let acts = match node.action {
        Some(action) => action_findings(d, node, action),
        None => Seq::empty(),
    };
    lemma_tells_add(own, acts, code, location);
    lemma_tells_add(
        own + acts,
        node_extension_findings(node, node.extensions.len() as int),
        code,
        location,
    );
    lemma_each_node_tells(d, d.nodes.len() as int, i, code, location);
    lemma_check_tells(d, mode, code, location);
}

/// A flow with nodes and no README is found.
pub proof fn lemma_missing_readmes_are_found(d: FlowDraftView, mode: FlowCheckMode)
    requires
        d.nodes.len() > 0,
        forall|r: int| 0 <= r < d.resources.len() ==> !is_readme(#[trigger] d.resources[r]),
    ensures
        tells(check_findings(d, mode), "FLOW_MISSING_README"@, "resources"@),
{
    let found = readme_findings(d);
    lemma_one_tells(found[0]);
    assert(found =~= seq![found[0]]);
    lemma_check_tells(d, mode, "FLOW_MISSING_README"@, "resources"@);
}

proof fn lemma_each_resource_tells(
    d: FlowDraftView,
    n: int,
    i: int,
    code: Seq<char>,
    location: Seq<char>,
)
    requires
        0 <= i < n,
        tells(resource_findings(d, i), code, location),
    ensures
        tells(all_resource_findings(d, n), code, location),
    decreases n,
{
    if i < n - 1 {
        lemma_each_resource_tells(d, n - 1, i, code, location);
    }
    lemma_tells_add(all_resource_findings(d, n - 1), resource_findings(d, n - 1), code, location);
}

/// A route that says what an earlier route says is found, at its own place.
pub proof fn lemma_repeated_routes_are_found(
    d: FlowDraftView,
    mode: FlowCheckMode,
    first: int,
    again: int,
)
    requires
        0 <= first < again < d.routes.len(),
        d.routes[first] == d.routes[again],
    ensures
        tells(
            check_findings(d, mode),
            "FLOW_DUPLICATE_ROUTE"@,
            "routes["@ + decimal(again as nat) + "]"@,
        ),
{
    let code = "FLOW_DUPLICATE_ROUTE"@;
    let location = "routes["@ + decimal(again as nat) + "]"@;
    lemma_no_route_before(d.routes, route_identity(d.routes[again]), again);
    assert(route_identity(d.routes[first]) == route_identity(d.routes[again]));
    let own = route_repeat_finding(d, again);
    lemma_one_tells(own[0]);
    assert(own =~= seq![own[0]]);
    lemma_tells_add(own, route_target_finding(d, again), code, location);
    lemma_each_route_tells(d, d.routes.len() as int, again, code, location);
    lemma_check_tells(d, mode, code, location);
}

/// A resource whose path leads out of the package, and one whose path was taken before, are found
/// at the resource.
pub proof fn lemma_unsafe_resources_are_found(d: FlowDraftView, mode: FlowCheckMode, i: int)
    requires
        0 <= i < d.resources.len(),
    ensures
        !is_package_path(d.resources[i].id) ==> tells(
            check_findings(d, mode),
            "FLOW_INVALID_RESOURCE_PATH"@,
            "resources["@ + decimal(i as nat) + "].path"@,
        ),
        (exists|j: int| 0 <= j < i && (#[trigger] d.resources[j]).id == d.resources[i].id) ==> tells(
            check_findings(d, mode),
            "FLOW_DUPLICATE_RESOURCE_PATH"@,
            "resources["@ + decimal(i as nat) + "].path"@,
        ),
{
    let location = "resources["@ + decimal(i as nat) + "].path"@;
    let a = path_finding(d, i);
    let b = path_repeat_finding(d, i);
    let c = readme_path_finding(d, i);
    let e = readme_kind_finding(d, i);
    let f = skill_path_finding(d, i);
    if !is_package_path(d.resources[i].id) {
        let code = "FLOW_INVALID_RESOURCE_PATH"@;
        lemma_one_tells(a[0]);
        assert(a =~= seq![a[0]]);
        lemma_tells_add(a, b, code, location);
        lemma_tells_add(a + b, c, code, location);
        lemma_tells_add(a + b + c, e, code, location);
        lemma_tells_add(a + b + c + e, f, code, location);
        lemma_each_resource_tells(d, d.resources.len() as int, i, code, location);
        lemma_check_tells(d, mode, code, location);
    }
    if exists|j: int| 0 <= j < i && (#[trigger] d.resources[j]).id == d.resources[i].id {
        let code = "FLOW_DUPLICATE_RESOURCE_PATH"@;
        lemma_one_tells(b[0]);
        assert(b =~= seq![b[0]]);
        lemma_tells_add(a, b, code, location);
        lemma_tells_add(a + b, c, code, location);
        lemma_tells_add(a + b + c, e, code, location);
        lemma_tells_add(a + b + c + e, f, code, location);
        lemma_each_resource_tells(d, d.resources.len() as int, i, code, location);
        lemma_check_tells(d, mode, code, location);
    }
}

/// A contract that does not say when it is met is found, at the contract.
pub proof fn lemma_endless_contracts_are_found(d: FlowDraftView, mode: FlowCheckMode, i: int)
    requires
        0 <= i < d.contracts.len(),
        d.contracts[i].completion is None,
    ensures
        tells(
            check_findings(d, mode),
            "FLOW_MISSING_CONTRACT_COMPLETION"@,
            "contracts["@ + d.contracts[i].id + "].completion"@,
        ),
{
    let code = "FLOW_MISSING_CONTRACT_COMPLETION"@;
    let location = "contracts["@ + d.contracts[i].id + "].completion"@;
    let own = completion_finding(d.contracts[i]);
    lemma_one_tells(own[0]);
    assert(own =~= seq![own[0]]);
    lemma_tells_add(
        own,
        schema_findings(d, d.contracts[i], d.contracts[i].artifacts.len() as int),
        code,
        location,
    );
    lemma_each_contract_tells(d, d.contracts.len() as int, i, code, location);
    lemma_check_tells(d, mode, code, location);
}

/// An action whose prompt is no resource, or a resource of another kind, is found at its node.
pub proof fn lemma_lost_prompts_are_found(
    d: FlowDraftView,
    mode: FlowCheckMode,
    i: int,
    action: NodeActionView,
    prompt: Seq<char>,
)
    requires
        0 <= i < d.nodes.len(),
        d.nodes[i].action == Some(action),
        action.prompt_ref == Some(prompt),
    ensures
        kind_of(d, prompt) is None ==> tells(
            check_findings(d, mode),
            "FLOW_UNKNOWN_ACTION_PROMPT"@,
            "nodes["@ + d.nodes[i].id + "].action.prompt_ref"@,
        ),
        kind_of(d, prompt) is Some && kind_of(d, prompt) != Some(ResourceKind::Prompt) ==> tells(
            check_findings(d, mode),
            "FLOW_INVALID_ACTION_PROMPT"@,
            "nodes["@ + d.nodes[i].id + "].action.prompt_ref"@,
        ),
{
    let node = d.nodes[i];
    let own = prompt_finding(d, node, action);
    if kind_of(d, prompt) != Some(ResourceKind::Prompt) {
        let code = own[0].code;
        let location = own[0].location;
        lemma_one_tells(own[0]);
        assert(own =~= seq![own[0]]);
        let a = driver_finding(node, action);
        let c = resource_ref_findings(d, node, action, action.resource_refs.len() as int);
        let e = verdict_finding(node, action);
        lemma_tells_add(a, own, code, location);
        lemma_tells_add(a + own, c, code, location);
        lemma_tells_add(a + own + c, e, code, location);
        let acts = action_findings(d, node, action);
        let contract = node_contract_finding(d, node);
        lemma_tells_add(contract, acts, code, location);
        lemma_tells_add(
            contract + acts,
            node_extension_findings(node, node.extensions.len() as int),
            code,
            location,
        );
        lemma_each_node_tells(d, d.nodes.len() as int, i, code, location);
        lemma_check_tells(d, mode, code, location);
    }
}

} // verus!
