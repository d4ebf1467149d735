//! When a flow passes its check, in terms of the flow itself.
use vstd::prelude::*;
use vstd::utf8::encode_utf8;

use crate::hash::{framed_all, lemma_frames_tell_texts, sha256_hex};
use crate::split::only_names;
use crate::text::is_blank;

use super::check::{
    check_findings, completion_finding, contract_findings, contract_id_findings,
    contract_id_repeats, extension_findings, for_each_text, has_contract, has_node, has_resource,
    import_findings, is_skill_path, kind_of, node_contract_finding, node_id_findings,
    node_id_repeats, prompt_finding, readme_findings, resource_findings, resource_path_repeats,
    route_findings, route_identity, route_repeat_finding, route_target_finding, schema_findings,
};
use super::contract::is_authoring_extension;
use super::diagnostic::{any_blocks, FlowCheckMode};
use super::model::{
    FlowDraftView, FlowNodeView, FlowRouteView, NodeDriver, ResourceKind, WriteScopeView,
};
use super::predicate::{FactView, PredicateView};
use super::profile::{draft_qos, QosView};
use super::reordered::{
    has_own_schema, lemma_each_artifact_id, lemma_each_contract, lemma_each_contract_id,
    lemma_each_extension, lemma_each_import, lemma_each_node, lemma_each_node_id,
    lemma_each_node_scope, lemma_each_resource, lemma_each_route, lemma_each_schema,
    lemma_each_scope, lemma_kind_is_that_of, lemma_no_route_before, lemma_node_parts, lemma_parts,
    lemma_passes_add, lemma_resource_parts, passes, paths_differ,
};

verus! {

broadcast use vstd::string::group_string_axioms;

/// No two nodes share an id, and neither do two contracts nor two artifacts of one contract.
pub open spec fn ids_are_sound(d: FlowDraftView) -> bool {
    &&& forall|i: int, j: int|
        0 <= i < j < d.nodes.len() ==> (#[trigger] d.nodes[i]).id != (#[trigger] d.nodes[j]).id
    &&& forall|i: int, j: int|
        0 <= i < j < d.contracts.len() ==> (#[trigger] d.contracts[i]).id != (
        #[trigger] d.contracts[j]).id
    &&& forall|c: int, i: int, j: int|
        0 <= c < d.contracts.len() && 0 <= i < j < d.contracts[c].artifacts.len() ==> (
        #[trigger] d.contracts[c].artifacts[i]).id != (#[trigger] d.contracts[c].artifacts[j]).id
}

/// Every resource has a path of its own inside the package, the manifest's left free; the readme,
/// and nothing else, is at its path, and every skill is at the path of a skill.
pub open spec fn resources_are_sound(d: FlowDraftView) -> bool {
    &&& forall|i: int, j: int|
        0 <= i < j < d.resources.len() ==> (#[trigger] d.resources[i]).id != (
        #[trigger] d.resources[j]).id
    &&& forall|i: int|
        0 <= i < d.resources.len() ==> {
            let resource = #[trigger] d.resources[i];
            &&& resource.id.len() > 0
            &&& resource.id != "flow.json"@
            &&& only_names(resource.id)
            &&& resource.kind == ResourceKind::Readme <==> resource.id == "README.md"@
            &&& resource.kind == ResourceKind::Skill ==> is_skill_path(resource.id)
        }
    &&& forall|i: int|
        0 <= i < d.imports.len() ==> exists|r: int|
            0 <= r < d.resources.len() && (#[trigger] d.resources[r]).id == (
            #[trigger] d.imports[i]).resource_id
}

/// A flow that holds anything has a readme with something in it.
pub open spec fn readme_is_sound(d: FlowDraftView) -> bool {
    (d.nodes.len() > 0 || d.contracts.len() > 0 || d.routes.len() > 0 || d.resources.len() > 0
        || d.imports.len() > 0 || d.policies.write_scopes.len() > 0 || d.extensions.len() > 0)
        ==> exists|r: int|
        0 <= r < d.resources.len() && (#[trigger] d.resources[r]).kind == ResourceKind::Readme
            && d.resources[r].id == "README.md"@ && !is_blank(d.resources[r].source)
}

/// Every route leads to a node of the flow, and no two have the same identity.
pub open spec fn routes_are_sound(d: FlowDraftView) -> bool {
    &&& forall|r: int|
        0 <= r < d.routes.len() ==> exists|n: int|
            0 <= n < d.nodes.len() && (#[trigger] d.nodes[n]).id == (#[trigger] d.routes[r]).activate
    &&& forall|i: int, j: int|
        0 <= i < j < d.routes.len() ==> route_identity(#[trigger] d.routes[i]) != route_identity(
            #[trigger] d.routes[j],
        )
}

/// Every contract says when it is met, and every artifact of it has a schema in the flow.
pub open spec fn contracts_are_sound(d: FlowDraftView) -> bool {
    &&& forall|c: int| 0 <= c < d.contracts.len() ==> (#[trigger] d.contracts[c]).completion is Some
    &&& forall|c: int, k: int|
        0 <= c < d.contracts.len() && 0 <= k < d.contracts[c].artifacts.len() ==> exists|r: int|
            0 <= r < d.resources.len() && (#[trigger] d.resources[r]).kind == ResourceKind::Schema
                && (#[trigger] d.contracts[c].artifacts[k]).schema_resource_id == Some(
                d.resources[r].id,
            )
}

/// Whether an extension is one of those that belong to the writing of a flow: what its contracts
/// effect, how it is served, how its nodes work, or the name of a part of a flow.
pub open spec fn extension_is_sound(extension: Seq<char>) -> bool {
    ||| "humanize.contract_effects:"@.is_prefix_of(extension)
    ||| "humanize.flow_qos:"@.is_prefix_of(extension)
    ||| "humanize.work_profile:"@.is_prefix_of(extension)
    ||| seq![
        "Node"@,
        "Contract"@,
        "Artifact"@,
        "Board"@,
        "Route"@,
        "Event"@,
        "Resource"@,
        "Import"@,
        "Policy"@,
    ].contains(extension)
}

/// A node names a contract of the flow or none; no script carries it out; its prompt is a prompt of
/// the flow, its resources are resources of the flow, and its verdict has a name.
pub open spec fn node_is_sound(d: FlowDraftView, node: FlowNodeView) -> bool {
    &&& node.contract_id matches Some(id) ==> exists|c: int|
        0 <= c < d.contracts.len() && (#[trigger] d.contracts[c]).id == id
    &&& forall|k: int|
        0 <= k < node.extensions.len() ==> extension_is_sound(#[trigger] node.extensions[k])
    &&& node.action matches Some(action) ==> {
        &&& action.driver != NodeDriver::Script
        &&& action.prompt_ref matches Some(id) ==> exists|r: int|
            0 <= r < d.resources.len() && (#[trigger] d.resources[r]).id == id
                && d.resources[r].kind == ResourceKind::Prompt
        &&& forall|k: int|
            0 <= k < action.resource_refs.len() ==> exists|r: int|
                0 <= r < d.resources.len() && (#[trigger] d.resources[r]).id == (
                #[trigger] action.resource_refs[k])
        &&& action.verdict_artifact matches Some(verdict) ==> !is_blank(verdict)
    }
}

/// No scope reaches beyond one artifact or resource.
pub open spec fn scopes_are_narrow(scopes: Seq<WriteScopeView>) -> bool {
    forall|k: int|
        0 <= k < scopes.len() ==> (#[trigger] scopes[k] is Artifact || scopes[k] is Resource)
}

proof fn lemma_ids_pass_when_sound(d: FlowDraftView)
    ensures
        (passes(super::check::all_node_id_findings(d, d.nodes.len() as int)) && passes(
            super::check::all_contract_id_findings(d, d.contracts.len() as int),
        )) <==> ids_are_sound(d),
{
    lemma_each_node_id(d, d.nodes.len() as int);
    lemma_each_contract_id(d, d.contracts.len() as int);
    assert forall|i: int| 0 <= i < d.nodes.len() implies passes(#[trigger] node_id_findings(d, i))
        == !node_id_repeats(d, i) by {
        if node_id_repeats(d, i) {
            assert(node_id_findings(d, i)[0].severity.blocks());
        }
    }
    assert forall|i: int| 0 <= i < d.contracts.len() implies passes(
        #[trigger] contract_id_findings(d, i),
    ) == (!contract_id_repeats(d, i) && forall|k: int|
        0 <= k < d.contracts[i].artifacts.len() ==> !#[trigger] super::check::artifact_id_repeats(
            d.contracts[i],
            k,
        )) by {
        let n = d.contracts[i].artifacts.len() as int;
        let tail = super::check::artifact_id_findings(d.contracts[i], i, n);
        lemma_each_artifact_id(d.contracts[i], i, n);
        let all = contract_id_findings(d, i);
        let head = all.take(all.len() - tail.len());
        if contract_id_repeats(d, i) {
            assert(all[0].severity.blocks());
        } else {
            assert(all =~= tail);
        }
    }
    if ids_are_sound(d) {
        assert forall|i: int| 0 <= i < d.nodes.len() implies passes(
            #[trigger] node_id_findings(d, i),
        ) by {
            assert(!node_id_repeats(d, i));
        }
        assert forall|i: int| 0 <= i < d.contracts.len() implies passes(
            #[trigger] contract_id_findings(d, i),
        ) by {
            assert(!contract_id_repeats(d, i));
        }
    } else if passes(super::check::all_node_id_findings(d, d.nodes.len() as int)) && passes(
        super::check::all_contract_id_findings(d, d.contracts.len() as int),
    ) {
        assert forall|i: int, j: int| 0 <= i < j < d.nodes.len() implies (#[trigger] d.nodes[i]).id
            != (#[trigger] d.nodes[j]).id by {
            assert(passes(node_id_findings(d, j)));
        }
        assert forall|i: int, j: int| 0 <= i < j < d.contracts.len() implies (
        #[trigger] d.contracts[i]).id != (#[trigger] d.contracts[j]).id by {
            assert(passes(contract_id_findings(d, j)));
        }
        assert forall|c: int, i: int, j: int|
            0 <= c < d.contracts.len() && 0 <= i < j < d.contracts[c].artifacts.len() implies (
        #[trigger] d.contracts[c].artifacts[i]).id != (
        #[trigger] d.contracts[c].artifacts[j]).id by {
            assert(passes(contract_id_findings(d, c)));
            assert(!super::check::artifact_id_repeats(d.contracts[c], j));
        }
    }
}

proof fn lemma_resources_pass_when_sound(d: FlowDraftView)
    ensures
        (passes(super::check::all_resource_findings(d, d.resources.len() as int)) && passes(
            super::check::all_import_findings(d, d.imports.len() as int),
        )) <==> resources_are_sound(d),
{
    lemma_each_resource(d, d.resources.len() as int);
    lemma_each_import(d, d.imports.len() as int);
    assert forall|i: int| 0 <= i < d.resources.len() implies passes(
        #[trigger] resource_findings(d, i),
    ) == (!resource_path_repeats(d, i) && {
        let resource = d.resources[i];
        &&& resource.id.len() > 0
        &&& resource.id != "flow.json"@
        &&& only_names(resource.id)
        &&& resource.kind == ResourceKind::Readme <==> resource.id == "README.md"@
        &&& resource.kind == ResourceKind::Skill ==> is_skill_path(resource.id)
    }) by {
        lemma_resource_parts(d, i);
    }
    assert forall|i: int| 0 <= i < d.imports.len() implies passes(#[trigger] import_findings(d, i))
        == has_resource(d, d.imports[i].resource_id) by {
        if !has_resource(d, d.imports[i].resource_id) {
            assert(import_findings(d, i)[0].severity.blocks());
        }
    }
    if resources_are_sound(d) {
        assert forall|i: int| 0 <= i < d.resources.len() implies passes(
            #[trigger] resource_findings(d, i),
        ) by {
            assert(d.resources[i].id.len() > 0);
            assert(!resource_path_repeats(d, i));
        }
        assert forall|i: int| 0 <= i < d.imports.len() implies passes(
            #[trigger] import_findings(d, i),
        ) by {
            assert(d.imports[i].resource_id == d.imports[i].resource_id);
        }
    } else if passes(super::check::all_resource_findings(d, d.resources.len() as int)) && passes(
        super::check::all_import_findings(d, d.imports.len() as int),
    ) {
        assert forall|i: int, j: int| 0 <= i < j < d.resources.len() implies (
        #[trigger] d.resources[i]).id != (#[trigger] d.resources[j]).id by {
            assert(passes(resource_findings(d, j)));
        }
        assert forall|i: int| 0 <= i < d.resources.len() implies {
            let resource = #[trigger] d.resources[i];
            &&& resource.id.len() > 0
            &&& resource.id != "flow.json"@
            &&& only_names(resource.id)
            &&& resource.kind == ResourceKind::Readme <==> resource.id == "README.md"@
            &&& resource.kind == ResourceKind::Skill ==> is_skill_path(resource.id)
        } by {
            assert(passes(resource_findings(d, i)));
        }
        assert forall|i: int| 0 <= i < d.imports.len() implies exists|r: int|
            0 <= r < d.resources.len() && (#[trigger] d.resources[r]).id == (
            #[trigger] d.imports[i]).resource_id by {
            assert(passes(import_findings(d, i)));
        }
    }
}

proof fn lemma_extension_is_sound(extension: Seq<char>)
    ensures
        is_authoring_extension(extension) == extension_is_sound(extension),
{
    let kinds = seq![
        "Node"@,
        "Contract"@,
        "Artifact"@,
        "Board"@,
        "Route"@,
        "Event"@,
        "Resource"@,
        "Import"@,
        "Policy"@,
    ];
    if is_authoring_extension(extension) && !kinds.contains(extension) {
        assert(kinds[0] == "Node"@);
        assert(kinds[1] == "Contract"@);
        assert(kinds[2] == "Artifact"@);
        assert(kinds[3] == "Board"@);
        assert(kinds[4] == "Route"@);
        assert(kinds[5] == "Event"@);
        assert(kinds[6] == "Resource"@);
        assert(kinds[7] == "Import"@);
        assert(kinds[8] == "Policy"@);
    }
}

proof fn lemma_readme_passes_when_sound(d: FlowDraftView)
    ensures
        passes(readme_findings(d)) <==> readme_is_sound(d),
{
    let findings = readme_findings(d);
    assert(findings.len() > 0 ==> findings[0].severity.blocks());
    if d.extensions.len() == 0 {
        assert(draft_qos(d.extensions) == QosView::standard());
    }
}

proof fn lemma_routes_pass_when_sound(d: FlowDraftView)
    ensures
        passes(super::check::all_route_findings(d, d.routes.len() as int)) <==> routes_are_sound(d),
{
    lemma_each_route(d, d.routes.len() as int);
    assert forall|i: int| 0 <= i < d.routes.len() implies passes(#[trigger] route_findings(d, i))
        == (has_node(d, d.routes[i].activate) && forall|k: int|
        0 <= k < i ==> route_identity(#[trigger] d.routes[k]) != route_identity(d.routes[i])) by {
        let a = route_repeat_finding(d, i);
        let b = route_target_finding(d, i);
        lemma_passes_add(a, b);
        lemma_no_route_before(d.routes, route_identity(d.routes[i]), i);
        assert(a.len() > 0 ==> a[0].severity.blocks());
        assert(b.len() > 0 ==> b[0].severity.blocks());
    }
    if routes_are_sound(d) {
        assert forall|i: int| 0 <= i < d.routes.len() implies passes(
            #[trigger] route_findings(d, i),
        ) by {
            assert(d.routes[i].activate == d.routes[i].activate);
        }
    } else if passes(super::check::all_route_findings(d, d.routes.len() as int)) {
        assert forall|r: int| 0 <= r < d.routes.len() implies exists|n: int|
            0 <= n < d.nodes.len() && (#[trigger] d.nodes[n]).id == (
            #[trigger] d.routes[r]).activate by {
            assert(passes(route_findings(d, r)));
        }
        assert forall|i: int, j: int| 0 <= i < j < d.routes.len() implies route_identity(
            #[trigger] d.routes[i],
        ) != route_identity(#[trigger] d.routes[j]) by {
            assert(passes(route_findings(d, j)));
        }
    }
}

proof fn lemma_contracts_pass_when_sound(d: FlowDraftView)
    ensures
        passes(super::check::all_contract_findings(d, d.contracts.len() as int))
            <==> contracts_are_sound(d),
{
    lemma_each_contract(d, d.contracts.len() as int);
    assert forall|i: int| 0 <= i < d.contracts.len() implies passes(
        #[trigger] contract_findings(d, i),
    ) == (d.contracts[i].completion is Some && forall|k: int|
        0 <= k < d.contracts[i].artifacts.len() ==> has_own_schema(
            d,
            #[trigger] d.contracts[i].artifacts[k],
        )) by {
        let n = d.contracts[i].artifacts.len() as int;
        let a = completion_finding(d.contracts[i]);
        lemma_passes_add(a, schema_findings(d, d.contracts[i], n));
        lemma_each_schema(d, d.contracts[i], n);
        assert(a.len() > 0 ==> a[0].severity.blocks());
    }
    if contracts_are_sound(d) {
        assert forall|i: int| 0 <= i < d.contracts.len() implies passes(
            #[trigger] contract_findings(d, i),
        ) by {
            assert(d.contracts[i].completion is Some);
            assert forall|k: int| 0 <= k < d.contracts[i].artifacts.len() implies has_own_schema(
                d,
                #[trigger] d.contracts[i].artifacts[k],
            ) by {
                let r = choose|r: int|
                    0 <= r < d.resources.len() && (#[trigger] d.resources[r]).kind
                        == ResourceKind::Schema && d.contracts[i].artifacts[k].schema_resource_id
                        == Some(d.resources[r].id);
                assert(d.resources[r].kind == ResourceKind::Schema);
            }
        }
    } else if passes(super::check::all_contract_findings(d, d.contracts.len() as int)) {
        assert forall|c: int| 0 <= c < d.contracts.len() implies (
        #[trigger] d.contracts[c]).completion is Some by {
            assert(passes(contract_findings(d, c)));
        }
        assert forall|c: int, k: int|
            0 <= c < d.contracts.len() && 0 <= k
                < d.contracts[c].artifacts.len() implies exists|r: int|
            0 <= r < d.resources.len() && (#[trigger] d.resources[r]).kind == ResourceKind::Schema
                && (#[trigger] d.contracts[c].artifacts[k]).schema_resource_id == Some(
                d.resources[r].id,
            ) by {
            assert(passes(contract_findings(d, c)));
            assert(has_own_schema(d, d.contracts[c].artifacts[k]));
        }
    }
}

proof fn lemma_extensions_pass_when_sound(d: FlowDraftView)
    ensures
        passes(super::check::all_extension_findings(d, d.extensions.len() as int)) <==> (forall|
            k: int,
        |
            0 <= k < d.extensions.len() ==> extension_is_sound(#[trigger] d.extensions[k])),
{
    lemma_each_extension(d, d.extensions.len() as int);
    assert forall|i: int| 0 <= i < d.extensions.len() implies passes(
        #[trigger] extension_findings(d, i),
    ) == extension_is_sound(d.extensions[i]) by {
        lemma_extension_is_sound(d.extensions[i]);
        if !is_authoring_extension(d.extensions[i]) {
            assert(extension_findings(d, i)[0].severity.blocks());
        }
    }
    if passes(super::check::all_extension_findings(d, d.extensions.len() as int)) {
        assert forall|k: int| 0 <= k < d.extensions.len() implies extension_is_sound(
            #[trigger] d.extensions[k],
        ) by {
            assert(passes(extension_findings(d, k)));
        }
    }
}

proof fn lemma_prompt_is_sound(d: FlowDraftView, id: Seq<char>)
    requires
        paths_differ(d.resources),
    ensures
        (kind_of(d, id) == Some(ResourceKind::Prompt)) <==> (exists|r: int|
            0 <= r < d.resources.len() && (#[trigger] d.resources[r]).id == id
                && d.resources[r].kind == ResourceKind::Prompt),
{
    lemma_kind_is_that_of(d.resources, id, d.resources.len() as int);
}

proof fn lemma_node_passes_when_sound(d: FlowDraftView, i: int)
    requires
        paths_differ(d.resources),
        0 <= i < d.nodes.len(),
    ensures
        passes(super::check::node_findings(d, i)) <==> node_is_sound(d, d.nodes[i]),
{
    lemma_node_parts(d, i);
    let node = d.nodes[i];
    assert forall|k: int| 0 <= k < node.extensions.len() implies extension_is_sound(
        #[trigger] node.extensions[k],
    ) == is_authoring_extension(node.extensions[k]) by {
        lemma_extension_is_sound(node.extensions[k]);
    }
    match node.contract_id {
        Some(id) => {
            assert((node_contract_finding(d, node).len() == 0) == has_contract(d, id));
        },
        None => {},
    }
    match node.action {
        Some(action) => {
            match action.prompt_ref {
                Some(id) => {
                    lemma_prompt_is_sound(d, id);
                    assert((prompt_finding(d, node, action).len() == 0) == (kind_of(d, id) == Some(
                        ResourceKind::Prompt,
                    )));
                },
                None => {},
            }
            assert forall|k: int| 0 <= k < action.resource_refs.len() implies has_resource(
                d,
                #[trigger] action.resource_refs[k],
            ) == (exists|r: int|
                0 <= r < d.resources.len() && (#[trigger] d.resources[r]).id == (
                action.resource_refs[k])) by {
            }
            if node_is_sound(d, node) {
                assert forall|k: int| 0 <= k < action.resource_refs.len() implies has_resource(
                    d,
                    #[trigger] action.resource_refs[k],
                ) by {
                }
            }
        },
        None => {},
    }
}

/// Whether the nodes of a flow can be worked on.
pub open spec fn nodes_are_sound(d: FlowDraftView) -> bool {
    forall|n: int| 0 <= n < d.nodes.len() ==> node_is_sound(d, #[trigger] d.nodes[n])
}

proof fn lemma_nodes_pass_when_sound(d: FlowDraftView)
    requires
        paths_differ(d.resources),
    ensures
        passes(super::check::all_node_findings(d, d.nodes.len() as int)) <==> nodes_are_sound(d),
{
    lemma_each_node(d, d.nodes.len() as int);
    assert forall|i: int| 0 <= i < d.nodes.len() implies passes(
        #[trigger] super::check::node_findings(d, i),
    ) == node_is_sound(d, d.nodes[i]) by {
        lemma_node_passes_when_sound(d, i);
    }
    if passes(super::check::all_node_findings(d, d.nodes.len() as int)) {
        assert forall|n: int| 0 <= n < d.nodes.len() implies node_is_sound(
            d,
            #[trigger] d.nodes[n],
        ) by {
            assert(passes(super::check::node_findings(d, n)));
        }
    }
}

proof fn lemma_scopes_pass_when_narrow(d: FlowDraftView, mode: FlowCheckMode)
    ensures
        (passes(
            super::check::scope_findings(
                d.policies.write_scopes,
                mode,
                "policies.write_scopes["@,
                d.policies.write_scopes.len() as int,
            ),
        ) && passes(super::check::all_node_scope_findings(d, mode, d.nodes.len() as int))) <==> (
        mode == FlowCheckMode::Strict ==> scopes_are_narrow(d.policies.write_scopes) && forall|
            n: int,
        |
            0 <= n < d.nodes.len() ==> scopes_are_narrow((#[trigger] d.nodes[n]).write_scopes)),
{
    let policy = d.policies.write_scopes;
    lemma_each_scope(policy, mode, "policies.write_scopes["@, policy.len() as int);
    lemma_each_node_scope(d, mode, d.nodes.len() as int);
    assert forall|i: int| 0 <= i < d.nodes.len() implies passes(
        #[trigger] super::check::node_scope_findings(d, mode, i),
    ) == (mode == FlowCheckMode::Core || scopes_are_narrow(d.nodes[i].write_scopes)) by {
        lemma_each_scope(
            d.nodes[i].write_scopes,
            mode,
            "nodes["@ + d.nodes[i].id + "].write_scopes["@,
            d.nodes[i].write_scopes.len() as int,
        );
        lemma_narrow(d.nodes[i].write_scopes);
    }
    lemma_narrow(policy);
    if passes(super::check::all_node_scope_findings(d, mode, d.nodes.len() as int)) && mode
        == FlowCheckMode::Strict {
        assert forall|n: int| 0 <= n < d.nodes.len() implies scopes_are_narrow(
            (#[trigger] d.nodes[n]).write_scopes,
        ) by {
            assert(passes(super::check::node_scope_findings(d, mode, n)));
        }
    }
}

proof fn lemma_narrow(scopes: Seq<WriteScopeView>)
    ensures
        scopes_are_narrow(scopes) <==> (forall|k: int|
            0 <= k < scopes.len() ==> !(#[trigger] scopes[k]).is_broad()),
{
    if forall|k: int| 0 <= k < scopes.len() ==> !(#[trigger] scopes[k]).is_broad() {
        assert forall|k: int| 0 <= k < scopes.len() implies (#[trigger] scopes[k] is Artifact
            || scopes[k] is Resource) by {
            assert(!scopes[k].is_broad());
        }
    }
}

/// A flow passes its check, and so can be locked, exactly where it is sound: where its ids and
/// paths are its own, all that it refers to is there and of the right kind, it says what it is for,
/// it promises no blank target, and it holds nothing that does not belong to the writing of a flow.
/// Only the strict check asks for narrow scopes too.
pub proof fn lemma_flows_pass_exactly_when_sound(d: FlowDraftView, mode: FlowCheckMode)
    ensures
        !any_blocks(check_findings(d, mode)) <==> {
            &&& ids_are_sound(d)
            &&& resources_are_sound(d)
            &&& readme_is_sound(d)
            &&& draft_qos(d.extensions).completion_target matches Some(target) ==> !is_blank(target)
            &&& routes_are_sound(d)
            &&& contracts_are_sound(d)
            &&& forall|k: int|
                0 <= k < d.extensions.len() ==> extension_is_sound(#[trigger] d.extensions[k])
            &&& nodes_are_sound(d)
            &&& mode == FlowCheckMode::Strict ==> scopes_are_narrow(d.policies.write_scopes)
                && forall|n: int|
                0 <= n < d.nodes.len() ==> scopes_are_narrow((#[trigger] d.nodes[n]).write_scopes)
        },
{
    lemma_parts(d, mode);
    lemma_ids_pass_when_sound(d);
    lemma_resources_pass_when_sound(d);
    lemma_readme_passes_when_sound(d);
    lemma_routes_pass_when_sound(d);
    lemma_contracts_pass_when_sound(d);
    lemma_extensions_pass_when_sound(d);
    lemma_scopes_pass_when_narrow(d, mode);
    let qos = super::check::qos_findings(d);
    assert(qos.len() > 0 ==> qos[0].severity.blocks());
    if resources_are_sound(d) {
        assert(paths_differ(d.resources));
        lemma_nodes_pass_when_sound(d);
    }
}

proof fn lemma_fact_texts_differ(a: FactView, b: FactView)
    ensures
        a.text() == b.text() ==> a == b,
{
    reveal_strlit("artifact");
    reveal_strlit("board");
    reveal_strlit(".");
    if a.text() == b.text() {
        assert("artifact"@[0] == 'a');
        assert("board"@[0] == 'b');
        match (a, b) {
            (FactView::Artifact { key: x }, FactView::Artifact { key: y }) => {
                assert(a.text().skip(9) =~= x);
                assert(b.text().skip(9) =~= y);
            },
            (FactView::Board { key: x }, FactView::Board { key: y }) => {
                assert(a.text().skip(6) =~= x);
                assert(b.text().skip(6) =~= y);
            },
            (FactView::Artifact { .. }, FactView::Board { .. }) => {
                assert(a.text()[0] == 'a');
                assert(b.text()[0] == 'b');
            },
            (FactView::Board { .. }, FactView::Artifact { .. }) => {
                assert(a.text()[0] == 'b');
                assert(b.text()[0] == 'a');
            },
        }
    }
}

/// Two predicates are written alike only if they are the same.
pub proof fn lemma_predicate_texts_tell_predicates(a: PredicateView, b: PredicateView)
    requires
        a.text() == b.text(),
    ensures
        a == b,
{
    reveal_strlit("exists(");
    reveal_strlit("truthy(");
    reveal_strlit(")");
    assert("exists("@[0] == 'e');
    assert("truthy("@[0] == 't');
    let x = a.fact().text();
    let y = b.fact().text();
    assert(a.text()[0] == b.text()[0]);
    assert(a is Exists == (a.text()[0] == 'e'));
    assert(b is Exists == (b.text()[0] == 'e'));
    assert(a.text().len() == x.len() + 8);
    assert(b.text().len() == y.len() + 8);
    assert(a.text().subrange(7, 7 + x.len() as int) =~= x);
    assert(b.text().subrange(7, 7 + y.len() as int) =~= y);
    lemma_fact_texts_differ(a.fact(), b.fact());
}

proof fn lemma_ranges_differ(a: FlowRouteView, b: FlowRouteView)
    requires
        for_each_text(a) == for_each_text(b),
    ensures
        a.for_each == b.for_each,
{
    reveal_strlit("artifact.");
    match (a.for_each, b.for_each) {
        (Some(x), Some(y)) => {
            assert(for_each_text(a).skip(9) =~= x);
            assert(for_each_text(b).skip(9) =~= y);
        },
        (Some(x), None) => {
            assert(for_each_text(a).len() > 0);
        },
        (None, Some(y)) => {
            assert(for_each_text(b).len() > 0);
        },
        (None, None) => {},
    }
}

/// The predicate of a route, the artifact that it ranges over and its target, each with its length
/// before it.
pub open spec fn route_bytes(route: FlowRouteView) -> Seq<u8> {
    framed_all(seq![route.predicate.text(), for_each_text(route), route.activate])
}

/// The identity of a route is a digest of bytes that tell the route: two routes have the same bytes
/// exactly if they have the same predicate, range over the same artifact or none, and lead to the
/// same node.
pub proof fn lemma_route_bytes_tell_routes(a: FlowRouteView, b: FlowRouteView)
    requires
        encode_utf8(a.predicate.text()).len() <= u64::MAX,
        encode_utf8(for_each_text(a)).len() <= u64::MAX,
        encode_utf8(a.activate).len() <= u64::MAX,
        encode_utf8(b.predicate.text()).len() <= u64::MAX,
        encode_utf8(for_each_text(b)).len() <= u64::MAX,
        encode_utf8(b.activate).len() <= u64::MAX,
    ensures
        route_identity(a) == "route-sha256:"@ + sha256_hex(route_bytes(a)),
        route_identity(b) == "route-sha256:"@ + sha256_hex(route_bytes(b)),
        route_bytes(a) == route_bytes(b) <==> (a.predicate == b.predicate && a.for_each == b.for_each
            && a.activate == b.activate),
{
    let x = seq![a.predicate.text(), for_each_text(a), a.activate];
    let y = seq![b.predicate.text(), for_each_text(b), b.activate];
    if framed_all(x) == framed_all(y) {
        lemma_frames_tell_texts(x, y);
        assert(x[0] == y[0]);
        assert(x[1] == y[1]);
        assert(x[2] == y[2]);
        lemma_predicate_texts_tell_predicates(a.predicate, b.predicate);
        lemma_ranges_differ(a, b);
    }
}

/// A route is reported as a duplicate exactly where an earlier one has the same predicate, ranges
/// over the same artifact or none, and leads to the same node, as long as the digest tells the bytes
/// of the routes apart.
pub proof fn lemma_duplicate_routes_are_the_same(d: FlowDraftView, i: int)
    requires
        0 <= i < d.routes.len(),
        forall|j: int|
            0 <= j <= i ==> {
                &&& encode_utf8((#[trigger] d.routes[j]).predicate.text()).len() <= u64::MAX
                &&& encode_utf8(for_each_text(d.routes[j])).len() <= u64::MAX
                &&& encode_utf8(d.routes[j].activate).len() <= u64::MAX
            },
        forall|j: int|
            0 <= j < i && sha256_hex(route_bytes(#[trigger] d.routes[j])) == sha256_hex(
                route_bytes(d.routes[i]),
            ) ==> route_bytes(d.routes[j]) == route_bytes(d.routes[i]),
    ensures
        route_repeat_finding(d, i).len() > 0 <==> exists|j: int|
            0 <= j < i && (#[trigger] d.routes[j]).predicate == d.routes[i].predicate
                && d.routes[j].for_each == d.routes[i].for_each && d.routes[j].activate
                == d.routes[i].activate,
        route_repeat_finding(d, i).len() > 0 ==> route_repeat_finding(d, i)[0].code
            == "FLOW_DUPLICATE_ROUTE"@,
{
    lemma_no_route_before(d.routes, route_identity(d.routes[i]), i);
    assert forall|j: int| 0 <= j < i implies (route_identity(#[trigger] d.routes[j])
        == route_identity(d.routes[i])) == (d.routes[j].predicate == d.routes[i].predicate
        && d.routes[j].for_each == d.routes[i].for_each && d.routes[j].activate
        == d.routes[i].activate) by {
        lemma_route_bytes_tell_routes(d.routes[j], d.routes[i]);
        let x = route_bytes(d.routes[j]);
        let y = route_bytes(d.routes[i]);
        if route_identity(d.routes[j]) == route_identity(d.routes[i]) {
            let head = "route-sha256:"@;
            assert((head + sha256_hex(x)).skip(head.len() as int) =~= sha256_hex(x));
            assert((head + sha256_hex(y)).skip(head.len() as int) =~= sha256_hex(y));
            assert(x == y);
        }
    }
}

} // verus!
