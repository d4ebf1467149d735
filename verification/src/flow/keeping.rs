//! What canonical form keeps of a flow, and what a repair makes of its findings.
use vstd::prelude::*;

use crate::order::{
    lemma_same_elements, lemma_sorted, lemma_sorted_set_elements, lemma_sorted_set_idempotent,
    sorted, text_le,
};
use crate::text::is_blank;

use super::canonical::{
    canonical, canonical_contract, canonical_contracts, canonical_node, canonical_nodes,
};
use super::diagnostic::{DiagnosticView, RepairKind, Repairability, Severity};
use super::model::{
    ContractArtifact, FlowContract, FlowDraftView, FlowImport, FlowNode, FlowNodeView, FlowResource,
    FlowRoute, WriteScope,
};
use super::repair::{candidates, kept_findings, node_candidates, target_candidates, CandidateView};

verus! {

broadcast use vstd::string::group_string_axioms;

/// Canonical form neither adds nor loses anything: routes and resources are those of the flow, as
/// often as they are in it, and its imports, scopes and extensions are those of the flow, each once.
pub proof fn lemma_canonical_form_keeps_parts(d: FlowDraftView)
    ensures
        canonical(d).routes.to_multiset() == d.routes.to_multiset(),
        canonical(d).resources.to_multiset() == d.resources.to_multiset(),
        forall|x| #[trigger] canonical(d).imports.contains(x) <==> d.imports.contains(x),
        forall|x|
            #[trigger] canonical(d).policies.write_scopes.contains(x)
                <==> d.policies.write_scopes.contains(x),
        forall|x| #[trigger] canonical(d).extensions.contains(x) <==> d.extensions.contains(x),
        canonical(d).nodes.len() == d.nodes.len(),
        canonical(d).contracts.len() == d.contracts.len(),
{
    lemma_sorted::<FlowRoute>(d.routes);
    lemma_sorted::<FlowResource>(d.resources);
    lemma_sorted_set_elements::<FlowImport>(d.imports);
    lemma_sorted_set_elements::<WriteScope>(d.policies.write_scopes);
    lemma_sorted_set_elements::<String>(d.extensions);
    lemma_sorted::<FlowNode>(canonical_nodes(d.nodes));
    lemma_sorted::<FlowContract>(canonical_contracts(d.contracts));
}

/// Whether two nodes say the same, in whatever order and however often.
pub open spec fn same_node(a: FlowNodeView, b: FlowNodeView) -> bool {
    &&& a.id == b.id
    &&& a.contract_id == b.contract_id
    &&& forall|x| #[trigger] a.write_scopes.contains(x) <==> b.write_scopes.contains(x)
    &&& forall|x| #[trigger] a.extensions.contains(x) <==> b.extensions.contains(x)
    &&& (a.action is Some <==> b.action is Some)
    &&& a.action is Some ==> {
        let x = a.action->0;
        let y = b.action->0;
        &&& x.driver == y.driver
        &&& x.prompt_ref == y.prompt_ref
        &&& x.verdict_artifact == y.verdict_artifact
        &&& forall|t| #[trigger] x.resource_refs.contains(t) <==> y.resource_refs.contains(t)
        &&& forall|t| #[trigger] x.reads.contains(t) <==> y.reads.contains(t)
        &&& forall|t| #[trigger] x.writes.contains(t) <==> y.writes.contains(t)
    }
}

proof fn lemma_canonical_node_says_the_same(node: FlowNodeView)
    ensures
        same_node(node, canonical_node(node)),
{
    lemma_sorted_set_elements::<WriteScope>(node.write_scopes);
    lemma_sorted_set_elements::<String>(node.extensions);
    match node.action {
        Some(action) => {
            lemma_sorted_set_elements::<String>(action.resource_refs);
            lemma_sorted_set_elements::<String>(action.reads);
            lemma_sorted_set_elements::<String>(action.writes);
        },
        None => {},
    }
}

/// Every node is in canonical form and says there what it says in the flow.
pub proof fn lemma_canonical_form_keeps_nodes(d: FlowDraftView, i: int) -> (k: int)
    requires
        0 <= i < d.nodes.len(),
    ensures
        0 <= k < canonical(d).nodes.len(),
        same_node(d.nodes[i], canonical(d).nodes[k]),
{
    let all = canonical_nodes(d.nodes);
    lemma_sorted::<FlowNode>(all);
    lemma_same_elements(sorted::<FlowNode>(all), all);
    assert(all[i] == canonical_node(d.nodes[i]));
    assert(all.contains(all[i]));
    lemma_canonical_node_says_the_same(d.nodes[i]);
    choose|k: int| 0 <= k < canonical(d).nodes.len() && canonical(d).nodes[k] == all[i]
}

/// Every node in canonical form is a node of the flow.
pub proof fn lemma_canonical_nodes_come_from_the_flow(d: FlowDraftView, k: int) -> (i: int)
    requires
        0 <= k < canonical(d).nodes.len(),
    ensures
        0 <= i < d.nodes.len(),
        same_node(d.nodes[i], canonical(d).nodes[k]),
{
    let all = canonical_nodes(d.nodes);
    lemma_sorted::<FlowNode>(all);
    lemma_same_elements(sorted::<FlowNode>(all), all);
    assert(sorted::<FlowNode>(all).contains(canonical(d).nodes[k]));
    let i = choose|i: int| 0 <= i < all.len() && all[i] == canonical(d).nodes[k];
    lemma_canonical_node_says_the_same(d.nodes[i]);
    i
}

/// Every contract is in canonical form, under its id, with its rule and its artifacts.
pub proof fn lemma_canonical_form_keeps_contracts(d: FlowDraftView, i: int) -> (k: int)
    requires
        0 <= i < d.contracts.len(),
    ensures
        0 <= k < canonical(d).contracts.len(),
        canonical(d).contracts[k].id == d.contracts[i].id,
        canonical(d).contracts[k].completion == d.contracts[i].completion,
        forall|x|
            #[trigger] canonical(d).contracts[k].artifacts.contains(x)
                <==> d.contracts[i].artifacts.contains(x),
{
    let all = canonical_contracts(d.contracts);
    lemma_sorted::<FlowContract>(all);
    lemma_same_elements(sorted::<FlowContract>(all), all);
    assert(all[i] == canonical_contract(d.contracts[i]));
    assert(all.contains(all[i]));
    lemma_sorted_set_elements::<ContractArtifact>(d.contracts[i].artifacts);
    choose|k: int| 0 <= k < canonical(d).contracts.len() && canonical(d).contracts[k] == all[i]
}

/// In canonical form nodes and contracts stand in the order of their ids.
pub proof fn lemma_canonical_form_is_ordered(d: FlowDraftView)
    ensures
        forall|i: int, j: int|
            0 <= i < j < canonical(d).nodes.len() ==> text_le(
                (#[trigger] canonical(d).nodes[i]).id,
                (#[trigger] canonical(d).nodes[j]).id,
            ),
        forall|i: int, j: int|
            0 <= i < j < canonical(d).contracts.len() ==> text_le(
                (#[trigger] canonical(d).contracts[i]).id,
                (#[trigger] canonical(d).contracts[j]).id,
            ),
        forall|i: int, j: int|
            0 <= i < j < canonical(d).extensions.len() ==> text_le(
                #[trigger] canonical(d).extensions[i],
                #[trigger] canonical(d).extensions[j],
            ),
{
    lemma_sorted::<FlowNode>(canonical_nodes(d.nodes));
    lemma_sorted::<FlowContract>(canonical_contracts(d.contracts));
    lemma_sorted_set_idempotent::<String>(d.extensions);
    assert forall|i: int, j: int| 0 <= i < j < canonical(d).nodes.len() implies text_le(
        (#[trigger] canonical(d).nodes[i]).id,
        (#[trigger] canonical(d).nodes[j]).id,
    ) by {
    }
}

/// A repair keeps all findings that count, in their order, and no other: fatal ones where there
/// are some, and else all but the warnings, or the warnings too where they are asked for.
pub proof fn lemma_repairs_keep_what_counts(
    diagnostics: Seq<DiagnosticView>,
    fatal: bool,
    include_warnings: bool,
)
    ensures
        kept_findings(diagnostics, fatal, include_warnings) == diagnostics.filter(
            |finding: DiagnosticView|
                if fatal {
                    finding.severity == Severity::Fatal
                } else {
                    include_warnings || finding.severity != Severity::Warning
                },
        ),
    decreases diagnostics.len(),
{
    reveal(Seq::filter);
    if diagnostics.len() > 0 {
        lemma_repairs_keep_what_counts(diagnostics.drop_last(), fatal, include_warnings);
    }
}

proof fn lemma_candidate_for_node(nodes: Seq<FlowNodeView>, location: Seq<char>, n: int)
    requires
        0 <= n < nodes.len(),
        !is_blank(nodes[n].id),
    ensures
        node_candidates(nodes, location).contains(
            CandidateView {
                repair_kind: RepairKind::AddRouteTarget,
                location,
                replacement: nodes[n].id,
            },
        ),
    decreases nodes.len(),
{
    let all = node_candidates(nodes, location);
    let wanted = CandidateView {
        repair_kind: RepairKind::AddRouteTarget,
        location,
        replacement: nodes[n].id,
    };
    if n < nodes.len() - 1 {
        assert(nodes.drop_last()[n] == nodes[n]);
        lemma_candidate_for_node(nodes.drop_last(), location, n);
        let front = node_candidates(nodes.drop_last(), location);
        let k = choose|k: int| 0 <= k < front.len() && front[k] == wanted;
        assert(all[k] == wanted);
    } else {
        assert(all[all.len() - 1] == wanted);
    }
}

/// Where no finding is fatal, every node with a name is offered as the target of every route whose
/// target is missing.
pub proof fn lemma_missing_targets_are_offered(
    nodes: Seq<FlowNodeView>,
    diagnostics: Seq<DiagnosticView>,
    f: int,
    n: int,
)
    requires
        0 <= f < diagnostics.len(),
        forall|i: int|
            0 <= i < diagnostics.len() ==> (#[trigger] diagnostics[i]).severity != Severity::Fatal,
        diagnostics[f].code == "FLOW_UNKNOWN_ROUTE_TARGET"@,
        diagnostics[f].severity == Severity::Error,
        diagnostics[f].repairability == Repairability::Candidate,
        diagnostics[f].repair_kinds.contains(RepairKind::AddRouteTarget),
        0 <= n < nodes.len(),
        !is_blank(nodes[n].id),
    ensures
        candidates(nodes, diagnostics).contains(
            CandidateView {
                repair_kind: RepairKind::AddRouteTarget,
                location: diagnostics[f].location,
                replacement: nodes[n].id,
            },
        ),
{
    lemma_target_offered(nodes, diagnostics, f, n);
}

proof fn lemma_target_offered(
    nodes: Seq<FlowNodeView>,
    diagnostics: Seq<DiagnosticView>,
    f: int,
    n: int,
)
    requires
        0 <= f < diagnostics.len(),
        diagnostics[f].code == "FLOW_UNKNOWN_ROUTE_TARGET"@,
        diagnostics[f].severity == Severity::Error,
        diagnostics[f].repairability == Repairability::Candidate,
        diagnostics[f].repair_kinds.contains(RepairKind::AddRouteTarget),
        0 <= n < nodes.len(),
        !is_blank(nodes[n].id),
    ensures
        target_candidates(nodes, diagnostics).contains(
            CandidateView {
                repair_kind: RepairKind::AddRouteTarget,
                location: diagnostics[f].location,
                replacement: nodes[n].id,
            },
        ),
    decreases diagnostics.len(),
{
    let wanted = CandidateView {
        repair_kind: RepairKind::AddRouteTarget,
        location: diagnostics[f].location,
        replacement: nodes[n].id,
    };
    let all = target_candidates(nodes, diagnostics);
    let front = target_candidates(nodes, diagnostics.drop_last());
    if f < diagnostics.len() - 1 {
        assert(diagnostics.drop_last()[f] == diagnostics[f]);
        lemma_target_offered(nodes, diagnostics.drop_last(), f, n);
        let k = choose|k: int| 0 <= k < front.len() && front[k] == wanted;
        assert(all[k] == wanted);
    } else {
        lemma_candidate_for_node(nodes, diagnostics[f].location, n);
        let more = node_candidates(nodes, diagnostics[f].location);
        let k = choose|k: int| 0 <= k < more.len() && more[k] == wanted;
        assert(all[front.len() + k] == wanted);
    }
}

proof fn lemma_candidate_comes_from_node(nodes: Seq<FlowNodeView>, location: Seq<char>, k: int)
    requires
        0 <= k < node_candidates(nodes, location).len(),
    ensures
        node_candidates(nodes, location)[k].location == location,
        node_candidates(nodes, location)[k].repair_kind == RepairKind::AddRouteTarget,
        exists|n: int|
            0 <= n < nodes.len() && (#[trigger] nodes[n]).id == node_candidates(
                nodes,
                location,
            )[k].replacement && !is_blank(nodes[n].id),
    decreases nodes.len(),
{
    let front = node_candidates(nodes.drop_last(), location);
    if k < front.len() {
        lemma_candidate_comes_from_node(nodes.drop_last(), location, k);
        let n = choose|n: int|
            0 <= n < nodes.len() - 1 && (#[trigger] nodes.drop_last()[n]).id
                == front[k].replacement && !is_blank(nodes.drop_last()[n].id);
        assert(nodes[n].id == front[k].replacement);
    } else {
        assert(nodes[nodes.len() - 1].id == nodes.last().id);
    }
}

proof fn lemma_candidate_comes_from_finding(
    nodes: Seq<FlowNodeView>,
    diagnostics: Seq<DiagnosticView>,
    k: int,
)
    requires
        0 <= k < target_candidates(nodes, diagnostics).len(),
    ensures
        exists|f: int|
            0 <= f < diagnostics.len() && (#[trigger] diagnostics[f]).code
                == "FLOW_UNKNOWN_ROUTE_TARGET"@ && diagnostics[f].location == target_candidates(
                nodes,
                diagnostics,
            )[k].location,
        exists|n: int|
            0 <= n < nodes.len() && (#[trigger] nodes[n]).id == target_candidates(
                nodes,
                diagnostics,
            )[k].replacement && !is_blank(nodes[n].id),
    decreases diagnostics.len(),
{
    let front = target_candidates(nodes, diagnostics.drop_last());
    if k < front.len() {
        lemma_candidate_comes_from_finding(nodes, diagnostics.drop_last(), k);
        let f = choose|f: int|
            0 <= f < diagnostics.len() - 1 && (#[trigger] diagnostics.drop_last()[f]).code
                == "FLOW_UNKNOWN_ROUTE_TARGET"@ && diagnostics.drop_last()[f].location
                == front[k].location;
        assert(diagnostics[f].location == front[k].location);
    } else {
        lemma_candidate_comes_from_node(nodes, diagnostics.last().location, k - front.len());
        assert(diagnostics[diagnostics.len() - 1].code == diagnostics.last().code);
    }
}

/// Whatever a repair offers is a node with a name for a route whose target is missing; where a
/// finding is fatal nothing is offered.
pub proof fn lemma_only_nodes_are_offered(
    nodes: Seq<FlowNodeView>,
    diagnostics: Seq<DiagnosticView>,
    k: int,
)
    requires
        0 <= k < candidates(nodes, diagnostics).len(),
    ensures
        forall|i: int|
            0 <= i < diagnostics.len() ==> (#[trigger] diagnostics[i]).severity != Severity::Fatal,
        exists|f: int|
            0 <= f < diagnostics.len() && (#[trigger] diagnostics[f]).code
                == "FLOW_UNKNOWN_ROUTE_TARGET"@ && diagnostics[f].location == candidates(
                nodes,
                diagnostics,
            )[k].location,
        exists|n: int|
            0 <= n < nodes.len() && (#[trigger] nodes[n]).id == candidates(
                nodes,
                diagnostics,
            )[k].replacement && !is_blank(nodes[n].id),
{
    lemma_candidate_comes_from_finding(nodes, diagnostics, k);
}

} // verus!
