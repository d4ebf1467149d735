//! Where a run begins, and what its first agents are told: in terms of the flow itself.
use vstd::prelude::*;

use crate::flow::contract::{
    allowed_scopes, contract_effects, node_contract, ArtifactRequirementView, EffectRequirementView,
    NodeContractView,
};
use crate::flow::model::{FlowDraftView, FlowResourceView, FlowRouteView, NodeActionView};
use crate::flow::owing::{lemma_free_nodes_owe_nothing, lemma_nodes_owe_their_contract};
use crate::flow::profile::node_work_profile;

use super::prompt::{
    bounds_part, bullets, contract_of_node, first_prompt, opening, outputs_part, owed_artifacts,
    owed_effects, resources_part, source_of, sources_of,
};
use super::request::{first_nodes, is_target, spec_of, untargeted};

verus! {

broadcast use vstd::string::group_string_axioms;

proof fn lemma_untargeted_places(
    contracts: Seq<NodeContractView>,
    routes: Seq<FlowRouteView>,
) -> (at: Seq<int>)
    ensures
        at.len() == untargeted(contracts, routes).len(),
        forall|k: int|
            0 <= k < at.len() ==> 0 <= #[trigger] at[k] < contracts.len() && untargeted(
                contracts,
                routes,
            )[k] == spec_of(contracts[at[k]]),
        forall|j: int, k: int| 0 <= j < k < at.len() ==> #[trigger] at[j] < #[trigger] at[k],
        forall|n: int|
            0 <= n < contracts.len() ==> (at.contains(n) <==> (forall|r: int|
                0 <= r < routes.len() ==> (#[trigger] routes[r]).activate != (
                #[trigger] contracts[n]).node_id)),
    decreases contracts.len(),
{
    if contracts.len() == 0 {
        Seq::empty()
    } else {
        let front = contracts.drop_last();
        let last = contracts.len() - 1;
        let before = lemma_untargeted_places(front, routes);
        assert(forall|n: int| 0 <= n < last ==> front[n] == contracts[n]);
        let at = if is_target(routes, contracts.last().node_id) {
            before
        } else {
            before.push(last)
        };
        assert forall|n: int| 0 <= n < contracts.len() implies (at.contains(n) <==> (forall|r: int|
            0 <= r < routes.len() ==> (#[trigger] routes[r]).activate != (
            #[trigger] contracts[n]).node_id)) by {
            if n < last {
                if before.contains(n) {
                    let k = choose|k: int| 0 <= k < before.len() && before[k] == n;
                    assert(at[k] == n);
                }
                if at.contains(n) {
                    let k = choose|k: int| 0 <= k < at.len() && at[k] == n;
                    assert(before[k] == n);
                }
                assert(at.contains(n) == before.contains(n));
                assert(front[n] == contracts[n]);
            } else {
                if is_target(routes, contracts.last().node_id) {
                    assert(!at.contains(last));
                } else {
                    assert(at[at.len() - 1] == last);
                }
            }
        }
        at
    }
}

/// A run starts with the nodes that no route leads to, in the order of the flow, where there are
/// some: each of them, and no other. Only a flow with a route to every one of its nodes starts with
/// all of them. Told are their places in the flow.
pub proof fn lemma_runs_start_where_no_route_leads(draft: FlowDraftView) -> (at: Seq<int>)
    ensures
        at.len() == first_nodes(draft).len(),
        forall|k: int|
            0 <= k < at.len() ==> 0 <= #[trigger] at[k] < draft.nodes.len() && first_nodes(
                draft,
            )[k].id == draft.nodes[at[k]].id,
        forall|j: int, k: int| 0 <= j < k < at.len() ==> #[trigger] at[j] < #[trigger] at[k],
        (exists|n: int|
            0 <= n < draft.nodes.len() && (forall|r: int|
                0 <= r < draft.routes.len() ==> (#[trigger] draft.routes[r]).activate != (
                #[trigger] draft.nodes[n]).id)) ==> forall|n: int|
            0 <= n < draft.nodes.len() ==> (#[trigger] at.contains(n) <==> (forall|r: int|
                0 <= r < draft.routes.len() ==> (#[trigger] draft.routes[r]).activate
                    != draft.nodes[n].id)),
        (forall|n: int|
            0 <= n < draft.nodes.len() ==> exists|r: int|
                0 <= r < draft.routes.len() && (#[trigger] draft.routes[r]).activate == (
                #[trigger] draft.nodes[n]).id) ==> at == Seq::new(draft.nodes.len(), |n: int| n),
{
    let contracts = Seq::new(draft.nodes.len(), |i: int| node_contract(draft, draft.nodes[i]));
    let at = lemma_untargeted_places(contracts, draft.routes);
    assert forall|n: int| 0 <= n < draft.nodes.len() implies (#[trigger] at.contains(n) <==> (
    forall|r: int|
        0 <= r < draft.routes.len() ==> (#[trigger] draft.routes[r]).activate
            != draft.nodes[n].id)) by {
        assert(contracts[n].node_id == draft.nodes[n].id);
    }
    if at.len() > 0 {
        assert(at.contains(at[0]));
        assert(0 <= at[0] < draft.nodes.len());
        at
    } else {
        assert forall|n: int| 0 <= n < draft.nodes.len() implies exists|r: int|
            0 <= r < draft.routes.len() && (#[trigger] draft.routes[r]).activate == (
            #[trigger] draft.nodes[n]).id by {
            assert(!at.contains(n));
        }
        Seq::new(draft.nodes.len(), |n: int| n)
    }
}

/// Where some node is the target of no route, no node that the run starts with is, and that one
/// is among them.
pub proof fn lemma_free_nodes_come_first(draft: FlowDraftView, free: int, k: int, r: int)
    requires
        0 <= free < draft.nodes.len(),
        forall|r: int|
            0 <= r < draft.routes.len() ==> (#[trigger] draft.routes[r]).activate
                != draft.nodes[free].id,
        0 <= k < first_nodes(draft).len(),
        0 <= r < draft.routes.len(),
    ensures
        draft.routes[r].activate != first_nodes(draft)[k].id,
        exists|j: int| 0 <= j < first_nodes(draft).len() && (#[trigger] first_nodes(draft)[j]).id
            == draft.nodes[free].id,
{
    let at = lemma_runs_start_where_no_route_leads(draft);
    let first = first_nodes(draft);
    assert(draft.nodes[free].id == draft.nodes[free].id);
    assert(at.contains(at[k]));
    assert(first[k].id == draft.nodes[at[k]].id);
    assert(at.contains(free));
    let j = choose|j: int| 0 <= j < at.len() && at[j] == free;
    assert(first[j].id == draft.nodes[at[j]].id);
}

proof fn lemma_flatten_push(lines: Seq<Seq<char>>, line: Seq<char>)
    ensures
        lines.push(line).flatten() == lines.flatten() + line,
{
    lines.push(line).lemma_flatten_and_flatten_alt_are_equivalent();
    lines.lemma_flatten_and_flatten_alt_are_equivalent();
    assert(lines.push(line).drop_last() =~= lines);
}

proof fn lemma_bullets_are_lines(head: Seq<char>, items: Seq<Seq<char>>)
    ensures
        bullets(head, items) == Seq::new(items.len(), |k: int| head + items[k]).flatten(),
    decreases items.len(),
{
    let lines = Seq::new(items.len(), |k: int| head + items[k]);
    if items.len() > 0 {
        let front = items.drop_last();
        lemma_bullets_are_lines(head, front);
        let before = Seq::new(front.len(), |k: int| head + front[k]);
        assert(lines =~= before.push(head + items.last()));
        lemma_flatten_push(before, head + items.last());
        assert(bullets(head, front) + head + items.last() =~= bullets(head, front) + (head
            + items.last()));
    } else {
        assert(lines =~= Seq::<Seq<char>>::empty());
        assert(bullets(head, items) =~= lines.flatten());
    }
}

proof fn lemma_all_owed(items: Seq<ArtifactRequirementView>)
    requires
        forall|k: int| 0 <= k < items.len() ==> (#[trigger] items[k]).required,
    ensures
        owed_artifacts(items) == Seq::new(items.len(), |k: int| items[k].id),
    decreases items.len(),
{
    if items.len() > 0 {
        let front = items.drop_last();
        assert forall|k: int| 0 <= k < front.len() implies (#[trigger] front[k]).required by {
            assert(front[k] == items[k]);
        }
        lemma_all_owed(front);
        assert(items.last() == items[items.len() - 1]);
        assert(owed_artifacts(items) =~= Seq::new(items.len(), |k: int| items[k].id));
    } else {
        assert(owed_artifacts(items) =~= Seq::new(items.len(), |k: int| items[k].id));
    }
}

proof fn lemma_required_effects(items: Seq<EffectRequirementView>)
    ensures
        owed_effects(items) == items.filter_map(
            |item: EffectRequirementView| if item.required { Some(item.id) } else { None },
        ),
    decreases items.len(),
{
    let pick = |item: EffectRequirementView| if item.required { Some(item.id) } else { None };
    if items.len() > 0 {
        lemma_required_effects(items.drop_last());
        if items.last().required {
            assert(owed_effects(items) =~= items.drop_last().filter_map(pick) + seq![
                items.last().id,
            ]);
        }
    }
}

proof fn lemma_own_contract(draft: FlowDraftView, n: int, i: int)
    requires
        0 <= i <= n < draft.nodes.len(),
        forall|m: int|
            0 <= m < draft.nodes.len() && m != n ==> (#[trigger] draft.nodes[m]).id
                != draft.nodes[n].id,
    ensures
        contract_of_node(
            Seq::new(draft.nodes.len(), |i: int| node_contract(draft, draft.nodes[i])),
            draft.nodes[n].id,
            i,
        ) == Some(node_contract(draft, draft.nodes[n])),
    decreases n - i,
{
    let contracts = Seq::new(draft.nodes.len(), |i: int| node_contract(draft, draft.nodes[i]));
    assert(contracts[i].node_id == draft.nodes[i].id);
    if i < n {
        lemma_own_contract(draft, n, i + 1);
    }
}

/// The prompt of a node lists as required outputs the artifacts of the contract that the node
/// names, each on a line of its own, then the required effects of that contract, and nothing
/// else.
pub proof fn lemma_prompts_list_what_the_contract_requires(
    draft: FlowDraftView,
    n: int,
    c: int,
    action: NodeActionView,
) -> (around: (Seq<char>, Seq<char>))
    requires
        0 <= n < draft.nodes.len(),
        forall|m: int|
            0 <= m < draft.nodes.len() && m != n ==> (#[trigger] draft.nodes[m]).id
                != draft.nodes[n].id,
        0 <= c < draft.contracts.len(),
        draft.nodes[n].contract_id == Some(draft.contracts[c].id),
        forall|i: int|
            c < i < draft.contracts.len() ==> (#[trigger] draft.contracts[i]).id
                != draft.contracts[c].id,
    ensures
        around.0 == opening(draft.resources, action.prompt_ref) + resources_part(
            sources_of(draft.resources, action.resource_refs),
        ),
        around.1 == bounds_part(
            node_work_profile(draft.nodes[n].extensions),
            allowed_scopes(draft.policies.write_scopes, draft.nodes[n].write_scopes),
        ) + "\n\nDeliver required outputs through Humanize, then exit normally."@,
        ({
            let artifacts = draft.contracts[c].artifacts;
            let effects = contract_effects(draft.extensions, draft.contracts[c].id).filter_map(
                |item: EffectRequirementView| if item.required { Some(item.id) } else { None },
            );
            first_prompt(draft, draft.nodes[n], action) == around.0 + (if artifacts.len() == 0
                && effects.len() == 0 {
                Seq::empty()
            } else {
                "\n\nRequired outputs:"@ + Seq::new(
                    artifacts.len(),
                    |k: int| "\n- Artifact: "@ + artifacts[k].id,
                ).flatten() + Seq::new(
                    effects.len(),
                    |k: int| "\n- Effect: "@ + effects[k],
                ).flatten()
            }) + around.1
        }),
{
    let node = draft.nodes[n];
    let artifacts = draft.contracts[c].artifacts;
    let contract = node_contract(draft, node);
    lemma_own_contract(draft, n, 0);
    lemma_nodes_owe_their_contract(draft, node, c);
    lemma_all_owed(contract.artifact_requirements);
    lemma_required_effects(contract.effect_requirements);
    let ids = owed_artifacts(contract.artifact_requirements);
    let effects = owed_effects(contract.effect_requirements);
    lemma_bullets_are_lines("\n- Artifact: "@, ids);
    lemma_bullets_are_lines("\n- Effect: "@, effects);
    assert(Seq::new(ids.len(), |k: int| "\n- Artifact: "@ + ids[k]) =~= Seq::new(
        artifacts.len(),
        |k: int| "\n- Artifact: "@ + artifacts[k].id,
    ));
    let front = opening(draft.resources, action.prompt_ref) + resources_part(
        sources_of(draft.resources, action.resource_refs),
    );
    let back = bounds_part(
        node_work_profile(node.extensions),
        allowed_scopes(draft.policies.write_scopes, node.write_scopes),
    ) + "\n\nDeliver required outputs through Humanize, then exit normally."@;
    assert(first_prompt(draft, node, action) =~= front + outputs_part(Some(contract)) + back);
    (front, back)
}

proof fn lemma_line_within(lines: Seq<Seq<char>>, k: int) -> (around: (Seq<char>, Seq<char>))
    requires
        0 <= k < lines.len(),
    ensures
        lines.flatten() == around.0 + lines[k] + around.1,
    decreases lines.len(),
{
    let front = lines.drop_last();
    let last = lines.last();
    assert(lines =~= front.push(last));
    lemma_flatten_push(front, last);
    if k < front.len() {
        let (a, b) = lemma_line_within(front, k);
        assert(lines.flatten() =~= a + lines[k] + (b + last));
        (a, b + last)
    } else {
        assert(lines.flatten() =~= front.flatten() + lines[k] + Seq::<char>::empty());
        (front.flatten(), Seq::empty())
    }
}

/// The prompt of a node names every artifact of the contract that the node names.
pub proof fn lemma_prompts_name_every_artifact(
    draft: FlowDraftView,
    n: int,
    c: int,
    k: int,
    action: NodeActionView,
) -> (around: (Seq<char>, Seq<char>))
    requires
        0 <= n < draft.nodes.len(),
        forall|m: int|
            0 <= m < draft.nodes.len() && m != n ==> (#[trigger] draft.nodes[m]).id
                != draft.nodes[n].id,
        0 <= c < draft.contracts.len(),
        draft.nodes[n].contract_id == Some(draft.contracts[c].id),
        forall|i: int|
            c < i < draft.contracts.len() ==> (#[trigger] draft.contracts[i]).id
                != draft.contracts[c].id,
        0 <= k < draft.contracts[c].artifacts.len(),
    ensures
        first_prompt(draft, draft.nodes[n], action) == around.0 + ("\n- Artifact: "@
            + draft.contracts[c].artifacts[k].id) + around.1,
{
    let (front, back) = lemma_prompts_list_what_the_contract_requires(draft, n, c, action);
    let artifacts = draft.contracts[c].artifacts;
    let effects = contract_effects(draft.extensions, draft.contracts[c].id).filter_map(
        |item: EffectRequirementView| if item.required { Some(item.id) } else { None },
    );
    let lines = Seq::new(artifacts.len(), |k: int| "\n- Artifact: "@ + artifacts[k].id);
    let rest = Seq::new(effects.len(), |k: int| "\n- Effect: "@ + effects[k]).flatten();
    let (a, b) = lemma_line_within(lines, k);
    let x = front + "\n\nRequired outputs:"@ + a;
    let y = b + rest + back;
    assert(first_prompt(draft, draft.nodes[n], action) =~= x + lines[k] + y);
    (x, y)
}

/// The prompt of a node that names no contract of its flow goes from what the node works with to
/// its bounds: nothing is required of it.
pub proof fn lemma_prompts_of_free_nodes_require_nothing(
    draft: FlowDraftView,
    n: int,
    action: NodeActionView,
)
    requires
        0 <= n < draft.nodes.len(),
        forall|m: int|
            0 <= m < draft.nodes.len() && m != n ==> (#[trigger] draft.nodes[m]).id
                != draft.nodes[n].id,
        forall|i: int|
            0 <= i < draft.contracts.len() ==> draft.nodes[n].contract_id != Some(
                (#[trigger] draft.contracts[i]).id,
            ),
    ensures
        first_prompt(draft, draft.nodes[n], action) == opening(draft.resources, action.prompt_ref)
            + resources_part(sources_of(draft.resources, action.resource_refs)) + bounds_part(
            node_work_profile(draft.nodes[n].extensions),
            allowed_scopes(draft.policies.write_scopes, draft.nodes[n].write_scopes),
        ) + "\n\nDeliver required outputs through Humanize, then exit normally."@,
{
    let node = draft.nodes[n];
    lemma_own_contract(draft, n, 0);
    lemma_free_nodes_owe_nothing(draft, node);
    let contract = node_contract(draft, node);
    assert(owed_artifacts(contract.artifact_requirements).len() == 0);
    assert(owed_effects(contract.effect_requirements).len() == 0);
    let front = opening(draft.resources, action.prompt_ref) + resources_part(
        sources_of(draft.resources, action.resource_refs),
    );
    assert(front + outputs_part(Some(contract)) =~= front);
}

proof fn lemma_source_found(resources: Seq<FlowResourceView>, p: int)
    requires
        0 <= p < resources.len(),
        forall|i: int| p < i < resources.len() ==> (#[trigger] resources[i]).id != resources[p].id,
    ensures
        source_of(resources, resources[p].id) == Some(resources[p].source),
    decreases resources.len(),
{
    if p < resources.len() - 1 {
        let front = resources.drop_last();
        assert(resources.last() == resources[resources.len() - 1]);
        assert(front[p] == resources[p]);
        assert forall|i: int| p < i < front.len() implies (#[trigger] front[i]).id
            != front[p].id by {
            assert(front[i] == resources[i]);
        }
        lemma_source_found(front, p);
    }
}

/// A prompt begins with what stands in the resource that the action names as its prompt.
pub proof fn lemma_prompts_begin_with_their_text(
    draft: FlowDraftView,
    n: int,
    p: int,
    action: NodeActionView,
)
    requires
        0 <= n < draft.nodes.len(),
        0 <= p < draft.resources.len(),
        action.prompt_ref == Some(draft.resources[p].id),
        draft.resources[p].source.len() > 0,
        forall|i: int|
            p < i < draft.resources.len() ==> (#[trigger] draft.resources[i]).id
                != draft.resources[p].id,
    ensures
        draft.resources[p].source.is_prefix_of(first_prompt(draft, draft.nodes[n], action)),
{
    lemma_source_found(draft.resources, p);
    assert(opening(draft.resources, action.prompt_ref) == draft.resources[p].source);
    let node = draft.nodes[n];
    let text = draft.resources[p].source;
    assert(first_prompt(draft, node, action).take(text.len() as int) =~= text);
}

proof fn lemma_source_listed(
    resources: Seq<FlowResourceView>,
    ids: Seq<Seq<char>>,
    k: int,
    p: int,
) -> (j: int)
    requires
        0 <= k < ids.len(),
        0 <= p < resources.len(),
        ids[k] == resources[p].id,
        resources[p].source.len() > 0,
        forall|i: int| p < i < resources.len() ==> (#[trigger] resources[i]).id != resources[p].id,
    ensures
        0 <= j < sources_of(resources, ids).len(),
        sources_of(resources, ids)[j] == resources[p].source,
    decreases ids.len(),
{
    if k < ids.len() - 1 {
        assert(ids.drop_last()[k] == ids[k]);
        lemma_source_listed(resources, ids.drop_last(), k, p)
    } else {
        lemma_source_found(resources, p);
        sources_of(resources, ids).len() - 1
    }
}

/// Every resource that an action names, and that holds something, stands in the prompt.
pub proof fn lemma_prompts_hold_their_resources(
    draft: FlowDraftView,
    n: int,
    k: int,
    p: int,
    action: NodeActionView,
) -> (around: (Seq<char>, Seq<char>))
    requires
        0 <= n < draft.nodes.len(),
        0 <= k < action.resource_refs.len(),
        0 <= p < draft.resources.len(),
        action.resource_refs[k] == draft.resources[p].id,
        draft.resources[p].source.len() > 0,
        forall|i: int|
            p < i < draft.resources.len() ==> (#[trigger] draft.resources[i]).id
                != draft.resources[p].id,
    ensures
        first_prompt(draft, draft.nodes[n], action) == around.0 + ("\n- "@
            + draft.resources[p].source) + around.1,
{
    let j = lemma_source_listed(draft.resources, action.resource_refs, k, p);
    let listed = sources_of(draft.resources, action.resource_refs);
    let lines = Seq::new(listed.len(), |k: int| "\n- "@ + listed[k]);
    lemma_bullets_are_lines("\n- "@, listed);
    let (a, b) = lemma_line_within(lines, j);
    let node = draft.nodes[n];
    let contracts = Seq::new(draft.nodes.len(), |i: int| node_contract(draft, draft.nodes[i]));
    let x = opening(draft.resources, action.prompt_ref) + "\n\nResources:"@ + a;
    let y = b + outputs_part(contract_of_node(contracts, node.id, 0)) + bounds_part(
        node_work_profile(node.extensions),
        allowed_scopes(draft.policies.write_scopes, node.write_scopes),
    ) + "\n\nDeliver required outputs through Humanize, then exit normally."@;
    assert(first_prompt(draft, node, action) =~= x + lines[j] + y);
    (x, y)
}

} // verus!
