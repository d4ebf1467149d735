//! What the nodes of a flow owe, in terms of the contracts that they name.
use vstd::prelude::*;

use super::contract::{
    capabilities, contract_effects, contract_named, first_occurrences, lemma_first_occurrences,
    node_contract, CompletionPolicy, StopGate,
};
use super::model::{ContractCompletion, FlowContractView, FlowDraftView, FlowNodeView};

verus! {

/// Of several contracts with one id the last counts.
pub proof fn lemma_last_contract_counts(contracts: Seq<FlowContractView>, c: int)
    requires
        0 <= c < contracts.len(),
        forall|i: int| c < i < contracts.len() ==> (#[trigger] contracts[i]).id != contracts[c].id,
    ensures
        contract_named(contracts, contracts[c].id) == Some(contracts[c]),
    decreases contracts.len(),
{
    if c < contracts.len() - 1 {
        let front = contracts.drop_last();
        assert(front[c] == contracts[c]);
        assert(contracts.last() == contracts[contracts.len() - 1]);
        assert forall|i: int| c < i < front.len() implies (#[trigger] front[i]).id
            != front[c].id by {
            assert(front[i] == contracts[i]);
        }
        lemma_last_contract_counts(front, c);
    }
}

proof fn lemma_no_contract(contracts: Seq<FlowContractView>, id: Seq<char>)
    requires
        forall|i: int| 0 <= i < contracts.len() ==> (#[trigger] contracts[i]).id != id,
    ensures
        contract_named(contracts, id) is None,
    decreases contracts.len(),
{
    if contracts.len() > 0 {
        assert(contracts.last() == contracts[contracts.len() - 1]);
        let front = contracts.drop_last();
        assert forall|i: int| 0 <= i < front.len() implies (#[trigger] front[i]).id != id by {
            assert(front[i] == contracts[i]);
        }
        lemma_no_contract(front, id);
    }
}

/// A node owes every artifact of the contract that it names, in the order of the contract, and no
/// other; it owes the effects that are stated for that contract; and it may stop only with all
/// artifacts where the contract says so.
pub proof fn lemma_nodes_owe_their_contract(draft: FlowDraftView, node: FlowNodeView, c: int)
    requires
        0 <= c < draft.contracts.len(),
        node.contract_id == Some(draft.contracts[c].id),
        forall|i: int|
            c < i < draft.contracts.len() ==> (#[trigger] draft.contracts[i]).id
                != draft.contracts[c].id,
    ensures
        node_contract(draft, node).node_id == node.id,
        node_contract(draft, node).contract_id == Some(draft.contracts[c].id),
        node_contract(draft, node).artifact_requirements.len()
            == draft.contracts[c].artifacts.len(),
        forall|k: int|
            0 <= k < draft.contracts[c].artifacts.len() ==> {
                &&& (#[trigger] node_contract(draft, node).artifact_requirements[k]).id
                    == draft.contracts[c].artifacts[k].id
                &&& node_contract(draft, node).artifact_requirements[k].schema_resource_id
                    == draft.contracts[c].artifacts[k].schema_resource_id
                &&& node_contract(draft, node).artifact_requirements[k].required
            },
        node_contract(draft, node).effect_requirements == contract_effects(
            draft.extensions,
            draft.contracts[c].id,
        ),
        (node_contract(draft, node).stop_gate == StopGate::Required) <==> (
        draft.contracts[c].completion == Some(ContractCompletion::AllArtifacts)),
        (node_contract(draft, node).stop_gate == StopGate::Preferred) <==> (
        draft.contracts[c].completion == Some(ContractCompletion::Manual)),
        (node_contract(draft, node).completion_policy == CompletionPolicy::AllArtifacts) <==> (
        draft.contracts[c].completion == Some(ContractCompletion::AllArtifacts)),
        (node_contract(draft, node).completion_policy == CompletionPolicy::Manual) <==> (
        draft.contracts[c].completion == Some(ContractCompletion::Manual)),
{
    lemma_last_contract_counts(draft.contracts, c);
}

/// A node that names no contract of its flow owes nothing and may stop at any time.
pub proof fn lemma_free_nodes_owe_nothing(draft: FlowDraftView, node: FlowNodeView)
    requires
        forall|i: int|
            0 <= i < draft.contracts.len() ==> node.contract_id != Some(
                (#[trigger] draft.contracts[i]).id,
            ),
    ensures
        node_contract(draft, node).node_id == node.id,
        node_contract(draft, node).artifact_requirements.len() == 0,
        node_contract(draft, node).effect_requirements.len() == 0,
        node_contract(draft, node).stop_gate == StopGate::Absent,
{
    match node.contract_id {
        Some(id) => {
            assert forall|i: int| 0 <= i < draft.contracts.len() implies (
            #[trigger] draft.contracts[i]).id != id by {
                assert(node.contract_id != Some(draft.contracts[i].id));
            }
            lemma_no_contract(draft.contracts, id);
        },
        None => {},
    }
}

/// What a node reads it needs; its prompt and its resources it prefers, the prompt first; and what
/// it writes and its verdict it accepts. Each is listed once.
pub proof fn lemma_actions_tell_what_they_use(draft: FlowDraftView, node: FlowNodeView)
    requires
        node.action is Some,
    ensures
        node_contract(draft, node).required.no_duplicates(),
        node_contract(draft, node).prefers.no_duplicates(),
        node_contract(draft, node).accepts.no_duplicates(),
        forall|x: Seq<char>|
            #[trigger] node_contract(draft, node).required.contains(x) <==> node.action->0.reads.contains(x),
        forall|x: Seq<char>|
            #[trigger] node_contract(draft, node).prefers.contains(x) <==> node.action->0.prompt_ref == Some(
                x,
            ) || node.action->0.resource_refs.contains(x),
        forall|x: Seq<char>|
            #[trigger] node_contract(draft, node).accepts.contains(x) <==> node.action->0.writes.contains(x)
                || node.action->0.verdict_artifact == Some(x),
        node.action->0.prompt_ref matches Some(prompt) ==> node_contract(draft, node).prefers[0]
            == prompt,
{
    let action = node.action->0;
    lemma_first_occurrences(action.reads);
    let preferred = match action.prompt_ref {
        Some(prompt) => seq![prompt] + action.resource_refs,
        None => action.resource_refs,
    };
    lemma_first_occurrences(preferred);
    assert forall|x: Seq<char>| preferred.contains(x) <==> action.prompt_ref == Some(x)
        || action.resource_refs.contains(x) by {
        if action.prompt_ref is Some {
            if action.resource_refs.contains(x) {
                let i = choose|i: int|
                    0 <= i < action.resource_refs.len() && action.resource_refs[i] == x;
                assert(preferred[i + 1] == x);
            }
            if preferred.contains(x) {
                let i = choose|i: int| 0 <= i < preferred.len() && preferred[i] == x;
                if i > 0 {
                    assert(action.resource_refs[i - 1] == x);
                }
            }
            assert(preferred[0] == action.prompt_ref->0);
        }
    }
    if action.prompt_ref is Some {
        lemma_first_stays(preferred);
    }
    let accepted = match action.verdict_artifact {
        Some(verdict) => action.writes.push(verdict),
        None => action.writes,
    };
    lemma_first_occurrences(accepted);
    assert forall|x: Seq<char>| accepted.contains(x) <==> action.writes.contains(x)
        || action.verdict_artifact == Some(x) by {
        if action.verdict_artifact is Some {
            if action.writes.contains(x) {
                let i = choose|i: int| 0 <= i < action.writes.len() && action.writes[i] == x;
                assert(accepted[i] == x);
            }
            if accepted.contains(x) {
                let i = choose|i: int| 0 <= i < accepted.len() && accepted[i] == x;
                if i < action.writes.len() {
                    assert(action.writes[i] == x);
                }
            }
            assert(accepted[accepted.len() - 1] == action.verdict_artifact->0);
        }
    }
    let contract = node_contract(draft, node);
    assert(contract.prefers == first_occurrences(preferred));
    assert(contract.accepts == first_occurrences(accepted));
    assert forall|x: Seq<char>| #[trigger] contract.prefers.contains(x) <==> action.prompt_ref
        == Some(x) || action.resource_refs.contains(x) by {
        assert(first_occurrences(preferred).contains(x) <==> preferred.contains(x));
    }
    assert forall|x: Seq<char>| #[trigger] contract.accepts.contains(x) <==> action.writes.contains(
        x,
    ) || action.verdict_artifact == Some(x) by {
        assert(first_occurrences(accepted).contains(x) <==> accepted.contains(x));
    }
}

proof fn lemma_first_stays(items: Seq<Seq<char>>)
    requires
        items.len() > 0,
    ensures
        first_occurrences(items).len() > 0,
        first_occurrences(items)[0] == items[0],
    decreases items.len(),
{
    if items.len() > 1 {
        lemma_first_stays(items.drop_last());
    } else {
        assert(first_occurrences(items.drop_last()) =~= Seq::empty());
    }
}

/// Every node with an action, and no other, asks something of an adapter: under its id, for the
/// driver of its action.
pub proof fn lemma_nodes_with_actions_need_adapters(nodes: Seq<FlowNodeView>)
    ensures
        capabilities(nodes).len() == nodes.filter(|node: FlowNodeView| node.action is Some).len(),
        forall|k: int|
            0 <= k < capabilities(nodes).len() ==> {
                let node = nodes.filter(|node: FlowNodeView| node.action is Some)[k];
                &&& (#[trigger] capabilities(nodes)[k]).node_id == node.id
                &&& node.action is Some
                &&& capabilities(nodes)[k].driver == node.action->0.driver
            },
    decreases nodes.len(),
{
    reveal(Seq::filter);
    let has = |node: FlowNodeView| node.action is Some;
    if nodes.len() > 0 {
        lemma_nodes_with_actions_need_adapters(nodes.drop_last());
        assert(nodes.drop_last().filter(has).len() == capabilities(nodes.drop_last()).len());
    }
}

/// An adapter is asked for what the contract of its node says: what it needs, what it is better off
/// with and what it may write.
pub proof fn lemma_adapters_are_asked_for_what_is_owed(
    draft: FlowDraftView,
    nodes: Seq<FlowNodeView>,
)
    ensures
        forall|k: int|
            0 <= k < capabilities(nodes).len() ==> {
                let node = nodes.filter(|node: FlowNodeView| node.action is Some)[k];
                &&& (#[trigger] capabilities(nodes)[k]).required == node_contract(draft, node).required
                &&& capabilities(nodes)[k].prefers == node_contract(draft, node).prefers
                &&& capabilities(nodes)[k].accepts == node_contract(draft, node).accepts
            },
    decreases nodes.len(),
{
    reveal(Seq::filter);
    let has = |node: FlowNodeView| node.action is Some;
    if nodes.len() > 0 {
        lemma_adapters_are_asked_for_what_is_owed(draft, nodes.drop_last());
        lemma_nodes_with_actions_need_adapters(nodes.drop_last());
        assert(nodes.drop_last().filter(has).len() == capabilities(nodes.drop_last()).len());
    }
}

} // verus!
