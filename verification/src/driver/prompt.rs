//! What an agent is started with, and what it is told first.
use vstd::prelude::*;

use crate::adapters::tmux::pipe::{shell_quoted, shell_single_quote_str};
use crate::flow::contract::{
    allowed_scopes, effective_node_write_scopes, node_contract, ArtifactRequirement,
    ArtifactRequirementView, EffectRequirement, EffectRequirementView, NodeContract,
    NodeContractView,
};
use crate::flow::model::{
    FlowDraft, FlowDraftView, FlowNode, FlowNodeView, FlowResource, FlowResourceView, NodeAction,
    NodeActionView, NodeDriver, WriteScope, WriteScopeView,
};
use crate::flow::profile::{flow_node_work_profile, node_work_profile, WorkProfile};
use crate::text::{cat4, same};

verus! {

broadcast use vstd::string::group_string_axioms;

/// The node with an id; where several have it, the last.
pub open spec fn node_with_id(nodes: Seq<FlowNodeView>, id: Seq<char>) -> Option<FlowNodeView>
    decreases nodes.len(),
{
    if nodes.len() == 0 {
        None
    } else if nodes.last().id == id {
        Some(nodes.last())
    } else {
        node_with_id(nodes.drop_last(), id)
    }
}

pub fn find_node<'a>(draft: &'a FlowDraft, id: &str) -> (r: Option<&'a FlowNode>)
    ensures
        match r {
            Some(node) => node_with_id(draft.deep_view().nodes, id@) == Some(node.deep_view()),
            None => node_with_id(draft.deep_view().nodes, id@) is None,
        },
{
    let ghost model = draft.deep_view().nodes;
    let mut i: usize = draft.nodes.len();
    assert(model.take(i as int) =~= model);
    while i > 0
        invariant
            i <= draft.nodes.len(),
            model == draft.nodes.deep_view(),
            model == draft.deep_view().nodes,
            node_with_id(model, id@) == node_with_id(model.take(i as int), id@),
        decreases i,
    {
        i -= 1;
        assert(model.take(i + 1).drop_last() =~= model.take(i as int));
        assert(model.take(i + 1).last() == draft.nodes@[i as int].deep_view());
        if same(draft.nodes[i].id.as_str(), id) {
            return Some(&draft.nodes[i]);
        }
    }
    None
}

/// What stands in a resource; where several have the id, in the last.
pub open spec fn source_of(resources: Seq<FlowResourceView>, id: Seq<char>) -> Option<Seq<char>>
    decreases resources.len(),
{
    if resources.len() == 0 {
        None
    } else if resources.last().id == id {
        Some(resources.last().source)
    } else {
        source_of(resources.drop_last(), id)
    }
}

fn find_source<'a>(resources: &'a Vec<FlowResource>, id: &str) -> (r: Option<&'a str>)
    ensures
        match r {
            Some(source) => source_of(resources.deep_view(), id@) == Some(source@),
            None => source_of(resources.deep_view(), id@) is None,
        },
{
    let ghost model = resources.deep_view();
    let mut i: usize = resources.len();
    assert(model.take(i as int) =~= model);
    while i > 0
        invariant
            i <= resources.len(),
            model == resources.deep_view(),
            source_of(model, id@) == source_of(model.take(i as int), id@),
        decreases i,
    {
        i -= 1;
        assert(model.take(i + 1).drop_last() =~= model.take(i as int));
        assert(model.take(i + 1).last() == resources@[i as int].deep_view());
        if same(resources[i].id.as_str(), id) {
            return Some(resources[i].source.as_str());
        }
    }
    None
}

/// What the prompt begins with: the text that the action names, or a word that it is on.
pub open spec fn opening(resources: Seq<FlowResourceView>, prompt_ref: Option<Seq<char>>) -> Seq<
    char,
> {
    let source = match prompt_ref {
        Some(id) => source_of(resources, id),
        None => None,
    };
    match source {
        Some(body) => if body.len() > 0 {
            body
        } else {
            "Complete the assigned task."@
        },
        None => "Complete the assigned task."@,
    }
}

/// What stands in the resources with the given ids, where there is something in them.
pub open spec fn sources_of(resources: Seq<FlowResourceView>, ids: Seq<Seq<char>>) -> Seq<Seq<char>>
    decreases ids.len(),
{
    if ids.len() == 0 {
        Seq::empty()
    } else {
        let front = sources_of(resources, ids.drop_last());
        match source_of(resources, ids.last()) {
            Some(body) => if body.len() > 0 {
                front.push(body)
            } else {
                front
            },
            None => front,
        }
    }
}

/// A line for each item, with something before it.
pub open spec fn bullets(head: Seq<char>, items: Seq<Seq<char>>) -> Seq<char>
    decreases items.len(),
{
    if items.len() == 0 {
        Seq::empty()
    } else {
        bullets(head, items.drop_last()) + head + items.last()
    }
}

fn push_bullets(head: &str, items: &Vec<&str>, out: &mut String)
    ensures
        final(out)@ == old(out)@ + bullets(head@, items.deep_view()),
{
    let ghost start = out@;
    let ghost model = items.deep_view();
    let mut i: usize = 0;
    assert(model.take(0) =~= Seq::<Seq<char>>::empty());
    assert(out@ =~= start + bullets(head@, model.take(0)));
    while i < items.len()
        invariant
            i <= items.len(),
            model == items.deep_view(),
            out@ == start + bullets(head@, model.take(i as int)),
        decreases items.len() - i,
    {
        assert(model.take(i + 1).drop_last() =~= model.take(i as int));
        assert(model.take(i + 1).last() == items@[i as int]@);
        out.push_str(head);
        out.push_str(items[i]);
        assert(out@ =~= start + (bullets(head@, model.take(i as int)) + head@ + items@[i as int]@));
        i += 1;
    }
    assert(model.take(i as int) =~= model);
}

/// What the agent may use.
pub open spec fn resources_part(bodies: Seq<Seq<char>>) -> Seq<char> {
    if bodies.len() == 0 {
        Seq::empty()
    } else {
        "\n\nResources:"@ + bullets("\n- "@, bodies)
    }
}

/// The contract of the first node with an id, among contracts from the `n`-th on.
pub open spec fn contract_of_node(
    contracts: Seq<NodeContractView>,
    id: Seq<char>,
    n: int,
) -> Option<NodeContractView>
    decreases contracts.len() - n,
{
    if n < 0 || n >= contracts.len() {
        None
    } else if contracts[n].node_id == id {
        Some(contracts[n])
    } else {
        contract_of_node(contracts, id, n + 1)
    }
}

/// The artifacts that are owed.
pub open spec fn owed_artifacts(items: Seq<ArtifactRequirementView>) -> Seq<Seq<char>>
    decreases items.len(),
{
    if items.len() == 0 {
        Seq::empty()
    } else {
        let front = owed_artifacts(items.drop_last());
        if items.last().required {
            front.push(items.last().id)
        } else {
            front
        }
    }
}

/// The effects that are owed.
pub open spec fn owed_effects(items: Seq<EffectRequirementView>) -> Seq<Seq<char>>
    decreases items.len(),
{
    if items.len() == 0 {
        Seq::empty()
    } else {
        let front = owed_effects(items.drop_last());
        if items.last().required {
            front.push(items.last().id)
        } else {
            front
        }
    }
}

fn artifacts_owed<'a>(items: &'a Vec<ArtifactRequirement>) -> (r: Vec<&'a str>)
    ensures
        r.deep_view() == owed_artifacts(items.deep_view()),
{
    let ghost model = items.deep_view();
    let mut out: Vec<&'a str> = Vec::new();
    let mut i: usize = 0;
    assert(model.take(0) =~= Seq::<ArtifactRequirementView>::empty());
    assert(out.deep_view() =~= Seq::<Seq<char>>::empty());
    while i < items.len()
        invariant
            i <= items.len(),
            model == items.deep_view(),
            out.deep_view() == owed_artifacts(model.take(i as int)),
        decreases items.len() - i,
    {
        let ghost before = out.deep_view();
        assert(model.take(i + 1).drop_last() =~= model.take(i as int));
        assert(model.take(i + 1).last() == items@[i as int].deep_view());
        if items[i].required {
            out.push(items[i].id.as_str());
            assert(out.deep_view() =~= before.push(items@[i as int].id@));
        }
        i += 1;
    }
    assert(model.take(i as int) =~= model);
    out
}

fn effects_owed<'a>(items: &'a Vec<EffectRequirement>) -> (r: Vec<&'a str>)
    ensures
        r.deep_view() == owed_effects(items.deep_view()),
{
    let ghost model = items.deep_view();
    let mut out: Vec<&'a str> = Vec::new();
    let mut i: usize = 0;
    assert(model.take(0) =~= Seq::<EffectRequirementView>::empty());
    assert(out.deep_view() =~= Seq::<Seq<char>>::empty());
    while i < items.len()
        invariant
            i <= items.len(),
            model == items.deep_view(),
            out.deep_view() == owed_effects(model.take(i as int)),
        decreases items.len() - i,
    {
        let ghost before = out.deep_view();
        assert(model.take(i + 1).drop_last() =~= model.take(i as int));
        assert(model.take(i + 1).last() == items@[i as int].deep_view());
        if items[i].required {
            out.push(items[i].id.as_str());
            assert(out.deep_view() =~= before.push(items@[i as int].id@));
        }
        i += 1;
    }
    assert(model.take(i as int) =~= model);
    out
}

/// What the agent owes.
pub open spec fn outputs_part(contract: Option<NodeContractView>) -> Seq<char> {
    match contract {
        None => Seq::empty(),
        Some(contract) => {
            let artifacts = owed_artifacts(contract.artifact_requirements);
            let effects = owed_effects(contract.effect_requirements);
            if artifacts.len() == 0 && effects.len() == 0 {
                Seq::empty()
            } else {
                "\n\nRequired outputs:"@ + bullets("\n- Artifact: "@, artifacts) + bullets(
                    "\n- Effect: "@,
                    effects,
                )
            }
        },
    }
}

/// How a scope is named to an agent.
pub open spec fn scope_name(scope: WriteScopeView) -> Seq<char> {
    match scope {
        WriteScopeView::Artifact(value) => value,
        WriteScopeView::Resource(value) => value,
        WriteScopeView::Workspace => "workspace"@,
        WriteScopeView::System => "system"@,
    }
}

pub fn write_scope_name(scope: &WriteScope) -> (r: &str)
    ensures
        r@ == scope_name(scope.deep_view()),
{
    match scope {
        WriteScope::Artifact(value) => value.as_str(),
        WriteScope::Resource(value) => value.as_str(),
        WriteScope::Workspace => "workspace",
        WriteScope::System => "system",
    }
}

pub open spec fn scope_names(scopes: Seq<WriteScopeView>) -> Seq<Seq<char>> {
    Seq::new(scopes.len(), |i: int| scope_name(scopes[i]))
}

/// What the agent may do.
pub open spec fn bounds_part(profile: WorkProfile, scopes: Seq<WriteScopeView>) -> Seq<char> {
    "\n\nExecution boundaries:"@ + "\n- Workspace access: "@ + profile.workspace_access.name()
        + "\n- Tool execution: "@ + profile.tool_execution.name() + "\n- Network access: "@
        + profile.network_access.name() + bullets("\n- Write scope: "@, scope_names(scopes))
}

/// What an agent is told first.
pub open spec fn first_prompt(
    draft: FlowDraftView,
    node: FlowNodeView,
    action: NodeActionView,
) -> Seq<char> {
    let contracts = Seq::new(draft.nodes.len(), |i: int| node_contract(draft, draft.nodes[i]));
    opening(draft.resources, action.prompt_ref) + resources_part(
        sources_of(draft.resources, action.resource_refs),
    ) + outputs_part(contract_of_node(contracts, node.id, 0)) + bounds_part(
        node_work_profile(node.extensions),
        allowed_scopes(draft.policies.write_scopes, node.write_scopes),
    ) + "\n\nDeliver required outputs through Humanize, then exit normally."@
}

fn bodies<'a>(draft: &'a FlowDraft, action: &NodeAction) -> (r: Vec<&'a str>)
    ensures
        r.deep_view() == sources_of(
            draft.deep_view().resources,
            action.deep_view().resource_refs,
        ),
{
    let ghost model = action.deep_view().resource_refs;
    let ghost resources = draft.deep_view().resources;
    let mut out: Vec<&'a str> = Vec::new();
    let mut i: usize = 0;
    assert(model.take(0) =~= Seq::<Seq<char>>::empty());
    assert(out.deep_view() =~= Seq::<Seq<char>>::empty());
    while i < action.resource_refs.len()
        invariant
            i <= action.resource_refs.len(),
            model == action.resource_refs.deep_view(),
            resources == draft.resources.deep_view(),
            out.deep_view() == sources_of(resources, model.take(i as int)),
        decreases action.resource_refs.len() - i,
    {
        let ghost before = out.deep_view();
        assert(model.take(i + 1).drop_last() =~= model.take(i as int));
        assert(model.take(i + 1).last() == action.resource_refs@[i as int]@);
        if let Some(body) = find_source(&draft.resources, action.resource_refs[i].as_str()) {
            if !body.is_empty() {
                out.push(body);
                assert(out.deep_view() =~= before.push(body@));
            }
        }
        i += 1;
    }
    assert(model.take(i as int) =~= model);
    out
}

fn push_outputs(contract: &NodeContract, out: &mut String)
    ensures
        final(out)@ == old(out)@ + outputs_part(Some(contract.deep_view())),
{
    let ghost start = out@;
    let artifacts = artifacts_owed(&contract.artifact_requirements);
    let effects = effects_owed(&contract.effect_requirements);
    assert(artifacts.deep_view().len() == artifacts.len());
    assert(effects.deep_view().len() == effects.len());
    if artifacts.len() > 0 || effects.len() > 0 {
        out.push_str("\n\nRequired outputs:");
        push_bullets("\n- Artifact: ", &artifacts, out);
        push_bullets("\n- Effect: ", &effects, out);
        assert(out@ =~= start + ("\n\nRequired outputs:"@ + bullets(
            "\n- Artifact: "@,
            artifacts.deep_view(),
        ) + bullets("\n- Effect: "@, effects.deep_view())));
    } else {
        assert(out@ =~= start + Seq::<char>::empty());
    }
}

fn push_bounds(draft: &FlowDraft, node: &FlowNode, out: &mut String)
    ensures
        final(out)@ == old(out)@ + bounds_part(
            node_work_profile(node.deep_view().extensions),
            allowed_scopes(
                draft.deep_view().policies.write_scopes,
                node.deep_view().write_scopes,
            ),
        ),
{
    let ghost start = out@;
    let profile = flow_node_work_profile(node);
    let scopes = effective_node_write_scopes(&draft.policies, node);
    let mut names: Vec<&str> = Vec::new();
    let mut i: usize = 0;
    while i < scopes.len()
        invariant
            i <= scopes.len(),
            names.len() == i,
            forall|j: int|
                0 <= j < i ==> (#[trigger] names@[j])@ == scope_name(scopes@[j].deep_view()),
        decreases scopes.len() - i,
    {
        names.push(write_scope_name(&scopes[i]));
        i += 1;
    }
    assert(names.deep_view() =~= scope_names(scopes.deep_view()));
    out.push_str("\n\nExecution boundaries:");
    out.push_str("\n- Workspace access: ");
    out.push_str(profile.workspace_access.as_str());
    out.push_str("\n- Tool execution: ");
    out.push_str(profile.tool_execution.as_str());
    out.push_str("\n- Network access: ");
    out.push_str(profile.network_access.as_str());
    push_bullets("\n- Write scope: ", &names, out);
    assert(out@ =~= start + bounds_part(profile, scopes.deep_view()));
}

/// What an agent is told first.
pub fn initial_agent_prompt(draft: &FlowDraft, node: &FlowNode, action: &NodeAction) -> (r: String)
    ensures
        r@ == first_prompt(draft.deep_view(), node.deep_view(), action.deep_view()),
{
    let ghost d = draft.deep_view();
    let ghost n = node.deep_view();
    let ghost a = action.deep_view();
    let source = match &action.prompt_ref {
        Some(id) => find_source(&draft.resources, id.as_str()),
        None => None,
    };
    let mut out = match source {
        Some(body) => if body.is_empty() {
            "Complete the assigned task.".to_string()
        } else {
            body.to_string()
        },
        None => "Complete the assigned task.".to_string(),
    };
    let ghost p1 = opening(d.resources, a.prompt_ref);
    assert(out@ == p1);
    let listed = bodies(draft, action);
    assert(listed.deep_view().len() == listed.len());
    if listed.len() > 0 {
        out.push_str("\n\nResources:");
        push_bullets("\n- ", &listed, &mut out);
    }
    let ghost p2 = resources_part(listed.deep_view());
    assert(out@ =~= p1 + p2);
    let contracts = NodeContract::from_draft(draft);
    let ghost all = contracts.deep_view();
    let ghost p3 = outputs_part(contract_of_node(all, n.id, 0));
    let mut i: usize = 0;
    let mut found = false;
    while i < contracts.len() && !found
        invariant
            i <= contracts.len(),
            all == contracts.deep_view(),
            n == node.deep_view(),
            p3 == outputs_part(contract_of_node(all, n.id, 0)),
            !found ==> contract_of_node(all, n.id, 0) == contract_of_node(all, n.id, i as int),
            !found ==> out@ == p1 + p2,
            found ==> out@ == p1 + p2 + p3,
        decreases contracts.len() - i + (if found {
            0int
        } else {
            1int
        }),
    {
        assert(all[i as int] == contracts@[i as int].deep_view());
        if same(contracts[i].node_id.as_str(), node.id.as_str()) {
            push_outputs(&contracts[i], &mut out);
            found = true;
        } else {
            i += 1;
        }
    }
    if !found {
        assert(p3 =~= Seq::<char>::empty());
        assert(out@ =~= p1 + p2 + p3);
    }
    push_bounds(draft, node, &mut out);
    out.push_str("\n\nDeliver required outputs through Humanize, then exit normally.");
    out
}

/// The command that starts an agent: it is told where its binding is, and its exit is told.
pub open spec fn launch_command(
    command: Seq<char>,
    hook_binary: Seq<char>,
    binding_file: Seq<char>,
) -> Seq<char> {
    let wrapper = command + "; status=$?; "@ + shell_quoted(hook_binary)
        + " --participant-exited-hook --exit-status \"$status\"; exit \"$status\""@;
    "env HUMANIZE_PARTICIPANT_BINDING_FILE="@ + shell_quoted(binding_file) + " sh -c "@
        + shell_quoted(wrapper)
}

pub fn agent_launch_command(configured_command: &str, hook_binary: &str, binding_file: &str) -> (r:
    String)
    ensures
        r@ == launch_command(configured_command@, hook_binary@, binding_file@),
{
    let wrapper = cat4(
        configured_command,
        "; status=$?; ",
        shell_single_quote_str(hook_binary).as_str(),
        " --participant-exited-hook --exit-status \"$status\"; exit \"$status\"",
    );
    cat4(
        "env HUMANIZE_PARTICIPANT_BINDING_FILE=",
        shell_single_quote_str(binding_file).as_str(),
        " sh -c ",
        shell_single_quote_str(wrapper.as_str()).as_str(),
    )
}

/// Whether a node is carried out by an agent of its own.
pub open spec fn agent_backed(driver: NodeDriver) -> bool {
    driver == NodeDriver::Agent || driver == NodeDriver::Review
}

pub fn is_autonomous_agent_backed_driver(driver: NodeDriver) -> (r: bool)
    ensures
        r == agent_backed(driver),
{
    match driver {
        NodeDriver::Agent | NodeDriver::Review => true,
        _ => false,
    }
}

proof fn lemma_bullets_hold(head: Seq<char>, items: Seq<Seq<char>>, i: int)
    requires
        0 <= i < items.len(),
    ensures
        exists|front: Seq<char>, back: Seq<char>|
            bullets(head, items) == #[trigger] (front + head + items[i] + back),
    decreases items.len(),
{
    if i == items.len() - 1 {
        let front = bullets(head, items.drop_last());
        assert(bullets(head, items) =~= front + head + items[i] + Seq::<char>::empty());
    } else {
        let rest = items.drop_last();
        lemma_bullets_hold(head, rest, i);
        let (front, back) = choose|front: Seq<char>, back: Seq<char>|
            bullets(head, rest) == #[trigger] (front + head + rest[i] + back);
        assert(bullets(head, items) =~= front + head + items[i] + (back + head + items.last()));
    }
}

/// Whether a text stands within another.
pub open spec fn within(text: Seq<char>, whole: Seq<char>) -> bool {
    exists|front: Seq<char>, back: Seq<char>| whole == #[trigger] (front + text + back)
}

/// Every artifact that a node owes is named to its agent.
pub proof fn lemma_owed_artifacts_are_named(contract: NodeContractView, i: int)
    requires
        0 <= i < owed_artifacts(contract.artifact_requirements).len(),
    ensures
        within(
            "\n- Artifact: "@ + owed_artifacts(contract.artifact_requirements)[i],
            outputs_part(Some(contract)),
        ),
{
    let artifacts = owed_artifacts(contract.artifact_requirements);
    let effects = owed_effects(contract.effect_requirements);
    let head = "\n- Artifact: "@;
    lemma_bullets_hold(head, artifacts, i);
    let (front, back) = choose|front: Seq<char>, back: Seq<char>|
        bullets(head, artifacts) == #[trigger] (front + head + artifacts[i] + back);
    let whole = outputs_part(Some(contract));
    let before = "\n\nRequired outputs:"@ + front;
    let after = back + bullets("\n- Effect: "@, effects);
    assert(whole =~= before + (head + artifacts[i]) + after);
}

} // verus!
