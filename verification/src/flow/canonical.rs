//! The canonical form of a draft: every set in order, each element once.
use vstd::prelude::*;

use crate::order::{
    lemma_list_le_antisymmetric, lemma_list_le_total, lemma_list_le_transitive, lemma_same_elements,
    lemma_sorted, lemma_sorted_fixpoint, lemma_sorted_set_idempotent, lemma_sorted_unique,
    lemma_text_le_antisymmetric, lemma_text_le_total, lemma_text_le_transitive, list_at_most,
    list_le, sort, sort_unique, sorted, sorted_set, tells_apart, text_at_most, text_le, Comparable,
    Ranked,
};
use crate::text::{same, same_option};

use super::model::{
    ContractArtifact, ContractArtifactView, FlowContract, FlowContractView, FlowDraft,
    FlowDraftView, FlowImport, FlowImportView, FlowNode, FlowNodeView, FlowPolicies,
    FlowPoliciesView, FlowResource, FlowResourceView, FlowRoute, FlowRouteView, NodeAction,
    NodeActionView, ResourceKind, WriteScope, WriteScopeView,
};
use super::predicate::{FlowPredicate, PredicateView};

verus! {

broadcast use vstd::string::group_string_axioms;

/// A list of one text, and of a second where there is one.
pub open spec fn one_or_two(first: Seq<char>, second: Option<Seq<char>>) -> Seq<Seq<char>> {
    match second {
        Some(text) => Seq::empty().push(first).push(text),
        None => Seq::empty().push(first),
    }
}

/// What write scopes are ordered by: the kind, then the id.
pub open spec fn scope_key(scope: WriteScopeView) -> Seq<Seq<char>> {
    match scope {
        WriteScopeView::Artifact(id) => one_or_two("0"@, Some(id)),
        WriteScopeView::Resource(id) => one_or_two("1"@, Some(id)),
        WriteScopeView::Workspace => one_or_two("2"@, None),
        WriteScopeView::System => one_or_two("3"@, None),
    }
}

fn pair_of<'a>(first: &'a str, second: Option<&'a str>) -> (r: Vec<&'a str>)
    ensures
        r.deep_view() == one_or_two(first@, second.deep_view()),
{
    let mut out: Vec<&'a str> = Vec::new();
    out.push(first);
    if let Some(text) = second {
        out.push(text);
    }
    assert(out.deep_view() =~= one_or_two(first@, second.deep_view()));
    out
}

fn scope_key_texts(scope: &WriteScope) -> (r: Vec<&str>)
    ensures
        r.deep_view() == scope_key(scope.deep_view()),
{
    match scope {
        WriteScope::Artifact(id) => pair_of("0", Some(id.as_str())),
        WriteScope::Resource(id) => pair_of("1", Some(id.as_str())),
        WriteScope::Workspace => pair_of("2", None),
        WriteScope::System => pair_of("3", None),
    }
}

impl Ranked for WriteScope {
    open spec fn ranks(a: WriteScopeView, b: WriteScopeView) -> bool {
        list_le(scope_key(a), scope_key(b))
    }

    proof fn ranks_total(a: WriteScopeView, b: WriteScopeView) {
        lemma_list_le_total(scope_key(a), scope_key(b));
    }

    proof fn ranks_transitive(a: WriteScopeView, b: WriteScopeView, c: WriteScopeView) {
        lemma_list_le_transitive(scope_key(a), scope_key(b), scope_key(c));
    }

    fn at_most(&self, other: &Self) -> (r: bool) {
        list_at_most(&scope_key_texts(self), &scope_key_texts(other))
    }
}

impl Comparable for WriteScope {
    fn same_as(&self, other: &Self) -> (r: bool) {
        self.is_same(other)
    }
}

impl Ranked for FlowNode {
    open spec fn ranks(a: FlowNodeView, b: FlowNodeView) -> bool {
        text_le(a.id, b.id)
    }

    proof fn ranks_total(a: FlowNodeView, b: FlowNodeView) {
        lemma_text_le_total(a.id, b.id);
    }

    proof fn ranks_transitive(a: FlowNodeView, b: FlowNodeView, c: FlowNodeView) {
        lemma_text_le_transitive(a.id, b.id, c.id);
    }

    fn at_most(&self, other: &Self) -> (r: bool) {
        text_at_most(self.id.as_str(), other.id.as_str())
    }
}

impl Ranked for FlowContract {
    open spec fn ranks(a: FlowContractView, b: FlowContractView) -> bool {
        text_le(a.id, b.id)
    }

    proof fn ranks_total(a: FlowContractView, b: FlowContractView) {
        lemma_text_le_total(a.id, b.id);
    }

    proof fn ranks_transitive(a: FlowContractView, b: FlowContractView, c: FlowContractView) {
        lemma_text_le_transitive(a.id, b.id, c.id);
    }

    fn at_most(&self, other: &Self) -> (r: bool) {
        text_at_most(self.id.as_str(), other.id.as_str())
    }
}

fn option_str(value: &Option<String>) -> (r: Option<&str>)
    ensures
        r.deep_view() == value.deep_view(),
{
    match value {
        Some(text) => Some(text.as_str()),
        None => None,
    }
}

impl Ranked for ContractArtifact {
    open spec fn ranks(a: ContractArtifactView, b: ContractArtifactView) -> bool {
        list_le(one_or_two(a.id, a.schema_resource_id), one_or_two(b.id, b.schema_resource_id))
    }

    proof fn ranks_total(a: ContractArtifactView, b: ContractArtifactView) {
        lemma_list_le_total(
            one_or_two(a.id, a.schema_resource_id),
            one_or_two(b.id, b.schema_resource_id),
        );
    }

    proof fn ranks_transitive(
        a: ContractArtifactView,
        b: ContractArtifactView,
        c: ContractArtifactView,
    ) {
        lemma_list_le_transitive(
            one_or_two(a.id, a.schema_resource_id),
            one_or_two(b.id, b.schema_resource_id),
            one_or_two(c.id, c.schema_resource_id),
        );
    }

    fn at_most(&self, other: &Self) -> (r: bool) {
        list_at_most(
            &pair_of(self.id.as_str(), option_str(&self.schema_resource_id)),
            &pair_of(other.id.as_str(), option_str(&other.schema_resource_id)),
        )
    }
}

impl Comparable for ContractArtifact {
    fn same_as(&self, other: &Self) -> (r: bool) {
        same(self.id.as_str(), other.id.as_str()) && same_option(
            &self.schema_resource_id,
            &other.schema_resource_id,
        )
    }
}

impl Ranked for FlowImport {
    open spec fn ranks(a: FlowImportView, b: FlowImportView) -> bool {
        list_le(one_or_two(a.resource_id, a.alias), one_or_two(b.resource_id, b.alias))
    }

    proof fn ranks_total(a: FlowImportView, b: FlowImportView) {
        lemma_list_le_total(one_or_two(a.resource_id, a.alias), one_or_two(b.resource_id, b.alias));
    }

    proof fn ranks_transitive(a: FlowImportView, b: FlowImportView, c: FlowImportView) {
        lemma_list_le_transitive(
            one_or_two(a.resource_id, a.alias),
            one_or_two(b.resource_id, b.alias),
            one_or_two(c.resource_id, c.alias),
        );
    }

    fn at_most(&self, other: &Self) -> (r: bool) {
        list_at_most(
            &pair_of(self.resource_id.as_str(), option_str(&self.alias)),
            &pair_of(other.resource_id.as_str(), option_str(&other.alias)),
        )
    }
}

impl Comparable for FlowImport {
    fn same_as(&self, other: &Self) -> (r: bool) {
        same(self.resource_id.as_str(), other.resource_id.as_str()) && same_option(
            &self.alias,
            &other.alias,
        )
    }
}

/// What resources are ordered by: the path, the name of the kind, the content.
pub open spec fn resource_key(resource: FlowResourceView) -> Seq<Seq<char>> {
    Seq::empty().push(resource.id).push(resource.kind.name()).push(resource.source)
}

fn resource_key_texts(resource: &FlowResource) -> (r: Vec<&str>)
    ensures
        r.deep_view() == resource_key(resource.deep_view()),
{
    let mut out: Vec<&str> = Vec::new();
    out.push(resource.id.as_str());
    out.push(resource.kind.as_str());
    out.push(resource.source.as_str());
    assert(out.deep_view() =~= resource_key(resource.deep_view()));
    out
}

impl Ranked for FlowResource {
    open spec fn ranks(a: FlowResourceView, b: FlowResourceView) -> bool {
        list_le(resource_key(a), resource_key(b))
    }

    proof fn ranks_total(a: FlowResourceView, b: FlowResourceView) {
        lemma_list_le_total(resource_key(a), resource_key(b));
    }

    proof fn ranks_transitive(a: FlowResourceView, b: FlowResourceView, c: FlowResourceView) {
        lemma_list_le_transitive(resource_key(a), resource_key(b), resource_key(c));
    }

    fn at_most(&self, other: &Self) -> (r: bool) {
        list_at_most(&resource_key_texts(self), &resource_key_texts(other))
    }
}

/// How the operation of a predicate is called.
pub open spec fn predicate_op(predicate: PredicateView) -> Seq<char> {
    match predicate {
        PredicateView::Exists { .. } => "exists"@,
        PredicateView::Truthy { .. } => "truthy"@,
    }
}

/// What routes are ordered by: the target, the operation, the kind and the key of the
/// fact, and the artifact they range over.
pub open spec fn route_key(route: FlowRouteView) -> Seq<Seq<char>> {
    let key = Seq::empty().push(route.activate).push(predicate_op(route.predicate)).push(
        route.predicate.fact().kind(),
    ).push(route.predicate.fact().key());
    match route.for_each {
        Some(artifact) => key.push(artifact),
        None => key,
    }
}

fn route_key_texts(route: &FlowRoute) -> (r: Vec<&str>)
    ensures
        r.deep_view() == route_key(route.deep_view()),
{
    let mut out: Vec<&str> = Vec::new();
    out.push(route.activate.as_str());
    let op = match &route.predicate {
        FlowPredicate::Exists { .. } => "exists",
        FlowPredicate::Truthy { .. } => "truthy",
    };
    out.push(op);
    out.push(route.predicate.fact_ref().kind());
    out.push(route.predicate.fact_ref().key().as_str());
    if let Some(artifact) = &route.for_each {
        out.push(artifact.key().as_str());
    }
    assert(out.deep_view() =~= route_key(route.deep_view()));
    out
}

impl Ranked for FlowRoute {
    open spec fn ranks(a: FlowRouteView, b: FlowRouteView) -> bool {
        list_le(route_key(a), route_key(b))
    }

    proof fn ranks_total(a: FlowRouteView, b: FlowRouteView) {
        lemma_list_le_total(route_key(a), route_key(b));
    }

    proof fn ranks_transitive(a: FlowRouteView, b: FlowRouteView, c: FlowRouteView) {
        lemma_list_le_transitive(route_key(a), route_key(b), route_key(c));
    }

    fn at_most(&self, other: &Self) -> (r: bool) {
        list_at_most(&route_key_texts(self), &route_key_texts(other))
    }
}

pub open spec fn canonical_action(action: NodeActionView) -> NodeActionView {
    NodeActionView {
        resource_refs: sorted_set::<String>(action.resource_refs),
        reads: sorted_set::<String>(action.reads),
        writes: sorted_set::<String>(action.writes),
        ..action
    }
}

pub open spec fn canonical_node(node: FlowNodeView) -> FlowNodeView {
    FlowNodeView {
        action: match node.action {
            Some(action) => Some(canonical_action(action)),
            None => None,
        },
        write_scopes: sorted_set::<WriteScope>(node.write_scopes),
        extensions: sorted_set::<String>(node.extensions),
        ..node
    }
}

pub open spec fn canonical_contract(contract: FlowContractView) -> FlowContractView {
    FlowContractView {
        artifacts: sorted_set::<ContractArtifact>(contract.artifacts),
        ..contract
    }
}

pub open spec fn canonical_nodes(nodes: Seq<FlowNodeView>) -> Seq<FlowNodeView> {
    Seq::new(nodes.len(), |i: int| canonical_node(nodes[i]))
}

pub open spec fn canonical_contracts(contracts: Seq<FlowContractView>) -> Seq<FlowContractView> {
    Seq::new(contracts.len(), |i: int| canonical_contract(contracts[i]))
}

/// The canonical form of a draft.
pub open spec fn canonical(d: FlowDraftView) -> FlowDraftView {
    FlowDraftView {
        nodes: sorted::<FlowNode>(canonical_nodes(d.nodes)),
        contracts: sorted::<FlowContract>(canonical_contracts(d.contracts)),
        routes: sorted::<FlowRoute>(d.routes),
        resources: sorted::<FlowResource>(d.resources),
        imports: sorted_set::<FlowImport>(d.imports),
        policies: FlowPoliciesView {
            write_scopes: sorted_set::<WriteScope>(d.policies.write_scopes),
        },
        extensions: sorted_set::<String>(d.extensions),
    }
}

fn canonicalize_action(action: NodeAction) -> (r: NodeAction)
    ensures
        r.deep_view() == canonical_action(action.deep_view()),
{
    NodeAction {
        driver: action.driver,
        prompt_ref: action.prompt_ref,
        resource_refs: sort_unique(action.resource_refs),
        reads: sort_unique(action.reads),
        writes: sort_unique(action.writes),
        verdict_artifact: action.verdict_artifact,
    }
}

fn canonicalize_node(node: FlowNode) -> (r: FlowNode)
    ensures
        r.deep_view() == canonical_node(node.deep_view()),
{
    FlowNode {
        id: node.id,
        contract_id: node.contract_id,
        action: match node.action {
            Some(action) => Some(canonicalize_action(action)),
            None => None,
        },
        write_scopes: sort_unique(node.write_scopes),
        extensions: sort_unique(node.extensions),
    }
}

fn canonicalize_contract(contract: FlowContract) -> (r: FlowContract)
    ensures
        r.deep_view() == canonical_contract(contract.deep_view()),
{
    FlowContract {
        id: contract.id,
        completion: contract.completion,
        artifacts: sort_unique(contract.artifacts),
    }
}

/// Brings a draft into its canonical form.
pub fn canonicalize_draft(draft: &FlowDraft) -> (r: FlowDraft)
    ensures
        r.deep_view() == canonical(draft.deep_view()),
{
    let draft = draft.clone();
    let ghost d = draft.deep_view();
    let mut nodes: Vec<FlowNode> = Vec::new();
    let drafted_nodes = draft.nodes;
    for node in it: drafted_nodes
        invariant
            it.seq() == drafted_nodes@,
            drafted_nodes.deep_view() == d.nodes,
            nodes.len() == it.index(),
            forall|i: int|
                0 <= i < nodes.len() ==> (#[trigger] nodes@[i]).deep_view() == canonical_node(
                    d.nodes[i],
                ),
    {
        assert(d.nodes[it.index()] == node.deep_view());
        nodes.push(canonicalize_node(node));
    }
    assert(nodes.deep_view() =~= canonical_nodes(d.nodes));
    let mut contracts: Vec<FlowContract> = Vec::new();
    let drafted_contracts = draft.contracts;
    for contract in it: drafted_contracts
        invariant
            it.seq() == drafted_contracts@,
            drafted_contracts.deep_view() == d.contracts,
            contracts.len() == it.index(),
            forall|i: int|
                0 <= i < contracts.len() ==> (#[trigger] contracts@[i]).deep_view()
                    == canonical_contract(d.contracts[i]),
    {
        assert(d.contracts[it.index()] == contract.deep_view());
        contracts.push(canonicalize_contract(contract));
    }
    assert(contracts.deep_view() =~= canonical_contracts(d.contracts));
    FlowDraft {
        nodes: sort(nodes),
        contracts: sort(contracts),
        routes: sort(draft.routes),
        resources: sort(draft.resources),
        imports: sort_unique(draft.imports),
        policies: FlowPolicies { write_scopes: sort_unique(draft.policies.write_scopes) },
        extensions: sort_unique(draft.extensions),
    }
}

proof fn lemma_canonical_node_idempotent(node: FlowNodeView)
    ensures
        canonical_node(canonical_node(node)) == canonical_node(node),
{
    lemma_sorted_set_idempotent::<WriteScope>(node.write_scopes);
    lemma_sorted_set_idempotent::<String>(node.extensions);
    match node.action {
        Some(action) => {
            lemma_sorted_set_idempotent::<String>(action.resource_refs);
            lemma_sorted_set_idempotent::<String>(action.reads);
            lemma_sorted_set_idempotent::<String>(action.writes);
        },
        None => {},
    }
}

/// Canonical form is stable: bringing it into canonical form again changes nothing.
pub proof fn lemma_canonical_idempotent(d: FlowDraftView)
    ensures
        canonical(canonical(d)) == canonical(d),
{
    let c = canonical(d);
    let nodes = canonical_nodes(d.nodes);
    lemma_sorted::<FlowNode>(nodes);
    lemma_same_elements(c.nodes, nodes);
    assert forall|i: int| 0 <= i < c.nodes.len() implies canonical_node(#[trigger] c.nodes[i])
        == c.nodes[i] by {
        assert(c.nodes.contains(c.nodes[i]));
        assert(nodes.contains(c.nodes[i]));
        let k = choose|k: int| 0 <= k < nodes.len() && nodes[k] == c.nodes[i];
        lemma_canonical_node_idempotent(d.nodes[k]);
    }
    assert(canonical_nodes(c.nodes) =~= c.nodes);
    lemma_sorted_fixpoint::<FlowNode>(c.nodes);
    let contracts = canonical_contracts(d.contracts);
    lemma_sorted::<FlowContract>(contracts);
    lemma_same_elements(c.contracts, contracts);
    assert forall|i: int| 0 <= i < c.contracts.len() implies canonical_contract(
        #[trigger] c.contracts[i],
    ) == c.contracts[i] by {
        assert(c.contracts.contains(c.contracts[i]));
        assert(contracts.contains(c.contracts[i]));
        let k = choose|k: int| 0 <= k < contracts.len() && contracts[k] == c.contracts[i];
        lemma_sorted_set_idempotent::<ContractArtifact>(d.contracts[k].artifacts);
    }
    assert(canonical_contracts(c.contracts) =~= c.contracts);
    lemma_sorted_fixpoint::<FlowContract>(c.contracts);
    lemma_sorted::<FlowRoute>(d.routes);
    lemma_sorted_fixpoint::<FlowRoute>(c.routes);
    lemma_sorted::<FlowResource>(d.resources);
    lemma_sorted_fixpoint::<FlowResource>(c.resources);
    lemma_sorted_set_idempotent::<FlowImport>(d.imports);
    lemma_sorted_set_idempotent::<WriteScope>(d.policies.write_scopes);
    lemma_sorted_set_idempotent::<String>(d.extensions);
}

proof fn lemma_mapped_alike<A, B>(s: Seq<A>, t: Seq<A>, f: spec_fn(A) -> B)
    requires
        s.to_multiset() == t.to_multiset(),
    ensures
        s.map_values(f).to_multiset() == t.map_values(f).to_multiset(),
    decreases s.len(),
{
    broadcast use vstd::seq_lib::group_to_multiset_ensures;

    s.to_multiset_ensures();
    t.to_multiset_ensures();
    assert(s.len() == t.len());
    if s.len() == 0 {
        assert(s =~= t);
    } else {
        let x = s.last();
        let front = s.drop_last();
        lemma_same_elements(s, t);
        assert(s[s.len() - 1] == x);
        assert(s.contains(x));
        let k = choose|k: int| 0 <= k < t.len() && t[k] == x;
        let rest = t.remove(k);
        assert(s =~= front.push(x));
        assert(front.to_multiset() =~= s.to_multiset().remove(x));
        assert(rest.to_multiset() =~= t.to_multiset().remove(x));
        lemma_mapped_alike(front, rest, f);
        assert(s.map_values(f) =~= front.map_values(f).push(f(x)));
        assert(rest.map_values(f) =~= t.map_values(f).remove(k));
        assert(t.map_values(f)[k] == f(x));
        let whole = t.map_values(f);
        assert(whole.to_multiset().contains(f(x))) by {
            whole.to_multiset_ensures();
            assert(whole.contains(f(x)));
        }
        assert(whole.remove(k).to_multiset() =~= whole.to_multiset().remove(f(x)));
        assert(s.map_values(f).to_multiset() =~= whole.to_multiset());
    }
}

/// Whether two drafts declare the same, each perhaps in an order of its own.
pub open spec fn rearranged(a: FlowDraftView, b: FlowDraftView) -> bool {
    &&& a.nodes.to_multiset() == b.nodes.to_multiset()
    &&& a.contracts.to_multiset() == b.contracts.to_multiset()
    &&& a.routes.to_multiset() == b.routes.to_multiset()
    &&& a.resources.to_multiset() == b.resources.to_multiset()
    &&& a.imports.to_multiset() == b.imports.to_multiset()
    &&& a.policies.write_scopes.to_multiset() == b.policies.write_scopes.to_multiset()
    &&& a.extensions.to_multiset() == b.extensions.to_multiset()
}

/// Whether no two nodes and no two contracts have the same id.
pub open spec fn ids_differ(d: FlowDraftView) -> bool {
    &&& forall|i: int, j: int|
        0 <= i < d.nodes.len() && 0 <= j < d.nodes.len() && (#[trigger] d.nodes[i]).id == (
        #[trigger] d.nodes[j]).id ==> i == j
    &&& forall|i: int, j: int|
        0 <= i < d.contracts.len() && 0 <= j < d.contracts.len() && (#[trigger] d.contracts[i]).id
            == (#[trigger] d.contracts[j]).id ==> i == j
}

proof fn lemma_kinds_differ(a: ResourceKind, b: ResourceKind)
    requires
        a.name() == b.name(),
    ensures
        a == b,
{
    reveal_strlit("schema");
    reveal_strlit("rule");
    reveal_strlit("profile");
    reveal_strlit("view");
    reveal_strlit("prompt");
    reveal_strlit("script");
    reveal_strlit("flow");
    reveal_strlit("readme");
    reveal_strlit("skill");
    assert("schema"@.len() == 6);
    assert("rule"@.len() == 4);
    assert("profile"@.len() == 7);
    assert("view"@.len() == 4);
    assert("prompt"@.len() == 6);
    assert("script"@.len() == 6);
    assert("flow"@.len() == 4);
    assert("readme"@.len() == 6);
    assert("skill"@.len() == 5);
    assert("schema"@[0] == 's' && "schema"@[2] == 'h');
    assert("script"@[0] == 's' && "script"@[2] == 'r');
    assert("prompt"@[0] == 'p' && "prompt"@[2] == 'o');
    assert("readme"@[0] == 'r' && "readme"@[2] == 'a');
    assert("rule"@[0] == 'r' && "rule"@[2] == 'l');
    assert("view"@[0] == 'v' && "view"@[2] == 'e');
    assert("flow"@[0] == 'f' && "flow"@[2] == 'o');
}

proof fn lemma_resources_differ(x: FlowResourceView, y: FlowResourceView)
    requires
        FlowResource::ranks(x, y),
        FlowResource::ranks(y, x),
    ensures
        x == y,
{
    lemma_list_le_antisymmetric(resource_key(x), resource_key(y));
    assert(resource_key(x)[0] == x.id);
    assert(resource_key(y)[0] == y.id);
    assert(resource_key(x)[1] == x.kind.name());
    assert(resource_key(y)[1] == y.kind.name());
    assert(resource_key(x)[2] == x.source);
    assert(resource_key(y)[2] == y.source);
    lemma_kinds_differ(x.kind, y.kind);
}

proof fn lemma_routes_differ(x: FlowRouteView, y: FlowRouteView)
    requires
        FlowRoute::ranks(x, y),
        FlowRoute::ranks(y, x),
    ensures
        x == y,
{
    reveal_strlit("exists");
    reveal_strlit("truthy");
    reveal_strlit("artifact");
    reveal_strlit("board");
    let a = route_key(x);
    let b = route_key(y);
    lemma_list_le_antisymmetric(a, b);
    assert(a[0] == x.activate && b[0] == y.activate);
    assert(a[1] == predicate_op(x.predicate) && b[1] == predicate_op(y.predicate));
    assert("exists"@[0] != "truthy"@[0]);
    assert(a[2] == x.predicate.fact().kind() && b[2] == y.predicate.fact().kind());
    assert("artifact"@[0] != "board"@[0]);
    assert(a[3] == x.predicate.fact().key() && b[3] == y.predicate.fact().key());
    assert(x.for_each is Some ==> a.len() == 5 && a[4] == x.for_each->0);
    assert(y.for_each is Some ==> b.len() == 5 && b[4] == y.for_each->0);
    assert(x.for_each is None ==> a.len() == 4);
    assert(y.for_each is None ==> b.len() == 4);
}

proof fn lemma_pairs_differ(
    first: Seq<char>,
    second: Option<Seq<char>>,
    other: Seq<char>,
    another: Option<Seq<char>>,
)
    requires
        one_or_two(first, second) == one_or_two(other, another),
    ensures
        first == other,
        second == another,
{
    let a = one_or_two(first, second);
    let b = one_or_two(other, another);
    assert(a[0] == first && b[0] == other);
    assert(second is Some ==> a.len() == 2 && a[1] == second->0);
    assert(another is Some ==> b.len() == 2 && b[1] == another->0);
    assert(second is None ==> a.len() == 1);
    assert(another is None ==> b.len() == 1);
}

proof fn lemma_scopes_differ(x: WriteScopeView, y: WriteScopeView)
    requires
        WriteScope::ranks(x, y),
        WriteScope::ranks(y, x),
    ensures
        x == y,
{
    reveal_strlit("0");
    reveal_strlit("1");
    reveal_strlit("2");
    reveal_strlit("3");
    let a = scope_key(x);
    let b = scope_key(y);
    lemma_list_le_antisymmetric(a, b);
    assert("0"@[0] == '0' && "1"@[0] == '1' && "2"@[0] == '2' && "3"@[0] == '3');
    assert(a[0] == b[0]);
    assert(x is Artifact ==> a[1] == x->Artifact_0);
    assert(x is Resource ==> a[1] == x->Resource_0);
    assert(y is Artifact ==> b[1] == y->Artifact_0);
    assert(y is Resource ==> b[1] == y->Resource_0);
}

/// The order in which a flow is declared does not matter: drafts that declare the same have one
/// canonical form.
pub proof fn lemma_canonical_ignores_order(a: FlowDraftView, b: FlowDraftView)
    requires
        rearranged(a, b),
        ids_differ(a),
    ensures
        canonical(a) == canonical(b),
{
    let nodes = canonical_nodes(a.nodes);
    let shape = |node: FlowNodeView| canonical_node(node);
    lemma_mapped_alike(a.nodes, b.nodes, shape);
    assert(canonical_nodes(a.nodes) =~= a.nodes.map_values(shape));
    assert(canonical_nodes(b.nodes) =~= b.nodes.map_values(shape));
    assert(tells_apart::<FlowNode>(nodes)) by {
        assert forall|x: FlowNodeView, y: FlowNodeView|
            nodes.contains(x) && nodes.contains(y) && #[trigger] FlowNode::ranks(x, y)
                && FlowNode::ranks(y, x) implies x == y by {
            let i = choose|i: int| 0 <= i < nodes.len() && nodes[i] == x;
            let j = choose|j: int| 0 <= j < nodes.len() && nodes[j] == y;
            lemma_text_le_antisymmetric(x.id, y.id);
            assert(a.nodes[i].id == x.id && a.nodes[j].id == y.id);
        }
    }
    lemma_sorted_unique::<FlowNode>(nodes, canonical_nodes(b.nodes));
    let contracts = canonical_contracts(a.contracts);
    let form = |contract: FlowContractView| canonical_contract(contract);
    lemma_mapped_alike(a.contracts, b.contracts, form);
    assert(canonical_contracts(a.contracts) =~= a.contracts.map_values(form));
    assert(canonical_contracts(b.contracts) =~= b.contracts.map_values(form));
    assert(tells_apart::<FlowContract>(contracts)) by {
        assert forall|x: FlowContractView, y: FlowContractView|
            contracts.contains(x) && contracts.contains(y) && #[trigger] FlowContract::ranks(x, y)
                && FlowContract::ranks(y, x) implies x == y by {
            let i = choose|i: int| 0 <= i < contracts.len() && contracts[i] == x;
            let j = choose|j: int| 0 <= j < contracts.len() && contracts[j] == y;
            lemma_text_le_antisymmetric(x.id, y.id);
            assert(a.contracts[i].id == x.id && a.contracts[j].id == y.id);
        }
    }
    lemma_sorted_unique::<FlowContract>(contracts, canonical_contracts(b.contracts));
    assert(tells_apart::<FlowRoute>(a.routes)) by {
        assert forall|x: FlowRouteView, y: FlowRouteView|
            a.routes.contains(x) && a.routes.contains(y) && #[trigger] FlowRoute::ranks(x, y)
                && FlowRoute::ranks(y, x) implies x == y by {
            lemma_routes_differ(x, y);
        }
    }
    lemma_sorted_unique::<FlowRoute>(a.routes, b.routes);
    assert(tells_apart::<FlowResource>(a.resources)) by {
        assert forall|x: FlowResourceView, y: FlowResourceView|
            a.resources.contains(x) && a.resources.contains(y) && #[trigger] FlowResource::ranks(
                x,
                y,
            ) && FlowResource::ranks(y, x) implies x == y by {
            lemma_resources_differ(x, y);
        }
    }
    lemma_sorted_unique::<FlowResource>(a.resources, b.resources);
    assert(tells_apart::<FlowImport>(a.imports)) by {
        assert forall|x: FlowImportView, y: FlowImportView|
            a.imports.contains(x) && a.imports.contains(y) && #[trigger] FlowImport::ranks(x, y)
                && FlowImport::ranks(y, x) implies x == y by {
            lemma_list_le_antisymmetric(
                one_or_two(x.resource_id, x.alias),
                one_or_two(y.resource_id, y.alias),
            );
            lemma_pairs_differ(x.resource_id, x.alias, y.resource_id, y.alias);
        }
    }
    lemma_sorted_unique::<FlowImport>(a.imports, b.imports);
    let scopes = a.policies.write_scopes;
    assert(tells_apart::<WriteScope>(scopes)) by {
        assert forall|x: WriteScopeView, y: WriteScopeView|
            scopes.contains(x) && scopes.contains(y) && #[trigger] WriteScope::ranks(x, y)
                && WriteScope::ranks(y, x) implies x == y by {
            lemma_scopes_differ(x, y);
        }
    }
    lemma_sorted_unique::<WriteScope>(scopes, b.policies.write_scopes);
    assert(tells_apart::<String>(a.extensions)) by {
        assert forall|x: Seq<char>, y: Seq<char>|
            a.extensions.contains(x) && a.extensions.contains(y) && #[trigger] String::ranks(x, y)
                && String::ranks(y, x) implies x == y by {
            lemma_text_le_antisymmetric(x, y);
        }
    }
    lemma_sorted_unique::<String>(a.extensions, b.extensions);
}

} // verus!
