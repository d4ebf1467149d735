//! What a flow package is made of.
use vstd::prelude::*;

use crate::text::same;

use super::predicate::{ArtifactRef, FlowPredicate, PredicateView};

verus! {

broadcast use vstd::string::group_string_axioms;

/// Who carries a node out.
#[derive(Debug, Clone, Copy, PartialEq, Eq, Structural)]
pub enum NodeDriver {
    Agent,
    Script,
    Review,
    Human,
}

impl DeepView for NodeDriver {
    type V = NodeDriver;

    open spec fn deep_view(&self) -> NodeDriver {
        *self
    }
}

/// When a contract counts as met.
#[derive(Debug, Clone, Copy, PartialEq, Eq, Structural)]
pub enum ContractCompletion {
    Manual,
    AllArtifacts,
}

impl DeepView for ContractCompletion {
    type V = ContractCompletion;

    open spec fn deep_view(&self) -> ContractCompletion {
        *self
    }
}

/// What an embedded file is for.
#[derive(Debug, Clone, Copy, PartialEq, Eq, Structural)]
pub enum ResourceKind {
    Schema,
    Rule,
    Profile,
    View,
    Prompt,
    Script,
    Flow,
    Readme,
    Skill,
}

impl DeepView for ResourceKind {
    type V = ResourceKind;

    open spec fn deep_view(&self) -> ResourceKind {
        *self
    }
}

/// What a node may write.
#[derive(Debug, PartialEq, Eq)]
pub enum WriteScope {
    Artifact(String),
    Resource(String),
    Workspace,
    System,
}

#[verifier::ext_equal]
pub enum WriteScopeView {
    Artifact(Seq<char>),
    Resource(Seq<char>),
    Workspace,
    System,
}

impl DeepView for WriteScope {
    type V = WriteScopeView;

    open spec fn deep_view(&self) -> WriteScopeView {
        match self {
            WriteScope::Artifact(id) => WriteScopeView::Artifact(id@),
            WriteScope::Resource(id) => WriteScopeView::Resource(id@),
            WriteScope::Workspace => WriteScopeView::Workspace,
            WriteScope::System => WriteScopeView::System,
        }
    }
}

impl Clone for WriteScope {
    fn clone(&self) -> (r: Self)
        ensures
            r.deep_view() == self.deep_view(),
    {
        match self {
            WriteScope::Artifact(id) => WriteScope::Artifact(id.clone()),
            WriteScope::Resource(id) => WriteScope::Resource(id.clone()),
            WriteScope::Workspace => WriteScope::Workspace,
            WriteScope::System => WriteScope::System,
        }
    }
}

impl WriteScopeView {
    /// Whether the scope reaches beyond one artifact or resource.
    pub open spec fn is_broad(self) -> bool {
        self is Workspace || self is System
    }

    pub open spec fn tag(self) -> Seq<char> {
        match self {
            WriteScopeView::Artifact(_) => "artifact"@,
            WriteScopeView::Resource(_) => "resource"@,
            WriteScopeView::Workspace => "workspace"@,
            WriteScopeView::System => "system"@,
        }
    }
}

impl WriteScope {
    pub fn is_broad(&self) -> (r: bool)
        ensures
            r == self.deep_view().is_broad(),
    {
        match self {
            WriteScope::Workspace | WriteScope::System => true,
            _ => false,
        }
    }

    pub fn tag(&self) -> (r: &'static str)
        ensures
            r@ == self.deep_view().tag(),
    {
        match self {
            WriteScope::Artifact(_) => "artifact",
            WriteScope::Resource(_) => "resource",
            WriteScope::Workspace => "workspace",
            WriteScope::System => "system",
        }
    }

    /// Whether two scopes are the same.
    pub fn is_same(&self, other: &Self) -> (r: bool)
        ensures
            r == (self.deep_view() == other.deep_view()),
    {
        match (self, other) {
            (WriteScope::Artifact(a), WriteScope::Artifact(b)) => same(a.as_str(), b.as_str()),
            (WriteScope::Resource(a), WriteScope::Resource(b)) => same(a.as_str(), b.as_str()),
            (WriteScope::Workspace, WriteScope::Workspace) => true,
            (WriteScope::System, WriteScope::System) => true,
            (_, _) => false,
        }
    }
}

/// How a node is carried out.
#[derive(Debug, PartialEq, Eq)]
pub struct NodeAction {
    pub driver: NodeDriver,
    pub prompt_ref: Option<String>,
    pub resource_refs: Vec<String>,
    pub reads: Vec<String>,
    pub writes: Vec<String>,
    pub verdict_artifact: Option<String>,
}

#[verifier::ext_equal]
pub struct NodeActionView {
    pub driver: NodeDriver,
    pub prompt_ref: Option<Seq<char>>,
    pub resource_refs: Seq<Seq<char>>,
    pub reads: Seq<Seq<char>>,
    pub writes: Seq<Seq<char>>,
    pub verdict_artifact: Option<Seq<char>>,
}

impl DeepView for NodeAction {
    type V = NodeActionView;

    open spec fn deep_view(&self) -> NodeActionView {
        NodeActionView {
            driver: self.driver,
            prompt_ref: self.prompt_ref.deep_view(),
            resource_refs: self.resource_refs.deep_view(),
            reads: self.reads.deep_view(),
            writes: self.writes.deep_view(),
            verdict_artifact: self.verdict_artifact.deep_view(),
        }
    }
}

impl Clone for NodeAction {
    fn clone(&self) -> (r: Self)
        ensures
            r.deep_view() == self.deep_view(),
    {
        let r = NodeAction {
            driver: self.driver,
            prompt_ref: self.prompt_ref.clone(),
            resource_refs: self.resource_refs.clone(),
            reads: self.reads.clone(),
            writes: self.writes.clone(),
            verdict_artifact: self.verdict_artifact.clone(),
        };
        assert(r.prompt_ref.deep_view() =~= self.prompt_ref.deep_view());
        assert(r.resource_refs.deep_view() =~= self.resource_refs.deep_view());
        assert(r.reads.deep_view() =~= self.reads.deep_view());
        assert(r.writes.deep_view() =~= self.writes.deep_view());
        assert(r.verdict_artifact.deep_view() =~= self.verdict_artifact.deep_view());
        r
    }
}

/// A unit of work.
#[derive(Debug, PartialEq, Eq)]
pub struct FlowNode {
    pub id: String,
    pub contract_id: Option<String>,
    pub action: Option<NodeAction>,
    pub write_scopes: Vec<WriteScope>,
    pub extensions: Vec<String>,
}

#[verifier::ext_equal]
pub struct FlowNodeView {
    pub id: Seq<char>,
    pub contract_id: Option<Seq<char>>,
    pub action: Option<NodeActionView>,
    pub write_scopes: Seq<WriteScopeView>,
    pub extensions: Seq<Seq<char>>,
}

impl DeepView for FlowNode {
    type V = FlowNodeView;

    open spec fn deep_view(&self) -> FlowNodeView {
        FlowNodeView {
            id: self.id.deep_view(),
            contract_id: self.contract_id.deep_view(),
            action: self.action.deep_view(),
            write_scopes: self.write_scopes.deep_view(),
            extensions: self.extensions.deep_view(),
        }
    }
}

impl Clone for FlowNode {
    fn clone(&self) -> (r: Self)
        ensures
            r.deep_view() == self.deep_view(),
    {
        let r = FlowNode {
            id: self.id.clone(),
            contract_id: self.contract_id.clone(),
            action: self.action.clone(),
            write_scopes: self.write_scopes.clone(),
            extensions: self.extensions.clone(),
        };
        assert(r.contract_id.deep_view() =~= self.contract_id.deep_view());
        assert(r.action.deep_view() =~= self.action.deep_view());
        assert(r.write_scopes.deep_view() =~= self.write_scopes.deep_view());
        assert(r.extensions.deep_view() =~= self.extensions.deep_view());
        r
    }
}

/// An artifact that a contract asks for.
#[derive(Debug, PartialEq, Eq)]
pub struct ContractArtifact {
    pub id: String,
    pub schema_resource_id: Option<String>,
}

#[verifier::ext_equal]
pub struct ContractArtifactView {
    pub id: Seq<char>,
    pub schema_resource_id: Option<Seq<char>>,
}

impl DeepView for ContractArtifact {
    type V = ContractArtifactView;

    open spec fn deep_view(&self) -> ContractArtifactView {
        ContractArtifactView {
            id: self.id.deep_view(),
            schema_resource_id: self.schema_resource_id.deep_view(),
        }
    }
}

impl Clone for ContractArtifact {
    fn clone(&self) -> (r: Self)
        ensures
            r.deep_view() == self.deep_view(),
    {
        let r = ContractArtifact {
            id: self.id.clone(),
            schema_resource_id: self.schema_resource_id.clone(),
        };
        assert(r.schema_resource_id.deep_view() =~= self.schema_resource_id.deep_view());
        r
    }
}

/// What a node owes.
#[derive(Debug, PartialEq, Eq)]
pub struct FlowContract {
    pub id: String,
    pub completion: Option<ContractCompletion>,
    pub artifacts: Vec<ContractArtifact>,
}

#[verifier::ext_equal]
pub struct FlowContractView {
    pub id: Seq<char>,
    pub completion: Option<ContractCompletion>,
    pub artifacts: Seq<ContractArtifactView>,
}

impl DeepView for FlowContract {
    type V = FlowContractView;

    open spec fn deep_view(&self) -> FlowContractView {
        FlowContractView {
            id: self.id.deep_view(),
            completion: self.completion,
            artifacts: self.artifacts.deep_view(),
        }
    }
}

impl Clone for FlowContract {
    fn clone(&self) -> (r: Self)
        ensures
            r.deep_view() == self.deep_view(),
    {
        let r = FlowContract {
            id: self.id.clone(),
            completion: self.completion,
            artifacts: self.artifacts.clone(),
        };
        assert(r.completion.deep_view() =~= self.completion.deep_view());
        assert(r.artifacts.deep_view() =~= self.artifacts.deep_view());
        r
    }
}

/// When a fact activates a node.
#[derive(Debug, PartialEq, Eq)]
pub struct FlowRoute {
    pub predicate: FlowPredicate,
    pub for_each: Option<ArtifactRef>,
    pub activate: String,
}

#[verifier::ext_equal]
pub struct FlowRouteView {
    pub predicate: PredicateView,
    pub for_each: Option<Seq<char>>,
    pub activate: Seq<char>,
}

impl DeepView for FlowRoute {
    type V = FlowRouteView;

    open spec fn deep_view(&self) -> FlowRouteView {
        FlowRouteView {
            predicate: self.predicate.deep_view(),
            for_each: self.for_each.deep_view(),
            activate: self.activate.deep_view(),
        }
    }
}

impl Clone for FlowRoute {
    fn clone(&self) -> (r: Self)
        ensures
            r.deep_view() == self.deep_view(),
    {
        let r = FlowRoute {
            predicate: self.predicate.clone(),
            for_each: self.for_each.clone(),
            activate: self.activate.clone(),
        };
        assert(r.for_each.deep_view() =~= self.for_each.deep_view());
        r
    }
}

/// A file embedded in the package.
#[derive(Debug, PartialEq, Eq)]
pub struct FlowResource {
    pub id: String,
    pub kind: ResourceKind,
    pub source: String,
}

#[verifier::ext_equal]
pub struct FlowResourceView {
    pub id: Seq<char>,
    pub kind: ResourceKind,
    pub source: Seq<char>,
}

impl DeepView for FlowResource {
    type V = FlowResourceView;

    open spec fn deep_view(&self) -> FlowResourceView {
        FlowResourceView {
            id: self.id.deep_view(),
            kind: self.kind,
            source: self.source.deep_view(),
        }
    }
}

impl Clone for FlowResource {
    fn clone(&self) -> (r: Self)
        ensures
            r.deep_view() == self.deep_view(),
    {
        let r = FlowResource {
            id: self.id.clone(),
            kind: self.kind,
            source: self.source.clone(),
        };
        r
    }
}

/// A resource that the flow uses, under a name of its own.
#[derive(Debug, PartialEq, Eq)]
pub struct FlowImport {
    pub resource_id: String,
    pub alias: Option<String>,
}

#[verifier::ext_equal]
pub struct FlowImportView {
    pub resource_id: Seq<char>,
    pub alias: Option<Seq<char>>,
}

impl DeepView for FlowImport {
    type V = FlowImportView;

    open spec fn deep_view(&self) -> FlowImportView {
        FlowImportView {
            resource_id: self.resource_id.deep_view(),
            alias: self.alias.deep_view(),
        }
    }
}

impl Clone for FlowImport {
    fn clone(&self) -> (r: Self)
        ensures
            r.deep_view() == self.deep_view(),
    {
        let r = FlowImport {
            resource_id: self.resource_id.clone(),
            alias: self.alias.clone(),
        };
        assert(r.alias.deep_view() =~= self.alias.deep_view());
        r
    }
}

/// What the package as a whole allows.
#[derive(Debug, PartialEq, Eq)]
pub struct FlowPolicies {
    pub write_scopes: Vec<WriteScope>,
}

#[verifier::ext_equal]
pub struct FlowPoliciesView {
    pub write_scopes: Seq<WriteScopeView>,
}

impl DeepView for FlowPolicies {
    type V = FlowPoliciesView;

    open spec fn deep_view(&self) -> FlowPoliciesView {
        FlowPoliciesView {
            write_scopes: self.write_scopes.deep_view(),
        }
    }
}

impl Clone for FlowPolicies {
    fn clone(&self) -> (r: Self)
        ensures
            r.deep_view() == self.deep_view(),
    {
        let r = FlowPolicies {
            write_scopes: self.write_scopes.clone(),
        };
        assert(r.write_scopes.deep_view() =~= self.write_scopes.deep_view());
        r
    }
}

/// A flow package under authorship.
#[derive(Debug, PartialEq, Eq)]
pub struct FlowDraft {
    pub nodes: Vec<FlowNode>,
    pub contracts: Vec<FlowContract>,
    pub routes: Vec<FlowRoute>,
    pub resources: Vec<FlowResource>,
    pub imports: Vec<FlowImport>,
    pub policies: FlowPolicies,
    pub extensions: Vec<String>,
}

#[verifier::ext_equal]
pub struct FlowDraftView {
    pub nodes: Seq<FlowNodeView>,
    pub contracts: Seq<FlowContractView>,
    pub routes: Seq<FlowRouteView>,
    pub resources: Seq<FlowResourceView>,
    pub imports: Seq<FlowImportView>,
    pub policies: FlowPoliciesView,
    pub extensions: Seq<Seq<char>>,
}

impl DeepView for FlowDraft {
    type V = FlowDraftView;

    open spec fn deep_view(&self) -> FlowDraftView {
        FlowDraftView {
            nodes: self.nodes.deep_view(),
            contracts: self.contracts.deep_view(),
            routes: self.routes.deep_view(),
            resources: self.resources.deep_view(),
            imports: self.imports.deep_view(),
            policies: self.policies.deep_view(),
            extensions: self.extensions.deep_view(),
        }
    }
}

impl Clone for FlowDraft {
    fn clone(&self) -> (r: Self)
        ensures
            r.deep_view() == self.deep_view(),
    {
        let r = FlowDraft {
            nodes: self.nodes.clone(),
            contracts: self.contracts.clone(),
            routes: self.routes.clone(),
            resources: self.resources.clone(),
            imports: self.imports.clone(),
            policies: self.policies.clone(),
            extensions: self.extensions.clone(),
        };
        assert(r.nodes.deep_view() =~= self.nodes.deep_view());
        assert(r.contracts.deep_view() =~= self.contracts.deep_view());
        assert(r.routes.deep_view() =~= self.routes.deep_view());
        assert(r.resources.deep_view() =~= self.resources.deep_view());
        assert(r.imports.deep_view() =~= self.imports.deep_view());
        assert(r.extensions.deep_view() =~= self.extensions.deep_view());
        r
    }
}

impl ResourceKind {
    pub open spec fn name(self) -> Seq<char> {
        match self {
            ResourceKind::Schema => "schema"@,
            ResourceKind::Rule => "rule"@,
            ResourceKind::Profile => "profile"@,
            ResourceKind::View => "view"@,
            ResourceKind::Prompt => "prompt"@,
            ResourceKind::Script => "script"@,
            ResourceKind::Flow => "flow"@,
            ResourceKind::Readme => "readme"@,
            ResourceKind::Skill => "skill"@,
        }
    }

    pub fn as_str(&self) -> (r: &'static str)
        ensures
            r@ == self.name(),
    {
        match self {
            ResourceKind::Schema => "schema",
            ResourceKind::Rule => "rule",
            ResourceKind::Profile => "profile",
            ResourceKind::View => "view",
            ResourceKind::Prompt => "prompt",
            ResourceKind::Script => "script",
            ResourceKind::Flow => "flow",
            ResourceKind::Readme => "readme",
            ResourceKind::Skill => "skill",
        }
    }
}

impl NodeDriver {
    pub open spec fn name(self) -> Seq<char> {
        match self {
            NodeDriver::Agent => "agent"@,
            NodeDriver::Script => "script"@,
            NodeDriver::Review => "review"@,
            NodeDriver::Human => "human"@,
        }
    }

    pub fn as_str(&self) -> (r: &'static str)
        ensures
            r@ == self.name(),
    {
        match self {
            NodeDriver::Agent => "agent",
            NodeDriver::Script => "script",
            NodeDriver::Review => "review",
            NodeDriver::Human => "human",
        }
    }
}

impl ContractCompletion {
    pub open spec fn name(self) -> Seq<char> {
        match self {
            ContractCompletion::Manual => "manual"@,
            ContractCompletion::AllArtifacts => "all_artifacts"@,
        }
    }

    pub fn as_str(&self) -> (r: &'static str)
        ensures
            r@ == self.name(),
    {
        match self {
            ContractCompletion::Manual => "manual",
            ContractCompletion::AllArtifacts => "all_artifacts",
        }
    }
}

impl FlowPoliciesView {
    pub open spec fn none() -> FlowPoliciesView {
        FlowPoliciesView { write_scopes: Seq::empty() }
    }
}

impl Default for FlowPolicies {
    fn default() -> (r: Self)
        ensures
            r.deep_view() == FlowPoliciesView::none(),
    {
        let r = FlowPolicies { write_scopes: Vec::new() };
        assert(r.deep_view() =~= FlowPoliciesView::none());
        r
    }
}

impl FlowDraftView {
    pub open spec fn blank() -> FlowDraftView {
        FlowDraftView {
            nodes: Seq::empty(),
            contracts: Seq::empty(),
            routes: Seq::empty(),
            resources: Seq::empty(),
            imports: Seq::empty(),
            policies: FlowPoliciesView::none(),
            extensions: Seq::empty(),
        }
    }
}

impl Default for FlowDraft {
    fn default() -> (r: Self)
        ensures
            r.deep_view() == FlowDraftView::blank(),
    {
        let r = FlowDraft {
            nodes: Vec::new(),
            contracts: Vec::new(),
            routes: Vec::new(),
            resources: Vec::new(),
            imports: Vec::new(),
            policies: FlowPolicies::default(),
            extensions: Vec::new(),
        };
        assert(r.deep_view() =~= FlowDraftView::blank());
        r
    }
}

impl FlowNodeView {
    pub open spec fn blank() -> FlowNodeView {
        FlowNodeView {
            id: Seq::empty(),
            contract_id: None,
            action: None,
            write_scopes: Seq::empty(),
            extensions: Seq::empty(),
        }
    }
}

impl Default for FlowNode {
    fn default() -> (r: Self)
        ensures
            r.deep_view() == FlowNodeView::blank(),
    {
        let r = FlowNode {
            id: String::new(),
            contract_id: None,
            action: None,
            write_scopes: Vec::new(),
            extensions: Vec::new(),
        };
        assert(r.deep_view() =~= FlowNodeView::blank());
        r
    }
}

} // verus!
