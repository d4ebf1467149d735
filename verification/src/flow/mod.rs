//! Flows: what they are made of, how they are checked, locked, stored and suggested.
pub mod canonical;
pub mod check;
pub mod contents;
pub mod contract;
pub mod diagnostic;
pub mod directory;
pub mod document;
pub mod export;
pub mod keeping;
pub mod lock;
pub mod marks;
pub mod model;
pub mod modes;
pub mod outlines;
pub mod owing;
pub mod package;
pub mod predicate;
pub mod profile;
pub mod reordered;
pub mod repair;
pub mod reported;
pub mod roundtrip;
pub mod shallow;
pub mod soundness;
pub mod suggest;
pub mod suggested;

pub use check::{canonical_route_identity, flow_check};
pub use contract::{
    effective_node_write_scopes, flow_draft_contract_effects, set_flow_draft_contract_effects,
    AdapterCapability, ArtifactRequirement, CompletionPolicy, EffectRequirement, NodeContract,
    StopGate,
};
pub use diagnostic::{
    CheckReport, Diagnostic, DiagnosticDomain, FlowCheckMode, RepairKind, Repairability,
    RunCompatibility, RunCompatibilityResult, Severity,
};
pub use export::{flow_export, FlowExportFormat};
pub use lock::{flow_lock, FlowLock, FlowLockError};
pub use model::{
    ContractArtifact, ContractCompletion, FlowContract, FlowDraft, FlowImport, FlowNode,
    FlowPolicies, FlowResource, FlowRoute, NodeAction, NodeDriver, ResourceKind, WriteScope,
};
pub use package::FlowLockDirectoryError;
pub use predicate::{ArtifactRef, FactError, FactKey, FactRef, FlowPredicate};
pub use profile::{
    flow_draft_qos, flow_node_work_profile, set_flow_draft_qos, set_flow_node_work_profile,
    FlowQosIntent, NetworkAccess, QosUrgency, ToolExecution, WorkIntent, WorkProfile,
    WorkspaceAccess,
};
pub use repair::{
    flow_check_run_compatibility, flow_repair, FlowRepairCandidate, FlowRepairInput,
    FlowRepairReport,
};
pub use suggest::{flow_suggest, FlowSuggestError, FlowSuggestInput};
