//! What has a name has one of its own.
use vstd::prelude::*;

use crate::driver::wire::{ActivationStatus, FlowLockMode, RunMode, RunStatus, StopDecisionKind};
use crate::flow::diagnostic::{DiagnosticDomain, FlowCheckMode, RepairKind, Repairability, Severity};
use crate::flow::model::{ContractCompletion, NodeDriver, ResourceKind};
use crate::input_ledger::MachineInputStatus;

verus! {

broadcast use vstd::string::group_string_axioms;

/// No two statuses of runs share a name.
pub proof fn lemma_run_statuses_have_names_of_their_own(a: RunStatus, b: RunStatus)
    requires
        a.name() == b.name(),
    ensures
        a == b,
{
    reveal_strlit("pending_review");
    reveal_strlit("ready");
    reveal_strlit("running");
    reveal_strlit("paused");
    reveal_strlit("blocked");
    reveal_strlit("quiescent");
    reveal_strlit("completed");
    reveal_strlit("failed");
    reveal_strlit("stopping");
    reveal_strlit("stopped");
    assert("pending_review"@.len() == 14);
    assert("ready"@.len() == 5);
    assert("running"@.len() == 7);
    assert("paused"@.len() == 6);
    assert("blocked"@.len() == 7);
    assert("quiescent"@.len() == 9);
    assert("completed"@.len() == 9);
    assert("failed"@.len() == 6);
    assert("stopping"@.len() == 8);
    assert("stopped"@.len() == 7);
    assert("running"@[0] == 'r');
    assert("blocked"@[0] == 'b');
    assert("stopped"@[0] == 's');
    assert("paused"@[0] == 'p');
    assert("failed"@[0] == 'f');
    assert("quiescent"@[0] == 'q');
    assert("completed"@[0] == 'c');
}

/// No two modes of runs share a name.
pub proof fn lemma_run_modes_have_names_of_their_own(a: RunMode, b: RunMode)
    requires
        a.name() == b.name(),
    ensures
        a == b,
{
    reveal_strlit("finite");
    reveal_strlit("continuous");
    reveal_strlit("manual");
    assert("finite"@.len() == 6);
    assert("continuous"@.len() == 10);
    assert("manual"@.len() == 6);
    assert("finite"@[0] == 'f');
    assert("manual"@[0] == 'm');
}

/// No two statuses of activations share a name.
pub proof fn lemma_activation_statuses_have_names_of_their_own(
    a: ActivationStatus,
    b: ActivationStatus,
)
    requires
        a.name() == b.name(),
    ensures
        a == b,
{
    reveal_strlit("pending");
    reveal_strlit("starting");
    reveal_strlit("running");
    reveal_strlit("waiting_for_stop");
    reveal_strlit("validating_stop");
    reveal_strlit("blocked");
    reveal_strlit("completed");
    reveal_strlit("failed");
    reveal_strlit("cancelled");
    assert("pending"@.len() == 7);
    assert("starting"@.len() == 8);
    assert("running"@.len() == 7);
    assert("waiting_for_stop"@.len() == 16);
    assert("validating_stop"@.len() == 15);
    assert("blocked"@.len() == 7);
    assert("completed"@.len() == 9);
    assert("failed"@.len() == 6);
    assert("cancelled"@.len() == 9);
    assert("pending"@[0] == 'p');
    assert("running"@[0] == 'r');
    assert("blocked"@[0] == 'b');
    assert("completed"@[1] == 'o');
    assert("cancelled"@[1] == 'a');
}

/// No two ways to apply a lock share a name.
pub proof fn lemma_lock_modes_have_names_of_their_own(a: FlowLockMode, b: FlowLockMode)
    requires
        a.name() == b.name(),
    ensures
        a == b,
{
    reveal_strlit("future_activations");
    reveal_strlit("checkpoint_restart");
    assert("future_activations"@.len() == 18);
    assert("checkpoint_restart"@.len() == 18);
    assert("future_activations"@[0] == 'f');
    assert("checkpoint_restart"@[0] == 'c');
}

/// No two decisions on a stop share a name.
pub proof fn lemma_stop_decisions_have_names_of_their_own(a: StopDecisionKind, b: StopDecisionKind)
    requires
        a.name() == b.name(),
    ensures
        a == b,
{
    reveal_strlit("allow");
    reveal_strlit("deny");
    reveal_strlit("block");
    reveal_strlit("yield");
    assert("allow"@.len() == 5);
    assert("deny"@.len() == 4);
    assert("block"@.len() == 5);
    assert("yield"@.len() == 5);
    assert("allow"@[0] == 'a');
    assert("block"@[0] == 'b');
    assert("yield"@[0] == 'y');
}

/// No two severities share a name.
pub proof fn lemma_severities_have_names_of_their_own(a: Severity, b: Severity)
    requires
        a.name() == b.name(),
    ensures
        a == b,
{
    reveal_strlit("fatal");
    reveal_strlit("error");
    reveal_strlit("warning");
    reveal_strlit("note");
    assert("fatal"@.len() == 5);
    assert("error"@.len() == 5);
    assert("warning"@.len() == 7);
    assert("note"@.len() == 4);
    assert("fatal"@[0] == 'f');
    assert("error"@[0] == 'e');
}

/// No two ways to check share a name.
pub proof fn lemma_check_modes_have_names_of_their_own(a: FlowCheckMode, b: FlowCheckMode)
    requires
        a.name() == b.name(),
    ensures
        a == b,
{
    reveal_strlit("core");
    reveal_strlit("strict");
    assert("core"@.len() == 4);
    assert("strict"@.len() == 6);
}

/// No two domains of findings share a name.
pub proof fn lemma_domains_have_names_of_their_own(a: DiagnosticDomain, b: DiagnosticDomain)
    requires
        a.name() == b.name(),
    ensures
        a == b,
{
    reveal_strlit("package");
    reveal_strlit("contract");
    reveal_strlit("resource");
    reveal_strlit("route");
    reveal_strlit("policy");
    reveal_strlit("runtime_compat");
    assert("package"@.len() == 7);
    assert("contract"@.len() == 8);
    assert("resource"@.len() == 8);
    assert("route"@.len() == 5);
    assert("policy"@.len() == 6);
    assert("runtime_compat"@.len() == 14);
    assert("contract"@[0] == 'c');
    assert("resource"@[0] == 'r');
}

/// No two degrees of repair share a name.
pub proof fn lemma_repairabilities_have_names_of_their_own(a: Repairability, b: Repairability)
    requires
        a.name() == b.name(),
    ensures
        a == b,
{
    reveal_strlit("automatic");
    reveal_strlit("candidate");
    reveal_strlit("guidance_only");
    reveal_strlit("none");
    assert("automatic"@.len() == 9);
    assert("candidate"@.len() == 9);
    assert("guidance_only"@.len() == 13);
    assert("none"@.len() == 4);
    assert("automatic"@[0] == 'a');
    assert("candidate"@[0] == 'c');
}

/// No two kinds of repair share a name.
pub proof fn lemma_repair_kinds_have_names_of_their_own(a: RepairKind, b: RepairKind)
    requires
        a.name() == b.name(),
    ensures
        a == b,
{
    reveal_strlit("add_route_target");
    reveal_strlit("add_artifact_schema");
    reveal_strlit("add_contract_completion");
    reveal_strlit("narrow_write_scope");
    reveal_strlit("provide_runtime_resource");
    assert("add_route_target"@.len() == 16);
    assert("add_artifact_schema"@.len() == 19);
    assert("add_contract_completion"@.len() == 23);
    assert("narrow_write_scope"@.len() == 18);
    assert("provide_runtime_resource"@.len() == 24);
}

/// No two kinds of resources share a name.
pub proof fn lemma_resource_kinds_have_names_of_their_own(a: ResourceKind, b: ResourceKind)
    requires
        a.name() == b.name(),
    ensures
        a == b,
{
    reveal_strlit("schema");
    reveal_strlit("rule");
    reveal_strlit("profile");
    reveal_strlit("view");
    reveal_strlit("prompt");
    reveal_strlit("script");
    reveal_strlit("flow");
    reveal_strlit("readme");
    reveal_strlit("skill");
    assert("schema"@.len() == 6);
    assert("rule"@.len() == 4);
    assert("profile"@.len() == 7);
    assert("view"@.len() == 4);
    assert("prompt"@.len() == 6);
    assert("script"@.len() == 6);
    assert("flow"@.len() == 4);
    assert("readme"@.len() == 6);
    assert("skill"@.len() == 5);
    assert("schema"@[0] == 's');
    assert("prompt"@[0] == 'p');
    assert("schema"@[2] == 'h');
    assert("script"@[2] == 'r');
    assert("readme"@[0] == 'r');
    assert("rule"@[0] == 'r');
    assert("view"@[0] == 'v');
    assert("flow"@[0] == 'f');
    assert("script"@[0] == 's');
}

/// No two drivers of nodes share a name.
pub proof fn lemma_node_drivers_have_names_of_their_own(a: NodeDriver, b: NodeDriver)
    requires
        a.name() == b.name(),
    ensures
        a == b,
{
    reveal_strlit("agent");
    reveal_strlit("script");
    reveal_strlit("review");
    reveal_strlit("human");
    assert("agent"@.len() == 5);
    assert("script"@.len() == 6);
    assert("review"@.len() == 6);
    assert("human"@.len() == 5);
    assert("agent"@[0] == 'a');
    assert("human"@[0] == 'h');
    assert("script"@[0] == 's');
    assert("review"@[0] == 'r');
}

/// No two ways to complete a contract share a name.
pub proof fn lemma_completions_have_names_of_their_own(a: ContractCompletion, b: ContractCompletion)
    requires
        a.name() == b.name(),
    ensures
        a == b,
{
    reveal_strlit("manual");
    reveal_strlit("all_artifacts");
    assert("manual"@.len() == 6);
    assert("all_artifacts"@.len() == 13);
}

/// No two statuses of input share a name.
pub proof fn lemma_input_statuses_have_names_of_their_own(
    a: MachineInputStatus,
    b: MachineInputStatus,
)
    requires
        a.name() == b.name(),
    ensures
        a == b,
{
    reveal_strlit("started");
    reveal_strlit("submitted");
    reveal_strlit("failed");
    assert("started"@.len() == 7);
    assert("submitted"@.len() == 9);
    assert("failed"@.len() == 6);
}

} // verus!
