//! What the two ways to check a flow have in common.
use vstd::prelude::*;

use super::check::{
    action_findings, all_contract_findings, all_contract_id_findings, all_extension_findings,
    all_import_findings, all_node_findings, all_node_id_findings, all_node_scope_findings,
    all_resource_findings, all_route_findings, artifact_id_findings, check_findings,
    node_extension_findings, qos_findings, readme_findings, resource_ref_findings,
    schema_findings, scope_findings,
};
use super::diagnostic::{any_blocks, DiagnosticView, FlowCheckMode, Severity};
use super::model::{FlowContractView, FlowDraftView, FlowNodeView, NodeActionView, WriteScopeView};

verus! {

/// The code of a write scope that reaches too far.
pub open spec fn broad_code() -> Seq<char> {
    "FLOW_BROAD_WRITE_SCOPE"@
}

/// A finding of the core check and what the strict check makes of it: a scope that reaches too
/// far is a warning of the one and an error of the other; everything else is the same.
pub open spec fn sharpened(core: DiagnosticView, strict: DiagnosticView) -> bool {
    if core.code == broad_code() {
        core.severity == Severity::Warning && strict == (DiagnosticView {
            severity: Severity::Error,
            ..core
        })
    } else {
        strict == core
    }
}

/// Whether the findings of the two checks stand side by side.
pub open spec fn side_by_side(core: Seq<DiagnosticView>, strict: Seq<DiagnosticView>) -> bool {
    &&& core.len() == strict.len()
    &&& forall|i: int| 0 <= i < core.len() ==> sharpened(#[trigger] core[i], strict[i])
}

/// Whether no finding is about a scope that reaches too far.
spec fn narrow(findings: Seq<DiagnosticView>) -> bool {
    forall|i: int| 0 <= i < findings.len() ==> (#[trigger] findings[i]).code != broad_code()
}

proof fn lemma_codes()
    ensures
        "FLOW_AUTHORING_PRIMITIVE_MISUSE"@ != broad_code(),
        "FLOW_DUPLICATE_CONTRACT_ARTIFACT"@ != broad_code(),
        "FLOW_DUPLICATE_CONTRACT_ID"@ != broad_code(),
        "FLOW_DUPLICATE_NODE_ID"@ != broad_code(),
        "FLOW_DUPLICATE_RESOURCE_PATH"@ != broad_code(),
        "FLOW_DUPLICATE_ROUTE"@ != broad_code(),
        "FLOW_EMPTY_ACTION_VERDICT_ARTIFACT"@ != broad_code(),
        "FLOW_EMPTY_QOS_COMPLETION_TARGET"@ != broad_code(),
        "FLOW_EMPTY_README"@ != broad_code(),
        "FLOW_INVALID_ACTION_PROMPT"@ != broad_code(),
        "FLOW_INVALID_README_PATH"@ != broad_code(),
        "FLOW_INVALID_RESOURCE_PATH"@ != broad_code(),
        "FLOW_INVALID_SKILL_PATH"@ != broad_code(),
        "FLOW_MISSING_ARTIFACT_SCHEMA"@ != broad_code(),
        "FLOW_MISSING_CONTRACT_COMPLETION"@ != broad_code(),
        "FLOW_MISSING_README"@ != broad_code(),
        "FLOW_UNKNOWN_ACTION_PROMPT"@ != broad_code(),
        "FLOW_UNKNOWN_ACTION_RESOURCE"@ != broad_code(),
        "FLOW_UNKNOWN_NODE_CONTRACT"@ != broad_code(),
        "FLOW_UNKNOWN_ROUTE_TARGET"@ != broad_code(),
        "FLOW_UNRESOLVED_IMPORT"@ != broad_code(),
        "FLOW_UNSUPPORTED_SCRIPT_ACTION_DRIVER"@ != broad_code(),
{
    reveal_strlit("FLOW_BROAD_WRITE_SCOPE");
    assert(broad_code()[5] == 'B');
    reveal_strlit("FLOW_AUTHORING_PRIMITIVE_MISUSE");
    assert("FLOW_AUTHORING_PRIMITIVE_MISUSE"@[5] == 'A');
    reveal_strlit("FLOW_DUPLICATE_CONTRACT_ARTIFACT");
    assert("FLOW_DUPLICATE_CONTRACT_ARTIFACT"@[5] == 'D');
    reveal_strlit("FLOW_DUPLICATE_CONTRACT_ID");
    assert("FLOW_DUPLICATE_CONTRACT_ID"@[5] == 'D');
    reveal_strlit("FLOW_DUPLICATE_NODE_ID");
    assert("FLOW_DUPLICATE_NODE_ID"@[5] == 'D');
    reveal_strlit("FLOW_DUPLICATE_RESOURCE_PATH");
    assert("FLOW_DUPLICATE_RESOURCE_PATH"@[5] == 'D');
    reveal_strlit("FLOW_DUPLICATE_ROUTE");
    assert("FLOW_DUPLICATE_ROUTE"@[5] == 'D');
    reveal_strlit("FLOW_EMPTY_ACTION_VERDICT_ARTIFACT");
    assert("FLOW_EMPTY_ACTION_VERDICT_ARTIFACT"@[5] == 'E');
    reveal_strlit("FLOW_EMPTY_QOS_COMPLETION_TARGET");
    assert("FLOW_EMPTY_QOS_COMPLETION_TARGET"@[5] == 'E');
    reveal_strlit("FLOW_EMPTY_README");
    assert("FLOW_EMPTY_README"@[5] == 'E');
    reveal_strlit("FLOW_INVALID_ACTION_PROMPT");
    assert("FLOW_INVALID_ACTION_PROMPT"@[5] == 'I');
    reveal_strlit("FLOW_INVALID_README_PATH");
    assert("FLOW_INVALID_README_PATH"@[5] == 'I');
    reveal_strlit("FLOW_INVALID_RESOURCE_PATH");
    assert("FLOW_INVALID_RESOURCE_PATH"@[5] == 'I');
    reveal_strlit("FLOW_INVALID_SKILL_PATH");
    assert("FLOW_INVALID_SKILL_PATH"@[5] == 'I');
    reveal_strlit("FLOW_MISSING_ARTIFACT_SCHEMA");
    assert("FLOW_MISSING_ARTIFACT_SCHEMA"@[5] == 'M');
    reveal_strlit("FLOW_MISSING_CONTRACT_COMPLETION");
    assert("FLOW_MISSING_CONTRACT_COMPLETION"@[5] == 'M');
    reveal_strlit("FLOW_MISSING_README");
    assert("FLOW_MISSING_README"@[5] == 'M');
    reveal_strlit("FLOW_UNKNOWN_ACTION_PROMPT");
    assert("FLOW_UNKNOWN_ACTION_PROMPT"@[5] == 'U');
    reveal_strlit("FLOW_UNKNOWN_ACTION_RESOURCE");
    assert("FLOW_UNKNOWN_ACTION_RESOURCE"@[5] == 'U');
    reveal_strlit("FLOW_UNKNOWN_NODE_CONTRACT");
    assert("FLOW_UNKNOWN_NODE_CONTRACT"@[5] == 'U');
    reveal_strlit("FLOW_UNKNOWN_ROUTE_TARGET");
    assert("FLOW_UNKNOWN_ROUTE_TARGET"@[5] == 'U');
    reveal_strlit("FLOW_UNRESOLVED_IMPORT");
    assert("FLOW_UNRESOLVED_IMPORT"@[5] == 'U');
    reveal_strlit("FLOW_UNSUPPORTED_SCRIPT_ACTION_DRIVER");
    assert("FLOW_UNSUPPORTED_SCRIPT_ACTION_DRIVER"@[5] == 'U');
}

proof fn lemma_narrow_add(a: Seq<DiagnosticView>, b: Seq<DiagnosticView>)
    requires
        narrow(a),
        narrow(b),
    ensures
        narrow(a + b),
{
    assert forall|i: int| 0 <= i < (a + b).len() implies (#[trigger] (a + b)[i]).code
        != broad_code() by {
        if i < a.len() {
            assert((a + b)[i] == a[i]);
        } else {
            assert((a + b)[i] == b[i - a.len()]);
        }
    }
}

proof fn lemma_narrow_node_ids(d: FlowDraftView, n: int)
    ensures
        narrow(all_node_id_findings(d, n)),
    decreases n,
{
    lemma_codes();
    if n > 0 {
        lemma_narrow_node_ids(d, n - 1);
        assert(narrow(super::check::node_id_findings(d, n - 1)));
        lemma_narrow_add(all_node_id_findings(d, n - 1), super::check::node_id_findings(d, n - 1));
    }
}

proof fn lemma_narrow_imports(d: FlowDraftView, n: int)
    ensures
        narrow(all_import_findings(d, n)),
    decreases n,
{
    lemma_codes();
    if n > 0 {
        lemma_narrow_imports(d, n - 1);
        assert(narrow(super::check::import_findings(d, n - 1)));
        lemma_narrow_add(all_import_findings(d, n - 1), super::check::import_findings(d, n - 1));
    }
}

proof fn lemma_narrow_extensions(d: FlowDraftView, n: int)
    ensures
        narrow(all_extension_findings(d, n)),
    decreases n,
{
    lemma_codes();
    if n > 0 {
        lemma_narrow_extensions(d, n - 1);
        assert(narrow(super::check::extension_findings(d, n - 1)));
        lemma_narrow_add(
            all_extension_findings(d, n - 1),
            super::check::extension_findings(d, n - 1),
        );
    }
}

proof fn lemma_narrow_artifact_ids(contract: FlowContractView, i: int, n: int)
    ensures
        narrow(artifact_id_findings(contract, i, n)),
    decreases n,
{
    lemma_codes();
    if n > 0 {
        lemma_narrow_artifact_ids(contract, i, n - 1);
    }
}

proof fn lemma_narrow_contract_ids(d: FlowDraftView, n: int)
    ensures
        narrow(all_contract_id_findings(d, n)),
    decreases n,
{
    lemma_codes();
    if n > 0 {
        lemma_narrow_contract_ids(d, n - 1);
        let contract = d.contracts[n - 1];
        lemma_narrow_artifact_ids(contract, n - 1, contract.artifacts.len() as int);
        assert(narrow(super::check::contract_id_findings(d, n - 1)));
        lemma_narrow_add(
            all_contract_id_findings(d, n - 1),
            super::check::contract_id_findings(d, n - 1),
        );
    }
}

proof fn lemma_narrow_resources(d: FlowDraftView, n: int)
    ensures
        narrow(all_resource_findings(d, n)),
    decreases n,
{
    lemma_codes();
    if n > 0 {
        lemma_narrow_resources(d, n - 1);
        assert(narrow(super::check::resource_findings(d, n - 1)));
        lemma_narrow_add(
            all_resource_findings(d, n - 1),
            super::check::resource_findings(d, n - 1),
        );
    }
}

proof fn lemma_narrow_routes(d: FlowDraftView, n: int)
    ensures
        narrow(all_route_findings(d, n)),
    decreases n,
{
    lemma_codes();
    if n > 0 {
        lemma_narrow_routes(d, n - 1);
        assert(narrow(super::check::route_findings(d, n - 1)));
        lemma_narrow_add(all_route_findings(d, n - 1), super::check::route_findings(d, n - 1));
    }
}

proof fn lemma_narrow_schemas(d: FlowDraftView, contract: FlowContractView, n: int)
    ensures
        narrow(schema_findings(d, contract, n)),
    decreases n,
{
    lemma_codes();
    if n > 0 {
        lemma_narrow_schemas(d, contract, n - 1);
        let finding = super::check::schema_finding(d, contract, contract.artifacts[n - 1]);
        assert(narrow(finding));
        lemma_narrow_add(schema_findings(d, contract, n - 1), finding);
    }
}

proof fn lemma_narrow_contracts(d: FlowDraftView, n: int)
    ensures
        narrow(all_contract_findings(d, n)),
    decreases n,
{
    lemma_codes();
    if n > 0 {
        lemma_narrow_contracts(d, n - 1);
        let contract = d.contracts[n - 1];
        lemma_narrow_schemas(d, contract, contract.artifacts.len() as int);
        assert(narrow(super::check::contract_findings(d, n - 1)));
        lemma_narrow_add(
            all_contract_findings(d, n - 1),
            super::check::contract_findings(d, n - 1),
        );
    }
}

proof fn lemma_narrow_references(
    d: FlowDraftView,
    node: FlowNodeView,
    action: NodeActionView,
    n: int,
)
    ensures
        narrow(resource_ref_findings(d, node, action, n)),
    decreases n,
{
    lemma_codes();
    if n > 0 {
        lemma_narrow_references(d, node, action, n - 1);
    }
}

proof fn lemma_narrow_node_extensions(node: FlowNodeView, n: int)
    ensures
        narrow(node_extension_findings(node, n)),
    decreases n,
{
    lemma_codes();
    if n > 0 {
        lemma_narrow_node_extensions(node, n - 1);
    }
}

proof fn lemma_narrow_action(d: FlowDraftView, node: FlowNodeView, action: NodeActionView)
    ensures
        narrow(action_findings(d, node, action)),
{
    lemma_codes();
    lemma_narrow_references(d, node, action, action.resource_refs.len() as int);
}

proof fn lemma_narrow_nodes(d: FlowDraftView, n: int)
    ensures
        narrow(all_node_findings(d, n)),
    decreases n,
{
    lemma_codes();
    if n > 0 {
        lemma_narrow_nodes(d, n - 1);
        let node = d.nodes[n - 1];
        lemma_narrow_node_extensions(node, node.extensions.len() as int);
        if let Some(action) = node.action {
            lemma_narrow_action(d, node, action);
        }
        assert(narrow(super::check::node_findings(d, n - 1)));
        lemma_narrow_add(all_node_findings(d, n - 1), super::check::node_findings(d, n - 1));
    }
}

proof fn lemma_side_by_side_add(
    a: Seq<DiagnosticView>,
    b: Seq<DiagnosticView>,
    x: Seq<DiagnosticView>,
    y: Seq<DiagnosticView>,
)
    requires
        side_by_side(a, b),
        side_by_side(x, y),
    ensures
        side_by_side(a + x, b + y),
{
    assert forall|i: int| 0 <= i < (a + x).len() implies sharpened(
        #[trigger] (a + x)[i],
        (b + y)[i],
    ) by {
        if i < a.len() {
            assert((a + x)[i] == a[i] && (b + y)[i] == b[i]);
        } else {
            assert((a + x)[i] == x[i - a.len()] && (b + y)[i] == y[i - a.len()]);
        }
    }
}

proof fn lemma_scopes_side_by_side(scopes: Seq<WriteScopeView>, place: Seq<char>, n: int)
    ensures
        side_by_side(
            scope_findings(scopes, FlowCheckMode::Core, place, n),
            scope_findings(scopes, FlowCheckMode::Strict, place, n),
        ),
    decreases n,
{
    if n > 0 {
        lemma_scopes_side_by_side(scopes, place, n - 1);
        let location = place + crate::number::decimal((n - 1) as nat) + "]"@;
        let core = super::check::broad_scope(scopes[n - 1], Severity::Warning, location);
        let strict = super::check::broad_scope(scopes[n - 1], Severity::Error, location);
        assert(side_by_side(core, strict));
        lemma_side_by_side_add(
            scope_findings(scopes, FlowCheckMode::Core, place, n - 1),
            scope_findings(scopes, FlowCheckMode::Strict, place, n - 1),
            core,
            strict,
        );
    }
}

proof fn lemma_node_scopes_side_by_side(d: FlowDraftView, n: int)
    ensures
        side_by_side(
            all_node_scope_findings(d, FlowCheckMode::Core, n),
            all_node_scope_findings(d, FlowCheckMode::Strict, n),
        ),
    decreases n,
{
    if n > 0 {
        lemma_node_scopes_side_by_side(d, n - 1);
        let node = d.nodes[n - 1];
        let place = "nodes["@ + node.id + "].write_scopes["@;
        lemma_scopes_side_by_side(node.write_scopes, place, node.write_scopes.len() as int);
        lemma_side_by_side_add(
            all_node_scope_findings(d, FlowCheckMode::Core, n - 1),
            all_node_scope_findings(d, FlowCheckMode::Strict, n - 1),
            super::check::node_scope_findings(d, FlowCheckMode::Core, n - 1),
            super::check::node_scope_findings(d, FlowCheckMode::Strict, n - 1),
        );
    }
}

/// The findings that both checks have, before those on write scopes.
spec fn common_findings(d: FlowDraftView) -> Seq<DiagnosticView> {
    all_node_id_findings(d, d.nodes.len() as int)
        + all_contract_id_findings(d, d.contracts.len() as int)
        + all_resource_findings(d, d.resources.len() as int)
        + all_import_findings(d, d.imports.len() as int)
        + readme_findings(d)
        + qos_findings(d)
        + all_route_findings(d, d.routes.len() as int)
        + all_contract_findings(d, d.contracts.len() as int)
        + all_extension_findings(d, d.extensions.len() as int)
        + all_node_findings(d, d.nodes.len() as int)
}

proof fn lemma_common_is_narrow(d: FlowDraftView)
    ensures
        narrow(common_findings(d)),
{
    lemma_codes();
    let a = all_node_id_findings(d, d.nodes.len() as int);
    lemma_narrow_node_ids(d, d.nodes.len() as int);
    let b = all_contract_id_findings(d, d.contracts.len() as int);
    lemma_narrow_contract_ids(d, d.contracts.len() as int);
    lemma_narrow_add(a, b);
    let c = all_resource_findings(d, d.resources.len() as int);
    lemma_narrow_resources(d, d.resources.len() as int);
    lemma_narrow_add(a + b, c);
    let e = all_import_findings(d, d.imports.len() as int);
    lemma_narrow_imports(d, d.imports.len() as int);
    lemma_narrow_add(a + b + c, e);
    let f = readme_findings(d);
    assert(narrow(f));
    lemma_narrow_add(a + b + c + e, f);
    let g = qos_findings(d);
    assert(narrow(g));
    lemma_narrow_add(a + b + c + e + f, g);
    let h = all_route_findings(d, d.routes.len() as int);
    lemma_narrow_routes(d, d.routes.len() as int);
    lemma_narrow_add(a + b + c + e + f + g, h);
    let k = all_contract_findings(d, d.contracts.len() as int);
    lemma_narrow_contracts(d, d.contracts.len() as int);
    lemma_narrow_add(a + b + c + e + f + g + h, k);
    let l = all_extension_findings(d, d.extensions.len() as int);
    lemma_narrow_extensions(d, d.extensions.len() as int);
    lemma_narrow_add(a + b + c + e + f + g + h + k, l);
    let m = all_node_findings(d, d.nodes.len() as int);
    lemma_narrow_nodes(d, d.nodes.len() as int);
    lemma_narrow_add(a + b + c + e + f + g + h + k + l, m);
}

/// The two checks find the same, in the same order; only a write scope that reaches too far is
/// a warning of the core check and an error of the strict one. A flow that passes the strict
/// check passes the core check.
pub proof fn lemma_strict_sharpens_core(d: FlowDraftView)
    ensures
        side_by_side(
            check_findings(d, FlowCheckMode::Core),
            check_findings(d, FlowCheckMode::Strict),
        ),
        !any_blocks(check_findings(d, FlowCheckMode::Strict)) ==> !any_blocks(
            check_findings(d, FlowCheckMode::Core),
        ),
{
    let common = common_findings(d);
    lemma_common_is_narrow(d);
    assert(side_by_side(common, common));
    let place = "policies.write_scopes["@;
    let scopes = d.policies.write_scopes;
    lemma_scopes_side_by_side(scopes, place, scopes.len() as int);
    let core = scope_findings(scopes, FlowCheckMode::Core, place, scopes.len() as int);
    let strict = scope_findings(scopes, FlowCheckMode::Strict, place, scopes.len() as int);
    lemma_side_by_side_add(common, common, core, strict);
    lemma_node_scopes_side_by_side(d, d.nodes.len() as int);
    lemma_side_by_side_add(
        common + core,
        common + strict,
        all_node_scope_findings(d, FlowCheckMode::Core, d.nodes.len() as int),
        all_node_scope_findings(d, FlowCheckMode::Strict, d.nodes.len() as int),
    );
    let c = check_findings(d, FlowCheckMode::Core);
    let s = check_findings(d, FlowCheckMode::Strict);
    if any_blocks(c) {
        let i = choose|i: int| 0 <= i < c.len() && (#[trigger] c[i]).severity.blocks();
        assert(sharpened(c[i], s[i]));
        assert(s[i].severity.blocks());
    }
}

} // verus!
