//! The check of a flow: every finding, in the order in which it is reported.
use vstd::prelude::*;

use crate::hash::{frame_all, framed_all, sha256_hex, sha256_hex_text};
use crate::number::{decimal, decimal_index};
use crate::split::{components, has_only_names, only_names, path_components, Component, ComponentView};
use crate::text::{blank, cat2, cat3, cat5, is_blank, same};

use super::contract::{is_authoring_extension, is_authoring_extension_kind};
use super::diagnostic::{
    finding, guided_error, CheckReport, Diagnostic, DiagnosticDomain, DiagnosticRepair,
    DiagnosticView, FlowCheckMode, RepairKind, Repairability, Severity,
};
use super::model::{
    ContractArtifactView, FlowContract, FlowContractView, FlowDraft, FlowDraftView, FlowNode,
    FlowNodeView, FlowResourceView, FlowRoute, FlowRouteView, NodeAction, NodeActionView,
    NodeDriver, ResourceKind, WriteScope, WriteScopeView,
};
use super::profile::{draft_qos, flow_draft_qos, QosView};

verus! {

broadcast use vstd::string::group_string_axioms;

fn push_finding(out: &mut Vec<Diagnostic>, next: Diagnostic)
    ensures
        final(out).deep_view() == old(out).deep_view().push(next.deep_view()),
{
    out.push(next);
    assert(out.deep_view() =~= old(out).deep_view().push(next.deep_view()));
}

/// Whether a text holds a path inside the package other than the manifest's own.
pub open spec fn is_package_path(path: Seq<char>) -> bool {
    path.len() > 0 && path != "flow.json"@ && only_names(path)
}

pub fn package_path_is_valid(value: &str) -> (r: bool)
    ensures
        r == is_package_path(value@),
{
    !value.is_empty() && !same(value, "flow.json") && has_only_names(value)
}

/// Whether a path names the file of a skill.
pub open spec fn is_skill_path(path: Seq<char>) -> bool {
    let parts = path_components(path);
    &&& parts.len() == 3
    &&& parts[0] == ComponentView::Normal("skills"@)
    &&& parts[1] is Normal
    &&& parts[1]->Normal_0.len() > 0
    &&& parts[2] == ComponentView::Normal("SKILL.md"@)
}

pub fn skill_path_is_valid(value: &str) -> (r: bool)
    ensures
        r == is_skill_path(value@),
{
    let parts = components(value);
    let ghost model = path_components(value@);
    if parts.len() != 3 {
        return false;
    }
    assert(model[0] == parts@[0].deep_view());
    assert(model[1] == parts@[1].deep_view());
    assert(model[2] == parts@[2].deep_view());
    match (&parts[0], &parts[1], &parts[2]) {
        (Component::Normal(root), Component::Normal(name), Component::Normal(file)) => {
            same(root.as_str(), "skills") && !name.as_str().is_empty() && same(
                file.as_str(),
                "SKILL.md",
            )
        },
        (_, _, _) => false,
    }
}

/// Whether an earlier node has the id of node `i`.
pub open spec fn node_id_repeats(d: FlowDraftView, i: int) -> bool {
    exists|j: int| 0 <= j < i && (#[trigger] d.nodes[j]).id == d.nodes[i].id
}

/// Whether some node has the given id.
pub open spec fn has_node(d: FlowDraftView, id: Seq<char>) -> bool {
    exists|j: int| 0 <= j < d.nodes.len() && (#[trigger] d.nodes[j]).id == id
}

/// Whether an earlier contract has the id of contract `i`.
pub open spec fn contract_id_repeats(d: FlowDraftView, i: int) -> bool {
    exists|j: int| 0 <= j < i && (#[trigger] d.contracts[j]).id == d.contracts[i].id
}

/// Whether some contract has the given id.
pub open spec fn has_contract(d: FlowDraftView, id: Seq<char>) -> bool {
    exists|j: int| 0 <= j < d.contracts.len() && (#[trigger] d.contracts[j]).id == id
}

/// Whether an earlier artifact of a contract has the id of artifact `k`.
pub open spec fn artifact_id_repeats(contract: FlowContractView, k: int) -> bool {
    exists|j: int| 0 <= j < k && (#[trigger] contract.artifacts[j]).id == contract.artifacts[k].id
}

/// Whether an earlier resource has the path of resource `i`.
pub open spec fn resource_path_repeats(d: FlowDraftView, i: int) -> bool {
    exists|j: int| 0 <= j < i && (#[trigger] d.resources[j]).id == d.resources[i].id
}

/// Whether some schema has the given path.
pub open spec fn has_schema(d: FlowDraftView, id: Seq<char>) -> bool {
    exists|j: int|
        0 <= j < d.resources.len() && (#[trigger] d.resources[j]).id == id && d.resources[j].kind
            == ResourceKind::Schema
}

/// The kind of the last of the first `n` resources with the given path.
pub open spec fn resource_kind(resources: Seq<FlowResourceView>, id: Seq<char>, n: int) -> Option<
    ResourceKind,
>
    decreases n,
{
    if n <= 0 {
        None
    } else if resources[n - 1].id == id {
        Some(resources[n - 1].kind)
    } else {
        resource_kind(resources, id, n - 1)
    }
}

/// The kind of the resource with the given path.
pub open spec fn kind_of(d: FlowDraftView, id: Seq<char>) -> Option<ResourceKind> {
    resource_kind(d.resources, id, d.resources.len() as int)
}

fn find_resource_kind(draft: &FlowDraft, id: &str) -> (r: Option<ResourceKind>)
    ensures
        r == kind_of(draft.deep_view(), id@),
{
    let ghost model = draft.deep_view().resources;
    let mut i: usize = draft.resources.len();
    while i > 0
        invariant
            i <= draft.resources.len(),
            model == draft.deep_view().resources,
            kind_of(draft.deep_view(), id@) == resource_kind(model, id@, i as int),
        decreases i,
    {
        assert(model[i - 1] == draft.resources@[i - 1].deep_view());
        if same(draft.resources[i - 1].id.as_str(), id) {
            return Some(draft.resources[i - 1].kind);
        }
        i -= 1;
    }
    None
}

fn node_exists(draft: &FlowDraft, id: &str, n: usize) -> (r: bool)
    requires
        n <= draft.nodes.len(),
    ensures
        r == exists|j: int| 0 <= j < n && (#[trigger] draft.deep_view().nodes[j]).id == id@,
{
    let mut i: usize = 0;
    while i < n
        invariant
            i <= n <= draft.nodes.len(),
            forall|j: int| 0 <= j < i ==> (#[trigger] draft.deep_view().nodes[j]).id != id@,
        decreases n - i,
    {
        assert(draft.deep_view().nodes[i as int] == draft.nodes@[i as int].deep_view());
        if same(draft.nodes[i].id.as_str(), id) {
            return true;
        }
        i += 1;
    }
    false
}

fn contract_exists(draft: &FlowDraft, id: &str, n: usize) -> (r: bool)
    requires
        n <= draft.contracts.len(),
    ensures
        r == exists|j: int| 0 <= j < n && (#[trigger] draft.deep_view().contracts[j]).id == id@,
{
    let mut i: usize = 0;
    while i < n
        invariant
            i <= n <= draft.contracts.len(),
            forall|j: int| 0 <= j < i ==> (#[trigger] draft.deep_view().contracts[j]).id != id@,
        decreases n - i,
    {
        assert(draft.deep_view().contracts[i as int] == draft.contracts@[i as int].deep_view());
        if same(draft.contracts[i].id.as_str(), id) {
            return true;
        }
        i += 1;
    }
    false
}

fn resource_exists(draft: &FlowDraft, id: &str, n: usize) -> (r: bool)
    requires
        n <= draft.resources.len(),
    ensures
        r == exists|j: int| 0 <= j < n && (#[trigger] draft.deep_view().resources[j]).id == id@,
{
    let mut i: usize = 0;
    while i < n
        invariant
            i <= n <= draft.resources.len(),
            forall|j: int| 0 <= j < i ==> (#[trigger] draft.deep_view().resources[j]).id != id@,
        decreases n - i,
    {
        assert(draft.deep_view().resources[i as int] == draft.resources@[i as int].deep_view());
        if same(draft.resources[i].id.as_str(), id) {
            return true;
        }
        i += 1;
    }
    false
}

fn schema_exists(draft: &FlowDraft, id: &str) -> (r: bool)
    ensures
        r == has_schema(draft.deep_view(), id@),
{
    let mut i: usize = 0;
    while i < draft.resources.len()
        invariant
            i <= draft.resources.len(),
            forall|j: int|
                0 <= j < i ==> !((#[trigger] draft.deep_view().resources[j]).id == id@
                    && draft.deep_view().resources[j].kind == ResourceKind::Schema),
        decreases draft.resources.len() - i,
    {
        assert(draft.deep_view().resources[i as int] == draft.resources@[i as int].deep_view());
        if draft.resources[i].kind == ResourceKind::Schema && same(
            draft.resources[i].id.as_str(),
            id,
        ) {
            return true;
        }
        i += 1;
    }
    false
}

fn artifact_exists(contract: &FlowContract, id: &str, n: usize) -> (r: bool)
    requires
        n <= contract.artifacts.len(),
    ensures
        r == exists|j: int| 0 <= j < n && (#[trigger] contract.deep_view().artifacts[j]).id == id@,
{
    let mut i: usize = 0;
    while i < n
        invariant
            i <= n <= contract.artifacts.len(),
            forall|j: int| 0 <= j < i ==> (#[trigger] contract.deep_view().artifacts[j]).id != id@,
        decreases n - i,
    {
        assert(
            contract.deep_view().artifacts[i as int] == contract.artifacts@[i as int].deep_view()
        );
        if same(contract.artifacts[i].id.as_str(), id) {
            return true;
        }
        i += 1;
    }
    false
}

pub open spec fn node_id_findings(d: FlowDraftView, i: int) -> Seq<DiagnosticView> {
    if node_id_repeats(d, i) {
        seq![
            guided_error(
                DiagnosticDomain::Contract,
                "FLOW_DUPLICATE_NODE_ID"@,
                "nodes["@ + decimal(i as nat) + "].id"@,
                "node id '"@ + d.nodes[i].id + "' is declared more than once"@,
                "Keep exactly one node for each id."@,
                "A route target and runtime activation must resolve to one canonical node."@,
            ),
        ]
    } else {
        Seq::empty()
    }
}

fn check_node_id(draft: &FlowDraft, i: usize, out: &mut Vec<Diagnostic>)
    requires
        i < draft.nodes.len(),
    ensures
        final(out).deep_view() == old(out).deep_view() + node_id_findings(
            draft.deep_view(),
            i as int,
        ),
{
    let ghost d = draft.deep_view();
    let node = &draft.nodes[i];
    assert(d.nodes[i as int] == node.deep_view());
    if node_exists(draft, node.id.as_str(), i) {
        push_finding(
            out,
            Diagnostic::guided(
                DiagnosticDomain::Contract,
                "FLOW_DUPLICATE_NODE_ID",
                cat3("nodes[", decimal_index(i).as_str(), "].id"),
                cat3("node id '", node.id.as_str(), "' is declared more than once"),
                "Keep exactly one node for each id.",
                "A route target and runtime activation must resolve to one canonical node.",
            ),
        );
    }
    assert(out.deep_view() =~= old(out).deep_view() + node_id_findings(d, i as int));
}

/// The repeated ids among the first `n` nodes.
pub open spec fn all_node_id_findings(d: FlowDraftView, n: int) -> Seq<DiagnosticView>
    decreases n,
{
    if n <= 0 {
        Seq::empty()
    } else {
        all_node_id_findings(d, n - 1) + node_id_findings(d, n - 1)
    }
}

fn push_all_node_id_findings(draft: &FlowDraft, out: &mut Vec<Diagnostic>)
    ensures
        final(out).deep_view() == old(out).deep_view() + all_node_id_findings(
            draft.deep_view(),
            draft.deep_view().nodes.len() as int,
        ),
{
    let ghost start = out.deep_view();
    let ghost d = draft.deep_view();
    let mut i: usize = 0;
    assert(out.deep_view() =~= start + all_node_id_findings(d, 0));
    while i < draft.nodes.len()
        invariant
            i <= draft.nodes.len(),
            d == draft.deep_view(),
            out.deep_view() == start + all_node_id_findings(d, i as int),
        decreases draft.nodes.len() - i,
    {
        check_node_id(draft, i, out);
        i += 1;
        assert(out.deep_view() =~= start + all_node_id_findings(d, i as int));
    }
}

/// The repeated ids among the first `k` artifacts of contract `i`.
pub open spec fn artifact_id_findings(contract: FlowContractView, i: int, n: int) -> Seq<
    DiagnosticView,
>
    decreases n,
{
    if n <= 0 {
        Seq::empty()
    } else {
        let k = n - 1;
        let front = artifact_id_findings(contract, i, k);
        if artifact_id_repeats(contract, k) {
            front.push(
                guided_error(
                    DiagnosticDomain::Contract,
                    "FLOW_DUPLICATE_CONTRACT_ARTIFACT"@,
                    "contracts["@ + decimal(i as nat) + "].artifacts["@ + decimal(k as nat) + "].id"@,
                    "contract '"@ + contract.id + "' declares artifact '"@ + contract.artifacts[k].id + "' more than once"@,
                    "Keep exactly one artifact requirement for each id in a contract."@,
                    "A stop contract must have one requirement for each artifact key."@,
                ),
            )
        } else {
            front
        }
    }
}

fn check_artifact_ids(contract: &FlowContract, i: usize, out: &mut Vec<Diagnostic>)
    ensures
        final(out).deep_view() == old(out).deep_view() + artifact_id_findings(
            contract.deep_view(),
            i as int,
            contract.deep_view().artifacts.len() as int,
        ),
{
    let ghost start = out.deep_view();
    let ghost c = contract.deep_view();
    let mut k: usize = 0;
    assert(out.deep_view() =~= start + artifact_id_findings(c, i as int, 0));
    while k < contract.artifacts.len()
        invariant
            k <= contract.artifacts.len(),
            c == contract.deep_view(),
            out.deep_view() == start + artifact_id_findings(c, i as int, k as int),
        decreases contract.artifacts.len() - k,
    {
        let artifact = &contract.artifacts[k];
        assert(c.artifacts[k as int] == artifact.deep_view());
        if artifact_exists(contract, artifact.id.as_str(), k) {
            push_finding(
                out,
                Diagnostic::guided(
                    DiagnosticDomain::Contract,
                    "FLOW_DUPLICATE_CONTRACT_ARTIFACT",
                    cat5(
                        "contracts[",
                        decimal_index(i).as_str(),
                        "].artifacts[",
                        decimal_index(k).as_str(),
                        "].id",
                    ),
                    cat5(
                        "contract '",
                        contract.id.as_str(),
                        "' declares artifact '",
                        artifact.id.as_str(),
                        "' more than once",
                    ),
                    "Keep exactly one artifact requirement for each id in a contract.",
                    "A stop contract must have one requirement for each artifact key.",
                ),
            );
        }
        k += 1;
        assert(out.deep_view() =~= start + artifact_id_findings(c, i as int, k as int));
    }
}

pub open spec fn contract_id_findings(d: FlowDraftView, i: int) -> Seq<DiagnosticView> {
    let head = if contract_id_repeats(d, i) {
        seq![
            guided_error(
                DiagnosticDomain::Contract,
                "FLOW_DUPLICATE_CONTRACT_ID"@,
                "contracts["@ + decimal(i as nat) + "].id"@,
                "contract id '"@ + d.contracts[i].id + "' is declared more than once"@,
                "Keep exactly one contract for each id."@,
                "A node contract reference must resolve to one canonical contract."@,
            ),
        ]
    } else {
        Seq::empty()
    };
    head + artifact_id_findings(d.contracts[i], i, d.contracts[i].artifacts.len() as int)
}

fn check_contract_id(draft: &FlowDraft, i: usize, out: &mut Vec<Diagnostic>)
    requires
        i < draft.contracts.len(),
    ensures
        final(out).deep_view() == old(out).deep_view() + contract_id_findings(
            draft.deep_view(),
            i as int,
        ),
{
    let ghost d = draft.deep_view();
    let contract = &draft.contracts[i];
    assert(d.contracts[i as int] == contract.deep_view());
    if contract_exists(draft, contract.id.as_str(), i) {
        push_finding(
            out,
            Diagnostic::guided(
                DiagnosticDomain::Contract,
                "FLOW_DUPLICATE_CONTRACT_ID",
                cat3("contracts[", decimal_index(i).as_str(), "].id"),
                cat3("contract id '", contract.id.as_str(), "' is declared more than once"),
                "Keep exactly one contract for each id.",
                "A node contract reference must resolve to one canonical contract.",
            ),
        );
    }
    check_artifact_ids(contract, i, out);
    assert(out.deep_view() =~= old(out).deep_view() + contract_id_findings(d, i as int));
}

/// The repeated ids among the first `n` contracts and their artifacts.
pub open spec fn all_contract_id_findings(d: FlowDraftView, n: int) -> Seq<DiagnosticView>
    decreases n,
{
    if n <= 0 {
        Seq::empty()
    } else {
        all_contract_id_findings(d, n - 1) + contract_id_findings(d, n - 1)
    }
}

fn push_all_contract_id_findings(draft: &FlowDraft, out: &mut Vec<Diagnostic>)
    ensures
        final(out).deep_view() == old(out).deep_view() + all_contract_id_findings(
            draft.deep_view(),
            draft.deep_view().contracts.len() as int,
        ),
{
    let ghost start = out.deep_view();
    let ghost d = draft.deep_view();
    let mut i: usize = 0;
    assert(out.deep_view() =~= start + all_contract_id_findings(d, 0));
    while i < draft.contracts.len()
        invariant
            i <= draft.contracts.len(),
            d == draft.deep_view(),
            out.deep_view() == start + all_contract_id_findings(d, i as int),
        decreases draft.contracts.len() - i,
    {
        check_contract_id(draft, i, out);
        i += 1;
        assert(out.deep_view() =~= start + all_contract_id_findings(d, i as int));
    }
}

/// The finding on a path that leaves the package.
pub open spec fn path_finding(d: FlowDraftView, i: int) -> Seq<DiagnosticView> {
    if !is_package_path(d.resources[i].id) {
        seq![
            guided_error(
                DiagnosticDomain::Package,
                "FLOW_INVALID_RESOURCE_PATH"@,
                "resources["@ + decimal(i as nat) + "].path"@,
                "resource path '"@ + d.resources[i].id + "' is not a safe package-relative path"@,
                "Use a non-empty relative path without '.', '..', or an absolute prefix."@,
                "Locked packages may contain only files rooted inside the package directory."@,
            ),
        ]
    } else {
        Seq::empty()
    }
}

/// The finding on a path that is taken already.
pub open spec fn path_repeat_finding(d: FlowDraftView, i: int) -> Seq<DiagnosticView> {
    if resource_path_repeats(d, i) {
        seq![
            guided_error(
                DiagnosticDomain::Package,
                "FLOW_DUPLICATE_RESOURCE_PATH"@,
                "resources["@ + decimal(i as nat) + "].path"@,
                "resource path '"@ + d.resources[i].id + "' is declared more than once"@,
                "Keep exactly one embedded file for each package-relative path."@,
                "A package file must have one content owner."@,
            ),
        ]
    } else {
        Seq::empty()
    }
}

/// The finding on a readme at another path.
pub open spec fn readme_path_finding(d: FlowDraftView, i: int) -> Seq<DiagnosticView> {
    if d.resources[i].kind == ResourceKind::Readme && d.resources[i].id != "README.md"@ {
        seq![
            guided_error(
                DiagnosticDomain::Package,
                "FLOW_INVALID_README_PATH"@,
                "resources["@ + decimal(i as nat) + "].path"@,
                "the package README must use the root path 'README.md'"@,
                "Use exactly one readme resource at README.md."@,
                "The package root README is the single human-authored description supplied to consumers."@,
            ),
        ]
    } else {
        Seq::empty()
    }
}

/// The finding on another resource in place of the readme.
pub open spec fn readme_kind_finding(d: FlowDraftView, i: int) -> Seq<DiagnosticView> {
    if d.resources[i].id == "README.md"@ && d.resources[i].kind != ResourceKind::Readme {
        seq![
            guided_error(
                DiagnosticDomain::Package,
                "FLOW_INVALID_README_PATH"@,
                "resources["@ + decimal(i as nat) + "].kind"@,
                "the package root README.md must use resource kind 'readme'"@,
                "Set the README.md resource kind to readme."@,
                "The package root README must have one unambiguous semantic owner."@,
            ),
        ]
    } else {
        Seq::empty()
    }
}

/// The finding on a misplaced skill.
pub open spec fn skill_path_finding(d: FlowDraftView, i: int) -> Seq<DiagnosticView> {
    if d.resources[i].kind == ResourceKind::Skill && !is_skill_path(d.resources[i].id) {
        seq![
            guided_error(
                DiagnosticDomain::Package,
                "FLOW_INVALID_SKILL_PATH"@,
                "resources["@ + decimal(i as nat) + "].path"@,
                "skill resources must use 'skills/<name>/SKILL.md'"@,
                "Place each skill in one package-relative skills/<name>/SKILL.md path."@,
                "Skill distribution relies on one canonical file path per skill."@,
            ),
        ]
    } else {
        Seq::empty()
    }
}

pub open spec fn resource_findings(d: FlowDraftView, i: int) -> Seq<DiagnosticView> {
    path_finding(d, i) + path_repeat_finding(d, i) + readme_path_finding(d, i)
        + readme_kind_finding(d, i) + skill_path_finding(d, i)
}

fn check_resource(draft: &FlowDraft, i: usize, out: &mut Vec<Diagnostic>)
    requires
        i < draft.resources.len(),
    ensures
        final(out).deep_view() == old(out).deep_view() + resource_findings(
            draft.deep_view(),
            i as int,
        ),
{
    let ghost d = draft.deep_view();
    let ghost p = i as int;
    let ghost s0 = out.deep_view();
    let resource = &draft.resources[i];
    assert(d.resources[p] == resource.deep_view());
    if !package_path_is_valid(resource.id.as_str()) {
        push_finding(
            out,
            Diagnostic::guided(
                DiagnosticDomain::Package,
                "FLOW_INVALID_RESOURCE_PATH",
                cat3("resources[", decimal_index(i).as_str(), "].path"),
                cat3(
                    "resource path '",
                    resource.id.as_str(),
                    "' is not a safe package-relative path",
                ),
                "Use a non-empty relative path without '.', '..', or an absolute prefix.",
                "Locked packages may contain only files rooted inside the package directory.",
            ),
        );
    }
    let ghost s1 = out.deep_view();
    assert(s1 =~= s0 + path_finding(d, p));
    if resource_exists(draft, resource.id.as_str(), i) {
        push_finding(
            out,
            Diagnostic::guided(
                DiagnosticDomain::Package,
                "FLOW_DUPLICATE_RESOURCE_PATH",
                cat3("resources[", decimal_index(i).as_str(), "].path"),
                cat3("resource path '", resource.id.as_str(), "' is declared more than once"),
                "Keep exactly one embedded file for each package-relative path.",
                "A package file must have one content owner.",
            ),
        );
    }
    let ghost s2 = out.deep_view();
    assert(s2 =~= s1 + path_repeat_finding(d, p));
    if resource.kind == ResourceKind::Readme && !same(resource.id.as_str(), "README.md") {
        push_finding(
            out,
            Diagnostic::guided(
                DiagnosticDomain::Package,
                "FLOW_INVALID_README_PATH",
                cat3("resources[", decimal_index(i).as_str(), "].path"),
                "the package README must use the root path 'README.md'".to_string(),
                "Use exactly one readme resource at README.md.",
                "The package root README is the single human-authored description supplied to consumers.",
            ),
        );
    }
    let ghost s3 = out.deep_view();
    assert(s3 =~= s2 + readme_path_finding(d, p));
    if same(resource.id.as_str(), "README.md") && resource.kind != ResourceKind::Readme {
        push_finding(
            out,
            Diagnostic::guided(
                DiagnosticDomain::Package,
                "FLOW_INVALID_README_PATH",
                cat3("resources[", decimal_index(i).as_str(), "].kind"),
                "the package root README.md must use resource kind 'readme'".to_string(),
                "Set the README.md resource kind to readme.",
                "The package root README must have one unambiguous semantic owner.",
            ),
        );
    }
    let ghost s4 = out.deep_view();
    assert(s4 =~= s3 + readme_kind_finding(d, p));
    if resource.kind == ResourceKind::Skill && !skill_path_is_valid(resource.id.as_str()) {
        push_finding(
            out,
            Diagnostic::guided(
                DiagnosticDomain::Package,
                "FLOW_INVALID_SKILL_PATH",
                cat3("resources[", decimal_index(i).as_str(), "].path"),
                "skill resources must use 'skills/<name>/SKILL.md'".to_string(),
                "Place each skill in one package-relative skills/<name>/SKILL.md path.",
                "Skill distribution relies on one canonical file path per skill.",
            ),
        );
    }
    let ghost s5 = out.deep_view();
    assert(s5 =~= s4 + skill_path_finding(d, p));
    assert(s5 =~= s0 + resource_findings(d, p));
}

/// The findings on the first `n` resources.
pub open spec fn all_resource_findings(d: FlowDraftView, n: int) -> Seq<DiagnosticView>
    decreases n,
{
    if n <= 0 {
        Seq::empty()
    } else {
        all_resource_findings(d, n - 1) + resource_findings(d, n - 1)
    }
}

fn push_all_resource_findings(draft: &FlowDraft, out: &mut Vec<Diagnostic>)
    ensures
        final(out).deep_view() == old(out).deep_view() + all_resource_findings(
            draft.deep_view(),
            draft.deep_view().resources.len() as int,
        ),
{
    let ghost start = out.deep_view();
    let ghost d = draft.deep_view();
    let mut i: usize = 0;
    assert(out.deep_view() =~= start + all_resource_findings(d, 0));
    while i < draft.resources.len()
        invariant
            i <= draft.resources.len(),
            d == draft.deep_view(),
            out.deep_view() == start + all_resource_findings(d, i as int),
        decreases draft.resources.len() - i,
    {
        check_resource(draft, i, out);
        i += 1;
        assert(out.deep_view() =~= start + all_resource_findings(d, i as int));
    }
}

/// Whether some resource has the given path.
pub open spec fn has_resource(d: FlowDraftView, id: Seq<char>) -> bool {
    exists|j: int| 0 <= j < d.resources.len() && (#[trigger] d.resources[j]).id == id
}

pub open spec fn import_findings(d: FlowDraftView, i: int) -> Seq<DiagnosticView> {
    if !has_resource(d, d.imports[i].resource_id) {
        seq![
            guided_error(
                DiagnosticDomain::Resource,
                "FLOW_UNRESOLVED_IMPORT"@,
                "imports["@ + decimal(i as nat) + "].resource_id"@,
                "flow import references missing embedded resource '"@ + d.imports[i].resource_id + "'"@,
                "Embed the referenced resource or remove the import."@,
                "A locked package cannot depend on unresolved external resources."@,
            ),
        ]
    } else {
        Seq::empty()
    }
}

fn check_import(draft: &FlowDraft, i: usize, out: &mut Vec<Diagnostic>)
    requires
        i < draft.imports.len(),
    ensures
        final(out).deep_view() == old(out).deep_view() + import_findings(
            draft.deep_view(),
            i as int,
        ),
{
    let ghost d = draft.deep_view();
    let import = &draft.imports[i];
    assert(d.imports[i as int] == import.deep_view());
    if !resource_exists(draft, import.resource_id.as_str(), draft.resources.len()) {
        push_finding(
            out,
            Diagnostic::guided(
                DiagnosticDomain::Resource,
                "FLOW_UNRESOLVED_IMPORT",
                cat3("imports[", decimal_index(i).as_str(), "].resource_id"),
                cat3(
                    "flow import references missing embedded resource '",
                    import.resource_id.as_str(),
                    "'",
                ),
                "Embed the referenced resource or remove the import.",
                "A locked package cannot depend on unresolved external resources.",
            ),
        );
    }
    assert(out.deep_view() =~= old(out).deep_view() + import_findings(d, i as int));
}

/// The findings on the first `n` imports.
pub open spec fn all_import_findings(d: FlowDraftView, n: int) -> Seq<DiagnosticView>
    decreases n,
{
    if n <= 0 {
        Seq::empty()
    } else {
        all_import_findings(d, n - 1) + import_findings(d, n - 1)
    }
}

fn push_all_import_findings(draft: &FlowDraft, out: &mut Vec<Diagnostic>)
    ensures
        final(out).deep_view() == old(out).deep_view() + all_import_findings(
            draft.deep_view(),
            draft.deep_view().imports.len() as int,
        ),
{
    let ghost start = out.deep_view();
    let ghost d = draft.deep_view();
    let mut i: usize = 0;
    assert(out.deep_view() =~= start + all_import_findings(d, 0));
    while i < draft.imports.len()
        invariant
            i <= draft.imports.len(),
            d == draft.deep_view(),
            out.deep_view() == start + all_import_findings(d, i as int),
        decreases draft.imports.len() - i,
    {
        check_import(draft, i, out);
        i += 1;
        assert(out.deep_view() =~= start + all_import_findings(d, i as int));
    }
}

/// Whether a draft holds anything at all.
pub open spec fn is_non_empty_package(d: FlowDraftView) -> bool {
    ||| d.nodes.len() > 0
    ||| d.contracts.len() > 0
    ||| d.routes.len() > 0
    ||| d.resources.len() > 0
    ||| d.imports.len() > 0
    ||| d.policies.write_scopes.len() > 0
    ||| draft_qos(d.extensions) != QosView::standard()
    ||| d.extensions.len() > 0
}

pub fn draft_is_non_empty_package(draft: &FlowDraft) -> (r: bool)
    ensures
        r == is_non_empty_package(draft.deep_view()),
{
    draft.nodes.len() > 0 || draft.contracts.len() > 0 || draft.routes.len() > 0
        || draft.resources.len() > 0 || draft.imports.len() > 0
        || draft.policies.write_scopes.len() > 0 || !flow_draft_qos(draft).is_default()
        || draft.extensions.len() > 0
}

/// Whether a resource is the readme of the package.
pub open spec fn is_readme(resource: FlowResourceView) -> bool {
    resource.kind == ResourceKind::Readme && resource.id == "README.md"@
}

pub open spec fn has_readme(d: FlowDraftView) -> bool {
    exists|i: int| 0 <= i < d.resources.len() && is_readme(#[trigger] d.resources[i])
}

/// Whether some readme holds more than white space.
pub open spec fn has_readme_content(d: FlowDraftView) -> bool {
    exists|i: int|
        0 <= i < d.resources.len() && is_readme(#[trigger] d.resources[i]) && !is_blank(
            d.resources[i].source,
        )
}

pub fn draft_has_readme(draft: &FlowDraft) -> (r: bool)
    ensures
        r == has_readme(draft.deep_view()),
{
    let mut i: usize = 0;
    while i < draft.resources.len()
        invariant
            i <= draft.resources.len(),
            forall|j: int| 0 <= j < i ==> !is_readme(#[trigger] draft.deep_view().resources[j]),
        decreases draft.resources.len() - i,
    {
        assert(draft.deep_view().resources[i as int] == draft.resources@[i as int].deep_view());
        if draft.resources[i].kind == ResourceKind::Readme && same(
            draft.resources[i].id.as_str(),
            "README.md",
        ) {
            return true;
        }
        i += 1;
    }
    false
}

pub fn draft_has_readme_content(draft: &FlowDraft) -> (r: bool)
    ensures
        r == has_readme_content(draft.deep_view()),
{
    let mut i: usize = 0;
    while i < draft.resources.len()
        invariant
            i <= draft.resources.len(),
            forall|j: int|
                0 <= j < i ==> !(is_readme(#[trigger] draft.deep_view().resources[j]) && !is_blank(
                    draft.deep_view().resources[j].source,
                )),
        decreases draft.resources.len() - i,
    {
        assert(draft.deep_view().resources[i as int] == draft.resources@[i as int].deep_view());
        if draft.resources[i].kind == ResourceKind::Readme && same(
            draft.resources[i].id.as_str(),
            "README.md",
        ) && !blank(draft.resources[i].source.as_str()) {
            return true;
        }
        i += 1;
    }
    false
}

/// The finding on a package that does not describe itself.
pub open spec fn readme_findings(d: FlowDraftView) -> Seq<DiagnosticView> {
    if is_non_empty_package(d) && !has_readme(d) {
        seq![
            guided_error(
                DiagnosticDomain::Package,
                "FLOW_MISSING_README"@,
                "resources"@,
                "non-empty flow packages must include a README resource"@,
                "Add a resource with kind 'readme' that describes the package."@,
                "Packages need human-readable context before they can be shared or executed safely."@,
            ),
        ]
    } else if is_non_empty_package(d) && !has_readme_content(d) {
        seq![
            guided_error(
                DiagnosticDomain::Package,
                "FLOW_EMPTY_README"@,
                "resources"@,
                "README resources must include explanatory content"@,
                "Add non-empty content to at least one README resource."@,
                "README content is descriptive substance and cannot be inferred mechanically."@,
            ),
        ]
    } else {
        Seq::empty()
    }
}

fn check_readme(draft: &FlowDraft, out: &mut Vec<Diagnostic>)
    ensures
        final(out).deep_view() == old(out).deep_view() + readme_findings(draft.deep_view()),
{
    if draft_is_non_empty_package(draft) {
        if !draft_has_readme(draft) {
            push_finding(
                out,
                Diagnostic::guided(
                    DiagnosticDomain::Package,
                    "FLOW_MISSING_README",
                    "resources".to_string(),
                    "non-empty flow packages must include a README resource".to_string(),
                    "Add a resource with kind 'readme' that describes the package.",
                    "Packages need human-readable context before they can be shared or executed safely.",
                ),
            );
        } else if !draft_has_readme_content(draft) {
            push_finding(
                out,
                Diagnostic::guided(
                    DiagnosticDomain::Package,
                    "FLOW_EMPTY_README",
                    "resources".to_string(),
                    "README resources must include explanatory content".to_string(),
                    "Add non-empty content to at least one README resource.",
                    "README content is descriptive substance and cannot be inferred mechanically.",
                ),
            );
        }
    }
    assert(out.deep_view() =~= old(out).deep_view() + readme_findings(draft.deep_view()));
}

/// The finding on a service intent with a blank target.
pub open spec fn qos_findings(d: FlowDraftView) -> Seq<DiagnosticView> {
    match draft_qos(d.extensions).completion_target {
        Some(target) => if is_blank(target) {
            seq![
                guided_error(
                    DiagnosticDomain::Policy,
                    "FLOW_EMPTY_QOS_COMPLETION_TARGET"@,
                    "qos.completion_target"@,
                    "QoS completion target must not be empty"@,
                    "Remove completion_target for open-ended work or provide a non-empty artifact, board, or time target."@,
                    "Consumers need a meaningful target when QoS declares one."@,
                ),
            ]
        } else {
            Seq::empty()
        },
        None => Seq::empty(),
    }
}

fn check_qos(draft: &FlowDraft, out: &mut Vec<Diagnostic>)
    ensures
        final(out).deep_view() == old(out).deep_view() + qos_findings(draft.deep_view()),
{
    let qos = flow_draft_qos(draft);
    if let Some(target) = &qos.completion_target {
        if blank(target.as_str()) {
            push_finding(
                out,
                Diagnostic::guided(
                    DiagnosticDomain::Policy,
                    "FLOW_EMPTY_QOS_COMPLETION_TARGET",
                    "qos.completion_target".to_string(),
                    "QoS completion target must not be empty".to_string(),
                    "Remove completion_target for open-ended work or provide a non-empty artifact, board, or time target.",
                    "Consumers need a meaningful target when QoS declares one.",
                ),
            );
        }
    }
    assert(out.deep_view() =~= old(out).deep_view() + qos_findings(draft.deep_view()));
}

/// How the artifact that a route ranges over is written; nothing where there is none.
pub open spec fn for_each_text(route: FlowRouteView) -> Seq<char> {
    match route.for_each {
        Some(key) => "artifact."@ + key,
        None => Seq::empty(),
    }
}

/// The identity of a route: a digest of its predicate, its range and its target.
pub open spec fn route_identity(route: FlowRouteView) -> Seq<char> {
    "route-sha256:"@ + sha256_hex(
        framed_all(seq![route.predicate.text(), for_each_text(route), route.activate]),
    )
}

pub fn canonical_route_identity(route: &FlowRoute) -> (r: String)
    ensures
        r@ == route_identity(route.deep_view()),
{
    let predicate = route.predicate.to_text();
    let for_each = match &route.for_each {
        Some(artifact) => artifact.to_text(),
        None => String::new(),
    };
    let fields: [&str; 3] = [predicate.as_str(), for_each.as_str(), route.activate.as_str()];
    let listed = fields.as_slice();
    let bytes = frame_all(listed);
    let ghost model = seq![
        route.deep_view().predicate.text(),
        for_each_text(route.deep_view()),
        route.deep_view().activate,
    ];
    assert(listed.deep_view() =~= model);
    let digest = sha256_hex_text(bytes.as_slice());
    cat2("route-sha256:", digest.as_str())
}

/// The last of the first `n` routes with the given identity.
pub open spec fn route_with_identity(
    routes: Seq<FlowRouteView>,
    identity: Seq<char>,
    n: int,
) -> Option<nat>
    decreases n,
{
    if n <= 0 {
        None
    } else if route_identity(routes[n - 1]) == identity {
        Some((n - 1) as nat)
    } else {
        route_with_identity(routes, identity, n - 1)
    }
}

fn find_route(
    identities: &Vec<String>,
    wanted: &str,
    Ghost(routes): Ghost<Seq<FlowRouteView>>,
) -> (r: Option<usize>)
    requires
        identities.len() <= routes.len(),
        forall|j: int| 0 <= j < identities.len() ==> (#[trigger] identities@[j])@ == route_identity(routes[j]),
    ensures
        match r {
            Some(j) => route_with_identity(
                routes,
                wanted@,
                identities.len() as int,
            ) == Some(j as nat),
            None => route_with_identity(routes, wanted@, identities.len() as int) is None,
        },
{
    let mut i: usize = identities.len();
    while i > 0
        invariant
            i <= identities.len() <= routes.len(),
            forall|j: int|
                0 <= j < identities.len() ==> (#[trigger] identities@[j])@ == route_identity(routes[j]),
            route_with_identity(routes, wanted@, identities.len() as int) == route_with_identity(
                routes,
                wanted@,
                i as int,
            ),
        decreases i,
    {
        assert(identities@[i - 1]@ == route_identity(routes[i - 1]));
        if same(identities[i - 1].as_str(), wanted) {
            return Some(i - 1);
        }
        i -= 1;
    }
    None
}

/// The finding on a route that an earlier one states already.
pub open spec fn route_repeat_finding(d: FlowDraftView, i: int) -> Seq<DiagnosticView> {
    match route_with_identity(d.routes, route_identity(d.routes[i]), i) {
        Some(first) => seq![
            guided_error(
                DiagnosticDomain::Route,
                "FLOW_DUPLICATE_ROUTE"@,
                "routes["@ + decimal(i as nat) + "]"@,
                "route duplicates routes["@ + decimal(first) + "]"@,
                "Remove the duplicate route."@,
                "A canonical route may fire only once for each trigger fact version."@,
            ),
        ],
        None => Seq::empty(),
    }
}

/// The finding on a route to a node that does not exist.
pub open spec fn route_target_finding(d: FlowDraftView, i: int) -> Seq<DiagnosticView> {
    if !has_node(d, d.routes[i].activate) {
        seq![
            finding(
                Severity::Error,
                DiagnosticDomain::Route,
                "FLOW_UNKNOWN_ROUTE_TARGET"@,
                "routes["@ + decimal(i as nat) + "].activate"@,
                "route activate target '"@ + d.routes[i].activate
                    + "' does not match a draft node"@,
                "Add the target node or update the route target."@,
                "Routes can only activate nodes that exist in the draft."@,
                Repairability::Candidate,
                seq![RepairKind::AddRouteTarget],
            ),
        ]
    } else {
        Seq::empty()
    }
}

pub open spec fn route_findings(d: FlowDraftView, i: int) -> Seq<DiagnosticView> {
    route_repeat_finding(d, i) + route_target_finding(d, i)
}

/// The findings on the first `n` routes.
pub open spec fn all_route_findings(d: FlowDraftView, n: int) -> Seq<DiagnosticView>
    decreases n,
{
    if n <= 0 {
        Seq::empty()
    } else {
        all_route_findings(d, n - 1) + route_findings(d, n - 1)
    }
}

fn push_all_route_findings(draft: &FlowDraft, out: &mut Vec<Diagnostic>)
    ensures
        final(out).deep_view() == old(out).deep_view() + all_route_findings(
            draft.deep_view(),
            draft.deep_view().routes.len() as int,
        ),
{
    let ghost start = out.deep_view();
    let ghost d = draft.deep_view();
    let mut identities: Vec<String> = Vec::new();
    let mut i: usize = 0;
    assert(out.deep_view() =~= start + all_route_findings(d, 0));
    while i < draft.routes.len()
        invariant
            i <= draft.routes.len(),
            d == draft.deep_view(),
            identities.len() == i,
            forall|j: int|
                0 <= j < i ==> (#[trigger] identities@[j])@ == route_identity(d.routes[j]),
            out.deep_view() == start + all_route_findings(d, i as int),
        decreases draft.routes.len() - i,
    {
        let ghost s0 = out.deep_view();
        let route = &draft.routes[i];
        assert(d.routes[i as int] == route.deep_view());
        let identity = canonical_route_identity(route);
        if let Some(first) = find_route(&identities, identity.as_str(), Ghost(d.routes)) {
            push_finding(
                out,
                Diagnostic::guided(
                    DiagnosticDomain::Route,
                    "FLOW_DUPLICATE_ROUTE",
                    cat3("routes[", decimal_index(i).as_str(), "]"),
                    cat3("route duplicates routes[", decimal_index(first).as_str(), "]"),
                    "Remove the duplicate route.",
                    "A canonical route may fire only once for each trigger fact version.",
                ),
            );
        }
        let ghost s1 = out.deep_view();
        assert(s1 =~= s0 + route_repeat_finding(d, i as int));
        identities.push(identity);
        if !node_exists(draft, route.activate.as_str(), draft.nodes.len()) {
            let mut kinds: Vec<RepairKind> = Vec::new();
            kinds.push(RepairKind::AddRouteTarget);
            assert(kinds@ =~= seq![RepairKind::AddRouteTarget]);
            push_finding(
                out,
                Diagnostic::error(
                    DiagnosticDomain::Route,
                    "FLOW_UNKNOWN_ROUTE_TARGET",
                    cat3("routes[", decimal_index(i).as_str(), "].activate"),
                    cat3(
                        "route activate target '",
                        route.activate.as_str(),
                        "' does not match a draft node",
                    ),
                    "Add the target node or update the route target.",
                    "Routes can only activate nodes that exist in the draft.",
                    DiagnosticRepair::new(Repairability::Candidate, kinds),
                ),
            );
        }
        assert(out.deep_view() =~= s1 + route_target_finding(d, i as int));
        assert(out.deep_view() =~= s0 + route_findings(d, i as int));
        i += 1;
        assert(out.deep_view() =~= start + all_route_findings(d, i as int));
    }
}

/// The finding on an artifact without an embedded schema.
pub open spec fn schema_finding(
    d: FlowDraftView,
    contract: FlowContractView,
    artifact: ContractArtifactView,
) -> Seq<DiagnosticView> {
    match artifact.schema_resource_id {
        Some(schema_id) => if has_schema(d, schema_id) {
            Seq::empty()
        } else {
            seq![
                guided_error(
                    DiagnosticDomain::Resource,
                    "FLOW_MISSING_ARTIFACT_SCHEMA"@,
                    "contracts["@ + contract.id + "].artifacts["@ + artifact.id + "].schema_resource_id"@,
                    "artifact '"@ + artifact.id + "' references missing schema resource '"@ + schema_id + "'"@,
                    "Add a schema resource or update the artifact schema reference."@,
                    "Artifact schemas make delivered data inspectable across nodes."@,
                ),
            ]
        },
        None => seq![
            guided_error(
                DiagnosticDomain::Resource,
                "FLOW_MISSING_ARTIFACT_SCHEMA"@,
                "contracts["@ + contract.id + "].artifacts["@ + artifact.id + "]"@,
                "artifact '"@ + artifact.id + "' has no schema resource"@,
                "Attach the artifact to a schema resource."@,
                "Artifact schemas make delivered data inspectable across nodes."@,
            ),
        ],
    }
}

/// The schema findings on the first `n` artifacts of a contract.
pub open spec fn schema_findings(d: FlowDraftView, contract: FlowContractView, n: int) -> Seq<
    DiagnosticView,
>
    decreases n,
{
    if n <= 0 {
        Seq::empty()
    } else {
        schema_findings(d, contract, n - 1) + schema_finding(
            d,
            contract,
            contract.artifacts[n - 1],
        )
    }
}

fn check_schema(draft: &FlowDraft, contract: &FlowContract, k: usize, out: &mut Vec<Diagnostic>)
    requires
        k < contract.artifacts.len(),
    ensures
        final(out).deep_view() == old(out).deep_view() + schema_finding(
            draft.deep_view(),
            contract.deep_view(),
            contract.deep_view().artifacts[k as int],
        ),
{
    let artifact = &contract.artifacts[k];
    assert(contract.deep_view().artifacts[k as int] == artifact.deep_view());
    match &artifact.schema_resource_id {
        Some(schema_id) => {
            if !schema_exists(draft, schema_id.as_str()) {
                push_finding(
                    out,
                    Diagnostic::guided(
                        DiagnosticDomain::Resource,
                        "FLOW_MISSING_ARTIFACT_SCHEMA",
                        cat5(
                            "contracts[",
                            contract.id.as_str(),
                            "].artifacts[",
                            artifact.id.as_str(),
                            "].schema_resource_id",
                        ),
                        cat5(
                            "artifact '",
                            artifact.id.as_str(),
                            "' references missing schema resource '",
                            schema_id.as_str(),
                            "'",
                        ),
                        "Add a schema resource or update the artifact schema reference.",
                        "Artifact schemas make delivered data inspectable across nodes.",
                    ),
                );
            }
        },
        None => {
            push_finding(
                out,
                Diagnostic::guided(
                    DiagnosticDomain::Resource,
                    "FLOW_MISSING_ARTIFACT_SCHEMA",
                    cat5(
                        "contracts[",
                        contract.id.as_str(),
                        "].artifacts[",
                        artifact.id.as_str(),
                        "]",
                    ),
                    cat3("artifact '", artifact.id.as_str(), "' has no schema resource"),
                    "Attach the artifact to a schema resource.",
                    "Artifact schemas make delivered data inspectable across nodes.",
                ),
            );
        },
    }
    assert(out.deep_view() =~= old(out).deep_view() + schema_finding(
        draft.deep_view(),
        contract.deep_view(),
        artifact.deep_view(),
    ));
}

/// The finding on a contract without a completion rule.
pub open spec fn completion_finding(contract: FlowContractView) -> Seq<DiagnosticView> {
    if contract.completion is None {
        seq![
            guided_error(
                DiagnosticDomain::Contract,
                "FLOW_MISSING_CONTRACT_COMPLETION"@,
                "contracts["@ + contract.id + "].completion"@,
                "contract '"@ + contract.id + "' has no completion rule"@,
                "Set a completion rule such as Manual or AllArtifacts."@,
                "Completion policy defines when a node contract can be considered satisfied."@,
            ),
        ]
    } else {
        Seq::empty()
    }
}

pub open spec fn contract_findings(d: FlowDraftView, i: int) -> Seq<DiagnosticView> {
    completion_finding(d.contracts[i]) + schema_findings(
        d,
        d.contracts[i],
        d.contracts[i].artifacts.len() as int,
    )
}

fn check_contract(draft: &FlowDraft, i: usize, out: &mut Vec<Diagnostic>)
    requires
        i < draft.contracts.len(),
    ensures
        final(out).deep_view() == old(out).deep_view() + contract_findings(
            draft.deep_view(),
            i as int,
        ),
{
    let ghost d = draft.deep_view();
    let contract = &draft.contracts[i];
    let ghost c = contract.deep_view();
    assert(d.contracts[i as int] == c);
    if contract.completion.is_none() {
        push_finding(
            out,
            Diagnostic::guided(
                DiagnosticDomain::Contract,
                "FLOW_MISSING_CONTRACT_COMPLETION",
                cat3("contracts[", contract.id.as_str(), "].completion"),
                cat3("contract '", contract.id.as_str(), "' has no completion rule"),
                "Set a completion rule such as Manual or AllArtifacts.",
                "Completion policy defines when a node contract can be considered satisfied.",
            ),
        );
    }
    let ghost s1 = out.deep_view();
    assert(s1 =~= old(out).deep_view() + completion_finding(c));
    let mut k: usize = 0;
    assert(out.deep_view() =~= s1 + schema_findings(d, c, 0));
    while k < contract.artifacts.len()
        invariant
            k <= contract.artifacts.len(),
            d == draft.deep_view(),
            c == contract.deep_view(),
            out.deep_view() == s1 + schema_findings(d, c, k as int),
        decreases contract.artifacts.len() - k,
    {
        check_schema(draft, contract, k, out);
        k += 1;
        assert(out.deep_view() =~= s1 + schema_findings(d, c, k as int));
    }
    assert(out.deep_view() =~= old(out).deep_view() + contract_findings(d, i as int));
}

/// The findings on the rules and schemas of the first `n` contracts.
pub open spec fn all_contract_findings(d: FlowDraftView, n: int) -> Seq<DiagnosticView>
    decreases n,
{
    if n <= 0 {
        Seq::empty()
    } else {
        all_contract_findings(d, n - 1) + contract_findings(d, n - 1)
    }
}

fn push_all_contract_findings(draft: &FlowDraft, out: &mut Vec<Diagnostic>)
    ensures
        final(out).deep_view() == old(out).deep_view() + all_contract_findings(
            draft.deep_view(),
            draft.deep_view().contracts.len() as int,
        ),
{
    let ghost start = out.deep_view();
    let ghost d = draft.deep_view();
    let mut i: usize = 0;
    assert(out.deep_view() =~= start + all_contract_findings(d, 0));
    while i < draft.contracts.len()
        invariant
            i <= draft.contracts.len(),
            d == draft.deep_view(),
            out.deep_view() == start + all_contract_findings(d, i as int),
        decreases draft.contracts.len() - i,
    {
        check_contract(draft, i, out);
        i += 1;
        assert(out.deep_view() =~= start + all_contract_findings(d, i as int));
    }
}

/// The finding on something in authoring data that belongs to execution.
pub open spec fn misuse(location: Seq<char>, extension: Seq<char>) -> DiagnosticView {
    finding(
        Severity::Fatal,
        DiagnosticDomain::Policy,
        "FLOW_AUTHORING_PRIMITIVE_MISUSE"@,
        location,
        "'"@ + extension + "' is not a flow authoring primitive"@,
        "Represent execution details outside FlowDraft authoring data."@,
        "Runtime primitives in authoring data can change execution semantics."@,
        Repairability::Absent,
        Seq::empty(),
    )
}

fn misuse_finding(location: String, extension: &str) -> (r: Diagnostic)
    ensures
        r.deep_view() == misuse(location@, extension@),
{
    Diagnostic::fatal(
        DiagnosticDomain::Policy,
        "FLOW_AUTHORING_PRIMITIVE_MISUSE",
        location,
        cat3("'", extension, "' is not a flow authoring primitive"),
        "Represent execution details outside FlowDraft authoring data.",
        "Runtime primitives in authoring data can change execution semantics.",
        DiagnosticRepair::new(Repairability::Absent, Vec::new()),
    )
}

pub open spec fn extension_findings(d: FlowDraftView, i: int) -> Seq<DiagnosticView> {
    if !is_authoring_extension(d.extensions[i]) {
        seq![misuse("extensions["@ + decimal(i as nat) + "]"@, d.extensions[i])]
    } else {
        Seq::empty()
    }
}

fn check_extension(draft: &FlowDraft, i: usize, out: &mut Vec<Diagnostic>)
    requires
        i < draft.extensions.len(),
    ensures
        final(out).deep_view() == old(out).deep_view() + extension_findings(
            draft.deep_view(),
            i as int,
        ),
{
    let ghost d = draft.deep_view();
    let extension = draft.extensions[i].as_str();
    assert(d.extensions[i as int] == extension@);
    if !is_authoring_extension_kind(extension) {
        push_finding(
            out,
            misuse_finding(cat3("extensions[", decimal_index(i).as_str(), "]"), extension),
        );
    }
    assert(out.deep_view() =~= old(out).deep_view() + extension_findings(d, i as int));
}

/// The findings on the first `n` extensions of the draft.
pub open spec fn all_extension_findings(d: FlowDraftView, n: int) -> Seq<DiagnosticView>
    decreases n,
{
    if n <= 0 {
        Seq::empty()
    } else {
        all_extension_findings(d, n - 1) + extension_findings(d, n - 1)
    }
}

fn push_all_extension_findings(draft: &FlowDraft, out: &mut Vec<Diagnostic>)
    ensures
        final(out).deep_view() == old(out).deep_view() + all_extension_findings(
            draft.deep_view(),
            draft.deep_view().extensions.len() as int,
        ),
{
    let ghost start = out.deep_view();
    let ghost d = draft.deep_view();
    let mut i: usize = 0;
    assert(out.deep_view() =~= start + all_extension_findings(d, 0));
    while i < draft.extensions.len()
        invariant
            i <= draft.extensions.len(),
            d == draft.deep_view(),
            out.deep_view() == start + all_extension_findings(d, i as int),
        decreases draft.extensions.len() - i,
    {
        check_extension(draft, i, out);
        i += 1;
        assert(out.deep_view() =~= start + all_extension_findings(d, i as int));
    }
}

/// The finding on a node whose contract does not exist.
pub open spec fn node_contract_finding(d: FlowDraftView, node: FlowNodeView) -> Seq<
    DiagnosticView,
> {
    match node.contract_id {
        Some(contract_id) => if has_contract(d, contract_id) {
            Seq::empty()
        } else {
            seq![
                guided_error(
                    DiagnosticDomain::Contract,
                    "FLOW_UNKNOWN_NODE_CONTRACT"@,
                    "nodes["@ + node.id + "].contract_id"@,
                    "node '"@ + node.id + "' references missing contract '"@ + contract_id + "'"@,
                    "Add the contract or update the node contract_id."@,
                    "Node contract references must resolve before runtime stop contracts can be derived."@,
                ),
            ]
        },
        None => Seq::empty(),
    }
}

/// The finding on an action that no adapter carries out by itself.
pub open spec fn driver_finding(node: FlowNodeView, action: NodeActionView) -> Seq<DiagnosticView> {
    if action.driver == NodeDriver::Script {
        seq![
            guided_error(
                DiagnosticDomain::RuntimeCompat,
                "FLOW_UNSUPPORTED_SCRIPT_ACTION_DRIVER"@,
                "nodes["@ + node.id + "].action.driver"@,
                "script action drivers are not supported by autonomous tmux actuation"@,
                "Use an agent or review action with explicit prompt and artifact contracts."@,
                "Runnable flows must not lock nodes that the runtime cannot autonomously actuate."@,
            ),
        ]
    } else {
        Seq::empty()
    }
}

/// The finding on an action whose prompt is missing or no prompt.
pub open spec fn prompt_finding(
    d: FlowDraftView,
    node: FlowNodeView,
    action: NodeActionView,
) -> Seq<DiagnosticView> {
    match action.prompt_ref {
        Some(prompt_ref) => match kind_of(d, prompt_ref) {
            Some(kind) => if kind == ResourceKind::Prompt {
                Seq::empty()
            } else {
                seq![
                    guided_error(
                        DiagnosticDomain::Resource,
                        "FLOW_INVALID_ACTION_PROMPT"@,
                        "nodes["@ + node.id + "].action.prompt_ref"@,
                        "node action prompt_ref '"@ + prompt_ref + "' must reference a prompt resource"@,
                        "Use a resource with kind 'prompt' for prompt_ref."@,
                        "Prompt references need a prompt resource so adapters receive the intended instruction."@,
                    ),
                ]
            },
            None => seq![
                guided_error(
                    DiagnosticDomain::Resource,
                    "FLOW_UNKNOWN_ACTION_PROMPT"@,
                    "nodes["@ + node.id + "].action.prompt_ref"@,
                    "node action references missing prompt resource '"@ + prompt_ref + "'"@,
                    "Add the prompt resource or update the action prompt reference."@,
                    "Prompt references need a resolvable resource before the node can run."@,
                ),
            ],
        },
        None => Seq::empty(),
    }
}

/// The findings on the first `n` resources that an action refers to.
pub open spec fn resource_ref_findings(
    d: FlowDraftView,
    node: FlowNodeView,
    action: NodeActionView,
    n: int,
) -> Seq<DiagnosticView>
    decreases n,
{
    if n <= 0 {
        Seq::empty()
    } else {
        let k = n - 1;
        let front = resource_ref_findings(d, node, action, k);
        if has_resource(d, action.resource_refs[k]) {
            front
        } else {
            front.push(
                guided_error(
                    DiagnosticDomain::Resource,
                    "FLOW_UNKNOWN_ACTION_RESOURCE"@,
                    "nodes["@ + node.id + "].action.resource_refs["@ + decimal(k as nat) + "]"@,
                    "node action references missing resource '"@ + action.resource_refs[k] + "'"@,
                    "Add the resource or update the action resource reference."@,
                    "Action resources must exist before adapters can mount or read them."@,
                ),
            )
        }
    }
}

/// The finding on an action with a blank verdict.
pub open spec fn verdict_finding(node: FlowNodeView, action: NodeActionView) -> Seq<
    DiagnosticView,
> {
    match action.verdict_artifact {
        Some(verdict) => if is_blank(verdict) {
            seq![
                guided_error(
                    DiagnosticDomain::Contract,
                    "FLOW_EMPTY_ACTION_VERDICT_ARTIFACT"@,
                    "nodes["@ + node.id + "].action.verdict_artifact"@,
                    "action verdict artifact must not be empty"@,
                    "Use a non-empty artifact-like id such as artifact.verdict."@,
                    "Verdict artifacts need stable ids so downstream routes and contracts can reference them."@,
                ),
            ]
        } else {
            Seq::empty()
        },
        None => Seq::empty(),
    }
}

pub open spec fn action_findings(
    d: FlowDraftView,
    node: FlowNodeView,
    action: NodeActionView,
) -> Seq<DiagnosticView> {
    driver_finding(node, action) + prompt_finding(d, node, action) + resource_ref_findings(
        d,
        node,
        action,
        action.resource_refs.len() as int,
    ) + verdict_finding(node, action)
}

/// The findings on the first `n` extensions of a node.
pub open spec fn node_extension_findings(node: FlowNodeView, n: int) -> Seq<DiagnosticView>
    decreases n,
{
    if n <= 0 {
        Seq::empty()
    } else {
        let k = n - 1;
        let front = node_extension_findings(node, k);
        if is_authoring_extension(node.extensions[k]) {
            front
        } else {
            front.push(
                misuse(
                    "nodes["@ + node.id + "].extensions["@ + decimal(k as nat) + "]"@,
                    node.extensions[k],
                ),
            )
        }
    }
}

pub open spec fn node_findings(d: FlowDraftView, i: int) -> Seq<DiagnosticView> {
    let node = d.nodes[i];
    node_contract_finding(d, node) + (match node.action {
        Some(action) => action_findings(d, node, action),
        None => Seq::empty(),
    }) + node_extension_findings(node, node.extensions.len() as int)
}

fn check_resource_refs(
    draft: &FlowDraft,
    node: &FlowNode,
    action: &NodeAction,
    out: &mut Vec<Diagnostic>,
)
    ensures
        final(out).deep_view() == old(out).deep_view() + resource_ref_findings(
            draft.deep_view(),
            node.deep_view(),
            action.deep_view(),
            action.deep_view().resource_refs.len() as int,
        ),
{
    let ghost start = out.deep_view();
    let ghost d = draft.deep_view();
    let ghost n = node.deep_view();
    let ghost a = action.deep_view();
    let mut k: usize = 0;
    assert(out.deep_view() =~= start + resource_ref_findings(d, n, a, 0));
    while k < action.resource_refs.len()
        invariant
            k <= action.resource_refs.len(),
            d == draft.deep_view(),
            n == node.deep_view(),
            a == action.deep_view(),
            out.deep_view() == start + resource_ref_findings(d, n, a, k as int),
        decreases action.resource_refs.len() - k,
    {
        let resource_id = action.resource_refs[k].as_str();
        assert(a.resource_refs[k as int] == resource_id@);
        if !resource_exists(draft, resource_id, draft.resources.len()) {
            push_finding(
                out,
                Diagnostic::guided(
                    DiagnosticDomain::Resource,
                    "FLOW_UNKNOWN_ACTION_RESOURCE",
                    cat5(
                        "nodes[",
                        node.id.as_str(),
                        "].action.resource_refs[",
                        decimal_index(k).as_str(),
                        "]",
                    ),
                    cat3("node action references missing resource '", resource_id, "'"),
                    "Add the resource or update the action resource reference.",
                    "Action resources must exist before adapters can mount or read them.",
                ),
            );
        }
        k += 1;
        assert(out.deep_view() =~= start + resource_ref_findings(d, n, a, k as int));
    }
}

fn check_action(
    draft: &FlowDraft,
    node: &FlowNode,
    action: &NodeAction,
    out: &mut Vec<Diagnostic>,
)
    ensures
        final(out).deep_view() == old(out).deep_view() + action_findings(
            draft.deep_view(),
            node.deep_view(),
            action.deep_view(),
        ),
{
    let ghost d = draft.deep_view();
    let ghost n = node.deep_view();
    let ghost a = action.deep_view();
    let ghost s0 = out.deep_view();
    if action.driver == NodeDriver::Script {
        push_finding(
            out,
            Diagnostic::guided(
                DiagnosticDomain::RuntimeCompat,
                "FLOW_UNSUPPORTED_SCRIPT_ACTION_DRIVER",
                cat3("nodes[", node.id.as_str(), "].action.driver"),
                "script action drivers are not supported by autonomous tmux actuation".to_string(),
                "Use an agent or review action with explicit prompt and artifact contracts.",
                "Runnable flows must not lock nodes that the runtime cannot autonomously actuate.",
            ),
        );
    }
    let ghost s1 = out.deep_view();
    assert(s1 =~= s0 + driver_finding(n, a));
    if let Some(prompt_ref) = &action.prompt_ref {
        match find_resource_kind(draft, prompt_ref.as_str()) {
            Some(kind) => {
                if kind != ResourceKind::Prompt {
                    push_finding(
                        out,
                        Diagnostic::guided(
                            DiagnosticDomain::Resource,
                            "FLOW_INVALID_ACTION_PROMPT",
                            cat3("nodes[", node.id.as_str(), "].action.prompt_ref"),
                            cat3(
                                "node action prompt_ref '",
                                prompt_ref.as_str(),
                                "' must reference a prompt resource",
                            ),
                            "Use a resource with kind 'prompt' for prompt_ref.",
                            "Prompt references need a prompt resource so adapters receive the intended instruction.",
                        ),
                    );
                }
            },
            None => {
                push_finding(
                    out,
                    Diagnostic::guided(
                        DiagnosticDomain::Resource,
                        "FLOW_UNKNOWN_ACTION_PROMPT",
                        cat3("nodes[", node.id.as_str(), "].action.prompt_ref"),
                        cat3(
                            "node action references missing prompt resource '",
                            prompt_ref.as_str(),
                            "'",
                        ),
                        "Add the prompt resource or update the action prompt reference.",
                        "Prompt references need a resolvable resource before the node can run.",
                    ),
                );
            },
        }
    }
    let ghost s2 = out.deep_view();
    assert(s2 =~= s1 + prompt_finding(d, n, a));
    check_resource_refs(draft, node, action, out);
    let ghost s3 = out.deep_view();
    if let Some(verdict) = &action.verdict_artifact {
        if blank(verdict.as_str()) {
            push_finding(
                out,
                Diagnostic::guided(
                    DiagnosticDomain::Contract,
                    "FLOW_EMPTY_ACTION_VERDICT_ARTIFACT",
                    cat3("nodes[", node.id.as_str(), "].action.verdict_artifact"),
                    "action verdict artifact must not be empty".to_string(),
                    "Use a non-empty artifact-like id such as artifact.verdict.",
                    "Verdict artifacts need stable ids so downstream routes and contracts can reference them.",
                ),
            );
        }
    }
    assert(out.deep_view() =~= s3 + verdict_finding(n, a));
    assert(out.deep_view() =~= s0 + action_findings(d, n, a));
}

fn check_node_extensions(node: &FlowNode, out: &mut Vec<Diagnostic>)
    ensures
        final(out).deep_view() == old(out).deep_view() + node_extension_findings(
            node.deep_view(),
            node.deep_view().extensions.len() as int,
        ),
{
    let ghost start = out.deep_view();
    let ghost n = node.deep_view();
    let mut k: usize = 0;
    assert(out.deep_view() =~= start + node_extension_findings(n, 0));
    while k < node.extensions.len()
        invariant
            k <= node.extensions.len(),
            n == node.deep_view(),
            out.deep_view() == start + node_extension_findings(n, k as int),
        decreases node.extensions.len() - k,
    {
        let extension = node.extensions[k].as_str();
        assert(n.extensions[k as int] == extension@);
        if !is_authoring_extension_kind(extension) {
            push_finding(
                out,
                misuse_finding(
                    cat5(
                        "nodes[",
                        node.id.as_str(),
                        "].extensions[",
                        decimal_index(k).as_str(),
                        "]",
                    ),
                    extension,
                ),
            );
        }
        k += 1;
        assert(out.deep_view() =~= start + node_extension_findings(n, k as int));
    }
}

fn check_node(draft: &FlowDraft, i: usize, out: &mut Vec<Diagnostic>)
    requires
        i < draft.nodes.len(),
    ensures
        final(out).deep_view() == old(out).deep_view() + node_findings(
            draft.deep_view(),
            i as int,
        ),
{
    let ghost d = draft.deep_view();
    let node = &draft.nodes[i];
    let ghost n = node.deep_view();
    assert(d.nodes[i as int] == n);
    let ghost s0 = out.deep_view();
    if let Some(contract_id) = &node.contract_id {
        if !contract_exists(draft, contract_id.as_str(), draft.contracts.len()) {
            push_finding(
                out,
                Diagnostic::guided(
                    DiagnosticDomain::Contract,
                    "FLOW_UNKNOWN_NODE_CONTRACT",
                    cat3("nodes[", node.id.as_str(), "].contract_id"),
                    cat5(
                        "node '",
                        node.id.as_str(),
                        "' references missing contract '",
                        contract_id.as_str(),
                        "'",
                    ),
                    "Add the contract or update the node contract_id.",
                    "Node contract references must resolve before runtime stop contracts can be derived.",
                ),
            );
        }
    }
    let ghost s1 = out.deep_view();
    assert(s1 =~= s0 + node_contract_finding(d, n));
    if let Some(action) = &node.action {
        check_action(draft, node, action, out);
    }
    check_node_extensions(node, out);
    assert(out.deep_view() =~= s0 + node_findings(d, i as int));
}

/// The findings on the first `n` nodes.
pub open spec fn all_node_findings(d: FlowDraftView, n: int) -> Seq<DiagnosticView>
    decreases n,
{
    if n <= 0 {
        Seq::empty()
    } else {
        all_node_findings(d, n - 1) + node_findings(d, n - 1)
    }
}

fn push_all_node_findings(draft: &FlowDraft, out: &mut Vec<Diagnostic>)
    ensures
        final(out).deep_view() == old(out).deep_view() + all_node_findings(
            draft.deep_view(),
            draft.deep_view().nodes.len() as int,
        ),
{
    let ghost start = out.deep_view();
    let ghost d = draft.deep_view();
    let mut i: usize = 0;
    assert(out.deep_view() =~= start + all_node_findings(d, 0));
    while i < draft.nodes.len()
        invariant
            i <= draft.nodes.len(),
            d == draft.deep_view(),
            out.deep_view() == start + all_node_findings(d, i as int),
        decreases draft.nodes.len() - i,
    {
        check_node(draft, i, out);
        i += 1;
        assert(out.deep_view() =~= start + all_node_findings(d, i as int));
    }
}

/// The finding on a scope that reaches beyond one artifact or resource.
pub open spec fn broad_scope(
    scope: WriteScopeView,
    severity: Severity,
    location: Seq<char>,
) -> Seq<DiagnosticView> {
    if scope.is_broad() {
        seq![
            finding(
                severity,
                DiagnosticDomain::Policy,
                "FLOW_BROAD_WRITE_SCOPE"@,
                location,
                "write scope '"@ + scope.tag() + "' is broader than an artifact or resource"@,
                "Use artifact or resource write scopes unless wider access is required."@,
                "Broad write scopes make node effects harder to audit."@,
                Repairability::GuidanceOnly,
                Seq::empty(),
            ),
        ]
    } else {
        Seq::empty()
    }
}

pub fn push_broad_write_scope_diagnostic(
    scope: &WriteScope,
    severity: Severity,
    location: String,
    diagnostics: &mut Vec<Diagnostic>,
)
    ensures
        final(diagnostics).deep_view() == old(diagnostics).deep_view() + broad_scope(
            scope.deep_view(),
            severity,
            location@,
        ),
{
    if scope.is_broad() {
        let message = cat3(
            "write scope '",
            scope.tag(),
            "' is broader than an artifact or resource",
        );
        let diagnostic = Diagnostic {
            code: "FLOW_BROAD_WRITE_SCOPE".to_string(),
            domain: DiagnosticDomain::Policy,
            severity,
            repairability: Repairability::GuidanceOnly,
            location,
            message,
            fix_hint: Some(
                "Use artifact or resource write scopes unless wider access is required.".to_string(),
            ),
            why_it_matters: Some(
                "Broad write scopes make node effects harder to audit.".to_string(),
            ),
            repair_kinds: Vec::new(),
        };
        push_finding(diagnostics, diagnostic);
    }
    assert(diagnostics.deep_view() =~= old(diagnostics).deep_view() + broad_scope(
        scope.deep_view(),
        severity,
        location@,
    ));
}

/// How grave a broad scope is: strict checks do not let it pass.
pub open spec fn broad_severity(mode: FlowCheckMode) -> Severity {
    match mode {
        FlowCheckMode::Core => Severity::Warning,
        FlowCheckMode::Strict => Severity::Error,
    }
}

/// The broad scopes among the first `n`, located by the text before their index.
pub open spec fn scope_findings(
    scopes: Seq<WriteScopeView>,
    mode: FlowCheckMode,
    place: Seq<char>,
    n: int,
) -> Seq<DiagnosticView>
    decreases n,
{
    if n <= 0 {
        Seq::empty()
    } else {
        scope_findings(scopes, mode, place, n - 1) + broad_scope(
            scopes[n - 1],
            broad_severity(mode),
            place + decimal((n - 1) as nat) + "]"@,
        )
    }
}

fn check_scopes(
    scopes: &Vec<WriteScope>,
    mode: FlowCheckMode,
    place: &str,
    out: &mut Vec<Diagnostic>,
)
    ensures
        final(out).deep_view() == old(out).deep_view() + scope_findings(
            scopes.deep_view(),
            mode,
            place@,
            scopes.deep_view().len() as int,
        ),
{
    let ghost start = out.deep_view();
    let ghost model = scopes.deep_view();
    let severity = match mode {
        FlowCheckMode::Core => Severity::Warning,
        FlowCheckMode::Strict => Severity::Error,
    };
    let mut i: usize = 0;
    assert(out.deep_view() =~= start + scope_findings(model, mode, place@, 0));
    while i < scopes.len()
        invariant
            i <= scopes.len(),
            model == scopes.deep_view(),
            severity == broad_severity(mode),
            out.deep_view() == start + scope_findings(model, mode, place@, i as int),
        decreases scopes.len() - i,
    {
        assert(model[i as int] == scopes@[i as int].deep_view());
        push_broad_write_scope_diagnostic(
            &scopes[i],
            severity,
            cat3(place, decimal_index(i).as_str(), "]"),
            out,
        );
        i += 1;
        assert(out.deep_view() =~= start + scope_findings(model, mode, place@, i as int));
    }
}

pub open spec fn node_scope_findings(d: FlowDraftView, mode: FlowCheckMode, i: int) -> Seq<
    DiagnosticView,
> {
    scope_findings(
        d.nodes[i].write_scopes,
        mode,
        "nodes["@ + d.nodes[i].id + "].write_scopes["@,
        d.nodes[i].write_scopes.len() as int,
    )
}

fn check_node_scopes(draft: &FlowDraft, mode: FlowCheckMode, i: usize, out: &mut Vec<Diagnostic>)
    requires
        i < draft.nodes.len(),
    ensures
        final(out).deep_view() == old(out).deep_view() + node_scope_findings(
            draft.deep_view(),
            mode,
            i as int,
        ),
{
    let node = &draft.nodes[i];
    assert(draft.deep_view().nodes[i as int] == node.deep_view());
    let place = cat3("nodes[", node.id.as_str(), "].write_scopes[");
    check_scopes(&node.write_scopes, mode, place.as_str(), out);
}

/// The broad scopes of the first `n` nodes.
pub open spec fn all_node_scope_findings(
    d: FlowDraftView,
    mode: FlowCheckMode,
    n: int,
) -> Seq<DiagnosticView>
    decreases n,
{
    if n <= 0 {
        Seq::empty()
    } else {
        all_node_scope_findings(d, mode, n - 1) + node_scope_findings(d, mode, n - 1)
    }
}

fn push_all_node_scope_findings(draft: &FlowDraft, mode: FlowCheckMode, out: &mut Vec<Diagnostic>)
    ensures
        final(out).deep_view() == old(out).deep_view() + all_node_scope_findings(
            draft.deep_view(), mode,
            draft.deep_view().nodes.len() as int,
        ),
{
    let ghost start = out.deep_view();
    let ghost d = draft.deep_view();
    let mut i: usize = 0;
    assert(out.deep_view() =~= start + all_node_scope_findings(d, mode, 0));
    while i < draft.nodes.len()
        invariant
            i <= draft.nodes.len(),
            d == draft.deep_view(),
            out.deep_view() == start + all_node_scope_findings(d, mode, i as int),
        decreases draft.nodes.len() - i,
    {
        check_node_scopes(draft, mode, i, out);
        i += 1;
        assert(out.deep_view() =~= start + all_node_scope_findings(d, mode, i as int));
    }
}

/// All findings on a flow, in order.
pub open spec fn check_findings(d: FlowDraftView, mode: FlowCheckMode) -> Seq<DiagnosticView> {
    all_node_id_findings(d, d.nodes.len() as int)
        + all_contract_id_findings(d, d.contracts.len() as int)
        + all_resource_findings(d, d.resources.len() as int)
        + all_import_findings(d, d.imports.len() as int)
        + readme_findings(d)
        + qos_findings(d)
        + all_route_findings(d, d.routes.len() as int)
        + all_contract_findings(d, d.contracts.len() as int)
        + all_extension_findings(d, d.extensions.len() as int)
        + all_node_findings(d, d.nodes.len() as int)
        + scope_findings(
            d.policies.write_scopes,
            mode,
            "policies.write_scopes["@,
            d.policies.write_scopes.len() as int,
        )
        + all_node_scope_findings(d, mode, d.nodes.len() as int)
}

/// Checks a flow.
pub fn flow_check(draft: &FlowDraft, mode: FlowCheckMode) -> (r: CheckReport)
    ensures
        r.mode == mode,
        r.deep_view().diagnostics == check_findings(draft.deep_view(), mode),
{
    let ghost d = draft.deep_view();
    let mut out: Vec<Diagnostic> = Vec::new();
    let ghost s0 = out.deep_view();
    assert(s0 =~= Seq::<DiagnosticView>::empty());
    push_all_node_id_findings(draft, &mut out);
    let ghost s1 = all_node_id_findings(d, d.nodes.len() as int);
    assert(out.deep_view() =~= s1);
    push_all_contract_id_findings(draft, &mut out);
    let ghost s2 = s1 + all_contract_id_findings(d, d.contracts.len() as int);
    assert(out.deep_view() =~= s2);
    push_all_resource_findings(draft, &mut out);
    let ghost s3 = s2 + all_resource_findings(d, d.resources.len() as int);
    assert(out.deep_view() =~= s3);
    push_all_import_findings(draft, &mut out);
    let ghost s4 = s3 + all_import_findings(d, d.imports.len() as int);
    assert(out.deep_view() =~= s4);
    check_readme(draft, &mut out);
    let ghost s5 = s4 + readme_findings(d);
    assert(out.deep_view() =~= s5);
    check_qos(draft, &mut out);
    let ghost s6 = s5 + qos_findings(d);
    assert(out.deep_view() =~= s6);
    push_all_route_findings(draft, &mut out);
    let ghost s7 = s6 + all_route_findings(d, d.routes.len() as int);
    assert(out.deep_view() =~= s7);
    push_all_contract_findings(draft, &mut out);
    let ghost s8 = s7 + all_contract_findings(d, d.contracts.len() as int);
    assert(out.deep_view() =~= s8);
    push_all_extension_findings(draft, &mut out);
    let ghost s9 = s8 + all_extension_findings(d, d.extensions.len() as int);
    assert(out.deep_view() =~= s9);
    push_all_node_findings(draft, &mut out);
    let ghost s10 = s9 + all_node_findings(d, d.nodes.len() as int);
    assert(out.deep_view() =~= s10);
    check_scopes(&draft.policies.write_scopes, mode, "policies.write_scopes[", &mut out);
    let ghost s11 = s10 + scope_findings(
        d.policies.write_scopes,
        mode,
        "policies.write_scopes["@,
        d.policies.write_scopes.len() as int,
    );
    assert(out.deep_view() =~= s11);
    push_all_node_scope_findings(draft, mode, &mut out);
    assert(out.deep_view() =~= s11 + all_node_scope_findings(d, mode, d.nodes.len() as int));
    CheckReport { mode, diagnostics: out }
}

} // verus!
