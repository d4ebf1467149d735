use humanize_plugin::flow::canonical::canonicalize_draft;
use humanize_plugin::flow::check::{package_path_is_valid, skill_path_is_valid};
use humanize_plugin::flow::contents::with_contents;
use humanize_plugin::flow::diagnostic::DiagnosticDomain;
use humanize_plugin::flow::export::order_fields;
use humanize_plugin::flow::lock::{FlowLockFault, FlowLockWire};
use humanize_plugin::flow::package::{
    checked_relative_path, manifest_resources, manifest_text, staging_entry, staging_name, validate_entry, EntryFacts,
    EntryKind, PackageFiles,
};
use humanize_plugin::flow::{
    canonical_route_identity, effective_node_write_scopes, flow_check,
    flow_check_run_compatibility, flow_draft_contract_effects, flow_draft_qos, flow_export,
    flow_lock, flow_node_work_profile, flow_repair, flow_suggest, set_flow_draft_contract_effects,
    set_flow_draft_qos, set_flow_node_work_profile, AdapterCapability, CompletionPolicy,
    ContractArtifact, ContractCompletion, EffectRequirement, FactRef, FlowCheckMode, FlowContract,
    FlowDraft, FlowExportFormat, FlowImport, FlowNode, FlowPolicies, FlowPredicate, FlowQosIntent,
    FlowRepairInput, FlowResource, FlowRoute, FlowSuggestInput, NetworkAccess, NodeAction,
    NodeContract, NodeDriver, QosUrgency, RepairKind, Repairability, ResourceKind,
    RunCompatibility, Severity, StopGate, ToolExecution, WorkIntent, WorkProfile, WorkspaceAccess,
    WriteScope,
};
use humanize_plugin::json::{compact, parse_json, Json};

fn text(value: &str) -> String {
    value.to_string()
}

fn node(id: &str) -> FlowNode {
    FlowNode { id: text(id), ..FlowNode::default() }
}

fn resource(id: &str, kind: ResourceKind, source: &str) -> FlowResource {
    FlowResource { id: text(id), kind, source: text(source) }
}

fn readme() -> FlowResource {
    resource("README.md", ResourceKind::Readme, "Revision persistence fixture.")
}

fn small_draft() -> FlowDraft {
    FlowDraft { nodes: vec![node("root")], resources: vec![readme()], ..FlowDraft::default() }
}

fn action(driver: NodeDriver) -> NodeAction {
    NodeAction {
        driver,
        prompt_ref: None,
        resource_refs: Vec::new(),
        reads: Vec::new(),
        writes: Vec::new(),
        verdict_artifact: None,
    }
}

fn route(target: &str) -> FlowRoute {
    FlowRoute {
        predicate: FlowPredicate::exists_artifact(text("plan")).unwrap(),
        for_each: None,
        activate: text(target),
    }
}

fn codes(draft: &FlowDraft, mode: FlowCheckMode) -> Vec<String> {
    flow_check(draft, mode).diagnostics.iter().map(|found| found.code.clone()).collect()
}

const SMALL: &str = "{\"format\":\"humanize.flow_lock.v1\",\"check_mode\":\"core\",\"diagnostics\":[],\"flow\":{\"nodes\":[{\"id\":\"root\",\"contract_id\":null,\"action\":null,\"write_scopes\":[],\"extensions\":[]}],\"contracts\":[],\"routes\":[],\"resources\":[{\"path\":\"README.md\",\"kind\":\"readme\",\"content\":\"Revision persistence fixture.\"}],\"imports\":[],\"policies\":{\"write_scopes\":[]},\"extensions\":[]}}";

#[test]
fn locks_are_named_by_the_digest_of_what_they_hold() {
    let lock = flow_lock(&small_draft(), FlowCheckMode::Core).unwrap();
    assert_eq!(String::from_utf8(lock.canonical_bytes().to_vec()).unwrap(), SMALL);
    let digest = "d234b21cd7bfaefc0b24cf661026018138a256e6921a3e2c81cd9e6c69eaf448";
    assert_eq!(lock.id(), format!("flk_{digest}"));
    assert_eq!(lock.content_hash(), format!("sha256:{digest}"));
    assert_eq!(lock.mode(), FlowCheckMode::Core);
    assert!(lock.diagnostics().is_empty());
    assert_eq!(lock.draft().nodes[0].id, "root");
}

#[test]
fn drafts_with_errors_are_not_locked() {
    let draft = FlowDraft { nodes: vec![node("root")], ..FlowDraft::default() };
    let error = flow_lock(&draft, FlowCheckMode::Core).unwrap_err();
    assert_eq!(error.diagnostics[0].code, "FLOW_MISSING_README");
}

#[test]
fn the_order_of_declaration_does_not_matter() {
    let one = FlowDraft {
        nodes: vec![node("b"), node("a")],
        resources: vec![readme(), resource("a.txt", ResourceKind::Rule, "x")],
        routes: vec![route("b"), route("a")],
        extensions: vec![text("Node"), text("Board"), text("Node")],
        ..FlowDraft::default()
    };
    let other = FlowDraft {
        nodes: vec![node("a"), node("b")],
        resources: vec![resource("a.txt", ResourceKind::Rule, "x"), readme()],
        routes: vec![route("a"), route("b")],
        extensions: vec![text("Board"), text("Node"), text("Node")],
        ..FlowDraft::default()
    };
    let first = flow_lock(&one, FlowCheckMode::Core).unwrap();
    let second = flow_lock(&other, FlowCheckMode::Core).unwrap();
    assert_eq!(first.id(), second.id());
    assert_eq!(first.draft().extensions, vec!["Board", "Node"]);
}

#[test]
fn canonical_form_is_stable() {
    let mut first = node("b");
    first.write_scopes =
        vec![WriteScope::System, WriteScope::Artifact(text("x")), WriteScope::System];
    let draft = FlowDraft { nodes: vec![first, node("a")], ..FlowDraft::default() };
    let once = canonicalize_draft(&draft);
    assert_eq!(once.nodes[0].id, "a");
    assert_eq!(once.nodes[1].write_scopes.len(), 2);
    assert!(matches!(&once.nodes[1].write_scopes[0], WriteScope::Artifact(id) if id == "x"));
    let twice = canonicalize_draft(&once);
    assert_eq!(twice.nodes[1].id, "b");
    assert_eq!(twice.nodes[1].write_scopes.len(), 2);
}

fn stored(draft: FlowDraft) -> FlowLockWire {
    let lock = flow_lock(&draft, FlowCheckMode::Core).unwrap();
    FlowLockWire {
        format: text("humanize.flow_lock.v1"),
        lock_id: text(lock.id()),
        content_hash: text(lock.content_hash()),
        check_mode: FlowCheckMode::Core,
        diagnostics: Vec::new(),
        flow: draft,
    }
}

#[test]
fn stored_locks_are_accepted_as_they_were_written() {
    let wire = stored(small_draft());
    let lock = wire.verify().unwrap();
    assert_eq!(lock.id(), wire.lock_id);
}

#[test]
fn stored_locks_that_were_changed_are_refused() {
    let mut format = stored(small_draft());
    format.format = text("other");
    assert_eq!(format.verify().unwrap_err(), FlowLockFault::Format);
    let mut invalid = stored(small_draft());
    invalid.flow.resources.clear();
    assert_eq!(invalid.verify().unwrap_err(), FlowLockFault::Validation);
    let mut order = stored(small_draft());
    order.flow.nodes = vec![node("b"), node("a")];
    assert_eq!(order.verify().unwrap_err(), FlowLockFault::Flow);
    let mut content = stored(small_draft());
    content.flow.resources[0].source = text("Another text.");
    assert_eq!(content.verify().unwrap_err(), FlowLockFault::Identity);
    assert_eq!(FlowLockFault::Identity.message(), "flow lock content identity mismatch");
    let mut told = stored(small_draft());
    told.diagnostics = flow_check(&FlowDraft { nodes: vec![node("x")], ..FlowDraft::default() }, FlowCheckMode::Core).diagnostics;
    assert_eq!(told.verify().unwrap_err(), FlowLockFault::Diagnostics);
}

#[test]
fn empty_drafts_have_nothing_to_find() {
    assert!(codes(&FlowDraft::default(), FlowCheckMode::Strict).is_empty());
    assert!(codes(&small_draft(), FlowCheckMode::Strict).is_empty());
}

#[test]
fn packages_are_checked() {
    let twice = FlowDraft { nodes: vec![node("a"), node("a")], ..small_draft() };
    assert_eq!(codes(&twice, FlowCheckMode::Core), vec!["FLOW_DUPLICATE_NODE_ID"]);
    let mut paths = small_draft();
    paths.resources.push(resource("../up", ResourceKind::Rule, ""));
    paths.resources.push(resource("x", ResourceKind::Rule, ""));
    paths.resources.push(resource("x", ResourceKind::Rule, ""));
    paths.resources.push(resource("docs/README.md", ResourceKind::Readme, "x"));
    paths.resources.push(resource("skills/a.md", ResourceKind::Skill, "x"));
    assert_eq!(
        codes(&paths, FlowCheckMode::Core),
        vec![
            "FLOW_INVALID_RESOURCE_PATH",
            "FLOW_DUPLICATE_RESOURCE_PATH",
            "FLOW_INVALID_README_PATH",
            "FLOW_INVALID_SKILL_PATH",
        ]
    );
    let mut kind = small_draft();
    kind.resources[0].kind = ResourceKind::Rule;
    assert_eq!(
        codes(&kind, FlowCheckMode::Core),
        vec!["FLOW_INVALID_README_PATH", "FLOW_MISSING_README"]
    );
    let mut empty = small_draft();
    empty.resources[0].source = text(" \n");
    assert_eq!(codes(&empty, FlowCheckMode::Core), vec!["FLOW_EMPTY_README"]);
    let mut import = small_draft();
    import.imports.push(FlowImport { resource_id: text("gone"), alias: None });
    let found = flow_check(&import, FlowCheckMode::Core).diagnostics;
    assert_eq!(found[0].code, "FLOW_UNRESOLVED_IMPORT");
    assert_eq!(found[0].location, "imports[0].resource_id");
    assert_eq!(found[0].domain, DiagnosticDomain::Resource);
    assert_eq!(found[0].severity, Severity::Error);
}

#[test]
fn contracts_are_checked() {
    let mut draft = small_draft();
    draft.contracts.push(FlowContract {
        id: text("c"),
        completion: None,
        artifacts: vec![
            ContractArtifact { id: text("x"), schema_resource_id: None },
            ContractArtifact { id: text("x"), schema_resource_id: Some(text("gone")) },
        ],
    });
    draft.contracts.push(FlowContract {
        id: text("c"),
        completion: Some(ContractCompletion::Manual),
        artifacts: Vec::new(),
    });
    draft.nodes[0].contract_id = Some(text("other"));
    assert_eq!(
        codes(&draft, FlowCheckMode::Core),
        vec![
            "FLOW_DUPLICATE_CONTRACT_ARTIFACT",
            "FLOW_DUPLICATE_CONTRACT_ID",
            "FLOW_MISSING_CONTRACT_COMPLETION",
            "FLOW_MISSING_ARTIFACT_SCHEMA",
            "FLOW_MISSING_ARTIFACT_SCHEMA",
            "FLOW_UNKNOWN_NODE_CONTRACT",
        ]
    );
}

#[test]
fn routes_are_checked() {
    let draft = FlowDraft { routes: vec![route("root"), route("root"), route("x")], ..small_draft() };
    let report = flow_check(&draft, FlowCheckMode::Core);
    assert_eq!(report.diagnostics[0].code, "FLOW_DUPLICATE_ROUTE");
    assert_eq!(report.diagnostics[0].message, "route duplicates routes[0]");
    assert_eq!(report.diagnostics[1].code, "FLOW_UNKNOWN_ROUTE_TARGET");
    assert_eq!(report.diagnostics[1].repairability, Repairability::Candidate);
    assert!(report.has_errors());
    assert_eq!(canonical_route_identity(&route("a")), canonical_route_identity(&route("a")));
    assert_ne!(canonical_route_identity(&route("a")), canonical_route_identity(&route("b")));
    assert!(canonical_route_identity(&route("a")).starts_with("route-sha256:"));
}

#[test]
fn actions_are_checked() {
    let mut draft = small_draft();
    let mut script = action(NodeDriver::Script);
    script.prompt_ref = Some(text("README.md"));
    script.resource_refs = vec![text("gone")];
    script.verdict_artifact = Some(text(" "));
    draft.nodes[0].action = Some(script);
    let mut agent = action(NodeDriver::Agent);
    agent.prompt_ref = Some(text("missing.md"));
    let mut second = node("second");
    second.action = Some(agent);
    second.extensions = vec![text("Runtime")];
    draft.nodes.push(second);
    assert_eq!(
        codes(&draft, FlowCheckMode::Core),
        vec![
            "FLOW_UNSUPPORTED_SCRIPT_ACTION_DRIVER",
            "FLOW_INVALID_ACTION_PROMPT",
            "FLOW_UNKNOWN_ACTION_RESOURCE",
            "FLOW_EMPTY_ACTION_VERDICT_ARTIFACT",
            "FLOW_UNKNOWN_ACTION_PROMPT",
            "FLOW_AUTHORING_PRIMITIVE_MISUSE",
        ]
    );
}

#[test]
fn broad_scopes_are_worse_in_strict_mode() {
    let mut draft = small_draft();
    draft.nodes[0].write_scopes = vec![WriteScope::Workspace];
    let core = flow_check(&draft, FlowCheckMode::Core);
    assert_eq!(core.diagnostics[0].code, "FLOW_BROAD_WRITE_SCOPE");
    assert_eq!(core.diagnostics[0].severity, Severity::Warning);
    assert!(!core.has_errors());
    let strict = flow_check(&draft, FlowCheckMode::Strict);
    assert_eq!(strict.diagnostics[0].severity, Severity::Error);
    assert!(strict.has_errors());
}

#[test]
fn the_strict_check_finds_what_the_core_check_finds() {
    let mut draft = small_draft();
    draft.nodes[0].write_scopes = vec![WriteScope::Workspace, WriteScope::Artifact(text("a"))];
    draft.routes.push(route("nowhere"));
    draft.policies.write_scopes = vec![WriteScope::Workspace];
    let core = flow_check(&draft, FlowCheckMode::Core);
    let strict = flow_check(&draft, FlowCheckMode::Strict);
    assert_eq!(core.diagnostics.len(), 3);
    assert_eq!(strict.diagnostics.len(), 3);
    for (mild, grave) in core.diagnostics.iter().zip(strict.diagnostics.iter()) {
        assert_eq!(mild.code, grave.code);
        assert_eq!(mild.location, grave.location);
        assert_eq!(grave.severity, Severity::Error);
        let broad = mild.code == "FLOW_BROAD_WRITE_SCOPE";
        assert_eq!(mild.severity == Severity::Warning, broad);
    }
}

#[test]
fn the_order_of_a_draft_does_not_change_its_lock() {
    let mut first = small_draft();
    first.nodes.push(node("other"));
    first.routes = vec![route("root"), route("other")];
    first.resources.push(resource("a.md", ResourceKind::Prompt, "Ask."));
    let mut second = small_draft();
    second.nodes = vec![node("other"), node("root")];
    second.routes = vec![route("other"), route("root")];
    second.resources.insert(0, resource("a.md", ResourceKind::Prompt, "Ask."));
    let one = flow_lock(&first, FlowCheckMode::Strict).unwrap();
    let two = flow_lock(&second, FlowCheckMode::Strict).unwrap();
    assert_eq!(one.id(), two.id());
    assert_eq!(one.canonical_bytes(), two.canonical_bytes());
}

#[test]
fn packages_read_back_as_their_locks() {
    let lock = flow_lock(&small_draft(), FlowCheckMode::Core).unwrap();
    let manifest = parse_json(&manifest_text(&lock)).unwrap();
    assert!(manifest_resources(&manifest).unwrap()[0].get("content").is_none());
    let contents = vec![text("Revision persistence fixture.")];
    let whole = with_contents(manifest, &contents);
    assert_eq!(
        compact(&order_fields(&whole)),
        compact(&order_fields(&lock.to_wire_json()))
    );
    let bare = parse_json("{\"flow\":{}}").unwrap();
    assert_eq!(compact(&with_contents(bare, &vec![])), "{\"flow\":{}}");
}

#[test]
fn nodes_write_where_the_policies_allow_it() {
    let mut policies = FlowPolicies::default();
    let mut own = node("n");
    own.write_scopes = vec![WriteScope::Resource(text("r")), WriteScope::Workspace];
    assert!(effective_node_write_scopes(&policies, &own).is_empty());
    policies.write_scopes = vec![WriteScope::Workspace, WriteScope::Artifact(text("a"))];
    let allowed = effective_node_write_scopes(&policies, &own);
    assert_eq!(allowed.len(), 1);
    assert!(matches!(allowed[0], WriteScope::Workspace));
}

#[test]
fn quality_of_service_is_kept_in_an_extension() {
    let mut draft = small_draft();
    assert_eq!(flow_draft_qos(&draft).urgency, QosUrgency::Standard);
    set_flow_draft_qos(
        &mut draft,
        FlowQosIntent { urgency: QosUrgency::Interactive, completion_target: Some(text("today")) },
    );
    let qos = flow_draft_qos(&draft);
    assert_eq!(qos.urgency, QosUrgency::Interactive);
    assert_eq!(qos.completion_target.as_deref(), Some("today"));
    assert_eq!(draft.extensions.len(), 1);
    assert!(codes(&draft, FlowCheckMode::Core).is_empty());
    set_flow_draft_qos(
        &mut draft,
        FlowQosIntent { urgency: QosUrgency::Background, completion_target: Some(text(" ")) },
    );
    assert_eq!(draft.extensions.len(), 1);
    assert_eq!(codes(&draft, FlowCheckMode::Core), vec!["FLOW_EMPTY_QOS_COMPLETION_TARGET"]);
}

#[test]
fn work_profiles_are_kept_in_an_extension() {
    let mut subject = node("n");
    assert!(flow_node_work_profile(&subject).is_default());
    let profile = WorkProfile {
        intent: WorkIntent::Explore,
        workspace_access: WorkspaceAccess::ReadOnly,
        tool_execution: ToolExecution::Absent,
        network_access: NetworkAccess::Open,
    };
    set_flow_node_work_profile(&mut subject, profile);
    assert_eq!(flow_node_work_profile(&subject), profile);
    assert_eq!(subject.extensions.len(), 1);
}

#[test]
fn contract_effects_are_kept_in_an_extension() {
    let mut draft = small_draft();
    set_flow_draft_contract_effects(
        &mut draft,
        "c",
        vec![EffectRequirement { id: text("push"), required: false }],
    );
    let effects = flow_draft_contract_effects(&draft, "c");
    assert_eq!(effects.len(), 1);
    assert_eq!(effects[0].id, "push");
    assert!(!effects[0].required);
    assert!(flow_draft_contract_effects(&draft, "d").is_empty());
    assert_eq!(
        draft.extensions[0],
        "humanize.contract_effects:{\"contract_id\":\"c\",\"effects\":[{\"id\":\"push\",\"required\":false}]}"
    );
    set_flow_draft_contract_effects(&mut draft, "c", Vec::new());
    assert!(draft.extensions.is_empty());
}

#[test]
fn node_contracts_tell_what_is_owed() {
    let mut draft = small_draft();
    let mut agent = action(NodeDriver::Agent);
    agent.prompt_ref = Some(text("p"));
    agent.resource_refs = vec![text("r"), text("p")];
    agent.reads = vec![text("a"), text("a")];
    agent.writes = vec![text("w")];
    agent.verdict_artifact = Some(text("v"));
    draft.nodes[0].action = Some(agent);
    draft.nodes[0].contract_id = Some(text("c"));
    draft.contracts.push(FlowContract {
        id: text("c"),
        completion: Some(ContractCompletion::AllArtifacts),
        artifacts: vec![ContractArtifact { id: text("x"), schema_resource_id: Some(text("s")) }],
    });
    let contracts = NodeContract::from_draft(&draft);
    assert_eq!(contracts.len(), 1);
    let owed = &contracts[0];
    assert_eq!(owed.required, vec!["a"]);
    assert_eq!(owed.prefers, vec!["p", "r"]);
    assert_eq!(owed.accepts, vec!["w", "v"]);
    assert_eq!(owed.completion_policy, CompletionPolicy::AllArtifacts);
    assert_eq!(owed.stop_gate, StopGate::Required);
    assert_eq!(owed.artifact_requirements[0].id, "x");
    assert!(owed.artifact_requirements[0].required);
    let capabilities = AdapterCapability::from_draft(&draft);
    assert_eq!(capabilities[0].node_id, "root");
    assert_eq!(capabilities[0].required, vec!["a"]);
}

#[test]
fn repairs_are_proposed_for_unknown_targets() {
    let draft = FlowDraft { routes: vec![route("next")], ..small_draft() };
    let report = flow_repair(&FlowRepairInput::from_draft(draft, FlowCheckMode::Core));
    assert_eq!(report.diagnostics.len(), 1);
    assert_eq!(report.candidates.len(), 1);
    assert_eq!(report.candidates[0].repair_kind, RepairKind::AddRouteTarget);
    assert_eq!(report.candidates[0].location, "routes[0].activate");
}

#[test]
fn runs_need_every_resource() {
    let draft = small_draft();
    let missing = flow_check_run_compatibility(
        &draft,
        RunCompatibility { available_resources: Vec::new() },
    );
    assert!(!missing.compatible);
    assert_eq!(missing.diagnostics[0].code, "FLOW_RUN_RESOURCE_UNAVAILABLE");
    let there = flow_check_run_compatibility(
        &draft,
        RunCompatibility { available_resources: vec![text("README.md")] },
    );
    assert!(there.compatible);
    assert!(there.diagnostics.is_empty());
}

fn suggested(nodes: &[&str], artifact: Option<&str>) -> FlowDraft {
    flow_suggest(FlowSuggestInput {
        goal: text(" Audit this library "),
        readme: text("# Audit\n"),
        nodes: nodes.iter().map(|name| text(name)).collect(),
        artifact: artifact.map(text),
    })
    .unwrap()
}

#[test]
fn suggested_drafts_can_be_locked() {
    let draft = suggested(&["Read code", "read code!", "Report"], Some("Final Report"));
    let ids: Vec<&str> = draft.nodes.iter().map(|node| node.id.as_str()).collect();
    assert_eq!(ids, vec!["read_code", "read_code_2", "report"]);
    assert_eq!(draft.resources[0].source, "# Audit\n");
    assert_eq!(draft.contracts[0].artifacts[0].id, "final_report");
    assert!(codes(&draft, FlowCheckMode::Strict).is_empty());
    assert!(flow_lock(&draft, FlowCheckMode::Strict).is_ok());
    let prompt = draft.resources.iter().find(|found| found.id == "prompts/report.md").unwrap();
    assert_eq!(
        prompt.source,
        "Run node report for goal: Audit this library. Deliver artifact with artifact_key \"final_report\"."
    );
}

#[test]
fn suggestions_fall_back_where_nothing_is_said() {
    let draft = suggested(&[], None);
    assert_eq!(draft.nodes.len(), 1);
    assert_eq!(draft.nodes[0].id, "root");
    assert_eq!(draft.contracts[0].artifacts[0].id, "result");
    assert_eq!(suggested(&["???"], Some("---")).nodes[0].id, "node");
}

#[test]
fn suggestions_need_a_goal_and_a_readme() {
    let goal = FlowSuggestInput {
        goal: text("  "),
        readme: text("x"),
        nodes: Vec::new(),
        artifact: None,
    };
    assert_eq!(flow_suggest(goal).unwrap_err().message(), "goal must not be blank");
    let readme = FlowSuggestInput {
        goal: text("x"),
        readme: text("\n"),
        nodes: Vec::new(),
        artifact: None,
    };
    assert_eq!(flow_suggest(readme).unwrap_err().message(), "readme must not be blank");
}

#[test]
fn locks_are_exported() {
    let lock = flow_lock(&small_draft(), FlowCheckMode::Core).unwrap();
    let json = flow_export(&lock, FlowExportFormat::Json);
    assert!(json.starts_with("{\n  \"format\": \"humanize.flow_lock.v1\",\n  \"lock_id\": \"flk_"));
    let yaml = flow_export(&lock, FlowExportFormat::Yaml);
    assert!(yaml.starts_with("check_mode: \"core\"\ncontent_hash: \"sha256:"));
    assert!(yaml.contains("\ndiagnostics: []\nflow:\n  contracts: []\n"));
    assert!(yaml.contains("  resources:\n    -\n      content: \"Revision persistence fixture.\"\n"));
}

#[test]
fn predicates_are_made_matched_and_written() {
    let exists = FlowPredicate::exists_board(text("a.b")).unwrap();
    assert!(exists.matches(Some("")));
    assert!(!exists.matches(None));
    assert_eq!(exists.to_text(), "exists(board.a.b)");
    let truthy = FlowPredicate::truthy(FactRef::artifact(text("x")).unwrap());
    assert!(truthy.matches(Some(" yes ")));
    assert!(!truthy.matches(Some("0")));
    assert!(!truthy.matches(Some(" false ")));
    assert!(!truthy.matches(Some(" ")));
    assert_eq!(truthy.to_text(), "truthy(artifact.x)");
    assert!(FlowPredicate::exists_artifact(text("a..b")).is_err());
    assert!(FlowPredicate::exists_artifact(text("")).is_err());
    assert!(FlowPredicate::exists_artifact(text("a-b")).is_err());
}

#[test]
fn package_paths_stay_inside() {
    assert!(package_path_is_valid("a/b.md"));
    assert!(!package_path_is_valid("flow.json"));
    assert!(!package_path_is_valid("/a"));
    assert!(!package_path_is_valid("a/../b"));
    assert!(!package_path_is_valid(""));
    assert!(skill_path_is_valid("skills/x/SKILL.md"));
    assert!(!skill_path_is_valid("skills/SKILL.md"));
    assert_eq!(checked_relative_path("a/b").unwrap(), vec!["a", "b"]);
    assert_eq!(
        checked_relative_path("../a").unwrap_err().message(),
        "flow resource path must stay inside the package"
    );
}

#[test]
fn manifests_leave_contents_out() {
    let lock = flow_lock(&small_draft(), FlowCheckMode::Core).unwrap();
    let manifest = parse_json(&manifest_text(&lock)).unwrap();
    assert_eq!(manifest.text_at("lock_id"), Some(lock.id()));
    let flow = manifest.get("flow").unwrap();
    let listed = flow.get("resources").unwrap().as_list().unwrap();
    assert_eq!(listed[0].text_at("path"), Some("README.md"));
    assert!(listed[0].get("content").is_none());
}

fn entry(kind: EntryKind, mode: u32, nlink: u64) -> EntryFacts {
    EntryFacts { kind, uid: 7, mode, nlink }
}

#[test]
fn packages_hold_what_their_manifest_tells_and_nothing_else() {
    let mut files = PackageFiles::new();
    let listed = parse_json("{\"path\": \"docs/a.md\", \"kind\": \"rule\"}").unwrap();
    assert_eq!(files.enlist(&listed).unwrap(), vec!["docs", "a.md"]);
    assert_eq!(
        files.enlist(&listed).unwrap_err().message(),
        "flow resource path is duplicated"
    );
    assert_eq!(
        files.enlist(&Json::Null).unwrap_err().message(),
        "flow resource must be an object"
    );
    let file = vec![text("docs"), text("a.md")];
    let directory = vec![text("docs")];
    let stray = vec![text("b.md")];
    assert_eq!(validate_entry(&entry(EntryKind::Directory, 0o700, 2), &directory, &files, 7).unwrap(), true);
    assert_eq!(validate_entry(&entry(EntryKind::Regular, 0o600, 1), &file, &files, 7).unwrap(), false);
    assert_eq!(
        validate_entry(&entry(EntryKind::Regular, 0o600, 1), &stray, &files, 7).unwrap_err().message(),
        "flow lock directory contains an undeclared file"
    );
    assert_eq!(
        validate_entry(&entry(EntryKind::Regular, 0o644, 1), &file, &files, 7).unwrap_err().message(),
        "flow lock files must be current-user mode 0600 single-link files"
    );
    assert_eq!(
        validate_entry(&entry(EntryKind::Directory, 0o700, 2), &stray, &files, 7).unwrap_err().message(),
        "flow lock directory contains an undeclared directory"
    );
    assert_eq!(
        validate_entry(&entry(EntryKind::Symlink, 0o700, 1), &file, &files, 7).unwrap_err().message(),
        "flow lock directory contains an unsafe entry"
    );
}

#[test]
fn staging_directories_are_told_apart() {
    assert_eq!(staging_name(b"pack", 12, 3), b".pack.staging-12-3".to_vec());
    let kept = entry(EntryKind::Directory, 0o700, 2);
    assert_eq!(staging_entry(b".pack.staging-12-3", &kept, b"pack", 7).unwrap(), true);
    assert_eq!(staging_entry(b"other", &kept, b"pack", 7).unwrap(), false);
    assert_eq!(
        staging_entry(b".pack.staging-1", &entry(EntryKind::Regular, 0o600, 1), b"pack", 7).unwrap_err().message(),
        "unsafe flow lock staging entry"
    );
}
