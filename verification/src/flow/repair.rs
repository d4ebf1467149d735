//! What can be done about the findings on a flow.
use vstd::prelude::*;

use crate::text::{blank, cat3, contains_text, is_blank, same};

use super::check::{check_findings, flow_check};
use super::diagnostic::{
    finding, Diagnostic, DiagnosticDomain, DiagnosticRepair, DiagnosticView, FlowCheckMode,
    RepairKind, Repairability, RunCompatibility, RunCompatibilityResult, Severity,
};
use super::model::{FlowDraft, FlowDraftView, FlowNodeView, FlowResourceView};

verus! {

broadcast use vstd::string::group_string_axioms;

/// What a repair starts from.
#[derive(Debug, PartialEq, Eq)]
pub struct FlowRepairInput {
    pub draft: FlowDraft,
    pub mode: FlowCheckMode,
    pub diagnostics: Vec<Diagnostic>,
    pub include_warnings: bool,
}

impl FlowRepairInput {
    pub fn from_draft(draft: FlowDraft, mode: FlowCheckMode) -> (r: Self)
        ensures
            r.draft == draft,
            r.mode == mode,
            r.diagnostics@.len() == 0,
            !r.include_warnings,
    {
        FlowRepairInput { draft, mode, diagnostics: Vec::new(), include_warnings: false }
    }
}

/// The findings worth repairing, and what could repair them.
#[derive(Debug, PartialEq, Eq)]
pub struct FlowRepairReport {
    pub diagnostics: Vec<Diagnostic>,
    pub candidates: Vec<FlowRepairCandidate>,
}

/// One way to repair one finding.
#[derive(Debug, PartialEq, Eq)]
pub struct FlowRepairCandidate {
    pub repair_kind: RepairKind,
    pub location: String,
    pub replacement: String,
}

#[verifier::ext_equal]
pub struct CandidateView {
    pub repair_kind: RepairKind,
    pub location: Seq<char>,
    pub replacement: Seq<char>,
}

impl DeepView for FlowRepairCandidate {
    type V = CandidateView;

    open spec fn deep_view(&self) -> CandidateView {
        CandidateView {
            repair_kind: self.repair_kind,
            location: self.location@,
            replacement: self.replacement@,
        }
    }
}

/// Whether some finding is fatal.
pub open spec fn any_fatal(diagnostics: Seq<DiagnosticView>) -> bool {
    exists|i: int|
        0 <= i < diagnostics.len() && (#[trigger] diagnostics[i]).severity == Severity::Fatal
}

/// Whether a finding is kept for repair. Where one is fatal nothing else counts;
/// otherwise warnings count only on request.
pub open spec fn kept(severity: Severity, fatal: bool, include_warnings: bool) -> bool {
    if fatal {
        severity == Severity::Fatal
    } else {
        include_warnings || severity != Severity::Warning
    }
}

/// The findings kept for repair, in order.
pub open spec fn kept_findings(
    diagnostics: Seq<DiagnosticView>,
    fatal: bool,
    include_warnings: bool,
) -> Seq<DiagnosticView>
    decreases diagnostics.len(),
{
    if diagnostics.len() == 0 {
        diagnostics
    } else {
        let front = kept_findings(diagnostics.drop_last(), fatal, include_warnings);
        if kept(diagnostics.last().severity, fatal, include_warnings) {
            front.push(diagnostics.last())
        } else {
            front
        }
    }
}

fn has_fatal(diagnostics: &[Diagnostic]) -> (r: bool)
    ensures
        r == any_fatal(diagnostics.deep_view()),
{
    let mut i: usize = 0;
    while i < diagnostics.len()
        invariant
            i <= diagnostics.len(),
            forall|j: int|
                0 <= j < i ==> (#[trigger] diagnostics.deep_view()[j]).severity != Severity::Fatal,
        decreases diagnostics.len() - i,
    {
        assert(diagnostics.deep_view()[i as int] == diagnostics@[i as int].deep_view());
        if diagnostics[i].severity == Severity::Fatal {
            return true;
        }
        i += 1;
    }
    false
}

fn repair_diagnostics(diagnostics: Vec<Diagnostic>, include_warnings: bool) -> (r: Vec<Diagnostic>)
    ensures
        r.deep_view() == kept_findings(
            diagnostics.deep_view(),
            any_fatal(diagnostics.deep_view()),
            include_warnings,
        ),
{
    let ghost model = diagnostics.deep_view();
    let listed = diagnostics.as_slice();
    assert(listed.deep_view() =~= model);
    let fatal = has_fatal(listed);
    let mut out: Vec<Diagnostic> = Vec::new();
    assert(out.deep_view() =~= kept_findings(model.take(0), fatal, include_warnings));
    for diagnostic in it: diagnostics
        invariant
            it.seq() == diagnostics@,
            model == diagnostics.deep_view(),
            out.deep_view() == kept_findings(model.take(it.index()), fatal, include_warnings),
    {
        let ghost n = it.index();
        let ghost before = out.deep_view();
        assert(model.take(n + 1).drop_last() =~= model.take(n));
        assert(model.take(n + 1).last() == diagnostic.deep_view());
        let keep = if fatal {
            diagnostic.severity == Severity::Fatal
        } else {
            include_warnings || diagnostic.severity != Severity::Warning
        };
        if keep {
            out.push(diagnostic);
            assert(out.deep_view() =~= before.push(diagnostic.deep_view()));
        }
    }
    assert(model.take(model.len() as int) =~= model);
    out
}

/// Whether a finding is on a route whose target a node of the draft could be.
pub open spec fn wants_route_target(diagnostic: DiagnosticView) -> bool {
    &&& diagnostic.severity == Severity::Error
    &&& diagnostic.code == "FLOW_UNKNOWN_ROUTE_TARGET"@
    &&& diagnostic.repairability == Repairability::Candidate
    &&& diagnostic.repair_kinds.contains(RepairKind::AddRouteTarget)
}

/// A candidate for each node that has a name, in order.
pub open spec fn node_candidates(nodes: Seq<FlowNodeView>, location: Seq<char>) -> Seq<
    CandidateView,
>
    decreases nodes.len(),
{
    if nodes.len() == 0 {
        Seq::empty()
    } else {
        let front = node_candidates(nodes.drop_last(), location);
        if is_blank(nodes.last().id) {
            front
        } else {
            front.push(
                CandidateView {
                    repair_kind: RepairKind::AddRouteTarget,
                    location,
                    replacement: nodes.last().id,
                },
            )
        }
    }
}

/// The candidates for all findings that want a route target.
pub open spec fn target_candidates(
    nodes: Seq<FlowNodeView>,
    diagnostics: Seq<DiagnosticView>,
) -> Seq<CandidateView>
    decreases diagnostics.len(),
{
    if diagnostics.len() == 0 {
        Seq::empty()
    } else {
        let front = target_candidates(nodes, diagnostics.drop_last());
        if wants_route_target(diagnostics.last()) {
            front + node_candidates(nodes, diagnostics.last().location)
        } else {
            front
        }
    }
}

fn contains_kind(kinds: &Vec<RepairKind>, wanted: RepairKind) -> (r: bool)
    ensures
        r == kinds@.contains(wanted),
{
    let mut i: usize = 0;
    while i < kinds.len()
        invariant
            i <= kinds.len(),
            forall|j: int| 0 <= j < i ==> kinds@[j] != wanted,
        decreases kinds.len() - i,
    {
        if kinds[i] == wanted {
            return true;
        }
        i += 1;
    }
    false
}

fn push_node_candidates(draft: &FlowDraft, location: &str, out: &mut Vec<FlowRepairCandidate>)
    ensures
        final(out).deep_view() == old(out).deep_view() + node_candidates(
            draft.deep_view().nodes,
            location@,
        ),
{
    let ghost start = out.deep_view();
    let ghost model = draft.deep_view().nodes;
    let mut i: usize = 0;
    assert(out.deep_view() =~= start + node_candidates(model.take(0), location@));
    while i < draft.nodes.len()
        invariant
            i <= draft.nodes.len(),
            model == draft.deep_view().nodes,
            out.deep_view() == start + node_candidates(model.take(i as int), location@),
        decreases draft.nodes.len() - i,
    {
        let ghost before = out.deep_view();
        assert(model.take(i + 1).drop_last() =~= model.take(i as int));
        assert(model.take(i + 1).last() == draft.nodes@[i as int].deep_view());
        if !blank(draft.nodes[i].id.as_str()) {
            let next = FlowRepairCandidate {
                repair_kind: RepairKind::AddRouteTarget,
                location: location.to_string(),
                replacement: draft.nodes[i].id.clone(),
            };
            out.push(next);
            assert(out.deep_view() =~= before.push(next.deep_view()));
        }
        i += 1;
        assert(out.deep_view() =~= start + node_candidates(model.take(i as int), location@));
    }
    assert(model.take(i as int) =~= model);
}

/// The candidates that a report offers: none where a finding is fatal.
pub open spec fn candidates(nodes: Seq<FlowNodeView>, diagnostics: Seq<DiagnosticView>) -> Seq<
    CandidateView,
> {
    if any_fatal(diagnostics) {
        Seq::empty()
    } else {
        target_candidates(nodes, diagnostics)
    }
}

fn repair_candidates(draft: &FlowDraft, diagnostics: &[Diagnostic]) -> (r: Vec<FlowRepairCandidate>)
    ensures
        r.deep_view() == candidates(draft.deep_view().nodes, diagnostics.deep_view()),
{
    let mut out: Vec<FlowRepairCandidate> = Vec::new();
    let ghost model = diagnostics.deep_view();
    let ghost nodes = draft.deep_view().nodes;
    if has_fatal(diagnostics) {
        assert(out.deep_view() =~= Seq::empty());
        return out;
    }
    let mut i: usize = 0;
    assert(out.deep_view() =~= target_candidates(nodes, model.take(0)));
    while i < diagnostics.len()
        invariant
            i <= diagnostics.len(),
            model == diagnostics.deep_view(),
            nodes == draft.deep_view().nodes,
            out.deep_view() == target_candidates(nodes, model.take(i as int)),
        decreases diagnostics.len() - i,
    {
        let diagnostic = &diagnostics[i];
        assert(model.take(i + 1).drop_last() =~= model.take(i as int));
        assert(model.take(i + 1).last() == diagnostic.deep_view());
        if diagnostic.severity == Severity::Error && same(
            diagnostic.code.as_str(),
            "FLOW_UNKNOWN_ROUTE_TARGET",
        ) && diagnostic.repairability == Repairability::Candidate && contains_kind(
            &diagnostic.repair_kinds,
            RepairKind::AddRouteTarget,
        ) {
            push_node_candidates(draft, diagnostic.location.as_str(), &mut out);
        }
        i += 1;
    }
    assert(model.take(i as int) =~= model);
    out
}

/// The findings that a repair looks at: those of the check, then those given.
pub open spec fn repair_findings(
    d: FlowDraftView,
    mode: FlowCheckMode,
    given: Seq<DiagnosticView>,
    include_warnings: bool,
) -> Seq<DiagnosticView> {
    let all = check_findings(d, mode) + given;
    kept_findings(all, any_fatal(all), include_warnings)
}

/// Checks a draft and says what could repair it.
pub fn flow_repair(input: &FlowRepairInput) -> (r: FlowRepairReport)
    ensures
        r.diagnostics.deep_view() == repair_findings(
            input.draft.deep_view(),
            input.mode,
            input.diagnostics.deep_view(),
            input.include_warnings,
        ),
        r.candidates.deep_view() == candidates(
            input.draft.deep_view().nodes,
            r.diagnostics.deep_view(),
        ),
{
    let mut diagnostics = flow_check(&input.draft, input.mode).diagnostics;
    let ghost found = diagnostics.deep_view();
    let mut given = input.diagnostics.clone();
    assert(given.deep_view() =~= input.diagnostics.deep_view());
    diagnostics.append(&mut given);
    assert(diagnostics.deep_view() =~= found + input.diagnostics.deep_view());
    let diagnostics = repair_diagnostics(diagnostics, input.include_warnings);
    let listed = diagnostics.as_slice();
    assert(listed.deep_view() =~= diagnostics.deep_view());
    let candidates = repair_candidates(&input.draft, listed);
    FlowRepairReport { diagnostics, candidates }
}

/// Where a finding is fatal, a repair reports fatal findings only.
pub proof fn lemma_fatal_findings_stand_alone(
    diagnostics: Seq<DiagnosticView>,
    include_warnings: bool,
)
    requires
        any_fatal(diagnostics),
    ensures
        forall|i: int|
            0 <= i < kept_findings(diagnostics, true, include_warnings).len() ==> (
            #[trigger] kept_findings(diagnostics, true, include_warnings)[i]).severity
                == Severity::Fatal,
{
    lemma_kept(diagnostics, true, include_warnings);
}

/// Every finding kept for repair is one that counts.
pub proof fn lemma_kept(diagnostics: Seq<DiagnosticView>, fatal: bool, include_warnings: bool)
    ensures
        forall|i: int|
            0 <= i < kept_findings(diagnostics, fatal, include_warnings).len() ==> kept(
                (#[trigger] kept_findings(diagnostics, fatal, include_warnings)[i]).severity,
                fatal,
                include_warnings,
            ),
    decreases diagnostics.len(),
{
    if diagnostics.len() > 0 {
        lemma_kept(diagnostics.drop_last(), fatal, include_warnings);
        let front = kept_findings(diagnostics.drop_last(), fatal, include_warnings);
        let all = kept_findings(diagnostics, fatal, include_warnings);
        assert forall|i: int| 0 <= i < all.len() implies kept(
            (#[trigger] all[i]).severity,
            fatal,
            include_warnings,
        ) by {
            if i < front.len() {
                assert(all[i] == front[i]);
            }
        }
    }
}

/// The finding on a resource that the run does not offer.
pub open spec fn unavailable(resource: FlowResourceView) -> DiagnosticView {
    finding(
        Severity::Error,
        DiagnosticDomain::RuntimeCompat,
        "FLOW_RUN_RESOURCE_UNAVAILABLE"@,
        "resources["@ + resource.id + "]"@,
        "resource '"@ + resource.id + "' is not available to the run"@,
        "Provide the resource to the run or remove it from the draft."@,
        "Runs can only execute drafts whose resources are present in the runtime context."@,
        Repairability::GuidanceOnly,
        seq![RepairKind::ProvideRuntimeResource],
    )
}

/// The findings on the resources that the run does not offer, in order.
pub open spec fn unavailable_findings(
    resources: Seq<FlowResourceView>,
    available: Seq<Seq<char>>,
) -> Seq<DiagnosticView>
    decreases resources.len(),
{
    if resources.len() == 0 {
        Seq::empty()
    } else {
        let front = unavailable_findings(resources.drop_last(), available);
        if available.contains(resources.last().id) {
            front
        } else {
            front.push(unavailable(resources.last()))
        }
    }
}

/// A run carries a flow exactly when it offers every resource of it.
pub proof fn lemma_compatible(resources: Seq<FlowResourceView>, available: Seq<Seq<char>>)
    ensures
        unavailable_findings(resources, available).len() == 0 <==> forall|i: int|
            0 <= i < resources.len() ==> available.contains((#[trigger] resources[i]).id),
    decreases resources.len(),
{
    if resources.len() > 0 {
        let front = resources.drop_last();
        lemma_compatible(front, available);
        if unavailable_findings(resources, available).len() == 0 {
            assert forall|i: int| 0 <= i < resources.len() implies available.contains(
                (#[trigger] resources[i]).id,
            ) by {
                if i < front.len() {
                    assert(available.contains(front[i].id));
                }
            }
        }
        if forall|i: int| 0 <= i < resources.len() ==> available.contains((#[trigger] resources[i]).id) {
            assert forall|i: int| 0 <= i < front.len() implies available.contains(
                (#[trigger] front[i]).id,
            ) by {
                assert(available.contains(resources[i].id));
            }
            assert(available.contains(resources[resources.len() - 1].id));
        }
    }
}

/// Whether a run offers the resources of a draft.
pub fn flow_check_run_compatibility(
    draft: &FlowDraft,
    input: RunCompatibility,
) -> (r: RunCompatibilityResult)
    ensures
        r.deep_view().diagnostics == unavailable_findings(
            draft.deep_view().resources,
            input.deep_view().available_resources,
        ),
        r.compatible == (r.deep_view().diagnostics.len() == 0),
        r.compatible == forall|i: int|
            0 <= i < draft.deep_view().resources.len()
                ==> input.deep_view().available_resources.contains(
                (#[trigger] draft.deep_view().resources[i]).id,
            ),
{
    let ghost model = draft.deep_view().resources;
    let ghost offered = input.deep_view().available_resources;
    let available = input.available_resources.as_slice();
    assert(available.deep_view() =~= offered);
    let mut out: Vec<Diagnostic> = Vec::new();
    let mut i: usize = 0;
    assert(out.deep_view() =~= unavailable_findings(model.take(0), offered));
    while i < draft.resources.len()
        invariant
            i <= draft.resources.len(),
            model == draft.deep_view().resources,
            available.deep_view() == offered,
            out.deep_view() == unavailable_findings(model.take(i as int), offered),
        decreases draft.resources.len() - i,
    {
        let ghost before = out.deep_view();
        let resource = &draft.resources[i];
        assert(model.take(i + 1).drop_last() =~= model.take(i as int));
        assert(model.take(i + 1).last() == resource.deep_view());
        if !contains_text(available, resource.id.as_str()) {
            let mut kinds: Vec<RepairKind> = Vec::new();
            kinds.push(RepairKind::ProvideRuntimeResource);
            assert(kinds@ =~= seq![RepairKind::ProvideRuntimeResource]);
            let next = Diagnostic::error(
                DiagnosticDomain::RuntimeCompat,
                "FLOW_RUN_RESOURCE_UNAVAILABLE",
                cat3("resources[", resource.id.as_str(), "]"),
                cat3("resource '", resource.id.as_str(), "' is not available to the run"),
                "Provide the resource to the run or remove it from the draft.",
                "Runs can only execute drafts whose resources are present in the runtime context.",
                DiagnosticRepair::new(Repairability::GuidanceOnly, kinds),
            );
            out.push(next);
            assert(out.deep_view() =~= before.push(next.deep_view()));
        }
        i += 1;
    }
    assert(model.take(i as int) =~= model);
    proof {
        lemma_compatible(model, offered);
    }
    RunCompatibilityResult { compatible: out.len() == 0, diagnostics: out }
}

} // verus!
