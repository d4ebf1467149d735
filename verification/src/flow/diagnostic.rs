//! What a check of a flow has to say.
use vstd::prelude::*;

verus! {

broadcast use vstd::string::group_string_axioms;

/// How strictly a flow is checked.
#[derive(Debug, Clone, Copy, PartialEq, Eq, Structural)]
pub enum FlowCheckMode {
    Core,
    Strict,
}

impl DeepView for FlowCheckMode {
    type V = FlowCheckMode;

    open spec fn deep_view(&self) -> FlowCheckMode {
        *self
    }
}

impl Default for FlowCheckMode {
    fn default() -> (r: Self)
        ensures
            r == FlowCheckMode::Core,
    {
        FlowCheckMode::Core
    }
}

/// What part of a flow a diagnostic is about.
#[derive(Debug, Clone, Copy, PartialEq, Eq, Structural, PartialOrd, Ord)]
pub enum DiagnosticDomain {
    Package,
    Contract,
    Resource,
    Route,
    Policy,
    RuntimeCompat,
}

impl DeepView for DiagnosticDomain {
    type V = DiagnosticDomain;

    open spec fn deep_view(&self) -> DiagnosticDomain {
        *self
    }
}

/// How grave a diagnostic is.
#[derive(Debug, Clone, Copy, PartialEq, Eq, Structural)]
pub enum Severity {
    Fatal,
    Error,
    Warning,
    Note,
}

impl DeepView for Severity {
    type V = Severity;

    open spec fn deep_view(&self) -> Severity {
        *self
    }
}

/// Whether a diagnostic can be repaired.
#[derive(Debug, Clone, Copy, PartialEq, Eq, Structural, PartialOrd, Ord)]
pub enum Repairability {
    Automatic,
    Candidate,
    GuidanceOnly,
    Absent,
}

impl DeepView for Repairability {
    type V = Repairability;

    open spec fn deep_view(&self) -> Repairability {
        *self
    }
}

/// A way to repair a flow.
#[derive(Debug, Clone, Copy, PartialEq, Eq, Structural, PartialOrd, Ord)]
pub enum RepairKind {
    AddRouteTarget,
    AddArtifactSchema,
    AddContractCompletion,
    NarrowWriteScope,
    ProvideRuntimeResource,
}

impl DeepView for RepairKind {
    type V = RepairKind;

    open spec fn deep_view(&self) -> RepairKind {
        *self
    }
}

/// One finding on a flow.
#[derive(Debug, PartialEq, Eq)]
pub struct Diagnostic {
    pub code: String,
    pub domain: DiagnosticDomain,
    pub severity: Severity,
    pub repairability: Repairability,
    pub location: String,
    pub message: String,
    pub fix_hint: Option<String>,
    pub why_it_matters: Option<String>,
    pub repair_kinds: Vec<RepairKind>,
}

#[verifier::ext_equal]
pub struct DiagnosticView {
    pub code: Seq<char>,
    pub domain: DiagnosticDomain,
    pub severity: Severity,
    pub repairability: Repairability,
    pub location: Seq<char>,
    pub message: Seq<char>,
    pub fix_hint: Option<Seq<char>>,
    pub why_it_matters: Option<Seq<char>>,
    pub repair_kinds: Seq<RepairKind>,
}

impl DeepView for Diagnostic {
    type V = DiagnosticView;

    open spec fn deep_view(&self) -> DiagnosticView {
        DiagnosticView {
            code: self.code.deep_view(),
            domain: self.domain,
            severity: self.severity,
            repairability: self.repairability,
            location: self.location.deep_view(),
            message: self.message.deep_view(),
            fix_hint: self.fix_hint.deep_view(),
            why_it_matters: self.why_it_matters.deep_view(),
            repair_kinds: self.repair_kinds@,
        }
    }
}

impl Clone for Diagnostic {
    fn clone(&self) -> (r: Self)
        ensures
            r.deep_view() == self.deep_view(),
    {
        let r = Diagnostic {
            code: self.code.clone(),
            domain: self.domain,
            severity: self.severity,
            repairability: self.repairability,
            location: self.location.clone(),
            message: self.message.clone(),
            fix_hint: self.fix_hint.clone(),
            why_it_matters: self.why_it_matters.clone(),
            repair_kinds: self.repair_kinds.clone(),
        };
        assert(r.fix_hint.deep_view() =~= self.fix_hint.deep_view());
        assert(r.why_it_matters.deep_view() =~= self.why_it_matters.deep_view());
        assert(r.repair_kinds@ =~= self.repair_kinds@);
        r
    }
}

/// The findings of one check.
#[derive(Debug, PartialEq, Eq)]
pub struct CheckReport {
    pub mode: FlowCheckMode,
    pub diagnostics: Vec<Diagnostic>,
}

#[verifier::ext_equal]
pub struct CheckReportView {
    pub mode: FlowCheckMode,
    pub diagnostics: Seq<DiagnosticView>,
}

impl DeepView for CheckReport {
    type V = CheckReportView;

    open spec fn deep_view(&self) -> CheckReportView {
        CheckReportView {
            mode: self.mode,
            diagnostics: self.diagnostics.deep_view(),
        }
    }
}

impl Clone for CheckReport {
    fn clone(&self) -> (r: Self)
        ensures
            r.deep_view() == self.deep_view(),
    {
        let r = CheckReport {
            mode: self.mode,
            diagnostics: self.diagnostics.clone(),
        };
        assert(r.diagnostics.deep_view() =~= self.diagnostics.deep_view());
        r
    }
}

/// What a run can offer a flow.
#[derive(Debug, PartialEq, Eq)]
pub struct RunCompatibility {
    pub available_resources: Vec<String>,
}

#[verifier::ext_equal]
pub struct RunCompatibilityView {
    pub available_resources: Seq<Seq<char>>,
}

impl DeepView for RunCompatibility {
    type V = RunCompatibilityView;

    open spec fn deep_view(&self) -> RunCompatibilityView {
        RunCompatibilityView {
            available_resources: self.available_resources.deep_view(),
        }
    }
}

impl Clone for RunCompatibility {
    fn clone(&self) -> (r: Self)
        ensures
            r.deep_view() == self.deep_view(),
    {
        let r = RunCompatibility {
            available_resources: self.available_resources.clone(),
        };
        assert(r.available_resources.deep_view() =~= self.available_resources.deep_view());
        r
    }
}

/// Whether a run can carry a flow.
#[derive(Debug, PartialEq, Eq)]
pub struct RunCompatibilityResult {
    pub compatible: bool,
    pub diagnostics: Vec<Diagnostic>,
}

#[verifier::ext_equal]
pub struct RunCompatibilityResultView {
    pub compatible: bool,
    pub diagnostics: Seq<DiagnosticView>,
}

impl DeepView for RunCompatibilityResult {
    type V = RunCompatibilityResultView;

    open spec fn deep_view(&self) -> RunCompatibilityResultView {
        RunCompatibilityResultView {
            compatible: self.compatible,
            diagnostics: self.diagnostics.deep_view(),
        }
    }
}

impl Clone for RunCompatibilityResult {
    fn clone(&self) -> (r: Self)
        ensures
            r.deep_view() == self.deep_view(),
    {
        let r = RunCompatibilityResult {
            compatible: self.compatible,
            diagnostics: self.diagnostics.clone(),
        };
        assert(r.diagnostics.deep_view() =~= self.diagnostics.deep_view());
        r
    }
}

impl Severity {
    pub open spec fn name(self) -> Seq<char> {
        match self {
            Severity::Fatal => "fatal"@,
            Severity::Error => "error"@,
            Severity::Warning => "warning"@,
            Severity::Note => "note"@,
        }
    }

    pub fn as_str(self) -> (r: &'static str)
        ensures
            r@ == self.name(),
    {
        match self {
            Severity::Fatal => "fatal",
            Severity::Error => "error",
            Severity::Warning => "warning",
            Severity::Note => "note",
        }
    }
}

impl FlowCheckMode {
    pub open spec fn name(self) -> Seq<char> {
        match self {
            FlowCheckMode::Core => "core"@,
            FlowCheckMode::Strict => "strict"@,
        }
    }

    pub fn as_str(self) -> (r: &'static str)
        ensures
            r@ == self.name(),
    {
        match self {
            FlowCheckMode::Core => "core",
            FlowCheckMode::Strict => "strict",
        }
    }
}

impl DiagnosticDomain {
    pub open spec fn name(self) -> Seq<char> {
        match self {
            DiagnosticDomain::Package => "package"@,
            DiagnosticDomain::Contract => "contract"@,
            DiagnosticDomain::Resource => "resource"@,
            DiagnosticDomain::Route => "route"@,
            DiagnosticDomain::Policy => "policy"@,
            DiagnosticDomain::RuntimeCompat => "runtime_compat"@,
        }
    }

    pub fn as_str(self) -> (r: &'static str)
        ensures
            r@ == self.name(),
    {
        match self {
            DiagnosticDomain::Package => "package",
            DiagnosticDomain::Contract => "contract",
            DiagnosticDomain::Resource => "resource",
            DiagnosticDomain::Route => "route",
            DiagnosticDomain::Policy => "policy",
            DiagnosticDomain::RuntimeCompat => "runtime_compat",
        }
    }
}

impl Repairability {
    pub open spec fn name(self) -> Seq<char> {
        match self {
            Repairability::Automatic => "automatic"@,
            Repairability::Candidate => "candidate"@,
            Repairability::GuidanceOnly => "guidance_only"@,
            Repairability::Absent => "none"@,
        }
    }

    pub fn as_str(self) -> (r: &'static str)
        ensures
            r@ == self.name(),
    {
        match self {
            Repairability::Automatic => "automatic",
            Repairability::Candidate => "candidate",
            Repairability::GuidanceOnly => "guidance_only",
            Repairability::Absent => "none",
        }
    }
}

impl RepairKind {
    pub open spec fn name(self) -> Seq<char> {
        match self {
            RepairKind::AddRouteTarget => "add_route_target"@,
            RepairKind::AddArtifactSchema => "add_artifact_schema"@,
            RepairKind::AddContractCompletion => "add_contract_completion"@,
            RepairKind::NarrowWriteScope => "narrow_write_scope"@,
            RepairKind::ProvideRuntimeResource => "provide_runtime_resource"@,
        }
    }

    pub fn as_str(self) -> (r: &'static str)
        ensures
            r@ == self.name(),
    {
        match self {
            RepairKind::AddRouteTarget => "add_route_target",
            RepairKind::AddArtifactSchema => "add_artifact_schema",
            RepairKind::AddContractCompletion => "add_contract_completion",
            RepairKind::NarrowWriteScope => "narrow_write_scope",
            RepairKind::ProvideRuntimeResource => "provide_runtime_resource",
        }
    }
}

impl Severity {
    /// Whether a finding of this severity keeps a flow from being locked.
    pub open spec fn blocks(self) -> bool {
        self == Severity::Fatal || self == Severity::Error
    }
}

/// Whether some finding keeps the flow from being locked.
pub open spec fn any_blocks(diagnostics: Seq<DiagnosticView>) -> bool {
    exists|i: int| 0 <= i < diagnostics.len() && (#[trigger] diagnostics[i]).severity.blocks()
}

impl Default for CheckReport {
    fn default() -> (r: Self)
        ensures
            r.mode == FlowCheckMode::Core,
            r.diagnostics@.len() == 0,
    {
        CheckReport { mode: FlowCheckMode::Core, diagnostics: Vec::new() }
    }
}

impl CheckReport {
    /// Whether some finding is fatal or an error.
    pub fn has_errors(&self) -> (r: bool)
        ensures
            r == any_blocks(self.deep_view().diagnostics),
    {
        let mut i: usize = 0;
        while i < self.diagnostics.len()
            invariant
                i <= self.diagnostics.len(),
                forall|j: int|
                    0 <= j < i ==> !(#[trigger] self.deep_view().diagnostics[j]).severity.blocks(),
            decreases self.diagnostics.len() - i,
        {
            let severity = self.diagnostics[i].severity;
            assert(self.deep_view().diagnostics[i as int].severity == severity);
            if severity == Severity::Fatal || severity == Severity::Error {
                return true;
            }
            i += 1;
        }
        false
    }
}

/// How a finding can be repaired.
pub struct DiagnosticRepair {
    pub repairability: Repairability,
    pub repair_kinds: Vec<RepairKind>,
}

impl DiagnosticRepair {
    pub fn new(repairability: Repairability, repair_kinds: Vec<RepairKind>) -> (r: Self)
        ensures
            r.repairability == repairability,
            r.repair_kinds@ == repair_kinds@,
    {
        DiagnosticRepair { repairability, repair_kinds }
    }

    /// Guidance alone.
    pub fn guidance() -> (r: Self)
        ensures
            r.repairability == Repairability::GuidanceOnly,
            r.repair_kinds@ == Seq::<RepairKind>::empty(),
    {
        DiagnosticRepair::new(Repairability::GuidanceOnly, Vec::new())
    }
}

/// A finding with a hint and a reason.
pub open spec fn finding(
    severity: Severity,
    domain: DiagnosticDomain,
    code: Seq<char>,
    location: Seq<char>,
    message: Seq<char>,
    fix_hint: Seq<char>,
    why_it_matters: Seq<char>,
    repairability: Repairability,
    repair_kinds: Seq<RepairKind>,
) -> DiagnosticView {
    DiagnosticView {
        code,
        domain,
        severity,
        repairability,
        location,
        message,
        fix_hint: Some(fix_hint),
        why_it_matters: Some(why_it_matters),
        repair_kinds,
    }
}

/// An error that only guidance helps with.
pub open spec fn guided_error(
    domain: DiagnosticDomain,
    code: Seq<char>,
    location: Seq<char>,
    message: Seq<char>,
    fix_hint: Seq<char>,
    why_it_matters: Seq<char>,
) -> DiagnosticView {
    finding(
        Severity::Error,
        domain,
        code,
        location,
        message,
        fix_hint,
        why_it_matters,
        Repairability::GuidanceOnly,
        Seq::empty(),
    )
}

impl Diagnostic {
    fn with_severity(
        severity: Severity,
        domain: DiagnosticDomain,
        code: &str,
        location: String,
        message: String,
        fix_hint: &str,
        why_it_matters: &str,
        repair: DiagnosticRepair,
    ) -> (r: Self)
        ensures
            r.deep_view() == finding(
                severity,
                domain,
                code@,
                location@,
                message@,
                fix_hint@,
                why_it_matters@,
                repair.repairability,
                repair.repair_kinds@,
            ),
    {
        Diagnostic {
            code: code.to_string(),
            domain,
            severity,
            repairability: repair.repairability,
            location,
            message,
            fix_hint: Some(fix_hint.to_string()),
            why_it_matters: Some(why_it_matters.to_string()),
            repair_kinds: repair.repair_kinds,
        }
    }

    pub fn error(
        domain: DiagnosticDomain,
        code: &str,
        location: String,
        message: String,
        fix_hint: &str,
        why_it_matters: &str,
        repair: DiagnosticRepair,
    ) -> (r: Self)
        ensures
            r.deep_view() == finding(
                Severity::Error,
                domain,
                code@,
                location@,
                message@,
                fix_hint@,
                why_it_matters@,
                repair.repairability,
                repair.repair_kinds@,
            ),
    {
        Diagnostic::with_severity(
            Severity::Error,
            domain,
            code,
            location,
            message,
            fix_hint,
            why_it_matters,
            repair,
        )
    }

    pub fn fatal(
        domain: DiagnosticDomain,
        code: &str,
        location: String,
        message: String,
        fix_hint: &str,
        why_it_matters: &str,
        repair: DiagnosticRepair,
    ) -> (r: Self)
        ensures
            r.deep_view() == finding(
                Severity::Fatal,
                domain,
                code@,
                location@,
                message@,
                fix_hint@,
                why_it_matters@,
                repair.repairability,
                repair.repair_kinds@,
            ),
    {
        Diagnostic::with_severity(
            Severity::Fatal,
            domain,
            code,
            location,
            message,
            fix_hint,
            why_it_matters,
            repair,
        )
    }

    /// An error that only guidance helps with.
    pub fn guided(
        domain: DiagnosticDomain,
        code: &str,
        location: String,
        message: String,
        fix_hint: &str,
        why_it_matters: &str,
    ) -> (r: Self)
        ensures
            r.deep_view() == guided_error(
                domain,
                code@,
                location@,
                message@,
                fix_hint@,
                why_it_matters@,
            ),
    {
        Diagnostic::error(
            domain,
            code,
            location,
            message,
            fix_hint,
            why_it_matters,
            DiagnosticRepair::guidance(),
        )
    }
}

} // verus!
