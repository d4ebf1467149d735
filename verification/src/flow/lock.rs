//! Locking a flow: its canonical form under an identity made of its content.
use vstd::prelude::*;
use vstd::utf8::encode_utf8;

use crate::hash::{sha256_hex, sha256_hex_text};
use crate::json::{compact, json_compact, no_fields, value_of, Fields, Json, JsonView};
use crate::order::Comparable;
use crate::text::{cat2, same, same_option};

use super::canonical::{
    canonical, canonicalize_draft, lemma_canonical_idempotent, lemma_canonical_ignores_order,
    rearranged,
};
use super::check::{check_findings, flow_check, qos_findings};
use super::diagnostic::{any_blocks, Diagnostic, DiagnosticView, FlowCheckMode};
use super::document::{list_of, list_to_json, Document};
use super::model::{
    FlowContract, FlowDraft, FlowDraftView, FlowNode, FlowPolicies, FlowResource, FlowRoute,
    NodeAction,
};
use super::predicate::{ArtifactRef, FactRef, FlowPredicate};
use super::reordered::{
    lemma_lockable_ids_differ, lemma_lockable_in_any_order, lemma_lockable_in_canonical_form,
    lemma_no_blank_intent, lemma_one_intent_stays, states_one_intent,
};

verus! {

broadcast use vstd::string::group_string_axioms;

/// Names the format of a lock.
pub const FLOW_LOCK_FORMAT: &'static str = "humanize.flow_lock.v1";

/// A checked flow in canonical form, under an identity made of its content.
#[derive(Debug, PartialEq, Eq)]
pub struct FlowLock {
    id: String,
    content_hash: String,
    mode: FlowCheckMode,
    diagnostics: Vec<Diagnostic>,
    draft: FlowDraft,
    canonical_bytes: Vec<u8>,
}

#[verifier::ext_equal]
pub struct FlowLockView {
    pub id: Seq<char>,
    pub content_hash: Seq<char>,
    pub mode: FlowCheckMode,
    pub diagnostics: Seq<DiagnosticView>,
    pub draft: FlowDraftView,
    pub canonical_bytes: Seq<u8>,
}

impl DeepView for FlowLock {
    type V = FlowLockView;

    closed spec fn deep_view(&self) -> FlowLockView {
        FlowLockView {
            id: self.id@,
            content_hash: self.content_hash@,
            mode: self.mode,
            diagnostics: self.diagnostics.deep_view(),
            draft: self.draft.deep_view(),
            canonical_bytes: self.canonical_bytes@,
        }
    }
}

/// What the identity of a lock is made of.
pub open spec fn identity_json(
    mode: FlowCheckMode,
    diagnostics: Seq<DiagnosticView>,
    flow: FlowDraftView,
) -> JsonView {
    JsonView::Record(
        no_fields().push(("format"@, JsonView::Text(FLOW_LOCK_FORMAT@))).push(
            ("check_mode"@, JsonView::Text(mode.name())),
        ).push(("diagnostics"@, list_of::<Diagnostic>(diagnostics))).push(
            ("flow"@, FlowDraft::json(flow)),
        ),
    )
}

/// The bytes that the identity of a lock is the digest of.
pub open spec fn identity_bytes(
    mode: FlowCheckMode,
    diagnostics: Seq<DiagnosticView>,
    flow: FlowDraftView,
) -> Seq<u8> {
    encode_utf8(json_compact(value_of(identity_json(mode, diagnostics, flow))))
}

/// The lock of a flow in canonical form.
pub open spec fn sealed(flow: FlowDraftView, mode: FlowCheckMode) -> FlowLockView {
    let diagnostics = check_findings(flow, mode);
    let bytes = identity_bytes(mode, diagnostics, flow);
    FlowLockView {
        id: "flk_"@ + sha256_hex(bytes),
        content_hash: "sha256:"@ + sha256_hex(bytes),
        mode,
        diagnostics,
        draft: flow,
        canonical_bytes: bytes,
    }
}

/// The lock of a draft: that of its canonical form.
pub open spec fn lock_of(d: FlowDraftView, mode: FlowCheckMode) -> FlowLockView {
    sealed(canonical(d), mode)
}

/// Why a draft cannot be locked.
#[derive(Debug, PartialEq, Eq)]
pub struct FlowLockError {
    pub diagnostics: Vec<Diagnostic>,
}

impl FlowLock {
    /// A lock holds a flow in canonical form, its findings, and the identity of both.
    #[verifier::type_invariant]
    spec fn valid(self) -> bool {
        &&& self.deep_view() == sealed(self.draft.deep_view(), self.mode)
        &&& canonical(self.draft.deep_view()) == self.draft.deep_view()
    }

    pub fn id(&self) -> (r: &str)
        ensures
            r@ == self.deep_view().id,
    {
        self.id.as_str()
    }

    pub fn content_hash(&self) -> (r: &str)
        ensures
            r@ == self.deep_view().content_hash,
    {
        self.content_hash.as_str()
    }

    pub fn mode(&self) -> (r: FlowCheckMode)
        ensures
            r == self.deep_view().mode,
    {
        self.mode
    }

    pub fn diagnostics(&self) -> (r: &[Diagnostic])
        ensures
            r.deep_view() == self.deep_view().diagnostics,
    {
        let r = self.diagnostics.as_slice();
        assert(r.deep_view() =~= self.diagnostics.deep_view());
        r
    }

    /// The locked flow, which is in canonical form.
    pub fn draft(&self) -> (r: &FlowDraft)
        ensures
            r.deep_view() == self.deep_view().draft,
            canonical(r.deep_view()) == r.deep_view(),
            self.deep_view() == sealed(r.deep_view(), self.deep_view().mode),
    {
        proof {
            use_type_invariant(self);
        }
        &self.draft
    }

    pub fn canonical_bytes(&self) -> (r: &[u8])
        ensures
            r@ == self.deep_view().canonical_bytes,
    {
        self.canonical_bytes.as_slice()
    }

    /// What a lock is stored as.
    pub open spec fn wire_json(lock: FlowLockView) -> JsonView {
        JsonView::Record(
            no_fields().push(("format"@, JsonView::Text(FLOW_LOCK_FORMAT@))).push(
                ("lock_id"@, JsonView::Text(lock.id)),
            ).push(("content_hash"@, JsonView::Text(lock.content_hash))).push(
                ("check_mode"@, JsonView::Text(lock.mode.name())),
            ).push(("diagnostics"@, list_of::<Diagnostic>(lock.diagnostics))).push(
                ("flow"@, FlowDraft::json(lock.draft)),
            ),
        )
    }

    pub fn to_wire_json(&self) -> (r: Json)
        ensures
            r@ == FlowLock::wire_json(self.deep_view()),
    {
        Fields::new().put("format", Json::text(FLOW_LOCK_FORMAT)).put(
            "lock_id",
            Json::text(self.id.as_str()),
        ).put("content_hash", Json::text(self.content_hash.as_str())).put(
            "check_mode",
            Json::text(self.mode.as_str()),
        ).put("diagnostics", list_to_json(&self.diagnostics)).put(
            "flow",
            self.draft.to_json(),
        ).done()
    }
}

fn identity_to_json(mode: FlowCheckMode, diagnostics: &Vec<Diagnostic>, flow: &FlowDraft) -> (r:
    Json)
    ensures
        r@ == identity_json(mode, diagnostics.deep_view(), flow.deep_view()),
{
    Fields::new().put("format", Json::text(FLOW_LOCK_FORMAT)).put(
        "check_mode",
        Json::text(mode.as_str()),
    ).put("diagnostics", list_to_json(diagnostics)).put("flow", flow.to_json()).done()
}

/// Locks a draft, unless a finding keeps it from being locked.
pub fn flow_lock(draft: &FlowDraft, mode: FlowCheckMode) -> (r: Result<FlowLock, FlowLockError>)
    ensures
        r is Ok <==> !any_blocks(check_findings(draft.deep_view(), mode)),
        r matches Ok(lock) ==> lock.deep_view() == lock_of(draft.deep_view(), mode),
        r matches Err(error) ==> error.diagnostics.deep_view() == check_findings(
            draft.deep_view(),
            mode,
        ),
{
    let report = flow_check(draft, mode);
    if report.has_errors() {
        return Err(FlowLockError { diagnostics: report.diagnostics });
    }
    let canonical_draft = canonicalize_draft(draft);
    let report = flow_check(&canonical_draft, mode);
    let identity = identity_to_json(mode, &report.diagnostics, &canonical_draft);
    let text = compact(&identity);
    let canonical_bytes = vstd::slice::slice_to_vec(text.as_str().as_bytes());
    let digest = sha256_hex_text(canonical_bytes.as_slice());
    proof {
        lemma_canonical_idempotent(draft.deep_view());
    }
    Ok(
        FlowLock {
            id: cat2("flk_", digest.as_str()),
            content_hash: cat2("sha256:", digest.as_str()),
            mode,
            diagnostics: report.diagnostics,
            draft: canonical_draft,
            canonical_bytes,
        },
    )
}

/// The id and the content hash of a lock name one digest.
pub proof fn lemma_identity_is_one_digest(d: FlowDraftView, mode: FlowCheckMode)
    ensures
        lock_of(d, mode).id == "flk_"@ + sha256_hex(lock_of(d, mode).canonical_bytes),
        lock_of(d, mode).content_hash == "sha256:"@ + sha256_hex(lock_of(d, mode).canonical_bytes),
{
}

/// Locking a locked flow gives the same lock.
pub proof fn lemma_lock_is_stable(d: FlowDraftView, mode: FlowCheckMode)
    ensures
        lock_of(lock_of(d, mode).draft, mode) == lock_of(d, mode),
{
    lemma_canonical_idempotent(d);
}

/// Drafts with the same canonical form lock to the same identity.
pub proof fn lemma_same_form_same_lock(a: FlowDraftView, b: FlowDraftView, mode: FlowCheckMode)
    requires
        canonical(a) == canonical(b),
    ensures
        lock_of(a, mode) == lock_of(b, mode),
{
}

/// Whether two lists hold the same values in the same order.
pub fn same_list<T: Comparable>(a: &Vec<T>, b: &Vec<T>) -> (r: bool)
    ensures
        r == (a.deep_view() == b.deep_view()),
{
    if a.len() != b.len() {
        assert(a.deep_view().len() != b.deep_view().len());
        return false;
    }
    let mut i: usize = 0;
    while i < a.len()
        invariant
            i <= a.len(),
            a.len() == b.len(),
            forall|j: int| 0 <= j < i ==> a.deep_view()[j] == b.deep_view()[j],
        decreases a.len() - i,
    {
        if !a[i].same_as(&b[i]) {
            assert(a.deep_view()[i as int] != b.deep_view()[i as int]);
            return false;
        }
        i += 1;
    }
    assert(a.deep_view() =~= b.deep_view());
    true
}

impl Comparable for NodeAction {
    fn same_as(&self, other: &Self) -> (r: bool) {
        self.driver == other.driver && same_option(&self.prompt_ref, &other.prompt_ref)
            && same_list(&self.resource_refs, &other.resource_refs) && same_list(
            &self.reads,
            &other.reads,
        ) && same_list(&self.writes, &other.writes) && same_option(
            &self.verdict_artifact,
            &other.verdict_artifact,
        )
    }
}

impl Comparable for FlowNode {
    fn same_as(&self, other: &Self) -> (r: bool) {
        let same_action = match (&self.action, &other.action) {
            (Some(a), Some(b)) => a.same_as(b),
            (None, None) => true,
            (_, _) => false,
        };
        same_action && same(self.id.as_str(), other.id.as_str()) && same_option(
            &self.contract_id,
            &other.contract_id,
        ) && same_list(&self.write_scopes, &other.write_scopes) && same_list(
            &self.extensions,
            &other.extensions,
        )
    }
}

impl Comparable for FlowContract {
    fn same_as(&self, other: &Self) -> (r: bool) {
        let same_completion = match (self.completion, other.completion) {
            (Some(a), Some(b)) => a == b,
            (None, None) => true,
            (_, _) => false,
        };
        same_completion && same(self.id.as_str(), other.id.as_str()) && same_list(
            &self.artifacts,
            &other.artifacts,
        )
    }
}

impl Comparable for FactRef {
    fn same_as(&self, other: &Self) -> (r: bool) {
        match (self, other) {
            (FactRef::Artifact { key: a }, FactRef::Artifact { key: b }) => same(
                a.as_str(),
                b.as_str(),
            ),
            (FactRef::Board { key: a }, FactRef::Board { key: b }) => same(a.as_str(), b.as_str()),
            (_, _) => false,
        }
    }
}

impl Comparable for FlowPredicate {
    fn same_as(&self, other: &Self) -> (r: bool) {
        match (self, other) {
            (FlowPredicate::Exists { fact: a }, FlowPredicate::Exists { fact: b }) => a.same_as(b),
            (FlowPredicate::Truthy { fact: a }, FlowPredicate::Truthy { fact: b }) => a.same_as(b),
            (_, _) => false,
        }
    }
}

impl Comparable for ArtifactRef {
    fn same_as(&self, other: &Self) -> (r: bool) {
        same(self.key().as_str(), other.key().as_str())
    }
}

impl Comparable for FlowRoute {
    fn same_as(&self, other: &Self) -> (r: bool) {
        let same_range = match (&self.for_each, &other.for_each) {
            (Some(a), Some(b)) => a.same_as(b),
            (None, None) => true,
            (_, _) => false,
        };
        same_range && self.predicate.same_as(&other.predicate) && same(
            self.activate.as_str(),
            other.activate.as_str(),
        )
    }
}

impl Comparable for FlowResource {
    fn same_as(&self, other: &Self) -> (r: bool) {
        self.kind == other.kind && same(self.id.as_str(), other.id.as_str()) && same(
            self.source.as_str(),
            other.source.as_str(),
        )
    }
}

impl Comparable for FlowPolicies {
    fn same_as(&self, other: &Self) -> (r: bool) {
        same_list(&self.write_scopes, &other.write_scopes)
    }
}

impl Comparable for FlowDraft {
    fn same_as(&self, other: &Self) -> (r: bool) {
        same_list(&self.nodes, &other.nodes) && same_list(&self.contracts, &other.contracts)
            && same_list(&self.routes, &other.routes) && same_list(
            &self.resources,
            &other.resources,
        ) && same_list(&self.imports, &other.imports) && self.policies.same_as(&other.policies)
            && same_list(&self.extensions, &other.extensions)
    }
}

impl Comparable for Diagnostic {
    fn same_as(&self, other: &Self) -> (r: bool) {
        let mut kinds = self.repair_kinds.len() == other.repair_kinds.len();
        let mut i: usize = 0;
        while i < self.repair_kinds.len() && kinds
            invariant
                i <= self.repair_kinds.len(),
                kinds ==> self.repair_kinds.len() == other.repair_kinds.len() && forall|j: int|
                    0 <= j < i ==> self.repair_kinds@[j] == other.repair_kinds@[j],
                !kinds ==> self.repair_kinds@ != other.repair_kinds@,
            decreases self.repair_kinds.len() - i,
        {
            if self.repair_kinds[i] != other.repair_kinds[i] {
                assert(self.repair_kinds@[i as int] != other.repair_kinds@[i as int]);
                kinds = false;
            }
            i += 1;
        }
        assert(kinds ==> self.repair_kinds@ =~= other.repair_kinds@);
        kinds && self.domain == other.domain && self.severity == other.severity
            && self.repairability == other.repairability && same(
            self.code.as_str(),
            other.code.as_str(),
        ) && same(self.location.as_str(), other.location.as_str()) && same(
            self.message.as_str(),
            other.message.as_str(),
        ) && same_option(&self.fix_hint, &other.fix_hint) && same_option(
            &self.why_it_matters,
            &other.why_it_matters,
        )
    }
}

/// A stored lock, before it is trusted.
#[derive(Debug)]
pub struct FlowLockWire {
    pub format: String,
    pub lock_id: String,
    pub content_hash: String,
    pub check_mode: FlowCheckMode,
    pub diagnostics: Vec<Diagnostic>,
    pub flow: FlowDraft,
}

/// Why a stored lock is refused.
#[derive(Debug, Clone, Copy, PartialEq, Eq, Structural)]
pub enum FlowLockFault {
    Format,
    Validation,
    Flow,
    Identity,
    Diagnostics,
}

impl FlowLockFault {
    pub open spec fn text(self) -> Seq<char> {
        match self {
            FlowLockFault::Format => "unsupported flow lock format"@,
            FlowLockFault::Validation => "flow lock validation failed"@,
            FlowLockFault::Flow => "flow lock flow is not canonical"@,
            FlowLockFault::Identity => "flow lock content identity mismatch"@,
            FlowLockFault::Diagnostics => "flow lock diagnostics mismatch"@,
        }
    }

    pub fn message(self) -> (r: &'static str)
        ensures
            r@ == self.text(),
    {
        match self {
            FlowLockFault::Format => "unsupported flow lock format",
            FlowLockFault::Validation => "flow lock validation failed",
            FlowLockFault::Flow => "flow lock flow is not canonical",
            FlowLockFault::Identity => "flow lock content identity mismatch",
            FlowLockFault::Diagnostics => "flow lock diagnostics mismatch",
        }
    }
}

impl FlowLockWire {
    /// What is wrong with a stored lock, if anything.
    pub open spec fn fault(self) -> Option<FlowLockFault> {
        let lock = lock_of(self.flow.deep_view(), self.check_mode);
        if self.format@ != FLOW_LOCK_FORMAT@ {
            Some(FlowLockFault::Format)
        } else if any_blocks(check_findings(self.flow.deep_view(), self.check_mode)) {
            Some(FlowLockFault::Validation)
        } else if self.flow.deep_view() != lock.draft {
            Some(FlowLockFault::Flow)
        } else if self.lock_id@ != lock.id || self.content_hash@ != lock.content_hash {
            Some(FlowLockFault::Identity)
        } else if self.diagnostics.deep_view() != lock.diagnostics {
            Some(FlowLockFault::Diagnostics)
        } else {
            None
        }
    }

    /// Whether a stored lock states what the given lock holds.
    pub open spec fn states(self, lock: FlowLockView) -> bool {
        &&& self.format@ == FLOW_LOCK_FORMAT@
        &&& self.lock_id@ == lock.id
        &&& self.content_hash@ == lock.content_hash
        &&& self.check_mode == lock.mode
        &&& self.diagnostics.deep_view() == lock.diagnostics
        &&& self.flow.deep_view() == lock.draft
    }

    /// Locks the stored flow anew and compares.
    pub fn verify(&self) -> (r: Result<FlowLock, FlowLockFault>)
        ensures
            match r {
                Ok(lock) => self.fault() is None && self.states(lock.deep_view()),
                Err(fault) => self.fault() == Some(fault),
            },
    {
        if !same(self.format.as_str(), FLOW_LOCK_FORMAT) {
            return Err(FlowLockFault::Format);
        }
        let lock = match flow_lock(&self.flow, self.check_mode) {
            Ok(lock) => lock,
            Err(_) => {
                return Err(FlowLockFault::Validation);
            },
        };
        if !self.flow.same_as(lock.draft()) {
            return Err(FlowLockFault::Flow);
        }
        if !same(self.lock_id.as_str(), lock.id()) || !same(
            self.content_hash.as_str(),
            lock.content_hash(),
        ) {
            return Err(FlowLockFault::Identity);
        }
        if !same_list(&self.diagnostics, &lock.diagnostics) {
            return Err(FlowLockFault::Diagnostics);
        }
        Ok(lock)
    }
}

/// A stored lock that states what some lock of an error-free flow holds is accepted,
/// and gives that lock back.
pub proof fn lemma_stored_lock_is_accepted(
    wire: FlowLockWire,
    d: FlowDraftView,
    mode: FlowCheckMode,
)
    requires
        wire.states(lock_of(d, mode)),
        !any_blocks(lock_of(d, mode).diagnostics),
    ensures
        wire.fault() is None,
{
    lemma_lock_is_stable(d, mode);
}

/// A flow that can be locked gives a lock without blocking findings, and what is stored of the
/// lock is accepted, where the flow states at most one service intent.
pub proof fn lemma_stored_locks_come_back(
    wire: FlowLockWire,
    d: FlowDraftView,
    mode: FlowCheckMode,
)
    requires
        !any_blocks(check_findings(d, mode)),
        states_one_intent(d.extensions),
        wire.states(lock_of(d, mode)),
    ensures
        !any_blocks(lock_of(d, mode).diagnostics),
        wire.fault() is None,
{
    lemma_one_intent_stays(d);
    lemma_no_blank_intent(d, mode);
    lemma_lockable_in_canonical_form(d, mode);
    lemma_stored_lock_is_accepted(wire, d, mode);
}

/// A stored lock is accepted only under the hash of the flow that it holds: where a lock was
/// stored and its flow was changed to one with another hash, it is refused.
pub proof fn lemma_altered_locks_are_refused(wire: FlowLockWire, lock: FlowLockView)
    requires
        wire.lock_id@ == lock.id,
        lock_of(wire.flow.deep_view(), wire.check_mode).id != lock.id,
    ensures
        wire.fault() is Some,
{
}

/// Drafts that declare the same, in whatever order, have one lock: where one of them can be
/// locked, so can the other, unless that one puts a blank service intent first.
pub proof fn lemma_lock_ignores_order(a: FlowDraftView, b: FlowDraftView, mode: FlowCheckMode)
    requires
        rearranged(a, b),
        !any_blocks(check_findings(a, mode)),
        !any_blocks(qos_findings(b)),
    ensures
        !any_blocks(check_findings(b, mode)),
        lock_of(a, mode) == lock_of(b, mode),
{
    lemma_lockable_in_any_order(a, b, mode);
    lemma_lockable_ids_differ(a, mode);
    lemma_canonical_ignores_order(a, b);
}

} // verus!
