//! The primitives that flows are built from.
use vstd::prelude::*;
use vstd::utf8::encode_utf8;

use crate::flow::predicate::{FlowPredicate, PredicateView};
use crate::hash::{fnv1a, fnv1a_hash, push_bytes, FNV_OFFSET_BASIS};
use crate::number::{hex_u64, hex_u64_text, little_endian, push_u64_le};
use crate::table::Table;

verus! {

broadcast use vstd::string::group_string_axioms;

/// The names of the primitives.
pub const KERNEL_PRIMITIVES: [&'static str; 6] = [
    "Node",
    "Contract",
    "Artifact",
    "Board",
    "Route",
    "Event",
];

pub fn kernel_primitive_names() -> (r: [&'static str; 6])
    ensures
        r@ == KERNEL_PRIMITIVES@,
{
    KERNEL_PRIMITIVES
}

/// A unit of work, with the contract it owes.
#[derive(Debug, PartialEq, Eq)]
pub struct Node {
    id: String,
    name: String,
    contract_id: String,
}

#[verifier::ext_equal]
pub struct NodeView {
    pub id: Seq<char>,
    pub name: Seq<char>,
    pub contract_id: Seq<char>,
}

impl DeepView for Node {
    type V = NodeView;

    closed spec fn deep_view(&self) -> NodeView {
        NodeView {
            id: self.id.deep_view(),
            name: self.name.deep_view(),
            contract_id: self.contract_id.deep_view(),
        }
    }
}

impl Clone for Node {
    fn clone(&self) -> (r: Self)
        ensures
            r.deep_view() == self.deep_view(),
    {
        let r = Node {
            id: self.id.clone(),
            name: self.name.clone(),
            contract_id: self.contract_id.clone(),
        };
        r
    }
}

impl Node {
    pub fn new(id: String, name: String, contract_id: String) -> (r: Self)
        ensures
            r.deep_view() == (NodeView { id: id@, name: name@, contract_id: contract_id@ }),
    {
        Node { id, name, contract_id }
    }

    pub fn id(&self) -> (r: &str)
        ensures
            r@ == self.deep_view().id,
    {
        self.id.as_str()
    }

    pub fn name(&self) -> (r: &str)
        ensures
            r@ == self.deep_view().name,
    {
        self.name.as_str()
    }

    pub fn contract_id(&self) -> (r: &str)
        ensures
            r@ == self.deep_view().contract_id,
    {
        self.contract_id.as_str()
    }
}

impl Default for Node {
    fn default() -> (r: Self)
        ensures
            r.deep_view() == (NodeView {
                id: Seq::empty(),
                name: Seq::empty(),
                contract_id: Seq::empty(),
            }),
    {
        Node { id: String::new(), name: String::new(), contract_id: String::new() }
    }
}

/// Named texts that an artifact carries.
pub type ArtifactPayload = Table<String, String>;

/// A piece of work that was delivered.
#[derive(Debug, PartialEq, Eq)]
pub struct Artifact {
    id: String,
    name: String,
    schema: String,
    payload: ArtifactPayload,
    fingerprint: String,
}

#[verifier::ext_equal]
pub struct ArtifactView {
    pub id: Seq<char>,
    pub name: Seq<char>,
    pub schema: Seq<char>,
    pub payload: Seq<(Seq<char>, Seq<char>)>,
    pub fingerprint: Seq<char>,
}

impl DeepView for Artifact {
    type V = ArtifactView;

    closed spec fn deep_view(&self) -> ArtifactView {
        ArtifactView {
            id: self.id@,
            name: self.name@,
            schema: self.schema@,
            payload: self.payload.pairs(),
            fingerprint: self.fingerprint@,
        }
    }
}

/// A text framed for a fingerprint: its length in eight bytes, the least significant
/// first, and the text in UTF-8.
pub open spec fn segment(text: Seq<char>) -> Seq<u8> {
    little_endian(encode_utf8(text).len(), 8) + encode_utf8(text)
}

/// The segments of named texts, in order.
pub open spec fn pair_segments(pairs: Seq<(Seq<char>, Seq<char>)>) -> Seq<u8>
    decreases pairs.len(),
{
    if pairs.len() == 0 {
        Seq::empty()
    } else {
        pair_segments(pairs.drop_last()) + segment(pairs.last().0) + segment(pairs.last().1)
    }
}

/// The fingerprint of an artifact: a hash of everything it holds.
pub open spec fn fingerprint_of(
    id: Seq<char>,
    name: Seq<char>,
    schema: Seq<char>,
    payload: Seq<(Seq<char>, Seq<char>)>,
) -> Seq<char> {
    hex_u64(
        fnv1a(
            FNV_OFFSET_BASIS,
            segment(id) + segment(name) + segment(schema) + pair_segments(payload),
        ),
    )
}

fn write_fingerprint_segment(text: &str, out: &mut Vec<u8>)
    ensures
        final(out)@ == old(out)@ + segment(text@),
{
    let bytes = text.as_bytes();
    push_u64_le(bytes.len() as u64, out);
    push_bytes(bytes, out);
    assert(out@ =~= old(out)@ + segment(text@));
}

fn artifact_fingerprint(id: &str, name: &str, schema: &str, payload: &ArtifactPayload) -> (r:
    String)
    ensures
        r@ == fingerprint_of(id@, name@, schema@, payload.pairs()),
{
    let mut out: Vec<u8> = Vec::new();
    write_fingerprint_segment(id, &mut out);
    write_fingerprint_segment(name, &mut out);
    write_fingerprint_segment(schema, &mut out);
    let ghost head = segment(id@) + segment(name@) + segment(schema@);
    let ghost pairs = payload.pairs();
    assert(out@ =~= head + pair_segments(pairs.take(0)));
    let n: usize = payload.len();
    let mut i: usize = 0;
    while i < n
        invariant
            i <= n,
            pairs == payload.pairs(),
            n == pairs.len(),
            out@ == head + pair_segments(pairs.take(i as int)),
        decreases n - i,
    {
        assert(pairs.take(i + 1).drop_last() =~= pairs.take(i as int));
        assert(pairs.take(i + 1).last() == pairs[i as int]);
        write_fingerprint_segment(payload.key_at(i).as_str(), &mut out);
        write_fingerprint_segment(payload.value_at(i).as_str(), &mut out);
        i += 1;
        assert(out@ =~= head + pair_segments(pairs.take(i as int)));
    }
    assert(pairs.take(i as int) =~= pairs);
    hex_u64_text(fnv1a_hash(FNV_OFFSET_BASIS, out.as_slice()))
}

impl Artifact {
    pub fn new(id: String, name: String, schema: String, payload: ArtifactPayload) -> (r: Self)
        ensures
            r.deep_view() == (ArtifactView {
                id: id@,
                name: name@,
                schema: schema@,
                payload: payload.pairs(),
                fingerprint: fingerprint_of(id@, name@, schema@, payload.pairs()),
            }),
    {
        let fingerprint = artifact_fingerprint(
            id.as_str(),
            name.as_str(),
            schema.as_str(),
            &payload,
        );
        Artifact { id, name, schema, payload, fingerprint }
    }

    pub fn id(&self) -> (r: &str)
        ensures
            r@ == self.deep_view().id,
    {
        self.id.as_str()
    }

    pub fn name(&self) -> (r: &str)
        ensures
            r@ == self.deep_view().name,
    {
        self.name.as_str()
    }

    pub fn schema(&self) -> (r: &str)
        ensures
            r@ == self.deep_view().schema,
    {
        self.schema.as_str()
    }

    pub fn fingerprint(&self) -> (r: &str)
        ensures
            r@ == self.deep_view().fingerprint,
    {
        self.fingerprint.as_str()
    }

    pub fn payload(&self) -> (r: &ArtifactPayload)
        ensures
            r.pairs() == self.deep_view().payload,
    {
        &self.payload
    }
}

/// A value on a board.
#[derive(Debug, PartialEq, Eq)]
pub enum BoardValue {
    Text(String),
    Bool(bool),
    Number(i64),
    Artifact(String),
}

#[verifier::ext_equal]
pub enum BoardValueView {
    Text(Seq<char>),
    Bool(bool),
    Number(i64),
    Artifact(Seq<char>),
}

impl DeepView for BoardValue {
    type V = BoardValueView;

    open spec fn deep_view(&self) -> BoardValueView {
        match self {
            BoardValue::Text(text) => BoardValueView::Text(text@),
            BoardValue::Bool(flag) => BoardValueView::Bool(*flag),
            BoardValue::Number(number) => BoardValueView::Number(*number),
            BoardValue::Artifact(id) => BoardValueView::Artifact(id@),
        }
    }
}

impl Clone for BoardValue {
    fn clone(&self) -> (r: Self)
        ensures
            r.deep_view() == self.deep_view(),
    {
        match self {
            BoardValue::Text(text) => BoardValue::Text(text.clone()),
            BoardValue::Bool(flag) => BoardValue::Bool(*flag),
            BoardValue::Number(number) => BoardValue::Number(*number),
            BoardValue::Artifact(id) => BoardValue::Artifact(id.clone()),
        }
    }
}

impl Default for BoardValue {
    fn default() -> (r: Self)
        ensures
            r.deep_view() == BoardValueView::Text(Seq::empty()),
    {
        BoardValue::Text(String::new())
    }
}

/// One change to a board.
#[derive(Debug, PartialEq, Eq)]
pub enum BoardChange {
    Put { key: String, value: BoardValue },
    Remove { key: String },
}

#[verifier::ext_equal]
pub enum BoardChangeView {
    Put { key: Seq<char>, value: BoardValueView },
    Remove { key: Seq<char> },
}

impl DeepView for BoardChange {
    type V = BoardChangeView;

    open spec fn deep_view(&self) -> BoardChangeView {
        match self {
            BoardChange::Put { key, value } => BoardChangeView::Put {
                key: key@,
                value: value.deep_view(),
            },
            BoardChange::Remove { key } => BoardChangeView::Remove { key: key@ },
        }
    }
}

/// Changes for a board at one version.
#[derive(Debug, PartialEq, Eq)]
pub struct BoardPatch {
    expected_version: u64,
    changes: Vec<BoardChange>,
}

#[verifier::ext_equal]
pub struct BoardPatchView {
    pub expected_version: u64,
    pub changes: Seq<BoardChangeView>,
}

impl DeepView for BoardPatch {
    type V = BoardPatchView;

    closed spec fn deep_view(&self) -> BoardPatchView {
        BoardPatchView {
            expected_version: self.expected_version,
            changes: self.changes.deep_view(),
        }
    }
}

impl BoardPatch {
    pub fn new(expected_version: u64) -> (r: Self)
        ensures
            r.deep_view() == (BoardPatchView { expected_version, changes: Seq::empty() }),
    {
        let r = BoardPatch { expected_version, changes: Vec::new() };
        assert(r.changes.deep_view() =~= Seq::empty());
        r
    }

    /// The patch with one more change behind the others.
    pub fn set(self, key: String, value: BoardValue) -> (r: Self)
        ensures
            r.deep_view() == (BoardPatchView {
                changes: self.deep_view().changes.push(
                    BoardChangeView::Put { key: key@, value: value.deep_view() },
                ),
                ..self.deep_view()
            }),
    {
        let ghost before = self.changes.deep_view();
        let mut changes = self.changes;
        let change = BoardChange::Put { key, value };
        changes.push(change);
        assert(changes.deep_view() =~= before.push(change.deep_view()));
        BoardPatch { expected_version: self.expected_version, changes }
    }

    /// The patch with one more removal behind the other changes.
    pub fn remove(self, key: String) -> (r: Self)
        ensures
            r.deep_view() == (BoardPatchView {
                changes: self.deep_view().changes.push(BoardChangeView::Remove { key: key@ }),
                ..self.deep_view()
            }),
    {
        let ghost before = self.changes.deep_view();
        let mut changes = self.changes;
        let change = BoardChange::Remove { key };
        changes.push(change);
        assert(changes.deep_view() =~= before.push(change.deep_view()));
        BoardPatch { expected_version: self.expected_version, changes }
    }

    pub fn expected_version(&self) -> (r: u64)
        ensures
            r == self.deep_view().expected_version,
    {
        self.expected_version
    }

    pub fn changes(&self) -> (r: &[BoardChange])
        ensures
            r.deep_view() == self.deep_view().changes,
    {
        let r = self.changes.as_slice();
        assert(r.deep_view() =~= self.changes.deep_view());
        r
    }
}

/// Why a patch was not applied.
#[derive(Debug, Clone, Copy, PartialEq, Eq, Structural)]
pub enum BoardPatchError {
    VersionConflict { expected: u64, actual: u64 },
}

/// Values under keys, with the number of patches applied to them.
#[derive(Debug, PartialEq, Eq)]
pub struct Board {
    id: String,
    version: u64,
    values: Table<String, BoardValue>,
}

#[verifier::ext_equal]
pub struct BoardView {
    pub id: Seq<char>,
    pub version: u64,
    pub values: Map<Seq<char>, BoardValueView>,
}

impl DeepView for Board {
    type V = BoardView;

    closed spec fn deep_view(&self) -> BoardView {
        BoardView {
            id: self.id@,
            version: self.version,
            values: self.values.deep_view(),
        }
    }
}

/// Values after one change.
pub open spec fn changed(
    values: Map<Seq<char>, BoardValueView>,
    change: BoardChangeView,
) -> Map<Seq<char>, BoardValueView> {
    match change {
        BoardChangeView::Put { key, value } => values.insert(key, value),
        BoardChangeView::Remove { key } => values.remove(key),
    }
}

/// Values after changes made one behind the other.
pub open spec fn patched(
    values: Map<Seq<char>, BoardValueView>,
    changes: Seq<BoardChangeView>,
) -> Map<Seq<char>, BoardValueView>
    decreases changes.len(),
{
    if changes.len() == 0 {
        values
    } else {
        changed(patched(values, changes.drop_last()), changes.last())
    }
}

impl Board {
    pub fn new(id: String) -> (r: Self)
        ensures
            r.deep_view() == (BoardView { id: id@, version: 0, values: Map::empty() }),
    {
        Board { id, version: 0, values: Table::new() }
    }

    pub fn id(&self) -> (r: &str)
        ensures
            r@ == self.deep_view().id,
    {
        self.id.as_str()
    }

    pub fn version(&self) -> (r: u64)
        ensures
            r == self.deep_view().version,
    {
        self.version
    }

    pub fn get(&self, key: &str) -> (r: Option<&BoardValue>)
        ensures
            match r {
                Some(value) => self.deep_view().values.dom().contains(key@)
                    && self.deep_view().values[key@] == value.deep_view(),
                None => !self.deep_view().values.dom().contains(key@),
            },
    {
        self.values.get(&key.to_string())
    }

    pub fn values(&self) -> (r: &Table<String, BoardValue>)
        ensures
            r.deep_view() == self.deep_view().values,
    {
        &self.values
    }

    /// Applies a patch made for the current version; any other patch changes nothing.
    pub fn apply(&mut self, patch: BoardPatch) -> (r: Result<u64, BoardPatchError>)
        requires
            old(self).deep_view().version < u64::MAX,
        ensures
            match r {
                Ok(version) => {
                    &&& patch.deep_view().expected_version == old(self).deep_view().version
                    &&& version == old(self).deep_view().version + 1
                    &&& final(self).deep_view() == (BoardView {
                        id: old(self).deep_view().id,
                        version,
                        values: patched(old(self).deep_view().values, patch.deep_view().changes),
                    })
                },
                Err(BoardPatchError::VersionConflict { expected, actual }) => {
                    &&& expected == patch.deep_view().expected_version
                    &&& actual == old(self).deep_view().version
                    &&& expected != actual
                    &&& final(self).deep_view() == old(self).deep_view()
                },
            },
    {
        if patch.expected_version != self.version {
            return Err(
                BoardPatchError::VersionConflict {
                    expected: patch.expected_version,
                    actual: self.version,
                },
            );
        }
        let ghost start = self.values.deep_view();
        let ghost model = patch.changes.deep_view();
        let ghost id = self.id@;
        let ghost version = self.version;
        let changes = patch.changes;
        assert(patched(start, model.take(0)) == start);
        for change in it: changes
            invariant
                it.seq() == changes@,
                model == changes.deep_view(),
                self.values.deep_view() == patched(start, model.take(it.index())),
                self.id@ == id,
                self.version == version,
        {
            let ghost n = it.index();
            assert(model.take(n + 1).drop_last() =~= model.take(n));
            assert(model.take(n + 1).last() == change.deep_view());
            match change {
                BoardChange::Put { key, value } => {
                    self.values.insert(key, value);
                },
                BoardChange::Remove { key } => {
                    let _ = self.values.remove(&key);
                },
            }
        }
        assert(model.take(model.len() as int) =~= model);
        self.version = self.version + 1;
        Ok(self.version)
    }
}

/// Setting a value and reading it back gives the value; other keys keep theirs.
pub proof fn lemma_set_then_get(
    values: Map<Seq<char>, BoardValueView>,
    key: Seq<char>,
    value: BoardValueView,
    other: Seq<char>,
)
    ensures
        changed(values, BoardChangeView::Put { key, value })[key] == value,
        other != key ==> changed(values, BoardChangeView::Put { key, value }).dom().contains(other)
            == values.dom().contains(other),
        other != key && values.dom().contains(other) ==> changed(
            values,
            BoardChangeView::Put { key, value },
        )[other] == values[other],
        !changed(values, BoardChangeView::Remove { key }).dom().contains(key),
{
}

/// Changes made in two steps are those made in one.
pub proof fn lemma_patched_in_steps(
    values: Map<Seq<char>, BoardValueView>,
    first: Seq<BoardChangeView>,
    second: Seq<BoardChangeView>,
)
    ensures
        patched(patched(values, first), second) == patched(values, first + second),
    decreases second.len(),
{
    if second.len() == 0 {
        assert(first + second =~= first);
    } else {
        assert((first + second).drop_last() =~= first + second.drop_last());
        assert((first + second).last() == second.last());
        lemma_patched_in_steps(values, first, second.drop_last());
    }
}

/// An artifact that a contract needs.
#[derive(Debug, PartialEq, Eq)]
pub struct ContractRequirement {
    artifact_schema: String,
}

impl DeepView for ContractRequirement {
    type V = Seq<char>;

    closed spec fn deep_view(&self) -> Seq<char> {
        self.artifact_schema@
    }
}

impl ContractRequirement {
    pub fn artifact_schema(schema: String) -> (r: Self)
        ensures
            r.deep_view() == schema@,
    {
        ContractRequirement { artifact_schema: schema }
    }

    pub fn schema(&self) -> (r: &str)
        ensures
            r@ == self.deep_view(),
    {
        self.artifact_schema.as_str()
    }
}

/// An artifact that a contract yields.
#[derive(Debug, PartialEq, Eq)]
pub struct ContractProduction {
    artifact_schema: String,
}

impl DeepView for ContractProduction {
    type V = Seq<char>;

    closed spec fn deep_view(&self) -> Seq<char> {
        self.artifact_schema@
    }
}

impl ContractProduction {
    pub fn artifact_schema(schema: String) -> (r: Self)
        ensures
            r.deep_view() == schema@,
    {
        ContractProduction { artifact_schema: schema }
    }

    pub fn schema(&self) -> (r: &str)
        ensures
            r@ == self.deep_view(),
    {
        self.artifact_schema.as_str()
    }
}

/// What a contract allows beside its artifacts.
#[derive(Debug, Clone, Copy, PartialEq, Eq, Structural)]
pub enum ContractPermit {
    RecordEffect,
    ApplyFlow,
}

impl DeepView for ContractPermit {
    type V = ContractPermit;

    open spec fn deep_view(&self) -> ContractPermit {
        *self
    }
}

impl Default for ContractPermit {
    fn default() -> (r: Self)
        ensures
            r == ContractPermit::RecordEffect,
    {
        ContractPermit::RecordEffect
    }
}

/// When a contract counts as met.
#[derive(Debug, PartialEq, Eq)]
pub enum CompletionRule {
    Manual,
    AllProducedArtifactsRecorded,
    Predicate(FlowPredicate),
}

#[verifier::ext_equal]
pub enum CompletionRuleView {
    Manual,
    AllProducedArtifactsRecorded,
    Predicate(PredicateView),
}

impl DeepView for CompletionRule {
    type V = CompletionRuleView;

    open spec fn deep_view(&self) -> CompletionRuleView {
        match self {
            CompletionRule::Manual => CompletionRuleView::Manual,
            CompletionRule::AllProducedArtifactsRecorded =>
                CompletionRuleView::AllProducedArtifactsRecorded,
            CompletionRule::Predicate(predicate) => CompletionRuleView::Predicate(
                predicate.deep_view(),
            ),
        }
    }
}

impl Default for CompletionRule {
    fn default() -> (r: Self)
        ensures
            r.deep_view() == CompletionRuleView::Manual,
    {
        CompletionRule::Manual
    }
}

/// What a node needs, yields and may do.
#[derive(Debug, PartialEq, Eq)]
pub struct Contract {
    id: String,
    needs: Vec<ContractRequirement>,
    yields: Vec<ContractProduction>,
    allows: Vec<ContractPermit>,
    completion: CompletionRule,
}

#[verifier::ext_equal]
pub struct ContractView {
    pub id: Seq<char>,
    pub needs: Seq<Seq<char>>,
    pub yields: Seq<Seq<char>>,
    pub allows: Seq<ContractPermit>,
    pub completion: CompletionRuleView,
}

impl DeepView for Contract {
    type V = ContractView;

    closed spec fn deep_view(&self) -> ContractView {
        ContractView {
            id: self.id@,
            needs: self.needs.deep_view(),
            yields: self.yields.deep_view(),
            allows: self.allows.deep_view(),
            completion: self.completion.deep_view(),
        }
    }
}

impl Contract {
    pub fn new(id: String) -> (r: Self)
        ensures
            r.deep_view() == (ContractView {
                id: id@,
                needs: Seq::empty(),
                yields: Seq::empty(),
                allows: Seq::empty(),
                completion: CompletionRuleView::Manual,
            }),
    {
        let r = Contract {
            id,
            needs: Vec::new(),
            yields: Vec::new(),
            allows: Vec::new(),
            completion: CompletionRule::Manual,
        };
        assert(r.needs.deep_view() =~= Seq::empty());
        assert(r.yields.deep_view() =~= Seq::empty());
        assert(r.allows.deep_view() =~= Seq::empty());
        r
    }

    pub fn require(self, requirement: ContractRequirement) -> (r: Self)
        ensures
            r.deep_view() == (ContractView {
                needs: self.deep_view().needs.push(requirement.deep_view()),
                ..self.deep_view()
            }),
    {
        let ghost before = self.needs.deep_view();
        let mut next = self;
        next.needs.push(requirement);
        assert(next.needs.deep_view() =~= before.push(requirement.deep_view()));
        next
    }

    pub fn produce(self, production: ContractProduction) -> (r: Self)
        ensures
            r.deep_view() == (ContractView {
                yields: self.deep_view().yields.push(production.deep_view()),
                ..self.deep_view()
            }),
    {
        let ghost before = self.yields.deep_view();
        let mut next = self;
        next.yields.push(production);
        assert(next.yields.deep_view() =~= before.push(production.deep_view()));
        next
    }

    pub fn permit(self, permit: ContractPermit) -> (r: Self)
        ensures
            r.deep_view() == (ContractView {
                allows: self.deep_view().allows.push(permit.deep_view()),
                ..self.deep_view()
            }),
    {
        let ghost before = self.allows.deep_view();
        let mut next = self;
        next.allows.push(permit);
        assert(next.allows.deep_view() =~= before.push(permit.deep_view()));
        next
    }

    pub fn with_completion(self, completion: CompletionRule) -> (r: Self)
        ensures
            r.deep_view() == (ContractView {
                completion: completion.deep_view(),
                ..self.deep_view()
            }),
    {
        let mut next = self;
        next.completion = completion;
        next
    }

    pub fn id(&self) -> (r: &str)
        ensures
            r@ == self.deep_view().id,
    {
        self.id.as_str()
    }

    pub fn required_artifacts(&self) -> (r: &[ContractRequirement])
        ensures
            r.deep_view() == self.deep_view().needs,
    {
        let r = self.needs.as_slice();
        assert(r.deep_view() =~= self.needs.deep_view());
        r
    }

    pub fn produced_artifacts(&self) -> (r: &[ContractProduction])
        ensures
            r.deep_view() == self.deep_view().yields,
    {
        let r = self.yields.as_slice();
        assert(r.deep_view() =~= self.yields.deep_view());
        r
    }

    pub fn requires_list(&self) -> (r: &[ContractRequirement])
        ensures
            r.deep_view() == self.deep_view().needs,
    {
        let r = self.needs.as_slice();
        assert(r.deep_view() =~= self.needs.deep_view());
        r
    }

    pub fn produces(&self) -> (r: &[ContractProduction])
        ensures
            r.deep_view() == self.deep_view().yields,
    {
        let r = self.yields.as_slice();
        assert(r.deep_view() =~= self.yields.deep_view());
        r
    }

    pub fn permits_list(&self) -> (r: &[ContractPermit])
        ensures
            r.deep_view() == self.deep_view().allows,
    {
        let r = self.allows.as_slice();
        assert(r.deep_view() =~= self.allows.deep_view());
        r
    }

    pub fn permits(&self) -> (r: &[ContractPermit])
        ensures
            r.deep_view() == self.deep_view().allows,
    {
        let r = self.allows.as_slice();
        assert(r.deep_view() =~= self.allows.deep_view());
        r
    }

    pub fn completion_rule(&self) -> (r: &CompletionRule)
        ensures
            r.deep_view() == self.deep_view().completion,
    {
        &self.completion
    }

    pub fn completion(&self) -> (r: &CompletionRule)
        ensures
            r.deep_view() == self.deep_view().completion,
    {
        &self.completion
    }
}

/// Something that happened in a run.
#[derive(Debug, PartialEq, Eq)]
pub enum Event {
    NodeStarted { node_id: String },
    NodeCompleted { node_id: String },
    ArtifactCreated { artifact: Artifact },
    BoardPatched { board_id: String, version: u64 },
    RouteMatched { route_id: String, source_artifact_id: Option<String> },
    EffectRecorded { node_id: String, effect_key: String, fields: Table<String, String> },
    FlowApplied { run_id: String, lock_id: String, content_hash: String, mode: String },
}

impl Default for Event {
    fn default() -> (r: Self)
        ensures
            r matches Event::NodeStarted { node_id } && node_id@ == Seq::<char>::empty(),
    {
        Event::NodeStarted { node_id: String::new() }
    }
}

} // verus!
