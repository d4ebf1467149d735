//! What nodes owe and need: contracts, effects and capabilities.
use vstd::prelude::*;

use crate::json::{
    compact, depth, field, flag_field, json_compact, json_view, lemma_simple_record, list_depth, lookup,
    no_fields, reads_back, record_depth, regular, text_field, Fields, Json, JsonView,
};
use crate::text::{
    cat2, contains_text, has_prefix, lemma_prefix_of_concat, same, starts_with,
};

use super::model::{
    ContractArtifactView, ContractCompletion, FlowContract, FlowContractView, FlowDraft,
    FlowDraftView, FlowNode, FlowNodeView, FlowPolicies, NodeAction, NodeActionView, NodeDriver,
    WriteScope, WriteScopeView,
};
use super::profile::{
    extension_is_flow_qos, extension_is_node_work_profile, extension_payload, payload_of,
    FLOW_QOS_EXTENSION_PREFIX, NODE_WORK_PROFILE_EXTENSION_PREFIX,
};

verus! {

broadcast use vstd::string::group_string_axioms;

/// Marks the extension that holds the effects of a contract.
pub const CONTRACT_EFFECTS_EXTENSION_PREFIX: &'static str = "humanize.contract_effects:";

/// When a node contract counts as met.
#[derive(Debug, Clone, Copy, PartialEq, Eq, Structural)]
pub enum CompletionPolicy {
    Absent,
    Manual,
    AllArtifacts,
}

impl DeepView for CompletionPolicy {
    type V = CompletionPolicy;

    open spec fn deep_view(&self) -> CompletionPolicy {
        *self
    }
}

impl Default for CompletionPolicy {
    fn default() -> (r: Self)
        ensures
            r == CompletionPolicy::Absent,
    {
        CompletionPolicy::Absent
    }
}

/// How firmly a node is kept from stopping early.
#[derive(Debug, Clone, Copy, PartialEq, Eq, Structural)]
pub enum StopGate {
    Required,
    Preferred,
    Absent,
}

impl DeepView for StopGate {
    type V = StopGate;

    open spec fn deep_view(&self) -> StopGate {
        *self
    }
}

impl Default for StopGate {
    fn default() -> (r: Self)
        ensures
            r == StopGate::Absent,
    {
        StopGate::Absent
    }
}

/// An artifact that a node owes.
#[derive(Debug, PartialEq, Eq)]
pub struct ArtifactRequirement {
    pub id: String,
    pub schema_resource_id: Option<String>,
    pub required: bool,
}

#[verifier::ext_equal]
pub struct ArtifactRequirementView {
    pub id: Seq<char>,
    pub schema_resource_id: Option<Seq<char>>,
    pub required: bool,
}

impl DeepView for ArtifactRequirement {
    type V = ArtifactRequirementView;

    open spec fn deep_view(&self) -> ArtifactRequirementView {
        ArtifactRequirementView {
            id: self.id.deep_view(),
            schema_resource_id: self.schema_resource_id.deep_view(),
            required: self.required,
        }
    }
}

impl Clone for ArtifactRequirement {
    fn clone(&self) -> (r: Self)
        ensures
            r.deep_view() == self.deep_view(),
    {
        let r = ArtifactRequirement {
            id: self.id.clone(),
            schema_resource_id: self.schema_resource_id.clone(),
            required: self.required,
        };
        assert(r.schema_resource_id.deep_view() =~= self.schema_resource_id.deep_view());
        r
    }
}

/// An effect that a node owes.
#[derive(Debug, PartialEq, Eq)]
pub struct EffectRequirement {
    pub id: String,
    pub required: bool,
}

#[verifier::ext_equal]
pub struct EffectRequirementView {
    pub id: Seq<char>,
    pub required: bool,
}

impl DeepView for EffectRequirement {
    type V = EffectRequirementView;

    open spec fn deep_view(&self) -> EffectRequirementView {
        EffectRequirementView {
            id: self.id.deep_view(),
            required: self.required,
        }
    }
}

impl Clone for EffectRequirement {
    fn clone(&self) -> (r: Self)
        ensures
            r.deep_view() == self.deep_view(),
    {
        let r = EffectRequirement {
            id: self.id.clone(),
            required: self.required,
        };
        r
    }
}

/// What an adapter must offer to carry a node out.
#[derive(Debug, PartialEq, Eq)]
pub struct AdapterCapability {
    pub node_id: String,
    pub driver: NodeDriver,
    pub required: Vec<String>,
    pub prefers: Vec<String>,
    pub accepts: Vec<String>,
}

#[verifier::ext_equal]
pub struct AdapterCapabilityView {
    pub node_id: Seq<char>,
    pub driver: NodeDriver,
    pub required: Seq<Seq<char>>,
    pub prefers: Seq<Seq<char>>,
    pub accepts: Seq<Seq<char>>,
}

impl DeepView for AdapterCapability {
    type V = AdapterCapabilityView;

    open spec fn deep_view(&self) -> AdapterCapabilityView {
        AdapterCapabilityView {
            node_id: self.node_id.deep_view(),
            driver: self.driver,
            required: self.required.deep_view(),
            prefers: self.prefers.deep_view(),
            accepts: self.accepts.deep_view(),
        }
    }
}

impl Clone for AdapterCapability {
    fn clone(&self) -> (r: Self)
        ensures
            r.deep_view() == self.deep_view(),
    {
        let r = AdapterCapability {
            node_id: self.node_id.clone(),
            driver: self.driver,
            required: self.required.clone(),
            prefers: self.prefers.clone(),
            accepts: self.accepts.clone(),
        };
        assert(r.required.deep_view() =~= self.required.deep_view());
        assert(r.prefers.deep_view() =~= self.prefers.deep_view());
        assert(r.accepts.deep_view() =~= self.accepts.deep_view());
        r
    }
}

/// What a node owes, needs and accepts.
#[derive(Debug, PartialEq, Eq)]
pub struct NodeContract {
    pub node_id: String,
    pub contract_id: Option<String>,
    pub required: Vec<String>,
    pub prefers: Vec<String>,
    pub accepts: Vec<String>,
    pub completion_policy: CompletionPolicy,
    pub artifact_requirements: Vec<ArtifactRequirement>,
    pub effect_requirements: Vec<EffectRequirement>,
    pub stop_gate: StopGate,
}

#[verifier::ext_equal]
pub struct NodeContractView {
    pub node_id: Seq<char>,
    pub contract_id: Option<Seq<char>>,
    pub required: Seq<Seq<char>>,
    pub prefers: Seq<Seq<char>>,
    pub accepts: Seq<Seq<char>>,
    pub completion_policy: CompletionPolicy,
    pub artifact_requirements: Seq<ArtifactRequirementView>,
    pub effect_requirements: Seq<EffectRequirementView>,
    pub stop_gate: StopGate,
}

impl DeepView for NodeContract {
    type V = NodeContractView;

    open spec fn deep_view(&self) -> NodeContractView {
        NodeContractView {
            node_id: self.node_id.deep_view(),
            contract_id: self.contract_id.deep_view(),
            required: self.required.deep_view(),
            prefers: self.prefers.deep_view(),
            accepts: self.accepts.deep_view(),
            completion_policy: self.completion_policy,
            artifact_requirements: self.artifact_requirements.deep_view(),
            effect_requirements: self.effect_requirements.deep_view(),
            stop_gate: self.stop_gate,
        }
    }
}

impl Clone for NodeContract {
    fn clone(&self) -> (r: Self)
        ensures
            r.deep_view() == self.deep_view(),
    {
        let r = NodeContract {
            node_id: self.node_id.clone(),
            contract_id: self.contract_id.clone(),
            required: self.required.clone(),
            prefers: self.prefers.clone(),
            accepts: self.accepts.clone(),
            completion_policy: self.completion_policy,
            artifact_requirements: self.artifact_requirements.clone(),
            effect_requirements: self.effect_requirements.clone(),
            stop_gate: self.stop_gate,
        };
        assert(r.contract_id.deep_view() =~= self.contract_id.deep_view());
        assert(r.required.deep_view() =~= self.required.deep_view());
        assert(r.prefers.deep_view() =~= self.prefers.deep_view());
        assert(r.accepts.deep_view() =~= self.accepts.deep_view());
        assert(r.artifact_requirements.deep_view() =~= self.artifact_requirements.deep_view());
        assert(r.effect_requirements.deep_view() =~= self.effect_requirements.deep_view());
        r
    }
}

/// The effect that an entry of an effects list states.
pub open spec fn effect_of(value: JsonView) -> Option<EffectRequirementView> {
    match text_field(value, "id"@) {
        Some(id) => Some(
            EffectRequirementView {
                id,
                required: match flag_field(value, "required"@) {
                    Some(required) => required,
                    None => true,
                },
            },
        ),
        None => None,
    }
}

/// The effects that the first `n` entries state; entries that state none are left out.
pub open spec fn effects_of(items: Seq<JsonView>, n: int) -> Seq<EffectRequirementView>
    decreases n,
{
    if n <= 0 {
        Seq::empty()
    } else {
        match effect_of(items[n - 1]) {
            Some(effect) => effects_of(items, n - 1).push(effect),
            None => effects_of(items, n - 1),
        }
    }
}

/// The effects that a JSON value states for the given contract.
pub open spec fn effects_of_json(value: JsonView, contract_id: Seq<char>) -> Option<
    Seq<EffectRequirementView>,
> {
    if text_field(value, "contract_id"@) == Some(contract_id) {
        match field(value, "effects"@) {
            Some(JsonView::List(items)) => Some(effects_of(items, items.len() as int)),
            _ => None,
        }
    } else {
        None
    }
}

fn effect_from_json(value: &Json) -> (r: Option<EffectRequirement>)
    ensures
        r.deep_view() == effect_of(value@),
{
    match value.text_at("id") {
        Some(id) => {
            let required = match value.flag_at("required") {
                Some(required) => required,
                None => true,
            };
            Some(EffectRequirement { id: id.to_string(), required })
        },
        None => None,
    }
}

pub fn effects_from_json(value: &Json, contract_id: &str) -> (r: Option<Vec<EffectRequirement>>)
    ensures
        r.deep_view() == effects_of_json(value@, contract_id@),
{
    match value.text_at("contract_id") {
        Some(id) => {
            if !same(id, contract_id) {
                return None;
            }
        },
        None => {
            return None;
        },
    }
    match value.get("effects") {
        Some(Json::List(items)) => {
            let ghost list = json_view(Json::List(*items))->List_0;
            let mut out: Vec<EffectRequirement> = Vec::new();
            let mut i: usize = 0;
            assert(out.deep_view() =~= effects_of(list, 0));
            while i < items.len()
                invariant
                    i <= items.len(),
                    list == json_view(Json::List(*items))->List_0,
                    out.deep_view() == effects_of(list, i as int),
                decreases items.len() - i,
            {
                assert(list[i as int] == json_view(items@[i as int]));
                let ghost before = out.deep_view();
                match effect_from_json(&items[i]) {
                    Some(effect) => {
                        out.push(effect);
                        assert(out.deep_view() =~= before.push(effect.deep_view()));
                    },
                    None => {},
                }
                i += 1;
            }
            Some(out)
        },
        _ => None,
    }
}

/// The effects that an extension states for the given contract.
pub open spec fn effects_of_extension(extension: Seq<char>, contract_id: Seq<char>) -> Option<
    Seq<EffectRequirementView>,
> {
    match payload_of(extension, CONTRACT_EFFECTS_EXTENSION_PREFIX@) {
        Some(value) => effects_of_json(value, contract_id),
        None => None,
    }
}

fn parse_contract_effects_extension(extension: &str, contract_id: &str) -> (r: Option<
    Vec<EffectRequirement>,
>)
    ensures
        r.deep_view() == effects_of_extension(extension@, contract_id@),
{
    match extension_payload(extension, CONTRACT_EFFECTS_EXTENSION_PREFIX) {
        Some(value) => effects_from_json(&value, contract_id),
        None => None,
    }
}

fn extension_is_for_contract_effects(extension: &str, contract_id: &str) -> (r: bool)
    ensures
        r == (effects_of_extension(extension@, contract_id@) is Some),
{
    parse_contract_effects_extension(extension, contract_id).is_some()
}

/// All effects that extensions state for the given contract, in order.
pub open spec fn contract_effects(extensions: Seq<Seq<char>>, contract_id: Seq<char>) -> Seq<
    EffectRequirementView,
>
    decreases extensions.len(),
{
    if extensions.len() == 0 {
        Seq::empty()
    } else {
        let front = contract_effects(extensions.drop_last(), contract_id);
        match effects_of_extension(extensions.last(), contract_id) {
            Some(effects) => front + effects,
            None => front,
        }
    }
}

pub fn flow_draft_contract_effects(draft: &FlowDraft, contract_id: &str) -> (r: Vec<
    EffectRequirement,
>)
    ensures
        r.deep_view() == contract_effects(draft.deep_view().extensions, contract_id@),
{
    let mut out: Vec<EffectRequirement> = Vec::new();
    let ghost model = draft.extensions.deep_view();
    let mut i: usize = 0;
    assert(out.deep_view() =~= contract_effects(model.take(0), contract_id@));
    while i < draft.extensions.len()
        invariant
            i <= draft.extensions.len(),
            model == draft.extensions.deep_view(),
            out.deep_view() == contract_effects(model.take(i as int), contract_id@),
        decreases draft.extensions.len() - i,
    {
        let ghost before = out.deep_view();
        assert(model.take(i + 1).drop_last() =~= model.take(i as int));
        assert(model.take(i + 1).last() == draft.extensions@[i as int]@);
        match parse_contract_effects_extension(draft.extensions[i].as_str(), contract_id) {
            Some(mut effects) => {
                let ghost added = effects.deep_view();
                out.append(&mut effects);
                assert(out.deep_view() =~= before + added);
            },
            None => {},
        }
        i += 1;
    }
    assert(model.take(i as int) =~= model);
    out
}

/// The extensions that state no effects for the given contract.
pub open spec fn without_effects(extensions: Seq<Seq<char>>, contract_id: Seq<char>) -> Seq<
    Seq<char>,
>
    decreases extensions.len(),
{
    if extensions.len() == 0 {
        extensions
    } else {
        let front = without_effects(extensions.drop_last(), contract_id);
        if effects_of_extension(extensions.last(), contract_id) is Some {
            front
        } else {
            front.push(extensions.last())
        }
    }
}

/// An effect as JSON.
pub open spec fn effect_json(effect: EffectRequirementView) -> JsonView {
    JsonView::Record(
        no_fields().push(("id"@, JsonView::Text(effect.id))).push(
            ("required"@, JsonView::Bool(effect.required)),
        ),
    )
}

/// The effects of a contract as JSON.
pub open spec fn effects_json(
    contract_id: Seq<char>,
    effects: Seq<EffectRequirementView>,
) -> JsonView {
    JsonView::Record(
        no_fields().push(("contract_id"@, JsonView::Text(contract_id))).push(
            (
                "effects"@,
                JsonView::List(Seq::new(effects.len(), |i: int| effect_json(effects[i]))),
            ),
        ),
    )
}

/// The extensions of a draft after the effects of a contract were set: no effects
/// need no extension, others stand behind the rest.
pub open spec fn with_effects(
    extensions: Seq<Seq<char>>,
    contract_id: Seq<char>,
    effects: Seq<EffectRequirementView>,
) -> Seq<Seq<char>> {
    let rest = without_effects(extensions, contract_id);
    if effects.len() == 0 {
        rest
    } else {
        rest.push(
            CONTRACT_EFFECTS_EXTENSION_PREFIX@ + json_compact(effects_json(contract_id, effects)),
        )
    }
}

proof fn lemma_effect_json(effect: EffectRequirementView)
    ensures
        regular(effect_json(effect)),
        depth(effect_json(effect)) == 1,
        effect_of(effect_json(effect)) == Some(effect),
{
    reveal_strlit("id");
    reveal_strlit("required");
    let f2 = effect_json(effect)->Record_0;
    let f1 = no_fields().push(f2[0]);
    assert("id"@.len() != "required"@.len());
    assert(f2.drop_last() =~= f1);
    assert(f1.drop_last() =~= no_fields());
    reveal_with_fuel(lookup, 3);
    lemma_simple_record(f2);
}

proof fn lemma_effect_list(effects: Seq<EffectRequirementView>, items: Seq<JsonView>, n: int)
    requires
        items == Seq::new(effects.len(), |i: int| effect_json(effects[i])),
        0 <= n <= effects.len(),
    ensures
        effects_of(items, n) == effects.take(n),
        list_depth(items.take(n)) <= 1,
        forall|i: int| 0 <= i < n ==> regular(#[trigger] items[i]),
    decreases n,
{
    if n > 0 {
        lemma_effect_list(effects, items, n - 1);
        lemma_effect_json(effects[n - 1]);
        assert(items[n - 1] == effect_json(effects[n - 1]));
        assert(effects.take(n) =~= effects.take(n - 1).push(effects[n - 1]));
        assert(items.take(n).drop_last() =~= items.take(n - 1));
        assert(items.take(n).last() == items[n - 1]);
    } else {
        assert(effects.take(0) =~= Seq::empty());
    }
}

proof fn lemma_effects_json(contract_id: Seq<char>, effects: Seq<EffectRequirementView>)
    ensures
        reads_back(effects_json(contract_id, effects)),
        effects_of_json(effects_json(contract_id, effects), contract_id) == Some(effects),
{
    reveal_strlit("contract_id");
    reveal_strlit("effects");
    assert("contract_id"@.len() != "effects"@.len());
    let value = effects_json(contract_id, effects);
    let f2 = value->Record_0;
    let f1 = no_fields().push(f2[0]);
    let items = f2[1].1->List_0;
    let n = effects.len() as int;
    lemma_effect_list(effects, items, n);
    assert(items.take(n) =~= items);
    assert(effects.take(n) =~= effects);
    assert(f2.drop_last() =~= f1);
    assert(f1.drop_last() =~= no_fields());
    reveal_with_fuel(lookup, 3);
    reveal_with_fuel(record_depth, 3);
    assert(regular(f2[0].1));
    assert(regular(f2[1].1));
    assert(depth(f1.last().1) == 0);
    assert(depth(f2.last().1) <= 2);
    assert(record_depth(f1) == 0);
    assert(record_depth(f2) <= 2);
    assert forall|i: int| 0 <= i < f2.len() implies regular((#[trigger] f2[i]).1) by {
        if i == 0 {
        } else {
            assert(i == 1);
        }
    }
}

proof fn lemma_without_effects(extensions: Seq<Seq<char>>, contract_id: Seq<char>)
    ensures
        contract_effects(without_effects(extensions, contract_id), contract_id) == Seq::<
            EffectRequirementView,
        >::empty(),
    decreases extensions.len(),
{
    if extensions.len() > 0 {
        lemma_without_effects(extensions.drop_last(), contract_id);
        let front = without_effects(extensions.drop_last(), contract_id);
        let all = without_effects(extensions, contract_id);
        if !(effects_of_extension(extensions.last(), contract_id) is Some) {
            assert(all.drop_last() =~= front);
            assert(all.last() == extensions.last());
        }
    }
}

fn effects_to_json(contract_id: &str, effects: &Vec<EffectRequirement>) -> (r: Json)
    ensures
        r@ == effects_json(contract_id@, effects.deep_view()),
{
    let mut items: Vec<Json> = Vec::new();
    let ghost model = effects.deep_view();
    let mut i: usize = 0;
    while i < effects.len()
        invariant
            i <= effects.len(),
            model == effects.deep_view(),
            items.len() == i,
            forall|j: int| 0 <= j < i ==> json_view(#[trigger] items@[j]) == effect_json(model[j]),
        decreases effects.len() - i,
    {
        let item = Fields::new().put("id", Json::text(effects[i].id.as_str())).put(
            "required",
            Json::Bool(effects[i].required),
        ).done();
        assert(item@ == effect_json(model[i as int]));
        items.push(item);
        i += 1;
    }
    let list = Json::List(items);
    proof {
        assert(list@->List_0 =~= Seq::new(model.len(), |i: int| effect_json(model[i])));
    }
    Fields::new().put("contract_id", Json::text(contract_id)).put("effects", list).done()
}

/// Sets the effects of a contract; reading them gives back what was set.
pub fn set_flow_draft_contract_effects(
    draft: &mut FlowDraft,
    contract_id: &str,
    effects: Vec<EffectRequirement>,
)
    ensures
        final(draft).deep_view() == (FlowDraftView {
            extensions: with_effects(
                old(draft).deep_view().extensions,
                contract_id@,
                effects.deep_view(),
            ),
            ..old(draft).deep_view()
        }),
        contract_effects(final(draft).deep_view().extensions, contract_id@) == effects.deep_view(),
{
    let ghost model = draft.extensions.deep_view();
    let ghost wanted = effects.deep_view();
    let mut rest: Vec<String> = Vec::new();
    let mut i: usize = 0;
    assert(rest.deep_view() =~= without_effects(model.take(0), contract_id@));
    while i < draft.extensions.len()
        invariant
            i <= draft.extensions.len(),
            model == draft.extensions.deep_view(),
            *draft == *old(draft),
            rest.deep_view() == without_effects(model.take(i as int), contract_id@),
        decreases draft.extensions.len() - i,
    {
        let ghost before = rest.deep_view();
        assert(model.take(i + 1).drop_last() =~= model.take(i as int));
        assert(model.take(i + 1).last() == draft.extensions@[i as int]@);
        if !extension_is_for_contract_effects(draft.extensions[i].as_str(), contract_id) {
            rest.push(draft.extensions[i].clone());
            assert(rest.deep_view() =~= before.push(draft.extensions@[i as int]@));
        }
        i += 1;
    }
    assert(model.take(i as int) =~= model);
    let ghost kept = rest.deep_view();
    proof {
        lemma_without_effects(model, contract_id@);
    }
    if effects.len() == 0 {
        draft.extensions = rest;
        assert(wanted =~= Seq::empty());
        return ;
    }
    let value = effects_to_json(contract_id, &effects);
    proof {
        lemma_effects_json(contract_id@, wanted);
    }
    let payload = compact(&value);
    let extension = cat2(CONTRACT_EFFECTS_EXTENSION_PREFIX, payload.as_str());
    rest.push(extension);
    proof {
        assert(rest.deep_view() =~= kept.push(extension@));
        lemma_prefix_of_concat(CONTRACT_EFFECTS_EXTENSION_PREFIX@, payload@);
        assert(effects_of_extension(extension@, contract_id@) == Some(wanted));
        assert(kept.push(extension@).drop_last() =~= kept);
        assert(Seq::<EffectRequirementView>::empty() + wanted =~= wanted);
    }
    draft.extensions = rest;
}

/// The first occurrence of each text, in order.
pub open spec fn first_occurrences(items: Seq<Seq<char>>) -> Seq<Seq<char>>
    decreases items.len(),
{
    if items.len() == 0 {
        items
    } else {
        let front = first_occurrences(items.drop_last());
        if front.contains(items.last()) {
            front
        } else {
            front.push(items.last())
        }
    }
}

/// The first occurrences hold no text twice, and the same texts as the whole.
pub proof fn lemma_first_occurrences(items: Seq<Seq<char>>)
    ensures
        first_occurrences(items).no_duplicates(),
        forall|x: Seq<char>| first_occurrences(items).contains(x) <==> items.contains(x),
    decreases items.len(),
{
    if items.len() > 0 {
        lemma_first_occurrences(items.drop_last());
        let front = first_occurrences(items.drop_last());
        let all = first_occurrences(items);
        assert forall|x: Seq<char>| all.contains(x) <==> items.contains(x) by {
            if items.contains(x) {
                let i = choose|i: int| 0 <= i < items.len() && items[i] == x;
                if i < items.len() - 1 {
                    assert(items.drop_last()[i] == x);
                    assert(items.drop_last().contains(x));
                    assert(front.contains(x));
                    let k = choose|k: int| 0 <= k < front.len() && front[k] == x;
                    assert(all[k] == x);
                } else if !front.contains(items.last()) {
                    assert(all[all.len() - 1] == x);
                }
            }
            if all.contains(x) {
                let k = choose|k: int| 0 <= k < all.len() && all[k] == x;
                if k < front.len() {
                    assert(front[k] == x);
                    assert(items.drop_last().contains(x));
                    let i = choose|i: int|
                        0 <= i < items.drop_last().len() && items.drop_last()[i] == x;
                    assert(items[i] == x);
                } else {
                    assert(items[items.len() - 1] == x);
                }
            }
        }
    }
}

fn dedup_preserving_order(values: &Vec<String>) -> (r: Vec<String>)
    ensures
        r.deep_view() == first_occurrences(values.deep_view()),
{
    let mut out: Vec<String> = Vec::new();
    let ghost model = values.deep_view();
    let mut i: usize = 0;
    assert(out.deep_view() =~= first_occurrences(model.take(0)));
    while i < values.len()
        invariant
            i <= values.len(),
            model == values.deep_view(),
            out.deep_view() == first_occurrences(model.take(i as int)),
        decreases values.len() - i,
    {
        let ghost before = out.deep_view();
        assert(model.take(i + 1).drop_last() =~= model.take(i as int));
        assert(model.take(i + 1).last() == values@[i as int]@);
        let kept = out.as_slice();
        assert(kept.deep_view() =~= out.deep_view());
        if !contains_text(kept, values[i].as_str()) {
            out.push(values[i].clone());
            assert(out.deep_view() =~= before.push(values@[i as int]@));
        }
        i += 1;
    }
    assert(model.take(i as int) =~= model);
    out
}

/// What an action cannot do without: what it reads.
pub open spec fn action_requires(action: NodeActionView) -> Seq<Seq<char>> {
    first_occurrences(action.reads)
}

/// What an action works better with: its prompt, then its resources.
pub open spec fn action_prefers(action: NodeActionView) -> Seq<Seq<char>> {
    first_occurrences(
        match action.prompt_ref {
            Some(prompt) => seq![prompt] + action.resource_refs,
            None => action.resource_refs,
        },
    )
}

/// What an action delivers: what it writes, then its verdict.
pub open spec fn action_accepts(action: NodeActionView) -> Seq<Seq<char>> {
    first_occurrences(
        match action.verdict_artifact {
            Some(verdict) => action.writes.push(verdict),
            None => action.writes,
        },
    )
}

fn action_contract_fields(action: &NodeAction) -> (r: (Vec<String>, Vec<String>, Vec<String>))
    ensures
        r.0.deep_view() == action_requires(action.deep_view()),
        r.1.deep_view() == action_prefers(action.deep_view()),
        r.2.deep_view() == action_accepts(action.deep_view()),
{
    let required = dedup_preserving_order(&action.reads);
    let mut prefers: Vec<String> = Vec::new();
    if let Some(prompt) = &action.prompt_ref {
        prefers.push(prompt.clone());
    }
    let ghost head = prefers.deep_view();
    let mut resources = action.resource_refs.clone();
    assert(resources.deep_view() =~= action.resource_refs.deep_view());
    prefers.append(&mut resources);
    assert(prefers.deep_view() =~= head + action.resource_refs.deep_view());
    proof {
        match &action.prompt_ref {
            Some(prompt) => {
                assert(head =~= seq![prompt@]);
            },
            None => {
                assert(prefers.deep_view() =~= action.resource_refs.deep_view());
            },
        }
    }
    let mut accepts = action.writes.clone();
    assert(accepts.deep_view() =~= action.writes.deep_view());
    if let Some(verdict) = &action.verdict_artifact {
        accepts.push(verdict.clone());
        assert(accepts.deep_view() =~= action.writes.deep_view().push(verdict@));
    }
    (required, dedup_preserving_order(&prefers), dedup_preserving_order(&accepts))
}

/// What an adapter must offer for an action.
pub open spec fn capability(node_id: Seq<char>, action: NodeActionView) -> AdapterCapabilityView {
    AdapterCapabilityView {
        node_id,
        driver: action.driver,
        required: action_requires(action),
        prefers: action_prefers(action),
        accepts: action_accepts(action),
    }
}

/// What adapters must offer for the nodes with an action, in order.
pub open spec fn capabilities(nodes: Seq<FlowNodeView>) -> Seq<AdapterCapabilityView>
    decreases nodes.len(),
{
    if nodes.len() == 0 {
        Seq::empty()
    } else {
        let front = capabilities(nodes.drop_last());
        match nodes.last().action {
            Some(action) => front.push(capability(nodes.last().id, action)),
            None => front,
        }
    }
}

impl AdapterCapability {
    pub fn from_action(node_id: String, action: &NodeAction) -> (r: Self)
        ensures
            r.deep_view() == capability(node_id@, action.deep_view()),
    {
        let (required, prefers, accepts) = action_contract_fields(action);
        AdapterCapability { node_id, driver: action.driver, required, prefers, accepts }
    }

    pub fn from_draft(draft: &FlowDraft) -> (r: Vec<Self>)
        ensures
            r.deep_view() == capabilities(draft.deep_view().nodes),
    {
        let mut out: Vec<AdapterCapability> = Vec::new();
        let ghost model = draft.deep_view().nodes;
        let mut i: usize = 0;
        assert(out.deep_view() =~= capabilities(model.take(0)));
        while i < draft.nodes.len()
            invariant
                i <= draft.nodes.len(),
                model == draft.deep_view().nodes,
                out.deep_view() == capabilities(model.take(i as int)),
            decreases draft.nodes.len() - i,
        {
            let ghost before = out.deep_view();
            assert(model.take(i + 1).drop_last() =~= model.take(i as int));
            assert(model.take(i + 1).last() == draft.nodes@[i as int].deep_view());
            if let Some(action) = &draft.nodes[i].action {
                let next = AdapterCapability::from_action(draft.nodes[i].id.clone(), action);
                out.push(next);
                assert(out.deep_view() =~= before.push(next.deep_view()));
            }
            i += 1;
        }
        assert(model.take(i as int) =~= model);
        out
    }
}

/// The last contract with the given id.
pub open spec fn contract_named(contracts: Seq<FlowContractView>, id: Seq<char>) -> Option<
    FlowContractView,
>
    decreases contracts.len(),
{
    if contracts.len() == 0 {
        None
    } else if contracts.last().id == id {
        Some(contracts.last())
    } else {
        contract_named(contracts.drop_last(), id)
    }
}

fn find_contract<'a>(contracts: &'a Vec<FlowContract>, id: &str) -> (r: Option<&'a FlowContract>)
    ensures
        r.deep_view() == contract_named(contracts.deep_view(), id@),
{
    let ghost model = contracts.deep_view();
    let mut i: usize = contracts.len();
    assert(model.take(i as int) =~= model);
    while i > 0
        invariant
            i <= contracts.len(),
            model == contracts.deep_view(),
            contract_named(model, id@) == contract_named(model.take(i as int), id@),
        decreases i,
    {
        assert(model.take(i as int).last() == contracts@[i - 1].deep_view());
        assert(model.take(i as int).drop_last() =~= model.take(i - 1));
        if same(contracts[i - 1].id.as_str(), id) {
            return Some(&contracts[i - 1]);
        }
        i -= 1;
    }
    None
}

impl CompletionPolicy {
    pub open spec fn of(completion: Option<ContractCompletion>) -> CompletionPolicy {
        match completion {
            Some(ContractCompletion::Manual) => CompletionPolicy::Manual,
            Some(ContractCompletion::AllArtifacts) => CompletionPolicy::AllArtifacts,
            None => CompletionPolicy::Absent,
        }
    }

    fn from_contract_completion(completion: &ContractCompletion) -> (r: Self)
        ensures
            r == CompletionPolicy::of(Some(*completion)),
    {
        match completion {
            ContractCompletion::Manual => CompletionPolicy::Manual,
            ContractCompletion::AllArtifacts => CompletionPolicy::AllArtifacts,
        }
    }

    /// What a policy puts before stopping.
    pub open spec fn gate(self) -> StopGate {
        match self {
            CompletionPolicy::AllArtifacts => StopGate::Required,
            CompletionPolicy::Manual => StopGate::Preferred,
            CompletionPolicy::Absent => StopGate::Absent,
        }
    }
}

pub open spec fn artifact_requirement(artifact: ContractArtifactView) -> ArtifactRequirementView {
    ArtifactRequirementView {
        id: artifact.id,
        schema_resource_id: artifact.schema_resource_id,
        required: true,
    }
}

/// What a node of a draft owes, needs and accepts.
pub open spec fn node_contract(draft: FlowDraftView, node: FlowNodeView) -> NodeContractView {
    let contract = match node.contract_id {
        Some(id) => contract_named(draft.contracts, id),
        None => None,
    };
    let policy = match contract {
        Some(contract) => CompletionPolicy::of(contract.completion),
        None => CompletionPolicy::Absent,
    };
    NodeContractView {
        node_id: node.id,
        contract_id: node.contract_id,
        required: match node.action {
            Some(action) => action_requires(action),
            None => Seq::empty(),
        },
        prefers: match node.action {
            Some(action) => action_prefers(action),
            None => Seq::empty(),
        },
        accepts: match node.action {
            Some(action) => action_accepts(action),
            None => Seq::empty(),
        },
        completion_policy: policy,
        artifact_requirements: match contract {
            Some(contract) => Seq::new(
                contract.artifacts.len(),
                |i: int| artifact_requirement(contract.artifacts[i]),
            ),
            None => Seq::empty(),
        },
        effect_requirements: match contract {
            Some(contract) => contract_effects(draft.extensions, contract.id),
            None => Seq::empty(),
        },
        stop_gate: policy.gate(),
    }
}

fn artifact_requirements(contract: &FlowContract) -> (r: Vec<ArtifactRequirement>)
    ensures
        r.deep_view() == Seq::new(
            contract.deep_view().artifacts.len(),
            |i: int| artifact_requirement(contract.deep_view().artifacts[i]),
        ),
{
    let mut out: Vec<ArtifactRequirement> = Vec::new();
    let mut i: usize = 0;
    while i < contract.artifacts.len()
        invariant
            i <= contract.artifacts.len(),
            out.len() == i,
            forall|j: int|
                0 <= j < i ==> (#[trigger] out@[j]).deep_view() == artifact_requirement(
                    contract.deep_view().artifacts[j],
                ),
        decreases contract.artifacts.len() - i,
    {
        let artifact = &contract.artifacts[i];
        let next = ArtifactRequirement {
            id: artifact.id.clone(),
            schema_resource_id: artifact.schema_resource_id.clone(),
            required: true,
        };
        assert(next.deep_view() == artifact_requirement(contract.deep_view().artifacts[i as int]));
        out.push(next);
        i += 1;
    }
    assert(out.deep_view() =~= Seq::new(
        contract.deep_view().artifacts.len(),
        |i: int| artifact_requirement(contract.deep_view().artifacts[i]),
    ));
    out
}

impl NodeContract {
    fn for_node(draft: &FlowDraft, node: &FlowNode) -> (r: Self)
        ensures
            r.deep_view() == node_contract(draft.deep_view(), node.deep_view()),
    {
        let contract = match &node.contract_id {
            Some(id) => find_contract(&draft.contracts, id.as_str()),
            None => None,
        };
        let (required, prefers, accepts) = match &node.action {
            Some(action) => action_contract_fields(action),
            None => (Vec::new(), Vec::new(), Vec::new()),
        };
        let mut completion_policy = CompletionPolicy::Absent;
        let mut artifact_list: Vec<ArtifactRequirement> = Vec::new();
        let mut effect_list: Vec<EffectRequirement> = Vec::new();
        if let Some(contract) = contract {
            artifact_list = artifact_requirements(contract);
            effect_list = flow_draft_contract_effects(draft, contract.id.as_str());
            if let Some(completion) = &contract.completion {
                completion_policy = CompletionPolicy::from_contract_completion(completion);
            }
        }
        let stop_gate = match completion_policy {
            CompletionPolicy::AllArtifacts => StopGate::Required,
            CompletionPolicy::Manual => StopGate::Preferred,
            CompletionPolicy::Absent => StopGate::Absent,
        };
        let r = NodeContract {
            node_id: node.id.clone(),
            contract_id: node.contract_id.clone(),
            required,
            prefers,
            accepts,
            completion_policy,
            artifact_requirements: artifact_list,
            effect_requirements: effect_list,
            stop_gate,
        };
        assert(r.deep_view() =~= node_contract(draft.deep_view(), node.deep_view()));
        r
    }

    /// The contracts of all nodes of a draft, in order.
    pub fn from_draft(draft: &FlowDraft) -> (r: Vec<Self>)
        ensures
            r.deep_view() == Seq::new(
                draft.deep_view().nodes.len(),
                |i: int| node_contract(draft.deep_view(), draft.deep_view().nodes[i]),
            ),
    {
        let mut out: Vec<NodeContract> = Vec::new();
        let mut i: usize = 0;
        while i < draft.nodes.len()
            invariant
                i <= draft.nodes.len(),
                out.len() == i,
                forall|j: int|
                    0 <= j < i ==> (#[trigger] out@[j]).deep_view() == node_contract(
                        draft.deep_view(),
                        draft.deep_view().nodes[j],
                    ),
            decreases draft.nodes.len() - i,
        {
            let next = NodeContract::for_node(draft, &draft.nodes[i]);
            out.push(next);
            i += 1;
        }
        assert(out.deep_view() =~= Seq::new(
            draft.deep_view().nodes.len(),
            |i: int| node_contract(draft.deep_view(), draft.deep_view().nodes[i]),
        ));
        out
    }
}

/// The scopes of a node that the package allows, in order.
pub open spec fn allowed_scopes(
    policy: Seq<WriteScopeView>,
    scopes: Seq<WriteScopeView>,
) -> Seq<WriteScopeView>
    decreases scopes.len(),
{
    if scopes.len() == 0 {
        scopes
    } else {
        let front = allowed_scopes(policy, scopes.drop_last());
        if policy.contains(scopes.last()) {
            front.push(scopes.last())
        } else {
            front
        }
    }
}

/// An effective scope stands in the policy and on the node.
pub proof fn lemma_allowed_scopes(policy: Seq<WriteScopeView>, scopes: Seq<WriteScopeView>)
    ensures
        forall|i: int|
            0 <= i < allowed_scopes(policy, scopes).len() ==> policy.contains(
                #[trigger] allowed_scopes(policy, scopes)[i],
            ) && scopes.contains(allowed_scopes(policy, scopes)[i]),
    decreases scopes.len(),
{
    if scopes.len() > 0 {
        lemma_allowed_scopes(policy, scopes.drop_last());
        let front = allowed_scopes(policy, scopes.drop_last());
        let all = allowed_scopes(policy, scopes);
        assert forall|i: int| 0 <= i < all.len() implies policy.contains(#[trigger] all[i])
            && scopes.contains(all[i]) by {
            if i < front.len() {
                assert(all[i] == front[i]);
                assert(scopes.drop_last().contains(front[i]));
                let k = choose|k: int|
                    0 <= k < scopes.drop_last().len() && scopes.drop_last()[k] == front[i];
                assert(scopes[k] == front[i]);
            } else {
                assert(scopes[scopes.len() - 1] == all[i]);
            }
        }
    }
}

fn contains_scope(scopes: &Vec<WriteScope>, wanted: &WriteScope) -> (r: bool)
    ensures
        r == scopes.deep_view().contains(wanted.deep_view()),
{
    let mut i: usize = 0;
    while i < scopes.len()
        invariant
            i <= scopes.len(),
            forall|j: int| 0 <= j < i ==> scopes.deep_view()[j] != wanted.deep_view(),
        decreases scopes.len() - i,
    {
        if scopes[i].is_same(wanted) {
            assert(scopes.deep_view()[i as int] == wanted.deep_view());
            return true;
        }
        i += 1;
    }
    false
}

/// What a node may write: those of its scopes that the policies list.
pub fn effective_node_write_scopes(policies: &FlowPolicies, node: &FlowNode) -> (r: Vec<WriteScope>)
    ensures
        r.deep_view() == allowed_scopes(
            policies.deep_view().write_scopes,
            node.deep_view().write_scopes,
        ),
{
    let mut out: Vec<WriteScope> = Vec::new();
    let ghost model = node.deep_view().write_scopes;
    let ghost policy = policies.deep_view().write_scopes;
    let mut i: usize = 0;
    assert(out.deep_view() =~= allowed_scopes(policy, model.take(0)));
    while i < node.write_scopes.len()
        invariant
            i <= node.write_scopes.len(),
            model == node.deep_view().write_scopes,
            policy == policies.deep_view().write_scopes,
            out.deep_view() == allowed_scopes(policy, model.take(i as int)),
        decreases node.write_scopes.len() - i,
    {
        let ghost before = out.deep_view();
        assert(model.take(i + 1).drop_last() =~= model.take(i as int));
        assert(model.take(i + 1).last() == node.write_scopes@[i as int].deep_view());
        if contains_scope(&policies.write_scopes, &node.write_scopes[i]) {
            out.push(node.write_scopes[i].clone());
            assert(out.deep_view() =~= before.push(node.write_scopes@[i as int].deep_view()));
        }
        i += 1;
    }
    assert(model.take(i as int) =~= model);
    out
}

/// Whether an extension belongs to authoring data.
pub open spec fn is_authoring_extension(extension: Seq<char>) -> bool {
    ||| has_prefix(extension, CONTRACT_EFFECTS_EXTENSION_PREFIX@)
    ||| has_prefix(extension, FLOW_QOS_EXTENSION_PREFIX@)
    ||| has_prefix(extension, NODE_WORK_PROFILE_EXTENSION_PREFIX@)
    ||| extension == "Node"@
    ||| extension == "Contract"@
    ||| extension == "Artifact"@
    ||| extension == "Board"@
    ||| extension == "Route"@
    ||| extension == "Event"@
    ||| extension == "Resource"@
    ||| extension == "Import"@
    ||| extension == "Policy"@
}

pub fn is_authoring_extension_kind(extension: &str) -> (r: bool)
    ensures
        r == is_authoring_extension(extension@),
{
    starts_with(extension, CONTRACT_EFFECTS_EXTENSION_PREFIX) || extension_is_flow_qos(extension)
        || extension_is_node_work_profile(extension) || same(extension, "Node") || same(
        extension,
        "Contract",
    ) || same(extension, "Artifact") || same(extension, "Board") || same(extension, "Route")
        || same(extension, "Event") || same(extension, "Resource") || same(extension, "Import")
        || same(extension, "Policy")
}

} // verus!
