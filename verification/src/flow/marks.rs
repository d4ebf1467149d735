//! What the marks on a flow, its export and its package say, in terms of the flow.
use vstd::prelude::*;

use crate::json::{
    distinct_keys, field, json_compact, json_parse, lemma_field_at, text_field, JsonView,
};
use crate::order::{lemma_text_le_reflexive, lemma_text_le_total, lemma_text_le_transitive, text_le};
use crate::split::{lemma_piece_behind, lemma_whole_piece, pieces};
use crate::text::{has_prefix, lemma_prefix_of_concat, trimmed};

use super::canonical::canonical;
use super::check::{broad_scope, check_findings, is_package_path};
use super::contract::{
    allowed_scopes, contract_effects, effect_of, effects_json, effects_of, effects_of_extension,
    is_authoring_extension, with_effects, without_effects, EffectRequirementView,
    CONTRACT_EFFECTS_EXTENSION_PREFIX,
};
use super::diagnostic::{any_blocks, Diagnostic, FlowCheckMode, Severity};
use super::document::{list_of, Document};
use super::export::{
    field_slot, lemma_slot_in_range, ordered_fields, scalar_text, yaml, yaml_fields, yaml_items,
};
use super::lock::{lock_of, FlowLock, FlowLockView, FlowLockWire, FLOW_LOCK_FORMAT};
use super::model::{FlowDraft, FlowDraftView, WriteScopeView};
use super::package::{entry_fault, is_parent, path_names, resource_fault, EntryFacts, EntryKind};
use super::predicate::{is_fact_key, is_word, FactView, PredicateView};
use super::profile::{
    draft_qos, node_work_profile, profile_of_extension, profile_of_json, qos_of_extension,
    qos_of_json, with_profile, with_qos, without_prefix, NetworkAccess, QosUrgency, QosView,
    ToolExecution, WorkIntent, WorkProfile, WorkspaceAccess, FLOW_QOS_EXTENSION_PREFIX,
    NODE_WORK_PROFILE_EXTENSION_PREFIX,
};

verus! {

broadcast use vstd::string::group_string_axioms;

/// A fact exists as soon as it has a value; it is true when that value, without the blanks round
/// it, is neither empty nor `false` nor `0`.
pub proof fn lemma_predicates_judge_the_value(fact: FactView, value: Option<Seq<char>>)
    ensures
        (PredicateView::Exists { fact }).holds(value) <==> value is Some,
        (PredicateView::Truthy { fact }).holds(value) <==> (value is Some && trimmed(value->0).len()
            > 0 && trimmed(value->0) != "false"@ && trimmed(value->0) != "0"@),
{
}

proof fn lemma_without_prefix_filters(extensions: Seq<Seq<char>>, prefix: Seq<char>)
    ensures
        without_prefix(extensions, prefix) == extensions.filter(
            |extension: Seq<char>| !has_prefix(extension, prefix),
        ),
    decreases extensions.len(),
{
    reveal(Seq::filter);
    if extensions.len() > 0 {
        lemma_without_prefix_filters(extensions.drop_last(), prefix);
    }
}

/// Setting the service that a flow asks for leaves every other extension where it was, and leaves
/// at most one mark of that kind.
pub proof fn lemma_other_extensions_stay(
    extensions: Seq<Seq<char>>,
    qos: QosView,
    profile: WorkProfile,
)
    ensures
        ({
            let other = |extension: Seq<char>| !has_prefix(extension, FLOW_QOS_EXTENSION_PREFIX@);
            let rest = extensions.filter(other);
            let marked = with_qos(extensions, qos);
            &&& marked.take(rest.len() as int) == rest
            &&& qos == QosView::standard() <==> marked.len() == rest.len()
            &&& marked.len() <= rest.len() + 1
        }),
        ({
            let other = |extension: Seq<char>|
                !has_prefix(extension, NODE_WORK_PROFILE_EXTENSION_PREFIX@);
            let rest = extensions.filter(other);
            let marked = with_profile(extensions, profile);
            &&& marked.take(rest.len() as int) == rest
            &&& profile == WorkProfile::standard() <==> marked.len() == rest.len()
            &&& marked.len() <= rest.len() + 1
        }),
{
    lemma_without_prefix_filters(extensions, FLOW_QOS_EXTENSION_PREFIX@);
    lemma_without_prefix_filters(extensions, NODE_WORK_PROFILE_EXTENSION_PREFIX@);
    let a = without_prefix(extensions, FLOW_QOS_EXTENSION_PREFIX@);
    assert(with_qos(extensions, qos).take(a.len() as int) =~= a);
    let b = without_prefix(extensions, NODE_WORK_PROFILE_EXTENSION_PREFIX@);
    assert(with_profile(extensions, profile).take(b.len() as int) =~= b);
}

/// The first mark that says what service a flow asks for counts; without one it is the standard.
pub proof fn lemma_first_service_counts(extensions: Seq<Seq<char>>, i: int)
    requires
        0 <= i <= extensions.len(),
        forall|j: int| 0 <= j < i ==> qos_of_extension(#[trigger] extensions[j]) is None,
    ensures
        i == extensions.len() ==> draft_qos(extensions) == QosView::standard(),
        i < extensions.len() && qos_of_extension(extensions[i]) is Some ==> draft_qos(extensions)
            == qos_of_extension(extensions[i])->0,
    decreases i,
{
    if i > 0 {
        let rest = extensions.drop_first();
        assert(qos_of_extension(extensions[0]) is None);
        assert forall|j: int| 0 <= j < i - 1 implies qos_of_extension(#[trigger] rest[j]) is None by {
            assert(rest[j] == extensions[j + 1]);
        }
        lemma_first_service_counts(rest, i - 1);
        if i < extensions.len() {
            assert(rest[i - 1] == extensions[i]);
        }
    }
}

/// The first mark that says how a node works counts; without one it works as usual.
pub proof fn lemma_first_profile_counts(extensions: Seq<Seq<char>>, i: int)
    requires
        0 <= i <= extensions.len(),
        forall|j: int| 0 <= j < i ==> profile_of_extension(#[trigger] extensions[j]) is None,
    ensures
        i == extensions.len() ==> node_work_profile(extensions) == (WorkProfile {
            intent: WorkIntent::Produce,
            workspace_access: WorkspaceAccess::ReadWrite,
            tool_execution: ToolExecution::Allowed,
            network_access: NetworkAccess::Restricted,
        }),
        i < extensions.len() && profile_of_extension(extensions[i]) is Some ==> node_work_profile(
            extensions,
        ) == profile_of_extension(extensions[i])->0,
    decreases i,
{
    if i > 0 {
        let rest = extensions.drop_first();
        assert(profile_of_extension(extensions[0]) is None);
        assert forall|j: int| 0 <= j < i - 1 implies profile_of_extension(
            #[trigger] rest[j],
        ) is None by {
            assert(rest[j] == extensions[j + 1]);
        }
        lemma_first_profile_counts(rest, i - 1);
        if i < extensions.len() {
            assert(rest[i - 1] == extensions[i]);
        }
    }
}

/// Each part of a profile is the one that is named, or the usual one where none that is known is
/// named; the parts do not depend on one another.
pub proof fn lemma_profiles_are_read_part_by_part(value: JsonView)
    ensures
        profile_of_json(value) is Some <==> value is Record,
        value is Record ==> {
            let profile = profile_of_json(value)->0;
            &&& forall|intent: WorkIntent|
                text_field(value, "intent"@) == Some(#[trigger] intent.name()) && WorkIntent::named(
                    intent.name(),
                ) == Some(intent) ==> profile.intent == intent
            &&& text_field(value, "intent"@) is None ==> profile.intent == WorkIntent::Produce
            &&& forall|access: WorkspaceAccess|
                text_field(value, "workspace_access"@) == Some(#[trigger] access.name())
                    && WorkspaceAccess::named(access.name()) == Some(access)
                    ==> profile.workspace_access == access
            &&& text_field(value, "workspace_access"@) is None ==> profile.workspace_access
                == WorkspaceAccess::ReadWrite
            &&& forall|tools: ToolExecution|
                text_field(value, "tool_execution"@) == Some(#[trigger] tools.name())
                    && ToolExecution::named(tools.name()) == Some(tools) ==> profile.tool_execution
                    == tools
            &&& text_field(value, "tool_execution"@) is None ==> profile.tool_execution
                == ToolExecution::Allowed
            &&& forall|network: NetworkAccess|
                text_field(value, "network_access"@) == Some(#[trigger] network.name())
                    && NetworkAccess::named(network.name()) == Some(network)
                    ==> profile.network_access == network
            &&& text_field(value, "network_access"@) is None ==> profile.network_access
                == NetworkAccess::Restricted
        },
{
}

/// The service that a record asks for is as urgent as it says, and to be done by when it says.
pub proof fn lemma_service_is_read_part_by_part(value: JsonView, urgency: QosUrgency)
    ensures
        qos_of_json(value) is Some <==> value is Record,
        value is Record ==> {
            let qos = qos_of_json(value)->0;
            &&& qos.completion_target == text_field(value, "completion_target"@)
            &&& text_field(value, "urgency"@) == Some(urgency.name()) && QosUrgency::named(
                urgency.name(),
            ) == Some(urgency) ==> qos.urgency == urgency
            &&& text_field(value, "urgency"@) is None ==> qos.urgency == QosUrgency::Standard
        },
{
}

/// The effects that a record lists are those of its items that have an id, in their order; an
/// effect is required unless the item says that it is not.
pub proof fn lemma_effects_are_read_in_order(items: Seq<JsonView>, n: int)
    requires
        0 <= n <= items.len(),
    ensures
        effects_of(items, n) == items.take(n).filter_map(|item: JsonView| effect_of(item)),
        forall|i: int|
            0 <= i < items.len() ==> (effect_of(#[trigger] items[i]) is Some <==> text_field(
                items[i],
                "id"@,
            ) is Some),
    decreases n,
{
    reveal(Seq::filter_map);
    if n > 0 {
        lemma_effects_are_read_in_order(items, n - 1);
        assert(items.take(n).drop_last() =~= items.take(n - 1));
        assert(items.take(n).last() == items[n - 1]);
    }
}

proof fn lemma_others_without(
    extensions: Seq<Seq<char>>,
    contract_id: Seq<char>,
    other: Seq<char>,
)
    requires
        other != contract_id,
    ensures
        contract_effects(without_effects(extensions, contract_id), other) == contract_effects(
            extensions,
            other,
        ),
    decreases extensions.len(),
{
    if extensions.len() > 0 {
        let front = extensions.drop_last();
        let kept = without_effects(front, contract_id);
        lemma_others_without(front, contract_id, other);
        if effects_of_extension(extensions.last(), contract_id) is Some {
            assert(effects_of_extension(extensions.last(), other) is None);
        } else {
            assert(kept.push(extensions.last()).drop_last() =~= kept);
        }
    }
}

/// Setting the effects of one contract leaves those of every other contract as they were, where
/// what is printed reads back.
pub proof fn lemma_effects_of_other_contracts_stay(
    extensions: Seq<Seq<char>>,
    contract_id: Seq<char>,
    effects: Seq<EffectRequirementView>,
    other: Seq<char>,
)
    requires
        other != contract_id,
        json_parse(json_compact(effects_json(contract_id, effects))) == Ok::<JsonView, Seq<char>>(
            effects_json(contract_id, effects),
        ),
    ensures
        contract_effects(with_effects(extensions, contract_id, effects), other)
            == contract_effects(extensions, other),
{
    lemma_others_without(extensions, contract_id, other);
    let rest = without_effects(extensions, contract_id);
    if effects.len() > 0 {
        let printed = json_compact(effects_json(contract_id, effects));
        let mark = CONTRACT_EFFECTS_EXTENSION_PREFIX@ + printed;
        assert(mark.skip(CONTRACT_EFFECTS_EXTENSION_PREFIX@.len() as int) =~= printed);
        assert(rest.push(mark).drop_last() =~= rest);
        let fields = effects_json(contract_id, effects)->Record_0;
        reveal_strlit("contract_id");
        reveal_strlit("effects");
        assert("contract_id"@.len() == 11);
        assert("effects"@.len() == 7);
        lemma_field_at(fields, 0);
        assert(text_field(effects_json(contract_id, effects), "contract_id"@) == Some(contract_id));
    }
}

/// A scope is broad exactly when it is the workspace or the system, and only then is it remarked.
pub proof fn lemma_broad_scopes_are_remarked(
    scope: WriteScopeView,
    severity: Severity,
    location: Seq<char>,
)
    ensures
        broad_scope(scope, severity, location).len() == (if scope == WriteScopeView::Workspace
            || scope == WriteScopeView::System {
            1
        } else {
            0int
        }),
        forall|i: int|
            0 <= i < broad_scope(scope, severity, location).len() ==> {
                &&& (#[trigger] broad_scope(scope, severity, location)[i]).severity == severity
                &&& broad_scope(scope, severity, location)[i].location == location
            },
{
}

/// An entry of the directory of a lock passes exactly when it is a private directory on the way to
/// a declared file, or a private file of one name that is declared.
pub proof fn lemma_entries_are_private_and_declared(
    entry: EntryFacts,
    path: Seq<Seq<char>>,
    files: Seq<Seq<Seq<char>>>,
    user: u32,
)
    ensures
        entry_fault(entry, path, files, user) is None <==> {
            ||| {
                &&& entry.kind == EntryKind::Directory
                &&& entry.uid == user
                &&& entry.mode == 0o700
                &&& entry.nlink >= 2
                &&& exists|i: int|
                    0 <= i < files.len() && 0 < path.len() < (#[trigger] files[i]).len() && path
                        == files[i].take(path.len() as int)
            }
            ||| {
                &&& entry.kind == EntryKind::Regular
                &&& entry.uid == user
                &&& entry.mode == 0o600
                &&& entry.nlink == 1
                &&& files.contains(path)
            }
        },
{
    if exists|i: int|
        0 <= i < files.len() && 0 < path.len() < (#[trigger] files[i]).len() && path
            == files[i].take(path.len() as int) {
        let i = choose|i: int|
            0 <= i < files.len() && 0 < path.len() < (#[trigger] files[i]).len() && path
                == files[i].take(path.len() as int);
        assert(is_parent(path, files[i]));
    }
}

/// A resource is taken into a package exactly when it is a record with a path that stays inside
/// the package and is not taken.
pub proof fn lemma_resources_have_paths_of_their_own(
    resource: JsonView,
    known: Seq<Seq<Seq<char>>>,
)
    ensures
        resource_fault(resource, known) is None <==> {
            &&& resource is Record
            &&& text_field(resource, "path"@) is Some
            &&& is_package_path(text_field(resource, "path"@)->0)
            &&& !known.contains(path_names(text_field(resource, "path"@)->0))
        },
        !is_package_path("flow.json"@),
        !is_package_path(Seq::empty()),
{
}

/// Every field of a record stands in its document at its own depth: a field with one value on a
/// line of its own, with its key, a colon and the value; a field that holds more with its key on
/// one line and what it holds, set in further, below.
pub proof fn lemma_documents_hold_every_field(
    fields: Seq<(Seq<char>, JsonView)>,
    indent: Seq<char>,
    n: int,
    i: int,
) -> (split: (Seq<char>, Seq<char>))
    requires
        0 <= i < n <= fields.len(),
    ensures
        yaml_fields(fields, indent, n) == split.0 + field_lines(fields[i], indent) + split.1,
        split.0 == yaml_fields(fields, indent, i),
    decreases n,
{
    let value = fields[n - 1].1;
    if i == n - 1 {
        assert(yaml_fields(fields, indent, n) =~= yaml_fields(fields, indent, i) + field_lines(
            fields[i],
            indent,
        ) + Seq::<char>::empty());
        (yaml_fields(fields, indent, i), Seq::empty())
    } else {
        let inner = lemma_documents_hold_every_field(fields, indent, n - 1, i);
        let last = field_lines(fields[n - 1], indent);
        assert(yaml_fields(fields, indent, n) =~= yaml_fields(fields, indent, n - 1) + last);
        assert(yaml_fields(fields, indent, n) =~= inner.0 + field_lines(fields[i], indent) + (
        inner.1 + last));
        (inner.0, inner.1 + last)
    }
}

/// The lines of one field.
pub open spec fn field_lines(entry: (Seq<char>, JsonView), indent: Seq<char>) -> Seq<char> {
    match entry.1 {
        JsonView::List(items) => if items.len() == 0 {
            indent + entry.0 + ": []\n"@
        } else {
            indent + entry.0 + ":\n"@ + yaml(entry.1, indent + "  "@)
        },
        JsonView::Record(fields) => if fields.len() == 0 {
            indent + entry.0 + ": {}\n"@
        } else {
            indent + entry.0 + ":\n"@ + yaml(entry.1, indent + "  "@)
        },
        _ => indent + entry.0 + ": "@ + scalar_text(entry.1) + "\n"@,
    }
}

/// Every item of a list stands in its document behind a hyphen of its own, in its order.
pub proof fn lemma_documents_hold_every_item(
    items: Seq<JsonView>,
    indent: Seq<char>,
    n: int,
    i: int,
) -> (split: (Seq<char>, Seq<char>))
    requires
        0 <= i < n <= items.len(),
    ensures
        yaml_items(items, indent, n) == split.0 + item_lines(items[i], indent) + split.1,
        split.0 == yaml_items(items, indent, i),
    decreases n,
{
    if i == n - 1 {
        assert(yaml_items(items, indent, n) =~= yaml_items(items, indent, i) + item_lines(
            items[i],
            indent,
        ) + Seq::<char>::empty());
        (yaml_items(items, indent, i), Seq::empty())
    } else {
        let inner = lemma_documents_hold_every_item(items, indent, n - 1, i);
        let last = item_lines(items[n - 1], indent);
        assert(yaml_items(items, indent, n) =~= yaml_items(items, indent, n - 1) + last);
        assert(yaml_items(items, indent, n) =~= inner.0 + item_lines(items[i], indent) + (inner.1
            + last));
        (inner.0, inner.1 + last)
    }
}

/// The lines of one item.
pub open spec fn item_lines(item: JsonView, indent: Seq<char>) -> Seq<char> {
    if item is List || item is Record {
        indent + "-"@ + "\n"@ + yaml(item, indent + "  "@)
    } else {
        indent + "-"@ + " "@ + scalar_text(item) + "\n"@
    }
}

proof fn lemma_slot_parts(fields: Seq<(Seq<char>, JsonView)>, key: Seq<char>)
    requires
        forall|i: int, j: int|
            0 <= i <= j < fields.len() ==> text_le((#[trigger] fields[i]).0, (#[trigger] fields[j]).0),
    ensures
        forall|i: int| 0 <= i < field_slot(fields, key) ==> text_le((#[trigger] fields[i]).0, key),
        forall|i: int|
            field_slot(fields, key) <= i < fields.len() ==> text_le(key, (#[trigger] fields[i]).0),
    decreases fields.len(),
{
    if fields.len() > 0 {
        let front = fields.drop_last();
        let last = fields.len() - 1;
        if text_le(fields.last().0, key) {
            assert forall|i: int| 0 <= i < fields.len() implies text_le(
                (#[trigger] fields[i]).0,
                key,
            ) by {
                assert(text_le(fields[i].0, fields[last].0));
                lemma_text_le_transitive(fields[i].0, fields[last].0, key);
            }
        } else {
            lemma_text_le_total(fields.last().0, key);
            lemma_slot_parts(front, key);
            lemma_slot_in_range(front, key);
            assert forall|i: int| 0 <= i < field_slot(fields, key) implies text_le(
                (#[trigger] fields[i]).0,
                key,
            ) by {
                assert(front[i] == fields[i]);
            }
            assert forall|i: int|
                field_slot(fields, key) <= i < fields.len() implies text_le(
                key,
                (#[trigger] fields[i]).0,
            ) by {
                if i < last {
                    assert(front[i] == fields[i]);
                }
            }
        }
    }
}

/// The fields of an exported record come in the order of their keys, as many as there were.
pub proof fn lemma_exported_fields_are_in_order(fields: Seq<(Seq<char>, JsonView)>, n: int)
    requires
        0 <= n <= fields.len(),
    ensures
        ({
            let shown = ordered_fields(fields, n);
            &&& shown.len() == n
            &&& forall|i: int, j: int|
                0 <= i <= j < shown.len() ==> text_le(
                    (#[trigger] shown[i]).0,
                    (#[trigger] shown[j]).0,
                )
        }),
    decreases n,
{
    if n > 0 {
        let rest = ordered_fields(fields, n - 1);
        let key = fields[n - 1].0;
        let at = field_slot(rest, key) as int;
        lemma_exported_fields_are_in_order(fields, n - 1);
        lemma_slot_parts(rest, key);
        lemma_slot_in_range(rest, key);
        let shown = ordered_fields(fields, n);
        assert(shown.len() == n);
        assert forall|i: int, j: int| 0 <= i <= j < shown.len() implies text_le(
            (#[trigger] shown[i]).0,
            (#[trigger] shown[j]).0,
        ) by {
            lemma_text_le_reflexive(key);
            if i < at {
                assert(shown[i] == rest[i]);
            } else if i > at {
                assert(shown[i] == rest[i - 1]);
            }
            if j < at {
                assert(shown[j] == rest[j]);
            } else if j > at {
                assert(shown[j] == rest[j - 1]);
            }
        }
    }
}

/// What is exported of a lock says its format, its id, its hash and how it was checked, with its
/// findings and its flow.
pub proof fn lemma_exported_locks_tell(lock: FlowLockView)
    ensures
        ({
            let told = FlowLock::wire_json(lock);
            &&& field(told, "format"@) == Some(JsonView::Text(FLOW_LOCK_FORMAT@))
            &&& field(told, "lock_id"@) == Some(JsonView::Text(lock.id))
            &&& field(told, "content_hash"@) == Some(JsonView::Text(lock.content_hash))
            &&& field(told, "check_mode"@) == Some(JsonView::Text(lock.mode.name()))
            &&& field(told, "diagnostics"@) == Some(list_of::<Diagnostic>(lock.diagnostics))
            &&& field(told, "flow"@) == Some(FlowDraft::json(lock.draft))
        }),
{
    let fields = FlowLock::wire_json(lock)->Record_0;
    reveal_strlit("format");
    reveal_strlit("lock_id");
    reveal_strlit("content_hash");
    reveal_strlit("check_mode");
    reveal_strlit("diagnostics");
    reveal_strlit("flow");
    assert("flow"@.len() == 4);
    assert("format"@.len() == 6);
    assert("lock_id"@.len() == 7);
    assert("check_mode"@.len() == 10);
    assert("diagnostics"@.len() == 11);
    assert("content_hash"@.len() == 12);
    assert(distinct_keys(fields));
    lemma_field_at(fields, 0);
    lemma_field_at(fields, 1);
    lemma_field_at(fields, 2);
    lemma_field_at(fields, 3);
    lemma_field_at(fields, 4);
    lemma_field_at(fields, 5);
}

/// A key of dotted words is a fact, and a word more with a dot before it makes another.
pub proof fn lemma_fact_keys_are_dotted_words(key: Seq<char>, word: Seq<char>)
    requires
        !word.contains('.'),
    ensures
        is_fact_key(word) <==> is_word(word),
        is_fact_key(key) ==> (is_fact_key(key.push('.') + word) <==> is_word(word)),
        !is_fact_key(key.push('.')),
{
    lemma_whole_piece(word, '.');
    assert(pieces(word, '.')[0] == word);
    lemma_piece_behind(key, word, '.');
    let parts = pieces(key, '.');
    let more = pieces(key.push('.') + word, '.');
    assert(more[parts.len() as int] == word);
    if is_fact_key(key) && is_word(word) {
        assert forall|i: int| 0 <= i < more.len() implies is_word(#[trigger] more[i]) by {
            if i < parts.len() {
                assert(more[i] == parts[i]);
            }
        }
    }
    let none = Seq::<char>::empty();
    lemma_piece_behind(key, none, '.');
    assert(key.push('.') + none =~= key.push('.'));
    assert(pieces(key.push('.'), '.')[parts.len() as int] == none);
}

/// A node may write exactly where both it and the policy allow it, in the order of the node.
pub proof fn lemma_scopes_are_allowed_by_both(
    policy: Seq<WriteScopeView>,
    scopes: Seq<WriteScopeView>,
)
    ensures
        allowed_scopes(policy, scopes) == scopes.filter(
            |scope: WriteScopeView| policy.contains(scope),
        ),
    decreases scopes.len(),
{
    reveal(Seq::filter);
    if scopes.len() > 0 {
        lemma_scopes_are_allowed_by_both(policy, scopes.drop_last());
    }
}

/// A lock holds the flow in its canonical form, how it was checked and what was found then.
pub proof fn lemma_locks_hold_the_checked_flow(d: FlowDraftView, mode: FlowCheckMode)
    ensures
        lock_of(d, mode).draft == canonical(d),
        lock_of(d, mode).mode == mode,
        lock_of(d, mode).diagnostics == check_findings(canonical(d), mode),
{
}

/// A lock that is read is accepted exactly when its flow passes the check and it says of that flow
/// what a lock of it says.
pub proof fn lemma_locks_are_accepted_as_they_are_made(wire: FlowLockWire)
    ensures
        wire.fault() is None <==> {
            let lock = lock_of(wire.flow.deep_view(), wire.check_mode);
            &&& !any_blocks(check_findings(wire.flow.deep_view(), wire.check_mode))
            &&& wire.states(lock)
        },
{
}

/// A finding blocks exactly when it is an error or is fatal.
pub proof fn lemma_errors_block(severity: Severity)
    ensures
        severity.blocks() <==> (severity == Severity::Error || severity == Severity::Fatal),
{
}

/// The effects that two lists of extensions ask of a contract are those of the first, and then
/// those of the second.
pub proof fn lemma_effects_add_up(
    a: Seq<Seq<char>>,
    b: Seq<Seq<char>>,
    contract_id: Seq<char>,
)
    ensures
        contract_effects(a + b, contract_id) == contract_effects(a, contract_id)
            + contract_effects(b, contract_id),
    decreases b.len(),
{
    if b.len() == 0 {
        assert(a + b =~= a);
        assert(contract_effects(a, contract_id) + contract_effects(b, contract_id)
            =~= contract_effects(a, contract_id));
    } else {
        assert((a + b).drop_last() =~= a + b.drop_last());
        assert((a + b).last() == b.last());
        lemma_effects_add_up(a, b.drop_last(), contract_id);
        assert(contract_effects(a + b, contract_id) =~= contract_effects(a, contract_id)
            + contract_effects(b, contract_id));
    }
}

/// A mark asks effects of a contract exactly when it is a mark of that kind, reads as a record that
/// names the contract and has a list of effects.
pub proof fn lemma_marks_name_their_contract(extension: Seq<char>, contract_id: Seq<char>)
    ensures
        ({
            let prefix = CONTRACT_EFFECTS_EXTENSION_PREFIX@;
            let read = json_parse(extension.skip(prefix.len() as int));
            effects_of_extension(extension, contract_id) is Some <==> {
                &&& has_prefix(extension, prefix)
                &&& read is Ok
                &&& text_field(read->Ok_0, "contract_id"@) == Some(contract_id)
                &&& field(read->Ok_0, "effects"@) is Some
                &&& field(read->Ok_0, "effects"@)->0 is List
            }
        }),
{
}

/// The marks that are set on a flow are extensions that the check knows.
pub proof fn lemma_own_marks_are_known(text: Seq<char>)
    ensures
        is_authoring_extension(FLOW_QOS_EXTENSION_PREFIX@ + text),
        is_authoring_extension(NODE_WORK_PROFILE_EXTENSION_PREFIX@ + text),
        is_authoring_extension(CONTRACT_EFFECTS_EXTENSION_PREFIX@ + text),
{
    lemma_prefix_of_concat(FLOW_QOS_EXTENSION_PREFIX@, text);
    lemma_prefix_of_concat(NODE_WORK_PROFILE_EXTENSION_PREFIX@, text);
    lemma_prefix_of_concat(CONTRACT_EFFECTS_EXTENSION_PREFIX@, text);
}

} // verus!
