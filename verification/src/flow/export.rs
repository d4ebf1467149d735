//! Locks as text: JSON, or a plain YAML rendering of the same document.
use vstd::prelude::*;

use crate::json::{
    compact, distinct_keys, field, json_compact, json_pretty, json_view, lookup, pretty, value_of,
    Json, JsonView,
};
use crate::number::{decimal, decimal_text, signed_decimal, signed_decimal_text};
use crate::order::{text_at_most, text_le};
use crate::text::cat2;

use super::lock::{FlowLock, FlowLockView};

verus! {

broadcast use vstd::string::group_string_axioms;

/// The form of an exported lock.
#[derive(Debug, Clone, Copy, PartialEq, Eq, Structural)]
pub enum FlowExportFormat {
    Json,
    Yaml,
}

/// The position of a key among ordered fields: behind every smaller one.
pub open spec fn field_slot(fields: Seq<(Seq<char>, JsonView)>, key: Seq<char>) -> nat
    decreases fields.len(),
{
    if fields.len() == 0 || text_le(fields.last().0, key) {
        fields.len()
    } else {
        field_slot(fields.drop_last(), key)
    }
}

/// A value with the fields of every object in the order of their keys.
pub open spec fn ordered(value: JsonView) -> JsonView
    decreases value, 0nat,
{
    match value {
        JsonView::List(items) => JsonView::List(
            Seq::new(
                items.len(),
                |i: int|
                    if 0 <= i < items.len() {
                        ordered(items[i])
                    } else {
                        JsonView::Null
                    },
            ),
        ),
        JsonView::Record(fields) => JsonView::Record(
            ordered_fields(fields, fields.len() as int),
        ),
        other => other,
    }
}

/// The first `n` fields in the order of their keys.
pub open spec fn ordered_fields(fields: Seq<(Seq<char>, JsonView)>, n: int) -> Seq<
    (Seq<char>, JsonView),
>
    decreases fields, n,
{
    if n <= 0 || n > fields.len() {
        Seq::empty()
    } else {
        let rest = ordered_fields(fields, n - 1);
        let next = fields[n - 1];
        rest.insert(field_slot(rest, next.0) as int, (next.0, ordered(next.1)))
    }
}

/// Gives the fields of every object the order of their keys.
pub fn order_fields(value: &Json) -> (r: Json)
    ensures
        r@ == ordered(value@),
    decreases value,
{
    match value {
        Json::List(items) => {
            let mut out: Vec<Json> = Vec::new();
            let mut i: usize = 0;
            while i < items.len()
                invariant
                    i <= items.len(),
                    out.len() == i,
                    value matches Json::List(inner) && inner == items,
                    forall|j: int|
                        0 <= j < i ==> json_view(#[trigger] out@[j]) == ordered(
                            json_view(items@[j]),
                        ),
                decreases items.len() - i,
            {
                assert(decreases_to!(value => items@[i as int]));
                out.push(order_fields(&items[i]));
                i += 1;
            }
            let r = Json::List(out);
            assert(r@->List_0 =~= ordered(value@)->List_0);
            r
        },
        Json::Record(fields) => {
            let ghost model = value@->Record_0;
            let mut out: Vec<(String, Json)> = Vec::new();
            let mut i: usize = 0;
            assert(pair_views(out@) =~= ordered_fields(model, 0));
            while i < fields.len()
                invariant
                    i <= fields.len(),
                    value matches Json::Record(inner) && inner == fields,
                    model == value@->Record_0,
                    model.len() == fields.len(),
                    forall|j: int|
                        0 <= j < fields.len() ==> (#[trigger] model[j]) == (
                            fields@[j].0@,
                            json_view(fields@[j].1),
                        ),
                    pair_views(out@) == ordered_fields(model, i as int),
                decreases fields.len() - i,
            {
                assert(decreases_to!(value => fields@[i as int].1));
                let item = order_fields(&fields[i].1);
                let key = fields[i].0.clone();
                let ghost rest = pair_views(out@);
                let ghost next = model[i as int];
                let mut k: usize = out.len();
                assert(rest.take(k as int) =~= rest);
                while k > 0 && !text_at_most(out[k - 1].0.as_str(), key.as_str())
                    invariant
                        k <= out.len(),
                        rest == pair_views(out@),
                        field_slot(rest, key@) == field_slot(rest.take(k as int), key@),
                    decreases k,
                {
                    assert(rest.take(k as int).last() == rest[k - 1]);
                    assert(rest.take(k as int).drop_last() =~= rest.take(k - 1));
                    k -= 1;
                }
                assert(k > 0 ==> rest.take(k as int).last() == rest[k - 1]);
                assert(field_slot(rest, key@) == k);
                out.insert(k, (key, item));
                assert(pair_views(out@) =~= rest.insert(k as int, (next.0, ordered(next.1))));
                i += 1;
            }
            let r = Json::Record(out);
            assert(r@->Record_0 =~= pair_views(out@));
            r
        },
        other => crate::json::copy_json(other),
    }
}

spec fn pair_views(fields: Seq<(String, Json)>) -> Seq<(Seq<char>, JsonView)> {
    Seq::new(fields.len(), |i: int| (fields[i].0@, json_view(fields[i].1)))
}

/// Whether a value has no parts.
pub open spec fn is_scalar(value: JsonView) -> bool {
    !(value is List) && !(value is Record)
}

/// How a value without parts is written.
pub open spec fn scalar_text(value: JsonView) -> Seq<char> {
    match value {
        JsonView::Null => "null"@,
        JsonView::Bool(flag) => if flag {
            "true"@
        } else {
            "false"@
        },
        JsonView::Unsigned(n) => decimal(n as nat),
        JsonView::Negative(n) => signed_decimal(n as int),
        JsonView::Real(text) => text,
        JsonView::Text(text) => json_compact(JsonView::Text(text)),
        _ => Seq::empty(),
    }
}

/// How a value is written behind an indent, over one or more lines.
pub open spec fn yaml(value: JsonView, indent: Seq<char>) -> Seq<char>
    decreases value, 0nat,
{
    match value {
        JsonView::Record(fields) => yaml_fields(fields, indent, fields.len() as int),
        JsonView::List(items) => yaml_items(items, indent, items.len() as int),
        _ => indent + scalar_text(value) + "\n"@,
    }
}

/// The first `n` fields of an object.
pub open spec fn yaml_fields(
    fields: Seq<(Seq<char>, JsonView)>,
    indent: Seq<char>,
    n: int,
) -> Seq<char>
    decreases fields, n,
{
    if n <= 0 || n > fields.len() {
        Seq::empty()
    } else {
        let value = fields[n - 1].1;
        let line = yaml_fields(fields, indent, n - 1) + indent + fields[n - 1].0;
        if is_scalar(value) {
            line + ": "@ + scalar_text(value) + "\n"@
        } else if value is List && value->List_0.len() == 0 {
            line + ": []\n"@
        } else if value is Record && value->Record_0.len() == 0 {
            line + ": {}\n"@
        } else {
            line + ":\n"@ + yaml(value, indent + "  "@)
        }
    }
}

/// The first `n` items of a list.
pub open spec fn yaml_items(items: Seq<JsonView>, indent: Seq<char>, n: int) -> Seq<char>
    decreases items, n,
{
    if n <= 0 || n > items.len() {
        Seq::empty()
    } else {
        let value = items[n - 1];
        let line = yaml_items(items, indent, n - 1) + indent + "-"@;
        if is_scalar(value) {
            line + " "@ + scalar_text(value) + "\n"@
        } else {
            line + "\n"@ + yaml(value, indent + "  "@)
        }
    }
}

fn is_yaml_scalar(value: &Json) -> (r: bool)
    ensures
        r == is_scalar(value@),
{
    match value {
        Json::List(_) | Json::Record(_) => false,
        _ => true,
    }
}

fn yaml_value(value: &Json) -> (r: String)
    ensures
        r@ == scalar_text(value@),
{
    match value {
        Json::Null => "null".to_string(),
        Json::Bool(flag) => if *flag {
            "true".to_string()
        } else {
            "false".to_string()
        },
        Json::Unsigned(n) => decimal_text(*n),
        Json::Negative(n) => signed_decimal_text(*n),
        Json::Real(text) => text.clone(),
        Json::Text(_) => compact(value),
        _ => String::new(),
    }
}

fn write_yaml_value(value: &Json, indent: &str, output: &mut String)
    ensures
        final(output)@ == old(output)@ + yaml(value@, indent@),
    decreases value,
{
    let ghost start = output@;
    match value {
        Json::Record(fields) => {
            let ghost model = value@->Record_0;
            let deeper = cat2(indent, "  ");
            let mut i: usize = 0;
            assert(output@ =~= start + yaml_fields(model, indent@, 0));
            while i < fields.len()
                invariant
                    i <= fields.len(),
                    value matches Json::Record(inner) && inner == fields,
                    model == value@->Record_0,
                    model.len() == fields.len(),
                    forall|j: int|
                        0 <= j < fields.len() ==> (#[trigger] model[j]) == (
                            fields@[j].0@,
                            json_view(fields@[j].1),
                        ),
                    deeper@ == indent@ + "  "@,
                    output@ == start + yaml_fields(model, indent@, i as int),
                decreases fields.len() - i,
            {
                assert(decreases_to!(value => fields@[i as int].1));
                let item = &fields[i].1;
                let ghost next = model[i as int].1;
                assert(next == item@);
                output.push_str(indent);
                output.push_str(fields[i].0.as_str());
                let empty_list = match item {
                    Json::List(items) => items.len() == 0,
                    _ => false,
                };
                let empty_record = match item {
                    Json::Record(inner) => inner.len() == 0,
                    _ => false,
                };
                if is_yaml_scalar(item) {
                    output.push_str(": ");
                    output.push_str(yaml_value(item).as_str());
                    output.push_str("\n");
                } else if empty_list {
                    output.push_str(": []\n");
                } else if empty_record {
                    output.push_str(": {}\n");
                } else {
                    output.push_str(":\n");
                    write_yaml_value(item, deeper.as_str(), output);
                }
                i += 1;
                assert(output@ =~= start + yaml_fields(model, indent@, i as int));
            }
        },
        Json::List(items) => {
            let ghost model = value@->List_0;
            let deeper = cat2(indent, "  ");
            let mut i: usize = 0;
            assert(output@ =~= start + yaml_items(model, indent@, 0));
            while i < items.len()
                invariant
                    i <= items.len(),
                    value matches Json::List(inner) && inner == items,
                    model == value@->List_0,
                    model.len() == items.len(),
                    forall|j: int|
                        0 <= j < items.len() ==> (#[trigger] model[j]) == json_view(items@[j]),
                    deeper@ == indent@ + "  "@,
                    output@ == start + yaml_items(model, indent@, i as int),
                decreases items.len() - i,
            {
                assert(decreases_to!(value => items@[i as int]));
                let item = &items[i];
                let ghost next = model[i as int];
                assert(next == item@);
                output.push_str(indent);
                output.push_str("-");
                if is_yaml_scalar(item) {
                    output.push_str(" ");
                    output.push_str(yaml_value(item).as_str());
                    output.push_str("\n");
                } else {
                    output.push_str("\n");
                    write_yaml_value(item, deeper.as_str(), output);
                }
                i += 1;
                assert(output@ =~= start + yaml_items(model, indent@, i as int));
            }
        },
        _ => {
            output.push_str(indent);
            output.push_str(yaml_value(value).as_str());
            output.push_str("\n");
            assert(output@ =~= start + yaml(value@, indent@));
        },
    }
}

/// An exported lock.
pub open spec fn exported(lock: FlowLockView, format: FlowExportFormat) -> Seq<char> {
    match format {
        FlowExportFormat::Json => json_pretty(value_of(FlowLock::wire_json(lock))),
        FlowExportFormat::Yaml => yaml(ordered(FlowLock::wire_json(lock)), Seq::empty()),
    }
}

/// Writes a lock as JSON over several lines, or as YAML with the fields of every
/// object in the order of their keys.
pub fn flow_export(lock: &FlowLock, format: FlowExportFormat) -> (r: String)
    ensures
        r@ == exported(lock.deep_view(), format),
{
    let value = lock.to_wire_json();
    match format {
        FlowExportFormat::Json => pretty(&value),
        FlowExportFormat::Yaml => {
            let value = order_fields(&value);
            let mut output = String::new();
            let indent = String::new();
            write_yaml_value(&value, indent.as_str(), &mut output);
            assert(output@ =~= yaml(value@, Seq::empty()));
            output
        },
    }
}

proof fn lemma_lookup_inserted(
    fields: Seq<(Seq<char>, JsonView)>,
    at: int,
    key: Seq<char>,
    item: JsonView,
    wanted: Seq<char>,
)
    requires
        0 <= at <= fields.len(),
        lookup(fields, key) is None,
    ensures
        lookup(fields.insert(at, (key, item)), wanted) == (if key == wanted {
            Some(item)
        } else {
            lookup(fields, wanted)
        }),
    decreases fields.len(),
{
    let all = fields.insert(at, (key, item));
    if at == fields.len() {
        assert(all.drop_last() =~= fields);
        assert(all.last() == (key, item));
    } else {
        assert(all.last() == fields.last());
        assert(all.drop_last() =~= fields.drop_last().insert(at, (key, item)));
        assert(lookup(fields.drop_last(), key) is None);
        lemma_lookup_inserted(fields.drop_last(), at, key, item, wanted);
    }
}

pub proof fn lemma_slot_in_range(fields: Seq<(Seq<char>, JsonView)>, key: Seq<char>)
    ensures
        field_slot(fields, key) <= fields.len(),
    decreases fields.len(),
{
    if fields.len() > 0 {
        lemma_slot_in_range(fields.drop_last(), key);
    }
}

proof fn lemma_absent(fields: Seq<(Seq<char>, JsonView)>, key: Seq<char>)
    requires
        forall|i: int| 0 <= i < fields.len() ==> (#[trigger] fields[i]).0 != key,
    ensures
        lookup(fields, key) is None,
    decreases fields.len(),
{
    if fields.len() > 0 {
        let front = fields.drop_last();
        assert forall|i: int| 0 <= i < front.len() implies (#[trigger] front[i]).0 != key by {
            assert(front[i] == fields[i]);
        }
        assert(fields[fields.len() - 1].0 != key);
        lemma_absent(front, key);
    }
}

proof fn lemma_ordered_lookup(fields: Seq<(Seq<char>, JsonView)>, n: int, wanted: Seq<char>)
    requires
        distinct_keys(fields),
        0 <= n <= fields.len(),
    ensures
        lookup(ordered_fields(fields, n), wanted) == (match lookup(fields.take(n), wanted) {
            Some(item) => Some(ordered(item)),
            None => None,
        }),
    decreases n,
{
    if n > 0 {
        let rest = ordered_fields(fields, n - 1);
        let next = fields[n - 1];
        lemma_ordered_lookup(fields, n - 1, wanted);
        lemma_ordered_lookup(fields, n - 1, next.0);
        assert(fields.take(n).drop_last() =~= fields.take(n - 1));
        assert(fields.take(n).last() == next);
        let front = fields.take(n - 1);
        assert forall|i: int| 0 <= i < front.len() implies (#[trigger] front[i]).0 != next.0 by {
            assert(front[i] == fields[i]);
            assert(fields[i].0 != fields[n - 1].0);
        }
        lemma_absent(front, next.0);
        lemma_slot_in_range(rest, next.0);
        lemma_lookup_inserted(
            rest,
            field_slot(rest, next.0) as int,
            next.0,
            ordered(next.1),
            wanted,
        );
    }
}

/// The order of the fields does not matter to what is read from them.
pub proof fn lemma_ordered_field(fields: Seq<(Seq<char>, JsonView)>, key: Seq<char>)
    requires
        distinct_keys(fields),
    ensures
        field(ordered(JsonView::Record(fields)), key) == (match lookup(fields, key) {
            Some(item) => Some(ordered(item)),
            None => None,
        }),
{
    lemma_ordered_lookup(fields, fields.len() as int, key);
    assert(fields.take(fields.len() as int) =~= fields);
}

} // verus!
