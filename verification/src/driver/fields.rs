//! How the fields of stored objects are read: which may be missing, and what they may hold.
use vstd::prelude::*;

use crate::json::{
    field, lookup, signed_of, text_field, unsigned_field, unsigned_of, Json, JsonView,
};

verus! {

/// A stored value as an object: a list gives the fields in their order, of which those behind
/// the needed ones may be left out. A list of another length is nothing.
pub open spec fn arranged(value: JsonView, names: Seq<Seq<char>>, needed: int) -> JsonView {
    match value {
        JsonView::List(items) => if needed <= items.len() <= names.len() {
            JsonView::Record(Seq::new(items.len(), |i: int| (names[i], items[i])))
        } else {
            JsonView::Null
        },
        other => other,
    }
}

pub fn arrange(value: &Json, names: &Vec<&str>, needed: usize) -> (r: Json)
    ensures
        r@ == arranged(value@, names.deep_view(), needed as int),
{
    match value {
        Json::List(items) => {
            if needed > items.len() || items.len() > names.len() {
                return Json::Null;
            }
            let mut fields: Vec<(String, Json)> = Vec::new();
            let mut i: usize = 0;
            while i < items.len()
                invariant
                    i <= items.len() <= names.len(),
                    fields.len() == i,
                    forall|j: int|
                        0 <= j < i ==> (#[trigger] fields@[j]).0@ == names@[j]@ && fields@[j].1@
                            == items@[j]@,
                decreases items.len() - i,
            {
                fields.push((names[i].to_string(), items[i].clone()));
                i += 1;
            }
            let r = Json::Record(fields);
            assert(r@->Record_0 =~= arranged(value@, names.deep_view(), needed as int)->Record_0);
            r
        },
        _ => value.clone(),
    }
}

/// A text that may be missing or null.
pub open spec fn optional_text(value: JsonView, key: Seq<char>) -> Option<Option<Seq<char>>> {
    match field(value, key) {
        None => Some(None),
        Some(JsonView::Null) => Some(None),
        Some(JsonView::Text(text)) => Some(Some(text)),
        Some(_) => None,
    }
}

pub fn read_optional_text(value: &Json, key: &str) -> (r: Option<Option<String>>)
    ensures
        match (r, optional_text(value@, key@)) {
            (Some(a), Some(b)) => a.deep_view() == b,
            (None, None) => true,
            _ => false,
        },
{
    match value.get(key) {
        None => Some(None),
        Some(Json::Null) => Some(None),
        Some(Json::Text(text)) => Some(Some(text.clone())),
        Some(_) => None,
    }
}

/// A number that is zero where it is missing.
pub open spec fn defaulted_unsigned(value: JsonView, key: Seq<char>, default: u64) -> Option<u64> {
    match field(value, key) {
        None => Some(default),
        Some(item) => unsigned_of(item),
    }
}

pub fn read_defaulted_unsigned(value: &Json, key: &str, default: u64) -> (r: Option<u64>)
    ensures
        r == defaulted_unsigned(value@, key@, default),
{
    match value.get(key) {
        None => Some(default),
        Some(item) => item.as_u64(),
    }
}

/// A number of at most 32 bits.
pub open spec fn small_unsigned(value: JsonView, key: Seq<char>) -> Option<u32> {
    match unsigned_field(value, key) {
        Some(n) => if n <= u32::MAX {
            Some(n as u32)
        } else {
            None
        },
        None => None,
    }
}

pub fn read_small_unsigned(value: &Json, key: &str) -> (r: Option<u32>)
    ensures
        r == small_unsigned(value@, key@),
{
    match value.unsigned_at(key) {
        Some(n) => if n <= 0xffff_ffff {
            Some(n as u32)
        } else {
            None
        },
        None => None,
    }
}

/// A number that counts things, with a value for where it is missing.
pub open spec fn defaulted_count(value: JsonView, key: Seq<char>, default: usize) -> Option<usize> {
    match field(value, key) {
        None => Some(default),
        Some(item) => match unsigned_of(item) {
            Some(n) => if n <= usize::MAX {
                Some(n as usize)
            } else {
                None
            },
            None => None,
        },
    }
}

pub fn read_defaulted_count(value: &Json, key: &str, default: usize) -> (r: Option<usize>)
    ensures
        r == defaulted_count(value@, key@, default),
{
    match value.get(key) {
        None => Some(default),
        Some(item) => match item.as_u64() {
            Some(n) => if n <= usize::MAX as u64 {
                Some(n as usize)
            } else {
                None
            },
            None => None,
        },
    }
}

/// A signed number of at most 32 bits.
pub open spec fn small_signed_of(value: JsonView) -> Option<i32> {
    match signed_of(value) {
        Some(n) => if i32::MIN <= n <= i32::MAX {
            Some(n as i32)
        } else {
            None
        },
        None => None,
    }
}

pub fn read_small_signed(value: &Json) -> (r: Option<i32>)
    ensures
        r == small_signed_of(value@),
{
    match value.as_i64() {
        Some(n) => if -2147483648 <= n && n <= 2147483647 {
            Some(n as i32)
        } else {
            None
        },
        None => None,
    }
}

/// A signed number of at most 32 bits that may be missing or null.
pub open spec fn optional_small_signed(value: JsonView, key: Seq<char>) -> Option<Option<i32>> {
    match field(value, key) {
        None => Some(None),
        Some(JsonView::Null) => Some(None),
        Some(item) => match small_signed_of(item) {
            Some(n) => Some(Some(n)),
            None => None,
        },
    }
}

pub fn read_optional_small_signed(value: &Json, key: &str) -> (r: Option<Option<i32>>)
    ensures
        r == optional_small_signed(value@, key@),
{
    match value.get(key) {
        None => Some(None),
        Some(Json::Null) => Some(None),
        Some(item) => match read_small_signed(item) {
            Some(n) => Some(Some(n)),
            None => None,
        },
    }
}

/// A signed number as JSON.
pub open spec fn signed_json(n: i64) -> JsonView {
    if n >= 0 {
        JsonView::Unsigned(n as u64)
    } else {
        JsonView::Negative(n)
    }
}

pub fn signed_to_json(n: i64) -> (r: Json)
    ensures
        r@ == signed_json(n),
{
    if n >= 0 {
        Json::Unsigned(n as u64)
    } else {
        Json::Negative(n)
    }
}

/// A signed number that may be missing, as JSON.
pub open spec fn optional_signed_json(n: Option<i32>) -> JsonView {
    match n {
        Some(n) => signed_json(n as i64),
        None => JsonView::Null,
    }
}

pub fn optional_signed_to_json(n: Option<i32>) -> (r: Json)
    ensures
        r@ == optional_signed_json(n),
{
    match n {
        Some(n) => signed_to_json(n as i64),
        None => Json::Null,
    }
}

/// A required text, owned.
pub fn read_text(value: &Json, key: &str) -> (r: Option<String>)
    ensures
        r.deep_view() == text_field(value@, key@),
{
    match value.text_at(key) {
        Some(text) => Some(text.to_string()),
        None => None,
    }
}

/// The field that was pushed last is found first.
pub proof fn lemma_lookup_push(
    fields: Seq<(Seq<char>, JsonView)>,
    key: Seq<char>,
    item: JsonView,
    wanted: Seq<char>,
)
    ensures
        lookup(fields.push((key, item)), wanted) == (if key == wanted {
            Some(item)
        } else {
            lookup(fields, wanted)
        }),
{
    assert(fields.push((key, item)).drop_last() =~= fields);
}

} // verus!
