//! JSON values as plain data, and the calls that read and print them.
use vstd::prelude::*;

use crate::text::same;

verus! {

/// A JSON value. Object fields keep the order in which they were given.
#[derive(Debug, PartialEq, Eq)]
pub enum Json {
    Null,
    Bool(bool),
    /// A number that fits in `u64`.
    Unsigned(u64),
    /// A negative number that fits in `i64`.
    Negative(i64),
    /// Any other number, by its text.
    Real(String),
    Text(String),
    List(Vec<Json>),
    Record(Vec<(String, Json)>),
}

/// The model of a JSON value.
#[verifier::ext_equal]
pub enum JsonView {
    Null,
    Bool(bool),
    Unsigned(u64),
    Negative(i64),
    Real(Seq<char>),
    Text(Seq<char>),
    List(Seq<JsonView>),
    Record(Seq<(Seq<char>, JsonView)>),
}

pub open spec fn json_view(value: Json) -> JsonView
    decreases value,
{
    match value {
        Json::Null => JsonView::Null,
        Json::Bool(b) => JsonView::Bool(b),
        Json::Unsigned(n) => JsonView::Unsigned(n),
        Json::Negative(n) => JsonView::Negative(n),
        Json::Real(t) => JsonView::Real(t@),
        Json::Text(t) => JsonView::Text(t@),
        Json::List(items) => JsonView::List(
            Seq::new(
                items@.len(),
                |i: int|
                    if 0 <= i < items@.len() {
                        json_view(items@[i])
                    } else {
                        JsonView::Null
                    },
            ),
        ),
        Json::Record(fields) => JsonView::Record(
            Seq::new(
                fields@.len(),
                |i: int|
                    if 0 <= i < fields@.len() {
                        (fields@[i].0@, json_view(fields@[i].1))
                    } else {
                        (Seq::empty(), JsonView::Null)
                    },
            ),
        ),
    }
}

impl View for Json {
    type V = JsonView;

    open spec fn view(&self) -> JsonView {
        json_view(*self)
    }
}

impl DeepView for Json {
    type V = JsonView;

    open spec fn deep_view(&self) -> JsonView {
        json_view(*self)
    }
}

/// How many containers are nested in a value.
pub open spec fn depth(value: JsonView) -> nat
    decreases value,
{
    match value {
        JsonView::List(items) => 1 + list_depth(items),
        JsonView::Record(fields) => 1 + record_depth(fields),
        _ => 0,
    }
}

pub open spec fn list_depth(items: Seq<JsonView>) -> nat
    decreases items,
{
    if items.len() == 0 {
        0
    } else {
        let front = list_depth(items.drop_last());
        let last = depth(items.last());
        if front < last {
            last
        } else {
            front
        }
    }
}

pub open spec fn record_depth(fields: Seq<(Seq<char>, JsonView)>) -> nat
    decreases fields,
{
    if fields.len() == 0 {
        0
    } else {
        let front = record_depth(fields.drop_last());
        let last = depth(fields.last().1);
        if front < last {
            last
        } else {
            front
        }
    }
}

/// No fields; `push` adds one behind them.
pub open spec fn no_fields() -> Seq<(Seq<char>, JsonView)> {
    Seq::empty()
}

/// Whether no two fields share a key.
pub open spec fn distinct_keys(fields: Seq<(Seq<char>, JsonView)>) -> bool {
    forall|i: int, j: int|
        0 <= i < j < fields.len() ==> (#[trigger] fields[i]).0 != (#[trigger] fields[j]).0
}

/// Whether a value is made of texts, integers, flags and containers in which
/// no object names a field twice.
pub open spec fn regular(value: JsonView) -> bool
    decreases value,
{
    match value {
        JsonView::Real(_) => false,
        JsonView::Negative(n) => n < 0,
        JsonView::List(items) => forall|i: int|
            0 <= i < items.len() ==> regular(#[trigger] items[i]),
        JsonView::Record(fields) => {
            &&& distinct_keys(fields)
            &&& forall|i: int| 0 <= i < fields.len() ==> regular((#[trigger] fields[i]).1)
        },
        _ => true,
    }
}

/// Whether reading the printed value gives it back: it is regular, and nested no
/// deeper than the reader follows.
pub open spec fn reads_back(value: JsonView) -> bool {
    regular(value) && depth(value) <= 100
}

/// A text, a flag, an unsigned number or null.
pub open spec fn simple(value: JsonView) -> bool {
    value is Text || value is Bool || value is Unsigned || value is Null
}

/// An object of simple fields with distinct keys reads back, and is nested once.
pub proof fn lemma_simple_record(fields: Seq<(Seq<char>, JsonView)>)
    requires
        distinct_keys(fields),
        forall|i: int| 0 <= i < fields.len() ==> simple((#[trigger] fields[i]).1),
    ensures
        regular(JsonView::Record(fields)),
        depth(JsonView::Record(fields)) == 1,
{
    lemma_simple_depth(fields);
    assert forall|i: int| 0 <= i < fields.len() implies regular((#[trigger] fields[i]).1) by {
        assert(simple(fields[i].1));
    }
}

proof fn lemma_simple_depth(fields: Seq<(Seq<char>, JsonView)>)
    requires
        forall|i: int| 0 <= i < fields.len() ==> simple((#[trigger] fields[i]).1),
    ensures
        record_depth(fields) == 0,
    decreases fields.len(),
{
    if fields.len() > 0 {
        let front = fields.drop_last();
        assert forall|i: int| 0 <= i < front.len() implies simple((#[trigger] front[i]).1) by {
            assert(front[i] == fields[i]);
        }
        lemma_simple_depth(front);
        assert(simple(fields[fields.len() - 1].1));
        assert(depth(fields.last().1) == 0);
    }
}

/// `serde_json::Value`, carried between the calls below.
#[verifier::external_type_specification]
#[verifier::external_body]
pub struct ExValue(serde_json::Value);

/// What a `serde_json::Value` holds.
pub uninterp spec fn value_model(value: serde_json::Value) -> JsonView;

/// What a `serde_json::Value` holds that was built from the given value.
pub uninterp spec fn value_of(value: JsonView) -> JsonView;

/// The outcome of reading a value.
pub open spec fn read(value: JsonView) -> Result<JsonView, Seq<char>> {
    Ok(value)
}

/// The outcome of failing to read one.
pub open spec fn unread(message: Seq<char>) -> Result<JsonView, Seq<char>> {
    Err(message)
}

/// What `serde_json::from_str` makes of a text: a value, or the message of its error.
pub uninterp spec fn json_parse(text: Seq<char>) -> Result<JsonView, Seq<char>>;

/// What `serde_json::to_string` prints for a value.
pub uninterp spec fn json_compact(value: JsonView) -> Seq<char>;

/// What `serde_json::to_string_pretty` prints for a value.
pub uninterp spec fn json_pretty(value: JsonView) -> Seq<char>;

/// `serde_json::from_str::<Value>`: the result depends on the text alone.
#[verifier::external_body]
fn parse_value(text: &str) -> (r: Result<serde_json::Value, String>)
    ensures
        match r {
            Ok(value) => json_parse(text@) == read(value_model(value)),
            Err(message) => json_parse(text@) == unread(message@),
        },
{
    serde_json::from_str::<serde_json::Value>(text).map_err(|error| error.to_string())
}

/// `serde_json::to_string` on a `Value`: the text depends on the value alone, and
/// `serde_json::from_str` gives a regular value back from it. It stands on one line: a
/// line feed in a text is printed as an escape, and nothing else prints one. A `Value`
/// has text keys, so printing it does not fail.
#[verifier::external_body]
fn print_value(value: &serde_json::Value) -> (r: String)
    ensures
        r@ == json_compact(value_model(*value)),
        !r@.contains('\n'),
        reads_back(value_model(*value)) ==> json_parse(r@) == read(value_model(*value)),
{
    serde_json::to_string(value).unwrap_or_default()
}

/// `serde_json::to_string_pretty` on a `Value`: the text depends on the value
/// alone, and `serde_json::from_str` gives a regular value back from it, with a line feed
/// behind it, since the reader passes over white space at the end. A `Value` has text keys,
/// so printing it does not fail.
#[verifier::external_body]
fn print_value_pretty(value: &serde_json::Value) -> (r: String)
    ensures
        r@ == json_pretty(value_model(*value)),
        reads_back(value_model(*value)) ==> json_parse(r@.push('\n')) == read(
            value_model(*value),
        ),
{
    serde_json::to_string_pretty(value).unwrap_or_default()
}

/// The variants and the `Number` accessors of `serde_json::Value`, one for one.
#[verifier::external_body]
fn from_value(value: serde_json::Value) -> (r: Json)
    ensures
        r@ == value_model(value),
{
    match value {
        serde_json::Value::Null => Json::Null,
        serde_json::Value::Bool(flag) => Json::Bool(flag),
        serde_json::Value::Number(number) => match (number.as_u64(), number.as_i64()) {
            (Some(n), _) => Json::Unsigned(n),
            (None, Some(n)) => Json::Negative(n),
            (None, None) => Json::Real(number.to_string()),
        },
        serde_json::Value::String(text) => Json::Text(text),
        serde_json::Value::Array(items) => Json::List(items.into_iter().map(from_value).collect()),
        serde_json::Value::Object(fields) => Json::Record(
            fields.into_iter().map(|(key, item)| (key, from_value(item))).collect(),
        ),
    }
}

/// The variants of `serde_json::Value`, one for one. `Number::from` and
/// `Map::from_iter` keep regular values as they are: an object built from distinct
/// keys keeps their order.
#[verifier::external_body]
fn to_value(value: &Json) -> (r: serde_json::Value)
    ensures
        value_model(r) == value_of(value@),
        regular(value@) ==> value_model(r) == value@,
{
    match value {
        Json::Null => serde_json::Value::Null,
        Json::Bool(flag) => serde_json::Value::Bool(*flag),
        Json::Unsigned(n) => serde_json::Value::from(*n),
        Json::Negative(n) => serde_json::Value::from(*n),
        Json::Real(text) => text.parse().map_or(serde_json::Value::Null, serde_json::Value::Number),
        Json::Text(text) => serde_json::Value::String(text.clone()),
        Json::List(items) => serde_json::Value::Array(items.iter().map(to_value).collect()),
        Json::Record(fields) => serde_json::Value::Object(
            fields.iter().map(|(key, item)| (key.clone(), to_value(item))).collect(),
        ),
    }
}

/// Reads a JSON text, or gives the reader's message.
pub fn parse_json(text: &str) -> (r: Result<Json, String>)
    ensures
        match r {
            Ok(value) => json_parse(text@) == read(value@),
            Err(message) => json_parse(text@) == unread(message@),
        },
{
    match parse_value(text) {
        Ok(value) => Ok(from_value(value)),
        Err(message) => Err(message),
    }
}

/// Prints a value without white space.
pub fn compact(value: &Json) -> (r: String)
    ensures
        r@ == json_compact(value_of(value@)),
        !r@.contains('\n'),
        regular(value@) ==> r@ == json_compact(value@),
        reads_back(value@) ==> json_parse(r@) == read(value@),
{
    let outside = to_value(value);
    print_value(&outside)
}

/// Prints a value over several lines.
pub fn pretty(value: &Json) -> (r: String)
    ensures
        r@ == json_pretty(value_of(value@)),
        regular(value@) ==> r@ == json_pretty(value@),
        reads_back(value@) ==> json_parse(r@.push('\n')) == read(value@),
{
    let outside = to_value(value);
    print_value_pretty(&outside)
}

/// The value of the last field with the given key.
pub open spec fn lookup(fields: Seq<(Seq<char>, JsonView)>, key: Seq<char>) -> Option<JsonView>
    decreases fields.len(),
{
    if fields.len() == 0 {
        None
    } else if fields.last().0 == key {
        Some(fields.last().1)
    } else {
        lookup(fields.drop_last(), key)
    }
}

/// The field of an object; nothing for any other value.
pub open spec fn field(value: JsonView, key: Seq<char>) -> Option<JsonView> {
    match value {
        JsonView::Record(fields) => lookup(fields, key),
        _ => None,
    }
}

pub open spec fn text_of(value: JsonView) -> Option<Seq<char>> {
    match value {
        JsonView::Text(text) => Some(text),
        _ => None,
    }
}

pub open spec fn unsigned_of(value: JsonView) -> Option<u64> {
    match value {
        JsonView::Unsigned(n) => Some(n),
        _ => None,
    }
}

pub open spec fn signed_of(value: JsonView) -> Option<i64> {
    match value {
        JsonView::Unsigned(n) => if n <= i64::MAX {
            Some(n as i64)
        } else {
            None
        },
        JsonView::Negative(n) => Some(n),
        _ => None,
    }
}

pub open spec fn flag_of(value: JsonView) -> Option<bool> {
    match value {
        JsonView::Bool(flag) => Some(flag),
        _ => None,
    }
}

/// The text in a field of an object.
pub open spec fn text_field(value: JsonView, key: Seq<char>) -> Option<Seq<char>> {
    match field(value, key) {
        Some(item) => text_of(item),
        None => None,
    }
}

/// The unsigned number in a field of an object.
pub open spec fn unsigned_field(value: JsonView, key: Seq<char>) -> Option<u64> {
    match field(value, key) {
        Some(item) => unsigned_of(item),
        None => None,
    }
}

/// The flag in a field of an object.
pub open spec fn flag_field(value: JsonView, key: Seq<char>) -> Option<bool> {
    match field(value, key) {
        Some(item) => flag_of(item),
        None => None,
    }
}

impl Json {
    pub fn get(&self, key: &str) -> (r: Option<&Json>)
        ensures
            r.deep_view() == field(self@, key@),
    {
        match self {
            Json::Record(fields) => {
                let ghost model = self@->Record_0;
                let mut i: usize = fields.len();
                assert(model.take(i as int) =~= model);
                while i > 0
                    invariant
                        i <= fields.len(),
                        self@ == JsonView::Record(model),
                        model.len() == fields.len(),
                        forall|j: int|
                            0 <= j < fields.len() ==> model[j] == (
                                fields@[j].0@,
                                json_view(fields@[j].1),
                            ),
                        lookup(model, key@) == lookup(model.take(i as int), key@),
                    decreases i,
                {
                    assert(model.take(i as int).last() == model[i - 1]);
                    assert(model.take(i as int).drop_last() =~= model.take(i - 1));
                    if same(fields[i - 1].0.as_str(), key) {
                        return Some(&fields[i - 1].1);
                    }
                    i -= 1;
                }
                None
            },
            _ => None,
        }
    }

    pub fn as_str(&self) -> (r: Option<&str>)
        ensures
            r.deep_view() == text_of(self@),
    {
        match self {
            Json::Text(text) => Some(text.as_str()),
            _ => None,
        }
    }

    pub fn as_u64(&self) -> (r: Option<u64>)
        ensures
            r == unsigned_of(self@),
    {
        match self {
            Json::Unsigned(n) => Some(*n),
            _ => None,
        }
    }

    pub fn as_i64(&self) -> (r: Option<i64>)
        ensures
            r == signed_of(self@),
    {
        match self {
            Json::Unsigned(n) => if *n <= 0x7fff_ffff_ffff_ffff {
                Some(*n as i64)
            } else {
                None
            },
            Json::Negative(n) => Some(*n),
            _ => None,
        }
    }

    pub fn as_bool(&self) -> (r: Option<bool>)
        ensures
            r == flag_of(self@),
    {
        match self {
            Json::Bool(flag) => Some(*flag),
            _ => None,
        }
    }

    pub fn text_at(&self, key: &str) -> (r: Option<&str>)
        ensures
            r.deep_view() == text_field(self@, key@),
    {
        match self.get(key) {
            Some(item) => item.as_str(),
            None => None,
        }
    }

    pub fn unsigned_at(&self, key: &str) -> (r: Option<u64>)
        ensures
            r == unsigned_field(self@, key@),
    {
        match self.get(key) {
            Some(item) => item.as_u64(),
            None => None,
        }
    }

    pub fn flag_at(&self, key: &str) -> (r: Option<bool>)
        ensures
            r == flag_field(self@, key@),
    {
        match self.get(key) {
            Some(item) => item.as_bool(),
            None => None,
        }
    }

    pub fn text(value: &str) -> (r: Json)
        ensures
            r@ == JsonView::Text(value@),
    {
        Json::Text(value.to_string())
    }
}

/// An optional text as JSON.
pub open spec fn option_text(value: Option<Seq<char>>) -> JsonView {
    match value {
        Some(text) => JsonView::Text(text),
        None => JsonView::Null,
    }
}

pub fn option_text_json(value: &Option<String>) -> (r: Json)
    ensures
        r@ == option_text(value.deep_view()),
{
    match value {
        Some(text) => Json::text(text.as_str()),
        None => Json::Null,
    }
}

/// A list of texts as JSON.
pub open spec fn text_list(items: Seq<Seq<char>>) -> JsonView {
    JsonView::List(Seq::new(items.len(), |i: int| JsonView::Text(items[i])))
}

pub fn text_list_json(items: &[String]) -> (r: Json)
    ensures
        r@ == text_list(items.deep_view()),
{
    let mut out: Vec<Json> = Vec::new();
    let mut i: usize = 0;
    while i < items.len()
        invariant
            i <= items.len(),
            out.len() == i,
            forall|j: int| 0 <= j < i ==> json_view(#[trigger] out@[j]) == JsonView::Text(items@[j]@),
        decreases items.len() - i,
    {
        out.push(Json::text(items[i].as_str()));
        i += 1;
    }
    let r = Json::List(out);
    assert(r@->List_0 =~= text_list(items.deep_view())->List_0);
    r
}

/// The fields of an object under construction, in order.
pub struct Fields {
    items: Vec<(String, Json)>,
}

impl View for Fields {
    type V = Seq<(Seq<char>, JsonView)>;

    closed spec fn view(&self) -> Seq<(Seq<char>, JsonView)> {
        Seq::new(self.items@.len(), |i: int| (self.items@[i].0@, json_view(self.items@[i].1)))
    }
}

impl Fields {
    pub fn new() -> (r: Fields)
        ensures
            r@ == Seq::<(Seq<char>, JsonView)>::empty(),
    {
        let r = Fields { items: Vec::new() };
        assert(r@ =~= Seq::<(Seq<char>, JsonView)>::empty());
        r
    }

    pub fn put(self, key: &str, value: Json) -> (r: Fields)
        ensures
            r@ == self@.push((key@, value@)),
    {
        let mut items = self.items;
        items.push((key.to_string(), value));
        let r = Fields { items };
        assert(r@ =~= self@.push((key@, value@)));
        r
    }

    pub fn done(self) -> (r: Json)
        ensures
            r@ == JsonView::Record(self@),
    {
        let r = Json::Record(self.items);
        assert(r@->Record_0 =~= self@);
        r
    }
}

/// A copy of a value.
pub fn copy_json(value: &Json) -> (r: Json)
    ensures
        r@ == value@,
    decreases value,
{
    match value {
        Json::Null => Json::Null,
        Json::Bool(flag) => Json::Bool(*flag),
        Json::Unsigned(n) => Json::Unsigned(*n),
        Json::Negative(n) => Json::Negative(*n),
        Json::Real(text) => Json::Real(text.clone()),
        Json::Text(text) => Json::Text(text.clone()),
        Json::List(items) => {
            let mut out: Vec<Json> = Vec::new();
            let mut i: usize = 0;
            while i < items.len()
                invariant
                    i <= items.len(),
                    out.len() == i,
                    value matches Json::List(inner) && inner == items,
                    forall|j: int| 0 <= j < i ==> json_view(#[trigger] out@[j]) == json_view(items@[j]),
                decreases items.len() - i,
            {
                assert(decreases_to!(value => items@[i as int]));
                out.push(copy_json(&items[i]));
                i += 1;
            }
            let r = Json::List(out);
            assert(r@->List_0 =~= value@->List_0);
            r
        },
        Json::Record(fields) => {
            let mut out: Vec<(String, Json)> = Vec::new();
            let mut i: usize = 0;
            while i < fields.len()
                invariant
                    i <= fields.len(),
                    out.len() == i,
                    value matches Json::Record(inner) && inner == fields,
                    forall|j: int|
                        0 <= j < i ==> (#[trigger] out@[j]).0@ == fields@[j].0@ && json_view(
                            out@[j].1,
                        ) == json_view(fields@[j].1),
                decreases fields.len() - i,
            {
                assert(decreases_to!(value => fields@[i as int].1));
                let item = copy_json(&fields[i].1);
                out.push((fields[i].0.clone(), item));
                i += 1;
            }
            let r = Json::Record(out);
            assert(r@->Record_0 =~= value@->Record_0);
            r
        },
    }
}

impl Clone for Json {
    fn clone(&self) -> (r: Self)
        ensures
            r@ == self@,
    {
        copy_json(self)
    }
}

/// Fields without the one of the given key.
pub open spec fn without_key(fields: Seq<(Seq<char>, JsonView)>, key: Seq<char>) -> Seq<
    (Seq<char>, JsonView),
>
    decreases fields.len(),
{
    if fields.len() == 0 {
        fields
    } else {
        let front = without_key(fields.drop_last(), key);
        if fields.last().0 == key {
            front
        } else {
            front.push(fields.last())
        }
    }
}

/// The fields of an object; none for any other value.
pub open spec fn fields_of(value: JsonView) -> Seq<(Seq<char>, JsonView)> {
    match value {
        JsonView::Record(fields) => fields,
        _ => no_fields(),
    }
}

/// An object with one field set; any other value counts as an empty object.
pub open spec fn with_field(value: JsonView, key: Seq<char>, item: JsonView) -> JsonView {
    JsonView::Record(without_key(fields_of(value), key).push((key, item)))
}

/// An object without one of its fields; any other value stays as it is.
pub open spec fn without_field(value: JsonView, key: Seq<char>) -> JsonView {
    match value {
        JsonView::Record(fields) => JsonView::Record(without_key(fields, key)),
        _ => value,
    }
}

/// The items of a list.
pub open spec fn items_of(value: JsonView) -> Option<Seq<JsonView>> {
    match value {
        JsonView::List(items) => Some(items),
        _ => None,
    }
}

/// The items in a field of an object.
pub open spec fn items_field(value: JsonView, key: Seq<char>) -> Option<Seq<JsonView>> {
    match field(value, key) {
        Some(item) => items_of(item),
        None => None,
    }
}

impl Json {
    fn fields_without(self, key: &str) -> (r: Fields)
        ensures
            r@ == without_key(fields_of(self@), key@),
    {
        let mut out = Fields::new();
        match self {
            Json::Record(fields) => {
                let ghost model = fields_of(self@);
                assert(model.take(0) =~= no_fields());
                for pair in it: fields
                    invariant
                        it.seq() == fields@,
                        model.len() == fields@.len(),
                        forall|j: int|
                            0 <= j < fields@.len() ==> #[trigger] model[j] == (
                                fields@[j].0@,
                                json_view(fields@[j].1),
                            ),
                        out@ == without_key(model.take(it.index() as int), key@),
                {
                    let ghost i = it.index() as int;
                    assert(model.take(i + 1).drop_last() =~= model.take(i));
                    assert(model.take(i + 1).last() == model[i]);
                    if !same(pair.0.as_str(), key) {
                        out = out.put(pair.0.as_str(), pair.1);
                    }
                }
                assert(model.take(model.len() as int) =~= model);
            },
            _ => {},
        }
        out
    }

    /// The object with one field set.
    pub fn with(self, key: &str, value: Json) -> (r: Json)
        ensures
            r@ == with_field(self@, key@, value@),
    {
        self.fields_without(key).put(key, value).done()
    }

    /// The object without one of its fields.
    pub fn without(self, key: &str) -> (r: Json)
        ensures
            r@ == without_field(self@, key@),
    {
        match self {
            Json::Record(_) => self.fields_without(key).done(),
            other => other,
        }
    }

    pub fn as_list(&self) -> (r: Option<&Vec<Json>>)
        ensures
            r.deep_view() == items_of(self@),
    {
        match self {
            Json::List(items) => {
                assert(items.deep_view() =~= self@->List_0);
                Some(items)
            },
            _ => None,
        }
    }

    pub fn is_record(&self) -> (r: bool)
        ensures
            r == (self@ is Record),
    {
        match self {
            Json::Record(_) => true,
            _ => false,
        }
    }

    /// A list of values.
    pub fn list(items: Vec<Json>) -> (r: Json)
        ensures
            r@ == JsonView::List(items.deep_view()),
    {
        let r = Json::List(items);
        assert(r@->List_0 =~= items.deep_view());
        r
    }
}

proof fn lemma_lookup_without(fields: Seq<(Seq<char>, JsonView)>, key: Seq<char>, other: Seq<char>)
    ensures
        lookup(without_key(fields, key), other) == (if key == other {
            None
        } else {
            lookup(fields, other)
        }),
    decreases fields.len(),
{
    if fields.len() > 0 {
        lemma_lookup_without(fields.drop_last(), key, other);
        let front = without_key(fields.drop_last(), key);
        if fields.last().0 != key {
            assert(front.push(fields.last()).drop_last() =~= front);
        }
    }
}

/// A field that was set is the one that is read, and the others are as they were.
pub proof fn lemma_field_set(value: JsonView, key: Seq<char>, item: JsonView, other: Seq<char>)
    ensures
        field(with_field(value, key, item), other) == (if other == key {
            Some(item)
        } else {
            lookup(fields_of(value), other)
        }),
{
    let rest = without_key(fields_of(value), key);
    lemma_lookup_without(fields_of(value), key, other);
    assert(rest.push((key, item)).drop_last() =~= rest);
}

/// A field that is taken away is gone, and every other one stays.
pub proof fn lemma_field_gone(value: JsonView, key: Seq<char>, other: Seq<char>)
    requires
        value is Record,
    ensures
        without_field(value, key) is Record,
        field(without_field(value, key), other) == (if key == other {
            None
        } else {
            field(value, other)
        }),
{
    lemma_lookup_without(fields_of(value), key, other);
}

/// A field is found under its own key, where no two keys are the same.
pub proof fn lemma_field_at(fields: Seq<(Seq<char>, JsonView)>, i: int)
    requires
        distinct_keys(fields),
        0 <= i < fields.len(),
    ensures
        lookup(fields, fields[i].0) == Some(fields[i].1),
    decreases fields.len(),
{
    if i < fields.len() - 1 {
        assert(fields.drop_last()[i] == fields[i]);
        lemma_field_at(fields.drop_last(), i);
    }
}

} // verus!
