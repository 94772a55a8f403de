//! JSON documents: the tree that requests are built from and replies are read
//! into.

use serde_json::Value;
use vstd::prelude::*;
use vstd::string::*;
use crate::text;

verus! {

/// What a JSON document says, over mathematical sequences.
pub enum JsonView {
    Null,
    Bool(bool),
    /// A number, by its decimal text.
    Number(Seq<char>),
    Text(Seq<char>),
    Array(Seq<JsonView>),
    /// The members in the order in which the document is walked.
    Object(Seq<(Seq<char>, JsonView)>),
}

/// A JSON document.
#[derive(Debug, PartialEq)]
pub enum Json {
    Null,
    Bool(bool),
    /// A number, by its decimal text.
    Number(String),
    Text(String),
    Array(Vec<Json>),
    /// The members in the order in which the document is walked.
    Object(Vec<(String, Json)>),
}

/// What the document `j` says.
pub open spec fn json_view(j: Json) -> JsonView
    decreases j,
{
    match j {
        Json::Null => JsonView::Null,
        Json::Bool(b) => JsonView::Bool(b),
        Json::Number(n) => JsonView::Number(n@),
        Json::Text(t) => JsonView::Text(t@),
        Json::Array(items) => JsonView::Array(
            Seq::new(
                items@.len(),
                |i: int|
                    if 0 <= i < items@.len() {
                        json_view(items@[i])
                    } else {
                        JsonView::Null
                    },
            ),
        ),
        Json::Object(fields) => JsonView::Object(
            Seq::new(
                fields@.len(),
                |i: int|
                    if 0 <= i < fields@.len() {
                        (fields@[i].0@, json_view(fields@[i].1))
                    } else {
                        (Seq::empty(), JsonView::Null)
                    },
            ),
        ),
    }
}

impl View for Json {
    type V = JsonView;

    open spec fn view(&self) -> JsonView {
        json_view(*self)
    }
}

/// `serde_json::Value`, a parsed document.
#[verifier::external_type_specification]
#[verifier::external_body]
pub struct ExValue(serde_json::Value);

/// What a `serde_json::Value` holds.
pub uninterp spec fn held_json(v: serde_json::Value) -> JsonView;

/// What `serde_json` reads `text` as: the document, or its words on why there
/// is none.
pub uninterp spec fn parsed_json(text: Seq<char>) -> Result<JsonView, Seq<char>>;

/// A reading that gave a `serde_json::Value` or a message, over views.
pub open spec fn value_outcome(r: Result<Value, String>) -> Result<JsonView, Seq<char>> {
    match r {
        Ok(v) => Ok(held_json(v)),
        Err(e) => Err(e@),
    }
}

/// A reading that gave a document or a message, over views.
pub open spec fn json_outcome(r: Result<Json, String>) -> Result<JsonView, Seq<char>> {
    match r {
        Ok(j) => Ok(j@),
        Err(e) => Err(e@),
    }
}

/// The outermost layer of a parsed document.
pub enum JsonLayer {
    Null,
    Bool(bool),
    Number(String),
    Text(String),
    Items(Vec<Value>),
    Fields(Vec<(String, Value)>),
}

/// What a document says whose outermost layer is `l`.
pub open spec fn layer_view(l: JsonLayer) -> JsonView {
    match l {
        JsonLayer::Null => JsonView::Null,
        JsonLayer::Bool(b) => JsonView::Bool(b),
        JsonLayer::Number(n) => JsonView::Number(n@),
        JsonLayer::Text(t) => JsonView::Text(t@),
        JsonLayer::Items(items) => JsonView::Array(items@.map_values(|v: Value| held_json(v))),
        JsonLayer::Fields(fields) => JsonView::Object(
            fields@.map_values(|f: (String, Value)| (f.0@, held_json(f.1))),
        ),
    }
}

/// Calls `serde_json::from_str` for a `serde_json::Value`. Trusted: the outcome
/// depends on the text alone. The value holds what `parsed_json` names; an
/// error comes back as its message.
#[verifier::external_body]
fn parse_value(body: &str) -> (r: Result<Value, String>)
    ensures
        value_outcome(r) == parsed_json(body@),
{
    serde_json::from_str::<Value>(body).map_err(|e| e.to_string())
}

/// Takes a `serde_json::Value` apart by its variant, as `match` does. Trusted:
/// the layer holds what the value held, a number by its `to_string` and the
/// members of an object in the order of `Map::into_iter`.
#[verifier::external_body]
fn open_value(value: Value) -> (l: JsonLayer)
    ensures
        layer_view(l) == held_json(value),
{
    match value {
        Value::Null => JsonLayer::Null,
        Value::Bool(b) => JsonLayer::Bool(b),
        Value::Number(n) => JsonLayer::Number(n.to_string()),
        Value::String(t) => JsonLayer::Text(t),
        Value::Array(items) => JsonLayer::Items(items),
        Value::Object(map) => JsonLayer::Fields(map.into_iter().collect()),
    }
}

/// The document that a `serde_json::Value` holds.
fn json_from_value(value: Value) -> (j: Json)
    ensures
        j@ == held_json(value),
    decreases held_json(value),
{
    match open_value(value) {
        JsonLayer::Null => Json::Null,
        JsonLayer::Bool(b) => Json::Bool(b),
        JsonLayer::Number(n) => Json::Number(n),
        JsonLayer::Text(t) => Json::Text(t),
        JsonLayer::Items(items) => {
            let ghost held = items@.map_values(|v: Value| held_json(v));
            let mut out: Vec<Json> = Vec::new();
            for v in it: items
                invariant
                    held_json(value) == JsonView::Array(held),
                    held == it.seq().map_values(|v: Value| held_json(v)),
                    out@.len() == it.index(),
                    forall|i: int| 0 <= i < out@.len() ==> json_view(#[trigger] out@[i]) == held[i],
            {
                assert(held[it.index() as int] == held_json(v));
                assert(decreases_to!(
                    held_json(value) => held_json(value)->Array_0[it.index() as int]
                ));
                out.push(json_from_value(v));
            }
            let j = Json::Array(out);
            assert(json_view(j)->Array_0 =~= held);
            j
        },
        JsonLayer::Fields(fields) => {
            let ghost held = fields@.map_values(|f: (String, Value)| (f.0@, held_json(f.1)));
            let mut out: Vec<(String, Json)> = Vec::new();
            for f in it: fields
                invariant
                    held_json(value) == JsonView::Object(held),
                    held == it.seq().map_values(|f: (String, Value)| (f.0@, held_json(f.1))),
                    out@.len() == it.index(),
                    forall|i: int|
                        0 <= i < out@.len() ==> ((#[trigger] out@[i]).0@, json_view(out@[i].1))
                            == held[i],
            {
                assert(held[it.index() as int] == (f.0@, held_json(f.1)));
                assert(decreases_to!(
                    held_json(value) => held_json(value)->Object_0[it.index() as int].1
                ));
                let (key, v) = f;
                out.push((key, json_from_value(v)));
            }
            let j = Json::Object(out);
            assert(json_view(j)->Object_0 =~= held);
            j
        },
    }
}

/// Reads `body` as a JSON document.
pub fn parse_json(body: &str) -> (r: Result<Json, String>)
    ensures
        json_outcome(r) == parsed_json(body@),
{
    match parse_value(body) {
        Ok(v) => Ok(json_from_value(v)),
        Err(e) => Err(e),
    }
}

/// The first member of `fields` under `key`.
pub open spec fn member(fields: Seq<(Seq<char>, JsonView)>, key: Seq<char>) -> Option<JsonView>
    decreases fields.len(),
{
    if fields.len() == 0 {
        None
    } else if fields[0].0 == key {
        Some(fields[0].1)
    } else {
        member(fields.drop_first(), key)
    }
}

/// What `j` holds under `key`; nothing where `j` is no object.
pub open spec fn child(j: JsonView, key: Seq<char>) -> Option<JsonView> {
    match j {
        JsonView::Object(fields) => member(fields, key),
        _ => None,
    }
}

/// The text that `j` is, if it is one.
pub open spec fn text_of(j: Option<JsonView>) -> Option<Seq<char>> {
    match j {
        Some(JsonView::Text(t)) => Some(t),
        _ => None,
    }
}

/// The members `fields`, over views.
pub open spec fn fields_view(fields: Seq<(String, Json)>) -> Seq<(Seq<char>, JsonView)> {
    fields.map_values(|f: (String, Json)| (f.0@, json_view(f.1)))
}

/// The documents `items`, over views.
pub open spec fn items_view(items: Seq<Json>) -> Seq<JsonView> {
    items.map_values(|j: Json| json_view(j))
}

/// What `j` holds under `key`; nothing where `j` is no object.
pub fn get<'a>(j: &'a Json, key: &str) -> (r: Option<&'a Json>)
    ensures
        (match r {
            Some(v) => Some(v@),
            None => None,
        }) == child(j@, key@),
{
    match j {
        Json::Object(fields) => {
            let ghost all = fields_view(fields@);
            assert(json_view(*j)->Object_0 =~= all);
            assert(all.skip(0) =~= all);
            let mut i: usize = 0;
            while i < fields.len()
                invariant
                    i <= fields@.len(),
                    all == fields_view(fields@),
                    child(j@, key@) == member(all, key@),
                    member(all, key@) == member(all.skip(i as int), key@),
                decreases fields@.len() - i,
            {
                assert(all.skip(i as int).drop_first() =~= all.skip(i + 1));
                if text::same_text(fields[i].0.as_str(), key) {
                    return Some(&fields[i].1);
                }
                i = i + 1;
            }
            None
        },
        _ => None,
    }
}

/// The text that `j` is, if it is one.
pub fn as_text<'a>(j: Option<&'a Json>) -> (r: Option<&'a String>)
    ensures
        (match r {
            Some(t) => Some(t@),
            None => None,
        }) == text_of(
            match j {
                Some(v) => Some(v@),
                None => None,
            },
        ),
{
    match j {
        Some(Json::Text(t)) => Some(t),
        _ => None,
    }
}

/// The document that is the text `t`.
pub fn text_json(t: &str) -> (j: Json)
    ensures
        j@ == JsonView::Text(t@),
{
    Json::Text(t.to_owned())
}

/// The document that lists `items`.
pub fn array_json(items: Vec<Json>) -> (j: Json)
    ensures
        j@ == JsonView::Array(items_view(items@)),
{
    let j = Json::Array(items);
    assert(json_view(j)->Array_0 =~= items_view(items@));
    j
}

/// The document that lists the texts `texts`.
pub fn texts_json(texts: &Vec<String>) -> (j: Json)
    ensures
        j@ == JsonView::Array(texts@.map_values(|t: String| JsonView::Text(t@))),
{
    let mut items: Vec<Json> = Vec::new();
    let mut i: usize = 0;
    while i < texts.len()
        invariant
            i <= texts@.len(),
            items_view(items@) =~= texts@.take(i as int).map_values(
                |t: String| JsonView::Text(t@),
            ),
        decreases texts@.len() - i,
    {
        let ghost before = items@;
        items.push(text_json(texts[i].as_str()));
        assert(items_view(items@) =~= items_view(before).push(JsonView::Text(texts@[i as int]@)));
        i = i + 1;
    }
    assert(texts@.take(i as int) =~= texts@);
    array_json(items)
}

/// An object under construction: its members so far, in order.
pub struct ObjectBuilder {
    fields: Vec<(String, Json)>,
}

impl View for ObjectBuilder {
    type V = Seq<(Seq<char>, JsonView)>;

    closed spec fn view(&self) -> Seq<(Seq<char>, JsonView)> {
        fields_view(self.fields@)
    }
}

impl ObjectBuilder {
    /// An object without members.
    pub fn new() -> (b: ObjectBuilder)
        ensures
            b@ == Seq::<(Seq<char>, JsonView)>::empty(),
    {
        let b = ObjectBuilder { fields: Vec::new() };
        assert(b@ =~= Seq::<(Seq<char>, JsonView)>::empty());
        b
    }

    /// Adds the member `key` behind the others.
    pub fn put(&mut self, key: &str, value: Json)
        ensures
            final(self)@ == old(self)@.push((key@, value@)),
    {
        let ghost before = self.fields@;
        self.fields.push((key.to_owned(), value));
        assert(fields_view(self.fields@) =~= fields_view(before).push((key@, value@)));
    }

    /// The object as a document.
    pub fn build(self) -> (j: Json)
        ensures
            j@ == JsonView::Object(self@),
    {
        let j = Json::Object(self.fields);
        assert(json_view(j)->Object_0 =~= fields_view(self.fields@));
        j
    }
}

/// Under a key an object holds the first member of that name, and nothing where
/// no member has it; what is no object holds nothing.
pub proof fn members_are_found_by_name(fields: Seq<(Seq<char>, JsonView)>, i: int)
    requires
        0 <= i < fields.len(),
        forall|j: int| 0 <= j < i ==> (#[trigger] fields[j]).0 != fields[i].0,
    ensures
        child(JsonView::Object(fields), fields[i].0) == Some(fields[i].1),
    decreases i,
{
    if i > 0 {
        assert(fields[0].0 != fields[i].0);
        let rest = fields.drop_first();
        assert(rest[i - 1] == fields[i]);
        assert forall|j: int| 0 <= j < i - 1 implies (#[trigger] rest[j]).0 != rest[i - 1].0 by {
            assert(rest[j] == fields[j + 1]);
        }
        members_are_found_by_name(rest, i - 1);
    }
}

/// A key that no member has leads to nothing.
pub proof fn missing_members_are_nothing(fields: Seq<(Seq<char>, JsonView)>, key: Seq<char>)
    requires
        forall|j: int| 0 <= j < fields.len() ==> (#[trigger] fields[j]).0 != key,
    ensures
        child(JsonView::Object(fields), key) is None,
    decreases fields.len(),
{
    if fields.len() > 0 {
        assert(fields[0].0 != key);
        let rest = fields.drop_first();
        assert forall|j: int| 0 <= j < rest.len() implies (#[trigger] rest[j]).0 != key by {
            assert(rest[j] == fields[j + 1]);
        }
        missing_members_are_nothing(rest, key);
    }
}

}
