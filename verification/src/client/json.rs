//! JSON documents, as `serde_json` reads them.

use vstd::prelude::*;

verus! {

/// A JSON document as a tree of plain values. Numbers are told apart from
/// the other kinds; their values are not looked at.
pub enum JsonTree {
    Null,
    Bool(bool),
    Number,
    Text(Seq<char>),
    List(Seq<JsonTree>),
    Dict(Map<Seq<char>, JsonTree>),
}

impl JsonTree {
    /// The member under `key`. Where there is none, or this is no object, the
    /// result is `Null`.
    pub open spec fn member(self, key: Seq<char>) -> JsonTree {
        match self {
            JsonTree::Dict(entries) => if entries.contains_key(key) {
                entries[key]
            } else {
                JsonTree::Null
            },
            _ => JsonTree::Null,
        }
    }

    /// The element at `index`. Where there is none, or this is no array, the
    /// result is `Null`.
    pub open spec fn element(self, index: int) -> JsonTree {
        match self {
            JsonTree::List(items) => if 0 <= index < items.len() {
                items[index]
            } else {
                JsonTree::Null
            },
            _ => JsonTree::Null,
        }
    }

    /// The string that this is, if it is one.
    pub open spec fn text(self) -> Option<Seq<char>> {
        match self {
            JsonTree::Text(text) => Some(text),
            _ => None,
        }
    }
}

/// A parsed document of `serde_json`. It is carried around and looked into
/// through the functions below.
#[verifier::external_type_specification]
#[verifier::external_body]
pub struct ExValue(serde_json::Value);

/// The error of `serde_json`.
#[verifier::external_type_specification]
#[verifier::external_body]
pub struct ExJsonError(serde_json::Error);

/// What a parsed document holds.
pub uninterp spec fn json_tree(value: serde_json::Value) -> JsonTree;

/// The document that a text is read as, or `None` where the text is no JSON
/// document.
pub uninterp spec fn parsed_json(text: Seq<char>) -> Option<JsonTree>;

/// Calls `serde_json::from_str` for a `Value`. Whether the text is read, and
/// as which document, depends on the text alone.
#[verifier::external_body]
pub(crate) fn parse_json(text: &str) -> (result: Result<serde_json::Value, serde_json::Error>)
    ensures
        match result {
            Ok(value) => parsed_json(text@) == Some(json_tree(value)),
            Err(_) => parsed_json(text@) is None,
        },
{
    serde_json::from_str(text)
}

/// Indexes a `Value` with a string, as `value[key]` does: the member under
/// `key` of an object, and `Null` where there is no such member or the value
/// is no object.
#[verifier::external_body]
pub(crate) fn json_member<'a>(value: &'a serde_json::Value, key: &str) -> (member:
    &'a serde_json::Value)
    ensures
        json_tree(*member) == json_tree(*value).member(key@),
{
    &value[key]
}

/// Indexes a `Value` with a number, as `value[index]` does: the element at
/// `index` of an array, and `Null` where the index is out of bounds or the
/// value is no array.
#[verifier::external_body]
pub(crate) fn json_element<'a>(value: &'a serde_json::Value, index: usize) -> (element:
    &'a serde_json::Value)
    ensures
        json_tree(*element) == json_tree(*value).element(index as int),
{
    &value[index]
}

/// Calls `Value::as_str`: the string of a string value, `None` for any other.
#[verifier::external_body]
pub(crate) fn json_text<'a>(value: &'a serde_json::Value) -> (text: Option<&'a str>)
    ensures
        match text {
            Some(s) => json_tree(*value).text() == Some(s@),
            None => json_tree(*value).text() is None,
        },
{
    value.as_str()
}

/// The object that a list of keys with their members makes up.
pub open spec fn dict_of(entries: Seq<(String, serde_json::Value)>) -> Map<Seq<char>, JsonTree>
    decreases entries.len(),
{
    if entries.len() == 0 {
        Map::empty()
    } else {
        dict_of(entries.drop_last()).insert(entries.last().0@, json_tree(entries.last().1))
    }
}

/// True when no key occurs twice.
pub open spec fn distinct_keys(entries: Seq<(String, serde_json::Value)>) -> bool {
    forall|i: int, j: int| 0 <= i < j < entries.len() ==> entries[i].0@ != entries[j].0@
}

/// Makes a string value, as `Value::from` does for a string slice.
#[verifier::external_body]
pub(crate) fn json_string(text: &str) -> (value: serde_json::Value)
    ensures
        json_tree(value) == JsonTree::Text(text@),
{
    serde_json::Value::from(text)
}

/// Makes an object value by collecting keys with their members into a `Map`
/// of `serde_json`. Where no key occurs twice the object holds each member
/// under its key and nothing else.
#[verifier::external_body]
pub(crate) fn json_object(entries: Vec<(String, serde_json::Value)>) -> (value: serde_json::Value)
    ensures
        distinct_keys(entries@) ==> json_tree(value) == JsonTree::Dict(dict_of(entries@)),
{
    serde_json::Value::Object(entries.into_iter().collect())
}

/// The message of a `serde_json::Error`, through its `Display`.
#[verifier::external_body]
pub(crate) fn json_error_text(error: &serde_json::Error) -> (details: String) {
    error.to_string()
}

/// A `Value` written out as JSON text, through its `Display`.
#[verifier::external_body]
pub(crate) fn json_display(value: &serde_json::Value) -> (text: String) {
    value.to_string()
}

} // verus!
