//! JSON documents: what a `serde_json::Value` holds, and the calls that build, read and print one.

use crate::text;
use vstd::prelude::*;

verus! {

/// What a JSON document is.
#[verifier::ext_equal]
pub enum JsonView {
    Null,
    Bool(bool),
    /// A number that `serde_json` keeps as an integer.
    Integer(int),
    /// Any other number, as the bits of its double.
    Float(u64),
    Text(Seq<char>),
    Array(Seq<JsonView>),
    Object(Map<Seq<char>, JsonView>),
}

/// The member of an object under a key; nothing else has members.
pub open spec fn member(doc: JsonView, key: Seq<char>) -> Option<JsonView> {
    match doc {
        JsonView::Object(fields) => if fields.contains_key(key) {
            Some(fields[key])
        } else {
            None
        },
        _ => None,
    }
}

/// The object without members.
pub open spec fn empty_object() -> JsonView {
    JsonView::Object(no_members())
}

/// No members at all.
pub open spec fn no_members() -> Map<Seq<char>, JsonView> {
    Map::empty()
}

/// An array of texts.
pub open spec fn text_array(items: Seq<Seq<char>>) -> JsonView {
    JsonView::Array(Seq::new(items.len(), |i: int| JsonView::Text(items[i])))
}

/// A text, or null where there is none.
pub open spec fn optional_text(text: Option<Seq<char>>) -> JsonView {
    match text {
        Some(t) => JsonView::Text(t),
        None => JsonView::Null,
    }
}

/// The key that `serde_json` keeps for raw text: an object that starts with it is read as what the
/// text under it holds.
pub open spec fn reserved_key() -> Seq<char> {
    "$serde_json::private::RawValue"@
}

/// Whether the reserved key is the first of an object's keys, in the order of texts.
pub open spec fn starts_with_reserved_key(fields: Map<Seq<char>, JsonView>) -> bool {
    &&& fields.contains_key(reserved_key())
    &&& forall|key: Seq<char>| #[trigger] fields.contains_key(key) ==> text::text_le(reserved_key(), key)
}

/// Documents that are read back as they were written: without doubles, which may lose their last
/// bit, without objects that start with the reserved key, and nested no deeper than the depth.
pub open spec fn reads_back(doc: JsonView, depth: nat) -> bool
    decreases depth,
{
    match doc {
        JsonView::Float(_) => false,
        JsonView::Array(items) => depth > 0 && forall|i: int|
            0 <= i < items.len() ==> reads_back(#[trigger] items[i], (depth - 1) as nat),
        JsonView::Object(fields) => depth > 0 && !starts_with_reserved_key(fields) && forall|key: Seq<char>| #[trigger]
            fields.contains_key(key) ==> reads_back(fields[key], (depth - 1) as nat),
        _ => true,
    }
}

/// How deep a document may be nested for `serde_json::from_str` to read it.
pub open spec fn depth_limit() -> nat {
    127
}

/// A text from which `serde_json::from_str` reads the document.
pub open spec fn parses_to(text: Seq<char>, doc: JsonView) -> bool {
    json_parsed(text) matches Ok(parsed) && parsed == doc
}

/// The documents that a list of values holds.
pub open spec fn documents(items: Seq<serde_json::Value>) -> Seq<JsonView> {
    Seq::new(items.len(), |i: int| document(items[i]))
}

/// A JSON value of `serde_json`.
#[verifier::external_type_specification]
#[verifier::external_body]
pub struct ExValue(serde_json::Value);

/// The members of a JSON object of `serde_json`.
#[verifier::external_type_specification]
#[verifier::external_body]
#[verifier::reject_recursive_types(K)]
#[verifier::reject_recursive_types(V)]
pub struct ExMap<K, V>(serde_json::Map<K, V>);

/// An error of `serde_json`.
#[verifier::external_type_specification]
#[verifier::external_body]
pub struct ExError(serde_json::Error);

/// The document that a `serde_json::Value` holds.
pub uninterp spec fn document(value: serde_json::Value) -> JsonView;

/// The members that a `serde_json::Map` holds.
pub uninterp spec fn members(map: serde_json::Map<String, serde_json::Value>) -> Map<Seq<char>, JsonView>;

/// The text that `serde_json::to_string` writes for a document.
pub uninterp spec fn json_text(doc: JsonView) -> Seq<char>;

/// What `serde_json::from_str` reads from a text: a document, or the text of the error.
pub uninterp spec fn json_parsed(text: Seq<char>) -> Result<JsonView, Seq<char>>;

/// The text that a `serde_json::Error` displays.
pub uninterp spec fn error_text(error: serde_json::Error) -> Seq<char>;

/// The variant `serde_json::Value::Null`.
#[verifier::external_body]
pub(crate) fn null_value() -> (r: serde_json::Value)
    ensures
        document(r) == JsonView::Null,
{
    serde_json::Value::Null
}

/// The variant `serde_json::Value::Bool`: the document of the truth value handed in.
#[verifier::external_body]
pub(crate) fn bool_value(b: bool) -> (r: serde_json::Value)
    ensures
        document(r) == JsonView::Bool(b),
{
    serde_json::Value::Bool(b)
}

/// Calls `<serde_json::Value as From<u64>>::from`: the integer handed in, as a document.
#[verifier::external_body]
pub(crate) fn number_value(n: u64) -> (r: serde_json::Value)
    ensures
        document(r) == JsonView::Integer(n as int),
{
    serde_json::Value::from(n)
}

/// The variant `serde_json::Value::String`: the document of the text handed in.
#[verifier::external_body]
pub(crate) fn string_value(s: String) -> (r: serde_json::Value)
    ensures
        document(r) == JsonView::Text(s@),
{
    serde_json::Value::String(s)
}

/// The variant `serde_json::Value::Array`: the documents handed in, in their order.
#[verifier::external_body]
pub(crate) fn array_value(items: Vec<serde_json::Value>) -> (r: serde_json::Value)
    ensures
        document(r) == JsonView::Array(documents(items@)),
{
    serde_json::Value::Array(items)
}

/// The variant `serde_json::Value::Object`: an object with the members of the map.
#[verifier::external_body]
pub(crate) fn object_value(map: serde_json::Map<String, serde_json::Value>) -> (r: serde_json::Value)
    ensures
        document(r) == JsonView::Object(members(map)),
{
    serde_json::Value::Object(map)
}

/// Calls `serde_json::Map::new`: a map without members.
#[verifier::external_body]
pub(crate) fn new_map() -> (r: serde_json::Map<String, serde_json::Value>)
    ensures
        members(r) == no_members(),
{
    serde_json::Map::new()
}

/// Calls `serde_json::Map::insert`: the value is then the member under the key, and every other
/// member stays.
#[verifier::external_body]
pub(crate) fn insert_member(
    map: &mut serde_json::Map<String, serde_json::Value>,
    key: String,
    value: serde_json::Value,
)
    ensures
        members(*final(map)) == members(*old(map)).insert(key@, document(value)),
{
    map.insert(key, value);
}

/// Calls `serde_json::Value::get` with a text: the member of an object under that key, and nothing
/// of any other document.
#[verifier::external_body]
pub(crate) fn get_member<'a>(value: &'a serde_json::Value, key: &str) -> (r: Option<&'a serde_json::Value>)
    ensures
        match r {
            Some(found) => member(document(*value), key@) == Some(document(*found)),
            None => member(document(*value), key@) is None,
        },
{
    value.get(key)
}

/// Cloning a `serde_json::Value` gives a value with the same document.
pub assume_specification[ <serde_json::Value as Clone>::clone ](value: &serde_json::Value) -> (r: serde_json::Value)
    ensures
        document(r) == document(*value),
;

/// Calls `serde_json::to_string`. A `Value` has text keys only and no part of it refuses to be
/// written, so the call succeeds; its text is named, and holds no line feed: the compact form puts
/// none between the parts and writes those inside texts as escapes. The text starts and ends with a
/// bracket, a quote, a letter, a digit or a sign, never with white space. What `serde_json::from_str`
/// reads from the text is the document, where `reads_back` holds of it; of other documents the
/// contract says nothing.
#[verifier::external_body]
pub(crate) fn to_text(value: &serde_json::Value) -> (r: Result<String, serde_json::Error>)
    ensures
        r is Ok,
        r->Ok_0@ == json_text(document(*value)),
        !r->Ok_0@.contains('\n'),
        r->Ok_0@.len() > 0,
        !text::white_space(r->Ok_0@[0]),
        !text::white_space(r->Ok_0@.last()),
        reads_back(document(*value), depth_limit()) ==> parses_to(r->Ok_0@, document(*value)),
{
    serde_json::to_string(value)
}

/// Calls `serde_json::from_str` for a `Value`. Which document a text gives, or which error, is
/// named and not said.
#[verifier::external_body]
pub(crate) fn parse_text(s: &str) -> (r: Result<serde_json::Value, serde_json::Error>)
    ensures
        match r {
            Ok(value) => json_parsed(s@) matches Ok(doc) && doc == document(value),
            Err(error) => json_parsed(s@) matches Err(message) && message == error_text(error),
        },
{
    serde_json::from_str(s)
}

/// Calls `to_string` on a `serde_json::Error`: the text that the error displays, named.
#[verifier::external_body]
pub(crate) fn error_message(error: &serde_json::Error) -> (r: String)
    ensures
        r@ == error_text(*error),
{
    error.to_string()
}

/// Writes a document out.
pub(crate) fn written(value: &serde_json::Value) -> (r: String)
    ensures
        r@ == json_text(document(*value)),
{
    match to_text(value) {
        Ok(text) => text,
        Err(error) => error_message(&error),
    }
}

/// Puts a member under a key that is written out.
pub(crate) fn put(map: &mut serde_json::Map<String, serde_json::Value>, key: &str, value: serde_json::Value)
    ensures
        members(*final(map)) == members(*old(map)).insert(key@, document(value)),
{
    insert_member(map, key.to_owned(), value);
}

/// The document of a text.
pub(crate) fn text_value(s: &str) -> (r: serde_json::Value)
    ensures
        document(r) == JsonView::Text(s@),
{
    string_value(s.to_owned())
}

/// The document of a count.
pub(crate) fn count_value(n: usize) -> (r: serde_json::Value)
    ensures
        document(r) == JsonView::Integer(n as int),
{
    number_value(n as u64)
}

/// The document of a list of texts.
pub(crate) fn text_array_value(items: &Vec<String>) -> (r: serde_json::Value)
    ensures
        document(r) == text_array(text::texts(items@)),
{
    let mut values: Vec<serde_json::Value> = Vec::new();
    let mut i: usize = 0;
    while i < items.len()
        invariant
            i <= items.len(),
            values@.len() == i,
            forall|j: int| 0 <= j < i ==> document(#[trigger] values@[j]) == JsonView::Text(items@[j]@),
        decreases items.len() - i,
    {
        values.push(text_value(items[i].as_str()));
        i = i + 1;
    }
    assert(documents(values@) =~= text_array(text::texts(items@))->Array_0);
    array_value(values)
}

/// The object without members.
pub(crate) fn empty_object_value() -> (r: serde_json::Value)
    ensures
        document(r) == empty_object(),
{
    object_value(new_map())
}

/// An array of texts has each text in its place, and nothing else; an empty object has no member;
/// a text that is not there is null.
pub proof fn documents_of_texts_hold_them(items: Seq<Seq<char>>, text: Seq<char>)
    ensures
        text_array(items) matches JsonView::Array(docs) && docs.len() == items.len() && forall|i: int|
            0 <= i < items.len() ==> #[trigger] docs[i] == JsonView::Text(items[i]),
        empty_object() is Object,
        member(empty_object(), text) is None,
        optional_text(Some(text)) == JsonView::Text(text),
        optional_text(None) == JsonView::Null,
{
}

/// A list of values holds their documents: as many, in the same places.
pub proof fn lists_hold_their_documents(items: Seq<serde_json::Value>)
    ensures
        documents(items).len() == items.len(),
        forall|i: int| 0 <= i < items.len() ==> #[trigger] documents(items)[i] == document(items[i]),
{
}

} // verus!
