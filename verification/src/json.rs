use serde_json::Value;
use vstd::prelude::*;

verus! {

/// A JSON document as contracts see it.
pub enum Json {
    Null,
    Bool(bool),
    /// A number, by the text that writes it.
    Number(Seq<char>),
    String(Seq<char>),
    Array(Seq<Json>),
    /// The members of an object, in the order in which the object holds them.
    Object(Seq<(Seq<char>, Json)>),
}

/// The value of the first of `entries` whose key is `key`.
pub open spec fn entry_value(entries: Seq<(Seq<char>, Json)>, key: Seq<char>) -> Option<Json>
    decreases entries.len(),
{
    if entries.len() == 0 {
        None
    } else if entries[0].0 == key {
        Some(entries[0].1)
    } else {
        entry_value(entries.skip(1), key)
    }
}

impl Json {
    /// The member `key` of an object; `None` for what is no object or has no
    /// such member.
    pub open spec fn member(self, key: Seq<char>) -> Option<Json> {
        match self {
            Json::Object(entries) => entry_value(entries, key),
            _ => None,
        }
    }

    /// The element at `index` of an array; `None` for what is no array or is
    /// shorter.
    pub open spec fn element(self, index: int) -> Option<Json> {
        match self {
            Json::Array(items) => if 0 <= index < items.len() {
                Some(items[index])
            } else {
                None
            },
            _ => None,
        }
    }

    /// The text of a string; `None` for anything else.
    pub open spec fn text(self) -> Option<Seq<char>> {
        match self {
            Json::String(text) => Some(text),
            _ => None,
        }
    }
}

/// `a` comes before `b` in the order of `String`: character by character, a
/// proper prefix first.
pub open spec fn text_before(a: Seq<char>, b: Seq<char>) -> bool {
    exists|k: int|
        0 <= k <= a.len() && k < b.len() && #[trigger] a.take(k) == b.take(k) && (k == a.len() || (
        a[k] as u32) < (b[k] as u32))
}

/// The keys of `entries` rise strictly from each entry to the next.
pub open spec fn keys_ascend(entries: Seq<(Seq<char>, Json)>) -> bool {
    forall|i: int|
        0 <= i < entries.len() - 1 ==> text_before(#[trigger] entries[i].0, entries[i + 1].0)
}

#[verifier::external_type_specification]
#[verifier::external_body]
pub struct ExValue(serde_json::Value);

/// The document that a `serde_json::Value` holds.
pub uninterp spec fn json_model(value: Value) -> Json;

/// What `serde_json::from_slice` makes of `bytes`: the document they write, or
/// `None` where they are not one JSON document.
pub uninterp spec fn json_parse(bytes: Seq<u8>) -> Option<Json>;

/// What `serde_json::to_string` makes of `document`: the text that it writes
/// for it, or `None` where it writes none.
pub uninterp spec fn json_text(document: Json) -> Option<Seq<char>>;

/// The models of `items`, one for one.
pub open spec fn models(items: Seq<Value>) -> Seq<Json> {
    items.map_values(|item: Value| json_model(item))
}

/// The keys and models of `entries`, one for one.
pub open spec fn entry_models(entries: Seq<(String, Value)>) -> Seq<(Seq<char>, Json)> {
    entries.map_values(|entry: (String, Value)| (entry.0@, json_model(entry.1)))
}

/// Parses `bytes` with `serde_json::from_slice`, as a `Value`.
///
/// Not proved: that the same bytes always give the same document. Which bytes
/// are a document, and which one, is left to `serde_json`.
#[verifier::external_body]
pub(crate) fn parse_json(bytes: &[u8]) -> (parsed: Option<Value>)
    ensures
        match parsed {
            Some(value) => json_parse(bytes@) == Some(json_model(value)),
            None => json_parse(bytes@) is None,
        },
{
    serde_json::from_slice::<Value>(bytes).ok()
}

/// Looks up a member with `Value::get` and a string index.
///
/// Not proved: that the result is the member of that name where the value is
/// an object that has one, and `None` otherwise.
#[verifier::external_body]
pub(crate) fn json_member<'a>(value: &'a Value, key: &str) -> (found: Option<&'a Value>)
    ensures
        match found {
            Some(inner) => json_model(*value).member(key@) == Some(json_model(*inner)),
            None => json_model(*value).member(key@) is None,
        },
{
    value.get(key)
}

/// Looks up an element with `Value::get` and an integer index.
///
/// Not proved: that the result is the element at that index where the value is
/// an array that is long enough, and `None` otherwise.
#[verifier::external_body]
pub(crate) fn json_element<'a>(value: &'a Value, index: usize) -> (found: Option<&'a Value>)
    ensures
        match found {
            Some(inner) => json_model(*value).element(index as int) == Some(json_model(*inner)),
            None => json_model(*value).element(index as int) is None,
        },
{
    value.get(index)
}

/// Reads a string with `Value::as_str`.
///
/// Not proved: that the result is the text where the value is a string, and
/// `None` otherwise.
#[verifier::external_body]
pub(crate) fn json_str<'a>(value: &'a Value) -> (text: Option<&'a str>)
    ensures
        match text {
            Some(s) => json_model(*value).text() == Some(s@),
            None => json_model(*value).text() is None,
        },
{
    value.as_str()
}

/// Makes a JSON string with `Value::from`.
///
/// Not proved: that the value holds the string `text`.
#[verifier::external_body]
pub(crate) fn json_string(text: String) -> (value: Value)
    ensures
        json_model(value) == Json::String(text@),
{
    Value::from(text)
}

/// Makes a JSON boolean with `Value::from`.
///
/// Not proved: that the value holds `flag`.
#[verifier::external_body]
pub(crate) fn json_bool(flag: bool) -> (value: Value)
    ensures
        json_model(value) == Json::Bool(flag),
{
    Value::from(flag)
}

/// Makes a JSON array with `Value::from`.
///
/// Not proved: that the value holds the documents of `items`, in their order.
#[verifier::external_body]
pub(crate) fn json_array(items: Vec<Value>) -> (value: Value)
    ensures
        json_model(value) == Json::Array(models(items@)),
{
    Value::from(items)
}

/// Makes a JSON object by collecting `entries` into a `Value`.
///
/// Not proved: that, for keys that rise strictly, the object holds exactly
/// these members and holds them in this order. Of other entries nothing is
/// said: the object may order them anew and keeps one member per key.
#[verifier::external_body]
pub(crate) fn json_object(entries: Vec<(String, Value)>) -> (value: Value)
    ensures
        keys_ascend(entry_models(entries@)) ==> json_model(value) == Json::Object(
            entry_models(entries@),
        ),
{
    entries.into_iter().collect::<Value>()
}

/// Writes `value` as compact JSON with `serde_json::to_string`.
///
/// Not proved: that the outcome is the same for the same document, be it a
/// text or none. Which documents get a text, and which text, is left to
/// `serde_json`: that there is a text at all is not claimed.
#[verifier::external_body]
pub(crate) fn render_json(value: &Value) -> (text: Option<String>)
    ensures
        match text {
            Some(written) => json_text(json_model(*value)) == Some(written@),
            None => json_text(json_model(*value)) is None,
        },
{
    serde_json::to_string(value).ok()
}

} // verus!
