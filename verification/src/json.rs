//! JSON values as `serde_json` holds them, and what this library reads of
//! them.
//!
//! Everything here but the spec functions with a body is taken on trust
//! from `serde_json`: each function states what the call it makes returns.

use vstd::prelude::*;
use crate::text::texts;

verus! {

/// `serde_json::Value`, a JSON value of any shape. Opaque here: what it
/// holds is told by [`json_model`].
#[verifier::external_type_specification]
#[verifier::external_body]
pub struct ExValue(serde_json::Value);

/// `serde_json::Error`, why a text could not be parsed or a value could
/// not be rendered.
#[verifier::external_type_specification]
#[verifier::external_body]
pub struct ExJsonError(serde_json::Error);

/// What this library reads of a JSON value.
pub enum JsonModel {
    /// `null`.
    Null,
    /// A number that is an integer and fits in `i64`.
    Integer(i64),
    /// A string.
    Text(Seq<char>),
    /// An object: its members by name.
    Object(Map<Seq<char>, JsonModel>),
    /// Anything else: a boolean, another number, an array.
    Other,
}

/// What `value` holds.
pub uninterp spec fn json_model(value: serde_json::Value) -> JsonModel;

/// What `serde_json::from_str` makes of `text`: the value that the text
/// denotes, or nothing if the text is not JSON.
pub uninterp spec fn parsed_json(text: Seq<char>) -> Option<JsonModel>;

/// The text that `serde_json::to_string_pretty` renders `value` as, or
/// nothing if it fails to.
pub uninterp spec fn rendered_json(value: serde_json::Value) -> Option<Seq<char>>;

/// The member called `key` of an object; nothing for a value that is no
/// object or has no such member.
pub open spec fn member_of(model: JsonModel, key: Seq<char>) -> Option<JsonModel> {
    match model {
        JsonModel::Object(members) => if members.contains_key(key) {
            Some(members[key])
        } else {
            None
        },
        _ => None,
    }
}

/// What an optional reference to a value holds.
pub open spec fn opt_json_model(value: Option<&serde_json::Value>) -> Option<JsonModel> {
    match value {
        Some(v) => Some(json_model(*v)),
        None => None,
    }
}

/// Whether no two of the pairs have the same name.
pub open spec fn distinct_names(pairs: Seq<(String, serde_json::Value)>) -> bool {
    forall|i: int, j: int|
        0 <= i < j < pairs.len() ==> (#[trigger] pairs[i]).0@ != (#[trigger] pairs[j]).0@
}

/// Whether one of the pairs has the name `name`.
pub open spec fn names(pairs: Seq<(String, serde_json::Value)>, name: Seq<char>) -> bool {
    exists|i: int| 0 <= i < pairs.len() && (#[trigger] pairs[i]).0@ == name
}

/// The members that the pairs make up: what each value holds, by its name.
pub open spec fn members_of(pairs: Seq<(String, serde_json::Value)>) -> Map<
    Seq<char>,
    JsonModel,
> {
    Map::new(
        |name: Seq<char>| names(pairs, name),
        |name: Seq<char>|
            json_model(
                pairs[choose|i: int| 0 <= i < pairs.len() && (#[trigger] pairs[i]).0@ == name].1,
            ),
    )
}

/// `serde_json::from_str` at `serde_json::Value`: parses a JSON text. The
/// outcome is a function of the text alone, named [`parsed_json`].
#[verifier::external_body]
pub(crate) fn parse_json(text: &str) -> (parsed: Result<serde_json::Value, serde_json::Error>)
    ensures
        match parsed {
            Ok(value) => parsed_json(text@) == Some(json_model(value)),
            Err(_) => parsed_json(text@) is None,
        },
{
    serde_json::from_str::<serde_json::Value>(text)
}

/// `serde_json::to_string_pretty` at `serde_json::Value`: renders a value
/// as indented JSON text. The outcome is a function of the value alone,
/// named [`rendered_json`].
#[verifier::external_body]
pub(crate) fn render_json(value: &serde_json::Value) -> (rendered: Result<
    String,
    serde_json::Error,
>)
    ensures
        match rendered {
            Ok(text) => rendered_json(*value) == Some(text@),
            Err(_) => rendered_json(*value) is None,
        },
{
    serde_json::to_string_pretty(value)
}

/// `serde_json::Value::get` with a string index: the member called `key`
/// of an object, and nothing of any other value.
#[verifier::external_body]
pub(crate) fn member<'a>(value: &'a serde_json::Value, key: &str) -> (found: Option<
    &'a serde_json::Value,
>)
    ensures
        opt_json_model(found) == member_of(json_model(*value), key@),
{
    value.get(key)
}

/// `serde_json::Value::as_str`: the characters of a string, and nothing of
/// any other value.
#[verifier::external_body]
pub(crate) fn as_text<'a>(value: &'a serde_json::Value) -> (text: Option<&'a str>)
    ensures
        match json_model(*value) {
            JsonModel::Text(chars) => text matches Some(t) && t@ == chars,
            _ => text is None,
        },
{
    value.as_str()
}

/// `serde_json::Value::as_i64`: the number, if the value is an integer
/// that fits in `i64`, and nothing otherwise.
#[verifier::external_body]
pub(crate) fn as_integer(value: &serde_json::Value) -> (number: Option<i64>)
    ensures
        number == match json_model(*value) {
            JsonModel::Integer(n) => Some(n),
            _ => None,
        },
{
    value.as_i64()
}

/// `serde_json::Value::is_null`.
#[verifier::external_body]
pub(crate) fn is_null(value: &serde_json::Value) -> (null: bool)
    ensures
        null == (json_model(*value) is Null),
{
    value.is_null()
}

/// `serde_json::Value::as_object` and `serde_json::Map::keys`: the names
/// of an object's members, each once, and nothing of any other value.
#[verifier::external_body]
pub(crate) fn member_names(value: &serde_json::Value) -> (found: Option<Vec<String>>)
    ensures
        match json_model(*value) {
            JsonModel::Object(members) => found matches Some(list) && texts(list@).no_duplicates()
                && forall|name: Seq<char>|
                members.contains_key(name) <==> texts(list@).contains(name),
            _ => found is None,
        },
{
    match value.as_object() {
        Some(members) => Some(members.keys().cloned().collect()),
        None => None,
    }
}

/// `serde_json::Value::Null`.
#[verifier::external_body]
pub(crate) fn null_value() -> (value: serde_json::Value)
    ensures
        json_model(value) == JsonModel::Null,
{
    serde_json::Value::Null
}

/// `serde_json::Value::String`: the string value with the characters of
/// `text`.
#[verifier::external_body]
pub(crate) fn text_value(text: &str) -> (value: serde_json::Value)
    ensures
        json_model(value) == JsonModel::Text(text@),
{
    serde_json::Value::String(text.to_owned())
}

/// `serde_json::Value::from` at `i64`: the number value `number`.
#[verifier::external_body]
pub(crate) fn integer_value(number: i64) -> (value: serde_json::Value)
    ensures
        json_model(value) == JsonModel::Integer(number),
{
    serde_json::Value::from(number)
}

/// `serde_json::Value::from_iter` over pairs of a name and a value: the
/// object with these members. Pairs that repeat a name are not taken, as
/// it is not told which of their values would stay.
#[verifier::external_body]
pub(crate) fn object_value(pairs: Vec<(String, serde_json::Value)>) -> (value: serde_json::Value)
    requires
        distinct_names(pairs@),
    ensures
        json_model(value) == JsonModel::Object(members_of(pairs@)),
{
    pairs.into_iter().collect()
}

} // verus!
