//! The members of a JSON object, read and written as the strings and
//! integers that they stand for.

use vstd::prelude::*;
use crate::account::opt_text;
use crate::json::{
    as_integer, as_text, integer_value, is_null, json_model, null_value, opt_json_model,
    text_value, JsonModel,
};

verus! {

/// A member that must be a string: its characters.
pub open spec fn required_text(field: Option<JsonModel>) -> Option<Seq<char>> {
    match field {
        Some(JsonModel::Text(chars)) => Some(chars),
        _ => None,
    }
}

/// A member that must be an integer: the number.
pub open spec fn required_integer(field: Option<JsonModel>) -> Option<i64> {
    match field {
        Some(JsonModel::Integer(n)) => Some(n),
        _ => None,
    }
}

/// A member that is a string, `null` or missing: the characters if there
/// are any. Nothing if the member is of another kind.
pub open spec fn optional_text(field: Option<JsonModel>) -> Option<Option<Seq<char>>> {
    match field {
        None => Some(None),
        Some(JsonModel::Null) => Some(None),
        Some(JsonModel::Text(chars)) => Some(Some(chars)),
        _ => None,
    }
}

/// A member that is an integer, `null` or missing: the number if there is
/// one. Nothing if the member is of another kind.
pub open spec fn optional_integer(field: Option<JsonModel>) -> Option<Option<i64>> {
    match field {
        None => Some(None),
        Some(JsonModel::Null) => Some(None),
        Some(JsonModel::Integer(n)) => Some(Some(n)),
        _ => None,
    }
}

/// The value that stands for an optional string: the string, or `null`.
pub open spec fn text_or_null(text: Option<Seq<char>>) -> JsonModel {
    match text {
        Some(chars) => JsonModel::Text(chars),
        None => JsonModel::Null,
    }
}

/// The value that stands for an optional integer: the number, or `null`.
pub open spec fn integer_or_null(number: Option<i64>) -> JsonModel {
    match number {
        Some(n) => JsonModel::Integer(n),
        None => JsonModel::Null,
    }
}

/// A member that must be a string.
pub fn read_text(field: Option<&serde_json::Value>) -> (text: Option<String>)
    ensures
        opt_text(text) == required_text(opt_json_model(field)),
{
    match field {
        Some(value) => match as_text(value) {
            Some(chars) => Some(chars.to_owned()),
            None => None,
        },
        None => None,
    }
}

/// A member that must be an integer.
pub fn read_integer(field: Option<&serde_json::Value>) -> (number: Option<i64>)
    ensures
        number == required_integer(opt_json_model(field)),
{
    match field {
        Some(value) => as_integer(value),
        None => None,
    }
}

/// The characters of an optional string that was read, if the read
/// succeeded.
pub open spec fn opt_opt_text(text: Option<Option<String>>) -> Option<Option<Seq<char>>> {
    match text {
        Some(inner) => Some(opt_text(inner)),
        None => None,
    }
}

/// A member that is a string, `null` or missing.
pub fn read_optional_text(field: Option<&serde_json::Value>) -> (text: Option<Option<String>>)
    ensures
        opt_opt_text(text) == optional_text(opt_json_model(field)),
{
    match field {
        None => Some(None),
        Some(value) => {
            if is_null(value) {
                Some(None)
            } else {
                match as_text(value) {
                    Some(chars) => Some(Some(chars.to_owned())),
                    None => None,
                }
            }
        },
    }
}

/// A member that is an integer, `null` or missing.
pub fn read_optional_integer(field: Option<&serde_json::Value>) -> (number: Option<Option<i64>>)
    ensures
        number == optional_integer(opt_json_model(field)),
{
    match field {
        None => Some(None),
        Some(value) => {
            if is_null(value) {
                Some(None)
            } else {
                match as_integer(value) {
                    Some(n) => Some(Some(n)),
                    None => None,
                }
            }
        },
    }
}

/// The value that stands for an optional string.
pub fn optional_text_value(text: &Option<String>) -> (value: serde_json::Value)
    ensures
        json_model(value) == text_or_null(opt_text(*text)),
{
    match text {
        Some(chars) => text_value(chars.as_str()),
        None => null_value(),
    }
}

/// The value that stands for an optional integer.
pub fn optional_integer_value(number: Option<i64>) -> (value: serde_json::Value)
    ensures
        json_model(value) == integer_or_null(number),
{
    match number {
        Some(n) => integer_value(n),
        None => null_value(),
    }
}

} // verus!
