//! Reading a rule's options from a JSON value.

use vstd::prelude::*;
use serde_json::Value;

verus! {

/// A JSON value of `serde_json`.
#[verifier::external_type_specification]
#[verifier::external_body]
pub struct ExValue(serde_json::Value);

/// What a JSON value holds. Numbers are not told apart.
pub enum JsonModel {
    Null,
    Bool(bool),
    Number,
    String(Seq<char>),
    Array(Seq<JsonModel>),
    Object(Map<Seq<char>, JsonModel>),
}

/// What a `serde_json::Value` holds: which kind of JSON value it is, and its
/// elements or members. The three functions below that read a `Value` state
/// their results over this name.
pub uninterp spec fn json_model(value: Value) -> JsonModel;

/// The element of an array at `index`; nothing for a value that is no array
/// and for an index past its end.
pub open spec fn element_of(value: JsonModel, index: int) -> Option<JsonModel> {
    match value {
        JsonModel::Array(items) => if 0 <= index < items.len() {
            Some(items[index])
        } else {
            None
        },
        _ => None,
    }
}

/// The member of an object under `key`; nothing for a value that is no object
/// and for a key that the object lacks.
pub open spec fn member_of(value: JsonModel, key: Seq<char>) -> Option<JsonModel> {
    match value {
        JsonModel::Object(members) => if members.contains_key(key) {
            Some(members[key])
        } else {
            None
        },
        _ => None,
    }
}

/// The truth value that a JSON value is; nothing for a value of another type.
pub open spec fn bool_of(value: JsonModel) -> Option<bool> {
    match value {
        JsonModel::Bool(b) => Some(b),
        _ => None,
    }
}

/// `serde_json::Value::get` with a number: the element of an array at that
/// index. `None` where the value is no array or the index is out of bounds.
#[verifier::external_body]
fn get_index(value: &Value, index: usize) -> (element: Option<&Value>)
    ensures
        element.is_some() == element_of(json_model(*value), index as int).is_some(),
        element matches Some(found) ==> element_of(json_model(*value), index as int) == Some(
            json_model(*found),
        ),
{
    value.get(index)
}

/// `serde_json::Value::get` with a string: the member of an object under that
/// key. `None` where the value is no object or has no such key.
#[verifier::external_body]
fn get_key<'a>(value: &'a Value, key: &str) -> (member: Option<&'a Value>)
    ensures
        member.is_some() == member_of(json_model(*value), key@).is_some(),
        member matches Some(found) ==> member_of(json_model(*value), key@) == Some(
            json_model(*found),
        ),
{
    value.get(key)
}

/// `serde_json::Value::as_bool`: the truth value, where the value is one.
#[verifier::external_body]
fn as_bool(value: &Value) -> (b: Option<bool>)
    ensures
        b == bool_of(json_model(*value)),
{
    value.as_bool()
}

/// The setting of the option `name` in a rule's configuration. A
/// configuration is an array whose first element is an object of options.
/// The option is set where that object has a member `name` that is `true`,
/// and not set in every other case: no array, no first element, no object,
/// no such member, or a member that is not a truth value.
pub open spec fn flag_spec(configuration: JsonModel, name: Seq<char>) -> bool {
    match element_of(configuration, 0) {
        Some(options) => match member_of(options, name) {
            Some(setting) => bool_of(setting) == Some(true),
            None => false,
        },
        None => false,
    }
}

/// Reads the option `name` from a rule's configuration.
pub fn flag(configuration: &Value, name: &str) -> (set: bool)
    ensures
        set == flag_spec(json_model(*configuration), name@),
{
    match get_index(configuration, 0) {
        Some(options) => match get_key(options, name) {
            Some(setting) => match as_bool(setting) {
                Some(b) => b,
                None => false,
            },
            None => false,
        },
        None => false,
    }
}

} // verus!
