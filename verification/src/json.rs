//! JSON values, and the calls into serde_json.
use serde_json::Value;

use vstd::prelude::*;

verus! {

/// A JSON value.
pub enum Json {
    Null,
    Bool(bool),
    /// A number, as it is printed.
    Number(Seq<char>),
    String(Seq<char>),
    Array(Seq<Json>),
    /// The members of an object, in the order in which they are printed.
    Object(Seq<(Seq<char>, Json)>),
}

/// `serde_json`'s `Value`; [`json`] says what it holds.
#[verifier::external_type_specification]
#[verifier::external_body]
pub struct ExValue(serde_json::Value);

/// What a `Value` holds.
pub uninterp spec fn json(value: Value) -> Json;

/// What each `Value` holds.
pub open spec fn jsons(values: Seq<Value>) -> Seq<Json> {
    values.map_values(|value: Value| json(value))
}

/// The value that a text stands for, or the message with which it is refused.
pub uninterp spec fn json_of(text: Seq<char>) -> Result<Json, Seq<char>>;

/// The text that a value is printed as.
pub uninterp spec fn json_text(value: Json) -> Seq<char>;

/// Calls `serde_json::from_str`. The contract claims that the value, and the message of the error,
/// depend on the text alone.
#[verifier::external_body]
pub(crate) fn parse_json(text: &str) -> (r: Result<Value, String>)
    ensures
        match r {
            Ok(value) => json_of(text@) == Ok::<Json, Seq<char>>(json(value)),
            Err(message) => json_of(text@) == Err::<Json, Seq<char>>(message@),
        },
{
    serde_json::from_str::<Value>(text).map_err(|error| error.to_string())
}

/// Calls `serde_json::to_string` on a `Value`. The contract claims that it succeeds, as every
/// `Value` can be printed, and that the text depends on what the value holds alone.
#[verifier::external_body]
pub(crate) fn print_json(value: &Value) -> (r: Result<String, String>)
    ensures
        r is Ok,
        r->Ok_0@ == json_text(json(*value)),
{
    serde_json::to_string(value).map_err(|error| error.to_string())
}

/// Whether the member at place `i` is the first under `key`.
pub open spec fn is_member(members: Seq<(Seq<char>, Json)>, key: Seq<char>, i: int) -> bool {
    &&& 0 <= i < members.len()
    &&& members[i].0 == key
    &&& forall|j: int| 0 <= j < i ==> (#[trigger] members[j]).0 != key
}

/// Calls `Value::get_mut` with a key. The contract claims that it finds the member of an object
/// under that key, and that nothing but that member can change through what it returns.
#[verifier::external_body]
pub(crate) fn member_mut<'v>(value: &'v mut Value, key: &str) -> (r: Option<&'v mut Value>)
    ensures
        match r {
            Some(member) => exists|i: int|
                {
                    &&& json(*old(value)) is Object
                    &&& #[trigger] is_member(json(*old(value))->Object_0, key@, i)
                    &&& json(*member) == json(*old(value))->Object_0[i].1
                    &&& json(*final(value)) == Json::Object(
                        json(*old(value))->Object_0.update(i, (key@, json(*final(member)))),
                    )
                },
            None => {
                &&& json(*final(value)) == json(*old(value))
                &&& json(*old(value)) is Object ==> forall|i: int|
                    !#[trigger] is_member(json(*old(value))->Object_0, key@, i)
            },
        },
{
    value.get_mut(key)
}

/// Calls `Value::as_array_mut`. The contract claims that it returns the items of an array, through
/// which they can change, and nothing for any other value.
#[verifier::external_body]
pub(crate) fn array_mut<'v>(value: &'v mut Value) -> (r: Option<&'v mut Vec<Value>>)
    ensures
        match r {
            Some(items) => {
                &&& json(*old(value)) == Json::Array(jsons(items@))
                &&& json(*final(value)) == Json::Array(jsons(final(items)@))
            },
            None => {
                &&& json(*final(value)) == json(*old(value))
                &&& !(json(*old(value)) is Array)
            },
        },
{
    value.as_array_mut()
}

/// Calls `Value::as_str`. The contract claims that it returns the text of a string, and nothing for
/// any other value.
#[verifier::external_body]
pub(crate) fn text_of(value: &Value) -> (r: Option<&str>)
    ensures
        match r {
            Some(text) => json(*value) == Json::String(text@),
            None => !(json(*value) is String),
        },
{
    value.as_str()
}

/// Makes a `Value::String`. The contract claims that it holds the text.
#[verifier::external_body]
pub(crate) fn string_value(text: String) -> (r: Value)
    ensures
        json(r) == Json::String(text@),
{
    Value::String(text)
}

/// What values hold is what each of them holds.
pub proof fn law_values_are_held_one_by_one(values: Seq<Value>)
    ensures
        jsons(values).len() == values.len(),
        forall|i: int| 0 <= i < values.len() ==> #[trigger] jsons(values)[i] == json(values[i]),
{
}

} // verus!
