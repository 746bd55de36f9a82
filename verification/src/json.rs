//! JSON documents: the model that contracts speak of, and the parts of
//! `serde_json` that the library calls.

use crate::double::{biased_exponent, is_double_of};
use serde_json::Value;
use vstd::prelude::*;

verus! {

/// What a JSON document holds.
///
/// `Int` is a number that is held as an integer: one that fits in 64 bits and is
/// written without a fraction or an exponent, but for `-0`. Every other number is a
/// `Float`, held as the bits of its double.
pub enum Json {
    Null,
    Bool(bool),
    Int(int),
    Float(u64),
    Str(Seq<char>),
    Array(Seq<Json>),
    Object(Map<Seq<char>, Json>),
}

/// The member of an object under `key`; `Null` where there is none.
pub open spec fn member(json: Json, key: Seq<char>) -> Json {
    match json {
        Json::Object(members) => if members.contains_key(key) {
            members[key]
        } else {
            Json::Null
        },
        _ => Json::Null,
    }
}

/// The element of an array at `index`; `Null` where there is none.
pub open spec fn element(json: Json, index: int) -> Json {
    match json {
        Json::Array(elements) => if 0 <= index < elements.len() {
            elements[index]
        } else {
            Json::Null
        },
        _ => Json::Null,
    }
}

/// The text of a string.
pub open spec fn string_of(json: Json) -> Option<Seq<char>> {
    match json {
        Json::Str(text) => Some(text),
        _ => None,
    }
}

/// The value of an integer that fits in an `i64`.
pub open spec fn i64_of(json: Json) -> Option<i64> {
    match json {
        Json::Int(n) => if i64::MIN <= n <= i64::MAX {
            Some(n as i64)
        } else {
            None
        },
        _ => None,
    }
}

/// The value of an integer that fits in a `u64`.
pub open spec fn u64_of(json: Json) -> Option<u64> {
    match json {
        Json::Int(n) => if 0 <= n <= u64::MAX {
            Some(n as u64)
        } else {
            None
        },
        _ => None,
    }
}

/// The value of a boolean.
pub open spec fn bool_of(json: Json) -> Option<bool> {
    match json {
        Json::Bool(b) => Some(b),
        _ => None,
    }
}

/// Whether the document holds no `Float` and nests arrays and objects at most
/// `depth` deep.
pub open spec fn shallow(json: Json, depth: nat) -> bool
    decreases depth,
{
    match json {
        Json::Float(_) => false,
        Json::Array(elements) => depth > 0 && forall|i: int|
            0 <= i < elements.len() ==> shallow(#[trigger] elements[i], (depth - 1) as nat),
        Json::Object(members) => depth > 0 && forall|key: Seq<char>|
            members.contains_key(key) ==> shallow(#[trigger] members[key], (depth - 1) as nat),
        _ => true,
    }
}

/// Whether the document nests arrays and objects at most `depth` deep, and holds no
/// `Float` as large as 2^1023.
pub open spec fn readable(json: Json, depth: nat) -> bool
    decreases depth,
{
    match json {
        Json::Float(bits) => biased_exponent(bits) < 2046,
        Json::Array(elements) => depth > 0 && forall|i: int|
            0 <= i < elements.len() ==> readable(#[trigger] elements[i], (depth - 1) as nat),
        Json::Object(members) => depth > 0 && forall|key: Seq<char>|
            members.contains_key(key) ==> readable(#[trigger] members[key], (depth - 1) as nat),
        _ => true,
    }
}

/// Whether two documents that nest at most `depth` deep are the same but for which
/// `Float` stands where there is one.
pub open spec fn alike(a: Json, b: Json, depth: nat) -> bool
    decreases depth,
{
    match (a, b) {
        (Json::Float(_), Json::Float(_)) => true,
        (Json::Array(left), Json::Array(right)) => {
            &&& depth > 0
            &&& left.len() == right.len()
            &&& forall|i: int|
                0 <= i < left.len() ==> alike(#[trigger] left[i], right[i], (depth - 1) as nat)
        },
        (Json::Object(left), Json::Object(right)) => {
            &&& depth > 0
            &&& left.dom() == right.dom()
            &&& forall|key: Seq<char>|
                left.contains_key(key) ==> alike(
                    #[trigger] left[key],
                    right[key],
                    (depth - 1) as nat,
                )
        },
        _ => a == b,
    }
}

/// A document that holds no `Float` is readable.
pub proof fn shallow_is_readable(json: Json, depth: nat)
    requires
        shallow(json, depth),
    ensures
        readable(json, depth),
    decreases depth,
{
    match json {
        Json::Array(elements) => {
            assert forall|i: int| 0 <= i < elements.len() implies readable(
                #[trigger] elements[i],
                (depth - 1) as nat,
            ) by {
                shallow_is_readable(elements[i], (depth - 1) as nat);
            }
        },
        Json::Object(members) => {
            assert forall|key: Seq<char>| members.contains_key(key) implies readable(
                #[trigger] members[key],
                (depth - 1) as nat,
            ) by {
                shallow_is_readable(members[key], (depth - 1) as nat);
            }
        },
        _ => {},
    }
}

/// A document that holds no `Float` is alike to itself alone.
pub proof fn alike_without_floats(a: Json, b: Json, depth: nat)
    requires
        shallow(a, depth),
        alike(a, b, depth),
    ensures
        a == b,
    decreases depth,
{
    match (a, b) {
        (Json::Array(left), Json::Array(right)) => {
            assert forall|i: int| 0 <= i < left.len() implies left[i] == right[i] by {
                alike_without_floats(left[i], right[i], (depth - 1) as nat);
            }
            assert(left =~= right);
        },
        (Json::Object(left), Json::Object(right)) => {
            assert forall|key: Seq<char>| left.contains_key(key) implies left[key]
                == right[key] by {
                alike_without_floats(left[key], right[key], (depth - 1) as nat);
            }
            assert(left =~= right);
        },
        _ => {},
    }
}

/// How deep `serde_json` lets a text nest.
pub open spec fn depth_limit() -> nat {
    127
}

/// `members` with `value` under `key`, where there is a value.
pub open spec fn with_optional(
    members: Map<Seq<char>, Json>,
    key: Seq<char>,
    value: Option<Json>,
) -> Map<Seq<char>, Json> {
    match value {
        Some(json) => members.insert(key, json),
        None => members,
    }
}

/// `serde_json::Value`, a JSON document in memory.
#[verifier::external_type_specification]
#[verifier::external_body]
pub struct ExValue(serde_json::Value);

/// `serde_json::Error`, what a text that is not JSON is answered with.
#[verifier::external_type_specification]
#[verifier::external_body]
pub struct ExError(serde_json::Error);

/// What a `serde_json::Value` holds: its variant, and what the variant carries.
/// Of a `Number`, `PosInt` and `NegInt` are an `Int`.
pub uninterp spec fn contents(value: serde_json::Value) -> Json;

/// What `serde_json::from_str` makes of a text: the document, or `None` where it
/// refuses the text.
pub uninterp spec fn parsed(text: Seq<char>) -> Option<Json>;

/// The text that `serde_json::to_string` writes for a document.
pub uninterp spec fn rendered(json: Json) -> Seq<char>;

/// Calls `serde_json::from_str` for a `Value`: the document that the text spells, or
/// an error.
#[verifier::external_body]
pub(crate) fn parse(text: &str) -> (result: Result<Value, serde_json::Error>)
    ensures
        result is Ok <==> parsed(text@) is Some,
        result matches Ok(value) ==> parsed(text@) == Some(contents(value)),
{
    serde_json::from_str(text)
}

/// Whether reading a text gives a document that is alike to another.
pub open spec fn reads_alike(text: Seq<char>, json: Json) -> bool {
    parsed(text) matches Some(read) && alike(json, read, depth_limit())
}

/// Calls `serde_json::to_string` for a `Value`, which does not fail. Unless the document
/// nests deeper than a text may, or holds a float so large that reading may carry it out
/// of range, the text is read again, and all comes back but the last digits of floats.
#[verifier::external_body]
fn write(value: &Value) -> (text: String)
    ensures
        text@ == rendered(contents(*value)),
        readable(contents(*value), depth_limit()) ==> reads_alike(text@, contents(*value)),
{
    serde_json::to_string(value).unwrap()
}

/// Whether reading a text gives a document back: all but the last digits of its floats,
/// and all of it where it has none.
pub open spec fn reads_back(text: Seq<char>, json: Json) -> bool {
    &&& reads_alike(text, json)
    &&& shallow(json, depth_limit()) ==> parsed(text) == Some(json)
}

/// Writes a document out.
pub(crate) fn render(value: &Value) -> (text: String)
    ensures
        text@ == rendered(contents(*value)),
        readable(contents(*value), depth_limit()) ==> reads_back(text@, contents(*value)),
        shallow(contents(*value), depth_limit()) ==> parsed(text@) == Some(contents(*value)),
{
    let text = write(value);
    proof {
        let json = contents(*value);
        if shallow(json, depth_limit()) {
            shallow_is_readable(json, depth_limit());
            alike_without_floats(json, parsed(text@)->Some_0, depth_limit());
        }
    }
    text
}

/// Calls `Value::get` with a key: the member of an object, and nothing of any other
/// document.
#[verifier::external_body]
pub(crate) fn get<'a>(value: &'a Value, key: &str) -> (result: Option<&'a Value>)
    ensures
        match contents(*value) {
            Json::Object(members) => match result {
                Some(found) => members.contains_key(key@) && members[key@] == contents(*found),
                None => !members.contains_key(key@),
            },
            _ => result is None,
        },
{
    value.get(key)
}

/// Indexes a `Value` with a key: `get`, and null where that gives nothing.
#[verifier::external_body]
pub(crate) fn at_key<'a>(value: &'a Value, key: &str) -> (result: &'a Value)
    ensures
        contents(*result) == member(contents(*value), key@),
{
    &value[key]
}

/// Indexes a `Value` with a position: the element of an array, and null where there
/// is none.
#[verifier::external_body]
pub(crate) fn at_index(value: &Value, index: usize) -> (result: &Value)
    ensures
        contents(*result) == element(contents(*value), index as int),
{
    &value[index]
}

/// Calls `Value::as_str`: the text of a string.
#[verifier::external_body]
pub(crate) fn as_str(value: &Value) -> (result: Option<&str>)
    ensures
        match result {
            Some(text) => string_of(contents(*value)) == Some(text@),
            None => string_of(contents(*value)) is None,
        },
{
    value.as_str()
}

/// Calls `Value::as_i64`: an integer that fits in an `i64`.
#[verifier::external_body]
pub(crate) fn as_i64(value: &Value) -> (result: Option<i64>)
    ensures
        result == i64_of(contents(*value)),
{
    value.as_i64()
}

/// Calls `Value::as_u64`: an integer that fits in a `u64`.
#[verifier::external_body]
pub(crate) fn as_u64(value: &Value) -> (result: Option<u64>)
    ensures
        result == u64_of(contents(*value)),
{
    value.as_u64()
}

/// Calls `Value::as_bool`: a boolean.
#[verifier::external_body]
pub(crate) fn as_bool(value: &Value) -> (result: Option<bool>)
    ensures
        result == bool_of(contents(*value)),
{
    value.as_bool()
}

/// Calls `Value::as_f64` and hands out the bits of the double: a float as it is, an
/// integer as the double nearest to it.
#[verifier::external_body]
pub(crate) fn as_double(value: &Value) -> (result: Option<u64>)
    ensures
        match contents(*value) {
            Json::Int(n) => result matches Some(bits) && is_double_of(bits, n),
            Json::Float(bits) => result == Some(bits),
            _ => result is None,
        },
{
    match value.as_f64() {
        Some(double) => Some(double.to_bits()),
        None => None,
    }
}

/// `Value::Object` of an empty `serde_json::Map`.
#[verifier::external_body]
pub(crate) fn empty_object() -> (value: Value)
    ensures
        contents(value) == Json::Object(Map::empty()),
{
    Value::Object(serde_json::Map::new())
}

/// Assigns to a `Value` indexed with a key, which puts the member into the object in
/// the place of any that the key had.
#[verifier::external_body]
pub(crate) fn set_member(object: &mut Value, key: &str, value: Value)
    requires
        contents(*old(object)) is Object,
    ensures
        contents(*final(object)) == Json::Object(
            contents(*old(object))->Object_0.insert(key@, contents(value)),
        ),
{
    object[key] = value;
}

/// `Value::Array` of a list of documents.
#[verifier::external_body]
pub(crate) fn array(items: Vec<Value>) -> (value: Value)
    ensures
        contents(value) == Json::Array(items@.map_values(|item: Value| contents(item))),
{
    Value::Array(items)
}

/// `Value::from` a text.
#[verifier::external_body]
pub(crate) fn string(text: &str) -> (value: Value)
    ensures
        contents(value) == Json::Str(text@),
{
    Value::from(text)
}

/// `Value::from` an unsigned integer.
#[verifier::external_body]
pub(crate) fn unsigned(n: u64) -> (value: Value)
    ensures
        contents(value) == Json::Int(n as int),
{
    Value::from(n)
}

/// `Value::from` a signed integer.
#[verifier::external_body]
pub(crate) fn signed(n: i64) -> (value: Value)
    ensures
        contents(value) == Json::Int(n as int),
{
    Value::from(n)
}

/// `Value::from` a boolean.
#[verifier::external_body]
pub(crate) fn boolean(b: bool) -> (value: Value)
    ensures
        contents(value) == Json::Bool(b),
{
    Value::from(b)
}

/// `Value::Null`.
#[verifier::external_body]
pub(crate) fn null() -> (value: Value)
    ensures
        contents(value) == Json::Null,
{
    Value::Null
}

} // verus!
