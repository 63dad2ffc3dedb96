//! JSON values, as `serde_json` holds, writes and reads them.
//!
//! A `serde_json::Value` is a tree: `json_of` names what it holds, and every contract
//! in the library speaks of that. The functions here are the only places at which the
//! library builds, takes apart, writes or reads such a value.
use crate::text;
use vstd::prelude::*;

verus! {

/// What a JSON value holds.
pub enum Json {
    Null,
    Bool(bool),
    /// A number, as it is printed.
    Number(Seq<char>),
    Str(Seq<char>),
    Array(Seq<Json>),
    /// An object; its members have no order of their own.
    Object(Map<Seq<char>, Json>),
}

/// `serde_json::Value`, an enum of the kinds of JSON values.
#[verifier::external_type_specification]
#[verifier::external_body]
pub struct ExValue(serde_json::Value);

/// `serde_json::Map`, the members of a JSON object.
#[verifier::external_type_specification]
#[verifier::external_body]
#[verifier::reject_recursive_types(K)]
#[verifier::reject_recursive_types(V)]
pub struct ExMembers<K, V>(serde_json::Map<K, V>);

/// What a `serde_json::Value` holds.
pub uninterp spec fn json_of(value: serde_json::Value) -> Json;

/// The members that a `serde_json::Map` holds.
pub uninterp spec fn members_of(members: serde_json::Map<String, serde_json::Value>) -> Map<
    Seq<char>,
    Json,
>;

/// The text that `serde_json::to_string_pretty` writes for a value.
pub uninterp spec fn pretty_text(json: Json) -> Seq<char>;

/// The text that `serde_json::to_string` writes for a value.
pub uninterp spec fn compact_text(json: Json) -> Seq<char>;

/// The value that `serde_json::from_str` reads from a text, where it is JSON.
pub uninterp spec fn parsed_json(text: Seq<char>) -> Option<Json>;

/// What the values of a list hold.
pub open spec fn jsons_of(values: Seq<serde_json::Value>) -> Seq<Json> {
    values.map_values(|value: serde_json::Value| json_of(value))
}

/// A list of texts as a JSON array of strings.
pub open spec fn json_strings(texts: Seq<Seq<char>>) -> Json {
    Json::Array(texts.map_values(|text: Seq<char>| Json::Str(text)))
}

/// Whether reading the written form of a value gives the value back: its numbers are
/// unsigned integers of at most 64 bits, and no more than `levels` arrays and objects
/// stand inside one another.
pub open spec fn reads_back(json: Json, levels: nat) -> bool
    decreases levels,
{
    match json {
        Json::Null => true,
        Json::Bool(_) => true,
        Json::Str(_) => true,
        Json::Number(digits) => exists|n: nat| n <= u64::MAX && digits == #[trigger] text::decimal(n),
        Json::Array(items) => levels > 0 && forall|i: int|
            0 <= i < items.len() ==> reads_back(#[trigger] items[i], (levels - 1) as nat),
        Json::Object(members) => levels > 0 && forall|name: Seq<char>|
            members.contains_key(name) ==> reads_back(
                #[trigger] members[name],
                (levels - 1) as nat,
            ),
    }
}

/// More levels never stop a value from reading back.
pub proof fn lemma_reads_back_grows(value: Json, few: nat, many: nat)
    requires
        reads_back(value, few),
        few <= many,
    ensures
        reads_back(value, many),
    decreases few,
{
    match value {
        Json::Array(items) => {
            assert forall|i: int| 0 <= i < items.len() implies reads_back(
                #[trigger] items[i],
                (many - 1) as nat,
            ) by {
                lemma_reads_back_grows(items[i], (few - 1) as nat, (many - 1) as nat);
            }
        },
        Json::Object(members) => {
            assert forall|name: Seq<char>| members.contains_key(name) implies reads_back(
                #[trigger] members[name],
                (many - 1) as nat,
            ) by {
                lemma_reads_back_grows(members[name], (few - 1) as nat, (many - 1) as nat);
            }
        },
        _ => {},
    }
}

/// `Value::Null`.
#[verifier::external_body]
pub(crate) fn null() -> (value: serde_json::Value)
    ensures
        json_of(value) == Json::Null,
{
    serde_json::Value::Null
}

/// `Value::Bool`.
#[verifier::external_body]
pub(crate) fn boolean(b: bool) -> (value: serde_json::Value)
    ensures
        json_of(value) == Json::Bool(b),
{
    serde_json::Value::Bool(b)
}

/// `Value::from` of an unsigned integer: a number that is printed in decimal.
#[verifier::external_body]
pub(crate) fn number(n: u64) -> (value: serde_json::Value)
    ensures
        json_of(value) == Json::Number(text::decimal(n as nat)),
{
    serde_json::Value::from(n)
}

/// `Value::String`.
#[verifier::external_body]
pub(crate) fn string(text: &str) -> (value: serde_json::Value)
    ensures
        json_of(value) == Json::Str(text@),
{
    serde_json::Value::String(text.to_string())
}

/// `Value::Array`: the items in their order.
#[verifier::external_body]
pub(crate) fn array(items: Vec<serde_json::Value>) -> (value: serde_json::Value)
    ensures
        json_of(value) == Json::Array(jsons_of(items@)),
{
    serde_json::Value::Array(items)
}

/// `Value::Object`: the members of the map.
#[verifier::external_body]
pub(crate) fn object(members: serde_json::Map<String, serde_json::Value>) -> (value:
    serde_json::Value)
    ensures
        json_of(value) == Json::Object(members_of(members)),
{
    serde_json::Value::Object(members)
}

/// `Map::new`: a map without members.
#[verifier::external_body]
pub(crate) fn no_members() -> (members: serde_json::Map<String, serde_json::Value>)
    ensures
        (members_of(members) == Map::<Seq<char>, Json>::empty()),
{
    serde_json::Map::new()
}

/// `Map::insert`: the name has the value from then on; the other members stay.
#[verifier::external_body]
pub(crate) fn put(
    members: &mut serde_json::Map<String, serde_json::Value>,
    name: &str,
    value: serde_json::Value,
)
    ensures
        members_of(*final(members)) == members_of(*old(members)).insert(name@, json_of(value)),
{
    members.insert(name.to_string(), value);
}

/// `Map::contains_key`.
#[verifier::external_body]
pub(crate) fn has_member(
    members: &serde_json::Map<String, serde_json::Value>,
    name: &str,
) -> (found: bool)
    ensures
        found == members_of(*members).contains_key(name@),
{
    members.contains_key(name)
}

/// The map inside a `Value::Object`; `None` for any other kind of value.
#[verifier::external_body]
pub(crate) fn into_members(value: serde_json::Value) -> (members: Option<
    serde_json::Map<String, serde_json::Value>,
>)
    ensures
        match members {
            Some(map) => json_of(value) == Json::Object(members_of(map)),
            None => !(json_of(value) is Object),
        },
{
    match value {
        serde_json::Value::Object(map) => Some(map),
        _ => None,
    }
}

/// `serde_json::to_string_pretty` of a value. Writing a `Value` into memory never
/// fails, and what was written reads back, as far as `reads_back` says: the reader
/// takes up to 127 levels, and this claims nothing of fractional numbers.
#[verifier::external_body]
pub(crate) fn write_pretty(value: &serde_json::Value) -> (text: String)
    ensures
        text@ == pretty_text(json_of(*value)),
        reads_back(json_of(*value), 127) ==> parsed_json(text@) == Some(json_of(*value)),
{
    serde_json::to_string_pretty(value).expect("a JSON value can be written")
}

/// `serde_json::to_string` of a value. Writing a `Value` into memory never fails, and what
/// was written reads back, as far as `reads_back` says.
#[verifier::external_body]
pub(crate) fn write_compact(value: &serde_json::Value) -> (text: String)
    ensures
        text@ == compact_text(json_of(*value)),
        reads_back(json_of(*value), 127) ==> parsed_json(text@) == Some(json_of(*value)),
{
    serde_json::to_string(value).expect("a JSON value can be written")
}

/// `serde_json::from_str` into a value; `None` where the text is not JSON.
#[verifier::external_body]
pub(crate) fn read(text: &str) -> (value: Option<serde_json::Value>)
    ensures
        match value {
            Some(v) => parsed_json(text@) == Some(json_of(v)),
            None => parsed_json(text@) is None,
        },
{
    serde_json::from_str(text).ok()
}

/// A list of strings as a JSON array.
pub(crate) fn strings(items: &Vec<String>) -> (value: serde_json::Value)
    ensures
        json_of(value) == json_strings(text::texts(items@)),
{
    let mut values: Vec<serde_json::Value> = Vec::new();
    for i in 0..items.len()
        invariant
            values@.len() == i,
            forall|j: int| 0 <= j < i ==> json_of(#[trigger] values@[j]) == Json::Str(items@[j]@),
    {
        values.push(string(items[i].as_str()));
    }
    let ghost wanted = text::texts(items@).map_values(|text: Seq<char>| Json::Str(text));
    assert(jsons_of(values@) =~= wanted);
    array(values)
}

} // verus!
