//! The few points where the library leans on `serde_json`.

use vstd::prelude::*;

verus! {

/// `serde_json::Value`, a JSON document, carried through as an opaque value.
#[verifier::external_type_specification]
#[verifier::external_body]
pub struct ExValue(serde_json::Value);

/// The JSON document that `serde_json` reads from the text, if the text
/// holds exactly one.
pub uninterp spec fn json_parsed(s: Seq<char>) -> Option<serde_json::Value>;

/// Whether `serde_json` reads the text as one complete JSON document.
pub open spec fn json_accepts(s: Seq<char>) -> bool {
    json_parsed(s) is Some
}

/// The JSON value that a text which `serde_json` accepts stands for.
pub open spec fn json_value_of(s: Seq<char>) -> serde_json::Value {
    json_parsed(s).unwrap()
}

/// A JSON string holding the given text.
pub uninterp spec fn json_string_of(s: Seq<char>) -> serde_json::Value;

/// A JSON object with the given members.
pub uninterp spec fn json_object_of(m: Map<Seq<char>, serde_json::Value>) -> serde_json::Value;

/// The map from key to value that a list of members stands for, a later
/// member overwriting an earlier one with the same key.
pub open spec fn member_values(ms: Seq<(String, serde_json::Value)>) -> Map<
    Seq<char>,
    serde_json::Value,
>
    decreases ms.len(),
{
    if ms.len() == 0 {
        Map::empty()
    } else {
        member_values(ms.drop_last()).insert(ms.last().0@, ms.last().1)
    }
}

/// Relies on `serde_json::from_str::<Value>`: it reads the whole text and
/// succeeds exactly when it holds one JSON document; the result depends on
/// the text alone.
#[verifier::external_body]
pub(crate) fn parse_json(s: &str) -> (r: Option<serde_json::Value>)
    ensures
        r == json_parsed(s@),
{
    serde_json::from_str::<serde_json::Value>(s).ok()
}

/// Relies on the `serde_json::Value::String` variant: a JSON string holding `s`.
#[verifier::external_body]
pub(crate) fn json_string(s: String) -> (r: serde_json::Value)
    ensures
        r == json_string_of(s@),
{
    serde_json::Value::String(s)
}

/// Relies on `serde_json::Map`'s `FromIterator` (into a `BTreeMap`) and the
/// `Value::Object` variant: with distinct keys, the object depends on the
/// map from key to value alone.
#[verifier::external_body]
pub(crate) fn json_object(members: Vec<(String, serde_json::Value)>) -> (r: serde_json::Value)
    requires
        forall|i: int, j: int|
            0 <= i < j < members@.len() ==> members@[i].0@ != members@[j].0@,
    ensures
        r == json_object_of(member_values(members@)),
{
    serde_json::Value::Object(members.into_iter().collect())
}

} // verus!
