//! The JSON values and the JSON reading that the library takes from `serde_json`.
use vstd::prelude::*;

verus! {

/// `serde_json::Value`, carried through the profile without being read.
#[verifier::external_type_specification]
#[verifier::external_body]
pub struct ExJsonValue(serde_json::Value);

/// `Clone::clone` of `serde_json::Value`, which the profile's derived
/// `Clone` calls. Trusted: nothing is stated of the copy.
pub assume_specification[ <serde_json::Value as Clone>::clone ](v: &serde_json::Value) -> serde_json::Value;

/// What `serde_json` finds in a JSON text at a member of its top-level
/// object: `None` when the text is not JSON; `Some(None)` when the top level
/// is not an object, has no such member, or the member is not an object;
/// otherwise the member object's keys in the order its map yields them.
pub uninterp spec fn json_member_object_keys(text: Seq<char>, member: Seq<char>) -> Option<Option<Seq<Seq<char>>>>;

/// Parses `text` with `serde_json::from_str` into a `serde_json::Value`, then
/// takes `Value::get(member)`, `Value::as_object` and the keys of that map.
///
/// Trusted: the result is `json_member_object_keys` of the arguments; an
/// `Err` carries the parser's message, of which nothing is stated.
#[verifier::external_body]
pub(crate) fn json_object_keys_at(text: &str, member: &str) -> (r: Result<Option<Vec<String>>, String>)
    ensures
        match r {
            Ok(Some(keys)) => json_member_object_keys(text@, member@) == Some(Some(keys.deep_view())),
            Ok(None) => json_member_object_keys(text@, member@) == Some(None::<Seq<Seq<char>>>),
            Err(_) => json_member_object_keys(text@, member@) is None,
        },
{
    match serde_json::from_str::<serde_json::Value>(text) {
        Ok(value) => Ok(value.get(member).and_then(serde_json::Value::as_object).map(|object| object.keys().cloned().collect())),
        Err(error) => Err(error.to_string()),
    }
}

} // verus!
