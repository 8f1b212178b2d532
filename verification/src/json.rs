//! Reading JSON documents.
//!
//! The grammar is `serde_json`'s business. The library asks it three questions
//! about a text, which member an object has under a name, which text a
//! string stands for and which number a numeral, and names the answers, so
//! that the code that acts on them can be stated exactly without restating
//! the grammar.

use vstd::prelude::*;

verus! {

/// The sentence with which `serde_json` refuses to read `doc` as one JSON
/// document; `None` where it reads it.
pub uninterp spec fn json_problem(doc: Seq<char>) -> Option<Seq<char>>;

/// Whether `serde_json` reads `doc` as one JSON document.
pub open spec fn json_well_formed(doc: Seq<char>) -> bool {
    json_problem(doc) is None
}

/// The member `name` of the JSON object `doc`, written the way `serde_json`
/// prints a value; `None` where `doc` is no JSON object or has no such member.
pub uninterp spec fn json_member(doc: Seq<char>, name: Seq<char>) -> Option<Seq<char>>;

/// The text that `doc` stands for where it is one JSON string.
pub uninterp spec fn json_string(doc: Seq<char>) -> Option<Seq<char>>;

/// The number that `doc` stands for where it is one JSON integer that fits in
/// 64 bits without a sign.
pub uninterp spec fn json_u64(doc: Seq<char>) -> Option<u64>;

/// Calls `serde_json::from_str` for a `serde_json::Value`, looks the member up
/// with `Value::get` and prints it with the value's `Display`; where the text
/// is refused, the error's sentence is handed back. Trusted: the result is
/// what [`json_problem`] and [`json_member`] name, and a text that is refused
/// has no members.
#[verifier::external_body]
pub(crate) fn read_member(doc: &str, name: &str) -> (r: Result<Option<String>, String>)
    ensures
        match r {
            Ok(member) => json_problem(doc@) is None && member.deep_view() == json_member(
                doc@,
                name@,
            ),
            Err(problem) => json_problem(doc@) == Some(problem@) && json_member(doc@, name@)
                is None,
        },
{
    match serde_json::from_str::<serde_json::Value>(doc) {
        Ok(value) => match value.get(name) {
            Some(member) => Ok(Some(member.to_string())),
            None => Ok(None),
        },
        Err(e) => Err(e.to_string()),
    }
}

/// Calls `serde_json::from_str` for a `String`. Trusted: the result is what
/// [`json_string`] names.
#[verifier::external_body]
pub(crate) fn string_value(doc: &str) -> (r: Option<String>)
    ensures
        r.deep_view() == json_string(doc@),
{
    match serde_json::from_str::<String>(doc) {
        Ok(text) => Some(text),
        Err(_) => None,
    }
}

/// Calls `serde_json::from_str` for a `u64`. Trusted: the result is what
/// [`json_u64`] names.
#[verifier::external_body]
pub(crate) fn u64_value(doc: &str) -> (r: Option<u64>)
    ensures
        r == json_u64(doc@),
{
    match serde_json::from_str::<u64>(doc) {
        Ok(number) => Some(number),
        Err(_) => None,
    }
}

} // verus!
