//! JSON as this crate needs it: documents are parsed and written by
//! `serde_json`, and the crate reads a subscription list out of a parsed
//! document.
//!
//! A `serde_json::Value` is opaque to the verifier. What the calls into
//! `serde_json` return is therefore named (`json_parse`, `json_member`,
//! `json_items`, `json_string`, `json_text`), and the functions below that
//! make those calls are believed, not proved, to return what the names say.
//! Everything else in this file is proved against those names.

use vstd::prelude::*;

verus! {

/// `serde_json::Value`, a JSON document. Nothing inside it is visible here.
#[verifier::external_type_specification]
#[verifier::external_body]
pub struct ExValue(serde_json::Value);

/// `serde_json::Error`, the error of reading or writing JSON. It is only
/// told apart from success.
#[verifier::external_type_specification]
#[verifier::external_body]
pub struct ExJsonError(serde_json::Error);

/// The document that `serde_json::from_str` reads from a text, or `None`
/// where it reports an error.
pub uninterp spec fn json_parse(text: Seq<char>) -> Option<serde_json::Value>;

/// The member that `serde_json::Value::get` finds under a string key:
/// `None` unless the value is an object that holds the key.
pub uninterp spec fn json_member(value: serde_json::Value, key: Seq<char>) -> Option<
    serde_json::Value,
>;

/// The elements that `serde_json::Value::as_array` hands out: `None` unless
/// the value is an array.
pub uninterp spec fn json_items(value: serde_json::Value) -> Option<Seq<serde_json::Value>>;

/// The text that `serde_json::Value::as_str` hands out: `None` unless the
/// value is a string.
pub uninterp spec fn json_string(value: serde_json::Value) -> Option<Seq<char>>;

/// The compact JSON text that `serde_json::to_string` writes for a value,
/// or `None` where it reports an error.
pub uninterp spec fn json_text(value: serde_json::Value) -> Option<Seq<char>>;

/// Calls `serde_json::from_str` for a `Value`. Trusted: the result is the
/// document named by `json_parse`, an error where that is `None`.
#[verifier::external_body]
pub(crate) fn parse(text: &str) -> (parsed: Result<serde_json::Value, serde_json::Error>)
    ensures
        match parsed {
            Ok(value) => json_parse(text@) == Some(value),
            Err(_) => json_parse(text@) is None,
        },
{
    serde_json::from_str::<serde_json::Value>(text)
}

/// Calls `serde_json::Value::get` with a string key. Trusted: the result
/// is the member named by `json_member`.
#[verifier::external_body]
pub(crate) fn member<'a>(value: &'a serde_json::Value, key: &str) -> (found: Option<
    &'a serde_json::Value,
>)
    ensures
        match found {
            Some(inner) => json_member(*value, key@) == Some(*inner),
            None => json_member(*value, key@) is None,
        },
{
    value.get(key)
}

/// Calls `serde_json::Value::as_array`. Trusted: the result holds the
/// elements named by `json_items`.
#[verifier::external_body]
pub(crate) fn items(value: &serde_json::Value) -> (found: Option<&Vec<serde_json::Value>>)
    ensures
        match found {
            Some(list) => json_items(*value) == Some(list@),
            None => json_items(*value) is None,
        },
{
    value.as_array()
}

/// Calls `serde_json::Value::as_str`. Trusted: the result is the text
/// named by `json_string`.
#[verifier::external_body]
pub(crate) fn string(value: &serde_json::Value) -> (found: Option<&str>)
    ensures
        match found {
            Some(text) => json_string(*value) == Some(text@),
            None => json_string(*value) is None,
        },
{
    value.as_str()
}

/// Calls `serde_json::to_string`. Trusted: the result is the text named by
/// `json_text`, an error where that is `None`.
#[verifier::external_body]
pub(crate) fn write_text(value: &serde_json::Value) -> (written: Result<String, serde_json::Error>)
    ensures
        match written {
            Ok(text) => json_text(*value) == Some(text@),
            Err(_) => json_text(*value) is None,
        },
{
    serde_json::to_string(value)
}

/// The key under which a subscription update lists its groups.
pub open spec fn groups_key() -> Seq<char> {
    "groups"@
}

/// The texts of a list of JSON values where every one of them is a string,
/// `None` where one is not.
pub open spec fn listed_strings(list: Seq<serde_json::Value>) -> Option<Seq<Seq<char>>> {
    if forall|i: int| 0 <= i < list.len() ==> (#[trigger] json_string(list[i])) is Some {
        Some(Seq::new(list.len(), |i: int| json_string(list[i])->0))
    } else {
        None
    }
}

/// The groups that a parsed document asks for: the document is an object
/// whose member `groups` is an array of strings. Other members are not
/// looked at.
pub open spec fn requested_groups(value: serde_json::Value) -> Option<Seq<Seq<char>>> {
    match json_member(value, groups_key()) {
        Some(inner) => match json_items(inner) {
            Some(list) => listed_strings(list),
            None => None,
        },
        None => None,
    }
}

/// The groups that a text asks for, where it is a JSON document that does.
pub open spec fn groups_request_in(text: Seq<char>) -> Option<Seq<Seq<char>>> {
    match json_parse(text) {
        Some(value) => requested_groups(value),
        None => None,
    }
}

/// What an optional list of strings stands for.
pub open spec fn texts_of(list: Option<Vec<String>>) -> Option<Seq<Seq<char>>> {
    match list {
        Some(v) => Some(v.deep_view()),
        None => None,
    }
}

/// Copies the texts out of a list of JSON values, or returns `None` at the
/// first one that is not a string.
pub fn strings_in(list: &Vec<serde_json::Value>) -> (found: Option<Vec<String>>)
    ensures
        texts_of(found) == listed_strings(list@),
{
    let mut out: Vec<String> = Vec::new();
    let n: usize = list.len();
    let mut i: usize = 0;
    while i < n
        invariant
            i <= n,
            n == list@.len(),
            out@.len() == i,
            forall|k: int| 0 <= k < i ==> (#[trigger] json_string(list@[k])) == Some(out@[k]@),
        decreases n - i,
    {
        match string(&list[i]) {
            Some(text) => {
                out.push(text.to_owned());
            },
            None => {
                assert(json_string(list@[i as int]) is None);
                return None;
            },
        }
        i += 1;
    }
    assert(out.deep_view() =~= Seq::new(list@.len(), |i: int| json_string(list@[i])->0));
    Some(out)
}

/// Reads the requested groups out of a parsed document.
pub fn groups_in(value: &serde_json::Value) -> (found: Option<Vec<String>>)
    ensures
        texts_of(found) == requested_groups(*value),
{
    match member(value, "groups") {
        Some(inner) => match items(inner) {
            Some(list) => strings_in(list),
            None => None,
        },
        None => None,
    }
}

/// Reads the requested groups out of a text.
pub fn parse_groups(text: &str) -> (found: Option<Vec<String>>)
    ensures
        texts_of(found) == groups_request_in(text@),
{
    match parse(text) {
        Ok(value) => groups_in(&value),
        Err(_) => None,
    }
}

} // verus!
