//! JSON documents, as `serde_json` reads them.

use vstd::prelude::*;

verus! {

/// `serde_json::Error`.
#[verifier::external_type_specification]
#[verifier::external_body]
pub struct ExJsonError(serde_json::Error);

/// The member `section` of the JSON object `document`, when that member is
/// itself an object: its members in the order `serde_json` keeps them, each
/// with its value when the value is a string. The outer `None` stands for a
/// document that does not parse, the inner for a section that is missing or
/// is no object.
pub uninterp spec fn json_object_section(document: Seq<char>, section: Seq<char>) -> Option<
    Option<Seq<(Seq<char>, Option<Seq<char>>)>>,
>;

/// The member `section` of the JSON object `document`, when that member is
/// an array: its elements in order, each as its text when it is a string.
/// `None` stands for a document that does not parse or a section that is
/// missing or is no array.
pub uninterp spec fn json_array_section(document: Seq<char>, section: Seq<char>) -> Option<
    Seq<Option<Seq<char>>>,
>;

/// The document read as an array of strings; `None` when it is anything
/// else.
pub uninterp spec fn json_string_list(document: Seq<char>) -> Option<Seq<Seq<char>>>;

/// `serde_json::from_str` to a `Value`, then `Value::get` and
/// `Value::as_object` on the section: the members of the section, each with
/// its value as `Value::as_str` gives it.
#[verifier::external_body]
pub(crate) fn object_section(document: &str, section: &str) -> (r: Result<
    Option<Vec<(String, Option<String>)>>,
    serde_json::Error,
>)
    ensures
        match r {
            Ok(members) => json_object_section(document@, section@) == Some(members.deep_view()),
            Err(_) => json_object_section(document@, section@) is None,
        },
{
    let json: serde_json::Value = serde_json::from_str(document)?;
    Ok(
        json.get(section).and_then(|v| v.as_object()).map(
            |o| o.iter().map(|(k, v)| (k.clone(), v.as_str().map(|s| s.to_string()))).collect(),
        ),
    )
}

/// `serde_json::from_str` to a `Value`, then `Value::get` and
/// `Value::as_array` on the section: the elements of the section, each as
/// `Value::as_str` gives it.
#[verifier::external_body]
pub(crate) fn array_section(document: &str, section: &str) -> (r: Option<Vec<Option<String>>>)
    ensures
        r.deep_view() == json_array_section(document@, section@),
{
    let json: serde_json::Value = serde_json::from_str(document).ok()?;
    json.get(section).and_then(|v| v.as_array()).map(
        |a| a.iter().map(|v| v.as_str().map(|s| s.to_string())).collect(),
    )
}

/// `serde_json::from_str` to a `Vec<String>`.
#[verifier::external_body]
pub(crate) fn string_list(document: &str) -> (r: Option<Vec<String>>)
    ensures
        r.deep_view() == json_string_list(document@),
{
    serde_json::from_str::<Vec<String>>(document).ok()
}

} // verus!
