//! Reading JSON documents piece by piece. A piece is handed on as JSON text of its own.
use crate::text::views;
use vstd::prelude::*;

verus! {

/// The text of the member of an object, by `serde_json`'s `Value::get`.
pub uninterp spec fn json_member(text: Seq<char>, key: Seq<char>) -> Option<Seq<char>>;

/// The texts of the elements of an array, by `serde_json`'s `Value::as_array`.
pub uninterp spec fn json_elements(text: Seq<char>) -> Option<Seq<Seq<char>>>;

/// The content of a string, by `serde_json`'s `Value::as_str`.
pub uninterp spec fn json_string(text: Seq<char>) -> Option<Seq<char>>;

/// The value of a number that is a `u64`, by `serde_json`'s `Value::as_u64`.
pub uninterp spec fn json_u64(text: Seq<char>) -> Option<u64>;

/// The value of a number that is an `i64`, by `serde_json`'s `Value::as_i64`.
pub uninterp spec fn json_i64(text: Seq<char>) -> Option<i64>;

/// The compact text of a document, by `serde_json`'s `from_str` and `to_string` of its `Value`, or
/// the message of the error where the text is no document.
pub uninterp spec fn json_document(text: Seq<char>) -> Result<Seq<char>, Seq<char>>;

/// The model of an optional text.
pub open spec fn opt_text(t: Option<String>) -> Option<Seq<char>> {
    match t {
        Some(s) => Some(s@),
        None => None,
    }
}

/// The model of an optional list of texts.
pub open spec fn opt_texts(t: Option<Vec<String>>) -> Option<Seq<Seq<char>>> {
    match t {
        Some(v) => Some(views(v@)),
        None => None,
    }
}

/// `serde_json::from_str` to a `Value`, whose `to_string` is the document without needless space.
/// Which text or which error message comes back is only named.
#[verifier::external_body]
pub(crate) fn document(text: &str) -> (r: Result<String, String>)
    ensures
        match json_document(text@) {
            Ok(t) => r is Ok && (r->Ok_0)@ == t,
            Err(e) => r is Err && (r->Err_0)@ == e,
        },
{
    let v: Result<serde_json::Value, serde_json::Error> = serde_json::from_str(text);
    v.map(|d| d.to_string()).map_err(|e| e.to_string())
}

/// `serde_json::Value::get` on the document that the text holds: nothing where the text is no JSON
/// document, no object, or has no such member. Which text comes back is only named.
#[verifier::external_body]
pub(crate) fn member(text: &str, key: &str) -> (r: Option<String>)
    ensures
        opt_text(r) == json_member(text@, key@),
{
    let v: serde_json::Value = serde_json::from_str(text).ok()?;
    v.get(key).map(|m| m.to_string())
}

/// `serde_json::Value::as_array` on the document that the text holds. Which texts come back is
/// only named.
#[verifier::external_body]
pub(crate) fn elements(text: &str) -> (r: Option<Vec<String>>)
    ensures
        opt_texts(r) == json_elements(text@),
{
    let v: serde_json::Value = serde_json::from_str(text).ok()?;
    v.as_array().map(|a| a.iter().map(|e| e.to_string()).collect())
}

/// `serde_json::Value::as_str` on the document that the text holds. Which text comes back is only
/// named.
#[verifier::external_body]
pub(crate) fn string(text: &str) -> (r: Option<String>)
    ensures
        opt_text(r) == json_string(text@),
{
    let v: serde_json::Value = serde_json::from_str(text).ok()?;
    v.as_str().map(|s| s.to_string())
}

/// `serde_json::Value::as_u64` on the document that the text holds. Which number comes back is
/// only named.
#[verifier::external_body]
pub(crate) fn unsigned(text: &str) -> (r: Option<u64>)
    ensures
        r == json_u64(text@),
{
    let v: serde_json::Value = serde_json::from_str(text).ok()?;
    v.as_u64()
}

/// `serde_json::Value::as_i64` on the document that the text holds. Which number comes back is
/// only named.
#[verifier::external_body]
pub(crate) fn signed(text: &str) -> (r: Option<i64>)
    ensures
        r == json_i64(text@),
{
    let v: serde_json::Value = serde_json::from_str(text).ok()?;
    v.as_i64()
}

/// The string that a member holds.
pub open spec fn member_string(text: Seq<char>, key: Seq<char>) -> Option<Seq<char>> {
    match json_member(text, key) {
        Some(m) => json_string(m),
        None => None,
    }
}

/// The `u64` that a member holds.
pub open spec fn member_u64(text: Seq<char>, key: Seq<char>) -> Option<u64> {
    match json_member(text, key) {
        Some(m) => json_u64(m),
        None => None,
    }
}

/// The `i64` that a member holds.
pub open spec fn member_i64(text: Seq<char>, key: Seq<char>) -> Option<i64> {
    match json_member(text, key) {
        Some(m) => json_i64(m),
        None => None,
    }
}

/// The elements of the array that a member holds.
pub open spec fn member_elements(text: Seq<char>, key: Seq<char>) -> Option<Seq<Seq<char>>> {
    match json_member(text, key) {
        Some(m) => json_elements(m),
        None => None,
    }
}

/// The member of an object; where it is missing, that of another name.
pub open spec fn member_or(text: Seq<char>, key: Seq<char>, other: Seq<char>) -> Option<
    Seq<char>,
> {
    match json_member(text, key) {
        Some(m) => Some(m),
        None => json_member(text, other),
    }
}

/// The string that a member holds, if it holds one.
pub fn get_string(text: &str, key: &str) -> (r: Option<String>)
    ensures
        opt_text(r) == member_string(text@, key@),
{
    match member(text, key) {
        Some(m) => string(m.as_str()),
        None => None,
    }
}

/// The `u64` that a member holds, if it holds one.
pub fn get_u64(text: &str, key: &str) -> (r: Option<u64>)
    ensures
        r == member_u64(text@, key@),
{
    match member(text, key) {
        Some(m) => unsigned(m.as_str()),
        None => None,
    }
}

/// The `i64` that a member holds, if it holds one.
pub fn get_i64(text: &str, key: &str) -> (r: Option<i64>)
    ensures
        r == member_i64(text@, key@),
{
    match member(text, key) {
        Some(m) => signed(m.as_str()),
        None => None,
    }
}

/// The elements of the array that a member holds, if it holds one.
pub fn get_elements(text: &str, key: &str) -> (r: Option<Vec<String>>)
    ensures
        opt_texts(r) == member_elements(text@, key@),
{
    match member(text, key) {
        Some(m) => elements(m.as_str()),
        None => None,
    }
}

/// The member of an object; where it is missing, that of another name.
pub fn get_member_or(text: &str, key: &str, other: &str) -> (r: Option<String>)
    ensures
        opt_text(r) == member_or(text@, key@, other@),
{
    match member(text, key) {
        Some(m) => Some(m),
        None => member(text, other),
    }
}

} // verus!
