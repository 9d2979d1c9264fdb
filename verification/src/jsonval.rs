//! The trusted boundary to `serde_json`: the response path parses a body and
//! pulls two string fields out of one named object. That extraction depends
//! on the body text and the key names alone, so its result carries a name,
//! `conv_fields_of`, and every contract downstream speaks of that name.

use vstd::prelude::*;

verus! {

/// What parsing a body as JSON and reading two string fields of the object
/// under `outer` yields: the two field texts, or nothing when the body is
/// not a JSON object shaped that way. A function of its arguments alone.
pub uninterp spec fn conv_fields_of(
    body: Seq<char>,
    outer: Seq<char>,
    k1: Seq<char>,
    k2: Seq<char>,
) -> Option<(Seq<char>, Seq<char>)>;

/// Relies on `serde_json::from_str`, `Value::get` and `Value::as_str`:
/// parses the body as JSON and hands back the `k1` and `k2` string fields of
/// the object under `outer`, or nothing when any step finds no match. The
/// empty string is not a JSON document, so it always yields nothing.
#[verifier::external_body]
pub(crate) fn extract_two_fields(body: &str, outer: &str, k1: &str, k2: &str) -> (r: Option<
    (String, String),
>)
    ensures
        r matches Some(p) ==> conv_fields_of(body@, outer@, k1@, k2@) == Some((p.0@, p.1@)),
        r is None ==> conv_fields_of(body@, outer@, k1@, k2@) is None,
        body@.len() == 0 ==> r is None,
{
    let v: serde_json::Value = serde_json::from_str(body).ok()?;
    let object = v.get(outer)?;
    let a = object.get(k1)?.as_str()?;
    let b = object.get(k2)?.as_str()?;
    Some((a.to_owned(), b.to_owned()))
}

} // verus!
