use vstd::prelude::*;

verus! {

/// `serde_json::Value`, carried through as an opaque value.
#[verifier::external_type_specification]
#[verifier::external_body]
pub struct ExValue(serde_json::Value);

/// `serde_json::Error`, the failure of a parse.
#[verifier::external_type_specification]
#[verifier::external_body]
pub struct ExJsonError(serde_json::Error);

/// Whether serde_json accepts a text as one JSON value.
pub uninterp spec fn json_accepts(text: Seq<char>) -> bool;

/// The JSON value that serde_json reads from a text it accepts.
pub uninterp spec fn parsed_of(text: Seq<char>) -> serde_json::Value;

/// The member of a JSON object under a key, as `serde_json::Value::get` finds it.
pub uninterp spec fn member_of(v: serde_json::Value, key: Seq<char>) -> Option<serde_json::Value>;

/// A JSON value as an unsigned integer, as `serde_json::Value::as_u64` reads it.
pub uninterp spec fn u64_of(v: serde_json::Value) -> Option<u64>;

/// A JSON value as a string, as `serde_json::Value::as_str` reads it.
pub uninterp spec fn str_of(v: serde_json::Value) -> Option<Seq<char>>;

/// The compact JSON text of a value, as its `Display` writes it.
pub uninterp spec fn json_text_of(v: serde_json::Value) -> Seq<char>;

/// A string as a JSON string value.
pub uninterp spec fn json_string_of(s: Seq<char>) -> serde_json::Value;

/// Relies on `serde_json::from_str`: parses a text into a JSON value; whether
/// it succeeds, and the value, depend on the text alone.
#[verifier::external_body]
pub(crate) fn parse_value(text: &str) -> (r: Result<serde_json::Value, serde_json::Error>)
    ensures
        r is Ok <==> json_accepts(text@),
        r is Ok ==> r->Ok_0 == parsed_of(text@),
{
    serde_json::from_str(text)
}

/// Relies on `serde_json::Value::get`: the member of an object under `key`.
#[verifier::external_body]
pub(crate) fn member<'a>(v: &'a serde_json::Value, key: &str) -> (r: Option<&'a serde_json::Value>)
    ensures
        match r {
            Some(x) => member_of(*v, key@) == Some(*x),
            None => member_of(*v, key@) is None,
        },
{
    v.get(key)
}

/// Relies on `serde_json::Value::as_u64`: the value as an unsigned integer.
pub assume_specification[ serde_json::Value::as_u64 ](v: &serde_json::Value) -> (r: Option<u64>)
    ensures
        r == u64_of(*v),
;

/// Relies on `serde_json::Value::as_str`: the value as a string.
pub assume_specification[ serde_json::Value::as_str ](v: &serde_json::Value) -> (r: Option<&str>)
    ensures
        match r {
            Some(s) => str_of(*v) == Some(s@),
            None => str_of(*v) is None,
        },
;

/// Relies on the derived `Clone` of `serde_json::Value`: a copy equal to the
/// value copied.
pub assume_specification[ <serde_json::Value as Clone>::clone ](v: &serde_json::Value) -> (r:
    serde_json::Value)
    ensures
        r == *v,
;

/// Relies on the `Display` of `serde_json::Value`: the value written as
/// compact JSON text, which depends on the value alone.
#[verifier::external_body]
pub(crate) fn value_text(v: &serde_json::Value) -> (r: String)
    ensures
        r@ == json_text_of(*v),
{
    v.to_string()
}

/// Relies on `serde_json::Value::String`: a string as a JSON value.
#[verifier::external_body]
pub(crate) fn string_value(s: &str) -> (r: serde_json::Value)
    ensures
        r == json_string_of(s@),
{
    serde_json::Value::String(s.to_owned())
}

} // verus!
