use vstd::prelude::*;

verus! {

/// The string at top-level field `key` of JSON document `doc`: absent when
/// `doc` is not valid JSON, when `key` is missing, or when the field is not a
/// string. A function of the document text and the key alone.
pub uninterp spec fn string_field_of(doc: Seq<char>, key: Seq<char>) -> Option<Seq<char>>;

/// The integer at top-level field `key` of JSON document `doc`: absent when
/// `doc` is not valid JSON, when `key` is missing, or when the field is not
/// an integer that fits. A function of the document text and the key alone.
pub uninterp spec fn int_field_of(doc: Seq<char>, key: Seq<char>) -> Option<i64>;

/// Relies on serde_json::from_str, Value::get and Value::as_str: parses `doc`
/// and reads top-level field `key` as a string; `None` on a parse failure, an
/// absent key, or a non-string field.
#[verifier::external_body]
fn json_string_field(doc: &str, key: &str) -> (r: Option<String>)
    ensures
        r matches Some(s) ==> string_field_of(doc@, key@) == Some(s@),
        r is None ==> string_field_of(doc@, key@) is None,
{
    serde_json::from_str::<serde_json::Value>(doc).ok().and_then(
        |v| v.get(key).and_then(|f| f.as_str()).map(|s| s.to_string()),
    )
}

/// Relies on serde_json::from_str, Value::get and Value::as_i64: parses `doc`
/// and reads top-level field `key` as a signed integer; `None` on a parse
/// failure, an absent key, or a field that is not such an integer.
#[verifier::external_body]
fn json_int_field(doc: &str, key: &str) -> (r: Option<i64>)
    ensures
        r matches Some(n) ==> int_field_of(doc@, key@) == Some(n),
        r is None ==> int_field_of(doc@, key@) is None,
{
    serde_json::from_str::<serde_json::Value>(doc).ok().and_then(
        |v| v.get(key).and_then(|f| f.as_i64()),
    )
}

/// Reads string field `key` from the request document `json`. The request
/// decoding is tolerant: a malformed document, an absent key, or a non-string
/// field all fall back to the empty string rather than failing the request.
pub fn get_string_json(json: &str, key: &str) -> (r: String)
    ensures
        r@ == match string_field_of(json@, key@) {
            Some(s) => s,
            None => Seq::<char>::empty(),
        },
{
    match json_string_field(json, key) {
        Some(s) => s,
        None => String::new(),
    }
}

/// Reads integer field `key` from the request document `json`. The request
/// decoding is tolerant: a malformed document, an absent key, or a
/// non-integer field all fall back to zero rather than failing the request.
pub fn get_int_json(json: &str, key: &str) -> (r: i64)
    ensures
        r == match int_field_of(json@, key@) {
            Some(n) => n,
            None => 0i64,
        },
{
    match json_int_field(json, key) {
        Some(n) => n,
        None => 0,
    }
}

} // verus!
