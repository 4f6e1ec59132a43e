//! The calls into the crates that give values their text: `bson` for object
//! ids and decimals, `chrono` for date-times, `serde_json` for JSON.
//!
//! Nothing in this file is proved. Each function states what the outside
//! function is documented to return, or gives that result a name.

use vstd::prelude::*;

verus! {

/// `serde_json::Error`, as a failed serialization hands it back. Nothing is
/// known of what it holds.
#[verifier::external_type_specification]
#[verifier::external_body]
pub struct ExJsonError(serde_json::Error);

/// The lowercase hexadecimal digit of a value below sixteen.
pub open spec fn hex_digit(nibble: int) -> char {
    "0123456789abcdef"@[nibble]
}

/// The bytes written in lowercase hexadecimal, two digits for each byte,
/// the high half first.
pub open spec fn hex_text(bytes: Seq<u8>) -> Seq<char> {
    Seq::new(
        2 * bytes.len(),
        |i: int|
            if i % 2 == 0 {
                hex_digit(bytes[i / 2] as int / 16)
            } else {
                hex_digit(bytes[i / 2] as int % 16)
            },
    )
}

/// The text of an object id.
///
/// Trusted: `bson::oid::ObjectId::to_hex` on the id made of `bytes` by
/// `ObjectId::from_bytes`. It hands the twelve bytes to `hex::encode`, which
/// writes each byte as two digits out of `0123456789abcdef`, high half first.
#[verifier::external_body]
pub(crate) fn object_id_hex(bytes: &[u8; 12]) -> (r: String)
    ensures
        r@ == hex_text(bytes@),
{
    bson::oid::ObjectId::from_bytes(*bytes).to_hex()
}

/// The RFC 3339 text, in UTC, of the instant `millis` milliseconds after the
/// Unix epoch, as `chrono` writes it.
pub uninterp spec fn rfc3339_utc(millis: i64) -> Seq<char>;

/// The text of a date-time.
///
/// Trusted: `bson::DateTime::from_millis`, its conversion into
/// `chrono::DateTime<Utc>` (which puts an instant outside chrono's range at
/// the nearest end of it) and `chrono::DateTime::to_rfc3339`. The result
/// depends on `millis` alone; the contract only gives it its name.
#[verifier::external_body]
pub(crate) fn datetime_rfc3339(millis: i64) -> (r: String)
    ensures
        r@ == rfc3339_utc(millis),
{
    chrono::DateTime::<chrono::Utc>::from(bson::DateTime::from_millis(millis)).to_rfc3339()
}

/// The base-10 text of the decimal with these sixteen bytes, as `bson`
/// writes it.
pub uninterp spec fn decimal128_string(bytes: Seq<u8>) -> Seq<char>;

/// The text of a high-precision decimal.
///
/// Trusted: `to_string` on the `bson::Decimal128` made of `bytes` by
/// `Decimal128::from_bytes`. Its `Display` reads sign, exponent and
/// coefficient out of the bytes and writes digits; no binary floating point
/// is involved. The contract only gives the result its name.
#[verifier::external_body]
pub(crate) fn decimal128_text(bytes: &[u8; 16]) -> (r: String)
    ensures
        r@ == decimal128_string(bytes@),
{
    bson::Decimal128::from_bytes(*bytes).to_string()
}

/// The JSON text of an embedded document, or `None` where `serde_json`
/// reports an error.
pub uninterp spec fn document_json_text(document: bson::Document) -> Option<Seq<char>>;

/// Serializes an embedded document.
///
/// Trusted: `serde_json::to_string` on a `bson::Document`. The result
/// depends on the document alone; the contract only gives it its name.
#[verifier::external_body]
pub(crate) fn document_json(document: &bson::Document) -> (r: Result<String, serde_json::Error>)
    ensures
        match r {
            Ok(text) => document_json_text(*document) == Some(text@),
            Err(_) => document_json_text(*document).is_none(),
        },
{
    serde_json::to_string(document)
}

/// The JSON text of an array, or `None` where `serde_json` reports an error.
pub uninterp spec fn array_json_text(elements: Seq<bson::Bson>) -> Option<Seq<char>>;

/// Serializes an array.
///
/// Trusted: `serde_json::to_string` on a vector of `bson::Bson`. The result
/// depends on the elements alone; the contract only gives it its name.
#[verifier::external_body]
pub(crate) fn array_json(elements: &Vec<bson::Bson>) -> (r: Result<String, serde_json::Error>)
    ensures
        match r {
            Ok(text) => array_json_text(elements@) == Some(text@),
            Err(_) => array_json_text(elements@).is_none(),
        },
{
    serde_json::to_string(elements)
}

/// The JSON text of a binary payload with its subtype, or `None` where
/// `serde_json` reports an error.
pub uninterp spec fn binary_json_text(subtype: u8, bytes: Seq<u8>) -> Option<Seq<char>>;

/// Serializes a binary payload.
///
/// Trusted: `serde_json::to_string` on the `bson::Bson::Binary` that holds
/// these bytes under the subtype that `bson::spec::BinarySubtype::from`
/// gives for the number. The contract only gives the result its name.
#[verifier::external_body]
pub(crate) fn binary_json(subtype: u8, bytes: &Vec<u8>) -> (r: Result<String, serde_json::Error>)
    ensures
        match r {
            Ok(text) => binary_json_text(subtype, bytes@) == Some(text@),
            Err(_) => binary_json_text(subtype, bytes@).is_none(),
        },
{
    let subtype = bson::spec::BinarySubtype::from(subtype);
    let binary = bson::Binary { subtype, bytes: bytes.clone() };
    serde_json::to_string(&bson::Bson::Binary(binary))
}

/// The JSON text of an object with two members whose values are strings:
/// first `first_key` with `first`, then `second_key` with `second`.
pub uninterp spec fn string_pair_json_text(
    first_key: Seq<char>,
    first: Seq<char>,
    second_key: Seq<char>,
    second: Seq<char>,
) -> Seq<char>;

/// Writes two named strings as one JSON object.
///
/// Trusted: a `serde_json::Map` filled by two calls of `insert` with
/// `serde_json::Value::String` values, wrapped in `Value::Object` and written
/// by `to_string`, which cannot fail on a `String`. The contract only gives
/// the result its name.
#[verifier::external_body]
pub(crate) fn string_pair_json(first_key: &str, first: &str, second_key: &str, second: &str) -> (r:
    String)
    ensures
        r@ == string_pair_json_text(first_key@, first@, second_key@, second@),
{
    let mut members = serde_json::Map::new();
    members.insert(first_key.to_owned(), serde_json::Value::String(first.to_owned()));
    members.insert(second_key.to_owned(), serde_json::Value::String(second.to_owned()));
    serde_json::Value::Object(members).to_string()
}

/// The JSON text of an object with two members: first `code_key` with the
/// string `code`, then `scope_key` with the document `scope`; or `None`
/// where `serde_json` reports an error for the document.
pub uninterp spec fn code_with_scope_json_text(
    code_key: Seq<char>,
    code: Seq<char>,
    scope_key: Seq<char>,
    scope: bson::Document,
) -> Option<Seq<char>>;

/// Writes a piece of code and its scope as one JSON object.
///
/// Trusted: `serde_json::to_value` on the `bson::Document`, then a
/// `serde_json::Map` filled by two calls of `insert`, wrapped in
/// `Value::Object` and written by `to_string`. The contract only gives the
/// result its name.
#[verifier::external_body]
pub(crate) fn code_with_scope_json(
    code_key: &str,
    code: &str,
    scope_key: &str,
    scope: &bson::Document,
) -> (r: Result<String, serde_json::Error>)
    ensures
        match r {
            Ok(text) => code_with_scope_json_text(code_key@, code@, scope_key@, *scope) == Some(
                text@,
            ),
            Err(_) => code_with_scope_json_text(code_key@, code@, scope_key@, *scope).is_none(),
        },
{
    let scope = serde_json::to_value(scope)?;
    let mut members = serde_json::Map::new();
    members.insert(code_key.to_owned(), serde_json::Value::String(code.to_owned()));
    members.insert(scope_key.to_owned(), scope);
    Ok(serde_json::Value::Object(members).to_string())
}

} // verus!
