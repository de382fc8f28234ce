//! Encodings and digests the server uses, taken from their crates: base64,
//! UTF-8, SHA-256, HMAC-SHA256, hex, constant-time comparison and JSON.
use vstd::prelude::*;
use vstd::utf8::{decode_utf8, valid_utf8};
use base64::Engine;
use hmac::Mac;
use sha2::Digest;
use subtle::ConstantTimeEq;
use crate::metadata::lookup;

verus! {

/// What `base64::engine::general_purpose::STANDARD.decode` gives for `input`:
/// the decoded bytes, or the text of its `DecodeError`.
pub uninterp spec fn base64_standard_decode(input: Seq<char>) -> Result<Seq<u8>, Seq<char>>;

/// A byte result with its error text taken by its characters.
pub open spec fn bytes_res_view(r: Result<Vec<u8>, String>) -> Result<Seq<u8>, Seq<char>> {
    match r {
        Ok(v) => Ok(v@),
        Err(e) => Err(e@),
    }
}

/// `STANDARD.decode` of the base64 crate (standard alphabet, padded).  The
/// result, and the `Display` text of the error, are named by
/// `base64_standard_decode`.
#[verifier::external_body]
pub(crate) fn base64_decode(input: &str) -> (r: Result<Vec<u8>, String>)
    ensures
        bytes_res_view(r) == base64_standard_decode(input@),
{
    base64::engine::general_purpose::STANDARD.decode(input).map_err(|e| e.to_string())
}

/// The `Display` text of the `FromUtf8Error` for bytes that are not UTF-8.
pub uninterp spec fn utf8_error_text(bytes: Seq<u8>) -> Seq<char>;

/// `String::from_utf8`: succeeds exactly on valid UTF-8, with the characters it
/// encodes; the error text is named by `utf8_error_text`.
#[verifier::external_body]
pub(crate) fn string_from_utf8(bytes: Vec<u8>) -> (r: Result<String, String>)
    ensures
        r is Ok <==> valid_utf8(bytes@),
        r matches Ok(s) ==> s@ == decode_utf8(bytes@),
        r matches Err(e) ==> e@ == utf8_error_text(bytes@),
{
    String::from_utf8(bytes).map_err(|e| e.to_string())
}

/// The SHA-256 digest of `data`.
pub uninterp spec fn sha256(data: Seq<u8>) -> Seq<u8>;

/// `sha2::Sha256::digest`: the 32-byte digest of `data`, named by `sha256`.
#[verifier::external_body]
pub(crate) fn sha256_digest(data: &[u8]) -> (r: Vec<u8>)
    ensures
        r@ == sha256(data@),
        r@.len() == 32,
{
    sha2::Sha256::digest(data).to_vec()
}

/// The HMAC-SHA256 tag of `msg` under `key`.
pub uninterp spec fn hmac_sha256(key: Seq<u8>, msg: Seq<u8>) -> Seq<u8>;

/// `hmac::Hmac::<Sha256>`: keyed with `key` (HMAC takes keys of any length),
/// fed `msg`, finalized; the tag is named by `hmac_sha256`.
#[verifier::external_body]
pub(crate) fn hmac_sha256_tag(key: &[u8], msg: &[u8]) -> (r: Vec<u8>)
    ensures
        r@ == hmac_sha256(key@, msg@),
        r@.len() == 32,
{
    let mut mac = hmac::Hmac::<sha2::Sha256>::new_from_slice(key).expect("HMAC accepts any key length");
    mac.update(msg);
    mac.finalize().into_bytes().to_vec()
}

/// Lower-case hexadecimal digit of `n < 16`.
pub open spec fn hex_digit(n: nat) -> char {
    if n < 10 {
        (('0' as u32) + n) as char
    } else {
        (('a' as u32) + (n - 10)) as char
    }
}

/// Lower-case hexadecimal text of `b`, two digits per byte, high nibble first.
pub open spec fn hex_lower(b: Seq<u8>) -> Seq<char>
    decreases b.len(),
{
    if b.len() == 0 {
        seq![]
    } else {
        hex_lower(b.drop_last()) + seq![hex_digit((b.last() / 16) as nat), hex_digit((b.last() % 16) as nat)]
    }
}

/// `hex::encode`: lower-case hexadecimal, two digits per byte.
#[verifier::external_body]
pub(crate) fn hex_encode(b: &[u8]) -> (r: String)
    ensures
        r@ == hex_lower(b@),
{
    hex::encode(b)
}

/// `subtle::ConstantTimeEq::ct_eq` on byte slices: true exactly when both have
/// the same length and bytes; the time taken does not depend on the contents.
#[verifier::external_body]
pub(crate) fn ct_eq(a: &[u8], b: &[u8]) -> (r: bool)
    ensures
        r == (a@ == b@),
{
    bool::from(a.ct_eq(b))
}

/// A sequence of string pairs, taken by characters.
pub open spec fn pairs_view(v: Seq<(String, String)>) -> Seq<(Seq<char>, Seq<char>)> {
    v.map_values(|p: (String, String)| (p.0@, p.1@))
}

/// The JSON text `serde_json` writes for an object holding the string pairs
/// `pairs` (keys in `serde_json::Map` order, later duplicates replacing earlier).
pub uninterp spec fn json_object_text(pairs: Seq<(Seq<char>, Seq<char>)>) -> Seq<char>;

/// Serialises string pairs as a JSON object with `serde_json`; the text is named
/// by `json_object_text`.  Read back with `serde_json` (see `json_string_map`),
/// the text gives an object of string values in which, when no key repeats,
/// each key holds the value it was written with.
#[verifier::external_body]
pub(crate) fn json_object(pairs: &[(String, String)]) -> (r: String)
    ensures
        r@ == json_object_text(pairs_view(pairs@)),
        (forall|i: int, j: int| 0 <= i < j < pairs@.len() ==> #[trigger] pairs@[i].0@ != #[trigger] pairs@[j].0@)
            ==> json_string_map(r@) is Some && forall|k: Seq<char>| #[trigger] lookup(json_string_map(r@)->0, k)
            == lookup(pairs_view(pairs@), k),
{
    let mut m = serde_json::Map::new();
    for (k, v) in pairs {
        m.insert(k.clone(), serde_json::Value::String(v.clone()));
    }
    serde_json::Value::Object(m).to_string()
}

/// The string-to-string object a JSON text holds, in `serde_json::Map` order,
/// or `None` when it is not such an object.
pub uninterp spec fn json_string_map(text: Seq<char>) -> Option<Seq<(Seq<char>, Seq<char>)>>;

/// Reads a JSON object whose values are all strings with `serde_json`; the
/// pairs are named by `json_string_map`.
#[verifier::external_body]
pub(crate) fn parse_json_string_map(text: &str) -> (r: Option<Vec<(String, String)>>)
    ensures
        match r {
            Some(v) => json_string_map(text@) == Some(pairs_view(v@)),
            None => json_string_map(text@) is None,
        },
{
    serde_json::from_str::<serde_json::Map<String, serde_json::Value>>(text).ok().and_then(|m| {
        m.into_iter().map(|(k, v)| v.as_str().map(|s| (k, s.to_string()))).collect()
    })
}

/// A sequence of strings, taken by characters.
pub open spec fn strings_view(v: Seq<String>) -> Seq<Seq<char>> {
    v.map_values(|s: String| s@)
}

/// What `serde_json::from_str::<Vec<String>>` gives for `text`: the strings of
/// a JSON array of strings, or the text of the error.
pub uninterp spec fn json_string_list(text: Seq<char>) -> Result<Seq<Seq<char>>, Seq<char>>;

/// Reads a JSON array of strings with `serde_json`; the outcome is named by
/// `json_string_list`, the error by its `Display` text.
#[verifier::external_body]
pub(crate) fn parse_json_string_list(text: &str) -> (r: Result<Vec<String>, String>)
    ensures
        match r {
            Ok(v) => json_string_list(text@) == Ok::<Seq<Seq<char>>, Seq<char>>(strings_view(v@)),
            Err(e) => json_string_list(text@) == Err::<Seq<Seq<char>>, Seq<char>>(e@),
        },
{
    serde_json::from_str::<Vec<String>>(text).map_err(|e| e.to_string())
}

/// The JSON text `serde_json::to_string` writes for a list of strings.
pub uninterp spec fn json_string_list_text(items: Seq<Seq<char>>) -> Seq<char>;

/// Writes a list of strings as a JSON array with `serde_json` (which cannot
/// fail for strings).  The text is named by `json_string_list_text`; read back
/// with `serde_json` it gives the same strings in the same order.
#[verifier::external_body]
pub(crate) fn json_string_list_of(items: &[String]) -> (r: String)
    ensures
        r@ == json_string_list_text(strings_view(items@)),
        json_string_list(r@) is Ok && json_string_list(r@)->Ok_0 == strings_view(items@),
{
    serde_json::to_string(items).unwrap_or_default()
}

/// What `String::from_utf8_lossy` gives for `bytes`: invalid sequences are
/// replaced by U+FFFD.
pub uninterp spec fn utf8_lossy(bytes: Seq<u8>) -> Seq<char>;

/// `String::from_utf8_lossy`; the text is named by `utf8_lossy`, and is the
/// decoded text when the bytes are valid UTF-8.
#[verifier::external_body]
pub(crate) fn from_utf8_lossy(bytes: &[u8]) -> (r: String)
    ensures
        r@ == utf8_lossy(bytes@),
        valid_utf8(bytes@) ==> r@ == decode_utf8(bytes@),
{
    String::from_utf8_lossy(bytes).to_string()
}

} // verus!
