//! Encodings and digests that other crates compute.

use crate::text::decimal_spec;
use base64::engine::general_purpose::URL_SAFE_NO_PAD;
use base64::Engine;
use rand::RngCore;
use sha2::{Digest, Sha256};
use vstd::prelude::*;
use vstd::utf8::{decode_utf8, valid_utf8};

verus! {

/// The characters of the URL-safe base64 alphabet.
pub open spec fn is_urlsafe(c: char) -> bool {
    'A' <= c <= 'Z' || 'a' <= c <= 'z' || '0' <= c <= '9' || c == '-' || c == '_'
}

/// What the `base64` crate's `URL_SAFE_NO_PAD` engine writes for `bytes`.
pub uninterp spec fn base64url_encoding(bytes: Seq<u8>) -> Seq<char>;

/// What the `base64` crate's `URL_SAFE_NO_PAD` engine reads from `text`.
pub uninterp spec fn base64url_reading(text: Seq<char>) -> Option<Seq<u8>>;

/// `encode` of the `base64` crate's `URL_SAFE_NO_PAD` engine: four characters
/// of the URL-safe alphabet for three bytes, without padding, which the same
/// engine reads back. The text has to fit in a `String`.
#[verifier::external_body]
pub(crate) fn base64url_encode(bytes: &[u8]) -> (text: String)
    requires
        (4 * bytes@.len() + 2) / 3 <= isize::MAX,
    ensures
        text@ == base64url_encoding(bytes@),
        text@.len() == (4 * bytes@.len() + 2) / 3,
        forall|i: int| 0 <= i < text@.len() ==> is_urlsafe(#[trigger] text@[i]),
        base64url_reading(text@) == Some(bytes@),
{
    URL_SAFE_NO_PAD.encode(bytes)
}

/// `decode` of the `base64` crate's `URL_SAFE_NO_PAD` engine: the bytes that
/// the text stands for, or none where it is not such an encoding.
#[verifier::external_body]
pub(crate) fn base64url_decode(text: &str) -> (r: Option<Vec<u8>>)
    ensures
        match r {
            Some(bytes) => base64url_reading(text@) == Some(bytes@),
            None => base64url_reading(text@) is None,
        },
{
    URL_SAFE_NO_PAD.decode(text).ok()
}

/// The SHA-256 digest of `bytes`, as the `sha2` crate computes it.
pub uninterp spec fn sha256_of(bytes: Seq<u8>) -> Seq<u8>;

/// `sha2::Sha256::digest`: a digest of 32 bytes.
#[verifier::external_body]
pub(crate) fn sha256(bytes: &[u8]) -> (digest: Vec<u8>)
    ensures
        digest@ == sha256_of(bytes@),
        digest@.len() == 32,
{
    Sha256::digest(bytes).to_vec()
}

/// `rand::thread_rng().fill_bytes` over a new buffer: as many bytes as were
/// asked for, whatever they are.
#[verifier::external_body]
pub(crate) fn random_bytes(len: usize) -> (bytes: Vec<u8>)
    requires
        len <= isize::MAX,
    ensures
        bytes@.len() == len,
{
    let mut bytes = vec![0u8; len];
    rand::thread_rng().fill_bytes(&mut bytes);
    bytes
}

/// What `String::from_utf8_lossy` makes of bytes that are not UTF-8.
pub uninterp spec fn utf8_replaced(bytes: Seq<u8>) -> Seq<char>;

/// The text that bytes stand for; where they are not UTF-8, what is not is
/// replaced.
pub open spec fn utf8_lossy_spec(bytes: Seq<u8>) -> Seq<char> {
    if valid_utf8(bytes) {
        decode_utf8(bytes)
    } else {
        utf8_replaced(bytes)
    }
}

/// `String::from_utf8_lossy`: bytes that are UTF-8 are read as such.
#[verifier::external_body]
pub(crate) fn utf8_lossy(bytes: &[u8]) -> (text: String)
    ensures
        text@ == (if valid_utf8(bytes@) {
            decode_utf8(bytes@)
        } else {
            utf8_replaced(bytes@)
        }),
{
    String::from_utf8_lossy(bytes).into_owned()
}

/// How the `Debug` of `str` writes a text: between quotes, with escapes.
pub uninterp spec fn quoted_text(text: Seq<char>) -> Seq<char>;

/// The `Debug` of `str`: the text between quotes, with escapes for what would
/// not show.
#[verifier::external_body]
pub(crate) fn quoted(text: &str) -> (r: String)
    ensures
        r@ == quoted_text(text@),
{
    format!("{:?}", text)
}

/// The members of a JSON object whose values are strings.
pub uninterp spec fn string_members(value: serde_json::Value) -> Map<Seq<char>, Seq<char>>;

/// What `serde_json` reads from bytes: the string members of the value that
/// they hold, where they hold one.
pub uninterp spec fn json_reading(bytes: Seq<u8>) -> Option<Map<Seq<char>, Seq<char>>>;

/// A JSON value of the `serde_json` crate.
#[verifier::external_type_specification]
#[verifier::external_body]
pub struct ExValue(serde_json::Value);

/// `serde_json::from_slice`: the value that the bytes hold, or none where they
/// are not JSON.
#[verifier::external_body]
pub(crate) fn json_value(bytes: &[u8]) -> (r: Option<serde_json::Value>)
    ensures
        match r {
            Some(value) => json_reading(bytes@) == Some(string_members(value)),
            None => json_reading(bytes@) is None,
        },
{
    serde_json::from_slice(bytes).ok()
}

/// `serde_json::Value::get` and `as_str`: the member of that name, where there
/// is one and it is a string.
#[verifier::external_body]
pub(crate) fn json_string(value: &serde_json::Value, name: &str) -> (r: Option<String>)
    ensures
        match r {
            Some(text) => string_members(*value).contains_key(name@) && string_members(*value)[name@] == text@,
            None => !string_members(*value).contains_key(name@),
        },
{
    Some(value.get(name)?.as_str()?.to_owned())
}

/// The reason that `reqwest::StatusCode` gives for a code.
pub uninterp spec fn status_reason(code: u16) -> Seq<char>;

/// How a status is written: its code, and the reason that goes with it.
pub open spec fn status_text_spec(code: u16) -> Seq<char> {
    decimal_spec(code as nat) + " "@ + status_reason(code)
}

/// `reqwest::StatusCode::from_u16` and its `Display`: the code, a space, and
/// the reason. A code of three digits is always accepted.
#[verifier::external_body]
pub(crate) fn status_text(code: u16) -> (text: String)
    requires
        100 <= code <= 999,
    ensures
        text@ == decimal_spec(code as nat) + " "@ + status_reason(code),
{
    format!("{}", reqwest::StatusCode::from_u16(code).unwrap())
}

} // verus!
