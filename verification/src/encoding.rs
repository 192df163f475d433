//! Textual encodings used on the wire: standard base64 for binary fields
//! and UTF-8 for plaintext. The outside codecs are taken on trust through
//! named results; everything built on them is verified.

use vstd::prelude::*;
use vstd::utf8::{encode_utf8, valid_utf8};

verus! {

/// The base64 (standard alphabet, padded) encoding of a byte sequence,
/// as computed by `base64::engine::general_purpose::STANDARD`.
pub uninterp spec fn b64_of(bytes: Seq<u8>) -> Seq<char>;

/// What `base64::engine::general_purpose::STANDARD` decodes a text to:
/// `Some` exactly on canonical encodings (the engine requires canonical
/// padding and rejects set trailing bits), `None` otherwise.
pub uninterp spec fn b64_decode_of(text: Seq<char>) -> Option<Seq<u8>>;

/// Relies on base64's `Engine::encode` with the `STANDARD` engine: the
/// result is the canonical padded encoding of `bytes`, and decoding it
/// with the same engine gives `bytes` back.
#[verifier::external_body]
pub(crate) fn b64_encode(bytes: &Vec<u8>) -> (r: String)
    ensures
        r@ == b64_of(bytes@),
        b64_decode_of(r@) == Some(bytes@),
{
    base64::Engine::encode(&base64::prelude::BASE64_STANDARD, bytes)
}

/// Relies on base64's `Engine::decode` with the `STANDARD` engine: it
/// succeeds exactly on canonical padded encodings (the engine is built
/// with `RequireCanonical` padding and rejects set trailing bits), so a
/// decoded text is the canonical encoding of its decoding.
#[verifier::external_body]
pub(crate) fn b64_decode(text: &str) -> (r: Option<Vec<u8>>)
    ensures
        r is Some <==> b64_decode_of(text@) is Some,
        r is Some ==> Some(r.unwrap()@) == b64_decode_of(text@),
        r is Some ==> text@ == b64_of(r.unwrap()@),
{
    match base64::Engine::decode(&base64::prelude::BASE64_STANDARD, text) {
        Ok(v) => Some(v),
        Err(_) => None,
    }
}

/// Relies on `String::from_utf8`: it returns the string whose UTF-8
/// encoding is `bytes`, and fails exactly when `bytes` is not valid
/// UTF-8. `vstd::utf8` supplies the meaning of `valid_utf8` and
/// `encode_utf8`.
#[verifier::external_body]
pub(crate) fn string_from_utf8(bytes: Vec<u8>) -> (r: Option<String>)
    ensures
        r is Some <==> valid_utf8(bytes@),
        r is Some ==> encode_utf8(r.unwrap()@) == bytes@,
{
    match String::from_utf8(bytes) {
        Ok(s) => Some(s),
        Err(_) => None,
    }
}

/// Relies on `String::push`: appends one character.
pub assume_specification[ String::push ](s: &mut String, c: char)
    ensures
        final(s)@ == old(s)@.push(c),
;

} // verus!
