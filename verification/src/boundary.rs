//! Trusted boundary: the few places where the library reaches outside
//! itself, each behind a small declaration whose contract is believed.

use vstd::prelude::*;

verus! {

/// The base64 text that encodes a byte sequence. The alphabet and padding
/// are those of the standard engine of the `base64` crate; the result is a
/// function of the bytes alone.
pub uninterp spec fn b64_of(data: Seq<u8>) -> Seq<char>;

/// What the standard base64 engine's `decode` makes of a text: the bytes,
/// where the text is well-formed base64, and nothing otherwise.
pub uninterp spec fn b64_decode_of(text: Seq<char>) -> Option<Seq<u8>>;

/// Relies on `base64::engine::general_purpose::STANDARD.encode`: the
/// standard alphabet with padding, a pure function of the input bytes.
/// Its `decode` documents that it inverts `encode`, which the second
/// clause records.
#[verifier::external_body]
pub fn b64_encode(data: &[u8]) -> (r: String)
    ensures
        r@ == b64_of(data@),
        b64_decode_of(r@) == Some(data@),
{
    base64::engine::Engine::encode(&base64::engine::general_purpose::STANDARD, data)
}

/// Relies on `base64::engine::general_purpose::STANDARD.decode`: rejects
/// text that is not well-formed base64 and otherwise returns the encoded
/// bytes, a pure function of the input text.
#[verifier::external_body]
pub fn b64_decode(text: &str) -> (r: Option<Vec<u8>>)
    ensures
        match r {
            Some(v) => b64_decode_of(text@) == Some(v@),
            None => b64_decode_of(text@) is None,
        },
{
    match base64::engine::Engine::decode(
        &base64::engine::general_purpose::STANDARD,
        text.as_bytes(),
    ) {
        Ok(v) => Some(v),
        Err(_) => None,
    }
}

/// Relies on `uuid::Uuid::new_v4`: a fresh random 128-bit identifier.
/// Nothing can be promised of a random value.
#[verifier::external_body]
pub fn random_u128() -> u128 {
    uuid::Uuid::new_v4().as_u128()
}

/// Relies on `chrono::Utc::now().to_rfc3339()`: the current UTC time as an
/// RFC 3339 string. Nothing can be promised of the clock's value.
#[verifier::external_body]
pub fn now_rfc3339() -> String {
    chrono::Utc::now().to_rfc3339()
}

/// Relies on `std::path::Path::exists`: a best-effort probe of the file
/// system; the answer depends on what is on disk, so nothing is promised.
#[verifier::external_body]
pub fn path_exists(path: &str) -> bool {
    std::path::Path::new(path).exists()
}

/// Relies on `String::push`: appends one character to the string.
pub assume_specification[ String::push ](s: &mut String, c: char)
    ensures
        final(s)@ == old(s)@.push(c),
;

} // verus!
