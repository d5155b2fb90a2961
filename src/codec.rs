//! The base64 facade: the standard alphabet with padding, over UTF-8 text.
use vstd::prelude::*;
use vstd::utf8::{decode_utf8, valid_utf8, encode_utf8_decode_utf8, encode_utf8_valid_utf8};

verus! {

/// What the standard base64 engine encodes the bytes `b` to.
pub uninterp spec fn base64_of(b: Seq<u8>) -> Seq<char>;

/// What the standard base64 engine decodes the text `s` to; `None` when it refuses it.
pub uninterp spec fn base64_bytes(s: Seq<char>) -> Option<Seq<u8>>;

/// Relies on `Engine::encode` of `base64::engine::general_purpose::STANDARD`:
/// the encoding depends on the bytes alone, and the same engine decodes it back.
#[verifier::external_body]
fn encode_standard(b: &[u8]) -> (r: String)
    ensures
        r@ == base64_of(b@),
        base64_bytes(r@) == Some(b@),
{
    base64::Engine::encode(&base64::engine::general_purpose::STANDARD, b)
}

/// Relies on `Engine::decode` of `base64::engine::general_purpose::STANDARD`:
/// the outcome depends on the text alone.
#[verifier::external_body]
fn decode_standard(s: &str) -> (r: Option<Vec<u8>>)
    ensures
        match r {
            Some(v) => base64_bytes(s@) == Some(v@),
            None => base64_bytes(s@) is None,
        },
{
    base64::Engine::decode(&base64::engine::general_purpose::STANDARD, s).ok()
}

/// Relies on `String::from_utf8`: it accepts exactly the valid UTF-8 byte
/// sequences and decodes them.
#[verifier::external_body]
pub(crate) fn utf8_text(b: Vec<u8>) -> (r: Option<String>)
    ensures
        match r {
            Some(s) => valid_utf8(b@) && s@ == decode_utf8(b@),
            None => !valid_utf8(b@),
        },
{
    String::from_utf8(b).ok()
}

/// The text that base64 text `s` decodes to, when it is base64 of valid UTF-8.
pub open spec fn decoded_text(s: Seq<char>) -> Option<Seq<char>> {
    match base64_bytes(s) {
        Some(b) => if valid_utf8(b) {
            Some(decode_utf8(b))
        } else {
            None
        },
        None => None,
    }
}

/// The base64 text of the UTF-8 encoding of `t`.
pub open spec fn encoded_text(t: Seq<char>) -> Seq<char> {
    base64_of(vstd::utf8::encode_utf8(t))
}

/// The standard base64 engine, with padding.
#[derive(Clone, Copy, Debug)]
pub struct Base64Engine;

impl Base64Engine {
    pub fn new() -> (r: Base64Engine) {
        Base64Engine
    }

    /// The base64 text of `bytes`.
    pub fn encode_bytes(&self, bytes: &[u8]) -> (r: String)
        ensures
            r@ == base64_of(bytes@),
            base64_bytes(r@) == Some(bytes@),
    {
        encode_standard(bytes)
    }

    /// The bytes of base64 text, or `None` when it is no valid base64.
    pub fn decode_bytes(&self, encoded: &str) -> (r: Option<Vec<u8>>)
        ensures
            match r {
                Some(v) => base64_bytes(encoded@) == Some(v@),
                None => base64_bytes(encoded@) is None,
            },
    {
        decode_standard(encoded)
    }

    /// The base64 text of the UTF-8 bytes of `text`; it decodes back to `text`.
    pub fn encode(&self, text: &str) -> (r: String)
        ensures
            r@ == encoded_text(text@),
            decoded_text(r@) == Some(text@),
    {
        let r = encode_standard(text.as_bytes());
        proof {
            encode_utf8_valid_utf8(text@);
            encode_utf8_decode_utf8(text@);
        }
        r
    }

    /// The text that `encoded` holds, or `None` when it is no base64 or the
    /// bytes are no UTF-8.
    pub fn decode_string(&self, encoded: &String) -> (r: Option<String>)
        ensures
            match r {
                Some(s) => decoded_text(encoded@) == Some(s@),
                None => decoded_text(encoded@) is None,
            },
    {
        match decode_standard(encoded.as_str()) {
            Some(bytes) => utf8_text(bytes),
            None => None,
        }
    }
}

} // verus!
