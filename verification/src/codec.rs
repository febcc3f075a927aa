use base64::engine::general_purpose::{STANDARD, URL_SAFE_NO_PAD};
use base64::Engine;
use hmac::{Hmac, Mac};
use sha2::Sha256;
use vstd::prelude::*;

verus! {

/// Longest input that the base64 encoders accept: beyond it the length of the
/// encoded text would overflow `usize`.
pub open spec fn base64_encodable(len: nat) -> bool {
    len <= 3 * (usize::MAX / 4)
}

/// The text that base64 with the URL-safe alphabet and no padding makes of
/// `data`.
pub uninterp spec fn base64_url_encoding(data: Seq<u8>) -> Seq<char>;

/// The bytes that base64 with the URL-safe alphabet and no padding reads from
/// `text`, or `None` when `text` is not such an encoding.
pub uninterp spec fn base64_url_decoding(text: Seq<char>) -> Option<Seq<u8>>;

/// The text that standard base64 with padding makes of `data`.
pub uninterp spec fn base64_standard_encoding(data: Seq<u8>) -> Seq<char>;

/// The bytes that standard base64 with padding reads from `text`, or `None`
/// when `text` is not such an encoding.
pub uninterp spec fn base64_standard_decoding(text: Seq<char>) -> Option<Seq<u8>>;

/// HMAC-SHA256 of `message` under `key`.
pub uninterp spec fn hmac_sha256(key: Seq<u8>, message: Seq<u8>) -> Seq<u8>;

/// Calls `Engine::encode` of base64's `URL_SAFE_NO_PAD` engine.  The contract
/// names the result, states that the same engine's `decode` reads `data` back
/// from it, and that the text holds no `'.'` (the URL-safe alphabet is
/// `A-Z a-z 0-9 - _`).
#[verifier::external_body]
pub(crate) fn base64_url_encode(data: &[u8]) -> (r: String)
    requires
        base64_encodable(data@.len()),
    ensures
        r@ == base64_url_encoding(data@),
        base64_url_decoding(r@) == Some(data@),
        !r@.contains('.'),
{
    URL_SAFE_NO_PAD.encode(data)
}

/// Calls `Engine::decode` of base64's `URL_SAFE_NO_PAD` engine; an error
/// becomes `None`.
#[verifier::external_body]
pub(crate) fn base64_url_decode(text: &str) -> (r: Option<Vec<u8>>)
    ensures
        match r {
            Some(v) => base64_url_decoding(text@) == Some(v@),
            None => base64_url_decoding(text@) is None,
        },
{
    URL_SAFE_NO_PAD.decode(text).ok()
}

/// Calls `Engine::encode` of base64's `STANDARD` engine.  The contract names
/// the result and states that the same engine's `decode` reads `data` back
/// from it.
#[verifier::external_body]
pub(crate) fn base64_standard_encode(data: &[u8]) -> (r: String)
    requires
        base64_encodable(data@.len()),
    ensures
        r@ == base64_standard_encoding(data@),
        base64_standard_decoding(r@) == Some(data@),
{
    STANDARD.encode(data)
}

/// Calls `Engine::decode` of base64's `STANDARD` engine; an error becomes
/// `None`.
#[verifier::external_body]
pub(crate) fn base64_standard_decode(text: &str) -> (r: Option<Vec<u8>>)
    ensures
        match r {
            Some(v) => base64_standard_decoding(text@) == Some(v@),
            None => base64_standard_decoding(text@) is None,
        },
{
    STANDARD.decode(text).ok()
}

/// Computes HMAC-SHA256 with the `hmac` crate: `Mac::new_from_slice` (which
/// accepts keys of every length for HMAC), `Mac::update` and `Mac::finalize`.
/// The tag is named by `hmac_sha256` and is 32 bytes long.
#[verifier::external_body]
pub(crate) fn hmac_sha256_tag(key: &[u8], message: &[u8]) -> (r: Vec<u8>)
    ensures
        r@ == hmac_sha256(key@, message@),
        r@.len() == 32,
{
    let mut mac = Hmac::<Sha256>::new_from_slice(key).expect("HMAC accepts keys of any length");
    mac.update(message);
    mac.finalize().into_bytes().to_vec()
}

/// Checks a tag with the `hmac` crate's `Mac::verify_slice` (in constant
/// time) after `Mac::new_from_slice` and `Mac::update`: it succeeds exactly
/// when `tag` equals the HMAC-SHA256 of `message` under `key`.
#[verifier::external_body]
pub(crate) fn hmac_sha256_verify(key: &[u8], message: &[u8], tag: &[u8]) -> (r: bool)
    ensures
        r == (tag@ == hmac_sha256(key@, message@)),
{
    let mut mac = Hmac::<Sha256>::new_from_slice(key).expect("HMAC accepts keys of any length");
    mac.update(message);
    mac.verify_slice(tag).is_ok()
}

} // verus!
