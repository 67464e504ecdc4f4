//! Hashing and message authentication used by the evidence ledger, the
//! calibration evidence digests and request signing.
use hmac::digest::KeyInit;
use hmac::{Hmac, Mac};
use sha2::{Digest, Sha256};
use vstd::prelude::*;

verus! {

/// The SHA-256 digest of a byte string.
pub uninterp spec fn sha256(data: Seq<u8>) -> Seq<u8>;

/// The HMAC-SHA256 tag of `message` under `key`.
pub uninterp spec fn hmac_sha256(key: Seq<u8>, message: Seq<u8>) -> Seq<u8>;

/// One lower-case hexadecimal digit.
pub open spec fn hex_digit(n: int) -> char {
    if n < 10 {
        (48 + n) as char
    } else {
        (87 + n) as char
    }
}

/// Lower-case hexadecimal rendering of a byte string, two digits per byte,
/// high nibble first.
pub open spec fn hex_lower(bytes: Seq<u8>) -> Seq<char> {
    Seq::new(
        2 * bytes.len(),
        |i: int|
            if i % 2 == 0 {
                hex_digit((bytes[i / 2] / 16) as int)
            } else {
                hex_digit((bytes[i / 2] % 16) as int)
            },
    )
}

/// The lower-case hex SHA-256 digest of a byte string.
pub open spec fn sha256_hex(data: Seq<u8>) -> Seq<char> {
    hex_lower(sha256(data))
}

/// Calls `sha2::Sha256::digest`; the result is the 32-byte SHA-256 digest of
/// `data`, named `sha256`.
#[verifier::external_body]
fn sha256_bytes(data: &[u8]) -> (r: Vec<u8>)
    ensures
        r@ == sha256(data@),
        r@.len() == 32,
{
    Sha256::digest(data).to_vec()
}

/// Calls `hex::encode`, which renders each byte as two lower-case hex digits,
/// high nibble first.
#[verifier::external_body]
fn hex_encode(bytes: &[u8]) -> (r: String)
    ensures
        r@ == hex_lower(bytes@),
{
    hex::encode(bytes)
}

/// Calls `Hmac::<Sha256>::new_from_slice`, `update` and `finalize`. For HMAC
/// every key length is accepted (long keys are hashed, short keys padded), so
/// the result is always present; it is the 32-byte tag named `hmac_sha256`.
#[verifier::external_body]
fn hmac_sha256_bytes(key: &[u8], message: &[u8]) -> (r: Option<Vec<u8>>)
    ensures
        r is Some,
        r matches Some(tag) ==> tag@ == hmac_sha256(key@, message@) && tag@.len() == 32,
{
    let mut mac = <Hmac<Sha256> as KeyInit>::new_from_slice(key).ok()?;
    mac.update(message);
    Some(mac.finalize().into_bytes().to_vec())
}

/// The lower-case hex SHA-256 digest of `data`.
pub fn digest_hex(data: &[u8]) -> (r: String)
    ensures
        r@ == sha256_hex(data@),
        r@.len() == 64,
{
    let digest = sha256_bytes(data);
    hex_encode(digest.as_slice())
}

/// The lower-case hex HMAC-SHA256 tag of `message` under `key`.
pub fn hmac_hex(key: &[u8], message: &[u8]) -> (r: String)
    ensures
        r@ == hex_lower(hmac_sha256(key@, message@)),
        r@.len() == 64,
{
    let tag = hmac_sha256_bytes(key, message);
    match tag {
        Some(tag) => hex_encode(tag.as_slice()),
        None => {
            // The wrapper's contract rules this branch out.
            assert(false);
            String::new()
        },
    }
}

} // verus!
