//! Hashes, MACs and hexadecimal text: what the library takes from `sha2`,
//! `hmac` and `hex`.
use vstd::prelude::*;
use vstd::string::StringSliceAdditionalSpecFns;

use hmac::Mac;
use sha2::Digest;

use crate::ascii::{all_hex, is_hex};

verus! {

/// The SHA-256 digest of `data`.
pub uninterp spec fn sha256(data: Seq<u8>) -> Seq<u8>;

/// The HMAC-SHA256 tag of `message` under `key`.
pub uninterp spec fn hmac_sha256(key: Seq<u8>, message: Seq<u8>) -> Seq<u8>;

/// The value of one hexadecimal digit.
pub open spec fn hex_digit_value(b: u8) -> u8 {
    if 48 <= b <= 57 {
        (b - 48) as u8
    } else if 97 <= b <= 102 {
        (b - 87) as u8
    } else {
        (b - 55) as u8
    }
}

/// The bytes an even run of hexadecimal digits denotes, two digits a byte,
/// high nibble first.
pub open spec fn hex_bytes(text: Seq<u8>) -> Seq<u8> {
    Seq::new(
        text.len() / 2,
        |i: int| (hex_digit_value(text[2 * i]) * 16 + hex_digit_value(text[2 * i + 1])) as u8,
    )
}

/// The lowercase hexadecimal digit of a nibble.
pub open spec fn nibble_char(n: u8) -> char {
    if n < 10 {
        (48 + n) as char
    } else {
        (87 + n) as char
    }
}

/// Lowercase hexadecimal text of `data`, two digits a byte.
pub open spec fn hex_text(data: Seq<u8>) -> Seq<char> {
    Seq::new(
        data.len() * 2,
        |i: int| if i % 2 == 0 {
            nibble_char(data[i / 2] / 16)
        } else {
            nibble_char(data[i / 2] % 16)
        },
    )
}

/// `sha2::Sha256::digest`: the 32-byte digest of `data`.
#[verifier::external_body]
pub(crate) fn sha256_digest(data: &[u8]) -> (digest: Vec<u8>)
    ensures
        digest@ == sha256(data@),
        digest@.len() == 32,
{
    sha2::Sha256::digest(data).to_vec()
}

/// `hex::encode`: lowercase hexadecimal, two digits per byte.
#[verifier::external_body]
pub(crate) fn hex_encode(data: &[u8]) -> (text: String)
    ensures
        text@ == hex_text(data@),
{
    hex::encode(data)
}

/// `hex::decode`: an even number of hexadecimal digits of either case,
/// decoded two digits a byte; anything else is refused.
#[verifier::external_body]
pub(crate) fn hex_decode(text: &str) -> (decoded: Option<Vec<u8>>)
    ensures
        decoded is Some <==> (text.spec_bytes().len() % 2 == 0 && all_hex(text.spec_bytes())),
        decoded matches Some(b) ==> b@ == hex_bytes(text.spec_bytes()),
{
    match hex::decode(text) {
        Ok(b) => Some(b),
        Err(_) => None,
    }
}

/// `Hmac::<Sha256>::new_from_slice`, `update` and `verify_slice`: whether
/// `tag` is the HMAC-SHA256 of `message` under `key`, compared in constant
/// time. The key may have any length.
#[verifier::external_body]
pub(crate) fn hmac_sha256_matches(key: &[u8], message: &[u8], tag: &[u8]) -> (matches: bool)
    ensures
        matches == (tag@ == hmac_sha256(key@, message@)),
{
    match hmac::Hmac::<sha2::Sha256>::new_from_slice(key) {
        Ok(mut mac) => {
            mac.update(message);
            mac.verify_slice(tag).is_ok()
        },
        Err(_) => false,
    }
}

} // verus!
