//! The text form of 128-bit identifiers.
use vstd::prelude::*;

use crate::crypto::hex_text;
use crate::presentation::pow256;

verus! {

/// `n.to_be_bytes()` for a 128-bit `n`.
pub open spec fn be_bytes_128(n: u128) -> Seq<u8> {
    Seq::new(16, |i: int| ((n as nat / pow256((15 - i) as nat)) % 256) as u8)
}

/// The hyphenated form of a UUID: the 32 lowercase hex digits of its
/// big-endian bytes, grouped 8-4-4-4-12.
pub open spec fn uuid_text(id: u128) -> Seq<char> {
    let h = hex_text(be_bytes_128(id));
    h.subrange(0, 8) + seq!['-'] + h.subrange(8, 12) + seq!['-'] + h.subrange(12, 16) + seq!['-']
        + h.subrange(16, 20) + seq!['-'] + h.subrange(20, 32)
}

/// `uuid::Uuid::from_u128(id).to_string()`: the uuid crate builds the UUID
/// from the big-endian bytes of `id` and displays it hyphenated in lowercase.
#[verifier::external_body]
pub(crate) fn uuid_string(id: u128) -> (s: String)
    ensures
        s@ == uuid_text(id),
{
    uuid::Uuid::from_u128(id).to_string()
}

/// What `uuid::Uuid::parse_str` makes of a text, as its 128-bit value:
/// `None` where it refuses the text.
pub uninterp spec fn parsed_uuid(text: Seq<char>) -> Option<u128>;

/// Calls `uuid::Uuid::parse_str` and reads the UUID with `as_u128`. The
/// contract claims only that the outcome is a function of the text, named
/// [`parsed_uuid`].
#[verifier::external_body]
pub(crate) fn parse_uuid(text: &str) -> (id: Option<u128>)
    ensures
        id == parsed_uuid(text@),
{
    match uuid::Uuid::parse_str(text) {
        Ok(id) => Some(id.as_u128()),
        Err(_) => None,
    }
}

} // verus!
