//! Periodic informational overlay events: which category a cycle shows is a
//! stable function of the cycle number.
use vstd::prelude::*;
use vstd::utf8::encode_utf8;

use crate::crypto::{sha256, sha256_digest};
use crate::presentation::{append_range, be_bytes, be_u64_prefix, be_value, push_be_bytes};

verus! {

/// What a cycle shows on the overlay.
#[derive(Debug, Clone, Copy, PartialEq, Eq, Structural)]
pub enum InformationalChoice {
    /// Nothing is shown this cycle.
    Nothing,
    InterfaceInfo,
    Weather,
}

/// Why an informational cycle could not be chosen.
#[derive(Debug, Clone, Copy, PartialEq, Eq, Structural)]
pub enum InformationalError {
    ZeroInterval,
}

/// The cycle a time falls in: whole intervals since the Unix epoch.
pub fn current_cycle(unix_seconds: u64, interval_seconds: u64) -> (res: Result<u64, InformationalError>)
    ensures
        interval_seconds == 0 ==> res == Err::<u64, InformationalError>(InformationalError::ZeroInterval),
        interval_seconds > 0 ==> res == Ok::<u64, InformationalError>((unix_seconds / interval_seconds) as u64),
{
    if interval_seconds == 0 {
        return Err(InformationalError::ZeroInterval);
    }
    Ok(unix_seconds / interval_seconds)
}

/// The message whose digest gives a cycle's draw for a purpose.
pub open spec fn draw_message(cycle: u64, purpose: Seq<char>) -> Seq<u8> {
    encode_utf8("lightning-goats-info-v1"@) + be_bytes(cycle) + encode_utf8(purpose)
}

/// The 64 random bits of a cycle and purpose: the first eight bytes of the
/// SHA-256 of the domain separator, the cycle's big-endian bytes and the
/// purpose, read big-endian. Divided by 2^64 they are the draw in [0, 1).
pub open spec fn draw_bits(cycle: u64, purpose: Seq<char>) -> nat {
    be_value(sha256(draw_message(cycle, purpose)).subrange(0, 8))
}

/// The random bits of a cycle's draw for a purpose (see `draw_bits`).
pub fn stable_draw_bits(cycle: u64, purpose: &str) -> (bits: u64)
    ensures
        bits == draw_bits(cycle, purpose@),
{
    let mut message: Vec<u8> = Vec::new();
    let domain = "lightning-goats-info-v1".as_bytes();
    append_range(&mut message, domain, 0, domain.len());
    push_be_bytes(&mut message, cycle);
    let p = purpose.as_bytes();
    append_range(&mut message, p, 0, p.len());
    proof {
        assert(domain@.subrange(0, domain@.len() as int) =~= domain@);
        assert(p@.subrange(0, p@.len() as int) =~= p@);
        assert(message@ =~= draw_message(cycle, purpose@));
    }
    let digest = sha256_digest(message.as_slice());
    be_u64_prefix(&digest)
}

} // verus!
