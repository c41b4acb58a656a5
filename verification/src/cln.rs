//! The loopback CLNRest client's checks: where the rune may be sent, and
//! what a paid-invoice answer must hold.
use vstd::prelude::*;
use vstd::string::{StrSliceExecFns, StringSliceAdditionalSpecFns};
use vstd::utf8::{decode_utf8, encode_utf8};

use crate::ascii::eq_ignore_ascii_case;
use crate::config::{loopback, IpAddress};
use crate::strike::same_hex;
use crate::text::{blank, is_blank, parse_u64, same_text, trim, trimmed, u64_text};
use crate::url::{parse_url, parsed_url, UrlModel, UrlParts};

verus! {

/// The JSON-RPC error code CLN answers a `waitanyinvoice` timeout with.
pub const WAITANYINVOICE_TIMEOUT_CODE: i64 = 904;

/// Why a CLNRest setting or answer was refused.
#[derive(Debug, Clone, Copy, PartialEq, Eq, Structural)]
pub enum ClnError {
    EmptyRune,
    InvalidUrl,
    UnsupportedScheme,
    MissingHost,
    NotLoopbackIp,
    NotLoopback,
    InvalidMsat,
    NotPaid,
    PaidAtRange,
    Rpc,
}

/// A millisatoshi amount in any of the forms CLNRest writes it.
#[derive(Debug, Clone, PartialEq, Eq)]
pub enum MsatValue {
    Integer(u64),
    Text(String),
    Object { msat: u64 },
}

/// The bytes of a text without a trailing `msat`.
pub open spec fn without_msat(b: Seq<u8>) -> Seq<u8> {
    if b.len() >= 4 && b.subrange(b.len() - 4, b.len() as int) == seq![109u8, 115u8, 97u8, 116u8] {
        b.subrange(0, b.len() - 4)
    } else {
        b
    }
}

/// The amount a text denotes: an optional `msat` suffix is dropped,
/// surrounding whitespace trimmed, and the rest read as a `u64`.
pub open spec fn msat_text(s: Seq<char>) -> Option<nat> {
    u64_text(encode_utf8(trimmed(decode_utf8(without_msat(encode_utf8(s))))))
}

impl MsatValue {
    pub fn into_msat(self) -> (res: Result<u64, ClnError>)
        ensures
            self matches MsatValue::Integer(v) ==> res == Ok::<u64, ClnError>(v),
            self matches MsatValue::Object { msat } ==> res == Ok::<u64, ClnError>(msat),
            self matches MsatValue::Text(t) ==> match msat_text(t@) {
                Some(v) => res == Ok::<u64, ClnError>(v as u64),
                None => res == Err::<u64, ClnError>(ClnError::InvalidMsat),
            },
    {
        match self {
            MsatValue::Integer(value) => Ok(value),
            MsatValue::Object { msat } => Ok(msat),
            MsatValue::Text(value) => {
                let s = value.as_str();
                let b = s.as_bytes();
                let n = b.len();
                proof {
                    vstd::utf8::encode_utf8_valid_utf8(s@);
                }
                let stripped: &str = if n >= 4 && b[n - 4] == 109 && b[n - 3] == 115 && b[n - 2] == 97
                    && b[n - 1] == 116 {
                    proof {
                        vstd::utf8::is_char_boundary_iff_not_is_continuation_byte(b@, n - 4);
                        assert(b@.subrange(n - 4, n as int) =~= seq![109u8, 115u8, 97u8, 116u8]);
                    }
                    let (head, _) = s.split_at(n - 4);
                    head
                } else {
                    proof {
                        if n >= 4 {
                            assert(b@.subrange(n - 4, n as int)[0] == b@[n - 4]);
                            assert(b@.subrange(n - 4, n as int)[1] == b@[n - 3]);
                            assert(b@.subrange(n - 4, n as int)[2] == b@[n - 2]);
                            assert(b@.subrange(n - 4, n as int)[3] == b@[n - 1]);
                        }
                    }
                    s
                };
                proof {
                    vstd::utf8::encode_utf8_decode_utf8(stripped@);
                    assert(encode_utf8(stripped@) == without_msat(encode_utf8(s@)));
                }
                match parse_u64(trim(stripped)) {
                    Some(v) => Ok(v),
                    None => Err(ClnError::InvalidMsat),
                }
            },
        }
    }
}

/// The checks on the CLNRest host: `localhost` (any case) or an address
/// that is loopback. `host_ip` is the address the host text denotes, if any.
pub open spec fn loopback_check(u: UrlModel, host_ip: Option<IpAddress>) -> Result<(), ClnError> {
    match u.host {
        None => Err(ClnError::MissingHost),
        Some(h) => if same_hex(h, "localhost"@) {
            Ok(())
        } else {
            match host_ip {
                None => Err(ClnError::NotLoopbackIp),
                Some(ip) => if loopback(ip) {
                    Ok(())
                } else {
                    Err(ClnError::NotLoopback)
                },
            }
        },
    }
}

/// The rune is only ever sent to a loopback CLNRest.
pub fn ensure_loopback_url(url: &UrlParts, host_ip: Option<IpAddress>) -> (res: Result<(), ClnError>)
    ensures
        res == loopback_check(url@, host_ip),
{
    let host = match &url.host {
        None => return Err(ClnError::MissingHost),
        Some(h) => h,
    };
    if eq_ignore_ascii_case(host.as_str().as_bytes(), "localhost".as_bytes()) {
        return Ok(());
    }
    match host_ip {
        None => Err(ClnError::NotLoopbackIp),
        Some(ip) => if ip.is_loopback() {
            Ok(())
        } else {
            Err(ClnError::NotLoopback)
        },
    }
}

/// The checks of the CLNRest client settings: a nonblank rune and a
/// parseable `http` or `https` URL to a loopback host. On success, whether
/// the base path needs a trailing `/`.
pub fn check_client_settings(rune: &str, url: &str, host_ip: Option<IpAddress>) -> (res: Result<bool, ClnError>)
    ensures
        blank(rune@) ==> res == Err::<bool, ClnError>(ClnError::EmptyRune),
        !blank(rune@) && parsed_url(url@) is None ==> res == Err::<bool, ClnError>(ClnError::InvalidUrl),
        !blank(rune@) && parsed_url(url@) is Some && parsed_url(url@)->0.scheme != "http"@ && parsed_url(url@)->0.scheme
            != "https"@ ==> res == Err::<bool, ClnError>(ClnError::UnsupportedScheme),
        !blank(rune@) && parsed_url(url@) is Some && (parsed_url(url@)->0.scheme == "http"@ || parsed_url(url@)->0.scheme
            == "https"@) ==> match loopback_check(parsed_url(url@)->0, host_ip) {
            Err(e) => res == Err::<bool, ClnError>(e),
            Ok(()) => res == Ok::<bool, ClnError>(
                !(parsed_url(url@)->0.path.len() > 0 && parsed_url(url@)->0.path.last() == '/'),
            ),
        },
{
    if is_blank(rune) {
        return Err(ClnError::EmptyRune);
    }
    let u = match parse_url(url) {
        None => return Err(ClnError::InvalidUrl),
        Some(u) => u,
    };
    if !same_text(u.scheme.as_str(), "http") && !same_text(u.scheme.as_str(), "https") {
        return Err(ClnError::UnsupportedScheme);
    }
    if let Err(e) = ensure_loopback_url(&u, host_ip) {
        return Err(e);
    }
    let n = u.path.as_str().unicode_len();
    Ok(!(n > 0 && u.path.as_str().get_char(n - 1) == '/'))
}

/// A paid invoice reported by `waitanyinvoice`.
#[derive(Debug, Clone, PartialEq, Eq)]
pub struct PaidInvoice {
    pub pay_index: u64,
    pub payment_hash: String,
    pub label: Option<String>,
    pub amount_msat: u64,
    pub settled_at: Option<i64>,
}

/// The fields of a `waitanyinvoice` answer.
#[derive(Debug, Clone)]
pub struct WaitAnyInvoiceResponse {
    pub label: String,
    pub payment_hash: String,
    pub status: String,
    pub pay_index: u64,
    pub amount_received_msat: MsatValue,
    pub paid_at: u64,
}

pub open spec fn amount_readable(v: MsatValue) -> bool {
    match v {
        MsatValue::Text(t) => msat_text(t@) is Some,
        _ => true,
    }
}

/// Accept a `waitanyinvoice` answer only for a paid invoice, with a
/// readable amount and a payment time within the `i64` range.
pub fn paid_invoice(response: WaitAnyInvoiceResponse) -> (res: Result<PaidInvoice, ClnError>)
    ensures
        response.status@ != "paid"@ ==> res == Err::<PaidInvoice, ClnError>(ClnError::NotPaid),
        response.status@ == "paid"@ ==> match response.amount_received_msat {
            MsatValue::Text(t) => msat_text(t@) is None ==> res == Err::<PaidInvoice, ClnError>(ClnError::InvalidMsat),
            _ => true,
        },
        res matches Ok(p) ==> p.pay_index == response.pay_index && p.payment_hash@ == response.payment_hash@
            && p.label is Some && p.label->0@ == response.label@ && p.settled_at == Some(response.paid_at as i64)
            && response.paid_at <= i64::MAX && match response.amount_received_msat {
            MsatValue::Integer(v) => p.amount_msat == v,
            MsatValue::Object { msat } => p.amount_msat == msat,
            MsatValue::Text(t) => Some(p.amount_msat as nat) == msat_text(t@),
        },
        response.status@ == "paid"@ && response.paid_at <= i64::MAX && amount_readable(response.amount_received_msat) ==> res is Ok,
        response.status@ == "paid"@ && response.paid_at > i64::MAX && amount_readable(response.amount_received_msat) ==> res == Err::<PaidInvoice, ClnError>(ClnError::PaidAtRange),
{
    if !same_text(response.status.as_str(), "paid") {
        return Err(ClnError::NotPaid);
    }
    let amount_msat = match response.amount_received_msat.into_msat() {
        Ok(a) => a,
        Err(e) => return Err(e),
    };
    if response.paid_at > i64::MAX as u64 {
        return Err(ClnError::PaidAtRange);
    }
    Ok(
        PaidInvoice {
            pay_index: response.pay_index,
            payment_hash: response.payment_hash,
            label: Some(response.label),
            amount_msat,
            settled_at: Some(response.paid_at as i64),
        },
    )
}

/// What a failed `waitanyinvoice` call means: the RPC timeout code is a
/// quiet poll timeout (`Ok(None)`), anything else an error.
pub fn failed_wait(error_code: Option<i64>) -> (res: Result<Option<PaidInvoice>, ClnError>)
    ensures
        error_code == Some(WAITANYINVOICE_TIMEOUT_CODE) ==> res matches Ok(None),
        error_code != Some(WAITANYINVOICE_TIMEOUT_CODE) ==> res == Err::<Option<PaidInvoice>, ClnError>(ClnError::Rpc),
{
    match error_code {
        Some(code) => if code == WAITANYINVOICE_TIMEOUT_CODE {
            Ok(None)
        } else {
            Err(ClnError::Rpc)
        },
        None => Err(ClnError::Rpc),
    }
}

/// The backoff after consecutive transport errors:
/// `2^min(errors - 1, 5)` seconds, at most 30.
pub open spec fn watcher_backoff(consecutive_errors: u32) -> nat {
    let e: nat = if consecutive_errors == 0 {
        0
    } else if consecutive_errors - 1 < 5 {
        (consecutive_errors - 1) as nat
    } else {
        5
    };
    let p = vstd::arithmetic::power2::pow2(e);
    if p < 30 {
        p
    } else {
        30
    }
}

/// Seconds to wait before polling again after consecutive transport errors.
pub fn retry_delay(consecutive_errors: u32) -> (secs: u64)
    ensures
        secs == watcher_backoff(consecutive_errors),
        1 <= secs <= 30,
{
    let e: u32 = if consecutive_errors == 0 {
        0
    } else if consecutive_errors - 1 < 5 {
        consecutive_errors - 1
    } else {
        5
    };
    proof {
        vstd::arithmetic::power2::lemma2_to64();
    }
    let p: u64 = if e == 0 {
        1
    } else if e == 1 {
        2
    } else if e == 2 {
        4
    } else if e == 3 {
        8
    } else if e == 4 {
        16
    } else {
        32
    };
    if p < 30 {
        p
    } else {
        30
    }
}

/// The outcome of one legacy CLN poll.
#[derive(Debug, Clone, PartialEq, Eq)]
pub enum LegacyClnPollOutcome {
    Credited { sats: u64, address_user: String },
    Ignored,
    Duplicate,
}

} // verus!
