//! Issued Strike receive requests and the durable inbox of completions.
use vstd::prelude::*;
use vstd::string::StringSliceAdditionalSpecFns;
use vstd::utf8::encode_utf8;

use crate::ascii::{check_hex_of_len, hex_of_len};
use crate::domain::invoice::{valid_user_bytes, validate_user};
use crate::ledger::{same_optional_text, LedgerError};
use crate::strike::{lower_text, lowercase_hex, StoredStrikeReceiveRequest, StrikeCompletedReceiveEvent};
use crate::text::{byte_len, same_text, text_len};
use crate::url::opt_view;

verus! {

/// Pending completions the inbox holds at most.
pub const INBOX_CAPACITY: i64 = 10_000;

/// The checks an issued receive request must pass before it is stored.
pub open spec fn request_check(r: StoredStrikeReceiveRequest) -> Result<(), LedgerError> {
    if !hex_of_len(encode_utf8(r.description_hash@), 64) || !hex_of_len(encode_utf8(r.payment_hash@), 64) {
        Err(LedgerError::StrikeHash)
    } else if !valid_user_bytes(encode_utf8(r.address_user@)) || !valid_user_bytes(
        encode_utf8(r.credit_pool@),
    ) {
        Err(LedgerError::InvalidUser)
    } else if r.amount_msat == 0 {
        Err(LedgerError::ZeroAmount)
    } else if r.invoice@.len() == 0 || byte_len(r.invoice@) > 8192 {
        Err(LedgerError::InvoiceLength)
    } else if r.amount_msat > i64::MAX {
        Err(LedgerError::IntegerRange)
    } else {
        Ok(())
    }
}

/// A stored request records exactly this request.
pub open spec fn same_request(a: StoredStrikeReceiveRequest, b: StoredStrikeReceiveRequest) -> bool {
    &&& a.address_user@ == b.address_user@
    &&& a.credit_pool@ == b.credit_pool@
    &&& a.amount_msat == b.amount_msat
    &&& a.description_hash@ == b.description_hash@
    &&& a.payment_hash@ == b.payment_hash@
    &&& a.invoice@ == b.invoice@
    &&& opt_view(a.created_provider) == opt_view(b.created_provider)
}

fn same_stored_request(a: &StoredStrikeReceiveRequest, b: &StoredStrikeReceiveRequest) -> (r: bool)
    ensures
        r == same_request(*a, *b),
{
    same_text(a.address_user.as_str(), b.address_user.as_str()) && same_text(
        a.credit_pool.as_str(),
        b.credit_pool.as_str(),
    ) && a.amount_msat == b.amount_msat && same_text(
        a.description_hash.as_str(),
        b.description_hash.as_str(),
    ) && same_text(a.payment_hash.as_str(), b.payment_hash.as_str()) && same_text(
        a.invoice.as_str(),
        b.invoice.as_str(),
    ) && same_optional_text(&a.created_provider, &b.created_provider)
}

/// Decide how to store an issued receive request: a new request is stored
/// with its hashes lowercased, the same request again changes nothing, and
/// a different request under the same ID is refused.
pub fn record_receive_request(
    request: &StoredStrikeReceiveRequest,
    existing: Option<StoredStrikeReceiveRequest>,
) -> (res: Result<Option<StoredStrikeReceiveRequest>, LedgerError>)
    ensures
        request_check(*request) is Err ==> res == Err::<Option<StoredStrikeReceiveRequest>, LedgerError>(
            request_check(*request)->Err_0,
        ),
        request_check(*request) is Ok ==> match existing {
            Some(e) => if same_request(e, *request) {
                res matches Ok(None)
            } else {
                res == Err::<Option<StoredStrikeReceiveRequest>, LedgerError>(
                    LedgerError::ConflictingReceiveRequest,
                )
            },
            None => (res matches Ok(Some(row)) && row.receive_request_id == request.receive_request_id
                && row.address_user@ == request.address_user@ && row.credit_pool@
                == request.credit_pool@ && row.amount_msat == request.amount_msat
                && row.description_hash@ == lower_text(request.description_hash@)
                && row.payment_hash@ == lower_text(request.payment_hash@) && row.invoice@
                == request.invoice@ && opt_view(row.created_provider) == opt_view(
                request.created_provider,
            )),
        },
{
    if !check_hex_of_len(request.description_hash.as_str().as_bytes(), 64) || !check_hex_of_len(
        request.payment_hash.as_str().as_bytes(),
        64,
    ) {
        return Err(LedgerError::StrikeHash);
    }
    if validate_user(request.address_user.as_str()).is_err() || validate_user(
        request.credit_pool.as_str(),
    ).is_err() {
        return Err(LedgerError::InvalidUser);
    }
    if request.amount_msat == 0 {
        return Err(LedgerError::ZeroAmount);
    }
    let len = text_len(request.invoice.as_str());
    proof {
        vstd::utf8::encode_utf8_decode_utf8(request.invoice@);
        if request.invoice@.len() == 0 {
            assert(encode_utf8(request.invoice@) =~= Seq::<u8>::empty());
        }
        if encode_utf8(request.invoice@).len() == 0 {
            assert(vstd::utf8::decode_utf8(Seq::<u8>::empty()) =~= Seq::<char>::empty());
        }
    }
    if len == 0 || len > 8192 {
        return Err(LedgerError::InvoiceLength);
    }
    if request.amount_msat > i64::MAX as u64 {
        return Err(LedgerError::IntegerRange);
    }
    match existing {
        Some(e) => if same_stored_request(&e, request) {
            Ok(None)
        } else {
            Err(LedgerError::ConflictingReceiveRequest)
        },
        None => Ok(
            Some(
                StoredStrikeReceiveRequest {
                    receive_request_id: request.receive_request_id,
                    address_user: request.address_user.clone(),
                    credit_pool: request.credit_pool.clone(),
                    amount_msat: request.amount_msat,
                    description_hash: lowercase_hex(request.description_hash.as_str()),
                    payment_hash: lowercase_hex(request.payment_hash.as_str()),
                    invoice: request.invoice.clone(),
                    created_provider: request.created_provider.clone(),
                },
            ),
        ),
    }
}

/// Decide whether a completion enters the inbox: work already stored under
/// the same key must name the same request and receive (and is not stored
/// twice), and new work needs room among the pending work. `Ok(true)` means
/// insert it.
pub fn enqueue_decision(
    event: &StrikeCompletedReceiveEvent,
    existing: Option<(u128, u128)>,
    pending_count: i64,
) -> (res: Result<bool, LedgerError>)
    ensures
        existing matches Some((request_id, receive_id)) ==> res == (if request_id
            == event.receive_request_id && receive_id == event.receive_id {
            Ok::<bool, LedgerError>(false)
        } else {
            Err::<bool, LedgerError>(LedgerError::ConflictingInboxIdentity)
        }),
        existing is None ==> res == (if pending_count >= INBOX_CAPACITY {
            Err::<bool, LedgerError>(LedgerError::InboxFull)
        } else {
            Ok::<bool, LedgerError>(true)
        }),
{
    match existing {
        Some((request_id, receive_id)) => {
            if request_id != event.receive_request_id || receive_id != event.receive_id {
                Err(LedgerError::ConflictingInboxIdentity)
            } else {
                Ok(false)
            }
        },
        None => {
            if pending_count >= INBOX_CAPACITY {
                Err(LedgerError::InboxFull)
            } else {
                Ok(true)
            }
        },
    }
}

} // verus!
