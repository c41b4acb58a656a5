//! The durable event log and what reads it: the message cursor and outbox
//! of signed messages, the overlay's replay window, and the admission of
//! public invoice creation.
use vstd::prelude::*;

use crate::ledger::{to_i64, to_u64, DurableEvent, LedgerError};

verus! {

/// The most events one read of the log returns.
pub const MAX_EVENTS_PER_READ: u32 = 1000;

/// How many events one read asks for: the requested number, kept within
/// 1 and 1000.
pub fn events_limit(limit: u32) -> (n: i64)
    ensures
        n == (if limit < 1 {
            1
        } else if limit > MAX_EVENTS_PER_READ {
            MAX_EVENTS_PER_READ as int
        } else {
            limit as int
        }),
{
    if limit < 1 {
        1
    } else if limit > MAX_EVENTS_PER_READ {
        MAX_EVENTS_PER_READ as i64
    } else {
        limit as i64
    }
}

/// A stored event row; its sequence number must not be negative.
pub fn event_from_row(seq: i64, event_type: String, payload_json: String) -> (res: Result<DurableEvent, LedgerError>)
    ensures
        seq < 0 ==> res == Err::<DurableEvent, LedgerError>(LedgerError::IntegerRange),
        seq >= 0 ==> res == Ok::<DurableEvent, LedgerError>(
            DurableEvent { seq: seq as u64, event_type, payload_json },
        ),
{
    match to_u64(seq) {
        Ok(s) => Ok(DurableEvent { seq: s, event_type, payload_json }),
        Err(e) => Err(e),
    }
}

/// What moving the message cursor to `event_seq` does: the sequence must
/// fit in `i64` and the cursor never moves back. `Ok(true)` means store
/// the new position; the same position changes nothing.
pub fn cursor_advance(current: i64, event_seq: u64) -> (res: Result<bool, LedgerError>)
    ensures
        event_seq > i64::MAX ==> res == Err::<bool, LedgerError>(LedgerError::IntegerRange),
        event_seq <= i64::MAX && event_seq < current ==> res == Err::<bool, LedgerError>(
            LedgerError::CursorBackward,
        ),
        event_seq <= i64::MAX && event_seq >= current ==> res == Ok::<bool, LedgerError>(event_seq > current),
        res is Ok <==> advanced_cursor(current, event_seq) is Some,
{
    let seq = match to_i64(event_seq) {
        Ok(s) => s,
        Err(e) => return Err(e),
    };
    if seq < current {
        return Err(LedgerError::CursorBackward);
    }
    Ok(seq > current)
}

/// What enqueueing the signed message of event `source_event_seq` does:
/// the event must lie ahead of the cursor, and in the same transaction the
/// cursor moves to it. On success the cursor's new position.
pub fn enqueue_message(current: i64, source_event_seq: u64) -> (res: Result<i64, LedgerError>)
    ensures
        source_event_seq > i64::MAX ==> res == Err::<i64, LedgerError>(LedgerError::IntegerRange),
        source_event_seq <= i64::MAX && source_event_seq <= current ==> res == Err::<i64, LedgerError>(
            LedgerError::NotAheadOfCursor,
        ),
        source_event_seq <= i64::MAX && source_event_seq > current ==> res == Ok::<i64, LedgerError>(
            source_event_seq as i64,
        ),
        match enqueued_cursor(current, source_event_seq) {
            Some(n) => res == Ok::<i64, LedgerError>(n as i64),
            None => res is Err,
        },
{
    let seq = match to_i64(source_event_seq) {
        Ok(s) => s,
        Err(e) => return Err(e),
    };
    if seq <= current {
        return Err(LedgerError::NotAheadOfCursor);
    }
    Ok(seq)
}

/// Where the cursor stands after an advance to `seq`, if it is accepted.
pub open spec fn advanced_cursor(current: i64, seq: u64) -> Option<int> {
    if seq > i64::MAX || seq < current {
        None
    } else {
        Some(seq as int)
    }
}

/// Where the cursor stands after enqueueing the message of event `seq`,
/// if it is accepted.
pub open spec fn enqueued_cursor(current: i64, seq: u64) -> Option<int> {
    if seq > i64::MAX || seq <= current {
        None
    } else {
        Some(seq as int)
    }
}

/// The message cursor only moves forward: an accepted advance leaves it at
/// or past where it was, and an accepted enqueue moves it strictly forward,
/// so no event's message is enqueued twice.
pub proof fn law_message_cursor_never_moves_back(current: i64, seq: u64)
    ensures
        advanced_cursor(current, seq) matches Some(n) ==> n >= current,
        enqueued_cursor(current, seq) matches Some(n) ==> n > current,
        enqueued_cursor(current, seq) matches Some(n) ==> enqueued_cursor(n as i64, seq) is None,
{
}

/// A signed message waiting in the outbox.
#[derive(Debug, Clone, PartialEq, Eq)]
pub struct OutboxEntry {
    pub event_id: String,
    pub signed_event_json: String,
    pub source_event_seq: u64,
    pub attempts: u64,
}

/// A stored outbox row; its sequence number and attempts must not be
/// negative.
pub fn outbox_entry_from_row(
    event_id: String,
    signed_event_json: String,
    source_event_seq: i64,
    attempts: i64,
) -> (res: Result<OutboxEntry, LedgerError>)
    ensures
        source_event_seq < 0 || attempts < 0 ==> res == Err::<OutboxEntry, LedgerError>(LedgerError::IntegerRange),
        source_event_seq >= 0 && attempts >= 0 ==> res == Ok::<OutboxEntry, LedgerError>(
            OutboxEntry {
                event_id,
                signed_event_json,
                source_event_seq: source_event_seq as u64,
                attempts: attempts as u64,
            },
        ),
{
    let seq = match to_u64(source_event_seq) {
        Ok(s) => s,
        Err(e) => return Err(e),
    };
    let tries = match to_u64(attempts) {
        Ok(a) => a,
        Err(e) => return Err(e),
    };
    Ok(OutboxEntry { event_id, signed_event_json, source_event_seq: seq, attempts: tries })
}

/// Marking an outbox entry published or failed must change exactly the
/// entry, which must still await publication.
pub fn outbox_change(rows_affected: u64) -> (res: Result<(), LedgerError>)
    ensures
        res is Ok <==> rows_affected == 1,
        res is Err ==> res == Err::<(), LedgerError>(LedgerError::OutboxNotPending),
{
    if rows_affected == 1 {
        Ok(())
    } else {
        Err(LedgerError::OutboxNotPending)
    }
}

/// The most events and bytes one overlay replay may carry.
pub const OVERLAY_MAX_EVENTS: u64 = 1000;

pub const OVERLAY_MAX_BYTES: i64 = 524_288;

/// An overlay replay window `(after, through]` may be read at all: in
/// order, at most 1000 events long, and within the range of `i64`.
pub open spec fn window_admissible(after: u64, through: u64) -> bool {
    after <= through && through - after <= OVERLAY_MAX_EVENTS && through <= i64::MAX
}

/// Whether a replay window may be read (see `window_admissible`).
pub fn overlay_window_admissible(after: u64, through: u64) -> (ok: bool)
    ensures
        ok == window_admissible(after, through),
{
    !(through < after || through - after > OVERLAY_MAX_EVENTS || through > i64::MAX as u64)
}

/// A readable window is replayed only when the log still holds every
/// event of it and they fit the byte budget; otherwise the overlay must
/// reset.
pub fn overlay_window_complete(after: u64, through: u64, count: i64, bytes: i64) -> (ok: bool)
    requires
        window_admissible(after, through),
    ensures
        ok == (count == through - after && bytes <= OVERLAY_MAX_BYTES),
{
    count == (through - after) as i64 && bytes <= OVERLAY_MAX_BYTES
}

/// The limits of public invoice creation: at most 30 admissions a minute,
/// at most 4 at a time, and at most 10000 receive requests issued or in
/// flight a day.
pub open spec fn invoice_admissible(recent: int, active: int, recently_issued: int) -> bool {
    recent < 30 && active < 4 && recently_issued + active < 10_000
}

/// Whether one more invoice may be created (see `invoice_admissible`);
/// `Ok(true)` means record a new admission.
pub fn admit_invoice(recent: i64, active: i64, recently_issued: i64) -> (ok: bool)
    ensures
        ok == invoice_admissible(recent as int, active as int, recently_issued as int),
{
    recent < 30 && active < 4 && (recently_issued as i128) + (active as i128) < 10_000
}

} // verus!
