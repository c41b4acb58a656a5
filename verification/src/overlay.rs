//! The overlay stream: how durable events become overlay messages, and the
//! bounds on replay, polling and client input of an overlay connection.
use vstd::prelude::*;

use crate::gateway::weather::{fresh, observation_seconds, validate_observation_time};
use crate::json::{json_string, json_text, merge_json_object, merged_json_object, push_json_string, is_json};
use crate::ledger::DurableEvent;
use crate::presentation::{rendered, EventFields, MessageRenderer, OverlayGoat, RenderError, RenderedPresentation};
use crate::text::{append_str, bytes_equal, decimal, decimal_string, same_text};
use crate::url::opt_view;

verus! {

/// Bytes one overlay message may have.
pub const MAX_MESSAGE: usize = 16_384;

/// Bytes the messages queued for one connection may have together.
pub const MAX_QUEUE: usize = 524_288;

/// Seconds a weather observation may be old and still be shown.
pub const WEATHER_DISPLAY_SECONDS: u64 = 300;

/// Why an event could not become an overlay message.
#[derive(Debug, Clone, Copy, PartialEq, Eq)]
pub enum OverlayError {
    InvalidResume,
    InvalidPayloadJson,
    PayloadNotObject,
    Render(RenderError),
    OutputBounds,
    InputRate,
    ControlFramesOnly,
}

/// How a connecting overlay asks to resume.
#[derive(Debug, Clone, Copy, PartialEq, Eq, Structural)]
pub struct OverlayResume {
    pub version: Option<u8>,
    pub stream: Option<u128>,
    pub after: Option<u64>,
}

/// A resume request is version 1 if versioned, within the range of `i64`,
/// and names a version and stream whenever it names a position.
pub open spec fn resume_ok(r: OverlayResume) -> bool {
    &&& (r.version matches Some(v) ==> v == 1)
    &&& (r.after matches Some(seq) ==> seq <= i64::MAX)
    &&& (r.after is Some ==> r.version == Some(1u8) && r.stream is Some)
}

impl OverlayResume {
    /// Check a resume request (see `resume_ok`).
    pub fn validate(&self) -> (res: Result<(), OverlayError>)
        ensures
            res is Ok <==> resume_ok(*self),
            res is Err ==> res == Err::<(), OverlayError>(OverlayError::InvalidResume),
    {
        let bad_version = match self.version {
            Some(v) => v != 1,
            None => false,
        };
        let bad_after = match self.after {
            Some(seq) => seq > i64::MAX as u64 || self.version != Some(1u8) || self.stream.is_none(),
            None => false,
        };
        if bad_version || bad_after {
            Err(OverlayError::InvalidResume)
        } else {
            Ok(())
        }
    }
}

/// The message that replaces a stale or invalid weather event.
pub open spec fn skipped_weather_text(seq: u64) -> Seq<char> {
    "{\"reason\":\"stale_or_invalid_observation\",\"seq\":"@ + decimal(seq as nat)
        + ",\"source_type\":\"weather_status\",\"type\":\"event_skipped\"}"@
}

/// The message that replaces a stale or invalid weather event.
pub fn skipped_weather(seq: u64) -> (text: String)
    ensures
        text@ == skipped_weather_text(seq),
{
    let mut text = "{\"reason\":\"stale_or_invalid_observation\",\"seq\":".to_string();
    let digits = decimal_string(seq);
    append_str(&mut text, digits.as_str());
    append_str(&mut text, ",\"source_type\":\"weather_status\",\"type\":\"event_skipped\"}");
    text
}

/// A weather observation is shown only while it is at most five minutes
/// old (and not ahead of the clock by more than the allowed skew).
pub open spec fn fresh_observation(raw: Option<Seq<char>>, now: int) -> bool {
    match raw {
        None => false,
        Some(t) => match observation_seconds(t) {
            Some(e) => e >= 0 && fresh(e, now, WEATHER_DISPLAY_SECONDS as int),
            None => false,
        },
    }
}

fn is_fresh_observation(raw: &Option<String>, now: i64) -> (ok: bool)
    ensures
        ok == fresh_observation(opt_view(*raw), now as int),
{
    match raw {
        None => false,
        Some(t) => validate_observation_time(t.as_str(), now, WEATHER_DISPLAY_SECONDS).is_ok(),
    }
}

/// The JSON text of the goats of an overlay message.
pub open spec fn goats_json(goats: Seq<OverlayGoat>) -> Seq<char>
    decreases goats.len(),
{
    if goats.len() == 0 {
        Seq::empty()
    } else {
        goats_json(goats.drop_last()) + (if goats.len() > 1 {
            ","@
        } else {
            Seq::empty()
        }) + "{\"imageUrl\":"@ + json_string(goats.last().image_url@) + ",\"name\":"@ + json_string(
            goats.last().name@,
        ) + "}"@
    }
}

/// The members an overlay message adds to the event's payload: its type,
/// the event's own type and sequence number, and the message and goats
/// where there are any.
pub open spec fn overlay_fields_text(
    overlay_type: Seq<char>,
    source_type: Seq<char>,
    seq: u64,
    message: Option<Seq<char>>,
    goats: Seq<OverlayGoat>,
) -> Seq<char> {
    "{\"type\":"@ + json_string(overlay_type) + ",\"source_type\":"@ + json_string(source_type)
        + ",\"seq\":"@ + decimal(seq as nat) + (match message {
        Some(m) => ",\"message\":"@ + json_string(m),
        None => Seq::empty(),
    }) + (if goats.len() > 0 {
        ",\"goats\":["@ + goats_json(goats) + "]"@
    } else {
        Seq::empty()
    }) + "}"@
}

fn push_goats(out: &mut String, goats: &Vec<OverlayGoat>)
    ensures
        final(out)@ == old(out)@ + goats_json(goats@),
{
    let ghost start = old(out)@;
    let mut i: usize = 0;
    proof {
        assert(goats@.subrange(0, 0) =~= Seq::<OverlayGoat>::empty());
    }
    while i < goats.len()
        invariant
            i <= goats@.len(),
            out@ == start + goats_json(goats@.subrange(0, i as int)),
        decreases goats@.len() - i,
    {
        let ghost before = out@;
        if i > 0 {
            append_str(out, ",");
        }
        append_str(out, "{\"imageUrl\":");
        push_json_string(out, goats[i].image_url.as_str());
        append_str(out, ",\"name\":");
        push_json_string(out, goats[i].name.as_str());
        append_str(out, "}");
        proof {
            reveal_strlit(",");
            let sub = goats@.subrange(0, i + 1);
            assert(sub.drop_last() =~= goats@.subrange(0, i as int));
            assert(sub.last() == goats@[i as int]);
            assert(out@ =~= start + goats_json(sub));
        }
        i = i + 1;
    }
    proof {
        assert(goats@.subrange(0, goats@.len() as int) =~= goats@);
    }
}

/// Write the members an overlay message adds (see `overlay_fields_text`).
pub fn overlay_fields(
    overlay_type: &str,
    source_type: &str,
    seq: u64,
    message: &Option<String>,
    goats: &Vec<OverlayGoat>,
) -> (text: String)
    ensures
        text@ == overlay_fields_text(overlay_type@, source_type@, seq, opt_view(*message), goats@),
{
    let mut text = "{\"type\":".to_string();
    push_json_string(&mut text, overlay_type);
    append_str(&mut text, ",\"source_type\":");
    push_json_string(&mut text, source_type);
    append_str(&mut text, ",\"seq\":");
    let digits = decimal_string(seq);
    append_str(&mut text, digits.as_str());
    let ghost mid = text@;
    match message {
        Some(m) => {
            append_str(&mut text, ",\"message\":");
            push_json_string(&mut text, m.as_str());
        },
        None => {},
    }
    let ghost with_message = text@;
    if goats.len() > 0 {
        append_str(&mut text, ",\"goats\":[");
        push_goats(&mut text, goats);
        append_str(&mut text, "]");
    }
    append_str(&mut text, "}");
    proof {
        assert(text@ =~= overlay_fields_text(overlay_type@, source_type@, seq, opt_view(*message), goats@));
    }
    text
}

/// The overlay message of a rendered event: the rendered type (or the
/// event's own), the event's type and sequence number, and the rendered
/// message and goats, merged into the payload object.
pub open spec fn overlay_message_text(event: DurableEvent, p: RenderedPresentation) -> Option<Seq<char>> {
    merged_json_object(
        event.payload_json@,
        overlay_fields_text(
            match p.overlay_type {
                Some(ty) => ty@,
                None => event.event_type@,
            },
            event.event_type@,
            event.seq,
            opt_view(p.overlay_message),
            p.overlay_goats@,
        ),
    )
}

/// Merge a rendered event into its payload (see `overlay_message_text`);
/// a payload that is not a JSON object is refused.
pub fn overlay_message(event: &DurableEvent, presentation: &RenderedPresentation) -> (res: Result<String, OverlayError>)
    ensures
        match overlay_message_text(*event, *presentation) {
            Some(t) => res matches Ok(m) && m@ == t,
            None => res == Err::<String, OverlayError>(OverlayError::PayloadNotObject),
        },
{
    let overlay_type = match &presentation.overlay_type {
        Some(t) => t.clone(),
        None => event.event_type.clone(),
    };
    let member_text = overlay_fields(
        overlay_type.as_str(),
        event.event_type.as_str(),
        event.seq,
        &presentation.overlay_message,
        &presentation.overlay_goats,
    );
    match merge_json_object(event.payload_json.as_str(), member_text.as_str()) {
        Some(m) => Ok(m),
        None => Err(OverlayError::PayloadNotObject),
    }
}

/// The weather observation time of a payload's fields.
pub open spec fn observed_at_of(fields: Option<EventFields>) -> Option<Seq<char>> {
    match fields {
        Some(f) => opt_view(f.weather_observed_at),
        None => None,
    }
}

/// The overlay message of a durable event at `now`. `fields` are the
/// payload's fields as the renderer reads them. The payload must be JSON;
/// a weather event whose observation is no longer current is replaced by a
/// skip notice; otherwise the event is rendered and merged into its
/// payload (see `overlay_message`).
pub fn durable_event_message(
    event: &DurableEvent,
    fields: &Option<EventFields>,
    renderer: &MessageRenderer,
    threshold_sats: u64,
    now: i64,
) -> (res: Result<String, OverlayError>)
    ensures
        !json_text(event.payload_json@) ==> res == Err::<String, OverlayError>(OverlayError::InvalidPayloadJson),
        json_text(event.payload_json@) && event.event_type@ == "weather_status"@ && !fresh_observation(
            observed_at_of(*fields),
            now as int,
        ) ==> (res matches Ok(t) && t@ == skipped_weather_text(event.seq)),
        json_text(event.payload_json@) && !(event.event_type@ == "weather_status"@ && !fresh_observation(
            observed_at_of(*fields),
            now as int,
        )) ==> exists|r: Result<RenderedPresentation, RenderError>|
            #[trigger] rendered(renderer.catalog_view(), *event, *fields, threshold_sats, r) && match r {
                Err(e) => res == Err::<String, OverlayError>(OverlayError::Render(e)),
                Ok(p) => match overlay_message_text(*event, p) {
                    Some(t) => res matches Ok(m) && m@ == t,
                    None => res == Err::<String, OverlayError>(OverlayError::PayloadNotObject),
                },
            },
{
    if !is_json(event.payload_json.as_str()) {
        return Err(OverlayError::InvalidPayloadJson);
    }
    let observed = match fields {
        Some(f) => f.weather_observed_at.clone(),
        None => None,
    };
    if same_text(event.event_type.as_str(), "weather_status") && !is_fresh_observation(&observed, now) {
        return Ok(skipped_weather(event.seq));
    }
    let shown = renderer.render(event, fields, threshold_sats);
    proof {
        assert(rendered(renderer.catalog_view(), *event, *fields, threshold_sats, shown));
    }
    let presentation = match shown {
        Ok(p) => p,
        Err(e) => return Err(OverlayError::Render(e)),
    };
    overlay_message(event, &presentation)
}

/// The replayed messages of a window fit the output bounds: no message
/// over `MAX_MESSAGE` bytes and, counted in order, never more than
/// `MAX_QUEUE` bytes in all.
pub open spec fn window_fits(lens: Seq<usize>) -> bool {
    &&& forall|i: int| 0 <= i < lens.len() ==> lens[i] <= MAX_MESSAGE
    &&& total(lens) <= MAX_QUEUE
}

/// The sum of message sizes.
pub open spec fn total(lens: Seq<usize>) -> int
    decreases lens.len(),
{
    if lens.len() == 0 {
        0
    } else {
        total(lens.drop_last()) + lens.last()
    }
}

proof fn lemma_total_monotone(lens: Seq<usize>, i: int)
    requires
        0 <= i <= lens.len(),
    ensures
        total(lens.subrange(0, i)) <= total(lens),
    decreases lens.len() - i,
{
    if i < lens.len() {
        lemma_total_monotone(lens, i + 1);
        assert(lens.subrange(0, i + 1).drop_last() =~= lens.subrange(0, i));
    } else {
        assert(lens.subrange(0, i) =~= lens);
    }
}

/// Whether the messages of a window fit the output bounds.
pub fn window_sizes_ok(lens: &Vec<usize>) -> (ok: bool)
    ensures
        ok == window_fits(lens@),
{
    let mut size: usize = 0;
    let mut i: usize = 0;
    proof {
        assert(lens@.subrange(0, 0) =~= Seq::<usize>::empty());
    }
    while i < lens.len()
        invariant
            i <= lens@.len(),
            size == total(lens@.subrange(0, i as int)),
            size <= MAX_QUEUE,
            forall|k: int| 0 <= k < i ==> lens@[k] <= MAX_MESSAGE,
        decreases lens@.len() - i,
    {
        proof {
            assert(lens@.subrange(0, i + 1).drop_last() =~= lens@.subrange(0, i as int));
        }
        if lens[i] > MAX_MESSAGE || size + lens[i] > MAX_QUEUE {
            proof {
                if lens[i as int] <= MAX_MESSAGE {
                    lemma_total_monotone(lens@, i + 1);
                }
            }
            return false;
        }
        size = size + lens[i];
        i = i + 1;
    }
    proof {
        assert(lens@.subrange(0, lens@.len() as int) =~= lens@);
    }
    true
}

/// A replay and the checkpoint after it fit one connection's queue.
pub fn replay_fits(replay_bytes: usize, checkpoint_bytes: usize) -> (ok: bool)
    ensures
        ok == (replay_bytes + checkpoint_bytes <= MAX_QUEUE),
{
    replay_bytes <= MAX_QUEUE && checkpoint_bytes <= MAX_QUEUE - replay_bytes
}

/// The end of the next window a polling connection reads: at most 100
/// events past what it has sent, and never past the latest event.
pub fn next_window_end(latest: u64, last_seq: u64) -> (through: u64)
    ensures
        through == (if latest < last_seq + 100 {
            latest as int
        } else if last_seq + 100 > u64::MAX {
            u64::MAX as int
        } else {
            last_seq + 100
        }),
{
    let cap = if last_seq > u64::MAX - 100 {
        u64::MAX
    } else {
        last_seq + 100
    };
    if latest < cap {
        latest
    } else {
        cap
    }
}

/// Client frames one connection may send within ten seconds.
pub const MAX_INPUTS_PER_WINDOW: u32 = 20;

/// Count one client frame: a window older than ten seconds starts over;
/// more than `MAX_INPUTS_PER_WINDOW` frames in a window end the
/// connection. On success, whether a new window starts and its count.
pub fn count_input(window_elapsed_ms: u64, inputs: u32) -> (res: Result<(bool, u32), OverlayError>)
    ensures
        ({
            let restart = window_elapsed_ms >= 10_000;
            let count = if restart {
                1int
            } else {
                inputs + 1
            };
            if count > MAX_INPUTS_PER_WINDOW {
                res == Err::<(bool, u32), OverlayError>(OverlayError::InputRate)
            } else {
                res == Ok::<(bool, u32), OverlayError>((restart, count as u32))
            }
        }),
{
    let restart = window_elapsed_ms >= 10_000;
    let previous: u32 = if restart {
        0
    } else {
        inputs
    };
    if previous >= MAX_INPUTS_PER_WINDOW {
        return Err(OverlayError::InputRate);
    }
    Ok((restart, previous + 1))
}

/// A frame from the client of an overlay connection, or the end of its stream.
#[derive(Debug, Clone, PartialEq, Eq)]
pub enum ClientFrame {
    Ping(Vec<u8>),
    Pong(Vec<u8>),
    Close,
    Ended,
    Text,
    Binary,
}

/// What the connection does after a client frame.
#[derive(Debug, Clone, PartialEq, Eq)]
pub enum FrameAction {
    /// Keep serving.
    Continue,
    /// Answer a ping with a pong carrying the same payload, then keep serving.
    SendPong(Vec<u8>),
    /// The client closed or went away: end the connection normally.
    Finish,
}

/// The ping still awaiting its pong after a frame: a pong that carries
/// exactly the payload of the outstanding ping settles it; anything else
/// leaves it outstanding.
pub open spec fn pending_after(frame: ClientFrame, pending: Option<Seq<u8>>) -> Option<Seq<u8>> {
    match frame {
        ClientFrame::Pong(p) => if pending == Some(p@) {
            None
        } else {
            pending
        },
        _ => pending,
    }
}

/// One step of an overlay connection on a client frame. The overlay takes
/// control frames only: a text or binary frame ends the connection with
/// `ControlFramesOnly`; a close or the end of the stream finishes it; a
/// ping is answered with its own payload; a pong settles the outstanding
/// ping when its payload matches.
pub fn on_client_frame(frame: ClientFrame, pending: Option<Vec<u8>>) -> (res: Result<
    (FrameAction, Option<Vec<u8>>),
    OverlayError,
>)
    ensures
        (frame is Text || frame is Binary) <==> res == Err::<(FrameAction, Option<Vec<u8>>), OverlayError>(
            OverlayError::ControlFramesOnly,
        ),
        res matches Ok((action, left)) ==> {
            &&& opt_bytes(left) == pending_after(frame, opt_bytes(pending))
            &&& match frame {
                ClientFrame::Ping(p) => action matches FrameAction::SendPong(q) && q@ == p@,
                ClientFrame::Pong(_) => action == FrameAction::Continue,
                _ => action == FrameAction::Finish,
            }
        },
{
    match frame {
        ClientFrame::Text | ClientFrame::Binary => Err(OverlayError::ControlFramesOnly),
        ClientFrame::Close | ClientFrame::Ended => Ok((FrameAction::Finish, pending)),
        ClientFrame::Ping(payload) => Ok((FrameAction::SendPong(payload), pending)),
        ClientFrame::Pong(payload) => {
            let settled = match &pending {
                Some(expected) => bytes_equal(payload.as_slice(), expected.as_slice()),
                None => false,
            };
            if settled {
                Ok((FrameAction::Continue, None))
            } else {
                Ok((FrameAction::Continue, pending))
            }
        },
    }
}

/// The bytes of an optional payload.
pub open spec fn opt_bytes(v: Option<Vec<u8>>) -> Option<Seq<u8>> {
    match v {
        Some(b) => Some(b@),
        None => None,
    }
}

/// The eight big-endian bytes of `n`.
pub open spec fn be_bytes(n: u64) -> Seq<u8> {
    Seq::new(8, |i: int| ((n as int / pow256(7 - i)) % 256) as u8)
}

/// `256` to the power `k`, for `0 <= k <= 7`.
pub open spec fn pow256(k: int) -> int
    decreases k,
{
    if k <= 0 {
        1
    } else {
        256 * pow256(k - 1)
    }
}

/// A heartbeat tick: with no ping outstanding, the next nonce (wrapping)
/// goes out as an eight-byte big-endian ping payload, which is then the
/// outstanding one; with a ping outstanding, nothing is sent.
pub fn on_heartbeat(nonce: u64, ping_outstanding: bool) -> (res: Option<(u64, Vec<u8>)>)
    ensures
        ping_outstanding <==> res is None,
        res matches Some((next, payload)) ==> next == (if nonce == u64::MAX {
            0
        } else {
            nonce + 1
        }) && payload@ == be_bytes(next),
{
    if ping_outstanding {
        return None;
    }
    let next = nonce.wrapping_add(1);
    let mut payload: Vec<u8> = Vec::new();
    let mut div: u64 = 72_057_594_037_927_936;
    let mut i: usize = 0;
    proof {
        reveal_with_fuel(pow256, 8);
    }
    while i < 8
        invariant
            i <= 8,
            payload@.len() == i,
            forall|j: int| 0 <= j < i ==> payload@[j] == be_bytes(next)[j],
            div as int == pow256(7 - i as int),
            i < 8 ==> div >= 1,
        decreases 8 - i,
    {
        proof {
            reveal_with_fuel(pow256, 8);
        }
        let byte = ((next / div) % 256) as u8;
        payload.push(byte);
        if i < 7 {
            div = div / 256;
        }
        i = i + 1;
    }
    proof {
        assert(payload@ =~= be_bytes(next));
    }
    Some((next, payload))
}

} // verus!
