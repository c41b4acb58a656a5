//! The public message pipeline's decisions: what to do with the next
//! durable event, and how long to wait before republishing.
use vstd::prelude::*;

use crate::config::RuntimeMode;
use crate::ledger::DurableEvent;
use crate::presentation::{rendered, EventFields, MessageRenderer, RenderError, RenderedPresentation};

verus! {

/// The hashtag every public message carries.
pub const MESSAGE_TAG: &'static str = "LightningGoats";

/// What one step of the message processor did.
#[derive(Debug, Clone, Copy, PartialEq, Eq, Structural)]
pub enum MessageProcessorStep {
    Idle,
    PublicationDisabled { seq: u64 },
    NonPublicSkipped { seq: u64 },
    Enqueued { seq: u64 },
}

/// What to do with the next durable event.
#[derive(Debug, Clone, PartialEq, Eq)]
pub enum MessageAction {
    /// No event is waiting.
    Idle,
    /// Advance the cursor past the event and report the step.
    Advance(MessageProcessorStep),
    /// Sign this content with these tags, enqueue it and advance.
    Sign { seq: u64, content: String, tags: Vec<Vec<String>> },
}

/// Why the processor could not proceed; the cursor is kept.
#[derive(Debug, Clone, Copy, PartialEq, Eq)]
pub enum MessageError {
    ZeroThreshold,
    Render(RenderError),
    NoSigner,
}

/// Decide the next step for the event after the cursor: nothing without an
/// event; past it when the mode does not publish or the event has no public
/// text; else sign its public text, which needs a signer.
pub fn next_message_action(
    event: Option<&DurableEvent>,
    fields: &Option<EventFields>,
    renderer: &MessageRenderer,
    threshold_sats: u64,
    mode: RuntimeMode,
    has_signer: bool,
) -> (res: Result<MessageAction, MessageError>)
    ensures
        threshold_sats == 0 ==> res == Err::<MessageAction, MessageError>(MessageError::ZeroThreshold),
        threshold_sats > 0 && event is None ==> res == Ok::<MessageAction, MessageError>(MessageAction::Idle),
        threshold_sats > 0 && event is Some && mode != RuntimeMode::Active ==> res == Ok::<
            MessageAction,
            MessageError,
        >(MessageAction::Advance(MessageProcessorStep::PublicationDisabled { seq: event->0.seq })),
        res is Ok && res->Ok_0 is Sign ==> {
            let (seq, tags) = (res->Ok_0->seq, res->Ok_0->tags);
            &&& has_signer && mode == RuntimeMode::Active && event is Some && seq == event->0.seq
            &&& tags@.len() == 1 && tags@[0]@.len() == 2 && tags@[0]@[0]@ == "t"@ && tags@[0]@[1]@ == MESSAGE_TAG@
        },
        res is Ok && res->Ok_0 is Advance ==> event is Some && (res->Ok_0->Advance_0
            == MessageProcessorStep::PublicationDisabled { seq: event->0.seq } || res->Ok_0->Advance_0
            == MessageProcessorStep::NonPublicSkipped { seq: event->0.seq }),
        res == Err::<MessageAction, MessageError>(MessageError::NoSigner) ==> !has_signer,
        threshold_sats > 0 && event is Some && mode == RuntimeMode::Active && fields is None ==> res
            == Err::<MessageAction, MessageError>(MessageError::Render(RenderError::InvalidPayload)),
        threshold_sats > 0 && event is Some && mode == RuntimeMode::Active ==> exists|
            r: Result<RenderedPresentation, RenderError>,
        |
            #[trigger] rendered(renderer.catalog_view(), *(event->0), *fields, threshold_sats, r) && match r {
                Err(e) => res == Err::<MessageAction, MessageError>(MessageError::Render(e)),
                Ok(p) => match p.nostr_content {
                    None => res == Ok::<MessageAction, MessageError>(
                        MessageAction::Advance(MessageProcessorStep::NonPublicSkipped { seq: event->0.seq }),
                    ),
                    Some(c) => if has_signer {
                        res matches Ok(MessageAction::Sign { content, .. }) && content@ == c@
                    } else {
                        res == Err::<MessageAction, MessageError>(MessageError::NoSigner)
                    },
                },
            },
{
    if threshold_sats == 0 {
        return Err(MessageError::ZeroThreshold);
    }
    let e = match event {
        None => return Ok(MessageAction::Idle),
        Some(e) => e,
    };
    if !mode.nostr_enabled() {
        return Ok(MessageAction::Advance(MessageProcessorStep::PublicationDisabled { seq: e.seq }));
    }
    let shown = renderer.render(e, fields, threshold_sats);
    proof {
        assert(rendered(renderer.catalog_view(), *e, *fields, threshold_sats, shown));
    }
    let shown = match shown {
        Ok(r) => r,
        Err(err) => return Err(MessageError::Render(err)),
    };
    let content = match shown.nostr_content {
        None => return Ok(MessageAction::Advance(MessageProcessorStep::NonPublicSkipped { seq: e.seq })),
        Some(c) => c,
    };
    if !has_signer {
        return Err(MessageError::NoSigner);
    }
    let mut tag: Vec<String> = Vec::new();
    tag.push("t".to_owned());
    tag.push(MESSAGE_TAG.to_owned());
    let mut tags: Vec<Vec<String>> = Vec::new();
    tags.push(tag);
    Ok(MessageAction::Sign { seq: e.seq, content, tags })
}

/// The backoff before republishing an outbox entry:
/// `2^min(attempts, 5)` seconds, at most 30.
pub open spec fn publish_backoff(previous_attempts: u64) -> nat {
    let e: nat = if previous_attempts < 5 {
        previous_attempts as nat
    } else {
        5
    };
    let p = vstd::arithmetic::power2::pow2(e);
    if p < 30 {
        p
    } else {
        30
    }
}

/// Seconds to wait before retrying a publication after `previous_attempts`.
pub fn publish_retry_delay(previous_attempts: u64) -> (secs: u64)
    ensures
        secs == publish_backoff(previous_attempts),
        1 <= secs <= 30,
{
    proof {
        vstd::arithmetic::power2::lemma2_to64();
    }
    let p: u64 = if previous_attempts == 0 {
        1
    } else if previous_attempts == 1 {
        2
    } else if previous_attempts == 2 {
        4
    } else if previous_attempts == 3 {
        8
    } else if previous_attempts == 4 {
        16
    } else {
        32
    };
    if p < 30 {
        p
    } else {
        30
    }
}

} // verus!
