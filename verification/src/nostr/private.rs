//! Private gift wraps: checks on restored NIP-44 ciphertext events and on
//! the inbox relays they are published to.
use vstd::prelude::*;
use vstd::string::{StrSliceExecFns, StringSliceAdditionalSpecFns};
use vstd::utf8::encode_utf8;

use crate::ascii::{fold, hex_of_len};
use crate::config::{loopback, IpAddress};
use crate::nostr::{validate_hex, NostrError, SignedNostrEvent, MAX_NAK_INPUT};
use crate::text::{byte_len, same_text, text_len};
use crate::url::{parse_url, parsed_url, UrlModel};

verus! {

/// Bytes of content a private message may carry.
pub const MAX_PRIVATE_CONTENT: usize = 4096;

/// A verified ciphertext event, kept byte for byte for every retry. It is
/// not printable: callers choose explicitly what to persist.
pub struct PrivateGiftWrap {
    event_id: String,
    json: String,
}

impl PrivateGiftWrap {
    pub closed spec fn id_view(&self) -> Seq<char> {
        self.event_id@
    }

    pub closed spec fn json_view(&self) -> Seq<char> {
        self.json@
    }

    pub fn event_id(&self) -> (id: &str)
        ensures
            id@ == self.id_view(),
    {
        self.event_id.as_str()
    }

    pub fn ciphertext_json(&self) -> (json: &str)
        ensures
            json@ == self.json_view(),
    {
        self.json.as_str()
    }
}

/// What `base64`'s standard engine decodes a text to, `None` where it
/// refuses the text.
pub uninterp spec fn base64_standard(text: Seq<char>) -> Option<Seq<u8>>;

/// Calls `base64::engine::general_purpose::STANDARD.decode`; the claim is
/// only that the outcome is a function of the text.
#[verifier::external_body]
fn decode_base64(text: &str) -> (bytes: Option<Vec<u8>>)
    ensures
        match bytes {
            Some(b) => base64_standard(text@) == Some(b@),
            None => base64_standard(text@) is None,
        },
{
    match base64::Engine::decode(&base64::engine::general_purpose::STANDARD, text) {
        Ok(b) => Some(b),
        Err(_) => None,
    }
}

/// The checks on a private message before it is encrypted: a canonical
/// lowercase recipient key and 1 to 4096 bytes of content.
pub fn check_private_input(recipient: &str, content: &str) -> (res: Result<(), NostrError>)
    ensures
        !hex_of_len(recipient.spec_bytes(), 64) ==> res == Err::<(), NostrError>(NostrError::InvalidHex),
        hex_of_len(recipient.spec_bytes(), 64) ==> res == (if recipient.spec_bytes().map_values(|b: u8| fold(b))
            == recipient.spec_bytes() && content@.len() > 0 && byte_len(content@) <= MAX_PRIVATE_CONTENT {
            Ok::<(), NostrError>(())
        } else {
            Err::<(), NostrError>(NostrError::InvalidPrivateInput)
        }),
{
    if let Err(e) = validate_hex(recipient, 64) {
        return Err(e);
    }
    let b = recipient.as_bytes();
    let mut lower = true;
    let mut i: usize = 0;
    while i < b.len()
        invariant
            i <= b@.len(),
            lower == forall|j: int| 0 <= j < i ==> fold(#[trigger] b@[j]) == b@[j],
        decreases b@.len() - i,
    {
        if 65 <= b[i] && b[i] <= 90 {
            lower = false;
        }
        i = i + 1;
    }
    proof {
        if lower {
            assert(b@.map_values(|x: u8| fold(x)) =~= b@);
        } else {
            let j = choose|j: int| 0 <= j < b@.len() && fold(#[trigger] b@[j]) != b@[j];
            assert(b@.map_values(|x: u8| fold(x))[j] != b@[j]);
        }
    }
    let n = text_len(content);
    proof {
        vstd::utf8::encode_utf8_decode_utf8(content@);
        if content@.len() == 0 {
            assert(encode_utf8(content@) =~= Seq::<u8>::empty());
        }
        if encode_utf8(content@).len() == 0 {
            assert(vstd::utf8::decode_utf8(Seq::<u8>::empty()) =~= Seq::<char>::empty());
        }
    }
    if !lower || n == 0 || n > MAX_PRIVATE_CONTENT {
        return Err(NostrError::InvalidPrivateInput);
    }
    Ok(())
}

/// The checks on a restored gift wrap addressed to `recipient`: hex keys,
/// kind 1059, a nonzero time, exactly the tag `["p", recipient]`, and NIP-44
/// version 2 ciphertext of at least 99 bytes.
pub open spec fn private_event_check(e: SignedNostrEvent, recipient: Seq<char>) -> Result<(), NostrError> {
    if !hex_of_len(encode_utf8(recipient), 64) || !hex_of_len(encode_utf8(e.id@), 64)
        || !hex_of_len(encode_utf8(e.pubkey@), 64) || !hex_of_len(encode_utf8(e.sig@), 128) {
        Err(NostrError::InvalidHex)
    } else if e.kind != 1059 || e.created_at == 0 || !(e.tags@.len() == 1 && e.tags@[0]@.len() == 2
        && e.tags@[0]@[0]@ == "p"@ && e.tags@[0]@[1]@ == recipient) {
        Err(NostrError::InvalidPrivateEvent)
    } else {
        match base64_standard(e.content@) {
            None => Err(NostrError::NotNip44),
            Some(c) => if c.len() < 99 || c[0] != 2 {
                Err(NostrError::NotNip44)
            } else {
                Ok(())
            },
        }
    }
}

pub fn validate_private(event: &SignedNostrEvent, recipient: &str) -> (res: Result<(), NostrError>)
    ensures
        res == private_event_check(*event, recipient@),
{
    if validate_hex(recipient, 64).is_err() || validate_hex(event.id.as_str(), 64).is_err()
        || validate_hex(event.pubkey.as_str(), 64).is_err() || validate_hex(event.sig.as_str(), 128).is_err() {
        return Err(NostrError::InvalidHex);
    }
    let tag_ok = event.tags.len() == 1 && event.tags[0].len() == 2 && same_text(event.tags[0][0].as_str(), "p")
        && same_text(event.tags[0][1].as_str(), recipient);
    if event.kind != 1059 || event.created_at == 0 || !tag_ok {
        return Err(NostrError::InvalidPrivateEvent);
    }
    match decode_base64(event.content.as_str()) {
        None => Err(NostrError::NotNip44),
        Some(c) => if c.len() < 99 || c[0] != 2 {
            Err(NostrError::NotNip44)
        } else {
            Ok(())
        },
    }
}

/// Accept restored ciphertext for a retry: bounded, with exactly the seven
/// event fields (`parsed` holds whether the JSON object had exactly them,
/// and the event, or `None` when the text is not an event), a valid private
/// event, and a wrapper key other than the project's. The signature is
/// checked by `nak` afterwards.
pub fn restore_private_wrap(
    recipient: &str,
    raw: &str,
    parsed: &Option<(bool, SignedNostrEvent)>,
    project_pubkey: &str,
) -> (res: Result<PrivateGiftWrap, NostrError>)
    ensures
        byte_len(raw@) > MAX_NAK_INPUT ==> res is Err && res == Err::<PrivateGiftWrap, NostrError>(NostrError::PrivateTooLarge),
        byte_len(raw@) <= MAX_NAK_INPUT ==> match *parsed {
            None => res == Err::<PrivateGiftWrap, NostrError>(NostrError::UnexpectedFields),
            Some((exact, e)) => if !exact {
                res == Err::<PrivateGiftWrap, NostrError>(NostrError::UnexpectedFields)
            } else if private_event_check(e, recipient@) is Err {
                res matches Err(err) && private_event_check(e, recipient@) == Err::<(), NostrError>(err)
            } else if e.pubkey@ == project_pubkey@ {
                res == Err::<PrivateGiftWrap, NostrError>(NostrError::NotEphemeral)
            } else {
                res matches Ok(w) && w.id_view() == e.id@ && w.json_view() == raw@
            },
        },
{
    if text_len(raw) > MAX_NAK_INPUT {
        return Err(NostrError::PrivateTooLarge);
    }
    let (exact, event) = match parsed {
        None => return Err(NostrError::UnexpectedFields),
        Some((exact, event)) => (*exact, event),
    };
    if !exact {
        return Err(NostrError::UnexpectedFields);
    }
    if let Err(e) = validate_private(event, recipient) {
        return Err(e);
    }
    if same_text(event.pubkey.as_str(), project_pubkey) {
        return Err(NostrError::NotEphemeral);
    }
    Ok(PrivateGiftWrap { event_id: event.id.clone(), json: raw.to_owned() })
}

/// The check of one inbox relay, given its parse and the IP address its
/// host denotes, if any: at most 2048 bytes, no credentials, a host, no
/// fragment or query, and `wss`, or `ws` to a loopback address.
pub open spec fn relay_ok(raw: Seq<char>, u: Option<UrlModel>, host_ip: Option<IpAddress>) -> bool {
    match u {
        None => false,
        Some(u) => {
            &&& byte_len(raw) <= 2048
            &&& u.username.len() == 0
            &&& u.password is None
            &&& u.host is Some
            &&& u.fragment is None
            &&& u.query is None
            &&& (u.scheme == "wss"@ || (u.scheme == "ws"@ && host_ip is Some && loopback(host_ip->0)))
        },
    }
}

/// Every relay of a list passes `relay_ok`, and there are 1 to 8.
pub open spec fn parsed_relays_ok(relays: Seq<(String, Option<IpAddress>)>) -> bool {
    0 < relays.len() <= 8 && forall|i: int|
        0 <= i < relays.len() ==> relay_ok(#[trigger] relays[i].0@, parsed_url(relays[i].0@), relays[i].1)
}

/// Check the explicit inbox relays of a private message: 1 to 8 relays,
/// each paired with the IP address its host denotes (if any), each valid.
pub fn validate_private_relays(relays: &Vec<(String, Option<IpAddress>)>) -> (res: Result<(), NostrError>)
    ensures
        res is Ok <==> 0 < relays@.len() <= 8 && forall|i: int|
            0 <= i < relays@.len() ==> relay_ok(
                #[trigger] relays@[i].0@,
                parsed_url(relays@[i].0@),
                relays@[i].1,
            ),
        res is Err ==> res == Err::<(), NostrError>(NostrError::InvalidRelays),
{
    if relays.len() == 0 || relays.len() > 8 {
        return Err(NostrError::InvalidRelays);
    }
    let mut i: usize = 0;
    while i < relays.len()
        invariant
            0 < relays@.len() <= 8,
            i <= relays@.len(),
            forall|j: int|
                0 <= j < i ==> relay_ok(#[trigger] relays@[j].0@, parsed_url(relays@[j].0@), relays@[j].1),
        decreases relays@.len() - i,
    {
        let (raw, host_ip) = &relays[i];
        let parts = match parse_url(raw.as_str()) {
            None => return Err(NostrError::InvalidRelays),
            Some(p) => p,
        };
        let loopback_host = match host_ip {
            Some(ip) => ip.is_loopback(),
            None => false,
        };
        let scheme_ok = same_text(parts.scheme.as_str(), "wss") || (same_text(parts.scheme.as_str(), "ws")
            && loopback_host);
        if text_len(raw.as_str()) > 2048 || parts.username.as_str().unicode_len() > 0 || parts.password.is_some()
            || parts.host.is_none() || parts.fragment.is_some() || parts.query.is_some() || !scheme_ok {
            return Err(NostrError::InvalidRelays);
        }
        i = i + 1;
    }
    Ok(())
}

} // verus!
