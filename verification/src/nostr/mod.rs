//! The public Nostr identity: checks on events that `nak` signed through
//! NIP-46, and the bunker URI it signs with. The subprocess stays with the
//! caller.
use vstd::prelude::*;
use vstd::string::{StrSliceExecFns, StringSliceAdditionalSpecFns};
use vstd::utf8::encode_utf8;

use crate::ascii::{check_hex_of_len, fold, hex_of_len};
use crate::config::NostrConfig;
use crate::text::{append_str, ascii_lowercase, blank, byte_len, is_blank, same_text, text_len};
use crate::url::{append_query_pairs, pair_texts, url_with_pairs};

pub mod private;

verus! {

/// Bytes of input `nak` accepts on standard input.
pub const MAX_NAK_INPUT: usize = 65536;

/// Bytes of standard output read from `nak`.
pub const MAX_NAK_STDOUT: usize = 65536;

/// Bytes of standard error read (and discarded) from `nak`.
pub const MAX_NAK_STDERR: usize = 8192;

/// The throwaway key `nak` is given when it only publishes a signed event.
pub const PUBLISH_DUMMY_SECRET: &'static str = "01";

/// Why a Nostr event or setting was refused.
#[derive(Debug, Clone, Copy, PartialEq, Eq, Structural)]
pub enum NostrError {
    PubkeyMismatch,
    InvalidHex,
    ZeroCreatedAt,
    UnexpectedKind,
    ContentMismatch,
    EchoMismatch,
    EmptyClientKey,
    BunkerUri,
    InputTooLarge,
    OutputTooLarge,
    InvalidPrivateInput,
    PrivateTooLarge,
    UnexpectedFields,
    InvalidPrivateEvent,
    NotNip44,
    NotEphemeral,
    InvalidRelays,
}

/// A signed kind-1 event as `nak` returns it.
#[derive(Debug, Clone, PartialEq, Eq)]
pub struct SignedNostrEvent {
    pub id: String,
    pub pubkey: String,
    pub created_at: u64,
    pub kind: u64,
    pub tags: Vec<Vec<String>>,
    pub content: String,
    pub sig: String,
}

/// Hexadecimal text of an exact length, of either case.
pub fn validate_hex(value: &str, expected_len: usize) -> (res: Result<(), NostrError>)
    ensures
        res is Ok <==> hex_of_len(value.spec_bytes(), expected_len as nat),
        res is Err ==> res == Err::<(), NostrError>(NostrError::InvalidHex),
{
    if check_hex_of_len(value.as_bytes(), expected_len) {
        Ok(())
    } else {
        Err(NostrError::InvalidHex)
    }
}

/// The checks on an event signed for the project identity.
pub open spec fn signed_event_check(e: SignedNostrEvent, expected_pubkey: Seq<char>) -> Result<(), NostrError> {
    if e.pubkey@ != expected_pubkey {
        Err(NostrError::PubkeyMismatch)
    } else if !hex_of_len(encode_utf8(e.id@), 64) || !hex_of_len(encode_utf8(e.pubkey@), 64)
        || !hex_of_len(encode_utf8(e.sig@), 128) {
        Err(NostrError::InvalidHex)
    } else if e.created_at == 0 {
        Err(NostrError::ZeroCreatedAt)
    } else if e.kind != 1 {
        Err(NostrError::UnexpectedKind)
    } else {
        Ok(())
    }
}

/// Check that an event is a kind-1 event of the project identity with a
/// hexadecimal id and signature and a nonzero time.
pub fn validate_signed_event(event: &SignedNostrEvent, expected_pubkey: &str) -> (res: Result<(), NostrError>)
    ensures
        res == signed_event_check(*event, expected_pubkey@),
{
    if !same_text(event.pubkey.as_str(), expected_pubkey) {
        return Err(NostrError::PubkeyMismatch);
    }
    if validate_hex(event.id.as_str(), 64).is_err() || validate_hex(event.pubkey.as_str(), 64).is_err()
        || validate_hex(event.sig.as_str(), 128).is_err() {
        return Err(NostrError::InvalidHex);
    }
    if event.created_at == 0 {
        return Err(NostrError::ZeroCreatedAt);
    }
    if event.kind != 1 {
        return Err(NostrError::UnexpectedKind);
    }
    Ok(())
}

/// The view of an event's tags.
pub open spec fn tags_view(tags: Seq<Vec<String>>) -> Seq<Seq<Seq<char>>> {
    tags.map_values(|t: Vec<String>| t@.map_values(|s: String| s@))
}

fn same_tag(a: &Vec<String>, b: &Vec<String>) -> (r: bool)
    ensures
        r == (a@.map_values(|s: String| s@) == b@.map_values(|s: String| s@)),
{
    if a.len() != b.len() {
        assert(a@.map_values(|s: String| s@).len() != b@.map_values(|s: String| s@).len());
        return false;
    }
    let mut i: usize = 0;
    while i < a.len()
        invariant
            a@.len() == b@.len(),
            i <= a@.len(),
            forall|j: int| 0 <= j < i ==> a@[j]@ == b@[j]@,
        decreases a@.len() - i,
    {
        if !same_text(a[i].as_str(), b[i].as_str()) {
            assert(a@.map_values(|s: String| s@)[i as int] != b@.map_values(|s: String| s@)[i as int]);
            return false;
        }
        i = i + 1;
    }
    assert(a@.map_values(|s: String| s@) =~= b@.map_values(|s: String| s@));
    true
}

/// Whether two tag lists are equal.
pub fn same_tags(a: &Vec<Vec<String>>, b: &Vec<Vec<String>>) -> (r: bool)
    ensures
        r == (tags_view(a@) == tags_view(b@)),
{
    if a.len() != b.len() {
        assert(tags_view(a@).len() != tags_view(b@).len());
        return false;
    }
    let mut i: usize = 0;
    while i < a.len()
        invariant
            a@.len() == b@.len(),
            i <= a@.len(),
            forall|j: int| 0 <= j < i ==> #[trigger] tags_view(a@)[j] == tags_view(b@)[j],
        decreases a@.len() - i,
    {
        if !same_tag(&a[i], &b[i]) {
            assert(tags_view(a@)[i as int] != tags_view(b@)[i as int]);
            return false;
        }
        i = i + 1;
    }
    assert(tags_view(a@) =~= tags_view(b@));
    true
}

/// Two events are the same event, field by field.
pub open spec fn same_event(a: SignedNostrEvent, b: SignedNostrEvent) -> bool {
    &&& a.id@ == b.id@
    &&& a.pubkey@ == b.pubkey@
    &&& a.created_at == b.created_at
    &&& a.kind == b.kind
    &&& tags_view(a.tags@) == tags_view(b.tags@)
    &&& a.content@ == b.content@
    &&& a.sig@ == b.sig@
}

pub fn events_equal(a: &SignedNostrEvent, b: &SignedNostrEvent) -> (r: bool)
    ensures
        r == same_event(*a, *b),
{
    same_text(a.id.as_str(), b.id.as_str()) && same_text(a.pubkey.as_str(), b.pubkey.as_str())
        && a.created_at == b.created_at && a.kind == b.kind && same_tags(&a.tags, &b.tags)
        && same_text(a.content.as_str(), b.content.as_str()) && same_text(
        a.sig.as_str(),
        b.sig.as_str(),
    )
}

/// Accept an event `nak` signed for us only if it is a valid project event
/// carrying exactly the requested content and tags.
pub fn check_signed_kind1(
    event: &SignedNostrEvent,
    project_pubkey: &str,
    content: &str,
    tags: &Vec<Vec<String>>,
) -> (res: Result<(), NostrError>)
    ensures
        signed_event_check(*event, project_pubkey@) is Err ==> res == signed_event_check(*event, project_pubkey@),
        signed_event_check(*event, project_pubkey@) is Ok ==> res == (if event.content@ == content@
            && tags_view(event.tags@) == tags_view(tags@) {
            Ok::<(), NostrError>(())
        } else {
            Err::<(), NostrError>(NostrError::ContentMismatch)
        }),
{
    if let Err(e) = validate_signed_event(event, project_pubkey) {
        return Err(e);
    }
    if !same_text(event.content.as_str(), content) || !same_tags(&event.tags, tags) {
        return Err(NostrError::ContentMismatch);
    }
    Ok(())
}

/// A published event must come back unchanged.
pub fn check_published_echo(echoed: &SignedNostrEvent, event: &SignedNostrEvent) -> (res: Result<(), NostrError>)
    ensures
        res is Ok <==> same_event(*echoed, *event),
        res is Err ==> res == Err::<(), NostrError>(NostrError::EchoMismatch),
{
    if events_equal(echoed, event) {
        Ok(())
    } else {
        Err(NostrError::EchoMismatch)
    }
}

/// Input handed to `nak` is bounded.
pub fn check_nak_input(stdin_text: &str) -> (res: Result<(), NostrError>)
    ensures
        res is Ok <==> byte_len(stdin_text@) <= MAX_NAK_INPUT,
        res is Err ==> res == Err::<(), NostrError>(NostrError::InputTooLarge),
{
    if text_len(stdin_text) > MAX_NAK_INPUT {
        Err(NostrError::InputTooLarge)
    } else {
        Ok(())
    }
}

/// Output read from `nak` is bounded; reading one byte past the limit
/// detects an overrun.
pub fn check_nak_output(len: usize, limit: usize) -> (res: Result<(), NostrError>)
    ensures
        res is Ok <==> len <= limit,
        res is Err ==> res == Err::<(), NostrError>(NostrError::OutputTooLarge),
{
    if len > limit {
        Err(NostrError::OutputTooLarge)
    } else {
        Ok(())
    }
}

/// The `relay` query pairs of a bunker URI, one per relay in order.
pub open spec fn relay_pairs(relays: Seq<Seq<char>>) -> Seq<(Seq<char>, Seq<char>)> {
    relays.map_values(|r: Seq<char>| ("relay"@, r))
}

/// `bunker://{pubkey}?relay=...&relay=...`, as the URL parser builds it.
pub open spec fn bunker_url(pubkey: Seq<char>, relays: Seq<Seq<char>>) -> Option<Seq<char>> {
    url_with_pairs("bunker://"@ + pubkey, relay_pairs(relays))
}

/// The NIP-46 bunker URI for the signer key and relays; it carries no
/// secret.
pub fn build_bunker_uri(pubkey: &str, relays: &Vec<String>) -> (res: Result<String, NostrError>)
    ensures
        match bunker_url(pubkey@, relays@.map_values(|r: String| r@)) {
            Some(u) => res matches Ok(s) && s@ == u,
            None => res == Err::<String, NostrError>(NostrError::BunkerUri),
        },
{
    let mut base = "bunker://".to_string();
    append_str(&mut base, pubkey);
    let mut pairs: Vec<(String, String)> = Vec::new();
    let mut i: usize = 0;
    while i < relays.len()
        invariant
            i <= relays@.len(),
            pairs@.len() == i,
            forall|k: int| 0 <= k < i ==> (#[trigger] pairs@[k]).0@ == "relay"@ && pairs@[k].1@ == relays@[k]@,
        decreases relays@.len() - i,
    {
        let key = "relay".to_string();
        let value = relays[i].as_str().to_string();
        pairs.push((key, value));
        i = i + 1;
    }
    proof {
        let texts = relays@.map_values(|r: String| r@);
        assert(pair_texts(pairs@) =~= relay_pairs(texts));
        assert(base@ =~= "bunker://"@ + pubkey@);
    }
    match append_query_pairs(base.as_str(), &pairs) {
        Some(u) => Ok(u),
        None => Err(NostrError::BunkerUri),
    }
}

/// What a signing client needs besides the subprocess: the bunker URI and
/// the lowercase project key that every signed event must carry.
#[derive(Debug, Clone)]
pub struct NakSettings {
    pub bunker_uri: String,
    pub project_pubkey: String,
}

/// Check the signer settings: a nonblank client key and a bunker URI that
/// can be built.
pub fn nak_settings(config: &NostrConfig, client_key: &str) -> (res: Result<NakSettings, NostrError>)
    ensures
        blank(client_key@) ==> res == Err::<NakSettings, NostrError>(NostrError::EmptyClientKey),
        !blank(client_key@) ==> match bunker_url(config.bunker_pubkey@, config.relays@.map_values(|r: String| r@)) {
            None => res == Err::<NakSettings, NostrError>(NostrError::BunkerUri),
            Some(u) => res matches Ok(s) && s.bunker_uri@ == u && encode_utf8(s.project_pubkey@)
                == encode_utf8(config.bunker_pubkey@).map_values(|b: u8| fold(b)),
        },
{
    if is_blank(client_key) {
        return Err(NostrError::EmptyClientKey);
    }
    let bunker_uri = match build_bunker_uri(config.bunker_pubkey.as_str(), &config.relays) {
        Ok(u) => u,
        Err(e) => return Err(e),
    };
    Ok(NakSettings { bunker_uri, project_pubkey: ascii_lowercase(config.bunker_pubkey.as_str()) })
}

} // verus!
