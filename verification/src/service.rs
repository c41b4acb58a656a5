//! The payment service's HTTP rules: which requests it admits before any
//! work, and how its answers are chosen.
use vstd::prelude::*;
use vstd::string::StrSliceExecFns;
use vstd::utf8::encode_utf8;

use crate::ascii::{eq_ignore_ascii_case, same_ignoring_case};
use crate::lnurl::LnurlServiceError;
use crate::text::{has_prefix, parse_u64, starts_with_bytes, trim, trimmed, u64_text};

verus! {

/// Bytes a Strike webhook body may have.
pub const MAX_STRIKE_WEBHOOK_BODY: usize = 32_768;

/// The media type of a `Content-Type` value: the text before any `;`.
pub open spec fn media_type(value: Seq<char>) -> Seq<char> {
    match first_semicolon(value) {
        Some(i) => value.subrange(0, i),
        None => value,
    }
}

/// The first `;` of a text.
pub open spec fn first_semicolon(value: Seq<char>) -> Option<int> {
    if exists|i: int| 0 <= i < value.len() && value[i] == ';' {
        Some(choose|i: int| 0 <= i < value.len() && value[i] == ';' && forall|j: int| 0 <= j < i ==> value[j] != ';')
    } else {
        None
    }
}

/// A `Content-Type` that names JSON: its media type, trimmed, is
/// `application/json` in any case.
pub open spec fn json_content_type(value: Seq<char>) -> bool {
    same_ignoring_case(encode_utf8(trimmed(media_type(value))), encode_utf8("application/json"@))
}

fn is_json_content_type(value: &str) -> (ok: bool)
    ensures
        ok == json_content_type(value@),
{
    let n = value.unicode_len();
    let mut i: usize = 0;
    let mut stop = false;
    while i < n && !stop
        invariant
            n == value@.len(),
            i <= n,
            forall|j: int| 0 <= j < i ==> value@[j] != ';',
            stop ==> i < n && value@[i as int] == ';',
        decreases n - i + (if stop { 0int } else { 1int }),
    {
        if value.get_char(i) == ';' {
            stop = true;
        } else {
            i = i + 1;
        }
    }
    let media = value.substring_char(0, i);
    proof {
        if i < n {
            assert(value@[i as int] == ';');
            let k = choose|k: int| 0 <= k < value@.len() && value@[k] == ';' && forall|j: int| 0 <= j < k ==> value@[j] != ';';
            if k < i {
                assert(value@[k] != ';');
            }
            if k > i {
                assert(value@[i as int] != ';');
            }
            assert(first_semicolon(value@) == Some(i as int));
        } else {
            assert(!(exists|k: int| 0 <= k < value@.len() && value@[k] == ';'));
            assert(value@.subrange(0, i as int) =~= value@);
        }
    }
    let t = trim(media);
    eq_ignore_ascii_case(t.as_bytes(), "application/json".as_bytes())
}

/// The checks a Strike webhook passes before its signature is verified: a
/// JSON content type (else 415), a body within the limit (else 413), and a
/// signature header (else 401).
pub fn webhook_precheck(content_type: Option<&str>, body_len: usize, signature: Option<&str>) -> (res: Result<(), u16>)
    ensures
        !(content_type matches Some(c) && json_content_type(c@)) ==> res == Err::<(), u16>(415),
        (content_type matches Some(c) && json_content_type(c@)) && body_len > MAX_STRIKE_WEBHOOK_BODY ==> res
            == Err::<(), u16>(413),
        (content_type matches Some(c) && json_content_type(c@)) && body_len <= MAX_STRIKE_WEBHOOK_BODY
            && signature is None ==> res == Err::<(), u16>(401),
        (content_type matches Some(c) && json_content_type(c@)) && body_len <= MAX_STRIKE_WEBHOOK_BODY
            && signature is Some ==> res is Ok,
{
    let json = match content_type {
        Some(c) => is_json_content_type(c),
        None => false,
    };
    if !json {
        return Err(415);
    }
    if body_len > MAX_STRIKE_WEBHOOK_BODY {
        return Err(413);
    }
    if signature.is_none() {
        return Err(401);
    }
    Ok(())
}

/// Read the `amount` of an LNURL callback: missing and unparseable amounts
/// are refused with their reasons.
pub fn callback_amount(raw: Option<&str>) -> (res: Result<u64, &'static str>)
    ensures
        raw is None ==> (res matches Err(r) && r@ == "Missing amount"@),
        raw matches Some(t) ==> match u64_text(encode_utf8(t@)) {
            Some(v) => res == Ok::<u64, &'static str>(v as u64),
            None => (res matches Err(r) && r@ == "Invalid amount"@),
        },
{
    proof {
        reveal_strlit("Missing amount");
        reveal_strlit("Invalid amount");
    }
    match raw {
        None => Err("Missing amount"),
        Some(t) => match parse_u64(t) {
            Some(v) => Ok(v),
            None => Err("Invalid amount"),
        },
    }
}

/// The HTTP status of an LNURL service error: 404 for an unknown user, 200
/// for an invalid amount (as LNURL reports errors), 429 when busy and 502
/// when the provider failed.
pub fn lnurl_error_status(error: &LnurlServiceError) -> (code: u16)
    ensures
        *error is UnknownUser ==> code == 404,
        *error is InvalidAmount ==> code == 200,
        *error is Busy ==> code == 429,
        *error is Provider ==> code == 502,
{
    match error {
        LnurlServiceError::UnknownUser => 404,
        LnurlServiceError::InvalidAmount(_) => 200,
        LnurlServiceError::Busy => 429,
        LnurlServiceError::Provider(_) => 502,
    }
}

/// Requests for LNURL paths are refused with LNURL error bodies.
pub open spec fn lnurl_path(path: Seq<char>) -> bool {
    has_prefix(encode_utf8(path), encode_utf8("/.well-known/lnurlp/"@)) || has_prefix(
        encode_utf8(path),
        encode_utf8("/lnurlp/"@),
    )
}

/// Whether a request path is an LNURL path.
pub fn is_lnurl_path(path: &str) -> (ok: bool)
    ensures
        ok == lnurl_path(path@),
{
    starts_with_bytes(path.as_bytes(), "/.well-known/lnurlp/".as_bytes()) || starts_with_bytes(
        path.as_bytes(),
        "/lnurlp/".as_bytes(),
    )
}

/// The feeds due and the remainder that the status page shows for a credit.
pub fn feed_split(credit_sats: u64, threshold_sats: u64) -> (r: (u64, u64))
    requires
        threshold_sats > 0,
    ensures
        r.0 == credit_sats / threshold_sats,
        r.1 == credit_sats % threshold_sats,
        r.0 * threshold_sats + r.1 == credit_sats,
{
    let due = credit_sats / threshold_sats;
    let rest = credit_sats % threshold_sats;
    proof {
        vstd::arithmetic::div_mod::lemma_fundamental_div_mod(credit_sats as int, threshold_sats as int);
        assert(due * threshold_sats == threshold_sats * due) by (nonlinear_arith);
    }
    (due, rest)
}

/// A response that advertises more than the limit is refused unread.
pub fn advertised_length_ok(content_length: Option<u64>, limit: usize) -> (ok: bool)
    ensures
        ok == !(content_length matches Some(n) && n > limit),
{
    match content_length {
        Some(n) => n <= limit as u64,
        None => true,
    }
}

/// A body being read stays within its limit, chunk by chunk: a chunk is
/// taken only while the bytes read so far and the chunk fit the limit.
pub struct BoundedBody {
    pub limit: usize,
    pub received: usize,
}

impl BoundedBody {
    pub fn new(limit: usize) -> (b: Self)
        ensures
            b.limit == limit && b.received == 0,
    {
        BoundedBody { limit, received: 0 }
    }

    /// Take a chunk of `len` bytes; `false` (and no change) where it would
    /// exceed the limit.
    pub fn take(&mut self, len: usize) -> (ok: bool)
        requires
            old(self).received <= old(self).limit,
        ensures
            ok == (old(self).received + len <= old(self).limit),
            final(self).limit == old(self).limit,
            ok ==> final(self).received == old(self).received + len,
            !ok ==> final(self).received == old(self).received,
            final(self).received <= final(self).limit,
    {
        if len > self.limit - self.received {
            false
        } else {
            self.received = self.received + len;
            true
        }
    }
}

/// The bytes of a body received as `chunks`, in order.
pub open spec fn concat_chunks(chunks: Seq<Seq<u8>>) -> Seq<u8>
    decreases chunks.len(),
{
    if chunks.len() == 0 {
        Seq::empty()
    } else {
        concat_chunks(chunks.drop_last()) + chunks.last()
    }
}

/// The bytes of each chunk.
pub open spec fn chunk_bytes(chunks: Seq<Vec<u8>>) -> Seq<Seq<u8>> {
    chunks.map_values(|c: Vec<u8>| c@)
}

proof fn lemma_concat_prefix_grows(chunks: Seq<Seq<u8>>, k: int)
    requires
        0 <= k <= chunks.len(),
    ensures
        concat_chunks(chunks.take(k)).len() <= concat_chunks(chunks).len(),
    decreases chunks.len() - k,
{
    if k < chunks.len() {
        lemma_concat_prefix_grows(chunks, k + 1);
        assert(chunks.take(k + 1).drop_last() =~= chunks.take(k));
    } else {
        assert(chunks.take(k) =~= chunks);
    }
}

/// Read a provider's body under a byte limit, chunked bodies included: a
/// body that advertises more than `limit` bytes is refused unread; one
/// whose chunks together exceed `limit` is refused; any other is the
/// chunks' bytes in order (`None` is the refusal).
pub fn bounded_body(content_length: Option<u64>, chunks: &Vec<Vec<u8>>, limit: usize) -> (res: Option<Vec<u8>>)
    ensures
        res is Some <==> !(content_length matches Some(n) && n > limit) && concat_chunks(
            chunk_bytes(chunks@),
        ).len() <= limit,
        res matches Some(body) ==> body@ == concat_chunks(chunk_bytes(chunks@)),
{
    if !advertised_length_ok(content_length, limit) {
        return None;
    }
    let ghost all = chunk_bytes(chunks@);
    let mut body: Vec<u8> = Vec::new();
    let mut i: usize = 0;
    proof {
        assert(all.take(0) =~= Seq::<Seq<u8>>::empty());
    }
    while i < chunks.len()
        invariant
            i <= chunks@.len(),
            all == chunk_bytes(chunks@),
            body@ == concat_chunks(all.take(i as int)),
            body@.len() <= limit,
        decreases chunks@.len() - i,
    {
        let chunk = &chunks[i];
        proof {
            assert(all.take(i + 1).drop_last() =~= all.take(i as int));
            assert(all.take(i + 1).last() == chunk@);
        }
        if chunk.len() > limit - body.len() {
            proof {
                lemma_concat_prefix_grows(all, i + 1);
            }
            return None;
        }
        let mut j: usize = 0;
        let ghost before = body@;
        while j < chunk.len()
            invariant
                j <= chunk@.len(),
                body@ == before + chunk@.take(j as int),
            decreases chunk@.len() - j,
        {
            body.push(chunk[j]);
            j = j + 1;
            proof {
                assert(chunk@.take(j as int) =~= chunk@.take(j - 1) + seq![chunk@[j - 1]]);
            }
        }
        proof {
            assert(chunk@.take(chunk@.len() as int) =~= chunk@);
        }
        i = i + 1;
    }
    proof {
        assert(all.take(chunks@.len() as int) =~= all);
    }
    Some(body)
}

/// A byte of a systemd credential name: ASCII alphanumeric, `-` or `_`.
pub open spec fn credential_name_byte(b: u8) -> bool {
    crate::ascii::is_alnum(b) || b == 45 || b == 95
}

/// A credential name: nonempty, of credential name bytes only.
pub open spec fn credential_name_ok(name: Seq<char>) -> bool {
    let b = encode_utf8(name);
    b.len() > 0 && forall|i: int| 0 <= i < b.len() ==> credential_name_byte(#[trigger] b[i])
}

/// Whether a credential name is valid (see `credential_name_ok`).
pub fn valid_credential_name(name: &str) -> (ok: bool)
    ensures
        ok == credential_name_ok(name@),
{
    let b = name.as_bytes();
    if b.len() == 0 {
        return false;
    }
    let mut i: usize = 0;
    while i < b.len()
        invariant
            i <= b@.len(),
            b@ == encode_utf8(name@),
            forall|k: int| 0 <= k < i ==> credential_name_byte(#[trigger] b@[k]),
        decreases b@.len() - i,
    {
        if !(crate::ascii::alnum(b[i]) || b[i] == 45 || b[i] == 95) {
            assert(!credential_name_byte(b@[i as int]));
            return false;
        }
        i = i + 1;
    }
    true
}

/// The value of a credential file: its text trimmed, which must not be
/// empty.
pub fn credential_value(raw: &str) -> (res: Option<String>)
    ensures
        trimmed(raw@).len() == 0 ==> res is None,
        trimmed(raw@).len() > 0 ==> (res matches Some(v) && v@ == trimmed(raw@)),
{
    let t = trim(raw);
    if t.unicode_len() == 0 {
        None
    } else {
        Some(t.to_string())
    }
}

} // verus!
