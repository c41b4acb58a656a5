//! Strike receive requests: exact BTC amounts, the checks on every provider
//! answer, the authenticated completion webhook, and the schedule of the
//! recovery scan. The HTTP round trips stay with the caller.
use vstd::prelude::*;
use vstd::string::{StrSliceExecFns, StringSliceAdditionalSpecFns};
use vstd::utf8::encode_utf8;

use crate::ascii::{
    all_hex, check_hex_of_len, eq_ignore_ascii_case, fold, fold_bytes, hex_of_len, is_hex,
    same_ignoring_case,
};
use crate::config::{loopback, IpAddress};
use crate::crypto::{hex_bytes, hex_decode, hmac_sha256, hmac_sha256_matches};
use crate::domain::invoice::{valid_user_bytes, validate_user};
use crate::text::{
    ascii_chars, ascii_string, blank, decimal, decimal_digits, digits_value, is_blank,
    is_whitespace, lemma_decimal_ascii, lemma_leading_ws, lemma_trailing_ws, trimmed, trim, padded_digits, pow10, push_decimal, push_padded_decimal,
    same_text, text_len, whitespace,
};
use crate::url::{opt_view, parse_url, parsed_url, UrlModel, UrlParts};
use crate::domain::payment::SettledPayment;
use crate::ident::{uuid_string, uuid_text};
use crate::json::{json_string, push_json_string};
use crate::text::{append_str, leading_ws, lemma_digits_value_of_decimal, trailing_ws};

verus! {

/// The ledger source name of Strike payments.
pub const STRIKE_SOURCE: &'static str = "strike";

/// The webhook event type of a completed receive.
pub const COMPLETED_RECEIVE_EVENT: &'static str = "receive-request.receive-completed";

/// Millisatoshis per bitcoin.
pub const MSAT_PER_BTC: u64 = 100_000_000_000;

/// Why a Strike answer, amount or webhook was refused.
#[derive(Debug, Clone, Copy, PartialEq, Eq, Structural)]
pub enum StrikeError {
    EmptyApiKey,
    ApiUrlMissingHost,
    ApiUrlCredentials,
    ApiUrlInsecure,
    ApiUrlExtras,
    ZeroAmount,
    ZeroExpiry,
    Hex32,
    BtcAmount,
    TargetCurrency,
    MissingBolt11,
    InvoiceLength,
    DescriptionHashMismatch,
    RequestedAmountCurrency,
    RequestedAmountMismatch,
    BtcAmountMismatch,
    WrongRequestId,
    InvoiceMismatch,
    PaymentHashMismatch,
    ReceiveNotFound,
    DuplicateReceive,
    WrongReceiveRequest,
    NotCompleted,
    NotBtc,
    ReceivedAmountMismatch,
    MissingLightning,
    UnexpectedReceiveType,
    InvalidScanPage,
    EmptyWebhookSecret,
    SignatureHex,
    SignatureLength,
    SignatureMismatch,
    UnsupportedEvent,
    UnsupportedWebhookVersion,
    BalanceUnavailable,
    BalanceAbsent,
    BalanceAmbiguous,
    BalanceInvalid,
    BalanceNotSatAligned,
}

/// A 32-byte hash written as 64 hexadecimal digits, of either case.
pub fn validate_hex32(value: &str) -> (res: Result<(), StrikeError>)
    ensures
        res is Ok <==> hex_of_len(value.spec_bytes(), 64),
        res is Err ==> res == Err::<(), StrikeError>(StrikeError::Hex32),
{
    if check_hex_of_len(value.as_bytes(), 64) {
        Ok(())
    } else {
        Err(StrikeError::Hex32)
    }
}

/// `msat` as a BTC decimal with exactly eleven fraction digits.
pub open spec fn btc_text(msat: nat) -> Seq<char> {
    decimal(msat / (MSAT_PER_BTC as nat)) + seq!['.'] + ascii_chars(
        padded_digits(msat % (MSAT_PER_BTC as nat), 11),
    )
}

proof fn lemma_padded_ascii(n: nat, width: nat)
    ensures
        forall|i: int| 0 <= i < padded_digits(n, width).len() ==> 48 <= #[trigger] padded_digits(n, width)[i] <= 57,
{
    lemma_decimal_ascii(n);
    let d = decimal_digits(n);
    let p = padded_digits(n, width);
    assert forall|i: int| 0 <= i < p.len() implies 48 <= #[trigger] p[i] <= 57 by {
        let pad = p.len() - d.len();
        if i >= pad {
            assert(p[i] == d[i - pad]);
        }
    }
}

proof fn lemma_char_digits_of_ascii(b: Seq<u8>)
    requires
        forall|i: int| 0 <= i < b.len() ==> 48 <= #[trigger] b[i] <= 57,
    ensures
        char_digits_value(ascii_chars(b)) == digits_value(b),
        all_digit_chars(ascii_chars(b)),
    decreases b.len(),
{
    if b.len() > 0 {
        assert(ascii_chars(b).drop_last() =~= ascii_chars(b.drop_last()));
        lemma_char_digits_of_ascii(b.drop_last());
    }
}

proof fn lemma_zeros_value(pad: nat)
    ensures
        digits_value(Seq::new(pad, |i: int| 48u8)) == 0,
    decreases pad,
{
    if pad > 0 {
        assert(Seq::new(pad, |i: int| 48u8).drop_last() =~= Seq::new((pad - 1) as nat, |i: int| 48u8));
        lemma_zeros_value((pad - 1) as nat);
    }
}

proof fn lemma_leading_zeros_value(pad: nat, d: Seq<u8>)
    ensures
        digits_value(Seq::new(pad, |i: int| 48u8) + d) == digits_value(d),
    decreases d.len(),
{
    let z = Seq::new(pad, |i: int| 48u8);
    if d.len() == 0 {
        assert(z + d =~= z);
        lemma_zeros_value(pad);
    } else {
        assert((z + d).drop_last() =~= z + d.drop_last());
        lemma_leading_zeros_value(pad, d.drop_last());
    }
}

proof fn lemma_decimal_len_bound(n: nat, k: nat)
    requires
        k >= 1,
        n < pow10(k),
    ensures
        decimal_digits(n).len() <= k,
    decreases n,
{
    if n >= 10 {
        assert(pow10(k) == 10 * pow10((k - 1) as nat));
        if k == 1 {
            assert(pow10(0) == 1);
        } else {
            lemma_decimal_len_bound(n / 10, (k - 1) as nat);
        }
    }
}

/// BTC amounts round-trip exactly: reading back the decimal that renders a
/// millisatoshi amount gives that amount.
pub proof fn law_btc_text_round_trips(msat: u64)
    ensures
        btc_msat(btc_text(msat as nat)) == Some(msat as nat),
{
    let m = msat as nat;
    let w = m / (MSAT_PER_BTC as nat);
    let f = m % (MSAT_PER_BTC as nat);
    let d = decimal_digits(w);
    let pd = padded_digits(f, 11);
    lemma_decimal_ascii(w);
    lemma_decimal_ascii(f);
    lemma_padded_ascii(f, 11);
    reveal_with_fuel(pow10, 12);
    assert(pow10(11) == 100_000_000_000);
    lemma_decimal_len_bound(f, 11);
    assert(pd.len() == 11);
    let t = btc_text(m);
    let wc = ascii_chars(d);
    let fc = ascii_chars(pd);
    assert(t == wc + seq!['.'] + fc);
    // No whitespace around the text.
    assert(!is_whitespace(t[0])) by {
        assert(t[0] == wc[0]);
    }
    assert(leading_ws(t) == 0);
    assert(!is_whitespace(t.last())) by {
        assert(t.last() == fc[10]);
    }
    assert(trailing_ws(t) == 0);
    assert(trimmed(t) =~= t);
    // The dot after the whole digits.
    assert forall|j: int| 0 <= j < wc.len() implies #[trigger] t[j] != '.' by {
        assert(t[j] == wc[j]);
    }
    assert(t[wc.len() as int] == '.');
    lemma_first_dot_char(t, wc.len());
    let fraction = t.subrange(wc.len() as int + 1, t.len() as int);
    assert(fraction =~= fc);
    assert forall|j: int| 0 <= j < fc.len() implies #[trigger] fc[j] != '.' by {
        assert(fc[j] == pd[j] as char);
    }
    lemma_first_dot_char(fc, fc.len());
    assert(t.subrange(0, wc.len() as int) =~= wc);
    // The digits' values.
    lemma_char_digits_of_ascii(d);
    lemma_char_digits_of_ascii(pd);
    lemma_digits_value_of_decimal(w);
    lemma_digits_value_of_decimal(f);
    let pad: nat = (11 - d.len()) as nat;
    assert(pd =~= Seq::new((11 - decimal_digits(f).len()) as nat, |i: int| 48u8) + decimal_digits(f));
    lemma_leading_zeros_value((11 - decimal_digits(f).len()) as nat, decimal_digits(f));
    assert(char_digits_value(fc) == f);
    assert(char_digits_value(wc) == w);
    assert(w <= u64::MAX);
    assert(w * (MSAT_PER_BTC as nat) + f == m);
    assert(pow10((11 - fc.len()) as nat) == 1);
}

/// Render millisatoshis as an exact BTC amount, `whole.fffffffffff`.
pub fn msat_to_btc_decimal(msat: u64) -> (s: String)
    ensures
        s@ == btc_text(msat as nat),
{
    let whole = msat / MSAT_PER_BTC;
    let fraction = msat % MSAT_PER_BTC;
    let mut bytes: Vec<u8> = Vec::new();
    push_decimal(&mut bytes, whole);
    bytes.push(46);
    push_padded_decimal(&mut bytes, fraction, 11);
    let ghost d = decimal_digits(whole as nat);
    let ghost p = padded_digits(fraction as nat, 11);
    proof {
        lemma_decimal_ascii(whole as nat);
        lemma_padded_ascii(fraction as nat, 11);
        assert(bytes@ =~= d + seq![46u8] + p);
        assert forall|i: int| 0 <= i < bytes@.len() implies bytes@[i] < 128 by {
            if i < d.len() {
                assert(bytes@[i] == d[i]);
            } else if i > d.len() {
                assert(bytes@[i] == p[i - d.len() - 1]);
            }
        }
    }
    let s = ascii_string(bytes);
    proof {
        assert(ascii_chars(d + seq![46u8] + p) =~= ascii_chars(d) + seq!['.'] + ascii_chars(p));
    }
    s
}

pub open spec fn is_digit_char(c: char) -> bool {
    '0' <= c <= '9'
}

pub open spec fn all_digit_chars(s: Seq<char>) -> bool {
    forall|i: int| 0 <= i < s.len() ==> is_digit_char(#[trigger] s[i])
}

/// The integer a string of decimal digit characters denotes.
pub open spec fn char_digits_value(s: Seq<char>) -> nat
    decreases s.len(),
{
    if s.len() == 0 {
        0
    } else {
        (char_digits_value(s.drop_last()) * 10 + (s.last() as nat - 48)) as nat
    }
}

/// Index of the first `.`, or the length when there is none.
pub open spec fn first_dot_char(s: Seq<char>) -> nat
    decreases s.len(),
{
    if s.len() == 0 || s[0] == '.' {
        0
    } else {
        1 + first_dot_char(s.drop_first())
    }
}

/// The millisatoshis an unsigned BTC decimal denotes, after trimming: whole
/// digits, then at most eleven fraction digits after one optional dot.
pub open spec fn btc_msat(text: Seq<char>) -> Option<nat> {
    let t = trimmed(text);
    let p = first_dot_char(t);
    let whole = t.subrange(0, p as int);
    let fraction = if p < t.len() {
        t.subrange(p as int + 1, t.len() as int)
    } else {
        Seq::<char>::empty()
    };
    if t.len() == 0 || t[0] == '-' || t[0] == '+' {
        None
    } else if p < t.len() && first_dot_char(fraction) < fraction.len() {
        None
    } else if whole.len() == 0 || !all_digit_chars(whole) {
        None
    } else if char_digits_value(whole) > u64::MAX {
        None
    } else if fraction.len() > 11 || !all_digit_chars(fraction) {
        None
    } else {
        let total = char_digits_value(whole) * (MSAT_PER_BTC as nat) + char_digits_value(fraction)
            * pow10((11 - fraction.len()) as nat);
        if total > u64::MAX {
            None
        } else {
            Some(total)
        }
    }
}

proof fn lemma_first_dot_char(s: Seq<char>, p: nat)
    requires
        p <= s.len(),
        forall|j: int| 0 <= j < p ==> #[trigger] s[j] != '.',
        p == s.len() || s[p as int] == '.',
    ensures
        first_dot_char(s) == p,
    decreases p,
{
    if p > 0 {
        assert forall|j: int| 0 <= j < p - 1 implies #[trigger] s.drop_first()[j] != '.' by {
            assert(s.drop_first()[j] == s[j + 1]);
        }
        if p < s.len() {
            assert(s.drop_first()[p - 1] == s[p as int]);
        }
        lemma_first_dot_char(s.drop_first(), (p - 1) as nat);
    }
}

proof fn lemma_pow10_small(n: nat)
    requires
        n <= 11,
    ensures
        1 <= pow10(n) <= 100_000_000_000,
        pow10(11) == 100_000_000_000,
    decreases n,
{
    reveal_with_fuel(pow10, 12);
    if n > 0 {
        lemma_pow10_small((n - 1) as nat);
    }
}

/// Scan `s[lo..hi]` for a dot; its index, or `hi`.
fn find_dot(s: &str, lo: usize, hi: usize) -> (p: usize)
    requires
        lo <= hi <= s@.len(),
    ensures
        lo <= p <= hi,
        forall|j: int| lo <= j < p ==> #[trigger] s@[j] != '.',
        p == hi || s@[p as int] == '.',
{
    let mut p = lo;
    while p < hi
        invariant
            lo <= p <= hi <= s@.len(),
            forall|j: int| lo <= j < p ==> #[trigger] s@[j] != '.',
        decreases hi - p,
    {
        if s.get_char(p) == '.' {
            return p;
        }
        p = p + 1;
    }
    p
}

/// Read the digits `s[lo..hi]`; `None` when one is not a digit or the value
/// does not fit a `u64`.
fn read_digits(s: &str, lo: usize, hi: usize) -> (res: Option<u64>)
    requires
        lo <= hi <= s@.len(),
    ensures
        ({
            let d = s@.subrange(lo as int, hi as int);
            match res {
                Some(v) => all_digit_chars(d) && v == char_digits_value(d),
                None => !all_digit_chars(d) || char_digits_value(d) > u64::MAX,
            }
        }),
{
    let ghost d = s@.subrange(lo as int, hi as int);
    let mut v: u64 = 0;
    let mut i = lo;
    while i < hi
        invariant
            lo <= i <= hi <= s@.len(),
            d == s@.subrange(lo as int, hi as int),
            all_digit_chars(d.subrange(0, i - lo)),
            v == char_digits_value(d.subrange(0, i - lo)),
        decreases hi - i,
    {
        let c = s.get_char(i);
        if !('0' <= c && c <= '9') {
            assert(!is_digit_char(d[i - lo]));
            return None;
        }
        let digit = (c as u32 - 48) as u64;
        assert(d.subrange(0, i + 1 - lo).drop_last() =~= d.subrange(0, i - lo));
        assert(d[i - lo] == c);
        if v > (u64::MAX - digit) / 10 {
            proof {
                assert(char_digits_value(d.subrange(0, i + 1 - lo)) > u64::MAX) by (nonlinear_arith)
                    requires
                        char_digits_value(d.subrange(0, i + 1 - lo)) == v * 10 + digit,
                        v > (u64::MAX - digit) / 10,
                        digit <= 9,
                ;
                if all_digit_chars(d) {
                    lemma_char_digits_grow(d, i + 1 - lo);
                }
            }
            return None;
        }
        assert(v * 10 + digit <= u64::MAX) by (nonlinear_arith)
            requires
                v <= (u64::MAX - digit) / 10,
                digit <= 9,
        ;
        v = v * 10 + digit;
        i = i + 1;
        assert(all_digit_chars(d.subrange(0, i - lo)));
    }
    assert(d.subrange(0, hi - lo) =~= d);
    Some(v)
}

proof fn lemma_char_digits_grow(s: Seq<char>, i: int)
    requires
        0 <= i <= s.len(),
        all_digit_chars(s),
    ensures
        char_digits_value(s.subrange(0, i)) <= char_digits_value(s),
    decreases s.len() - i,
{
    if i < s.len() {
        lemma_char_digits_grow(s, i + 1);
        assert(s.subrange(0, i + 1).drop_last() =~= s.subrange(0, i));
    } else {
        assert(s.subrange(0, i) =~= s);
    }
}

/// Parse an exact, unsigned BTC decimal into millisatoshis: no sign, no
/// exponent, at most eleven fraction digits, within the `u64` range.
#[verifier::rlimit(40)]
pub fn btc_decimal_to_msat(value: &str) -> (res: Result<u64, StrikeError>)
    ensures
        match btc_msat(value@) {
            Some(m) => res == Ok::<u64, StrikeError>(m as u64),
            None => res == Err::<u64, StrikeError>(StrikeError::BtcAmount),
        },
{
    let n = value.unicode_len();
    let ghost s = value@;
    let mut lo: usize = 0;
    while lo < n && whitespace(value.get_char(lo))
        invariant
            n == s.len(),
            s == value@,
            lo <= n,
            forall|j: int| 0 <= j < lo ==> is_whitespace(#[trigger] s[j]),
        decreases n - lo,
    {
        lo = lo + 1;
    }
    proof {
        lemma_leading_ws(s, lo as nat);
    }
    if lo == n {
        return Err(StrikeError::BtcAmount);
    }
    let mut hi: usize = n;
    while hi > lo && whitespace(value.get_char(hi - 1))
        invariant
            n == s.len(),
            s == value@,
            lo < n,
            lo <= hi <= n,
            forall|j: int| hi <= j < n ==> is_whitespace(#[trigger] s[j]),
            !is_whitespace(s[lo as int]),
        decreases hi,
    {
        hi = hi - 1;
    }
    proof {
        lemma_trailing_ws(s, (n - hi) as nat);
    }
    let ghost t = s.subrange(lo as int, hi as int);
    assert(t == trimmed(s));
    let first = value.get_char(lo);
    if first == '-' || first == '+' {
        return Err(StrikeError::BtcAmount);
    }
    let p = find_dot(value, lo, hi);
    proof {
        assert forall|j: int| 0 <= j < p - lo implies #[trigger] t[j] != '.' by {
            assert(t[j] == s[j + lo]);
        }
        lemma_first_dot_char(t, (p - lo) as nat);
    }
    let ghost whole = t.subrange(0, p - lo);
    let ghost fraction = if p < hi {
        t.subrange(p - lo + 1, t.len() as int)
    } else {
        Seq::<char>::empty()
    };
    assert(whole =~= s.subrange(lo as int, p as int));
    let frac_lo: usize = if p < hi {
        p + 1
    } else {
        hi
    };
    assert(fraction =~= s.subrange(frac_lo as int, hi as int));
    if p < hi {
        let q = find_dot(value, p + 1, hi);
        proof {
            assert forall|j: int| 0 <= j < q - (p + 1) implies #[trigger] fraction[j] != '.' by {
                assert(fraction[j] == s[j + p + 1]);
            }
            lemma_first_dot_char(fraction, (q - (p + 1)) as nat);
        }
        if q < hi {
            return Err(StrikeError::BtcAmount);
        }
    }
    if p == lo {
        return Err(StrikeError::BtcAmount);
    }
    let w = match read_digits(value, lo, p) {
        Some(w) => w,
        None => return Err(StrikeError::BtcAmount),
    };
    let flen = hi - frac_lo;
    if flen > 11 {
        return Err(StrikeError::BtcAmount);
    }
    let f = match read_digits(value, frac_lo, hi) {
        Some(f) => f,
        None => {
            proof {
                if all_digit_chars(fraction) {
                    lemma_char_digits_bound(fraction);
                    lemma_pow10_small(flen as nat);
                }
            }
            return Err(StrikeError::BtcAmount);
        },
    };
    proof {
        lemma_pow10_small((11 - flen) as nat);
        lemma_char_digits_bound(fraction);
        lemma_pow10_small(flen as nat);
        lemma_pow10_split(flen as nat, (11 - flen) as nat);
    }
    let mut scale: u64 = 1;
    let mut k: usize = 0;
    while k < 11 - flen
        invariant
            flen <= 11,
            k <= 11 - flen,
            scale == pow10(k as nat),
        decreases 11 - flen - k,
    {
        proof {
            lemma_pow10_small(k as nat);
        }
        scale = scale * 10;
        k = k + 1;
    }
    assert(f * scale <= 99_999_999_999) by (nonlinear_arith)
        requires
            f < pow10(flen as nat),
            scale == pow10((11 - flen) as nat),
            pow10(flen as nat) * pow10((11 - flen) as nat) == 100_000_000_000,
    ;
    let fv = f * scale;
    let base = match w.checked_mul(MSAT_PER_BTC) {
        Some(b) => b,
        None => return Err(StrikeError::BtcAmount),
    };
    match base.checked_add(fv) {
        Some(total) => Ok(total),
        None => Err(StrikeError::BtcAmount),
    }
}

proof fn lemma_char_digits_bound(s: Seq<char>)
    requires
        all_digit_chars(s),
    ensures
        char_digits_value(s) < pow10(s.len()),
    decreases s.len(),
{
    if s.len() > 0 {
        assert(all_digit_chars(s.drop_last()));
        lemma_char_digits_bound(s.drop_last());
    }
}

proof fn lemma_pow10_split(a: nat, b: nat)
    ensures
        pow10(a) * pow10(b) == pow10(a + b),
    decreases a,
{
    if a == 0 {
        assert(pow10(0) == 1);
    } else {
        let a1 = (a - 1) as nat;
        lemma_pow10_split(a1, b);
        let x = pow10(a1);
        let y = pow10(b);
        assert(pow10(a) == 10 * x);
        assert(pow10(a1 + b + 1) == 10 * pow10(a1 + b));
        assert(a == a1 + 1);
        assert((10 * x) * y == 10 * (x * y)) by (nonlinear_arith);
    }
}

/// An amount as Strike reports it: a decimal text and a currency.
#[derive(Debug, Clone)]
pub struct ProviderAmount {
    pub amount: String,
    pub currency: String,
}

/// The BOLT11 part of a receive request.
#[derive(Debug, Clone)]
pub struct Bolt11ReceiveRequest {
    pub invoice: String,
    pub requested_amount: Option<ProviderAmount>,
    pub btc_amount: Option<String>,
    pub description_hash: Option<String>,
    pub payment_hash: String,
}

/// Strike's answer describing a receive request.
#[derive(Debug, Clone)]
pub struct ReceiveRequestResponse {
    pub receive_request_id: u128,
    pub created: Option<String>,
    pub target_currency: Option<String>,
    pub bolt11: Option<Bolt11ReceiveRequest>,
}

/// The Lightning details of a receive.
#[derive(Debug, Clone)]
pub struct LightningReceive {
    pub invoice: String,
    pub description_hash: Option<String>,
    pub payment_hash: String,
}

/// One receive of a receive request.
#[derive(Debug, Clone)]
pub struct StrikeReceive {
    pub receive_id: u128,
    pub receive_request_id: u128,
    pub receive_type: String,
    pub state: String,
    pub amount_received: ProviderAmount,
    pub completed: Option<String>,
    pub lightning: Option<LightningReceive>,
}

/// A receive request as issued and stored before any payment.
#[derive(Debug, Clone, PartialEq, Eq)]
pub struct StoredStrikeReceiveRequest {
    pub receive_request_id: u128,
    pub address_user: String,
    pub credit_pool: String,
    pub amount_msat: u64,
    pub description_hash: String,
    pub payment_hash: String,
    pub invoice: String,
    pub created_provider: Option<String>,
}

/// A receive request Strike created for us.
#[derive(Debug, Clone, PartialEq, Eq)]
pub struct CreatedStrikeReceiveRequest {
    pub receive_request_id: u128,
    pub invoice: String,
    pub payment_hash: String,
    pub description_hash: String,
    pub created_provider: Option<String>,
}

/// A completed receive, authenticated by webhook or found by the scan.
#[derive(Debug, Clone, Copy, PartialEq, Eq, Structural)]
pub struct StrikeCompletedReceiveEvent {
    pub event_id: u128,
    pub receive_request_id: u128,
    pub receive_id: u128,
}

/// A completed receive that matches its stored request in every detail.
#[derive(Debug, Clone, PartialEq, Eq)]
pub struct ReconciledStrikeReceive {
    pub receive_request_id: u128,
    pub receive_id: u128,
    pub receive_type: String,
    pub amount_msat: u64,
    pub payment_hash: Option<String>,
    pub completed_provider: Option<String>,
}

pub open spec fn bytes_of(s: Seq<char>) -> Seq<u8> {
    encode_utf8(s)
}

/// Two texts are equal up to ASCII case.
pub open spec fn same_hex(a: Seq<char>, b: Seq<char>) -> bool {
    same_ignoring_case(bytes_of(a), bytes_of(b))
}

/// The checks on a receive request answer, for a request of `amount_msat`
/// with description hash `expected_hash`, in the order they are made.
pub open spec fn response_check(r: ReceiveRequestResponse, amount_msat: u64, expected_hash: Seq<char>) -> Result<(), StrikeError> {
    if r.target_currency matches Some(c) && c@ != "BTC"@ {
        Err(StrikeError::TargetCurrency)
    } else if r.bolt11 is None {
        Err(StrikeError::MissingBolt11)
    } else {
        let b = r.bolt11->0;
        if b.invoice@.len() == 0 || bytes_of(b.invoice@).len() > 8192 {
            Err(StrikeError::InvoiceLength)
        } else if !hex_of_len(bytes_of(b.payment_hash@), 64) {
            Err(StrikeError::Hex32)
        } else if b.description_hash matches Some(h) && !hex_of_len(bytes_of(h@), 64) {
            Err(StrikeError::Hex32)
        } else if b.description_hash matches Some(h) && !same_hex(h@, expected_hash) {
            Err(StrikeError::DescriptionHashMismatch)
        } else if b.requested_amount matches Some(a) && a.currency@ != "BTC"@ {
            Err(StrikeError::RequestedAmountCurrency)
        } else if b.requested_amount matches Some(a) && btc_msat(a.amount@) is None {
            Err(StrikeError::BtcAmount)
        } else if b.requested_amount matches Some(a) && btc_msat(a.amount@) != Some(amount_msat as nat) {
            Err(StrikeError::RequestedAmountMismatch)
        } else if b.btc_amount matches Some(a) && btc_msat(a@) is None {
            Err(StrikeError::BtcAmount)
        } else if b.btc_amount matches Some(a) && btc_msat(a@) != Some(amount_msat as nat) {
            Err(StrikeError::BtcAmountMismatch)
        } else {
            Ok(())
        }
    }
}

fn hex_matches(a: &str, b: &str) -> (r: bool)
    ensures
        r == same_hex(a@, b@),
{
    eq_ignore_ascii_case(a.as_bytes(), b.as_bytes())
}

/// Check Strike's answer for a receive request it created or looked up: a
/// BTC target, a bounded invoice, hex hashes, the description hash that was
/// requested, and any amount it echoes equal to the requested amount.
pub fn validate_receive_request_response(
    response: &ReceiveRequestResponse,
    amount_msat: u64,
    expected_description_hash: &str,
) -> (res: Result<(), StrikeError>)
    ensures
        res == response_check(*response, amount_msat, expected_description_hash@),
{
    if let Some(c) = &response.target_currency {
        if !same_text(c.as_str(), "BTC") {
            return Err(StrikeError::TargetCurrency);
        }
    }
    let b = match &response.bolt11 {
        None => return Err(StrikeError::MissingBolt11),
        Some(b) => b,
    };
    let len = text_len(b.invoice.as_str());
    proof {
        vstd::utf8::encode_utf8_decode_utf8(b.invoice@);
        if b.invoice@.len() == 0 {
            assert(encode_utf8(b.invoice@) =~= Seq::<u8>::empty());
        }
        if encode_utf8(b.invoice@).len() == 0 {
            assert(vstd::utf8::decode_utf8(Seq::<u8>::empty()) =~= Seq::<char>::empty());
        }
    }
    if len == 0 || len > 8192 {
        return Err(StrikeError::InvoiceLength);
    }
    if validate_hex32(b.payment_hash.as_str()).is_err() {
        return Err(StrikeError::Hex32);
    }
    if let Some(h) = &b.description_hash {
        if validate_hex32(h.as_str()).is_err() {
            return Err(StrikeError::Hex32);
        }
        if !hex_matches(h.as_str(), expected_description_hash) {
            return Err(StrikeError::DescriptionHashMismatch);
        }
    }
    if let Some(a) = &b.requested_amount {
        if !same_text(a.currency.as_str(), "BTC") {
            return Err(StrikeError::RequestedAmountCurrency);
        }
        match btc_decimal_to_msat(a.amount.as_str()) {
            Err(e) => return Err(e),
            Ok(returned) => if returned != amount_msat {
                return Err(StrikeError::RequestedAmountMismatch);
            },
        }
    }
    if let Some(a) = &b.btc_amount {
        match btc_decimal_to_msat(a.as_str()) {
            Err(e) => return Err(e),
            Ok(returned) => if returned != amount_msat {
                return Err(StrikeError::BtcAmountMismatch);
            },
        }
    }
    Ok(())
}

/// The checks on a looked-up receive request against the stored one.
pub open spec fn stored_request_check(r: ReceiveRequestResponse, s: StoredStrikeReceiveRequest) -> Result<(), StrikeError> {
    if r.receive_request_id != s.receive_request_id {
        Err(StrikeError::WrongRequestId)
    } else if response_check(r, s.amount_msat, s.description_hash@) is Err {
        response_check(r, s.amount_msat, s.description_hash@)
    } else if r.bolt11->0.invoice@ != s.invoice@ {
        Err(StrikeError::InvoiceMismatch)
    } else if !same_hex(r.bolt11->0.payment_hash@, s.payment_hash@) {
        Err(StrikeError::PaymentHashMismatch)
    } else {
        Ok(())
    }
}

/// Check that Strike's authoritative receive request is the one we issued
/// and stored: same ID, amount, description hash, invoice and payment hash.
pub fn validate_stored_request(response: &ReceiveRequestResponse, stored: &StoredStrikeReceiveRequest) -> (res: Result<(), StrikeError>)
    ensures
        res == stored_request_check(*response, *stored),
{
    if response.receive_request_id != stored.receive_request_id {
        return Err(StrikeError::WrongRequestId);
    }
    if let Err(e) = validate_receive_request_response(response, stored.amount_msat, stored.description_hash.as_str()) {
        return Err(e);
    }
    let b = match &response.bolt11 {
        None => return Err(StrikeError::MissingBolt11),
        Some(b) => b,
    };
    if !same_text(b.invoice.as_str(), stored.invoice.as_str()) {
        return Err(StrikeError::InvoiceMismatch);
    }
    if !hex_matches(b.payment_hash.as_str(), stored.payment_hash.as_str()) {
        return Err(StrikeError::PaymentHashMismatch);
    }
    Ok(())
}

/// The receives of a page that carry `receive_id`.
pub open spec fn receives_with_id(items: Seq<StrikeReceive>, receive_id: u128) -> Seq<StrikeReceive> {
    items.filter(|r: StrikeReceive| r.receive_id == receive_id)
}

/// Pick the single receive with `receive_id` from a page; none or more
/// than one is refused.
pub fn select_receive(items: Vec<StrikeReceive>, receive_id: u128) -> (res: Result<StrikeReceive, StrikeError>)
    ensures
        receives_with_id(items@, receive_id).len() == 0 ==> res == Err::<StrikeReceive, StrikeError>(
            StrikeError::ReceiveNotFound,
        ),
        receives_with_id(items@, receive_id).len() > 1 ==> res == Err::<StrikeReceive, StrikeError>(
            StrikeError::DuplicateReceive,
        ),
        receives_with_id(items@, receive_id).len() == 1 ==> res == Ok::<StrikeReceive, StrikeError>(
            receives_with_id(items@, receive_id)[0],
        ),
{
    let mut found: Option<usize> = None;
    let mut i: usize = 0;
    let ghost all = items@;
    while i < items.len()
        invariant
            items@ == all,
            i <= all.len(),
            receives_with_id(all.subrange(0, i as int), receive_id).len() <= 1,
            found is None <==> receives_with_id(all.subrange(0, i as int), receive_id).len() == 0,
            found matches Some(k) ==> k < i && all[k as int] == receives_with_id(all.subrange(0, i as int), receive_id)[0],
        decreases all.len() - i,
    {
        let ghost pre = all.subrange(0, i as int);
        let ghost next = all.subrange(0, i + 1);
        assert(next.drop_last() =~= pre);
        assert(next.last() == all[i as int]);
        proof {
            next.filter_lemma(|r: StrikeReceive| r.receive_id == receive_id);
            assert(receives_with_id(next, receive_id) == if all[i as int].receive_id == receive_id {
                receives_with_id(pre, receive_id).push(all[i as int])
            } else {
                receives_with_id(pre, receive_id)
            }) by {
                reveal_with_fuel(Seq::filter, 2);
            }
        }
        if items[i].receive_id == receive_id {
            if found.is_some() {
                proof {
                    lemma_filter_prefix_len(all, receive_id, i + 1);
                }
                return Err(StrikeError::DuplicateReceive);
            }
            found = Some(i);
        }
        i = i + 1;
    }
    assert(all.subrange(0, all.len() as int) =~= all);
    match found {
        None => Err(StrikeError::ReceiveNotFound),
        Some(k) => {
            let mut items = items;
            Ok(items.remove(k))
        },
    }
}

proof fn lemma_filter_prefix_len(all: Seq<StrikeReceive>, receive_id: u128, k: int)
    requires
        0 <= k <= all.len(),
    ensures
        receives_with_id(all.subrange(0, k), receive_id).len() <= receives_with_id(all, receive_id).len(),
    decreases all.len() - k,
{
    if k < all.len() {
        lemma_filter_prefix_len(all, receive_id, k + 1);
        let pre = all.subrange(0, k);
        let next = all.subrange(0, k + 1);
        assert(next.drop_last() =~= pre);
        reveal_with_fuel(Seq::filter, 2);
    } else {
        assert(all.subrange(0, k) =~= all);
    }
}

/// The text with ASCII letters lowercased.
pub open spec fn lower_text(s: Seq<char>) -> Seq<char> {
    ascii_chars(bytes_of(s).map_values(|b: u8| fold(b)))
}

/// Lowercase a hexadecimal text.
pub fn lowercase_hex(s: &str) -> (r: String)
    requires
        all_hex(s.spec_bytes()),
    ensures
        r@ == lower_text(s@),
{
    let folded = fold_bytes(s.as_bytes());
    proof {
        assert forall|i: int| 0 <= i < folded@.len() implies folded@[i] < 128 by {
            assert(is_hex(s.spec_bytes()[i]));
        }
    }
    ascii_string(folded)
}

/// The checks on a completed receive found for a stored request, after the
/// request itself was checked.
pub open spec fn receive_check(stored: StoredStrikeReceiveRequest, r: StrikeReceive) -> Result<Option<Seq<char>>, StrikeError> {
    if r.receive_request_id != stored.receive_request_id {
        Err(StrikeError::WrongReceiveRequest)
    } else if r.state@ != "COMPLETED"@ {
        Err(StrikeError::NotCompleted)
    } else if r.amount_received.currency@ != "BTC"@ {
        Err(StrikeError::NotBtc)
    } else if btc_msat(r.amount_received.amount@) is None {
        Err(StrikeError::BtcAmount)
    } else if btc_msat(r.amount_received.amount@) != Some(stored.amount_msat as nat) {
        Err(StrikeError::ReceivedAmountMismatch)
    } else if r.receive_type@ == "LIGHTNING"@ {
        match r.lightning {
            None => Err(StrikeError::MissingLightning),
            Some(l) => if !hex_of_len(bytes_of(l.payment_hash@), 64) {
                Err(StrikeError::Hex32)
            } else if !same_hex(l.payment_hash@, stored.payment_hash@) {
                Err(StrikeError::PaymentHashMismatch)
            } else if l.invoice@ != stored.invoice@ {
                Err(StrikeError::InvoiceMismatch)
            } else if l.description_hash matches Some(h) && !same_hex(h@, stored.description_hash@) {
                Err(StrikeError::DescriptionHashMismatch)
            } else {
                Ok(Some(lower_text(l.payment_hash@)))
            },
        }
    } else if r.receive_type@ == "P2P"@ {
        Ok(None)
    } else {
        Err(StrikeError::UnexpectedReceiveType)
    }
}

/// Reconcile a reported completion against Strike's authoritative state:
/// the looked-up request must be the stored one, the page must hold exactly
/// one receive with `receive_id`, and that receive must be completed, in
/// BTC, for exactly the stored amount, and (for Lightning) pay the issued
/// invoice. Only then is the receive credited.
pub fn reconcile_completed_receive(
    stored: &StoredStrikeReceiveRequest,
    request: &ReceiveRequestResponse,
    page: Vec<StrikeReceive>,
    receive_id: u128,
) -> (res: Result<ReconciledStrikeReceive, StrikeError>)
    ensures
        stored_request_check(*request, *stored) is Err ==> res == Err::<ReconciledStrikeReceive, StrikeError>(
            stored_request_check(*request, *stored)->Err_0,
        ),
        stored_request_check(*request, *stored) is Ok ==> {
            let found = receives_with_id(page@, receive_id);
            &&& found.len() == 0 ==> res == Err::<ReconciledStrikeReceive, StrikeError>(
                StrikeError::ReceiveNotFound,
            )
            &&& found.len() > 1 ==> res == Err::<ReconciledStrikeReceive, StrikeError>(
                StrikeError::DuplicateReceive,
            )
            &&& found.len() == 1 ==> match receive_check(*stored, found[0]) {
                Err(e) => res == Err::<ReconciledStrikeReceive, StrikeError>(e),
                Ok(hash) => res matches Ok(rec) && rec.receive_request_id == stored.receive_request_id
                    && rec.receive_id == receive_id && rec.receive_type@ == found[0].receive_type@
                    && rec.amount_msat == stored.amount_msat && opt_view(rec.payment_hash) == hash
                    && opt_view(rec.completed_provider) == opt_view(found[0].completed),
            }
        },
{
    if let Err(e) = validate_stored_request(request, stored) {
        return Err(e);
    }
    let receive = match select_receive(page, receive_id) {
        Ok(r) => r,
        Err(e) => return Err(e),
    };
    if receive.receive_request_id != stored.receive_request_id {
        return Err(StrikeError::WrongReceiveRequest);
    }
    if !same_text(receive.state.as_str(), "COMPLETED") {
        return Err(StrikeError::NotCompleted);
    }
    if !same_text(receive.amount_received.currency.as_str(), "BTC") {
        return Err(StrikeError::NotBtc);
    }
    let amount_msat = match btc_decimal_to_msat(receive.amount_received.amount.as_str()) {
        Ok(a) => a,
        Err(e) => return Err(e),
    };
    if amount_msat != stored.amount_msat {
        return Err(StrikeError::ReceivedAmountMismatch);
    }
    let payment_hash = if same_text(receive.receive_type.as_str(), "LIGHTNING") {
        let l = match &receive.lightning {
            None => return Err(StrikeError::MissingLightning),
            Some(l) => l,
        };
        if validate_hex32(l.payment_hash.as_str()).is_err() {
            return Err(StrikeError::Hex32);
        }
        if !hex_matches(l.payment_hash.as_str(), stored.payment_hash.as_str()) {
            return Err(StrikeError::PaymentHashMismatch);
        }
        if !same_text(l.invoice.as_str(), stored.invoice.as_str()) {
            return Err(StrikeError::InvoiceMismatch);
        }
        if let Some(h) = &l.description_hash {
            if !hex_matches(h.as_str(), stored.description_hash.as_str()) {
                return Err(StrikeError::DescriptionHashMismatch);
            }
        }
        Some(lowercase_hex(l.payment_hash.as_str()))
    } else if same_text(receive.receive_type.as_str(), "P2P") {
        None
    } else {
        return Err(StrikeError::UnexpectedReceiveType);
    };
    Ok(
        ReconciledStrikeReceive {
            receive_request_id: stored.receive_request_id,
            receive_id,
            receive_type: receive.receive_type,
            amount_msat,
            payment_hash,
            completed_provider: receive.completed,
        },
    )
}

/// Check the inputs of a new receive request.
pub fn check_receive_request_inputs(amount_msat: u64, description_hash: &str, expiry_seconds: u64) -> (res: Result<(), StrikeError>)
    ensures
        amount_msat == 0 ==> res == Err::<(), StrikeError>(StrikeError::ZeroAmount),
        amount_msat > 0 && !hex_of_len(description_hash.spec_bytes(), 64) ==> res == Err::<(), StrikeError>(StrikeError::Hex32),
        amount_msat > 0 && hex_of_len(description_hash.spec_bytes(), 64) && expiry_seconds == 0 ==> res
            == Err::<(), StrikeError>(StrikeError::ZeroExpiry),
        res is Ok <==> amount_msat > 0 && hex_of_len(description_hash.spec_bytes(), 64) && expiry_seconds > 0,
{
    if amount_msat == 0 {
        return Err(StrikeError::ZeroAmount);
    }
    if let Err(e) = validate_hex32(description_hash) {
        return Err(e);
    }
    if expiry_seconds == 0 {
        return Err(StrikeError::ZeroExpiry);
    }
    Ok(())
}

/// The created receive request Strike's checked answer describes: its
/// payment hash lowercased, and the description hash it echoes or, when it
/// echoes none, the one requested, lowercased.
pub fn created_receive_request(
    response: ReceiveRequestResponse,
    amount_msat: u64,
    description_hash: &str,
) -> (res: Result<CreatedStrikeReceiveRequest, StrikeError>)
    requires
        hex_of_len(description_hash.spec_bytes(), 64),
    ensures
        response_check(response, amount_msat, description_hash@) is Err ==> res == Err::<
            CreatedStrikeReceiveRequest,
            StrikeError,
        >(response_check(response, amount_msat, description_hash@)->Err_0),
        response_check(response, amount_msat, description_hash@) is Ok ==> (res matches Ok(c) && {
            let b = response.bolt11->0;
            &&& c.receive_request_id == response.receive_request_id
            &&& c.invoice@ == b.invoice@
            &&& c.payment_hash@ == lower_text(b.payment_hash@)
            &&& c.description_hash@ == match b.description_hash {
                Some(h) => h@,
                None => lower_text(description_hash@),
            }
            &&& opt_view(c.created_provider) == opt_view(response.created)
        }),
{
    if let Err(e) = validate_receive_request_response(&response, amount_msat, description_hash) {
        return Err(e);
    }
    let b = match response.bolt11 {
        None => return Err(StrikeError::MissingBolt11),
        Some(b) => b,
    };
    let payment_hash = lowercase_hex(b.payment_hash.as_str());
    let description = match b.description_hash {
        Some(h) => h,
        None => lowercase_hex(description_hash),
    };
    Ok(
        CreatedStrikeReceiveRequest {
            receive_request_id: response.receive_request_id,
            invoice: b.invoice,
            payment_hash,
            description_hash: description,
            created_provider: response.created,
        },
    )
}

/// A scan page holds at most 100 receives, all of the scanned request.
pub fn validate_scan_page(items: &Vec<StrikeReceive>, receive_request_id: u128) -> (res: Result<(), StrikeError>)
    ensures
        res is Ok <==> items@.len() <= 100 && forall|i: int|
            0 <= i < items@.len() ==> #[trigger] items@[i].receive_request_id == receive_request_id,
        res is Err ==> res == Err::<(), StrikeError>(StrikeError::InvalidScanPage),
{
    if items.len() > 100 {
        return Err(StrikeError::InvalidScanPage);
    }
    let mut i: usize = 0;
    while i < items.len()
        invariant
            i <= items@.len(),
            forall|j: int| 0 <= j < i ==> #[trigger] items@[j].receive_request_id == receive_request_id,
        decreases items@.len() - i,
    {
        if items[i].receive_request_id != receive_request_id {
            return Err(StrikeError::InvalidScanPage);
        }
        i = i + 1;
    }
    Ok(())
}

/// What the recovery scan does next: the completions to enqueue, the page
/// offset and attempt count to save, and the seconds until the next scan.
#[derive(Debug, Clone)]
pub struct ScanPlan {
    pub events: Vec<StrikeCompletedReceiveEvent>,
    pub next_offset: u32,
    pub attempts: u32,
    pub delay_seconds: i64,
}

/// The completion events of a page: one for each completed receive, in
/// page order.
pub open spec fn completed_events(page: Seq<StrikeReceive>, request_id: u128) -> Seq<StrikeCompletedReceiveEvent>
    decreases page.len(),
{
    if page.len() == 0 {
        Seq::empty()
    } else {
        let r = page.last();
        let rest = completed_events(page.drop_last(), request_id);
        if r.state@ == "COMPLETED"@ {
            rest.push(StrikeCompletedReceiveEvent { event_id: r.receive_id, receive_request_id: request_id, receive_id: r.receive_id })
        } else {
            rest
        }
    }
}

/// Plan the scan after a page was read at `offset`: a full page moves on
/// by 100 (up to an offset of one million), anything else restarts the
/// scan from the start in five minutes. Every completed receive of the
/// page is enqueued.
pub fn scan_after_page(page: &Vec<StrikeReceive>, receive_request_id: u128, offset: u32) -> (plan: ScanPlan)
    ensures
        plan.events@ == completed_events(page@, receive_request_id),
        plan.next_offset == (if page@.len() == 100 && offset < 1_000_000 {
            offset + 100
        } else {
            0int
        }),
        plan.attempts == 0,
        plan.delay_seconds == (if plan.next_offset == 0 {
            300int
        } else {
            1int
        }),
{
    let mut events: Vec<StrikeCompletedReceiveEvent> = Vec::new();
    let mut i: usize = 0;
    while i < page.len()
        invariant
            i <= page@.len(),
            events@ == completed_events(page@.subrange(0, i as int), receive_request_id),
        decreases page@.len() - i,
    {
        assert(page@.subrange(0, i + 1).drop_last() =~= page@.subrange(0, i as int));
        if same_text(page[i].state.as_str(), "COMPLETED") {
            events.push(
                StrikeCompletedReceiveEvent {
                    event_id: page[i].receive_id,
                    receive_request_id,
                    receive_id: page[i].receive_id,
                },
            );
        }
        i = i + 1;
    }
    assert(page@.subrange(0, page@.len() as int) =~= page@);
    let next_offset = if page.len() == 100 && offset < 1_000_000 {
        offset + 100
    } else {
        0
    };
    ScanPlan {
        events,
        next_offset,
        attempts: 0,
        delay_seconds: if next_offset == 0 {
            300
        } else {
            1
        },
    }
}

/// `2^min(attempts, 8)` seconds, at most 300.
pub open spec fn backoff_seconds(attempts: u32) -> int {
    let e = if attempts < 8 {
        attempts as nat
    } else {
        8
    };
    let p = vstd::arithmetic::power2::pow2(e);
    if p < 300 {
        p as int
    } else {
        300
    }
}

/// Exponential backoff for stored work: `2^min(attempts, 8)` seconds,
/// capped at five minutes.
pub fn retry_delay(attempts: u32) -> (delay: i64)
    ensures
        delay == backoff_seconds(attempts),
        1 <= delay <= 300,
{
    let e: u32 = if attempts < 8 {
        attempts
    } else {
        8
    };
    let mut p: i64 = 1;
    let mut k: u32 = 0;
    proof {
        vstd::arithmetic::power2::lemma2_to64();
    }
    while k < e
        invariant
            k <= e <= 8,
            p == vstd::arithmetic::power2::pow2(k as nat),
        decreases e - k,
    {
        proof {
            vstd::arithmetic::power2::lemma2_to64();
            vstd::arithmetic::power2::lemma_pow2_unfold((k + 1) as nat);
        }
        p = p * 2;
        k = k + 1;
    }
    proof {
        vstd::arithmetic::power2::lemma_pow2_pos(e as nat);
    }
    if p < 300 {
        p
    } else {
        300
    }
}

/// Plan the scan after reading a page failed: retry the same offset after
/// the backoff, counting the attempt (at most 30).
pub fn scan_after_failure(offset: u32, attempts: u32) -> (plan: ScanPlan)
    ensures
        plan.events@.len() == 0,
        plan.next_offset == offset,
        plan.attempts == (if attempts >= 29 {
            30int
        } else {
            attempts + 1
        }),
        plan.delay_seconds == backoff_seconds(attempts),
{
    let counted = if attempts >= 29 {
        30
    } else {
        attempts + 1
    };
    ScanPlan { events: Vec::new(), next_offset: offset, attempts: counted, delay_seconds: retry_delay(attempts) }
}

/// What retrying stored webhook work does: after seven attempts the work is
/// quarantined and retried hourly, else it backs off.
pub fn work_retry(attempts: u32) -> (r: (bool, i64))
    ensures
        r.0 == (attempts >= 7),
        r.1 == (if attempts >= 7 {
            3600int
        } else {
            backoff_seconds(attempts)
        }),
{
    if attempts >= 7 {
        (true, 3600)
    } else {
        (false, retry_delay(attempts))
    }
}

/// Verifies Strike webhook signatures with the shared secret.
#[derive(Debug, Clone)]
pub struct StrikeWebhookVerifier {
    secret: String,
}

/// A parsed Strike webhook event.
#[derive(Debug, Clone)]
pub struct WebhookEvent {
    pub id: u128,
    pub event_type: String,
    pub webhook_version: String,
    pub entity_id: u128,
    pub receive_id: u128,
}

/// What a signature header must be for a body: after trimming, 32 bytes in
/// hexadecimal that are the HMAC-SHA256 of the body under the secret.
pub open spec fn signature_check(secret: Seq<char>, body: Seq<u8>, signature_hex: Seq<char>) -> Result<(), StrikeError> {
    let t = bytes_of(trimmed(signature_hex));
    if t.len() % 2 != 0 || !all_hex(t) {
        Err(StrikeError::SignatureHex)
    } else if hex_bytes(t).len() != 32 {
        Err(StrikeError::SignatureLength)
    } else if hex_bytes(t) != hmac_sha256(bytes_of(secret), body) {
        Err(StrikeError::SignatureMismatch)
    } else {
        Ok(())
    }
}

impl StrikeWebhookVerifier {
    pub closed spec fn secret_view(&self) -> Seq<char> {
        self.secret@
    }

    /// A verifier for a nonempty secret.
    pub fn new(secret: String) -> (res: Result<Self, StrikeError>)
        ensures
            secret@.len() == 0 ==> res == Err::<Self, StrikeError>(StrikeError::EmptyWebhookSecret),
            secret@.len() > 0 ==> (res matches Ok(v) && v.secret_view() == secret@),
    {
        if secret.as_str().unicode_len() == 0 {
            return Err(StrikeError::EmptyWebhookSecret);
        }
        Ok(StrikeWebhookVerifier { secret })
    }

    /// Authenticate a webhook body by its `X-Webhook-Signature` header.
    pub fn verify_signature(&self, body: &[u8], signature_hex: &str) -> (res: Result<(), StrikeError>)
        ensures
            res == signature_check(self.secret_view(), body@, signature_hex@),
    {
        let t = trim(signature_hex);
        let signature = match hex_decode(t) {
            None => return Err(StrikeError::SignatureHex),
            Some(s) => s,
        };
        if signature.len() != 32 {
            return Err(StrikeError::SignatureLength);
        }
        if hmac_sha256_matches(self.secret.as_str().as_bytes(), body, signature.as_slice()) {
            Ok(())
        } else {
            Err(StrikeError::SignatureMismatch)
        }
    }

    /// Accept only version 1 completed-receive events.
    pub fn parse_completed_event(&self, event: &WebhookEvent) -> (res: Result<StrikeCompletedReceiveEvent, StrikeError>)
        ensures
            event.event_type@ != COMPLETED_RECEIVE_EVENT@ ==> res == Err::<StrikeCompletedReceiveEvent, StrikeError>(
                StrikeError::UnsupportedEvent,
            ),
            event.event_type@ == COMPLETED_RECEIVE_EVENT@ && event.webhook_version@ != "v1"@ ==> res
                == Err::<StrikeCompletedReceiveEvent, StrikeError>(StrikeError::UnsupportedWebhookVersion),
            event.event_type@ == COMPLETED_RECEIVE_EVENT@ && event.webhook_version@ == "v1"@ ==> res
                == Ok::<StrikeCompletedReceiveEvent, StrikeError>(
                StrikeCompletedReceiveEvent {
                    event_id: event.id,
                    receive_request_id: event.entity_id,
                    receive_id: event.receive_id,
                },
            ),
    {
        if !same_text(event.event_type.as_str(), COMPLETED_RECEIVE_EVENT) {
            return Err(StrikeError::UnsupportedEvent);
        }
        if !same_text(event.webhook_version.as_str(), "v1") {
            return Err(StrikeError::UnsupportedWebhookVersion);
        }
        Ok(
            StrikeCompletedReceiveEvent {
                event_id: event.id,
                receive_request_id: event.entity_id,
                receive_id: event.receive_id,
            },
        )
    }
}

/// The checks on a Strike API base URL, given its parsed parts and the IP
/// address its host text denotes, if any: a host, no embedded credentials,
/// and HTTPS, or HTTP to a loopback host only.
pub open spec fn provider_url_check(u: UrlModel, host_ip: Option<IpAddress>) -> Result<(), StrikeError> {
    if u.host is None {
        Err(StrikeError::ApiUrlMissingHost)
    } else if u.username.len() > 0 || u.password is Some {
        Err(StrikeError::ApiUrlCredentials)
    } else if u.scheme == "https"@ {
        Ok(())
    } else if u.scheme == "http"@ && (same_hex(u.host->0, "localhost"@) || (host_ip matches Some(ip)
        && loopback(ip))) {
        Ok(())
    } else {
        Err(StrikeError::ApiUrlInsecure)
    }
}

pub fn validate_provider_url(url: &UrlParts, host_ip: Option<IpAddress>) -> (res: Result<(), StrikeError>)
    ensures
        res == provider_url_check(url@, host_ip),
{
    let host = match &url.host {
        None => return Err(StrikeError::ApiUrlMissingHost),
        Some(h) => h,
    };
    if url.username.as_str().unicode_len() > 0 || url.password.is_some() {
        return Err(StrikeError::ApiUrlCredentials);
    }
    if same_text(url.scheme.as_str(), "https") {
        return Ok(());
    }
    if same_text(url.scheme.as_str(), "http") {
        if eq_ignore_ascii_case(host.as_str().as_bytes(), "localhost".as_bytes()) {
            return Ok(());
        }
        if let Some(ip) = host_ip {
            if ip.is_loopback() {
                return Ok(());
            }
        }
    }
    Err(StrikeError::ApiUrlInsecure)
}

/// The checks of a Strike client's configuration: a nonblank API key, and a
/// base URL that passes [`provider_url_check`] and has no query or
/// fragment. On success, whether the base path needs a trailing `/`.
pub fn check_client_config(api_key: &str, url: &str, host_ip: Option<IpAddress>) -> (res: Result<bool, StrikeError>)
    ensures
        blank(api_key@) ==> res == Err::<bool, StrikeError>(StrikeError::EmptyApiKey),
        !blank(api_key@) && parsed_url(url@) is None ==> res == Err::<bool, StrikeError>(StrikeError::ApiUrlInsecure),
        !blank(api_key@) && parsed_url(url@) is Some ==> match provider_url_check(parsed_url(url@)->0, host_ip) {
            Err(e) => res == Err::<bool, StrikeError>(e),
            Ok(()) => if parsed_url(url@)->0.query is Some || parsed_url(url@)->0.fragment is Some {
                res == Err::<bool, StrikeError>(StrikeError::ApiUrlExtras)
            } else {
                res == Ok::<bool, StrikeError>(
                    !(parsed_url(url@)->0.path.len() > 0 && parsed_url(url@)->0.path.last() == '/'),
                )
            },
        },
{
    if is_blank(api_key) {
        return Err(StrikeError::EmptyApiKey);
    }
    let u = match parse_url(url) {
        None => return Err(StrikeError::ApiUrlInsecure),
        Some(u) => u,
    };
    if let Err(e) = validate_provider_url(&u, host_ip) {
        return Err(e);
    }
    if u.query.is_some() || u.fragment.is_some() {
        return Err(StrikeError::ApiUrlExtras);
    }
    let n = u.path.as_str().unicode_len();
    Ok(!(n > 0 && u.path.as_str().get_char(n - 1) == '/'))
}

/// Strike's BTC balance; it includes pending deposits.
#[derive(Debug)]
pub struct StrikeBtcBalance {
    current_sats: u64,
}

impl StrikeBtcBalance {
    pub closed spec fn sats(&self) -> nat {
        self.current_sats as nat
    }

    pub fn current_sats(&self) -> (sats: u64)
        ensures
            sats == self.sats(),
    {
        self.current_sats
    }
}

/// The balance rows in BTC.
pub open spec fn btc_rows(rows: Seq<(String, Option<String>)>) -> Seq<(String, Option<String>)> {
    rows.filter(|r: (String, Option<String>)| r.0@ == "BTC"@)
}

/// The BTC balance the balance rows report: exactly one BTC row, with a
/// current amount of at most 32 bytes, untrimmed, not ending in `.`, an exact
/// BTC decimal and a whole number of sats.
pub open spec fn balance_check(rows: Seq<(String, Option<String>)>) -> Result<nat, StrikeError> {
    let btc = btc_rows(rows);
    if btc.len() == 0 {
        Err(StrikeError::BalanceAbsent)
    } else if btc.len() > 1 {
        Err(StrikeError::BalanceAmbiguous)
    } else if btc[0].1 is None {
        Err(StrikeError::BalanceAbsent)
    } else {
        let c = btc[0].1->0@;
        if bytes_of(c).len() > 32 || trimmed(c) != c || (c.len() > 0 && c.last() == '.') {
            Err(StrikeError::BalanceInvalid)
        } else if btc_msat(c) is None {
            Err(StrikeError::BalanceInvalid)
        } else if btc_msat(c)->0 % 1000 != 0 {
            Err(StrikeError::BalanceNotSatAligned)
        } else {
            Ok(btc_msat(c)->0 / 1000)
        }
    }
}

/// Read the BTC balance from Strike's balance rows (currency, current).
pub fn btc_balance(rows: Vec<(String, Option<String>)>) -> (res: Result<StrikeBtcBalance, StrikeError>)
    ensures
        match balance_check(rows@) {
            Err(e) => res == Err::<StrikeBtcBalance, StrikeError>(e),
            Ok(sats) => res matches Ok(b) && b.sats() == sats,
        },
{
    let mut found: Option<usize> = None;
    let mut i: usize = 0;
    let ghost all = rows@;
    while i < rows.len()
        invariant
            rows@ == all,
            i <= all.len(),
            btc_rows(all.subrange(0, i as int)).len() <= 1,
            found is None <==> btc_rows(all.subrange(0, i as int)).len() == 0,
            found matches Some(k) ==> k < i && all[k as int] == btc_rows(all.subrange(0, i as int))[0],
        decreases all.len() - i,
    {
        let ghost pre = all.subrange(0, i as int);
        let ghost next = all.subrange(0, i + 1);
        assert(next.drop_last() =~= pre);
        proof {
            reveal_with_fuel(Seq::filter, 2);
        }
        if same_text(rows[i].0.as_str(), "BTC") {
            if found.is_some() {
                proof {
                    lemma_btc_rows_prefix(all, i + 1);
                }
                return Err(StrikeError::BalanceAmbiguous);
            }
            found = Some(i);
        }
        i = i + 1;
    }
    assert(all.subrange(0, all.len() as int) =~= all);
    let k = match found {
        None => return Err(StrikeError::BalanceAbsent),
        Some(k) => k,
    };
    let current = match &rows[k].1 {
        None => return Err(StrikeError::BalanceAbsent),
        Some(c) => c,
    };
    let n = current.as_str().unicode_len();
    if text_len(current.as_str()) > 32 || !same_text(trim(current.as_str()), current.as_str()) || (n > 0
        && current.as_str().get_char(n - 1) == '.') {
        return Err(StrikeError::BalanceInvalid);
    }
    let msat = match btc_decimal_to_msat(current.as_str()) {
        Ok(m) => m,
        Err(_) => return Err(StrikeError::BalanceInvalid),
    };
    if msat % 1000 != 0 {
        return Err(StrikeError::BalanceNotSatAligned);
    }
    Ok(StrikeBtcBalance { current_sats: msat / 1000 })
}

proof fn lemma_btc_rows_prefix(all: Seq<(String, Option<String>)>, k: int)
    requires
        0 <= k <= all.len(),
    ensures
        btc_rows(all.subrange(0, k)).len() <= btc_rows(all).len(),
    decreases all.len() - k,
{
    if k < all.len() {
        lemma_btc_rows_prefix(all, k + 1);
        assert(all.subrange(0, k + 1).drop_last() =~= all.subrange(0, k));
        reveal_with_fuel(Seq::filter, 2);
    } else {
        assert(all.subrange(0, k) =~= all);
    }
}

/// The settlement context of a reconciled receive, as the ledger keeps it:
/// a JSON object of the completing provider (or `null`), the receive
/// request's UUID and the receive type, in key order.
pub open spec fn receive_context_text(r: ReconciledStrikeReceive) -> Seq<char> {
    "{\"completed_provider\":"@ + (match r.completed_provider {
        Some(p) => json_string(p@),
        None => "null"@,
    }) + ",\"receive_request_id\":"@ + json_string(uuid_text(r.receive_request_id)) + ",\"receive_type\":"@
        + json_string(r.receive_type@) + "}"@
}

/// The settlement a reconciled receive of a stored request credits: the
/// Strike receive ID as its identity, the request's user and pool, the
/// received amount and hash, and the reconciliation context.
pub fn strike_settlement(stored: &StoredStrikeReceiveRequest, receive: &ReconciledStrikeReceive) -> (p: SettledPayment)
    ensures
        p.source@ == STRIKE_SOURCE@,
        p.source_id@ == uuid_text(receive.receive_id),
        opt_view(p.payment_hash) == opt_view(receive.payment_hash),
        p.address_user@ == stored.address_user@,
        p.credit_pool@ == stored.credit_pool@,
        p.amount_msat == receive.amount_msat,
        p.settled_at is None,
        p.context_json matches Some(c) && c@ == receive_context_text(*receive),
{
    let mut context = "{\"completed_provider\":".to_string();
    match &receive.completed_provider {
        Some(provider) => push_json_string(&mut context, provider.as_str()),
        None => append_str(&mut context, "null"),
    }
    append_str(&mut context, ",\"receive_request_id\":");
    let request_id = uuid_string(receive.receive_request_id);
    push_json_string(&mut context, request_id.as_str());
    append_str(&mut context, ",\"receive_type\":");
    push_json_string(&mut context, receive.receive_type.as_str());
    append_str(&mut context, "}");
    SettledPayment {
        source: STRIKE_SOURCE.to_string(),
        source_id: uuid_string(receive.receive_id),
        payment_hash: receive.payment_hash.clone(),
        address_user: stored.address_user.clone(),
        credit_pool: stored.credit_pool.clone(),
        amount_msat: receive.amount_msat,
        settled_at: None,
        context_json: Some(context),
    }
}

} // verus!
