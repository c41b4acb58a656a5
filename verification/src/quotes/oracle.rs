//! Exact decimal parsing and closed-candle selection for the Kraken XMR/XBT
//! OHLC feed. Money never passes through floating point here.
use vstd::prelude::*;
use vstd::utf8::encode_utf8;

use crate::ascii::{digit, is_digit};
use crate::domain::credit::{valid_source_bytes, CreditError, RateModel, XmrBtcRate, SATS_PER_BTC};
use crate::quotes::{valid_evidence, RateEvidence, MAX_RATE_EVIDENCE_BYTES};
use crate::text::{digits_value, pow10, text_len};

verus! {

pub const KRAKEN_SOURCE: &'static str = "kraken-xmrbtc-closed-vwap-v1";

/// Why a price or a candle series was refused.
#[derive(Debug, Clone, Copy, PartialEq, Eq, Structural)]
pub enum OracleError {
    DecimalLength,
    DecimalSyntax,
    DecimalOverflow,
    ZeroPrice,
    RateOverflow,
    Rate(CreditError),
    ResponseBounds,
    Schema,
    NoUsableCandles,
    CandleChronology,
    InconsistentVolume,
    CandleNotClosed,
    InconsistentPrices,
    NoClosedCandle,
    Evidence,
}


pub open spec fn gcd(a: nat, b: nat) -> nat
    decreases b,
{
    if b == 0 {
        a
    } else {
        gcd(b, a % b)
    }
}

/// Index of the first `.` in `b`, or its length when there is none.
pub open spec fn first_dot(b: Seq<u8>) -> nat
    decreases b.len(),
{
    if b.len() == 0 {
        0
    } else if b[0] == 46 {
        0
    } else {
        1 + first_dot(b.drop_first())
    }
}

pub open spec fn all_digits(s: Seq<u8>) -> bool {
    forall|i: int| 0 <= i < s.len() ==> is_digit(#[trigger] s[i])
}

/// An exact bounded decimal as a reduced ratio, or why it is refused:
/// 1 to 48 bytes, 1 to 20 whole digits, an optional `.` followed by 1 to 18
/// fraction digits, and nothing else (no sign, exponent or spaces).
pub open spec fn decimal_ratio(b: Seq<u8>) -> Result<(nat, nat), OracleError> {
    let p = first_dot(b);
    let whole = b.subrange(0, p as int);
    let has_dot = p < b.len();
    let fraction = if has_dot {
        b.subrange(p as int + 1, b.len() as int)
    } else {
        Seq::<u8>::empty()
    };
    if b.len() == 0 || b.len() > 48 {
        Err(OracleError::DecimalLength)
    } else if whole.len() == 0 || whole.len() > 20 || (has_dot && fraction.len() == 0)
        || fraction.len() > 18 || !all_digits(whole) || !all_digits(fraction) {
        Err(OracleError::DecimalSyntax)
    } else {
        let n = digits_value(whole + fraction);
        let d = pow10(fraction.len());
        let g = gcd(n, d);
        if n / g > u64::MAX {
            Err(OracleError::DecimalOverflow)
        } else {
            Ok((n / g, d / g))
        }
    }
}

/// The sats-per-XMR rate for a BTC-per-XMR decimal price.
pub open spec fn price_rate(price: Seq<u8>, source: Seq<char>, observed_at: int) -> Result<RateModel, OracleError> {
    match decimal_ratio(price) {
        Err(e) => Err(e),
        Ok((n, d)) => if n == 0 {
            Err(OracleError::ZeroPrice)
        } else {
            let big: nat = n * (SATS_PER_BTC as nat);
            let g = gcd(big, d);
            if big / g > u64::MAX {
                Err(OracleError::RateOverflow)
            } else if big / g == 0 {
                Err(OracleError::Rate(CreditError::RateNotPositive))
            } else if !valid_source_bytes(encode_utf8(source)) {
                Err(OracleError::Rate(CreditError::InvalidRateSource))
            } else if observed_at < 0 {
                Err(OracleError::Rate(CreditError::NegativeObservationTime))
            } else {
                Ok(
                    RateModel {
                        numerator: big / g,
                        denominator: d / g,
                        source,
                        observed_at,
                    },
                )
            }
        },
    }
}

proof fn lemma_gcd_positive(a: nat, b: nat)
    requires
        b > 0,
    ensures
        gcd(a, b) > 0,
        gcd(a, b) <= b,
    decreases b,
{
    assert(gcd(a, b) == gcd(b, a % b));
    if a % b != 0 {
        lemma_gcd_positive(b, a % b);
    } else {
        assert(gcd(b, 0) == b);
    }
}

proof fn lemma_pow10_monotone(n: nat, m: nat)
    requires
        n <= m,
    ensures
        1 <= pow10(n) <= pow10(m),
    decreases m,
{
    if m > 0 {
        if n < m {
            lemma_pow10_monotone(n, (m - 1) as nat);
        } else {
            lemma_pow10_monotone((n - 1) as nat, (m - 1) as nat);
        }
    }
}

proof fn lemma_pow10_bounds(n: nat)
    ensures
        pow10(n) >= 1,
        n <= 18 ==> pow10(n) <= 1_000_000_000_000_000_000,
        n <= 20 ==> pow10(n) <= 100_000_000_000_000_000_000,
        n <= 37 ==> pow10(n) <= 10_000_000_000_000_000_000_000_000_000_000_000_000,
{
    reveal_with_fuel(pow10, 38);
    assert(pow10(18) == 1_000_000_000_000_000_000);
    assert(pow10(20) == 100_000_000_000_000_000_000);
    assert(pow10(37) == 10_000_000_000_000_000_000_000_000_000_000_000_000);
    if n <= 18 {
        lemma_pow10_monotone(n, 18);
    }
    if n <= 20 {
        lemma_pow10_monotone(n, 20);
    }
    if n <= 37 {
        lemma_pow10_monotone(n, 37);
    }
    lemma_pow10_monotone(0, n);
}

proof fn lemma_digits_value_bound(s: Seq<u8>)
    requires
        all_digits(s),
    ensures
        digits_value(s) < pow10(s.len()),
    decreases s.len(),
{
    if s.len() > 0 {
        assert(all_digits(s.drop_last()));
        lemma_digits_value_bound(s.drop_last());
    }
}

pub fn gcd_u128(a: u128, b: u128) -> (g: u128)
    ensures
        g == gcd(a as nat, b as nat),
{
    let mut x = a;
    let mut y = b;
    while y != 0
        invariant
            gcd(x as nat, y as nat) == gcd(a as nat, b as nat),
        decreases y,
    {
        let r = x % y;
        x = y;
        y = r;
    }
    x
}

/// Parse an exact decimal into a reduced `(numerator, denominator)`.
#[verifier::loop_isolation(false)]
#[verifier::spinoff_prover]
#[verifier::rlimit(30)]
pub fn decimal(value: &str) -> (res: Result<(u64, u64), OracleError>)
    ensures
        match decimal_ratio(encode_utf8(value@)) {
            Ok((n, d)) => n <= u64::MAX && 0 < d <= u64::MAX && res == Ok::<
                (u64, u64),
                OracleError,
            >((n as u64, d as u64)),
            Err(e) => res == Err::<(u64, u64), OracleError>(e),
        },
{
    let b = value.as_bytes();
    let ghost bs = b@;
    let len = b.len();
    if len == 0 || len > 48 {
        return Err(OracleError::DecimalLength);
    }
    let mut p: usize = 0;
    while p < len && b[p] != 46
        invariant
            p <= len,
            len == bs.len(),
            b@ == bs,
            forall|j: int| 0 <= j < p ==> bs[j] != 46,
        decreases len - p,
    {
        p = p + 1;
    }
    proof {
        lemma_first_dot(bs, p as nat);
    }
    let has_dot = p < len;
    let frac_start: usize = if has_dot {
        p + 1
    } else {
        len
    };
    let frac_len: usize = len - frac_start;
    let ghost whole = bs.subrange(0, p as int);
    let ghost fraction = if has_dot {
        bs.subrange(p + 1, bs.len() as int)
    } else {
        Seq::<u8>::empty()
    };
    assert(fraction.len() == frac_len);
    if p == 0 || p > 20 || (has_dot && frac_len == 0) || frac_len > 18 {
        return Err(OracleError::DecimalSyntax);
    }
    let mut n: u128 = 0;
    let mut i: usize = 0;
    while i < p
        invariant
            i <= p <= 20,
            p <= len,
            len == bs.len(),
            b@ == bs,
            whole == bs.subrange(0, p as int),
            all_digits(whole.subrange(0, i as int)),
            n == digits_value(whole.subrange(0, i as int)),
            n < pow10(i as nat),
        decreases p - i,
    {
        if !digit(b[i]) {
            assert(!is_digit(whole[i as int]));
            return Err(OracleError::DecimalSyntax);
        }
        proof {
            lemma_pow10_bounds(i as nat);
            assert(whole.subrange(0, i + 1).drop_last() =~= whole.subrange(0, i as int));
        }
        n = n * 10 + (b[i] - 48) as u128;
        i = i + 1;
        proof {
            assert(all_digits(whole.subrange(0, i as int)));
        }
    }
    assert(whole.subrange(0, p as int) =~= whole);
    let ghost joined = whole + fraction;
    assert(joined.subrange(0, p as int) =~= whole);
    let mut k: usize = 0;
    while k < frac_len
        invariant
            k <= frac_len <= 18,
            p <= 20,
            frac_start + frac_len == len,
            len == bs.len(),
            b@ == bs,
            fraction =~= bs.subrange(frac_start as int, len as int),
            joined == whole + fraction,
            whole.len() == p,
            all_digits(whole),
            all_digits(fraction.subrange(0, k as int)),
            n == digits_value(joined.subrange(0, p + k)),
            n < pow10((p + k) as nat),
        decreases frac_len - k,
    {
        if !digit(b[frac_start + k]) {
            assert(!is_digit(fraction[k as int]));
            return Err(OracleError::DecimalSyntax);
        }
        proof {
            lemma_pow10_bounds((p + k) as nat);
            assert(p + k <= 37);
            assert(joined.subrange(0, p + k + 1).drop_last() =~= joined.subrange(0, p + k));
            assert(joined[p + k] == fraction[k as int]);
        }
        n = n * 10 + (b[frac_start + k] - 48) as u128;
        k = k + 1;
        proof {
            assert(fraction.subrange(0, k as int).drop_last() =~= fraction.subrange(0, k - 1));
            assert(all_digits(fraction.subrange(0, k as int)));
        }
    }
    assert(fraction.subrange(0, frac_len as int) =~= fraction);
    assert(joined.subrange(0, p + frac_len) =~= joined);
    let mut d: u128 = 1;
    let mut e: usize = 0;
    while e < frac_len
        invariant
            e <= frac_len <= 18,
            d == pow10(e as nat),
        decreases frac_len - e,
    {
        proof {
            lemma_pow10_bounds(e as nat);
        }
        d = d * 10;
        e = e + 1;
    }
    proof {
        lemma_pow10_bounds(frac_len as nat);
        lemma_gcd_positive(n as nat, d as nat);
    }
    let g = gcd_u128(n, d);
    let num = n / g;
    let den = d / g;
    assert(den <= d) by (nonlinear_arith)
        requires
            g > 0,
            den == d / g,
    ;
    assert(den > 0) by (nonlinear_arith)
        requires
            g > 0,
            g <= d,
            den == d / g,
    ;
    assert(d <= 1_000_000_000_000_000_000);
    if num > u64::MAX as u128 {
        return Err(OracleError::DecimalOverflow);
    }
    Ok((num as u64, den as u64))
}

proof fn lemma_first_dot(b: Seq<u8>, p: nat)
    requires
        p <= b.len(),
        forall|j: int| 0 <= j < p ==> b[j] != 46,
        p == b.len() || b[p as int] == 46,
    ensures
        first_dot(b) == p,
    decreases p,
{
    if p > 0 {
        assert forall|j: int| 0 <= j < p - 1 implies b.drop_first()[j] != 46 by {
            assert(b.drop_first()[j] == b[j + 1]);
        }
        if p < b.len() {
            assert(b.drop_first()[p - 1] == b[p as int]);
        }
        lemma_first_dot(b.drop_first(), (p - 1) as nat);
    }
}

/// The rate of a BTC-per-XMR decimal price, converted to sats per XMR.
pub fn btc_per_xmr_decimal_rate(price: &str, source: &str, observed_at: i64) -> (res: Result<XmrBtcRate, OracleError>)
    ensures
        match price_rate(encode_utf8(price@), source@, observed_at as int) {
            Ok(m) => res matches Ok(r) && r@ == m,
            Err(e) => res == Err::<XmrBtcRate, OracleError>(e),
        },
{
    let (n, d) = match decimal(price) {
        Ok(v) => v,
        Err(e) => return Err(e),
    };
    if n == 0 {
        return Err(OracleError::ZeroPrice);
    }
    let big = (n as u128) * (SATS_PER_BTC as u128);
    proof {
        lemma_gcd_positive(big as nat, d as nat);
    }
    let g = gcd_u128(big, d as u128);
    let num = big / g;
    let den = (d as u128) / g;
    assert(den <= d && den > 0) by (nonlinear_arith)
        requires
            g > 0,
            g <= d,
            den == (d as u128) / g,
    ;
    if num > u64::MAX as u128 {
        return Err(OracleError::RateOverflow);
    }
    match XmrBtcRate::new(num as u64, den as u64, source, observed_at) {
        Ok(r) => Ok(r),
        Err(e) => Err(OracleError::Rate(e)),
    }
}

/// One OHLC row: start time, open, high, low, close, VWAP, volume, count.
#[derive(Debug, Clone)]
pub struct KrakenCandle {
    pub start: i64,
    pub open: String,
    pub high: String,
    pub low: String,
    pub close: String,
    pub vwap: String,
    pub volume: String,
    pub count: u64,
}

/// The fields of a Kraken OHLC response for the XMR/XBT pair.
#[derive(Debug, Clone)]
pub struct KrakenOhlc {
    pub errors: Vec<String>,
    pub candles: Vec<KrakenCandle>,
    pub last: i64,
}

pub open spec fn utf8_of(s: String) -> Seq<u8> {
    encode_utf8(s@)
}

/// Candle starts are nonnegative whole minutes, not after the fetch time,
/// and strictly increasing.
pub open spec fn chronology_ok(cs: Seq<KrakenCandle>, fetched_at: int) -> bool {
    &&& forall|i: int|
        0 <= i < cs.len() ==> {
            let t = #[trigger] cs[i].start;
            t >= 0 && t % 60 == 0 && t <= fetched_at
        }
    &&& forall|i: int| 0 < i < cs.len() ==> #[trigger] cs[i - 1].start < cs[i].start
}

/// `a < b` for reduced ratios `(numerator, denominator)`.
pub open spec fn ratio_lt(a: (nat, nat), b: (nat, nat)) -> bool {
    a.0 * b.1 < b.0 * a.1
}

/// A price outside `[low, high]`, an empty low, or `low > high`.
pub open spec fn prices_inconsistent(o: (nat, nat), h: (nat, nat), l: (nat, nat), c: (nat, nat), v: (nat, nat)) -> bool {
    l.0 == 0 || ratio_lt(h, l) || ratio_lt(o, l) || ratio_lt(h, o) || ratio_lt(c, l) || ratio_lt(h, c)
        || ratio_lt(v, l) || ratio_lt(h, v)
}

/// The rate of the candle at index `k`, or why the candle is refused.
pub open spec fn candle_rate(c: KrakenCandle, fetched_at: int) -> Result<RateModel, OracleError> {
    match decimal_ratio(utf8_of(c.open)) {
        Err(e) => Err(e),
        Ok(o) => match decimal_ratio(utf8_of(c.high)) {
            Err(e) => Err(e),
            Ok(h) => match decimal_ratio(utf8_of(c.low)) {
                Err(e) => Err(e),
                Ok(l) => match decimal_ratio(utf8_of(c.close)) {
                    Err(e) => Err(e),
                    Ok(cl) => match decimal_ratio(utf8_of(c.vwap)) {
                        Err(e) => Err(e),
                        Ok(v) => if prices_inconsistent(o, h, l, cl, v) {
                            Err(OracleError::InconsistentPrices)
                        } else {
                            price_rate(utf8_of(c.vwap), KRAKEN_SOURCE@, c.start as int)
                        },
                    },
                },
            },
        },
    }
}

/// What one candle contributes to the scan: `Ok(None)` for an empty candle
/// that is skipped, the candle's rate, or why the series is refused.
#[verifier::opaque]
pub open spec fn candle_step(c: KrakenCandle, fetched_at: int) -> Result<Option<RateModel>, OracleError> {
    match decimal_ratio(utf8_of(c.volume)) {
        Err(e) => Err(e),
        Ok(vol) => if c.count == 0 && vol.0 == 0 {
            Ok(None)
        } else if c.count == 0 || vol.0 == 0 {
            Err(OracleError::InconsistentVolume)
        } else if c.start + 60 > fetched_at {
            Err(OracleError::CandleNotClosed)
        } else {
            match candle_rate(c, fetched_at) {
                Ok(m) => Ok(Some(m)),
                Err(e) => Err(e),
            }
        },
    }
}

/// Scan the candles before index `k`, newest first: empty candles are
/// skipped, and the first nonempty one decides.
pub open spec fn scan_closed(cs: Seq<KrakenCandle>, k: nat, fetched_at: int) -> Result<RateModel, OracleError>
    decreases k,
{
    if k == 0 || k > cs.len() {
        Err(OracleError::NoClosedCandle)
    } else {
        match candle_step(cs[k - 1], fetched_at) {
            Err(e) => Err(e),
            Ok(None) => scan_closed(cs, (k - 1) as nat, fetched_at),
            Ok(Some(m)) => Ok(m),
        }
    }
}

/// The rate a parsed response yields: the newest nonempty closed candle,
/// never the unfinished last row.
pub open spec fn kraken_rate(raw_len: nat, response: Option<KrakenOhlc>, fetched_at: int) -> Result<RateModel, OracleError> {
    if raw_len > MAX_RATE_EVIDENCE_BYTES || fetched_at < 0 {
        Err(OracleError::ResponseBounds)
    } else {
        match response {
            None => Err(OracleError::Schema),
            Some(r) => {
                let cs = r.candles@;
                if r.errors@.len() > 0 || r.last < 0 || cs.len() < 2 || cs.len() > 720 {
                    Err(OracleError::NoUsableCandles)
                } else if !chronology_ok(cs, fetched_at) {
                    Err(OracleError::CandleChronology)
                } else {
                    scan_closed(cs, (cs.len() - 1) as nat, fetched_at)
                }
            },
        }
    }
}

/// Cross products for comparing two ratios.
fn cross(a: (u64, u64), b: (u64, u64)) -> (r: (u128, u128))
    ensures
        r.0 == a.0 * b.1 && r.1 == b.0 * a.1,
{
    assert(a.0 * b.1 <= 0xffff_ffff_ffff_ffff_ffff_ffff_ffff_ffff && b.0 * a.1
        <= 0xffff_ffff_ffff_ffff_ffff_ffff_ffff_ffff) by (nonlinear_arith)
        requires
            a.0 <= u64::MAX,
            a.1 <= u64::MAX,
            b.0 <= u64::MAX,
            b.1 <= u64::MAX,
    ;
    ((a.0 as u128) * (b.1 as u128), (b.0 as u128) * (a.1 as u128))
}

fn less(a: (u64, u64), b: (u64, u64)) -> (r: bool)
    ensures
        r == ratio_lt((a.0 as nat, a.1 as nat), (b.0 as nat, b.1 as nat)),
{
    let (x, y) = cross(a, b);
    x < y
}

fn check_chronology(cs: &Vec<KrakenCandle>, fetched_at: i64) -> (ok: bool)
    ensures
        ok == chronology_ok(cs@, fetched_at as int),
{
    let mut i: usize = 0;
    while i < cs.len()
        invariant
            i <= cs@.len(),
            forall|j: int|
                0 <= j < i ==> {
                    let t = #[trigger] cs@[j].start;
                    t >= 0 && t % 60 == 0 && t <= fetched_at
                },
            forall|j: int| 0 < j < i ==> #[trigger] cs@[j - 1].start < cs@[j].start,
        decreases cs@.len() - i,
    {
        let t = cs[i].start;
        if t < 0 || t % 60 != 0 || t > fetched_at || (i > 0 && cs[i - 1].start >= t) {
            assert(!chronology_ok(cs@, fetched_at as int)) by {
                if i > 0 && cs@[i - 1].start >= t {
                    assert(cs@[(i as int) - 1].start >= cs@[i as int].start);
                } else {
                    assert(cs@[i as int].start == t);
                }
            }
            return false;
        }
        i = i + 1;
    }
    true
}

fn candle_rate_exec(c: &KrakenCandle, fetched_at: i64) -> (res: Result<XmrBtcRate, OracleError>)
    ensures
        match candle_rate(*c, fetched_at as int) {
            Ok(m) => res matches Ok(r) && r@ == m,
            Err(e) => res == Err::<XmrBtcRate, OracleError>(e),
        },
{
    let open = match decimal(c.open.as_str()) {
        Ok(v) => v,
        Err(e) => return Err(e),
    };
    let high = match decimal(c.high.as_str()) {
        Ok(v) => v,
        Err(e) => return Err(e),
    };
    let low = match decimal(c.low.as_str()) {
        Ok(v) => v,
        Err(e) => return Err(e),
    };
    let close = match decimal(c.close.as_str()) {
        Ok(v) => v,
        Err(e) => return Err(e),
    };
    let vwap = match decimal(c.vwap.as_str()) {
        Ok(v) => v,
        Err(e) => return Err(e),
    };
    if low.0 == 0 || less(high, low) || less(open, low) || less(high, open) || less(close, low)
        || less(high, close) || less(vwap, low) || less(high, vwap) {
        return Err(OracleError::InconsistentPrices);
    }
    btc_per_xmr_decimal_rate(c.vwap.as_str(), KRAKEN_SOURCE, c.start)
}

fn examine_candle(c: &KrakenCandle, fetched_at: i64) -> (res: Result<Option<XmrBtcRate>, OracleError>)
    requires
        fetched_at >= 0,
    ensures
        match candle_step(*c, fetched_at as int) {
            Ok(None) => res matches Ok(None),
            Ok(Some(m)) => res matches Ok(Some(r)) && r@ == m,
            Err(e) => res == Err::<Option<XmrBtcRate>, OracleError>(e),
        },
{
    reveal(candle_step);
    let volume = match decimal(c.volume.as_str()) {
        Ok(v) => v,
        Err(e) => return Err(e),
    };
    if c.count == 0 && volume.0 == 0 {
        return Ok(None);
    }
    if c.count == 0 || volume.0 == 0 {
        return Err(OracleError::InconsistentVolume);
    }
    if c.start > fetched_at - 60 {
        return Err(OracleError::CandleNotClosed);
    }
    match candle_rate_exec(c, fetched_at) {
        Ok(rate) => Ok(Some(rate)),
        Err(e) => Err(e),
    }
}

#[verifier::spinoff_prover]
#[verifier::rlimit(30)]
#[verifier::loop_isolation(false)]
/// Select the rate of the newest nonempty closed candle of a parsed Kraken
/// response (`None` when the response did not match the expected schema),
/// and keep the raw response as evidence.
pub fn parse_kraken_ohlc(raw_json: String, response: Option<KrakenOhlc>, fetched_at: i64) -> (res: Result<RateEvidence, OracleError>)
    ensures
        match kraken_rate(encode_utf8(raw_json@).len(), response, fetched_at as int) {
            Ok(m) => {
                &&& valid_evidence(m.observed_at, fetched_at as int, raw_json@) ==> (res matches Ok(e)
                    && e.rate_view() == m && e.raw_view() == raw_json@
                    && e.fetched_at_view() == fetched_at)
                &&& !valid_evidence(m.observed_at, fetched_at as int, raw_json@) ==> res
                    == Err::<RateEvidence, OracleError>(OracleError::Evidence)
            },
            Err(e) => res == Err::<RateEvidence, OracleError>(e),
        },
{
    let len = text_len(raw_json.as_str());
    if len > MAX_RATE_EVIDENCE_BYTES || fetched_at < 0 {
        return Err(OracleError::ResponseBounds);
    }
    let ghost resp = response;
    let r = match response {
        None => return Err(OracleError::Schema),
        Some(r) => r,
    };
    let cs = &r.candles;
    if r.errors.len() > 0 || r.last < 0 || cs.len() < 2 || cs.len() > 720 {
        return Err(OracleError::NoUsableCandles);
    }
    if !check_chronology(cs, fetched_at) {
        return Err(OracleError::CandleChronology);
    }
    let mut k: usize = cs.len() - 1;
    while k > 0
        invariant
            k < cs@.len(),
            fetched_at >= 0,
            cs@ == resp->0.candles@,
            kraken_rate(encode_utf8(raw_json@).len(), resp, fetched_at as int) == scan_closed(
                cs@,
                k as nat,
                fetched_at as int,
            ),
        decreases k,
    {
        let step = examine_candle(&cs[k - 1], fetched_at);
        assert(scan_closed(cs@, k as nat, fetched_at as int) == match candle_step(cs@[k - 1], fetched_at as int) {
            Err(e) => Err(e),
            Ok(None) => scan_closed(cs@, (k - 1) as nat, fetched_at as int),
            Ok(Some(m)) => Ok::<RateModel, OracleError>(m),
        });
        match step {
            Err(e) => {
                return Err(e);
            },
            Ok(None) => {
                k = k - 1;
            },
            Ok(Some(rate)) => {
                return match RateEvidence::new(rate, fetched_at, raw_json) {
                    Ok(e) => Ok(e),
                    Err(_) => Err(OracleError::Evidence),
                };
            },
        }
    }
    Err(OracleError::NoClosedCandle)
}

} // verus!
