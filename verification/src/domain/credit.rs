//! Asset-tagged amounts and immutable sats-credit valuation primitives.
//!
//! Nothing here observes a wallet, establishes settlement, or grants credit:
//! callers pass authenticated, deduplicated cumulative receipts, and the
//! ledger persists the resulting allocation in one serialized transaction.
use vstd::prelude::*;
use vstd::string::StringSliceAdditionalSpecFns;

use crate::ascii::{alnum, is_alnum};

verus! {

/// Nonnegative SQLite INTEGER range used by project accounting (i64::MAX).
pub const MAX_ACCOUNTING_UNITS: u64 = 9_223_372_036_854_775_807;

pub const PICONERO_PER_XMR: u64 = 1_000_000_000_000;

pub const SATS_PER_BTC: u64 = 100_000_000;

#[derive(Debug, Clone, Copy, PartialEq, Eq, Structural)]
pub enum Asset {
    Btc,
    Xmr,
}

/// Why a valuation primitive refused its input.
#[derive(Debug, Clone, Copy, PartialEq, Eq, Structural)]
pub enum CreditError {
    AmountOutOfRange,
    NonBtcValuation,
    QuoteNotPositive,
    QuoteOutOfRange,
    AssetMismatch,
    ValuationOutOfRange,
    InconsistentSavedCredit,
    ReceiptRegressed,
    RateNotPositive,
    InvalidRateSource,
    NegativeObservationTime,
    QuoteTargetOutOfRange,
    InvalidLifetime,
    RateFromFuture,
    StaleRate,
    QuoteOverflow,
    QuotedAmountOutOfRange,
}

impl Asset {
    pub open spec fn units_per_coin(self) -> u64 {
        match self {
            Asset::Btc => SATS_PER_BTC,
            Asset::Xmr => PICONERO_PER_XMR,
        }
    }

    pub fn atomic_units_per_coin(self) -> (units: u64)
        ensures
            units == self.units_per_coin(),
    {
        match self {
            Asset::Btc => SATS_PER_BTC,
            Asset::Xmr => PICONERO_PER_XMR,
        }
    }
}

/// Abstract value of an [`AssetAmount`].
pub struct AmountModel {
    pub asset: Asset,
    pub atomic_units: nat,
}

/// An amount of one asset, bounded by the accounting storage range.
/// Zero is valid for a cumulative starting balance.
#[derive(Debug, Clone, Copy, PartialEq, Eq)]
pub struct AssetAmount {
    asset: Asset,
    atomic_units: u64,
}

impl View for AssetAmount {
    type V = AmountModel;

    closed spec fn view(&self) -> AmountModel {
        AmountModel { asset: self.asset, atomic_units: self.atomic_units as nat }
    }
}

impl AssetAmount {
    #[verifier::type_invariant]
    closed spec fn bounded(self) -> bool {
        self.atomic_units <= MAX_ACCOUNTING_UNITS
    }

    pub fn new(asset: Asset, atomic_units: u64) -> (res: Result<Self, CreditError>)
        ensures
            res is Ok <==> atomic_units <= MAX_ACCOUNTING_UNITS,
            res matches Ok(a) ==> a@.asset == asset && a@.atomic_units == atomic_units,
            res matches Err(e) ==> e == CreditError::AmountOutOfRange,
    {
        if atomic_units > MAX_ACCOUNTING_UNITS {
            return Err(CreditError::AmountOutOfRange);
        }
        Ok(AssetAmount { asset, atomic_units })
    }

    pub fn asset(self) -> (asset: Asset)
        ensures
            asset == self@.asset,
    {
        self.asset
    }

    pub fn atomic_units(self) -> (units: u64)
        ensures
            units == self@.atomic_units,
            units <= MAX_ACCOUNTING_UNITS,
    {
        proof {
            use_type_invariant(&self);
        }
        self.atomic_units
    }

    /// BTC satoshis have identity valuation; XMR is never treated as BTC.
    pub fn native_sats(self) -> (res: Result<u64, CreditError>)
        ensures
            res is Ok <==> self@.asset == Asset::Btc,
            res matches Ok(sats) ==> sats == self@.atomic_units,
            res matches Err(e) ==> e == CreditError::NonBtcValuation,
    {
        if self.asset != Asset::Btc {
            return Err(CreditError::NonBtcValuation);
        }
        Ok(self.atomic_units)
    }
}

/// Abstract value of [`CreditTerms`]: the agreed ratio.
pub struct TermsModel {
    pub asset: Asset,
    pub expected_atomic: nat,
    pub target_sats: nat,
}

/// The agreed ratio, not a mutable spot price. Paying exactly
/// `expected_atomic` grants exactly `target_sats`.
#[derive(Debug, Clone, Copy, PartialEq, Eq)]
pub struct CreditTerms {
    asset: Asset,
    expected_atomic: u64,
    target_sats: u64,
}

impl View for CreditTerms {
    type V = TermsModel;

    closed spec fn view(&self) -> TermsModel {
        TermsModel {
            asset: self.asset,
            expected_atomic: self.expected_atomic as nat,
            target_sats: self.target_sats as nat,
        }
    }
}

/// Credit in sats for `units` of eligible receipts under the ratio
/// `target / expected`, rounded down.
pub open spec fn valued_sats(units: nat, expected: nat, target: nat) -> nat {
    (units * target / expected) as nat
}

/// The result of one valuation step, from a saved allocation to a new one.
#[derive(Debug, Clone, Copy, PartialEq, Eq)]
pub struct CreditUpdate {
    pub cumulative_eligible: AssetAmount,
    pub cumulative_credit_sats: u64,
    pub delta_sats: u64,
}

proof fn lemma_valuation_monotone(a: nat, b: nat, expected: nat, target: nat)
    requires
        a <= b,
        expected > 0,
    ensures
        valued_sats(a, expected, target) <= valued_sats(b, expected, target),
{
    assert(a * target <= b * target) by (nonlinear_arith)
        requires
            a <= b,
    ;
    vstd::arithmetic::div_mod::lemma_div_is_ordered(
        (a * target) as int,
        (b * target) as int,
        expected as int,
    );
}

impl CreditTerms {
    #[verifier::type_invariant]
    closed spec fn well_formed(self) -> bool {
        &&& 0 < self.expected_atomic <= MAX_ACCOUNTING_UNITS
        &&& 0 < self.target_sats <= MAX_ACCOUNTING_UNITS
    }

    /// The invariant every value of this type keeps.
    pub open spec fn valid_model(m: TermsModel) -> bool {
        &&& 0 < m.expected_atomic <= MAX_ACCOUNTING_UNITS
        &&& 0 < m.target_sats <= MAX_ACCOUNTING_UNITS
    }

    pub fn native_btc() -> (terms: Self)
        ensures
            terms@.asset == Asset::Btc,
            terms@.expected_atomic == 1,
            terms@.target_sats == 1,
    {
        CreditTerms { asset: Asset::Btc, expected_atomic: 1, target_sats: 1 }
    }

    /// Reconstruct persisted XMR terms. This does not authenticate a quote.
    pub fn quoted_xmr(expected_atomic: u64, target_sats: u64) -> (res: Result<Self, CreditError>)
        ensures
            expected_atomic == 0 || target_sats == 0 ==> res == Err::<Self, CreditError>(
                CreditError::QuoteNotPositive,
            ),
            expected_atomic > 0 && target_sats > 0 && (expected_atomic > MAX_ACCOUNTING_UNITS
                || target_sats > MAX_ACCOUNTING_UNITS) ==> res == Err::<Self, CreditError>(
                CreditError::QuoteOutOfRange,
            ),
            res is Ok <==> 0 < expected_atomic <= MAX_ACCOUNTING_UNITS && 0 < target_sats
                <= MAX_ACCOUNTING_UNITS,
            res matches Ok(t) ==> t@.asset == Asset::Xmr && t@.expected_atomic == expected_atomic
                && t@.target_sats == target_sats,
    {
        if expected_atomic == 0 || target_sats == 0 {
            return Err(CreditError::QuoteNotPositive);
        }
        if expected_atomic > MAX_ACCOUNTING_UNITS || target_sats > MAX_ACCOUNTING_UNITS {
            return Err(CreditError::QuoteOutOfRange);
        }
        Ok(CreditTerms { asset: Asset::Xmr, expected_atomic, target_sats })
    }

    pub fn asset(self) -> (asset: Asset)
        ensures
            asset == self@.asset,
    {
        self.asset
    }

    pub fn expected_atomic(self) -> (units: u64)
        ensures
            units == self@.expected_atomic,
            Self::valid_model(self@),
    {
        proof {
            use_type_invariant(&self);
        }
        self.expected_atomic
    }

    pub fn target_sats(self) -> (sats: u64)
        ensures
            sats == self@.target_sats,
            Self::valid_model(self@),
    {
        proof {
            use_type_invariant(&self);
        }
        self.target_sats
    }

    /// Credit owed for a cumulative eligible amount, rounded down.
    pub fn cumulative_sats(self, eligible: AssetAmount) -> (res: Result<u64, CreditError>)
        ensures
            eligible@.asset != self@.asset ==> res == Err::<u64, CreditError>(
                CreditError::AssetMismatch,
            ),
            eligible@.asset == self@.asset && valued_sats(
                eligible@.atomic_units,
                self@.expected_atomic,
                self@.target_sats,
            ) > MAX_ACCOUNTING_UNITS ==> res == Err::<u64, CreditError>(
                CreditError::ValuationOutOfRange,
            ),
            res is Ok <==> eligible@.asset == self@.asset && valued_sats(
                eligible@.atomic_units,
                self@.expected_atomic,
                self@.target_sats,
            ) <= MAX_ACCOUNTING_UNITS,
            res matches Ok(sats) ==> sats == valued_sats(
                eligible@.atomic_units,
                self@.expected_atomic,
                self@.target_sats,
            ),
            Self::valid_model(self@),
    {
        proof {
            use_type_invariant(&self);
            use_type_invariant(&eligible);
        }
        if eligible.asset != self.asset {
            return Err(CreditError::AssetMismatch);
        }
        let units = eligible.atomic_units as u128;
        let target = self.target_sats as u128;
        assert(units * target < 0x1_0000_0000_0000_0000_0000_0000_0000_0000) by (nonlinear_arith)
            requires
                units <= MAX_ACCOUNTING_UNITS,
                target <= MAX_ACCOUNTING_UNITS,
        ;
        let product = units * target;
        let total = product / (self.expected_atomic as u128);
        if total > MAX_ACCOUNTING_UNITS as u128 {
            return Err(CreditError::ValuationOutOfRange);
        }
        Ok(total as u64)
    }

    /// Value cumulative eligible receipts against a saved allocation.
    /// Regressions and inconsistent saved credit fail closed; dust yields a
    /// zero delta while still carrying the new atomic watermark.
    pub fn assess_update(
        self,
        previous_eligible: AssetAmount,
        previously_credited_sats: u64,
        current_eligible: AssetAmount,
    ) -> (res: Result<CreditUpdate, CreditError>)
        ensures
            ({
                let e = self@.expected_atomic;
                let t = self@.target_sats;
                let prev = valued_sats(previous_eligible@.atomic_units, e, t);
                let cur = valued_sats(current_eligible@.atomic_units, e, t);
                let ok = previous_eligible@.asset == self@.asset && current_eligible@.asset
                    == self@.asset && prev <= MAX_ACCOUNTING_UNITS && cur <= MAX_ACCOUNTING_UNITS
                    && prev == previously_credited_sats && previous_eligible@.atomic_units
                    <= current_eligible@.atomic_units;
                &&& res is Ok <==> ok
                &&& res matches Ok(u) ==> {
                    &&& u.cumulative_eligible@ == current_eligible@
                    &&& u.cumulative_credit_sats == cur
                    &&& u.delta_sats == cur - prev
                    &&& u.cumulative_credit_sats == previously_credited_sats + u.delta_sats
                }
                &&& previous_eligible@.asset != self@.asset ==> res == Err::<CreditUpdate, CreditError>(
                    CreditError::AssetMismatch,
                )
                &&& previous_eligible@.asset == self@.asset && prev > MAX_ACCOUNTING_UNITS ==> res
                    == Err::<CreditUpdate, CreditError>(CreditError::ValuationOutOfRange)
                &&& previous_eligible@.asset == self@.asset && prev <= MAX_ACCOUNTING_UNITS
                    && current_eligible@.asset != self@.asset ==> res == Err::<
                    CreditUpdate,
                    CreditError,
                >(CreditError::AssetMismatch)
                &&& previous_eligible@.asset == self@.asset && prev <= MAX_ACCOUNTING_UNITS
                    && current_eligible@.asset == self@.asset && cur > MAX_ACCOUNTING_UNITS ==> res
                    == Err::<CreditUpdate, CreditError>(CreditError::ValuationOutOfRange)
                &&& (previous_eligible@.asset == self@.asset && current_eligible@.asset
                    == self@.asset && prev <= MAX_ACCOUNTING_UNITS && cur <= MAX_ACCOUNTING_UNITS
                    && prev != previously_credited_sats) ==> res == Err::<CreditUpdate, CreditError>(
                    CreditError::InconsistentSavedCredit,
                )
                &&& (previous_eligible@.asset == self@.asset && current_eligible@.asset
                    == self@.asset && prev <= MAX_ACCOUNTING_UNITS && cur <= MAX_ACCOUNTING_UNITS
                    && prev == previously_credited_sats && previous_eligible@.atomic_units
                    > current_eligible@.atomic_units) ==> res == Err::<CreditUpdate, CreditError>(
                    CreditError::ReceiptRegressed,
                )
            }),
    {
        let previous_total = match self.cumulative_sats(previous_eligible) {
            Ok(v) => v,
            Err(e) => return Err(e),
        };
        let current_total = match self.cumulative_sats(current_eligible) {
            Ok(v) => v,
            Err(e) => return Err(e),
        };
        if previous_total != previously_credited_sats {
            return Err(CreditError::InconsistentSavedCredit);
        }
        if current_eligible.atomic_units() < previous_eligible.atomic_units() {
            return Err(CreditError::ReceiptRegressed);
        }
        proof {
            lemma_valuation_monotone(
                previous_eligible@.atomic_units,
                current_eligible@.atomic_units,
                self@.expected_atomic,
                self@.target_sats,
            );
        }
        let delta_sats = current_total - previous_total;
        Ok(CreditUpdate {
            cumulative_eligible: current_eligible,
            cumulative_credit_sats: current_total,
            delta_sats,
        })
    }
}

/// Abstract value of [`XmrBtcRate`], as sats per XMR.
pub struct RateModel {
    pub numerator: nat,
    pub denominator: nat,
    pub source: Seq<char>,
    pub observed_at: int,
}

/// Bytes allowed in a rate source identifier: ASCII alphanumerics and `-_.:`.
pub open spec fn is_source_byte(b: u8) -> bool {
    is_alnum(b) || b == 45 || b == 95 || b == 46 || b == 58
}

/// A bounded source identifier: 1 to 96 bytes from [`is_source_byte`].
pub open spec fn valid_source_bytes(bytes: Seq<u8>) -> bool {
    &&& 0 < bytes.len() <= 96
    &&& forall|i: int| 0 <= i < bytes.len() ==> is_source_byte(#[trigger] bytes[i])
}

/// Why a rate cannot lock a quote for `target_sats` issued at `issued_at`
/// and expiring at `expires_at`, in the order the checks are made; `Ok`
/// when it can.
pub open spec fn quote_check(
    r: RateModel,
    target_sats: u64,
    issued_at: i64,
    expires_at: i64,
    max_rate_age_seconds: u64,
) -> Result<(), CreditError> {
    if !(0 < target_sats <= MAX_ACCOUNTING_UNITS) {
        Err(CreditError::QuoteTargetOutOfRange)
    } else if !(issued_at >= 0 && expires_at > issued_at && max_rate_age_seconds > 0) {
        Err(CreditError::InvalidLifetime)
    } else if r.observed_at > issued_at {
        Err(CreditError::RateFromFuture)
    } else if issued_at - r.observed_at > max_rate_age_seconds {
        Err(CreditError::StaleRate)
    } else if target_sats * PICONERO_PER_XMR * r.denominator > 0xffff_ffff_ffff_ffff_ffff_ffff_ffff_ffff {
        Err(CreditError::QuoteOverflow)
    } else if required_piconero(target_sats as nat, r.numerator, r.denominator) > MAX_ACCOUNTING_UNITS {
        Err(CreditError::QuotedAmountOutOfRange)
    } else {
        Ok(())
    }
}

/// Immutable rate evidence: sats per XMR as numerator / denominator.
#[derive(Debug, PartialEq, Eq)]
pub struct XmrBtcRate {
    sats_per_xmr_numerator: u64,
    sats_per_xmr_denominator: u64,
    source: String,
    observed_at: i64,
}

impl View for XmrBtcRate {
    type V = RateModel;

    closed spec fn view(&self) -> RateModel {
        RateModel {
            numerator: self.sats_per_xmr_numerator as nat,
            denominator: self.sats_per_xmr_denominator as nat,
            source: self.source@,
            observed_at: self.observed_at as int,
        }
    }
}

/// Piconero required to grant `target` sats at `numerator / denominator`
/// sats per XMR, rounded up.
pub open spec fn required_piconero(target: nat, numerator: nat, denominator: nat) -> int {
    let n = (target * PICONERO_PER_XMR * denominator) as int;
    let d = numerator as int;
    if n % d == 0 {
        n / d
    } else {
        n / d + 1
    }
}

fn check_source(source: &str) -> (ok: bool)
    ensures
        ok == valid_source_bytes(source.spec_bytes()),
{
    let bytes = source.as_bytes();
    let len = bytes.len();
    if len == 0 || len > 96 {
        return false;
    }
    let mut i: usize = 0;
    while i < len
        invariant
            len == bytes@.len(),
            bytes@ == source.spec_bytes(),
            i <= len,
            forall|j: int| 0 <= j < i ==> is_source_byte(#[trigger] bytes@[j]),
        decreases len - i,
    {
        let b = bytes[i];
        let allowed = alnum(b) || b == 45 || b == 95 || b == 46 || b == 58;
        if !allowed {
            return false;
        }
        i = i + 1;
    }
    true
}

impl XmrBtcRate {
    #[verifier::type_invariant]
    closed spec fn well_formed(self) -> bool {
        Self::valid_model(self@)
    }

    /// The invariant every rate keeps: a positive ratio, a valid source and
    /// a nonnegative observation time.
    pub open spec fn valid_model(r: RateModel) -> bool {
        &&& r.numerator > 0
        &&& r.denominator > 0
        &&& r.numerator <= u64::MAX
        &&& r.denominator <= u64::MAX
        &&& valid_source_bytes(vstd::utf8::encode_utf8(r.source))
        &&& 0 <= r.observed_at <= i64::MAX
    }

    pub fn new(
        sats_per_xmr_numerator: u64,
        sats_per_xmr_denominator: u64,
        source: &str,
        observed_at: i64,
    ) -> (res: Result<Self, CreditError>)
        ensures
            sats_per_xmr_numerator == 0 || sats_per_xmr_denominator == 0 ==> res == Err::<
                Self,
                CreditError,
            >(CreditError::RateNotPositive),
            sats_per_xmr_numerator > 0 && sats_per_xmr_denominator > 0 && !valid_source_bytes(
                source.spec_bytes(),
            ) ==> res == Err::<Self, CreditError>(CreditError::InvalidRateSource),
            sats_per_xmr_numerator > 0 && sats_per_xmr_denominator > 0 && valid_source_bytes(
                source.spec_bytes(),
            ) && observed_at < 0 ==> res == Err::<Self, CreditError>(
                CreditError::NegativeObservationTime,
            ),
            res is Ok <==> sats_per_xmr_numerator > 0 && sats_per_xmr_denominator > 0
                && valid_source_bytes(source.spec_bytes()) && observed_at >= 0,
            res matches Ok(r) ==> r@.numerator == sats_per_xmr_numerator && r@.denominator
                == sats_per_xmr_denominator && r@.source == source@ && r@.observed_at
                == observed_at,
    {
        if sats_per_xmr_numerator == 0 || sats_per_xmr_denominator == 0 {
            return Err(CreditError::RateNotPositive);
        }
        if !check_source(source) {
            return Err(CreditError::InvalidRateSource);
        }
        if observed_at < 0 {
            return Err(CreditError::NegativeObservationTime);
        }
        Ok(XmrBtcRate {
            sats_per_xmr_numerator,
            sats_per_xmr_denominator,
            source: source.to_owned(),
            observed_at,
        })
    }

    pub fn ratio(&self) -> (r: (u64, u64))
        ensures
            r.0 == self@.numerator && r.1 == self@.denominator,
            r.0 > 0 && r.1 > 0,
            Self::valid_model(self@),
    {
        proof {
            use_type_invariant(self);
        }
        (self.sats_per_xmr_numerator, self.sats_per_xmr_denominator)
    }

    pub fn source(&self) -> (s: &str)
        ensures
            s@ == self@.source,
    {
        self.source.as_str()
    }

    pub fn observed_at(&self) -> (t: i64)
        ensures
            t == self@.observed_at,
            t >= 0,
    {
        proof {
            use_type_invariant(self);
        }
        self.observed_at
    }

    /// A copy with the same abstract value.
    pub fn duplicate(&self) -> (r: Self)
        ensures
            r@ == self@,
    {
        proof {
            use_type_invariant(self);
        }
        XmrBtcRate {
            sats_per_xmr_numerator: self.sats_per_xmr_numerator,
            sats_per_xmr_denominator: self.sats_per_xmr_denominator,
            source: self.source.clone(),
            observed_at: self.observed_at,
        }
    }

    /// Lock a sats-targeted quote. Callers supply the policy times and the
    /// rate-age limit; the required XMR amount is rounded up.
    pub fn quote(&self, target_sats: u64, issued_at: i64, expires_at: i64, max_rate_age_seconds: u64) -> (res: Result<XmrQuote, CreditError>)
        ensures
            match quote_check(self@, target_sats, issued_at, expires_at, max_rate_age_seconds) {
                Ok(()) => res is Ok,
                Err(e) => res == Err::<XmrQuote, CreditError>(e),
            },
            ({
                let r = self@;
                let target_ok = 0 < target_sats <= MAX_ACCOUNTING_UNITS;
                let life_ok = issued_at >= 0 && expires_at > issued_at && max_rate_age_seconds > 0;
                let fresh = r.observed_at <= issued_at && issued_at - r.observed_at
                    <= max_rate_age_seconds;
                let fits = target_sats * PICONERO_PER_XMR * r.denominator
                    <= 0xffff_ffff_ffff_ffff_ffff_ffff_ffff_ffff;
                let required = required_piconero(target_sats as nat, r.numerator, r.denominator);
                &&& !target_ok ==> res == Err::<XmrQuote, CreditError>(
                    CreditError::QuoteTargetOutOfRange,
                )
                &&& target_ok && !life_ok ==> res == Err::<XmrQuote, CreditError>(
                    CreditError::InvalidLifetime,
                )
                &&& target_ok && life_ok && r.observed_at > issued_at ==> res == Err::<
                    XmrQuote,
                    CreditError,
                >(CreditError::RateFromFuture)
                &&& target_ok && life_ok && r.observed_at <= issued_at && !fresh ==> res == Err::<
                    XmrQuote,
                    CreditError,
                >(CreditError::StaleRate)
                &&& target_ok && life_ok && fresh && !fits ==> res == Err::<XmrQuote, CreditError>(
                    CreditError::QuoteOverflow,
                )
                &&& target_ok && life_ok && fresh && fits && required > MAX_ACCOUNTING_UNITS
                    ==> res == Err::<XmrQuote, CreditError>(CreditError::QuotedAmountOutOfRange)
                &&& res is Ok <==> target_ok && life_ok && fresh && fits && required
                    <= MAX_ACCOUNTING_UNITS
                &&& res matches Ok(q) ==> {
                    &&& q@.terms.asset == Asset::Xmr
                    &&& q@.terms.target_sats == target_sats
                    &&& q@.terms.expected_atomic == required
                    &&& q@.rate == r
                    &&& q@.issued_at == issued_at
                    &&& q@.expires_at == expires_at
                }
            }),
    {
        proof {
            use_type_invariant(self);
        }
        if target_sats == 0 || target_sats > MAX_ACCOUNTING_UNITS {
            return Err(CreditError::QuoteTargetOutOfRange);
        }
        if issued_at < 0 || expires_at <= issued_at || max_rate_age_seconds == 0 {
            return Err(CreditError::InvalidLifetime);
        }
        if self.observed_at > issued_at {
            return Err(CreditError::RateFromFuture);
        }
        // Both timestamps are nonnegative and ordered, so the difference fits.
        if (issued_at - self.observed_at) as u64 > max_rate_age_seconds {
            return Err(CreditError::StaleRate);
        }
        let t = target_sats as u128;
        assert(t * (PICONERO_PER_XMR as u128) < 0x1_0000_0000_0000_0000_0000_0000_0000) by (nonlinear_arith)
            requires
                t <= MAX_ACCOUNTING_UNITS,
        ;
        let scaled = t * (PICONERO_PER_XMR as u128);
        let numerator = match scaled.checked_mul(self.sats_per_xmr_denominator as u128) {
            Some(n) => n,
            None => return Err(CreditError::QuoteOverflow),
        };
        let denominator = self.sats_per_xmr_numerator as u128;
        let required = if numerator % denominator != 0 {
            assert(numerator / denominator < 0xffff_ffff_ffff_ffff_ffff_ffff_ffff_ffff) by (nonlinear_arith)
                requires
                    numerator % denominator != 0,
                    denominator > 0,
            ;
            numerator / denominator + 1
        } else {
            numerator / denominator
        };
        if required > MAX_ACCOUNTING_UNITS as u128 {
            return Err(CreditError::QuotedAmountOutOfRange);
        }
        assert(numerator > 0) by (nonlinear_arith)
            requires
                numerator == t * (PICONERO_PER_XMR as u128) * (self.sats_per_xmr_denominator
                    as u128),
                t > 0,
                self.sats_per_xmr_denominator > 0,
        ;
        assert(required > 0) by (nonlinear_arith)
            requires
                numerator > 0,
                denominator > 0,
                numerator % denominator != 0 ==> required == numerator / denominator + 1,
                numerator % denominator == 0 ==> required == numerator / denominator,
        ;
        let terms = match CreditTerms::quoted_xmr(required as u64, target_sats) {
            Ok(terms) => terms,
            Err(e) => return Err(e),
        };
        Ok(XmrQuote { terms, rate: self.duplicate(), issued_at, expires_at })
    }
}

/// Abstract value of an [`XmrQuote`].
pub struct QuoteModel {
    pub terms: TermsModel,
    pub rate: RateModel,
    pub issued_at: int,
    pub expires_at: int,
}

/// A locked quote; a value object, not a payable intent.
#[derive(Debug, PartialEq, Eq)]
pub struct XmrQuote {
    terms: CreditTerms,
    rate: XmrBtcRate,
    issued_at: i64,
    expires_at: i64,
}

impl Clone for XmrBtcRate {
    fn clone(&self) -> (r: Self)
        ensures
            r@ == self@,
    {
        self.duplicate()
    }
}

impl Clone for XmrQuote {
    fn clone(&self) -> (r: Self)
        ensures
            r@ == self@,
    {
        self.duplicate()
    }
}

impl View for XmrQuote {
    type V = QuoteModel;

    closed spec fn view(&self) -> QuoteModel {
        QuoteModel {
            terms: self.terms@,
            rate: self.rate@,
            issued_at: self.issued_at as int,
            expires_at: self.expires_at as int,
        }
    }
}

/// The invariant every locked quote keeps: XMR terms whose expected amount
/// is the rounded-up price of the target at the quote's rate, a lifetime
/// that starts at or after the rate's observation, and a valid rate.
pub open spec fn quote_model_valid(q: QuoteModel) -> bool {
    &&& q.terms.asset == Asset::Xmr
    &&& CreditTerms::valid_model(q.terms)
    &&& XmrBtcRate::valid_model(q.rate)
    &&& q.terms.target_sats * PICONERO_PER_XMR * q.rate.denominator
        <= 0xffff_ffff_ffff_ffff_ffff_ffff_ffff_ffff
    &&& q.terms.expected_atomic == required_piconero(
        q.terms.target_sats,
        q.rate.numerator,
        q.rate.denominator,
    )
    &&& 0 <= q.issued_at < q.expires_at <= i64::MAX
    &&& q.rate.observed_at <= q.issued_at
}

impl XmrQuote {
    #[verifier::type_invariant]
    closed spec fn well_formed(self) -> bool {
        quote_model_valid(self@)
    }

    pub fn terms(&self) -> (t: CreditTerms)
        ensures
            t@ == self@.terms,
            quote_model_valid(self@),
    {
        proof {
            use_type_invariant(self);
        }
        self.terms
    }

    pub fn rate(&self) -> (r: &XmrBtcRate)
        ensures
            r@ == self@.rate,
    {
        &self.rate
    }

    pub fn issued_at(&self) -> (t: i64)
        ensures
            t == self@.issued_at,
    {
        self.issued_at
    }

    pub fn expires_at(&self) -> (t: i64)
        ensures
            t == self@.expires_at,
    {
        self.expires_at
    }

    /// A copy with the same abstract value.
    pub fn duplicate(&self) -> (q: Self)
        ensures
            q@ == self@,
    {
        proof {
            use_type_invariant(self);
        }
        XmrQuote {
            terms: self.terms,
            rate: self.rate.duplicate(),
            issued_at: self.issued_at,
            expires_at: self.expires_at,
        }
    }

    /// Whether a receipt first seen at `first_seen_at` falls inside the
    /// quote's half-open lifetime `[issued_at, expires_at)`.
    pub fn accepts_first_seen_at(&self, first_seen_at: i64) -> (accepted: bool)
        ensures
            accepted == (self@.issued_at <= first_seen_at < self@.expires_at),
    {
        first_seen_at >= self.issued_at && first_seen_at < self.expires_at
    }
}

/// Paying exactly the quoted amount values to exactly the target credit.
pub proof fn law_exact_payment_grants_target(terms: TermsModel)
    requires
        CreditTerms::valid_model(terms),
    ensures
        valued_sats(terms.expected_atomic, terms.expected_atomic, terms.target_sats)
            == terms.target_sats,
{
    let e = terms.expected_atomic;
    let t = terms.target_sats;
    assert(e * t == t * e) by (nonlinear_arith);
    vstd::arithmetic::div_mod::lemma_div_multiples_vanish(t as int, e as int);
}

/// More eligible receipts never value to less credit.
pub proof fn law_valuation_is_monotone(terms: TermsModel, a: nat, b: nat)
    requires
        CreditTerms::valid_model(terms),
        a <= b,
    ensures
        valued_sats(a, terms.expected_atomic, terms.target_sats) <= valued_sats(
            b,
            terms.expected_atomic,
            terms.target_sats,
        ),
{
    lemma_valuation_monotone(a, b, terms.expected_atomic, terms.target_sats);
}

/// Consecutive updates telescope: the deltas of two chained updates sum to
/// the difference between the final and the first valuation, so replaying
/// receipts in steps never grants more than one cumulative valuation.
pub proof fn law_updates_telescope(terms: TermsModel, u0: nat, u1: nat, u2: nat)
    requires
        CreditTerms::valid_model(terms),
        u0 <= u1 <= u2,
    ensures
        ({
            let e = terms.expected_atomic;
            let t = terms.target_sats;
            (valued_sats(u1, e, t) - valued_sats(u0, e, t)) + (valued_sats(u2, e, t)
                - valued_sats(u1, e, t)) == valued_sats(u2, e, t) - valued_sats(u0, e, t)
        }),
        valued_sats(u0, terms.expected_atomic, terms.target_sats) <= valued_sats(
            u1,
            terms.expected_atomic,
            terms.target_sats,
        ),
{
    lemma_valuation_monotone(u0, u1, terms.expected_atomic, terms.target_sats);
}

/// The quoted amount is the least amount that covers the target: it covers
/// `target * PICONERO_PER_XMR * denominator` and one piconero less does not.
pub proof fn law_quote_amount_is_ceiling(target: nat, numerator: nat, denominator: nat)
    requires
        numerator > 0,
    ensures
        required_piconero(target, numerator, denominator) * numerator >= target
            * PICONERO_PER_XMR * denominator,
        (required_piconero(target, numerator, denominator) - 1) * numerator < target
            * PICONERO_PER_XMR * denominator,
{
    let n = (target * PICONERO_PER_XMR * denominator) as int;
    let d = numerator as int;
    vstd::arithmetic::div_mod::lemma_fundamental_div_mod(n, d);
    let q = n / d;
    let r = n % d;
    assert(0 <= r < d);
    if r == 0 {
        assert(q * d == n);
        assert((q - 1) * d == q * d - d) by (nonlinear_arith);
    } else {
        assert((q + 1) * d == q * d + d) by (nonlinear_arith);
        assert(q * d == d * q) by (nonlinear_arith);
    }
}

} // verus!
