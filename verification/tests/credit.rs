use lightning_goats::domain::credit::{
    Asset, AssetAmount, CreditError, CreditTerms, XmrBtcRate, MAX_ACCOUNTING_UNITS,
    PICONERO_PER_XMR, SATS_PER_BTC,
};

fn xmr(units: u64) -> AssetAmount {
    AssetAmount::new(Asset::Xmr, units).unwrap()
}

#[test]
fn asset_amounts_are_bounded_and_native_sats_are_btc_only() {
    assert_eq!(Asset::Btc.atomic_units_per_coin(), SATS_PER_BTC);
    assert_eq!(Asset::Xmr.atomic_units_per_coin(), PICONERO_PER_XMR);
    assert_eq!(AssetAmount::new(Asset::Btc, MAX_ACCOUNTING_UNITS + 1), Err(CreditError::AmountOutOfRange));
    let sats = AssetAmount::new(Asset::Btc, 21).unwrap();
    assert_eq!(sats.native_sats(), Ok(21));
    assert_eq!(xmr(21).native_sats(), Err(CreditError::NonBtcValuation));
    assert_eq!(xmr(21).atomic_units(), 21);
}

#[test]
fn exact_payment_of_quoted_amount_grants_the_target() {
    let terms = CreditTerms::quoted_xmr(400_000, 100).unwrap();
    assert_eq!(terms.cumulative_sats(xmr(400_000)), Ok(100));
    assert_eq!(terms.cumulative_sats(xmr(399_999)), Ok(99));
    assert_eq!(terms.cumulative_sats(xmr(800_000)), Ok(200));
    assert_eq!(
        terms.cumulative_sats(AssetAmount::new(Asset::Btc, 1).unwrap()),
        Err(CreditError::AssetMismatch)
    );
    assert_eq!(CreditTerms::quoted_xmr(0, 5), Err(CreditError::QuoteNotPositive));
    assert_eq!(
        CreditTerms::quoted_xmr(MAX_ACCOUNTING_UNITS + 1, 5),
        Err(CreditError::QuoteOutOfRange)
    );
    let native = CreditTerms::native_btc();
    assert_eq!((native.expected_atomic(), native.target_sats()), (1, 1));
}

#[test]
fn updates_telescope_and_refuse_regressions() {
    let terms = CreditTerms::quoted_xmr(400_000, 100).unwrap();
    let first = terms.assess_update(xmr(0), 0, xmr(200_000)).unwrap();
    assert_eq!((first.cumulative_credit_sats, first.delta_sats), (50, 50));
    let second = terms.assess_update(xmr(200_000), 50, xmr(400_000)).unwrap();
    assert_eq!((second.cumulative_credit_sats, second.delta_sats), (100, 50));
    assert_eq!(first.delta_sats + second.delta_sats, 100);
    let dust = terms.assess_update(xmr(400_000), 100, xmr(400_001)).unwrap();
    assert_eq!(dust.delta_sats, 0);
    assert_eq!(dust.cumulative_eligible, xmr(400_001));
    assert_eq!(
        terms.assess_update(xmr(400_000), 100, xmr(300_000)),
        Err(CreditError::ReceiptRegressed)
    );
    assert_eq!(
        terms.assess_update(xmr(400_000), 99, xmr(500_000)),
        Err(CreditError::InconsistentSavedCredit)
    );
}

#[test]
fn quotes_round_the_required_amount_up() {
    // 250_000 sats per XMR: 1 sat costs 4_000_000 piconero.
    let rate = XmrBtcRate::new(250_000, 1, "kraken-xmrbtc-closed-vwap-v1", 900).unwrap();
    let q = rate.quote(1_000, 1_000, 1_300, 300).unwrap();
    assert_eq!(q.terms().expected_atomic(), 4_000_000_000);
    assert_eq!(q.terms().target_sats(), 1_000);
    assert_eq!((q.issued_at(), q.expires_at()), (1_000, 1_300));
    assert_eq!(q.terms().asset(), Asset::Xmr);
    // 3 sats per XMR: 1 sat is a third of an XMR, rounded up.
    let odd = XmrBtcRate::new(3, 1, "test", 0).unwrap();
    let q = odd.quote(1, 0, 1, 1).unwrap();
    assert_eq!(q.terms().expected_atomic(), 333_333_333_334);
}

#[test]
fn quote_refusals_are_named() {
    let rate = XmrBtcRate::new(250_000, 1, "kraken-xmrbtc-closed-vwap-v1", 900).unwrap();
    assert_eq!(rate.quote(0, 1_000, 1_300, 300).err(), Some(CreditError::QuoteTargetOutOfRange));
    assert_eq!(rate.quote(10, 1_000, 1_000, 300).err(), Some(CreditError::InvalidLifetime));
    assert_eq!(rate.quote(10, 800, 1_000, 300).err(), Some(CreditError::RateFromFuture));
    assert_eq!(rate.quote(10, 1_201, 1_300, 300).err(), Some(CreditError::StaleRate));
    assert_eq!(XmrBtcRate::new(0, 1, "x", 0).err(), Some(CreditError::RateNotPositive));
    assert_eq!(XmrBtcRate::new(1, 1, "x", -1).err(), Some(CreditError::NegativeObservationTime));
    assert_eq!(XmrBtcRate::new(1, 1, "", 0).err(), Some(CreditError::InvalidRateSource));
}
