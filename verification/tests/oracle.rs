use lightning_goats::quotes::oracle::{
    btc_per_xmr_decimal_rate, decimal, gcd_u128, parse_kraken_ohlc, KrakenCandle, KrakenOhlc,
    OracleError, KRAKEN_SOURCE,
};

fn candle(start: i64, prices: [&str; 5], volume: &str, count: u64) -> KrakenCandle {
    KrakenCandle {
        start,
        open: prices[0].to_owned(),
        high: prices[1].to_owned(),
        low: prices[2].to_owned(),
        close: prices[3].to_owned(),
        vwap: prices[4].to_owned(),
        volume: volume.to_owned(),
        count,
    }
}

fn fixture() -> KrakenOhlc {
    KrakenOhlc {
        errors: vec![],
        candles: vec![
            candle(900, ["0.0025", "0.003", "0.002", "0.0026", "0.0025"], "1.2", 2),
            candle(960, ["999", "999", "999", "999", "999"], "1", 1),
        ],
        last: 900,
    }
}

/// Accepts any JSON document in which no object repeats a key.
struct UniqueKeys;

struct UniqueKeysVisitor;

impl<'de> serde::Deserialize<'de> for UniqueKeys {
    fn deserialize<D: serde::Deserializer<'de>>(d: D) -> Result<Self, D::Error> {
        d.deserialize_any(UniqueKeysVisitor)
    }
}

impl<'de> serde::de::Visitor<'de> for UniqueKeysVisitor {
    type Value = UniqueKeys;
    fn expecting(&self, f: &mut std::fmt::Formatter) -> std::fmt::Result {
        f.write_str("a JSON value")
    }
    fn visit_map<A: serde::de::MapAccess<'de>>(self, mut map: A) -> Result<UniqueKeys, A::Error> {
        let mut seen = std::collections::HashSet::new();
        while let Some(key) = map.next_key::<String>()? {
            if !seen.insert(key) {
                return Err(serde::de::Error::custom("duplicate field"));
            }
            map.next_value::<UniqueKeys>()?;
        }
        Ok(UniqueKeys)
    }
    fn visit_seq<A: serde::de::SeqAccess<'de>>(self, mut seq: A) -> Result<UniqueKeys, A::Error> {
        while seq.next_element::<UniqueKeys>()?.is_some() {}
        Ok(UniqueKeys)
    }
    fn visit_bool<E>(self, _: bool) -> Result<UniqueKeys, E> {
        Ok(UniqueKeys)
    }
    fn visit_i64<E>(self, _: i64) -> Result<UniqueKeys, E> {
        Ok(UniqueKeys)
    }
    fn visit_u64<E>(self, _: u64) -> Result<UniqueKeys, E> {
        Ok(UniqueKeys)
    }
    fn visit_f64<E>(self, _: f64) -> Result<UniqueKeys, E> {
        Ok(UniqueKeys)
    }
    fn visit_str<E>(self, _: &str) -> Result<UniqueKeys, E> {
        Ok(UniqueKeys)
    }
    fn visit_unit<E>(self) -> Result<UniqueKeys, E> {
        Ok(UniqueKeys)
    }
}

/// The Kraken answer as the service reads it: exactly `error` (strings) and
/// `result` with exactly the `XXMRXXBT` candles and `last`; each candle a
/// start time, six decimal texts and a trade count; no repeated member.
fn kraken_parse(raw: &str) -> Option<KrakenOhlc> {
    serde_json::from_str::<UniqueKeys>(raw).ok()?;
    let value: serde_json::Value = serde_json::from_str(raw).ok()?;
    let top = value.as_object()?;
    if top.len() != 2 {
        return None;
    }
    let errors = top.get("error")?.as_array()?.iter().map(|e| e.as_str().map(str::to_owned)).collect::<Option<Vec<_>>>()?;
    let result = top.get("result")?.as_object()?;
    if result.len() != 2 {
        return None;
    }
    let mut candles = Vec::new();
    for c in result.get("XXMRXXBT")?.as_array()? {
        let c = c.as_array()?;
        if c.len() != 8 {
            return None;
        }
        let t = |i: usize| c[i].as_str().map(str::to_owned);
        candles.push(KrakenCandle {
            start: c[0].as_i64()?,
            open: t(1)?,
            high: t(2)?,
            low: t(3)?,
            close: t(4)?,
            vwap: t(5)?,
            volume: t(6)?,
            count: c[7].as_u64()?,
        });
    }
    Some(KrakenOhlc { errors, candles, last: result.get("last")?.as_i64()? })
}

#[test]
fn rejects_wrong_pair_duplicated_fields_numeric_prices_and_errors() {
    let source = raw();
    assert!(parse_kraken_ohlc(source.clone(), kraken_parse(&source), 980).is_ok());
    for text in [
        source.replace("XXMRXXBT", "XXBTZUSD"),
        source.replace("\"error\":[]", "\"error\":[],\"error\":[]"),
        source.replace("\"0.0025\"", "0.0025"),
        source.replace("\"error\":[]", "\"error\":[\"EGeneral\"]"),
    ] {
        assert!(parse_kraken_ohlc(text.clone(), kraken_parse(&text), 980).is_err());
    }
}

fn raw() -> String {
    r#"{"error":[],"result":{"XXMRXXBT":[[900,"0.0025","0.003","0.002","0.0026","0.0025","1.2",2],[960,"999","999","999","999","999","1",1]],"last":900}}"#.to_owned()
}

#[test]
fn parses_exact_direct_rate_and_ignores_unfinished_last_candle() {
    let r = parse_kraken_ohlc(raw(), Some(fixture()), 980).unwrap();
    assert_eq!(r.rate().ratio(), (250_000, 1));
    assert_eq!(r.rate().observed_at(), 900);
    assert_eq!(
        btc_per_xmr_decimal_rate("0.000000000001", KRAKEN_SOURCE, 0).unwrap().ratio(),
        (1, 10000)
    );
}

#[test]
fn decimal_parser_rejects_ambiguous_nonfinite_and_overflow_money() {
    for value in [
        "",
        "-1",
        "+1",
        " 1",
        "1 ",
        "1e-3",
        "NaN",
        "Infinity",
        ".1",
        "1.",
        "1.2.3",
        "0",
        "0.0000000000000000001",
        "99999999999999999999999999999999999999",
        "١",
    ] {
        assert!(btc_per_xmr_decimal_rate(value, KRAKEN_SOURCE, 0).is_err(), "{value}");
    }
}

#[test]
fn chronological_and_price_inconsistency_fails_closed() {
    let mut later = fixture();
    later.candles[0].start = 961;
    let mut negative = fixture();
    negative.candles[0].start = -60;
    let mut high_below_low = fixture();
    high_below_low.candles[0].high = "0.001".to_owned();
    let mut vwap_above_high = fixture();
    vwap_above_high.candles[0].vwap = "0.1".to_owned();
    let mut zero_volume = fixture();
    zero_volume.candles[0].volume = "0".to_owned();
    for f in [later, negative, high_below_low, vwap_above_high, zero_volume] {
        assert!(parse_kraken_ohlc(raw(), Some(f), 980).is_err());
    }
    assert!(parse_kraken_ohlc(raw(), Some(fixture()), 950).is_err());
}

#[test]
fn empty_closed_candles_never_become_fresh_rate_evidence() {
    let mut f = fixture();
    f.candles[0].count = 0;
    f.candles[0].volume = "0".to_owned();
    assert!(parse_kraken_ohlc(raw(), Some(f), 980).is_err());
    assert!(parse_kraken_ohlc(raw(), Some(fixture()), 10_000)
        .unwrap()
        .rate()
        .quote(1000, 10000, 10100, 300)
        .is_err());
}

#[test]
fn unparsed_or_failed_responses_are_refused() {
    assert_eq!(parse_kraken_ohlc(raw(), None, 980).err(), Some(OracleError::Schema));
    let mut f = fixture();
    f.errors = vec!["EGeneral".to_owned()];
    assert!(parse_kraken_ohlc(raw(), Some(f), 980).is_err());
}

#[test]
fn decimals_are_reduced_exact_ratios() {
    assert_eq!(decimal("0.0025"), Ok((1, 400)));
    assert_eq!(decimal("12"), Ok((12, 1)));
    assert_eq!(decimal("1."), Err(OracleError::DecimalSyntax));
    assert_eq!(decimal(""), Err(OracleError::DecimalLength));
    assert_eq!(gcd_u128(12, 18), 6);
    assert_eq!(gcd_u128(7, 0), 7);
    assert_eq!(btc_per_xmr_decimal_rate("0", KRAKEN_SOURCE, 0).err(), Some(OracleError::ZeroPrice));
    let r = btc_per_xmr_decimal_rate("0.0026", KRAKEN_SOURCE, 5).unwrap();
    assert_eq!(r.ratio(), (260_000, 1));
    assert_eq!(r.source(), KRAKEN_SOURCE);
}
