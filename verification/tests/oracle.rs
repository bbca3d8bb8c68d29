use stellar_lend::oracle::{
    fallback_start, fallback_step, first_valid_price, on_cached_price, validate_price,
    validate_version, CachedOraclePrice, FallbackAction, FallbackEvent, FallbackStage, OracleClientConfig, OracleClientError, OraclePrice,
};

fn price(p: i128, at: u64) -> OraclePrice<&'static str> {
    OraclePrice { price: p, updated_at: at, source: "oracle" }
}

fn cfg() -> OracleClientConfig {
    OracleClientConfig { max_staleness_seconds: 60, cache_ttl_seconds: 300 }
}

#[test]
fn version_check() {
    assert_eq!(validate_version(1), Ok(()));
    assert_eq!(validate_version(2), Err(OracleClientError::UnsupportedVersion));
}

#[test]
fn price_validation() {
    assert_eq!(validate_price(&price(0, 100), 60, 100), Err(OracleClientError::InvalidPrice));
    assert_eq!(validate_price(&price(5, 101), 60, 100), Err(OracleClientError::StalePrice));
    assert_eq!(validate_price(&price(5, 39), 60, 100), Err(OracleClientError::StalePrice));
    assert_eq!(validate_price(&price(5, 40), 60, 100), Ok(()));
}

#[test]
fn first_valid() {
    let prices = vec![price(0, 100), price(5, 10), price(7, 90), price(9, 95)];
    assert_eq!(first_valid_price(prices, 60, 100), Ok(price(7, 90)));
    assert_eq!(
        first_valid_price(vec![price(0, 100)], 60, 100),
        Err(OracleClientError::NoPriceAvailable)
    );
    assert_eq!(first_valid_price::<&str>(Vec::new(), 60, 100), Err(OracleClientError::NoPriceAvailable));
}

#[test]
fn fallback_decisions() {
    let primary = FallbackStage::PrimaryPrice;
    assert_eq!(
        fallback_step(primary, FallbackEvent::Price(Ok(price(5, 90))), true, true, &cfg(), 100),
        FallbackAction::UsePrice(price(5, 90))
    );
    assert_eq!(
        fallback_step(primary, FallbackEvent::Price(Ok(price(5, 10))), true, true, &cfg(), 100),
        FallbackAction::Answer(Err(OracleClientError::StalePrice))
    );
    let cached = CachedOraclePrice { price: price(5, 90), cached_at: 95 };
    assert_eq!(on_cached_price(Some(cached.clone()), &cfg(), 100), Ok(price(5, 90)));
    // Cached too long ago.
    let old = CachedOraclePrice { price: price(5, 990), cached_at: 600 };
    assert_eq!(on_cached_price(Some(old), &cfg(), 1_000), Err(OracleClientError::NoPriceAvailable));
    // The cached price itself has gone stale.
    assert_eq!(on_cached_price(Some(cached.clone()), &cfg(), 200), Err(OracleClientError::NoPriceAvailable));
    assert_eq!(on_cached_price::<&str>(None, &cfg(), 200), Err(OracleClientError::NoPriceAvailable));
    assert_eq!(
        fallback_step(FallbackStage::Cache, FallbackEvent::Cached(Some(cached)), true, true, &cfg(), 100),
        FallbackAction::Answer(Ok(price(5, 90)))
    );
}

#[test]
fn fallback_order() {
    let unavailable = || FallbackEvent::<&str>::Price(Err(OracleClientError::PrimaryUnavailable));
    assert_eq!(fallback_start(true), FallbackStage::PrimaryVersion);
    assert_eq!(fallback_start(false), FallbackStage::PrimaryPrice);
    assert_eq!(
        fallback_step::<&str>(FallbackStage::PrimaryVersion, FallbackEvent::Version(1), true, true, &cfg(), 100),
        FallbackAction::Ask(FallbackStage::PrimaryPrice)
    );
    assert_eq!(
        fallback_step::<&str>(FallbackStage::PrimaryVersion, FallbackEvent::Version(2), true, true, &cfg(), 100),
        FallbackAction::Answer(Err(OracleClientError::UnsupportedVersion))
    );
    assert_eq!(
        fallback_step(FallbackStage::PrimaryPrice, unavailable(), true, true, &cfg(), 100),
        FallbackAction::Ask(FallbackStage::SecondaryVersion)
    );
    assert_eq!(
        fallback_step(FallbackStage::PrimaryPrice, unavailable(), true, false, &cfg(), 100),
        FallbackAction::Ask(FallbackStage::SecondaryPrice)
    );
    assert_eq!(
        fallback_step(FallbackStage::PrimaryPrice, unavailable(), false, true, &cfg(), 100),
        FallbackAction::Ask(FallbackStage::Cache)
    );
    assert_eq!(
        fallback_step::<&str>(FallbackStage::SecondaryVersion, FallbackEvent::Version(1), true, true, &cfg(), 100),
        FallbackAction::Ask(FallbackStage::SecondaryPrice)
    );
    assert_eq!(
        fallback_step::<&str>(FallbackStage::SecondaryVersion, FallbackEvent::Version(0), true, true, &cfg(), 100),
        FallbackAction::Answer(Err(OracleClientError::UnsupportedVersion))
    );
    assert_eq!(
        fallback_step(FallbackStage::SecondaryPrice, unavailable(), true, true, &cfg(), 100),
        FallbackAction::Ask(FallbackStage::Cache)
    );
    assert_eq!(
        fallback_step::<&str>(FallbackStage::Cache, FallbackEvent::Cached(None), true, true, &cfg(), 100),
        FallbackAction::Answer(Err(OracleClientError::NoPriceAvailable))
    );
}
