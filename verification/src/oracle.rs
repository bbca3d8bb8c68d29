//! Oracle price client: price validation, and the decisions of a client that
//! falls back from a primary oracle to a secondary one and then to a cache.
//!
//! The oracles and the cache are outside services. The fallback client is a
//! state machine: `fallback_start` names the first request, and
//! `fallback_step` takes the request just made and its answer and says what
//! to do next (make another request, cache and serve a price, or answer).
use vstd::prelude::*;

verus! {

/// The oracle interface version this client speaks.
pub const PRICE_ORACLE_INTERFACE_VERSION: u32 = 1;

/// A price reported by an oracle, with its source address.
#[derive(Clone, Debug, PartialEq, Eq)]
pub struct OraclePrice<A> {
    pub price: i128,
    pub updated_at: u64,
    pub source: A,
}

/// Staleness limits of the client, in seconds.
#[derive(Clone, Copy, Debug, PartialEq, Eq, Structural)]
pub struct OracleClientConfig {
    pub max_staleness_seconds: u64,
    pub cache_ttl_seconds: u64,
}

/// A price kept in the cache, with the time it was cached.
#[derive(Clone, Debug, PartialEq, Eq)]
pub struct CachedOraclePrice<A> {
    pub price: OraclePrice<A>,
    pub cached_at: u64,
}

/// Errors of the oracle client.
#[derive(Clone, Copy, Debug, PartialEq, Eq, Structural)]
pub enum OracleClientError {
    UnsupportedVersion,
    InvalidPrice,
    StalePrice,
    PrimaryUnavailable,
    SecondaryUnavailable,
    CacheMiss,
    CacheStale,
    NoPriceAvailable,
}

/// A client that asks `primary`, then `secondary` if any, then `cache`.
pub struct FallbackOracleClient<P, S, C> {
    pub primary: P,
    pub secondary: Option<S>,
    pub cache: C,
    pub config: OracleClientConfig,
}

/// The request the fallback client makes next.
#[derive(Clone, Copy, Debug, PartialEq, Eq, Structural)]
pub enum FallbackStage {
    /// Ask the primary oracle for its interface version.
    PrimaryVersion,
    /// Ask the primary oracle for the price.
    PrimaryPrice,
    /// Ask the secondary oracle for its interface version.
    SecondaryVersion,
    /// Ask the secondary oracle for the price.
    SecondaryPrice,
    /// Read the cache.
    Cache,
}

/// What the source asked at a stage answered.
#[derive(Debug, PartialEq, Eq)]
pub enum FallbackEvent<A> {
    Version(u32),
    Price(Result<OraclePrice<A>, OracleClientError>),
    Cached(Option<CachedOraclePrice<A>>),
}

/// What the fallback client does next.
#[derive(Debug, PartialEq, Eq)]
pub enum FallbackAction<A> {
    /// Make this request.
    Ask(FallbackStage),
    /// Cache this price and answer it.
    UsePrice(OraclePrice<A>),
    /// Answer this.
    Answer(Result<OraclePrice<A>, OracleClientError>),
}

// ── Model ───────────────────────────────────────────────────────────────────

/// Why `validate_price` rejects a price: a non-positive price, or one dated
/// in the future or more than `max_staleness` seconds before `now`.
pub open spec fn price_error<A>(p: OraclePrice<A>, max_staleness: u64, now: u64) -> Option<
    OracleClientError,
> {
    if p.price <= 0 {
        Some(OracleClientError::InvalidPrice)
    } else if p.updated_at > now || now - p.updated_at > max_staleness {
        Some(OracleClientError::StalePrice)
    } else {
        None
    }
}

/// The first price of `prices` that validates.
pub open spec fn first_valid<A>(prices: Seq<OraclePrice<A>>, max_staleness: u64, now: u64) -> Result<
    OraclePrice<A>,
    OracleClientError,
>
    decreases prices.len(),
{
    if prices.len() == 0 {
        Err(OracleClientError::NoPriceAvailable)
    } else if price_error(prices[0], max_staleness, now) is None {
        Ok(prices[0])
    } else {
        first_valid(prices.skip(1), max_staleness, now)
    }
}

/// A cached price is served while it is younger than the cache TTL (and not
/// cached in the future) and the price itself still validates.
pub open spec fn cache_usable<A>(c: CachedOraclePrice<A>, config: OracleClientConfig, now: u64) -> bool {
    &&& now >= c.cached_at
    &&& now - c.cached_at <= config.cache_ttl_seconds
    &&& price_error(c.price, config.max_staleness_seconds, now) is None
}

/// The position of a stage in the order the sources are consulted.
pub open spec fn stage_rank(stage: FallbackStage) -> int {
    match stage {
        FallbackStage::PrimaryVersion => 0,
        FallbackStage::PrimaryPrice => 1,
        FallbackStage::SecondaryVersion => 2,
        FallbackStage::SecondaryPrice => 3,
        FallbackStage::Cache => 4,
    }
}

/// An answer of the right kind for the stage that asked it.
pub open spec fn event_fits<A>(stage: FallbackStage, event: FallbackEvent<A>) -> bool {
    match stage {
        FallbackStage::PrimaryVersion | FallbackStage::SecondaryVersion => event is Version,
        FallbackStage::PrimaryPrice | FallbackStage::SecondaryPrice => event is Price,
        FallbackStage::Cache => event is Cached,
    }
}

/// The first request: the primary's version when versions are checked, else
/// its price.
pub open spec fn spec_fallback_start(check_versions: bool) -> FallbackStage {
    if check_versions {
        FallbackStage::PrimaryVersion
    } else {
        FallbackStage::PrimaryPrice
    }
}

/// After the primary oracle gave no price: the secondary (its version first
/// when versions are checked) if there is one, else the cache.
pub open spec fn after_primary(has_secondary: bool, check_versions: bool) -> FallbackStage {
    if has_secondary {
        if check_versions {
            FallbackStage::SecondaryVersion
        } else {
            FallbackStage::SecondaryPrice
        }
    } else {
        FallbackStage::Cache
    }
}

/// An oracle's price answer: a valid price is used, an invalid one fails the
/// request, an oracle error moves on to `next`.
pub open spec fn price_action<A>(
    answer: Result<OraclePrice<A>, OracleClientError>,
    next: FallbackStage,
    config: OracleClientConfig,
    now: u64,
) -> FallbackAction<A> {
    match answer {
        Err(_) => FallbackAction::Ask(next),
        Ok(p) => match price_error(p, config.max_staleness_seconds, now) {
            None => FallbackAction::UsePrice(p),
            Some(e) => FallbackAction::Answer(Err(e)),
        },
    }
}

/// The cached price if usable, else `NoPriceAvailable`.
pub open spec fn cache_answer<A>(cached: Option<CachedOraclePrice<A>>, config: OracleClientConfig, now: u64) -> Result<
    OraclePrice<A>,
    OracleClientError,
> {
    match cached {
        Some(c) => if cache_usable(c, config, now) {
            Ok(c.price)
        } else {
            Err(OracleClientError::NoPriceAvailable)
        },
        None => Err(OracleClientError::NoPriceAvailable),
    }
}

/// The fallback client's next action: primary (version, then price), then
/// secondary (version, then price), then the cache. An unsupported version
/// fails the request with `UnsupportedVersion`.
pub open spec fn fallback_next<A>(
    stage: FallbackStage,
    event: FallbackEvent<A>,
    has_secondary: bool,
    check_versions: bool,
    config: OracleClientConfig,
    now: u64,
) -> FallbackAction<A> {
    match event {
        FallbackEvent::Version(v) => if v != PRICE_ORACLE_INTERFACE_VERSION {
            FallbackAction::Answer(Err(OracleClientError::UnsupportedVersion))
        } else if stage == FallbackStage::PrimaryVersion {
            FallbackAction::Ask(FallbackStage::PrimaryPrice)
        } else {
            FallbackAction::Ask(FallbackStage::SecondaryPrice)
        },
        FallbackEvent::Price(answer) => if stage == FallbackStage::PrimaryPrice {
            price_action(answer, after_primary(has_secondary, check_versions), config, now)
        } else {
            price_action(answer, FallbackStage::Cache, config, now)
        },
        FallbackEvent::Cached(c) => FallbackAction::Answer(cache_answer(c, config, now)),
    }
}

// ── Functions ───────────────────────────────────────────────────────────────

/// Accepts exactly the supported interface version.
pub fn validate_version(version: u32) -> (r: Result<(), OracleClientError>)
    ensures
        r == if version == PRICE_ORACLE_INTERFACE_VERSION {
            Ok(())
        } else {
            Err(OracleClientError::UnsupportedVersion)
        },
{
    if version == PRICE_ORACLE_INTERFACE_VERSION {
        Ok(())
    } else {
        Err(OracleClientError::UnsupportedVersion)
    }
}

/// Accepts a positive price that is neither from the future nor older than
/// `max_staleness_seconds` at time `now`.
pub fn validate_price<A>(price: &OraclePrice<A>, max_staleness_seconds: u64, now: u64) -> (r: Result<
    (),
    OracleClientError,
>)
    ensures
        r == match price_error(*price, max_staleness_seconds, now) {
            None => Ok(()),
            Some(e) => Err(e),
        },
{
    if price.price <= 0 {
        return Err(OracleClientError::InvalidPrice);
    }
    if price.updated_at > now || now.saturating_sub(price.updated_at) > max_staleness_seconds {
        return Err(OracleClientError::StalePrice);
    }
    Ok(())
}

/// The first price in `prices` that validates, or `NoPriceAvailable`.
pub fn first_valid_price<A>(prices: Vec<OraclePrice<A>>, max_staleness_seconds: u64, now: u64) -> (r:
    Result<OraclePrice<A>, OracleClientError>)
    ensures
        r == first_valid(prices@, max_staleness_seconds, now),
{
    let ghost all = prices@;
    assert(all.len() == prices.len());
    let mut rest = prices;
    let mut k: usize = 0;
    while rest.len() > 0
        invariant
            rest@ == all.skip(k as int),
            k + rest@.len() == all.len(),
            all.len() <= usize::MAX,
            all == prices@,
            first_valid(all, max_staleness_seconds, now) == first_valid(
                rest@,
                max_staleness_seconds,
                now,
            ),
        decreases rest@.len(),
    {
        let ghost before = rest@;
        let price = rest.remove(0);
        assert(before[0] == price);
        if validate_price(&price, max_staleness_seconds, now).is_ok() {
            assert(first_valid(before, max_staleness_seconds, now) == Ok::<
                OraclePrice<A>,
                OracleClientError,
            >(price));
            return Ok(price);
        }
        assert(first_valid(before, max_staleness_seconds, now) == first_valid(
            before.skip(1),
            max_staleness_seconds,
            now,
        ));
        assert(rest@ == before.skip(1));
        assert(rest@ == all.skip(k as int).skip(1));
        assert(all.skip(k as int).skip(1) == all.skip(k + 1));
        k = k + 1;
    }
    Err(OracleClientError::NoPriceAvailable)
}

/// The last resort: the cached price if it is usable, else
/// `NoPriceAvailable`.
pub fn on_cached_price<A>(cached: Option<CachedOraclePrice<A>>, config: &OracleClientConfig, now: u64) -> (r:
    Result<OraclePrice<A>, OracleClientError>)
    ensures
        r == cache_answer(cached, *config, now),
{
    match cached {
        Some(cached) => {
            if now >= cached.cached_at && now - cached.cached_at <= config.cache_ttl_seconds
                && validate_price(&cached.price, config.max_staleness_seconds, now).is_ok() {
                Ok(cached.price)
            } else {
                Err(OracleClientError::NoPriceAvailable)
            }
        },
        None => Err(OracleClientError::NoPriceAvailable),
    }
}

/// The first request of the fallback client.
pub fn fallback_start(check_versions: bool) -> (r: FallbackStage)
    ensures
        r == spec_fallback_start(check_versions),
{
    if check_versions {
        FallbackStage::PrimaryVersion
    } else {
        FallbackStage::PrimaryPrice
    }
}

/// One step of the fallback client: given the stage just asked and its
/// answer, the next action. `has_secondary` says whether a secondary oracle
/// exists; `check_versions` whether oracle versions are checked.
pub fn fallback_step<A>(
    stage: FallbackStage,
    event: FallbackEvent<A>,
    has_secondary: bool,
    check_versions: bool,
    config: &OracleClientConfig,
    now: u64,
) -> (r: FallbackAction<A>)
    requires
        event_fits(stage, event),
    ensures
        r == fallback_next(stage, event, has_secondary, check_versions, *config, now),
{
    match event {
        FallbackEvent::Version(v) => {
            if validate_version(v).is_err() {
                FallbackAction::Answer(Err(OracleClientError::UnsupportedVersion))
            } else if stage == FallbackStage::PrimaryVersion {
                FallbackAction::Ask(FallbackStage::PrimaryPrice)
            } else {
                FallbackAction::Ask(FallbackStage::SecondaryPrice)
            }
        },
        FallbackEvent::Price(answer) => {
            let next = if stage == FallbackStage::PrimaryPrice {
                if has_secondary {
                    if check_versions {
                        FallbackStage::SecondaryVersion
                    } else {
                        FallbackStage::SecondaryPrice
                    }
                } else {
                    FallbackStage::Cache
                }
            } else {
                FallbackStage::Cache
            };
            match answer {
                Err(_) => FallbackAction::Ask(next),
                Ok(price) => match validate_price(&price, config.max_staleness_seconds, now) {
                    Err(e) => FallbackAction::Answer(Err(e)),
                    Ok(()) => FallbackAction::UsePrice(price),
                },
            }
        },
        FallbackEvent::Cached(cached) => FallbackAction::Answer(on_cached_price(cached, config, now)),
    }
}

// ── Laws ────────────────────────────────────────────────────────────────────

/// The sources are consulted in order (primary version, primary price,
/// secondary version, secondary price, cache): each request the client makes
/// next comes strictly later in that order, so a request ends after at most
/// five steps; the secondary is asked only when it exists, and its version
/// only when versions are checked.
pub proof fn law_fallback_order<A>(
    stage: FallbackStage,
    event: FallbackEvent<A>,
    has_secondary: bool,
    check_versions: bool,
    config: OracleClientConfig,
    now: u64,
)
    requires
        event_fits(stage, event),
        stage_rank(stage) >= 2 ==> has_secondary || stage == FallbackStage::Cache,
        stage == FallbackStage::SecondaryVersion ==> check_versions,
        stage == FallbackStage::PrimaryVersion ==> check_versions,
    ensures
        fallback_next(stage, event, has_secondary, check_versions, config, now) matches FallbackAction::Ask(
            next,
        ) ==> {
            &&& stage_rank(next) > stage_rank(stage)
            &&& stage_rank(next) >= 2 ==> has_secondary || next == FallbackStage::Cache
            &&& (next == FallbackStage::SecondaryVersion || next == FallbackStage::PrimaryVersion)
                ==> check_versions
        },
{
}

/// Whatever the sources answer, a price the client serves is positive and
/// fresh: a price used from an oracle validates, and a price answered from
/// the cache was cached within the TTL and still validates.
pub proof fn law_served_prices_are_valid<A>(
    stage: FallbackStage,
    event: FallbackEvent<A>,
    has_secondary: bool,
    check_versions: bool,
    config: OracleClientConfig,
    now: u64,
)
    ensures
        ({
            let a = fallback_next(stage, event, has_secondary, check_versions, config, now);
            &&& a matches FallbackAction::UsePrice(p) ==> (p.price > 0 && p.updated_at <= now && now
                - p.updated_at <= config.max_staleness_seconds)
            &&& a matches FallbackAction::Answer(Ok(p)) ==> (event matches FallbackEvent::Cached(
                Some(c),
            ) && c.price == p && cache_usable(c, config, now) && p.price > 0)
        }),
{
}

/// The price `first_valid_price` returns is one of the given prices, and it
/// validates.
pub proof fn law_first_valid_price_is_valid<A>(prices: Seq<OraclePrice<A>>, max_staleness: u64, now: u64)
    ensures
        first_valid(prices, max_staleness, now) matches Ok(p) ==> (prices.contains(p)
            && price_error(p, max_staleness, now) is None),
    decreases prices.len(),
{
    if prices.len() > 0 && price_error(prices[0], max_staleness, now) is Some {
        law_first_valid_price_is_valid(prices.skip(1), max_staleness, now);
        match first_valid(prices, max_staleness, now) {
            Ok(p) => {
                let i = choose|i: int| 0 <= i < prices.skip(1).len() && prices.skip(1)[i] == p;
                assert(prices[i + 1] == p);
            },
            Err(_) => {},
        }
    } else if prices.len() > 0 {
        assert(prices[0] == prices[0]);
    }
}

/// The cache is the last resort, bounded by its TTL: a cached price is
/// served exactly when it was cached no later than `now` and at most
/// `cache_ttl_seconds` before it, and the price itself is positive, not dated
/// in the future and at most `max_staleness_seconds` old; then the cached
/// price is the answer, and otherwise the answer is `NoPriceAvailable`. The
/// fallback client's step at the cache answers the same.
pub proof fn law_cache_served_within_ttl<A>(
    cached: Option<CachedOraclePrice<A>>,
    has_secondary: bool,
    check_versions: bool,
    config: OracleClientConfig,
    now: u64,
)
    ensures
        ({
            let usable = cached matches Some(c) && now >= c.cached_at && now - c.cached_at
                <= config.cache_ttl_seconds && c.price.price > 0 && c.price.updated_at <= now && now
                - c.price.updated_at <= config.max_staleness_seconds;
            &&& usable ==> cache_answer(cached, config, now) == Ok::<
                OraclePrice<A>,
                OracleClientError,
            >(cached->Some_0.price)
            &&& !usable ==> cache_answer(cached, config, now) == Err::<
                OraclePrice<A>,
                OracleClientError,
            >(OracleClientError::NoPriceAvailable)
            &&& fallback_next(
                FallbackStage::Cache,
                FallbackEvent::Cached(cached),
                has_secondary,
                check_versions,
                config,
                now,
            ) == FallbackAction::Answer(cache_answer(cached, config, now))
        }),
{
}

/// A price validates exactly when it is positive, not dated after `now`, and
/// at most `max_staleness` seconds old; a non-positive price is refused as
/// `InvalidPrice`, a positive one that is not fresh as `StalePrice`.
pub proof fn law_price_validation<A>(p: OraclePrice<A>, max_staleness: u64, now: u64)
    ensures
        p.price <= 0 ==> price_error(p, max_staleness, now) == Some(OracleClientError::InvalidPrice),
        p.price > 0 && (p.updated_at > now || now - p.updated_at > max_staleness) ==> price_error(
            p,
            max_staleness,
            now,
        ) == Some(OracleClientError::StalePrice),
        (p.price > 0 && p.updated_at <= now && now - p.updated_at <= max_staleness) ==> price_error(
            p,
            max_staleness,
            now,
        ) is None,
{
}

/// What the client does with an oracle's price answer: a price that is
/// positive and fresh is cached and served; any other price fails the whole
/// request with its validation error (no fallback); an oracle error moves on,
/// from the primary to the secondary (to its version first when versions are
/// checked) if there is one, else to the cache, and from the secondary to the
/// cache. A version answer other than the supported one fails the request
/// with `UnsupportedVersion`; the supported one leads to that oracle's price.
pub proof fn law_fallback_answers<A>(
    stage: FallbackStage,
    answer: Result<OraclePrice<A>, OracleClientError>,
    version: u32,
    has_secondary: bool,
    check_versions: bool,
    config: OracleClientConfig,
    now: u64,
)
    ensures
        ({
            let price_next = fallback_next(
                stage,
                FallbackEvent::Price(answer),
                has_secondary,
                check_versions,
                config,
                now,
            );
            let fresh = |p: OraclePrice<A>|
                p.price > 0 && p.updated_at <= now && now - p.updated_at
                    <= config.max_staleness_seconds;
            &&& answer matches Ok(p) ==> (fresh(p) ==> price_next == FallbackAction::UsePrice(p))
            &&& answer matches Ok(p) ==> (!fresh(p) ==> price_next == FallbackAction::<A>::Answer(
                Err(
                    if p.price <= 0 {
                        OracleClientError::InvalidPrice
                    } else {
                        OracleClientError::StalePrice
                    },
                ),
            ))
            &&& answer is Err && stage == FallbackStage::PrimaryPrice ==> price_next
                == FallbackAction::<A>::Ask(
                if !has_secondary {
                    FallbackStage::Cache
                } else if check_versions {
                    FallbackStage::SecondaryVersion
                } else {
                    FallbackStage::SecondaryPrice
                },
            )
            &&& answer is Err && stage == FallbackStage::SecondaryPrice ==> price_next
                == FallbackAction::<A>::Ask(FallbackStage::Cache)
        }),
        version != 1 ==> fallback_next(
            stage,
            FallbackEvent::<A>::Version(version),
            has_secondary,
            check_versions,
            config,
            now,
        ) == FallbackAction::<A>::Answer(Err(OracleClientError::UnsupportedVersion)),
        version == 1 && stage == FallbackStage::PrimaryVersion ==> fallback_next(
            stage,
            FallbackEvent::<A>::Version(version),
            has_secondary,
            check_versions,
            config,
            now,
        ) == FallbackAction::<A>::Ask(FallbackStage::PrimaryPrice),
        version == 1 && stage == FallbackStage::SecondaryVersion ==> fallback_next(
            stage,
            FallbackEvent::<A>::Version(version),
            has_secondary,
            check_versions,
            config,
            now,
        ) == FallbackAction::<A>::Ask(FallbackStage::SecondaryPrice),
{
}

/// `first_valid_price` gives the first price of the list that is positive and
/// fresh: every price before it fails validation; and it fails with
/// `NoPriceAvailable` exactly when no price of the list validates.
pub proof fn law_first_valid_is_first<A>(prices: Seq<OraclePrice<A>>, max_staleness: u64, now: u64)
    ensures
        ({
            let valid = |p: OraclePrice<A>|
                p.price > 0 && p.updated_at <= now && now - p.updated_at <= max_staleness;
            &&& first_valid(prices, max_staleness, now) matches Ok(p) ==> exists|i: int|
                0 <= i < prices.len() && prices[i] == p && valid(p) && forall|j: int|
                    0 <= j < i ==> !valid(#[trigger] prices[j])
            &&& first_valid(prices, max_staleness, now) is Err ==> (first_valid(
                prices,
                max_staleness,
                now,
            ) == Err::<OraclePrice<A>, OracleClientError>(OracleClientError::NoPriceAvailable)
                && forall|j: int| 0 <= j < prices.len() ==> !valid(#[trigger] prices[j]))
        }),
    decreases prices.len(),
{
    let valid = |p: OraclePrice<A>|
        p.price > 0 && p.updated_at <= now && now - p.updated_at <= max_staleness;
    if prices.len() > 0 {
        if price_error(prices[0], max_staleness, now) is None {
            assert(valid(prices[0]));
        } else {
            assert(!valid(prices[0]));
            let rest = prices.skip(1);
            law_first_valid_is_first(rest, max_staleness, now);
            match first_valid(prices, max_staleness, now) {
                Ok(p) => {
                    let i = choose|i: int|
                        0 <= i < rest.len() && rest[i] == p && valid(p) && forall|j: int|
                            0 <= j < i ==> !valid(#[trigger] rest[j]);
                    assert(prices[i + 1] == p);
                    assert forall|j: int| 0 <= j < i + 1 implies !valid(#[trigger] prices[j]) by {
                        if j > 0 {
                            assert(prices[j] == rest[j - 1]);
                        }
                    }
                },
                Err(_) => {
                    assert forall|j: int| 0 <= j < prices.len() implies !valid(
                        #[trigger] prices[j],
                    ) by {
                        if j > 0 {
                            assert(prices[j] == rest[j - 1]);
                        }
                    }
                },
            }
        }
    }
}

} // verus!
