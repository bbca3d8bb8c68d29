//! Health of a user's position across all assets, computed from one batched
//! read of the listed assets' configurations and the user's positions.
use vstd::prelude::*;

use crate::cross_asset::{
    AssetConfig, AssetKey, AssetPosition, CrossAssetError, UserPositionSummary, position_or_empty,
};
use crate::int128::{fits_i128, trunc_div};

verus! {

/// A price older than this many seconds is stale.
pub const PRICE_STALENESS_SECONDS: u64 = 3600;

/// One asset in which the user holds collateral or principal.
#[derive(Clone, Debug, PartialEq, Eq)]
pub struct BatchedPositionData<A> {
    pub asset: AssetKey<A>,
    pub config: AssetConfig<A>,
    pub position: AssetPosition,
}

/// The user's non-empty positions, with read counters.
#[derive(Clone, Debug, PartialEq, Eq)]
pub struct HealthBatch<A> {
    pub positions: Vec<BatchedPositionData<A>>,
    pub storage_reads: u32,
    pub price_reads: u32,
}

// ── Model ───────────────────────────────────────────────────────────────────

/// A price is stale when it was updated more than an hour before `now`.
pub open spec fn is_stale<A>(c: AssetConfig<A>, now: u64) -> bool {
    now > c.price_updated_at && now - c.price_updated_at > PRICE_STALENESS_SECONDS
}

/// The batch: one entry per listed asset that has a configuration and in
/// which the user's position (or the empty one) has non-zero collateral or
/// principal, in list order.
pub open spec fn batch_items<A>(
    entries: Seq<(AssetKey<A>, Option<AssetConfig<A>>, Option<AssetPosition>)>,
    now: u64,
) -> Seq<BatchedPositionData<A>>
    decreases entries.len(),
{
    if entries.len() == 0 {
        Seq::empty()
    } else {
        let prev = batch_items(entries.drop_last(), now);
        let e = entries.last();
        match e.1 {
            None => prev,
            Some(c) => {
                let p = position_or_empty(e.2, now);
                if p.collateral != 0 || p.debt_principal != 0 {
                    prev.push(BatchedPositionData { asset: e.0, config: c, position: p })
                } else {
                    prev
                }
            },
        }
    }
}

/// Collateral value in price units: `collateral × price / 10⁷`, toward zero.
pub open spec fn collateral_value<A>(d: BatchedPositionData<A>) -> int {
    trunc_div(d.position.collateral * d.config.price, 10_000_000)
}

/// Collateral value weighted by the liquidation threshold, for assets that
/// may serve as collateral.
pub open spec fn weighted_collateral_value<A>(d: BatchedPositionData<A>) -> int {
    if d.config.can_collateralize {
        trunc_div(collateral_value(d) * d.config.liquidation_threshold, 10_000)
    } else {
        0
    }
}

/// Debt value in price units: `(principal + interest) × price / 10⁷`.
pub open spec fn debt_value<A>(d: BatchedPositionData<A>) -> int {
    trunc_div(
        (d.position.debt_principal + d.position.accrued_interest) * d.config.price,
        10_000_000,
    )
}

/// Sums of collateral value, weighted collateral value and debt value.
pub open spec fn health_totals<A>(items: Seq<BatchedPositionData<A>>) -> (int, int, int)
    decreases items.len(),
{
    if items.len() == 0 {
        (0, 0, 0)
    } else {
        let t = health_totals(items.drop_last());
        let d = items.last();
        (t.0 + collateral_value(d), t.1 + weighted_collateral_value(d), t.2 + debt_value(d))
    }
}

/// Health factor ×10 000: weighted collateral over weighted debt, or
/// `i128::MAX` without debt.
pub open spec fn health_factor_of(weighted_collateral: int, weighted_debt: int) -> int {
    if weighted_debt > 0 {
        trunc_div(weighted_collateral * 10_000, weighted_debt)
    } else {
        i128::MAX as int
    }
}

/// The summary for the totals `t`.
pub open spec fn summary_of(t: (int, int, int)) -> UserPositionSummary {
    let hf = health_factor_of(t.1, t.2);
    UserPositionSummary {
        total_collateral_value: t.0 as i128,
        weighted_collateral_value: t.1 as i128,
        total_debt_value: t.2 as i128,
        weighted_debt_value: t.2 as i128,
        health_factor: hf as i128,
        is_liquidatable: hf < 10_000 && t.2 > 0,
        borrow_capacity: if t.1 > t.2 {
            (t.1 - t.2) as i128
        } else {
            0
        },
    }
}

pub open spec fn none_stale_before<A>(items: Seq<BatchedPositionData<A>>, k: int, now: u64) -> bool {
    forall|j: int| 0 <= j < k ==> !is_stale(#[trigger] items[j].config, now)
}

/// The summary of a batch: `PriceStale` if any price is stale, else the
/// summary of the totals.
pub open spec fn health_summary<A>(items: Seq<BatchedPositionData<A>>, now: u64) -> Result<
    UserPositionSummary,
    CrossAssetError,
> {
    if !none_stale_before(items, items.len() as int, now) {
        Err(CrossAssetError::PriceStale)
    } else {
        Ok(summary_of(health_totals(items)))
    }
}

pub open spec fn item_defined<A>(d: BatchedPositionData<A>) -> bool {
    &&& fits_i128(d.position.collateral * d.config.price)
    &&& d.config.can_collateralize ==> fits_i128(
        collateral_value(d) * d.config.liquidation_threshold,
    )
    &&& fits_i128(d.position.debt_principal + d.position.accrued_interest)
    &&& fits_i128((d.position.debt_principal + d.position.accrued_interest) * d.config.price)
}

pub open spec fn totals_fit(t: (int, int, int)) -> bool {
    fits_i128(t.0) && fits_i128(t.1) && fits_i128(t.2)
}

pub open spec fn summary_defined(t: (int, int, int)) -> bool {
    &&& t.2 > 0 ==> fits_i128(t.1 * 10_000)
    &&& t.1 > t.2 ==> fits_i128(t.1 - t.2)
}

/// The batches whose summary computes without overflow: every item reached
/// before the first stale price, and every running total, stays in range.
pub open spec fn health_defined<A>(items: Seq<BatchedPositionData<A>>, now: u64) -> bool {
    &&& forall|k: int|
        0 <= k < items.len() && none_stale_before(items, k + 1, now) ==> {
            &&& item_defined(#[trigger] items[k])
            &&& totals_fit(health_totals(items.take(k + 1)))
        }
    &&& none_stale_before(items, items.len() as int, now) ==> summary_defined(health_totals(items))
}

// ── Functions ───────────────────────────────────────────────────────────────

/// The batch for a user: `entries` holds, per listed asset in order, its key,
/// its configuration if any, and the user's stored position if any.
pub fn batch_read_health_data<A>(
    entries: Vec<(AssetKey<A>, Option<AssetConfig<A>>, Option<AssetPosition>)>,
    now: u64,
) -> (r: HealthBatch<A>)
    requires
        entries@.len() <= u32::MAX,
    ensures
        r.positions@ == batch_items(entries@, now),
        r.storage_reads == 3,
        r.price_reads == batch_items(entries@, now).len(),
{
    let ghost all = entries@;
    let mut rest = entries;
    let mut positions: Vec<BatchedPositionData<A>> = Vec::new();
    let storage_reads = 3u32;
    let mut price_reads = 0u32;
    let mut k: usize = 0;
    while rest.len() > 0
        invariant
            k + rest@.len() == all.len(),
            all.len() <= u32::MAX,
            rest@ == all.skip(k as int),
            positions@ == batch_items(all.take(k as int), now),
            price_reads == positions@.len(),
            positions@.len() <= k,
        decreases rest@.len(),
    {
        let (asset, found, stored) = rest.remove(0);
        assert(all.take(k + 1).drop_last() == all.take(k as int));
        assert(all[k as int] == (asset, found, stored));
        match found {
            Some(config) => {
                let position = match stored {
                    Some(p) => p,
                    None => AssetPosition {
                        collateral: 0,
                        debt_principal: 0,
                        accrued_interest: 0,
                        last_updated: now,
                    },
                };
                if position.collateral != 0 || position.debt_principal != 0 {
                    price_reads += 1;
                    positions.push(BatchedPositionData { asset, config, position });
                }
            },
            None => {},
        }
        k = k + 1;
        assert(rest@ == all.skip(k as int));
    }
    assert(all.take(k as int) == all);
    HealthBatch { positions, storage_reads, price_reads }
}

proof fn lemma_totals_step<A>(items: Seq<BatchedPositionData<A>>, i: int)
    requires
        0 <= i < items.len(),
    ensures
        health_totals(items.take(i + 1)) == ({
            let t = health_totals(items.take(i));
            let d = items[i];
            (t.0 + collateral_value(d), t.1 + weighted_collateral_value(d), t.2 + debt_value(d))
        }),
{
    assert(items.take(i + 1).drop_last() == items.take(i));
    assert(items.take(i + 1).last() == items[i]);
}

/// The user's position summary from a batch, at ledger time `now`.
pub fn calculate_health_from_batch<A>(batch: &HealthBatch<A>, now: u64) -> (r: Result<
    UserPositionSummary,
    CrossAssetError,
>)
    requires
        health_defined(batch.positions@, now),
    ensures
        r == health_summary(batch.positions@, now),
{
    let ghost items = batch.positions@;
    let mut total_collateral_value: i128 = 0;
    let mut weighted_collateral_value: i128 = 0;
    let mut total_debt_value: i128 = 0;
    let mut weighted_debt_value: i128 = 0;
    let n = batch.positions.len();
    let mut i: usize = 0;
    assert(items.take(0) == Seq::<BatchedPositionData<A>>::empty());
    while i < n
        invariant
            n == items.len(),
            items == batch.positions@,
            0 <= i <= n,
            health_defined(items, now),
            none_stale_before(items, i as int, now),
            (total_collateral_value as int, weighted_collateral_value as int, total_debt_value as int)
                == health_totals(items.take(i as int)),
            weighted_debt_value == total_debt_value,
        decreases n - i,
    {
        let item = &batch.positions[i];
        let current_time = now;
        if current_time > item.config.price_updated_at && current_time
            - item.config.price_updated_at > 3600 {
            assert(is_stale(items[i as int].config, now));
            return Err(CrossAssetError::PriceStale);
        }
        assert(none_stale_before(items, i + 1, now));
        assert(item_defined(items[i as int]) && totals_fit(health_totals(items.take(i + 1))));
        proof {
            lemma_totals_step(items, i as int);
        }
        let collateral_value = (item.position.collateral * item.config.price) / 10_000_000;
        total_collateral_value += collateral_value;
        if item.config.can_collateralize {
            weighted_collateral_value += (collateral_value * item.config.liquidation_threshold)
                / 10_000;
        }
        let total_debt = item.position.debt_principal + item.position.accrued_interest;
        let debt_value = (total_debt * item.config.price) / 10_000_000;
        total_debt_value += debt_value;
        weighted_debt_value += debt_value;
        i += 1;
    }
    assert(items.take(n as int) == items);
    let health_factor = if weighted_debt_value > 0 {
        (weighted_collateral_value * 10_000) / weighted_debt_value
    } else {
        i128::MAX
    };
    let is_liquidatable = health_factor < 10_000 && weighted_debt_value > 0;
    let borrow_capacity = if weighted_collateral_value > weighted_debt_value {
        weighted_collateral_value - weighted_debt_value
    } else {
        0
    };
    Ok(
        UserPositionSummary {
            total_collateral_value,
            weighted_collateral_value,
            total_debt_value,
            weighted_debt_value,
            health_factor,
            is_liquidatable,
            borrow_capacity,
        },
    )
}

/// The user's position summary from one batched read.
pub fn get_batched_user_position_summary<A>(
    entries: Vec<(AssetKey<A>, Option<AssetConfig<A>>, Option<AssetPosition>)>,
    now: u64,
) -> (r: Result<UserPositionSummary, CrossAssetError>)
    requires
        entries@.len() <= u32::MAX,
        health_defined(batch_items(entries@, now), now),
    ensures
        r == health_summary(batch_items(entries@, now), now),
{
    let batch = batch_read_health_data(entries, now);
    calculate_health_from_batch(&batch, now)
}

/// Decides whether `calculate_health_from_batch` computes without overflow
/// on this batch.
pub fn health_is_defined<A>(batch: &HealthBatch<A>, now: u64) -> (r: bool)
    ensures
        r == health_defined(batch.positions@, now),
{
    let ghost items = batch.positions@;
    let mut tc: i128 = 0;
    let mut wc: i128 = 0;
    let mut td: i128 = 0;
    let n = batch.positions.len();
    let mut i: usize = 0;
    assert(items.take(0) == Seq::<BatchedPositionData<A>>::empty());
    while i < n
        invariant
            n == items.len(),
            items == batch.positions@,
            0 <= i <= n,
            none_stale_before(items, i as int, now),
            forall|k: int|
                0 <= k < i && none_stale_before(items, k + 1, now) ==> {
                    &&& item_defined(#[trigger] items[k])
                    &&& totals_fit(health_totals(items.take(k + 1)))
                },
            (tc as int, wc as int, td as int) == health_totals(items.take(i as int)),
        decreases n - i,
    {
        let item = &batch.positions[i];
        if now > item.config.price_updated_at && now - item.config.price_updated_at > 3600 {
            assert(is_stale(items[i as int].config, now));
            assert forall|k: int|
                0 <= k < items.len() && none_stale_before(items, k + 1, now) implies {
                    &&& item_defined(#[trigger] items[k])
                    &&& totals_fit(health_totals(items.take(k + 1)))
                } by {
                if k >= i {
                    assert(!is_stale(items[i as int].config, now));
                }
            }
            return true;
        }
        assert(none_stale_before(items, i + 1, now));
        proof {
            lemma_totals_step(items, i as int);
        }
        let ghost d = items[i as int];
        let cv = match item.position.collateral.checked_mul(item.config.price) {
            None => return false,
            Some(v) => v / 10_000_000,
        };
        let wv = if item.config.can_collateralize {
            match cv.checked_mul(item.config.liquidation_threshold) {
                None => return false,
                Some(v) => v / 10_000,
            }
        } else {
            0
        };
        let total_debt = match item.position.debt_principal.checked_add(
            item.position.accrued_interest,
        ) {
            None => return false,
            Some(v) => v,
        };
        let dv = match total_debt.checked_mul(item.config.price) {
            None => return false,
            Some(v) => v / 10_000_000,
        };
        assert(item_defined(d));
        let ntc = match tc.checked_add(cv) {
            None => return false,
            Some(v) => v,
        };
        let nwc = match wc.checked_add(wv) {
            None => return false,
            Some(v) => v,
        };
        let ntd = match td.checked_add(dv) {
            None => return false,
            Some(v) => v,
        };
        tc = ntc;
        wc = nwc;
        td = ntd;
        i += 1;
    }
    assert(items.take(n as int) == items);
    if td > 0 && wc.checked_mul(10_000).is_none() {
        return false;
    }
    if wc > td && wc.checked_sub(td).is_none() {
        return false;
    }
    true
}

// ── Tentative positions ─────────────────────────────────────────────────────

/// The entries with the user's position in the asset at `listed_at` replaced
/// by `p` (no change when the asset is not listed).
pub open spec fn with_position<A>(
    entries: Seq<(AssetKey<A>, Option<AssetConfig<A>>, Option<AssetPosition>)>,
    listed_at: Option<usize>,
    p: AssetPosition,
) -> Seq<(AssetKey<A>, Option<AssetConfig<A>>, Option<AssetPosition>)> {
    match listed_at {
        None => entries,
        Some(k) => entries.update(k as int, (entries[k as int].0, entries[k as int].1, Some(p))),
    }
}

/// `listed_at` locates `key` in the entries: its index, or `None` when the
/// key is not listed.
pub open spec fn listed_at_key<A>(
    entries: Seq<(AssetKey<A>, Option<AssetConfig<A>>, Option<AssetPosition>)>,
    key: AssetKey<A>,
    listed_at: Option<usize>,
) -> bool {
    match listed_at {
        Some(k) => k < entries.len() && entries[k as int].0 == key,
        None => forall|i: int| 0 <= i < entries.len() ==> (#[trigger] entries[i]).0 != key,
    }
}

/// The user's summary once the position at `listed_at` is `p`.
pub open spec fn summary_with<A>(
    entries: Seq<(AssetKey<A>, Option<AssetConfig<A>>, Option<AssetPosition>)>,
    listed_at: Option<usize>,
    p: AssetPosition,
    now: u64,
) -> Result<UserPositionSummary, CrossAssetError> {
    health_summary(batch_items(with_position(entries, listed_at, p), now), now)
}

pub open spec fn summary_with_defined<A>(
    entries: Seq<(AssetKey<A>, Option<AssetConfig<A>>, Option<AssetPosition>)>,
    listed_at: Option<usize>,
    p: AssetPosition,
    now: u64,
) -> bool {
    &&& listed_at matches Some(k) ==> k < entries.len()
    &&& entries.len() <= u32::MAX
    &&& health_defined(batch_items(with_position(entries, listed_at, p), now), now)
}

/// Replaces the user's position in the asset at `listed_at` by `position`.
pub fn substitute_position<A>(
    entries: Vec<(AssetKey<A>, Option<AssetConfig<A>>, Option<AssetPosition>)>,
    listed_at: Option<usize>,
    position: AssetPosition,
) -> (r: Vec<(AssetKey<A>, Option<AssetConfig<A>>, Option<AssetPosition>)>)
    requires
        listed_at matches Some(k) ==> k < entries@.len(),
    ensures
        r@ == with_position(entries@, listed_at, position),
{
    match listed_at {
        None => entries,
        Some(k) => {
            let ghost before = entries@;
            let mut entries = entries;
            let (asset, config, _) = entries.remove(k);
            entries.insert(k, (asset, config, Some(position)));
            assert(entries@ =~= with_position(before, listed_at, position));
            entries
        },
    }
}

/// The user's position summary with `position` in place of the stored
/// position in the asset at `listed_at`.
pub fn summary_with_position<A>(
    entries: Vec<(AssetKey<A>, Option<AssetConfig<A>>, Option<AssetPosition>)>,
    listed_at: Option<usize>,
    position: AssetPosition,
    now: u64,
) -> (r: Result<UserPositionSummary, CrossAssetError>)
    requires
        summary_with_defined(entries@, listed_at, position, now),
    ensures
        r == summary_with(entries@, listed_at, position, now),
{
    let entries = substitute_position(entries, listed_at, position);
    get_batched_user_position_summary(entries, now)
}

// ── Laws ────────────────────────────────────────────────────────────────────

/// A summary is liquidatable exactly when it has debt and its health factor
/// is below 1.0; without debt its health factor is `i128::MAX`; its borrow
/// capacity is the non-negative surplus of weighted collateral over debt.
pub proof fn law_summary_consistent(t: (int, int, int))
    requires
        totals_fit(t),
        summary_defined(t),
    ensures
        ({
            let s = summary_of(t);
            &&& s.is_liquidatable <==> (s.weighted_debt_value > 0 && s.health_factor < 10_000)
            &&& s.weighted_debt_value <= 0 ==> s.health_factor == i128::MAX
                && !s.is_liquidatable
            &&& s.borrow_capacity >= 0
            &&& s.borrow_capacity == if s.weighted_collateral_value > s.weighted_debt_value {
                s.weighted_collateral_value - s.weighted_debt_value
            } else {
                0
            }
            &&& s.total_debt_value == s.weighted_debt_value
        }),
{
    if t.2 > 0 {
        let m = if t.1 * 10_000 >= 0 { t.1 * 10_000 } else { -(t.1 * 10_000) };
        assert(m / t.2 <= m) by {
            vstd::arithmetic::div_mod::lemma_div_is_ordered_by_denominator(m, 1, t.2);
        }
    }
}

/// A user with no weighted debt is never liquidatable, whatever their
/// collateral.
pub proof fn law_no_debt_never_liquidatable<A>(items: Seq<BatchedPositionData<A>>, now: u64)
    requires
        health_totals(items).2 <= 0,
    ensures
        health_summary(items, now) matches Ok(s) ==> !s.is_liquidatable,
{
}

/// Position calculations use no stale price: a summary is produced only
/// when every price in the batch was updated within the last hour.
pub proof fn law_summary_uses_fresh_prices<A>(items: Seq<BatchedPositionData<A>>, now: u64)
    ensures
        health_summary(items, now) is Ok ==> forall|i: int|
            0 <= i < items.len() ==> !(now > items[i].config.price_updated_at && now
                - items[i].config.price_updated_at > 3600),
{
    if health_summary(items, now) is Ok {
        assert forall|i: int| 0 <= i < items.len() implies !is_stale(items[i].config, now) by {
            assert(!is_stale(items[i].config, now));
        }
    }
}

/// With debt, the health factor is weighted collateral over debt in basis
/// points, rounded down: the largest `h` with `h × debt ≤ collateral ×
/// 10 000`. So it reaches 1.0 exactly when the weighted collateral covers the
/// debt.
pub proof fn law_health_factor_is_ratio(t: (int, int, int))
    requires
        totals_fit(t),
        summary_defined(t),
        t.1 >= 0,
        t.2 > 0,
    ensures
        ({
            let h = summary_of(t).health_factor as int;
            &&& h * t.2 <= t.1 * 10_000
            &&& t.1 * 10_000 < (h + 1) * t.2
            &&& h >= 10_000 <==> t.1 >= t.2
        }),
{
    let n = t.1 * 10_000;
    assert(n >= 0) by (nonlinear_arith)
        requires
            t.1 >= 0,
            n == t.1 * 10_000,
    ;
    vstd::arithmetic::div_mod::lemma_fundamental_div_mod(n, t.2);
    vstd::arithmetic::div_mod::lemma_mod_pos_bound(n, t.2);
    vstd::arithmetic::div_mod::lemma_div_is_ordered_by_denominator(n, 1, t.2);
    let h = n / t.2;
    assert(h * t.2 == t.2 * h) by (nonlinear_arith);
    assert((h + 1) * t.2 == h * t.2 + t.2) by (nonlinear_arith);
    if h >= 10_000 {
        assert(10_000 * t.2 <= h * t.2) by (nonlinear_arith)
            requires
                h >= 10_000,
                t.2 > 0,
        ;
    } else {
        assert((h + 1) * t.2 <= 10_000 * t.2) by (nonlinear_arith)
            requires
                h + 1 <= 10_000,
                t.2 > 0,
        ;
    }
}

/// What one position contributes to the totals: its collateral value
/// `collateral × price / 10⁷`; that value weighted by the liquidation
/// threshold (in basis points) if the asset may serve as collateral, else
/// nothing; and its debt value `(principal + interest) × price / 10⁷`, each
/// rounded toward zero.
pub proof fn law_position_values<A>(d: BatchedPositionData<A>)
    ensures
        ({
            let value = trunc_div(d.position.collateral * d.config.price, 10_000_000);
            health_totals(seq![d]) == (
                value,
                if d.config.can_collateralize {
                    trunc_div(value * d.config.liquidation_threshold, 10_000)
                } else {
                    0
                },
                trunc_div(
                    (d.position.debt_principal + d.position.accrued_interest) * d.config.price,
                    10_000_000,
                ),
            )
        }),
{
    let one = seq![d];
    assert(one.drop_last() =~= Seq::<BatchedPositionData<A>>::empty());
    assert(health_totals(one.drop_last()) == (0int, 0int, 0int));
    assert(one.last() == d);
}

/// The totals of a batch are the sums of the totals of its parts.
pub proof fn law_totals_add<A>(a: Seq<BatchedPositionData<A>>, b: Seq<BatchedPositionData<A>>)
    ensures
        ({
            let (ta, tb, t) = (health_totals(a), health_totals(b), health_totals(a + b));
            t == (ta.0 + tb.0, ta.1 + tb.1, ta.2 + tb.2)
        }),
    decreases b.len(),
{
    if b.len() == 0 {
        assert(a + b =~= a);
    } else {
        law_totals_add(a, b.drop_last());
        assert((a + b).drop_last() =~= a + b.drop_last());
        assert((a + b).last() == b.last());
    }
}

/// The batch keeps exactly the listed assets that have a configuration and
/// in which the user holds collateral or principal, in list order: an asset
/// without configuration, or without a stored position, or with neither
/// collateral nor principal, contributes nothing; any other contributes its
/// key, configuration and position.
pub proof fn law_batch_membership<A>(
    a: Seq<(AssetKey<A>, Option<AssetConfig<A>>, Option<AssetPosition>)>,
    b: Seq<(AssetKey<A>, Option<AssetConfig<A>>, Option<AssetPosition>)>,
    k: AssetKey<A>,
    c: AssetConfig<A>,
    p: AssetPosition,
    now: u64,
)
    ensures
        batch_items(a + b, now) == batch_items(a, now) + batch_items(b, now),
        batch_items(seq![(k, None::<AssetConfig<A>>, Some(p))], now).len() == 0,
        batch_items(seq![(k, Some(c), None::<AssetPosition>)], now).len() == 0,
        batch_items(seq![(k, Some(c), Some(p))], now) == if p.collateral != 0 || p.debt_principal
            != 0 {
            seq![BatchedPositionData { asset: k, config: c, position: p }]
        } else {
            Seq::empty()
        },
    decreases b.len(),
{
    let none = seq![(k, None::<AssetConfig<A>>, Some(p))];
    let empty = seq![(k, Some(c), None::<AssetPosition>)];
    let full = seq![(k, Some(c), Some(p))];
    assert(none.drop_last() =~= Seq::empty());
    assert(empty.drop_last() =~= Seq::empty());
    assert(full.drop_last() =~= Seq::empty());
    assert(batch_items(none.drop_last(), now) =~= Seq::empty());
    assert(batch_items(empty.drop_last(), now) =~= Seq::empty());
    assert(batch_items(full.drop_last(), now) =~= Seq::empty());
    assert(none.last() == (k, None::<AssetConfig<A>>, Some(p)));
    assert(empty.last() == (k, Some(c), None::<AssetPosition>));
    assert(full.last() == (k, Some(c), Some(p)));
    if b.len() == 0 {
        assert(a + b =~= a);
        assert(batch_items(a, now) + batch_items(b, now) =~= batch_items(a, now));
    } else {
        law_batch_membership(a, b.drop_last(), k, c, p, now);
        assert((a + b).drop_last() =~= a + b.drop_last());
        assert((a + b).last() == b.last());
        let prev = batch_items(a, now) + batch_items(b.drop_last(), now);
        assert(prev.push(BatchedPositionData { asset: b.last().0, config: b.last().1->Some_0, position: position_or_empty(b.last().2, now) }) =~= batch_items(a, now) + batch_items(b.drop_last(), now).push(BatchedPositionData { asset: b.last().0, config: b.last().1->Some_0, position: position_or_empty(b.last().2, now) }));
    }
}

/// A summary is refused with `PriceStale` as soon as any price in the batch
/// was updated more than an hour before `now`.
pub proof fn law_stale_price_refused<A>(items: Seq<BatchedPositionData<A>>, now: u64, i: int)
    requires
        0 <= i < items.len(),
        now > items[i].config.price_updated_at,
        now - items[i].config.price_updated_at > 3600,
    ensures
        health_summary(items, now) == Err::<UserPositionSummary, CrossAssetError>(
            CrossAssetError::PriceStale,
        ),
{
    assert(is_stale(items[i].config, now));
}

/// Putting the tentative position in place changes only the user's position
/// in the asset at `listed_at`: that entry keeps its key and configuration
/// and now holds `p`; every other entry, and the list's length, stay as they
/// were; with the asset unlisted nothing changes.
pub proof fn law_tentative_position_in_place<A>(
    entries: Seq<(AssetKey<A>, Option<AssetConfig<A>>, Option<AssetPosition>)>,
    listed_at: Option<usize>,
    p: AssetPosition,
)
    requires
        listed_at matches Some(k) ==> k < entries.len(),
    ensures
        ({
            let w = with_position(entries, listed_at, p);
            &&& w.len() == entries.len()
            &&& listed_at is None ==> w == entries
            &&& listed_at matches Some(k) ==> ({
                &&& w[k as int].0 == entries[k as int].0
                &&& w[k as int].1 == entries[k as int].1
                &&& w[k as int].2 == Some(p)
                &&& forall|i: int| 0 <= i < entries.len() && i != k ==> w[i] == entries[i]
            })
        }),
{
}

} // verus!
