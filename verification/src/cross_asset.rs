//! Cross-asset lending: per-asset configuration, supply and borrow caps, and
//! the position changes of deposits, borrows, withdrawals, repayments and
//! liquidations.
//!
//! Each operation is a function of the values it reads (the stored admin, the
//! asset's configuration if any, pool totals, the user's position, the ledger
//! time) to the values it writes and its answer; a missing admin or
//! configuration is refused here, in the operation's order of checks. Where
//! an operation consults the health of the user's whole position after a
//! tentative change, it is split in two: the first step gives the tentative
//! change, the second settles it against the user's positions across the
//! listed assets with the tentative one in place (see `health`).
//!
//! Addresses are carried, never inspected: the types are generic over the
//! address type `A`.
use vstd::prelude::*;

use crate::health::{
    get_batched_user_position_summary, health_defined, health_summary, batch_items,
    listed_at_key, summary_with, summary_with_defined, summary_with_position,
};
use crate::int128::{fits_i128, trunc_div};

verus! {

/// Configuration of one asset.
#[derive(Clone, Debug, PartialEq, Eq)]
pub struct AssetConfig<A> {
    /// Asset contract address (`None` for the native asset).
    pub asset: Option<A>,
    /// Collateral factor (LTV) in basis points.
    pub collateral_factor: i128,
    /// Liquidation threshold in basis points.
    pub liquidation_threshold: i128,
    /// Reserve factor in basis points.
    pub reserve_factor: i128,
    /// Supply cap (0 = unlimited).
    pub max_supply: i128,
    /// Borrow cap (0 = unlimited).
    pub max_borrow: i128,
    /// Whether the asset may be deposited as collateral.
    pub can_collateralize: bool,
    /// Whether the asset may be borrowed.
    pub can_borrow: bool,
    /// Price in base units, 7 decimals.
    pub price: i128,
    /// Ledger time of the last price update.
    pub price_updated_at: u64,
    /// Collateral of an isolated pool backs only that pool's debt.
    pub is_isolated: bool,
    /// A frozen pool accepts no deposits or borrows.
    pub is_frozen: bool,
}

/// A user's position in one asset.
#[derive(Clone, Copy, Debug, PartialEq, Eq, Structural)]
pub struct AssetPosition {
    pub collateral: i128,
    pub debt_principal: i128,
    pub accrued_interest: i128,
    pub last_updated: u64,
}

/// A user's position across all assets.
#[derive(Clone, Copy, Debug, PartialEq, Eq, Structural)]
pub struct UserPositionSummary {
    pub total_collateral_value: i128,
    pub weighted_collateral_value: i128,
    pub total_debt_value: i128,
    pub weighted_debt_value: i128,
    /// Scaled by 10 000 (15 000 = 1.5).
    pub health_factor: i128,
    pub is_liquidatable: bool,
    pub borrow_capacity: i128,
}

/// The key of an asset: the native asset or a token contract.
#[derive(Clone, Debug, PartialEq, Eq)]
pub enum AssetKey<A> {
    Native,
    Token(A),
}

/// Errors of cross-asset lending operations.
#[derive(Clone, Copy, Debug, PartialEq, Eq, Structural)]
pub enum CrossAssetError {
    /// The asset has no configuration, or a factor is out of range.
    AssetNotConfigured,
    /// The asset is frozen or disabled for the operation.
    AssetDisabled,
    /// Not enough collateral, or the position cannot be liquidated.
    InsufficientCollateral,
    /// The borrow would exceed the position's capacity.
    ExceedsBorrowCapacity,
    /// The operation would leave the position unhealthy.
    UnhealthyPosition,
    /// The deposit would exceed a supply cap.
    SupplyCapExceeded,
    /// The borrow would exceed the borrow cap.
    BorrowCapExceeded,
    /// A price is zero or negative.
    InvalidPrice,
    /// A price is older than one hour.
    PriceStale,
    /// The caller is not the admin.
    NotAuthorized,
}

/// The key of a user's position in one asset.
#[derive(Clone, Debug, PartialEq, Eq)]
pub struct UserAssetKey<A> {
    pub user: A,
    pub asset: AssetKey<A>,
}

/// Registry entry describing one pool.
#[derive(Clone, Debug, PartialEq, Eq)]
pub struct PoolInfo<A> {
    pub asset: Option<A>,
    pub is_isolated: bool,
    pub is_frozen: bool,
    pub total_supply: i128,
    pub total_borrow: i128,
    pub supply_cap: i128,
    pub borrow_cap: i128,
    pub collateral_factor: i128,
    pub liquidation_threshold: i128,
    pub utilization_bps: i128,
}

/// An updated configuration, with the `(old, new)` supply and borrow caps
/// when they changed (each change is announced as an event).
pub struct AssetConfigUpdate<A> {
    pub config: AssetConfig<A>,
    pub supply_cap_change: Option<(i128, i128)>,
    pub borrow_cap_change: Option<(i128, i128)>,
}

/// What an accepted deposit writes.
#[derive(Clone, Copy, Debug, PartialEq, Eq, Structural)]
pub struct DepositOutcome {
    pub position: AssetPosition,
    pub total_supply: i128,
    pub user_supply: i128,
}

/// A tentative change to a position that awaits a health check: `position`
/// is written first; `rollback` is written if the check fails; if it
/// passes, the pool total `pool_total` moves by `amount`.
#[derive(Clone, Copy, Debug, PartialEq, Eq, Structural)]
pub struct PositionChange {
    pub position: AssetPosition,
    pub rollback: AssetPosition,
    pub pool_total: i128,
    pub amount: i128,
}

/// The next thing a borrow or withdrawal does.
#[derive(Clone, Copy, Debug, PartialEq, Eq, Structural)]
pub enum PositionStep {
    /// Write the position and the pool total; answer `Ok(position)`.
    Done(AssetPosition, i128),
    /// Write the (rolled back) position; answer the error.
    Refused(AssetPosition, CrossAssetError),
    /// Write `change.position`, compute the user's position summary, and
    /// settle the change with it.
    CheckHealth(PositionChange),
}

/// What an accepted liquidation writes, and the collateral it seizes.
#[derive(Clone, Copy, Debug, PartialEq, Eq, Structural)]
pub struct LiquidationOutcome {
    pub debt_position: AssetPosition,
    pub collateral_position: AssetPosition,
    pub seized_collateral: i128,
    pub total_borrow: i128,
    pub total_supply: i128,
}

// ── Model ───────────────────────────────────────────────────────────────────

pub open spec fn valid_bps(v: int) -> bool {
    0 <= v <= 10_000
}

pub open spec fn min_int(a: int, b: int) -> int {
    if a <= b {
        a
    } else {
        b
    }
}

pub open spec fn max_int(a: int, b: int) -> int {
    if a >= b {
        a
    } else {
        b
    }
}

/// The first reason `require_valid_config` rejects a configuration.
pub open spec fn config_error<A>(c: AssetConfig<A>) -> Option<CrossAssetError> {
    if !valid_bps(c.collateral_factor as int) || !valid_bps(c.liquidation_threshold as int)
        || !valid_bps(c.reserve_factor as int) {
        Some(CrossAssetError::AssetNotConfigured)
    } else if c.price <= 0 {
        Some(CrossAssetError::InvalidPrice)
    } else if c.liquidation_threshold < c.collateral_factor {
        Some(CrossAssetError::AssetNotConfigured)
    } else {
        None
    }
}

/// The position a user holds when none is stored.
pub open spec fn empty_position(now: u64) -> AssetPosition {
    AssetPosition { collateral: 0, debt_principal: 0, accrued_interest: 0, last_updated: now }
}

pub open spec fn position_or_empty(stored: Option<AssetPosition>, now: u64) -> AssetPosition {
    match stored {
        Some(p) => p,
        None => empty_position(now),
    }
}

/// The per-user supply cap: 20 % of a positive global cap, else unlimited.
pub open spec fn per_user_cap(max_supply: int) -> int {
    if max_supply > 0 {
        (max_supply * 2000) / 10_000
    } else {
        i128::MAX as int
    }
}

pub open spec fn per_user_limit_defined(max_supply: int, user_supply: int, amount: int) -> bool {
    &&& max_supply > 0 ==> fits_i128(max_supply * 2000)
    &&& fits_i128(user_supply + amount)
}

/// A deposit: refused into a frozen or non-collateral asset, or past the
/// global or per-user supply cap; otherwise it adds `amount` to the
/// collateral, the pool's total supply and the user's supply.
pub open spec fn deposit_result<A>(
    c: AssetConfig<A>,
    total_supply: int,
    user_supply: int,
    p: AssetPosition,
    amount: int,
    now: u64,
) -> Result<DepositOutcome, CrossAssetError> {
    if c.is_frozen || !c.can_collateralize {
        Err(CrossAssetError::AssetDisabled)
    } else if c.max_supply > 0 && total_supply + amount > c.max_supply {
        Err(CrossAssetError::SupplyCapExceeded)
    } else if user_supply + amount > per_user_cap(c.max_supply as int) {
        Err(CrossAssetError::SupplyCapExceeded)
    } else {
        Ok(
            DepositOutcome {
                position: AssetPosition {
                    collateral: (p.collateral + amount) as i128,
                    last_updated: now,
                    ..p
                },
                total_supply: (total_supply + amount) as i128,
                user_supply: (user_supply + amount) as i128,
            },
        )
    }
}

/// The inputs on which a deposit computes without overflow.
pub open spec fn deposit_defined<A>(
    c: AssetConfig<A>,
    total_supply: int,
    user_supply: int,
    p: AssetPosition,
    amount: int,
) -> bool {
    !(c.is_frozen || !c.can_collateralize) ==> {
        &&& c.max_supply > 0 ==> fits_i128(total_supply + amount)
        &&& !(c.max_supply > 0 && total_supply + amount > c.max_supply) ==> {
            &&& per_user_limit_defined(c.max_supply as int, user_supply, amount)
            &&& user_supply + amount <= per_user_cap(c.max_supply as int) ==> {
                &&& fits_i128(p.collateral + amount)
                &&& fits_i128(total_supply + amount)
            }
        }
    }
}

/// The dynamic borrow cap: unlimited (0) without a configured cap; the
/// current borrows when the pool has no free liquidity; otherwise the current
/// borrows plus the free liquidity scaled by its share of the supply, capped
/// at the configured cap.
pub open spec fn dynamic_borrow_cap(max_borrow: int, supply: int, borrow: int) -> int {
    if max_borrow == 0 {
        0
    } else {
        let available = supply - borrow;
        if available <= 0 {
            borrow
        } else {
            let ratio = (available * 10_000) / max_int(supply, 1);
            min_int(borrow + (available * ratio) / 10_000, max_borrow)
        }
    }
}

pub open spec fn dynamic_borrow_cap_defined(max_borrow: int, supply: int, borrow: int) -> bool {
    max_borrow != 0 ==> {
        &&& fits_i128(supply - borrow)
        &&& supply - borrow > 0 ==> {
            let available = supply - borrow;
            let ratio = (available * 10_000) / max_int(supply, 1);
            &&& fits_i128(available * 10_000)
            &&& fits_i128(available * ratio)
            &&& fits_i128(borrow + (available * ratio) / 10_000)
        }
    }
}

/// The dynamic supply cap: the configured cap, tightened while utilization
/// exceeds 75 % by half the excess (in bps of the cap), but never below the
/// current supply.
pub open spec fn dynamic_supply_cap(max_supply: int, supply: int, borrow: int) -> int {
    if supply == 0 || borrow == 0 {
        max_supply
    } else {
        let util = trunc_div(borrow * 10_000, supply);
        if util > 7500 {
            let reduction_bps = ((util - 7500) * 5000) / 10_000;
            let reduction = trunc_div(max_supply * reduction_bps, 10_000);
            max_int(max_supply - reduction, supply)
        } else {
            max_supply
        }
    }
}

pub open spec fn dynamic_supply_cap_defined(max_supply: int, supply: int, borrow: int) -> bool {
    !(supply == 0 || borrow == 0) ==> {
        &&& fits_i128(borrow * 10_000)
        &&& !(borrow * 10_000 == i128::MIN && supply == -1)
        &&& {
            let util = trunc_div(borrow * 10_000, supply);
            util > 7500 ==> {
                let reduction_bps = ((util - 7500) * 5000) / 10_000;
                &&& fits_i128((util - 7500) * 5000)
                &&& fits_i128(max_supply * reduction_bps)
                &&& fits_i128(max_supply - trunc_div(max_supply * reduction_bps, 10_000))
            }
        }
    }
}

/// The first step of a borrow: refused for a frozen or non-borrowable asset
/// or past the dynamic borrow cap; otherwise the debt grows by `amount`. An
/// isolated pool settles at once: the debt may not exceed the pool's own
/// collateral times its collateral factor (a product that overflows counts
/// as zero). Other pools await the health check.
pub open spec fn borrow_step<A>(
    c: AssetConfig<A>,
    total_supply: int,
    total_borrow: int,
    p: AssetPosition,
    amount: int,
    now: u64,
) -> Result<PositionStep, CrossAssetError> {
    let cap = dynamic_borrow_cap(c.max_borrow as int, total_supply, total_borrow);
    if c.is_frozen || !c.can_borrow {
        Err(CrossAssetError::AssetDisabled)
    } else if cap > 0 && total_borrow + amount > cap {
        Err(CrossAssetError::BorrowCapExceeded)
    } else {
        let tentative = AssetPosition {
            debt_principal: (p.debt_principal + amount) as i128,
            last_updated: now,
            ..p
        };
        let rollback = AssetPosition { last_updated: now, ..p };
        if c.is_isolated {
            let product = p.collateral * c.collateral_factor;
            let max_pool_debt = if fits_i128(product) {
                trunc_div(product, 10_000)
            } else {
                0
            };
            if tentative.debt_principal + p.accrued_interest > max_pool_debt {
                Ok(PositionStep::Refused(rollback, CrossAssetError::ExceedsBorrowCapacity))
            } else {
                Ok(PositionStep::Done(tentative, (total_borrow + amount) as i128))
            }
        } else {
            Ok(
                PositionStep::CheckHealth(
                    PositionChange {
                        position: tentative,
                        rollback,
                        pool_total: total_borrow as i128,
                        amount: amount as i128,
                    },
                ),
            )
        }
    }
}

pub open spec fn borrow_defined<A>(
    c: AssetConfig<A>,
    total_supply: int,
    total_borrow: int,
    p: AssetPosition,
    amount: int,
) -> bool {
    let cap = dynamic_borrow_cap(c.max_borrow as int, total_supply, total_borrow);
    !(c.is_frozen || !c.can_borrow) ==> {
        &&& dynamic_borrow_cap_defined(c.max_borrow as int, total_supply, total_borrow)
        &&& cap > 0 ==> fits_i128(total_borrow + amount)
        &&& !(cap > 0 && total_borrow + amount > cap) ==> {
            &&& fits_i128(p.debt_principal + amount)
            &&& c.is_isolated ==> fits_i128(p.debt_principal + amount + p.accrued_interest)
            &&& c.is_isolated ==> {
                let product = p.collateral * c.collateral_factor;
                let max_pool_debt = if fits_i128(product) {
                    trunc_div(product, 10_000)
                } else {
                    0
                };
                p.debt_principal + amount + p.accrued_interest <= max_pool_debt ==> fits_i128(
                    total_borrow + amount,
                )
            }
        }
    }
}

/// Settling a borrow once the position summary is known: a failed summary
/// (such as a stale price) rolls the borrow back with that error; a health
/// factor below 1.0 rolls it back with `ExceedsBorrowCapacity`; otherwise the
/// borrow completes.
pub open spec fn settle_borrow(
    change: PositionChange,
    summary: Result<UserPositionSummary, CrossAssetError>,
) -> PositionStep {
    match summary {
        Err(e) => PositionStep::Refused(change.rollback, e),
        Ok(s) => if s.health_factor < 10_000 {
            PositionStep::Refused(change.rollback, CrossAssetError::ExceedsBorrowCapacity)
        } else {
            PositionStep::Done(change.position, (change.pool_total + change.amount) as i128)
        },
    }
}

/// The inputs on which settling a borrow computes without overflow: the pool
/// total grows by the amount only when the borrow completes.
pub open spec fn settle_borrow_defined(
    change: PositionChange,
    summary: Result<UserPositionSummary, CrossAssetError>,
) -> bool {
    summary matches Ok(s) ==> (s.health_factor >= 10_000 ==> fits_i128(
        change.pool_total + change.amount,
    ))
}

/// The first step of a withdrawal: refused beyond the user's collateral;
/// otherwise the collateral shrinks by `amount`, pending the health check.
pub open spec fn withdraw_step(p: AssetPosition, total_supply: int, amount: int, now: u64) -> Result<
    PositionChange,
    CrossAssetError,
> {
    if p.collateral < amount {
        Err(CrossAssetError::InsufficientCollateral)
    } else {
        Ok(
            PositionChange {
                position: AssetPosition {
                    collateral: (p.collateral - amount) as i128,
                    last_updated: now,
                    ..p
                },
                rollback: AssetPosition { last_updated: now, ..p },
                pool_total: total_supply as i128,
                amount: amount as i128,
            },
        )
    }
}

/// Settling a withdrawal: a failed summary (such as a stale price) rolls the
/// withdrawal back with that error; a position with debt whose health factor
/// falls below 1.0 is rolled back with `UnhealthyPosition`; otherwise the
/// withdrawal completes.
pub open spec fn settle_withdraw(
    change: PositionChange,
    summary: Result<UserPositionSummary, CrossAssetError>,
) -> PositionStep {
    match summary {
        Err(e) => PositionStep::Refused(change.rollback, e),
        Ok(s) => if s.total_debt_value > 0 && s.health_factor < 10_000 {
            PositionStep::Refused(change.rollback, CrossAssetError::UnhealthyPosition)
        } else {
            PositionStep::Done(change.position, (change.pool_total - change.amount) as i128)
        },
    }
}

/// The inputs on which settling a withdrawal computes without overflow: the
/// pool total moves by the negated amount only when the withdrawal completes.
pub open spec fn settle_withdraw_defined(
    change: PositionChange,
    summary: Result<UserPositionSummary, CrossAssetError>,
) -> bool {
    summary matches Ok(s) ==> (!(s.total_debt_value > 0 && s.health_factor < 10_000) ==> (
    change.amount != i128::MIN && fits_i128(change.pool_total - change.amount)))
}

/// The collateral a liquidator receives for `collateral_to_receive`: reduced
/// by the incentive, the gap between liquidation threshold and collateral
/// factor.
pub open spec fn seized_collateral<A>(c: AssetConfig<A>, collateral_to_receive: int) -> int {
    trunc_div(
        collateral_to_receive * (10_000 - (c.liquidation_threshold - c.collateral_factor)),
        10_000,
    )
}

/// A liquidation: only of a liquidatable position, for positive amounts,
/// seizing no more collateral than held and repaying no more than owed.
pub open spec fn liquidation_result<A>(
    collateral_config: AssetConfig<A>,
    summary: UserPositionSummary,
    debt_position: AssetPosition,
    collateral_position: AssetPosition,
    debt_to_repay: int,
    collateral_to_receive: int,
    total_borrow: int,
    total_supply: int,
    now: u64,
) -> Result<LiquidationOutcome, CrossAssetError> {
    let seized = seized_collateral(collateral_config, collateral_to_receive);
    if !summary.is_liquidatable {
        Err(CrossAssetError::InsufficientCollateral)
    } else if debt_to_repay <= 0 || collateral_to_receive <= 0 {
        Err(CrossAssetError::InsufficientCollateral)
    } else if collateral_position.collateral < seized {
        Err(CrossAssetError::InsufficientCollateral)
    } else if debt_to_repay > debt_position.debt_principal + debt_position.accrued_interest {
        Err(CrossAssetError::InsufficientCollateral)
    } else {
        Ok(
            LiquidationOutcome {
                debt_position: AssetPosition {
                    debt_principal: (debt_position.debt_principal - debt_to_repay) as i128,
                    last_updated: now,
                    ..debt_position
                },
                collateral_position: AssetPosition {
                    collateral: (collateral_position.collateral - seized) as i128,
                    last_updated: now,
                    ..collateral_position
                },
                seized_collateral: seized as i128,
                total_borrow: (total_borrow - debt_to_repay) as i128,
                total_supply: (total_supply - seized) as i128,
            },
        )
    }
}

pub open spec fn liquidation_defined<A>(
    collateral_config: AssetConfig<A>,
    summary: UserPositionSummary,
    debt_position: AssetPosition,
    collateral_position: AssetPosition,
    debt_to_repay: int,
    collateral_to_receive: int,
    total_borrow: int,
    total_supply: int,
) -> bool {
    let c = collateral_config;
    let incentive = c.liquidation_threshold - c.collateral_factor;
    let seized = seized_collateral(c, collateral_to_receive);
    (summary.is_liquidatable && debt_to_repay > 0 && collateral_to_receive > 0) ==> {
        &&& fits_i128(incentive)
        &&& fits_i128(10_000 - incentive)
        &&& fits_i128(collateral_to_receive * (10_000 - incentive))
        &&& collateral_position.collateral >= seized ==> {
            &&& fits_i128(debt_position.debt_principal + debt_position.accrued_interest)
            &&& debt_to_repay <= debt_position.debt_principal + debt_position.accrued_interest
                ==> {
                &&& fits_i128(debt_position.debt_principal - debt_to_repay)
                &&& fits_i128(collateral_position.collateral - seized)
                &&& fits_i128(total_borrow - debt_to_repay)
                &&& fits_i128(total_supply - seized)
            }
        }
    }
}

/// A repayment of `min(amount, total debt)`, taken from accrued interest
/// first and then from principal.
pub open spec fn repay_result(p: AssetPosition, total_borrow: int, amount: int, now: u64) -> (
    AssetPosition,
    i128,
) {
    let repay = min_int(amount, p.debt_principal + p.accrued_interest);
    let q = if repay <= p.accrued_interest {
        AssetPosition {
            accrued_interest: (p.accrued_interest - repay) as i128,
            last_updated: now,
            ..p
        }
    } else {
        AssetPosition {
            accrued_interest: 0,
            debt_principal: (p.debt_principal - (repay - p.accrued_interest)) as i128,
            last_updated: now,
            ..p
        }
    };
    (q, (total_borrow - repay) as i128)
}

pub open spec fn repay_defined(p: AssetPosition, total_borrow: int, amount: int) -> bool {
    let repay = min_int(amount, p.debt_principal + p.accrued_interest);
    &&& fits_i128(p.debt_principal + p.accrued_interest)
    &&& repay <= p.accrued_interest ==> fits_i128(p.accrued_interest - repay)
    &&& repay > p.accrued_interest ==> fits_i128(p.debt_principal - (repay - p.accrued_interest))
    &&& repay != i128::MIN
    &&& fits_i128(total_borrow - repay)
}

pub open spec fn pool_utilization(total_supply: int, total_borrow: int) -> int {
    if total_supply > 0 {
        trunc_div(total_borrow * 10_000, total_supply)
    } else {
        0
    }
}

pub open spec fn spec_pool_info<A>(
    asset: Option<A>,
    c: AssetConfig<A>,
    total_supply: i128,
    total_borrow: i128,
) -> PoolInfo<A> {
    PoolInfo {
        asset,
        is_isolated: c.is_isolated,
        is_frozen: c.is_frozen,
        total_supply,
        total_borrow,
        supply_cap: c.max_supply,
        borrow_cap: c.max_borrow,
        collateral_factor: c.collateral_factor,
        liquidation_threshold: c.liquidation_threshold,
        utilization_bps: pool_utilization(total_supply as int, total_borrow as int) as i128,
    }
}

/// `Some(v)` replaces `current`; `None` keeps it.
pub open spec fn replaced<T>(update: Option<T>, current: T) -> T {
    match update {
        Some(v) => v,
        None => current,
    }
}

/// A factor update is rejected when a given factor is not in basis points.
pub open spec fn update_rejected(collateral_factor: Option<i128>, liquidation_threshold: Option<
    i128,
>) -> bool {
    ||| (collateral_factor matches Some(v) && !valid_bps(v as int))
    ||| (liquidation_threshold matches Some(v) && !valid_bps(v as int))
}

/// The configuration after a selective update.
pub open spec fn updated_config<A>(
    c: AssetConfig<A>,
    collateral_factor: Option<i128>,
    liquidation_threshold: Option<i128>,
    max_supply: Option<i128>,
    max_borrow: Option<i128>,
    can_collateralize: Option<bool>,
    can_borrow: Option<bool>,
) -> AssetConfig<A> {
    AssetConfig {
        collateral_factor: replaced(collateral_factor, c.collateral_factor),
        liquidation_threshold: replaced(liquidation_threshold, c.liquidation_threshold),
        max_supply: replaced(max_supply, c.max_supply),
        max_borrow: replaced(max_borrow, c.max_borrow),
        can_collateralize: replaced(can_collateralize, c.can_collateralize),
        can_borrow: replaced(can_borrow, c.can_borrow),
        ..c
    }
}

/// `(old, new)` when a cap changed.
pub open spec fn cap_change(old: i128, new: i128) -> Option<(i128, i128)> {
    if new != old {
        Some((old, new))
    } else {
        None
    }
}

/// A selective update: rejected when a given factor is not in basis points;
/// otherwise the updated configuration with its cap changes.
pub open spec fn config_update<A>(
    c: AssetConfig<A>,
    collateral_factor: Option<i128>,
    liquidation_threshold: Option<i128>,
    max_supply: Option<i128>,
    max_borrow: Option<i128>,
    can_collateralize: Option<bool>,
    can_borrow: Option<bool>,
) -> Result<AssetConfigUpdate<A>, CrossAssetError> {
    if update_rejected(collateral_factor, liquidation_threshold) {
        Err(CrossAssetError::AssetNotConfigured)
    } else {
        let u = updated_config(
            c,
            collateral_factor,
            liquidation_threshold,
            max_supply,
            max_borrow,
            can_collateralize,
            can_borrow,
        );
        Ok(
            AssetConfigUpdate {
                config: u,
                supply_cap_change: cap_change(c.max_supply, u.max_supply),
                borrow_cap_change: cap_change(c.max_borrow, u.max_borrow),
            },
        )
    }
}

/// The asset list after registering `key`: unchanged if listed, else `key`
/// appended.
pub open spec fn listed_once<A>(list: Seq<AssetKey<A>>, key: AssetKey<A>) -> Seq<AssetKey<A>> {
    if list.contains(key) {
        list
    } else {
        list.push(key)
    }
}

/// No key occurs twice.
pub open spec fn no_duplicates<A>(list: Seq<AssetKey<A>>) -> bool {
    forall|i: int, j: int| 0 <= i < j < list.len() ==> list[i] != list[j]
}

pub open spec fn key_to_option<A>(k: AssetKey<A>) -> Option<A> {
    match k {
        AssetKey::Native => None,
        AssetKey::Token(a) => Some(a),
    }
}

/// The registry: one entry per listed asset that has a configuration, in
/// list order.
pub open spec fn spec_pool_registry<A>(
    entries: Seq<(AssetKey<A>, Option<AssetConfig<A>>, i128, i128)>,
) -> Seq<PoolInfo<A>>
    decreases entries.len(),
{
    if entries.len() == 0 {
        Seq::empty()
    } else {
        let prev = spec_pool_registry(entries.drop_last());
        let e = entries.last();
        match e.1 {
            None => prev,
            Some(c) => prev.push(spec_pool_info(key_to_option(e.0), c, e.2, e.3)),
        }
    }
}

/// The inputs on which the registry computes without overflow: utilization
/// multiplies the borrows by 10 000 only for a configured asset with supply.
pub open spec fn pool_registry_defined<A>(
    entries: Seq<(AssetKey<A>, Option<AssetConfig<A>>, i128, i128)>,
) -> bool {
    forall|i: int|
        0 <= i < entries.len() ==> ((#[trigger] entries[i]).1 is Some && entries[i].2 > 0)
            ==> fits_i128(entries[i].3 * 10_000)
}

pub open spec fn spec_isolated_pool<A>(
    asset: Option<A>,
    collateral_factor: i128,
    liquidation_threshold: i128,
    supply_cap: i128,
    borrow_cap: i128,
    now: u64,
) -> AssetConfig<A> {
    AssetConfig {
        asset,
        collateral_factor,
        liquidation_threshold,
        reserve_factor: 1000,
        max_supply: supply_cap,
        max_borrow: borrow_cap,
        can_collateralize: true,
        can_borrow: true,
        price: 1_0000000,
        price_updated_at: now,
        is_isolated: true,
        is_frozen: false,
    }
}

// ── Helpers ─────────────────────────────────────────────────────────────────

/// Signed division rounding toward zero.
fn quotient(a: i128, b: i128) -> (q: i128)
    requires
        b != 0,
        !(a == i128::MIN && b == -1),
    ensures
        q == trunc_div(a as int, b as int),
{
    proof {
        let m = if a >= 0 { a as int } else { -a };
        let d = if b >= 0 { b as int } else { -b };
        assert(m / d <= m) by {
            vstd::arithmetic::div_mod::lemma_div_is_ordered_by_denominator(m, 1, d);
        }
        if d >= 2 {
            assert(m / d <= m / 2) by {
                vstd::arithmetic::div_mod::lemma_div_is_ordered_by_denominator(m, 2, d);
            }
        } else {
            assert(d == 1);
            assert(m / 1 == m);
        }
    }
    a.checked_div(b).unwrap()
}

// ── Administration ──────────────────────────────────────────────────────────

/// The admin to record at initialization; refused once an admin exists.
pub fn initialize<A>(stored_admin: Option<A>, admin: A) -> (r: Result<A, CrossAssetError>)
    ensures
        stored_admin is Some ==> r == Err::<A, CrossAssetError>(CrossAssetError::NotAuthorized),
        stored_admin is None ==> r == Ok::<A, CrossAssetError>(admin),
{
    match stored_admin {
        Some(_) => Err(CrossAssetError::NotAuthorized),
        None => Ok(admin),
    }
}

/// The admin who must authorize an administrative operation.
pub fn require_admin<A>(stored_admin: Option<A>) -> (r: Result<A, CrossAssetError>)
    ensures
        r == match stored_admin {
            Some(a) => Ok::<A, CrossAssetError>(a),
            None => Err(CrossAssetError::NotAuthorized),
        },
{
    match stored_admin {
        Some(a) => Ok(a),
        None => Err(CrossAssetError::NotAuthorized),
    }
}

/// The configuration found for an asset, or `AssetNotConfigured`.
pub fn get_asset_config<A>(found: Option<AssetConfig<A>>) -> (r: Result<
    AssetConfig<A>,
    CrossAssetError,
>)
    ensures
        r == match found {
            Some(c) => Ok::<AssetConfig<A>, CrossAssetError>(c),
            None => Err(CrossAssetError::AssetNotConfigured),
        },
{
    match found {
        Some(c) => Ok(c),
        None => Err(CrossAssetError::AssetNotConfigured),
    }
}

/// Accepts a value in `[0, 10 000]`.
pub fn require_valid_basis_points(value: i128) -> (r: Result<(), CrossAssetError>)
    ensures
        r is Ok <==> valid_bps(value as int),
        r is Err ==> r == Err::<(), CrossAssetError>(CrossAssetError::AssetNotConfigured),
{
    if !(0 <= value && value <= 10_000) {
        return Err(CrossAssetError::AssetNotConfigured);
    }
    Ok(())
}

/// Accepts a configuration whose factors are basis points, whose price is
/// positive and whose liquidation threshold is at least its collateral
/// factor.
pub fn require_valid_config<A>(config: &AssetConfig<A>) -> (r: Result<(), CrossAssetError>)
    ensures
        r == match config_error(*config) {
            None => Ok(()),
            Some(e) => Err(e),
        },
{
    require_valid_basis_points(config.collateral_factor)?;
    require_valid_basis_points(config.liquidation_threshold)?;
    require_valid_basis_points(config.reserve_factor)?;
    if config.price <= 0 {
        return Err(CrossAssetError::InvalidPrice);
    }
    if config.liquidation_threshold < config.collateral_factor {
        return Err(CrossAssetError::AssetNotConfigured);
    }
    Ok(())
}

/// An asset registration: the configuration to store and the asset list
/// after the asset's key is added (when it was not listed yet).
pub struct AssetRegistration<A> {
    pub config: AssetConfig<A>,
    pub asset_list: Vec<AssetKey<A>>,
}

/// Registers an asset: refused without a stored admin, then for an invalid
/// configuration; otherwise the configuration is stored under `key` and the
/// key is appended to the asset list unless it is already listed
/// (`already_listed` says whether `asset_list` holds `key`).
pub fn initialize_asset<A>(
    stored_admin: Option<A>,
    config: AssetConfig<A>,
    key: AssetKey<A>,
    asset_list: Vec<AssetKey<A>>,
    already_listed: bool,
) -> (r: Result<AssetRegistration<A>, CrossAssetError>)
    requires
        already_listed == asset_list@.contains(key),
    ensures
        stored_admin is None ==> (r matches Err(e) && e == CrossAssetError::NotAuthorized),
        stored_admin is Some ==> match config_error(config) {
            Some(e) => (r matches Err(f) && f == e),
            None => (r matches Ok(reg) && reg.config == config && reg.asset_list@ == listed_once(
                asset_list@,
                key,
            )),
        },
{
    require_admin(stored_admin)?;
    require_valid_config(&config)?;
    let mut asset_list = asset_list;
    if !already_listed {
        asset_list.push(key);
    }
    Ok(AssetRegistration { config, asset_list })
}

/// The selective update itself, once the admin and the asset are found.
fn apply_config_update<A>(
    config: AssetConfig<A>,
    collateral_factor: Option<i128>,
    liquidation_threshold: Option<i128>,
    max_supply: Option<i128>,
    max_borrow: Option<i128>,
    can_collateralize: Option<bool>,
    can_borrow: Option<bool>,
) -> (r: Result<AssetConfigUpdate<A>, CrossAssetError>)
    ensures
        r == config_update(
            config,
            collateral_factor,
            liquidation_threshold,
            max_supply,
            max_borrow,
            can_collateralize,
            can_borrow,
        ),
{
    let old_supply_cap = config.max_supply;
    let old_borrow_cap = config.max_borrow;
    let mut config = config;

    match collateral_factor {
        Some(cf) => {
            require_valid_basis_points(cf)?;
            config.collateral_factor = cf;
        },
        None => {},
    }
    match liquidation_threshold {
        Some(lt) => {
            require_valid_basis_points(lt)?;
            config.liquidation_threshold = lt;
        },
        None => {},
    }
    match max_supply {
        Some(ms) => {
            config.max_supply = ms;
        },
        None => {},
    }
    match max_borrow {
        Some(mb) => {
            config.max_borrow = mb;
        },
        None => {},
    }
    match can_collateralize {
        Some(cc) => {
            config.can_collateralize = cc;
        },
        None => {},
    }
    match can_borrow {
        Some(cb) => {
            config.can_borrow = cb;
        },
        None => {},
    }

    let supply_cap_change = if config.max_supply != old_supply_cap {
        Some((old_supply_cap, config.max_supply))
    } else {
        None
    };
    let borrow_cap_change = if config.max_borrow != old_borrow_cap {
        Some((old_borrow_cap, config.max_borrow))
    } else {
        None
    };
    Ok(AssetConfigUpdate { config, supply_cap_change, borrow_cap_change })
}

/// A selective update of an asset's configuration: refused without a stored
/// admin, then for an unconfigured asset; then each `Some` field replaces the
/// current value, factors being required to be basis points (the collateral
/// factor is checked first). Cap changes are reported as `(old, new)`.
pub fn update_asset_config<A>(
    stored_admin: Option<A>,
    found: Option<AssetConfig<A>>,
    collateral_factor: Option<i128>,
    liquidation_threshold: Option<i128>,
    max_supply: Option<i128>,
    max_borrow: Option<i128>,
    can_collateralize: Option<bool>,
    can_borrow: Option<bool>,
) -> (r: Result<AssetConfigUpdate<A>, CrossAssetError>)
    ensures
        stored_admin is None ==> (r matches Err(e) && e == CrossAssetError::NotAuthorized),
        stored_admin is Some ==> match found {
            None => r matches Err(e) && e == CrossAssetError::AssetNotConfigured,
            Some(c) => r == config_update(
                c,
                collateral_factor,
                liquidation_threshold,
                max_supply,
                max_borrow,
                can_collateralize,
                can_borrow,
            ),
        },
{
    require_admin(stored_admin)?;
    let config = get_asset_config(found)?;
    apply_config_update(
        config,
        collateral_factor,
        liquidation_threshold,
        max_supply,
        max_borrow,
        can_collateralize,
        can_borrow,
    )
}

/// A price update: refused without a stored admin, then for a non-positive
/// price, then for an unconfigured asset; the configuration records the price
/// with the current time.
pub fn update_asset_price<A>(
    stored_admin: Option<A>,
    found: Option<AssetConfig<A>>,
    price: i128,
    now: u64,
) -> (r: Result<AssetConfig<A>, CrossAssetError>)
    ensures
        stored_admin is None ==> (r matches Err(e) && e == CrossAssetError::NotAuthorized),
        stored_admin is Some && price <= 0 ==> (r matches Err(e) && e == CrossAssetError::InvalidPrice),
        stored_admin is Some && price > 0 ==> r == match found {
            None => Err(CrossAssetError::AssetNotConfigured),
            Some(c) => Ok((AssetConfig { price, price_updated_at: now, ..c })),
        },
{
    require_admin(stored_admin)?;
    if price <= 0 {
        return Err(CrossAssetError::InvalidPrice);
    }
    let mut config = get_asset_config(found)?;
    config.price = price;
    config.price_updated_at = now;
    Ok(config)
}

/// A new isolated pool with default risk parameters (10 % reserve factor,
/// unit price), registered as `initialize_asset` does: refused without a
/// stored admin, then for an invalid configuration; otherwise the pool's
/// configuration is stored under `key` (the key of `asset`) and the key is
/// appended to the asset list unless it is already listed.
pub fn create_isolated_pool<A>(
    stored_admin: Option<A>,
    asset: Option<A>,
    collateral_factor: i128,
    liquidation_threshold: i128,
    supply_cap: i128,
    borrow_cap: i128,
    now: u64,
    key: AssetKey<A>,
    asset_list: Vec<AssetKey<A>>,
    already_listed: bool,
) -> (r: Result<AssetRegistration<A>, CrossAssetError>)
    requires
        key == AssetKey::spec_from_option(asset),
        already_listed == asset_list@.contains(key),
    ensures
        stored_admin is None ==> (r matches Err(e) && e == CrossAssetError::NotAuthorized),
        stored_admin is Some ==> ({
            let c = spec_isolated_pool(
                asset,
                collateral_factor,
                liquidation_threshold,
                supply_cap,
                borrow_cap,
                now,
            );
            match config_error(c) {
                Some(e) => (r matches Err(f) && f == e),
                None => (r matches Ok(reg) && reg.config == c && reg.asset_list@ == listed_once(
                    asset_list@,
                    key,
                )),
            }
        }),
        r matches Ok(reg) ==> ({
            &&& reg.config.asset == asset
            &&& reg.config.collateral_factor == collateral_factor
            &&& reg.config.liquidation_threshold == liquidation_threshold
            &&& reg.config.max_supply == supply_cap
            &&& reg.config.max_borrow == borrow_cap
            &&& reg.config.reserve_factor == 1000
            &&& reg.config.price == 1_0000000
            &&& reg.config.price_updated_at == now
            &&& reg.config.can_collateralize && reg.config.can_borrow
            &&& reg.config.is_isolated && !reg.config.is_frozen
        }),
{
    let admin = require_admin(stored_admin)?;
    let config = AssetConfig {
        asset,
        collateral_factor,
        liquidation_threshold,
        reserve_factor: 1000,
        max_supply: supply_cap,
        max_borrow: borrow_cap,
        can_collateralize: true,
        can_borrow: true,
        price: 1_0000000,
        price_updated_at: now,
        is_isolated: true,
        is_frozen: false,
    };
    require_valid_config(&config)?;
    initialize_asset(Some(admin), config, key, asset_list, already_listed)
}

/// Freezing or unfreezing a pool: refused unless an admin is stored and the
/// caller is that admin (`caller_is_admin`), then for an unconfigured asset;
/// otherwise the configuration with its freeze flag set to `freeze`.
pub fn freeze_pool<A>(
    stored_admin: Option<A>,
    caller_is_admin: bool,
    found: Option<AssetConfig<A>>,
    freeze: bool,
) -> (r: Result<AssetConfig<A>, CrossAssetError>)
    ensures
        (stored_admin is None || !caller_is_admin) ==> (r matches Err(e) && e == CrossAssetError::NotAuthorized),
        (stored_admin is Some && caller_is_admin) ==> r == match found {
            None => Err(CrossAssetError::AssetNotConfigured),
            Some(c) => Ok((AssetConfig { is_frozen: freeze, ..c })),
        },
{
    require_admin(stored_admin)?;
    if !caller_is_admin {
        return Err(CrossAssetError::NotAuthorized);
    }
    let mut config = get_asset_config(found)?;
    config.is_frozen = freeze;
    Ok(config)
}

// ── Positions ───────────────────────────────────────────────────────────────

/// The stored position, or an empty one stamped with the current time.
pub fn get_user_asset_position(stored: Option<AssetPosition>, now: u64) -> (p: AssetPosition)
    ensures
        p == position_or_empty(stored, now),
{
    match stored {
        Some(p) => p,
        None => AssetPosition { collateral: 0, debt_principal: 0, accrued_interest: 0, last_updated: now },
    }
}

/// Checks a deposit of `amount` against the per-user cap, 20 % of a positive
/// global supply cap.
pub fn check_per_user_supply_limit<A>(config: &AssetConfig<A>, user_supply: i128, amount: i128) -> (r:
    Result<(), CrossAssetError>)
    requires
        per_user_limit_defined(config.max_supply as int, user_supply as int, amount as int),
    ensures
        r is Err <==> user_supply + amount > per_user_cap(config.max_supply as int),
        r is Err ==> r == Err::<(), CrossAssetError>(CrossAssetError::SupplyCapExceeded),
{
    let per_user_cap = if config.max_supply > 0 {
        (config.max_supply * 2000) / 10_000
    } else {
        i128::MAX
    };
    if user_supply + amount > per_user_cap {
        return Err(CrossAssetError::SupplyCapExceeded);
    }
    Ok(())
}

/// The user's supply after a change of `delta`.
pub fn update_per_user_supply(current: i128, delta: i128) -> (r: i128)
    requires
        fits_i128(current + delta),
    ensures
        r == current + delta,
{
    current + delta
}

/// A deposit of `amount` by a user whose position, supply and the pool's
/// total supply are given.
pub fn cross_asset_deposit<A>(
    found: Option<AssetConfig<A>>,
    total_supply: i128,
    user_supply: i128,
    position: AssetPosition,
    amount: i128,
    now: u64,
) -> (r: Result<DepositOutcome, CrossAssetError>)
    requires
        found matches Some(c) ==> deposit_defined(
            c,
            total_supply as int,
            user_supply as int,
            position,
            amount as int,
        ),
    ensures
        found is None ==> (r matches Err(e) && e == CrossAssetError::AssetNotConfigured),
        found matches Some(c) ==> r == deposit_result(
            c,
            total_supply as int,
            user_supply as int,
            position,
            amount as int,
            now,
        ),
{
    let config = get_asset_config(found)?;
    let config = &config;
    if config.is_frozen {
        return Err(CrossAssetError::AssetDisabled);
    }
    if !config.can_collateralize {
        return Err(CrossAssetError::AssetDisabled);
    }
    if config.max_supply > 0 {
        if total_supply + amount > config.max_supply {
            return Err(CrossAssetError::SupplyCapExceeded);
        }
    }
    check_per_user_supply_limit(config, user_supply, amount)?;

    let mut position = position;
    position.collateral = position.collateral + amount;
    position.last_updated = now;

    Ok(
        DepositOutcome {
            position,
            total_supply: total_supply + amount,
            user_supply: update_per_user_supply(user_supply, amount),
        },
    )
}

/// Decides whether `cross_asset_deposit` is defined on these inputs (computes
/// without overflow).
pub fn cross_asset_deposit_is_defined<A>(
    found: &Option<AssetConfig<A>>,
    total_supply: i128,
    user_supply: i128,
    position: &AssetPosition,
    amount: i128,
) -> (r: bool)
    ensures
        r == match *found {
            Some(c) => deposit_defined(c, total_supply as int, user_supply as int, *position, amount as int),
            None => true,
        },
{
    let config = match found {
        None => return true,
        Some(c) => c,
    };
    if config.is_frozen || !config.can_collateralize {
        return true;
    }
    let total_after = total_supply.checked_add(amount);
    if config.max_supply > 0 {
        match total_after {
            None => return false,
            Some(t) => {
                if t > config.max_supply {
                    return true;
                }
            },
        }
    }
    if config.max_supply > 0 && config.max_supply.checked_mul(2000).is_none() {
        return false;
    }
    let user_after = match user_supply.checked_add(amount) {
        None => return false,
        Some(u) => u,
    };
    let per_user_cap = if config.max_supply > 0 {
        (config.max_supply * 2000) / 10_000
    } else {
        i128::MAX
    };
    if user_after > per_user_cap {
        return true;
    }
    position.collateral.checked_add(amount).is_some() && total_after.is_some()
}

/// The dynamic borrow cap of a pool (0 = unlimited).
pub fn calculate_dynamic_borrow_cap<A>(config: &AssetConfig<A>, total_supply: i128, total_borrow: i128) -> (r:
    i128)
    requires
        dynamic_borrow_cap_defined(config.max_borrow as int, total_supply as int, total_borrow as int),
    ensures
        r == dynamic_borrow_cap(config.max_borrow as int, total_supply as int, total_borrow as int),
{
    if config.max_borrow == 0 {
        return 0;
    }
    let available_liquidity = total_supply - total_borrow;
    if available_liquidity <= 0 {
        return total_borrow;
    }
    let denominator = if total_supply >= 1 {
        total_supply
    } else {
        1
    };
    let liquidity_ratio_bps = (available_liquidity * 10_000) / denominator;
    proof {
        assert(liquidity_ratio_bps >= 0) by {
            vstd::arithmetic::div_mod::lemma_div_pos_is_pos(
                available_liquidity * 10_000,
                denominator as int,
            );
        }
        assert(available_liquidity * liquidity_ratio_bps >= 0) by (nonlinear_arith)
            requires
                available_liquidity > 0,
                liquidity_ratio_bps >= 0,
        ;
    }
    let adjusted_cap = total_borrow + (available_liquidity * liquidity_ratio_bps) / 10_000;
    if adjusted_cap <= config.max_borrow {
        adjusted_cap
    } else {
        config.max_borrow
    }
}

/// The dynamic supply cap of a pool.
pub fn calculate_dynamic_supply_cap<A>(config: &AssetConfig<A>, total_supply: i128, total_borrow: i128) -> (r:
    i128)
    requires
        dynamic_supply_cap_defined(config.max_supply as int, total_supply as int, total_borrow as int),
    ensures
        r == dynamic_supply_cap(config.max_supply as int, total_supply as int, total_borrow as int),
{
    let target_util_bps: i128 = 7500;
    if total_supply == 0 || total_borrow == 0 {
        return config.max_supply;
    }
    let current_util_bps = quotient(total_borrow * 10_000, total_supply);
    if current_util_bps > target_util_bps {
        let overage_bps = current_util_bps - target_util_bps;
        let reduction_bps = (overage_bps * 5000) / 10000;
        let reduction = (config.max_supply * reduction_bps) / 10_000;
        let reduced = config.max_supply - reduction;
        if reduced >= total_supply {
            reduced
        } else {
            total_supply
        }
    } else {
        config.max_supply
    }
}

/// The supply headroom `(available, cap, current_supply)`: with no cap,
/// `(i128::MAX, 0, current)`; otherwise the non-negative room under the cap.
pub fn get_supply_headroom<A>(config: &AssetConfig<A>, current_supply: i128) -> (r: (i128, i128, i128))
    requires
        config.max_supply != 0 ==> fits_i128(config.max_supply - current_supply),
    ensures
        config.max_supply == 0 ==> r == (i128::MAX, 0i128, current_supply),
        config.max_supply != 0 ==> r == (
            max_int(config.max_supply - current_supply, 0) as i128,
            config.max_supply,
            current_supply,
        ),
{
    if config.max_supply == 0 {
        return (i128::MAX, 0, current_supply);
    }
    let room = config.max_supply - current_supply;
    let available = if room >= 0 {
        room
    } else {
        0
    };
    (available, config.max_supply, current_supply)
}

/// Borrow utilization `(current_borrows, cap)`.
pub fn get_borrow_utilization<A>(config: &AssetConfig<A>, current_borrows: i128) -> (r: (i128, i128))
    ensures
        r == (current_borrows, config.max_borrow),
{
    (current_borrows, config.max_borrow)
}

/// The first step of a borrow of `amount`.
pub fn cross_asset_borrow<A>(
    found: Option<AssetConfig<A>>,
    total_supply: i128,
    total_borrow: i128,
    position: AssetPosition,
    amount: i128,
    now: u64,
) -> (r: Result<PositionStep, CrossAssetError>)
    requires
        found matches Some(c) ==> borrow_defined(
            c,
            total_supply as int,
            total_borrow as int,
            position,
            amount as int,
        ),
    ensures
        found is None ==> (r matches Err(e) && e == CrossAssetError::AssetNotConfigured),
        found matches Some(c) ==> r == borrow_step(
            c,
            total_supply as int,
            total_borrow as int,
            position,
            amount as int,
            now,
        ),
{
    let config = get_asset_config(found)?;
    let config = &config;
    if config.is_frozen {
        return Err(CrossAssetError::AssetDisabled);
    }
    if !config.can_borrow {
        return Err(CrossAssetError::AssetDisabled);
    }
    let effective_borrow_cap = calculate_dynamic_borrow_cap(config, total_supply, total_borrow);
    if effective_borrow_cap > 0 {
        if total_borrow + amount > effective_borrow_cap {
            return Err(CrossAssetError::BorrowCapExceeded);
        }
    }
    let before = position;
    let mut position = position;
    position.debt_principal = position.debt_principal + amount;
    position.last_updated = now;
    let mut rollback = before;
    rollback.last_updated = now;

    if config.is_isolated {
        let pool_collateral = position.collateral;
        let pool_debt = position.debt_principal + position.accrued_interest;
        let max_pool_debt = match pool_collateral.checked_mul(config.collateral_factor) {
            Some(product) => product / 10_000,
            None => 0,
        };
        if pool_debt > max_pool_debt {
            return Ok(PositionStep::Refused(rollback, CrossAssetError::ExceedsBorrowCapacity));
        }
        Ok(PositionStep::Done(position, total_borrow + amount))
    } else {
        Ok(
            PositionStep::CheckHealth(
                PositionChange { position, rollback, pool_total: total_borrow, amount },
            ),
        )
    }
}

/// Settles a borrow that awaited the health check: the user's summary is
/// computed from `entries` (per listed asset: key, configuration, stored
/// position) with the tentative position in place of the borrowed asset's
/// (`listed_at` locates `key`, the borrowed asset, in the list).
pub fn finish_cross_asset_borrow<A>(
    change: PositionChange,
    key: &AssetKey<A>,
    entries: Vec<(AssetKey<A>, Option<AssetConfig<A>>, Option<AssetPosition>)>,
    listed_at: Option<usize>,
    now: u64,
) -> (r: PositionStep)
    requires
        listed_at_key(entries@, *key, listed_at),
        summary_with_defined(entries@, listed_at, change.position, now),
        settle_borrow_defined(change, summary_with(entries@, listed_at, change.position, now)),
    ensures
        r == settle_borrow(change, summary_with(entries@, listed_at, change.position, now)),
        r matches PositionStep::Done(_, _) ==> summary_with(
            entries@,
            listed_at,
            change.position,
            now,
        ) matches Ok(s) && s.health_factor >= 10_000,
{
    let summary = summary_with_position(entries, listed_at, change.position, now);
    match summary {
        Err(e) => PositionStep::Refused(change.rollback, e),
        Ok(s) => {
            if s.health_factor < 10_000 {
                PositionStep::Refused(change.rollback, CrossAssetError::ExceedsBorrowCapacity)
            } else {
                PositionStep::Done(change.position, change.pool_total + change.amount)
            }
        },
    }
}

/// The first step of a withdrawal of `amount`.
pub fn cross_asset_withdraw(position: AssetPosition, total_supply: i128, amount: i128, now: u64) -> (r:
    Result<PositionChange, CrossAssetError>)
    requires
        position.collateral >= amount ==> fits_i128(position.collateral - amount),
    ensures
        r == withdraw_step(position, total_supply as int, amount as int, now),
{
    if position.collateral < amount {
        return Err(CrossAssetError::InsufficientCollateral);
    }
    let mut rollback = position;
    rollback.last_updated = now;
    let mut position = position;
    position.collateral = position.collateral - amount;
    position.last_updated = now;
    Ok(PositionChange { position, rollback, pool_total: total_supply, amount })
}

/// Settles a withdrawal: the user's summary is computed from `entries` with
/// the tentative position in place of the withdrawn asset's (`listed_at`
/// locates `key`, the withdrawn asset, in the list).
pub fn finish_cross_asset_withdraw<A>(
    change: PositionChange,
    key: &AssetKey<A>,
    entries: Vec<(AssetKey<A>, Option<AssetConfig<A>>, Option<AssetPosition>)>,
    listed_at: Option<usize>,
    now: u64,
) -> (r: PositionStep)
    requires
        listed_at_key(entries@, *key, listed_at),
        summary_with_defined(entries@, listed_at, change.position, now),
        settle_withdraw_defined(change, summary_with(entries@, listed_at, change.position, now)),
    ensures
        r == settle_withdraw(change, summary_with(entries@, listed_at, change.position, now)),
        r matches PositionStep::Done(_, _) ==> summary_with(
            entries@,
            listed_at,
            change.position,
            now,
        ) matches Ok(s) && (s.total_debt_value <= 0 || s.health_factor >= 10_000),
{
    let summary = summary_with_position(entries, listed_at, change.position, now);
    match summary {
        Err(e) => PositionStep::Refused(change.rollback, e),
        Ok(s) => {
            if s.total_debt_value > 0 && s.health_factor < 10_000 {
                PositionStep::Refused(change.rollback, CrossAssetError::UnhealthyPosition)
            } else {
                PositionStep::Done(change.position, change.pool_total - change.amount)
            }
        },
    }
}

/// A liquidation of a user's position: the liquidator repays
/// `debt_to_repay` of the debt asset and receives collateral reduced by the
/// collateral asset's incentive.
fn liquidate_with_summary<A>(
    collateral_config: &AssetConfig<A>,
    summary: &UserPositionSummary,
    debt_position: AssetPosition,
    collateral_position: AssetPosition,
    debt_to_repay: i128,
    collateral_to_receive: i128,
    total_borrow: i128,
    total_supply: i128,
    now: u64,
) -> (r: Result<LiquidationOutcome, CrossAssetError>)
    requires
        liquidation_defined(
            *collateral_config,
            *summary,
            debt_position,
            collateral_position,
            debt_to_repay as int,
            collateral_to_receive as int,
            total_borrow as int,
            total_supply as int,
        ),
    ensures
        r == liquidation_result(
            *collateral_config,
            *summary,
            debt_position,
            collateral_position,
            debt_to_repay as int,
            collateral_to_receive as int,
            total_borrow as int,
            total_supply as int,
            now,
        ),
{
    if !summary.is_liquidatable {
        return Err(CrossAssetError::InsufficientCollateral);
    }
    let mut debt_position = debt_position;
    let mut collateral_position = collateral_position;
    if debt_to_repay <= 0 || collateral_to_receive <= 0 {
        return Err(CrossAssetError::InsufficientCollateral);
    }
    let liquidation_incentive = collateral_config.liquidation_threshold
        - collateral_config.collateral_factor;
    let actual_collateral = (collateral_to_receive * (10_000 - liquidation_incentive)) / 10_000;
    if collateral_position.collateral < actual_collateral {
        return Err(CrossAssetError::InsufficientCollateral);
    }
    let total_debt = debt_position.debt_principal + debt_position.accrued_interest;
    if debt_to_repay > total_debt {
        return Err(CrossAssetError::InsufficientCollateral);
    }
    debt_position.debt_principal = debt_position.debt_principal - debt_to_repay;
    debt_position.last_updated = now;
    collateral_position.collateral = collateral_position.collateral - actual_collateral;
    collateral_position.last_updated = now;

    Ok(
        LiquidationOutcome {
            debt_position,
            collateral_position,
            seized_collateral: actual_collateral,
            total_borrow: total_borrow - debt_to_repay,
            total_supply: total_supply - actual_collateral,
        },
    )
}

/// A liquidation of a user's position: the debt and collateral assets must
/// be configured (the debt asset is checked first); the user's summary is
/// computed from `entries` (per listed asset: key, configuration, stored
/// position); then the liquidator repays `debt_to_repay` of the debt asset
/// and receives collateral reduced by the collateral asset's incentive.
pub fn cross_asset_liquidate<A>(
    debt_found: Option<AssetConfig<A>>,
    collateral_found: Option<AssetConfig<A>>,
    entries: Vec<(AssetKey<A>, Option<AssetConfig<A>>, Option<AssetPosition>)>,
    debt_position: AssetPosition,
    collateral_position: AssetPosition,
    debt_to_repay: i128,
    collateral_to_receive: i128,
    total_borrow: i128,
    total_supply: i128,
    now: u64,
) -> (r: Result<LiquidationOutcome, CrossAssetError>)
    requires
        debt_found is Some && collateral_found is Some ==> {
            &&& entries@.len() <= u32::MAX
            &&& health_defined(batch_items(entries@, now), now)
            &&& health_summary(batch_items(entries@, now), now) matches Ok(s) ==> liquidation_defined(
                collateral_found.unwrap(),
                s,
                debt_position,
                collateral_position,
                debt_to_repay as int,
                collateral_to_receive as int,
                total_borrow as int,
                total_supply as int,
            )
        },
    ensures
        (debt_found is None || collateral_found is None) ==> (r matches Err(e) && e
            == CrossAssetError::AssetNotConfigured),
        (debt_found is Some && collateral_found is Some) ==> r == match health_summary(
            batch_items(entries@, now),
            now,
        ) {
            Err(e) => Err(e),
            Ok(s) => liquidation_result(
                collateral_found.unwrap(),
                s,
                debt_position,
                collateral_position,
                debt_to_repay as int,
                collateral_to_receive as int,
                total_borrow as int,
                total_supply as int,
                now,
            ),
        },
{
    get_asset_config(debt_found)?;
    let collateral_config = get_asset_config(collateral_found)?;
    let summary = get_batched_user_position_summary(entries, now)?;
    liquidate_with_summary(
        &collateral_config,
        &summary,
        debt_position,
        collateral_position,
        debt_to_repay,
        collateral_to_receive,
        total_borrow,
        total_supply,
        now,
    )
}

/// A repayment of up to `amount` (capped at the total debt); interest is
/// paid first, then principal. Returns the position and the pool's total
/// borrows after it.
pub fn cross_asset_repay(position: AssetPosition, total_borrow: i128, amount: i128, now: u64) -> (r: (
    AssetPosition,
    i128,
))
    requires
        repay_defined(position, total_borrow as int, amount as int),
    ensures
        r == repay_result(position, total_borrow as int, amount as int, now),
{
    let mut position = position;
    let total_debt = position.debt_principal + position.accrued_interest;
    let repay_amount = if amount <= total_debt {
        amount
    } else {
        total_debt
    };
    if repay_amount <= position.accrued_interest {
        position.accrued_interest = position.accrued_interest - repay_amount;
    } else {
        let remaining = repay_amount - position.accrued_interest;
        position.accrued_interest = 0;
        position.debt_principal = position.debt_principal - remaining;
    }
    position.last_updated = now;
    (position, total_borrow - repay_amount)
}

// ── Definedness ────────────────────────────────────────────────────────────

/// Decides whether `calculate_dynamic_borrow_cap` computes without overflow.
pub fn dynamic_borrow_cap_is_defined(max_borrow: i128, total_supply: i128, total_borrow: i128) -> (r:
    bool)
    ensures
        r == dynamic_borrow_cap_defined(max_borrow as int, total_supply as int, total_borrow as int),
{
    if max_borrow == 0 {
        return true;
    }
    let available = match total_supply.checked_sub(total_borrow) {
        None => return false,
        Some(v) => v,
    };
    if available <= 0 {
        return true;
    }
    let scaled = match available.checked_mul(10_000) {
        None => return false,
        Some(v) => v,
    };
    let denominator = if total_supply >= 1 {
        total_supply
    } else {
        1
    };
    let ratio = scaled / denominator;
    let product = match available.checked_mul(ratio) {
        None => return false,
        Some(v) => v,
    };
    proof {
        vstd::arithmetic::div_mod::lemma_div_pos_is_pos(scaled as int, denominator as int);
        assert(product >= 0) by (nonlinear_arith)
            requires
                product == available * ratio,
                available > 0,
                ratio >= 0,
        ;
    }
    total_borrow.checked_add(product / 10_000).is_some()
}

/// Decides whether `cross_asset_borrow` computes without overflow.
pub fn cross_asset_borrow_is_defined<A>(
    found: &Option<AssetConfig<A>>,
    total_supply: i128,
    total_borrow: i128,
    position: &AssetPosition,
    amount: i128,
) -> (r: bool)
    ensures
        r == match *found {
            Some(c) => borrow_defined(c, total_supply as int, total_borrow as int, *position, amount as int),
            None => true,
        },
{
    let config = match found {
        None => return true,
        Some(c) => c,
    };
    if config.is_frozen || !config.can_borrow {
        return true;
    }
    if !dynamic_borrow_cap_is_defined(config.max_borrow, total_supply, total_borrow) {
        return false;
    }
    let cap = calculate_dynamic_borrow_cap(config, total_supply, total_borrow);
    if cap > 0 {
        match total_borrow.checked_add(amount) {
            None => return false,
            Some(t) => {
                if t > cap {
                    return true;
                }
            },
        }
    }
    let principal = match position.debt_principal.checked_add(amount) {
        None => return false,
        Some(v) => v,
    };
    if !config.is_isolated {
        return true;
    }
    let pool_debt = match principal.checked_add(position.accrued_interest) {
        None => return false,
        Some(v) => v,
    };
    let max_pool_debt = match position.collateral.checked_mul(config.collateral_factor) {
        Some(product) => product / 10_000,
        None => 0,
    };
    if pool_debt <= max_pool_debt {
        total_borrow.checked_add(amount).is_some()
    } else {
        true
    }
}

/// Decides whether `calculate_dynamic_supply_cap` computes without overflow.
pub fn dynamic_supply_cap_is_defined(max_supply: i128, total_supply: i128, total_borrow: i128) -> (r:
    bool)
    ensures
        r == dynamic_supply_cap_defined(max_supply as int, total_supply as int, total_borrow as int),
{
    if total_supply == 0 || total_borrow == 0 {
        return true;
    }
    let scaled = match total_borrow.checked_mul(10_000) {
        None => return false,
        Some(v) => v,
    };
    if scaled == i128::MIN && total_supply == -1 {
        return false;
    }
    let util = quotient(scaled, total_supply);
    if util <= 7500 {
        return true;
    }
    let overage_scaled = match (util - 7500).checked_mul(5000) {
        None => return false,
        Some(v) => v,
    };
    let reduction_bps = overage_scaled / 10_000;
    let product = match max_supply.checked_mul(reduction_bps) {
        None => return false,
        Some(v) => v,
    };
    max_supply.checked_sub(product / 10_000).is_some()
}

/// Decides whether `cross_asset_liquidate` computes without overflow.
pub fn cross_asset_liquidate_is_defined<A>(
    collateral_config: &AssetConfig<A>,
    summary: &UserPositionSummary,
    debt_position: &AssetPosition,
    collateral_position: &AssetPosition,
    debt_to_repay: i128,
    collateral_to_receive: i128,
    total_borrow: i128,
    total_supply: i128,
) -> (r: bool)
    ensures
        r == liquidation_defined(
            *collateral_config,
            *summary,
            *debt_position,
            *collateral_position,
            debt_to_repay as int,
            collateral_to_receive as int,
            total_borrow as int,
            total_supply as int,
        ),
{
    if !(summary.is_liquidatable && debt_to_repay > 0 && collateral_to_receive > 0) {
        return true;
    }
    let incentive = match collateral_config.liquidation_threshold.checked_sub(
        collateral_config.collateral_factor,
    ) {
        None => return false,
        Some(v) => v,
    };
    let share = match 10_000i128.checked_sub(incentive) {
        None => return false,
        Some(v) => v,
    };
    let scaled = match collateral_to_receive.checked_mul(share) {
        None => return false,
        Some(v) => v,
    };
    let seized = scaled / 10_000;
    if collateral_position.collateral < seized {
        return true;
    }
    let total_debt = match debt_position.debt_principal.checked_add(debt_position.accrued_interest) {
        None => return false,
        Some(v) => v,
    };
    if debt_to_repay > total_debt {
        return true;
    }
    debt_position.debt_principal.checked_sub(debt_to_repay).is_some()
        && collateral_position.collateral.checked_sub(seized).is_some()
        && total_borrow.checked_sub(debt_to_repay).is_some()
        && total_supply.checked_sub(seized).is_some()
}

/// Decides whether `cross_asset_repay` computes without overflow.
pub fn cross_asset_repay_is_defined(position: &AssetPosition, total_borrow: i128, amount: i128) -> (r:
    bool)
    ensures
        r == repay_defined(*position, total_borrow as int, amount as int),
{
    let total_debt = match position.debt_principal.checked_add(position.accrued_interest) {
        None => return false,
        Some(v) => v,
    };
    let repay = if amount <= total_debt {
        amount
    } else {
        total_debt
    };
    let parts_fit = if repay <= position.accrued_interest {
        position.accrued_interest.checked_sub(repay).is_some()
    } else {
        match repay.checked_sub(position.accrued_interest) {
            None => false,
            Some(rest) => position.debt_principal.checked_sub(rest).is_some(),
        }
    };
    parts_fit && repay != i128::MIN && total_borrow.checked_sub(repay).is_some()
}

// ── Pool registry ───────────────────────────────────────────────────────────

/// The registry entry of one pool.
pub fn get_pool_info<A>(asset: Option<A>, config: &AssetConfig<A>, total_supply: i128, total_borrow: i128) -> (r:
    PoolInfo<A>)
    requires
        total_supply > 0 ==> fits_i128(total_borrow * 10_000),
    ensures
        r.asset == asset,
        r.is_isolated == config.is_isolated,
        r.is_frozen == config.is_frozen,
        r.total_supply == total_supply,
        r.total_borrow == total_borrow,
        r.supply_cap == config.max_supply,
        r.borrow_cap == config.max_borrow,
        r.collateral_factor == config.collateral_factor,
        r.liquidation_threshold == config.liquidation_threshold,
        r.utilization_bps == pool_utilization(total_supply as int, total_borrow as int),
{
    let utilization_bps = if total_supply > 0 {
        (total_borrow * 10_000) / total_supply
    } else {
        0
    };
    PoolInfo {
        asset,
        is_isolated: config.is_isolated,
        is_frozen: config.is_frozen,
        total_supply,
        total_borrow,
        supply_cap: config.max_supply,
        borrow_cap: config.max_borrow,
        collateral_factor: config.collateral_factor,
        liquidation_threshold: config.liquidation_threshold,
        utilization_bps,
    }
}

/// The registry of all listed pools: `entries` holds, per listed asset in
/// order, its key, its configuration if any, and its total supply and
/// borrows. Assets without configuration are skipped.
pub fn get_pool_registry<A>(entries: Vec<(AssetKey<A>, Option<AssetConfig<A>>, i128, i128)>) -> (r:
    Vec<PoolInfo<A>>)
    requires
        pool_registry_defined(entries@),
    ensures
        r@ == spec_pool_registry(entries@),
{
    let ghost all = entries@;
    assert(all.len() == entries.len());
    let mut rest = entries;
    let mut registry: Vec<PoolInfo<A>> = Vec::new();
    let mut k: usize = 0;
    while rest.len() > 0
        invariant
            k + rest@.len() == all.len(),
            all.len() <= usize::MAX,
            rest@ == all.skip(k as int),
            registry@ == spec_pool_registry(all.take(k as int)),
            pool_registry_defined(all),
        decreases rest@.len(),
    {
        let (key, found, total_supply, total_borrow) = rest.remove(0);
        assert(all.take(k + 1).drop_last() == all.take(k as int));
        assert(all[k as int] == (key, found, total_supply, total_borrow));
        match found {
            Some(config) => {
                let info = get_pool_info(key.into_option(), &config, total_supply, total_borrow);
                registry.push(info);
            },
            None => {},
        }
        k = k + 1;
        assert(rest@ == all.skip(k as int));
    }
    assert(all.take(k as int) == all);
    registry
}

// ── Keys ────────────────────────────────────────────────────────────────────

impl<A> UserAssetKey<A> {
    /// The key of `user`'s position in `asset` (`None` for the native asset).
    pub fn new(user: A, asset: Option<A>) -> (r: Self)
        ensures
            r.user == user,
            r.asset == AssetKey::<A>::spec_from_option(asset),
    {
        UserAssetKey { user, asset: AssetKey::from_option(asset) }
    }
}

impl<A> AssetKey<A> {
    pub open spec fn spec_from_option(asset: Option<A>) -> AssetKey<A> {
        match asset {
            Some(a) => AssetKey::Token(a),
            None => AssetKey::Native,
        }
    }

    /// `None` is the native asset; `Some(addr)` a token.
    pub fn from_option(asset: Option<A>) -> (r: Self)
        ensures
            r == Self::spec_from_option(asset),
    {
        match asset {
            Some(addr) => AssetKey::Token(addr),
            None => AssetKey::Native,
        }
    }

    /// The key back as an optional address (`Native` is `None`), consuming it.
    pub fn into_option(self) -> (r: Option<A>)
        ensures
            r == key_to_option(self),
    {
        match self {
            AssetKey::Native => None,
            AssetKey::Token(addr) => Some(addr),
        }
    }

    /// The key back as an optional address (`Native` is `None`).
    pub fn to_option(&self) -> (r: Option<A>) where A: Clone
        ensures
            (r is None) == (*self is Native),
            *self matches AssetKey::Token(a) ==> r matches Some(b) && cloned(a, b),
    {
        match self {
            AssetKey::Native => None,
            AssetKey::Token(addr) => Some(addr.clone()),
        }
    }
}

// ── Laws ────────────────────────────────────────────────────────────────────

/// Withdrawing what was just deposited into a position without negative
/// collateral is accepted (before the health check) and restores the collateral and the pool's total supply.
pub proof fn law_withdraw_undoes_deposit<A>(
    c: AssetConfig<A>,
    total_supply: i128,
    user_supply: i128,
    p: AssetPosition,
    amount: i128,
    now: u64,
    later: u64,
)
    requires
        deposit_defined(c, total_supply as int, user_supply as int, p, amount as int),
        deposit_result(c, total_supply as int, user_supply as int, p, amount as int, now) is Ok,
        p.collateral >= 0,
    ensures
        ({
            let o = deposit_result(c, total_supply as int, user_supply as int, p, amount as int, now)->Ok_0;
            withdraw_step(o.position, o.total_supply as int, amount as int, later) matches Ok(ch)
                && ch.position.collateral == p.collateral && ch.pool_total - ch.amount == total_supply
                && ch.position.debt_principal == p.debt_principal
                && ch.position.accrued_interest == p.accrued_interest
        }),
{
}

/// An accepted deposit respects the global supply cap (when one is set) and
/// the per-user cap.
pub proof fn law_deposit_respects_caps<A>(
    c: AssetConfig<A>,
    total_supply: i128,
    user_supply: i128,
    p: AssetPosition,
    amount: i128,
    now: u64,
)
    requires
        deposit_defined(c, total_supply as int, user_supply as int, p, amount as int),
    ensures
        deposit_result(c, total_supply as int, user_supply as int, p, amount as int, now) matches Ok(o)
            ==> {
            &&& c.max_supply > 0 ==> o.total_supply <= c.max_supply
            &&& o.user_supply <= per_user_cap(c.max_supply as int)
            &&& !c.is_frozen && c.can_collateralize
        },
{
}

/// A repayment pays interest before principal and never more than is owed:
/// with a non-negative amount and debt, the debt falls by exactly
/// `min(amount, debt)`, no part of it becomes negative, and the pool's total
/// borrows fall by the same amount.
pub proof fn law_repay_pays_interest_first(p: AssetPosition, total_borrow: i128, amount: i128, now: u64)
    requires
        repay_defined(p, total_borrow as int, amount as int),
        amount >= 0,
        p.debt_principal >= 0,
        p.accrued_interest >= 0,
    ensures
        ({
            let (q, t) = repay_result(p, total_borrow as int, amount as int, now);
            let repaid = min_int(amount as int, p.debt_principal + p.accrued_interest);
            &&& q.debt_principal + q.accrued_interest == p.debt_principal + p.accrued_interest
                - repaid
            &&& q.debt_principal >= 0 && q.accrued_interest >= 0
            &&& q.accrued_interest == max_int(p.accrued_interest - repaid, 0)
            &&& q.collateral == p.collateral
            &&& t == total_borrow - repaid
        }),
{
}

/// An accepted liquidation seizes no more collateral than the user holds,
/// repays no more debt than is owed, and moves the pool totals by exactly
/// the repaid debt and the seized collateral.
pub proof fn law_liquidation_bounded<A>(
    collateral_config: AssetConfig<A>,
    summary: UserPositionSummary,
    debt_position: AssetPosition,
    collateral_position: AssetPosition,
    debt_to_repay: i128,
    collateral_to_receive: i128,
    total_borrow: i128,
    total_supply: i128,
    now: u64,
)
    requires
        liquidation_defined(
            collateral_config,
            summary,
            debt_position,
            collateral_position,
            debt_to_repay as int,
            collateral_to_receive as int,
            total_borrow as int,
            total_supply as int,
        ),
    ensures
        liquidation_result(
            collateral_config,
            summary,
            debt_position,
            collateral_position,
            debt_to_repay as int,
            collateral_to_receive as int,
            total_borrow as int,
            total_supply as int,
            now,
        ) matches Ok(o) ==> {
            &&& summary.is_liquidatable
            &&& 0 < debt_to_repay <= debt_position.debt_principal + debt_position.accrued_interest
            &&& o.seized_collateral <= collateral_position.collateral
            &&& o.collateral_position.collateral == collateral_position.collateral
                - o.seized_collateral
            &&& o.debt_position.debt_principal + o.debt_position.accrued_interest
                == debt_position.debt_principal + debt_position.accrued_interest - debt_to_repay
            &&& o.total_borrow == total_borrow - debt_to_repay
            &&& o.total_supply == total_supply - o.seized_collateral
        },
{
}

/// A borrow that passes its first step stays under the dynamic borrow cap
/// (when there is one); in an isolated pool a completed borrow keeps the
/// debt within the pool's own collateral times its collateral factor, and
/// in other pools no borrow completes before the health check.
pub proof fn law_borrow_respects_caps<A>(
    c: AssetConfig<A>,
    total_supply: i128,
    total_borrow: i128,
    p: AssetPosition,
    amount: i128,
    now: u64,
)
    ensures
        borrow_step(c, total_supply as int, total_borrow as int, p, amount as int, now) matches Ok(
            step,
        ) ==> {
            let cap = dynamic_borrow_cap(c.max_borrow as int, total_supply as int, total_borrow as int);
            &&& cap > 0 ==> total_borrow + amount <= cap
            &&& !c.is_frozen && c.can_borrow
            &&& step matches PositionStep::Done(q, _) ==> {
                &&& c.is_isolated
                &&& q.debt_principal + q.accrued_interest <= if fits_i128(
                    p.collateral * c.collateral_factor,
                ) {
                    trunc_div(p.collateral * c.collateral_factor, 10_000)
                } else {
                    0
                }
            }
        },
{
}

/// With free liquidity, the dynamic borrow cap lies between the current
/// borrows and the configured cap.
pub proof fn law_dynamic_borrow_cap_bounded(max_borrow: int, supply: int, borrow: int)
    requires
        max_borrow != 0,
        supply > borrow,
        borrow <= max_borrow,
    ensures
        borrow <= dynamic_borrow_cap(max_borrow, supply, borrow) <= max_borrow,
{
    let available = supply - borrow;
    let d = max_int(supply, 1);
    let ratio = (available * 10_000) / d;
    assert(available * 10_000 >= 0) by (nonlinear_arith)
        requires
            available > 0,
    ;
    vstd::arithmetic::div_mod::lemma_div_pos_is_pos(available * 10_000, d);
    assert(available * ratio >= 0) by (nonlinear_arith)
        requires
            available > 0,
            ratio >= 0,
    ;
    vstd::arithmetic::div_mod::lemma_div_pos_is_pos(available * ratio, 10_000);
}

/// A tightened dynamic supply cap never drops below the current supply and,
/// for a non-negative configured cap, never exceeds the larger of that cap
/// and the current supply.
pub proof fn law_dynamic_supply_cap_bounded(max_supply: int, supply: int, borrow: int)
    requires
        max_supply >= 0,
        supply != 0,
        borrow != 0,
        trunc_div(borrow * 10_000, supply) > 7500,
    ensures
        supply <= dynamic_supply_cap(max_supply, supply, borrow) <= max_int(max_supply, supply),
{
    let util = trunc_div(borrow * 10_000, supply);
    let reduction_bps = ((util - 7500) * 5000) / 10_000;
    assert((util - 7500) * 5000 >= 0) by (nonlinear_arith)
        requires
            util > 7500,
    ;
    vstd::arithmetic::div_mod::lemma_div_pos_is_pos((util - 7500) * 5000, 10_000);
    assert(max_supply * reduction_bps >= 0) by (nonlinear_arith)
        requires
            max_supply >= 0,
            reduction_bps >= 0,
    ;
    vstd::arithmetic::div_mod::lemma_div_pos_is_pos(max_supply * reduction_bps, 10_000);
}


/// Registering an asset keeps the asset list free of duplicates, and the
/// registered key is listed afterwards.
pub proof fn law_asset_list_stays_duplicate_free<A>(list: Seq<AssetKey<A>>, key: AssetKey<A>)
    requires
        no_duplicates(list),
    ensures
        no_duplicates(listed_once(list, key)),
        listed_once(list, key).contains(key),
{
    if !list.contains(key) {
        assert(list.push(key)[list.len() as int] == key);
    }
}

/// A borrow either completes or is rolled back, whatever the health check
/// answers (a low health factor or a failed summary such as a stale price):
/// when it completes, the debt grows by exactly `amount` and so do the pool's
/// total borrows; when it is refused after the tentative write, the position
/// written is the one from before the call (stamped with the time) and the
/// pool total is not written.
pub proof fn law_borrow_completes_or_rolls_back<A>(
    c: AssetConfig<A>,
    total_supply: i128,
    total_borrow: i128,
    p: AssetPosition,
    amount: i128,
    now: u64,
    summary: Result<UserPositionSummary, CrossAssetError>,
)
    requires
        borrow_defined(c, total_supply as int, total_borrow as int, p, amount as int),
        summary matches Ok(s) ==> (s.health_factor >= 10_000 ==> fits_i128(
            total_borrow + amount,
        )),
    ensures
        borrow_step(c, total_supply as int, total_borrow as int, p, amount as int, now) matches Ok(
            first,
        ) ==> ({
            let last = match first {
                PositionStep::CheckHealth(ch) => settle_borrow(ch, summary),
                other => other,
            };
            &&& last matches PositionStep::Refused(q, _) ==> q == AssetPosition {
                last_updated: now,
                ..p
            }
            &&& last matches PositionStep::Done(q, t) ==> (q.debt_principal == p.debt_principal
                + amount && q.collateral == p.collateral && q.accrued_interest == p.accrued_interest
                && t == total_borrow + amount)
            &&& !(last is CheckHealth)
        }),
{
}

/// A withdrawal either completes or is rolled back, whatever the health check
/// answers: when it completes, the collateral and the pool's total supply
/// shrink by exactly `amount`; when it is refused, the position written is
/// the one from before the call (stamped with the time).
pub proof fn law_withdraw_completes_or_rolls_back(
    total_supply: i128,
    p: AssetPosition,
    amount: i128,
    now: u64,
    summary: Result<UserPositionSummary, CrossAssetError>,
)
    requires
        p.collateral >= amount ==> fits_i128(p.collateral - amount),
        summary matches Ok(s) ==> (!(s.total_debt_value > 0 && s.health_factor < 10_000) ==> (
        amount != i128::MIN && fits_i128(total_supply - amount))),
    ensures
        withdraw_step(p, total_supply as int, amount as int, now) matches Ok(ch) ==> ({
            let last = settle_withdraw(ch, summary);
            &&& last matches PositionStep::Refused(q, _) ==> q == AssetPosition {
                last_updated: now,
                ..p
            }
            &&& last matches PositionStep::Done(q, t) ==> (q.collateral == p.collateral - amount
                && q.debt_principal == p.debt_principal && t == total_supply - amount)
        }),
{
}

/// A withdrawal is refused for health only when it would leave a position
/// with debt below a health factor of 1.0: a withdrawal within the held
/// collateral whose summary afterwards shows no debt, or a health factor of at
/// least 1.0, completes, with the collateral and the pool's total supply both
/// reduced by exactly `amount`; and a refusal for health always comes from a
/// summary with debt and a health factor below 1.0.
pub proof fn law_healthy_withdrawal_completes(
    total_supply: i128,
    p: AssetPosition,
    amount: i128,
    now: u64,
    s: UserPositionSummary,
)
    requires
        p.collateral >= amount,
    ensures
        withdraw_step(p, total_supply as int, amount as int, now) matches Ok(ch) && ({
            let last = settle_withdraw(ch, Ok(s));
            &&& (s.total_debt_value <= 0 || s.health_factor >= 10_000) ==> last
                == PositionStep::Done(
                AssetPosition {
                    collateral: (p.collateral - amount) as i128,
                    debt_principal: p.debt_principal,
                    accrued_interest: p.accrued_interest,
                    last_updated: now,
                },
                (total_supply - amount) as i128,
            )
            &&& last matches PositionStep::Refused(q, e) ==> (e == CrossAssetError::UnhealthyPosition
                && s.total_debt_value > 0 && s.health_factor < 10_000 && q.collateral == p.collateral)
        }),
{
}

/// A borrow that awaited the health check completes exactly when the health
/// factor afterwards is at least 1.0, adding `amount` to the pool's total
/// borrows; otherwise it is refused with `ExceedsBorrowCapacity` and the
/// debt from before the call is written back.
pub proof fn law_healthy_borrow_completes(ch: PositionChange, s: UserPositionSummary)
    ensures
        s.health_factor >= 10_000 ==> settle_borrow(ch, Ok(s)) == PositionStep::Done(
            ch.position,
            (ch.pool_total + ch.amount) as i128,
        ),
        s.health_factor < 10_000 ==> settle_borrow(ch, Ok(s)) == PositionStep::Refused(
            ch.rollback,
            CrossAssetError::ExceedsBorrowCapacity,
        ),
{
}

/// A liquidation is accepted exactly when the position is liquidatable, both
/// amounts are positive, the collateral seized (the requested amount less
/// the incentive `liquidation_threshold − collateral_factor`, in basis
/// points, rounded toward zero) is held, and the repayment is at most the
/// whole debt (principal plus accrued interest). Then the repayment comes off
/// the principal and the pool's total borrows, and the seized collateral off
/// the position and the pool's total supply.
pub proof fn law_liquidation_accepted_exactly_when_allowed<A>(
    collateral_config: AssetConfig<A>,
    summary: UserPositionSummary,
    debt_position: AssetPosition,
    collateral_position: AssetPosition,
    debt_to_repay: i128,
    collateral_to_receive: i128,
    total_borrow: i128,
    total_supply: i128,
    now: u64,
)
    requires
        liquidation_defined(
            collateral_config,
            summary,
            debt_position,
            collateral_position,
            debt_to_repay as int,
            collateral_to_receive as int,
            total_borrow as int,
            total_supply as int,
        ),
    ensures
        ({
            let c = collateral_config;
            let seized = trunc_div(
                collateral_to_receive * (10_000 - (c.liquidation_threshold - c.collateral_factor)),
                10_000,
            );
            let allowed = summary.is_liquidatable && debt_to_repay > 0 && collateral_to_receive > 0
                && seized <= collateral_position.collateral && debt_to_repay
                <= debt_position.debt_principal + debt_position.accrued_interest;
            let r = liquidation_result(
                c,
                summary,
                debt_position,
                collateral_position,
                debt_to_repay as int,
                collateral_to_receive as int,
                total_borrow as int,
                total_supply as int,
                now,
            );
            &&& !allowed ==> r == Err::<LiquidationOutcome, CrossAssetError>(
                CrossAssetError::InsufficientCollateral,
            )
            &&& allowed ==> (r matches Ok(o) && o.seized_collateral == seized
                && o.debt_position.debt_principal == debt_position.debt_principal - debt_to_repay
                && o.debt_position.accrued_interest == debt_position.accrued_interest
                && o.collateral_position.collateral == collateral_position.collateral - seized
                && o.total_borrow == total_borrow - debt_to_repay && o.total_supply
                == total_supply - seized)
        }),
{
}

/// An isolated pool is created with the requested asset, factors and caps
/// (`max_supply` the supply cap, `max_borrow` the borrow cap), a 10 %
/// reserve factor, a unit price dated `now`, enabled for collateral and
/// borrowing, isolated and not frozen.
pub proof fn law_isolated_pool_parameters<A>(
    asset: Option<A>,
    collateral_factor: i128,
    liquidation_threshold: i128,
    supply_cap: i128,
    borrow_cap: i128,
    now: u64,
)
    ensures
        ({
            let c = spec_isolated_pool(
                asset,
                collateral_factor,
                liquidation_threshold,
                supply_cap,
                borrow_cap,
                now,
            );
            &&& c.asset == asset
            &&& c.collateral_factor == collateral_factor
            &&& c.liquidation_threshold == liquidation_threshold
            &&& c.max_supply == supply_cap
            &&& c.max_borrow == borrow_cap
            &&& c.reserve_factor == 1000
            &&& c.price == 1_0000000
            &&& c.price_updated_at == now
            &&& c.can_collateralize && c.can_borrow
            &&& c.is_isolated && !c.is_frozen
        }),
{
}

/// A deposit is accepted exactly when the asset is neither frozen nor
/// disabled as collateral and, under a positive supply cap, both the pool's
/// total supply and the user's own supply stay within their caps (the user's
/// cap is 20 % of the pool's). An accepted deposit adds `amount` to the
/// collateral, the pool's total supply and the user's supply; a refusal
/// names the first failed check.
pub proof fn law_deposit_accepted_exactly_within_caps<A>(
    c: AssetConfig<A>,
    total_supply: i128,
    user_supply: i128,
    p: AssetPosition,
    amount: i128,
    now: u64,
)
    requires
        deposit_defined(c, total_supply as int, user_supply as int, p, amount as int),
    ensures
        ({
            let r = deposit_result(c, total_supply as int, user_supply as int, p, amount as int, now);
            let enabled = !c.is_frozen && c.can_collateralize;
            let within_pool = c.max_supply <= 0 || total_supply + amount <= c.max_supply;
            let within_user = c.max_supply <= 0 || user_supply + amount <= c.max_supply * 2000
                / 10_000;
            &&& !enabled ==> r == Err::<DepositOutcome, CrossAssetError>(
                CrossAssetError::AssetDisabled,
            )
            &&& enabled && !(within_pool && within_user) ==> r == Err::<
                DepositOutcome,
                CrossAssetError,
            >(CrossAssetError::SupplyCapExceeded)
            &&& enabled && within_pool && within_user ==> (r matches Ok(o) && o.position.collateral
                == p.collateral + amount && o.position.debt_principal == p.debt_principal
                && o.position.accrued_interest == p.accrued_interest && o.position.last_updated
                == now && o.total_supply == total_supply + amount && o.user_supply == user_supply
                + amount)
        }),
{
}

/// The first step of a borrow: refused with `AssetDisabled` exactly for a
/// frozen or non-borrowable asset, then with `BorrowCapExceeded` exactly when
/// a positive dynamic cap would be passed. Otherwise the tentative position
/// has `amount` more principal and the rollback is the position as it was.
/// An isolated pool settles at once, accepting exactly when the debt with
/// interest stays within the pool's collateral times its collateral factor;
/// any other pool awaits the health check with the pool's borrows unchanged.
pub proof fn law_borrow_first_step<A>(
    c: AssetConfig<A>,
    total_supply: i128,
    total_borrow: i128,
    p: AssetPosition,
    amount: i128,
    now: u64,
)
    requires
        borrow_defined(c, total_supply as int, total_borrow as int, p, amount as int),
    ensures
        ({
            let r = borrow_step(c, total_supply as int, total_borrow as int, p, amount as int, now);
            let cap = dynamic_borrow_cap(c.max_borrow as int, total_supply as int, total_borrow as int);
            let enabled = !c.is_frozen && c.can_borrow;
            let within_cap = cap <= 0 || total_borrow + amount <= cap;
            let tentative = AssetPosition {
                collateral: p.collateral,
                debt_principal: (p.debt_principal + amount) as i128,
                accrued_interest: p.accrued_interest,
                last_updated: now,
            };
            let before = AssetPosition {
                collateral: p.collateral,
                debt_principal: p.debt_principal,
                accrued_interest: p.accrued_interest,
                last_updated: now,
            };
            let limit = if fits_i128(p.collateral * c.collateral_factor) {
                trunc_div(p.collateral * c.collateral_factor, 10_000)
            } else {
                0
            };
            &&& !enabled ==> r == Err::<PositionStep, CrossAssetError>(
                CrossAssetError::AssetDisabled,
            )
            &&& enabled && !within_cap ==> r == Err::<PositionStep, CrossAssetError>(
                CrossAssetError::BorrowCapExceeded,
            )
            &&& enabled && within_cap && c.is_isolated ==> r == Ok::<
                PositionStep,
                CrossAssetError,
            >(
                if p.debt_principal + amount + p.accrued_interest <= limit {
                    PositionStep::Done(tentative, (total_borrow + amount) as i128)
                } else {
                    PositionStep::Refused(before, CrossAssetError::ExceedsBorrowCapacity)
                },
            )
            &&& enabled && within_cap && !c.is_isolated ==> r == Ok::<PositionStep, CrossAssetError>(
                PositionStep::CheckHealth(
                    PositionChange {
                        position: tentative,
                        rollback: before,
                        pool_total: total_borrow,
                        amount,
                    },
                ),
            )
        }),
{
}

/// The shape of the dynamic borrow cap: no cap (zero) without a configured
/// cap; the current borrows once nothing is left to lend; with nothing
/// borrowed, the smaller of the pool's supply and the configured cap.
pub proof fn law_dynamic_borrow_cap_shape(max_borrow: int, supply: int, borrow: int)
    ensures
        max_borrow == 0 ==> dynamic_borrow_cap(max_borrow, supply, borrow) == 0,
        max_borrow != 0 && supply <= borrow ==> dynamic_borrow_cap(max_borrow, supply, borrow)
            == borrow,
        max_borrow != 0 && supply > 0 && borrow == 0 ==> dynamic_borrow_cap(
            max_borrow,
            supply,
            borrow,
        ) == if supply <= max_borrow {
            supply
        } else {
            max_borrow
        },
{
    if max_borrow != 0 && supply > 0 && borrow == 0 {
        assert((supply * 10_000) / supply == 10_000) by {
            vstd::arithmetic::div_mod::lemma_div_by_multiple(10_000, supply);
            assert(supply * 10_000 == 10_000 * supply) by (nonlinear_arith);
        }
        assert((supply * 10_000) / 10_000 == supply) by {
            vstd::arithmetic::div_mod::lemma_div_by_multiple(supply, 10_000);
        }
    }
}

/// The dynamic supply cap is the configured cap while utilization
/// (borrows over supply) is at most 75 %; with the pool fully borrowed it is
/// reduced by 12.5 % of the configured cap, though never below the current
/// supply.
pub proof fn law_dynamic_supply_cap_shape(max_supply: int, supply: int, borrow: int)
    requires
        supply > 0,
        borrow >= 0,
    ensures
        borrow * 10_000 <= 7500 * supply ==> dynamic_supply_cap(max_supply, supply, borrow)
            == max_supply,
        borrow == supply ==> dynamic_supply_cap(max_supply, supply, borrow) == ({
            let reduced = max_supply - trunc_div(max_supply * 1250, 10_000);
            if reduced >= supply {
                reduced
            } else {
                supply
            }
        }),
{
    if borrow > 0 && borrow * 10_000 <= 7500 * supply {
        vstd::arithmetic::div_mod::lemma_div_is_ordered(borrow * 10_000, 7500 * supply, supply);
        vstd::arithmetic::div_mod::lemma_div_by_multiple(7500, supply);
        assert(7500 * supply == supply * 7500) by (nonlinear_arith);
        assert(borrow * 10_000 >= 0) by (nonlinear_arith)
            requires
                borrow >= 0,
        ;
    }
    if borrow == supply {
        assert((supply * 10_000) / supply == 10_000) by {
            vstd::arithmetic::div_mod::lemma_div_by_multiple(10_000, supply);
            assert(supply * 10_000 == 10_000 * supply) by (nonlinear_arith);
        }
        assert(supply * 10_000 >= 0) by (nonlinear_arith)
            requires
                supply > 0,
        ;
    }
}

/// Utilization is borrows over supply in basis points, rounded down: with a
/// positive supply and non-negative borrows it is the largest `u` with
/// `u × supply ≤ borrows × 10 000`; without supply it is zero.
pub proof fn law_pool_utilization(total_supply: int, total_borrow: int)
    ensures
        total_supply <= 0 ==> pool_utilization(total_supply, total_borrow) == 0,
        total_supply > 0 && total_borrow >= 0 ==> ({
            let u = pool_utilization(total_supply, total_borrow);
            &&& u * total_supply <= total_borrow * 10_000
            &&& total_borrow * 10_000 < (u + 1) * total_supply
        }),
{
    if total_supply > 0 && total_borrow >= 0 {
        let n = total_borrow * 10_000;
        assert(n >= 0) by (nonlinear_arith)
            requires
                total_borrow >= 0,
                n == total_borrow * 10_000,
        ;
        vstd::arithmetic::div_mod::lemma_fundamental_div_mod(n, total_supply);
        vstd::arithmetic::div_mod::lemma_mod_pos_bound(n, total_supply);
        let u = n / total_supply;
        assert(u * total_supply == total_supply * u) by (nonlinear_arith);
        assert((u + 1) * total_supply == u * total_supply + total_supply) by (nonlinear_arith);
    }
}

/// A selective configuration update: refused with `AssetNotConfigured`
/// exactly when a given factor lies outside `[0, 10 000]`; otherwise each
/// given field takes its new value, every other field keeps its old one, and
/// a cap change is reported as `(old, new)` exactly when the cap changed.
pub proof fn law_config_update_fields<A>(
    c: AssetConfig<A>,
    collateral_factor: Option<i128>,
    liquidation_threshold: Option<i128>,
    max_supply: Option<i128>,
    max_borrow: Option<i128>,
    can_collateralize: Option<bool>,
    can_borrow: Option<bool>,
)
    ensures
        ({
            let r = config_update(
                c,
                collateral_factor,
                liquidation_threshold,
                max_supply,
                max_borrow,
                can_collateralize,
                can_borrow,
            );
            let bad = |f: Option<i128>| f matches Some(v) && (v < 0 || v > 10_000);
            &&& (bad(collateral_factor) || bad(liquidation_threshold)) ==> r == Err::<
                AssetConfigUpdate<A>,
                CrossAssetError,
            >(CrossAssetError::AssetNotConfigured)
            &&& !(bad(collateral_factor) || bad(liquidation_threshold)) ==> (r matches Ok(u) && {
                let n = u.config;
                &&& n.collateral_factor == (if let Some(v) = collateral_factor { v } else { c.collateral_factor })
                &&& n.liquidation_threshold == (if let Some(v) = liquidation_threshold { v } else { c.liquidation_threshold })
                &&& n.max_supply == (if let Some(v) = max_supply { v } else { c.max_supply })
                &&& n.max_borrow == (if let Some(v) = max_borrow { v } else { c.max_borrow })
                &&& n.can_collateralize == (if let Some(v) = can_collateralize { v } else { c.can_collateralize })
                &&& n.can_borrow == (if let Some(v) = can_borrow { v } else { c.can_borrow })
                &&& n.asset == c.asset && n.reserve_factor == c.reserve_factor && n.price == c.price
                &&& n.price_updated_at == c.price_updated_at && n.is_isolated == c.is_isolated
                &&& n.is_frozen == c.is_frozen
                &&& (u.supply_cap_change is Some) == (n.max_supply != c.max_supply)
                &&& u.supply_cap_change matches Some(ch) ==> ch == (c.max_supply, n.max_supply)
                &&& (u.borrow_cap_change is Some) == (n.max_borrow != c.max_borrow)
                &&& u.borrow_cap_change matches Some(ch) ==> ch == (c.max_borrow, n.max_borrow)
            })
        }),
{
}

/// A configuration is accepted exactly when its collateral factor,
/// liquidation threshold and reserve factor all lie in `[0, 10 000]`, its
/// price is positive, and its liquidation threshold is at least its
/// collateral factor. A factor out of range is reported first, as
/// `AssetNotConfigured`; then a non-positive price, as `InvalidPrice`; then a
/// threshold below the collateral factor, as `AssetNotConfigured`.
pub proof fn law_config_validation<A>(c: AssetConfig<A>)
    ensures
        ({
            let in_range = 0 <= c.collateral_factor <= 10_000 && 0 <= c.liquidation_threshold
                <= 10_000 && 0 <= c.reserve_factor <= 10_000;
            &&& !in_range ==> config_error(c) == Some(CrossAssetError::AssetNotConfigured)
            &&& in_range && c.price <= 0 ==> config_error(c) == Some(CrossAssetError::InvalidPrice)
            &&& in_range && c.price > 0 && c.liquidation_threshold < c.collateral_factor
                ==> config_error(c) == Some(CrossAssetError::AssetNotConfigured)
            &&& in_range && c.price > 0 && c.liquidation_threshold >= c.collateral_factor
                ==> config_error(c) is None
        }),
{
}

/// A withdrawal beyond the held collateral is refused with
/// `InsufficientCollateral` before any health check.
pub proof fn law_withdrawal_beyond_collateral_refused(
    total_supply: i128,
    p: AssetPosition,
    amount: i128,
    now: u64,
)
    requires
        p.collateral < amount,
    ensures
        withdraw_step(p, total_supply as int, amount as int, now) == Err::<
            PositionChange,
            CrossAssetError,
        >(CrossAssetError::InsufficientCollateral),
{
}

/// The registry lists, in list order, one entry for each listed asset that
/// has a configuration, and nothing for one that has none. An entry carries
/// the asset's address (`None` for the native asset), its flags, factors and
/// caps from the configuration, the pool's totals, and the utilization.
pub proof fn law_pool_registry_membership<A>(
    a: Seq<(AssetKey<A>, Option<AssetConfig<A>>, i128, i128)>,
    b: Seq<(AssetKey<A>, Option<AssetConfig<A>>, i128, i128)>,
    k: AssetKey<A>,
    c: AssetConfig<A>,
    supply: i128,
    borrow: i128,
)
    ensures
        spec_pool_registry(a + b) == spec_pool_registry(a) + spec_pool_registry(b),
        spec_pool_registry(seq![(k, None::<AssetConfig<A>>, supply, borrow)]).len() == 0,
        ({
            let r = spec_pool_registry(seq![(k, Some(c), supply, borrow)]);
            &&& r.len() == 1
            &&& r[0].asset == match k {
                AssetKey::Native => None,
                AssetKey::Token(t) => Some(t),
            }
            &&& r[0].is_isolated == c.is_isolated && r[0].is_frozen == c.is_frozen
            &&& r[0].total_supply == supply && r[0].total_borrow == borrow
            &&& r[0].supply_cap == c.max_supply && r[0].borrow_cap == c.max_borrow
            &&& r[0].collateral_factor == c.collateral_factor
            &&& r[0].liquidation_threshold == c.liquidation_threshold
            &&& r[0].utilization_bps == pool_utilization(supply as int, borrow as int) as i128
        }),
    decreases b.len(),
{
    let none = seq![(k, None::<AssetConfig<A>>, supply, borrow)];
    let some = seq![(k, Some(c), supply, borrow)];
    assert(none.drop_last() =~= Seq::empty());
    assert(some.drop_last() =~= Seq::empty());
    assert(spec_pool_registry(none.drop_last()) =~= Seq::empty());
    assert(spec_pool_registry(some.drop_last()) =~= Seq::empty());
    assert(none.last() == (k, None::<AssetConfig<A>>, supply, borrow));
    assert(some.last() == (k, Some(c), supply, borrow));
    if b.len() == 0 {
        assert(a + b =~= a);
        assert(spec_pool_registry(a) + spec_pool_registry(b) =~= spec_pool_registry(a));
    } else {
        law_pool_registry_membership(a, b.drop_last(), k, c, supply, borrow);
        assert((a + b).drop_last() =~= a + b.drop_last());
        assert((a + b).last() == b.last());
        let e = b.last();
        match e.1 {
            None => {},
            Some(cfg) => {
                let info = spec_pool_info(key_to_option(e.0), cfg, e.2, e.3);
                assert((spec_pool_registry(a) + spec_pool_registry(b.drop_last())).push(info)
                    =~= spec_pool_registry(a) + spec_pool_registry(b.drop_last()).push(info));
            },
        }
    }
}

} // verus!
