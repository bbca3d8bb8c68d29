//! Dynamic reserve factor: a piecewise-linear curve of pool utilization with a
//! kink, bounded by governance limits.
use vstd::prelude::*;

use crate::int128::fits_i128;

verus! {

/// Basis-point scale: 10 000 bps = 100 %.
pub const BASIS_POINTS_SCALE: i128 = 10_000;

/// The static reserve factor a pool starts with (10 %).
pub const DEFAULT_RESERVE_FACTOR_BPS: i128 = 1_000;

/// The largest reserve factor governance may configure (50 %).
pub const MAX_RESERVE_FACTOR_BPS: i128 = 5_000;

/// Errors of the reserve module.
#[derive(Copy, Clone, Debug, PartialEq, Eq, Structural)]
pub enum ReserveError {
    /// The caller is not the protocol admin.
    Unauthorized,
    /// A curve or factor is outside its permitted range.
    InvalidReserveFactor,
    /// An intermediate value does not fit in `i128`.
    Overflow,
}

/// Parameters of the dynamic reserve-factor curve, all in basis points.
#[derive(Clone, Copy, Debug, PartialEq, Eq, Structural)]
pub struct ReserveFactorCurve {
    pub base_bps: i128,
    pub slope_bps: i128,
    pub kink_utilization_bps: i128,
    pub jump_slope_bps: i128,
    pub min_bps: i128,
    pub max_bps: i128,
    pub enabled: bool,
}

/// What a pool would charge at a given utilization, beside its static factor.
#[derive(Clone, Copy, Debug, PartialEq, Eq, Structural)]
pub struct ReserveFactorPreview {
    pub utilization_bps: i128,
    pub reserve_factor_bps: i128,
    pub static_reserve_factor_bps: i128,
    pub revenue_delta_bps: i128,
}

// ── Model ───────────────────────────────────────────────────────────────────

/// `v` limited to `[lo, hi]`.
pub open spec fn clamp(v: int, lo: int, hi: int) -> int {
    if v < lo {
        lo
    } else if v > hi {
        hi
    } else {
        v
    }
}

/// The conditions `validate_curve` accepts.
pub open spec fn curve_is_valid(c: ReserveFactorCurve) -> bool {
    &&& c.base_bps >= 0
    &&& c.slope_bps >= 0
    &&& c.jump_slope_bps >= 0
    &&& c.min_bps >= 0
    &&& c.max_bps <= MAX_RESERVE_FACTOR_BPS
    &&& c.min_bps <= c.max_bps
    &&& 0 < c.kink_utilization_bps < BASIS_POINTS_SCALE
}

/// The reserve factor at utilization `u` (clamped to `[0, 10 000]`):
/// `base + u·slope/kink` up to the kink, `base + slope + (u − kink)·jump/(10 000 − kink)`
/// beyond it, each step checked against the `i128` range, and the result
/// clamped to `[min_bps, max_bps]`. A disabled curve gives its clamped base.
pub open spec fn dynamic_reserve_factor(u: int, c: ReserveFactorCurve) -> Result<int, ReserveError> {
    if !curve_is_valid(c) {
        Err(ReserveError::InvalidReserveFactor)
    } else if !c.enabled {
        Ok(clamp(c.base_bps as int, c.min_bps as int, c.max_bps as int))
    } else {
        let util = clamp(u, 0, BASIS_POINTS_SCALE as int);
        if util <= c.kink_utilization_bps {
            let product = util * c.slope_bps;
            if !fits_i128(product) {
                Err(ReserveError::Overflow)
            } else {
                let factor = c.base_bps + product / (c.kink_utilization_bps as int);
                if !fits_i128(factor) {
                    Err(ReserveError::Overflow)
                } else {
                    Ok(clamp(factor, c.min_bps as int, c.max_bps as int))
                }
            }
        } else {
            let with_slope = c.base_bps + c.slope_bps;
            let product = (util - c.kink_utilization_bps) * c.jump_slope_bps;
            if !fits_i128(with_slope) || !fits_i128(product) {
                Err(ReserveError::Overflow)
            } else {
                let factor = with_slope + product / (BASIS_POINTS_SCALE - c.kink_utilization_bps);
                if !fits_i128(factor) {
                    Err(ReserveError::Overflow)
                } else {
                    Ok(clamp(factor, c.min_bps as int, c.max_bps as int))
                }
            }
        }
    }
}

/// The `Result<i128, _>` that `calculate_dynamic_reserve_factor` returns.
pub open spec fn dynamic_reserve_factor_result(u: int, c: ReserveFactorCurve) -> Result<i128, ReserveError> {
    match dynamic_reserve_factor(u, c) {
        Ok(v) => Ok(v as i128),
        Err(e) => Err(e),
    }
}

pub open spec fn spec_default_curve() -> ReserveFactorCurve {
    ReserveFactorCurve {
        base_bps: (DEFAULT_RESERVE_FACTOR_BPS / 2) as i128,
        slope_bps: 700,
        kink_utilization_bps: 8_000,
        jump_slope_bps: 1_800,
        min_bps: 250,
        max_bps: MAX_RESERVE_FACTOR_BPS,
        enabled: true,
    }
}

// ── Functions ───────────────────────────────────────────────────────────────

/// `Ord::clamp` on `i128`, which panics when `lo > hi`.
fn clamp_i128(v: i128, lo: i128, hi: i128) -> (r: i128)
    requires
        lo <= hi,
    ensures
        r == clamp(v as int, lo as int, hi as int),
{
    if v < lo {
        lo
    } else if v > hi {
        hi
    } else {
        v
    }
}

/// The curve a pool uses until governance configures one.
pub fn default_curve() -> (c: ReserveFactorCurve)
    ensures
        c == spec_default_curve(),
{
    ReserveFactorCurve {
        base_bps: DEFAULT_RESERVE_FACTOR_BPS / 2,
        slope_bps: 700,
        kink_utilization_bps: 8_000,
        jump_slope_bps: 1_800,
        min_bps: 250,
        max_bps: MAX_RESERVE_FACTOR_BPS,
        enabled: true,
    }
}

/// Accepts a curve whose slopes and bounds are non-negative, whose bounds are
/// ordered and at most `MAX_RESERVE_FACTOR_BPS`, and whose kink lies strictly
/// inside `(0, 10 000)`.
pub fn validate_curve(curve: &ReserveFactorCurve) -> (r: Result<(), ReserveError>)
    ensures
        r is Ok <==> curve_is_valid(*curve),
        r is Err ==> r == Err::<(), ReserveError>(ReserveError::InvalidReserveFactor),
{
    if curve.base_bps < 0 || curve.slope_bps < 0 || curve.jump_slope_bps < 0 || curve.min_bps < 0
        || curve.max_bps > MAX_RESERVE_FACTOR_BPS || curve.min_bps > curve.max_bps
        || curve.kink_utilization_bps <= 0 || curve.kink_utilization_bps >= BASIS_POINTS_SCALE {
        return Err(ReserveError::InvalidReserveFactor);
    }
    Ok(())
}

/// The curve to store for `set_reserve_factor_curve`: the given one, once
/// validated.
pub fn set_reserve_factor_curve(curve: ReserveFactorCurve) -> (r: Result<
    ReserveFactorCurve,
    ReserveError,
>)
    ensures
        curve_is_valid(curve) ==> r == Ok::<ReserveFactorCurve, ReserveError>(curve),
        !curve_is_valid(curve) ==> r == Err::<ReserveFactorCurve, ReserveError>(
            ReserveError::InvalidReserveFactor,
        ),
{
    validate_curve(&curve)?;
    Ok(curve)
}

/// The curve to store for `set_reserve_factor_bounds`: `curve` with its bounds
/// replaced, once validated.
pub fn set_reserve_factor_bounds(curve: ReserveFactorCurve, min_bps: i128, max_bps: i128) -> (r:
    Result<ReserveFactorCurve, ReserveError>)
    ensures
        ({
            let updated = ReserveFactorCurve { min_bps, max_bps, ..curve };
            &&& curve_is_valid(updated) ==> r == Ok::<ReserveFactorCurve, ReserveError>(updated)
            &&& !curve_is_valid(updated) ==> r == Err::<ReserveFactorCurve, ReserveError>(
                ReserveError::InvalidReserveFactor,
            )
        }),
{
    let mut curve = curve;
    curve.min_bps = min_bps;
    curve.max_bps = max_bps;
    validate_curve(&curve)?;
    Ok(curve)
}

/// The stored curve, or the default one when none is stored.
pub fn get_reserve_factor_curve(stored: Option<ReserveFactorCurve>) -> (c: ReserveFactorCurve)
    ensures
        c == match stored {
            Some(s) => s,
            None => spec_default_curve(),
        },
{
    match stored {
        Some(s) => s,
        None => default_curve(),
    }
}

/// The reserve factor at `utilization_bps` under `curve`.
pub fn calculate_dynamic_reserve_factor(utilization_bps: i128, curve: &ReserveFactorCurve) -> (r:
    Result<i128, ReserveError>)
    ensures
        r == dynamic_reserve_factor_result(utilization_bps as int, *curve),
{
    validate_curve(curve)?;
    if !curve.enabled {
        return Ok(clamp_i128(curve.base_bps, curve.min_bps, curve.max_bps));
    }
    let utilization = clamp_i128(utilization_bps, 0, BASIS_POINTS_SCALE);
    let mut factor = curve.base_bps;

    if utilization <= curve.kink_utilization_bps {
        let product = utilization.checked_mul(curve.slope_bps).ok_or(ReserveError::Overflow)?;
        assert(product >= 0) by (nonlinear_arith)
            requires
                product == utilization * curve.slope_bps,
                utilization >= 0,
                curve.slope_bps >= 0,
        ;
        let step = product.checked_div(curve.kink_utilization_bps).ok_or(ReserveError::Overflow)?;
        assert(step == (product as int) / (curve.kink_utilization_bps as int)) by {
            assert((product as int) / (curve.kink_utilization_bps as int) <= product) by {
                vstd::arithmetic::div_mod::lemma_div_is_ordered_by_denominator(
                    product as int,
                    1,
                    curve.kink_utilization_bps as int,
                );
            }
        }
        factor = factor.checked_add(step).ok_or(ReserveError::Overflow)?;
    } else {
        let above_kink = utilization.checked_sub(curve.kink_utilization_bps).ok_or(
            ReserveError::Overflow,
        )?;
        let denominator = BASIS_POINTS_SCALE.checked_sub(curve.kink_utilization_bps).ok_or(
            ReserveError::Overflow,
        )?;
        let with_slope = factor.checked_add(curve.slope_bps).ok_or(ReserveError::Overflow)?;
        let product = above_kink.checked_mul(curve.jump_slope_bps).ok_or(ReserveError::Overflow)?;
        assert(product >= 0) by (nonlinear_arith)
            requires
                product == above_kink * curve.jump_slope_bps,
                above_kink >= 0,
                curve.jump_slope_bps >= 0,
        ;
        let step = product.checked_div(denominator).ok_or(ReserveError::Overflow)?;
        assert(step == (product as int) / (denominator as int)) by {
            assert((product as int) / (denominator as int) <= product) by {
                vstd::arithmetic::div_mod::lemma_div_is_ordered_by_denominator(
                    product as int,
                    1,
                    denominator as int,
                );
            }
        }
        factor = with_slope.checked_add(step).ok_or(ReserveError::Overflow)?;
    }

    Ok(clamp_i128(factor, curve.min_bps, curve.max_bps))
}

/// The dynamic reserve factor for a pool whose current utilization is
/// `current_utilization` (`None` when computing it failed).
pub fn get_dynamic_reserve_factor(current_utilization: Option<i128>, curve: &ReserveFactorCurve) -> (r:
    Result<i128, ReserveError>)
    ensures
        r == match current_utilization {
            None => Err(ReserveError::Overflow),
            Some(u) => dynamic_reserve_factor_result(u as int, *curve),
        },
{
    match current_utilization {
        None => Err(ReserveError::Overflow),
        Some(u) => calculate_dynamic_reserve_factor(u, curve),
    }
}

/// A preview of the reserve factor at `requested_utilization` (or, when none
/// is requested, the pool's current utilization), beside the static factor.
///
/// The current utilization is computed before the request is looked at, so a
/// failure to compute it (`current_utilization == None`) is reported as
/// `Overflow` even when a utilization is requested.
pub fn preview_reserve_factor(
    requested_utilization: Option<i128>,
    current_utilization: Option<i128>,
    curve: &ReserveFactorCurve,
    static_reserve_factor_bps: i128,
) -> (r: Result<ReserveFactorPreview, ReserveError>)
    requires
        ({
            let u = match requested_utilization {
                Some(v) => v as int,
                None => current_utilization.unwrap() as int,
            };
            current_utilization is Some ==> (dynamic_reserve_factor(
                clamp(u, 0, BASIS_POINTS_SCALE as int),
                *curve,
            ) matches Ok(d) ==> fits_i128(d - static_reserve_factor_bps))
        }),
    ensures
        ({
            let u = match requested_utilization {
                Some(v) => v as int,
                None => current_utilization.unwrap() as int,
            };
            let util = clamp(u, 0, BASIS_POINTS_SCALE as int);
            r == match current_utilization {
                None => Err(ReserveError::Overflow),
                Some(_) => match dynamic_reserve_factor(util, *curve) {
                    Err(e) => Err(e),
                    Ok(d) => Ok(
                        ReserveFactorPreview {
                            utilization_bps: util as i128,
                            reserve_factor_bps: d as i128,
                            static_reserve_factor_bps,
                            revenue_delta_bps: (d - static_reserve_factor_bps) as i128,
                        },
                    ),
                },
            }
        }),
{
    let current = match current_utilization {
        None => return Err(ReserveError::Overflow),
        Some(c) => c,
    };
    let utilization = clamp_i128(requested_utilization.unwrap_or(current), 0, BASIS_POINTS_SCALE);
    proof {
        lemma_clamp_idempotent(utilization as int);
    }
    let dynamic = calculate_dynamic_reserve_factor(utilization, curve)?;
    Ok(
        ReserveFactorPreview {
            utilization_bps: utilization,
            reserve_factor_bps: dynamic,
            static_reserve_factor_bps,
            revenue_delta_bps: dynamic - static_reserve_factor_bps,
        },
    )
}

proof fn lemma_clamp_idempotent(u: int)
    requires
        0 <= u <= BASIS_POINTS_SCALE,
    ensures
        clamp(u, 0, BASIS_POINTS_SCALE as int) == u,
{
}

// ── Laws ────────────────────────────────────────────────────────────────────

/// The curve a pool starts with passes validation.
pub proof fn law_default_curve_is_valid()
    ensures
        curve_is_valid(spec_default_curve()),
{
}

/// Governance bounds hold: a reserve factor that is computed at all lies in
/// `[min_bps, max_bps]`, and so in `[0, MAX_RESERVE_FACTOR_BPS]`.
pub proof fn law_reserve_factor_within_bounds(u: int, c: ReserveFactorCurve)
    ensures
        dynamic_reserve_factor(u, c) matches Ok(f) ==> {
            &&& c.min_bps <= f <= c.max_bps
            &&& 0 <= f <= MAX_RESERVE_FACTOR_BPS
        },
{
}

/// The reserve factor never decreases as utilization grows: the curve is
/// continuous at its kink and both of its segments rise.
pub proof fn law_reserve_factor_monotone(u1: int, u2: int, c: ReserveFactorCurve)
    requires
        u1 <= u2,
        dynamic_reserve_factor(u1, c) is Ok,
        dynamic_reserve_factor(u2, c) is Ok,
    ensures
        dynamic_reserve_factor(u1, c)->Ok_0 <= dynamic_reserve_factor(u2, c)->Ok_0,
{
    if c.enabled {
        let t1 = clamp(u1, 0, BASIS_POINTS_SCALE as int);
        let t2 = clamp(u2, 0, BASIS_POINTS_SCALE as int);
        let k = c.kink_utilization_bps as int;
        let d = BASIS_POINTS_SCALE - k;
        assert(t1 <= t2);
        if t2 <= k {
            assert(t1 * c.slope_bps <= t2 * c.slope_bps) by (nonlinear_arith)
                requires
                    t1 <= t2,
                    c.slope_bps >= 0,
            ;
            vstd::arithmetic::div_mod::lemma_div_is_ordered(t1 * c.slope_bps, t2 * c.slope_bps, k);
        } else if t1 <= k {
            // Below the kink the slope term is at most `slope`; above it, at least.
            assert(t1 * c.slope_bps <= k * c.slope_bps) by (nonlinear_arith)
                requires
                    t1 <= k,
                    c.slope_bps >= 0,
            ;
            vstd::arithmetic::div_mod::lemma_div_is_ordered(t1 * c.slope_bps, k * c.slope_bps, k);
            vstd::arithmetic::div_mod::lemma_div_by_multiple(c.slope_bps as int, k);
            assert(k * c.slope_bps == c.slope_bps * k) by (nonlinear_arith);
            assert((t2 - k) * c.jump_slope_bps >= 0) by (nonlinear_arith)
                requires
                    t2 > k,
                    c.jump_slope_bps >= 0,
            ;
            vstd::arithmetic::div_mod::lemma_div_pos_is_pos((t2 - k) * c.jump_slope_bps, d);
        } else {
            assert((t1 - k) * c.jump_slope_bps <= (t2 - k) * c.jump_slope_bps) by (nonlinear_arith)
                requires
                    t1 <= t2,
                    c.jump_slope_bps >= 0,
            ;
            vstd::arithmetic::div_mod::lemma_div_is_ordered(
                (t1 - k) * c.jump_slope_bps,
                (t2 - k) * c.jump_slope_bps,
                d,
            );
        }
    }
}

/// The curve's anchor points, each limited to `[min_bps, max_bps]`: at zero
/// utilization (or below) the factor is the base; at the kink it is base plus
/// slope; at full utilization (or above) it is base plus slope plus jump
/// slope. A disabled curve charges its base at any utilization, and a curve
/// that fails validation is refused with `InvalidReserveFactor`.
pub proof fn law_reserve_factor_anchors(c: ReserveFactorCurve, u: int)
    ensures
        ({
            let clip = |v: int|
                if v < c.min_bps {
                    c.min_bps as int
                } else if v > c.max_bps {
                    c.max_bps as int
                } else {
                    v
                };
            let k = c.kink_utilization_bps as int;
            &&& !curve_is_valid(c) ==> dynamic_reserve_factor(u, c) == Err::<int, ReserveError>(
                ReserveError::InvalidReserveFactor,
            )
            &&& curve_is_valid(c) && !c.enabled ==> dynamic_reserve_factor(u, c) == Ok::<
                int,
                ReserveError,
            >(clip(c.base_bps as int))
            &&& curve_is_valid(c) && c.enabled && u <= 0 ==> dynamic_reserve_factor(u, c) == Ok::<
                int,
                ReserveError,
            >(clip(c.base_bps as int))
            &&& curve_is_valid(c) && c.enabled && fits_i128(k * c.slope_bps) && fits_i128(
                c.base_bps + c.slope_bps,
            ) ==> dynamic_reserve_factor(k, c) == Ok::<int, ReserveError>(
                clip(c.base_bps + c.slope_bps),
            )
            &&& curve_is_valid(c) && c.enabled && u >= 10_000 && fits_i128(c.base_bps + c.slope_bps)
                && fits_i128((10_000 - k) * c.jump_slope_bps) && fits_i128(
                c.base_bps + c.slope_bps + c.jump_slope_bps,
            ) ==> dynamic_reserve_factor(u, c) == Ok::<int, ReserveError>(
                clip(c.base_bps + c.slope_bps + c.jump_slope_bps),
            )
        }),
{
    let k = c.kink_utilization_bps as int;
    if curve_is_valid(c) && c.enabled {
        assert((k * c.slope_bps) / k == c.slope_bps) by {
            vstd::arithmetic::div_mod::lemma_div_by_multiple(c.slope_bps as int, k);
            assert(k * c.slope_bps == c.slope_bps * k) by (nonlinear_arith);
        }
        let d = 10_000 - k;
        assert((d * c.jump_slope_bps) / d == c.jump_slope_bps) by {
            vstd::arithmetic::div_mod::lemma_div_by_multiple(c.jump_slope_bps as int, d);
            assert(d * c.jump_slope_bps == c.jump_slope_bps * d) by (nonlinear_arith);
        }
    }
}

} // verus!
