use stellar_lend::reserve_factor::{
    calculate_dynamic_reserve_factor, default_curve, get_dynamic_reserve_factor,
    get_reserve_factor_curve, preview_reserve_factor, set_reserve_factor_bounds,
    set_reserve_factor_curve, validate_curve, ReserveError, ReserveFactorCurve,
};

fn curve() -> ReserveFactorCurve {
    ReserveFactorCurve {
        base_bps: 500,
        slope_bps: 700,
        kink_utilization_bps: 8_000,
        jump_slope_bps: 1_800,
        min_bps: 250,
        max_bps: 3_000,
        enabled: true,
    }
}

#[test]
fn curve_scales_before_kink() {
    let factor = calculate_dynamic_reserve_factor(4_000, &curve()).unwrap();
    assert_eq!(factor, 850);
}

#[test]
fn curve_is_continuous_at_kink() {
    let factor = calculate_dynamic_reserve_factor(8_000, &curve()).unwrap();
    assert_eq!(factor, 1_200);
}

#[test]
fn curve_applies_jump_slope_after_kink() {
    let factor = calculate_dynamic_reserve_factor(9_000, &curve()).unwrap();
    assert_eq!(factor, 2_100);
}

#[test]
fn curve_respects_governance_bounds() {
    let mut bounded = curve();
    bounded.max_bps = 1_500;
    assert_eq!(calculate_dynamic_reserve_factor(10_000, &bounded).unwrap(), 1_500);

    bounded.min_bps = 900;
    assert_eq!(calculate_dynamic_reserve_factor(0, &bounded).unwrap(), 900);
}

#[test]
fn utilization_is_clamped() {
    assert_eq!(calculate_dynamic_reserve_factor(-5, &curve()), Ok(500));
    assert_eq!(calculate_dynamic_reserve_factor(50_000, &curve()), Ok(3_000));
}

#[test]
fn disabled_curve_uses_clamped_base() {
    let mut c = curve();
    c.enabled = false;
    assert_eq!(calculate_dynamic_reserve_factor(9_000, &c), Ok(500));
    c.min_bps = 600;
    assert_eq!(calculate_dynamic_reserve_factor(9_000, &c), Ok(600));
}

#[test]
fn invalid_curves_are_rejected() {
    let mut c = curve();
    c.kink_utilization_bps = 10_000;
    assert_eq!(validate_curve(&c), Err(ReserveError::InvalidReserveFactor));
    assert_eq!(
        calculate_dynamic_reserve_factor(1_000, &c),
        Err(ReserveError::InvalidReserveFactor)
    );
    let mut c = curve();
    c.max_bps = 5_001;
    assert_eq!(validate_curve(&c), Err(ReserveError::InvalidReserveFactor));
    let mut c = curve();
    c.min_bps = 3_001;
    assert_eq!(set_reserve_factor_curve(c), Err(ReserveError::InvalidReserveFactor));
    assert_eq!(validate_curve(&curve()), Ok(()));
}

#[test]
fn slope_overflow_is_reported() {
    let mut c = curve();
    c.slope_bps = i128::MAX;
    assert_eq!(calculate_dynamic_reserve_factor(4_000, &c), Err(ReserveError::Overflow));
    let mut c = curve();
    c.jump_slope_bps = i128::MAX;
    assert_eq!(calculate_dynamic_reserve_factor(9_000, &c), Err(ReserveError::Overflow));
}

#[test]
fn default_curve_values() {
    let c = default_curve();
    assert_eq!(c.base_bps, 500);
    assert_eq!(c.max_bps, 5_000);
    assert_eq!(validate_curve(&c), Ok(()));
    assert_eq!(get_reserve_factor_curve(None), c);
    assert_eq!(get_reserve_factor_curve(Some(curve())), curve());
    // At the kink the default curve gives base + slope.
    assert_eq!(calculate_dynamic_reserve_factor(8_000, &c), Ok(1_200));
}

#[test]
fn bounds_update_validates() {
    let updated = set_reserve_factor_bounds(curve(), 100, 4_000).unwrap();
    assert_eq!(updated.min_bps, 100);
    assert_eq!(updated.max_bps, 4_000);
    assert_eq!(
        set_reserve_factor_bounds(curve(), 4_000, 100),
        Err(ReserveError::InvalidReserveFactor)
    );
}

#[test]
fn factor_never_decreases_with_utilization() {
    let c = curve();
    let mut last = i128::MIN;
    for u in (0..=10_000).step_by(250) {
        let f = calculate_dynamic_reserve_factor(u, &c).unwrap();
        assert!(f >= last);
        assert!(f >= c.min_bps && f <= c.max_bps);
        last = f;
    }
}

#[test]
fn dynamic_and_preview() {
    assert_eq!(get_dynamic_reserve_factor(None, &curve()), Err(ReserveError::Overflow));
    assert_eq!(get_dynamic_reserve_factor(Some(4_000), &curve()), Ok(850));

    let p = preview_reserve_factor(Some(9_000), Some(1_000), &curve(), 1_000).unwrap();
    assert_eq!(p.utilization_bps, 9_000);
    assert_eq!(p.reserve_factor_bps, 2_100);
    assert_eq!(p.static_reserve_factor_bps, 1_000);
    assert_eq!(p.revenue_delta_bps, 1_100);

    let p = preview_reserve_factor(None, Some(12_000), &curve(), 1_000).unwrap();
    assert_eq!(p.utilization_bps, 10_000);
    assert_eq!(p.reserve_factor_bps, 3_000);

    assert_eq!(
        preview_reserve_factor(Some(4_000), None, &curve(), 1_000),
        Err(ReserveError::Overflow)
    );
}
