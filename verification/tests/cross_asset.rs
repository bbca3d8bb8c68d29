use stellar_lend::cross_asset::{
    calculate_dynamic_borrow_cap, calculate_dynamic_supply_cap, check_per_user_supply_limit,
    create_isolated_pool, cross_asset_borrow, cross_asset_deposit, cross_asset_deposit_is_defined,
    cross_asset_liquidate, cross_asset_repay, cross_asset_withdraw, finish_cross_asset_borrow,
    finish_cross_asset_withdraw, freeze_pool, get_asset_config, get_borrow_utilization,
    get_pool_info, get_pool_registry, get_supply_headroom, get_user_asset_position, initialize,
    initialize_asset, require_admin, require_valid_basis_points, require_valid_config,
    update_asset_config, update_asset_price, update_per_user_supply, AssetConfig, AssetKey,
    AssetPosition, CrossAssetError, PositionStep, UserAssetKey,
};

fn config() -> AssetConfig<&'static str> {
    AssetConfig {
        asset: Some("USDC"),
        collateral_factor: 7_500,
        liquidation_threshold: 8_000,
        reserve_factor: 1_000,
        max_supply: 0,
        max_borrow: 0,
        can_collateralize: true,
        can_borrow: true,
        price: 1_0000000,
        price_updated_at: 100,
        is_isolated: false,
        is_frozen: false,
    }
}

fn position(collateral: i128, principal: i128, interest: i128) -> AssetPosition {
    AssetPosition { collateral, debt_principal: principal, accrued_interest: interest, last_updated: 1 }
}

type Entry = (AssetKey<&'static str>, Option<AssetConfig<&'static str>>, Option<AssetPosition>);

fn entry(key: AssetKey<&'static str>, p: AssetPosition) -> Entry {
    (key, Some(config()), Some(p))
}

fn stale_entry(key: AssetKey<&'static str>, p: AssetPosition) -> Entry {
    let mut c = config();
    c.price_updated_at = 0;
    (key, Some(c), Some(p))
}

#[test]
fn admin_initializes_once() {
    assert_eq!(initialize(None, "admin"), Ok("admin"));
    assert_eq!(initialize(Some("admin"), "other"), Err(CrossAssetError::NotAuthorized));
    assert_eq!(require_admin::<&str>(None), Err(CrossAssetError::NotAuthorized));
    assert_eq!(require_admin(Some("admin")), Ok("admin"));
}

#[test]
fn config_validation() {
    assert_eq!(require_valid_basis_points(10_000), Ok(()));
    assert_eq!(require_valid_basis_points(-1), Err(CrossAssetError::AssetNotConfigured));
    assert_eq!(require_valid_config(&config()), Ok(()));
    let mut c = config();
    c.price = 0;
    assert_eq!(require_valid_config(&c), Err(CrossAssetError::InvalidPrice));
    let mut c = config();
    c.liquidation_threshold = 7_000;
    assert_eq!(require_valid_config(&c), Err(CrossAssetError::AssetNotConfigured));
    let mut c = config();
    c.reserve_factor = 10_001;
    c.price = -1;
    assert!(matches!(
        initialize_asset(Some("admin"), c, AssetKey::Native, Vec::new(), false),
        Err(CrossAssetError::AssetNotConfigured)
    ));
    let reg = initialize_asset(Some("admin"), config(), AssetKey::Native, Vec::new(), false).ok().unwrap();
    assert_eq!(reg.config, config());
    assert_eq!(reg.asset_list, vec![AssetKey::Native]);
    assert_eq!(get_asset_config::<&str>(None), Err(CrossAssetError::AssetNotConfigured));
}

#[test]
fn asset_registration_needs_admin_and_lists_once() {
    assert!(matches!(
        initialize_asset(None, config(), AssetKey::Native, Vec::new(), false),
        Err(CrossAssetError::NotAuthorized)
    ));
    let listed = vec![AssetKey::Token("BTC"), AssetKey::Native];
    let reg = initialize_asset(Some("admin"), config(), AssetKey::Native, listed.clone(), true).ok().unwrap();
    assert_eq!(reg.asset_list, listed);
    let reg = initialize_asset(Some("admin"), config(), AssetKey::Token("ETH"), listed, false).ok().unwrap();
    assert_eq!(
        reg.asset_list,
        vec![AssetKey::Token("BTC"), AssetKey::Native, AssetKey::Token("ETH")]
    );
}

#[test]
fn config_update_reports_cap_changes() {
    let u = update_asset_config(Some("admin"), Some(config()), Some(6_000), None, Some(500), None, None, Some(false))
        .ok()
        .unwrap();
    assert_eq!(u.config.collateral_factor, 6_000);
    assert_eq!(u.config.liquidation_threshold, 8_000);
    assert_eq!(u.config.max_supply, 500);
    assert!(!u.config.can_borrow);
    assert_eq!(u.supply_cap_change, Some((0, 500)));
    assert_eq!(u.borrow_cap_change, None);
    assert!(matches!(
        update_asset_config(Some("admin"), Some(config()), None, Some(10_001), None, None, None, None),
        Err(CrossAssetError::AssetNotConfigured)
    ));
    assert!(matches!(
        update_asset_config(Some("admin"), None, Some(6_000), None, None, None, None, None),
        Err(CrossAssetError::AssetNotConfigured)
    ));
    assert!(matches!(
        update_asset_config::<&str>(None, None, Some(6_000), None, None, None, None, None),
        Err(CrossAssetError::NotAuthorized)
    ));
}

#[test]
fn price_update() {
    assert_eq!(update_asset_price(Some("admin"), Some(config()), 0, 5), Err(CrossAssetError::InvalidPrice));
    assert_eq!(update_asset_price::<&str>(Some("admin"), None, 0, 5), Err(CrossAssetError::InvalidPrice));
    assert_eq!(update_asset_price::<&str>(Some("admin"), None, 7, 5), Err(CrossAssetError::AssetNotConfigured));
    assert_eq!(update_asset_price::<&str>(None, None, 0, 5), Err(CrossAssetError::NotAuthorized));
    let c = update_asset_price(Some("admin"), Some(config()), 2_0000000, 500).unwrap();
    assert_eq!(c.price, 2_0000000);
    assert_eq!(c.price_updated_at, 500);
}

#[test]
fn isolated_pool_and_freeze() {
    let xlm = AssetKey::Token("XLM");
    let reg = create_isolated_pool(Some("admin"), Some("XLM"), 5_000, 6_000, 1_000, 500, 42, xlm.clone(), Vec::new(), false)
        .ok()
        .unwrap();
    let c = reg.config;
    assert!(c.is_isolated && !c.is_frozen);
    assert_eq!(c.reserve_factor, 1000);
    assert_eq!(c.price, 1_0000000);
    assert_eq!(c.price_updated_at, 42);
    assert_eq!(reg.asset_list, vec![AssetKey::Token("XLM")]);
    assert!(matches!(
        create_isolated_pool(Some("admin"), Some("XLM"), 7_000, 6_000, 0, 0, 42, xlm.clone(), Vec::new(), false),
        Err(CrossAssetError::AssetNotConfigured)
    ));
    assert!(matches!(
        create_isolated_pool(None, Some("XLM"), 5_000, 6_000, 0, 0, 42, xlm.clone(), Vec::new(), false),
        Err(CrossAssetError::NotAuthorized)
    ));
    assert!(freeze_pool(Some("admin"), true, Some(c.clone()), true).unwrap().is_frozen);
    assert!(!freeze_pool(Some("admin"), true, Some(c.clone()), false).unwrap().is_frozen);
    assert_eq!(freeze_pool(Some("admin"), false, Some(c.clone()), true), Err(CrossAssetError::NotAuthorized));
    assert_eq!(freeze_pool::<&str>(None, true, Some(c), true), Err(CrossAssetError::NotAuthorized));
    assert_eq!(freeze_pool::<&str>(Some("admin"), true, None, true), Err(CrossAssetError::AssetNotConfigured));
}

#[test]
fn deposit_checks_caps() {
    let p = get_user_asset_position(None, 9);
    assert_eq!(p, AssetPosition { collateral: 0, debt_principal: 0, accrued_interest: 0, last_updated: 9 });
    let o = cross_asset_deposit(Some(config()), 0, 0, p, 100, 10).unwrap();
    assert_eq!(o.position.collateral, 100);
    assert_eq!(o.position.last_updated, 10);
    assert_eq!(o.total_supply, 100);
    assert_eq!(o.user_supply, 100);

    let mut c = config();
    c.max_supply = 1_000;
    // Global cap.
    assert_eq!(cross_asset_deposit(Some(c.clone()), 950, 0, p, 100, 10), Err(CrossAssetError::SupplyCapExceeded));
    // Per-user cap is 20 % of the global cap.
    assert_eq!(cross_asset_deposit(Some(c.clone()), 0, 150, p, 100, 10), Err(CrossAssetError::SupplyCapExceeded));
    assert!(cross_asset_deposit(Some(c.clone()), 0, 100, p, 100, 10).is_ok());
    assert_eq!(check_per_user_supply_limit(&c, 150, 51), Err(CrossAssetError::SupplyCapExceeded));
    assert_eq!(check_per_user_supply_limit(&c, 150, 50), Ok(()));

    c.is_frozen = true;
    assert_eq!(cross_asset_deposit(Some(c.clone()), 0, 0, p, 1, 10), Err(CrossAssetError::AssetDisabled));
    let mut c = config();
    c.can_collateralize = false;
    assert_eq!(cross_asset_deposit(Some(c.clone()), 0, 0, p, 1, 10), Err(CrossAssetError::AssetDisabled));
    assert_eq!(update_per_user_supply(10, -3), 7);
    assert_eq!(cross_asset_deposit::<&str>(None, 0, 0, p, 1, 10), Err(CrossAssetError::AssetNotConfigured));
}

#[test]
fn deposit_definedness() {
    let p = position(i128::MAX, 0, 0);
    assert!(!cross_asset_deposit_is_defined(&Some(config()), 0, 0, &p, 1));
    assert!(cross_asset_deposit_is_defined(&Some(config()), 0, 0, &p, 0));
    let mut c = config();
    c.is_frozen = true;
    assert!(cross_asset_deposit_is_defined(&Some(c), 0, 0, &p, 1));
}

#[test]
fn withdraw_then_settle() {
    let p = position(100, 0, 0);
    assert_eq!(cross_asset_withdraw(p, 100, 101, 5), Err(CrossAssetError::InsufficientCollateral));
    let ch = cross_asset_withdraw(p, 100, 40, 5).unwrap();
    assert_eq!(ch.position.collateral, 60);
    assert_eq!(ch.rollback.collateral, 100);
    assert_eq!(ch.rollback.last_updated, 5);
    assert_eq!((ch.pool_total, ch.amount), (100, 40));
    // Stored, the position would pass (80 against debt 50); after the
    // withdrawal the weighted collateral is 60 × 80 % = 48 against debt 50.
    let indebted = vec![entry(AssetKey::Native, p), entry(AssetKey::Token("BTC"), position(0, 50, 0))];
    assert_eq!(
        finish_cross_asset_withdraw(ch, &AssetKey::Native, indebted, Some(0), 5),
        PositionStep::Refused(ch.rollback, CrossAssetError::UnhealthyPosition)
    );
    let debt_free = vec![entry(AssetKey::Native, p)];
    assert_eq!(
        finish_cross_asset_withdraw(ch, &AssetKey::Native, debt_free, Some(0), 5),
        PositionStep::Done(ch.position, 60)
    );
    let stale = vec![stale_entry(AssetKey::Native, p)];
    assert_eq!(
        finish_cross_asset_withdraw(ch, &AssetKey::Native, stale, Some(0), 5_000),
        PositionStep::Refused(ch.rollback, CrossAssetError::PriceStale)
    );
}

#[test]
fn borrow_paths() {
    let p = position(1_000, 0, 0);
    assert_eq!(cross_asset_borrow::<&str>(None, 0, 0, p, 100, 7), Err(CrossAssetError::AssetNotConfigured));
    let change_for = |amount: i128| match cross_asset_borrow(Some(config()), 0, 0, p, amount, 7).unwrap() {
        PositionStep::CheckHealth(ch) => ch,
        _ => panic!("a non-isolated borrow awaits the health check"),
    };
    let change = change_for(100);
    assert_eq!(change.position.debt_principal, 100);
    assert_eq!((change.pool_total, change.amount), (0, 100));
    let entries = vec![entry(AssetKey::Native, p)];
    // Weighted collateral 1000 × 80 % = 800: a debt of 800 keeps health at 1.0.
    assert_eq!(
        finish_cross_asset_borrow(change, &AssetKey::Native, entries.clone(), Some(0), 7),
        PositionStep::Done(change.position, 100)
    );
    let change = change_for(800);
    assert_eq!(
        finish_cross_asset_borrow(change, &AssetKey::Native, entries.clone(), Some(0), 7),
        PositionStep::Done(change.position, 800)
    );
    let change = change_for(801);
    assert_eq!(
        finish_cross_asset_borrow(change, &AssetKey::Native, entries.clone(), Some(0), 7),
        PositionStep::Refused(change.rollback, CrossAssetError::ExceedsBorrowCapacity)
    );
    // An asset missing from the asset list does not count toward health.
    let others = vec![entry(AssetKey::Token("BTC"), position(5, 0, 0))];
    assert_eq!(
        finish_cross_asset_borrow(change, &AssetKey::Native, others, None, 7),
        PositionStep::Done(change.position, 801)
    );
    let stale = vec![stale_entry(AssetKey::Native, p)];
    assert_eq!(
        finish_cross_asset_borrow(change, &AssetKey::Native, stale, Some(0), 5_000),
        PositionStep::Refused(change.rollback, CrossAssetError::PriceStale)
    );
    // The rollback is the position from before the borrow.
    assert_eq!(
        change.rollback,
        AssetPosition { last_updated: 7, ..p }
    );

    // Isolated pool: debt limited to collateral × collateral factor.
    let mut c = config();
    c.is_isolated = true;
    assert!(matches!(
        cross_asset_borrow(Some(c.clone()), 0, 0, p, 750, 7),
        Ok(PositionStep::Done(q, 750)) if q.debt_principal == 750
    ));
    assert_eq!(
        cross_asset_borrow(Some(c.clone()), 0, 0, p, 751, 7),
        Ok(PositionStep::Refused(
            AssetPosition { last_updated: 7, ..p },
            CrossAssetError::ExceedsBorrowCapacity
        ))
    );

    // Borrow cap from pool liquidity.
    let mut c = config();
    c.max_borrow = 10_000;
    // supply 1000, borrow 600: available 400, ratio 4000 bps → cap 600 + 160 = 760.
    assert_eq!(calculate_dynamic_borrow_cap(&c, 1_000, 600), 760);
    assert_eq!(cross_asset_borrow(Some(c.clone()), 1_000, 600, p, 161, 7), Err(CrossAssetError::BorrowCapExceeded));
    assert!(cross_asset_borrow(Some(c.clone()), 1_000, 600, p, 160, 7).is_ok());
    c.can_borrow = false;
    assert_eq!(cross_asset_borrow(Some(c.clone()), 1_000, 600, p, 1, 7), Err(CrossAssetError::AssetDisabled));
}

#[test]
fn dynamic_caps() {
    let mut c = config();
    c.max_borrow = 500;
    assert_eq!(calculate_dynamic_borrow_cap(&c, 1_000, 600), 500);
    assert_eq!(calculate_dynamic_borrow_cap(&c, 600, 600), 600);
    c.max_borrow = 0;
    assert_eq!(calculate_dynamic_borrow_cap(&c, 1_000, 600), 0);

    let mut c = config();
    c.max_supply = 10_000;
    assert_eq!(calculate_dynamic_supply_cap(&c, 0, 5), 10_000);
    assert_eq!(calculate_dynamic_supply_cap(&c, 1_000, 500), 10_000);
    // Utilization 9000 bps: overage 1500 → reduction 750 bps → cap 9250.
    assert_eq!(calculate_dynamic_supply_cap(&c, 1_000, 900), 9_250);
    // Never below the current supply.
    assert_eq!(calculate_dynamic_supply_cap(&c, 9_900, 9_900), 9_900);
}

#[test]
fn headroom_and_utilization() {
    let mut c = config();
    assert_eq!(get_supply_headroom(&c, 40), (i128::MAX, 0, 40));
    c.max_supply = 100;
    assert_eq!(get_supply_headroom(&c, 40), (60, 100, 40));
    assert_eq!(get_supply_headroom(&c, 140), (0, 100, 140));
    c.max_borrow = 77;
    assert_eq!(get_borrow_utilization(&c, 12), (12, 77));
}

#[test]
fn repay_pays_interest_first() {
    let p = position(0, 100, 30);
    let (q, total) = cross_asset_repay(p, 1_000, 20, 9);
    assert_eq!((q.debt_principal, q.accrued_interest, total), (100, 10, 980));
    let (q, total) = cross_asset_repay(p, 1_000, 50, 9);
    assert_eq!((q.debt_principal, q.accrued_interest, total), (80, 0, 950));
    let (q, total) = cross_asset_repay(p, 1_000, 500, 9);
    assert_eq!((q.debt_principal, q.accrued_interest, total), (0, 0, 870));
    assert_eq!(q.last_updated, 9);
}

#[test]
fn liquidation_rules() {
    let c = config();
    let debt = position(0, 500, 50);
    let coll = position(600, 0, 0);
    // Weighted collateral 600 × 80 % = 480 against debt 550: liquidatable.
    let underwater = || vec![entry(AssetKey::Native, coll), entry(AssetKey::Token("DAI"), debt)];
    let healthy = vec![entry(AssetKey::Native, position(1_000, 0, 0)), entry(AssetKey::Token("DAI"), debt)];
    let liquidate = |entries: Vec<Entry>, coll: AssetPosition, repay: i128, receive: i128, borrow: i128, supply: i128| {
        cross_asset_liquidate(Some(c.clone()), Some(c.clone()), entries, debt, coll, repay, receive, borrow, supply, 3)
    };
    assert_eq!(liquidate(healthy, coll, 100, 100, 0, 0), Err(CrossAssetError::InsufficientCollateral));
    assert_eq!(liquidate(underwater(), coll, 0, 100, 0, 0), Err(CrossAssetError::InsufficientCollateral));
    assert_eq!(liquidate(underwater(), coll, 551, 100, 0, 0), Err(CrossAssetError::InsufficientCollateral));
    // Incentive 500 bps: 200 requested → 190 seized.
    let o = liquidate(underwater(), coll, 100, 200, 1_000, 5_000).unwrap();
    assert_eq!(o.seized_collateral, 190);
    assert_eq!(o.collateral_position.collateral, 410);
    assert_eq!(o.debt_position.debt_principal, 400);
    assert_eq!(o.total_borrow, 900);
    assert_eq!(o.total_supply, 4_810);
    assert_eq!(liquidate(underwater(), position(100, 0, 0), 100, 200, 0, 0), Err(CrossAssetError::InsufficientCollateral));
    // Unconfigured assets: the debt asset is checked first.
    assert_eq!(
        cross_asset_liquidate::<&str>(None, None, underwater(), debt, coll, 100, 200, 0, 0, 3),
        Err(CrossAssetError::AssetNotConfigured)
    );
    assert_eq!(
        cross_asset_liquidate(Some(c.clone()), None, underwater(), debt, coll, 100, 200, 0, 0, 3),
        Err(CrossAssetError::AssetNotConfigured)
    );
    let stale = vec![stale_entry(AssetKey::Native, coll)];
    assert_eq!(
        cross_asset_liquidate(Some(c.clone()), Some(c), stale, debt, coll, 100, 200, 0, 0, 5_000),
        Err(CrossAssetError::PriceStale)
    );
}

#[test]
fn pool_registry_skips_unconfigured() {
    let info = get_pool_info(Some("USDC"), &config(), 1_000, 250);
    assert_eq!(info.utilization_bps, 2_500);
    assert_eq!(info.asset, Some("USDC"));
    assert_eq!(get_pool_info(None, &config(), 0, 250).utilization_bps, 0);

    let registry = get_pool_registry(vec![
        (AssetKey::Native, Some(config()), 100, 50),
        (AssetKey::Token("BTC"), None, 1, 1),
        (AssetKey::Token("ETH"), Some(config()), 10, 0),
    ]);
    assert_eq!(registry.len(), 2);
    assert_eq!(registry[0].asset, None);
    assert_eq!(registry[0].utilization_bps, 5_000);
    assert_eq!(registry[1].asset, Some("ETH"));

    // Without supply, utilization is zero, however large the borrows.
    let registry = get_pool_registry(vec![(AssetKey::Native, Some(config()), 0, i128::MAX)]);
    assert_eq!(registry[0].utilization_bps, 0);
    assert_eq!(get_pool_info(None, &config(), 0, i128::MAX).utilization_bps, 0);
}

#[test]
fn keys() {
    assert_eq!(AssetKey::from_option(Some(3u32)), AssetKey::Token(3));
    assert_eq!(AssetKey::<u32>::from_option(None), AssetKey::Native);
    assert_eq!(AssetKey::Token(3u32).to_option(), Some(3));
    assert_eq!(AssetKey::<u32>::Native.to_option(), None);
    let k = UserAssetKey::new(1u32, Some(2u32));
    assert_eq!(k.user, 1);
    assert_eq!(k.asset, AssetKey::Token(2));
}

#[test]
fn withdraw_undoes_deposit() {
    let p = position(250, 40, 3);
    let o = cross_asset_deposit(Some(config()), 1_000, 250, p, 75, 11).unwrap();
    let ch = cross_asset_withdraw(o.position, o.total_supply, 75, 12).unwrap();
    assert_eq!(ch.position.collateral, 250);
    assert_eq!(ch.pool_total - ch.amount, 1_000);
    assert_eq!((ch.position.debt_principal, ch.position.accrued_interest), (40, 3));
}
