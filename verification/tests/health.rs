use stellar_lend::cross_asset::{AssetConfig, AssetKey, AssetPosition, CrossAssetError};
use stellar_lend::health::{
    batch_read_health_data, calculate_health_from_batch, get_batched_user_position_summary,
    health_is_defined, substitute_position, summary_with_position,
};

fn config(price: i128, lt: i128, updated_at: u64) -> AssetConfig<u32> {
    AssetConfig {
        asset: None,
        collateral_factor: 7_000,
        liquidation_threshold: lt,
        reserve_factor: 1_000,
        max_supply: 0,
        max_borrow: 0,
        can_collateralize: true,
        can_borrow: true,
        price,
        price_updated_at: updated_at,
        is_isolated: false,
        is_frozen: false,
    }
}

fn position(collateral: i128, principal: i128, interest: i128) -> AssetPosition {
    AssetPosition { collateral, debt_principal: principal, accrued_interest: interest, last_updated: 0 }
}

#[test]
fn batch_keeps_configured_non_empty_positions() {
    let batch = batch_read_health_data(
        vec![
            (AssetKey::Native, Some(config(1_0000000, 8_000, 0)), Some(position(100, 0, 0))),
            (AssetKey::Token(1), None, Some(position(100, 0, 0))),
            (AssetKey::Token(2), Some(config(1_0000000, 8_000, 0)), None),
            (AssetKey::Token(3), Some(config(1_0000000, 8_000, 0)), Some(position(0, 0, 5))),
            (AssetKey::Token(4), Some(config(1_0000000, 8_000, 0)), Some(position(0, 7, 0))),
        ],
        10,
    );
    assert_eq!(batch.storage_reads, 3);
    assert_eq!(batch.price_reads, 2);
    assert_eq!(batch.positions.len(), 2);
    assert_eq!(batch.positions[0].asset, AssetKey::Native);
    assert_eq!(batch.positions[1].asset, AssetKey::Token(4));
}

#[test]
fn health_factor_and_liquidation() {
    // Collateral 1000 at price 2.0 (value 2000, weighted 1600 at 80 %);
    // debt 1000 + 200 at price 1.0 (value 1200).
    let entries = vec![
        (AssetKey::Native, Some(config(2_0000000, 8_000, 100)), Some(position(1_000, 0, 0))),
        (AssetKey::Token(1), Some(config(1_0000000, 8_000, 100)), Some(position(0, 1_000, 200))),
    ];
    let s = get_batched_user_position_summary(entries, 200).unwrap();
    assert_eq!(s.total_collateral_value, 2_000);
    assert_eq!(s.weighted_collateral_value, 1_600);
    assert_eq!(s.total_debt_value, 1_200);
    assert_eq!(s.weighted_debt_value, 1_200);
    assert_eq!(s.health_factor, 13_333);
    assert!(!s.is_liquidatable);
    assert_eq!(s.borrow_capacity, 400);

    let entries = vec![
        (AssetKey::Native, Some(config(1_0000000, 8_000, 100)), Some(position(1_000, 0, 0))),
        (AssetKey::Token(1), Some(config(1_0000000, 8_000, 100)), Some(position(0, 900, 0))),
    ];
    let s = get_batched_user_position_summary(entries, 200).unwrap();
    assert_eq!(s.health_factor, 8_888);
    assert!(s.is_liquidatable);
    assert_eq!(s.borrow_capacity, 0);
}

#[test]
fn no_debt_gives_max_health() {
    let entries = vec![(AssetKey::Native, Some(config(1_0000000, 8_000, 100)), Some(position(5, 0, 0)))];
    let s = get_batched_user_position_summary(entries, 100).unwrap();
    assert_eq!(s.health_factor, i128::MAX);
    assert!(!s.is_liquidatable);
}

#[test]
fn stale_price_is_rejected() {
    let entries = vec![(AssetKey::Native, Some(config(1_0000000, 8_000, 100)), Some(position(5, 0, 0)))];
    assert_eq!(get_batched_user_position_summary(entries, 3_701), Err(CrossAssetError::PriceStale));
    let entries = vec![(AssetKey::Native, Some(config(1_0000000, 8_000, 100)), Some(position(5, 0, 0)))];
    assert!(get_batched_user_position_summary(entries, 3_700).is_ok());
}

#[test]
fn non_collateral_assets_are_not_weighted() {
    let mut c = config(1_0000000, 8_000, 0);
    c.can_collateralize = false;
    let batch = batch_read_health_data(vec![(AssetKey::Native, Some(c), Some(position(1_000, 0, 0)))], 0);
    let s = calculate_health_from_batch(&batch, 0).unwrap();
    assert_eq!(s.total_collateral_value, 1_000);
    assert_eq!(s.weighted_collateral_value, 0);
}

#[test]
fn definedness_check() {
    let batch = batch_read_health_data(
        vec![(AssetKey::Native, Some(config(i128::MAX, 8_000, 0)), Some(position(2, 0, 0)))],
        0,
    );
    assert!(!health_is_defined(&batch, 0));
    // A stale price is reported before the overflowing item is reached.
    assert!(health_is_defined(&batch, 5_000));
    let batch = batch_read_health_data(
        vec![(AssetKey::Native, Some(config(1, 8_000, 0)), Some(position(2, 0, 0)))],
        0,
    );
    assert!(health_is_defined(&batch, 0));
}

#[test]
fn tentative_position_replaces_stored_one() {
    let entries = vec![
        (AssetKey::Native, Some(config(1_0000000, 8_000, 100)), Some(position(1_000, 0, 0))),
        (AssetKey::Token(1), Some(config(1_0000000, 8_000, 100)), None),
    ];
    let replaced = substitute_position(entries.clone(), Some(1), position(0, 900, 0));
    assert_eq!(replaced[0], entries[0]);
    assert_eq!(replaced[1].2, Some(position(0, 900, 0)));
    assert_eq!(substitute_position(entries.clone(), None, position(0, 900, 0)), entries);
    // Weighted collateral 800 against the tentative debt 900.
    let s = summary_with_position(entries.clone(), Some(1), position(0, 900, 0), 200).unwrap();
    assert_eq!(s.health_factor, 8_888);
    // Without the tentative position there is no debt.
    let s = summary_with_position(entries, None, position(0, 900, 0), 200).unwrap();
    assert_eq!(s.health_factor, i128::MAX);
}
