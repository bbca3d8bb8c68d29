use stellar_lend::int128::{safe_add, safe_mul, safe_sqrt};

#[test]
fn add_boundary() {
    assert_eq!(safe_add(i128::MAX, 0), Ok(i128::MAX));
    assert!(safe_add(i128::MAX, 1).is_err());
    assert_eq!(safe_add(i128::MIN, 0), Ok(i128::MIN));
    assert!(safe_add(i128::MIN, -1).is_err());
}

#[test]
fn mul_boundary() {
    assert_eq!(safe_mul(1, i128::MAX), Ok(i128::MAX));
    assert!(safe_mul(2, i128::MAX).is_err());
}

#[test]
fn sqrt_floor() {
    for n in [0i128, 1, 2, 3, 4, 8, 9, 15, 16, 100, 1_000_000] {
        let r = safe_sqrt(n).unwrap();
        assert!(r * r <= n);
        assert!((r + 1).checked_mul(r + 1).map_or(true, |s| s > n));
    }
}
