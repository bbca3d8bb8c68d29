use stellar_lend::error::MathError;
use stellar_lend::int128::{
    bps_mul, bps_mul_u128, safe_add, safe_add_u128, safe_div, safe_div_u128, safe_mul,
    safe_mul_u128, safe_pow, safe_sqrt, safe_sqrt_u128, safe_sub, safe_sub_u128,
};

// ── safe_add ────────────────────────────────────────────────────────────────

#[test]
fn add_normal() {
    assert_eq!(safe_add(3, 4), Ok(7));
    assert_eq!(safe_add(-3, 4), Ok(1));
    assert_eq!(safe_add(0, i128::MAX), Ok(i128::MAX));
}

#[test]
fn add_overflow() {
    assert_eq!(safe_add(i128::MAX, 1), Err(MathError::Overflow));
    assert_eq!(safe_add(i128::MAX, i128::MAX), Err(MathError::Overflow));
}

#[test]
fn add_underflow() {
    assert_eq!(safe_add(i128::MIN, -1), Err(MathError::Underflow));
}

// ── safe_sub ────────────────────────────────────────────────────────────────

#[test]
fn sub_normal() {
    assert_eq!(safe_sub(10, 3), Ok(7));
    assert_eq!(safe_sub(i128::MIN, 0), Ok(i128::MIN));
    assert_eq!(safe_sub(0, i128::MAX), Ok(-i128::MAX));
}

#[test]
fn sub_underflow() {
    assert_eq!(safe_sub(i128::MIN, 1), Err(MathError::Underflow));
}

#[test]
fn sub_overflow() {
    assert_eq!(safe_sub(i128::MAX, -1), Err(MathError::Overflow));
}

// ── safe_mul ────────────────────────────────────────────────────────────────

#[test]
fn mul_normal() {
    assert_eq!(safe_mul(6, 7), Ok(42));
    assert_eq!(safe_mul(-3, 4), Ok(-12));
    assert_eq!(safe_mul(0, i128::MAX), Ok(0));
}

#[test]
fn mul_overflow() {
    assert_eq!(safe_mul(i128::MAX, 2), Err(MathError::Overflow));
    assert_eq!(safe_mul(i128::MIN, -1), Err(MathError::Overflow));
}

#[test]
fn mul_underflow() {
    assert_eq!(safe_mul(i128::MAX, -2), Err(MathError::Underflow));
}

#[test]
fn mul_max_exact() {
    assert_eq!(safe_mul(i128::MAX, 1), Ok(i128::MAX));
}

// ── safe_div ────────────────────────────────────────────────────────────────

#[test]
fn div_normal() {
    assert_eq!(safe_div(10, 3), Ok(3));
    assert_eq!(safe_div(-10, 3), Ok(-3));
    assert_eq!(safe_div(i128::MAX, i128::MAX), Ok(1));
}

#[test]
fn div_by_zero() {
    assert_eq!(safe_div(42, 0), Err(MathError::DivisionByZero));
    assert_eq!(safe_div(0, 0), Err(MathError::DivisionByZero));
}

#[test]
fn div_min_neg_one_overflow() {
    assert_eq!(safe_div(i128::MIN, -1), Err(MathError::Overflow));
}

// ── safe_pow ────────────────────────────────────────────────────────────────

#[test]
fn pow_zero_exp() {
    assert_eq!(safe_pow(0, 0), Ok(1));
    assert_eq!(safe_pow(i128::MAX, 0), Ok(1));
    assert_eq!(safe_pow(i128::MIN, 0), Ok(1));
}

#[test]
fn pow_normal() {
    assert_eq!(safe_pow(2, 10), Ok(1024));
    assert_eq!(safe_pow(3, 5), Ok(243));
    assert_eq!(safe_pow(-2, 3), Ok(-8));
    assert_eq!(safe_pow(10, 18), Ok(1_000_000_000_000_000_000));
}

#[test]
fn pow_overflow() {
    assert!(safe_pow(2, 127).is_err());
    assert!(safe_pow(i128::MAX, 2).is_err());
}

#[test]
fn pow_boundary() {
    assert!(safe_pow(10, 38).is_ok());
    assert!(safe_pow(10, 39).is_err());
}

// ── safe_sqrt ───────────────────────────────────────────────────────────────

#[test]
fn sqrt_normal() {
    assert_eq!(safe_sqrt(0), Ok(0));
    assert_eq!(safe_sqrt(1), Ok(1));
    assert_eq!(safe_sqrt(4), Ok(2));
    assert_eq!(safe_sqrt(9), Ok(3));
    assert_eq!(safe_sqrt(16), Ok(4));
    assert_eq!(safe_sqrt(2), Ok(1));
    assert_eq!(safe_sqrt(3), Ok(1));
    assert_eq!(safe_sqrt(1_000_000), Ok(1_000));
    assert_eq!(safe_sqrt(1_000_000_000_000_000_000), Ok(1_000_000_000));
}

#[test]
fn sqrt_negative() {
    assert_eq!(safe_sqrt(-1), Err(MathError::NegativeSqrt));
    assert_eq!(safe_sqrt(i128::MIN), Err(MathError::NegativeSqrt));
}

#[test]
fn sqrt_large() {
    let n = i128::MAX;
    let r = safe_sqrt(n).unwrap();
    if let Some(r_sq) = r.checked_mul(r) {
        assert!(r_sq <= n, "r²={r_sq} > n={n}");
    }
    assert!((r + 1).checked_mul(r + 1).map_or(true, |v| v > n));
}

// ── bps_mul ─────────────────────────────────────────────────────────────────

#[test]
fn bps_mul_normal() {
    assert_eq!(bps_mul(1_000_000, 100), Ok(10_000));
    assert_eq!(bps_mul(10_000, 10_000), Ok(10_000));
    assert_eq!(bps_mul(0, 9999), Ok(0));
}

#[test]
fn bps_mul_overflow() {
    assert!(bps_mul(i128::MAX, 2).is_err());
}

// ── Property-style boundary sweep ───────────────────────────────────────────

#[test]
fn property_add_matches_checked() {
    let samples: &[i128] = &[
        0,
        1,
        -1,
        i128::MAX,
        i128::MIN,
        i128::MAX / 2,
        i128::MIN / 2,
        42,
        -42,
        1_000_000_000_000_000_000,
    ];
    for &a in samples {
        for &b in samples {
            let expected = a.checked_add(b);
            let got = safe_add(a, b).ok();
            assert_eq!(got, expected, "safe_add({a}, {b})");
        }
    }
}

#[test]
fn property_mul_matches_checked() {
    let samples: &[i128] = &[
        0,
        1,
        -1,
        2,
        -2,
        i128::MAX,
        i128::MIN,
        i128::MAX / 2,
        i128::MIN / 2,
        1_000_000_000,
        -1_000_000_000,
    ];
    for &a in samples {
        for &b in samples {
            let expected = a.checked_mul(b);
            let got = safe_mul(a, b).ok();
            assert_eq!(got, expected, "safe_mul({a}, {b})");
        }
    }
}

#[test]
fn property_sqrt_floor() {
    let samples: &[i128] = &[
        0,
        1,
        2,
        3,
        4,
        99,
        100,
        999,
        1_000_000,
        1_000_000_000_000_000_000,
        i128::MAX,
    ];
    for &n in samples {
        let r = safe_sqrt(n).unwrap();
        if let Some(r_sq) = r.checked_mul(r) {
            assert!(r_sq <= n, "r²={r_sq} > n={n}");
        }
        assert!(
            (r + 1).checked_mul(r + 1).map_or(true, |next| next > n),
            "(r+1)² <= n for n={n}"
        );
    }
}

#[test]
fn property_pow_additive_exponent() {
    let base = 2i128;
    for a in 0u32..=10 {
        for b in 0u32..=10 {
            let lhs = safe_pow(base, a + b);
            let rhs = safe_pow(base, a)
                .and_then(|pa| safe_pow(base, b).and_then(|pb| safe_mul(pa, pb)));
            assert_eq!(lhs, rhs, "2^({a}+{b})");
        }
    }
}

// ── Further cases ───────────────────────────────────────────────────────────

#[test]
fn pow_error_direction() {
    // 3^81 is far above the range.
    assert_eq!(safe_pow(3, 81), Err(MathError::Overflow));
    // (-2)^127 is exactly i128::MIN.
    assert_eq!(safe_pow(-2, 127), Ok(i128::MIN));
    // (-3)^81 is below the range; the failing step is a multiplication of
    // the negative partial product.
    assert!(matches!(
        safe_pow(-3, 81),
        Err(MathError::Underflow) | Err(MathError::Overflow)
    ));
    assert_eq!(safe_pow(-1, 1_000_001), Ok(-1));
    assert_eq!(safe_pow(0, 5), Ok(0));
}

#[test]
fn pow_additive_exponent_negative_base() {
    let base = -3i128;
    for a in 0u32..=45 {
        for b in 0u32..=45 {
            let lhs = safe_pow(base, a + b);
            let rhs = safe_pow(base, a)
                .and_then(|pa| safe_pow(base, b).and_then(|pb| safe_mul(pa, pb)));
            assert_eq!(lhs.is_ok(), rhs.is_ok(), "(-3)^({a}+{b})");
            if lhs.is_ok() {
                assert_eq!(lhs, rhs);
            }
        }
    }
}

#[test]
fn div_truncates_toward_zero() {
    assert_eq!(safe_div(7, -2), Ok(-3));
    assert_eq!(safe_div(-7, -2), Ok(3));
    assert_eq!(safe_div(i128::MIN, 1), Ok(i128::MIN));
    assert_eq!(safe_div(i128::MIN, 2), Ok(i128::MIN / 2));
}

#[test]
fn unsigned_variants() {
    assert_eq!(safe_add_u128(u128::MAX, 1), Err(MathError::Overflow));
    assert_eq!(safe_add_u128(1, 2), Ok(3));
    assert_eq!(safe_sub_u128(1, 2), Err(MathError::Underflow));
    assert_eq!(safe_sub_u128(5, 2), Ok(3));
    assert_eq!(safe_mul_u128(u128::MAX, 2), Err(MathError::Overflow));
    assert_eq!(safe_mul_u128(6, 7), Ok(42));
    assert_eq!(safe_div_u128(7, 0), Err(MathError::DivisionByZero));
    assert_eq!(safe_div_u128(7, 2), Ok(3));
    assert_eq!(bps_mul_u128(1_000_000, 250), Ok(25_000));
    assert_eq!(bps_mul_u128(u128::MAX, 2), Err(MathError::Overflow));
}

#[test]
fn sqrt_u128_floor() {
    for &n in &[0u128, 1, 2, 3, 4, 15, 16, 17, 1_000_000, u128::MAX - 1] {
        let r = safe_sqrt_u128(n);
        assert!(r.checked_mul(r).map_or(false, |s| s <= n), "n={n}");
        assert!((r + 1).checked_mul(r + 1).map_or(true, |s| s > n), "n={n}");
    }
    assert_eq!(safe_sqrt_u128(1_000_000), 1_000);
    assert_eq!(safe_sqrt_u128(99), 9);
}

#[test]
fn sqrt_u128_at_the_maximum() {
    assert_eq!(safe_sqrt_u128(0), 0);
    assert_eq!(safe_sqrt_u128(3), 1);
    assert_eq!(safe_sqrt_u128(4), 2);
    assert_eq!(safe_sqrt_u128(u128::MAX), u64::MAX as u128);
}

#[test]
fn bps_mul_negative_truncates() {
    assert_eq!(bps_mul(-15_001, 1), Ok(-1));
    assert_eq!(bps_mul(-5_000, 1), Ok(0));
}
