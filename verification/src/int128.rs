//! Overflow-safe arithmetic for `i128` and `u128`.
//!
//! Every signed operation returns the exact mathematical result when it lies in
//! `[i128::MIN, i128::MAX]`, and an error naming the direction of the overflow
//! otherwise; the contracts below say so over unbounded integers.
use vstd::prelude::*;

use crate::error::MathError;

verus! {

// ── Mathematical model ──────────────────────────────────────────────────────

/// `x` lies in the `i128` range.
pub open spec fn fits_i128(x: int) -> bool {
    i128::MIN <= x <= i128::MAX
}

/// The outcome that a signed operation reports for the exact value `x`.
pub open spec fn signed_result(x: int) -> Result<i128, MathError> {
    if x > i128::MAX {
        Err(MathError::Overflow)
    } else if x < i128::MIN {
        Err(MathError::Underflow)
    } else {
        Ok(x as i128)
    }
}

/// The outcome that an unsigned operation reports for the exact value `x`.
pub open spec fn unsigned_result(x: int) -> Result<u128, MathError> {
    if x > u128::MAX {
        Err(MathError::Overflow)
    } else if x < 0 {
        Err(MathError::Underflow)
    } else {
        Ok(x as u128)
    }
}

/// Integer division rounding toward zero.
pub open spec fn trunc_div(a: int, b: int) -> int {
    let q = (if a >= 0 { a } else { -a }) / (if b >= 0 { b } else { -b });
    if (a >= 0) == (b > 0) {
        q
    } else {
        -q
    }
}

/// `base` raised to `exp`, over unbounded integers.
pub open spec fn power(base: int, exp: nat) -> int
    decreases exp,
{
    if exp == 0 {
        1
    } else {
        base * power(base, (exp - 1) as nat)
    }
}

/// `r` is the integer square root of `n`: the largest `r` with `r² ≤ n`.
pub open spec fn is_floor_sqrt(r: int, n: int) -> bool {
    0 <= r && r * r <= n && n < (r + 1) * (r + 1)
}

/// The steps of exponentiation by squaring with checked multiplications:
/// `acc` is the product so far, `b` the current square and `e` the exponent
/// bits still to consume. The first multiplication that leaves the `i128`
/// range decides the error.
pub open spec fn pow_steps(acc: i128, b: i128, e: nat) -> Result<i128, MathError>
    decreases e,
{
    if e == 0 {
        Ok(acc)
    } else {
        let next_acc = if e % 2 == 1 {
            signed_result(acc * b)
        } else {
            Ok(acc)
        };
        match next_acc {
            Err(err) => Err(err),
            Ok(a2) => {
                if e / 2 > 0 {
                    match signed_result(b * b) {
                        Err(err) => Err(err),
                        Ok(b2) => pow_steps(a2, b2, e / 2),
                    }
                } else {
                    Ok(a2)
                }
            },
        }
    }
}

/// `pow_steps(acc, b, e)` yields `acc · bᵉ` when it succeeds, and fails only
/// when that value leaves the `i128` range, with `Overflow` above it.
pub open spec fn pow_steps_exact(acc: i128, b: i128, e: nat) -> bool {
    match pow_steps(acc, b, e) {
        Ok(v) => v == acc * power(b as int, e),
        Err(err) => {
            &&& signed_result(acc * power(b as int, e)) is Err
            &&& (err == MathError::Overflow || err == MathError::Underflow)
            &&& acc * power(b as int, e) > i128::MAX ==> err == MathError::Overflow
        },
    }
}

// ── Lemmas ──────────────────────────────────────────────────────────────────

proof fn lemma_power_at_least_one(b: int, e: nat)
    requires
        b >= 1,
    ensures
        power(b, e) >= 1,
    decreases e,
{
    if e > 0 {
        lemma_power_at_least_one(b, (e - 1) as nat);
        assert(b * power(b, (e - 1) as nat) >= 1) by (nonlinear_arith)
            requires
                b >= 1,
                power(b, (e - 1) as nat) >= 1,
        ;
    }
}

proof fn lemma_power_zero_base(e: nat)
    requires
        e >= 1,
    ensures
        power(0, e) == 0,
{
    assert(power(0, e) == 0 * power(0, (e - 1) as nat));
}

pub proof fn lemma_power_add(b: int, e1: nat, e2: nat)
    ensures
        power(b, e1 + e2) == power(b, e1) * power(b, e2),
    decreases e1,
{
    if e1 == 0 {
        assert(power(b, e2) == 1 * power(b, e2));
    } else {
        lemma_power_add(b, (e1 - 1) as nat, e2);
        assert((e1 + e2 - 1) as nat == ((e1 - 1) as nat + e2) as nat);
        let p1 = power(b, (e1 - 1) as nat);
        let p2 = power(b, e2);
        assert(b * (p1 * p2) == (b * p1) * p2) by (nonlinear_arith);
    }
}

proof fn lemma_power_square(b: int, k: nat)
    ensures
        power(b, 2 * k) == power(b * b, k),
    decreases k,
{
    if k > 0 {
        lemma_power_square(b, (k - 1) as nat);
        lemma_power_add(b, 2, (2 * (k - 1)) as nat);
        assert(power(b, 2) == b * b) by {
            assert(power(b, 1) == b * power(b, 0));
        }
        assert((2 + 2 * (k - 1)) as nat == 2 * k);
    }
}

/// `power(b, e) == power(b, e % 2) * power(b², e / 2)`.
proof fn lemma_power_split(b: int, e: nat)
    ensures
        power(b, e) == power(b, e % 2) * power(b * b, e / 2),
{
    lemma_power_add(b, e % 2, 2 * (e / 2));
    lemma_power_square(b, e / 2);
    assert(e == e % 2 + 2 * (e / 2));
}

/// No square of an integer equals `2^127`.
proof fn lemma_square_not_min(b: int)
    ensures
        b * b != 0x8000_0000_0000_0000_0000_0000_0000_0000,
{
    let k: int = 13043817825332782212;
    if -k <= b <= k {
        assert(b * b <= k * k) by (nonlinear_arith)
            requires
                -k <= b <= k,
        ;
    } else {
        assert(b * b >= (k + 1) * (k + 1)) by (nonlinear_arith)
            requires
                b > k || b < -k,
                k > 0,
        ;
    }
}

/// Exponentiation by squaring with checked steps is exact: it succeeds with
/// `acc · bᵉ` when that value fits in `i128`, and fails otherwise, with
/// `Overflow` whenever the value is above the range.
pub proof fn lemma_pow_steps(acc: i128, b: i128, e: nat)
    requires
        acc != 0 || b == 0,
    ensures
        pow_steps_exact(acc, b, e),
    decreases e,
{
    let p = acc * power(b as int, e);
    if e == 0 {
        assert(power(b as int, 0) == 1);
    } else {
        let s = e % 2;
        let e2 = e / 2;
        let bb = b * b;
        let q = power(bb, e2);
        lemma_power_split(b as int, e);
        let pb = power(b as int, s);
        assert(pb == if s == 1 { b as int } else { 1int }) by {
            assert(power(b as int, 1) == b * power(b as int, 0));
        }
        assert(p == (acc * pb) * q) by (nonlinear_arith)
            requires
                p == acc * power(b as int, e),
                power(b as int, e) == pb * q,
        ;
        if b == 0 {
            if e2 > 0 {
                lemma_power_zero_base(e2);
            }
        } else {
            assert(bb >= 1) by (nonlinear_arith)
                requires
                    b != 0,
                    bb == b * b,
            ;
            lemma_power_at_least_one(bb, e2);
        }
        if s == 1 && (acc * b > i128::MAX || acc * b < i128::MIN) {
            // The partial product already leaves the range; the remaining
            // factor is a positive power, so the final value does too.
            let ab = acc * b;
            if e2 > 0 {
                assert(b != 0) by (nonlinear_arith)
                    requires
                        ab > i128::MAX || ab < i128::MIN,
                        ab == acc * b,
                ;
                assert(ab > i128::MAX ==> ab * q >= ab) by (nonlinear_arith)
                    requires
                        q >= 1,
                ;
                assert(ab < i128::MIN ==> ab * q <= ab) by (nonlinear_arith)
                    requires
                        q >= 1,
                ;
            } else {
                assert(q == 1);
            }
        } else {
            let a2: int = acc * pb;
            assert(a2 == if s == 1 { acc * b } else { acc as int });
            if e2 == 0 {
                assert(q == 1);
            } else if bb > i128::MAX {
                assert(b != 0) by (nonlinear_arith)
                    requires
                        bb > i128::MAX,
                        bb == b * b,
                ;
                assert(a2 != 0) by (nonlinear_arith)
                    requires
                        acc != 0,
                        b != 0,
                        a2 == if s == 1 { acc * b } else { acc as int },
                ;
                lemma_power_add(bb, 1, (e2 - 1) as nat);
                assert(power(bb, 1) == bb * power(bb, 0));
                let r = power(bb, (e2 - 1) as nat);
                lemma_power_at_least_one(bb, (e2 - 1) as nat);
                lemma_square_not_min(b as int);
                assert(p > i128::MAX || p < i128::MIN) by (nonlinear_arith)
                    requires
                        p == a2 * (bb * r),
                        a2 != 0,
                        r >= 1,
                        bb > 0x7fff_ffff_ffff_ffff_ffff_ffff_ffff_ffff,
                        bb != 0x8000_0000_0000_0000_0000_0000_0000_0000,
                ;
                assert(p > i128::MAX || p < i128::MIN);
            } else {
                assert(bb >= 0) by (nonlinear_arith)
                    requires
                        bb == b * b,
                ;
                let a2i = a2 as i128;
                let b2 = bb as i128;
                assert(a2i != 0 || b2 == 0) by (nonlinear_arith)
                    requires
                        acc != 0 || b == 0,
                        a2 == if s == 1 { acc * b } else { acc as int },
                        bb == b * b,
                        a2i == a2,
                        b2 == bb,
                ;
                lemma_pow_steps(a2i, b2, e2);
                assert(p == a2 * q) by (nonlinear_arith)
                    requires
                        p == (acc * pb) * q,
                        a2 == acc * pb,
                ;
            }
        }
    }
}

/// One Newton step from an over-estimate of the integer square root stays an
/// over-estimate, and strictly decreases while `x² > n`.
proof fn lemma_newton_step(n: int, x: int)
    requires
        n >= 0,
        x >= 1,
        n < (x + 1) * (x + 1),
    ensures
        ({
            let next = (x + n / x) / 2;
            &&& n < (next + 1) * (next + 1)
            &&& next >= 0
            &&& x * x > n ==> next < x
        }),
{
    let q = n / x;
    let next = (x + q) / 2;
    assert(q >= 0);
    assert(n == x * q + n % x && 0 <= n % x < x) by {
        vstd::arithmetic::div_mod::lemma_fundamental_div_mod(n, x);
    }
    assert(n < x * (q + 1)) by (nonlinear_arith)
        requires
            n == x * q + n % x,
            n % x < x,
    ;
    assert(2 * (next + 1) >= x + q + 1);
    assert((x + q + 1) * (x + q + 1) >= 4 * (x * (q + 1))) by (nonlinear_arith)
        requires
            x >= 1,
            q >= 0,
    ;
    assert(4 * ((next + 1) * (next + 1)) >= (x + q + 1) * (x + q + 1)) by (nonlinear_arith)
        requires
            2 * (next + 1) >= x + q + 1,
            x + q + 1 >= 1,
    ;
    if x * x > n {
        assert(q < x) by (nonlinear_arith)
            requires
                x * q <= n,
                n < x * x,
                x >= 1,
        ;
    }
}

// ── Addition ────────────────────────────────────────────────────────────────

/// `a + b`, returning `Err(Overflow)` if the result exceeds `i128::MAX` and
/// `Err(Underflow)` if it falls below `i128::MIN`.
pub fn safe_add(a: i128, b: i128) -> (r: Result<i128, MathError>)
    ensures
        r == signed_result(a + b),
{
    a.checked_add(b).ok_or(
        if b > 0 {
            MathError::Overflow
        } else {
            MathError::Underflow
        },
    )
}

// ── Subtraction ─────────────────────────────────────────────────────────────

/// `a - b`, returning `Err(Underflow)` below `i128::MIN` and `Err(Overflow)`
/// above `i128::MAX`.
pub fn safe_sub(a: i128, b: i128) -> (r: Result<i128, MathError>)
    ensures
        r == signed_result(a - b),
{
    a.checked_sub(b).ok_or(
        if b > 0 {
            MathError::Underflow
        } else {
            MathError::Overflow
        },
    )
}

// ── Multiplication ──────────────────────────────────────────────────────────

/// `a * b`, returning `Err(Overflow)` when the product is above the range
/// (operands of equal sign) and `Err(Underflow)` when it is below.
pub fn safe_mul(a: i128, b: i128) -> (r: Result<i128, MathError>)
    ensures
        r == signed_result(a * b),
{
    match a.checked_mul(b) {
        Some(v) => Ok(v),
        None => {
            proof {
                if a * b > i128::MAX {
                    assert((a > 0 && b > 0) || (a < 0 && b < 0)) by (nonlinear_arith)
                        requires
                            a * b > 0,
                    ;
                } else {
                    assert(!((a > 0 && b > 0) || (a < 0 && b < 0))) by (nonlinear_arith)
                        requires
                            a * b < 0,
                    ;
                }
            }
            if (a > 0 && b > 0) || (a < 0 && b < 0) {
                Err(MathError::Overflow)
            } else {
                Err(MathError::Underflow)
            }
        },
    }
}

// ── Division ────────────────────────────────────────────────────────────────

/// `a / b` truncated toward zero; `Err(DivisionByZero)` when `b = 0` and
/// `Err(Overflow)` for the one unrepresentable quotient, `i128::MIN / -1`.
pub fn safe_div(a: i128, b: i128) -> (r: Result<i128, MathError>)
    ensures
        r == if b == 0 {
            Err(MathError::DivisionByZero)
        } else {
            signed_result(trunc_div(a as int, b as int))
        },
{
    if b == 0 {
        return Err(MathError::DivisionByZero);
    }
    proof {
        let q = (if a >= 0 { a as int } else { -a }) / (if b >= 0 { b as int } else { -b });
        assert(q >= 0);
        assert(q <= 0x8000_0000_0000_0000_0000_0000_0000_0000) by {
            vstd::arithmetic::div_mod::lemma_div_is_ordered_by_denominator(
                if a >= 0 { a as int } else { -a },
                1,
                if b >= 0 { b as int } else { -b },
            );
        }
    }
    a.checked_div(b).ok_or(MathError::Overflow)
}

// ── Power ───────────────────────────────────────────────────────────────────

/// `base ^ exp` by binary exponentiation, checking every multiplication.
///
/// The result is `Ok(baseᵉˣᵖ)` exactly when that value fits in `i128`; above
/// the range the error is `Overflow`, below it `Overflow` or `Underflow`
/// according to the step that first left the range (`pow_steps`).
pub fn safe_pow(base: i128, exp: u32) -> (r: Result<i128, MathError>)
    ensures
        r == pow_steps(1, base, exp as nat),
        r is Ok <==> signed_result(power(base as int, exp as nat)) is Ok,
        r matches Ok(v) ==> v == power(base as int, exp as nat),
        power(base as int, exp as nat) > i128::MAX ==> r == Err::<i128, MathError>(
            MathError::Overflow,
        ),
        power(base as int, exp as nat) < i128::MIN ==> (r == Err::<i128, MathError>(
            MathError::Overflow,
        ) || r == Err::<i128, MathError>(MathError::Underflow)),
{
    proof {
        lemma_pow_steps(1, base, exp as nat);
    }
    if exp == 0 {
        return Ok(1);
    }
    let mut result: i128 = 1;
    let mut b = base;
    let mut e = exp;
    while e > 0
        invariant
            pow_steps(result, b, e as nat) == pow_steps(1, base, exp as nat),
            pow_steps_exact(1, base, exp as nat),
        decreases e,
    {
        assert(e & 1 == e % 2) by (bit_vector);
        assert(e >> 1 == e / 2) by (bit_vector);
        let ghost before = pow_steps(result, b, e as nat);
        if e & 1 == 1 {
            let m = safe_mul(result, b);
            assert(m is Err ==> before == m);
            result = m?;
        }
        e >>= 1;
        if e > 0 {
            let m = safe_mul(b, b);
            assert(m is Err ==> before == m);
            b = m?;
        }
    }
    Ok(result)
}

// ── Square root ─────────────────────────────────────────────────────────────

/// Integer square root: the largest `r` with `r² ≤ n`, by Newton's method.
/// Returns `Err(NegativeSqrt)` when `n < 0`.
pub fn safe_sqrt(n: i128) -> (r: Result<i128, MathError>)
    ensures
        n < 0 ==> r == Err::<i128, MathError>(MathError::NegativeSqrt),
        n >= 0 ==> (r matches Ok(v) && is_floor_sqrt(v as int, n as int)),
{
    if n < 0 {
        return Err(MathError::NegativeSqrt);
    }
    if n < 4 {
        return Ok(
            if n == 0 {
                0
            } else {
                1
            },
        );
    }
    // For n ≥ 4, n/2 is an over-estimate of √n: (n/2 + 1)² > n.
    let mut x = n / 2;
    assert(n < (x + 1) * (x + 1)) by (nonlinear_arith)
        requires
            x == n / 2,
            n >= 4,
    ;
    proof {
        lemma_newton_step(n as int, x as int);
    }
    assert(x >= 2);
    assert(n / x <= n / 2) by {
        vstd::arithmetic::div_mod::lemma_div_is_ordered_by_denominator(n as int, 2, x as int);
    }
    let mut next = (x + n / x) / 2;
    while next < x
        invariant
            n >= 4,
            1 <= x <= n / 2,
            n < (x + 1) * (x + 1),
            next == (x + n / x) / 2,
        decreases x,
    {
        proof {
            lemma_newton_step(n as int, x as int);
        }
        x = next;
        assert(x >= 2) by (nonlinear_arith)
            requires
                n < (x + 1) * (x + 1),
                n >= 4,
                x >= 0,
        ;
        assert(n / x <= n / 2) by {
            vstd::arithmetic::div_mod::lemma_div_is_ordered_by_denominator(n as int, 2, x as int);
        }
        proof {
            lemma_newton_step(n as int, x as int);
        }
        next = (x + n / x) / 2;
    }
    proof {
        lemma_newton_step(n as int, x as int);
    }
    assert(x * x <= n);
    Ok(x)
}

// ── Unsigned variants (u128) ─────────────────────────────────────────────────

/// `a + b` for unsigned integers, `Err(Overflow)` on wrap.
pub fn safe_add_u128(a: u128, b: u128) -> (r: Result<u128, MathError>)
    ensures
        r == unsigned_result(a + b),
{
    a.checked_add(b).ok_or(MathError::Overflow)
}

/// `a - b` for unsigned integers, `Err(Underflow)` on wrap.
pub fn safe_sub_u128(a: u128, b: u128) -> (r: Result<u128, MathError>)
    ensures
        r == unsigned_result(a - b),
{
    a.checked_sub(b).ok_or(MathError::Underflow)
}

/// `a * b` for unsigned integers, `Err(Overflow)` on wrap.
pub fn safe_mul_u128(a: u128, b: u128) -> (r: Result<u128, MathError>)
    ensures
        r == unsigned_result(a * b),
{
    proof {
        assert(a * b >= 0) by (nonlinear_arith);
    }
    a.checked_mul(b).ok_or(MathError::Overflow)
}

/// `a / b` for unsigned integers, `Err(DivisionByZero)` when `b = 0`.
pub fn safe_div_u128(a: u128, b: u128) -> (r: Result<u128, MathError>)
    ensures
        r == if b == 0 {
            Err(MathError::DivisionByZero)
        } else {
            Ok::<u128, MathError>(a / b)
        },
{
    if b == 0 {
        return Err(MathError::DivisionByZero);
    }
    Ok(a / b)
}

/// Integer square root for `u128`: the largest `r` with `r² ≤ n`, for every
/// `n`.
pub fn safe_sqrt_u128(n: u128) -> (r: u128)
    ensures
        is_floor_sqrt(r as int, n as int),
{
    if n == 0 {
        assert(is_floor_sqrt(0, 0));
        return 0;
    }
    let mut x = n;
    // The first Newton step from `n`, `(n + 1) / 2`, computed without `n + 1`.
    let mut y = n / 2 + n % 2;
    assert(y == (n + 1) / 2);
    assert(n / n == 1) by {
        vstd::arithmetic::div_mod::lemma_div_basics(n as int);
    }
    assert(n < (x + 1) * (x + 1)) by (nonlinear_arith)
        requires
            x == n,
            n >= 1,
    ;
    while y < x
        invariant
            1 <= n,
            1 <= x <= n,
            n < (x + 1) * (x + 1),
            y == (x + n / x) / 2,
        decreases x,
    {
        proof {
            lemma_newton_step(n as int, x as int);
        }
        x = y;
        assert(x >= 1) by (nonlinear_arith)
            requires
                n < (x + 1) * (x + 1),
                n >= 1,
                x >= 0,
        ;
        let q = n / x;
        assert(x * q <= n) by {
            vstd::arithmetic::div_mod::lemma_fundamental_div_mod(n as int, x as int);
            vstd::arithmetic::div_mod::lemma_mod_pos_bound(n as int, x as int);
        }
        assert(x + q <= n + 1) by (nonlinear_arith)
            requires
                x * q <= n,
                x >= 1,
                q >= 0,
                x <= n,
        ;
        if n >= 4 {
            assert(x >= 2) by (nonlinear_arith)
                requires
                    n < (x + 1) * (x + 1),
                    n >= 4,
                    x >= 0,
            ;
            if q >= 2 {
                assert(x + q <= x * q) by (nonlinear_arith)
                    requires
                        x >= 2,
                        q >= 2,
                ;
            }
            assert(x + q <= n);
        }
        let s = x + q;
        assert(s >> 1 == s / 2) by (bit_vector);
        y = s >> 1;
    }
    proof {
        lemma_newton_step(n as int, x as int);
    }
    x
}

// ── Basis-point helpers (BPS arithmetic, scale = 10 000) ────────────────────

/// `amount × bps / 10 000`, truncated toward zero, with the multiplication
/// checked.
pub fn bps_mul(amount: i128, bps: i128) -> (r: Result<i128, MathError>)
    ensures
        r == match signed_result(amount * bps) {
            Err(e) => Err(e),
            Ok(v) => Ok::<i128, MathError>(trunc_div(v as int, 10_000) as i128),
        },
{
    match safe_mul(amount, bps) {
        Err(e) => Err(e),
        Ok(v) => {
            proof {
                let m = if v >= 0 { v as int } else { -v };
                assert(m / 10_000 <= m) by {
                    vstd::arithmetic::div_mod::lemma_div_is_ordered_by_denominator(m, 1, 10_000);
                }
            }
            safe_div(v, 10_000)
        },
    }
}

/// `amount × bps / 10 000` for unsigned integers.
pub fn bps_mul_u128(amount: u128, bps: u128) -> (r: Result<u128, MathError>)
    ensures
        r == match unsigned_result(amount * bps) {
            Err(e) => Err(e),
            Ok(v) => Ok::<u128, MathError>(v / 10_000),
        },
{
    match safe_mul_u128(amount, bps) {
        Err(e) => Err(e),
        Ok(v) => safe_div_u128(v, 10_000),
    }
}

// ── Laws ────────────────────────────────────────────────────────────────────

/// Absolute value over unbounded integers.
pub open spec fn abs(v: int) -> int {
    if v >= 0 {
        v
    } else {
        -v
    }
}

proof fn lemma_power_abs(x: int, m: nat)
    requires
        x != 0,
    ensures
        abs(power(x, m)) >= 1,
        m >= 1 ==> abs(power(x, m)) >= abs(x),
    decreases m,
{
    if m > 0 {
        lemma_power_abs(x, (m - 1) as nat);
        let p = power(x, (m - 1) as nat);
        assert(abs(x * p) == abs(x) * abs(p)) by (nonlinear_arith);
        assert(abs(x) * abs(p) >= abs(x)) by (nonlinear_arith)
            requires
                abs(p) >= 1,
                abs(x) >= 1,
        ;
    }
}

proof fn lemma_power_of_nonneg(x: int, m: nat)
    requires
        x >= 0,
    ensures
        power(x, m) >= 0,
    decreases m,
{
    if m > 0 {
        lemma_power_of_nonneg(x, (m - 1) as nat);
        assert(x * power(x, (m - 1) as nat) >= 0) by (nonlinear_arith)
            requires
                x >= 0,
                power(x, (m - 1) as nat) >= 0,
        ;
    }
}

/// The outcome of computing `baseᵃ` and `baseᵇ` separately and multiplying
/// them with `safe_mul`, stopping at the first error.
pub open spec fn pow_then_mul(base: i128, a: nat, b: nat) -> Result<i128, MathError> {
    match pow_steps(1, base, a) {
        Err(e) => Err(e),
        Ok(pa) => match pow_steps(1, base, b) {
            Err(e) => Err(e),
            Ok(pb) => signed_result(pa * pb),
        },
    }
}

/// Adding exponents multiplies powers: `safe_pow(base, a + b)` succeeds exactly
/// when `safe_pow(base, a)`, `safe_pow(base, b)` and `safe_mul` of the two
/// results all succeed, with the same value; for a non-negative base the two
/// outcomes, errors included, are identical.
pub proof fn law_pow_additive_exponent(base: i128, a: nat, b: nat)
    ensures
        (pow_steps(1, base, a + b) is Ok) == (pow_then_mul(base, a, b) is Ok),
        pow_steps(1, base, a + b) is Ok ==> pow_steps(1, base, a + b) == pow_then_mul(base, a, b),
        base >= 0 ==> pow_steps(1, base, a + b) == pow_then_mul(base, a, b),
{
    lemma_pow_steps(1, base, a + b);
    lemma_pow_steps(1, base, a);
    lemma_pow_steps(1, base, b);
    lemma_power_add(base as int, a, b);
    let pa = power(base as int, a);
    let pb = power(base as int, b);
    let p = power(base as int, a + b);
    assert(1 * pa == pa && 1 * pb == pb && 1 * p == p);
    if base == 0 {
        if a > 0 {
            lemma_power_zero_base(a);
        }
        if b > 0 {
            lemma_power_zero_base(b);
        }
        if a + b > 0 {
            lemma_power_zero_base(a + b);
        }
        assert(pa * pb == p);
    } else {
        lemma_power_abs(base as int, a);
        lemma_power_abs(base as int, b);
        assert(abs(p) == abs(pa) * abs(pb)) by (nonlinear_arith)
            requires
                p == pa * pb,
        ;
        assert(abs(p) >= abs(pa) && abs(p) >= abs(pb)) by (nonlinear_arith)
            requires
                abs(p) == abs(pa) * abs(pb),
                abs(pa) >= 1,
                abs(pb) >= 1,
        ;
        if signed_result(p) is Ok {
            // Both factors fit: a factor of magnitude 2^127 would force the
            // other to be ±1, hence the base to be ±1.
            if !(signed_result(pa) is Ok) {
                assert(abs(pb) == 1) by (nonlinear_arith)
                    requires
                        abs(p) == abs(pa) * abs(pb),
                        abs(pa) >= 0x8000_0000_0000_0000_0000_0000_0000_0000,
                        abs(p) <= 0x8000_0000_0000_0000_0000_0000_0000_0000,
                        abs(pb) >= 1,
                ;
                if b >= 1 {
                    assert(abs(base as int) <= 1);
                    lemma_power_abs(base as int, a);
                    if base == 1 {
                        lemma_power_of_nonneg(1, a);
                        lemma_power_one(a);
                    } else {
                        lemma_power_minus_one(a);
                    }
                } else {
                    assert(pb == 1);
                }
                assert(false);
            }
            if !(signed_result(pb) is Ok) {
                assert(abs(pa) == 1) by (nonlinear_arith)
                    requires
                        abs(p) == abs(pa) * abs(pb),
                        abs(pb) >= 0x8000_0000_0000_0000_0000_0000_0000_0000,
                        abs(p) <= 0x8000_0000_0000_0000_0000_0000_0000_0000,
                        abs(pa) >= 1,
                ;
                if a >= 1 {
                    assert(abs(base as int) <= 1);
                    if base == 1 {
                        lemma_power_one(b);
                    } else {
                        lemma_power_minus_one(b);
                    }
                } else {
                    assert(pa == 1);
                }
                assert(false);
            }
        }
        if base > 0 {
            lemma_power_of_nonneg(base as int, a);
            lemma_power_of_nonneg(base as int, b);
            lemma_power_of_nonneg(base as int, a + b);
        }
    }
}

proof fn lemma_power_one(m: nat)
    ensures
        power(1, m) == 1,
    decreases m,
{
    if m > 0 {
        lemma_power_one((m - 1) as nat);
    }
}

proof fn lemma_power_minus_one(m: nat)
    ensures
        power(-1, m) == 1 || power(-1, m) == -1,
    decreases m,
{
    if m > 0 {
        lemma_power_minus_one((m - 1) as nat);
    }
}

/// A multiplication followed by an addition, each checked, never loses
/// precision silently: when `safe_mul(a, b)` yields `p`, `safe_add(p, c)` is
/// the exact `a·b + c` or reports which side of the range it left.
pub proof fn law_mul_then_add(a: i128, b: i128, c: i128)
    ensures
        signed_result(a * b) matches Ok(p) ==> signed_result(p + c) == signed_result(a * b + c),
{
}

/// Signed division fails with `Overflow` only for `i128::MIN / -1`; every
/// other non-zero divisor gives a quotient in range whose magnitude is at
/// most that of the dividend.
pub proof fn law_div_overflow_only_min_by_minus_one(a: i128, b: i128)
    requires
        b != 0,
    ensures
        (signed_result(trunc_div(a as int, b as int)) is Err) == (a == i128::MIN && b == -1),
        signed_result(trunc_div(a as int, b as int)) is Err ==> signed_result(
            trunc_div(a as int, b as int),
        ) == Err::<i128, MathError>(MathError::Overflow),
        abs(trunc_div(a as int, b as int)) <= abs(a as int),
{
    let m = abs(a as int);
    let d = abs(b as int);
    let q = m / d;
    assert(q <= m) by {
        vstd::arithmetic::div_mod::lemma_div_is_ordered_by_denominator(m, 1, d);
    }
    if d >= 2 {
        assert(q <= m / 2) by {
            vstd::arithmetic::div_mod::lemma_div_is_ordered_by_denominator(m, 2, d);
        }
    } else {
        assert(d == 1);
        assert(m / 1 == m);
    }
}

/// The floor square root is unique, so the contracts of `safe_sqrt` and
/// `safe_sqrt_u128` each pin their result, and the two agree on the
/// non-negative inputs they share.
pub proof fn law_floor_sqrt_unique(r1: int, r2: int, n: int)
    requires
        is_floor_sqrt(r1, n),
        is_floor_sqrt(r2, n),
    ensures
        r1 == r2,
{
    if r1 < r2 {
        assert((r1 + 1) * (r1 + 1) <= r2 * r2) by (nonlinear_arith)
            requires
                0 <= r1 < r2,
        ;
    } else if r2 < r1 {
        assert((r2 + 1) * (r2 + 1) <= r1 * r1) by (nonlinear_arith)
            requires
                0 <= r2 < r1,
        ;
    }
}

} // verus!
