//! Fixed-point scalars.
//!
//! A scalar is an `i64` that stands for `raw / SCALE`. Every operation
//! saturates to `[-LIMIT, LIMIT]`, which plays the part of the infinities,
//! and divisions truncate toward zero.
use vstd::prelude::*;
use vstd::arithmetic::div_mod::{lemma_div_is_ordered, lemma_div_pos_is_pos};
use vstd::arithmetic::mul::lemma_mul_inequality;

verus! {

/// Number of raw steps in one unit.
pub const SCALE: i64 = 1_000_000;

/// Largest magnitude of a raw scalar; it stands for infinity.
pub const LIMIT: i64 = 10_000_000_000_000;

/// The raw value of one unit.
pub const ONE: i64 = 1_000_000;

/// Saturation of a mathematical integer into the representable range.
pub open spec fn sat(v: int) -> int {
    if v > LIMIT {
        LIMIT as int
    } else if v < -LIMIT {
        -LIMIT
    } else {
        v
    }
}

pub open spec fn abs(v: int) -> int {
    if v < 0 {
        -v
    } else {
        v
    }
}

/// Division truncating toward zero.
pub open spec fn tdiv(n: int, d: int) -> int {
    if (n >= 0) == (d > 0) {
        abs(n) / abs(d)
    } else {
        -(abs(n) / abs(d))
    }
}

pub open spec fn in_range(v: int) -> bool {
    -LIMIT <= v <= LIMIT
}

pub open spec fn sum(a: int, b: int) -> int {
    sat(a + b)
}

pub open spec fn diff(a: int, b: int) -> int {
    sat(a - b)
}

pub open spec fn prod(a: int, b: int) -> int {
    sat(tdiv(a * b, SCALE as int))
}

/// Quotient; a division by zero saturates by the sign of the dividend, as
/// a float division gives an infinity, and `0 / 0` is zero.
pub open spec fn quot(a: int, b: int) -> int {
    if b == 0 {
        if a > 0 {
            LIMIT as int
        } else if a < 0 {
            -LIMIT
        } else {
            0
        }
    } else {
        sat(tdiv(a * SCALE, b))
    }
}

/// `r` is the integer square root of `n`.
pub open spec fn is_isqrt(n: int, r: int) -> bool {
    0 <= r && r * r <= n < (r + 1) * (r + 1)
}

/// The square root of a scalar, on the fixed-point grid.
pub open spec fn root(a: int) -> int {
    if a <= 0 {
        0
    } else {
        int_sqrt(a * SCALE)
    }
}

/// Every non-negative integer has an integer square root.
pub proof fn lemma_isqrt_exists(n: int)
    requires
        n >= 0,
    ensures
        exists|r: int| #[trigger] is_isqrt(n, r),
    decreases n,
{
    if n == 0 {
        assert(is_isqrt(0, 0));
    } else {
        lemma_isqrt_exists(n - 1);
        let r = choose|r: int| #[trigger] is_isqrt(n - 1, r);
        if n < (r + 1) * (r + 1) {
            assert(is_isqrt(n, r));
        } else {
            assert((r + 1) * (r + 1) <= n < (r + 2) * (r + 2)) by (nonlinear_arith)
                requires
                    n == (r + 1) * (r + 1),
                    r >= 0,
            ;
            assert(is_isqrt(n, r + 1));
        }
    }
}

/// The square root of a scalar is never negative.
pub proof fn lemma_root_nonneg(a: int)
    ensures
        root(a) >= 0,
{
    if a > 0 {
        assert(a * SCALE >= 0) by (nonlinear_arith)
            requires
                a > 0,
                SCALE > 0,
        ;
        lemma_int_sqrt(a * SCALE);
    }
}

pub proof fn lemma_isqrt_unique(n: int, r1: int, r2: int)
    requires
        is_isqrt(n, r1),
        is_isqrt(n, r2),
    ensures
        r1 == r2,
{
    if r1 < r2 {
        assert((r1 + 1) * (r1 + 1) <= r2 * r2) by (nonlinear_arith)
            requires
                0 <= r1 + 1 <= r2,
        ;
    } else if r2 < r1 {
        assert((r2 + 1) * (r2 + 1) <= r1 * r1) by (nonlinear_arith)
            requires
                0 <= r2 + 1 <= r1,
        ;
    }
}

/// Truncating division by a positive number keeps the order.
pub proof fn lemma_tdiv_monotone(n1: int, n2: int, d: int)
    requires
        n1 <= n2,
        d > 0,
    ensures
        tdiv(n1, d) <= tdiv(n2, d),
{
    if n1 >= 0 {
        lemma_div_is_ordered(n1, n2, d);
    } else if n2 < 0 {
        lemma_div_is_ordered(abs(n2), abs(n1), d);
    } else {
        lemma_div_pos_is_pos(abs(n1), d);
        lemma_div_pos_is_pos(n2, d);
    }
}

/// A quotient by a non-negative scalar keeps the order of the dividends.
pub proof fn lemma_quot_monotone(n1: int, n2: int, d: int)
    requires
        n1 <= n2,
        d >= 0,
    ensures
        quot(n1, d) <= quot(n2, d),
{
    if d > 0 {
        lemma_mul_inequality(n1, n2, SCALE as int);
        lemma_tdiv_monotone(n1 * SCALE, n2 * SCALE, d);
    }
}

/// A non-negative scalar divided by a positive one stays non-negative.
pub proof fn lemma_quot_nonneg(a: int, d: int)
    requires
        a >= 0,
        d > 0,
    ensures
        quot(a, d) >= 0,
{
    assert(a * SCALE >= 0) by (nonlinear_arith)
        requires
            a >= 0,
            SCALE > 0,
    ;
    lemma_div_pos_is_pos(a * SCALE, d);
}

/// Rounding a non-negative number down to a multiple never increases it.
pub proof fn lemma_div_mul_le(n: int, d: int)
    requires
        n >= 0,
        d > 0,
    ensures
        (n / d) * d <= n,
{
    vstd::arithmetic::div_mod::lemma_fundamental_div_mod(n, d);
    vstd::arithmetic::div_mod::lemma_mod_pos_bound(n, d);
    assert((n / d) * d <= n) by (nonlinear_arith)
        requires
            n == d * (n / d) + n % d,
            0 <= n % d,
    ;
}

/// The product of a scalar with itself is not negative.
pub proof fn lemma_square_nonneg(a: int)
    ensures
        prod(a, a) >= 0,
{
    assert(a * a >= 0) by (nonlinear_arith);
    lemma_div_pos_is_pos(a * a, SCALE as int);
}

/// A product with a factor in `[0, 1]` stays between zero and the other
/// factor.
pub proof fn lemma_prod_le(v: int, a: int)
    requires
        0 <= v,
        in_range(v),
        0 <= a <= ONE,
    ensures
        0 <= prod(v, a) <= v,
{
    assert(0 <= v * a <= v * ONE) by (nonlinear_arith)
        requires
            0 <= v,
            0 <= a <= ONE,
    ;
    assert(tdiv(v * a, SCALE as int) == (v * a) / (SCALE as int));
    assert((v * a) / (SCALE as int) <= v) by (nonlinear_arith)
        requires
            0 <= v * a <= v * ONE,
            ONE == 1_000_000,
            SCALE == 1_000_000,
    ;
    assert(0 <= (v * a) / (SCALE as int)) by (nonlinear_arith)
        requires
            0 <= v * a,
            ONE == 1_000_000,
            SCALE == 1_000_000,
    ;
}

pub proof fn lemma_sat_in_range(v: int)
    ensures
        in_range(sat(v)),
        in_range(v) ==> sat(v) == v,
{
}

fn saturate(v: i128) -> (r: i64)
    ensures
        r == sat(v as int),
{
    if v > LIMIT as i128 {
        LIMIT
    } else if v < -(LIMIT as i128) {
        -LIMIT
    } else {
        v as i64
    }
}

/// Truncating division of wide integers.
fn div_trunc(n: i128, d: i128) -> (r: i128)
    requires
        d != 0,
        n > i128::MIN,
        d > i128::MIN,
    ensures
        r == tdiv(n as int, d as int),
{
    let un: u128 = if n < 0 {
        (-n) as u128
    } else {
        n as u128
    };
    let ud: u128 = if d < 0 {
        (-d) as u128
    } else {
        d as u128
    };
    let q: u128 = un / ud;
    proof {
        assert(q <= un) by (nonlinear_arith)
            requires
                q == un / ud,
                ud >= 1,
        ;
    }
    if (n >= 0) == (d > 0) {
        q as i128
    } else {
        -(q as i128)
    }
}

proof fn lemma_wide_product(a: int, b: int)
    requires
        -0x8000_0000_0000_0000 <= a < 0x8000_0000_0000_0000,
        -0x8000_0000_0000_0000 <= b < 0x8000_0000_0000_0000,
    ensures
        -0x4000_0000_0000_0000_0000_0000_0000_0000 <= a * b <= 0x4000_0000_0000_0000_0000_0000_0000_0000,
{
    assert(abs(a) <= 0x8000_0000_0000_0000);
    assert(abs(b) <= 0x8000_0000_0000_0000);
    assert(abs(a) * abs(b) <= 0x8000_0000_0000_0000 * 0x8000_0000_0000_0000) by (nonlinear_arith)
        requires
            0 <= abs(a) <= 0x8000_0000_0000_0000,
            0 <= abs(b) <= 0x8000_0000_0000_0000,
    ;
    assert(abs(a * b) == abs(a) * abs(b)) by (nonlinear_arith)
        requires
            abs(a) == (if a < 0 { -a } else { a }),
            abs(b) == (if b < 0 { -b } else { b }),
            abs(a * b) == (if a * b < 0 { -(a * b) } else { a * b }),
    ;
}

/// Saturating addition.
pub fn add_fx(a: i64, b: i64) -> (r: i64)
    ensures
        r == sum(a as int, b as int),
{
    saturate(a as i128 + b as i128)
}

/// Saturating subtraction.
pub fn sub_fx(a: i64, b: i64) -> (r: i64)
    ensures
        r == diff(a as int, b as int),
{
    saturate(a as i128 - b as i128)
}

/// Saturating product of two scalars.
pub fn mul_fx(a: i64, b: i64) -> (r: i64)
    ensures
        r == prod(a as int, b as int),
{
    proof {
        lemma_wide_product(a as int, b as int);
    }
    let p: i128 = a as i128 * b as i128;
    saturate(div_trunc(p, SCALE as i128))
}

/// Saturating quotient of two scalars.
pub fn div_fx(a: i64, b: i64) -> (r: i64)
    ensures
        r == quot(a as int, b as int),
{
    if b == 0 {
        return if a > 0 {
            LIMIT
        } else if a < 0 {
            -LIMIT
        } else {
            0
        };
    }
    proof {
        lemma_wide_product(a as int, SCALE as int);
    }
    let n: i128 = a as i128 * SCALE as i128;
    saturate(div_trunc(n, b as i128))
}

/// Integer square root by bisection.
fn isqrt(n: u128) -> (r: u128)
    ensures
        is_isqrt(n as int, r as int),
        r < 0x1_0000_0000_0000_0000,
{
    let mut lo: u128 = 0;
    let mut hi: u128 = 0x1_0000_0000_0000_0000;
    proof {
        assert(0x1_0000_0000_0000_0000 * 0x1_0000_0000_0000_0000 > u128::MAX) by (nonlinear_arith);
    }
    while hi - lo > 1
        invariant
            lo < hi <= 0x1_0000_0000_0000_0000,
            lo * lo <= n,
            n < hi * hi,
        decreases hi - lo,
    {
        let mid: u128 = lo + (hi - lo) / 2;
        proof {
            assert(mid * mid < 0x1_0000_0000_0000_0000 * 0x1_0000_0000_0000_0000) by (nonlinear_arith)
                requires
                    mid < 0x1_0000_0000_0000_0000,
            ;
        }
        if mid * mid <= n {
            lo = mid;
        } else {
            hi = mid;
        }
    }
    lo
}

/// The Euclidean length of the raw vector `(x, y, z)`, rounded down and
/// saturated: a scalar, since raw values share one scale.
pub open spec fn norm(x: int, y: int, z: int) -> int {
    sat(int_sqrt(x * x + y * y + z * z))
}

/// The integer square root of a non-negative integer.
pub open spec fn int_sqrt(n: int) -> int {
    choose|r: int| #[trigger] is_isqrt(n, r)
}

/// `int_sqrt` is the integer square root.
pub proof fn lemma_int_sqrt(n: int)
    requires
        n >= 0,
    ensures
        is_isqrt(n, int_sqrt(n)),
{
    lemma_isqrt_exists(n);
}

fn abs_wide(x: i64) -> (r: u128)
    ensures
        r == abs(x as int),
{
    if x < 0 {
        (-(x as i128)) as u128
    } else {
        x as u128
    }
}

/// Length of a raw vector, computed on the exact sum of squares.
pub fn norm_fx(x: i64, y: i64, z: i64) -> (r: i64)
    ensures
        r == norm(x as int, y as int, z as int),
        0 <= r <= LIMIT,
{
    let ax = abs_wide(x);
    let ay = abs_wide(y);
    let az = abs_wide(z);
    proof {
        assert(ax * ax <= 0x4000_0000_0000_0000_0000_0000_0000_0000) by (nonlinear_arith)
            requires
                ax <= 0x8000_0000_0000_0000,
        ;
        assert(ay * ay <= 0x4000_0000_0000_0000_0000_0000_0000_0000) by (nonlinear_arith)
            requires
                ay <= 0x8000_0000_0000_0000,
        ;
        assert(az * az <= 0x4000_0000_0000_0000_0000_0000_0000_0000) by (nonlinear_arith)
            requires
                az <= 0x8000_0000_0000_0000,
        ;
        assert(x * x == ax * ax && y * y == ay * ay && z * z == az * az) by (nonlinear_arith)
            requires
                ax == abs(x as int),
                ay == abs(y as int),
                az == abs(z as int),
                abs(x as int) == (if x < 0 { -x } else { x as int }),
                abs(y as int) == (if y < 0 { -y } else { y as int }),
                abs(z as int) == (if z < 0 { -z } else { z as int }),
        ;
    }
    let n: u128 = ax * ax + ay * ay + az * az;
    let r = isqrt(n);
    proof {
        lemma_int_sqrt(n as int);
        lemma_isqrt_unique(n as int, int_sqrt(n as int), r as int);
    }
    if r > LIMIT as u128 {
        LIMIT
    } else {
        r as i64
    }
}

/// Square root of a scalar; a negative argument gives zero.
pub fn sqrt_fx(a: i64) -> (r: i64)
    ensures
        r == root(a as int),
        0 <= r <= LIMIT,
{
    if a <= 0 {
        0
    } else {
        proof {
            assert(a * SCALE <= 10_000_000_000_000_000_000_000_000) by (nonlinear_arith)
                requires
                    0 < a < 0x8000_0000_0000_0000,
                    SCALE == 1_000_000,
            ;
        }
        let n: u128 = (a as u128) * (SCALE as u128);
        let r = isqrt(n);
        proof {
            lemma_int_sqrt(a * SCALE);
            lemma_isqrt_unique(a * SCALE, int_sqrt(a * SCALE), r as int);
            assert(r <= 4_000_000_000_000) by (nonlinear_arith)
                requires
                    r * r <= n,
                    n <= 10_000_000_000_000_000_000_000_000,
            ;
        }
        r as i64
    }
}

} // verus!
