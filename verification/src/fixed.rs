//! Fixed-point arithmetic.
//!
//! Every quantity of the camera (lengths, angles in radians, speeds, seconds)
//! is a signed integer that counts millionths: the integer `q` stands for the
//! number `q / ONE`. Products are rescaled by `ONE` and rounded toward zero, so
//! that negating an operand negates the result exactly.

use vstd::prelude::*;

verus! {

/// The integer that stands for the number one.
pub const ONE: i64 = 1_000_000;

/// The square of `ONE`: the scale of a product of two fixed-point numbers
/// that has not been rescaled.
pub const ONE_SQUARED: i64 = 1_000_000_000_000;

/// The absolute value of an integer.
pub open spec fn abs_int(x: int) -> int {
    if x < 0 {
        -x
    } else {
        x
    }
}

/// `x` limited to the interval from `lo` to `hi`.
pub open spec fn clamp_int(x: int, lo: int, hi: int) -> int {
    if x < lo {
        lo
    } else if x > hi {
        hi
    } else {
        x
    }
}

/// `x` limited to the range of `i64`.
pub open spec fn saturate(x: int) -> int {
    clamp_int(x, i64::MIN as int, i64::MAX as int)
}

/// The quotient of `n` by a positive `d`, rounded toward zero.
pub open spec fn trunc_div(n: int, d: int) -> int {
    if n >= 0 {
        n / d
    } else {
        -((-n) / d)
    }
}

/// The fixed-point product: `a * b / ONE`, rounded toward zero.
pub open spec fn mul_fx(a: int, b: int) -> int {
    trunc_div(a * b, ONE as int)
}

/// The fixed-point quotient: `a * ONE / b` for a positive `b`, rounded toward
/// zero.
pub open spec fn div_fx(a: int, b: int) -> int {
    trunc_div(a * ONE, b)
}

/// `r` is the integer square root of `n`: the largest integer whose square
/// does not exceed `n`.
pub open spec fn is_sqrt_of(r: int, n: int) -> bool {
    0 <= r && r * r <= n && n < (r + 1) * (r + 1)
}

/// The integer square root of a non-negative `n` (zero for a negative `n`).
pub closed spec fn isqrt(n: int) -> int {
    if n < 0 {
        0
    } else {
        choose|r: int| is_sqrt_of(r, n)
    }
}

/// Squares grow with their non-negative argument.
pub proof fn lemma_square_monotonic(a: int, b: int)
    requires
        0 <= a <= b,
    ensures
        a * a <= b * b,
{
    assert(a * a <= b * b) by (nonlinear_arith)
        requires
            0 <= a <= b,
    ;
}

/// At most one integer is the square root of `n`.
pub proof fn lemma_sqrt_unique(r: int, s: int, n: int)
    requires
        is_sqrt_of(r, n),
        is_sqrt_of(s, n),
    ensures
        r == s,
{
    if r < s {
        lemma_square_monotonic(r + 1, s);
    } else if s < r {
        lemma_square_monotonic(s + 1, r);
    }
}

/// Whatever integer meets `is_sqrt_of` for `n` is `isqrt(n)`.
pub proof fn lemma_isqrt_is(r: int, n: int)
    requires
        is_sqrt_of(r, n),
    ensures
        isqrt(n) == r,
{
    assert(r * r >= 0) by (nonlinear_arith);
    let c = choose|c: int| is_sqrt_of(c, n);
    lemma_sqrt_unique(c, r, n);
}

/// Every non-negative integer has an integer square root.
pub proof fn lemma_isqrt_exists(n: int)
    ensures
        0 <= isqrt(n),
        n >= 0 ==> is_sqrt_of(isqrt(n), n),
    decreases n,
{
    if n > 0 {
        lemma_isqrt_exists(n - 1);
        let r = isqrt(n - 1);
        if (r + 1) * (r + 1) <= n {
            assert(n < (r + 2) * (r + 2)) by (nonlinear_arith)
                requires
                    n - 1 < (r + 1) * (r + 1),
                    r >= 0,
            ;
            assert(is_sqrt_of(r + 1, n));
        } else {
            assert(is_sqrt_of(r, n));
        }
    } else if n == 0 {
        assert(is_sqrt_of(0, 0));
    }
}

/// The integer square root of a square is the magnitude of its root.
pub proof fn lemma_isqrt_square(x: int)
    ensures
        isqrt(x * x) == abs_int(x),
{
    let m = abs_int(x);
    assert(m * m == x * x) by (nonlinear_arith)
        requires
            m == x || m == -x,
    ;
    assert(m * m < (m + 1) * (m + 1)) by (nonlinear_arith)
        requires
            m >= 0,
    ;
    lemma_isqrt_is(m, x * x);
}

/// The magnitude of a fixed-point product is the truncated product of the
/// magnitudes.
pub proof fn lemma_mul_fx_abs(a: int, b: int)
    ensures
        abs_int(mul_fx(a, b)) == (abs_int(a) * abs_int(b)) / (ONE as int),
        (a >= 0 && b >= 0) || (a <= 0 && b <= 0) ==> mul_fx(a, b) >= 0,
        (a >= 0 && b <= 0) || (a <= 0 && b >= 0) ==> mul_fx(a, b) <= 0,
{
    let ma = abs_int(a);
    let mb = abs_int(b);
    assert(ma * mb >= 0) by (nonlinear_arith)
        requires
            ma >= 0,
            mb >= 0,
    ;
    assert(a * b == ma * mb || a * b == -(ma * mb)) by (nonlinear_arith)
        requires
            ma == a || ma == -a,
            mb == b || mb == -b,
    ;
    assert((a >= 0 && b >= 0) || (a <= 0 && b <= 0) ==> a * b >= 0) by (nonlinear_arith);
    assert((a >= 0 && b <= 0) || (a <= 0 && b >= 0) ==> a * b <= 0) by (nonlinear_arith);
}

/// A fixed-point product is bounded by the truncated product of bounds on its
/// operands.
pub proof fn lemma_mul_fx_bound(a: int, b: int, ma: int, mb: int)
    requires
        abs_int(a) <= ma,
        abs_int(b) <= mb,
    ensures
        abs_int(mul_fx(a, b)) <= (ma * mb) / (ONE as int),
{
    lemma_mul_fx_abs(a, b);
    let x = abs_int(a);
    let y = abs_int(b);
    assert(0 <= x * y <= ma * mb) by (nonlinear_arith)
        requires
            0 <= x <= ma,
            0 <= y <= mb,
    ;
    assert((x * y) / (ONE as int) <= (ma * mb) / (ONE as int)) by (nonlinear_arith)
        requires
            x * y <= ma * mb,
            ONE == 1_000_000,
    ;
}

/// Scaling by a factor of magnitude at most one does not grow a quantity.
pub proof fn lemma_mul_fx_unit(a: int, k: int)
    requires
        abs_int(k) <= ONE,
    ensures
        abs_int(mul_fx(a, k)) <= abs_int(a),
        abs_int(mul_fx(k, a)) <= abs_int(a),
{
    lemma_mul_fx_bound(a, k, abs_int(a), ONE as int);
    lemma_mul_fx_bound(k, a, ONE as int, abs_int(a));
    let x = abs_int(a);
    assert((x * ONE) / (ONE as int) == x && (ONE * x) / (ONE as int) == x) by (nonlinear_arith)
        requires
            ONE == 1_000_000,
    ;
}

/// Zero and one are the fixed-point product's absorbing and neutral factors.
pub proof fn lemma_mul_fx_zero_one(a: int)
    ensures
        mul_fx(a, 0) == 0,
        mul_fx(0, a) == 0,
        mul_fx(a, ONE as int) == a,
        mul_fx(ONE as int, a) == a,
{
    assert(a * 0 == 0 && 0 * a == 0) by (nonlinear_arith);
    assert(a * ONE == ONE * a) by (nonlinear_arith);
    assert((a * ONE) / (ONE as int) == a && (-(a * ONE)) / (ONE as int) == -a)
        by (nonlinear_arith)
        requires
            ONE == 1_000_000,
    ;
}

/// The square of a fixed-point product, brought back to the scale of the
/// plain product, is the square of the plain product less what rounding took:
/// less than `2 * |x| + 1` of the squared scale.
pub proof fn lemma_mul_fx_square(a: int, b: int)
    ensures
        mul_fx(a, b) * mul_fx(a, b) * ONE_SQUARED <= (a * a) * (b * b),
        (a * a) * (b * b) <= (mul_fx(a, b) * mul_fx(a, b) + 2 * abs_int(mul_fx(a, b)) + 1)
            * ONE_SQUARED,
{
    lemma_mul_fx_abs(a, b);
    let x = mul_fx(a, b);
    let q = abs_int(x);
    let p = abs_int(a) * abs_int(b);
    assert(p >= 0) by (nonlinear_arith)
        requires
            p == abs_int(a) * abs_int(b),
            abs_int(a) >= 0,
            abs_int(b) >= 0,
    ;
    assert(q == p / (ONE as int));
    assert(q * ONE <= p < (q + 1) * ONE);
    assert(p * p == (a * a) * (b * b)) by (nonlinear_arith)
        requires
            p == abs_int(a) * abs_int(b),
            abs_int(a) == a || abs_int(a) == -a,
            abs_int(b) == b || abs_int(b) == -b,
    ;
    assert(x * x == q * q) by (nonlinear_arith)
        requires
            q == x || q == -x,
    ;
    assert((q * ONE) * (q * ONE) <= p * p) by (nonlinear_arith)
        requires
            0 <= q * ONE <= p,
    ;
    assert(p * p <= ((q + 1) * ONE) * ((q + 1) * ONE)) by (nonlinear_arith)
        requires
            0 <= p <= (q + 1) * ONE,
    ;
    assert((q * ONE) * (q * ONE) == q * q * ONE_SQUARED) by (nonlinear_arith)
        requires
            ONE == 1_000_000,
            ONE_SQUARED == 1_000_000_000_000,
    ;
    assert(((q + 1) * ONE) * ((q + 1) * ONE) == (q * q + 2 * q + 1) * ONE_SQUARED)
        by (nonlinear_arith)
        requires
            ONE == 1_000_000,
            ONE_SQUARED == 1_000_000_000_000,
    ;
}

/// A fixed-point product, brought back to the scale of the plain product,
/// misses the plain product by less than one unit of the scale.
pub proof fn lemma_mul_fx_error(a: int, b: int)
    ensures
        abs_int(mul_fx(a, b) * ONE - a * b) < ONE,
{
    let p = a * b;
    if p >= 0 {
        assert(p == ONE * (p / (ONE as int)) + p % (ONE as int));
    } else {
        assert(-p == ONE * ((-p) / (ONE as int)) + (-p) % (ONE as int));
    }
}

/// A fixed-point quotient, multiplied by its divisor, misses the dividend at
/// the scale of the quotient by less than the divisor.
pub proof fn lemma_div_fx_error(a: int, len: int)
    requires
        len > 0,
    ensures
        abs_int(div_fx(a, len) * len - a * ONE) < len,
{
    let p = a * ONE;
    if p >= 0 {
        vstd::arithmetic::div_mod::lemma_fundamental_div_mod(p, len);
        vstd::arithmetic::div_mod::lemma_mod_bound(p, len);
        assert(len * (p / len) == (p / len) * len) by (nonlinear_arith);
    } else {
        vstd::arithmetic::div_mod::lemma_fundamental_div_mod(-p, len);
        vstd::arithmetic::div_mod::lemma_mod_bound(-p, len);
        assert(len * ((-p) / len) == ((-p) / len) * len) by (nonlinear_arith);
        assert((-((-p) / len)) * len == -(((-p) / len) * len)) by (nonlinear_arith);
    }
}

/// The product of two 64-bit integers fits in 128 bits.
pub proof fn lemma_product_fits(a: int, b: int)
    requires
        i64::MIN <= a <= i64::MAX,
        i64::MIN <= b <= i64::MAX,
    ensures
        -0x4000_0000_0000_0000_0000_0000_0000_0000 <= a * b
            <= 0x4000_0000_0000_0000_0000_0000_0000_0000,
{
    assert(-0x4000_0000_0000_0000_0000_0000_0000_0000 <= a * b
        <= 0x4000_0000_0000_0000_0000_0000_0000_0000) by (nonlinear_arith)
        requires
            -0x8000_0000_0000_0000 <= a <= 0x8000_0000_0000_0000,
            -0x8000_0000_0000_0000 <= b <= 0x8000_0000_0000_0000,
    ;
}

/// `x` limited to the interval from `lo` to `hi`.
pub fn clamp(x: i64, lo: i64, hi: i64) -> (r: i64)
    ensures
        r == clamp_int(x as int, lo as int, hi as int),
{
    if x < lo {
        lo
    } else if x > hi {
        hi
    } else {
        x
    }
}

/// A 128-bit integer limited to the range of `i64`.
pub fn saturate_i128(x: i128) -> (r: i64)
    ensures
        r == saturate(x as int),
{
    if x > i64::MAX as i128 {
        i64::MAX
    } else if x < i64::MIN as i128 {
        i64::MIN
    } else {
        x as i64
    }
}

/// The fixed-point product of `a` and `b`, limited to the range of `i64`.
pub fn fx_mul(a: i64, b: i64) -> (r: i64)
    ensures
        r == saturate(mul_fx(a as int, b as int)),
{
    proof {
        lemma_product_fits(a as int, b as int);
    }
    let p: i128 = (a as i128) * (b as i128);
    saturate_i128(p / (ONE as i128))
}

/// The integer square root of `n`.
pub fn int_sqrt(n: u128) -> (r: u64)
    ensures
        is_sqrt_of(r as int, n as int),
        r == isqrt(n as int),
{
    let mut lo: u128 = 0;
    let mut hi: u128 = 0x1_0000_0000_0000_0000;
    assert(n < hi * hi) by (nonlinear_arith)
        requires
            n <= u128::MAX,
            hi == 0x1_0000_0000_0000_0000,
    ;
    while hi - lo > 1
        invariant
            lo < hi <= 0x1_0000_0000_0000_0000,
            lo * lo <= n,
            n < hi * hi,
        decreases hi - lo,
    {
        let mid: u128 = lo + (hi - lo) / 2;
        assert(mid * mid <= u128::MAX) by (nonlinear_arith)
            requires
                mid < 0x1_0000_0000_0000_0000,
        ;
        if mid * mid <= n {
            lo = mid;
        } else {
            hi = mid;
        }
    }
    proof {
        lemma_isqrt_is(lo as int, n as int);
    }
    lo as u64
}

} // verus!
