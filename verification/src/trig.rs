//! Angles and trigonometry in fixed point.
//!
//! Angles are millionths of a radian. On one quadrant the smaller of sine and
//! cosine is a truncated power series and the larger is what the smaller
//! leaves of the unit circle, so that the two always make a point on the
//! circle; the quadrant is folded onto the full turn by symmetry. The inverse
//! tangent is an odd polynomial on one octant, unfolded likewise. The
//! specification functions below are the definitions of these approximations;
//! what is proved of them is their range, their symmetry, their period, their
//! values on the axes, and that sine and cosine make a point of the unit
//! circle.

use vstd::prelude::*;
use crate::fixed::{
    ONE, ONE_SQUARED, abs_int, clamp_int, isqrt, int_sqrt, clamp, lemma_isqrt_exists,
    lemma_isqrt_is, lemma_square_monotonic,
};

verus! {

/// One degree.
pub const DEGREE: i64 = 17_453;

/// An eighth of a turn.
pub const QUARTER_PI: i64 = 785_398;

/// A quarter turn, in millionths of a radian.
pub const HALF_PI: i64 = 1_570_796;

/// A half turn: twice `HALF_PI`, so that quadrants fold onto each other
/// exactly.
pub const PI: i64 = 3_141_592;

/// A full turn.
pub const TWO_PI: i64 = 6_283_184;

/// The angle congruent to `a` modulo a full turn that lies in `[-PI, PI)`.
pub open spec fn wrap_angle(a: int) -> int {
    (a + PI) % (TWO_PI as int) - PI
}

/// One step of a power series in nested form: `1 - x2 * t / k`.
pub open spec fn series_step(x2: int, t: int, k: int) -> int {
    ONE - (x2 * t) / (k * ONE)
}

/// The sine's power series at an angle `r` of the first quadrant,
/// `0 <= r <= HALF_PI`: the series `r - r^3/3! + r^5/5! - ... - r^11/11!`, capped at one.
pub open spec fn sin_series(r: int) -> int {
    let x2 = r * r / (ONE as int);
    let t = series_step(
        x2,
        series_step(
            x2,
            series_step(x2, series_step(x2, series_step(x2, ONE as int, 110), 72), 42),
            20,
        ),
        6,
    );
    let s = r * t / (ONE as int);
    if s > ONE {
        ONE as int
    } else {
        s
    }
}

/// The cosine's power series at an angle `r` of the first quadrant,
/// `0 <= r <= HALF_PI`: the series `1 - r^2/2! + r^4/4! - ... + r^12/12!`, floored at zero.
pub open spec fn cos_series(r: int) -> int {
    let x2 = r * r / (ONE as int);
    let t = series_step(
        x2,
        series_step(
            x2,
            series_step(
                x2,
                series_step(x2, series_step(x2, series_step(x2, ONE as int, 132), 90), 56),
                30,
            ),
            12,
        ),
        2,
    );
    if t < 0 {
        0
    } else {
        t
    }
}

/// The sine of an angle `r` of the first quadrant, `0 <= r <= HALF_PI`. Up
/// to an eighth of a turn it is the sine's series; beyond, it is what the
/// cosine's series leaves of the unit circle.
pub open spec fn sin_quadrant(r: int) -> int {
    if r <= QUARTER_PI {
        sin_series(r)
    } else {
        isqrt(ONE_SQUARED - cos_series(r) * cos_series(r))
    }
}

/// The cosine of an angle `r` of the first quadrant, `0 <= r <= HALF_PI`.
/// Beyond an eighth of a turn it is the cosine's series; up to there, it is
/// what the sine's series leaves of the unit circle.
pub open spec fn cos_quadrant(r: int) -> int {
    if r <= QUARTER_PI {
        isqrt(ONE_SQUARED - sin_series(r) * sin_series(r))
    } else {
        cos_series(r)
    }
}

/// The sine of any angle.
pub open spec fn sin_fx(a: int) -> int {
    let w = wrap_angle(a);
    let m = abs_int(w);
    let r = if m > HALF_PI {
        PI - m
    } else {
        m
    };
    if w < 0 {
        -sin_quadrant(r)
    } else {
        sin_quadrant(r)
    }
}

/// The cosine of any angle.
pub open spec fn cos_fx(a: int) -> int {
    let m = abs_int(wrap_angle(a));
    if m > HALF_PI {
        -cos_quadrant(PI - m)
    } else {
        cos_quadrant(m)
    }
}

/// One step of the inverse tangent's polynomial in nested form:
/// `c - t2 * s`.
pub open spec fn atan_step(c: int, t2: int, s: int) -> int {
    c - (t2 * s) / (ONE as int)
}

/// The inverse tangent of a ratio `t` of the first octant, `0 <= t <= ONE`:
/// an odd polynomial of degree eleven, capped at an eighth of a turn.
pub open spec fn atan_unit(t: int) -> int {
    let t2 = t * t / (ONE as int);
    let s = atan_step(
        999_977,
        t2,
        atan_step(
            332_623,
            t2,
            atan_step(193_543, t2, atan_step(116_433, t2, atan_step(52_653, t2, 11_721))),
        ),
    );
    let a = t * s / (ONE as int);
    if a > QUARTER_PI {
        QUARTER_PI as int
    } else {
        a
    }
}

/// The angle of the point `(x, y)` from the positive x axis, in `[-PI, PI]`;
/// zero for the origin.
pub open spec fn atan2_fx(y: int, x: int) -> int {
    let ay = abs_int(y);
    let ax = abs_int(x);
    if ay == 0 && ax == 0 {
        0
    } else {
        let a = if ay <= ax {
            atan_unit(ay * ONE / ax)
        } else {
            HALF_PI - atan_unit(ax * ONE / ay)
        };
        let b = if x < 0 {
            PI - a
        } else {
            a
        };
        if y < 0 {
            -b
        } else {
            b
        }
    }
}

/// The inverse sine of `y`, taken as limited to `[-ONE, ONE]`: the angle of the
/// point on the unit circle's right half whose height is `y`.
pub open spec fn asin_fx(y: int) -> int {
    let c = clamp_int(y, -(ONE as int), ONE as int);
    atan2_fx(c, isqrt(ONE * ONE - c * c))
}

/// A series step stays between zero and one where the series converges.
pub proof fn lemma_series_step_range(x2: int, t: int, k: int)
    requires
        0 <= x2 <= 2_467_400,
        0 <= t <= ONE,
        2 <= k,
    ensures
        series_step(x2, t, k) <= ONE,
        k >= 3 ==> 0 < series_step(x2, t, k),
        x2 == 0 ==> series_step(x2, t, k) == ONE,
{
    let d = k * ONE;
    if x2 == 0 {
        assert(x2 * t == 0) by (nonlinear_arith)
            requires
                x2 == 0,
        ;
    }
    assert(0 <= x2 * t <= 2_467_400 * ONE) by (nonlinear_arith)
        requires
            0 <= x2 <= 2_467_400,
            0 <= t <= ONE,
    ;
    assert(0 <= (x2 * t) / d) by (nonlinear_arith)
        requires
            0 <= x2 * t,
            d > 0,
    ;
    if k >= 3 {
        assert((x2 * t) / d < ONE) by (nonlinear_arith)
            requires
                0 <= x2 * t <= 2_467_400 * ONE,
                d >= 3 * ONE,
                ONE == 1_000_000,
        ;
    }
}

/// The quadrant's sine lies between zero and one, and is zero at zero.
pub proof fn lemma_sin_series_range(r: int)
    requires
        0 <= r <= HALF_PI,
    ensures
        0 <= sin_series(r) <= ONE,
        sin_series(r) <= r,
        r == 0 ==> sin_series(r) == 0,
{
    let x2 = r * r / (ONE as int);
    assert(0 <= r * r <= 1_570_796 * 1_570_796) by (nonlinear_arith)
        requires
            0 <= r <= 1_570_796,
    ;
    let t5 = series_step(x2, ONE as int, 110);
    lemma_series_step_range(x2, ONE as int, 110);
    let t4 = series_step(x2, t5, 72);
    lemma_series_step_range(x2, t5, 72);
    let t3 = series_step(x2, t4, 42);
    lemma_series_step_range(x2, t4, 42);
    let t2 = series_step(x2, t3, 20);
    lemma_series_step_range(x2, t3, 20);
    let t1 = series_step(x2, t2, 6);
    lemma_series_step_range(x2, t2, 6);
    assert(0 <= r * t1 <= r * ONE) by (nonlinear_arith)
        requires
            0 <= r,
            0 <= t1 <= ONE,
    ;
    if r == 0 {
        assert(r * t1 == 0) by (nonlinear_arith)
            requires
                r == 0,
        ;
    }
}

/// The quadrant's cosine lies between zero and one, and is one at zero.
pub proof fn lemma_cos_series_range(r: int)
    requires
        0 <= r <= HALF_PI,
    ensures
        0 <= cos_series(r) <= ONE,
        r == 0 ==> cos_series(r) == ONE,
{
    let x2 = r * r / (ONE as int);
    assert(0 <= r * r <= 1_570_796 * 1_570_796) by (nonlinear_arith)
        requires
            0 <= r <= 1_570_796,
    ;
    let t6 = series_step(x2, ONE as int, 132);
    lemma_series_step_range(x2, ONE as int, 132);
    let t5 = series_step(x2, t6, 90);
    lemma_series_step_range(x2, t6, 90);
    let t4 = series_step(x2, t5, 56);
    lemma_series_step_range(x2, t5, 56);
    let t3 = series_step(x2, t4, 30);
    lemma_series_step_range(x2, t4, 30);
    let t2 = series_step(x2, t3, 12);
    lemma_series_step_range(x2, t3, 12);
    let t1 = series_step(x2, t2, 2);
    lemma_series_step_range(x2, t2, 2);
    if r == 0 {
        assert(r * r == 0) by (nonlinear_arith)
            requires
                r == 0,
        ;
    }
}

/// What a coordinate between zero and one leaves of the unit circle lies
/// between zero and one too, and the squares of the two add up to one, less
/// at most what rounding the root down takes.
pub proof fn lemma_rest_of_unit(a: int)
    requires
        0 <= a <= ONE,
    ensures
        0 <= isqrt(ONE_SQUARED - a * a) <= ONE,
        ONE_SQUARED - 2 * ONE - 1 <= a * a + isqrt(ONE_SQUARED - a * a) * isqrt(
            ONE_SQUARED - a * a,
        ) <= ONE_SQUARED,
        a == 0 ==> isqrt(ONE_SQUARED - a * a) == ONE,
        a == ONE ==> isqrt(ONE_SQUARED - a * a) == 0,
{
    assert(0 <= a * a <= ONE * ONE) by (nonlinear_arith)
        requires
            0 <= a <= ONE,
    ;
    assert(ONE * ONE == ONE_SQUARED);
    let n = ONE_SQUARED - a * a;
    lemma_isqrt_exists(n);
    let b = isqrt(n);
    if b > ONE {
        lemma_square_monotonic(ONE as int + 1, b);
    }
    assert((b + 1) * (b + 1) == b * b + 2 * b + 1) by (nonlinear_arith);
    if a == 0 {
        lemma_isqrt_is(ONE as int, n);
    }
    if a == ONE {
        assert(a * a == ONE * ONE);
        lemma_isqrt_is(0, n);
    }
}

/// Sine and cosine of an angle of the first quadrant lie between zero and
/// one, and the point they make lies on the unit circle: their squares add up
/// to one, less at most `2 * ONE + 1` of the squared scale.
pub proof fn lemma_quadrant(r: int)
    requires
        0 <= r <= HALF_PI,
    ensures
        0 <= sin_quadrant(r) <= ONE,
        0 <= cos_quadrant(r) <= ONE,
        r == 0 ==> sin_quadrant(r) == 0 && cos_quadrant(r) == ONE,
        ONE_SQUARED - 2 * ONE - 1 <= sin_quadrant(r) * sin_quadrant(r) + cos_quadrant(r)
            * cos_quadrant(r) <= ONE_SQUARED,
{
    lemma_sin_series_range(r);
    lemma_cos_series_range(r);
    if r <= QUARTER_PI {
        lemma_rest_of_unit(sin_series(r));
    } else {
        lemma_rest_of_unit(cos_series(r));
    }
}

/// The sine and cosine of any angle make a point on the unit circle: their
/// squares add up to one, less at most `2 * ONE + 1` of the squared scale.
pub proof fn lemma_unit_circle(a: int)
    ensures
        ONE_SQUARED - 2 * ONE - 1 <= sin_fx(a) * sin_fx(a) + cos_fx(a) * cos_fx(a) <= ONE_SQUARED,
{
    let m = abs_int(wrap_angle(a));
    let r = if m > HALF_PI {
        PI - m
    } else {
        m
    };
    lemma_quadrant(r);
    let s = sin_quadrant(r);
    let c = cos_quadrant(r);
    assert((-s) * (-s) == s * s && (-c) * (-c) == c * c) by (nonlinear_arith);
}

/// Sine and cosine of any angle lie between minus one and one.
pub proof fn lemma_sin_cos_range(a: int)
    ensures
        -ONE <= sin_fx(a) <= ONE,
        -ONE <= cos_fx(a) <= ONE,
{
    let m = abs_int(wrap_angle(a));
    if m > HALF_PI {
        lemma_quadrant(PI - m);
    } else {
        lemma_quadrant(m);
    }
}

/// At the angle zero the sine is zero and the cosine is one.
pub proof fn lemma_sin_cos_zero()
    ensures
        sin_fx(0) == 0,
        cos_fx(0) == ONE,
{
    assert(wrap_angle(0) == 0);
    lemma_quadrant(0);
}

/// On a stretch of squared angles from `lo` to `hi`, the last three steps of
/// the cosine's series stay above a bound that the stretch alone decides.
proof fn lemma_cos_tail_bound(x: int, t4: int, lo: int, hi: int)
    requires
        0 <= lo <= x <= hi <= 2_467_400,
        0 <= t4 <= ONE,
    ensures
        series_step(x, series_step(x, series_step(x, t4, 30), 12), 2) >= ONE - (hi * (ONE - (lo * (
            ONE - hi / 30)) / (12 * ONE))) / (2 * ONE),
{
    let t3 = series_step(x, t4, 30);
    let a = ONE - hi / 30;
    assert(0 <= x * t4 <= hi * ONE) by (nonlinear_arith)
        requires
            0 <= x <= hi,
            0 <= t4 <= ONE,
    ;
    assert((x * t4) / (30 * ONE) <= hi / 30) by (nonlinear_arith)
        requires
            0 <= x * t4 <= hi * ONE,
            ONE == 1_000_000,
    ;
    assert(t3 >= a);
    let t2 = series_step(x, t3, 12);
    assert(x * t3 >= lo * a) by (nonlinear_arith)
        requires
            0 <= lo <= x,
            0 <= a <= t3,
    ;
    let b = ONE - (lo * a) / (12 * ONE);
    assert((x * t3) / (12 * ONE) >= (lo * a) / (12 * ONE)) by (nonlinear_arith)
        requires
            x * t3 >= lo * a,
            ONE == 1_000_000,
    ;
    assert(t2 <= b);
    assert(0 <= lo * a <= 2_467_400 * ONE) by (nonlinear_arith)
        requires
            0 <= lo <= 2_467_400,
            0 <= a <= ONE,
    ;
    assert(x * t2 <= hi * b) by (nonlinear_arith)
        requires
            0 <= x <= hi,
            t2 <= b,
            0 <= b,
    ;
    assert((x * t2) / (2 * ONE) <= (hi * b) / (2 * ONE)) by (nonlinear_arith)
        requires
            x * t2 <= hi * b,
            ONE == 1_000_000,
    ;
}

/// More than a degree short of a quarter turn, the quadrant's cosine is at
/// least a hundredth.
pub proof fn lemma_cos_series_positive(r: int)
    requires
        0 <= r <= HALF_PI - DEGREE,
    ensures
        cos_series(r) >= 10_000,
{
    let x = r * r / (ONE as int);
    assert(0 <= r * r <= 1_553_343 * 1_553_343) by (nonlinear_arith)
        requires
            0 <= r <= 1_553_343,
    ;
    assert(1_553_343int * 1_553_343 / 1_000_000 == 2_412_874);
    let t6 = series_step(x, ONE as int, 132);
    lemma_series_step_range(x, ONE as int, 132);
    let t5 = series_step(x, t6, 90);
    lemma_series_step_range(x, t6, 90);
    let t4 = series_step(x, t5, 56);
    lemma_series_step_range(x, t5, 56);
    if x <= 1_900_000 {
        lemma_cos_tail_bound(x, t4, 0, 1_900_000);
        assert(0int * 936_667 / 12_000_000 == 0);
        assert(1_900_000int * 1_000_000 / 2_000_000 == 950_000);
    } else if x <= 2_200_000 {
        lemma_cos_tail_bound(x, t4, 1_900_000, 2_200_000);
        assert(1_900_000int * 926_667 / 12_000_000 == 146_722);
        assert(2_200_000int * 853_278 / 2_000_000 == 938_605);
    } else if x <= 2_350_000 {
        lemma_cos_tail_bound(x, t4, 2_200_000, 2_350_000);
        assert(2_200_000int * 921_667 / 12_000_000 == 168_972);
        assert(2_350_000int * 831_028 / 2_000_000 == 976_457);
    } else {
        lemma_cos_tail_bound(x, t4, 2_350_000, 2_412_874);
        assert(2_350_000int * 919_571 / 12_000_000 == 180_082);
        assert(2_412_874int * 819_918 / 2_000_000 == 989_179);
    }
}

/// Within a degree less than a quarter turn either side of zero, the cosine
/// is at least a hundredth: a view that is pitched no further is never
/// vertical.
pub proof fn lemma_cos_positive(a: int)
    requires
        -(HALF_PI - DEGREE) <= a <= HALF_PI - DEGREE,
    ensures
        cos_fx(a) >= 10_000,
{
    assert(wrap_angle(a) == a);
    let r = abs_int(a);
    if r <= QUARTER_PI {
        lemma_sin_series_range(r);
        let s = sin_series(r);
        lemma_rest_of_unit(s);
        assert(s * s <= 785_398 * 785_398) by (nonlinear_arith)
            requires
                0 <= s <= 785_398,
        ;
        let n = ONE_SQUARED - s * s;
        lemma_isqrt_exists(n);
        if isqrt(n) < 10_000 {
            lemma_square_monotonic(isqrt(n) + 1, 10_000);
        }
    } else {
        lemma_cos_series_positive(r);
    }
}

/// At a quarter turn the sine is one and the cosine is zero.
pub proof fn lemma_sin_cos_quarter_turn()
    ensures
        sin_fx(HALF_PI as int) == ONE,
        cos_fx(HALF_PI as int) == 0,
{
    assert(wrap_angle(HALF_PI as int) == HALF_PI);
    assert(1_570_796int * 1_570_796 / 1_000_000 == 2_467_400);
    assert(series_step(2_467_400, 1_000_000, 132) == 981_308) by {
        assert(2_467_400int * 1_000_000 / (132int * 1_000_000) == 18_692);
    }
    assert(series_step(2_467_400, 981_308, 90) == 973_097) by {
        assert(2_467_400int * 981_308 / (90int * 1_000_000) == 26_903);
    }
    assert(series_step(2_467_400, 973_097, 56) == 957_125) by {
        assert(2_467_400int * 973_097 / (56int * 1_000_000) == 42_875);
    }
    assert(series_step(2_467_400, 957_125, 30) == 921_280) by {
        assert(2_467_400int * 957_125 / (30int * 1_000_000) == 78_720);
    }
    assert(series_step(2_467_400, 921_280, 12) == 810_570) by {
        assert(2_467_400int * 921_280 / (12int * 1_000_000) == 189_430);
    }
    assert(series_step(2_467_400, 810_570, 2) == 0) by {
        assert(2_467_400int * 810_570 / (2int * 1_000_000) == 1_000_000);
    }
    lemma_rest_of_unit(0);
    assert(0int * 0 == 0);
}

/// Turning an angle by a full turn, any number of times, changes neither its
/// sine nor its cosine.
pub proof fn lemma_sin_cos_periodic(a: int, turns: int)
    ensures
        sin_fx(a + turns * TWO_PI) == sin_fx(a),
        cos_fx(a + turns * TWO_PI) == cos_fx(a),
{
    assert(wrap_angle(a + turns * TWO_PI) == wrap_angle(a)) by {
        vstd::arithmetic::div_mod::lemma_mod_multiples_vanish(turns, a + PI, TWO_PI as int);
    }
}

/// The sine is odd and the cosine even.
pub proof fn lemma_sin_odd_cos_even(a: int)
    ensures
        sin_fx(-a) == -sin_fx(a),
        cos_fx(-a) == cos_fx(a),
{
    let w = wrap_angle(a);
    let v = wrap_angle(-a);
    assert(v == if w == -PI {
        -(PI as int)
    } else {
        -w
    }) by {
        let q = (a + PI) / (TWO_PI as int);
        assert(a + PI == q * TWO_PI + (w + PI));
        if w == -PI {
            vstd::arithmetic::div_mod::lemma_fundamental_div_mod_converse(
                -a + PI,
                TWO_PI as int,
                1 - q,
                0,
            );
        } else {
            vstd::arithmetic::div_mod::lemma_fundamental_div_mod_converse(
                -a + PI,
                TWO_PI as int,
                -q,
                PI - w,
            );
        }
    }
    lemma_quadrant(0);
}

/// A step of the inverse tangent's polynomial stays between zero and its
/// leading coefficient.
pub proof fn lemma_atan_step_range(c: int, t2: int, s: int)
    requires
        0 <= t2 <= ONE,
        0 <= s <= c,
    ensures
        c - s <= atan_step(c, t2, s) <= c,
{
    assert(0 <= t2 * s <= ONE * s) by (nonlinear_arith)
        requires
            0 <= t2 <= ONE,
            0 <= s,
    ;
}

/// The octant's inverse tangent lies between zero and an eighth of a turn, and
/// is zero at zero.
pub proof fn lemma_atan_unit_range(t: int)
    requires
        0 <= t <= ONE,
    ensures
        0 <= atan_unit(t) <= QUARTER_PI,
        t == 0 ==> atan_unit(t) == 0,
{
    let t2 = t * t / (ONE as int);
    assert(0 <= t * t <= ONE * ONE) by (nonlinear_arith)
        requires
            0 <= t <= ONE,
    ;
    let s4 = atan_step(52_653, t2, 11_721);
    lemma_atan_step_range(52_653, t2, 11_721);
    let s3 = atan_step(116_433, t2, s4);
    lemma_atan_step_range(116_433, t2, s4);
    let s2 = atan_step(193_543, t2, s3);
    lemma_atan_step_range(193_543, t2, s3);
    let s1 = atan_step(332_623, t2, s2);
    lemma_atan_step_range(332_623, t2, s2);
    let s0 = atan_step(999_977, t2, s1);
    lemma_atan_step_range(999_977, t2, s1);
    assert(0 <= t * s0) by (nonlinear_arith)
        requires
            0 <= t,
            0 <= s0,
    ;
    if t == 0 {
        assert(t * s0 == 0) by (nonlinear_arith)
            requires
                t == 0,
        ;
    }
}

/// The ratio of the smaller to the larger of two magnitudes is at most one.
pub proof fn lemma_ratio_range(small: int, large: int)
    requires
        0 <= small <= large,
        0 < large,
    ensures
        0 <= small * ONE / large <= ONE,
        small == 0 ==> small * ONE / large == 0,
{
    assert(0 <= small * ONE / large <= ONE) by (nonlinear_arith)
        requires
            0 <= small <= large,
            0 < large,
            ONE == 1_000_000,
    ;
    if small == 0 {
        assert(small * ONE == 0);
    }
}

/// The angle of a point lies in `[-PI, PI]`, on the side of the x axis where
/// the point lies; a point on the positive x axis has the angle zero.
pub proof fn lemma_atan2_range(y: int, x: int)
    ensures
        -PI <= atan2_fx(y, x) <= PI,
        y >= 0 ==> atan2_fx(y, x) >= 0,
        y < 0 ==> atan2_fx(y, x) <= 0,
        x >= 0 ==> -HALF_PI <= atan2_fx(y, x) <= HALF_PI,
        y == 0 && x >= 0 ==> atan2_fx(y, x) == 0,
{
    let ay = abs_int(y);
    let ax = abs_int(x);
    if ay == 0 && ax == 0 {
    } else if ay <= ax {
        lemma_ratio_range(ay, ax);
        lemma_atan_unit_range(ay * ONE / ax);
    } else {
        lemma_ratio_range(ax, ay);
        lemma_atan_unit_range(ax * ONE / ay);
    }
}

/// The inverse sine lies in a quarter turn either side of zero.
pub proof fn lemma_asin_range(y: int)
    ensures
        -HALF_PI <= asin_fx(y) <= HALF_PI,
{
    let c = clamp_int(y, -(ONE as int), ONE as int);
    assert(0 <= ONE * ONE - c * c) by (nonlinear_arith)
        requires
            -ONE <= c <= ONE,
    ;
    lemma_isqrt_exists(ONE * ONE - c * c);
    lemma_atan2_range(c, isqrt(ONE * ONE - c * c));
}

/// Folds any angle into `[-PI, PI)`.
pub fn wrap(a: i64) -> (r: i64)
    ensures
        r == wrap_angle(a as int),
        -PI <= r < PI,
{
    let s: i128 = a as i128 + PI as i128;
    let m: i128 = s % (TWO_PI as i128);
    let e: i128 = if m < 0 {
        m + TWO_PI as i128
    } else {
        m
    };
    (e - PI as i128) as i64
}

fn series_step_exec(x2: i64, t: i64, k: i64) -> (r: i64)
    requires
        0 <= x2 <= 2_467_400,
        0 <= t <= ONE,
        2 <= k <= 1000,
    ensures
        r == series_step(x2 as int, t as int, k as int),
        r <= ONE,
        k >= 3 ==> 0 < r,
{
    proof {
        lemma_series_step_range(x2 as int, t as int, k as int);
        assert(0 <= x2 * t <= 2_467_400 * ONE) by (nonlinear_arith)
            requires
                0 <= x2 <= 2_467_400,
                0 <= t <= ONE,
        ;
        assert(0 <= (x2 * t) / (k * ONE) <= x2 * t) by (nonlinear_arith)
            requires
                0 <= x2 * t,
                k * ONE >= 1,
        ;
    }
    ONE - (x2 * t) / (k * ONE)
}

fn square_fx(r: i64) -> (x2: i64)
    requires
        0 <= r <= HALF_PI,
    ensures
        x2 == r * r / (ONE as int),
        0 <= x2 <= 2_467_400,
{
    assert(0 <= r * r <= 1_570_796 * 1_570_796) by (nonlinear_arith)
        requires
            0 <= r <= 1_570_796,
    ;
    r * r / ONE
}

fn sin_series_exec(r: i64) -> (s: i64)
    requires
        0 <= r <= HALF_PI,
    ensures
        s == sin_series(r as int),
        0 <= s <= ONE,
{
    let x2: i64 = square_fx(r);
    let t5: i64 = series_step_exec(x2, ONE, 110);
    let t4: i64 = series_step_exec(x2, t5, 72);
    let t3: i64 = series_step_exec(x2, t4, 42);
    let t2: i64 = series_step_exec(x2, t3, 20);
    let t1: i64 = series_step_exec(x2, t2, 6);
    assert(0 <= r * t1 <= 1_570_796 * ONE) by (nonlinear_arith)
        requires
            0 <= r <= 1_570_796,
            0 <= t1 <= ONE,
    ;
    let s: i64 = r * t1 / ONE;
    if s > ONE {
        ONE
    } else {
        s
    }
}

fn cos_series_exec(r: i64) -> (c: i64)
    requires
        0 <= r <= HALF_PI,
    ensures
        c == cos_series(r as int),
        0 <= c <= ONE,
{
    let x2: i64 = square_fx(r);
    let t6: i64 = series_step_exec(x2, ONE, 132);
    let t5: i64 = series_step_exec(x2, t6, 90);
    let t4: i64 = series_step_exec(x2, t5, 56);
    let t3: i64 = series_step_exec(x2, t4, 30);
    let t2: i64 = series_step_exec(x2, t3, 12);
    let t1: i64 = series_step_exec(x2, t2, 2);
    if t1 < 0 {
        0
    } else {
        t1
    }
}

/// What a coordinate between zero and one leaves of the unit circle.
fn rest_of_unit(a: i64) -> (b: i64)
    requires
        0 <= a <= ONE,
    ensures
        b == isqrt(ONE_SQUARED - a * a),
        0 <= b <= ONE,
{
    proof {
        lemma_rest_of_unit(a as int);
    }
    assert(0 <= a * a <= ONE * ONE) by (nonlinear_arith)
        requires
            0 <= a <= ONE,
    ;
    let rest: i64 = ONE_SQUARED - a * a;
    int_sqrt(rest as u128) as i64
}

/// Sine and cosine of an angle of the first quadrant.
fn quadrant_exec(r: i64) -> (sc: (i64, i64))
    requires
        0 <= r <= HALF_PI,
    ensures
        sc.0 == sin_quadrant(r as int),
        sc.1 == cos_quadrant(r as int),
        0 <= sc.0 <= ONE,
        0 <= sc.1 <= ONE,
{
    if r <= QUARTER_PI {
        let s: i64 = sin_series_exec(r);
        (s, rest_of_unit(s))
    } else {
        let c: i64 = cos_series_exec(r);
        (rest_of_unit(c), c)
    }
}

/// The sine of the angle `a`.
pub fn sin(a: i64) -> (s: i64)
    ensures
        s == sin_fx(a as int),
        -ONE <= s <= ONE,
{
    let w: i64 = wrap(a);
    let m: i64 = if w < 0 {
        -w
    } else {
        w
    };
    let r: i64 = if m > HALF_PI {
        PI - m
    } else {
        m
    };
    let s: i64 = quadrant_exec(r).0;
    if w < 0 {
        -s
    } else {
        s
    }
}

/// The cosine of the angle `a`.
pub fn cos(a: i64) -> (c: i64)
    ensures
        c == cos_fx(a as int),
        -ONE <= c <= ONE,
{
    let w: i64 = wrap(a);
    let m: i64 = if w < 0 {
        -w
    } else {
        w
    };
    if m > HALF_PI {
        -quadrant_exec(PI - m).1
    } else {
        quadrant_exec(m).1
    }
}

fn atan_step_exec(c: i64, t2: i64, s: i64) -> (r: i64)
    requires
        0 <= t2 <= ONE,
        0 <= s <= c <= ONE,
    ensures
        r == atan_step(c as int, t2 as int, s as int),
        c - s <= r <= c,
{
    proof {
        lemma_atan_step_range(c as int, t2 as int, s as int);
        assert(0 <= t2 * s <= ONE * ONE) by (nonlinear_arith)
            requires
                0 <= t2 <= ONE,
                0 <= s <= ONE,
        ;
    }
    c - (t2 * s) / ONE
}

fn atan_unit_exec(t: i64) -> (a: i64)
    requires
        0 <= t <= ONE,
    ensures
        a == atan_unit(t as int),
        0 <= a <= QUARTER_PI,
{
    assert(0 <= t * t <= ONE * ONE) by (nonlinear_arith)
        requires
            0 <= t <= ONE,
    ;
    let t2: i64 = t * t / ONE;
    let s4: i64 = atan_step_exec(52_653, t2, 11_721);
    let s3: i64 = atan_step_exec(116_433, t2, s4);
    let s2: i64 = atan_step_exec(193_543, t2, s3);
    let s1: i64 = atan_step_exec(332_623, t2, s2);
    let s0: i64 = atan_step_exec(999_977, t2, s1);
    assert(0 <= t * s0 <= ONE * ONE) by (nonlinear_arith)
        requires
            0 <= t <= ONE,
            0 <= s0 <= ONE,
    ;
    let a: i64 = t * s0 / ONE;
    if a > QUARTER_PI {
        QUARTER_PI
    } else {
        a
    }
}

fn ratio_exec(small: u64, large: u64) -> (t: i64)
    requires
        small <= large,
        0 < large,
    ensures
        t == small * ONE / (large as int),
        0 <= t <= ONE,
{
    proof {
        lemma_ratio_range(small as int, large as int);
    }
    let n: u128 = (small as u128) * (ONE as u128);
    (n / (large as u128)) as i64
}

fn magnitude(v: i64) -> (m: u64)
    ensures
        m == abs_int(v as int),
{
    if v < 0 {
        (-(v as i128)) as u64
    } else {
        v as u64
    }
}

/// The angle of the point `(x, y)` from the positive x axis.
pub fn atan2(y: i64, x: i64) -> (a: i64)
    ensures
        a == atan2_fx(y as int, x as int),
        -PI <= a <= PI,
{
    proof {
        lemma_atan2_range(y as int, x as int);
    }
    let ay: u64 = magnitude(y);
    let ax: u64 = magnitude(x);
    if ay == 0 && ax == 0 {
        return 0;
    }
    let a: i64 = if ay <= ax {
        atan_unit_exec(ratio_exec(ay, ax))
    } else {
        HALF_PI - atan_unit_exec(ratio_exec(ax, ay))
    };
    let b: i64 = if x < 0 {
        PI - a
    } else {
        a
    };
    if y < 0 {
        -b
    } else {
        b
    }
}

/// The inverse sine of `y`, taken as limited to `[-ONE, ONE]`.
pub fn asin(y: i64) -> (a: i64)
    ensures
        a == asin_fx(y as int),
        -HALF_PI <= a <= HALF_PI,
{
    proof {
        lemma_asin_range(y as int);
    }
    let c: i64 = clamp(y, -ONE, ONE);
    assert(0 <= ONE * ONE - c * c <= ONE * ONE) by (nonlinear_arith)
        requires
            -ONE <= c <= ONE,
    ;
    let rest: i64 = ONE * ONE - c * c;
    let x: u64 = int_sqrt(rest as u128);
    proof {
        if x > ONE {
            lemma_square_monotonic(ONE as int + 1, x as int);
        }
    }
    atan2(c, x as i64)
}

} // verus!
