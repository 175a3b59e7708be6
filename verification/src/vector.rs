//! Vectors of fixed-point coordinates, and their mathematical model.

use vstd::prelude::*;
use crate::fixed::{
    ONE, abs_int, clamp_int, mul_fx, div_fx, isqrt, is_sqrt_of, clamp, fx_mul, int_sqrt,
    lemma_isqrt_exists, lemma_mul_fx_unit, lemma_product_fits, lemma_square_monotonic,
};

verus! {

/// A vector of three fixed-point coordinates.
#[derive(Clone, Copy, Debug, PartialEq, Eq, Structural)]
pub struct Vec3 {
    pub x: i64,
    pub y: i64,
    pub z: i64,
}

/// A vector of two fixed-point coordinates.
#[derive(Clone, Copy, Debug, PartialEq, Eq, Structural)]
pub struct Vec2 {
    pub x: i64,
    pub y: i64,
}

/// The model of a `Vec3`: three unbounded integers.
pub struct V3 {
    pub x: int,
    pub y: int,
    pub z: int,
}

impl View for Vec3 {
    type V = V3;

    open spec fn view(&self) -> V3 {
        V3 { x: self.x as int, y: self.y as int, z: self.z as int }
    }
}

impl V3 {
    /// The zero vector.
    pub open spec fn zero() -> V3 {
        V3 { x: 0, y: 0, z: 0 }
    }

    /// The sum of two vectors.
    pub open spec fn plus(self, o: V3) -> V3 {
        V3 { x: self.x + o.x, y: self.y + o.y, z: self.z + o.z }
    }

    /// The difference of two vectors.
    pub open spec fn minus(self, o: V3) -> V3 {
        V3 { x: self.x - o.x, y: self.y - o.y, z: self.z - o.z }
    }

    /// The vector with each coordinate multiplied by the fixed-point factor
    /// `k`.
    pub open spec fn scaled(self, k: int) -> V3 {
        V3 { x: mul_fx(self.x, k), y: mul_fx(self.y, k), z: mul_fx(self.z, k) }
    }

    /// Every coordinate has a magnitude of at most `limit`.
    pub open spec fn within(self, limit: int) -> bool {
        abs_int(self.x) <= limit && abs_int(self.y) <= limit && abs_int(self.z) <= limit
    }

    /// The vector with each coordinate limited to `[-limit, limit]`.
    pub open spec fn clamped(self, limit: int) -> V3 {
        V3 {
            x: clamp_int(self.x, -limit, limit),
            y: clamp_int(self.y, -limit, limit),
            z: clamp_int(self.z, -limit, limit),
        }
    }

    /// The sum of the squares of the coordinates, as a plain integer.
    pub open spec fn norm_sq(self) -> int {
        self.x * self.x + self.y * self.y + self.z * self.z
    }

    /// The length of the vector, rounded down.
    pub open spec fn length(self) -> int {
        isqrt(self.norm_sq())
    }

    /// The vector of length one with the same direction, or the zero vector
    /// where the length rounds to zero.
    pub open spec fn normalized(self) -> V3 {
        let len = self.length();
        if len == 0 {
            V3::zero()
        } else {
            V3 { x: div_fx(self.x, len), y: div_fx(self.y, len), z: div_fx(self.z, len) }
        }
    }

    /// The sum of the magnitudes of the coordinates.
    pub open spec fn taxicab(self) -> int {
        abs_int(self.x) + abs_int(self.y) + abs_int(self.z)
    }
}

/// A square is not less than zero.
pub proof fn lemma_square_nonneg(x: int)
    ensures
        x * x >= 0,
        x * x == abs_int(x) * abs_int(x),
{
    assert(x * x >= 0 && x * x == abs_int(x) * abs_int(x)) by (nonlinear_arith)
        requires
            abs_int(x) == x || abs_int(x) == -x,
    ;
}

/// No coordinate of a vector is longer than the vector.
pub proof fn lemma_length_bounds(v: V3)
    ensures
        v.norm_sq() >= 0,
        is_sqrt_of(v.length(), v.norm_sq()),
        abs_int(v.x) <= v.length(),
        abs_int(v.y) <= v.length(),
        abs_int(v.z) <= v.length(),
        v.length() == 0 <==> v == V3::zero(),
{
    lemma_square_nonneg(v.x);
    lemma_square_nonneg(v.y);
    lemma_square_nonneg(v.z);
    let n = v.norm_sq();
    lemma_isqrt_exists(n);
    let r = v.length();
    if abs_int(v.x) > r {
        lemma_square_monotonic(r + 1, abs_int(v.x));
    }
    if abs_int(v.y) > r {
        lemma_square_monotonic(r + 1, abs_int(v.y));
    }
    if abs_int(v.z) > r {
        lemma_square_monotonic(r + 1, abs_int(v.z));
    }
    if v == V3::zero() {
        assert(r * r <= 0);
        if r > 0 {
            lemma_square_monotonic(1, r);
        }
    }
}

/// A coordinate divided by a length that is not shorter has a magnitude of at
/// most one.
pub proof fn lemma_div_fx_unit(a: int, len: int)
    requires
        abs_int(a) <= len,
        0 < len,
    ensures
        abs_int(div_fx(a, len)) <= ONE,
{
    let m = abs_int(a);
    assert(a * ONE == m * ONE || a * ONE == -(m * ONE)) by (nonlinear_arith)
        requires
            m == a || m == -a,
    ;
    assert(0 <= (m * ONE) / len <= ONE) by (nonlinear_arith)
        requires
            0 <= m <= len,
            0 < len,
            ONE == 1_000_000,
    ;
    assert(m * ONE >= 0) by (nonlinear_arith)
        requires
            m >= 0,
            ONE == 1_000_000,
    ;
}

/// A normalized vector has no coordinate beyond one.
pub proof fn lemma_normalized_within(v: V3)
    ensures
        v.normalized().within(ONE as int),
        v == V3::zero() ==> v.normalized() == V3::zero(),
{
    lemma_length_bounds(v);
    let len = v.length();
    if len != 0 {
        lemma_div_fx_unit(v.x, len);
        lemma_div_fx_unit(v.y, len);
        lemma_div_fx_unit(v.z, len);
    }
}

/// A coordinate that is not zero, divided by a length of at most twice its
/// magnitude, is not zero.
pub proof fn lemma_div_fx_nonzero(a: int, len: int)
    requires
        a != 0,
        0 < len <= 2 * abs_int(a),
    ensures
        div_fx(a, len) != 0,
{
    let m = abs_int(a);
    assert(a * ONE == m * ONE || a * ONE == -(m * ONE)) by (nonlinear_arith)
        requires
            m == a || m == -a,
    ;
    assert((m * ONE) / len >= 1 && m * ONE >= 0) by (nonlinear_arith)
        requires
            0 < len <= 2 * m,
            ONE == 1_000_000,
    ;
}

/// Only the zero vector has no direction: normalizing any other vector gives
/// a vector that is not zero.
pub proof fn lemma_normalized_zero(v: V3)
    ensures
        v.normalized() == V3::zero() <==> v == V3::zero(),
{
    lemma_length_bounds(v);
    lemma_normalized_within(v);
    if v != V3::zero() {
        let len = v.length();
        let ax = abs_int(v.x);
        let ay = abs_int(v.y);
        let az = abs_int(v.z);
        lemma_square_nonneg(v.x);
        lemma_square_nonneg(v.y);
        lemma_square_nonneg(v.z);
        if ax >= ay && ax >= az {
            lemma_square_monotonic(ay, ax);
            lemma_square_monotonic(az, ax);
            lemma_longest_coordinate(ax, len, v.norm_sq());
            lemma_div_fx_nonzero(v.x, len);
        } else if ay >= ax && ay >= az {
            lemma_square_monotonic(ax, ay);
            lemma_square_monotonic(az, ay);
            lemma_longest_coordinate(ay, len, v.norm_sq());
            lemma_div_fx_nonzero(v.y, len);
        } else {
            lemma_square_monotonic(ax, az);
            lemma_square_monotonic(ay, az);
            lemma_longest_coordinate(az, len, v.norm_sq());
            lemma_div_fx_nonzero(v.z, len);
        }
    }
}

/// A vector is at most twice as long as its longest coordinate.
proof fn lemma_longest_coordinate(m: int, len: int, n: int)
    requires
        0 <= m,
        n <= 3 * (m * m),
        is_sqrt_of(len, n),
    ensures
        len <= 2 * m,
{
    if len > 2 * m {
        lemma_square_monotonic(2 * m + 1, len);
        assert((2 * m + 1) * (2 * m + 1) > 3 * (m * m)) by (nonlinear_arith)
            requires
                0 <= m,
        ;
    }
}

/// A vector whose coordinates stay within a limit is at most twice that long.
pub proof fn lemma_length_within(v: V3, limit: int)
    requires
        v.within(limit),
    ensures
        0 <= v.length() <= 2 * limit,
{
    lemma_length_bounds(v);
    lemma_square_nonneg(v.x);
    lemma_square_nonneg(v.y);
    lemma_square_nonneg(v.z);
    lemma_square_monotonic(abs_int(v.x), limit);
    lemma_square_monotonic(abs_int(v.y), limit);
    lemma_square_monotonic(abs_int(v.z), limit);
    lemma_longest_coordinate(limit, v.length(), v.norm_sq());
}

/// Scaling a vector whose coordinates do not exceed one by `k` gives
/// coordinates that do not exceed `k`.
pub proof fn lemma_scaled_unit(v: V3, k: int)
    requires
        v.within(ONE as int),
    ensures
        v.scaled(k).within(abs_int(k)),
{
    lemma_mul_fx_unit(k, v.x);
    lemma_mul_fx_unit(k, v.y);
    lemma_mul_fx_unit(k, v.z);
}

/// Scaling a vector by a factor of magnitude at most one keeps it within
/// whatever bound held it.
pub proof fn lemma_scaled_by_unit(v: V3, k: int, limit: int)
    requires
        v.within(limit),
        abs_int(k) <= ONE,
    ensures
        v.scaled(k).within(limit),
{
    lemma_mul_fx_unit(v.x, k);
    lemma_mul_fx_unit(v.y, k);
    lemma_mul_fx_unit(v.z, k);
}

impl Vec3 {
    /// The vector with the given coordinates.
    pub fn new(x: i64, y: i64, z: i64) -> (v: Vec3)
        ensures
            v == (Vec3 { x, y, z }),
    {
        Vec3 { x, y, z }
    }

    /// The zero vector.
    pub fn zero() -> (v: Vec3)
        ensures
            v@ == V3::zero(),
    {
        Vec3 { x: 0, y: 0, z: 0 }
    }

    /// The vector with each coordinate limited to `[-limit, limit]`.
    pub fn clamped(self, limit: i64) -> (v: Vec3)
        requires
            0 <= limit,
        ensures
            v@ == self@.clamped(limit as int),
            v@.within(limit as int),
    {
        Vec3 {
            x: clamp(self.x, -limit, limit),
            y: clamp(self.y, -limit, limit),
            z: clamp(self.z, -limit, limit),
        }
    }

    /// The length of the vector, rounded down.
    pub fn length(self) -> (len: u64)
        ensures
            len == self@.length(),
    {
        proof {
            lemma_product_fits(self.x as int, self.x as int);
            lemma_product_fits(self.y as int, self.y as int);
            lemma_product_fits(self.z as int, self.z as int);
            lemma_square_nonneg(self.x as int);
            lemma_square_nonneg(self.y as int);
            lemma_square_nonneg(self.z as int);
        }
        let xx: i128 = (self.x as i128) * (self.x as i128);
        let yy: i128 = (self.y as i128) * (self.y as i128);
        let zz: i128 = (self.z as i128) * (self.z as i128);
        let n: u128 = xx as u128 + yy as u128 + zz as u128;
        int_sqrt(n)
    }

    /// The vector of length one with the same direction, or the zero vector
    /// where the length rounds to zero.
    pub fn normalized(self) -> (v: Vec3)
        ensures
            v@ == self@.normalized(),
            v@.within(ONE as int),
    {
        proof {
            lemma_normalized_within(self@);
            lemma_length_bounds(self@);
        }
        let len: u64 = self.length();
        if len == 0 {
            Vec3 { x: 0, y: 0, z: 0 }
        } else {
            Vec3 {
                x: unit_coordinate(self.x, len),
                y: unit_coordinate(self.y, len),
                z: unit_coordinate(self.z, len),
            }
        }
    }

    /// The sum of two vectors whose coordinates stay in range.
    pub(crate) fn plus(self, o: Vec3) -> (v: Vec3)
        requires
            self@.plus(o@).within(i64::MAX as int),
        ensures
            v@ == self@.plus(o@),
    {
        Vec3 { x: self.x + o.x, y: self.y + o.y, z: self.z + o.z }
    }

    /// The difference of two vectors whose coordinates stay in range.
    pub(crate) fn minus(self, o: Vec3) -> (v: Vec3)
        requires
            self@.minus(o@).within(i64::MAX as int),
        ensures
            v@ == self@.minus(o@),
    {
        Vec3 { x: self.x - o.x, y: self.y - o.y, z: self.z - o.z }
    }

    /// The vector scaled by the fixed-point factor `k`, where the result stays
    /// in range.
    pub(crate) fn scaled(self, k: i64) -> (v: Vec3)
        requires
            self@.scaled(k as int).within(i64::MAX as int),
        ensures
            v@ == self@.scaled(k as int),
    {
        Vec3 { x: fx_mul(self.x, k), y: fx_mul(self.y, k), z: fx_mul(self.z, k) }
    }
}

/// One coordinate of a normalized vector: `a` divided by a length that is not
/// shorter.
fn unit_coordinate(a: i64, len: u64) -> (r: i64)
    requires
        abs_int(a as int) <= len,
        0 < len,
    ensures
        r == div_fx(a as int, len as int),
        abs_int(r as int) <= ONE,
{
    proof {
        lemma_div_fx_unit(a as int, len as int);
        lemma_product_fits(a as int, ONE as int);
    }
    let p: i128 = (a as i128) * (ONE as i128);
    (p / (len as i128)) as i64
}

} // verus!
