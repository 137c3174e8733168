//! Three-dimensional vectors with integer components.

use vstd::prelude::*;
use crate::root::{isqrt, isqrt_ceil, sqrt_ceil, sqrt_floor};
use crate::root::{lemma_sqrt_ceil_bounds, lemma_sqrt_floor_bounds, lemma_square_monotonic};

verus! {

/// One world unit, counted in thousandths.
pub const UNIT: i64 = 1000;

/// The largest magnitude that a coordinate of a position, a velocity or an
/// acceleration may have: ten million world units.
pub const WORLD_EXTENT: i64 = 10_000_000_000;

/// The largest component magnitude for which the vector operations are
/// computed; it leaves room for every intermediate value of the control laws.
pub const REACH_EXTENT: i64 = 3_000_000_000_000_000_000;

/// The quotient of `a` by a positive `b`, rounded towards zero.
pub open spec fn quot(a: int, b: int) -> int {
    if a >= 0 {
        a / b
    } else {
        -((-a) / b)
    }
}

/// The magnitude of an integer.
pub open spec fn magnitude(a: int) -> int {
    if a >= 0 {
        a
    } else {
        -a
    }
}

/// A vector of three mathematical integers: what a `Vec3` stands for.
pub struct Vector {
    pub x: int,
    pub y: int,
    pub z: int,
}

impl Vector {
    /// The vector of no displacement.
    pub open spec fn zero() -> Vector {
        Vector { x: 0, y: 0, z: 0 }
    }

    /// The componentwise sum.
    pub open spec fn plus(self, other: Vector) -> Vector {
        Vector { x: self.x + other.x, y: self.y + other.y, z: self.z + other.z }
    }

    /// The componentwise difference.
    pub open spec fn minus(self, other: Vector) -> Vector {
        Vector { x: self.x - other.x, y: self.y - other.y, z: self.z - other.z }
    }

    /// The opposite vector.
    pub open spec fn negated(self) -> Vector {
        Vector { x: -self.x, y: -self.y, z: -self.z }
    }

    /// The square of the Euclidean length.
    pub open spec fn norm_sq(self) -> int {
        self.x * self.x + self.y * self.y + self.z * self.z
    }

    /// The Euclidean length, rounded down.
    pub open spec fn length(self) -> int {
        sqrt_floor(self.norm_sq() as nat) as int
    }

    /// The Euclidean length, rounded up.
    pub open spec fn reach(self) -> int {
        sqrt_ceil(self.norm_sq() as nat) as int
    }

    /// Each component multiplied by `num` and divided by a positive `den`,
    /// rounded towards zero.
    pub open spec fn scaled(self, num: int, den: int) -> Vector {
        Vector {
            x: quot(self.x * num, den),
            y: quot(self.y * num, den),
            z: quot(self.z * num, den),
        }
    }

    /// The vector of the same direction whose length is `len`, as closely as
    /// rounding towards zero allows; of the zero vector, the zero vector.
    pub open spec fn with_length(self, len: int) -> Vector {
        if self.norm_sq() == 0 {
            Vector::zero()
        } else {
            self.scaled(len, self.reach())
        }
    }

    /// The vector itself where it is no longer than `max`, else the vector of
    /// the same direction and of length `max`.
    pub open spec fn limited(self, max: int) -> Vector {
        if self.norm_sq() <= max * max {
            self
        } else {
            self.with_length(max)
        }
    }

    /// No component exceeds `bound` in magnitude.
    pub open spec fn within(self, bound: int) -> bool {
        &&& -bound <= self.x <= bound
        &&& -bound <= self.y <= bound
        &&& -bound <= self.z <= bound
    }

    /// Scaling to length `max` rounds every component to zero.
    pub open spec fn fades_under(self, max: int) -> bool {
        &&& magnitude(self.x) * max < self.reach()
        &&& magnitude(self.y) * max < self.reach()
        &&& magnitude(self.z) * max < self.reach()
    }
}

/// Rounding towards zero keeps the quotient on the side of the dividend.
pub proof fn lemma_quot_bounds(a: int, b: int)
    requires
        b > 0,
    ensures
        magnitude(quot(a, b)) * b <= magnitude(a),
        magnitude(a) < (magnitude(quot(a, b)) + 1) * b,
        a >= 0 ==> quot(a, b) >= 0,
        a <= 0 ==> quot(a, b) <= 0,
        quot(a, b) == 0 <==> magnitude(a) < b,
{
    let m = magnitude(a);
    let q = m / b;
    assert(q * b <= m < (q + 1) * b && q >= 0) by (nonlinear_arith)
        requires
            b > 0,
            m >= 0,
            q == m / b,
    ;
    assert(q == 0 <==> m < b) by (nonlinear_arith)
        requires
            b > 0,
            q * b <= m < (q + 1) * b,
            q >= 0,
    ;
    assert(magnitude(quot(a, b)) == q);
}

/// The square of a product whose magnitude is bounded by another product.
proof fn lemma_square_of_bounded_product(q: int, l: int, c: int, len: int)
    requires
        l > 0,
        len >= 0,
        magnitude(q) * l <= magnitude(c) * len,
    ensures
        (q * q) * (l * l) <= (c * c) * (len * len),
{
    let a = magnitude(q) * l;
    let b = magnitude(c) * len;
    assert(0 <= a) by (nonlinear_arith)
        requires
            a == magnitude(q) * l,
            magnitude(q) >= 0,
            l > 0,
    ;
    assert(a * a <= b * b) by (nonlinear_arith)
        requires
            0 <= a <= b,
    ;
    assert(a * a == (q * q) * (l * l)) by (nonlinear_arith)
        requires
            a == magnitude(q) * l,
            magnitude(q) == q || magnitude(q) == -q,
    ;
    assert(b * b == (c * c) * (len * len)) by (nonlinear_arith)
        requires
            b == magnitude(c) * len,
            magnitude(c) == c || magnitude(c) == -c,
    ;
}

/// A component is no longer than the vector it belongs to.
pub proof fn lemma_component_within_reach(v: Vector)
    ensures
        v.norm_sq() >= 0,
        v.within(v.reach()),
        v.within(v.length() + 1),
        v.norm_sq() == 0 <==> v == Vector::zero(),
        v.norm_sq() > 0 ==> v.reach() >= 1 && v.length() >= 1,
        v.norm_sq() <= v.reach() * v.reach(),
        v.length() >= 0,
        v.length() * v.length() <= v.norm_sq(),
{
    let n = v.norm_sq();
    assert(v.x * v.x >= 0 && v.y * v.y >= 0 && v.z * v.z >= 0) by (nonlinear_arith);
    assert(v.x * v.x == 0 <==> v.x == 0) by (nonlinear_arith);
    assert(v.y * v.y == 0 <==> v.y == 0) by (nonlinear_arith);
    assert(v.z * v.z == 0 <==> v.z == 0) by (nonlinear_arith);
    lemma_sqrt_ceil_bounds(n as nat);
    lemma_sqrt_floor_bounds(n as nat);
    let r = v.reach();
    let f = v.length() + 1;
    assert(f == 1 ==> f * f == 1) by (nonlinear_arith);
    assert(magnitude(v.x) * magnitude(v.x) == v.x * v.x) by (nonlinear_arith);
    assert(magnitude(v.y) * magnitude(v.y) == v.y * v.y) by (nonlinear_arith);
    assert(magnitude(v.z) * magnitude(v.z) == v.z * v.z) by (nonlinear_arith);
    lemma_square_monotonic(magnitude(v.x) as nat, r as nat);
    lemma_square_monotonic(magnitude(v.y) as nat, r as nat);
    lemma_square_monotonic(magnitude(v.z) as nat, r as nat);
    lemma_square_monotonic(magnitude(v.x) as nat, f as nat);
    lemma_square_monotonic(magnitude(v.y) as nat, f as nat);
    lemma_square_monotonic(magnitude(v.z) as nat, f as nat);
}

/// A vector whose components stay within `bound` is at most twice as long.
pub proof fn lemma_length_within(v: Vector, bound: int)
    requires
        v.within(bound),
    ensures
        0 <= v.length() <= v.reach() <= 2 * bound,
{
    lemma_component_within_reach(v);
    lemma_square_in_range(v.x, bound);
    lemma_square_in_range(v.y, bound);
    lemma_square_in_range(v.z, bound);
    let n = v.norm_sq();
    assert((2 * bound) * (2 * bound) == 4 * (bound * bound)) by (nonlinear_arith);
    lemma_sqrt_ceil_bounds(n as nat);
    lemma_sqrt_floor_bounds(n as nat);
    if n > 0 {
        lemma_square_monotonic((v.reach() - 1) as nat, (2 * bound) as nat);
    }
}

/// A vector scaled to a length is no longer than that length.
pub proof fn lemma_with_length_bound(v: Vector, len: int)
    requires
        len >= 0,
    ensures
        v.with_length(len).norm_sq() <= len * len,
        v.with_length(len).within(len),
{
    lemma_component_within_reach(v);
    let r = v.with_length(len);
    if v.norm_sq() == 0 {
        assert(r.norm_sq() == 0);
        assert(len * len >= 0) by (nonlinear_arith);
    } else {
        let l = v.reach();
        lemma_quot_bounds(v.x * len, l);
        lemma_quot_bounds(v.y * len, l);
        lemma_quot_bounds(v.z * len, l);
        lemma_magnitude_of_product(v.x, len);
        lemma_magnitude_of_product(v.y, len);
        lemma_magnitude_of_product(v.z, len);
        lemma_square_of_bounded_product(r.x, l, v.x, len);
        lemma_square_of_bounded_product(r.y, l, v.y, len);
        lemma_square_of_bounded_product(r.z, l, v.z, len);
        let n = v.norm_sq();
        let m = r.norm_sq();
        assert(m * (l * l) <= n * (len * len)) by (nonlinear_arith)
            requires
                m == r.x * r.x + r.y * r.y + r.z * r.z,
                n == v.x * v.x + v.y * v.y + v.z * v.z,
                (r.x * r.x) * (l * l) <= (v.x * v.x) * (len * len),
                (r.y * r.y) * (l * l) <= (v.y * v.y) * (len * len),
                (r.z * r.z) * (l * l) <= (v.z * v.z) * (len * len),
        ;
        assert(m <= len * len) by (nonlinear_arith)
            requires
                m * (l * l) <= n * (len * len),
                0 <= n <= l * l,
                l >= 1,
                len >= 0,
        ;
    }
    lemma_component_within_norm(r, len);
}

/// The magnitude of a product with a non-negative factor.
proof fn lemma_magnitude_of_product(c: int, len: int)
    requires
        len >= 0,
    ensures
        magnitude(c * len) == magnitude(c) * len,
{
    assert(magnitude(c * len) == magnitude(c) * len) by (nonlinear_arith)
        requires
            len >= 0,
            magnitude(c) == c || magnitude(c) == -c,
            magnitude(c) >= 0,
            magnitude(c * len) == c * len || magnitude(c * len) == -(c * len),
            magnitude(c * len) >= 0,
    ;
}

/// A vector whose squared length is at most `bound` squared has no component
/// beyond `bound`.
pub proof fn lemma_component_within_norm(v: Vector, bound: int)
    requires
        bound >= 0,
        v.norm_sq() <= bound * bound,
    ensures
        v.within(bound),
{
    assert(v.x * v.x >= 0 && v.y * v.y >= 0 && v.z * v.z >= 0) by (nonlinear_arith);
    assert(magnitude(v.x) * magnitude(v.x) == v.x * v.x) by (nonlinear_arith);
    assert(magnitude(v.y) * magnitude(v.y) == v.y * v.y) by (nonlinear_arith);
    assert(magnitude(v.z) * magnitude(v.z) == v.z * v.z) by (nonlinear_arith);
    lemma_square_monotonic(magnitude(v.x) as nat, bound as nat);
    lemma_square_monotonic(magnitude(v.y) as nat, bound as nat);
    lemma_square_monotonic(magnitude(v.z) as nat, bound as nat);
}

/// A limited vector is never longer than the limit.
pub proof fn lemma_limited_bound(v: Vector, max: int)
    requires
        max >= 0,
    ensures
        v.limited(max).norm_sq() <= max * max,
        v.limited(max).within(max),
{
    lemma_with_length_bound(v, max);
    lemma_component_within_norm(v.limited(max), max);
}

/// A limited vector vanishes exactly when the vector is zero, or is longer
/// than the limit and so short of it in every component that rounding leaves
/// nothing.
pub proof fn lemma_limited_zero(v: Vector, max: int)
    requires
        max >= 0,
    ensures
        v.limited(max) == Vector::zero() <==> v == Vector::zero() || (v.norm_sq() > max * max
            && v.fades_under(max)),
{
    lemma_component_within_reach(v);
    if v.norm_sq() > max * max {
        assert(max * max >= 0) by (nonlinear_arith);
        let l = v.reach();
        lemma_quot_bounds(v.x * max, l);
        lemma_quot_bounds(v.y * max, l);
        lemma_quot_bounds(v.z * max, l);
        lemma_magnitude_of_product(v.x, max);
        lemma_magnitude_of_product(v.y, max);
        lemma_magnitude_of_product(v.z, max);
    }
}

/// A vector with 64-bit components.
#[derive(Clone, Copy, Debug, PartialEq, Eq, Structural)]
pub struct Vec3 {
    pub x: i64,
    pub y: i64,
    pub z: i64,
}

impl View for Vec3 {
    type V = Vector;

    open spec fn view(&self) -> Vector {
        Vector { x: self.x as int, y: self.y as int, z: self.z as int }
    }
}

impl Vec3 {
    /// No coordinate lies beyond the world's extent.
    pub open spec fn in_world(self) -> bool {
        self@.within(WORLD_EXTENT as int)
    }

    /// The vector with the given components.
    pub fn new(x: i64, y: i64, z: i64) -> (v: Vec3)
        ensures
            v@ == (Vector { x: x as int, y: y as int, z: z as int }),
    {
        Vec3 { x, y, z }
    }

    /// The zero vector.
    pub fn zero() -> (v: Vec3)
        ensures
            v@ == Vector::zero(),
    {
        Vec3 { x: 0, y: 0, z: 0 }
    }

    /// Tells whether no coordinate lies beyond the world's extent.
    pub fn is_in_world(&self) -> (b: bool)
        ensures
            b == self.in_world(),
    {
        -WORLD_EXTENT <= self.x && self.x <= WORLD_EXTENT && -WORLD_EXTENT <= self.y && self.y
            <= WORLD_EXTENT && -WORLD_EXTENT <= self.z && self.z <= WORLD_EXTENT
    }

    /// The componentwise sum.
    pub fn plus(self, other: Vec3) -> (v: Vec3)
        requires
            self@.plus(other@).within(i64::MAX as int),
        ensures
            v@ == self@.plus(other@),
    {
        Vec3 { x: self.x + other.x, y: self.y + other.y, z: self.z + other.z }
    }

    /// The componentwise difference.
    pub fn minus(self, other: Vec3) -> (v: Vec3)
        requires
            self@.minus(other@).within(i64::MAX as int),
        ensures
            v@ == self@.minus(other@),
    {
        Vec3 { x: self.x - other.x, y: self.y - other.y, z: self.z - other.z }
    }

    /// The square of the Euclidean length.
    pub fn norm_sq(self) -> (n: u128)
        requires
            self@.within(REACH_EXTENT as int),
        ensures
            n == self@.norm_sq(),
            n <= 3 * (REACH_EXTENT * REACH_EXTENT),
    {
        let x: i128 = self.x as i128;
        let y: i128 = self.y as i128;
        let z: i128 = self.z as i128;
        proof {
            lemma_square_in_range(x as int, REACH_EXTENT as int);
            lemma_square_in_range(y as int, REACH_EXTENT as int);
            lemma_square_in_range(z as int, REACH_EXTENT as int);
            assert(REACH_EXTENT * REACH_EXTENT == 9_000_000_000_000_000_000_000_000_000_000_000_000int)
                by (nonlinear_arith);
        }
        (x * x + y * y + z * z) as u128
    }

    /// The Euclidean length, rounded down.
    pub fn length(self) -> (len: i64)
        requires
            self@.within(REACH_EXTENT as int),
        ensures
            len == self@.length(),
            0 <= len <= 2 * REACH_EXTENT,
    {
        let n: u128 = self.norm_sq();
        let r: u64 = isqrt(n);
        proof {
            lemma_sqrt_floor_bounds(n as nat);
            assert(REACH_EXTENT * REACH_EXTENT == 9_000_000_000_000_000_000_000_000_000_000_000_000int)
                by (nonlinear_arith);
            assert((2 * REACH_EXTENT) * (2 * REACH_EXTENT) == 36_000_000_000_000_000_000_000_000_000_000_000_000int)
                by (nonlinear_arith);
            lemma_square_monotonic(r as nat, (2 * REACH_EXTENT) as nat);
        }
        r as i64
    }

    /// The vector of the same direction and of length `len`, each component
    /// rounded towards zero.
    pub fn with_length(self, len: i64) -> (v: Vec3)
        requires
            self@.within(REACH_EXTENT as int),
            0 <= len <= WORLD_EXTENT,
        ensures
            v@ == self@.with_length(len as int),
            v@.within(len as int),
    {
        let n: u128 = self.norm_sq();
        if n == 0 {
            return Vec3::zero();
        }
        let reach: u128 = isqrt_ceil(n);
        proof {
            lemma_component_within_reach(self@);
            lemma_with_length_bound(self@, len as int);
            lemma_sqrt_ceil_bounds(n as nat);
            assert(REACH_EXTENT * REACH_EXTENT == 9_000_000_000_000_000_000_000_000_000_000_000_000int)
                by (nonlinear_arith);
            assert((2 * REACH_EXTENT) * (2 * REACH_EXTENT) == 36_000_000_000_000_000_000_000_000_000_000_000_000int)
                by (nonlinear_arith);
            lemma_square_monotonic((reach - 1) as nat, (2 * REACH_EXTENT) as nat);
        }
        let den: i128 = reach as i128;
        let num: i128 = len as i128;
        proof {
            lemma_product_in_range(self.x as int, REACH_EXTENT as int, num as int, WORLD_EXTENT as int);
            lemma_product_in_range(self.y as int, REACH_EXTENT as int, num as int, WORLD_EXTENT as int);
            lemma_product_in_range(self.z as int, REACH_EXTENT as int, num as int, WORLD_EXTENT as int);
            assert(REACH_EXTENT * WORLD_EXTENT == 30_000_000_000_000_000_000_000_000_000int)
                by (nonlinear_arith);
        }
        let x: i128 = (self.x as i128) * num / den;
        let y: i128 = (self.y as i128) * num / den;
        let z: i128 = (self.z as i128) * num / den;
        Vec3 { x: x as i64, y: y as i64, z: z as i64 }
    }

    /// The vector itself where it is no longer than `max`, else the vector of
    /// the same direction and of length `max`.
    pub fn limited(self, max: i64) -> (v: Vec3)
        requires
            self@.within(REACH_EXTENT as int),
            0 <= max <= WORLD_EXTENT,
        ensures
            v@ == self@.limited(max as int),
            v@.norm_sq() <= max * max,
            v@.within(max as int),
    {
        let n: u128 = self.norm_sq();
        let bound: u128 = max as u128;
        proof {
            lemma_limited_bound(self@, max as int);
            assert(bound * bound <= WORLD_EXTENT * WORLD_EXTENT) by (nonlinear_arith)
                requires
                    0 <= bound <= WORLD_EXTENT,
            ;
            assert(WORLD_EXTENT * WORLD_EXTENT == 100_000_000_000_000_000_000int)
                by (nonlinear_arith);
        }
        if n <= bound * bound {
            self
        } else {
            self.with_length(max)
        }
    }
}

/// The square of an integer of bounded magnitude is bounded by the square of
/// the bound.
proof fn lemma_square_in_range(a: int, bound: int)
    requires
        -bound <= a <= bound,
    ensures
        0 <= a * a <= bound * bound,
{
    assert(0 <= a * a <= bound * bound) by (nonlinear_arith)
        requires
            -bound <= a <= bound,
    ;
}

/// The product of two integers of bounded magnitude is bounded by the product
/// of the bounds.
proof fn lemma_product_in_range(a: int, bound_a: int, b: int, bound_b: int)
    requires
        -bound_a <= a <= bound_a,
        0 <= b <= bound_b,
    ensures
        -(bound_a * bound_b) <= a * b <= bound_a * bound_b,
{
    assert(-(bound_a * bound_b) <= a * b <= bound_a * bound_b) by (nonlinear_arith)
        requires
            -bound_a <= a <= bound_a,
            0 <= b <= bound_b,
    ;
}

} // verus!
