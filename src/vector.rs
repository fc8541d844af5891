//! Displacement vectors, the 3×3 matrix and rays.

use vstd::prelude::*;
use crate::scalar::{
    abs_u64, approx_eq_eps as scalar_approx_eq_eps, approx_eq_spec, div_exact, gcd3, gcd_u64, lemma_gcd3_divides,
    lemma_gcd_le, within, DEFAULT_EPSILON,
};

verus! {

/// A triple of mathematical integers: the model of every three-component value.
pub type Triple = (int, int, int);

pub open spec fn dot3(a: Triple, b: Triple) -> int {
    a.0 * b.0 + a.1 * b.1 + a.2 * b.2
}

pub open spec fn cross3(a: Triple, b: Triple) -> Triple {
    (a.1 * b.2 - a.2 * b.1, a.2 * b.0 - a.0 * b.2, a.0 * b.1 - a.1 * b.0)
}

pub open spec fn add3(a: Triple, b: Triple) -> Triple {
    (a.0 + b.0, a.1 + b.1, a.2 + b.2)
}

pub open spec fn sub3(a: Triple, b: Triple) -> Triple {
    (a.0 - b.0, a.1 - b.1, a.2 - b.2)
}

pub open spec fn scale3(a: Triple, k: int) -> Triple {
    (a.0 * k, a.1 * k, a.2 * k)
}

pub open spec fn within3(a: Triple, b: int) -> bool {
    within(a.0, b) && within(a.1, b) && within(a.2, b)
}

pub open spec fn approx_eq3(a: Triple, b: Triple, eps: int) -> bool {
    approx_eq_spec(a.0, b.0, eps) && approx_eq_spec(a.1, b.1, eps) && approx_eq_spec(a.2, b.2, eps)
}

/// Largest magnitude of a component for which `dot`, `cross` and
/// `magnitude2` of a three-component vector stay within `i64`.
pub const VEC3_BOUND: i64 = 0x2000_0000;

/// A two-component displacement vector.
#[derive(Clone, Copy, Debug, PartialEq, Eq, Structural)]
pub struct Vec2 {
    pub x: i64,
    pub y: i64,
}

/// A three-component displacement vector.
#[derive(Clone, Copy, Debug, PartialEq, Eq, Structural)]
pub struct Vec3 {
    pub x: i64,
    pub y: i64,
    pub z: i64,
}

/// A four-component vector, as used for homogeneous coordinates.
#[derive(Clone, Copy, Debug, PartialEq, Eq, Structural)]
pub struct Vec4 {
    pub x: i64,
    pub y: i64,
    pub z: i64,
    pub w: i64,
}

impl View for Vec3 {
    type V = Triple;

    open spec fn view(&self) -> Triple {
        (self.x as int, self.y as int, self.z as int)
    }
}

impl Vec2 {
    pub fn new(x: i64, y: i64) -> (r: Vec2)
        ensures
            r.x == x && r.y == y,
    {
        Vec2 { x, y }
    }

    pub fn zero() -> (r: Vec2)
        ensures
            r.x == 0 && r.y == 0,
    {
        Vec2 { x: 0, y: 0 }
    }

    /// The squared length of the vector.
    pub fn magnitude2(&self) -> (r: i64)
        requires
            within(self.x as int, VEC3_BOUND as int),
            within(self.y as int, VEC3_BOUND as int),
        ensures
            r == self.x * self.x + self.y * self.y,
    {
        proof {
            lemma_square_bound(self.x as int, VEC3_BOUND as int);
            lemma_square_bound(self.y as int, VEC3_BOUND as int);
        }
        self.x * self.x + self.y * self.y
    }

    /// The vector divided by the greatest common divisor of its components:
    /// the shortest integer vector with the same direction. It has unit
    /// length exactly when the vector lies along an axis.
    pub fn reduce(&self) -> (r: Vec2)
        requires
            self.x != 0 || self.y != 0,
            self.x > i64::MIN && self.y > i64::MIN,
        ensures
            gcd3(self.x as int, self.y as int, 0) > 0,
            r.x * gcd3(self.x as int, self.y as int, 0) == self.x,
            r.y * gcd3(self.x as int, self.y as int, 0) == self.y,
    {
        let g = gcd_u64(gcd_u64(abs_u64(self.x), abs_u64(self.y)), 0);
        proof {
            lemma_gcd3_divides(self.x as int, self.y as int, 0);
            lemma_gcd_le(self.x as int, self.y as int, 0);
        }
        Vec2 { x: div_exact(self.x, g as i64), y: div_exact(self.y, g as i64) }
    }

    pub fn approx_epsilon() -> (r: i64)
        ensures
            r == DEFAULT_EPSILON,
    {
        DEFAULT_EPSILON
    }

    /// Every component of `self` is within `epsilon` of that of `other`.
    pub fn approx_eq_eps(&self, other: &Vec2, epsilon: i64) -> (r: bool)
        ensures
            r == (approx_eq_spec(self.x as int, other.x as int, epsilon as int)
                && approx_eq_spec(self.y as int, other.y as int, epsilon as int)),
    {
        scalar_approx_eq_eps(self.x, other.x, epsilon) && scalar_approx_eq_eps(self.y, other.y, epsilon)
    }

    pub fn approx_eq(&self, other: &Vec2) -> (r: bool)
        ensures
            r == (approx_eq_spec(self.x as int, other.x as int, DEFAULT_EPSILON as int)
                && approx_eq_spec(self.y as int, other.y as int, DEFAULT_EPSILON as int)),
    {
        self.approx_eq_eps(other, DEFAULT_EPSILON)
    }
}

impl Vec3 {
    pub fn new(x: i64, y: i64, z: i64) -> (r: Vec3)
        ensures
            r@ == (x as int, y as int, z as int),
    {
        Vec3 { x, y, z }
    }

    pub fn zero() -> (r: Vec3)
        ensures
            r@ == (0int, 0int, 0int),
    {
        Vec3 { x: 0, y: 0, z: 0 }
    }

    /// The dot product.
    pub fn dot(&self, other: &Vec3) -> (r: i64)
        requires
            within3(self@, VEC3_BOUND as int),
            within3(other@, VEC3_BOUND as int),
        ensures
            r == dot3(self@, other@),
    {
        proof {
            lemma_product_bound(self.x as int, other.x as int, VEC3_BOUND as int);
            lemma_product_bound(self.y as int, other.y as int, VEC3_BOUND as int);
            lemma_product_bound(self.z as int, other.z as int, VEC3_BOUND as int);
        }
        self.x * other.x + self.y * other.y + self.z * other.z
    }

    /// The cross product.
    pub fn cross(&self, other: &Vec3) -> (r: Vec3)
        requires
            within3(self@, VEC3_BOUND as int),
            within3(other@, VEC3_BOUND as int),
        ensures
            r@ == cross3(self@, other@),
    {
        proof {
            lemma_product_bound(self.x as int, other.y as int, VEC3_BOUND as int);
            lemma_product_bound(self.x as int, other.z as int, VEC3_BOUND as int);
            lemma_product_bound(self.y as int, other.x as int, VEC3_BOUND as int);
            lemma_product_bound(self.y as int, other.z as int, VEC3_BOUND as int);
            lemma_product_bound(self.z as int, other.x as int, VEC3_BOUND as int);
            lemma_product_bound(self.z as int, other.y as int, VEC3_BOUND as int);
        }
        Vec3 {
            x: self.y * other.z - self.z * other.y,
            y: self.z * other.x - self.x * other.z,
            z: self.x * other.y - self.y * other.x,
        }
    }

    /// The squared length of the vector.
    pub fn magnitude2(&self) -> (r: i64)
        requires
            within3(self@, VEC3_BOUND as int),
        ensures
            r == dot3(self@, self@),
    {
        self.dot(self)
    }

    /// The vector divided by the greatest common divisor of its components:
    /// the shortest integer vector with the same direction. It has unit
    /// length exactly when the vector lies along an axis.
    pub fn reduce(&self) -> (r: Vec3)
        requires
            self@ != (0int, 0int, 0int),
            within3(self@, i64::MAX as int),
        ensures
            gcd3(self.x as int, self.y as int, self.z as int) > 0,
            scale3(r@, gcd3(self.x as int, self.y as int, self.z as int) as int) == self@,
    {
        let g = gcd_u64(gcd_u64(abs_u64(self.x), abs_u64(self.y)), abs_u64(self.z));
        proof {
            lemma_gcd3_divides(self.x as int, self.y as int, self.z as int);
            lemma_gcd_le(self.x as int, self.y as int, self.z as int);
        }
        Vec3 {
            x: div_exact(self.x, g as i64),
            y: div_exact(self.y, g as i64),
            z: div_exact(self.z, g as i64),
        }
    }

    /// Componentwise sum.
    pub fn add_v(&self, other: &Vec3) -> (r: Vec3)
        requires
            within3(add3(self@, other@), i64::MAX as int),
        ensures
            r@ == add3(self@, other@),
    {
        Vec3 { x: self.x + other.x, y: self.y + other.y, z: self.z + other.z }
    }

    /// Every component multiplied by `k`.
    pub fn mul_s(&self, k: i64) -> (r: Vec3)
        requires
            within3(scale3(self@, k as int), i64::MAX as int),
        ensures
            r@ == scale3(self@, k as int),
    {
        Vec3 { x: self.x * k, y: self.y * k, z: self.z * k }
    }

    pub fn approx_epsilon() -> (r: i64)
        ensures
            r == DEFAULT_EPSILON,
    {
        DEFAULT_EPSILON
    }

    /// Every component of `self` is within `epsilon` of that of `other`.
    pub fn approx_eq_eps(&self, other: &Vec3, epsilon: i64) -> (r: bool)
        ensures
            r == approx_eq3(self@, other@, epsilon as int),
    {
        scalar_approx_eq_eps(self.x, other.x, epsilon) && scalar_approx_eq_eps(self.y, other.y, epsilon)
            && scalar_approx_eq_eps(self.z, other.z, epsilon)
    }

    pub fn approx_eq(&self, other: &Vec3) -> (r: bool)
        ensures
            r == approx_eq3(self@, other@, DEFAULT_EPSILON as int),
    {
        self.approx_eq_eps(other, DEFAULT_EPSILON)
    }
}

impl Vec4 {
    pub fn new(x: i64, y: i64, z: i64, w: i64) -> (r: Vec4)
        ensures
            r.x == x && r.y == y && r.z == z && r.w == w,
    {
        Vec4 { x, y, z, w }
    }
}

/// A 3×3 matrix held as three column vectors.
#[derive(Clone, Copy, Debug, PartialEq, Eq, Structural)]
pub struct Mat3 {
    pub x: Vec3,
    pub y: Vec3,
    pub z: Vec3,
}

impl Mat3 {
    /// A matrix from its nine entries, column by column: `cXrY` is the entry
    /// of column `X` and row `Y`.
    pub fn new(
        c0r0: i64,
        c0r1: i64,
        c0r2: i64,
        c1r0: i64,
        c1r1: i64,
        c1r2: i64,
        c2r0: i64,
        c2r1: i64,
        c2r2: i64,
    ) -> (r: Mat3)
        ensures
            r.x@ == (c0r0 as int, c0r1 as int, c0r2 as int),
            r.y@ == (c1r0 as int, c1r1 as int, c1r2 as int),
            r.z@ == (c2r0 as int, c2r1 as int, c2r2 as int),
    {
        Mat3 {
            x: Vec3 { x: c0r0, y: c0r1, z: c0r2 },
            y: Vec3 { x: c1r0, y: c1r1, z: c1r2 },
            z: Vec3 { x: c2r0, y: c2r1, z: c2r2 },
        }
    }

    /// The identity matrix.
    pub fn identity() -> (r: Mat3)
        ensures
            r.x@ == (1int, 0int, 0int),
            r.y@ == (0int, 1int, 0int),
            r.z@ == (0int, 0int, 1int),
    {
        Mat3::new(1, 0, 0, 0, 1, 0, 0, 0, 1)
    }
}

pub proof fn lemma_product_bound(a: int, b: int, bound: int)
    requires
        within(a, bound),
        within(b, bound),
    ensures
        within(a * b, bound * bound),
{
    assert(-(bound * bound) <= a * b <= bound * bound) by (nonlinear_arith)
        requires
            -bound <= a <= bound,
            -bound <= b <= bound,
    ;
}

pub proof fn lemma_square_bound(a: int, bound: int)
    requires
        within(a, bound),
    ensures
        0 <= a * a <= bound * bound,
{
    assert(0 <= a * a <= bound * bound) by (nonlinear_arith)
        requires
            -bound <= a <= bound,
    ;
}

pub proof fn lemma_mul_within(a: int, b: int, x: int, y: int)
    requires
        within(a, x),
        within(b, y),
    ensures
        within(a * b, x * y),
{
    assert(-(x * y) <= a * b <= x * y) by (nonlinear_arith)
        requires
            -x <= a <= x,
            -y <= b <= y,
    ;
}

pub proof fn lemma_dot_within(a: Triple, b: Triple, x: int, y: int)
    requires
        within3(a, x),
        within3(b, y),
    ensures
        within(dot3(a, b), 3 * (x * y)),
{
    lemma_mul_within(a.0, b.0, x, y);
    lemma_mul_within(a.1, b.1, x, y);
    lemma_mul_within(a.2, b.2, x, y);
}

pub proof fn lemma_cross_within(a: Triple, b: Triple, x: int, y: int)
    requires
        within3(a, x),
        within3(b, y),
    ensures
        within3(cross3(a, b), 2 * (x * y)),
{
    lemma_mul_within(a.0, b.1, x, y);
    lemma_mul_within(a.0, b.2, x, y);
    lemma_mul_within(a.1, b.0, x, y);
    lemma_mul_within(a.1, b.2, x, y);
    lemma_mul_within(a.2, b.0, x, y);
    lemma_mul_within(a.2, b.1, x, y);
}

pub proof fn lemma_scale_within(a: Triple, k: int, x: int, y: int)
    requires
        within3(a, x),
        within(k, y),
    ensures
        within3(scale3(a, k), x * y),
{
    lemma_mul_within(a.0, k, x, y);
    lemma_mul_within(a.1, k, x, y);
    lemma_mul_within(a.2, k, x, y);
}

proof fn lemma_scalar_dot_scale(n0: int, n1: int, n2: int, p0: int, p1: int, p2: int, k: int)
    ensures
        n0 * (p0 * k) + n1 * (p1 * k) + n2 * (p2 * k) == (n0 * p0 + n1 * p1 + n2 * p2) * k,
{
    assert(n0 * (p0 * k) == (n0 * p0) * k) by (nonlinear_arith);
    assert(n1 * (p1 * k) == (n1 * p1) * k) by (nonlinear_arith);
    assert(n2 * (p2 * k) == (n2 * p2) * k) by (nonlinear_arith);
    let (x, y, z) = (n0 * p0, n1 * p1, n2 * p2);
    assert((x + y + z) * k == x * k + y * k + z * k) by (nonlinear_arith);
}

/// Scaling one side scales the dot product.
pub proof fn lemma_dot_scale(n: Triple, p: Triple, k: int)
    ensures
        dot3(n, scale3(p, k)) == dot3(n, p) * k,
{
    lemma_scalar_dot_scale(n.0, n.1, n.2, p.0, p.1, p.2, k);
}

proof fn lemma_scalar_dot_add(n0: int, n1: int, n2: int, x0: int, x1: int, x2: int, y0: int, y1: int, y2: int)
    ensures
        n0 * (x0 + y0) + n1 * (x1 + y1) + n2 * (x2 + y2) == (n0 * x0 + n1 * x1 + n2 * x2) + (n0 * y0
            + n1 * y1 + n2 * y2),
        n0 * (x0 - y0) + n1 * (x1 - y1) + n2 * (x2 - y2) == (n0 * x0 + n1 * x1 + n2 * x2) - (n0 * y0
            + n1 * y1 + n2 * y2),
{
    assert(n0 * (x0 + y0) + n1 * (x1 + y1) + n2 * (x2 + y2) == (n0 * x0 + n1 * x1 + n2 * x2) + (n0
        * y0 + n1 * y1 + n2 * y2)) by (nonlinear_arith);
    assert(n0 * (x0 - y0) + n1 * (x1 - y1) + n2 * (x2 - y2) == (n0 * x0 + n1 * x1 + n2 * x2) - (n0
        * y0 + n1 * y1 + n2 * y2)) by (nonlinear_arith);
}

/// The dot product distributes over sums and differences.
pub proof fn lemma_dot_add(n: Triple, x: Triple, y: Triple)
    ensures
        dot3(n, add3(x, y)) == dot3(n, x) + dot3(n, y),
        dot3(n, sub3(x, y)) == dot3(n, x) - dot3(n, y),
{
    lemma_scalar_dot_add(n.0, n.1, n.2, x.0, x.1, x.2, y.0, y.1, y.2);
}

proof fn lemma_scalar_triple(a0: int, a1: int, a2: int, b0: int, b1: int, b2: int, c0: int, c1: int, c2: int)
    ensures
        a0 * (a1 * b2 - a2 * b1) + a1 * (a2 * b0 - a0 * b2) + a2 * (a0 * b1 - a1 * b0) == 0,
        b0 * (a1 * b2 - a2 * b1) + b1 * (a2 * b0 - a0 * b2) + b2 * (a0 * b1 - a1 * b0) == 0,
        b0 * (c1 * a2 - c2 * a1) + b1 * (c2 * a0 - c0 * a2) + b2 * (c0 * a1 - c1 * a0) == a0 * (b1
            * c2 - b2 * c1) + a1 * (b2 * c0 - b0 * c2) + a2 * (b0 * c1 - b1 * c0),
        c0 * (a1 * b2 - a2 * b1) + c1 * (a2 * b0 - a0 * b2) + c2 * (a0 * b1 - a1 * b0) == a0 * (b1
            * c2 - b2 * c1) + a1 * (b2 * c0 - b0 * c2) + a2 * (b0 * c1 - b1 * c0),
{
    assert(a0 * (a1 * b2 - a2 * b1) + a1 * (a2 * b0 - a0 * b2) + a2 * (a0 * b1 - a1 * b0) == 0)
        by (nonlinear_arith);
    assert(b0 * (a1 * b2 - a2 * b1) + b1 * (a2 * b0 - a0 * b2) + b2 * (a0 * b1 - a1 * b0) == 0)
        by (nonlinear_arith);
    assert(b0 * (c1 * a2 - c2 * a1) == a2 * (b0 * c1) - a1 * (b0 * c2)) by (nonlinear_arith);
    assert(b1 * (c2 * a0 - c0 * a2) == a0 * (b1 * c2) - a2 * (b1 * c0)) by (nonlinear_arith);
    assert(b2 * (c0 * a1 - c1 * a0) == a1 * (b2 * c0) - a0 * (b2 * c1)) by (nonlinear_arith);
    assert(a0 * (b1 * c2 - b2 * c1) == a0 * (b1 * c2) - a0 * (b2 * c1)) by (nonlinear_arith);
    assert(a1 * (b2 * c0 - b0 * c2) == a1 * (b2 * c0) - a1 * (b0 * c2)) by (nonlinear_arith);
    assert(a2 * (b0 * c1 - b1 * c0) == a2 * (b0 * c1) - a2 * (b1 * c0)) by (nonlinear_arith);
    assert(c0 * (a1 * b2 - a2 * b1) == a1 * (b2 * c0) - a2 * (b1 * c0)) by (nonlinear_arith);
    assert(c1 * (a2 * b0 - a0 * b2) == a2 * (b0 * c1) - a0 * (b2 * c1)) by (nonlinear_arith);
    assert(c2 * (a0 * b1 - a1 * b0) == a0 * (b1 * c2) - a1 * (b0 * c2)) by (nonlinear_arith);
}

/// The cross product is perpendicular to both factors, and the triple
/// product is invariant under cyclic permutation.
pub proof fn lemma_triple_product(a: Triple, b: Triple, c: Triple)
    ensures
        dot3(a, cross3(a, b)) == 0,
        dot3(b, cross3(a, b)) == 0,
        dot3(b, cross3(c, a)) == dot3(a, cross3(b, c)),
        dot3(c, cross3(a, b)) == dot3(a, cross3(b, c)),
{
    lemma_scalar_triple(a.0, a.1, a.2, b.0, b.1, b.2, c.0, c.1, c.2);
}

} // verus!
