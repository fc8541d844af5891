//! Positions in two and three dimensions, and rays rooted at them.
//!
//! A point is not a vector: the difference of two points is a displacement
//! vector, and a point moved by a vector is a point.

use vstd::prelude::*;
use crate::scalar::{approx_eq_spec, approx_eq_eps as scalar_approx_eq_eps, gcd3, is_floor_sqrt, isqrt, within, DEFAULT_EPSILON};
use crate::vector::{Triple, Vec2, Vec3, Vec4, add3, sub3, scale3, dot3, within3, approx_eq3, lemma_square_bound, VEC3_BOUND};

verus! {

/// Largest magnitude of a coordinate (and of an offset or a factor) that the
/// point operations accept: differences of two such coordinates stay within
/// `VEC3_BOUND`, and squared distances within `i64`.
pub const POINT_BOUND: i64 = 0x1000_0000;

/// The operations shared by the point types of every dimension.
pub trait Point<V, R>: Sized {
    /// Every coordinate lies within `POINT_BOUND`.
    spec fn bounded(&self) -> bool;

    /// Every component of `v` lies within `POINT_BOUND`.
    spec fn bounded_vec(v: V) -> bool;

    /// Moves the point by `offset`.
    fn translate_v(&self, offset: &V) -> Self
        requires
            self.bounded(),
            Self::bounded_vec(*offset),
    ;

    /// Scales the distance from the origin by `factor`.
    fn scale_s(&self, factor: i64) -> Self
        requires
            self.bounded(),
            within(factor as int, POINT_BOUND as int),
    ;

    /// Scales the distance from the origin componentwise by `factor`.
    fn scale_v(&self, factor: &V) -> Self
        requires
            self.bounded(),
            Self::bounded_vec(*factor),
    ;

    /// The displacement from `other` to `self`: `self - other`.
    fn displacement(&self, other: &Self) -> V
        requires
            self.bounded(),
            other.bounded(),
    ;

    /// The squared Euclidean distance to `other`.
    fn distance2(&self, other: &Self) -> i64
        requires
            self.bounded(),
            other.bounded(),
    ;

    /// The Euclidean distance to `other`, rounded down.
    fn distance(&self, other: &Self) -> i64
        requires
            self.bounded(),
            other.bounded(),
    ;

    /// The direction from `self` toward `other`: `other - self` divided by
    /// the greatest common divisor of its components. It has unit length
    /// exactly when the two points differ along one axis only.
    fn direction(&self, other: &Self) -> V
        requires
            self.bounded(),
            other.bounded(),
            *self != *other,
    ;

    /// The ray rooted at `self` that points along `direction(other)`.
    fn ray_to(&self, other: &Self) -> R
        requires
            self.bounded(),
            other.bounded(),
            *self != *other,
    ;
}

/// A position in two dimensions.
#[derive(Clone, Copy, Debug, PartialEq, Eq, Structural)]
pub struct Point2 {
    pub x: i64,
    pub y: i64,
}

/// A position in three dimensions.
#[derive(Clone, Copy, Debug, PartialEq, Eq, Structural)]
pub struct Point3 {
    pub x: i64,
    pub y: i64,
    pub z: i64,
}

/// A half-line in two dimensions.
#[derive(Clone, Copy, Debug, PartialEq, Eq, Structural)]
pub struct Ray2 {
    pub origin: Point2,
    pub direction: Vec2,
}

/// A half-line in three dimensions.
#[derive(Clone, Copy, Debug, PartialEq, Eq, Structural)]
pub struct Ray3 {
    pub origin: Point3,
    pub direction: Vec3,
}

impl View for Point3 {
    type V = Triple;

    open spec fn view(&self) -> Triple {
        (self.x as int, self.y as int, self.z as int)
    }
}

impl Ray2 {
    pub fn new(origin: Point2, direction: Vec2) -> (r: Ray2)
        ensures
            r.origin == origin && r.direction == direction,
    {
        Ray2 { origin, direction }
    }
}

impl Ray3 {
    pub fn new(origin: Point3, direction: Vec3) -> (r: Ray3)
        ensures
            r.origin == origin && r.direction == direction,
    {
        Ray3 { origin, direction }
    }
}

/// Views a vector as the point it reaches from the origin.
pub trait AsPoint2 {
    fn as_point2(&self) -> Point2;
}

/// Views a vector as the point it reaches from the origin.
pub trait AsPoint3 {
    fn as_point3(&self) -> Point3;
}

impl AsPoint2 for Vec2 {
    fn as_point2(&self) -> (r: Point2)
        ensures
            r.x == self.x && r.y == self.y,
    {
        Point2 { x: self.x, y: self.y }
    }
}

impl AsPoint3 for Vec3 {
    fn as_point3(&self) -> (r: Point3)
        ensures
            r@ == self@,
    {
        Point3 { x: self.x, y: self.y, z: self.z }
    }
}

impl Point2 {
    /// A point from its two coordinates.
    pub fn new(x: i64, y: i64) -> (r: Point2)
        ensures
            r.x == x && r.y == y,
    {
        Point2 { x, y }
    }

    /// The point that `vec` reaches from the origin.
    pub fn from_vec2(vec: Vec2) -> (r: Point2)
        ensures
            r.x == vec.x && r.y == vec.y,
    {
        Point2 { x: vec.x, y: vec.y }
    }

    /// The coordinate `[0, 0]`.
    pub fn origin() -> (r: Point2)
        ensures
            r.x == 0 && r.y == 0,
    {
        Point2::new(0, 0)
    }

    /// The vector from the origin to the point.
    pub fn as_vec2(&self) -> (r: Vec2)
        ensures
            r.x == self.x && r.y == self.y,
    {
        Vec2 { x: self.x, y: self.y }
    }

    /// The point in homogeneous coordinates: `[x, y] -> [x, y, 1]`.
    pub fn to_vec3(&self) -> (r: Vec3)
        ensures
            r@ == (self.x as int, self.y as int, 1int),
    {
        Vec3 { x: self.x, y: self.y, z: 1 }
    }

    pub fn approx_epsilon() -> (r: i64)
        ensures
            r == DEFAULT_EPSILON,
    {
        DEFAULT_EPSILON
    }

    /// Every coordinate of `self` is within `epsilon` of that of `other`.
    pub fn approx_eq_eps(&self, other: &Point2, epsilon: i64) -> (r: bool)
        ensures
            r == (approx_eq_spec(self.x as int, other.x as int, epsilon as int)
                && approx_eq_spec(self.y as int, other.y as int, epsilon as int)),
    {
        scalar_approx_eq_eps(self.x, other.x, epsilon) && scalar_approx_eq_eps(self.y, other.y, epsilon)
    }

    pub fn approx_eq(&self, other: &Point2) -> (r: bool)
        ensures
            r == (approx_eq_spec(self.x as int, other.x as int, DEFAULT_EPSILON as int)
                && approx_eq_spec(self.y as int, other.y as int, DEFAULT_EPSILON as int)),
    {
        self.approx_eq_eps(other, DEFAULT_EPSILON)
    }
}

impl Point<Vec2, Ray2> for Point2 {
    open spec fn bounded(&self) -> bool {
        within(self.x as int, POINT_BOUND as int) && within(self.y as int, POINT_BOUND as int)
    }

    open spec fn bounded_vec(v: Vec2) -> bool {
        within(v.x as int, POINT_BOUND as int) && within(v.y as int, POINT_BOUND as int)
    }

    fn translate_v(&self, offset: &Vec2) -> (r: Point2)
        ensures
            r.x == self.x + offset.x && r.y == self.y + offset.y,
    {
        Point2::new(self.x + offset.x, self.y + offset.y)
    }

    fn scale_s(&self, factor: i64) -> (r: Point2)
        ensures
            r.x == self.x * factor && r.y == self.y * factor,
    {
        proof {
            crate::vector::lemma_product_bound(self.x as int, factor as int, POINT_BOUND as int);
            crate::vector::lemma_product_bound(self.y as int, factor as int, POINT_BOUND as int);
        }
        Point2::new(self.x * factor, self.y * factor)
    }

    fn scale_v(&self, factor: &Vec2) -> (r: Point2)
        ensures
            r.x == self.x * factor.x && r.y == self.y * factor.y,
    {
        proof {
            crate::vector::lemma_product_bound(self.x as int, factor.x as int, POINT_BOUND as int);
            crate::vector::lemma_product_bound(self.y as int, factor.y as int, POINT_BOUND as int);
        }
        Point2::new(self.x * factor.x, self.y * factor.y)
    }

    fn displacement(&self, other: &Point2) -> (r: Vec2)
        ensures
            r.x == self.x - other.x && r.y == self.y - other.y,
    {
        Vec2::new(self.x - other.x, self.y - other.y)
    }

    fn distance2(&self, other: &Point2) -> (r: i64)
        ensures
            r == (other.x - self.x) * (other.x - self.x) + (other.y - self.y) * (other.y - self.y),
    {
        other.displacement(self).magnitude2()
    }

    fn distance(&self, other: &Point2) -> (r: i64)
        ensures
            is_floor_sqrt(
                r as int,
                (other.x - self.x) * (other.x - self.x) + (other.y - self.y) * (other.y - self.y),
            ),
    {
        let d2 = self.distance2(other);
        proof {
            lemma_square_bound(other.x - self.x, VEC3_BOUND as int);
            lemma_square_bound(other.y - self.y, VEC3_BOUND as int);
        }
        isqrt(d2 as u64) as i64
    }

    fn direction(&self, other: &Point2) -> (r: Vec2)
        ensures
            gcd3(other.x - self.x, other.y - self.y, 0) > 0,
            r.x * gcd3(other.x - self.x, other.y - self.y, 0) == other.x - self.x,
            r.y * gcd3(other.x - self.x, other.y - self.y, 0) == other.y - self.y,
    {
        other.displacement(self).reduce()
    }

    fn ray_to(&self, other: &Point2) -> (r: Ray2)
        ensures
            r.origin == *self,
            gcd3(other.x - self.x, other.y - self.y, 0) > 0,
            r.direction.x * gcd3(other.x - self.x, other.y - self.y, 0) == other.x - self.x,
            r.direction.y * gcd3(other.x - self.x, other.y - self.y, 0) == other.y - self.y,
    {
        Ray2::new(*self, self.direction(other))
    }
}

impl Point3 {
    /// A point from its three coordinates.
    pub fn new(x: i64, y: i64, z: i64) -> (r: Point3)
        ensures
            r@ == (x as int, y as int, z as int),
    {
        Point3 { x, y, z }
    }

    /// The point that `vec` reaches from the origin.
    pub fn from_vec3(vec: Vec3) -> (r: Point3)
        ensures
            r@ == vec@,
    {
        Point3 { x: vec.x, y: vec.y, z: vec.z }
    }

    /// The coordinate `[0, 0, 0]`.
    pub fn origin() -> (r: Point3)
        ensures
            r@ == (0int, 0int, 0int),
    {
        Point3::new(0, 0, 0)
    }

    /// The vector from the origin to the point.
    pub fn as_vec3(&self) -> (r: Vec3)
        ensures
            r@ == self@,
    {
        Vec3 { x: self.x, y: self.y, z: self.z }
    }

    /// The point in homogeneous coordinates: `[x, y, z] -> [x, y, z, 1]`.
    pub fn to_vec4(&self) -> (r: Vec4)
        ensures
            r.x == self.x && r.y == self.y && r.z == self.z && r.w == 1,
    {
        Vec4 { x: self.x, y: self.y, z: self.z, w: 1 }
    }

    pub fn approx_epsilon() -> (r: i64)
        ensures
            r == DEFAULT_EPSILON,
    {
        DEFAULT_EPSILON
    }

    /// Every coordinate of `self` is within `epsilon` of that of `other`.
    pub fn approx_eq_eps(&self, other: &Point3, epsilon: i64) -> (r: bool)
        ensures
            r == approx_eq3(self@, other@, epsilon as int),
    {
        scalar_approx_eq_eps(self.x, other.x, epsilon) && scalar_approx_eq_eps(self.y, other.y, epsilon)
            && scalar_approx_eq_eps(self.z, other.z, epsilon)
    }

    pub fn approx_eq(&self, other: &Point3) -> (r: bool)
        ensures
            r == approx_eq3(self@, other@, DEFAULT_EPSILON as int),
    {
        self.approx_eq_eps(other, DEFAULT_EPSILON)
    }
}

impl Point<Vec3, Ray3> for Point3 {
    open spec fn bounded(&self) -> bool {
        within3(self@, POINT_BOUND as int)
    }

    open spec fn bounded_vec(v: Vec3) -> bool {
        within3(v@, POINT_BOUND as int)
    }

    fn translate_v(&self, offset: &Vec3) -> (r: Point3)
        ensures
            r@ == add3(self@, offset@),
    {
        Point3::new(self.x + offset.x, self.y + offset.y, self.z + offset.z)
    }

    fn scale_s(&self, factor: i64) -> (r: Point3)
        ensures
            r@ == scale3(self@, factor as int),
    {
        proof {
            crate::vector::lemma_product_bound(self.x as int, factor as int, POINT_BOUND as int);
            crate::vector::lemma_product_bound(self.y as int, factor as int, POINT_BOUND as int);
            crate::vector::lemma_product_bound(self.z as int, factor as int, POINT_BOUND as int);
        }
        Point3::new(self.x * factor, self.y * factor, self.z * factor)
    }

    fn scale_v(&self, factor: &Vec3) -> (r: Point3)
        ensures
            r@ == (self.x * factor.x, self.y * factor.y, self.z * factor.z),
    {
        proof {
            crate::vector::lemma_product_bound(self.x as int, factor.x as int, POINT_BOUND as int);
            crate::vector::lemma_product_bound(self.y as int, factor.y as int, POINT_BOUND as int);
            crate::vector::lemma_product_bound(self.z as int, factor.z as int, POINT_BOUND as int);
        }
        Point3::new(self.x * factor.x, self.y * factor.y, self.z * factor.z)
    }

    fn displacement(&self, other: &Point3) -> (r: Vec3)
        ensures
            r@ == sub3(self@, other@),
    {
        Vec3::new(self.x - other.x, self.y - other.y, self.z - other.z)
    }

    fn distance2(&self, other: &Point3) -> (r: i64)
        ensures
            r == dot3(sub3(other@, self@), sub3(other@, self@)),
    {
        other.displacement(self).magnitude2()
    }

    fn distance(&self, other: &Point3) -> (r: i64)
        ensures
            is_floor_sqrt(r as int, dot3(sub3(other@, self@), sub3(other@, self@))),
    {
        let d2 = self.distance2(other);
        proof {
            lemma_square_bound(other.x - self.x, VEC3_BOUND as int);
            lemma_square_bound(other.y - self.y, VEC3_BOUND as int);
            lemma_square_bound(other.z - self.z, VEC3_BOUND as int);
        }
        isqrt(d2 as u64) as i64
    }

    fn direction(&self, other: &Point3) -> (r: Vec3)
        ensures
            ({
                let d = sub3(other@, self@);
                gcd3(d.0, d.1, d.2) > 0 && scale3(r@, gcd3(d.0, d.1, d.2) as int) == d
            }),
    {
        other.displacement(self).reduce()
    }

    fn ray_to(&self, other: &Point3) -> (r: Ray3)
        ensures
            r.origin == *self,
            ({
                let d = sub3(other@, self@);
                gcd3(d.0, d.1, d.2) > 0 && scale3(r.direction@, gcd3(d.0, d.1, d.2) as int) == d
            }),
    {
        Ray3::new(*self, self.direction(other))
    }
}

} // verus!
