//! Quaternions in scalar/vector form: `s + v.x i + v.y j + v.z k`.

use vstd::prelude::*;
use crate::scalar::{approx_eq_spec, approx_eq_eps as scalar_approx_eq_eps, is_floor_sqrt, isqrt, within, DEFAULT_EPSILON};
use crate::vector::{
    Mat3, Triple, Vec3, add3, approx_eq3, cross3, scale3, within3, lemma_cross_within, lemma_mul_within,
    lemma_square_bound,
};

verus! {

/// Four mathematical integers `(s, x, y, z)`: the model of a quaternion.
pub type Quad = (int, int, int, int);

/// Largest magnitude of a component that the quadratic operations accept
/// (`mul_q`, `dot`, `magnitude2`, `to_mat3`).
pub const QUAT_BOUND: i64 = 0x4000_0000;

/// Largest magnitude of a component of the quaternion and of the vector that
/// `mul_v` accepts: its result is cubic in them.
pub const ROTATE_BOUND: i64 = 0x8_0000;

/// The Hamilton product `a b`.
pub open spec fn hamilton(a: Quad, b: Quad) -> Quad {
    (
        a.0 * b.0 - a.1 * b.1 - a.2 * b.2 - a.3 * b.3,
        a.0 * b.1 + a.1 * b.0 + a.2 * b.3 - a.3 * b.2,
        a.0 * b.2 + a.2 * b.0 + a.3 * b.1 - a.1 * b.3,
        a.0 * b.3 + a.3 * b.0 + a.1 * b.2 - a.2 * b.1,
    )
}

pub open spec fn dot4(a: Quad, b: Quad) -> int {
    a.0 * b.0 + a.1 * b.1 + a.2 * b.2 + a.3 * b.3
}

pub open spec fn add4(a: Quad, b: Quad) -> Quad {
    (a.0 + b.0, a.1 + b.1, a.2 + b.2, a.3 + b.3)
}

pub open spec fn sub4(a: Quad, b: Quad) -> Quad {
    (a.0 - b.0, a.1 - b.1, a.2 - b.2, a.3 - b.3)
}

pub open spec fn scale4(a: Quad, k: int) -> Quad {
    (a.0 * k, a.1 * k, a.2 * k, a.3 * k)
}

pub open spec fn within4(a: Quad, b: int) -> bool {
    within(a.0, b) && within(a.1, b) && within(a.2, b) && within(a.3, b)
}

/// The vector part of a quaternion model.
pub open spec fn vec_part(q: Quad) -> Triple {
    (q.1, q.2, q.3)
}

/// `w` rotated by `q` in the double cross-product form:
/// `w + 2 v × (v × w + s w)`.
pub open spec fn rotate_spec(q: Quad, w: Triple) -> Triple {
    let v = vec_part(q);
    add3(w, scale3(cross3(v, add3(cross3(v, w), scale3(w, q.0))), 2))
}

/// The columns of the rotation matrix of `q`, from the products of twice
/// each vector component with the other components.
pub open spec fn rotation_matrix(q: Quad) -> (Triple, Triple, Triple) {
    let (s, x, y, z) = q;
    (
        (1 - 2 * y * y - 2 * z * z, 2 * x * y + 2 * z * s, 2 * x * z - 2 * y * s),
        (2 * x * y - 2 * z * s, 1 - 2 * x * x - 2 * z * z, 2 * y * z + 2 * x * s),
        (2 * x * z + 2 * y * s, 2 * y * z - 2 * x * s, 1 - 2 * x * x - 2 * y * y),
    )
}

/// Conversion to a quaternion.
pub trait ToQuat {
    fn to_quat(&self) -> Quat;
}

/// A quaternion `s + v.x i + v.y j + v.z k`.
#[derive(Clone, Copy, Debug, PartialEq, Eq, Structural)]
pub struct Quat {
    pub s: i64,
    pub v: Vec3,
}

impl View for Quat {
    type V = Quad;

    open spec fn view(&self) -> Quad {
        (self.s as int, self.v.x as int, self.v.y as int, self.v.z as int)
    }
}

impl Quat {
    /// The quaternion `w + xi i + yj j + zk k`.
    pub fn new(w: i64, xi: i64, yj: i64, zk: i64) -> (r: Quat)
        ensures
            r@ == (w as int, xi as int, yj as int, zk as int),
    {
        Quat::from_sv(w, Vec3::new(xi, yj, zk))
    }

    /// The quaternion with scalar part `s` and vector part `v`.
    pub fn from_sv(s: i64, v: Vec3) -> (r: Quat)
        ensures
            r.s == s,
            r.v == v,
    {
        Quat { s, v }
    }

    /// The multiplicative identity `1 + 0i + 0j + 0k`.
    pub fn identity() -> (r: Quat)
        ensures
            r@ == (1int, 0int, 0int, 0int),
    {
        Quat::from_sv(1, Vec3::zero())
    }

    /// The additive identity `0 + 0i + 0j + 0k`.
    pub fn zero() -> (r: Quat)
        ensures
            r@ == (0int, 0int, 0int, 0int),
    {
        Quat::new(0, 0, 0, 0)
    }

    /// Every component multiplied by `value`.
    pub fn mul_s(&self, value: i64) -> (r: Quat)
        requires
            within4(scale4(self@, value as int), i64::MAX as int),
        ensures
            r@ == scale4(self@, value as int),
    {
        Quat::from_sv(self.s * value, self.v.mul_s(value))
    }

    /// The componentwise sum.
    pub fn add_q(&self, other: &Quat) -> (r: Quat)
        requires
            within4(add4(self@, other@), i64::MAX as int),
        ensures
            r@ == add4(self@, other@),
    {
        Quat::new(self.s + other.s, self.v.x + other.v.x, self.v.y + other.v.y, self.v.z + other.v.z)
    }

    /// The componentwise difference.
    pub fn sub_q(&self, other: &Quat) -> (r: Quat)
        requires
            within4(sub4(self@, other@), i64::MAX as int),
        ensures
            r@ == sub4(self@, other@),
    {
        Quat::new(self.s - other.s, self.v.x - other.v.x, self.v.y - other.v.y, self.v.z - other.v.z)
    }

    /// The Hamilton product `self other`.
    pub fn mul_q(&self, other: &Quat) -> (r: Quat)
        requires
            within4(self@, QUAT_BOUND as int),
            within4(other@, QUAT_BOUND as int),
        ensures
            r@ == hamilton(self@, other@),
    {
        let ghost b = QUAT_BOUND as int;
        proof {
            lemma_products_within(self@, other@, b);
        }
        let (s, x, y, z) = (self.s, self.v.x, self.v.y, self.v.z);
        let (os, ox, oy, oz) = (other.s, other.v.x, other.v.y, other.v.z);
        Quat::new(
            s * os - x * ox - y * oy - z * oz,
            s * ox + x * os + y * oz - z * oy,
            s * oy + y * os + z * ox - x * oz,
            s * oz + z * os + x * oy - y * ox,
        )
    }

    /// The four-dimensional dot product.
    pub fn dot(&self, other: &Quat) -> (r: i64)
        requires
            within4(self@, QUAT_BOUND as int),
            within4(other@, QUAT_BOUND as int),
        ensures
            r == dot4(self@, other@),
    {
        proof {
            lemma_products_within(self@, other@, QUAT_BOUND as int);
        }
        self.s * other.s + self.v.x * other.v.x + self.v.y * other.v.y + self.v.z * other.v.z
    }

    /// The conjugate: the vector part negated.
    pub fn conjugate(&self) -> (r: Quat)
        requires
            self.v.x > i64::MIN && self.v.y > i64::MIN && self.v.z > i64::MIN,
        ensures
            r@ == (self@.0, -self@.1, -self@.2, -self@.3),
    {
        Quat::new(self.s, -self.v.x, -self.v.y, -self.v.z)
    }

    /// Every component negated.
    pub fn neg(&self) -> (r: Quat)
        requires
            self.s > i64::MIN && self.v.x > i64::MIN && self.v.y > i64::MIN && self.v.z > i64::MIN,
        ensures
            r@ == scale4(self@, -1),
    {
        Quat::new(-self.s, -self.v.x, -self.v.y, -self.v.z)
    }

    /// The squared norm `s * s + v · v`.
    pub fn magnitude2(&self) -> (r: i64)
        requires
            within4(self@, QUAT_BOUND as int),
        ensures
            r == dot4(self@, self@),
            r >= 0,
    {
        proof {
            lemma_square_bound(self.s as int, QUAT_BOUND as int);
            lemma_square_bound(self.v.x as int, QUAT_BOUND as int);
            lemma_square_bound(self.v.y as int, QUAT_BOUND as int);
            lemma_square_bound(self.v.z as int, QUAT_BOUND as int);
        }
        self.dot(self)
    }

    /// The norm, when it is an integer: `Some(m)` exactly when
    /// `m * m == magnitude2()` for a natural number `m`. In particular the
    /// quaternion has unit norm exactly when this returns `Some(1)`.
    pub fn magnitude(&self) -> (r: Option<i64>)
        requires
            within4(self@, QUAT_BOUND as int),
        ensures
            r.is_some() <==> exists|m: int| 0 <= m && #[trigger] (m * m) == dot4(self@, self@),
            r matches Some(m) ==> 0 <= m && m * m == dot4(self@, self@),
    {
        proof {
            lemma_square_bound(self.s as int, QUAT_BOUND as int);
            lemma_square_bound(self.v.x as int, QUAT_BOUND as int);
            lemma_square_bound(self.v.y as int, QUAT_BOUND as int);
            lemma_square_bound(self.v.z as int, QUAT_BOUND as int);
        }
        let m2 = self.magnitude2();
        let m = isqrt(m2 as u64);
        proof {
            assert(m * m <= 0x4000_0000_0000_0000) by (nonlinear_arith)
                requires
                    m <= 0x8000_0000,
            ;
        }
        if m * m == m2 as u64 {
            Some(m as i64)
        } else {
            proof {
                assert forall|k: int| 0 <= k implies #[trigger] (k * k) != m2 by {
                    lemma_not_square(k, m as int, m2 as int);
                }
            }
            None
        }
    }

    /// `vec` transformed in the double cross-product form
    /// `vec + 2 v × (v × vec + s vec)`. When `magnitude2() == 1` this is the
    /// rotation `q vec q⁻¹`; for other quaternions it is not a rotation.
    pub fn mul_v(&self, vec: &Vec3) -> (r: Vec3)
        requires
            within4(self@, ROTATE_BOUND as int),
            within3(vec@, ROTATE_BOUND as int),
        ensures
            r@ == rotate_spec(self@, vec@),
    {
        let ghost b = ROTATE_BOUND as int;
        proof {
            lemma_cross_within(self.v@, vec@, b, b);
            crate::vector::lemma_scale_within(vec@, self.s as int, b, b);
        }
        let tmp = self.v.cross(vec).add_v(&vec.mul_s(self.s));
        proof {
            lemma_cross_within(self.v@, tmp@, b, 3 * (b * b));
            lemma_mul_within(self.v.x as int, tmp.y as int, b, 3 * (b * b));
            lemma_mul_within(self.v.x as int, tmp.z as int, b, 3 * (b * b));
            lemma_mul_within(self.v.y as int, tmp.x as int, b, 3 * (b * b));
            lemma_mul_within(self.v.y as int, tmp.z as int, b, 3 * (b * b));
            lemma_mul_within(self.v.z as int, tmp.x as int, b, 3 * (b * b));
            lemma_mul_within(self.v.z as int, tmp.y as int, b, 3 * (b * b));
        }
        let v = self.v;
        let c = Vec3::new(v.y * tmp.z - v.z * tmp.y, v.z * tmp.x - v.x * tmp.z, v.x * tmp.y - v.y * tmp.x);
        c.mul_s(2).add_v(vec)
    }

    /// The matrix of `mul_v`, held as columns: column `j` is the image of the
    /// `j`-th basis vector under `mul_v`. It is a rotation matrix when
    /// `magnitude2() == 1`.
    pub fn to_mat3(&self) -> (r: Mat3)
        requires
            within4(self@, QUAT_BOUND as int),
        ensures
            (r.x@, r.y@, r.z@) == rotation_matrix(self@),
    {
        let ghost b = QUAT_BOUND as int;
        proof {
            lemma_mul_within(2 * self.v.x, self.v.y as int, 2 * b, b);
            lemma_mul_within(2 * self.v.x, self.v.z as int, 2 * b, b);
            lemma_mul_within(2 * self.v.y, self.v.z as int, 2 * b, b);
            lemma_mul_within(2 * self.v.x, self.s as int, 2 * b, b);
            lemma_mul_within(2 * self.v.y, self.s as int, 2 * b, b);
            lemma_mul_within(2 * self.v.z, self.s as int, 2 * b, b);
            lemma_mul_within(2 * self.v.x, self.v.x as int, 2 * b, b);
            lemma_mul_within(2 * self.v.y, self.v.y as int, 2 * b, b);
            lemma_mul_within(2 * self.v.z, self.v.z as int, 2 * b, b);
            lemma_square_bound(self.v.x as int, b);
            lemma_square_bound(self.v.y as int, b);
            lemma_square_bound(self.v.z as int, b);
        }
        let x2 = self.v.x + self.v.x;
        let y2 = self.v.y + self.v.y;
        let z2 = self.v.z + self.v.z;

        let xx2 = x2 * self.v.x;
        let xy2 = x2 * self.v.y;
        let xz2 = x2 * self.v.z;

        let yy2 = y2 * self.v.y;
        let yz2 = y2 * self.v.z;
        let zz2 = z2 * self.v.z;

        let sy2 = y2 * self.s;
        let sz2 = z2 * self.s;
        let sx2 = x2 * self.s;

        proof {
            lemma_twice_product(self.v.x as int, self.v.x as int);
            lemma_twice_product(self.v.x as int, self.v.y as int);
            lemma_twice_product(self.v.x as int, self.v.z as int);
            lemma_twice_product(self.v.y as int, self.v.y as int);
            lemma_twice_product(self.v.y as int, self.v.z as int);
            lemma_twice_product(self.v.z as int, self.v.z as int);
            lemma_twice_product(self.v.y as int, self.s as int);
            lemma_twice_product(self.v.z as int, self.s as int);
            lemma_twice_product(self.v.x as int, self.s as int);
        }
        Mat3::new(
            1 - yy2 - zz2,
            xy2 + sz2,
            xz2 - sy2,
            xy2 - sz2,
            1 - xx2 - zz2,
            yz2 + sx2,
            xz2 + sy2,
            yz2 - sx2,
            1 - xx2 - yy2,
        )
    }

    pub fn approx_epsilon() -> (r: i64)
        ensures
            r == DEFAULT_EPSILON,
    {
        DEFAULT_EPSILON
    }

    /// The scalar parts and the vector parts are within `epsilon` of each other.
    pub fn approx_eq_eps(&self, other: &Quat, epsilon: i64) -> (r: bool)
        ensures
            r == (approx_eq_spec(self.s as int, other.s as int, epsilon as int) && approx_eq3(
                self.v@,
                other.v@,
                epsilon as int,
            )),
    {
        scalar_approx_eq_eps(self.s, other.s, epsilon) && self.v.approx_eq_eps(&other.v, epsilon)
    }

    pub fn approx_eq(&self, other: &Quat) -> (r: bool)
        ensures
            r == (approx_eq_spec(self.s as int, other.s as int, DEFAULT_EPSILON as int) && approx_eq3(
                self.v@,
                other.v@,
                DEFAULT_EPSILON as int,
            )),
    {
        self.approx_eq_eps(other, DEFAULT_EPSILON)
    }
}

impl ToQuat for Quat {
    fn to_quat(&self) -> (r: Quat)
        ensures
            r == *self,
    {
        *self
    }
}

/// `to_mat3` and `mul_v` follow one convention: column `j` of the matrix is
/// the image of the `j`-th basis vector under the rotation.
pub proof fn lemma_to_mat3_columns_rotate_basis(q: Quat)
    ensures
        rotation_matrix(q@).0 == rotate_spec(q@, (1, 0, 0)),
        rotation_matrix(q@).1 == rotate_spec(q@, (0, 1, 0)),
        rotation_matrix(q@).2 == rotate_spec(q@, (0, 0, 1)),
{
    let (s, x, y, z) = q@;
    assert(rotation_matrix((s, x, y, z)).0 == rotate_spec((s, x, y, z), (1, 0, 0))) by (nonlinear_arith);
    assert(rotation_matrix((s, x, y, z)).1 == rotate_spec((s, x, y, z), (0, 1, 0))) by (nonlinear_arith);
    assert(rotation_matrix((s, x, y, z)).2 == rotate_spec((s, x, y, z), (0, 0, 1))) by (nonlinear_arith);
}

/// The Hamilton product is associative: `a (b c) == (a b) c`.
pub proof fn lemma_mul_q_associative(a: Quat, b: Quat, c: Quat)
    ensures
        hamilton(a@, hamilton(b@, c@)) == hamilton(hamilton(a@, b@), c@),
{
    lemma_hamilton_associative(a@, b@, c@);
}

proof fn lemma_hamilton_associative(a: Quad, b: Quad, c: Quad)
    ensures
        hamilton(a, hamilton(b, c)) == hamilton(hamilton(a, b), c),
{
    lemma_hamilton_associative_components(a.0, a.1, a.2, a.3, b.0, b.1, b.2, b.3, c.0, c.1, c.2, c.3);
}

/// Both sides of associativity, expanded into the same sixteen monomials
/// `a_p (b_q c_r)` per component.
proof fn lemma_hamilton_associative_components(
    a0: int,
    a1: int,
    a2: int,
    a3: int,
    b0: int,
    b1: int,
    b2: int,
    b3: int,
    c0: int,
    c1: int,
    c2: int,
    c3: int,
)
    ensures
        hamilton((a0, a1, a2, a3), hamilton((b0, b1, b2, b3), (c0, c1, c2, c3))) == hamilton(
            hamilton((a0, a1, a2, a3), (b0, b1, b2, b3)),
            (c0, c1, c2, c3),
        ),
{
    assert(a0 * (b0 * c0 - b1 * c1 - b2 * c2 - b3 * c3) == a0 * (b0 * c0) - a0 * (b1 * c1) - a0 * (b2 * c2) - a0 * (b3 * c3)) by (nonlinear_arith);
    assert(a1 * (b0 * c1 + b1 * c0 + b2 * c3 - b3 * c2) == a1 * (b0 * c1) + a1 * (b1 * c0) + a1 * (b2 * c3) - a1 * (b3 * c2)) by (nonlinear_arith);
    assert(a2 * (b0 * c2 + b2 * c0 + b3 * c1 - b1 * c3) == a2 * (b0 * c2) + a2 * (b2 * c0) + a2 * (b3 * c1) - a2 * (b1 * c3)) by (nonlinear_arith);
    assert(a3 * (b0 * c3 + b3 * c0 + b1 * c2 - b2 * c1) == a3 * (b0 * c3) + a3 * (b3 * c0) + a3 * (b1 * c2) - a3 * (b2 * c1)) by (nonlinear_arith);
    assert((a0 * b0 - a1 * b1 - a2 * b2 - a3 * b3) * c0 == (a0 * b0) * c0 - (a1 * b1) * c0 - (a2 * b2) * c0 - (a3 * b3) * c0) by (nonlinear_arith);
    lemma_mul_assoc(a0, b0, c0);
    lemma_mul_assoc(a1, b1, c0);
    lemma_mul_assoc(a2, b2, c0);
    lemma_mul_assoc(a3, b3, c0);
    assert((a0 * b1 + a1 * b0 + a2 * b3 - a3 * b2) * c1 == (a0 * b1) * c1 + (a1 * b0) * c1 + (a2 * b3) * c1 - (a3 * b2) * c1) by (nonlinear_arith);
    lemma_mul_assoc(a0, b1, c1);
    lemma_mul_assoc(a1, b0, c1);
    lemma_mul_assoc(a2, b3, c1);
    lemma_mul_assoc(a3, b2, c1);
    assert((a0 * b2 + a2 * b0 + a3 * b1 - a1 * b3) * c2 == (a0 * b2) * c2 + (a2 * b0) * c2 + (a3 * b1) * c2 - (a1 * b3) * c2) by (nonlinear_arith);
    lemma_mul_assoc(a0, b2, c2);
    lemma_mul_assoc(a2, b0, c2);
    lemma_mul_assoc(a3, b1, c2);
    lemma_mul_assoc(a1, b3, c2);
    assert((a0 * b3 + a3 * b0 + a1 * b2 - a2 * b1) * c3 == (a0 * b3) * c3 + (a3 * b0) * c3 + (a1 * b2) * c3 - (a2 * b1) * c3) by (nonlinear_arith);
    lemma_mul_assoc(a0, b3, c3);
    lemma_mul_assoc(a3, b0, c3);
    lemma_mul_assoc(a1, b2, c3);
    lemma_mul_assoc(a2, b1, c3);
    assert(a0 * (b0 * c1 + b1 * c0 + b2 * c3 - b3 * c2) == a0 * (b0 * c1) + a0 * (b1 * c0) + a0 * (b2 * c3) - a0 * (b3 * c2)) by (nonlinear_arith);
    assert(a1 * (b0 * c0 - b1 * c1 - b2 * c2 - b3 * c3) == a1 * (b0 * c0) - a1 * (b1 * c1) - a1 * (b2 * c2) - a1 * (b3 * c3)) by (nonlinear_arith);
    assert(a2 * (b0 * c3 + b3 * c0 + b1 * c2 - b2 * c1) == a2 * (b0 * c3) + a2 * (b3 * c0) + a2 * (b1 * c2) - a2 * (b2 * c1)) by (nonlinear_arith);
    assert(a3 * (b0 * c2 + b2 * c0 + b3 * c1 - b1 * c3) == a3 * (b0 * c2) + a3 * (b2 * c0) + a3 * (b3 * c1) - a3 * (b1 * c3)) by (nonlinear_arith);
    assert((a0 * b0 - a1 * b1 - a2 * b2 - a3 * b3) * c1 == (a0 * b0) * c1 - (a1 * b1) * c1 - (a2 * b2) * c1 - (a3 * b3) * c1) by (nonlinear_arith);
    lemma_mul_assoc(a0, b0, c1);
    lemma_mul_assoc(a1, b1, c1);
    lemma_mul_assoc(a2, b2, c1);
    lemma_mul_assoc(a3, b3, c1);
    assert((a0 * b1 + a1 * b0 + a2 * b3 - a3 * b2) * c0 == (a0 * b1) * c0 + (a1 * b0) * c0 + (a2 * b3) * c0 - (a3 * b2) * c0) by (nonlinear_arith);
    lemma_mul_assoc(a0, b1, c0);
    lemma_mul_assoc(a1, b0, c0);
    lemma_mul_assoc(a2, b3, c0);
    lemma_mul_assoc(a3, b2, c0);
    assert((a0 * b2 + a2 * b0 + a3 * b1 - a1 * b3) * c3 == (a0 * b2) * c3 + (a2 * b0) * c3 + (a3 * b1) * c3 - (a1 * b3) * c3) by (nonlinear_arith);
    lemma_mul_assoc(a0, b2, c3);
    lemma_mul_assoc(a2, b0, c3);
    lemma_mul_assoc(a3, b1, c3);
    lemma_mul_assoc(a1, b3, c3);
    assert((a0 * b3 + a3 * b0 + a1 * b2 - a2 * b1) * c2 == (a0 * b3) * c2 + (a3 * b0) * c2 + (a1 * b2) * c2 - (a2 * b1) * c2) by (nonlinear_arith);
    lemma_mul_assoc(a0, b3, c2);
    lemma_mul_assoc(a3, b0, c2);
    lemma_mul_assoc(a1, b2, c2);
    lemma_mul_assoc(a2, b1, c2);
    assert(a0 * (b0 * c2 + b2 * c0 + b3 * c1 - b1 * c3) == a0 * (b0 * c2) + a0 * (b2 * c0) + a0 * (b3 * c1) - a0 * (b1 * c3)) by (nonlinear_arith);
    assert(a2 * (b0 * c0 - b1 * c1 - b2 * c2 - b3 * c3) == a2 * (b0 * c0) - a2 * (b1 * c1) - a2 * (b2 * c2) - a2 * (b3 * c3)) by (nonlinear_arith);
    assert(a3 * (b0 * c1 + b1 * c0 + b2 * c3 - b3 * c2) == a3 * (b0 * c1) + a3 * (b1 * c0) + a3 * (b2 * c3) - a3 * (b3 * c2)) by (nonlinear_arith);
    assert(a1 * (b0 * c3 + b3 * c0 + b1 * c2 - b2 * c1) == a1 * (b0 * c3) + a1 * (b3 * c0) + a1 * (b1 * c2) - a1 * (b2 * c1)) by (nonlinear_arith);
    assert((a0 * b0 - a1 * b1 - a2 * b2 - a3 * b3) * c2 == (a0 * b0) * c2 - (a1 * b1) * c2 - (a2 * b2) * c2 - (a3 * b3) * c2) by (nonlinear_arith);
    lemma_mul_assoc(a0, b0, c2);
    lemma_mul_assoc(a1, b1, c2);
    lemma_mul_assoc(a2, b2, c2);
    lemma_mul_assoc(a3, b3, c2);
    assert((a0 * b2 + a2 * b0 + a3 * b1 - a1 * b3) * c0 == (a0 * b2) * c0 + (a2 * b0) * c0 + (a3 * b1) * c0 - (a1 * b3) * c0) by (nonlinear_arith);
    lemma_mul_assoc(a0, b2, c0);
    lemma_mul_assoc(a2, b0, c0);
    lemma_mul_assoc(a3, b1, c0);
    lemma_mul_assoc(a1, b3, c0);
    assert((a0 * b3 + a3 * b0 + a1 * b2 - a2 * b1) * c1 == (a0 * b3) * c1 + (a3 * b0) * c1 + (a1 * b2) * c1 - (a2 * b1) * c1) by (nonlinear_arith);
    lemma_mul_assoc(a0, b3, c1);
    lemma_mul_assoc(a3, b0, c1);
    lemma_mul_assoc(a1, b2, c1);
    lemma_mul_assoc(a2, b1, c1);
    assert((a0 * b1 + a1 * b0 + a2 * b3 - a3 * b2) * c3 == (a0 * b1) * c3 + (a1 * b0) * c3 + (a2 * b3) * c3 - (a3 * b2) * c3) by (nonlinear_arith);
    lemma_mul_assoc(a0, b1, c3);
    lemma_mul_assoc(a1, b0, c3);
    lemma_mul_assoc(a2, b3, c3);
    lemma_mul_assoc(a3, b2, c3);
    assert(a0 * (b0 * c3 + b3 * c0 + b1 * c2 - b2 * c1) == a0 * (b0 * c3) + a0 * (b3 * c0) + a0 * (b1 * c2) - a0 * (b2 * c1)) by (nonlinear_arith);
    assert(a3 * (b0 * c0 - b1 * c1 - b2 * c2 - b3 * c3) == a3 * (b0 * c0) - a3 * (b1 * c1) - a3 * (b2 * c2) - a3 * (b3 * c3)) by (nonlinear_arith);
    assert(a1 * (b0 * c2 + b2 * c0 + b3 * c1 - b1 * c3) == a1 * (b0 * c2) + a1 * (b2 * c0) + a1 * (b3 * c1) - a1 * (b1 * c3)) by (nonlinear_arith);
    assert(a2 * (b0 * c1 + b1 * c0 + b2 * c3 - b3 * c2) == a2 * (b0 * c1) + a2 * (b1 * c0) + a2 * (b2 * c3) - a2 * (b3 * c2)) by (nonlinear_arith);
    assert((a0 * b0 - a1 * b1 - a2 * b2 - a3 * b3) * c3 == (a0 * b0) * c3 - (a1 * b1) * c3 - (a2 * b2) * c3 - (a3 * b3) * c3) by (nonlinear_arith);
    lemma_mul_assoc(a0, b0, c3);
    lemma_mul_assoc(a1, b1, c3);
    lemma_mul_assoc(a2, b2, c3);
    lemma_mul_assoc(a3, b3, c3);
    assert((a0 * b3 + a3 * b0 + a1 * b2 - a2 * b1) * c0 == (a0 * b3) * c0 + (a3 * b0) * c0 + (a1 * b2) * c0 - (a2 * b1) * c0) by (nonlinear_arith);
    lemma_mul_assoc(a0, b3, c0);
    lemma_mul_assoc(a3, b0, c0);
    lemma_mul_assoc(a1, b2, c0);
    lemma_mul_assoc(a2, b1, c0);
    assert((a0 * b1 + a1 * b0 + a2 * b3 - a3 * b2) * c2 == (a0 * b1) * c2 + (a1 * b0) * c2 + (a2 * b3) * c2 - (a3 * b2) * c2) by (nonlinear_arith);
    lemma_mul_assoc(a0, b1, c2);
    lemma_mul_assoc(a1, b0, c2);
    lemma_mul_assoc(a2, b3, c2);
    lemma_mul_assoc(a3, b2, c2);
    assert((a0 * b2 + a2 * b0 + a3 * b1 - a1 * b3) * c1 == (a0 * b2) * c1 + (a2 * b0) * c1 + (a3 * b1) * c1 - (a1 * b3) * c1) by (nonlinear_arith);
    lemma_mul_assoc(a0, b2, c1);
    lemma_mul_assoc(a2, b0, c1);
    lemma_mul_assoc(a3, b1, c1);
    lemma_mul_assoc(a1, b3, c1);
}

proof fn lemma_mul_assoc(x: int, y: int, z: int)
    ensures
        (x * y) * z == x * (y * z),
{
    assert((x * y) * z == x * (y * z)) by (nonlinear_arith);
}

/// No natural number squares to `n` when its floor square root does not.
proof fn lemma_not_square(k: int, m: int, n: int)
    requires
        0 <= k,
        is_floor_sqrt(m, n),
        m * m != n,
    ensures
        k * k != n,
{
    if k <= m {
        assert(k * k <= m * m) by (nonlinear_arith)
            requires
                0 <= k <= m,
        ;
    } else {
        assert(k * k >= (m + 1) * (m + 1)) by (nonlinear_arith)
            requires
                k >= m + 1,
                m >= 0,
        ;
    }
}

proof fn lemma_twice_product(a: int, b: int)
    ensures
        (a + a) * b == 2 * a * b,
{
    assert((a + a) * b == 2 * a * b) by (nonlinear_arith);
}

/// Every pairwise product of components lies within `b * b`.
proof fn lemma_products_within(p: Quad, q: Quad, b: int)
    requires
        within4(p, b),
        within4(q, b),
    ensures
        within(p.0 * q.0, b * b),
        within(p.0 * q.1, b * b),
        within(p.0 * q.2, b * b),
        within(p.0 * q.3, b * b),
        within(p.1 * q.0, b * b),
        within(p.1 * q.1, b * b),
        within(p.1 * q.2, b * b),
        within(p.1 * q.3, b * b),
        within(p.2 * q.0, b * b),
        within(p.2 * q.1, b * b),
        within(p.2 * q.2, b * b),
        within(p.2 * q.3, b * b),
        within(p.3 * q.0, b * b),
        within(p.3 * q.1, b * b),
        within(p.3 * q.2, b * b),
        within(p.3 * q.3, b * b),
{
    lemma_mul_within(p.0, q.0, b, b);
    lemma_mul_within(p.0, q.1, b, b);
    lemma_mul_within(p.0, q.2, b, b);
    lemma_mul_within(p.0, q.3, b, b);
    lemma_mul_within(p.1, q.0, b, b);
    lemma_mul_within(p.1, q.1, b, b);
    lemma_mul_within(p.1, q.2, b, b);
    lemma_mul_within(p.1, q.3, b, b);
    lemma_mul_within(p.2, q.0, b, b);
    lemma_mul_within(p.2, q.1, b, b);
    lemma_mul_within(p.2, q.2, b, b);
    lemma_mul_within(p.2, q.3, b, b);
    lemma_mul_within(p.3, q.0, b, b);
    lemma_mul_within(p.3, q.1, b, b);
    lemma_mul_within(p.3, q.2, b, b);
    lemma_mul_within(p.3, q.3, b, b);
}

} // verus!
