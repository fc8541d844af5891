//! Planes given by the implicit equation `normal · p + distance = 0`.

use vstd::prelude::*;
use crate::scalar::{
    abs, abs_u64, approx_eq_spec, approx_eq_eps as scalar_approx_eq_eps, div_exact, divides_pos, gcd3, gcd4, gcd_u64,
    lemma_gcd4_divides, within, DEFAULT_EPSILON,
};
use crate::vector::{
    Triple, Vec3, Vec4, add3, approx_eq3, cross3, dot3, scale3, sub3, within3, lemma_cross_within,
    lemma_dot_within, lemma_mul_within, lemma_scale_within, lemma_dot_scale, lemma_dot_add,
    lemma_triple_product, VEC3_BOUND,
};
use crate::point::{Point, Point3, Ray3};

verus! {

/// Largest magnitude of a normal component or a distance term that the
/// three-plane intersection accepts.
pub const PLANE_BOUND: i64 = 0x8_0000;

/// Largest magnitude of a normal component that the two-plane intersection
/// accepts: the cross product of two such normals stays within `PLANE_BOUND`.
pub const PAIR_NORMAL_BOUND: i64 = 0x200;

/// Largest magnitude of a coordinate that `from_3p` accepts.
pub const FROM_3P_BOUND: i64 = 0x2000;

/// The value of the plane equation `n · p + d` at `p`.
pub open spec fn plane_eval(n: Triple, d: int, p: Triple) -> int {
    dot3(n, p) + d
}

/// The determinant of the matrix whose rows are `n0`, `n1` and `n2`.
pub open spec fn det3(n0: Triple, n1: Triple, n2: Triple) -> int {
    dot3(n0, cross3(n1, n2))
}

/// The adjugate of the matrix with rows `n0`, `n1`, `n2` applied to
/// `(d0, d1, d2)`: the solution of the linear system scaled by the determinant.
pub open spec fn adj_apply3(n0: Triple, n1: Triple, n2: Triple, d0: int, d1: int, d2: int) -> Triple {
    add3(add3(scale3(cross3(n1, n2), d0), scale3(cross3(n2, n0), d1)), scale3(cross3(n0, n1), d2))
}

/// The homogeneous point `h` solves `n0 · p = d0`, `n1 · p = d1`,
/// `n2 · p = d2`, with a positive weight.
pub open spec fn solves3_hom(n0: Triple, n1: Triple, n2: Triple, d0: int, d1: int, d2: int, h: Vec4) -> bool {
    &&& h.w > 0
    &&& dot3(n0, hom_xyz(h)) == d0 * h.w
    &&& dot3(n1, hom_xyz(h)) == d1 * h.w
    &&& dot3(n2, hom_xyz(h)) == d2 * h.w
}

/// The normal that `from_3p` derives for the points `a`, `b`, `c`, before
/// it is scaled to unit length.
pub open spec fn raw_normal(a: Triple, b: Triple, c: Triple) -> Triple {
    cross3(sub3(b, a), sub3(c, a))
}

/// `p` is the plane that `from_3p` builds through `a`, `b` and `c`: its
/// normal is `raw_normal` divided by the greatest common divisor of its
/// components, and its distance term puts `a` on the plane.
pub open spec fn is_plane_through(a: Triple, b: Triple, c: Triple, p: Plane3) -> bool {
    let n = raw_normal(a, b, c);
    let g = gcd3(n.0, n.1, n.2) as int;
    &&& g > 0
    &&& scale3(p.normal@, g) == n
    &&& p.distance == -dot3(a, p.normal@)
}

/// The three spatial components of a homogeneous point.
pub open spec fn hom_xyz(h: Vec4) -> Triple {
    (h.x as int, h.y as int, h.z as int)
}

/// `h` is the point `q / w` in homogeneous coordinates, in lowest terms with
/// a positive weight: `(q, w)` with its sign made that of `w` and divided by
/// the greatest common divisor of its four components.
pub open spec fn is_reduced_hom(h: Vec4, q: Triple, w: int) -> bool {
    let s: int = if w > 0 { 1 } else { -1 };
    let g = gcd4(q.0, q.1, q.2, w) as int;
    &&& g > 0
    &&& scale3(hom_xyz(h), g) == scale3(q, s)
    &&& h.w * g == abs(w)
    &&& h.w > 0
}

/// The denominator of the ray parameter at which the ray meets the plane:
/// `n · direction`.
pub open spec fn ray_denom(p: Plane3, ray: Ray3) -> int {
    dot3(p.normal@, ray.direction@)
}

/// The numerator of the ray parameter at which the ray meets the plane:
/// `-(n · origin + d)`.
pub open spec fn ray_num(p: Plane3, ray: Ray3) -> int {
    -(dot3(p.normal@, ray.origin@) + p.distance)
}

/// The ray meets the plane at a parameter `t >= 0`: it is not parallel to the
/// plane, and the plane is not behind the ray's origin.
pub open spec fn ray_hits(p: Plane3, ray: Ray3) -> bool {
    let denom = ray_denom(p, ray);
    let num = ray_num(p, ray);
    denom != 0 && (num == 0 || (num > 0) == (denom > 0))
}

/// A ray whose origin is given in homogeneous coordinates `(x, y, z, w)`,
/// the point `(x / w, y / w, z / w)`.
#[derive(Clone, Copy, Debug, PartialEq, Eq, Structural)]
pub struct HomRay3 {
    pub origin: Vec4,
    pub direction: Vec3,
}

/// A plane `normal · p + distance = 0`.
#[derive(Clone, Copy, Debug, PartialEq, Eq, Structural)]
pub struct Plane3 {
    pub normal: Vec3,
    pub distance: i64,
}

impl Plane3 {
    /// Every normal component and the distance term lie within `b`.
    pub open spec fn bounded(&self, b: int) -> bool {
        within3(self.normal@, b) && within(self.distance as int, b)
    }

    /// The plane `a x + b y + c z + d = 0`. The normal is not normalized.
    pub fn from_abcd(a: i64, b: i64, c: i64, d: i64) -> (r: Plane3)
        ensures
            r.normal@ == (a as int, b as int, c as int),
            r.distance == d,
    {
        Plane3 { normal: Vec3::new(a, b, c), distance: d }
    }

    /// The plane with the given normal and distance term.
    pub fn from_nd(normal: Vec3, distance: i64) -> (r: Plane3)
        ensures
            r.normal == normal,
            r.distance == distance,
    {
        Plane3 { normal, distance }
    }

    /// The plane whose coefficients are the components of `vec`.
    pub fn from_vec4(vec: Vec4) -> (r: Plane3)
        ensures
            r.normal@ == (vec.x as int, vec.y as int, vec.z as int),
            r.distance == vec.w,
    {
        Plane3::from_abcd(vec.x, vec.y, vec.z, vec.w)
    }

    /// The value of the plane equation at `pos`: the signed distance from the
    /// plane when the normal has unit length.
    pub fn distance(&self, pos: &Point3) -> (r: i64)
        requires
            within3(self.normal@, VEC3_BOUND as int),
            within3(pos@, VEC3_BOUND as int),
            within(plane_eval(self.normal@, self.distance as int, pos@), i64::MAX as int),
        ensures
            r == plane_eval(self.normal@, self.distance as int, pos@),
    {
        self.normal.dot(&pos.as_vec3()) + self.distance
    }

    /// `pos` lies behind the plane: the plane equation is negative there.
    pub fn contains(&self, pos: &Point3) -> (r: bool)
        requires
            within3(self.normal@, VEC3_BOUND as int),
            within3(pos@, VEC3_BOUND as int),
            within(plane_eval(self.normal@, self.distance as int, pos@), i64::MAX as int),
        ensures
            r == (plane_eval(self.normal@, self.distance as int, pos@) < 0),
    {
        self.distance(pos) < 0
    }

    pub fn approx_epsilon() -> (r: i64)
        ensures
            r == DEFAULT_EPSILON,
    {
        DEFAULT_EPSILON
    }

    /// The normals and the distance terms are within `epsilon` of each other.
    pub fn approx_eq_eps(&self, other: &Plane3, epsilon: i64) -> (r: bool)
        ensures
            r == (approx_eq3(self.normal@, other.normal@, epsilon as int) && approx_eq_spec(
                self.distance as int,
                other.distance as int,
                epsilon as int,
            )),
    {
        self.normal.approx_eq_eps(&other.normal, epsilon) && scalar_approx_eq_eps(
            self.distance,
            other.distance,
            epsilon,
        )
    }

    pub fn approx_eq(&self, other: &Plane3) -> (r: bool)
        ensures
            r == (approx_eq3(self.normal@, other.normal@, DEFAULT_EPSILON as int) && approx_eq_spec(
                self.distance as int,
                other.distance as int,
                DEFAULT_EPSILON as int,
            )),
    {
        self.approx_eq_eps(other, DEFAULT_EPSILON)
    }

    /// The plane through `a`, `b` and `c`, or `None` when the three points
    /// are collinear or coincide. Its normal is `(b - a) × (c - a)` divided by
    /// the greatest common divisor of its components; that normal has unit
    /// length exactly when `(b - a) × (c - a)` lies along an axis.
    pub fn from_3p(a: Point3, b: Point3, c: Point3) -> (r: Option<Plane3>)
        requires
            within3(a@, FROM_3P_BOUND as int),
            within3(b@, FROM_3P_BOUND as int),
            within3(c@, FROM_3P_BOUND as int),
        ensures
            r.is_none() <==> approx_eq3(raw_normal(a@, b@, c@), (0, 0, 0), DEFAULT_EPSILON as int),
            r matches Some(p) ==> is_plane_through(a@, b@, c@, p),
            r matches Some(p) ==> plane_eval(p.normal@, p.distance as int, a@) == 0,
            r matches Some(p) ==> plane_eval(p.normal@, p.distance as int, b@) == 0,
            r matches Some(p) ==> plane_eval(p.normal@, p.distance as int, c@) == 0,
    {
        let v0 = b.displacement(&a);
        let v1 = c.displacement(&a);
        proof {
            lemma_cross_within(v0@, v1@, 2 * FROM_3P_BOUND as int, 2 * FROM_3P_BOUND as int);
        }
        let normal = v0.cross(&v1);
        if normal.approx_eq(&Vec3::zero()) {
            None
        } else {
            let unit = normal.reduce();
            proof {
                let g = gcd3(normal.x as int, normal.y as int, normal.z as int) as int;
                lemma_div3_within(normal@, unit@, g, VEC3_BOUND as int);
                lemma_dot_within(a@, unit@, FROM_3P_BOUND as int, VEC3_BOUND as int);
            }
            let distance = -a.as_vec3().dot(&unit);
            let p = Plane3::from_nd(unit, distance);
            proof {
                lemma_from_3p_contains_points(a@, b@, c@, p);
            }
            Some(p)
        }
    }

    /// The solution of `n · p = d` for the three planes, whose normals form
    /// the rows of the system, in homogeneous coordinates: `p` is the adjugate
    /// applied to `(d_self, d_a, d_b)` over the determinant, in lowest terms.
    /// `None` exactly when the normals are linearly dependent. Note that the
    /// system takes each distance term with the sign it has, so the point
    /// meets `n · p = d`, not the plane equation `n · p + d = 0`, unless the
    /// distance terms are zero.
    pub fn intersection_3pl(&self, other_a: &Plane3, other_b: &Plane3) -> (r: Option<Vec4>)
        requires
            self.bounded(PLANE_BOUND as int),
            other_a.bounded(PLANE_BOUND as int),
            other_b.bounded(PLANE_BOUND as int),
        ensures
            r.is_some() <==> det3(self.normal@, other_a.normal@, other_b.normal@) != 0,
            r matches Some(h) ==> is_reduced_hom(
                h,
                adj_apply3(
                    self.normal@,
                    other_a.normal@,
                    other_b.normal@,
                    self.distance as int,
                    other_a.distance as int,
                    other_b.distance as int,
                ),
                det3(self.normal@, other_a.normal@, other_b.normal@),
            ),
            r matches Some(h) ==> solves3_hom(
                self.normal@,
                other_a.normal@,
                other_b.normal@,
                self.distance as int,
                other_a.distance as int,
                other_b.distance as int,
                h,
            ),
    {
        let n0 = self.normal;
        let n1 = other_a.normal;
        let n2 = other_b.normal;
        let d0 = self.distance;
        let d1 = other_a.distance;
        let d2 = other_b.distance;
        let c12 = n1.cross(&n2);
        let c20 = n2.cross(&n0);
        let c01 = n0.cross(&n1);
        let ghost b = PLANE_BOUND as int;
        proof {
            lemma_cross_within(n1@, n2@, b, b);
            lemma_cross_within(n2@, n0@, b, b);
            lemma_cross_within(n0@, n1@, b, b);
            lemma_dot_within(n0@, c12@, b, 2 * (b * b));
            lemma_scale_within(c12@, d0 as int, 2 * (b * b), b);
            lemma_scale_within(c20@, d1 as int, 2 * (b * b), b);
            lemma_scale_within(c01@, d2 as int, 2 * (b * b), b);
            lemma_mul_within(n0.x as int, c12.x as int, b, 2 * (b * b));
            lemma_mul_within(n0.y as int, c12.y as int, b, 2 * (b * b));
            lemma_mul_within(n0.z as int, c12.z as int, b, 2 * (b * b));
        }
        let det = n0.x * c12.x + n0.y * c12.y + n0.z * c12.z;
        let q = c12.mul_s(d0).add_v(&c20.mul_s(d1)).add_v(&c01.mul_s(d2));
        if det == 0 {
            return None;
        }
        let h = homogeneous(q, det);
        proof {
            lemma_adjugate_rows(n0@, n1@, n2@, d0 as int, d1 as int, d2 as int);
            lemma_hom_solves(n0@, d0 as int, q@, det as int, h);
            lemma_hom_solves(n1@, d1 as int, q@, det as int, h);
            lemma_hom_solves(n2@, d2 as int, q@, det as int, h);
        }
        Some(h)
    }

    /// The line where `self` and `other` meet, as a ray whose direction is
    /// `n_self × n_other` and whose origin is the three-plane intersection of
    /// the plane through the world origin perpendicular to that direction,
    /// `self` and `other`. `None` exactly when the planes are parallel or
    /// coincide.
    pub fn intersection_2pl(&self, other: &Plane3) -> (r: Option<HomRay3>)
        requires
            within3(self.normal@, PAIR_NORMAL_BOUND as int),
            within3(other.normal@, PAIR_NORMAL_BOUND as int),
            within(self.distance as int, PLANE_BOUND as int),
            within(other.distance as int, PLANE_BOUND as int),
        ensures
            r.is_none() <==> approx_eq3(
                cross3(self.normal@, other.normal@),
                (0, 0, 0),
                DEFAULT_EPSILON as int,
            ),
            r matches Some(ray) ==> ray.direction@ == cross3(self.normal@, other.normal@),
            r matches Some(ray) ==> solves3_hom(
                cross3(self.normal@, other.normal@),
                self.normal@,
                other.normal@,
                0,
                self.distance as int,
                other.distance as int,
                ray.origin,
            ),
    {
        let dir = self.normal.cross(&other.normal);
        if dir.approx_eq(&Vec3::zero()) {
            None
        } else {
            proof {
                lemma_cross_within(
                    self.normal@,
                    other.normal@,
                    PAIR_NORMAL_BOUND as int,
                    PAIR_NORMAL_BOUND as int,
                );
                lemma_intersection_2pl_regular(*self, *other);
            }
            let aux = Plane3::from_nd(dir, 0);
            match aux.intersection_3pl(self, other) {
                Some(origin) => Some(HomRay3 { origin, direction: dir }),
                None => None,
            }
        }
    }

    /// The ray meets the plane: it is not parallel to it, and the meeting
    /// point does not lie behind the ray's origin (a meeting point at a
    /// negative ray parameter counts as no intersection). This is exactly
    /// when `intersection_r` returns `Some`.
    pub fn intersects(&self, ray: &Ray3) -> (r: bool)
        requires
            self.bounded(PLANE_BOUND as int),
            within3(ray.origin@, PLANE_BOUND as int),
            within3(ray.direction@, PLANE_BOUND as int),
        ensures
            r == ray_hits(*self, *ray),
    {
        let denom = self.normal.dot(&ray.direction);
        proof {
            lemma_dot_within(self.normal@, ray.origin@, PLANE_BOUND as int, PLANE_BOUND as int);
        }
        let num = -(self.normal.dot(&ray.origin.as_vec3()) + self.distance);
        denom != 0 && (num == 0 || (num > 0) == (denom > 0))
    }

    /// The point where the ray meets the plane, in homogeneous coordinates:
    /// `origin + (num / denom) direction` written as
    /// `(origin * denom + direction * num, denom)` in lowest terms, with
    /// `denom = n · direction` and `num = -(n · origin + d)`. `None` exactly
    /// when `intersects` is false.
    pub fn intersection_r(&self, ray: &Ray3) -> (r: Option<Vec4>)
        requires
            self.bounded(PLANE_BOUND as int),
            within3(ray.origin@, PLANE_BOUND as int),
            within3(ray.direction@, PLANE_BOUND as int),
        ensures
            r.is_some() <==> ray_hits(*self, *ray),
            r matches Some(h) ==> is_reduced_hom(
                h,
                add3(
                    scale3(ray.origin@, ray_denom(*self, *ray)),
                    scale3(ray.direction@, ray_num(*self, *ray)),
                ),
                ray_denom(*self, *ray),
            ),
            r matches Some(h) ==> dot3(self.normal@, hom_xyz(h)) + self.distance * h.w == 0,
    {
        if !self.intersects(ray) {
            return None;
        }
        let ghost b = PLANE_BOUND as int;
        let denom = self.normal.dot(&ray.direction);
        proof {
            lemma_dot_within(self.normal@, ray.origin@, b, b);
            lemma_dot_within(self.normal@, ray.direction@, b, b);
        }
        let num = -(self.normal.dot(&ray.origin.as_vec3()) + self.distance);
        proof {
            lemma_scale_within(ray.direction@, num as int, b, 3 * (b * b) + b);
            lemma_scale_within(ray.origin@, denom as int, b, 3 * (b * b));
        }
        let numer = ray.origin.as_vec3().mul_s(denom).add_v(&ray.direction.mul_s(num));
        let h = homogeneous(numer, denom);
        proof {
            let n = self.normal@;
            lemma_dot_add(n, scale3(ray.origin@, denom as int), scale3(ray.direction@, num as int));
            lemma_dot_scale(n, ray.origin@, denom as int);
            lemma_dot_scale(n, ray.direction@, num as int);
            assert(dot3(n, ray.origin@) * denom + denom * num == (-self.distance) * denom)
                by (nonlinear_arith)
                requires
                    num == -(dot3(n, ray.origin@) + self.distance),
            ;
            lemma_hom_solves(n, -self.distance, numer@, denom as int, h);
            assert((-self.distance) * h.w == -(self.distance * h.w)) by (nonlinear_arith);
        }
        Some(h)
    }
}

/// `x` divided by `w` in homogeneous coordinates, in lowest terms with a
/// positive weight.
fn homogeneous(q: Vec3, w: i64) -> (h: Vec4)
    requires
        w != 0,
        within3(q@, i64::MAX as int),
        within(w as int, i64::MAX as int),
    ensures
        is_reduced_hom(h, q@, w as int),
{
    let (sx, sy, sz, sw) = if w > 0 {
        (q.x, q.y, q.z, w)
    } else {
        (-q.x, -q.y, -q.z, -w)
    };
    let g = gcd_u64(gcd_u64(gcd_u64(abs_u64(q.x), abs_u64(q.y)), abs_u64(q.z)), abs_u64(w));
    proof {
        lemma_gcd4_divides(q.x as int, q.y as int, q.z as int, w as int);
        lemma_divisor_le(g as int, sw as int);
    }
    let gi = g as i64;
    let h = Vec4 {
        x: div_exact(sx, gi),
        y: div_exact(sy, gi),
        z: div_exact(sz, gi),
        w: div_exact(sw, gi),
    };
    proof {
        assert(h.w > 0) by (nonlinear_arith)
            requires
                h.w * gi == sw,
                sw > 0,
                gi > 0,
        ;
    }
    h
}

/// A positive divisor of a positive number is at most that number.
proof fn lemma_divisor_le(g: int, m: int)
    requires
        divides_pos(g, m),
        m > 0,
    ensures
        g <= m,
{
    if g > m {
        vstd::arithmetic::div_mod::lemma_small_mod(m as nat, g as nat);
    }
}

/// The plane through `a`, `b` and `c` that `from_3p` builds passes through
/// all three points.
pub proof fn lemma_from_3p_contains_points(a: Triple, b: Triple, c: Triple, p: Plane3)
    requires
        is_plane_through(a, b, c, p),
    ensures
        plane_eval(p.normal@, p.distance as int, a) == 0,
        plane_eval(p.normal@, p.distance as int, b) == 0,
        plane_eval(p.normal@, p.distance as int, c) == 0,
{
    let n0 = raw_normal(a, b, c);
    let k = gcd3(n0.0, n0.1, n0.2) as int;
    let n = p.normal@;
    let u = sub3(b, a);
    let v = sub3(c, a);
    lemma_triple_product(u, v, u);
    lemma_dot_commutes(cross3(u, v), u);
    lemma_dot_commutes(cross3(u, v), v);
    lemma_dot_commutes(n, u);
    lemma_dot_commutes(n, v);
    lemma_dot_scale(u, n, k);
    lemma_dot_scale(v, n, k);
    lemma_nonzero_factor(dot3(u, n), k);
    lemma_nonzero_factor(dot3(v, n), k);
    lemma_dot_add(n, b, a);
    lemma_dot_add(n, c, a);
}

/// The plane that `from_3p` builds does not depend on which of the three
/// points comes first: rotating `a`, `b`, `c` gives the same plane.
pub proof fn lemma_from_3p_rotation(a: Triple, b: Triple, c: Triple, p: Plane3)
    requires
        is_plane_through(a, b, c, p),
    ensures
        is_plane_through(b, c, a, p),
{
    lemma_raw_normal_rotation(a.0, a.1, a.2, b.0, b.1, b.2, c.0, c.1, c.2);
    lemma_from_3p_contains_points(a, b, c, p);
}

proof fn lemma_raw_normal_rotation(
    a0: int,
    a1: int,
    a2: int,
    b0: int,
    b1: int,
    b2: int,
    c0: int,
    c1: int,
    c2: int,
)
    ensures
        raw_normal((b0, b1, b2), (c0, c1, c2), (a0, a1, a2)) == raw_normal(
            (a0, a1, a2),
            (b0, b1, b2),
            (c0, c1, c2),
        ),
{
    assert(raw_normal((b0, b1, b2), (c0, c1, c2), (a0, a1, a2)) == raw_normal(
        (a0, a1, a2),
        (b0, b1, b2),
        (c0, c1, c2),
    )) by (nonlinear_arith);
}

/// For two planes that are not parallel, the system that `intersection_2pl`
/// solves for the origin of the line is regular: its determinant is the
/// squared length of `n_self × n_other`, which is positive.
pub proof fn lemma_intersection_2pl_regular(p: Plane3, q: Plane3)
    requires
        !approx_eq3(cross3(p.normal@, q.normal@), (0, 0, 0), DEFAULT_EPSILON as int),
    ensures
        det3(cross3(p.normal@, q.normal@), p.normal@, q.normal@) > 0,
{
    let d = cross3(p.normal@, q.normal@);
    assert(d.0 * d.0 + d.1 * d.1 + d.2 * d.2 > 0) by (nonlinear_arith)
        requires
            d.0 != 0 || d.1 != 0 || d.2 != 0,
    ;
}

proof fn lemma_dot_commutes(a: Triple, b: Triple)
    ensures
        dot3(a, b) == dot3(b, a),
{
    assert(a.0 * b.0 == b.0 * a.0 && a.1 * b.1 == b.1 * a.1 && a.2 * b.2 == b.2 * a.2)
        by (nonlinear_arith);
}

proof fn lemma_nonzero_factor(x: int, k: int)
    requires
        k > 0,
        x * k == 0,
    ensures
        x == 0,
{
    assert(x == 0) by (nonlinear_arith)
        requires
            k > 0,
            x * k == 0,
    ;
}

proof fn lemma_div3_within(v: Triple, r: Triple, g: int, b: int)
    requires
        within3(v, b),
        g > 0,
        scale3(r, g) == v,
    ensures
        within3(r, b),
{
    lemma_quotient_within(v.0, g, r.0);
    lemma_quotient_within(v.1, g, r.1);
    lemma_quotient_within(v.2, g, r.2);
}

proof fn lemma_quotient_within(a: int, b: int, q: int)
    requires
        q * b == a,
        b != 0,
    ensures
        within(q, crate::scalar::abs(a)),
{
    assert(-crate::scalar::abs(a) <= q <= crate::scalar::abs(a)) by (nonlinear_arith)
        requires
            q * b == a,
            b != 0,
            crate::scalar::abs(a) == (if a >= 0 { a } else { -a }),
    ;
}

/// Each row of the system applied to the adjugate solution gives its
/// right-hand side times the determinant.
proof fn lemma_adjugate_rows(n0: Triple, n1: Triple, n2: Triple, d0: int, d1: int, d2: int)
    ensures
        dot3(n0, adj_apply3(n0, n1, n2, d0, d1, d2)) == d0 * det3(n0, n1, n2),
        dot3(n1, adj_apply3(n0, n1, n2, d0, d1, d2)) == d1 * det3(n0, n1, n2),
        dot3(n2, adj_apply3(n0, n1, n2, d0, d1, d2)) == d2 * det3(n0, n1, n2),
{
    let det = det3(n0, n1, n2);
    let c12 = cross3(n1, n2);
    let c20 = cross3(n2, n0);
    let c01 = cross3(n0, n1);
    let x = scale3(c12, d0);
    let y = scale3(c20, d1);
    let z = scale3(c01, d2);
    lemma_triple_product(n0, n1, n2);
    lemma_triple_product(n1, n2, n0);
    lemma_triple_product(n2, n0, n1);
    lemma_dot_add(n0, add3(x, y), z);
    lemma_dot_add(n0, x, y);
    lemma_dot_add(n1, add3(x, y), z);
    lemma_dot_add(n1, x, y);
    lemma_dot_add(n2, add3(x, y), z);
    lemma_dot_add(n2, x, y);
    lemma_dot_scale(n0, c12, d0);
    lemma_dot_scale(n0, c20, d1);
    lemma_dot_scale(n0, c01, d2);
    lemma_dot_scale(n1, c12, d0);
    lemma_dot_scale(n1, c20, d1);
    lemma_dot_scale(n1, c01, d2);
    lemma_dot_scale(n2, c12, d0);
    lemma_dot_scale(n2, c20, d1);
    lemma_dot_scale(n2, c01, d2);
    lemma_zero_times(dot3(n0, c20), d1);
    lemma_zero_times(dot3(n0, c01), d2);
    lemma_zero_times(dot3(n1, c12), d0);
    lemma_zero_times(dot3(n1, c01), d2);
    lemma_zero_times(dot3(n2, c12), d0);
    lemma_zero_times(dot3(n2, c20), d1);
    assert(det * d0 == d0 * det && det * d1 == d1 * det && det * d2 == d2 * det) by (nonlinear_arith);
}

proof fn lemma_zero_times(x: int, y: int)
    requires
        x == 0,
    ensures
        x * y == 0,
{
}

/// A row that holds of the numerator `q` over `w` holds of its reduced
/// homogeneous form.
proof fn lemma_hom_solves(n: Triple, d: int, q: Triple, w: int, h: Vec4)
    requires
        w != 0,
        dot3(n, q) == d * w,
        is_reduced_hom(h, q, w),
    ensures
        dot3(n, hom_xyz(h)) == d * h.w,
{
    let s: int = if w > 0 { 1 } else { -1 };
    let g = gcd4(q.0, q.1, q.2, w) as int;
    lemma_dot_scale(n, hom_xyz(h), g);
    lemma_dot_scale(n, q, s);
    assert(abs(w) == s * w) by (nonlinear_arith)
        requires
            s == (if w > 0 { 1int } else { -1int }),
            abs(w) == (if w >= 0 { w } else { -w }),
            w != 0,
    ;
    assert(dot3(n, hom_xyz(h)) == d * h.w) by (nonlinear_arith)
        requires
            g > 0,
            dot3(n, hom_xyz(h)) * g == dot3(n, q) * s,
            dot3(n, q) == d * w,
            h.w * g == s * w,
    ;
}

} // verus!
