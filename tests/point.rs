use lmath::point::{AsPoint2, AsPoint3, Point, Point2, Point3, Ray2};
use lmath::scalar::{abs_u64, approx_eq, approx_eq_eps, div_exact, exact_div, gcd_u64, isqrt};
use lmath::vector::{Vec2, Vec3};

#[test]
fn point2_operations() {
    let p = Point2::new(1, 2);
    let q = Point2::new(4, 6);
    assert_eq!(Point2::origin(), Point2::new(0, 0));
    assert_eq!(p.translate_v(&Vec2::new(3, -1)), Point2::new(4, 1));
    assert_eq!(p.scale_s(3), Point2::new(3, 6));
    assert_eq!(p.scale_v(&Vec2::new(2, -1)), Point2::new(2, -2));
    assert_eq!(q.displacement(&p), Vec2::new(3, 4));
    assert_eq!(p.distance2(&q), 25);
    assert_eq!(p.distance(&q), 5);
    assert_eq!(p.direction(&Point2::new(1, 9)), Vec2::new(0, 1));
    assert_eq!(p.ray_to(&Point2::new(-5, 2)), Ray2::new(p, Vec2::new(-1, 0)));
    assert_eq!(p.to_vec3(), Vec3::new(1, 2, 1));
    assert_eq!(p.as_vec2(), Vec2::new(1, 2));
    assert_eq!(Point2::from_vec2(Vec2::new(7, 8)), Point2::new(7, 8));
    assert_eq!(Vec2::new(7, 8).as_point2(), Point2::new(7, 8));
}

#[test]
fn point3_operations() {
    let p = Point3::new(1, 2, 3);
    let q = Point3::new(3, 5, 9);
    assert_eq!(Point3::origin(), Point3::new(0, 0, 0));
    assert_eq!(p.translate_v(&Vec3::new(1, 1, -1)), Point3::new(2, 3, 2));
    assert_eq!(p.scale_s(-2), Point3::new(-2, -4, -6));
    assert_eq!(p.scale_v(&Vec3::new(3, 0, 2)), Point3::new(3, 0, 6));
    assert_eq!(q.displacement(&p), Vec3::new(2, 3, 6));
    assert_eq!(p.distance2(&q), 49);
    assert_eq!(p.distance(&q), 7);
    assert_eq!(p.distance(&Point3::new(2, 3, 4)), 1);
    assert_eq!(p.direction(&Point3::new(1, 2, -7)), Vec3::new(0, 0, -1));
    assert_eq!(Point3::origin().direction(&Point3::new(3, 4, 0)), Vec3::new(3, 4, 0));
    assert_eq!(Point3::origin().direction(&Point3::new(6, -8, 0)), Vec3::new(3, -4, 0));
    let r = p.ray_to(&Point3::new(1, 12, 3));
    assert_eq!(r.origin, p);
    assert_eq!(r.direction, Vec3::new(0, 1, 0));
    let h = p.to_vec4();
    assert_eq!((h.x, h.y, h.z, h.w), (1, 2, 3, 1));
    assert_eq!(p.as_vec3(), Vec3::new(1, 2, 3));
    assert_eq!(Point3::from_vec3(Vec3::new(4, 5, 6)), Point3::new(4, 5, 6));
    assert_eq!(Vec3::new(4, 5, 6).as_point3(), Point3::new(4, 5, 6));
}

#[test]
fn point_approx_eq() {
    let p = Point3::new(1, 2, 3);
    assert!(p.approx_eq(&p));
    assert!(!p.approx_eq(&Point3::new(1, 2, 4)));
    assert!(p.approx_eq_eps(&Point3::new(2, 1, 4), 1));
    assert!(!p.approx_eq_eps(&Point3::new(1, 2, 5), 1));
    let q = Point2::new(1, 2);
    assert!(q.approx_eq_eps(&Point2::new(3, 0), 2));
    assert!(!q.approx_eq(&Point2::new(3, 0)));
    assert_eq!(Point3::approx_epsilon(), 0);
}

#[test]
fn vector_operations() {
    let a = Vec3::new(1, 2, 3);
    let b = Vec3::new(4, 5, 6);
    assert_eq!(a.dot(&b), 32);
    assert_eq!(a.cross(&b), Vec3::new(-3, 6, -3));
    assert_eq!(a.magnitude2(), 14);
    assert_eq!(Vec3::new(0, -6, 8).reduce(), Vec3::new(0, -3, 4));
    assert_eq!(Vec3::new(0, -9, 0).reduce(), Vec3::new(0, -1, 0));
    assert_eq!(Vec3::new(4, -6, 10).reduce(), Vec3::new(2, -3, 5));
    assert_eq!(Vec2::new(-4, 6).reduce(), Vec2::new(-2, 3));
    assert_eq!(a.add_v(&b), Vec3::new(5, 7, 9));
    assert_eq!(a.mul_s(-2), Vec3::new(-2, -4, -6));
    assert!(a.approx_eq_eps(&b, 3));
    assert!(!a.approx_eq(&b));
}

#[test]
fn scalar_helpers() {
    assert_eq!(isqrt(0), 0);
    assert_eq!(isqrt(15), 3);
    assert_eq!(isqrt(16), 4);
    assert_eq!(isqrt(0x4000_0000_0000_0000), 0x8000_0000);
    assert_eq!(gcd_u64(12, 18), 6);
    assert_eq!(gcd_u64(0, 5), 5);
    assert_eq!(gcd_u64(7, 0), 7);
    assert_eq!(abs_u64(i64::MIN), 1u64 << 63);
    assert_eq!(div_exact(-12, 4), -3);
    assert_eq!(exact_div(-12, 4), Some(-3));
    assert_eq!(exact_div(12, -4), Some(-3));
    assert_eq!(exact_div(13, 4), None);
    assert!(approx_eq(5, 5));
    assert!(!approx_eq(5, 6));
    assert!(approx_eq_eps(5, 7, 2));
    assert!(!approx_eq_eps(i64::MIN, i64::MAX, i64::MAX));
}
