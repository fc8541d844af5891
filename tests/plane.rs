use lmath::plane::Plane3;
use lmath::point::{Point3, Ray3};
use lmath::vector::{Vec3, Vec4};

#[test]
fn test_from_3p() {
    assert_eq!(
        Plane3::from_3p(Point3::new(5, 0, 5), Point3::new(5, 5, 5), Point3::new(5, 0, -1)),
        Some(Plane3::from_abcd(-1, 0, 0, 5))
    );

    // the points are collinear
    assert_eq!(
        Plane3::from_3p(Point3::new(0, 5, -5), Point3::new(0, 5, 0), Point3::new(0, 5, 5)),
        None
    );
}

#[test]
fn test_plane_intersection_3pl() {
    let p0 = Plane3::from_abcd(1, 0, 0, 1);
    let p1 = Plane3::from_abcd(0, -1, 0, 2);
    let p2 = Plane3::from_abcd(0, 0, 1, 1);

    assert_eq!(p0.intersection_3pl(&p1, &p2), Some(Point3::new(1, -2, 1).to_vec4()));
}

#[test]
fn from_3p_plane_passes_through_all_points() {
    let a = Point3::new(0, 0, 3);
    let b = Point3::new(1, 0, 3);
    let c = Point3::new(0, 1, 3);
    let p = Plane3::from_3p(a, b, c).unwrap();
    assert_eq!(p, Plane3::from_abcd(0, 0, 1, -3));
    assert_eq!(p.distance(&a), 0);
    assert_eq!(p.distance(&b), 0);
    assert_eq!(p.distance(&c), 0);
}

#[test]
fn from_3p_coincident_points_give_none() {
    let a = Point3::new(2, 2, 2);
    assert_eq!(Plane3::from_3p(a, a, a), None);
    assert_eq!(Plane3::from_3p(a, a, Point3::new(1, 0, 0)), None);
}

#[test]
fn from_3p_reduces_the_normal_by_its_gcd() {
    let a = Point3::new(0, 0, 0);
    let b = Point3::new(1, 0, 0);
    let c = Point3::new(0, -3, 1);
    // (b - a) x (c - a) = (0, -1, -3), already in lowest terms
    let p = Plane3::from_3p(a, b, c).unwrap();
    assert_eq!(p, Plane3::from_abcd(0, -1, -3, 0));
    assert_eq!(p.distance(&a), 0);
    assert_eq!(p.distance(&b), 0);
    assert_eq!(p.distance(&c), 0);

    // (0, -3, -4) keeps a non-zero normal
    let q = Plane3::from_3p(a, b, Point3::new(0, -4, 3)).unwrap();
    assert_eq!(q.normal, Vec3::new(0, -3, -4));

    // (0, 0, 4) becomes the unit normal (0, 0, 1)
    let r = Plane3::from_3p(Point3::new(1, 1, 7), Point3::new(3, 1, 7), Point3::new(1, 3, 7)).unwrap();
    assert_eq!(r, Plane3::from_abcd(0, 0, 1, -7));
}

#[test]
fn from_3p_rotating_the_points_keeps_the_plane() {
    let a = Point3::new(0, -3, 1);
    let b = Point3::new(0, 0, 0);
    let c = Point3::new(1, 0, 0);
    let p = Plane3::from_3p(a, b, c).unwrap();
    assert_eq!(Plane3::from_3p(b, c, a), Some(p));
    assert_eq!(Plane3::from_3p(c, a, b), Some(p));
    let flipped = Plane3::from_3p(b, a, c).unwrap();
    assert_eq!(flipped, Plane3::from_abcd(-p.normal.x, -p.normal.y, -p.normal.z, -p.distance));
}

#[test]
fn distance_and_contains() {
    let p = Plane3::from_abcd(0, 0, 1, -3);
    assert_eq!(p.distance(&Point3::new(7, 8, 5)), 2);
    assert_eq!(p.distance(&Point3::new(7, 8, 1)), -2);
    assert!(p.contains(&Point3::new(0, 0, 1)));
    assert!(!p.contains(&Point3::new(0, 0, 3)));
    assert!(!p.contains(&Point3::new(0, 0, 4)));
}

#[test]
fn intersection_3pl_solves_each_plane_equation() {
    let p0 = Plane3::from_abcd(1, 1, 0, 3);
    let p1 = Plane3::from_abcd(0, 1, 1, 5);
    let p2 = Plane3::from_abcd(1, 0, 1, 4);
    let q = p0.intersection_3pl(&p1, &p2).unwrap();
    assert_eq!(q, Vec4::new(1, 2, 3, 1));
    assert_eq!(p0.normal.x * q.x + p0.normal.y * q.y + p0.normal.z * q.z, 3 * q.w);
    assert_eq!(p1.normal.x * q.x + p1.normal.y * q.y + p1.normal.z * q.z, 5 * q.w);
    assert_eq!(p2.normal.x * q.x + p2.normal.y * q.y + p2.normal.z * q.z, 4 * q.w);
}

#[test]
fn intersection_3pl_coplanar_normals_give_none() {
    let p0 = Plane3::from_abcd(1, 0, 0, 1);
    let p1 = Plane3::from_abcd(0, 1, 0, 1);
    let p2 = Plane3::from_abcd(1, 1, 0, 5);
    assert_eq!(p0.intersection_3pl(&p1, &p2), None);
}

#[test]
fn intersection_3pl_fractional_solution_is_homogeneous() {
    let p0 = Plane3::from_abcd(2, 0, 0, 1);
    let p1 = Plane3::from_abcd(0, 1, 0, 1);
    let p2 = Plane3::from_abcd(0, 0, 1, 1);
    // x = 1/2, y = 1, z = 1
    assert_eq!(p0.intersection_3pl(&p1, &p2), Some(Vec4::new(1, 2, 2, 2)));
    // a negative determinant still gives a positive weight
    let m0 = Plane3::from_abcd(-2, 0, 0, 1);
    assert_eq!(m0.intersection_3pl(&p1, &p2), Some(Vec4::new(-1, 2, 2, 2)));
}

#[test]
fn intersection_2pl_parallel_planes_give_none() {
    let p = Plane3::from_abcd(0, 0, 1, 1);
    let q = Plane3::from_abcd(0, 0, -2, 7);
    assert_eq!(p.intersection_2pl(&q), None);
    assert_eq!(p.intersection_2pl(&p), None);
}

#[test]
fn intersection_2pl_gives_the_line() {
    let p = Plane3::from_abcd(1, 0, 0, 2);
    let q = Plane3::from_abcd(0, 1, 0, 3);
    let ray = p.intersection_2pl(&q).unwrap();
    assert_eq!(ray.direction, Vec3::new(0, 0, 1));
    assert_eq!(ray.origin, Vec4::new(2, 3, 0, 1));
}

#[test]
fn intersection_2pl_non_parallel_planes_always_meet() {
    let p = Plane3::from_abcd(1, 0, 0, 1);
    let q = Plane3::from_abcd(0, 2, 0, 1);
    let ray = p.intersection_2pl(&q).unwrap();
    assert_eq!(ray.direction, Vec3::new(0, 0, 2));
    // x = 1, y = 1/2, z = 0
    assert_eq!(ray.origin, Vec4::new(2, 1, 0, 2));
}

#[test]
fn ray_meets_plane_in_front() {
    let p = Plane3::from_abcd(0, 0, 1, -4);
    let ray = Ray3::new(Point3::new(1, 2, 0), Vec3::new(0, 0, 2));
    assert!(p.intersects(&ray));
    assert_eq!(p.intersection_r(&ray), Some(Vec4::new(1, 2, 4, 1)));
}

#[test]
fn ray_behind_or_parallel_misses_plane() {
    let p = Plane3::from_abcd(0, 0, 1, -4);
    let away = Ray3::new(Point3::new(1, 2, 0), Vec3::new(0, 0, -1));
    assert!(!p.intersects(&away));
    assert_eq!(p.intersection_r(&away), None);
    let parallel = Ray3::new(Point3::new(1, 2, 0), Vec3::new(1, 0, 0));
    assert!(!p.intersects(&parallel));
    assert_eq!(p.intersection_r(&parallel), None);
}

#[test]
fn ray_meeting_between_lattice_points_is_homogeneous() {
    let p = Plane3::from_abcd(0, 0, 2, -3);
    let ray = Ray3::new(Point3::new(0, 0, 0), Vec3::new(1, 0, 1));
    assert!(p.intersects(&ray));
    // t = 3/2: the point (3/2, 0, 3/2)
    assert_eq!(p.intersection_r(&ray), Some(Vec4::new(3, 0, 3, 2)));
}

#[test]
fn plane_constructors_and_approx_eq() {
    let v = Vec3::new(1, 2, 3);
    assert_eq!(Plane3::from_nd(v, 4), Plane3::from_abcd(1, 2, 3, 4));
    assert_eq!(Plane3::from_vec4(Vec4::new(1, 2, 3, 4)), Plane3::from_abcd(1, 2, 3, 4));
    let p = Plane3::from_abcd(1, 2, 3, 4);
    let q = Plane3::from_abcd(1, 2, 4, 5);
    assert!(p.approx_eq(&p));
    assert!(!p.approx_eq(&q));
    assert!(p.approx_eq_eps(&q, 1));
    assert!(!p.approx_eq_eps(&Plane3::from_abcd(1, 2, 3, 6), 1));
    assert_eq!(Plane3::approx_epsilon(), 0);
}
