use lmath::quat::{Quat, ToQuat};
use lmath::vector::Vec3;

#[test]
fn identity_quaternion_gives_identity_matrix() {
    let m = Quat::identity().to_mat3();
    assert_eq!(m, lmath::vector::Mat3::identity());
}

#[test]
fn half_turn_about_z_matrix() {
    let m = Quat::new(0, 0, 0, 1).to_mat3();
    assert_eq!(m.x, Vec3::new(-1, 0, 0));
    assert_eq!(m.y, Vec3::new(0, -1, 0));
    assert_eq!(m.z, Vec3::new(0, 0, 1));
}

#[test]
fn mul_q_is_associative() {
    let a = Quat::new(1, 2, 3, 4);
    let b = Quat::new(-2, 0, 5, 1);
    let c = Quat::new(3, -1, 2, -6);
    assert_eq!(a.mul_q(&b.mul_q(&c)), a.mul_q(&b).mul_q(&c));
}

#[test]
fn mul_q_is_not_commutative() {
    let i = Quat::new(0, 1, 0, 0);
    let j = Quat::new(0, 0, 1, 0);
    assert_eq!(i.mul_q(&j), Quat::new(0, 0, 0, 1));
    assert_eq!(j.mul_q(&i), Quat::new(0, 0, 0, -1));
    assert_ne!(i.mul_q(&j), j.mul_q(&i));
}

#[test]
fn hamilton_product_values() {
    let a = Quat::new(1, 2, 3, 4);
    let b = Quat::new(5, 6, 7, 8);
    assert_eq!(a.mul_q(&b), Quat::new(-60, 12, 30, 24));
    assert_eq!(Quat::identity().mul_q(&a), a);
}

#[test]
fn rotation_by_half_turn() {
    let q = Quat::new(0, 0, 0, 1);
    assert_eq!(q.mul_v(&Vec3::new(1, 0, 0)), Vec3::new(-1, 0, 0));
    assert_eq!(q.mul_v(&Vec3::new(0, 2, 5)), Vec3::new(0, -2, 5));
    assert_eq!(Quat::identity().mul_v(&Vec3::new(3, -4, 7)), Vec3::new(3, -4, 7));
}

#[test]
fn quaternion_arithmetic() {
    let a = Quat::new(1, 2, 3, 4);
    let b = Quat::new(5, 6, 7, 8);
    assert_eq!(a.add_q(&b), Quat::new(6, 8, 10, 12));
    assert_eq!(a.sub_q(&b), Quat::new(-4, -4, -4, -4));
    assert_eq!(a.mul_s(3), Quat::new(3, 6, 9, 12));
    assert_eq!(a.dot(&b), 70);
    assert_eq!(a.conjugate(), Quat::new(1, -2, -3, -4));
    assert_eq!(a.neg(), Quat::new(-1, -2, -3, -4));
    assert_eq!(a.magnitude2(), 30);
    assert_eq!(a.magnitude(), None);
    assert_eq!(Quat::new(1, 2, 2, 4).magnitude(), Some(5));
    assert_eq!(Quat::new(1, 1, 0, 0).magnitude(), None);
    assert_eq!(Quat::identity().magnitude(), Some(1));
    assert_eq!(Quat::new(0, 0, -1, 0).magnitude(), Some(1));
    assert_eq!(Quat::zero(), Quat::new(0, 0, 0, 0));
    assert_eq!(Quat::from_sv(1, Vec3::new(2, 3, 4)), a);
}

#[test]
fn quaternion_approx_eq() {
    let a = Quat::new(1, 2, 3, 4);
    assert!(a.approx_eq(&a));
    assert!(!a.approx_eq(&Quat::new(1, 2, 3, 5)));
    assert!(a.approx_eq_eps(&Quat::new(2, 1, 3, 5), 1));
    assert!(!a.approx_eq_eps(&Quat::new(3, 2, 3, 4), 1));
    assert_eq!(Quat::approx_epsilon(), 0);
}

#[test]
fn to_quat_of_a_quaternion_is_itself() {
    let a = Quat::new(1, 2, 3, 4);
    assert_eq!(a.to_quat(), a);
}

#[test]
fn unit_quaternion_rotation_round_trip() {
    let q = Quat::new(0, 0, 1, 0);
    assert_eq!(q.magnitude(), Some(1));
    let w = q.mul_v(&Vec3::new(1, 2, 3));
    assert_eq!(w, Vec3::new(-1, 2, -3));
    assert_eq!(q.conjugate().mul_v(&w), Vec3::new(1, 2, 3));
}
