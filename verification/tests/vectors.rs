use particle_physics::rational::Scalar;
use particle_physics::vector::Vector;
use particle_physics::vector::CrossVector;
use particle_physics::vector::cartesian1::Cartesian1;
use particle_physics::vector::cartesian3::Cartesian3;

fn s(n: i64) -> Scalar {
    Scalar::from_int(n)
}

fn q(n: i64, d: i64) -> Scalar {
    Scalar::new(n, d)
}

#[test]
fn scalar_arithmetic_exact() {
    assert!(q(1, 2).add(q(1, 3)).same(&q(5, 6)));
    assert!(q(1, 2).sub(q(1, 3)).same(&q(1, 6)));
    assert!(q(2, 3).mul(q(3, 4)).same(&q(1, 2)));
    assert!(q(1, 2).div(q(1, 3)).same(&q(3, 2)));
    assert!(q(1, 2).div(q(-1, 3)).same(&q(-3, 2)));
    assert!(q(1, 2).neg().same(&q(-1, 2)));
    assert!(q(1, 3).lt(&q(1, 2)));
    assert!(!q(1, 2).lt(&q(1, 3)));
    assert!(q(2, 4).same(&q(1, 2)));
    assert!(s(0).is_zero());
    assert!(!s(1).is_zero());
    assert!(Scalar::zero().same(&s(0)));
    assert!(Scalar::one().same(&s(1)));
    assert_eq!(q(3, 7).num(), 3);
    assert_eq!(q(3, 7).den(), 7);
}

#[test]
fn cartesian1_displacement_squared_is_square() {
    let v = Cartesian1::new(s(3));
    let d = v.displacement();
    let d2 = v.displacement_squared();
    assert!(d2.same(&d.mul(d)));
    assert!(d2.same(&s(9)));
}

#[test]
fn cartesian1_dot_self_is_displacement_squared() {
    let v = Cartesian1::new(q(-3, 2));
    let d2 = v.displacement_squared();
    let dot = Cartesian1::dot(&v, &v);
    assert!(dot.same(&d2));
    assert!(dot.same(&q(9, 4)));
}

#[test]
fn cartesian1_add_neg_is_zero() {
    let v = Cartesian1::new(q(7, 3));
    let sum = v.add(&v.neg());
    assert!(sum.is_zero());
}

#[test]
fn cartesian1_mul_div_cancel() {
    let v = Cartesian1::new(q(7, 3));
    let k = q(5, 2);
    let back = v.mul(k).div(k);
    assert!(back.x.same(&v.x));
    let kneg = q(-5, 2);
    let back2 = v.mul(kneg).div(kneg);
    assert!(back2.x.same(&v.x));
}

#[test]
fn cartesian1_normalized_is_unit() {
    let v = Cartesian1::new(s(5));
    let u = v.normalized();
    assert!(u.x.same(&s(1)));
    let w = Cartesian1::new(s(-5));
    let d = w.normalized();
    assert!(d.x.same(&s(-1)));
}

#[test]
fn cartesian1_displacement_is_absolute_value() {
    let v = Cartesian1::new(s(-3));
    assert!(v.displacement().same(&s(3)));
    assert!(v.displacement_squared().same(&s(9)));
    let w = Cartesian1::new(q(-7, 2));
    assert!(w.displacement().same(&q(7, 2)));
}

#[test]
fn cartesian1_extent_measures() {
    let v = Cartesian1::new(s(4));
    assert!(v.space_box().same(&s(4)));
    assert!(Cartesian1::space_ball(s(3)).same(&s(6)));
    assert!(Cartesian1::zero().is_zero());
    assert!(!v.is_zero());
}

#[test]
fn cartesian3_displacement_of_perfect_square() {
    let v = Cartesian3::new(s(1), s(2), s(2));
    let d = v.displacement();
    assert!(d.same(&s(3)));
    let d2 = v.displacement_squared();
    assert!(d2.same(&s(9)));
    assert!(d2.same(&d.mul(d)));
}

#[test]
fn cartesian3_displacement_rational() {
    let v = Cartesian3::new(q(1, 2), q(1, 2), q(1, 2).neg());
    let d2 = v.displacement_squared();
    assert!(d2.same(&q(3, 4)));
}

#[test]
fn cartesian3_dot_and_vector_space_laws() {
    let v = Cartesian3::new(s(1), s(-2), s(3));
    let w = Cartesian3::new(s(4), s(5), s(6));
    assert!(Cartesian3::dot(&v, &w).same(&s(12)));
    assert!(v.add(&v.neg()).is_zero());
    let k = q(3, 7);
    let back = v.mul(k).div(k);
    assert!(back.x.same(&v.x) && back.y.same(&v.y) && back.z.same(&v.z));
}

#[test]
fn cartesian3_normalized_is_unit_direction() {
    let v = Cartesian3::new(s(1), s(2), s(2));
    let u = v.normalized();
    assert!(u.x.same(&q(1, 3)));
    assert!(u.y.same(&q(2, 3)));
    assert!(u.z.same(&q(2, 3)));
}

#[test]
fn cartesian3_cross_of_axes() {
    let ex = Cartesian3::new(s(1), s(0), s(0));
    let ey = Cartesian3::new(s(0), s(1), s(0));
    let c = Cartesian3::cross(&ex, &ey);
    assert!(c.x.is_zero() && c.y.is_zero());
    assert!(c.z.same(&s(1)));
    let back = Cartesian3::cross(&ey, &ex);
    assert!(back.z.same(&s(-1)));
}

#[test]
fn cartesian3_extent_measures() {
    let v = Cartesian3::new(s(1), s(2), s(3));
    assert!(v.space_box().same(&s(6)));
    assert!(Cartesian3::space_ball(s(1)).same(&s(8)));
    assert!(Cartesian3::zero().is_zero());
}
