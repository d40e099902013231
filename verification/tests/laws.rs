use particle_physics::rational::Scalar;
use particle_physics::vector::cartesian1::Cartesian1;
use particle_physics::vector::cartesian3::Cartesian3;
use particle_physics::particle::basic_particle::{BasicParticle, BallParticle};
use particle_physics::particle::{Particle, PhysicsParticle, UniformBall};
use particle_physics::particle::{
    gravitate, gravitate_radius, gravitate_radius_squared, hooke, hooke_equilibrium, lorentz,
    lorentz_radius, lorentz_radius_squared,
};

fn s(n: i64) -> Scalar {
    Scalar::from_int(n)
}

fn q(n: i64, d: i64) -> Scalar {
    Scalar::new(n, d)
}

fn p1(x: i64, v: i64, quanta: Scalar, inertia: Scalar) -> BasicParticle<Cartesian1> {
    BasicParticle::new(quanta, Cartesian1::new(s(x)), Cartesian1::new(s(v)), inertia)
}

fn p3(
    pos: (i64, i64, i64),
    vel: (i64, i64, i64),
    quanta: Scalar,
    inertia: Scalar,
) -> BasicParticle<Cartesian3> {
    BasicParticle::new(
        quanta,
        Cartesian3::new(s(pos.0), s(pos.1), s(pos.2)),
        Cartesian3::new(s(vel.0), s(vel.1), s(vel.2)),
        inertia,
    )
}

#[test]
fn gravitate_unit_pair() {
    let mut a = p1(0, 0, s(1), s(1));
    let mut b = p1(1, 0, s(1), s(1));
    gravitate(&mut a, &mut b, s(1));
    assert!(a.velocity.x.same(&s(1)));
    assert!(b.velocity.x.same(&s(-1)));
    assert!(a.position.x.is_zero());
    assert!(b.position.x.same(&s(1)));
}

#[test]
fn gravitate_attracts_across_negative_separation() {
    let mut a = p1(0, 0, s(1), s(1));
    let mut b = p1(-1, 0, s(1), s(1));
    gravitate(&mut a, &mut b, s(1));
    // positive magnitude with like-sign quanta attracts: a moves
    // toward b at -1, b toward a at 0
    assert!(a.velocity.x.same(&s(-1)));
    assert!(b.velocity.x.same(&s(1)));
}

#[test]
fn gravitate_radius_squared_attracts_across_negative_separation() {
    let mut a = p1(0, 0, s(1), s(1));
    let mut b = p1(-2, 0, s(1), s(1));
    gravitate_radius_squared(&mut a, &mut b, s(1), s(1));
    // outside the ball: divisor is distance cubed = 8; force = -2/8
    assert!(a.velocity.x.same(&q(-1, 4)));
    assert!(b.velocity.x.same(&q(1, 4)));
}

#[test]
fn gravitate_radius_to_attracts_across_negative_separation() {
    let mut a = p1(0, 0, s(1), s(1));
    let center = BallParticle::new(
        s(1),
        Cartesian1::new(s(-2)),
        Cartesian1::new(s(0)),
        s(1),
        s(1),
    );
    a.gravitate_radius_to(&center, s(1));
    // d^2 = 4 > 1 = r^2: acceleration = -2 / 8
    assert!(a.velocity.x.same(&q(-1, 4)));
}

#[test]
fn hooke_attracts_across_negative_separation() {
    let mut a = p1(0, 0, s(1), s(1));
    let mut b = p1(-2, 0, s(1), s(1));
    hooke(&mut a, &mut b, s(1));
    // unit direction is -1, distance 2: a is pulled toward b
    assert!(a.velocity.x.same(&s(-2)));
    assert!(b.velocity.x.same(&s(2)));
}

#[test]
fn gravitate_asymmetric_masses() {
    let mut a = p1(0, 0, s(2), s(2));
    let mut b = p1(2, 0, s(3), s(3));
    gravitate(&mut a, &mut b, s(1));
    // force = delta * m / d^3 * ql * qr = 2 / 8 * 6 = 3/2
    assert!(a.velocity.x.same(&q(3, 4)));
    assert!(b.velocity.x.same(&q(-1, 2)));
}

#[test]
fn gravitate_newton_third_law_numeric() {
    let mut a = p1(0, 0, s(2), s(2));
    let mut b = p1(2, 0, s(3), s(3));
    gravitate(&mut a, &mut b, s(1));
    let momentum_a = a.velocity.x.mul(a.inertia);
    let momentum_b = b.velocity.x.mul(b.inertia);
    assert!(momentum_a.same(&momentum_b.neg()));
}

#[test]
fn gravitate_radius_squared_outside_ball_matches_plain() {
    let mut a = p1(0, 0, s(1), s(1));
    let mut b = p1(2, 0, s(1), s(1));
    gravitate_radius_squared(&mut a, &mut b, s(1), s(1));
    let mut c = p1(0, 0, s(1), s(1));
    let mut d = p1(2, 0, s(1), s(1));
    gravitate(&mut c, &mut d, s(1));
    assert!(a.velocity.x.same(&c.velocity.x));
    assert!(b.velocity.x.same(&d.velocity.x));
    assert!(a.velocity.x.same(&q(1, 4)));
}

#[test]
fn gravitate_radius_squared_inside_ball() {
    let mut a = p1(0, 0, s(1), s(1));
    let mut b = p1(1, 0, s(1), s(1));
    gravitate_radius_squared(&mut a, &mut b, s(4), s(1));
    // inside the ball the divisor is the squared radius: force = 1/4
    assert!(a.velocity.x.same(&q(1, 4)));
    assert!(b.velocity.x.same(&q(-1, 4)));
}

#[test]
fn gravitate_radius_matches_squared_frontend() {
    let mut a = p1(0, 0, s(1), s(1));
    let mut b = p1(1, 0, s(1), s(1));
    gravitate_radius(&mut a, &mut b, s(2), s(1));
    let mut c = p1(0, 0, s(1), s(1));
    let mut d = p1(1, 0, s(1), s(1));
    gravitate_radius_squared(&mut c, &mut d, s(4), s(1));
    assert!(a.velocity.x.same(&c.velocity.x));
    assert!(b.velocity.x.same(&d.velocity.x));
}

#[test]
fn gravitate_radius_squared_continuous_at_unit_boundary() {
    // separation 1, squared radius 1: exactly on the ball's surface,
    // where the softened branch agrees with the point formula.
    let mut a = p1(0, 0, s(1), s(1));
    let mut b = p1(1, 0, s(1), s(1));
    gravitate_radius_squared(&mut a, &mut b, s(1), s(1));
    let mut c = p1(0, 0, s(1), s(1));
    let mut d = p1(1, 0, s(1), s(1));
    gravitate(&mut c, &mut d, s(1));
    assert!(a.velocity.x.same(&c.velocity.x));
}

#[test]
fn gravitate_to_fixed_center() {
    let mut a = p1(0, 0, s(1), s(1));
    let center = p1(2, 0, s(1), s(1));
    a.gravitate_to(&center, s(1));
    assert!(a.velocity.x.same(&q(1, 4)));
    assert!(center.velocity.x.is_zero());
}

#[test]
fn gravitate_radius_to_inside_ball() {
    let mut a = p1(0, 0, s(1), s(1));
    let center = BallParticle::new(
        s(1),
        Cartesian1::new(s(2)),
        Cartesian1::new(s(0)),
        s(1),
        s(3),
    );
    a.gravitate_radius_to(&center, s(1));
    // d^2 = 4 <= 9 = r^2, so the divisor is the squared radius:
    // acceleration = 2 / 9
    assert!(a.velocity.x.same(&q(2, 9)));
}

#[test]
fn drag_opposes_velocity() {
    let mut a = p1(0, 4, s(1), s(2));
    a.drag(q(1, 2));
    // acceleration = -4 * (1/2) / 2 = -1
    assert!(a.velocity.x.same(&s(3)));
}

#[test]
fn hooke_linear_in_distance() {
    let mut a = p1(0, 0, s(1), s(1));
    let mut b = p1(2, 0, s(1), s(1));
    hooke(&mut a, &mut b, s(1));
    assert!(a.velocity.x.same(&s(2)));
    assert!(b.velocity.x.same(&s(-2)));
}

#[test]
fn hooke_equilibrium_attracts_beyond() {
    let mut a = p1(0, 0, s(1), s(1));
    let mut b = p1(5, 0, s(1), s(1));
    hooke_equilibrium(&mut a, &mut b, s(3), s(1));
    assert!(a.velocity.x.same(&s(2)));
    assert!(b.velocity.x.same(&s(-2)));
}

#[test]
fn hooke_equilibrium_repels_inside() {
    let mut a = p1(0, 0, s(1), s(1));
    let mut b = p1(1, 0, s(1), s(1));
    hooke_equilibrium(&mut a, &mut b, s(3), s(1));
    assert!(a.velocity.x.same(&s(-2)));
    assert!(b.velocity.x.same(&s(2)));
}

#[test]
fn hooke_to_fixed_center() {
    let mut a = p1(0, 0, s(1), s(1));
    let center = p1(3, 0, s(1), s(1));
    a.hooke_to(&center, s(1));
    assert!(a.velocity.x.same(&s(3)));
}

#[test]
fn hooke_equilibrium_to_at_equilibrium_is_zero() {
    let mut a = p1(0, 0, s(1), s(1));
    let center = p1(5, 0, s(1), s(1));
    a.hooke_equilibrium_to(&center, s(5), s(1));
    assert!(a.velocity.x.is_zero());
}

#[test]
fn hooke_equilibrium_to_beyond_equilibrium() {
    let mut a = p1(0, 0, s(1), s(1));
    let center = p1(5, 0, s(1), s(1));
    a.hooke_equilibrium_to(&center, s(2), s(1));
    assert!(a.velocity.x.same(&s(3)));
}

#[test]
fn lorentz_two_body() {
    let mut a = p3((0, 0, 0), (0, 1, 0), s(1), s(1));
    let mut b = p3((1, 0, 0), (0, 1, 0), s(1), s(1));
    lorentz(&mut a, &mut b, s(1));
    // inner = lv x delta = (0,0,-1); outer = rv x inner = (-1,0,0);
    // lhs gets -force, rhs gets +force
    assert!(a.velocity.x.same(&s(1)));
    assert!(a.velocity.y.same(&s(1)));
    assert!(a.velocity.z.is_zero());
    assert!(b.velocity.x.same(&s(-1)));
    assert!(b.velocity.y.same(&s(1)));
    assert!(b.velocity.z.is_zero());
}

#[test]
fn lorentz_momentum_antisymmetric() {
    let mut a = p3((0, 0, 0), (0, 2, 0), s(1), s(2));
    let mut b = p3((1, 0, 0), (0, 3, 0), s(1), s(3));
    lorentz(&mut a, &mut b, s(1));
    let da = a.velocity.x.mul(a.inertia);
    let db = b.velocity.x.mul(b.inertia);
    assert!(da.same(&db.neg()));
}

#[test]
fn lorentz_radius_squared_inside_ball() {
    let mut a = p3((0, 0, 0), (0, 1, 0), s(1), s(1));
    let mut b = p3((1, 0, 0), (0, 1, 0), s(1), s(1));
    lorentz_radius_squared(&mut a, &mut b, s(4), s(1));
    // divisor is the squared radius 4 instead of 1
    assert!(a.velocity.x.same(&q(1, 4)));
    assert!(b.velocity.x.same(&q(-1, 4)));
}

#[test]
fn lorentz_radius_matches_squared_frontend() {
    let mut a = p3((0, 0, 0), (0, 1, 0), s(1), s(1));
    let mut b = p3((1, 0, 0), (0, 1, 0), s(1), s(1));
    lorentz_radius(&mut a, &mut b, s(2), s(1));
    let mut c = p3((0, 0, 0), (0, 1, 0), s(1), s(1));
    let mut d = p3((1, 0, 0), (0, 1, 0), s(1), s(1));
    lorentz_radius_squared(&mut c, &mut d, s(4), s(1));
    assert!(a.velocity.x.same(&c.velocity.x));
    assert!(b.velocity.x.same(&d.velocity.x));
}

#[test]
fn lorentz_field_zero_field_no_force() {
    let mut a = p3((0, 0, 0), (0, 0, 0), s(2), s(1));
    let field = Cartesian3::new(s(0), s(0), s(0));
    a.lorentz_field(&field);
    assert!(a.velocity.x.is_zero());
    assert!(a.velocity.y.is_zero());
    assert!(a.velocity.z.is_zero());
}

#[test]
fn lorentz_field_deflects_moving_charge() {
    let mut a = p3((0, 0, 0), (1, 0, 0), s(2), s(1));
    let field = Cartesian3::new(s(0), s(0), s(1));
    a.lorentz_field(&field);
    // cross((1,0,0), (0,0,1)) = (0,-1,0); scaled by quanta 2
    assert!(a.velocity.x.same(&s(1)));
    assert!(a.velocity.y.same(&s(-2)));
    assert!(a.velocity.z.is_zero());
}

#[test]
fn lorentz_to_fixed_center() {
    let mut a = p3((0, 0, 0), (0, 1, 0), s(1), s(1));
    let center = BallParticle::new(
        s(1),
        Cartesian3::new(s(1), s(0), s(0)),
        Cartesian3::new(s(0), s(1), s(0)),
        s(1),
        s(0),
    );
    BasicParticle::lorentz_to(&mut a, &center, s(1));
    // same nested cross as the two-body law; only the moving side is
    // accelerated, by the negated force
    assert!(a.velocity.x.same(&s(1)));
    assert!(a.velocity.y.same(&s(1)));
    assert!(a.velocity.z.is_zero());
}

#[test]
fn basic_form_snapshots_state() {
    let a = p1(3, 4, s(5), s(6));
    let b = a.basic_form();
    assert!(b.quanta.same(&s(5)));
    assert!(b.position.x.same(&s(3)));
    assert!(b.velocity.x.same(&s(4)));
    assert!(b.inertia.same(&s(6)));
}

#[test]
fn accelerate_accumulates_velocity() {
    let mut a = p1(0, 1, s(1), s(1));
    a.accelerate(&Cartesian1::new(s(2)));
    assert!(a.velocity.x.same(&s(3)));
    assert!(a.position.x.is_zero());
}

#[test]
fn advance_moves_by_velocity_times_time() {
    let mut a = p1(1, 3, s(1), s(1));
    a.advance(s(2));
    assert!(a.position.x.same(&s(7)));
    assert!(a.velocity.x.same(&s(3)));
}

#[test]
fn ball_particle_radius_squared() {
    let c = BallParticle::new(
        s(1),
        Cartesian1::new(s(0)),
        Cartesian1::new(s(0)),
        s(1),
        s(3),
    );
    assert!(c.radius().same(&s(3)));
    assert!(c.radius_squared().same(&s(9)));
}
