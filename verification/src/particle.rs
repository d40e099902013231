use vstd::prelude::*;
use crate::rational::{
    Rat, Scalar, rat_wf, rat_fits, rat_zero, rat_add, rat_sub, rat_neg, rat_mul, rat_div, rat_eq,
    rat_lt, rat_one, lemma_rat_lt_congr, lemma_rat_div_mul_cancel, lemma_rat_neg_congr,
    lemma_rat_eq_sym, lemma_rat_eq_trans, lemma_rat_mul_wf, lemma_rat_div_order,
    lemma_rat_div_congr_den,
};
use crate::vector::{
    Vector, CrossVector, vwf, vfits, vadd, vsub, vneg, vmul, vdiv, vdot, veq, vzero,
    lemma_vdot_wf, lemma_vsub_wf,
};
use crate::particle::basic_particle::BasicParticle;

pub mod basic_particle;

verus! {

/// An object that has quanta: a generalized coupling strength (mass
/// for gravity, charge for electromagnetism). No sign constraint.
pub trait Quanta {
    /// The quanta of this object.
    spec fn quantam(&self) -> Rat;

    /// Retrieve the quanta of a physics particle.
    fn quanta(&self) -> (r: Scalar)
        ensures
            r.m() == self.quantam(),
            rat_wf(r.m()),
            rat_fits(r.m()),
    ;
}

/// An object that has inertia: the strictly positive scalar dividing
/// applied force to yield acceleration.
pub trait Inertia {
    /// The inertia of this object.
    spec fn inertiam(&self) -> Rat;

    /// Retrieve the inertia of a physics particle.
    fn inertia(&self) -> (r: Scalar)
        ensures
            r.m() == self.inertiam(),
            rat_wf(r.m()),
            rat_fits(r.m()),
    ;
}

/// An object with a location.
pub trait Position<V: Vector> {
    /// The component model of this object's position.
    spec fn posm(&self) -> Seq<Rat>;

    /// Get position of particle.
    fn position(&self) -> (r: V)
        ensures
            r.m() == self.posm(),
            vwf(r.m()),
            vfits(r.m()),
            r.m().len() == V::dim(),
    ;
}

/// An object with a velocity.
pub trait Velocity<V: Vector> {
    /// The component model of this object's velocity.
    spec fn velm(&self) -> Seq<Rat>;

    /// Get velocity of particle.
    fn velocity(&self) -> (r: V)
        ensures
            r.m() == self.velm(),
            vwf(r.m()),
            vfits(r.m()),
            r.m().len() == V::dim(),
    ;
}

/// A uniform ball with a radius: a finite-extent body whose quanta is
/// modeled as evenly distributed through the ball.
pub trait UniformBall {
    /// The radius of this body.
    spec fn radiusm(&self) -> Rat;

    /// The value the body reports as its squared radius.
    spec fn radius_sqm(&self) -> Rat;

    /// Whether the squared radius is representable.
    spec fn radius_sq_pre(&self) -> bool;

    /// The reported squared radius equals the square of the radius.
    proof fn lemma_radius_sq(&self)
        requires
            self.radius_sq_pre(),
        ensures
            rat_wf(self.radius_sqm()),
            rat_fits(self.radius_sqm()),
            rat_eq(self.radius_sqm(), rat_mul(self.radiusm(), self.radiusm())),
    ;

    /// Get radius of particle.
    fn radius(&self) -> (r: Scalar)
        ensures
            r.m() == self.radiusm(),
            rat_wf(r.m()),
            rat_fits(r.m()),
    ;

    /// Get radius squared of particle (implementors may cache it).
    fn radius_squared(&self) -> (r: Scalar)
        requires
            self.radius_sq_pre(),
        ensures
            r.m() == self.radius_sqm(),
            rat_wf(r.m()),
            rat_fits(r.m()),
    ;
}

/// An object with a simple particle motion interface.
pub trait Particle<V: Vector>: Position<V> + Velocity<V> + Inertia {
    /// All state of this object apart from position and velocity
    /// agrees with the other's.
    spec fn same_attrs(&self, o: &Self) -> bool;

    /// Accelerate particle: accumulate an instantaneous velocity
    /// delta. Callers fold the division by inertia in beforehand.
    fn accelerate(&mut self, vec: &V)
        requires
            vfits(vadd(old(self).velm(), vec.m())),
        ensures
            final(self).velm() == vadd(old(self).velm(), vec.m()),
            final(self).posm() == old(self).posm(),
            final(self).inertiam() == old(self).inertiam(),
            final(self).same_attrs(old(self)),
    ;

    /// Advance particle: integrate position forward by the elapsed
    /// time with a single linear update; velocity is unchanged.
    fn advance(&mut self, time: Scalar)
        requires
            vfits(vmul(old(self).velm(), time.m())),
            vfits(vadd(old(self).posm(), vmul(old(self).velm(), time.m()))),
        ensures
            final(self).posm() == vadd(old(self).posm(), vmul(old(self).velm(), time.m())),
            final(self).velm() == old(self).velm(),
            final(self).inertiam() == old(self).inertiam(),
            final(self).same_attrs(old(self)),
    ;
}

/// The attraction force between two bodies at positions `lp` and `rp`
/// with quanta `lq` and `rq`: the separation vector from `lp` to `rp`,
/// scaled by the magnitude, divided by the cube of the separation
/// distance (inverse-square law on the normalized direction), and
/// scaled by both quanta.
pub open spec fn grav_force<V: Vector>(
    lp: Seq<Rat>,
    rp: Seq<Rat>,
    lq: Rat,
    rq: Rat,
    mag: Rat,
) -> Seq<Rat> {
    let delta = vsub(rp, lp);
    let dist = V::disp_of(delta);
    let d3 = rat_mul(rat_mul(dist, dist), dist);
    vmul(vmul(vdiv(vmul(delta, mag), d3), lq), rq)
}

/// The inputs on which `gravitate` is defined: nonzero separation,
/// positive inertia on both sides, and every intermediate value
/// representable.
pub open spec fn gravitate_pre<V: Vector>(
    lp: Seq<Rat>,
    rp: Seq<Rat>,
    lv: Seq<Rat>,
    rv: Seq<Rat>,
    lq: Rat,
    rq: Rat,
    li: Rat,
    ri: Rat,
    mag: Rat,
) -> bool {
    let delta = vsub(rp, lp);
    let dist = V::disp_of(delta);
    let d2 = rat_mul(dist, dist);
    let d3 = rat_mul(d2, dist);
    let f0 = vmul(delta, mag);
    let f1 = vdiv(f0, d3);
    let f2 = vmul(f1, lq);
    let f = vmul(f2, rq);
    &&& vfits(delta)
    &&& V::disp_pre(delta)
    &&& dist.n != 0
    &&& rat_fits(d2)
    &&& rat_fits(d3)
    &&& vfits(f0)
    &&& vfits(f1)
    &&& vfits(f2)
    &&& vfits(f)
    &&& rat_lt(rat_zero(), li)
    &&& rat_lt(rat_zero(), ri)
    &&& vfits(vdiv(f, li))
    &&& vfits(vneg(f))
    &&& vfits(vdiv(vneg(f), ri))
    &&& vfits(vadd(lv, vdiv(f, li)))
    &&& vfits(vadd(rv, vdiv(vneg(f), ri)))
}

/// The composite entity all force laws operate on. The two-body laws
/// mutate both participants with equal and opposite force; the
/// `*_to` variants treat the center as a fixed source and mutate only
/// the moving participant.
pub trait PhysicsParticle<V: Vector>: Particle<V> + Quanta {
    /// Objects whose non-kinematic state agrees carry the same quanta.
    proof fn lemma_same_attrs_quanta(a: &Self, b: &Self)
        requires
            a.same_attrs(b),
        ensures
            a.quantam() == b.quantam(),
    ;

    /// Convert a physics particle into a basic particle holding the
    /// minimum members.
    fn basic_form(&self) -> (r: BasicParticle<V>)
        ensures
            r.quantam() == self.quantam(),
            r.posm() == self.posm(),
            r.velm() == self.velm(),
            r.inertiam() == self.inertiam(),
    {
        BasicParticle::new(self.quanta(), self.position(), self.velocity(), self.inertia())
    }

    /// Apply drag forces to a particle: accelerate by the negated
    /// velocity scaled by the magnitude and divided by the inertia.
    fn drag(&mut self, magnitude: Scalar)
        requires
            drag_pre(old(self).velm(), old(self).inertiam(), magnitude.m()),
        ensures
            final(self).posm() == old(self).posm(),
            final(self).inertiam() == old(self).inertiam(),
            final(self).quantam() == old(self).quantam(),
            final(self).same_attrs(old(self)),
            final(self).velm() == vadd(
                old(self).velm(),
                vdiv(vmul(vneg(old(self).velm()), magnitude.m()), old(self).inertiam()),
            ),
    {
        let vel = self.velocity();
        let si = self.inertia();
        proof {
            assert(si.m().n * 1 > 0 * si.m().d);
        }
        let acceleration = vel.neg().mul(magnitude).div(si);
        self.accelerate(&acceleration);
        proof {
            Self::lemma_same_attrs_quanta(&*self, &*old(self));
        }
    }

    /// Apply proper attraction of this particle toward a fixed
    /// center, which is itself unaffected.
    fn gravitate_to<T: Quanta + Position<V>>(&mut self, center: &T, magnitude: Scalar)
        requires
            grav_to_pre::<V>(
                old(self).posm(),
                center.posm(),
                old(self).velm(),
                old(self).quantam(),
                center.quantam(),
                old(self).inertiam(),
                magnitude.m(),
            ),
        ensures
            final(self).posm() == old(self).posm(),
            final(self).inertiam() == old(self).inertiam(),
            final(self).quantam() == old(self).quantam(),
            final(self).same_attrs(old(self)),
            final(self).velm() == vadd(
                old(self).velm(),
                grav_to_acc::<V>(
                    old(self).posm(),
                    center.posm(),
                    old(self).quantam(),
                    center.quantam(),
                    old(self).inertiam(),
                    magnitude.m(),
                ),
            ),
    {
        let cp = center.position();
        let sp = self.position();
        let delta = cp.sub(&sp);
        let distance = delta.displacement();
        proof {
            let dist = V::disp_of(delta.m());
            assert(rat_mul(rat_mul(dist, dist), dist).n == (dist.n * dist.n) * dist.n);
            assert((dist.n * dist.n) * dist.n != 0) by (nonlinear_arith)
                requires
                    dist.n != 0,
            ;
        }
        let d2 = distance.mul(distance);
        let d3 = d2.mul(distance);
        let si = self.inertia();
        proof {
            assert(si.m().n * 1 > 0 * si.m().d);
        }
        let acceleration = delta.div(d3).mul(magnitude).mul(self.quanta()).mul(center.quanta())
            .div(si);
        self.accelerate(&acceleration);
        proof {
            Self::lemma_same_attrs_quanta(&*self, &*old(self));
        }
    }

    /// Softened attraction of this particle toward a fixed center
    /// with a finite radius, which is itself unaffected.
    fn gravitate_radius_to<T: Quanta + Position<V> + UniformBall>(
        &mut self,
        center: &T,
        magnitude: Scalar,
    )
        requires
            center.radius_sq_pre(),
            grav_radius_to_pre::<V>(
                old(self).posm(),
                center.posm(),
                old(self).velm(),
                old(self).quantam(),
                center.quantam(),
                old(self).inertiam(),
                center.radius_sqm(),
                magnitude.m(),
            ),
        ensures
            final(self).posm() == old(self).posm(),
            final(self).inertiam() == old(self).inertiam(),
            final(self).quantam() == old(self).quantam(),
            final(self).same_attrs(old(self)),
            final(self).velm() == vadd(
                old(self).velm(),
                grav_radius_to_acc::<V>(
                    old(self).posm(),
                    center.posm(),
                    old(self).quantam(),
                    center.quantam(),
                    old(self).inertiam(),
                    center.radius_sqm(),
                    magnitude.m(),
                ),
            ),
    {
        let cp = center.position();
        let sp = self.position();
        let delta = cp.sub(&sp);
        let rsq = center.radius_squared();
        let divisor = radius_divisor::<V>(&delta, rsq);
        let si = self.inertia();
        proof {
            assert(si.m().n * 1 > 0 * si.m().d);
            assert(rat_mul(si.m(), divisor.m()).n != 0 && rat_mul(si.m(), divisor.m()).d > 0)
                by (nonlinear_arith)
                requires
                    si.m().n > 0,
                    si.m().d > 0,
                    divisor.m().n != 0,
                    divisor.m().d > 0,
                    rat_mul(si.m(), divisor.m()) == (Rat {
                        n: si.m().n * divisor.m().n,
                        d: si.m().d * divisor.m().d,
                    }),
            ;
        }
        let den = si.mul(divisor);
        let acceleration = delta.mul(magnitude).mul(self.quanta()).mul(center.quanta()).div(den);
        self.accelerate(&acceleration);
        proof {
            Self::lemma_same_attrs_quanta(&*self, &*old(self));
        }
    }

    /// Apply spring forces between this particle and a fixed center
    /// that is unaffected.
    fn hooke_to<T: Quanta + Position<V>>(&mut self, center: &T, magnitude: Scalar)
        requires
            hooke_to_pre::<V>(
                old(self).posm(),
                center.posm(),
                old(self).velm(),
                old(self).quantam(),
                center.quantam(),
                old(self).inertiam(),
                magnitude.m(),
            ),
        ensures
            final(self).posm() == old(self).posm(),
            final(self).inertiam() == old(self).inertiam(),
            final(self).quantam() == old(self).quantam(),
            final(self).same_attrs(old(self)),
            final(self).velm() == vadd(
                old(self).velm(),
                hooke_to_acc::<V>(
                    old(self).posm(),
                    center.posm(),
                    old(self).quantam(),
                    center.quantam(),
                    old(self).inertiam(),
                    magnitude.m(),
                ),
            ),
    {
        let cp = center.position();
        let sp = self.position();
        let delta = cp.sub(&sp);
        proof {
            V::lemma_norm_pre(delta.m());
        }
        let unit = delta.normalized();
        let dist = delta.displacement();
        let si = self.inertia();
        proof {
            assert(si.m().n * 1 > 0 * si.m().d);
        }
        let acceleration = unit.mul(dist).mul(magnitude).mul(self.quanta()).mul(center.quanta())
            .div(si);
        self.accelerate(&acceleration);
        proof {
            Self::lemma_same_attrs_quanta(&*self, &*old(self));
        }
    }

    /// Apply spring forces between this particle and a fixed center
    /// with the given equilibrium distance; the center is unaffected.
    fn hooke_equilibrium_to<T: Quanta + Position<V>>(
        &mut self,
        center: &T,
        equilibrium: Scalar,
        magnitude: Scalar,
    )
        requires
            hooke_eq_to_pre::<V>(
                old(self).posm(),
                center.posm(),
                old(self).velm(),
                old(self).quantam(),
                center.quantam(),
                old(self).inertiam(),
                equilibrium.m(),
                magnitude.m(),
            ),
        ensures
            final(self).posm() == old(self).posm(),
            final(self).inertiam() == old(self).inertiam(),
            final(self).quantam() == old(self).quantam(),
            final(self).same_attrs(old(self)),
            final(self).velm() == vadd(
                old(self).velm(),
                hooke_eq_to_acc::<V>(
                    old(self).posm(),
                    center.posm(),
                    old(self).quantam(),
                    center.quantam(),
                    old(self).inertiam(),
                    equilibrium.m(),
                    magnitude.m(),
                ),
            ),
    {
        let cp = center.position();
        let sp = self.position();
        let delta = cp.sub(&sp);
        proof {
            V::lemma_norm_pre(delta.m());
        }
        let unit = delta.normalized();
        let dist = delta.displacement();
        let si = self.inertia();
        proof {
            assert(si.m().n * 1 > 0 * si.m().d);
        }
        let acceleration = unit.mul(dist.sub(equilibrium)).mul(magnitude).mul(self.quanta()).mul(
            center.quanta(),
        ).div(si);
        self.accelerate(&acceleration);
        proof {
            Self::lemma_same_attrs_quanta(&*self, &*old(self));
        }
    }

    /// Apply the magnetic force of a uniform external field to this
    /// particle: its velocity crossed with the field, scaled by its
    /// quanta and divided by its inertia.
    fn lorentz_field(&mut self, field: &V)
        where
            V: CrossVector,

        requires
            lorentz_field_pre::<V>(
                old(self).velm(),
                field.m(),
                old(self).quantam(),
                old(self).inertiam(),
            ),
        ensures
            final(self).posm() == old(self).posm(),
            final(self).inertiam() == old(self).inertiam(),
            final(self).quantam() == old(self).quantam(),
            final(self).same_attrs(old(self)),
            final(self).velm() == vadd(
                old(self).velm(),
                lorentz_field_acc::<V>(
                    old(self).velm(),
                    field.m(),
                    old(self).quantam(),
                    old(self).inertiam(),
                ),
            ),
    {
        let vel = self.velocity();
        let cr = V::cross(&vel, field);
        let si = self.inertia();
        proof {
            assert(si.m().n * 1 > 0 * si.m().d);
        }
        let acceleration = cr.mul(self.quanta()).div(si);
        self.accelerate(&acceleration);
        proof {
            Self::lemma_same_attrs_quanta(&*self, &*old(self));
        }
    }

    /// Apply the magnetic force of a fixed moving center with a
    /// finite radius on this particle; the center is unaffected.
    fn lorentz_to<T: Quanta + Position<V> + Velocity<V> + UniformBall>(
        lhs: &mut Self,
        center: &T,
        magnitude: Scalar,
    )
        where
            V: CrossVector,

        requires
            center.radius_sq_pre(),
            lorentz_to_pre::<V>(
                old(lhs).posm(),
                center.posm(),
                old(lhs).velm(),
                center.velm(),
                old(lhs).quantam(),
                center.quantam(),
                old(lhs).inertiam(),
                center.radius_sqm(),
                magnitude.m(),
            ),
        ensures
            final(lhs).posm() == old(lhs).posm(),
            final(lhs).inertiam() == old(lhs).inertiam(),
            final(lhs).quantam() == old(lhs).quantam(),
            final(lhs).same_attrs(old(lhs)),
            final(lhs).velm() == vadd(
                old(lhs).velm(),
                lorentz_to_acc::<V>(
                    old(lhs).posm(),
                    center.posm(),
                    old(lhs).velm(),
                    center.velm(),
                    old(lhs).quantam(),
                    center.quantam(),
                    old(lhs).inertiam(),
                    center.radius_sqm(),
                    magnitude.m(),
                ),
            ),
    {
        let cp = center.position();
        let lp = lhs.position();
        let delta = cp.sub(&lp);
        let rsq = center.radius_squared();
        let divisor = radius_divisor::<V>(&delta, rsq);
        let lv = lhs.velocity();
        let cv = center.velocity();
        let inner = V::cross(&lv, &delta);
        let outer = V::cross(&cv, &inner);
        let force = outer.mul(magnitude).mul(lhs.quanta()).mul(center.quanta()).div(divisor);
        let li = lhs.inertia();
        proof {
            assert(li.m().n * 1 > 0 * li.m().d);
        }
        let acceleration = force.neg().div(li);
        lhs.accelerate(&acceleration);
        proof {
            Self::lemma_same_attrs_quanta(&*lhs, &*old(lhs));
        }
    }

}

/// Apply proper attraction between two physics particles based on
/// their quanta and position. Both participants receive equal and
/// opposite force; each is accelerated by the force divided by its
/// own inertia.
pub fn gravitate<V: Vector, S: PhysicsParticle<V>, T: PhysicsParticle<V>>(
    lhs: &mut S,
    rhs: &mut T,
    magnitude: Scalar,
)
    requires
        gravitate_pre::<V>(
            old(lhs).posm(),
            old(rhs).posm(),
            old(lhs).velm(),
            old(rhs).velm(),
            old(lhs).quantam(),
            old(rhs).quantam(),
            old(lhs).inertiam(),
            old(rhs).inertiam(),
            magnitude.m(),
        ),
    ensures
        final(lhs).posm() == old(lhs).posm(),
        final(rhs).posm() == old(rhs).posm(),
        final(lhs).inertiam() == old(lhs).inertiam(),
        final(rhs).inertiam() == old(rhs).inertiam(),
        final(lhs).quantam() == old(lhs).quantam(),
        final(rhs).quantam() == old(rhs).quantam(),
        final(lhs).same_attrs(old(lhs)),
        final(rhs).same_attrs(old(rhs)),
        final(lhs).velm() == vadd(
            old(lhs).velm(),
            vdiv(
                grav_force::<V>(
                    old(lhs).posm(),
                    old(rhs).posm(),
                    old(lhs).quantam(),
                    old(rhs).quantam(),
                    magnitude.m(),
                ),
                old(lhs).inertiam(),
            ),
        ),
        final(rhs).velm() == vadd(
            old(rhs).velm(),
            vdiv(
                vneg(
                    grav_force::<V>(
                        old(lhs).posm(),
                        old(rhs).posm(),
                        old(lhs).quantam(),
                        old(rhs).quantam(),
                        magnitude.m(),
                    ),
                ),
                old(rhs).inertiam(),
            ),
        ),
{
    let rp = rhs.position();
    let lp = lhs.position();
    let delta = rp.sub(&lp);
    let distance = delta.displacement();
    proof {
        let dist = V::disp_of(delta.m());
        assert(rat_mul(rat_mul(dist, dist), dist).n == (dist.n * dist.n) * dist.n);
        assert((dist.n * dist.n) * dist.n != 0) by (nonlinear_arith)
            requires
                dist.n != 0,
        ;
    }
    let d2 = distance.mul(distance);
    let d3 = d2.mul(distance);
    let force = delta.mul(magnitude).div(d3).mul(lhs.quanta()).mul(rhs.quanta());
    let li = lhs.inertia();
    proof {
        assert(li.m().n * 1 > 0 * li.m().d);
    }
    let acceleration = force.div(li);
    lhs.accelerate(&acceleration);
    let ri = rhs.inertia();
    proof {
        assert(ri.m().n * 1 > 0 * ri.m().d);
    }
    let acceleration = force.neg().div(ri);
    rhs.accelerate(&acceleration);
    proof {
        S::lemma_same_attrs_quanta(&*lhs, &*old(lhs));
        T::lemma_same_attrs_quanta(&*rhs, &*old(rhs));
    }
}
/// The inputs on which `drag` is defined.
pub open spec fn drag_pre(v: Seq<Rat>, i: Rat, mag: Rat) -> bool {
    let a0 = vneg(v);
    let a1 = vmul(a0, mag);
    let acc = vdiv(a1, i);
    &&& vfits(a0)
    &&& vfits(a1)
    &&& rat_lt(rat_zero(), i)
    &&& vfits(acc)
    &&& vfits(vadd(v, acc))
}

/// The divisor of the radius-softened laws: the cube of the
/// separation distance outside the ball, the squared radius inside
/// it, where the interaction behaves as if the quanta were evenly
/// distributed through the ball.
pub open spec fn grav_divisor<V: Vector>(delta: Seq<Rat>, rs: Rat) -> Rat {
    let dist = V::disp_of(delta);
    if rat_lt(rs, vdot(delta, delta)) {
        rat_mul(rat_mul(dist, dist), dist)
    } else {
        rs
    }
}

/// The inputs on which the softened divisor is well defined and
/// representable: outside the ball the distance terms must be
/// available, inside it the squared radius must be nonzero.
pub open spec fn divisor_pre<V: Vector>(delta: Seq<Rat>, rs: Rat) -> bool {
    let dist = V::disp_of(delta);
    let d2 = rat_mul(dist, dist);
    let d3 = rat_mul(d2, dist);
    &&& V::disp_sq_pre(delta)
    &&& rat_wf(rs)
    &&& if rat_lt(rs, vdot(delta, delta)) {
        V::disp_pre(delta) && dist.n != 0 && rat_fits(d2) && rat_fits(d3)
    } else {
        rs.n != 0
    }
}

/// Compute the softened divisor of the finite-radius laws.
fn radius_divisor<V: Vector>(delta: &V, radius_squared: Scalar) -> (r: Scalar)
    requires
        divisor_pre::<V>(delta.m(), radius_squared.m()),
    ensures
        r.m() == grav_divisor::<V>(delta.m(), radius_squared.m()),
        r.m().n != 0,
        rat_wf(r.m()),
        rat_fits(r.m()),
{
    let d2v = delta.displacement_squared();
    radius_squared.facts();
    let g = d2v.gt(&radius_squared);
    proof {
        lemma_vdot_wf(delta.m(), delta.m());
        lemma_rat_lt_congr(
            radius_squared.m(),
            radius_squared.m(),
            d2v.m(),
            vdot(delta.m(), delta.m()),
        );
    }
    if g {
        let dist = delta.displacement();
        dist.facts();
        proof {
            assert((dist.m().n * dist.m().n) * dist.m().n != 0 && (dist.m().d * dist.m().d)
                * dist.m().d > 0) by (nonlinear_arith)
                requires
                    dist.m().n != 0,
                    dist.m().d > 0,
            ;
        }
        let d2 = dist.mul(dist);
        d2.mul(dist)
    } else {
        radius_squared
    }
}

/// The softened attraction force: as `grav_force`, but with the cube
/// of the distance replaced by the squared radius when the separation
/// is inside the ball.
pub open spec fn grav_rs_force<V: Vector>(
    lp: Seq<Rat>,
    rp: Seq<Rat>,
    lq: Rat,
    rq: Rat,
    rs: Rat,
    mag: Rat,
) -> Seq<Rat> {
    let delta = vsub(rp, lp);
    vdiv(vmul(vmul(vmul(delta, mag), lq), rq), grav_divisor::<V>(delta, rs))
}

/// The inputs on which `gravitate_radius_squared` is defined.
pub open spec fn grav_rs_pre<V: Vector>(
    lp: Seq<Rat>,
    rp: Seq<Rat>,
    lv: Seq<Rat>,
    rv: Seq<Rat>,
    lq: Rat,
    rq: Rat,
    li: Rat,
    ri: Rat,
    rs: Rat,
    mag: Rat,
) -> bool {
    let delta = vsub(rp, lp);
    let dvr = grav_divisor::<V>(delta, rs);
    let f0 = vmul(delta, mag);
    let f1 = vmul(f0, lq);
    let f2 = vmul(f1, rq);
    let f = vdiv(f2, dvr);
    &&& vfits(delta)
    &&& divisor_pre::<V>(delta, rs)
    &&& vfits(f0)
    &&& vfits(f1)
    &&& vfits(f2)
    &&& vfits(f)
    &&& rat_lt(rat_zero(), li)
    &&& rat_lt(rat_zero(), ri)
    &&& vfits(vdiv(f, li))
    &&& vfits(vneg(f))
    &&& vfits(vdiv(vneg(f), ri))
    &&& vfits(vadd(lv, vdiv(f, li)))
    &&& vfits(vadd(rv, vdiv(vneg(f), ri)))
}

/// Softened attraction between two physics particles. When the
/// squared separation exceeds the squared radius the particles
/// interact as points; otherwise the force is proportional to the
/// reciprocal of the squared radius, so it stays finite and vanishes
/// as the radius approaches zero. The radius is passed squared for
/// efficiency.
pub fn gravitate_radius_squared<V: Vector, S: PhysicsParticle<V>, T: PhysicsParticle<V>>(
    lhs: &mut S,
    rhs: &mut T,
    radius_squared: Scalar,
    magnitude: Scalar,
)
    requires
        grav_rs_pre::<V>(
            old(lhs).posm(),
            old(rhs).posm(),
            old(lhs).velm(),
            old(rhs).velm(),
            old(lhs).quantam(),
            old(rhs).quantam(),
            old(lhs).inertiam(),
            old(rhs).inertiam(),
            radius_squared.m(),
            magnitude.m(),
        ),
    ensures
        final(lhs).posm() == old(lhs).posm(),
        final(rhs).posm() == old(rhs).posm(),
        final(lhs).inertiam() == old(lhs).inertiam(),
        final(rhs).inertiam() == old(rhs).inertiam(),
        final(lhs).quantam() == old(lhs).quantam(),
        final(rhs).quantam() == old(rhs).quantam(),
        final(lhs).same_attrs(old(lhs)),
        final(rhs).same_attrs(old(rhs)),
        final(lhs).velm() == vadd(
            old(lhs).velm(),
            vdiv(
                grav_rs_force::<V>(
                    old(lhs).posm(),
                    old(rhs).posm(),
                    old(lhs).quantam(),
                    old(rhs).quantam(),
                    radius_squared.m(),
                    magnitude.m(),
                ),
                old(lhs).inertiam(),
            ),
        ),
        final(rhs).velm() == vadd(
            old(rhs).velm(),
            vdiv(
                vneg(
                    grav_rs_force::<V>(
                        old(lhs).posm(),
                        old(rhs).posm(),
                        old(lhs).quantam(),
                        old(rhs).quantam(),
                        radius_squared.m(),
                        magnitude.m(),
                    ),
                ),
                old(rhs).inertiam(),
            ),
        ),
{
    let rp = rhs.position();
    let lp = lhs.position();
    let delta = rp.sub(&lp);
    let divisor = radius_divisor::<V>(&delta, radius_squared);
    let force = delta.mul(magnitude).mul(lhs.quanta()).mul(rhs.quanta()).div(divisor);
    let li = lhs.inertia();
    proof {
        assert(li.m().n * 1 > 0 * li.m().d);
    }
    let acceleration = force.div(li);
    lhs.accelerate(&acceleration);
    let ri = rhs.inertia();
    proof {
        assert(ri.m().n * 1 > 0 * ri.m().d);
    }
    let acceleration = force.neg().div(ri);
    rhs.accelerate(&acceleration);
    proof {
        S::lemma_same_attrs_quanta(&*lhs, &*old(lhs));
        T::lemma_same_attrs_quanta(&*rhs, &*old(rhs));
    }
}

/// Frontend to `gravitate_radius_squared` taking the plain radius; it
/// produces identical results on `radius * radius`. It exists so a
/// specialized implementation could be substituted without changing
/// call sites.
pub fn gravitate_radius<V: Vector, S: PhysicsParticle<V>, T: PhysicsParticle<V>>(
    lhs: &mut S,
    rhs: &mut T,
    radius: Scalar,
    magnitude: Scalar,
)
    requires
        rat_fits(rat_mul(radius.m(), radius.m())),
        grav_rs_pre::<V>(
            old(lhs).posm(),
            old(rhs).posm(),
            old(lhs).velm(),
            old(rhs).velm(),
            old(lhs).quantam(),
            old(rhs).quantam(),
            old(lhs).inertiam(),
            old(rhs).inertiam(),
            rat_mul(radius.m(), radius.m()),
            magnitude.m(),
        ),
    ensures
        final(lhs).posm() == old(lhs).posm(),
        final(rhs).posm() == old(rhs).posm(),
        final(lhs).inertiam() == old(lhs).inertiam(),
        final(rhs).inertiam() == old(rhs).inertiam(),
        final(lhs).quantam() == old(lhs).quantam(),
        final(rhs).quantam() == old(rhs).quantam(),
        final(lhs).same_attrs(old(lhs)),
        final(rhs).same_attrs(old(rhs)),
        final(lhs).velm() == vadd(
            old(lhs).velm(),
            vdiv(
                grav_rs_force::<V>(
                    old(lhs).posm(),
                    old(rhs).posm(),
                    old(lhs).quantam(),
                    old(rhs).quantam(),
                    rat_mul(radius.m(), radius.m()),
                    magnitude.m(),
                ),
                old(lhs).inertiam(),
            ),
        ),
        final(rhs).velm() == vadd(
            old(rhs).velm(),
            vdiv(
                vneg(
                    grav_rs_force::<V>(
                        old(lhs).posm(),
                        old(rhs).posm(),
                        old(lhs).quantam(),
                        old(rhs).quantam(),
                        rat_mul(radius.m(), radius.m()),
                        magnitude.m(),
                    ),
                ),
                old(rhs).inertiam(),
            ),
        ),
{
    gravitate_radius_squared(lhs, rhs, radius.mul(radius), magnitude);
}

/// The acceleration `gravitate_to` applies: attraction of a single
/// particle toward a fixed center, the separation divided by the cube
/// of the distance, scaled by the magnitude and both quanta, divided
/// by the particle's inertia.
pub open spec fn grav_to_acc<V: Vector>(
    sp: Seq<Rat>,
    cp: Seq<Rat>,
    sq: Rat,
    cq: Rat,
    si: Rat,
    mag: Rat,
) -> Seq<Rat> {
    let delta = vsub(cp, sp);
    let dist = V::disp_of(delta);
    let d3 = rat_mul(rat_mul(dist, dist), dist);
    vdiv(vmul(vmul(vmul(vdiv(delta, d3), mag), sq), cq), si)
}

/// The inputs on which `gravitate_to` is defined.
pub open spec fn grav_to_pre<V: Vector>(
    sp: Seq<Rat>,
    cp: Seq<Rat>,
    sv: Seq<Rat>,
    sq: Rat,
    cq: Rat,
    si: Rat,
    mag: Rat,
) -> bool {
    let delta = vsub(cp, sp);
    let dist = V::disp_of(delta);
    let d2 = rat_mul(dist, dist);
    let d3 = rat_mul(d2, dist);
    let a0 = vdiv(delta, d3);
    let a1 = vmul(a0, mag);
    let a2 = vmul(a1, sq);
    let a3 = vmul(a2, cq);
    let acc = vdiv(a3, si);
    &&& vfits(delta)
    &&& V::disp_pre(delta)
    &&& dist.n != 0
    &&& rat_fits(d2)
    &&& rat_fits(d3)
    &&& vfits(a0)
    &&& vfits(a1)
    &&& vfits(a2)
    &&& vfits(a3)
    &&& rat_lt(rat_zero(), si)
    &&& vfits(acc)
    &&& vfits(vadd(sv, acc))
}

/// The acceleration `gravitate_radius_to` applies: as `grav_to_acc`
/// with the softened divisor of the center's ball.
pub open spec fn grav_radius_to_acc<V: Vector>(
    sp: Seq<Rat>,
    cp: Seq<Rat>,
    sq: Rat,
    cq: Rat,
    si: Rat,
    rs: Rat,
    mag: Rat,
) -> Seq<Rat> {
    let delta = vsub(cp, sp);
    vdiv(vmul(vmul(vmul(delta, mag), sq), cq), rat_mul(si, grav_divisor::<V>(delta, rs)))
}

/// The inputs on which `gravitate_radius_to` is defined.
pub open spec fn grav_radius_to_pre<V: Vector>(
    sp: Seq<Rat>,
    cp: Seq<Rat>,
    sv: Seq<Rat>,
    sq: Rat,
    cq: Rat,
    si: Rat,
    rs: Rat,
    mag: Rat,
) -> bool {
    let delta = vsub(cp, sp);
    let dvr = grav_divisor::<V>(delta, rs);
    let a0 = vmul(delta, mag);
    let a1 = vmul(a0, sq);
    let a2 = vmul(a1, cq);
    let acc = vdiv(a2, rat_mul(si, dvr));
    &&& vfits(delta)
    &&& divisor_pre::<V>(delta, rs)
    &&& vfits(a0)
    &&& vfits(a1)
    &&& vfits(a2)
    &&& rat_lt(rat_zero(), si)
    &&& rat_fits(rat_mul(si, dvr))
    &&& vfits(acc)
    &&& vfits(vadd(sv, acc))
}

/// The spring force between two particles: the unit separation
/// direction scaled by the magnitude, the separation distance and
/// both quanta, so it grows linearly with separation.
pub open spec fn hooke_force<V: Vector>(
    lp: Seq<Rat>,
    rp: Seq<Rat>,
    lq: Rat,
    rq: Rat,
    mag: Rat,
) -> Seq<Rat> {
    let delta = vsub(rp, lp);
    let dist = V::disp_of(delta);
    vmul(vmul(vmul(vmul(vdiv(delta, dist), mag), dist), lq), rq)
}

/// The inputs on which `hooke` is defined.
pub open spec fn hooke_pre<V: Vector>(
    lp: Seq<Rat>,
    rp: Seq<Rat>,
    lv: Seq<Rat>,
    rv: Seq<Rat>,
    lq: Rat,
    rq: Rat,
    li: Rat,
    ri: Rat,
    mag: Rat,
) -> bool {
    let delta = vsub(rp, lp);
    let dist = V::disp_of(delta);
    let h0 = vdiv(delta, dist);
    let h1 = vmul(h0, mag);
    let h2 = vmul(h1, dist);
    let h3 = vmul(h2, lq);
    let f = vmul(h3, rq);
    &&& vfits(delta)
    &&& V::norm_pre(delta)
    &&& rat_fits(dist)
    &&& vfits(h1)
    &&& vfits(h2)
    &&& vfits(h3)
    &&& vfits(f)
    &&& rat_lt(rat_zero(), li)
    &&& rat_lt(rat_zero(), ri)
    &&& vfits(vdiv(f, li))
    &&& vfits(vneg(f))
    &&& vfits(vdiv(vneg(f), ri))
    &&& vfits(vadd(lv, vdiv(f, li)))
    &&& vfits(vadd(rv, vdiv(vneg(f), ri)))
}

/// The spring force with an equilibrium distance: scaled by the
/// deviation `distance - equilibrium` instead of the distance, so the
/// force is attractive beyond the equilibrium, repulsive inside it,
/// and zero exactly at it.
pub open spec fn hooke_eq_force<V: Vector>(
    lp: Seq<Rat>,
    rp: Seq<Rat>,
    lq: Rat,
    rq: Rat,
    eq: Rat,
    mag: Rat,
) -> Seq<Rat> {
    let delta = vsub(rp, lp);
    let dist = V::disp_of(delta);
    vmul(vmul(vmul(vmul(vdiv(delta, dist), mag), rat_sub(dist, eq)), lq), rq)
}

/// The inputs on which `hooke_equilibrium` is defined.
pub open spec fn hooke_eq_pre<V: Vector>(
    lp: Seq<Rat>,
    rp: Seq<Rat>,
    lv: Seq<Rat>,
    rv: Seq<Rat>,
    lq: Rat,
    rq: Rat,
    li: Rat,
    ri: Rat,
    eq: Rat,
    mag: Rat,
) -> bool {
    let delta = vsub(rp, lp);
    let dist = V::disp_of(delta);
    let h0 = vdiv(delta, dist);
    let h1 = vmul(h0, mag);
    let h2 = vmul(h1, rat_sub(dist, eq));
    let h3 = vmul(h2, lq);
    let f = vmul(h3, rq);
    &&& vfits(delta)
    &&& V::norm_pre(delta)
    &&& rat_fits(dist)
    &&& rat_fits(rat_sub(dist, eq))
    &&& vfits(h1)
    &&& vfits(h2)
    &&& vfits(h3)
    &&& vfits(f)
    &&& rat_lt(rat_zero(), li)
    &&& rat_lt(rat_zero(), ri)
    &&& vfits(vdiv(f, li))
    &&& vfits(vneg(f))
    &&& vfits(vdiv(vneg(f), ri))
    &&& vfits(vadd(lv, vdiv(f, li)))
    &&& vfits(vadd(rv, vdiv(vneg(f), ri)))
}

/// The acceleration `hooke_to` applies toward a fixed center.
pub open spec fn hooke_to_acc<V: Vector>(
    sp: Seq<Rat>,
    cp: Seq<Rat>,
    sq: Rat,
    cq: Rat,
    si: Rat,
    mag: Rat,
) -> Seq<Rat> {
    let delta = vsub(cp, sp);
    let dist = V::disp_of(delta);
    vdiv(vmul(vmul(vmul(vmul(vdiv(delta, dist), dist), mag), sq), cq), si)
}

/// The inputs on which `hooke_to` is defined.
pub open spec fn hooke_to_pre<V: Vector>(
    sp: Seq<Rat>,
    cp: Seq<Rat>,
    sv: Seq<Rat>,
    sq: Rat,
    cq: Rat,
    si: Rat,
    mag: Rat,
) -> bool {
    let delta = vsub(cp, sp);
    let dist = V::disp_of(delta);
    let h0 = vdiv(delta, dist);
    let h1 = vmul(h0, dist);
    let h2 = vmul(h1, mag);
    let h3 = vmul(h2, sq);
    let h4 = vmul(h3, cq);
    let acc = vdiv(h4, si);
    &&& vfits(delta)
    &&& V::norm_pre(delta)
    &&& rat_fits(dist)
    &&& vfits(h1)
    &&& vfits(h2)
    &&& vfits(h3)
    &&& vfits(h4)
    &&& rat_lt(rat_zero(), si)
    &&& vfits(acc)
    &&& vfits(vadd(sv, acc))
}

/// The acceleration `hooke_equilibrium_to` applies toward a fixed
/// center, scaled by the deviation from the equilibrium distance.
pub open spec fn hooke_eq_to_acc<V: Vector>(
    sp: Seq<Rat>,
    cp: Seq<Rat>,
    sq: Rat,
    cq: Rat,
    si: Rat,
    eq: Rat,
    mag: Rat,
) -> Seq<Rat> {
    let delta = vsub(cp, sp);
    let dist = V::disp_of(delta);
    vdiv(vmul(vmul(vmul(vmul(vdiv(delta, dist), rat_sub(dist, eq)), mag), sq), cq), si)
}

/// The inputs on which `hooke_equilibrium_to` is defined.
pub open spec fn hooke_eq_to_pre<V: Vector>(
    sp: Seq<Rat>,
    cp: Seq<Rat>,
    sv: Seq<Rat>,
    sq: Rat,
    cq: Rat,
    si: Rat,
    eq: Rat,
    mag: Rat,
) -> bool {
    let delta = vsub(cp, sp);
    let dist = V::disp_of(delta);
    let h0 = vdiv(delta, dist);
    let h1 = vmul(h0, rat_sub(dist, eq));
    let h2 = vmul(h1, mag);
    let h3 = vmul(h2, sq);
    let h4 = vmul(h3, cq);
    let acc = vdiv(h4, si);
    &&& vfits(delta)
    &&& V::norm_pre(delta)
    &&& rat_fits(dist)
    &&& rat_fits(rat_sub(dist, eq))
    &&& vfits(h1)
    &&& vfits(h2)
    &&& vfits(h3)
    &&& vfits(h4)
    &&& rat_lt(rat_zero(), si)
    &&& vfits(acc)
    &&& vfits(vadd(sv, acc))
}

/// Apply spring forces between two particles: equal and opposite, and
/// growing linearly with the separation distance.
pub fn hooke<V: Vector, S: PhysicsParticle<V>, T: PhysicsParticle<V>>(
    lhs: &mut S,
    rhs: &mut T,
    magnitude: Scalar,
)
    requires
        hooke_pre::<V>(
            old(lhs).posm(),
            old(rhs).posm(),
            old(lhs).velm(),
            old(rhs).velm(),
            old(lhs).quantam(),
            old(rhs).quantam(),
            old(lhs).inertiam(),
            old(rhs).inertiam(),
            magnitude.m(),
        ),
    ensures
        final(lhs).posm() == old(lhs).posm(),
        final(rhs).posm() == old(rhs).posm(),
        final(lhs).inertiam() == old(lhs).inertiam(),
        final(rhs).inertiam() == old(rhs).inertiam(),
        final(lhs).quantam() == old(lhs).quantam(),
        final(rhs).quantam() == old(rhs).quantam(),
        final(lhs).same_attrs(old(lhs)),
        final(rhs).same_attrs(old(rhs)),
        final(lhs).velm() == vadd(
            old(lhs).velm(),
            vdiv(
                hooke_force::<V>(
                    old(lhs).posm(),
                    old(rhs).posm(),
                    old(lhs).quantam(),
                    old(rhs).quantam(),
                    magnitude.m(),
                ),
                old(lhs).inertiam(),
            ),
        ),
        final(rhs).velm() == vadd(
            old(rhs).velm(),
            vdiv(
                vneg(
                    hooke_force::<V>(
                        old(lhs).posm(),
                        old(rhs).posm(),
                        old(lhs).quantam(),
                        old(rhs).quantam(),
                        magnitude.m(),
                    ),
                ),
                old(rhs).inertiam(),
            ),
        ),
{
    let rp = rhs.position();
    let lp = lhs.position();
    let delta = rp.sub(&lp);
    proof {
        V::lemma_norm_pre(delta.m());
    }
    let unit = delta.normalized();
    let dist = delta.displacement();
    let force = unit.mul(magnitude).mul(dist).mul(lhs.quanta()).mul(rhs.quanta());
    let li = lhs.inertia();
    proof {
        assert(li.m().n * 1 > 0 * li.m().d);
    }
    let acceleration = force.div(li);
    lhs.accelerate(&acceleration);
    let ri = rhs.inertia();
    proof {
        assert(ri.m().n * 1 > 0 * ri.m().d);
    }
    let acceleration = force.neg().div(ri);
    rhs.accelerate(&acceleration);
    proof {
        S::lemma_same_attrs_quanta(&*lhs, &*old(lhs));
        T::lemma_same_attrs_quanta(&*rhs, &*old(rhs));
    }
}

/// Apply spring forces between two particles with the given
/// equilibrium distance: attractive when the separation exceeds the
/// equilibrium, repulsive when it is smaller.
pub fn hooke_equilibrium<V: Vector, S: PhysicsParticle<V>, T: PhysicsParticle<V>>(
    lhs: &mut S,
    rhs: &mut T,
    equilibrium: Scalar,
    magnitude: Scalar,
)
    requires
        hooke_eq_pre::<V>(
            old(lhs).posm(),
            old(rhs).posm(),
            old(lhs).velm(),
            old(rhs).velm(),
            old(lhs).quantam(),
            old(rhs).quantam(),
            old(lhs).inertiam(),
            old(rhs).inertiam(),
            equilibrium.m(),
            magnitude.m(),
        ),
    ensures
        final(lhs).posm() == old(lhs).posm(),
        final(rhs).posm() == old(rhs).posm(),
        final(lhs).inertiam() == old(lhs).inertiam(),
        final(rhs).inertiam() == old(rhs).inertiam(),
        final(lhs).quantam() == old(lhs).quantam(),
        final(rhs).quantam() == old(rhs).quantam(),
        final(lhs).same_attrs(old(lhs)),
        final(rhs).same_attrs(old(rhs)),
        final(lhs).velm() == vadd(
            old(lhs).velm(),
            vdiv(
                hooke_eq_force::<V>(
                    old(lhs).posm(),
                    old(rhs).posm(),
                    old(lhs).quantam(),
                    old(rhs).quantam(),
                    equilibrium.m(),
                    magnitude.m(),
                ),
                old(lhs).inertiam(),
            ),
        ),
        final(rhs).velm() == vadd(
            old(rhs).velm(),
            vdiv(
                vneg(
                    hooke_eq_force::<V>(
                        old(lhs).posm(),
                        old(rhs).posm(),
                        old(lhs).quantam(),
                        old(rhs).quantam(),
                        equilibrium.m(),
                        magnitude.m(),
                    ),
                ),
                old(rhs).inertiam(),
            ),
        ),
{
    let rp = rhs.position();
    let lp = lhs.position();
    let delta = rp.sub(&lp);
    proof {
        V::lemma_norm_pre(delta.m());
    }
    let unit = delta.normalized();
    let dist = delta.displacement();
    let force = unit.mul(magnitude).mul(dist.sub(equilibrium)).mul(lhs.quanta()).mul(
        rhs.quanta(),
    );
    let li = lhs.inertia();
    proof {
        assert(li.m().n * 1 > 0 * li.m().d);
    }
    let acceleration = force.div(li);
    lhs.accelerate(&acceleration);
    let ri = rhs.inertia();
    proof {
        assert(ri.m().n * 1 > 0 * ri.m().d);
    }
    let acceleration = force.neg().div(ri);
    rhs.accelerate(&acceleration);
    proof {
        S::lemma_same_attrs_quanta(&*lhs, &*old(lhs));
        T::lemma_same_attrs_quanta(&*rhs, &*old(rhs));
    }
}

/// The magnetic force between two moving particles: the nested cross
/// product of the other's velocity with this particle's velocity
/// crossed with the separation, scaled by both quanta, divided by the
/// cube of the distance and scaled by the magnitude.
pub open spec fn lorentz_force<V: CrossVector>(
    lp: Seq<Rat>,
    rp: Seq<Rat>,
    lv: Seq<Rat>,
    rv: Seq<Rat>,
    lq: Rat,
    rq: Rat,
    mag: Rat,
) -> Seq<Rat> {
    let delta = vsub(rp, lp);
    let dist = V::disp_of(delta);
    let d3 = rat_mul(rat_mul(dist, dist), dist);
    let cr = V::cross_of(rv, V::cross_of(lv, delta));
    vmul(vdiv(vmul(vmul(cr, lq), rq), d3), mag)
}

/// The inputs on which `lorentz` is defined.
pub open spec fn lorentz_pre<V: CrossVector>(
    lp: Seq<Rat>,
    rp: Seq<Rat>,
    lv: Seq<Rat>,
    rv: Seq<Rat>,
    lq: Rat,
    rq: Rat,
    li: Rat,
    ri: Rat,
    mag: Rat,
) -> bool {
    let delta = vsub(rp, lp);
    let dist = V::disp_of(delta);
    let d2 = rat_mul(dist, dist);
    let d3 = rat_mul(d2, dist);
    let cr = V::cross_of(rv, V::cross_of(lv, delta));
    let l0 = vmul(cr, lq);
    let l1 = vmul(l0, rq);
    let l2 = vdiv(l1, d3);
    let f = vmul(l2, mag);
    &&& vfits(delta)
    &&& V::disp_pre(delta)
    &&& dist.n != 0
    &&& rat_fits(d2)
    &&& rat_fits(d3)
    &&& V::cross_pre(lv, delta)
    &&& V::cross_pre(rv, V::cross_of(lv, delta))
    &&& vfits(l0)
    &&& vfits(l1)
    &&& vfits(l2)
    &&& vfits(f)
    &&& rat_lt(rat_zero(), li)
    &&& rat_lt(rat_zero(), ri)
    &&& vfits(vneg(f))
    &&& vfits(vdiv(vneg(f), li))
    &&& vfits(vdiv(f, ri))
    &&& vfits(vadd(lv, vdiv(vneg(f), li)))
    &&& vfits(vadd(rv, vdiv(f, ri)))
}

/// The softened magnetic force, with the same radius rule as the
/// softened gravitation.
pub open spec fn lorentz_rs_force<V: CrossVector>(
    lp: Seq<Rat>,
    rp: Seq<Rat>,
    lv: Seq<Rat>,
    rv: Seq<Rat>,
    lq: Rat,
    rq: Rat,
    rs: Rat,
    mag: Rat,
) -> Seq<Rat> {
    let delta = vsub(rp, lp);
    let cr = V::cross_of(rv, V::cross_of(lv, delta));
    vdiv(vmul(vmul(vmul(cr, mag), lq), rq), grav_divisor::<V>(delta, rs))
}

/// The inputs on which `lorentz_radius_squared` is defined.
pub open spec fn lorentz_rs_pre<V: CrossVector>(
    lp: Seq<Rat>,
    rp: Seq<Rat>,
    lv: Seq<Rat>,
    rv: Seq<Rat>,
    lq: Rat,
    rq: Rat,
    li: Rat,
    ri: Rat,
    rs: Rat,
    mag: Rat,
) -> bool {
    let delta = vsub(rp, lp);
    let dvr = grav_divisor::<V>(delta, rs);
    let cr = V::cross_of(rv, V::cross_of(lv, delta));
    let l0 = vmul(cr, mag);
    let l1 = vmul(l0, lq);
    let l2 = vmul(l1, rq);
    let f = vdiv(l2, dvr);
    &&& vfits(delta)
    &&& divisor_pre::<V>(delta, rs)
    &&& V::cross_pre(lv, delta)
    &&& V::cross_pre(rv, V::cross_of(lv, delta))
    &&& vfits(l0)
    &&& vfits(l1)
    &&& vfits(l2)
    &&& vfits(f)
    &&& rat_lt(rat_zero(), li)
    &&& rat_lt(rat_zero(), ri)
    &&& vfits(vneg(f))
    &&& vfits(vdiv(vneg(f), li))
    &&& vfits(vdiv(f, ri))
    &&& vfits(vadd(lv, vdiv(vneg(f), li)))
    &&& vfits(vadd(rv, vdiv(f, ri)))
}

/// The acceleration `lorentz_field` applies: the particle's velocity
/// crossed with the field, scaled by its quanta, divided by its
/// inertia. A particle at rest feels no force.
pub open spec fn lorentz_field_acc<V: CrossVector>(
    v: Seq<Rat>,
    fld: Seq<Rat>,
    q: Rat,
    i: Rat,
) -> Seq<Rat> {
    vdiv(vmul(V::cross_of(v, fld), q), i)
}

/// The inputs on which `lorentz_field` is defined.
pub open spec fn lorentz_field_pre<V: CrossVector>(
    v: Seq<Rat>,
    fld: Seq<Rat>,
    q: Rat,
    i: Rat,
) -> bool {
    let cr = V::cross_of(v, fld);
    let a0 = vmul(cr, q);
    let acc = vdiv(a0, i);
    &&& V::cross_pre(v, fld)
    &&& vfits(a0)
    &&& rat_lt(rat_zero(), i)
    &&& vfits(acc)
    &&& vfits(vadd(v, acc))
}

/// The acceleration `lorentz_to` applies from a fixed moving center
/// with a finite radius.
pub open spec fn lorentz_to_acc<V: CrossVector>(
    sp: Seq<Rat>,
    cp: Seq<Rat>,
    sv: Seq<Rat>,
    cv: Seq<Rat>,
    sq: Rat,
    cq: Rat,
    si: Rat,
    rs: Rat,
    mag: Rat,
) -> Seq<Rat> {
    let delta = vsub(cp, sp);
    let cr = V::cross_of(cv, V::cross_of(sv, delta));
    let f = vdiv(vmul(vmul(vmul(cr, mag), sq), cq), grav_divisor::<V>(delta, rs));
    vdiv(vneg(f), si)
}

/// The inputs on which `lorentz_to` is defined.
pub open spec fn lorentz_to_pre<V: CrossVector>(
    sp: Seq<Rat>,
    cp: Seq<Rat>,
    sv: Seq<Rat>,
    cv: Seq<Rat>,
    sq: Rat,
    cq: Rat,
    si: Rat,
    rs: Rat,
    mag: Rat,
) -> bool {
    let delta = vsub(cp, sp);
    let dvr = grav_divisor::<V>(delta, rs);
    let cr = V::cross_of(cv, V::cross_of(sv, delta));
    let l0 = vmul(cr, mag);
    let l1 = vmul(l0, sq);
    let l2 = vmul(l1, cq);
    let f = vdiv(l2, dvr);
    &&& vfits(delta)
    &&& divisor_pre::<V>(delta, rs)
    &&& V::cross_pre(sv, delta)
    &&& V::cross_pre(cv, V::cross_of(sv, delta))
    &&& vfits(l0)
    &&& vfits(l1)
    &&& vfits(l2)
    &&& vfits(f)
    &&& rat_lt(rat_zero(), si)
    &&& vfits(vneg(f))
    &&& vfits(vdiv(vneg(f), si))
    &&& vfits(vadd(sv, vdiv(vneg(f), si)))
}

/// Apply magnetic (Lorentz-style) forces between two moving physics
/// particles. The two sides receive oppositely signed force by
/// convention, preserving momentum conservation.
pub fn lorentz<V: CrossVector, S: PhysicsParticle<V>, T: PhysicsParticle<V>>(
    lhs: &mut S,
    rhs: &mut T,
    magnitude: Scalar,
)
    requires
        lorentz_pre::<V>(
            old(lhs).posm(),
            old(rhs).posm(),
            old(lhs).velm(),
            old(rhs).velm(),
            old(lhs).quantam(),
            old(rhs).quantam(),
            old(lhs).inertiam(),
            old(rhs).inertiam(),
            magnitude.m(),
        ),
    ensures
        final(lhs).posm() == old(lhs).posm(),
        final(rhs).posm() == old(rhs).posm(),
        final(lhs).inertiam() == old(lhs).inertiam(),
        final(rhs).inertiam() == old(rhs).inertiam(),
        final(lhs).quantam() == old(lhs).quantam(),
        final(rhs).quantam() == old(rhs).quantam(),
        final(lhs).same_attrs(old(lhs)),
        final(rhs).same_attrs(old(rhs)),
        final(lhs).velm() == vadd(
            old(lhs).velm(),
            vdiv(
                vneg(
                    lorentz_force::<V>(
                        old(lhs).posm(),
                        old(rhs).posm(),
                        old(lhs).velm(),
                        old(rhs).velm(),
                        old(lhs).quantam(),
                        old(rhs).quantam(),
                        magnitude.m(),
                    ),
                ),
                old(lhs).inertiam(),
            ),
        ),
        final(rhs).velm() == vadd(
            old(rhs).velm(),
            vdiv(
                lorentz_force::<V>(
                    old(lhs).posm(),
                    old(rhs).posm(),
                    old(lhs).velm(),
                    old(rhs).velm(),
                    old(lhs).quantam(),
                    old(rhs).quantam(),
                    magnitude.m(),
                ),
                old(rhs).inertiam(),
            ),
        ),
{
    let rp = rhs.position();
    let lp = lhs.position();
    let delta = rp.sub(&lp);
    let distance = delta.displacement();
    proof {
        let dist = V::disp_of(delta.m());
        assert(rat_mul(rat_mul(dist, dist), dist).n == (dist.n * dist.n) * dist.n);
        assert((dist.n * dist.n) * dist.n != 0) by (nonlinear_arith)
            requires
                dist.n != 0,
        ;
    }
    let d2 = distance.mul(distance);
    let d3 = d2.mul(distance);
    let lv = lhs.velocity();
    let rv = rhs.velocity();
    let inner = V::cross(&lv, &delta);
    let outer = V::cross(&rv, &inner);
    let force = outer.mul(lhs.quanta()).mul(rhs.quanta()).div(d3).mul(magnitude);
    let li = lhs.inertia();
    proof {
        assert(li.m().n * 1 > 0 * li.m().d);
    }
    let acceleration = force.neg().div(li);
    lhs.accelerate(&acceleration);
    let ri = rhs.inertia();
    proof {
        assert(ri.m().n * 1 > 0 * ri.m().d);
    }
    let acceleration = force.div(ri);
    rhs.accelerate(&acceleration);
    proof {
        S::lemma_same_attrs_quanta(&*lhs, &*old(lhs));
        T::lemma_same_attrs_quanta(&*rhs, &*old(rhs));
    }
}

/// Apply softened magnetic forces between two moving physics
/// particles, with the same radius rule as `gravitate_radius_squared`.
pub fn lorentz_radius_squared<V: CrossVector, S: PhysicsParticle<V>, T: PhysicsParticle<V>>(
    lhs: &mut S,
    rhs: &mut T,
    radius_squared: Scalar,
    magnitude: Scalar,
)
    requires
        lorentz_rs_pre::<V>(
            old(lhs).posm(),
            old(rhs).posm(),
            old(lhs).velm(),
            old(rhs).velm(),
            old(lhs).quantam(),
            old(rhs).quantam(),
            old(lhs).inertiam(),
            old(rhs).inertiam(),
            radius_squared.m(),
            magnitude.m(),
        ),
    ensures
        final(lhs).posm() == old(lhs).posm(),
        final(rhs).posm() == old(rhs).posm(),
        final(lhs).inertiam() == old(lhs).inertiam(),
        final(rhs).inertiam() == old(rhs).inertiam(),
        final(lhs).quantam() == old(lhs).quantam(),
        final(rhs).quantam() == old(rhs).quantam(),
        final(lhs).same_attrs(old(lhs)),
        final(rhs).same_attrs(old(rhs)),
        final(lhs).velm() == vadd(
            old(lhs).velm(),
            vdiv(
                vneg(
                    lorentz_rs_force::<V>(
                        old(lhs).posm(),
                        old(rhs).posm(),
                        old(lhs).velm(),
                        old(rhs).velm(),
                        old(lhs).quantam(),
                        old(rhs).quantam(),
                        radius_squared.m(),
                        magnitude.m(),
                    ),
                ),
                old(lhs).inertiam(),
            ),
        ),
        final(rhs).velm() == vadd(
            old(rhs).velm(),
            vdiv(
                lorentz_rs_force::<V>(
                    old(lhs).posm(),
                    old(rhs).posm(),
                    old(lhs).velm(),
                    old(rhs).velm(),
                    old(lhs).quantam(),
                    old(rhs).quantam(),
                    radius_squared.m(),
                    magnitude.m(),
                ),
                old(rhs).inertiam(),
            ),
        ),
{
    let rp = rhs.position();
    let lp = lhs.position();
    let delta = rp.sub(&lp);
    let divisor = radius_divisor::<V>(&delta, radius_squared);
    let lv = lhs.velocity();
    let rv = rhs.velocity();
    let inner = V::cross(&lv, &delta);
    let outer = V::cross(&rv, &inner);
    let force = outer.mul(magnitude).mul(lhs.quanta()).mul(rhs.quanta()).div(divisor);
    let li = lhs.inertia();
    proof {
        assert(li.m().n * 1 > 0 * li.m().d);
    }
    let acceleration = force.neg().div(li);
    lhs.accelerate(&acceleration);
    let ri = rhs.inertia();
    proof {
        assert(ri.m().n * 1 > 0 * ri.m().d);
    }
    let acceleration = force.div(ri);
    rhs.accelerate(&acceleration);
    proof {
        S::lemma_same_attrs_quanta(&*lhs, &*old(lhs));
        T::lemma_same_attrs_quanta(&*rhs, &*old(rhs));
    }
}

/// Frontend to `lorentz_radius_squared` taking the plain radius.
pub fn lorentz_radius<V: CrossVector, S: PhysicsParticle<V>, T: PhysicsParticle<V>>(
    lhs: &mut S,
    rhs: &mut T,
    radius: Scalar,
    magnitude: Scalar,
)
    requires
        rat_fits(rat_mul(radius.m(), radius.m())),
        lorentz_rs_pre::<V>(
            old(lhs).posm(),
            old(rhs).posm(),
            old(lhs).velm(),
            old(rhs).velm(),
            old(lhs).quantam(),
            old(rhs).quantam(),
            old(lhs).inertiam(),
            old(rhs).inertiam(),
            rat_mul(radius.m(), radius.m()),
            magnitude.m(),
        ),
    ensures
        final(lhs).posm() == old(lhs).posm(),
        final(rhs).posm() == old(rhs).posm(),
        final(lhs).inertiam() == old(lhs).inertiam(),
        final(rhs).inertiam() == old(rhs).inertiam(),
        final(lhs).quantam() == old(lhs).quantam(),
        final(rhs).quantam() == old(rhs).quantam(),
        final(lhs).same_attrs(old(lhs)),
        final(rhs).same_attrs(old(rhs)),
        final(lhs).velm() == vadd(
            old(lhs).velm(),
            vdiv(
                vneg(
                    lorentz_rs_force::<V>(
                        old(lhs).posm(),
                        old(rhs).posm(),
                        old(lhs).velm(),
                        old(rhs).velm(),
                        old(lhs).quantam(),
                        old(rhs).quantam(),
                        rat_mul(radius.m(), radius.m()),
                        magnitude.m(),
                    ),
                ),
                old(lhs).inertiam(),
            ),
        ),
        final(rhs).velm() == vadd(
            old(rhs).velm(),
            vdiv(
                lorentz_rs_force::<V>(
                    old(lhs).posm(),
                    old(rhs).posm(),
                    old(lhs).velm(),
                    old(rhs).velm(),
                    old(lhs).quantam(),
                    old(rhs).quantam(),
                    rat_mul(radius.m(), radius.m()),
                    magnitude.m(),
                ),
                old(rhs).inertiam(),
            ),
        ),
{
    lorentz_radius_squared(lhs, rhs, radius.mul(radius), magnitude);
}

/// Newton's third law for the two-body laws: the velocity change each
/// participant receives, scaled by its own inertia, is the negation
/// of the other participant's change scaled by its inertia. Here `f`
/// is the force received by the first participant — `grav_force` for
/// `gravitate`, `hooke_force` for `hooke`, their softened and
/// equilibrium variants likewise, and the negated `lorentz_force` for
/// the `lorentz` laws — and `dvl`, `dvr` are the velocity changes the
/// laws apply.
pub proof fn lemma_newton_third_law(f: Seq<Rat>, li: Rat, ri: Rat, dvl: Seq<Rat>, dvr: Seq<Rat>)
    requires
        vwf(f),
        rat_wf(li),
        rat_wf(ri),
        li.n != 0,
        ri.n != 0,
        dvl == vdiv(f, li),
        dvr == vdiv(vneg(f), ri),
    ensures
        veq(vmul(dvl, li), vneg(vmul(dvr, ri))),
{
    assert forall|i: int| 0 <= i < vmul(dvl, li).len() implies rat_eq(
        #[trigger] vmul(dvl, li)[i],
        #[trigger] vneg(vmul(dvr, ri))[i],
    ) by {
        let x = f[i];
        let a = rat_mul(rat_div(x, li), li);
        let b = rat_mul(rat_div(rat_neg(x), ri), ri);
        lemma_rat_div_mul_cancel(x, li);
        lemma_rat_div_mul_cancel(rat_neg(x), ri);
        lemma_rat_mul_wf(rat_div(x, li), li);
        lemma_rat_mul_wf(rat_div(rat_neg(x), ri), ri);
        lemma_rat_neg_congr(b, rat_neg(x));
        assert(rat_neg(rat_neg(x)) == x);
        lemma_rat_eq_sym(rat_neg(b), x);
        lemma_rat_eq_trans(a, x, rat_neg(b));
    }
}

/// Softening limit: whenever the squared radius is strictly below the
/// squared separation — in particular for every radius as it shrinks
/// toward zero at a fixed nonzero separation — the softened
/// attraction force coincides exactly with the point-particle force.
pub proof fn lemma_softening_limit<V: Vector>(
    lp: Seq<Rat>,
    rp: Seq<Rat>,
    lq: Rat,
    rq: Rat,
    rs: Rat,
    mag: Rat,
)
    requires
        vwf(lp),
        vwf(rp),
        lp.len() == rp.len(),
        rat_wf(lq),
        rat_wf(rq),
        rat_wf(mag),
        rat_wf(rs),
        rat_wf(V::disp_of(vsub(rp, lp))),
        V::disp_of(vsub(rp, lp)).n != 0,
        rat_lt(rs, vdot(vsub(rp, lp), vsub(rp, lp))),
    ensures
        veq(
            grav_rs_force::<V>(lp, rp, lq, rq, rs, mag),
            grav_force::<V>(lp, rp, lq, rq, mag),
        ),
{
    let delta = vsub(rp, lp);
    let dist = V::disp_of(delta);
    let d3 = rat_mul(rat_mul(dist, dist), dist);
    lemma_vsub_wf(rp, lp);
    lemma_rat_mul_wf(dist, dist);
    lemma_rat_mul_wf(rat_mul(dist, dist), dist);
    assert((dist.n * dist.n) * dist.n != 0) by (nonlinear_arith)
        requires
            dist.n != 0,
    ;
    assert(grav_divisor::<V>(delta, rs) == d3);
    assert forall|i: int| 0 <= i < grav_rs_force::<V>(lp, rp, lq, rq, rs, mag).len() implies rat_eq(
        #[trigger] grav_rs_force::<V>(lp, rp, lq, rq, rs, mag)[i],
        #[trigger] grav_force::<V>(lp, rp, lq, rq, mag)[i],
    ) by {
        let a = delta[i];
        lemma_rat_mul_wf(a, mag);
        lemma_rat_div_order(rat_mul(a, mag), lq, rq, d3);
    }
}

/// Softening continuity at the ball's surface. With the squared
/// separation exactly equal to the squared radius, the softened
/// branch divides the force by the squared radius where the point
/// branch divides by the cubed distance; the two agree exactly when
/// the separation distance is one, and only then — at any other
/// boundary the softened formula jumps.
pub proof fn lemma_softening_boundary(f: Seq<Rat>, dist: Rat, rs: Rat)
    requires
        vwf(f),
        rat_wf(dist),
        rat_wf(rs),
        dist.n != 0,
        rs.n != 0,
        rat_eq(rat_mul(dist, dist), rs),
        rat_eq(dist, rat_one()),
    ensures
        veq(vdiv(f, rat_mul(rat_mul(dist, dist), dist)), vdiv(f, rs)),
{
    let d3 = rat_mul(rat_mul(dist, dist), dist);
    lemma_rat_mul_wf(dist, dist);
    lemma_rat_mul_wf(rat_mul(dist, dist), dist);
    assert((dist.n * dist.n) * dist.n != 0) by (nonlinear_arith)
        requires
            dist.n != 0,
    ;
    assert(rat_eq(d3, rs)) by (nonlinear_arith)
        requires
            d3 == (Rat { n: (dist.n * dist.n) * dist.n, d: (dist.d * dist.d) * dist.d }),
            (dist.n * dist.n) * rs.d == rs.n * (dist.d * dist.d),
            dist.n * 1 == 1 * dist.d,
    ;
    assert forall|i: int| 0 <= i < vdiv(f, d3).len() implies rat_eq(
        #[trigger] vdiv(f, d3)[i],
        #[trigger] vdiv(f, rs)[i],
    ) by {
        lemma_rat_div_congr_den(f[i], d3, rs);
    }
}

/// The equilibrium spring force is exactly zero whenever the
/// separation distance equals the equilibrium distance, whatever the
/// signs of the magnitude and the quanta: the scaling factor
/// `distance - equilibrium` vanishes.
pub proof fn lemma_hooke_equilibrium_zero<V: Vector>(
    lp: Seq<Rat>,
    rp: Seq<Rat>,
    lq: Rat,
    rq: Rat,
    eq: Rat,
    mag: Rat,
)
    requires
        vwf(lp),
        vwf(rp),
        lp.len() == rp.len(),
        rat_wf(lq),
        rat_wf(rq),
        rat_wf(eq),
        rat_wf(mag),
        rat_wf(V::disp_of(vsub(rp, lp))),
        rat_eq(V::disp_of(vsub(rp, lp)), eq),
    ensures
        veq(hooke_eq_force::<V>(lp, rp, lq, rq, eq, mag), vzero(rp.len())),
{
    let delta = vsub(rp, lp);
    let dist = V::disp_of(delta);
    let sub = rat_sub(dist, eq);
    let f = hooke_eq_force::<V>(lp, rp, lq, rq, eq, mag);
    assert(sub.n == 0);
    assert forall|i: int| 0 <= i < rp.len() implies rat_eq(#[trigger] f[i], vzero(rp.len())[i]) by {
        let a = delta[i];
        if dist.n >= 0 {
            assert(rat_div(a, dist) == (Rat { n: a.n * dist.d, d: a.d * dist.n }));
            assert(f[i].n == ((((a.n * dist.d) * mag.n) * sub.n) * lq.n) * rq.n);
            assert(f[i].n == 0) by (nonlinear_arith)
                requires
                    f[i].n == ((((a.n * dist.d) * mag.n) * sub.n) * lq.n) * rq.n,
                    sub.n == 0,
            ;
        } else {
            assert(rat_div(a, dist) == (Rat { n: -(a.n * dist.d), d: -(a.d * dist.n) }));
            assert(f[i].n == ((((-(a.n * dist.d)) * mag.n) * sub.n) * lq.n) * rq.n);
            assert(f[i].n == 0) by (nonlinear_arith)
                requires
                    f[i].n == ((((-(a.n * dist.d)) * mag.n) * sub.n) * lq.n) * rq.n,
                    sub.n == 0,
            ;
        }
        assert(f[i].n * 1 == 0 * f[i].d) by (nonlinear_arith)
            requires
                f[i].n == 0,
        ;
    }
}

/// The equilibrium spring force is zero exactly at the equilibrium
/// distance and reverses direction there: beyond the equilibrium each
/// component of the force carries the sign of the corresponding
/// separation component (attraction toward the other body), inside it
/// the opposite sign (repulsion). Stated for positive magnitude,
/// quanta and separation distance.
pub proof fn lemma_hooke_equilibrium_flip<V: Vector>(
    lp: Seq<Rat>,
    rp: Seq<Rat>,
    lq: Rat,
    rq: Rat,
    eq: Rat,
    mag: Rat,
)
    requires
        vwf(lp),
        vwf(rp),
        lp.len() == rp.len(),
        rat_wf(lq),
        rat_wf(rq),
        rat_wf(eq),
        rat_wf(mag),
        rat_wf(V::disp_of(vsub(rp, lp))),
        rat_lt(rat_zero(), V::disp_of(vsub(rp, lp))),
        rat_lt(rat_zero(), mag),
        rat_lt(rat_zero(), lq),
        rat_lt(rat_zero(), rq),
    ensures
        rat_eq(V::disp_of(vsub(rp, lp)), eq) ==> veq(
            hooke_eq_force::<V>(lp, rp, lq, rq, eq, mag),
            vzero(rp.len()),
        ),
        forall|i: int|
            0 <= i < rp.len() && rat_lt(eq, V::disp_of(vsub(rp, lp))) && rat_lt(
                rat_zero(),
                vsub(rp, lp)[i],
            ) ==> rat_lt(rat_zero(), #[trigger] hooke_eq_force::<V>(lp, rp, lq, rq, eq, mag)[i]),
        forall|i: int|
            0 <= i < rp.len() && rat_lt(eq, V::disp_of(vsub(rp, lp))) && rat_lt(
                vsub(rp, lp)[i],
                rat_zero(),
            ) ==> rat_lt(#[trigger] hooke_eq_force::<V>(lp, rp, lq, rq, eq, mag)[i], rat_zero()),
        forall|i: int|
            0 <= i < rp.len() && rat_lt(V::disp_of(vsub(rp, lp)), eq) && rat_lt(
                rat_zero(),
                vsub(rp, lp)[i],
            ) ==> rat_lt(#[trigger] hooke_eq_force::<V>(lp, rp, lq, rq, eq, mag)[i], rat_zero()),
        forall|i: int|
            0 <= i < rp.len() && rat_lt(V::disp_of(vsub(rp, lp)), eq) && rat_lt(
                vsub(rp, lp)[i],
                rat_zero(),
            ) ==> rat_lt(rat_zero(), #[trigger] hooke_eq_force::<V>(lp, rp, lq, rq, eq, mag)[i]),
{
    let delta = vsub(rp, lp);
    let dist = V::disp_of(delta);
    let sub = rat_sub(dist, eq);
    let f = hooke_eq_force::<V>(lp, rp, lq, rq, eq, mag);
    assert(dist.n > 0);
    assert forall|i: int| 0 <= i < rp.len() implies (#[trigger] f[i]).n == ((((delta[i].n * dist.d)
        * mag.n) * sub.n) * lq.n) * rq.n by {
        assert(rat_div(delta[i], dist) == (Rat { n: delta[i].n * dist.d, d: delta[i].d * dist.n }));
    }
    if rat_eq(dist, eq) {
        lemma_hooke_equilibrium_zero::<V>(lp, rp, lq, rq, eq, mag);
    }
    assert forall|i: int|
        0 <= i < rp.len() && rat_lt(eq, dist) && rat_lt(rat_zero(), delta[i]) implies rat_lt(
        rat_zero(),
        #[trigger] f[i],
    ) by {
        assert(f[i].n > 0) by (nonlinear_arith)
            requires
                f[i].n == ((((delta[i].n * dist.d) * mag.n) * sub.n) * lq.n) * rq.n,
                delta[i].n > 0,
                dist.d > 0,
                mag.n > 0,
                sub.n > 0,
                lq.n > 0,
                rq.n > 0,
        ;
    }
    assert forall|i: int|
        0 <= i < rp.len() && rat_lt(eq, dist) && rat_lt(delta[i], rat_zero()) implies rat_lt(
        #[trigger] f[i],
        rat_zero(),
    ) by {
        assert(f[i].n < 0) by (nonlinear_arith)
            requires
                f[i].n == ((((delta[i].n * dist.d) * mag.n) * sub.n) * lq.n) * rq.n,
                delta[i].n < 0,
                dist.d > 0,
                mag.n > 0,
                sub.n > 0,
                lq.n > 0,
                rq.n > 0,
        ;
    }
    assert forall|i: int|
        0 <= i < rp.len() && rat_lt(dist, eq) && rat_lt(rat_zero(), delta[i]) implies rat_lt(
        #[trigger] f[i],
        rat_zero(),
    ) by {
        assert(f[i].n < 0) by (nonlinear_arith)
            requires
                f[i].n == ((((delta[i].n * dist.d) * mag.n) * sub.n) * lq.n) * rq.n,
                delta[i].n > 0,
                dist.d > 0,
                mag.n > 0,
                sub.n < 0,
                lq.n > 0,
                rq.n > 0,
        ;
    }
    assert forall|i: int|
        0 <= i < rp.len() && rat_lt(dist, eq) && rat_lt(delta[i], rat_zero()) implies rat_lt(
        rat_zero(),
        #[trigger] f[i],
    ) by {
        assert(f[i].n > 0) by (nonlinear_arith)
            requires
                f[i].n == ((((delta[i].n * dist.d) * mag.n) * sub.n) * lq.n) * rq.n,
                delta[i].n < 0,
                dist.d > 0,
                mag.n > 0,
                sub.n < 0,
                lq.n > 0,
                rq.n > 0,
        ;
    }
}

} // verus!
