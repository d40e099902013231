use vstd::prelude::*;
use crate::rational::{Rat, Scalar, rat_wf, rat_fits, rat_mul, rat_eq};
use crate::vector::{Vector, vwf, vfits, vadd, vmul};
use crate::particle::{Quanta, Inertia, Position, Velocity, UniformBall, Particle, PhysicsParticle};

verus! {

/// A minimal concrete particle: an independent value snapshot of the
/// abstract state of any physics particle (quanta, position,
/// velocity, inertia), with no further behavior of interest.
#[derive(Clone, Copy)]
pub struct BasicParticle<V: Vector> {
    pub quanta: Scalar,
    pub position: V,
    pub velocity: V,
    pub inertia: Scalar,
}

impl<V: Vector> BasicParticle<V> {
    pub fn new(quanta: Scalar, position: V, velocity: V, inertia: Scalar) -> (r: Self)
        ensures
            r.quanta == quanta,
            r.position == position,
            r.velocity == velocity,
            r.inertia == inertia,
    {
        BasicParticle { quanta, position, velocity, inertia }
    }
}

impl<V: Vector> Quanta for BasicParticle<V> {
    open spec fn quantam(&self) -> Rat {
        self.quanta.m()
    }

    fn quanta(&self) -> (r: Scalar) {
        self.quanta.facts();
        self.quanta
    }
}

impl<V: Vector> Inertia for BasicParticle<V> {
    open spec fn inertiam(&self) -> Rat {
        self.inertia.m()
    }

    fn inertia(&self) -> (r: Scalar) {
        self.inertia.facts();
        self.inertia
    }
}

impl<V: Vector> Position<V> for BasicParticle<V> {
    open spec fn posm(&self) -> Seq<Rat> {
        self.position.m()
    }

    fn position(&self) -> (r: V) {
        self.position.facts();
        self.position
    }
}

impl<V: Vector> Velocity<V> for BasicParticle<V> {
    open spec fn velm(&self) -> Seq<Rat> {
        self.velocity.m()
    }

    fn velocity(&self) -> (r: V) {
        self.velocity.facts();
        self.velocity
    }
}

impl<V: Vector> Particle<V> for BasicParticle<V> {
    open spec fn same_attrs(&self, o: &Self) -> bool {
        self.quanta == o.quanta && self.inertia == o.inertia
    }

    fn accelerate(&mut self, vec: &V) {
        let nv = self.velocity.add(vec);
        self.velocity = nv;
    }

    fn advance(&mut self, time: Scalar) {
        let dp = self.velocity.mul(time);
        let np = self.position.add(&dp);
        self.position = np;
    }
}

impl<V: Vector> PhysicsParticle<V> for BasicParticle<V> {
    proof fn lemma_same_attrs_quanta(a: &Self, b: &Self) {
    }
}

/// A concrete particle with a finite radius: a uniform ball that can
/// serve as the center of the softened one-sided laws.
#[derive(Clone, Copy)]
pub struct BallParticle<V: Vector> {
    pub quanta: Scalar,
    pub position: V,
    pub velocity: V,
    pub inertia: Scalar,
    pub radius: Scalar,
}

impl<V: Vector> BallParticle<V> {
    pub fn new(quanta: Scalar, position: V, velocity: V, inertia: Scalar, radius: Scalar) -> (r:
        Self)
        ensures
            r.quanta == quanta,
            r.position == position,
            r.velocity == velocity,
            r.inertia == inertia,
            r.radius == radius,
    {
        BallParticle { quanta, position, velocity, inertia, radius }
    }
}

impl<V: Vector> Quanta for BallParticle<V> {
    open spec fn quantam(&self) -> Rat {
        self.quanta.m()
    }

    fn quanta(&self) -> (r: Scalar) {
        self.quanta.facts();
        self.quanta
    }
}

impl<V: Vector> Inertia for BallParticle<V> {
    open spec fn inertiam(&self) -> Rat {
        self.inertia.m()
    }

    fn inertia(&self) -> (r: Scalar) {
        self.inertia.facts();
        self.inertia
    }
}

impl<V: Vector> Position<V> for BallParticle<V> {
    open spec fn posm(&self) -> Seq<Rat> {
        self.position.m()
    }

    fn position(&self) -> (r: V) {
        self.position.facts();
        self.position
    }
}

impl<V: Vector> Velocity<V> for BallParticle<V> {
    open spec fn velm(&self) -> Seq<Rat> {
        self.velocity.m()
    }

    fn velocity(&self) -> (r: V) {
        self.velocity.facts();
        self.velocity
    }
}

impl<V: Vector> UniformBall for BallParticle<V> {
    open spec fn radiusm(&self) -> Rat {
        self.radius.m()
    }

    open spec fn radius_sqm(&self) -> Rat {
        rat_mul(self.radius.m(), self.radius.m())
    }

    open spec fn radius_sq_pre(&self) -> bool {
        rat_fits(rat_mul(self.radius.m(), self.radius.m()))
    }

    proof fn lemma_radius_sq(&self) {
    }

    fn radius(&self) -> (r: Scalar) {
        self.radius.facts();
        self.radius
    }

    fn radius_squared(&self) -> (r: Scalar) {
        self.radius.mul(self.radius)
    }
}

impl<V: Vector> Particle<V> for BallParticle<V> {
    open spec fn same_attrs(&self, o: &Self) -> bool {
        self.quanta == o.quanta && self.inertia == o.inertia && self.radius == o.radius
    }

    fn accelerate(&mut self, vec: &V) {
        let nv = self.velocity.add(vec);
        self.velocity = nv;
    }

    fn advance(&mut self, time: Scalar) {
        let dp = self.velocity.mul(time);
        let np = self.position.add(&dp);
        self.position = np;
    }
}

impl<V: Vector> PhysicsParticle<V> for BallParticle<V> {
    proof fn lemma_same_attrs_quanta(a: &Self, b: &Self) {
    }
}

} // verus!
