use vstd::prelude::*;
use crate::rational::{Rat, Scalar, rat_fits, rat_zero, rat_add, rat_sub, rat_neg, rat_mul, rat_div, rat_eq, rat_abs};
use crate::vector::{Vector, vzero, veq, vadd, vsub, vneg, vmul, vdiv, vdot, vfits, lemma_vdot_one};

verus! {

/// A one-dimensional Cartesian vector. Its displacement is the
/// absolute value of the component — the one-dimensional Euclidean
/// norm — so no square root is ever needed.
#[derive(Clone, Copy)]
pub struct Cartesian1 {
    pub x: Scalar,
}

impl Cartesian1 {
    pub fn new(x: Scalar) -> (r: Cartesian1)
        ensures
            r.m() == seq![x.m()],
    {
        Cartesian1 { x }
    }
}

impl Vector for Cartesian1 {
    open spec fn dim() -> nat {
        1
    }

    open spec fn m(&self) -> Seq<Rat> {
        seq![self.x.m()]
    }

    open spec fn disp_of(v: Seq<Rat>) -> Rat {
        rat_abs(v[0])
    }

    open spec fn disp_pre(v: Seq<Rat>) -> bool {
        v.len() == 1 && rat_fits(v[0]) && rat_fits(rat_abs(v[0]))
    }

    open spec fn disp_sq_pre(v: Seq<Rat>) -> bool {
        v.len() == 1 && rat_fits(rat_mul(v[0], v[0]))
    }

    open spec fn dot_pre(a: Seq<Rat>, b: Seq<Rat>) -> bool {
        a.len() == 1 && b.len() == 1 && rat_fits(rat_mul(a[0], b[0]))
    }

    open spec fn norm_pre(v: Seq<Rat>) -> bool {
        &&& v.len() == 1
        &&& rat_fits(v[0])
        &&& rat_fits(rat_abs(v[0]))
        &&& v[0].n != 0
        &&& vfits(vdiv(v, rat_abs(v[0])))
    }

    open spec fn ball_of(r: Rat) -> Rat {
        rat_mul(Rat { n: 2, d: 1 }, r)
    }

    open spec fn ball_pre(r: Rat) -> bool {
        rat_fits(rat_mul(Rat { n: 2, d: 1 }, r))
    }

    open spec fn box_of(v: Seq<Rat>) -> Rat {
        v[0]
    }

    open spec fn box_pre(v: Seq<Rat>) -> bool {
        v.len() == 1 && rat_fits(v[0])
    }

    proof fn lemma_disp(v: Seq<Rat>) {
        lemma_vdot_one(v, v);
        let x = v[0];
        let a = rat_abs(x);
        assert(a.n == x.n || a.n == -x.n);
        assert(a.n * a.n == x.n * x.n) by (nonlinear_arith)
            requires
                a.n == x.n || a.n == -x.n,
        ;
        assert(rat_eq(rat_mul(a, a), rat_mul(x, x))) by (nonlinear_arith)
            requires
                a.n * a.n == x.n * x.n,
                a.d == x.d,
        ;
        assert(0 * a.d <= a.n * 1) by (nonlinear_arith)
            requires
                0 <= a.n,
        ;
    }

    proof fn lemma_norm_pre(v: Seq<Rat>) {
    }

    fn facts(&self) {
        self.x.facts();
    }

    fn zero() -> (r: Self) {
        let r = Cartesian1 { x: Scalar::zero() };
        proof {
            assert(r.m() =~= vzero(Self::dim()));
        }
        r
    }

    fn is_zero(&self) -> (r: bool) {
        self.x.facts();
        let r = self.x.is_zero();
        proof {
            assert(vzero(1)[0] == rat_zero());
            assert(self.m()[0] == self.x.m());
            if r {
                assert(self.x.m().n * 1 == 0 * self.x.m().d);
                assert(rat_eq(self.m()[0], vzero(1)[0]));
            }
            if veq(self.m(), vzero(1)) {
                assert(rat_eq(self.m()[0], vzero(1)[0]));
                assert(self.x.m().n * 1 == 0 * self.x.m().d);
                assert(self.x.m().n == 0);
            }
        }
        r
    }

    fn add(&self, o: &Self) -> (r: Self) {
        assert(vadd(self.m(), o.m())[0] == rat_add(self.x.m(), o.x.m()));
        let r = Cartesian1 { x: self.x.add(o.x) };
        proof {
            assert(r.m() =~= vadd(self.m(), o.m()));
        }
        r
    }

    fn sub(&self, o: &Self) -> (r: Self) {
        assert(vsub(self.m(), o.m())[0] == rat_sub(self.x.m(), o.x.m()));
        let r = Cartesian1 { x: self.x.sub(o.x) };
        proof {
            assert(r.m() =~= vsub(self.m(), o.m()));
        }
        r
    }

    fn neg(&self) -> (r: Self) {
        assert(vneg(self.m())[0] == rat_neg(self.x.m()));
        let r = Cartesian1 { x: self.x.neg() };
        proof {
            assert(r.m() =~= vneg(self.m()));
        }
        r
    }

    fn mul(&self, s: Scalar) -> (r: Self) {
        assert(vmul(self.m(), s.m())[0] == rat_mul(self.x.m(), s.m()));
        let r = Cartesian1 { x: self.x.mul(s) };
        proof {
            assert(r.m() =~= vmul(self.m(), s.m()));
        }
        r
    }

    fn div(&self, s: Scalar) -> (r: Self) {
        assert(vdiv(self.m(), s.m())[0] == rat_div(self.x.m(), s.m()));
        let r = Cartesian1 { x: self.x.div(s) };
        proof {
            assert(r.m() =~= vdiv(self.m(), s.m()));
        }
        r
    }

    fn dot(lhs: &Self, rhs: &Self) -> (r: Scalar) {
        let r = lhs.x.mul(rhs.x);
        proof {
            lemma_vdot_one(lhs.m(), rhs.m());
        }
        r
    }

    fn displacement(&self) -> (r: Scalar) {
        self.x.facts();
        if self.x.num() >= 0 {
            self.x
        } else {
            self.x.neg()
        }
    }

    fn displacement_squared(&self) -> (r: Scalar) {
        self.x.facts();
        let r = self.x.mul(self.x);
        proof {
            lemma_vdot_one(self.m(), self.m());
        }
        r
    }

    fn normalized(&self) -> (r: Self) {
        assert(vdiv(self.m(), Self::disp_of(self.m()))[0] == rat_div(self.x.m(), rat_abs(self.x.m())));
        let d = self.displacement();
        let r = Cartesian1 { x: self.x.div(d) };
        proof {
            assert(r.m() =~= vdiv(self.m(), Self::disp_of(self.m())));
        }
        r
    }

    fn space_ball(d: Scalar) -> (r: Scalar) {
        let two = Scalar::from_int(2);
        two.mul(d)
    }

    fn space_box(&self) -> (r: Scalar) {
        self.x
    }
}

} // verus!
