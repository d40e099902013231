use vstd::prelude::*;
use crate::rational::{
    Rat, Scalar, rat_fits, rat_zero, rat_add, rat_sub, rat_neg, rat_mul, rat_div, rat_eq, rat_wf,
    lemma_prod_bound,
};
use crate::vector::{
    Vector, CrossVector, vzero, veq, vadd, vsub, vneg, vmul, vdiv, vdot, vwf, vfits,
    lemma_vdot_three, lemma_vdot_wf,
};

verus! {

/// A three-dimensional Cartesian vector with a true cross product.
/// Its displacement is the Euclidean norm, which is representable
/// exactly only when the squared norm is a perfect rational square;
/// the `disp_pre` predicate names exactly those vectors.
#[derive(Clone, Copy)]
pub struct Cartesian3 {
    pub x: Scalar,
    pub y: Scalar,
    pub z: Scalar,
}

impl Cartesian3 {
    pub fn new(x: Scalar, y: Scalar, z: Scalar) -> (r: Cartesian3)
        ensures
            r.m() == seq![x.m(), y.m(), z.m()],
    {
        Cartesian3 { x, y, z }
    }
}

/// The squared norm of `v` written as the integer `n * d` of its dot
/// product has an exact nonnegative square root.
pub open spec fn dot_square_root(v: Seq<Rat>) -> int {
    choose|s: int| 0 <= s && #[trigger] (s * s) == vdot(v, v).n * vdot(v, v).d
}

impl Vector for Cartesian3 {
    open spec fn dim() -> nat {
        3
    }

    open spec fn m(&self) -> Seq<Rat> {
        seq![self.x.m(), self.y.m(), self.z.m()]
    }

    open spec fn disp_of(v: Seq<Rat>) -> Rat {
        Rat { n: dot_square_root(v), d: vdot(v, v).d }
    }

    open spec fn disp_pre(v: Seq<Rat>) -> bool {
        &&& Self::dot_pre(v, v)
        &&& exists|s: int|
            0 <= s <= i64::MAX as int && #[trigger] (s * s) == vdot(v, v).n * vdot(v, v).d
    }

    open spec fn disp_sq_pre(v: Seq<Rat>) -> bool {
        Self::dot_pre(v, v)
    }

    open spec fn dot_pre(a: Seq<Rat>, b: Seq<Rat>) -> bool {
        &&& a.len() == 3
        &&& b.len() == 3
        &&& rat_fits(rat_mul(a[0], b[0]))
        &&& rat_fits(rat_mul(a[1], b[1]))
        &&& rat_fits(rat_mul(a[2], b[2]))
        &&& rat_fits(rat_add(rat_mul(a[0], b[0]), rat_mul(a[1], b[1])))
        &&& rat_fits(
            rat_add(rat_add(rat_mul(a[0], b[0]), rat_mul(a[1], b[1])), rat_mul(a[2], b[2])),
        )
    }

    open spec fn norm_pre(v: Seq<Rat>) -> bool {
        &&& Self::disp_pre(v)
        &&& Self::disp_of(v).n != 0
        &&& vfits(vdiv(v, Self::disp_of(v)))
    }

    open spec fn ball_of(r: Rat) -> Rat {
        let t = rat_mul(Rat { n: 2, d: 1 }, r);
        rat_mul(rat_mul(t, t), t)
    }

    open spec fn ball_pre(r: Rat) -> bool {
        let t = rat_mul(Rat { n: 2, d: 1 }, r);
        &&& rat_fits(t)
        &&& rat_fits(rat_mul(t, t))
        &&& rat_fits(rat_mul(rat_mul(t, t), t))
    }

    open spec fn box_of(v: Seq<Rat>) -> Rat {
        rat_mul(rat_mul(v[0], v[1]), v[2])
    }

    open spec fn box_pre(v: Seq<Rat>) -> bool {
        &&& v.len() == 3
        &&& rat_fits(rat_mul(v[0], v[1]))
        &&& rat_fits(rat_mul(rat_mul(v[0], v[1]), v[2]))
    }

    proof fn lemma_disp(v: Seq<Rat>) {
        lemma_vdot_three(v, v);
        lemma_vdot_wf(v, v);
        let nn = vdot(v, v).n;
        let dd = vdot(v, v).d;
        let t = choose|s: int| 0 <= s <= i64::MAX as int && #[trigger] (s * s) == nn * dd;
        assert(0 <= t && t * t == nn * dd);
        let c = dot_square_root(v);
        assert(0 <= c && c * c == nn * dd);
        assert(c == t) by (nonlinear_arith)
            requires
                0 <= c,
                0 <= t,
                c * c == t * t,
        ;
        assert((c * c) * dd == nn * (dd * dd)) by (nonlinear_arith)
            requires
                c * c == nn * dd,
        ;
        assert(0 * dd <= c * 1) by (nonlinear_arith)
            requires
                0 <= c,
        ;
    }

    proof fn lemma_norm_pre(v: Seq<Rat>) {
    }

    fn facts(&self) {
        self.x.facts();
        self.y.facts();
        self.z.facts();
    }

    fn zero() -> (r: Self) {
        let r = Cartesian3 { x: Scalar::zero(), y: Scalar::zero(), z: Scalar::zero() };
        proof {
            assert(r.m() =~= vzero(Self::dim()));
        }
        r
    }

    fn is_zero(&self) -> (r: bool) {
        self.x.facts();
        self.y.facts();
        self.z.facts();
        let r = self.x.is_zero() && self.y.is_zero() && self.z.is_zero();
        proof {
            assert(vzero(3)[0] == rat_zero() && vzero(3)[1] == rat_zero() && vzero(3)[2]
                == rat_zero());
            if r {
                assert(self.x.m().n * 1 == 0 * self.x.m().d);
                assert(self.y.m().n * 1 == 0 * self.y.m().d);
                assert(self.z.m().n * 1 == 0 * self.z.m().d);
                assert(veq(self.m(), vzero(3)));
            }
            if veq(self.m(), vzero(3)) {
                assert(rat_eq(self.m()[0], vzero(3)[0]));
                assert(rat_eq(self.m()[1], vzero(3)[1]));
                assert(rat_eq(self.m()[2], vzero(3)[2]));
                assert(self.x.m().n * 1 == 0 * self.x.m().d);
                assert(self.y.m().n * 1 == 0 * self.y.m().d);
                assert(self.z.m().n * 1 == 0 * self.z.m().d);
            }
        }
        r
    }

    fn add(&self, o: &Self) -> (r: Self) {
        assert(vadd(self.m(), o.m())[0] == rat_add(self.x.m(), o.x.m()));
        assert(vadd(self.m(), o.m())[1] == rat_add(self.y.m(), o.y.m()));
        assert(vadd(self.m(), o.m())[2] == rat_add(self.z.m(), o.z.m()));
        let r = Cartesian3 { x: self.x.add(o.x), y: self.y.add(o.y), z: self.z.add(o.z) };
        proof {
            assert(r.m() =~= vadd(self.m(), o.m()));
        }
        r
    }

    fn sub(&self, o: &Self) -> (r: Self) {
        assert(vsub(self.m(), o.m())[0] == rat_sub(self.x.m(), o.x.m()));
        assert(vsub(self.m(), o.m())[1] == rat_sub(self.y.m(), o.y.m()));
        assert(vsub(self.m(), o.m())[2] == rat_sub(self.z.m(), o.z.m()));
        let r = Cartesian3 { x: self.x.sub(o.x), y: self.y.sub(o.y), z: self.z.sub(o.z) };
        proof {
            assert(r.m() =~= vsub(self.m(), o.m()));
        }
        r
    }

    fn neg(&self) -> (r: Self) {
        assert(vneg(self.m())[0] == rat_neg(self.x.m()));
        assert(vneg(self.m())[1] == rat_neg(self.y.m()));
        assert(vneg(self.m())[2] == rat_neg(self.z.m()));
        let r = Cartesian3 { x: self.x.neg(), y: self.y.neg(), z: self.z.neg() };
        proof {
            assert(r.m() =~= vneg(self.m()));
        }
        r
    }

    fn mul(&self, s: Scalar) -> (r: Self) {
        assert(vmul(self.m(), s.m())[0] == rat_mul(self.x.m(), s.m()));
        assert(vmul(self.m(), s.m())[1] == rat_mul(self.y.m(), s.m()));
        assert(vmul(self.m(), s.m())[2] == rat_mul(self.z.m(), s.m()));
        let r = Cartesian3 { x: self.x.mul(s), y: self.y.mul(s), z: self.z.mul(s) };
        proof {
            assert(r.m() =~= vmul(self.m(), s.m()));
        }
        r
    }

    fn div(&self, s: Scalar) -> (r: Self) {
        assert(vdiv(self.m(), s.m())[0] == rat_div(self.x.m(), s.m()));
        assert(vdiv(self.m(), s.m())[1] == rat_div(self.y.m(), s.m()));
        assert(vdiv(self.m(), s.m())[2] == rat_div(self.z.m(), s.m()));
        let r = Cartesian3 { x: self.x.div(s), y: self.y.div(s), z: self.z.div(s) };
        proof {
            assert(r.m() =~= vdiv(self.m(), s.m()));
        }
        r
    }

    fn dot(lhs: &Self, rhs: &Self) -> (r: Scalar) {
        let r = lhs.x.mul(rhs.x).add(lhs.y.mul(rhs.y)).add(lhs.z.mul(rhs.z));
        proof {
            lemma_vdot_three(lhs.m(), rhs.m());
        }
        r
    }

    fn displacement(&self) -> (r: Scalar) {
        self.x.facts();
        self.y.facts();
        self.z.facts();
        let d = self.x.mul(self.x).add(self.y.mul(self.y)).add(self.z.mul(self.z));
        proof {
            lemma_vdot_three(self.m(), self.m());
        }
        let n = d.num();
        let dd = d.den();
        let ghost t = choose|s: int|
            0 <= s <= i64::MAX as int && #[trigger] (s * s) == vdot(self.m(), self.m()).n * vdot(
                self.m(),
                self.m(),
            ).d;
        proof {
            lemma_prod_bound(n as int, dd as int);
        }
        let q: i128 = n as i128 * dd as i128;
        let mut s: i64 = 0;
        let mut sq: i128 = 0;
        while sq < q
            invariant
                0 <= s <= t,
                t <= i64::MAX as int,
                q == t * t,
                sq == (s as int) * (s as int),
            decreases t - s,
        {
            proof {
                assert(s < t) by (nonlinear_arith)
                    requires
                        (s as int) * (s as int) < t * t,
                        0 <= s as int,
                        0 <= t,
                ;
            }
            s = s + 1;
            proof {
                lemma_prod_bound(s as int, s as int);
            }
            sq = s as i128 * s as i128;
        }
        proof {
            assert(s as int == t) by (nonlinear_arith)
                requires
                    !((s as int) * (s as int) < t * t),
                    0 <= s as int <= t,
            ;
        }
        let r = Scalar::new(s, dd);
        proof {
            let c = dot_square_root(self.m());
            assert(0 <= c && c * c == vdot(self.m(), self.m()).n * vdot(self.m(), self.m()).d);
            assert(c == t) by (nonlinear_arith)
                requires
                    0 <= c,
                    0 <= t,
                    c * c == t * t,
            ;
        }
        r
    }

    fn displacement_squared(&self) -> (r: Scalar) {
        self.x.facts();
        self.y.facts();
        self.z.facts();
        let r = self.x.mul(self.x).add(self.y.mul(self.y)).add(self.z.mul(self.z));
        proof {
            lemma_vdot_three(self.m(), self.m());
        }
        r
    }

    fn normalized(&self) -> (r: Self) {
        assert(vdiv(self.m(), Self::disp_of(self.m()))[0] == rat_div(
            self.x.m(),
            Self::disp_of(self.m()),
        ));
        assert(vdiv(self.m(), Self::disp_of(self.m()))[1] == rat_div(
            self.y.m(),
            Self::disp_of(self.m()),
        ));
        assert(vdiv(self.m(), Self::disp_of(self.m()))[2] == rat_div(
            self.z.m(),
            Self::disp_of(self.m()),
        ));
        let dsp = self.displacement();
        let r = Cartesian3 { x: self.x.div(dsp), y: self.y.div(dsp), z: self.z.div(dsp) };
        proof {
            assert(r.m() =~= vdiv(self.m(), Self::disp_of(self.m())));
        }
        r
    }

    fn space_ball(d: Scalar) -> (r: Scalar) {
        let two = Scalar::from_int(2);
        let t = two.mul(d);
        t.mul(t).mul(t)
    }

    fn space_box(&self) -> (r: Scalar) {
        self.x.mul(self.y).mul(self.z)
    }
}

impl CrossVector for Cartesian3 {
    open spec fn cross_of(a: Seq<Rat>, b: Seq<Rat>) -> Seq<Rat> {
        seq![
            rat_sub(rat_mul(a[1], b[2]), rat_mul(a[2], b[1])),
            rat_sub(rat_mul(a[2], b[0]), rat_mul(a[0], b[2])),
            rat_sub(rat_mul(a[0], b[1]), rat_mul(a[1], b[0])),
        ]
    }

    open spec fn cross_pre(a: Seq<Rat>, b: Seq<Rat>) -> bool {
        &&& a.len() == 3
        &&& b.len() == 3
        &&& rat_fits(rat_mul(a[1], b[2]))
        &&& rat_fits(rat_mul(a[2], b[1]))
        &&& rat_fits(rat_mul(a[2], b[0]))
        &&& rat_fits(rat_mul(a[0], b[2]))
        &&& rat_fits(rat_mul(a[0], b[1]))
        &&& rat_fits(rat_mul(a[1], b[0]))
        &&& rat_fits(rat_sub(rat_mul(a[1], b[2]), rat_mul(a[2], b[1])))
        &&& rat_fits(rat_sub(rat_mul(a[2], b[0]), rat_mul(a[0], b[2])))
        &&& rat_fits(rat_sub(rat_mul(a[0], b[1]), rat_mul(a[1], b[0])))
    }

    fn cross(lhs: &Self, rhs: &Self) -> (r: Self) {
        let r = Cartesian3 {
            x: lhs.y.mul(rhs.z).sub(lhs.z.mul(rhs.y)),
            y: lhs.z.mul(rhs.x).sub(lhs.x.mul(rhs.z)),
            z: lhs.x.mul(rhs.y).sub(lhs.y.mul(rhs.x)),
        };
        proof {
            assert(r.m() =~= Self::cross_of(lhs.m(), rhs.m()));
        }
        r
    }
}

} // verus!
