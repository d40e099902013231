use vstd::prelude::*;
use crate::rational::{
    Rat, Scalar, rat_wf, rat_fits, rat_zero, rat_add, rat_sub, rat_neg, rat_mul, rat_div, rat_eq,
    rat_le, lemma_rat_add_neg, lemma_rat_mul_div_cancel, lemma_rat_sub_wf,
};

pub mod cartesian1;
pub mod cartesian3;

verus! {

/// Model of a vector: the sequence of its components as rationals.
pub open spec fn vwf(v: Seq<Rat>) -> bool {
    forall|i: int| 0 <= i < v.len() ==> rat_wf(#[trigger] v[i])
}

pub open spec fn vfits(v: Seq<Rat>) -> bool {
    forall|i: int| 0 <= i < v.len() ==> rat_fits(#[trigger] v[i])
}

pub open spec fn vzero(n: nat) -> Seq<Rat> {
    Seq::new(n, |i: int| rat_zero())
}

pub open spec fn vadd(a: Seq<Rat>, b: Seq<Rat>) -> Seq<Rat> {
    Seq::new(a.len(), |i: int| rat_add(a[i], b[i]))
}

pub open spec fn vsub(a: Seq<Rat>, b: Seq<Rat>) -> Seq<Rat> {
    Seq::new(a.len(), |i: int| rat_sub(a[i], b[i]))
}

pub open spec fn vneg(a: Seq<Rat>) -> Seq<Rat> {
    Seq::new(a.len(), |i: int| rat_neg(a[i]))
}

pub open spec fn vmul(a: Seq<Rat>, s: Rat) -> Seq<Rat> {
    Seq::new(a.len(), |i: int| rat_mul(a[i], s))
}

pub open spec fn vdiv(a: Seq<Rat>, s: Rat) -> Seq<Rat> {
    Seq::new(a.len(), |i: int| rat_div(a[i], s))
}

pub open spec fn vdot(a: Seq<Rat>, b: Seq<Rat>) -> Rat
    decreases a.len(),
{
    if a.len() == 0 {
        rat_zero()
    } else {
        rat_add(vdot(a.drop_last(), b.drop_last()), rat_mul(a.last(), b.last()))
    }
}

/// Componentwise value equality of vector models.
pub open spec fn veq(a: Seq<Rat>, b: Seq<Rat>) -> bool {
    &&& a.len() == b.len()
    &&& forall|i: int| 0 <= i < a.len() ==> rat_eq(#[trigger] a[i], #[trigger] b[i])
}


/// A vector plus its negation is the zero vector.
pub proof fn lemma_vadd_vneg(v: Seq<Rat>)
    requires
        vwf(v),
    ensures
        veq(vadd(v, vneg(v)), vzero(v.len())),
{
    assert forall|i: int| 0 <= i < vadd(v, vneg(v)).len() implies rat_eq(
        #[trigger] vadd(v, vneg(v))[i],
        #[trigger] vzero(v.len())[i],
    ) by {
        lemma_rat_add_neg(v[i]);
    }
}

/// Scaling a vector by a nonzero scalar and dividing by the same
/// scalar recovers the original vector.
pub proof fn lemma_vmul_vdiv_cancel(v: Seq<Rat>, s: Rat)
    requires
        vwf(v),
        rat_wf(s),
        s.n != 0,
    ensures
        veq(vdiv(vmul(v, s), s), v),
{
    assert forall|i: int| 0 <= i < vdiv(vmul(v, s), s).len() implies rat_eq(
        #[trigger] vdiv(vmul(v, s), s)[i],
        v[i],
    ) by {
        lemma_rat_mul_div_cancel(v[i], s);
    }
}

/// The dot product of one-dimensional vectors is the product of their
/// single components.
pub proof fn lemma_vdot_one(a: Seq<Rat>, b: Seq<Rat>)
    requires
        a.len() == 1,
        b.len() == 1,
    ensures
        vdot(a, b) == rat_mul(a[0], b[0]),
{
    reveal_with_fuel(vdot, 2);
    assert(a.last() == a[0] && b.last() == b[0]);
    let m0 = rat_mul(a[0], b[0]);
    assert(0 * m0.d + m0.n * 1 == m0.n) by (nonlinear_arith);
    assert(1 * m0.d == m0.d) by (nonlinear_arith);
    assert(rat_add(rat_zero(), m0) == m0);
}

/// The dot product of three-dimensional vectors, written out.
pub proof fn lemma_vdot_three(a: Seq<Rat>, b: Seq<Rat>)
    requires
        a.len() == 3,
        b.len() == 3,
    ensures
        vdot(a, b) == rat_add(
            rat_add(rat_mul(a[0], b[0]), rat_mul(a[1], b[1])),
            rat_mul(a[2], b[2]),
        ),
{
    reveal_with_fuel(vdot, 4);
    let a01 = a.drop_last();
    let b01 = b.drop_last();
    let a0 = a01.drop_last();
    let b0 = b01.drop_last();
    assert(a0.drop_last().len() == 0 && b0.drop_last().len() == 0);
    assert(vdot(a0, b0) == rat_add(rat_zero(), rat_mul(a[0], b[0])));
    let m0 = rat_mul(a[0], b[0]);
    assert(0 * m0.d + m0.n * 1 == m0.n) by (nonlinear_arith);
    assert(1 * m0.d == m0.d) by (nonlinear_arith);
    assert(rat_add(rat_zero(), m0) == m0);
    assert(a01.last() == a[1] && b01.last() == b[1]);
    assert(a.last() == a[2] && b.last() == b[2]);
}

pub proof fn lemma_vsub_wf(a: Seq<Rat>, b: Seq<Rat>)
    requires
        vwf(a),
        vwf(b),
        a.len() == b.len(),
    ensures
        vwf(vsub(a, b)),
{
    assert forall|i: int| 0 <= i < vsub(a, b).len() implies rat_wf(#[trigger] vsub(a, b)[i]) by {
        lemma_rat_sub_wf(a[i], b[i]);
    }
}

pub proof fn lemma_vdot_wf(a: Seq<Rat>, b: Seq<Rat>)
    requires
        vwf(a),
        vwf(b),
        a.len() == b.len(),
    ensures
        rat_wf(vdot(a, b)),
    decreases a.len(),
{
    if a.len() != 0 {
        lemma_vdot_wf(a.drop_last(), b.drop_last());
        assert(rat_wf(rat_mul(a.last(), b.last()))) by (nonlinear_arith)
            requires
                a.last().d > 0,
                b.last().d > 0,
        ;
        assert(rat_wf(vdot(a, b))) by (nonlinear_arith)
            requires
                vdot(a.drop_last(), b.drop_last()).d > 0,
                rat_mul(a.last(), b.last()).d > 0,
                vdot(a, b) == rat_add(vdot(a.drop_last(), b.drop_last()), rat_mul(a.last(), b.last())),
        ;
    }
}

/// The algebraic contract a spatial type must satisfy: a vector space
/// with a dot product, a displacement (norm) whose square equals the
/// dot product of a vector with itself, normalization, and two
/// auxiliary measures of spatial extent. Each value is modeled by the
/// sequence of its components as exact rationals; the `*_pre`
/// predicates name the inputs an implementation can represent.
pub trait Vector: Sized + Copy {
    /// Spatial dimension of this vector type.
    spec fn dim() -> nat;

    /// The component model of this value.
    spec fn m(&self) -> Seq<Rat>;

    /// Model-level displacement (norm) of a component sequence.
    spec fn disp_of(v: Seq<Rat>) -> Rat;

    spec fn disp_pre(v: Seq<Rat>) -> bool;

    spec fn disp_sq_pre(v: Seq<Rat>) -> bool;

    spec fn dot_pre(a: Seq<Rat>, b: Seq<Rat>) -> bool;

    spec fn norm_pre(v: Seq<Rat>) -> bool;

    /// Model-level radius-based extent measure.
    spec fn ball_of(r: Rat) -> Rat;

    spec fn ball_pre(r: Rat) -> bool;

    /// Model-level axis-aligned extent measure.
    spec fn box_of(v: Seq<Rat>) -> Rat;

    spec fn box_pre(v: Seq<Rat>) -> bool;

    /// The central invariant: the displacement is a nonnegative value
    /// (a norm) whose square is the dot product of the vector with
    /// itself.
    proof fn lemma_disp(v: Seq<Rat>)
        requires
            vwf(v),
            v.len() == Self::dim(),
            Self::disp_pre(v),
        ensures
            rat_wf(Self::disp_of(v)),
            rat_fits(Self::disp_of(v)),
            rat_le(rat_zero(), Self::disp_of(v)),
            rat_eq(rat_mul(Self::disp_of(v), Self::disp_of(v)), vdot(v, v)),
    ;

    /// Normalization is defined exactly when the displacement is
    /// available and nonzero and the quotient is representable.
    proof fn lemma_norm_pre(v: Seq<Rat>)
        requires
            Self::norm_pre(v),
        ensures
            Self::disp_pre(v),
            Self::disp_of(v).n != 0,
    ;

    /// Every value of the type models a well-formed, representable
    /// component sequence of the right dimension.
    fn facts(&self)
        ensures
            vwf(self.m()),
            vfits(self.m()),
            self.m().len() == Self::dim(),
    ;

    fn zero() -> (r: Self)
        ensures
            vwf(r.m()),
            vfits(r.m()),
            r.m().len() == Self::dim(),
            r.m() == vzero(Self::dim()),
    ;

    fn is_zero(&self) -> (r: bool)
        ensures
            vwf(self.m()),
            vfits(self.m()),
            self.m().len() == Self::dim(),
            r == veq(self.m(), vzero(Self::dim())),
    ;

    fn add(&self, o: &Self) -> (r: Self)
        requires
            vfits(vadd(self.m(), o.m())),
        ensures
            vwf(r.m()),
            vfits(r.m()),
            r.m().len() == Self::dim(),
            r.m() == vadd(self.m(), o.m()),
    ;

    fn sub(&self, o: &Self) -> (r: Self)
        requires
            vfits(vsub(self.m(), o.m())),
        ensures
            vwf(r.m()),
            vfits(r.m()),
            r.m().len() == Self::dim(),
            r.m() == vsub(self.m(), o.m()),
    ;

    fn neg(&self) -> (r: Self)
        requires
            vfits(vneg(self.m())),
        ensures
            vwf(r.m()),
            vfits(r.m()),
            r.m().len() == Self::dim(),
            r.m() == vneg(self.m()),
    ;

    fn mul(&self, s: Scalar) -> (r: Self)
        requires
            vfits(vmul(self.m(), s.m())),
        ensures
            vwf(r.m()),
            vfits(r.m()),
            r.m().len() == Self::dim(),
            r.m() == vmul(self.m(), s.m()),
    ;

    fn div(&self, s: Scalar) -> (r: Self)
        requires
            s.m().n != 0,
            vfits(vdiv(self.m(), s.m())),
        ensures
            vwf(r.m()),
            vfits(r.m()),
            r.m().len() == Self::dim(),
            r.m() == vdiv(self.m(), s.m()),
    ;

    fn dot(lhs: &Self, rhs: &Self) -> (r: Scalar)
        requires
            Self::dot_pre(lhs.m(), rhs.m()),
        ensures
            rat_wf(r.m()),
            rat_fits(r.m()),
            rat_eq(r.m(), vdot(lhs.m(), rhs.m())),
    ;

    fn displacement(&self) -> (r: Scalar)
        requires
            Self::disp_pre(self.m()),
        ensures
            vwf(self.m()),
            vfits(self.m()),
            self.m().len() == Self::dim(),
            r.m() == Self::disp_of(self.m()),
    ;

    fn displacement_squared(&self) -> (r: Scalar)
        requires
            Self::disp_sq_pre(self.m()),
        ensures
            vwf(self.m()),
            vfits(self.m()),
            self.m().len() == Self::dim(),
            rat_wf(r.m()),
            rat_fits(r.m()),
            rat_eq(r.m(), vdot(self.m(), self.m())),
    ;

    fn normalized(&self) -> (r: Self)
        requires
            Self::norm_pre(self.m()),
        ensures
            vwf(r.m()),
            vfits(r.m()),
            r.m().len() == Self::dim(),
            r.m() == vdiv(self.m(), Self::disp_of(self.m())),
    ;

    fn space_ball(d: Scalar) -> (r: Scalar)
        requires
            Self::ball_pre(d.m()),
        ensures
            r.m() == Self::ball_of(d.m()),
    ;

    fn space_box(&self) -> (r: Scalar)
        requires
            Self::box_pre(self.m()),
        ensures
            r.m() == Self::box_of(self.m()),
    ;
}

/// Extension of `Vector` with a cross product, required only by the
/// magnetic (Lorentz-style) interaction laws. Dimensionalities without
/// a canonical cross product simply do not implement it.
pub trait CrossVector: Vector {
    /// Model-level cross product.
    spec fn cross_of(a: Seq<Rat>, b: Seq<Rat>) -> Seq<Rat>;

    spec fn cross_pre(a: Seq<Rat>, b: Seq<Rat>) -> bool;

    fn cross(lhs: &Self, rhs: &Self) -> (r: Self)
        requires
            Self::cross_pre(lhs.m(), rhs.m()),
        ensures
            vwf(r.m()),
            vfits(r.m()),
            r.m().len() == Self::dim(),
            r.m() == Self::cross_of(lhs.m(), rhs.m()),
    ;
}

} // verus!
