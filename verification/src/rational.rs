use vstd::prelude::*;

verus! {

/// Mathematical model of a scalar: a rational number as a pair of
/// unbounded integers. The denominator of a well-formed rational is
/// strictly positive; equality of rationals is cross-multiplication
/// equality, so values need not be reduced.
pub struct Rat {
    pub n: int,
    pub d: int,
}

pub open spec fn rat_wf(a: Rat) -> bool {
    a.d > 0
}

/// The rational values whose numerator and denominator fit the
/// machine representation used by `Scalar`.
pub open spec fn rat_fits(a: Rat) -> bool {
    &&& i64::MIN as int <= a.n <= i64::MAX as int
    &&& 0 < a.d <= i64::MAX as int
}

pub open spec fn rat_zero() -> Rat {
    Rat { n: 0, d: 1 }
}

pub open spec fn rat_one() -> Rat {
    Rat { n: 1, d: 1 }
}

pub open spec fn rat_add(a: Rat, b: Rat) -> Rat {
    Rat { n: a.n * b.d + b.n * a.d, d: a.d * b.d }
}

pub open spec fn rat_sub(a: Rat, b: Rat) -> Rat {
    Rat { n: a.n * b.d - b.n * a.d, d: a.d * b.d }
}

pub open spec fn rat_neg(a: Rat) -> Rat {
    Rat { n: -a.n, d: a.d }
}

pub open spec fn rat_mul(a: Rat, b: Rat) -> Rat {
    Rat { n: a.n * b.n, d: a.d * b.d }
}

/// Division keeps the denominator positive by moving the divisor's
/// sign into the numerator. Only meaningful when `b.n != 0`.
pub open spec fn rat_div(a: Rat, b: Rat) -> Rat {
    if b.n >= 0 {
        Rat { n: a.n * b.d, d: a.d * b.n }
    } else {
        Rat { n: -(a.n * b.d), d: -(a.d * b.n) }
    }
}

/// Absolute value of a rational.
pub open spec fn rat_abs(a: Rat) -> Rat {
    if a.n >= 0 {
        a
    } else {
        rat_neg(a)
    }
}

/// Value equality of rationals: a/b == c/d iff a*d == c*b.
pub open spec fn rat_eq(a: Rat, b: Rat) -> bool {
    a.n * b.d == b.n * a.d
}

/// Strict order; meaningful for well-formed rationals.
pub open spec fn rat_lt(a: Rat, b: Rat) -> bool {
    a.n * b.d < b.n * a.d
}

pub open spec fn rat_le(a: Rat, b: Rat) -> bool {
    a.n * b.d <= b.n * a.d
}

pub proof fn lemma_rat_eq_sym(a: Rat, b: Rat)
    requires
        rat_eq(a, b),
    ensures
        rat_eq(b, a),
{
}

pub proof fn lemma_rat_eq_trans(a: Rat, b: Rat, c: Rat)
    requires
        rat_wf(a),
        rat_wf(b),
        rat_wf(c),
        rat_eq(a, b),
        rat_eq(b, c),
    ensures
        rat_eq(a, c),
{
    assert(a.n * c.d == c.n * a.d) by (nonlinear_arith)
        requires
            a.d > 0,
            b.d > 0,
            c.d > 0,
            a.n * b.d == b.n * a.d,
            b.n * c.d == c.n * b.d,
    ;
}

/// `rat_lt` respects `rat_eq` in both arguments.
pub proof fn lemma_rat_lt_congr(a1: Rat, a2: Rat, b1: Rat, b2: Rat)
    requires
        rat_wf(a1),
        rat_wf(a2),
        rat_wf(b1),
        rat_wf(b2),
        rat_eq(a1, a2),
        rat_eq(b1, b2),
    ensures
        rat_lt(a1, b1) == rat_lt(a2, b2),
{
    assert((a1.n * b1.d < b1.n * a1.d) == (a2.n * b2.d < b2.n * a2.d)) by (nonlinear_arith)
        requires
            a1.d > 0,
            a2.d > 0,
            b1.d > 0,
            b2.d > 0,
            a1.n * a2.d == a2.n * a1.d,
            b1.n * b2.d == b2.n * b1.d,
    ;
}

/// Negation respects value equality.
pub proof fn lemma_rat_neg_congr(a: Rat, b: Rat)
    requires
        rat_eq(a, b),
    ensures
        rat_eq(rat_neg(a), rat_neg(b)),
{
    assert(-a.n * b.d == -b.n * a.d) by (nonlinear_arith)
        requires
            a.n * b.d == b.n * a.d,
    ;
}

/// Multiplying back after dividing by a nonzero rational recovers the
/// original value.
pub proof fn lemma_rat_div_mul_cancel(a: Rat, s: Rat)
    requires
        rat_wf(a),
        rat_wf(s),
        s.n != 0,
    ensures
        rat_wf(rat_div(a, s)),
        rat_eq(rat_mul(rat_div(a, s), s), a),
{
    assert(rat_wf(rat_div(a, s)) && rat_eq(rat_mul(rat_div(a, s), s), a)) by (nonlinear_arith)
        requires
            a.d > 0,
            s.d > 0,
            s.n != 0,
    ;
}

/// Dividing after multiplying by a nonzero rational recovers the
/// original value.
pub proof fn lemma_rat_mul_div_cancel(a: Rat, s: Rat)
    requires
        rat_wf(a),
        rat_wf(s),
        s.n != 0,
    ensures
        rat_wf(rat_mul(a, s)),
        rat_eq(rat_div(rat_mul(a, s), s), a),
{
    assert(rat_wf(rat_mul(a, s)) && rat_eq(rat_div(rat_mul(a, s), s), a)) by (nonlinear_arith)
        requires
            a.d > 0,
            s.d > 0,
            s.n != 0,
    ;
}

/// Adding the negation of a value yields zero.
pub proof fn lemma_rat_add_neg(a: Rat)
    requires
        rat_wf(a),
    ensures
        rat_eq(rat_add(a, rat_neg(a)), rat_zero()),
{
    assert((a.n * a.d + -a.n * a.d) * 1 == 0 * (a.d * a.d)) by (nonlinear_arith);
}

pub proof fn lemma_rat_mul_wf(a: Rat, b: Rat)
    requires
        rat_wf(a),
        rat_wf(b),
    ensures
        rat_wf(rat_mul(a, b)),
{
    assert(a.d * b.d > 0) by (nonlinear_arith)
        requires
            a.d > 0,
            b.d > 0,
    ;
}

pub proof fn lemma_rat_sub_wf(a: Rat, b: Rat)
    requires
        rat_wf(a),
        rat_wf(b),
    ensures
        rat_wf(rat_sub(a, b)),
{
    assert(a.d * b.d > 0) by (nonlinear_arith)
        requires
            a.d > 0,
            b.d > 0,
    ;
}

/// Dividing a product by a nonzero value last gives the same value as
/// dividing its first factor by it first.
#[verifier::rlimit(100)]
pub proof fn lemma_rat_div_order(a: Rat, q: Rat, p: Rat, dd: Rat)
    requires
        rat_wf(a),
        rat_wf(q),
        rat_wf(p),
        rat_wf(dd),
        dd.n != 0,
    ensures
        rat_eq(rat_div(rat_mul(rat_mul(a, q), p), dd), rat_mul(rat_mul(rat_div(a, dd), q), p)),
{
    if dd.n >= 0 {
        assert((((a.n * q.n) * p.n) * dd.d) * (((a.d * dd.n) * q.d) * p.d) == (((a.n * dd.d) * q.n)
            * p.n) * (((a.d * q.d) * p.d) * dd.n)) by (nonlinear_arith);
    } else {
        assert((-(((a.n * q.n) * p.n) * dd.d)) * (((a.d * dd.n) * q.d) * p.d) == (((a.n * dd.d)
            * q.n) * p.n) * ((-((a.d * q.d) * p.d)) * dd.n)) by (nonlinear_arith);
        assert(rat_div(rat_mul(rat_mul(a, q), p), dd) == (Rat {
            n: -(((a.n * q.n) * p.n) * dd.d),
            d: -(((a.d * q.d) * p.d) * dd.n),
        }));
        assert(rat_mul(rat_mul(rat_div(a, dd), q), p) == (Rat {
            n: ((-(a.n * dd.d)) * q.n) * p.n,
            d: ((-(a.d * dd.n)) * q.d) * p.d,
        }));
        assert(rat_eq(rat_div(rat_mul(rat_mul(a, q), p), dd), rat_mul(rat_mul(rat_div(a, dd), q), p)))
            by (nonlinear_arith)
            requires
                rat_div(rat_mul(rat_mul(a, q), p), dd) == (Rat {
                    n: -(((a.n * q.n) * p.n) * dd.d),
                    d: -(((a.d * q.d) * p.d) * dd.n),
                }),
                rat_mul(rat_mul(rat_div(a, dd), q), p) == (Rat {
                    n: ((-(a.n * dd.d)) * q.n) * p.n,
                    d: ((-(a.d * dd.n)) * q.d) * p.d,
                }),
        ;
    }
}

/// Division respects value equality of the (nonzero) divisor.
pub proof fn lemma_rat_div_congr_den(a: Rat, s1: Rat, s2: Rat)
    requires
        rat_wf(a),
        rat_wf(s1),
        rat_wf(s2),
        s1.n != 0,
        s2.n != 0,
        rat_eq(s1, s2),
    ensures
        rat_eq(rat_div(a, s1), rat_div(a, s2)),
{
    if s1.n > 0 && s2.n < 0 {
        assert(false) by (nonlinear_arith)
            requires
                s1.n > 0,
                s2.n < 0,
                s1.d > 0,
                s2.d > 0,
                s1.n * s2.d == s2.n * s1.d,
        ;
    }
    if s1.n < 0 && s2.n > 0 {
        assert(false) by (nonlinear_arith)
            requires
                s1.n < 0,
                s2.n > 0,
                s1.d > 0,
                s2.d > 0,
                s1.n * s2.d == s2.n * s1.d,
        ;
    }
    if s1.n > 0 {
        assert((a.n * s1.d) * (a.d * s2.n) == (a.n * s2.d) * (a.d * s1.n)) by (nonlinear_arith)
            requires
                s1.n * s2.d == s2.n * s1.d,
        ;
    } else {
        assert((-(a.n * s1.d)) * (-(a.d * s2.n)) == (-(a.n * s2.d)) * (-(a.d * s1.n)))
            by (nonlinear_arith)
            requires
                s1.n * s2.d == s2.n * s1.d,
        ;
    }
}

/// Bound on the product of an `i64` value and a positive `i64` value;
/// such products, and sums of two of them, stay inside `i128`.
pub proof fn lemma_prod_bound(a: int, b: int)
    requires
        i64::MIN as int <= a <= i64::MAX as int,
        0 <= b <= i64::MAX as int,
    ensures
        -0x3fff_ffff_ffff_ffff_8000_0000_0000_0000 <= a * b
            <= 0x3fff_ffff_ffff_ffff_8000_0000_0000_0000,
{
    assert(-0x3fff_ffff_ffff_ffff_8000_0000_0000_0000 <= a * b
        <= 0x3fff_ffff_ffff_ffff_8000_0000_0000_0000) by (nonlinear_arith)
        requires
            -0x8000_0000_0000_0000 <= a <= 0x7fff_ffff_ffff_ffff,
            0 <= b <= 0x7fff_ffff_ffff_ffff,
    ;
}

/// An exact scalar: a rational number held as a signed 64-bit
/// numerator over a strictly positive 64-bit denominator. All
/// arithmetic on it is exact; operations state over the `Rat` model
/// precisely which value they produce.
#[derive(Clone, Copy)]
pub struct Scalar {
    n: i64,
    d: i64,
}

impl Scalar {
    /// The rational value this scalar holds.
    pub closed spec fn m(&self) -> Rat {
        Rat { n: self.n as int, d: self.d as int }
    }

    #[verifier::type_invariant]
    pub closed spec fn inv(&self) -> bool {
        self.d > 0
    }

    /// Every scalar value holds a well-formed, representable rational;
    /// callers that received one opaquely can recover that fact here.
    pub fn facts(&self)
        ensures
            rat_wf(self.m()),
            rat_fits(self.m()),
    {
        proof {
            use_type_invariant(self);
        }
    }

    pub fn new(n: i64, d: i64) -> (r: Scalar)
        requires
            d > 0,
        ensures
            r.m() == (Rat { n: n as int, d: d as int }),
    {
        Scalar { n, d }
    }

    pub fn from_int(n: i64) -> (r: Scalar)
        ensures
            r.m() == (Rat { n: n as int, d: 1 }),
    {
        Scalar { n, d: 1 }
    }

    pub fn zero() -> (r: Scalar)
        ensures
            r.m() == rat_zero(),
    {
        Scalar { n: 0, d: 1 }
    }

    pub fn one() -> (r: Scalar)
        ensures
            r.m() == rat_one(),
    {
        Scalar { n: 1, d: 1 }
    }

    pub fn num(&self) -> (r: i64)
        ensures
            r as int == self.m().n,
    {
        self.n
    }

    pub fn den(&self) -> (r: i64)
        ensures
            r as int == self.m().d,
    {
        self.d
    }

    pub fn add(self, o: Scalar) -> (r: Scalar)
        requires
            rat_fits(rat_add(self.m(), o.m())),
        ensures
            r.m() == rat_add(self.m(), o.m()),
    {
        proof {
            use_type_invariant(&self);
            use_type_invariant(&o);
            lemma_prod_bound(self.n as int, o.d as int);
            lemma_prod_bound(o.n as int, self.d as int);
            lemma_prod_bound(self.d as int, o.d as int);
        }
        let n: i128 = self.n as i128 * o.d as i128 + o.n as i128 * self.d as i128;
        let d: i128 = self.d as i128 * o.d as i128;
        Scalar { n: n as i64, d: d as i64 }
    }

    pub fn sub(self, o: Scalar) -> (r: Scalar)
        requires
            rat_fits(rat_sub(self.m(), o.m())),
        ensures
            r.m() == rat_sub(self.m(), o.m()),
    {
        proof {
            use_type_invariant(&self);
            use_type_invariant(&o);
            lemma_prod_bound(self.n as int, o.d as int);
            lemma_prod_bound(o.n as int, self.d as int);
            lemma_prod_bound(self.d as int, o.d as int);
        }
        let n: i128 = self.n as i128 * o.d as i128 - o.n as i128 * self.d as i128;
        let d: i128 = self.d as i128 * o.d as i128;
        Scalar { n: n as i64, d: d as i64 }
    }

    pub fn mul(self, o: Scalar) -> (r: Scalar)
        requires
            rat_fits(rat_mul(self.m(), o.m())),
        ensures
            r.m() == rat_mul(self.m(), o.m()),
    {
        proof {
            use_type_invariant(&self);
            use_type_invariant(&o);
            assert(-0x4000_0000_0000_0000_0000_0000_0000_0000 <= self.n as int * o.n as int
                <= 0x4000_0000_0000_0000_0000_0000_0000_0000) by (nonlinear_arith)
                requires
                    -0x8000_0000_0000_0000 <= self.n as int <= 0x7fff_ffff_ffff_ffff,
                    -0x8000_0000_0000_0000 <= o.n as int <= 0x7fff_ffff_ffff_ffff,
            ;
            lemma_prod_bound(self.d as int, o.d as int);
        }
        let n: i128 = self.n as i128 * o.n as i128;
        let d: i128 = self.d as i128 * o.d as i128;
        Scalar { n: n as i64, d: d as i64 }
    }

    pub fn div(self, o: Scalar) -> (r: Scalar)
        requires
            o.m().n != 0,
            rat_fits(rat_div(self.m(), o.m())),
        ensures
            r.m() == rat_div(self.m(), o.m()),
    {
        proof {
            use_type_invariant(&self);
            use_type_invariant(&o);
            lemma_prod_bound(self.n as int, o.d as int);
            lemma_prod_bound(o.n as int, self.d as int);
            lemma_prod_bound(self.d as int, o.d as int);
        }
        let n: i128 = self.n as i128 * o.d as i128;
        let d: i128 = self.d as i128 * o.n as i128;
        if d >= 0 {
            Scalar { n: n as i64, d: d as i64 }
        } else {
            Scalar { n: (-n) as i64, d: (-d) as i64 }
        }
    }

    pub fn neg(self) -> (r: Scalar)
        requires
            rat_fits(rat_neg(self.m())),
        ensures
            r.m() == rat_neg(self.m()),
    {
        proof {
            use_type_invariant(&self);
        }
        Scalar { n: -self.n, d: self.d }
    }

    pub fn lt(&self, o: &Scalar) -> (r: bool)
        ensures
            r == rat_lt(self.m(), o.m()),
    {
        proof {
            use_type_invariant(self);
            use_type_invariant(o);
            lemma_prod_bound(self.n as int, o.d as int);
            lemma_prod_bound(o.n as int, self.d as int);
        }
        (self.n as i128 * o.d as i128) < (o.n as i128 * self.d as i128)
    }

    pub fn le(&self, o: &Scalar) -> (r: bool)
        ensures
            r == rat_le(self.m(), o.m()),
    {
        proof {
            use_type_invariant(self);
            use_type_invariant(o);
            lemma_prod_bound(self.n as int, o.d as int);
            lemma_prod_bound(o.n as int, self.d as int);
        }
        (self.n as i128 * o.d as i128) <= (o.n as i128 * self.d as i128)
    }

    pub fn gt(&self, o: &Scalar) -> (r: bool)
        ensures
            r == rat_lt(o.m(), self.m()),
    {
        o.lt(self)
    }

    /// Whether the two scalars hold the same rational value.
    pub fn same(&self, o: &Scalar) -> (r: bool)
        ensures
            r == rat_eq(self.m(), o.m()),
    {
        proof {
            use_type_invariant(self);
            use_type_invariant(o);
            lemma_prod_bound(self.n as int, o.d as int);
            lemma_prod_bound(o.n as int, self.d as int);
        }
        (self.n as i128 * o.d as i128) == (o.n as i128 * self.d as i128)
    }

    pub fn is_zero(&self) -> (r: bool)
        ensures
            r == (self.m().n == 0),
    {
        self.n == 0
    }
}

} // verus!
