//! Polynomials over a ring, as an ordered coefficient list with the
//! constant term first, and their evaluation at a point.

use vstd::prelude::*;
use crate::algebra::lemma_one_mul_r;
use crate::algebra::lemma_pow_wf;
use crate::algebra::pow_spec;
use crate::algebra::Identity;
use crate::algebra::RingLaws;
use crate::algebra::RingOps;
use crate::algebra::Zero;

verus! {

/// A polynomial; `coefficients[i]` is the coefficient of x^i.  Trailing
/// zero coefficients are permitted and the degree is implicit.
#[derive(Clone, Debug)]
pub struct Polynomial<T> {
    pub coefficients: Vec<T>,
}

/// The sum of coefficients[i] * x^i over a coefficient sequence.
pub open spec fn eval_spec<T: RingOps + Zero + Identity>(s: Seq<T>, x: T) -> T
    decreases s.len(),
{
    if s.len() == 0 {
        T::zero_spec()
    } else {
        eval_spec(s.drop_last(), x).add_spec(
            s.last().mul_spec(pow_spec(x, (s.len() - 1) as nat)),
        )
    }
}

/// All coefficients of a sequence are canonical representatives.
pub open spec fn coeffs_wf<T: RingOps>(s: Seq<T>) -> bool {
    forall|i: int| 0 <= i < s.len() ==> (#[trigger] s[i]).wf()
}

impl<T: RingOps + Zero + Identity + Copy> Polynomial<T> {
    pub open spec fn wf(self) -> bool {
        coeffs_wf(self.coefficients@)
    }

    /// Constructs a polynomial from its coefficient sequence (copied),
    /// constant term at index 0.
    pub fn new(coefficients: &Vec<T>) -> (r: Self)
        ensures
            r.coefficients@ == coefficients@,
    {
        let mut v: Vec<T> = Vec::new();
        let mut i: usize = 0;
        while i < coefficients.len()
            invariant
                i <= coefficients.len(),
                v@ == coefficients@.take(i as int),
            decreases coefficients.len() - i,
        {
            v.push(coefficients[i]);
            proof {
                assert(coefficients@.take(i + 1) =~= coefficients@.take(i as int).push(
                    coefficients@[i as int],
                ));
            }
            i = i + 1;
        }
        proof {
            assert(coefficients@.take(coefficients@.len() as int) =~= coefficients@);
        }
        Polynomial { coefficients: v }
    }

    /// Evaluates the polynomial at `point`, accumulating a running power
    /// of the point and summing coefficient * power term by term.
    pub fn evaluate(&self, point: T) -> (r: T)
        requires
            T::valid_ring(),
            self.wf(),
            point.wf(),
        ensures
            r == eval_spec(self.coefficients@, point),
            r.wf(),
    {
        let ghost s = self.coefficients@;
        let mut acc = T::zero();
        let mut power = T::identity();
        let mut i: usize = 0;
        while i < self.coefficients.len()
            invariant
                T::valid_ring(),
                self.wf(),
                point.wf(),
                i <= self.coefficients.len(),
                s == self.coefficients@,
                acc.wf(),
                power.wf(),
                acc == eval_spec(s.take(i as int), point),
                power == pow_spec(point, i as nat),
            decreases self.coefficients.len() - i,
        {
            let c = self.coefficients[i];
            acc = acc.add(c.mul(power));
            power = power.mul(point);
            proof {
                assert(s.take(i + 1).drop_last() =~= s.take(i as int));
                assert(s.take(i + 1).last() == s[i as int]);
            }
            i = i + 1;
        }
        proof {
            assert(s.take(s.len() as int) =~= s);
        }
        acc
    }
}

/// Evaluation is linear in the coefficients: a polynomial whose
/// coefficients are all zero evaluates to zero at every point.
pub proof fn lemma_eval_zero_poly<T: RingLaws>(s: Seq<T>, x: T)
    requires
        T::valid_ring(),
        x.wf(),
        forall|i: int| 0 <= i < s.len() ==> s[i] == T::zero_spec(),
    ensures
        eval_spec(s, x) == T::zero_spec(),
    decreases s.len(),
{
    T::lemma_zero_wf();
    if s.len() == 0 {
    } else {
        lemma_eval_zero_poly(s.drop_last(), x);
        let p = pow_spec(x, (s.len() - 1) as nat);
        lemma_pow_wf(x, (s.len() - 1) as nat);
        T::lemma_mul_zero(p);
        T::lemma_add_zero(T::zero_spec());
    }
}

/// The coefficient sequence [b, a, 0, 1] evaluates at x to the right-hand
/// side of the Weierstrass equation: x^3 + a*x + b.
pub proof fn lemma_eval_cubic<T: RingLaws>(b: T, a: T, x: T)
    requires
        T::valid_ring(),
        b.wf(),
        a.wf(),
        x.wf(),
    ensures
        eval_spec(seq![b, a, T::zero_spec(), T::identity_spec()], x) == x.mul_spec(x).mul_spec(
            x,
        ).add_spec(a.mul_spec(x)).add_spec(b),
{
    let z = T::zero_spec();
    let o = T::identity_spec();
    T::lemma_zero_wf();
    T::lemma_identity_wf();
    let s1 = seq![b];
    let s2 = seq![b, a];
    let s3 = seq![b, a, z];
    let s4 = seq![b, a, z, o];
    assert(s4.drop_last() =~= s3);
    assert(s3.drop_last() =~= s2);
    assert(s2.drop_last() =~= s1);
    assert(s1.drop_last() =~= Seq::<T>::empty());
    // the running powers of x
    let p1 = pow_spec(x, 1);
    let p2 = pow_spec(x, 2);
    let p3 = pow_spec(x, 3);
    T::lemma_mul_one(x);
    assert(pow_spec(x, 0) == o);
    assert(eval_spec(Seq::<T>::empty(), x) == z);
    assert(p1 == x);
    assert(p2 == x.mul_spec(x));
    assert(p3 == x.mul_spec(x).mul_spec(x));
    lemma_pow_wf(x, 2);
    lemma_pow_wf(x, 3);
    // the partial sums
    lemma_one_mul_r::<T>(b);
    T::lemma_add_comm(z, b);
    T::lemma_add_zero(b);
    assert(eval_spec(s1, x) == b);
    assert(eval_spec(s2, x) == b.add_spec(a.mul_spec(x)));
    T::lemma_mul_zero(p2);
    T::lemma_mul_wf(a, x);
    T::lemma_add_wf(b, a.mul_spec(x));
    T::lemma_add_zero(b.add_spec(a.mul_spec(x)));
    assert(eval_spec(s3, x) == b.add_spec(a.mul_spec(x)));
    T::lemma_mul_one(p3);
    assert(eval_spec(s4, x) == b.add_spec(a.mul_spec(x)).add_spec(p3));
    // reorder (b + ax) + x^3 into (x^3 + ax) + b
    T::lemma_add_comm(b.add_spec(a.mul_spec(x)), p3);
    T::lemma_add_comm(b, a.mul_spec(x));
    T::lemma_add_assoc(p3, a.mul_spec(x), b);
}

/// The coefficient sequence [0, 0, 1] evaluates at y to the left-hand side
/// of the Weierstrass equation: y^2.
pub proof fn lemma_eval_square<T: RingLaws>(y: T)
    requires
        T::valid_ring(),
        y.wf(),
    ensures
        eval_spec(seq![T::zero_spec(), T::zero_spec(), T::identity_spec()], y) == y.mul_spec(y),
{
    let z = T::zero_spec();
    let o = T::identity_spec();
    T::lemma_zero_wf();
    T::lemma_identity_wf();
    let s1 = seq![z];
    let s2 = seq![z, z];
    let s3 = seq![z, z, o];
    assert(s3.drop_last() =~= s2);
    assert(s2.drop_last() =~= s1);
    assert(s1.drop_last() =~= Seq::<T>::empty());
    let p1 = pow_spec(y, 1);
    let p2 = pow_spec(y, 2);
    T::lemma_mul_one(y);
    assert(pow_spec(y, 0) == o);
    assert(eval_spec(Seq::<T>::empty(), y) == z);
    assert(p1 == y);
    assert(p2 == y.mul_spec(y));
    lemma_pow_wf(y, 2);
    lemma_one_mul_r::<T>(z);
    T::lemma_add_zero(z);
    assert(eval_spec(s1, y) == z);
    T::lemma_mul_zero(y);
    assert(eval_spec(s2, y) == z);
    T::lemma_mul_one(p2);
    T::lemma_mul_wf(y, y);
    T::lemma_add_comm(z, p2);
    T::lemma_add_zero(p2);
}

} // verus!
