//! Rational points of a short Weierstrass curve y^2 = x^3 + a*x + b over
//! a field, with the chord-and-tangent group law.  The curve coefficient
//! `a` is passed to the addition explicitly, so a point is curve-agnostic.

use vstd::prelude::*;
use crate::algebra::spec_three;
use crate::algebra::spec_two;
use crate::algebra::Identity;
use crate::algebra::Inverse;
use crate::algebra::RingOps;
use crate::algebra::ValueEq;
use crate::algebra::Zero;

verus! {

/// An affine point (x, y), or the point at infinity `O`, the identity
/// element of the group.
#[derive(Clone, Copy, Debug, PartialEq, Eq, Hash)]
pub enum RationalPoint<T> {
    Point(T, T),
    O,
}

impl<T> RationalPoint<T> {
    /// Constructs the affine point (x, y).
    pub fn new(x: T, y: T) -> (r: Self)
        ensures
            r == RationalPoint::Point(x, y),
    {
        RationalPoint::Point(x, y)
    }
}

impl<T: RingOps> RationalPoint<T> {
    pub open spec fn wf(self) -> bool {
        match self {
            RationalPoint::Point(x, y) => x.wf() && y.wf(),
            RationalPoint::O => true,
        }
    }

    /// The negation of a point: `O` is its own negative, and an affine
    /// point reflects across the x-axis.
    pub open spec fn negate_spec(self) -> Self {
        match self {
            RationalPoint::O => RationalPoint::O,
            RationalPoint::Point(x, y) => RationalPoint::Point(x, y.neg_spec()),
        }
    }

    pub fn negate(&self) -> (r: Self)
        requires
            T::valid_ring(),
            self.wf(),
        ensures
            r == self.negate_spec(),
            r.wf(),
    {
        match *self {
            RationalPoint::O => RationalPoint::O,
            RationalPoint::Point(x, y) => RationalPoint::Point(x, y.neg()),
        }
    }
}

impl<T: RingOps + Zero + Identity + Inverse + ValueEq> RationalPoint<T> {
    /// The sum of two equal affine points (tangent case): the slope is
    /// (3*x1^2 + a) / (2*y1).
    pub open spec fn double_spec(x1: T, y1: T, a: T) -> Self {
        let m = spec_three::<T>().mul_spec(x1).mul_spec(x1).add_spec(a).mul_spec(
            spec_two::<T>().mul_spec(y1).inverse_spec().unwrap(),
        );
        RationalPoint::Point(
            m.mul_spec(m).sub_spec(x1).sub_spec(x1),
            m.mul_spec(x1.sub_spec(m.mul_spec(m)).add_spec(x1).add_spec(x1)).sub_spec(y1),
        )
    }

    /// The sum of two affine points with distinct x-coordinates (chord
    /// case): the slope is (y2 - y1) / (x2 - x1).
    pub open spec fn chord_spec(x1: T, y1: T, x2: T, y2: T) -> Self {
        let m = y2.sub_spec(y1).mul_spec(x2.sub_spec(x1).inverse_spec().unwrap());
        RationalPoint::Point(
            m.mul_spec(m).sub_spec(x1).sub_spec(x2),
            m.mul_spec(x1.sub_spec(m.mul_spec(m)).add_spec(x1).add_spec(x2)).sub_spec(y1),
        )
    }

    /// The group law.  `O` is the identity; equal x-coordinates with
    /// distinct stored y-values are inverse points and sum to `O`
    /// (stored values are canonical, so literal inequality suffices);
    /// equal points fall to the tangent case and the rest to the chord
    /// case.
    pub open spec fn add_points_spec(self, rhs: Self, a: T) -> Self {
        match self {
            RationalPoint::O => rhs,
            RationalPoint::Point(x1, y1) => match rhs {
                RationalPoint::O => RationalPoint::Point(x1, y1),
                RationalPoint::Point(x2, y2) => if x1 == x2 {
                    if y1 != y2 {
                        RationalPoint::O
                    } else {
                        Self::double_spec(x1, y1, a)
                    }
                } else {
                    Self::chord_spec(x1, y1, x2, y2)
                },
            },
        }
    }

    /// The sum is defined unless it falls to the tangent case at a point
    /// whose y-coordinate doubles to zero (a 2-torsion point), where the
    /// slope has no denominator.
    pub open spec fn addable_spec(self, rhs: Self) -> bool {
        !(self matches RationalPoint::Point(x1, y1) && rhs matches RationalPoint::Point(
            x2,
            y2,
        ) && x1 == x2 && y1 == y2 && spec_two::<T>().mul_spec(y1) == T::zero_spec())
    }

    /// Adds two rational points of the curve y^2 = x^3 + a*x + b.
    pub fn add_rational_points(&self, rhs: &Self, a: T) -> (r: Self)
        requires
            T::valid_ring(),
            self.wf(),
            rhs.wf(),
            a.wf(),
            forall|v: T| #[trigger] v.inverse_req(),
            self.addable_spec(*rhs),
        ensures
            r == self.add_points_spec(*rhs, a),
            r.wf(),
    {
        match *self {
            RationalPoint::O => *rhs,
            RationalPoint::Point(x1, y1) => match *rhs {
                RationalPoint::O => RationalPoint::Point(x1, y1),
                RationalPoint::Point(x2, y2) => {
                    if x1.eq_val(&x2) {
                        if !y1.eq_val(&y2) {
                            RationalPoint::O
                        } else {
                            let id = T::identity();
                            let two = id.add(id);
                            let three = two.add(id);
                            let ty = two.mul(y1);
                            proof {
                                T::lemma_inverse_absent_iff_zero(ty);
                            }
                            let w = ty.inverse().unwrap();
                            let m = three.mul(x1).mul(x1).add(a).mul(w);
                            let mm = m.mul(m);
                            RationalPoint::Point(
                                mm.sub(x1).sub(x1),
                                m.mul(x1.sub(mm).add(x1).add(x1)).sub(y1),
                            )
                        }
                    } else {
                        let d = x2.sub(x1);
                        proof {
                            T::lemma_sub_eq_zero(x2, x1);
                            T::lemma_inverse_absent_iff_zero(d);
                        }
                        let w = d.inverse().unwrap();
                        let m = y2.sub(y1).mul(w);
                        let mm = m.mul(m);
                        RationalPoint::Point(
                            mm.sub(x1).sub(x2),
                            m.mul(x1.sub(mm).add(x1).add(x2)).sub(y1),
                        )
                    }
                },
            },
        }
    }

    /// The point at infinity is the identity of the group law: for any
    /// point P, both P + O == P and O + P == P.
    pub proof fn lemma_add_identity(p: Self, a: T)
        requires
            p.wf(),
        ensures
            p.add_points_spec(RationalPoint::O, a) == p,
            RationalPoint::<T>::O.add_points_spec(p, a) == p,
    {
    }

    /// A point and its negation sum to the point at infinity, whenever the
    /// y-coordinate is not its own negative (on such 2-torsion points the
    /// sum falls to the tangent case and is not defined).
    pub proof fn lemma_add_negate(p: Self, a: T)
        requires
            p.wf(),
            p matches RationalPoint::Point(x, y) ==> y != y.neg_spec(),
        ensures
            p.add_points_spec(p.negate_spec(), a) == RationalPoint::<T>::O,
    {
    }
}

} // verus!
