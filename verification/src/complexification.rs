//! The quadratic extension R[x]/(x^2 + 1) of a base ring R.
//!
//! An element is a pair (real, imaginary) standing for real + imaginary*i
//! with i^2 = -1.  When the base ring is F_p with p = 3 (mod 4), the
//! quotient is the field F_{p^2}; that precondition is the caller's
//! responsibility and is not checked here.

use vstd::prelude::*;
use vstd::arithmetic::div_mod::lemma_fundamental_div_mod;
use vstd::arithmetic::div_mod::lemma_mod_division_less_than_divisor;
use vstd::arithmetic::mul::lemma_mul_inequality;
use vstd::arithmetic::mul::lemma_mul_upper_bound;
use crate::algebra::lemma_add_regroup_inner;
use crate::algebra::lemma_pow_square;
use crate::algebra::lemma_sub_zero;
use crate::algebra::pow_spec;
use crate::algebra::lemma_distrib_r;
use crate::algebra::lemma_distrib_sub_l;
use crate::algebra::lemma_distrib_sub_r;
use crate::algebra::lemma_shuffle_add_sub;
use crate::algebra::lemma_shuffle_sub_add;
use crate::algebra::lemma_shuffle_sub_sub;
use crate::algebra::Characteristic;
use crate::algebra::Identity;
use crate::algebra::Inverse;
use crate::algebra::RingLaws;
use crate::algebra::RingOps;
use crate::algebra::ValueEq;
use crate::algebra::Zero;

verus! {

/// An element real + imaginary*i of the quadratic extension of `T`.
#[derive(Clone, Copy, Debug, PartialEq, Eq, Hash)]
pub struct Complex<T> {
    pub real: T,
    pub imaginary: T,
}

impl<T> Complex<T> {
    /// Constructs the element re + im*i.
    pub fn new(re: T, im: T) -> (r: Self)
        ensures
            r == (Complex { real: re, imaginary: im }),
    {
        Complex { real: re, imaginary: im }
    }
}

impl<T: RingLaws> Complex<T> {
    /// Exponentiation by repeated squaring, on the (real, imaginary) pair.
    pub fn modpow(&self, n: u64) -> (r: Self)
        requires
            T::valid_ring(),
            self.wf(),
        ensures
            r == pow_spec(*self, n as nat),
            r.wf(),
        decreases n,
    {
        if n == 0 {
            Self::identity()
        } else {
            let sq = (*self).mul(*self);
            let half = sq.modpow(n / 2);
            proof {
                lemma_pow_square(*self, (n / 2) as nat);
                lemma_fundamental_div_mod(n as int, 2);
                lemma_mod_division_less_than_divisor(n as int, 2);
            }
            if n % 2 == 1 {
                let r = half.mul(*self);
                proof {
                    assert(pow_spec(*self, n as nat) == pow_spec(
                        *self,
                        (n - 1) as nat,
                    ).mul_spec(*self));
                }
                r
            } else {
                half
            }
        }
    }
}

impl<T: RingOps> RingOps for Complex<T> {
    open spec fn valid_ring() -> bool {
        T::valid_ring()
    }

    open spec fn wf(self) -> bool {
        self.real.wf() && self.imaginary.wf()
    }

    open spec fn add_spec(self, rhs: Self) -> Self {
        Complex {
            real: self.real.add_spec(rhs.real),
            imaginary: self.imaginary.add_spec(rhs.imaginary),
        }
    }

    open spec fn sub_spec(self, rhs: Self) -> Self {
        Complex {
            real: self.real.sub_spec(rhs.real),
            imaginary: self.imaginary.sub_spec(rhs.imaginary),
        }
    }

    open spec fn mul_spec(self, rhs: Self) -> Self {
        Complex {
            real: self.real.mul_spec(rhs.real).sub_spec(self.imaginary.mul_spec(rhs.imaginary)),
            imaginary: self.imaginary.mul_spec(rhs.real).add_spec(self.real.mul_spec(rhs.imaginary)),
        }
    }

    open spec fn neg_spec(self) -> Self {
        Complex { real: self.real.neg_spec(), imaginary: self.imaginary.neg_spec() }
    }

    fn add(self, rhs: Self) -> (r: Self) {
        Complex {
            real: self.real.add(rhs.real),
            imaginary: self.imaginary.add(rhs.imaginary),
        }
    }

    fn sub(self, rhs: Self) -> (r: Self) {
        Complex {
            real: self.real.sub(rhs.real),
            imaginary: self.imaginary.sub(rhs.imaginary),
        }
    }

    fn mul(self, rhs: Self) -> (r: Self) {
        Complex {
            real: self.real.mul(rhs.real).sub(self.imaginary.mul(rhs.imaginary)),
            imaginary: self.imaginary.mul(rhs.real).add(self.real.mul(rhs.imaginary)),
        }
    }

    fn neg(self) -> (r: Self) {
        Complex { real: self.real.neg(), imaginary: self.imaginary.neg() }
    }
}

impl<T: RingOps + Zero> Zero for Complex<T> {
    open spec fn zero_spec() -> Self {
        Complex { real: T::zero_spec(), imaginary: T::zero_spec() }
    }

    fn zero() -> (r: Self) {
        Complex { real: T::zero(), imaginary: T::zero() }
    }

    proof fn lemma_zero_wf() {
        T::lemma_zero_wf();
    }
}

impl<T: RingOps + Zero + Identity> Identity for Complex<T> {
    open spec fn identity_spec() -> Self {
        Complex { real: T::identity_spec(), imaginary: T::zero_spec() }
    }

    fn identity() -> (r: Self) {
        Complex { real: T::identity(), imaginary: T::zero() }
    }

    proof fn lemma_identity_wf() {
        T::lemma_identity_wf();
        T::lemma_zero_wf();
    }
}

impl<T: Characteristic> Characteristic for Complex<T> {
    open spec fn characteristic_spec() -> u64 {
        T::characteristic_spec()
    }

    fn characteristic() -> (r: u64) {
        T::characteristic()
    }
}

impl<T: ValueEq> ValueEq for Complex<T> {
    fn eq_val(&self, other: &Self) -> (r: bool) {
        self.real.eq_val(&other.real) && self.imaginary.eq_val(&other.imaginary)
    }
}

impl<T: RingLaws + Characteristic + ValueEq + Inverse> Inverse for Complex<T> {
    /// The inverse of a nonzero element is its (p^2 - 2)-th power, where p
    /// is the characteristic of the base ring; p must fit in 32 bits so
    /// that the exponent fits in the 64-bit word, and be at least 2.
    open spec fn inverse_req(self) -> bool {
        2 <= T::characteristic_spec() && T::characteristic_spec() <= 0xFFFF_FFFFu64
    }

    open spec fn inverse_spec(self) -> Option<Self> {
        if self == Self::zero_spec() {
            None
        } else {
            Some(
                pow_spec(
                    self,
                    (T::characteristic_spec() * T::characteristic_spec() - 2) as nat,
                ),
            )
        }
    }

    fn inverse(self) -> (r: Option<Self>) {
        let z = T::zero();
        if self.real.eq_val(&z) && self.imaginary.eq_val(&z) {
            None
        } else {
            let p = T::characteristic();
            proof {
                lemma_mul_upper_bound(p as int, 0xFFFF_FFFFu64 as int, p as int, 0xFFFF_FFFFu64 as int);
                lemma_mul_inequality(2, p as int, p as int);
            }
            let e = p * p - 2;
            Some(self.modpow(e))
        }
    }

    proof fn lemma_inverse_absent_iff_zero(self) {
    }

    proof fn lemma_sub_eq_zero(a: Self, b: Self) {
        T::lemma_sub_eq_zero(a.real, b.real);
        T::lemma_sub_eq_zero(a.imaginary, b.imaginary);
    }
}

impl<T: RingLaws> RingLaws for Complex<T> {
    proof fn lemma_add_wf(a: Self, b: Self) {
        T::lemma_add_wf(a.real, b.real);
        T::lemma_add_wf(a.imaginary, b.imaginary);
    }

    proof fn lemma_sub_wf(a: Self, b: Self) {
        T::lemma_sub_wf(a.real, b.real);
        T::lemma_sub_wf(a.imaginary, b.imaginary);
    }

    proof fn lemma_mul_wf(a: Self, b: Self) {
        T::lemma_mul_wf(a.real, b.real);
        T::lemma_mul_wf(a.imaginary, b.imaginary);
        T::lemma_mul_wf(a.imaginary, b.real);
        T::lemma_mul_wf(a.real, b.imaginary);
        T::lemma_sub_wf(a.real.mul_spec(b.real), a.imaginary.mul_spec(b.imaginary));
        T::lemma_add_wf(a.imaginary.mul_spec(b.real), a.real.mul_spec(b.imaginary));
    }

    proof fn lemma_neg_wf(a: Self) {
        T::lemma_neg_wf(a.real);
        T::lemma_neg_wf(a.imaginary);
    }

    proof fn lemma_add_comm(a: Self, b: Self) {
        T::lemma_add_comm(a.real, b.real);
        T::lemma_add_comm(a.imaginary, b.imaginary);
    }

    proof fn lemma_add_assoc(a: Self, b: Self, c: Self) {
        T::lemma_add_assoc(a.real, b.real, c.real);
        T::lemma_add_assoc(a.imaginary, b.imaginary, c.imaginary);
    }

    proof fn lemma_add_zero(a: Self) {
        T::lemma_zero_wf();
        T::lemma_add_zero(a.real);
        T::lemma_add_zero(a.imaginary);
    }

    proof fn lemma_add_neg(a: Self) {
        T::lemma_add_neg(a.real);
        T::lemma_add_neg(a.imaginary);
    }

    proof fn lemma_neg_add(a: Self, b: Self) {
        T::lemma_neg_add(a.real, b.real);
        T::lemma_neg_add(a.imaginary, b.imaginary);
    }

    proof fn lemma_neg_mul(a: Self, b: Self) {
        let x = a.real;
        let y = a.imaginary;
        let c = b.real;
        let d = b.imaginary;
        T::lemma_mul_wf(x, c);
        T::lemma_mul_wf(y, d);
        T::lemma_mul_wf(y, c);
        T::lemma_mul_wf(x, d);
        T::lemma_neg_mul(x, c);
        T::lemma_neg_mul(y, d);
        T::lemma_neg_mul(y, c);
        T::lemma_neg_mul(x, d);
        T::lemma_neg_wf(y.mul_spec(d));
        T::lemma_neg_wf(x.mul_spec(c));
        // real part: (-x)c - (-y)d == -(xc) + -(-(yd)) == -(xc - yd)
        T::lemma_sub_is_add_neg(x.mul_spec(c).neg_spec(), y.mul_spec(d).neg_spec());
        T::lemma_sub_is_add_neg(x.mul_spec(c), y.mul_spec(d));
        T::lemma_neg_add(x.mul_spec(c), y.mul_spec(d).neg_spec());
        // imaginary part: (-y)c + (-x)d == -(yc) + -(xd) == -(yc + xd)
        T::lemma_neg_add(y.mul_spec(c), x.mul_spec(d));
    }

    proof fn lemma_sub_is_add_neg(a: Self, b: Self) {
        T::lemma_sub_is_add_neg(a.real, b.real);
        T::lemma_sub_is_add_neg(a.imaginary, b.imaginary);
    }

    proof fn lemma_mul_comm(a: Self, b: Self) {
        T::lemma_mul_comm(a.real, b.real);
        T::lemma_mul_comm(a.imaginary, b.imaginary);
        T::lemma_mul_comm(a.imaginary, b.real);
        T::lemma_mul_comm(a.real, b.imaginary);
        T::lemma_mul_wf(a.imaginary, b.real);
        T::lemma_mul_wf(a.real, b.imaginary);
        T::lemma_add_comm(a.imaginary.mul_spec(b.real), a.real.mul_spec(b.imaginary));
    }

    proof fn lemma_mul_assoc(x: Self, y: Self, z: Self) {
        let a = x.real;
        let b = x.imaginary;
        let c = y.real;
        let d = y.imaginary;
        let e = z.real;
        let f = z.imaginary;
        let ac = a.mul_spec(c);
        let bd = b.mul_spec(d);
        let bc = b.mul_spec(c);
        let ad = a.mul_spec(d);
        let ce = c.mul_spec(e);
        let df = d.mul_spec(f);
        let de = d.mul_spec(e);
        let cf = c.mul_spec(f);
        T::lemma_mul_wf(a, c);
        T::lemma_mul_wf(b, d);
        T::lemma_mul_wf(b, c);
        T::lemma_mul_wf(a, d);
        T::lemma_mul_wf(c, e);
        T::lemma_mul_wf(d, f);
        T::lemma_mul_wf(d, e);
        T::lemma_mul_wf(c, f);
        let ace = ac.mul_spec(e);
        let bde = bd.mul_spec(e);
        let bcf = bc.mul_spec(f);
        let adf = ad.mul_spec(f);
        let bce = bc.mul_spec(e);
        let ade = ad.mul_spec(e);
        let acf = ac.mul_spec(f);
        let bdf = bd.mul_spec(f);
        T::lemma_mul_wf(ac, e);
        T::lemma_mul_wf(bd, e);
        T::lemma_mul_wf(bc, f);
        T::lemma_mul_wf(ad, f);
        T::lemma_mul_wf(bc, e);
        T::lemma_mul_wf(ad, e);
        T::lemma_mul_wf(ac, f);
        T::lemma_mul_wf(bd, f);
        // left association of the triple products
        T::lemma_mul_assoc(a, c, e);
        T::lemma_mul_assoc(a, d, f);
        T::lemma_mul_assoc(b, d, e);
        T::lemma_mul_assoc(b, c, f);
        T::lemma_mul_assoc(b, c, e);
        T::lemma_mul_assoc(b, d, f);
        T::lemma_mul_assoc(a, d, e);
        T::lemma_mul_assoc(a, c, f);
        // expand the products of the left-hand side
        lemma_distrib_sub_r::<T>(ac, bd, e);
        lemma_distrib_r::<T>(bc, ad, f);
        lemma_distrib_r::<T>(bc, ad, e);
        lemma_distrib_sub_r::<T>(ac, bd, f);
        // expand the products of the right-hand side
        lemma_distrib_sub_l::<T>(a, ce, df);
        T::lemma_mul_distrib(b, de, cf);
        lemma_distrib_sub_l::<T>(b, ce, df);
        T::lemma_mul_distrib(a, de, cf);
        // rearrange the four terms of each component
        lemma_shuffle_sub_sub::<T>(ace, bde, bcf, adf);
        lemma_shuffle_add_sub::<T>(bce, ade, acf, bdf);
        assert(x.mul_spec(y).mul_spec(z).real == x.mul_spec(y.mul_spec(z)).real);
        assert(x.mul_spec(y).mul_spec(z).imaginary == x.mul_spec(y.mul_spec(z)).imaginary);
    }

    proof fn lemma_mul_distrib(x: Self, y: Self, z: Self) {
        let a = x.real;
        let b = x.imaginary;
        let c = y.real;
        let d = y.imaginary;
        let e = z.real;
        let f = z.imaginary;
        let ac = a.mul_spec(c);
        let ae = a.mul_spec(e);
        let bd = b.mul_spec(d);
        let bf = b.mul_spec(f);
        let bc = b.mul_spec(c);
        let be = b.mul_spec(e);
        let ad = a.mul_spec(d);
        let af = a.mul_spec(f);
        T::lemma_mul_wf(a, c);
        T::lemma_mul_wf(a, e);
        T::lemma_mul_wf(b, d);
        T::lemma_mul_wf(b, f);
        T::lemma_mul_wf(b, c);
        T::lemma_mul_wf(b, e);
        T::lemma_mul_wf(a, d);
        T::lemma_mul_wf(a, f);
        T::lemma_mul_distrib(a, c, e);
        T::lemma_mul_distrib(b, d, f);
        T::lemma_mul_distrib(b, c, e);
        T::lemma_mul_distrib(a, d, f);
        lemma_shuffle_sub_add::<T>(ac, ae, bd, bf);
        lemma_add_regroup_inner::<T>(bc, be, ad, af);
        assert(x.mul_spec(y.add_spec(z)).real == x.mul_spec(y).add_spec(x.mul_spec(z)).real);
        assert(x.mul_spec(y.add_spec(z)).imaginary == x.mul_spec(y).add_spec(
            x.mul_spec(z),
        ).imaginary);
    }

    proof fn lemma_mul_zero(a: Self) {
        let z = T::zero_spec();
        T::lemma_zero_wf();
        T::lemma_mul_zero(a.real);
        T::lemma_mul_zero(a.imaginary);
        T::lemma_sub_is_add_neg(z, z);
        T::lemma_add_neg(z);
        T::lemma_add_zero(z);
    }

    proof fn lemma_mul_one(a: Self) {
        let z = T::zero_spec();
        let c = a.real;
        let d = a.imaginary;
        T::lemma_zero_wf();
        T::lemma_identity_wf();
        T::lemma_mul_one(c);
        T::lemma_mul_one(d);
        T::lemma_mul_zero(c);
        T::lemma_mul_zero(d);
        // real part: 1*c - 0*d == c - 0 == c
        lemma_sub_zero::<T>(c);
        // imaginary part: 0*c + 1*d == 0 + d == d
        T::lemma_add_comm(z, d);
        T::lemma_add_zero(d);
    }
}

} // verus!
