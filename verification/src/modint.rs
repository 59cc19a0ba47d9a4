//! Residue classes modulo a fixed prime `P`: the prime field F_P.
//!
//! A value holds its canonical representative in `[0, P)`; every operation
//! reduces modulo `P` immediately.  Intermediate products are computed in
//! 128-bit arithmetic so that they never wrap.

use vstd::prelude::*;
use vstd::arithmetic::power::pow;
use vstd::arithmetic::power::lemma_pow0;
use vstd::arithmetic::power::lemma_pow_mod_noop;
use vstd::arithmetic::power::lemma_pow_multiplies;
use vstd::arithmetic::power::lemma_square_is_pow2;
use vstd::arithmetic::div_mod::lemma_mod_division_less_than_divisor;
use vstd::arithmetic::div_mod::lemma_small_mod;
use vstd::arithmetic::div_mod::lemma_add_mod_noop;
use vstd::arithmetic::div_mod::lemma_add_mod_noop_right;
use vstd::arithmetic::div_mod::lemma_sub_mod_noop_right;
use vstd::arithmetic::div_mod::lemma_mod_add_multiples_vanish;
use vstd::arithmetic::div_mod::lemma_mul_mod_noop_left;
use vstd::arithmetic::div_mod::lemma_mul_mod_noop_right;
use vstd::arithmetic::div_mod::lemma_fundamental_div_mod;
use vstd::arithmetic::mul::lemma_mul_is_associative;
use vstd::arithmetic::mul::lemma_mul_upper_bound;
use vstd::arithmetic::mul::lemma_mul_is_distributive_add;
use vstd::arithmetic::mul::lemma_mul_is_distributive_sub_other_way;
use crate::algebra::Characteristic;
use crate::algebra::Identity;
use crate::algebra::Inverse;
use crate::algebra::RingLaws;
use crate::algebra::RingOps;
use crate::algebra::ValueEq;
use crate::algebra::Zero;

verus! {

/// An element of F_P, held as its canonical representative.
#[derive(Clone, Copy, Debug, PartialEq, Eq, Hash)]
pub struct ModInt<const P: u64> {
    pub value: u64,
}

proof fn lemma_mod_bound(x: int, m: int)
    requires
        m >= 1,
    ensures
        0 <= x % m < m,
{
    lemma_mod_division_less_than_divisor(x, m);
}

impl<const P: u64> ModInt<P> {
    /// The canonical remainder of `x` modulo `P`, as a field element.
    pub open spec fn reduced(x: int) -> Self {
        ModInt { value: (x % (P as int)) as u64 }
    }

    /// Constructs the residue class of an arbitrary integer.
    pub fn new(value: u64) -> (r: Self)
        requires
            P >= 1,
        ensures
            r == Self::reduced(value as int),
            r.wf(),
    {
        let r = ModInt { value: value % P };
        proof {
            lemma_mod_bound(value as int, P as int);
        }
        r
    }

    /// Modular exponentiation by repeated squaring.
    pub fn modpow(&self, n: u64) -> (r: Self)
        requires
            self.wf(),
        ensures
            r == Self::reduced(pow(self.value as int, n as nat)),
            r.wf(),
        decreases n,
    {
        let ghost m = P as int;
        let ghost a = self.value as int;
        if n == 0 {
            let r = ModInt { value: 1 % P };
            proof {
                lemma_pow0(a);
                lemma_mod_bound(1, m);
            }
            r
        } else {
            let sq = self.mul(*self);
            let half = sq.modpow(n / 2);
            let ghost k = (n / 2) as nat;
            proof {
                lemma_fundamental_div_mod(n as int, 2);
                lemma_mod_bound(n as int, 2);
                lemma_square_is_pow2(a);
                lemma_pow_mod_noop(a * a, k, m);
                lemma_pow_multiplies(a, 2, k);
                assert(half.value as int == pow(a, (2 * k) as nat) % m);
            }
            if n % 2 == 1 {
                let r = half.mul(*self);
                proof {
                    lemma_mul_mod_noop_left(pow(a, (n - 1) as nat), a, m);
                    assert(pow(a, n as nat) == a * pow(a, (n - 1) as nat)) by {
                        reveal(pow);
                    }
                }
                r
            } else {
                half
            }
        }
    }
}

impl<const P: u64> RingOps for ModInt<P> {
    open spec fn valid_ring() -> bool {
        P >= 1
    }

    open spec fn wf(self) -> bool {
        self.value < P
    }

    open spec fn add_spec(self, rhs: Self) -> Self {
        Self::reduced(self.value as int + rhs.value as int)
    }

    open spec fn sub_spec(self, rhs: Self) -> Self {
        Self::reduced(self.value as int - rhs.value as int)
    }

    open spec fn mul_spec(self, rhs: Self) -> Self {
        Self::reduced(self.value as int * rhs.value as int)
    }

    open spec fn neg_spec(self) -> Self {
        Self::reduced(0 - self.value as int)
    }

    fn add(self, rhs: Self) -> (r: Self) {
        let v = ((self.value as u128 + rhs.value as u128) % (P as u128)) as u64;
        proof {
            lemma_mod_bound(self.value as int + rhs.value as int, P as int);
        }
        ModInt { value: v }
    }

    fn sub(self, rhs: Self) -> (r: Self) {
        let v = ((self.value as u128 + P as u128 - rhs.value as u128) % (P as u128)) as u64;
        proof {
            lemma_mod_bound(self.value as int - rhs.value as int, P as int);
            lemma_mod_add_multiples_vanish(self.value as int - rhs.value as int, P as int);
        }
        ModInt { value: v }
    }

    fn mul(self, rhs: Self) -> (r: Self) {
        proof {
            lemma_mul_upper_bound(
                self.value as int,
                0xFFFF_FFFF_FFFF_FFFFu64 as int,
                rhs.value as int,
                0xFFFF_FFFF_FFFF_FFFFu64 as int,
            );
        }
        let v = ((self.value as u128 * rhs.value as u128) % (P as u128)) as u64;
        proof {
            lemma_mod_bound(self.value as int * rhs.value as int, P as int);
        }
        ModInt { value: v }
    }

    fn neg(self) -> (r: Self) {
        let v = ((P as u128 - self.value as u128) % (P as u128)) as u64;
        proof {
            lemma_mod_bound(0 - self.value as int, P as int);
            lemma_mod_add_multiples_vanish(0 - self.value as int, P as int);
        }
        ModInt { value: v }
    }
}

impl<const P: u64> Zero for ModInt<P> {
    open spec fn zero_spec() -> Self {
        ModInt { value: 0 }
    }

    fn zero() -> (r: Self) {
        ModInt { value: 0 }
    }

    proof fn lemma_zero_wf() {
    }
}

impl<const P: u64> Identity for ModInt<P> {
    open spec fn identity_spec() -> Self {
        Self::reduced(1)
    }

    fn identity() -> (r: Self) {
        let r = ModInt { value: 1 % P };
        proof {
            lemma_mod_bound(1, P as int);
        }
        r
    }

    proof fn lemma_identity_wf() {
        lemma_mod_bound(1, P as int);
    }
}

impl<const P: u64> Characteristic for ModInt<P> {
    open spec fn characteristic_spec() -> u64 {
        P
    }

    fn characteristic() -> (r: u64) {
        P
    }
}

impl<const P: u64> ValueEq for ModInt<P> {
    fn eq_val(&self, other: &Self) -> (r: bool) {
        self.value == other.value
    }
}

impl<const P: u64> Inverse for ModInt<P> {
    /// Fermat's little theorem shapes the exponent: the inverse of a
    /// nonzero residue is its (P-2)-th power, so P must be at least 2.
    open spec fn inverse_req(self) -> bool {
        P >= 2
    }

    open spec fn inverse_spec(self) -> Option<Self> {
        if self.value == 0 {
            None
        } else {
            Some(Self::reduced(pow(self.value as int, (P - 2) as nat)))
        }
    }

    fn inverse(self) -> (r: Option<Self>) {
        if self.value == 0 {
            None
        } else {
            Some(self.modpow(P - 2))
        }
    }

    proof fn lemma_inverse_absent_iff_zero(self) {
    }

    proof fn lemma_sub_eq_zero(a: Self, b: Self) {
        let m = P as int;
        let d = a.value as int - b.value as int;
        if a == b {
            lemma_small_mod(0, P as nat);
        } else {
            if d >= 0 {
                lemma_small_mod(d as nat, P as nat);
            } else {
                lemma_mod_add_multiples_vanish(d, m);
                lemma_small_mod((m + d) as nat, P as nat);
            }
        }
    }
}

impl<const P: u64> RingLaws for ModInt<P> {
    proof fn lemma_add_wf(a: Self, b: Self) {
        lemma_mod_bound(a.value as int + b.value as int, P as int);
    }

    proof fn lemma_sub_wf(a: Self, b: Self) {
        lemma_mod_bound(a.value as int - b.value as int, P as int);
    }

    proof fn lemma_mul_wf(a: Self, b: Self) {
        lemma_mod_bound(a.value as int * b.value as int, P as int);
    }

    proof fn lemma_neg_wf(a: Self) {
        lemma_mod_bound(0 - a.value as int, P as int);
    }

    proof fn lemma_add_comm(a: Self, b: Self) {
    }

    proof fn lemma_add_assoc(a: Self, b: Self, c: Self) {
        let m = P as int;
        let x = a.value as int;
        let y = b.value as int;
        let z = c.value as int;
        lemma_mod_bound(x + y, m);
        lemma_mod_bound(y + z, m);
        lemma_small_mod(z as nat, P as nat);
        lemma_small_mod(x as nat, P as nat);
        lemma_add_mod_noop(x + y, z, m);
        lemma_add_mod_noop(x, y + z, m);
    }

    proof fn lemma_add_zero(a: Self) {
        lemma_small_mod(a.value as nat, P as nat);
    }

    proof fn lemma_add_neg(a: Self) {
        let m = P as int;
        let x = a.value as int;
        lemma_add_mod_noop_right(x, 0 - x, m);
        lemma_small_mod(0, P as nat);
    }

    proof fn lemma_neg_add(a: Self, b: Self) {
        let m = P as int;
        let x = a.value as int;
        let y = b.value as int;
        lemma_sub_mod_noop_right(0, x + y, m);
        lemma_add_mod_noop(0 - x, 0 - y, m);
    }

    proof fn lemma_neg_mul(a: Self, b: Self) {
        let m = P as int;
        let x = a.value as int;
        let y = b.value as int;
        lemma_mul_mod_noop_left(0 - x, y, m);
        lemma_mul_is_distributive_sub_other_way(y, 0, x);
        lemma_sub_mod_noop_right(0, x * y, m);
    }

    proof fn lemma_sub_is_add_neg(a: Self, b: Self) {
        let m = P as int;
        let x = a.value as int;
        let y = b.value as int;
        lemma_add_mod_noop_right(x, 0 - y, m);
    }

    proof fn lemma_mul_comm(a: Self, b: Self) {
    }

    proof fn lemma_mul_assoc(a: Self, b: Self, c: Self) {
        let m = P as int;
        let x = a.value as int;
        let y = b.value as int;
        let z = c.value as int;
        lemma_mul_mod_noop_left(x * y, z, m);
        lemma_mul_mod_noop_right(x, y * z, m);
        lemma_mul_is_associative(x, y, z);
    }

    proof fn lemma_mul_distrib(a: Self, b: Self, c: Self) {
        let m = P as int;
        let x = a.value as int;
        let y = b.value as int;
        let z = c.value as int;
        lemma_mul_mod_noop_right(x, y + z, m);
        lemma_mul_is_distributive_add(x, y, z);
        lemma_add_mod_noop(x * y, x * z, m);
    }

    proof fn lemma_mul_zero(a: Self) {
        lemma_small_mod(0, P as nat);
    }

    proof fn lemma_mul_one(a: Self) {
        lemma_mul_mod_noop_left(1, a.value as int, P as int);
        lemma_small_mod(a.value as nat, P as nat);
    }
}

} // verus!
