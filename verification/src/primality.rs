//! Trial-division primality test for the modulus.  The extension field
//! construction asks for a prime modulus; this check lets a caller test
//! a candidate before using it.

use vstd::prelude::*;
use vstd::arithmetic::div_mod::lemma_fundamental_div_mod;
use vstd::arithmetic::div_mod::lemma_mod_multiples_basic;
use vstd::arithmetic::div_mod::lemma_div_pos_is_pos;
use vstd::arithmetic::mul::lemma_mul_inequality;
use vstd::arithmetic::mul::lemma_mul_is_associative;
use vstd::arithmetic::mul::lemma_mul_is_commutative;
use vstd::arithmetic::mul::lemma_mul_strict_inequality;
use vstd::arithmetic::mul::lemma_mul_is_distributive_add_other_way;
use vstd::arithmetic::mul::lemma_mul_basics;

verus! {

/// Whether d divides n evenly.
pub open spec fn divides(d: u64, n: u64) -> bool {
    n as int % d as int == 0
}

/// The cofactor of a divisor d of n.
pub open spec fn cofactor_of(d: u64, n: u64) -> u64 {
    ((n as int / d as int) as u64)
}

/// n is prime: at least 2, and no d in [2, n) divides it.
pub open spec fn is_prime_spec(n: u64) -> bool {
    2 <= n && forall|d: u64| 2 <= d < n ==> !(#[trigger] divides(d, n))
}

/// If d divides n and d is even, then n is even.
proof fn lemma_even_divisor(d: u64, n: u64)
    requires
        2 <= d,
        d % 2 == 0,
        divides(d, n),
    ensures
        n % 2 == 0,
{
    let dd = d as int;
    let nn = n as int;
    lemma_fundamental_div_mod(nn, dd);
    lemma_fundamental_div_mod(dd, 2);
    assert(nn == (2 * (dd / 2)) * (nn / dd));
    lemma_mul_is_associative(2, dd / 2, nn / dd);
    lemma_mod_multiples_basic((dd / 2) * (nn / dd), 2);
    assert(((dd / 2) * (nn / dd)) * 2 == 2 * ((dd / 2) * (nn / dd))) by {
        lemma_mul_is_commutative((dd / 2) * (nn / dd), 2);
    }
}

/// If some d in [2, n) divides n, then so does its cofactor n/d, and one
/// of the two is at most the square root of n.
proof fn lemma_cofactor(d: u64, n: u64, bound: u64)
    requires
        2 <= d < n,
        divides(d, n),
        bound as int * bound as int > n,
        d >= bound,
    ensures
        2 <= cofactor_of(d, n),
        cofactor_of(d, n) < bound,
        divides(cofactor_of(d, n), n),
{
    let dd = d as int;
    let nn = n as int;
    let k = nn / dd;
    lemma_fundamental_div_mod(nn, dd);
    lemma_div_pos_is_pos(nn, dd);
    assert(nn == dd * k);
    assert(k != 0) by {
        if k == 0 {
            assert(nn == dd * 0);
        }
    }
    assert(k != 1) by {
        if k == 1 {
            assert(nn == dd * 1);
        }
    }
    assert(k < bound) by {
        if k >= bound {
            lemma_mul_inequality(bound as int, k, dd);
            lemma_mul_inequality(bound as int, dd, bound as int);
            assert(dd * k >= bound as int * bound as int) by {
                lemma_mul_inequality(bound as int, dd, k);
                lemma_mul_inequality(bound as int, k, bound as int);
                lemma_mul_is_commutative(k, bound as int);
                lemma_mul_is_commutative(dd, k);
            }
        }
    }
    assert(k < nn);
    lemma_mod_multiples_basic(dd, k);
    assert(dd * k == k * dd) by {
        lemma_mul_is_commutative(dd, k);
    }
    assert(nn % k == 0);
}

/// Primality by trial division: 2 is prime, even numbers and 0 and 1 are
/// not, and an odd candidate is divided by every odd number up to and
/// including the first whose square reaches it.
pub fn is_prime(n: u64) -> (r: bool)
    ensures
        r == is_prime_spec(n),
{
    if n == 2 {
        return true;
    }
    if n % 2 == 0 {
        proof {
            if n >= 2 {
                assert(divides(2, n));
            }
        }
        return false;
    }
    if n == 1 {
        return false;
    }
    let mut d: u64 = 3;
    while d <= n / d
        invariant
            3 <= n,
            n % 2 == 1,
            3 <= d,
            d <= n,
            d % 2 == 1,
            forall|e: u64| 2 <= e < d ==> !(#[trigger] divides(e, n)),
        decreases n - d,
    {
        proof {
            lemma_fundamental_div_mod(n as int, d as int);
            assert(d as int * d as int <= n) by {
                lemma_mul_inequality(d as int, n as int / d as int, d as int);
                lemma_mul_is_commutative(n as int / d as int, d as int);
            }
            assert(d < n) by {
                lemma_mul_strict_inequality(1, d as int, d as int);
            }
        }
        if n % d == 0 {
            proof {
                assert(divides(d, n));
            }
            return false;
        }
        proof {
            if divides((d + 1) as u64, n) {
                lemma_even_divisor((d + 1) as u64, n);
            }
            assert(d + 2 <= n) by {
                if d + 1 == n {
                    assert(n % 2 == 0) by {
                        lemma_fundamental_div_mod(n as int, 2);
                    }
                }
                lemma_mul_strict_inequality(1, d as int, d as int);
            }
        }
        d = d + 2;
    }
    proof {
        lemma_fundamental_div_mod(n as int, d as int);
        assert(d as int * d as int > n) by {
            lemma_mul_inequality(n as int / d as int + 1, d as int, d as int);
            lemma_mul_is_distributive_add_other_way(d as int, n as int / d as int, 1);
            lemma_mul_basics(d as int);
        }
        assert forall|e: u64| 2 <= e < n implies !divides(e, n) by {
            if divides(e, n) {
                if e < d {
                } else {
                    lemma_cofactor(e, n, d);
                    assert(!divides(cofactor_of(e, n), n));
                }
            }
        }
    }
    true
}

} // verus!
