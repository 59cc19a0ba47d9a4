//! Capability traits for the algebraic tower.
//!
//! A ring element type exposes its operations through `RingOps`, its
//! additive and multiplicative identities through `Zero` and `Identity`,
//! its prime characteristic through `Characteristic`, and multiplicative
//! inversion through `Inverse`.  The trait `RingLaws` collects the
//! commutative-ring laws that the exponentiation proofs rest on; both the
//! prime field and its quadratic extension satisfy all of them.

use vstd::prelude::*;

verus! {

/// Decidable structural equality, usable from generic code.
pub trait ValueEq: Sized {
    fn eq_val(&self, other: &Self) -> (r: bool)
        ensures
            r <==> *self == *other,
    ;
}

impl<A: ValueEq, B: ValueEq> ValueEq for (A, B) {
    fn eq_val(&self, other: &Self) -> (r: bool) {
        self.0.eq_val(&other.0) && self.1.eq_val(&other.1)
    }
}

/// The four ring operations, each with a specification-level counterpart
/// that the executable operation is proved to match.  `valid_ring` says
/// that the type's parameters describe a ring at all (for a residue ring,
/// that the modulus is positive); `wf` says that a value is a canonical
/// representative.
pub trait RingOps: Sized + Copy {
    spec fn valid_ring() -> bool;

    spec fn wf(self) -> bool;

    spec fn add_spec(self, rhs: Self) -> Self;

    spec fn sub_spec(self, rhs: Self) -> Self;

    spec fn mul_spec(self, rhs: Self) -> Self;

    spec fn neg_spec(self) -> Self;

    fn add(self, rhs: Self) -> (r: Self)
        requires
            Self::valid_ring(),
            self.wf(),
            rhs.wf(),
        ensures
            r == self.add_spec(rhs),
            r.wf(),
    ;

    fn sub(self, rhs: Self) -> (r: Self)
        requires
            Self::valid_ring(),
            self.wf(),
            rhs.wf(),
        ensures
            r == self.sub_spec(rhs),
            r.wf(),
    ;

    fn mul(self, rhs: Self) -> (r: Self)
        requires
            Self::valid_ring(),
            self.wf(),
            rhs.wf(),
        ensures
            r == self.mul_spec(rhs),
            r.wf(),
    ;

    fn neg(self) -> (r: Self)
        requires
            Self::valid_ring(),
            self.wf(),
        ensures
            r == self.neg_spec(),
            r.wf(),
    ;
}

/// The additive identity.
pub trait Zero: RingOps {
    spec fn zero_spec() -> Self;

    fn zero() -> (r: Self)
        requires
            Self::valid_ring(),
        ensures
            r == Self::zero_spec(),
            r.wf(),
    ;

    proof fn lemma_zero_wf()
        requires
            Self::valid_ring(),
        ensures
            Self::zero_spec().wf(),
    ;
}

/// The multiplicative identity.
pub trait Identity: RingOps {
    spec fn identity_spec() -> Self;

    fn identity() -> (r: Self)
        requires
            Self::valid_ring(),
        ensures
            r == Self::identity_spec(),
            r.wf(),
    ;

    proof fn lemma_identity_wf()
        requires
            Self::valid_ring(),
        ensures
            Self::identity_spec().wf(),
    ;
}

/// The prime characteristic of the ring, as an unsigned integer.  For a
/// quadratic extension it equals the characteristic of the base ring.
pub trait Characteristic: Sized {
    spec fn characteristic_spec() -> u64;

    fn characteristic() -> (r: u64)
        ensures
            r == Self::characteristic_spec(),
    ;
}

/// Multiplicative inversion.  The inverse is absent exactly on the
/// additive identity; `lemma_sub_eq_zero` records that a difference of
/// canonical representatives vanishes only on equal values, which is what
/// lets callers invert the difference of two distinct values.
pub trait Inverse: RingOps + Zero {
    /// Machine-size side conditions under which inversion may be asked for
    /// (for the quadratic extension, that the characteristic fits in 32 bits,
    /// so that its square fits in the exponent word).
    spec fn inverse_req(self) -> bool;

    spec fn inverse_spec(self) -> Option<Self>;

    fn inverse(self) -> (r: Option<Self>)
        requires
            Self::valid_ring(),
            self.wf(),
            self.inverse_req(),
        ensures
            r == self.inverse_spec(),
            r matches Some(v) ==> v.wf(),
    ;

    proof fn lemma_inverse_absent_iff_zero(self)
        requires
            Self::valid_ring(),
            self.wf(),
        ensures
            (self.inverse_spec() is None) <==> self == Self::zero_spec(),
    ;

    proof fn lemma_sub_eq_zero(a: Self, b: Self)
        requires
            Self::valid_ring(),
            a.wf(),
            b.wf(),
        ensures
            (a.sub_spec(b) == Self::zero_spec()) <==> a == b,
    ;
}

/// The commutative-ring laws, stated over the specification-level
/// operations on canonical representatives.
pub trait RingLaws: RingOps + Zero + Identity {
    proof fn lemma_add_wf(a: Self, b: Self)
        requires
            Self::valid_ring(),
            a.wf(),
            b.wf(),
        ensures
            a.add_spec(b).wf(),
    ;

    proof fn lemma_sub_wf(a: Self, b: Self)
        requires
            Self::valid_ring(),
            a.wf(),
            b.wf(),
        ensures
            a.sub_spec(b).wf(),
    ;

    proof fn lemma_mul_wf(a: Self, b: Self)
        requires
            Self::valid_ring(),
            a.wf(),
            b.wf(),
        ensures
            a.mul_spec(b).wf(),
    ;

    proof fn lemma_neg_wf(a: Self)
        requires
            Self::valid_ring(),
            a.wf(),
        ensures
            a.neg_spec().wf(),
    ;

    proof fn lemma_add_comm(a: Self, b: Self)
        requires
            Self::valid_ring(),
            a.wf(),
            b.wf(),
        ensures
            a.add_spec(b) == b.add_spec(a),
    ;

    proof fn lemma_add_assoc(a: Self, b: Self, c: Self)
        requires
            Self::valid_ring(),
            a.wf(),
            b.wf(),
            c.wf(),
        ensures
            a.add_spec(b).add_spec(c) == a.add_spec(b.add_spec(c)),
    ;

    proof fn lemma_add_zero(a: Self)
        requires
            Self::valid_ring(),
            a.wf(),
        ensures
            a.add_spec(Self::zero_spec()) == a,
    ;

    proof fn lemma_add_neg(a: Self)
        requires
            Self::valid_ring(),
            a.wf(),
        ensures
            a.add_spec(a.neg_spec()) == Self::zero_spec(),
    ;

    proof fn lemma_neg_add(a: Self, b: Self)
        requires
            Self::valid_ring(),
            a.wf(),
            b.wf(),
        ensures
            a.add_spec(b).neg_spec() == a.neg_spec().add_spec(b.neg_spec()),
    ;

    proof fn lemma_neg_mul(a: Self, b: Self)
        requires
            Self::valid_ring(),
            a.wf(),
            b.wf(),
        ensures
            a.neg_spec().mul_spec(b) == a.mul_spec(b).neg_spec(),
    ;

    proof fn lemma_sub_is_add_neg(a: Self, b: Self)
        requires
            Self::valid_ring(),
            a.wf(),
            b.wf(),
        ensures
            a.sub_spec(b) == a.add_spec(b.neg_spec()),
    ;

    proof fn lemma_mul_comm(a: Self, b: Self)
        requires
            Self::valid_ring(),
            a.wf(),
            b.wf(),
        ensures
            a.mul_spec(b) == b.mul_spec(a),
    ;

    proof fn lemma_mul_assoc(a: Self, b: Self, c: Self)
        requires
            Self::valid_ring(),
            a.wf(),
            b.wf(),
            c.wf(),
        ensures
            a.mul_spec(b).mul_spec(c) == a.mul_spec(b.mul_spec(c)),
    ;

    proof fn lemma_mul_distrib(a: Self, b: Self, c: Self)
        requires
            Self::valid_ring(),
            a.wf(),
            b.wf(),
            c.wf(),
        ensures
            a.mul_spec(b.add_spec(c)) == a.mul_spec(b).add_spec(a.mul_spec(c)),
    ;

    proof fn lemma_mul_zero(a: Self)
        requires
            Self::valid_ring(),
            a.wf(),
        ensures
            Self::zero_spec().mul_spec(a) == Self::zero_spec(),
    ;

    proof fn lemma_mul_one(a: Self)
        requires
            Self::valid_ring(),
            a.wf(),
        ensures
            Self::identity_spec().mul_spec(a) == a,
    ;
}

/// The additive identity is its own negative.
pub proof fn lemma_neg_zero<T: RingLaws>()
    requires
        T::valid_ring(),
    ensures
        T::zero_spec().neg_spec() == T::zero_spec(),
{
    let z = T::zero_spec();
    T::lemma_zero_wf();
    T::lemma_neg_wf(z);
    T::lemma_add_neg(z);
    T::lemma_add_comm(z, z.neg_spec());
    T::lemma_add_zero(z.neg_spec());
}

/// Multiplying by the identity on the right leaves a value unchanged.
pub proof fn lemma_one_mul_r<T: RingLaws>(a: T)
    requires
        T::valid_ring(),
        a.wf(),
    ensures
        a.mul_spec(T::identity_spec()) == a,
{
    T::lemma_identity_wf();
    T::lemma_mul_comm(a, T::identity_spec());
    T::lemma_mul_one(a);
}

/// A value minus zero is itself.
pub proof fn lemma_sub_zero<T: RingLaws>(a: T)
    requires
        T::valid_ring(),
        a.wf(),
    ensures
        a.sub_spec(T::zero_spec()) == a,
{
    T::lemma_zero_wf();
    T::lemma_sub_is_add_neg(a, T::zero_spec());
    lemma_neg_zero::<T>();
    T::lemma_add_zero(a);
}

/// The n-th power of x: the multiplicative identity for n = 0, and
/// otherwise x^(n-1) * x.
pub open spec fn pow_spec<T: RingOps + Identity>(x: T, n: nat) -> T
    decreases n,
{
    if n == 0 {
        T::identity_spec()
    } else {
        pow_spec(x, (n - 1) as nat).mul_spec(x)
    }
}

/// Powers of well-formed elements are well formed.
pub proof fn lemma_pow_wf<T: RingLaws>(x: T, n: nat)
    requires
        T::valid_ring(),
        x.wf(),
    ensures
        pow_spec(x, n).wf(),
    decreases n,
{
    if n == 0 {
        T::lemma_identity_wf();
    } else {
        lemma_pow_wf(x, (n - 1) as nat);
        T::lemma_mul_wf(pow_spec(x, (n - 1) as nat), x);
    }
}

/// Powers of a square: (x*x)^k == x^(2k).
pub proof fn lemma_pow_square<T: RingLaws>(x: T, k: nat)
    requires
        T::valid_ring(),
        x.wf(),
    ensures
        pow_spec(x.mul_spec(x), k) == pow_spec(x, 2 * k),
    decreases k,
{
    let sq = x.mul_spec(x);
    T::lemma_mul_wf(x, x);
    if k == 0 {
    } else {
        lemma_pow_square(x, (k - 1) as nat);
        let p0 = pow_spec(x, (2 * k - 2) as nat);
        lemma_pow_wf(x, (2 * k - 2) as nat);
        assert(pow_spec(sq, k) == pow_spec(sq, (k - 1) as nat).mul_spec(sq));
        assert(pow_spec(x, 2 * k) == pow_spec(x, (2 * k - 1) as nat).mul_spec(x));
        assert(pow_spec(x, (2 * k - 1) as nat) == p0.mul_spec(x));
        T::lemma_mul_assoc(p0, x, x);
    }
}

/// The element 2, built as identity + identity; the coefficient type has
/// no integer-literal conversion.
pub open spec fn spec_two<T: RingOps + Identity>() -> T {
    T::identity_spec().add_spec(T::identity_spec())
}

/// The element 3, built as identity + identity + identity.
pub open spec fn spec_three<T: RingOps + Identity>() -> T {
    spec_two::<T>().add_spec(T::identity_spec())
}

/// Right distributivity, derived from left distributivity and
/// commutativity of multiplication.
pub proof fn lemma_distrib_r<T: RingLaws>(u: T, v: T, w: T)
    requires
        T::valid_ring(),
        u.wf(),
        v.wf(),
        w.wf(),
    ensures
        u.add_spec(v).mul_spec(w) == u.mul_spec(w).add_spec(v.mul_spec(w)),
{
    T::lemma_add_wf(u, v);
    T::lemma_mul_comm(u.add_spec(v), w);
    T::lemma_mul_distrib(w, u, v);
    T::lemma_mul_comm(w, u);
    T::lemma_mul_comm(w, v);
}

/// Left distributivity of multiplication over subtraction.
pub proof fn lemma_distrib_sub_l<T: RingLaws>(w: T, u: T, v: T)
    requires
        T::valid_ring(),
        w.wf(),
        u.wf(),
        v.wf(),
    ensures
        w.mul_spec(u.sub_spec(v)) == w.mul_spec(u).sub_spec(w.mul_spec(v)),
{
    T::lemma_sub_is_add_neg(u, v);
    T::lemma_neg_wf(v);
    T::lemma_mul_distrib(w, u, v.neg_spec());
    T::lemma_mul_comm(w, v.neg_spec());
    T::lemma_neg_mul(v, w);
    T::lemma_mul_comm(v, w);
    T::lemma_mul_wf(w, u);
    T::lemma_mul_wf(w, v);
    T::lemma_sub_is_add_neg(w.mul_spec(u), w.mul_spec(v));
}

/// Right distributivity of multiplication over subtraction.
pub proof fn lemma_distrib_sub_r<T: RingLaws>(u: T, v: T, w: T)
    requires
        T::valid_ring(),
        u.wf(),
        v.wf(),
        w.wf(),
    ensures
        u.sub_spec(v).mul_spec(w) == u.mul_spec(w).sub_spec(v.mul_spec(w)),
{
    T::lemma_sub_wf(u, v);
    T::lemma_mul_comm(u.sub_spec(v), w);
    lemma_distrib_sub_l(w, u, v);
    T::lemma_mul_comm(w, u);
    T::lemma_mul_comm(w, v);
}

/// Regrouping of a four-term sum: (p+q)+(r+s) == (p+s)+(q+r).
pub proof fn lemma_add_regroup_outer<T: RingLaws>(p: T, q: T, r: T, s: T)
    requires
        T::valid_ring(),
        p.wf(),
        q.wf(),
        r.wf(),
        s.wf(),
    ensures
        p.add_spec(q).add_spec(r.add_spec(s)) == p.add_spec(s).add_spec(q.add_spec(r)),
{
    T::lemma_add_wf(r, s);
    T::lemma_add_wf(q, r);
    T::lemma_add_wf(q.add_spec(r), s);
    T::lemma_add_assoc(p, q, r.add_spec(s));
    T::lemma_add_assoc(q, r, s);
    T::lemma_add_comm(q.add_spec(r), s);
    T::lemma_add_assoc(p, s, q.add_spec(r));
}

/// Regrouping of a four-term sum: (p+q)+(r+s) == (p+r)+(q+s).
pub proof fn lemma_add_regroup_inner<T: RingLaws>(p: T, q: T, r: T, s: T)
    requires
        T::valid_ring(),
        p.wf(),
        q.wf(),
        r.wf(),
        s.wf(),
    ensures
        p.add_spec(q).add_spec(r.add_spec(s)) == p.add_spec(r).add_spec(q.add_spec(s)),
{
    T::lemma_add_wf(r, s);
    T::lemma_add_wf(q, s);
    T::lemma_add_wf(q.add_spec(s), r);
    T::lemma_add_assoc(p, q, r.add_spec(s));
    T::lemma_add_comm(r, s);
    T::lemma_add_assoc(q, s, r);
    T::lemma_add_comm(q.add_spec(s), r);
    T::lemma_add_assoc(p, r, q.add_spec(s));
}

/// Shuffle of a mixed difference: (w-x)-(y+z) == (w-z)-(x+y).
pub proof fn lemma_shuffle_sub_sub<T: RingLaws>(w: T, x: T, y: T, z: T)
    requires
        T::valid_ring(),
        w.wf(),
        x.wf(),
        y.wf(),
        z.wf(),
    ensures
        w.sub_spec(x).sub_spec(y.add_spec(z)) == w.sub_spec(z).sub_spec(x.add_spec(y)),
{
    let nx = x.neg_spec();
    let ny = y.neg_spec();
    let nz = z.neg_spec();
    T::lemma_neg_wf(x);
    T::lemma_neg_wf(y);
    T::lemma_neg_wf(z);
    T::lemma_add_wf(y, z);
    T::lemma_add_wf(x, y);
    T::lemma_sub_is_add_neg(w, x);
    T::lemma_add_wf(w, nx);
    T::lemma_sub_is_add_neg(w.add_spec(nx), y.add_spec(z));
    T::lemma_neg_add(y, z);
    // left side is now (w + nx) + (ny + nz)
    lemma_add_regroup_outer(w, nx, ny, nz);
    // which equals (w + nz) + (nx + ny)
    T::lemma_sub_is_add_neg(w, z);
    T::lemma_add_wf(w, nz);
    T::lemma_sub_is_add_neg(w.add_spec(nz), x.add_spec(y));
    T::lemma_neg_add(x, y);
}

/// Shuffle of a mixed sum: (w+x)+(y-z) == (w-z)+(x+y).
pub proof fn lemma_shuffle_add_sub<T: RingLaws>(w: T, x: T, y: T, z: T)
    requires
        T::valid_ring(),
        w.wf(),
        x.wf(),
        y.wf(),
        z.wf(),
    ensures
        w.add_spec(x).add_spec(y.sub_spec(z)) == w.sub_spec(z).add_spec(x.add_spec(y)),
{
    let nz = z.neg_spec();
    T::lemma_neg_wf(z);
    T::lemma_sub_is_add_neg(y, z);
    // left side is now (w + x) + (y + nz)
    lemma_add_regroup_outer(w, x, y, nz);
    // which equals (w + nz) + (x + y)
    T::lemma_sub_is_add_neg(w, z);
}

/// Shuffle of a difference of sums: (w+x)-(y+z) == (w-y)+(x-z).
pub proof fn lemma_shuffle_sub_add<T: RingLaws>(w: T, x: T, y: T, z: T)
    requires
        T::valid_ring(),
        w.wf(),
        x.wf(),
        y.wf(),
        z.wf(),
    ensures
        w.add_spec(x).sub_spec(y.add_spec(z)) == w.sub_spec(y).add_spec(x.sub_spec(z)),
{
    let ny = y.neg_spec();
    let nz = z.neg_spec();
    T::lemma_neg_wf(y);
    T::lemma_neg_wf(z);
    T::lemma_add_wf(y, z);
    T::lemma_add_wf(w, x);
    T::lemma_sub_is_add_neg(w.add_spec(x), y.add_spec(z));
    T::lemma_neg_add(y, z);
    // left side is now (w + x) + (ny + nz)
    lemma_add_regroup_inner(w, x, ny, nz);
    // which equals (w + ny) + (x + nz)
    T::lemma_sub_is_add_neg(w, y);
    T::lemma_sub_is_add_neg(x, z);
}

} // verus!
