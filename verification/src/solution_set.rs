//! Exhaustive solution sets of f(x) = g(y) over the quadratic extension
//! field: a duplicate-free collection of pairs, and the brute-force
//! enumerator that walks every pair of field elements.

use vstd::prelude::*;
use crate::algebra::RingOps;
use crate::algebra::ValueEq;
use crate::complexification::Complex;
use crate::modint::ModInt;
use crate::algebra::Identity;
use crate::algebra::Zero;
use crate::polynomial::eval_spec;
use crate::polynomial::lemma_eval_cubic;
use crate::polynomial::lemma_eval_square;
use crate::polynomial::Polynomial;

verus! {

/// A set of solutions, held as a duplicate-free list of pairs.
#[derive(Clone, Debug)]
pub struct SolutionSet<T> {
    pub elements: Vec<T>,
}

impl<T: ValueEq + Copy> SolutionSet<T> {
    /// The list never holds the same element twice, so its length is the
    /// cardinality of the set it stands for.
    pub open spec fn wf(self) -> bool {
        self.elements@.no_duplicates()
    }

    /// Wraps an already duplicate-free collection of solutions.
    pub fn new(elements: Vec<T>) -> (r: Self)
        requires
            elements@.no_duplicates(),
        ensures
            r.elements@ == elements@,
            r.wf(),
    {
        SolutionSet { elements }
    }

    /// The number of solutions.
    pub fn size(&self) -> (r: usize)
        ensures
            r == self.elements@.len(),
            self.wf() ==> r == self.elements@.to_set().len(),
    {
        proof {
            if self.wf() {
                self.elements@.unique_seq_to_set();
            }
        }
        self.elements.len()
    }

    /// Whether the given pair is among the solutions.
    pub fn contains(&self, x: &T) -> (r: bool)
        ensures
            r <==> self.elements@.contains(*x),
    {
        let mut i: usize = 0;
        while i < self.elements.len()
            invariant
                i <= self.elements.len(),
                forall|j: int| 0 <= j < i ==> self.elements@[j] != *x,
            decreases self.elements.len() - i,
        {
            if self.elements[i].eq_val(x) {
                proof {
                    assert(self.elements@[i as int] == *x);
                }
                return true;
            }
            i = i + 1;
        }
        false
    }

    /// Read access to the full collection, for iteration.
    pub fn unwrap(&self) -> (r: &Vec<T>)
        ensures
            r@ == self.elements@,
    {
        &self.elements
    }
}

/// Whether the pair (x, y) solves f(x) = g(y), for canonical x and y.
pub open spec fn is_solution<const P: u64>(
    f: Seq<Complex<ModInt<P>>>,
    g: Seq<Complex<ModInt<P>>>,
    pr: (Complex<ModInt<P>>, Complex<ModInt<P>>),
) -> bool {
    pr.0.wf() && pr.1.wf() && eval_spec(f, pr.0) == eval_spec(g, pr.1)
}

/// Whether the pair lies strictly before the position (ir, ii, jr, ji) in
/// the enumeration order of the brute-force search: x-real, then
/// x-imaginary, then y-real, then y-imaginary.
pub open spec fn enumerated_before<const P: u64>(
    pr: (Complex<ModInt<P>>, Complex<ModInt<P>>),
    ir: int,
    ii: int,
    jr: int,
    ji: int,
) -> bool {
    let xr = pr.0.real.value as int;
    let xi = pr.0.imaginary.value as int;
    let yr = pr.1.real.value as int;
    let yi = pr.1.imaginary.value as int;
    ||| xr < ir
    ||| (xr == ir && xi < ii)
    ||| (xr == ir && xi == ii && yr < jr)
    ||| (xr == ir && xi == ii && yr == jr && yi < ji)
}

/// Exhaustively enumerates the solutions of f(x) = g(y): every pair of
/// field elements (p^2 candidates for x times p^2 for y) is tried, and
/// exactly the solutions are collected, each once.
pub fn solve_equation<const P: u64>(
    f: &Polynomial<Complex<ModInt<P>>>,
    g: &Polynomial<Complex<ModInt<P>>>,
) -> (r: SolutionSet<(Complex<ModInt<P>>, Complex<ModInt<P>>)>)
    requires
        P >= 1,
        f.wf(),
        g.wf(),
    ensures
        r.wf(),
        forall|pr: (Complex<ModInt<P>>, Complex<ModInt<P>>)|
            r.elements@.contains(pr) <==> is_solution(f.coefficients@, g.coefficients@, pr),
{
    let ghost fs = f.coefficients@;
    let ghost gs = g.coefficients@;
    let mut s: Vec<(Complex<ModInt<P>>, Complex<ModInt<P>>)> = Vec::new();
    let mut ir: u64 = 0;
    while ir < P
        invariant
            P >= 1,
            f.wf(),
            g.wf(),
            fs == f.coefficients@,
            gs == g.coefficients@,
            ir <= P,
            s@.no_duplicates(),
            forall|pr: (Complex<ModInt<P>>, Complex<ModInt<P>>)|
                #![trigger s@.contains(pr)]
                s@.contains(pr) <==> (is_solution(fs, gs, pr) && enumerated_before(
                pr,
                ir as int,
                0,
                0,
                0,
            )),
        decreases P - ir,
    {
        let mut ii: u64 = 0;
        while ii < P
            invariant
                P >= 1,
                f.wf(),
                g.wf(),
                fs == f.coefficients@,
                gs == g.coefficients@,
                ir < P,
                ii <= P,
                s@.no_duplicates(),
                forall|pr: (Complex<ModInt<P>>, Complex<ModInt<P>>)|
                    #![trigger s@.contains(pr)]
                    s@.contains(pr) <==> (is_solution(fs, gs, pr) && enumerated_before(
                    pr,
                    ir as int,
                    ii as int,
                    0,
                    0,
                )),
            decreases P - ii,
        {
            let x = Complex::new(ModInt::<P>::new(ir), ModInt::<P>::new(ii));
            proof {
                vstd::arithmetic::div_mod::lemma_small_mod(ir as nat, P as nat);
                vstd::arithmetic::div_mod::lemma_small_mod(ii as nat, P as nat);
            }
            let fx = f.evaluate(x);
            let mut jr: u64 = 0;
            while jr < P
                invariant
                    P >= 1,
                    f.wf(),
                    g.wf(),
                    fs == f.coefficients@,
                    gs == g.coefficients@,
                    ir < P,
                    ii < P,
                    jr <= P,
                    x.real.value == ir,
                    x.imaginary.value == ii,
                    x.wf(),
                    fx == eval_spec(fs, x),
                    s@.no_duplicates(),
                    forall|pr: (Complex<ModInt<P>>, Complex<ModInt<P>>)|
                        #![trigger s@.contains(pr)]
                        s@.contains(pr) <==> (is_solution(fs, gs, pr) && enumerated_before(
                        pr,
                        ir as int,
                        ii as int,
                        jr as int,
                        0,
                    )),
                decreases P - jr,
            {
                let mut ji: u64 = 0;
                while ji < P
                    invariant
                        P >= 1,
                        f.wf(),
                        g.wf(),
                        fs == f.coefficients@,
                        gs == g.coefficients@,
                        ir < P,
                        ii < P,
                        jr < P,
                        ji <= P,
                        x.real.value == ir,
                        x.imaginary.value == ii,
                        x.wf(),
                        fx == eval_spec(fs, x),
                        s@.no_duplicates(),
                        forall|pr: (Complex<ModInt<P>>, Complex<ModInt<P>>)|
                            #![trigger s@.contains(pr)]
                            s@.contains(pr) <==> (is_solution(fs, gs, pr) && enumerated_before(
                            pr,
                            ir as int,
                            ii as int,
                            jr as int,
                            ji as int,
                        )),
                    decreases P - ji,
                {
                    let y = Complex::new(ModInt::<P>::new(jr), ModInt::<P>::new(ji));
                    proof {
                        vstd::arithmetic::div_mod::lemma_small_mod(jr as nat, P as nat);
                        vstd::arithmetic::div_mod::lemma_small_mod(ji as nat, P as nat);
                    }
                    let gy = g.evaluate(y);
                    proof {
                        assert(y.real.value == jr);
                        assert(y.imaginary.value == ji);
                        assert(!enumerated_before(
                            (x, y),
                            ir as int,
                            ii as int,
                            jr as int,
                            ji as int,
                        ));
                        assert forall|pr: (Complex<ModInt<P>>, Complex<ModInt<P>>)|
                            enumerated_before(pr, ir as int, ii as int, jr as int, ji as int + 1)
                            && !enumerated_before(
                            pr,
                            ir as int,
                            ii as int,
                            jr as int,
                            ji as int,
                        ) implies pr == (x, y) by {
                            assert(pr.0.real == x.real);
                            assert(pr.0.imaginary == x.imaginary);
                            assert(pr.1.real == y.real);
                            assert(pr.1.imaginary == y.imaginary);
                            assert(pr.0 == x);
                            assert(pr.1 == y);
                        }
                    }
                    if fx.eq_val(&gy) {
                        let ghost old_s = s@;
                        proof {
                            assert(!old_s.contains((x, y)));
                            assert(is_solution(fs, gs, (x, y)));
                        }
                        s.push((x, y));
                        proof {
                            assert(s@ == old_s.push((x, y)));
                            assert forall|pr: (Complex<ModInt<P>>, Complex<ModInt<P>>)|
                                #![trigger s@.contains(pr)]
                                s@.contains(pr) <==> (is_solution(fs, gs, pr)
                                && enumerated_before(
                                pr,
                                ir as int,
                                ii as int,
                                jr as int,
                                ji as int + 1,
                            )) by {
                                if s@.contains(pr) {
                                    let k = choose|k: int| 0 <= k < s@.len() && s@[k] == pr;
                                    if k < old_s.len() {
                                        assert(old_s[k] == pr);
                                        assert(old_s.contains(pr));
                                    } else {
                                        assert(pr == (x, y));
                                    }
                                }
                                if is_solution(fs, gs, pr) && enumerated_before(
                                    pr,
                                    ir as int,
                                    ii as int,
                                    jr as int,
                                    ji as int + 1,
                                ) {
                                    if enumerated_before(
                                        pr,
                                        ir as int,
                                        ii as int,
                                        jr as int,
                                        ji as int,
                                    ) {
                                        assert(old_s.contains(pr));
                                        let k = choose|k: int|
                                            0 <= k < old_s.len() && old_s[k] == pr;
                                        assert(s@[k] == pr);
                                        assert(s@.contains(pr));
                                    } else {
                                        assert(pr == (x, y));
                                        assert(s@[s@.len() - 1] == pr);
                                        assert(s@.contains(pr));
                                    }
                                }
                            }
                            assert forall|k1: int, k2: int|
                                0 <= k1 < s@.len() && 0 <= k2 < s@.len() && k1 != k2 implies s@[k1]
                                != s@[k2] by {
                                if k1 < old_s.len() && k2 < old_s.len() {
                                } else if k1 < old_s.len() {
                                    assert(old_s.contains(old_s[k1]));
                                } else if k2 < old_s.len() {
                                    assert(old_s.contains(old_s[k2]));
                                }
                            }
                            assert(s@.no_duplicates());
                        }
                    } else {
                        proof {
                            assert(!is_solution(fs, gs, (x, y)));
                            assert forall|pr: (Complex<ModInt<P>>, Complex<ModInt<P>>)|
                                #![trigger s@.contains(pr)]
                                s@.contains(pr) <==> (is_solution(fs, gs, pr)
                                && enumerated_before(
                                pr,
                                ir as int,
                                ii as int,
                                jr as int,
                                ji as int + 1,
                            )) by {
                                if is_solution(fs, gs, pr) && enumerated_before(
                                    pr,
                                    ir as int,
                                    ii as int,
                                    jr as int,
                                    ji as int + 1,
                                ) {
                                    assert(enumerated_before(
                                        pr,
                                        ir as int,
                                        ii as int,
                                        jr as int,
                                        ji as int,
                                    ));
                                }
                            }
                        }
                    }
                    ji = ji + 1;
                }
                proof {
                    assert forall|pr: (Complex<ModInt<P>>, Complex<ModInt<P>>)|
                        #![trigger is_solution(fs, gs, pr)]
                        (is_solution(fs, gs, pr) && enumerated_before(
                            pr,
                            ir as int,
                            ii as int,
                            jr as int,
                            P as int,
                        )) <==> (is_solution(fs, gs, pr) && enumerated_before(
                        pr,
                        ir as int,
                        ii as int,
                        jr as int + 1,
                        0,
                    )) by {
                    }
                }
                jr = jr + 1;
            }
            proof {
                assert forall|pr: (Complex<ModInt<P>>, Complex<ModInt<P>>)|
                    #![trigger is_solution(fs, gs, pr)]
                    (is_solution(fs, gs, pr) && enumerated_before(
                        pr,
                        ir as int,
                        ii as int,
                        P as int,
                        0,
                    )) <==> (is_solution(fs, gs, pr) && enumerated_before(
                    pr,
                    ir as int,
                    ii as int + 1,
                    0,
                    0,
                )) by {
                }
            }
            ii = ii + 1;
        }
        proof {
            assert forall|pr: (Complex<ModInt<P>>, Complex<ModInt<P>>)|
                #![trigger is_solution(fs, gs, pr)]
                (is_solution(fs, gs, pr) && enumerated_before(pr, ir as int, P as int, 0, 0))
                <==> (is_solution(fs, gs, pr) && enumerated_before(
                pr,
                ir as int + 1,
                0,
                0,
                0,
            )) by {
            }
        }
        ir = ir + 1;
    }
    proof {
        assert forall|pr: (Complex<ModInt<P>>, Complex<ModInt<P>>)|
            s@.contains(pr) <==> is_solution(fs, gs, pr) by {
            if is_solution(fs, gs, pr) {
                assert(pr.0.real.value < P);
                assert(enumerated_before(pr, P as int, 0, 0, 0));
            }
        }
    }
    SolutionSet::new(s)
}

/// Round trip of the enumeration: a pair that solves f(x) = g(y) for the
/// Weierstrass coefficient sequences f = [b, a, 0, 1] and g = [0, 0, 1]
/// satisfies y*y == x*x*x + a*x + b when re-evaluated directly.  Together
/// with the contract of `solve_equation`, every member of the enumerated
/// solution set lies on the curve.
pub proof fn lemma_solution_on_curve<const P: u64>(
    a: Complex<ModInt<P>>,
    b: Complex<ModInt<P>>,
    pr: (Complex<ModInt<P>>, Complex<ModInt<P>>),
)
    requires
        P >= 1,
        a.wf(),
        b.wf(),
        is_solution(
            seq![
                b,
                a,
                Complex::<ModInt<P>>::zero_spec(),
                Complex::<ModInt<P>>::identity_spec(),
            ],
            seq![
                Complex::<ModInt<P>>::zero_spec(),
                Complex::<ModInt<P>>::zero_spec(),
                Complex::<ModInt<P>>::identity_spec(),
            ],
            pr,
        ),
    ensures
        pr.1.mul_spec(pr.1) == pr.0.mul_spec(pr.0).mul_spec(pr.0).add_spec(a.mul_spec(pr.0)).add_spec(b),
{
    lemma_eval_cubic(b, a, pr.0);
    lemma_eval_square(pr.1);
}

} // verus!
