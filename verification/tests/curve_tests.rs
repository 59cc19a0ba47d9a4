use fp2_elliptic::algebra::Identity;
use fp2_elliptic::algebra::RingOps;
use fp2_elliptic::algebra::Zero;
use fp2_elliptic::complexification::Complex;
use fp2_elliptic::modint::ModInt;
use fp2_elliptic::polynomial::Polynomial;
use fp2_elliptic::primality::is_prime;
use fp2_elliptic::rational_point::RationalPoint;
use fp2_elliptic::solution_set::solve_equation;
use fp2_elliptic::solution_set::SolutionSet;

const P: u64 = 7;

type El = Complex<ModInt<P>>;

fn el(re: u64, im: u64) -> El {
    Complex::new(ModInt::<P>::new(re), ModInt::<P>::new(im))
}

/// The two sides of y^2 = x^3 + a*x + b as polynomials: f(x) on the right,
/// g(y) on the left, with a = b = 1.
fn curve_polys() -> (Polynomial<El>, Polynomial<El>) {
    let b: u64 = 1;
    let a: u64 = 1;
    let v: Vec<El> = vec![
        el(b, 0),
        el(a, 0),
        Complex::<ModInt<P>>::zero(),
        Complex::<ModInt<P>>::identity(),
    ];
    let f = Polynomial::new(&v);
    let w: Vec<El> = vec![
        Complex::<ModInt<P>>::zero(),
        Complex::<ModInt<P>>::zero(),
        Complex::<ModInt<P>>::identity(),
    ];
    let g = Polynomial::new(&w);
    (f, g)
}

#[test]
fn zero_polynomial_evaluates_to_zero() {
    let zeros: Vec<El> = vec![Complex::<ModInt<P>>::zero(); 4];
    let f = Polynomial::new(&zeros);
    for r in 0..P {
        for i in 0..P {
            assert_eq!(f.evaluate(el(r, i)), Complex::<ModInt<P>>::zero());
        }
    }
}

#[test]
fn polynomial_evaluation_exact() {
    // f(x) = 1 + 2x + x^3 at x = 2: 1 + 4 + 8 = 13 = 6 (mod 7)
    let v: Vec<El> = vec![el(1, 0), el(2, 0), el(0, 0), el(1, 0)];
    let f = Polynomial::new(&v);
    assert_eq!(f.evaluate(el(2, 0)), el(6, 0));
    // and at x = i: 1 + 2i - i = 1 + i
    assert_eq!(f.evaluate(el(0, 1)), el(1, 1));
}

#[test]
fn solution_set_members_satisfy_curve() {
    let (f, g) = curve_polys();
    let set = solve_equation(&f, &g);
    let a = el(1, 0);
    let b = el(1, 0);
    for (x, y) in set.unwrap().iter() {
        // y^2 == x^3 + a*x + b, re-evaluated directly
        let lhs = y.mul(*y);
        let rhs = x.mul(*x).mul(*x).add(a.mul(*x)).add(b);
        assert_eq!(lhs, rhs);
    }
    // a known point of the curve: (0, 1), since 1 = 0 + 0 + 1
    assert!(set.contains(&(el(0, 0), el(1, 0))));
    // and a pair that is no solution: 2^2 = 4 but f(0) = 1
    assert!(!set.contains(&(el(0, 0), el(2, 0))));
}

#[test]
fn enumerator_size_matches_brute_force() {
    let (f, g) = curve_polys();
    let set = solve_equation(&f, &g);
    let mut count: usize = 0;
    for xr in 0..P {
        for xi in 0..P {
            for yr in 0..P {
                for yi in 0..P {
                    if f.evaluate(el(xr, xi)) == g.evaluate(el(yr, yi)) {
                        count += 1;
                    }
                }
            }
        }
    }
    assert_eq!(set.size(), count);
}

#[test]
fn group_law_identity_and_inverse() {
    let (f, g) = curve_polys();
    let set = solve_equation(&f, &g);
    let a = el(1, 0);
    for (x, y) in set.unwrap().iter() {
        let p = RationalPoint::new(*x, *y);
        // P + O == P and O + P == P
        assert_eq!(p.add_rational_points(&RationalPoint::O, a), p);
        assert_eq!(RationalPoint::O.add_rational_points(&p, a), p);
        // P + (-P) == O, whenever y is not its own negative
        let n = p.negate();
        if *y != y.neg() {
            assert_eq!(p.add_rational_points(&n, a), RationalPoint::O);
        }
    }
}

#[test]
fn group_law_doubling_and_chord() {
    let a = el(1, 0);
    // on y^2 = x^3 + x + 1 over F_7: (0,1) doubles to (2,5)
    let p = RationalPoint::new(el(0, 0), el(1, 0));
    let d = p.add_rational_points(&p, a);
    assert_eq!(d, RationalPoint::new(el(2, 0), el(5, 0)));
    // and the chord through (0,1) and (2,5) gives (2,2)
    let q = p.add_rational_points(&d, a);
    assert_eq!(q, RationalPoint::new(el(2, 0), el(2, 0)));
}

#[test]
fn solution_set_accessors() {
    let v: Vec<(El, El)> = vec![(el(0, 0), el(1, 0)), (el(1, 2), el(3, 4))];
    let set = SolutionSet::new(v);
    assert_eq!(set.size(), 2);
    assert!(set.contains(&(el(1, 2), el(3, 4))));
    assert!(!set.contains(&(el(1, 2), el(3, 5))));
    assert_eq!(set.unwrap().len(), 2);
}

#[test]
fn primality_check() {
    assert!(is_prime(2));
    assert!(is_prime(7));
    assert!(is_prime(13));
    assert!(!is_prime(0));
    assert!(!is_prime(1));
    assert!(!is_prime(9));
    assert!(!is_prime(49));
    assert!(!is_prime(91));
    assert!(is_prime(104729));
}
