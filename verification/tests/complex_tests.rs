use fp2_elliptic::algebra::Characteristic;
use fp2_elliptic::algebra::Identity;
use fp2_elliptic::algebra::Inverse;
use fp2_elliptic::algebra::RingOps;
use fp2_elliptic::algebra::Zero;
use fp2_elliptic::complexification::Complex;
use fp2_elliptic::modint::ModInt;

const P: u64 = 7;

#[test]
fn mod_pow_test1() {
    let x = Complex::<ModInt<P>>::new(ModInt::<P>::new(0), ModInt::<P>::new(2));
    let y = Complex::<ModInt<P>>::new(ModInt::<P>::new(P - 4), ModInt::<P>::new(0));
    assert_eq!(x.mul(x), y);
}

#[test]
fn inv_test() {
    for r in 0..P {
        for i in 0..P {
            if i == 0 && r == 0 {
                continue;
            }
            let x = Complex::<ModInt<P>>::new(ModInt::<P>::new(r), ModInt::<P>::new(i));
            println!("r = {}, i = {}", r, i);
            assert_eq!(x.modpow(P * P - 1), Complex::<ModInt<P>>::identity());
        }
    }
}

#[test]
fn modint_arithmetic() {
    let a = ModInt::<P>::new(5);
    let b = ModInt::<P>::new(4);
    assert_eq!(a.add(b), ModInt::<P>::new(2));
    assert_eq!(a.sub(b), ModInt::<P>::new(1));
    assert_eq!(b.sub(a), ModInt::<P>::new(6));
    assert_eq!(a.mul(b), ModInt::<P>::new(6));
    assert_eq!(a.neg(), ModInt::<P>::new(2));
    assert_eq!(ModInt::<P>::new(12), ModInt::<P>::new(5));
    assert_eq!(ModInt::<P>::characteristic(), P);
    assert_eq!(Complex::<ModInt<P>>::characteristic(), P);
}

#[test]
fn modint_modpow_exact() {
    // 3^5 = 243 = 34 * 7 + 5
    assert_eq!(ModInt::<P>::new(3).modpow(5), ModInt::<P>::new(5));
    assert_eq!(ModInt::<P>::new(3).modpow(0), ModInt::<P>::new(1));
    assert_eq!(ModInt::<P>::new(0).modpow(4), ModInt::<P>::new(0));
}

#[test]
fn zero_has_no_inverse() {
    assert!(ModInt::<P>::zero().inverse().is_none());
    assert!(Complex::<ModInt<P>>::zero().inverse().is_none());
}

#[test]
fn modint_inverse_exact() {
    // 3 * 5 = 15 = 2 * 7 + 1
    assert_eq!(ModInt::<P>::new(3).inverse(), Some(ModInt::<P>::new(5)));
    for v in 1..P {
        let x = ModInt::<P>::new(v);
        let inv = x.inverse().expect("nonzero residue must have an inverse");
        assert_eq!(x.mul(inv), ModInt::<P>::identity());
    }
}

#[test]
fn complex_inverse_multiplies_to_identity() {
    for r in 0..P {
        for i in 0..P {
            let x = Complex::<ModInt<P>>::new(ModInt::<P>::new(r), ModInt::<P>::new(i));
            match x.inverse() {
                None => {
                    assert_eq!(r, 0);
                    assert_eq!(i, 0);
                }
                Some(inv) => {
                    assert_eq!(x.mul(inv), Complex::<ModInt<P>>::identity());
                }
            }
        }
    }
}

#[test]
fn complex_ring_operations() {
    let x = Complex::<ModInt<P>>::new(ModInt::<P>::new(2), ModInt::<P>::new(3));
    let y = Complex::<ModInt<P>>::new(ModInt::<P>::new(6), ModInt::<P>::new(5));
    // (2 + 3i) + (6 + 5i) = 8 + 8i = 1 + i
    assert_eq!(
        x.add(y),
        Complex::<ModInt<P>>::new(ModInt::<P>::new(1), ModInt::<P>::new(1))
    );
    // (2 + 3i) - (6 + 5i) = -4 - 2i = 3 + 5i
    assert_eq!(
        x.sub(y),
        Complex::<ModInt<P>>::new(ModInt::<P>::new(3), ModInt::<P>::new(5))
    );
    // (2 + 3i)(6 + 5i) = (12 - 15) + (18 + 10)i = -3 + 28i = 4 + 0i
    assert_eq!(
        x.mul(y),
        Complex::<ModInt<P>>::new(ModInt::<P>::new(4), ModInt::<P>::new(0))
    );
    assert_eq!(
        x.neg(),
        Complex::<ModInt<P>>::new(ModInt::<P>::new(5), ModInt::<P>::new(4))
    );
}
