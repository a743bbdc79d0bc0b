use ::modint::{modint, MODULUS};

#[test]
fn add_test_case() {
    assert_eq!(modint::new(2), modint::new(1) + modint::new(1));
    assert_eq!(modint::new(1), modint::new(1000000007) + modint::new(1));
    assert_eq!(modint::new(1000000007 + 20), modint::new(1000000007 + 5) + modint::new(15))
}

#[test]
fn sub_test_case() {
    assert_eq!(modint::new(1), modint::new(1) - modint::new(1000000007));
    assert_eq!(modint::new(0), modint::new(10) - modint::new(10));
    assert_eq!(modint::new(10), modint::new(100) - modint::new(90));
}

#[test]
fn mul_test_case() {
    assert_eq!(modint::new(1), modint::new(1) * modint::new(1000000008));
    assert_eq!(modint::new(2).mod_pow(1000000007 - 1), modint::new(1));
    assert_eq!(modint::new(1000000007 + 1000000000).mod_pow(1000000007 - 1), modint::new(1));
    assert_eq!(modint::new(123456789), modint::new(12345678900000) / modint::new(100000))
}

#[test]
fn div_test_case() {
    assert_eq!(modint::new(1000000006), modint::new(1000000006).mod_inv());
    assert_eq!(modint::new(1), modint::new(1).mod_inv());
}

#[test]
fn cmp_test_case() {
    assert!(modint::new(1000000007 + 100) > modint::new(1000000007));
    assert_eq!(modint::new(1000000007), modint::new(1000000007));
}

#[test]
fn new_reduces_modulo() {
    assert_eq!(modint::new(0).value(), 0);
    assert_eq!(modint::new(MODULUS - 1).value(), MODULUS - 1);
    assert_eq!(modint::new(MODULUS).value(), 0);
    assert_eq!(modint::new(MODULUS + 5).value(), 5);
    assert_eq!(modint::new(u64::MAX).value(), u64::MAX % MODULUS);
    assert_eq!(modint::new(u64::MAX).value(), 582344007);
}

#[test]
fn add_identity_and_self_subtraction() {
    for x in [0u64, 1, 2, 12345, MODULUS - 1, MODULUS + 3, u64::MAX] {
        let a = modint::new(x);
        assert_eq!(a + modint::new(0), a);
        assert_eq!(a - a, modint::new(0));
    }
}

#[test]
fn add_wraps_at_modulus() {
    assert_eq!(modint::new(MODULUS) + modint::new(1), modint::new(1));
    assert_eq!(modint::new(MODULUS - 2) + modint::new(15), modint::new(13));
    assert_eq!((modint::new(MODULUS - 1) + modint::new(MODULUS - 1)).value(), MODULUS - 2);
}

#[test]
fn sub_below_zero_wraps() {
    assert_eq!(modint::new(1) - modint::new(MODULUS), modint::new(1));
    assert_eq!((modint::new(0) - modint::new(1)).value(), MODULUS - 1);
    assert_eq!((modint::new(3) - modint::new(10)).value(), MODULUS - 7);
}

#[test]
fn mul_identity_and_large_product() {
    assert_eq!(modint::new(1) * modint::new(MODULUS + 1), modint::new(1));
    let a = modint::new(MODULUS - 1);
    assert_eq!((a * a).value(), 1);
    assert_eq!((modint::new(123456789) * modint::new(987654321)).value(), 259106859);
}

#[test]
fn in_place_operations() {
    let mut a = modint::new(MODULUS - 1);
    a.add_assign(modint::new(2));
    assert_eq!(a.value(), 1);
    a.sub_assign(modint::new(3));
    assert_eq!(a.value(), MODULUS - 2);
    a.mul_assign(modint::new(2));
    assert_eq!(a.value(), MODULUS - 4);
    a.div_assign(modint::new(2));
    assert_eq!(a.value(), MODULUS - 2);
}

#[test]
fn fermat_on_several_bases() {
    for x in [1u64, 2, 3, 5, 10, 999999, MODULUS - 1, MODULUS + 1000000000] {
        assert_eq!(modint::new(x).mod_pow(MODULUS - 1), modint::new(1));
    }
}

#[test]
fn pow_small_exponents() {
    assert_eq!(modint::new(3).mod_pow(0).value(), 1);
    assert_eq!(modint::new(3).mod_pow(1).value(), 3);
    assert_eq!(modint::new(3).mod_pow(5).value(), 243);
    assert_eq!(modint::new(2).mod_pow(30).value(), 73741817);
}

#[test]
fn pow_leaves_squared_base() {
    let mut a = modint::new(3);
    let r = a.mod_pow(5);
    assert_eq!(r.value(), 243);
    // 5 has three binary digits: the receiver holds 3^8.
    assert_eq!(a.value(), 6561);
    let mut b = modint::new(7);
    b.mod_pow(0);
    assert_eq!(b.value(), 7);
}

#[test]
fn pow_of_zero_is_zero() {
    for n in [0u64, 1, 2, MODULUS - 1, u64::MAX] {
        let mut z = modint::new(0);
        assert_eq!(z.mod_pow(n), modint::new(0));
        assert_eq!(z.value(), 0);
    }
    assert_eq!(modint::new(MODULUS).mod_pow(0), modint::new(0));
}

#[test]
fn inverse_values() {
    assert_eq!(modint::new(MODULUS - 1).mod_inv(), modint::new(MODULUS - 1));
    assert_eq!(modint::new(1).mod_inv(), modint::new(1));
    assert_eq!(modint::new(2).mod_inv().value(), 500000004);
    assert_eq!(modint::new(0).mod_inv(), modint::new(0));
    let a = modint::new(123456);
    assert_eq!(a * modint::new(123456).mod_inv(), modint::new(1));
}

#[test]
fn division_by_inverse() {
    assert_eq!(modint::new(12345678900000) / modint::new(100000), modint::new(123456789));
    assert_eq!((modint::new(1) / modint::new(2)).value(), 500000004);
    let q = modint::new(77) / modint::new(13);
    assert_eq!(q * modint::new(13), modint::new(77));
}

#[test]
fn total_order() {
    assert!(modint::new(MODULUS + 100) > modint::new(MODULUS));
    assert!(modint::new(0) < modint::new(100));
    assert_eq!(modint::new(MODULUS), modint::new(MODULUS));
    assert!(modint::new(5) != modint::new(6));
    let vals = [modint::new(0), modint::new(1), modint::new(MODULUS - 1), modint::new(MODULUS + 1)];
    for a in vals {
        for b in vals {
            let n = [a < b, a == b, a > b].iter().filter(|t| **t).count();
            assert_eq!(n, 1);
            assert!(a.partial_cmp(&b).is_some());
        }
    }
}
