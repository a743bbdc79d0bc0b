//! Fermat's little theorem for `MODULUS`, through the primitive root 5.
//!
//! Write `p = MODULUS` and `n = p - 1 = 2 * 500000003`. The powers `5^0 .. 5^(n-1)`
//! are pairwise distinct and nonzero modulo `p`, so they are all of `1 .. p-1`;
//! raising `5^i` to the power `n` gives `(5^n)^i`, which is 1.

use vstd::arithmetic::div_mod::{lemma_fundamental_div_mod, lemma_mul_mod_noop, lemma_mul_mod_noop_left, lemma_mul_mod_noop_right, lemma_small_mod};
use vstd::arithmetic::power::{pow, lemma1_pow, lemma_pow1, lemma_pow_adds, lemma_pow_mod_noop, lemma_pow_multiplies};
use vstd::prelude::*;
use vstd::set_lib::{lemma_int_range, lemma_map_size, lemma_subset_equality, set_int_range};

use crate::MODULUS;

verus! {

/// `b^(2e)` modulo `m` is the square of `b^e` modulo `m`.
proof fn lemma_pow_double(b: int, e: nat, m: int)
    requires
        m > 0,
    ensures
        pow(b, 2 * e) % m == ((pow(b, e) % m) * (pow(b, e) % m)) % m,
{
    lemma_pow_adds(b, e, e);
    assert(2 * e == e + e);
    lemma_mul_mod_noop(pow(b, e), pow(b, e), m);
}

/// `b^(e+1)` modulo `m` is `b` times `b^e` modulo `m`.
proof fn lemma_pow_next(b: int, e: nat, m: int)
    requires
        m > 0,
    ensures
        pow(b, e + 1) % m == (b * (pow(b, e) % m)) % m,
{
    lemma_pow_adds(b, 1, e);
    lemma_pow1(b);
    lemma_mul_mod_noop_right(b, pow(b, e), m);
}

/// 5 is a quadratic non-residue: `5^((p-1)/2) == p - 1` modulo `p`.
proof fn lemma_five_pow_half()
    ensures
        pow(5, 500000003) % (MODULUS as int) == MODULUS - 1,
{
    let m: int = MODULUS as int;
    lemma_pow1(5);
    assert(pow(5, 1) % m == 5);
    lemma_pow_double(5, 1, m);
    assert(pow(5, 2) % m == 25);
    lemma_pow_next(5, 2, m);
    assert(pow(5, 3) % m == 125);
    lemma_pow_double(5, 3, m);
    assert(pow(5, 6) % m == 15625);
    lemma_pow_next(5, 6, m);
    assert(pow(5, 7) % m == 78125);
    lemma_pow_double(5, 7, m);
    assert(pow(5, 14) % m == 103515583);
    lemma_pow_double(5, 14, m);
    assert(pow(5, 28) % m == 848821564);
    lemma_pow_next(5, 28, m);
    assert(pow(5, 29) % m == 244107792);
    lemma_pow_double(5, 29, m);
    assert(pow(5, 58) % m == 697994973);
    lemma_pow_next(5, 58, m);
    assert(pow(5, 59) % m == 489974844);
    lemma_pow_double(5, 59, m);
    assert(pow(5, 118) % m == 72296914);
    lemma_pow_next(5, 118, m);
    assert(pow(5, 119) % m == 361484570);
    lemma_pow_double(5, 119, m);
    assert(pow(5, 238) % m == 433387249);
    lemma_pow_double(5, 238, m);
    assert(pow(5, 476) % m == 281016459);
    lemma_pow_double(5, 476, m);
    assert(pow(5, 952) % m == 676106938);
    lemma_pow_next(5, 952, m);
    assert(pow(5, 953) % m == 380534669);
    lemma_pow_double(5, 953, m);
    assert(pow(5, 1906) % m == 297293130);
    lemma_pow_next(5, 1906, m);
    assert(pow(5, 1907) % m == 486465643);
    lemma_pow_double(5, 1907, m);
    assert(pow(5, 3814) % m == 162861709);
    lemma_pow_double(5, 3814, m);
    assert(pow(5, 7628) % m == 72733129);
    lemma_pow_next(5, 7628, m);
    assert(pow(5, 7629) % m == 363665645);
    lemma_pow_double(5, 7629, m);
    assert(pow(5, 15258) % m == 427497125);
    lemma_pow_double(5, 15258, m);
    assert(pow(5, 30516) % m == 603989095);
    lemma_pow_next(5, 30516, m);
    assert(pow(5, 30517) % m == 19945454);
    lemma_pow_double(5, 30517, m);
    assert(pow(5, 61034) % m == 132481369);
    lemma_pow_next(5, 61034, m);
    assert(pow(5, 61035) % m == 662406845);
    lemma_pow_double(5, 61035, m);
    assert(pow(5, 122070) % m == 231374250);
    lemma_pow_double(5, 122070, m);
    assert(pow(5, 244140) % m == 188324199);
    lemma_pow_double(5, 244140, m);
    assert(pow(5, 488280) % m == 680729580);
    lemma_pow_next(5, 488280, m);
    assert(pow(5, 488281) % m == 403647879);
    lemma_pow_double(5, 488281, m);
    assert(pow(5, 976562) % m == 80677378);
    lemma_pow_double(5, 976562, m);
    assert(pow(5, 1953124) % m == 275393011);
    lemma_pow_next(5, 1953124, m);
    assert(pow(5, 1953125) % m == 376965048);
    lemma_pow_double(5, 1953125, m);
    assert(pow(5, 3906250) % m == 418923782);
    lemma_pow_double(5, 3906250, m);
    assert(pow(5, 7812500) % m == 896703593);
    lemma_pow_double(5, 7812500, m);
    assert(pow(5, 15625000) % m == 70568353);
    lemma_pow_double(5, 15625000, m);
    assert(pow(5, 31250000) % m == 410273365);
    lemma_pow_double(5, 31250000, m);
    assert(pow(5, 62500000) % m == 850153601);
    lemma_pow_double(5, 62500000, m);
    assert(pow(5, 125000000) % m == 233939221);
    lemma_pow_double(5, 125000000, m);
    assert(pow(5, 250000000) % m == 738993935);
    lemma_pow_next(5, 250000000, m);
    assert(pow(5, 250000001) % m == 694969654);
    lemma_pow_double(5, 250000001, m);
    assert(pow(5, 500000002) % m == 600000004);
    lemma_pow_next(5, 500000002, m);
    assert(pow(5, 500000003) % m == 1000000006);
}

/// The powers of 5 that matter for its order modulo `p`.
proof fn lemma_five_small_powers()
    ensures
        pow(5, 1) % (MODULUS as int) == 5,
        pow(5, 2) % (MODULUS as int) == 25,
        pow(5, 500000003) % (MODULUS as int) == MODULUS - 1,
        pow(5, 1000000006) % (MODULUS as int) == 1,
{
    let m: int = MODULUS as int;
    lemma_pow1(5);
    assert(pow(5, 1) % m == 5);
    lemma_pow_double(5, 1, m);
    assert(pow(5, 2) % m == 25);
    lemma_five_pow_half();
    lemma_pow_double(5, 500000003, m);
}

/// A factor of `p - 1` below `2^15` is 1 or 2.
#[verifier::rlimit(100)]
proof fn lemma_small_factor(d: u32, k: u32)
    by (bit_vector)
    requires
        d < 32768,
        d * k == 1000000006,
    ensures
        d == 1 || d == 2,
{
}

/// The divisors of `p - 1 = 2 * 500000003`.
proof fn lemma_divisors(d: int, k: int)
    requires
        0 < d,
        0 < k,
        d * k == 1000000006,
    ensures
        d == 1 || d == 2 || d == 500000003 || d == 1000000006,
{
    if d <= k {
        assert(d < 32768) by (nonlinear_arith)
            requires 0 < d <= k, d * k == 1000000006;
        assert(k <= 1000000006) by (nonlinear_arith)
            requires 0 < d, 0 < k, d * k == 1000000006;
        lemma_small_factor(d as u32, k as u32);
    } else {
        assert(k < 32768) by (nonlinear_arith)
            requires 0 < k < d, d * k == 1000000006;
        assert(d <= 1000000006) by (nonlinear_arith)
            requires 0 < d, 0 < k, d * k == 1000000006;
        assert(k * d == 1000000006) by (nonlinear_arith)
            requires d * k == 1000000006;
        lemma_small_factor(k as u32, d as u32);
        if k == 2 {
            assert(d == 500000003);
        }
    }
}

/// If `b^a` and `b^c` are both 1 modulo `m`, so is `b^(a mod c)`.
proof fn lemma_unit_exponent_mod(b: int, a: nat, c: nat, m: int)
    requires
        m > 1,
        c > 0,
        pow(b, a) % m == 1,
        pow(b, c) % m == 1,
    ensures
        pow(b, a % c) % m == 1,
{
    let q: nat = a / c;
    let r: nat = a % c;
    lemma_fundamental_div_mod(a as int, c as int);
    assert(a == c * q + r);
    lemma_pow_adds(b, c * q, r);
    lemma_pow_multiplies(b, c, q);
    let x = pow(pow(b, c), q);
    lemma_pow_mod_noop(pow(b, c), q, m);
    lemma1_pow(q);
    lemma_small_mod(1, m as nat);
    assert(x % m == 1);
    lemma_mul_mod_noop_left(x, pow(b, r), m);
}

/// No positive exponent below `p - 1` takes 5 to 1 modulo `p`.
proof fn lemma_order_of_five(d: nat)
    requires
        0 < d < 1000000006,
    ensures
        pow(5, d) % (MODULUS as int) != 1,
    decreases d,
{
    let m: int = MODULUS as int;
    lemma_five_small_powers();
    if pow(5, d) % m == 1 {
        let n: nat = 1000000006;
        lemma_unit_exponent_mod(5, n, d, m);
        let r: nat = n % d;
        if r > 0 {
            lemma_order_of_five(r);
        } else {
            lemma_fundamental_div_mod(n as int, d as int);
            let k: int = n as int / d as int;
            assert(d * k == 1000000006);
            assert(k > 0) by (nonlinear_arith)
                requires d > 0, d * k == 1000000006;
            lemma_divisors(d as int, k);
        }
    }
}

/// `5^i` and `5^j` differ modulo `p` for `0 <= i < j < p - 1`.
proof fn lemma_powers_distinct(i: nat, j: nat)
    requires
        i < j < 1000000006,
    ensures
        pow(5, i) % (MODULUS as int) != pow(5, j) % (MODULUS as int),
{
    let m: int = MODULUS as int;
    let n: nat = 1000000006;
    let z = pow(5, (n - i) as nat);
    lemma_five_small_powers();
    lemma_pow_adds(5, (n - i) as nat, i);
    lemma_pow_adds(5, (n - i) as nat, j);
    lemma_pow_adds(5, n, (j - i) as nat);
    assert((n - i) as nat + j == n + (j - i) as nat);
    if pow(5, i) % m == pow(5, j) % m {
        lemma_mul_mod_noop_right(z, pow(5, i), m);
        lemma_mul_mod_noop_right(z, pow(5, j), m);
        lemma_mul_mod_noop_left(pow(5, n), pow(5, (j - i) as nat), m);
        lemma_order_of_five((j - i) as nat);
    }
}

/// `5^i` is not a multiple of `p`.
proof fn lemma_power_nonzero(i: nat)
    requires
        i < 1000000006,
    ensures
        pow(5, i) % (MODULUS as int) != 0,
{
    let m: int = MODULUS as int;
    let n: nat = 1000000006;
    lemma_five_small_powers();
    lemma_pow_adds(5, i, (n - i) as nat);
    lemma_mul_mod_noop_left(pow(5, i), pow(5, (n - i) as nat), m);
}

/// Every nonzero residue modulo `p` is a power of 5.
proof fn lemma_every_unit_is_power(a: int)
    requires
        0 < a < MODULUS,
    ensures
        exists|i: nat| i < 1000000006 && #[trigger] pow(5, i) % (MODULUS as int) == a,
{
    let m: int = MODULUS as int;
    let f = |i: int| pow(5, i as nat) % m;
    let exps = set_int_range(0, 1000000006);
    let units = set_int_range(1, m);
    let powers = exps.map(f);
    assert forall|i: int, j: int| exps.contains(i) && exps.contains(j) && #[trigger] f(i) == #[trigger] f(j)
        implies i == j by {
        if i < j {
            lemma_powers_distinct(i as nat, j as nat);
        } else if j < i {
            lemma_powers_distinct(j as nat, i as nat);
        }
    }
    lemma_int_range(0, 1000000006);
    lemma_int_range(1, m);
    lemma_map_size(exps, powers, f);
    assert forall|x: int| powers.contains(x) implies units.contains(x) by {
        let i = choose|i: int| exps.contains(i) && f(i) == x;
        lemma_power_nonzero(i as nat);
    }
    lemma_subset_equality(powers, units);
    assert(units.contains(a));
    let i = choose|i: int| exps.contains(i) && f(i) == a;
    assert(pow(5, i as nat) % m == a);
}

/// Fermat's little theorem for `MODULUS`: `a^(p-1) == 1` modulo `p` for `0 < a < p`.
pub(crate) proof fn lemma_fermat_residue(a: int)
    requires
        0 < a < MODULUS,
    ensures
        pow(a, (MODULUS - 1) as nat) % (MODULUS as int) == 1,
{
    let m: int = MODULUS as int;
    let n: nat = 1000000006;
    lemma_every_unit_is_power(a);
    let i = choose|i: nat| i < 1000000006 && #[trigger] pow(5, i) % m == a;
    lemma_five_small_powers();
    lemma_pow_mod_noop(pow(5, i), n, m);
    lemma_pow_multiplies(5, i, n);
    lemma_pow_multiplies(5, n, i);
    assert(i * n == n * i) by (nonlinear_arith);
    lemma_pow_mod_noop(pow(5, n), i, m);
    lemma1_pow(i);
    lemma_small_mod(1, m as nat);
}

} // verus!
