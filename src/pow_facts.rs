//! Facts about powers taken modulo a positive integer.

use vstd::arithmetic::div_mod::{lemma_mul_mod_noop, lemma_mul_mod_noop_left, lemma_mul_mod_noop_right};
use vstd::arithmetic::power::{pow, lemma_pow0, lemma_pow1, lemma_pow_adds, lemma_pow_multiplies, lemma_pow_mod_noop, lemma_square_is_pow2};
use vstd::arithmetic::power2::{pow2, lemma_pow2_unfold};
use vstd::prelude::*;

verus! {

/// Squaring `b^(2^k)` gives `b^(2^(k+1))`, also after reduction modulo `m`.
pub(crate) proof fn lemma_square_step(b: int, k: nat, m: int)
    requires
        m > 0,
    ensures
        ((pow(b, pow2(k)) % m) * (pow(b, pow2(k)) % m)) % m == pow(b, pow2(k + 1)) % m,
{
    let x = pow(b, pow2(k));
    lemma_pow2_unfold(k + 1);
    lemma_pow_adds(b, pow2(k), pow2(k));
    assert(pow2(k + 1) == pow2(k) + pow2(k));
    lemma_mul_mod_noop(x, x, m);
}

/// One round of square-and-multiply keeps `res * s^e mod m` unchanged.
pub(crate) proof fn lemma_square_and_multiply_step(res: int, s: int, e: nat, m: int)
    requires
        m > 0,
        e > 0,
    ensures
        ((if e % 2 == 1 { (res * s) % m } else { res }) * pow((s * s) % m, e / 2)) % m
            == (res * pow(s, e)) % m,
{
    let h: nat = e / 2;
    let p = pow(s * s, h);
    lemma_square_is_pow2(s);
    lemma_pow_multiplies(s, 2, h);
    assert(e == e % 2 + 2 * h);
    lemma_pow_adds(s, (e % 2) as nat, 2 * h);
    assert(pow(s, e) == pow(s, (e % 2) as nat) * p);
    lemma_pow_mod_noop(s * s, h, m);
    let a = if e % 2 == 1 { (res * s) % m } else { res };
    lemma_mul_mod_noop_right(a, pow((s * s) % m, h), m);
    lemma_mul_mod_noop_right(a, p, m);
    if e % 2 == 1 {
        lemma_pow1(s);
        lemma_mul_mod_noop_left(res * s, p, m);
        assert(res * s * p == res * (s * p)) by (nonlinear_arith);
    } else {
        lemma_pow0(s);
    }
}

} // verus!
