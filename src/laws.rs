//! Laws that relate the operations of `modint`.

use vstd::prelude::*;
use vstd::std_specs::cmp::{PartialEqSpec, PartialOrdIs, PartialOrdSpec};

use vstd::arithmetic::div_mod::{lemma_mul_mod_noop_left, lemma_mul_mod_noop_right, lemma_small_mod};
use vstd::arithmetic::power::{pow, lemma_pow1, lemma_pow_adds};

use crate::fermat::lemma_fermat_residue;
use crate::{canon, inv_of, modint, pow_result, MODULUS};

verus! {

/// Adding zero changes nothing, and a value minus itself is zero:
/// `a + new(0) == a` and `a - a == new(0)`.
pub proof fn lemma_additive_identity_and_inverse(a: modint)
    requires
        a.wf(),
    ensures
        canon(a@ + canon(0)) == a@,
        canon(a@ - a@) == canon(0),
{
}

/// The order is total: of `a < b`, `a == b` and `a > b` exactly one holds.
pub proof fn lemma_total_order(a: modint, b: modint)
    ensures
        a.partial_cmp_spec(&b) is Some,
        a.is_lt(&b) || a.eq_spec(&b) || a.is_gt(&b),
        !(a.is_lt(&b) && a.eq_spec(&b)),
        !(a.is_lt(&b) && a.is_gt(&b)),
        !(a.eq_spec(&b) && a.is_gt(&b)),
        a.is_lt(&b) <==> a@ < b@,
        a.is_gt(&b) <==> a@ > b@,
        a.eq_spec(&b) <==> a@ == b@,
{
}

/// Fermat's little theorem: a nonzero value raised to `MODULUS - 1` is one,
/// `a.mod_pow(MODULUS - 1) == new(1)`.
pub proof fn lemma_fermat(a: modint)
    requires
        a.wf(),
        a@ != 0,
    ensures
        pow_result(a@, (MODULUS - 1) as nat) == canon(1),
{
    lemma_fermat_residue(a@);
}

/// `mod_inv` gives the multiplicative inverse of a nonzero value:
/// `a * a.mod_inv() == new(1)`, and the inverse is itself nonzero.
pub proof fn lemma_inverse(a: modint)
    requires
        a.wf(),
        a@ != 0,
    ensures
        canon(a@ * inv_of(a@)) == canon(1),
        inv_of(a@) != 0,
{
    let m: int = MODULUS as int;
    let e: nat = (MODULUS - 2) as nat;
    lemma_fermat_residue(a@);
    lemma_pow1(a@);
    lemma_pow_adds(a@, 1, e);
    assert((1 + e) as nat == (MODULUS - 1) as nat);
    lemma_mul_mod_noop_right(a@, pow(a@, e), m);
    lemma_small_mod(1, m as nat);
    if inv_of(a@) == 0 {
        assert(canon(a@ * inv_of(a@)) == 0);
    }
}

/// Dividing by a nonzero value and then multiplying by it gives back the
/// dividend: `(a / b) * b == a`.
pub proof fn lemma_div_then_mul(a: modint, b: modint)
    requires
        a.wf(),
        b.wf(),
        b@ != 0,
    ensures
        canon(canon(a@ * inv_of(b@)) * b@) == a@,
{
    let m: int = MODULUS as int;
    let i = inv_of(b@);
    lemma_inverse(b);
    lemma_mul_mod_noop_left(a@ * i, b@, m);
    assert(a@ * i * b@ == a@ * (b@ * i)) by (nonlinear_arith);
    lemma_mul_mod_noop_right(a@, b@ * i, m);
    lemma_small_mod(1, m as nat);
    lemma_small_mod(a@ as nat, m as nat);
}

} // verus!
