//! Integers modulo the fixed prime `MODULUS`, held in canonical form.
#![allow(non_camel_case_types)]

use vstd::arithmetic::power::pow;
use vstd::arithmetic::power2::pow2;
use vstd::prelude::*;

mod fermat;
pub mod laws;
mod pow_facts;

use crate::pow_facts::{lemma_square_step, lemma_square_and_multiply_step};

verus! {

/// The fixed prime modulus: 10^9 + 7.
pub const MODULUS: u64 = 1000000007;

/// An integer modulo `MODULUS`, stored as its canonical representative.
#[derive(Clone, Copy, Debug)]
pub struct modint {
    val: u64,
}

impl View for modint {
    type V = int;

    /// The canonical representative.
    closed spec fn view(&self) -> int {
        self.val as int
    }
}

/// The canonical representative of `x` modulo `MODULUS`.
pub open spec fn canon(x: int) -> int {
    x % (MODULUS as int)
}

/// The number of binary digits of `n` (zero for zero).
pub open spec fn bit_len(n: nat) -> nat
    decreases n,
{
    if n == 0 {
        0
    } else {
        1 + bit_len(n / 2)
    }
}

/// What exponentiation returns for base `b` and exponent `n`: `b^n mod MODULUS`,
/// except that a zero base gives zero for every exponent, `n == 0` included.
pub open spec fn pow_result(b: int, n: nat) -> int {
    if b == 0 {
        0
    } else {
        canon(pow(b, n))
    }
}

/// What exponentiation leaves in its receiver: the base squared once per binary
/// digit of `n`, reduced; a zero base stays as it is.
pub open spec fn pow_leftover(b: int, n: nat) -> int {
    if b == 0 {
        0
    } else {
        canon(pow(b, pow2(bit_len(n))))
    }
}

/// The inverse of `b` by Fermat's little theorem: `b^(MODULUS-2) mod MODULUS`.
pub open spec fn inv_of(b: int) -> int {
    pow_result(b, (MODULUS - 2) as nat)
}

impl modint {
    /// The representative lies in `[0, MODULUS)`.
    pub open spec fn wf(self) -> bool {
        0 <= self@ < MODULUS
    }

    /// The residue of `x`; the only way a raw integer enters the type.
    pub fn new(x: u64) -> (r: modint)
        ensures
            r.wf(),
            r@ == canon(x as int),
    {
        modint { val: x % MODULUS }
    }

    /// The canonical representative, in `[0, MODULUS)` for a well-formed value.
    pub fn value(self) -> (r: u64)
        ensures
            r == self@,
    {
        self.val
    }

    /// Raises to the power `n` by square-and-multiply.
    ///
    /// The receiver is used as the running square: when the loop ends it holds
    /// the starting base raised to `2^k`, where `k` is the number of binary
    /// digits of `n`. A zero receiver returns zero at once and is left as is.
    pub fn mod_pow(&mut self, n: u64) -> (r: modint)
        requires
            old(self).wf(),
        ensures
            r.wf(),
            r@ == pow_result(old(self)@, n as nat),
            final(self).wf(),
            final(self)@ == pow_leftover(old(self)@, n as nat),
    {
        if self.val == 0 {
            return modint::new(0);
        }
        let ghost b0: int = self@;
        let ghost n0: nat = n as nat;
        let ghost mut k: nat = 0;
        let mut e: u64 = n;
        let mut res: u64 = 1;
        proof {
            vstd::arithmetic::power::lemma_pow1(b0);
            vstd::arithmetic::power::lemma_pow0(2);
            assert(pow2(0) == 1);
            vstd::arithmetic::div_mod::lemma_small_mod(b0 as nat, MODULUS as nat);
            vstd::arithmetic::div_mod::lemma_small_mod(1, MODULUS as nat);
        }
        while e > 0
            invariant
                0 < b0 < MODULUS,
                self.val < MODULUS,
                res < MODULUS,
                self@ == pow(b0, pow2(k)) % (MODULUS as int),
                bit_len(n0) == k + bit_len(e as nat),
                (res * pow(self@, e as nat)) % (MODULUS as int) == pow(b0, n0) % (MODULUS as int),
            decreases e,
        {
            let ghost s: int = self@;
            let ghost r0: int = res as int;
            proof {
                lemma_square_and_multiply_step(r0, s, e as nat, MODULUS as int);
                lemma_square_step(b0, k, MODULUS as int);
                assert(s * s <= (MODULUS - 1) * (MODULUS - 1)) by (nonlinear_arith)
                    requires 0 <= s < MODULUS;
                assert(r0 * s <= (MODULUS - 1) * (MODULUS - 1)) by (nonlinear_arith)
                    requires 0 <= s < MODULUS, 0 <= r0 < MODULUS;
            }
            if e % 2 == 1 {
                res = res * self.val % MODULUS;
            }
            self.val = self.val * self.val % MODULUS;
            e = e / 2;
            proof {
                k = k + 1;
            }
        }
        proof {
            vstd::arithmetic::power::lemma_pow0(self@);
            vstd::arithmetic::div_mod::lemma_small_mod(res as nat, MODULUS as nat);
        }
        modint::new(res)
    }

    /// The multiplicative inverse, `self^(MODULUS-2)`; zero for zero.
    /// Leaves the receiver as `mod_pow` does.
    pub fn mod_inv(&mut self) -> (r: modint)
        requires
            old(self).wf(),
        ensures
            r.wf(),
            r@ == inv_of(old(self)@),
            final(self).wf(),
            final(self)@ == pow_leftover(old(self)@, (MODULUS - 2) as nat),
    {
        self.mod_pow(MODULUS - 2)
    }

    /// `self += rhs`: one conditional subtraction brings the sum back below `MODULUS`.
    pub fn add_assign(&mut self, rhs: modint)
        requires
            old(self).wf(),
            rhs.wf(),
        ensures
            final(self).wf(),
            final(self)@ == canon(old(self)@ + rhs@),
    {
        self.val = self.val + rhs.val;
        if self.val >= MODULUS {
            self.val = self.val - MODULUS;
        }
    }

    /// `self -= rhs`: `MODULUS` is added first when the difference would be negative.
    pub fn sub_assign(&mut self, rhs: modint)
        requires
            old(self).wf(),
            rhs.wf(),
        ensures
            final(self).wf(),
            final(self)@ == canon(old(self)@ - rhs@),
    {
        if self.val < rhs.val {
            self.val = self.val + MODULUS;
        }
        self.val = self.val - rhs.val;
    }

    /// `self *= rhs`.
    pub fn mul_assign(&mut self, rhs: modint)
        requires
            old(self).wf(),
            rhs.wf(),
        ensures
            final(self).wf(),
            final(self)@ == canon(old(self)@ * rhs@),
    {
        proof {
            let a = self.val as int;
            let b = rhs.val as int;
            assert(a * b <= (MODULUS - 1) * (MODULUS - 1)) by (nonlinear_arith)
                requires 0 <= a < MODULUS, 0 <= b < MODULUS;
        }
        self.val = self.val * rhs.val % MODULUS;
    }

    /// `self /= rhs`: multiplication by the inverse of a nonzero `rhs`.
    pub fn div_assign(&mut self, rhs: modint)
        requires
            old(self).wf(),
            rhs.wf(),
            rhs@ != 0,
        ensures
            final(self).wf(),
            final(self)@ == canon(old(self)@ * inv_of(rhs@)),
    {
        // Callers outside verification that pass zero stop here, as integer
        // division by zero panics; verified callers never reach that case.
        let _nonzero: u64 = MODULUS / rhs.val;
        let mut d = rhs;
        let inv = d.mod_inv();
        self.mul_assign(inv);
    }
}

impl core::ops::Add for modint {
    type Output = modint;

    fn add(self, rhs: modint) -> (r: modint)
        ensures
            r.wf(),
            r@ == canon(self@ + rhs@),
    {
        let mut s = self;
        s.add_assign(rhs);
        s
    }
}

impl vstd::std_specs::ops::AddSpecImpl for modint {
    open spec fn obeys_add_spec() -> bool {
        true
    }

    open spec fn add_req(self, rhs: modint) -> bool {
        self.wf() && rhs.wf()
    }

    closed spec fn add_spec(self, rhs: modint) -> modint {
        modint { val: ((self.val + rhs.val) % (MODULUS as int)) as u64 }
    }
}

impl core::ops::Sub for modint {
    type Output = modint;

    fn sub(self, rhs: modint) -> (r: modint)
        ensures
            r.wf(),
            r@ == canon(self@ - rhs@),
    {
        let mut s = self;
        s.sub_assign(rhs);
        s
    }
}

impl vstd::std_specs::ops::SubSpecImpl for modint {
    open spec fn obeys_sub_spec() -> bool {
        true
    }

    open spec fn sub_req(self, rhs: modint) -> bool {
        self.wf() && rhs.wf()
    }

    closed spec fn sub_spec(self, rhs: modint) -> modint {
        modint { val: ((self.val - rhs.val) % (MODULUS as int)) as u64 }
    }
}

impl core::ops::Mul for modint {
    type Output = modint;

    fn mul(self, rhs: modint) -> (r: modint)
        ensures
            r.wf(),
            r@ == canon(self@ * rhs@),
    {
        let mut s = self;
        s.mul_assign(rhs);
        s
    }
}

impl vstd::std_specs::ops::MulSpecImpl for modint {
    open spec fn obeys_mul_spec() -> bool {
        true
    }

    open spec fn mul_req(self, rhs: modint) -> bool {
        self.wf() && rhs.wf()
    }

    closed spec fn mul_spec(self, rhs: modint) -> modint {
        modint { val: ((self.val * rhs.val) % (MODULUS as int)) as u64 }
    }
}

impl core::ops::Div for modint {
    type Output = modint;

    /// Division by a zero value is ruled out by the precondition.
    fn div(self, rhs: modint) -> (r: modint)
        ensures
            r.wf(),
            r@ == canon(self@ * inv_of(rhs@)),
    {
        let mut s = self;
        s.div_assign(rhs);
        s
    }
}

impl vstd::std_specs::ops::DivSpecImpl for modint {
    open spec fn obeys_div_spec() -> bool {
        true
    }

    open spec fn div_req(self, rhs: modint) -> bool {
        self.wf() && rhs.wf() && rhs@ != 0
    }

    closed spec fn div_spec(self, rhs: modint) -> modint {
        modint { val: canon(self.val * inv_of(rhs.val as int)) as u64 }
    }
}

impl PartialEq for modint {
    fn eq(&self, rhs: &modint) -> (r: bool) {
        self.val == rhs.val
    }
}

impl vstd::std_specs::cmp::PartialEqSpecImpl for modint {
    open spec fn obeys_eq_spec() -> bool {
        true
    }

    open spec fn eq_spec(&self, rhs: &modint) -> bool {
        self@ == rhs@
    }
}

impl PartialOrd for modint {
    /// Compares the canonical representatives; the order is total.
    fn partial_cmp(&self, rhs: &modint) -> (r: Option<core::cmp::Ordering>) {
        if self.val == rhs.val {
            Some(core::cmp::Ordering::Equal)
        } else if self.val > rhs.val {
            Some(core::cmp::Ordering::Greater)
        } else {
            Some(core::cmp::Ordering::Less)
        }
    }
}

impl vstd::std_specs::cmp::PartialOrdSpecImpl for modint {
    open spec fn obeys_partial_cmp_spec() -> bool {
        true
    }

    open spec fn partial_cmp_spec(&self, rhs: &modint) -> Option<core::cmp::Ordering> {
        if self@ == rhs@ {
            Some(core::cmp::Ordering::Equal)
        } else if self@ > rhs@ {
            Some(core::cmp::Ordering::Greater)
        } else {
            Some(core::cmp::Ordering::Less)
        }
    }
}

} // verus!
