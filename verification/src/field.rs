//! The scalar field that trace columns range over.
//!
//! Witness generation and constraint evaluation share one data layout over a
//! scalar type. This module provides the concrete numeric instantiation: a
//! prime field in canonical reduced form, with the handful of operations the
//! constraint algebra needs (add, subtract, multiply, the two identities, and
//! embedding of small integers).

use vstd::prelude::*;

verus! {

use vstd::arithmetic::div_mod::{
    lemma_small_mod, lemma_add_mod_noop, lemma_mod_add_multiples_vanish, lemma_sub_mod_noop,
};
use vstd::arithmetic::mul::lemma_mul_basics;

/// The field order: the prime 15 * 2^27 + 1.
pub const MODULUS: u64 = 2013265921;

/// Field addition on canonical values.
pub open spec fn fadd(a: int, b: int) -> int {
    (a + b) % (MODULUS as int)
}

/// Field subtraction on canonical values.
pub open spec fn fsub(a: int, b: int) -> int {
    (a - b) % (MODULUS as int)
}

/// Field multiplication on canonical values.
pub open spec fn fmul(a: int, b: int) -> int {
    (a * b) % (MODULUS as int)
}

/// A field element, kept in canonical reduced form.
#[derive(Clone, Copy, Debug, PartialEq, Eq, Structural)]
pub struct Fp {
    repr: u64,
}

impl Fp {
    /// The canonical value of this element, as a mathematical integer.
    pub closed spec fn val(self) -> int {
        self.repr as int
    }

    /// Every element is kept reduced: its canonical value lies below the
    /// field order.
    #[verifier::type_invariant]
    pub open spec fn reduced(self) -> bool {
        0 <= self.val() < MODULUS as int
    }

    /// The additive identity.
    pub fn zero() -> (r: Fp)
        ensures
            r.val() == 0,
    {
        Fp { repr: 0 }
    }

    /// The multiplicative identity.
    pub fn one() -> (r: Fp)
        ensures
            r.val() == 1,
    {
        Fp { repr: 1 }
    }

    /// Embeds a 32-bit integer, reducing it modulo the field order.
    pub fn from_u32(x: u32) -> (r: Fp)
        ensures
            r.val() == (x as int) % (MODULUS as int),
            x < MODULUS ==> r.val() == x as int,
    {
        let repr: u64 = (x as u64) % MODULUS;
        proof {
            if x < MODULUS {
                lemma_small_mod(x as nat, MODULUS as nat);
            }
        }
        Fp { repr }
    }

    /// The canonical representative, as a machine integer.
    pub fn as_canonical_u64(self) -> (r: u64)
        ensures
            r as int == self.val(),
    {
        self.repr
    }

    /// Field addition.
    pub fn add(self, other: Fp) -> (r: Fp)
        ensures
            r.val() == fadd(self.val(), other.val()),
    {
        proof {
            use_type_invariant(self);
            use_type_invariant(other);
        }
        let s: u64 = self.repr + other.repr;
        let repr: u64 = if s >= MODULUS {
            s - MODULUS
        } else {
            s
        };
        proof {
            if s >= MODULUS {
                lemma_mod_add_multiples_vanish((s - MODULUS) as int, MODULUS as int);
                lemma_small_mod((s - MODULUS) as nat, MODULUS as nat);
            } else {
                lemma_small_mod(s as nat, MODULUS as nat);
            }
        }
        Fp { repr }
    }

    /// Field subtraction.
    pub fn sub(self, other: Fp) -> (r: Fp)
        ensures
            r.val() == fsub(self.val(), other.val()),
    {
        proof {
            use_type_invariant(self);
            use_type_invariant(other);
        }
        let s: u64 = self.repr + MODULUS - other.repr;
        let repr: u64 = if s >= MODULUS {
            s - MODULUS
        } else {
            s
        };
        proof {
            lemma_mod_add_multiples_vanish(self.val() - other.val(), MODULUS as int);
            if s >= MODULUS {
                lemma_mod_add_multiples_vanish((s - MODULUS) as int, MODULUS as int);
                lemma_small_mod((s - MODULUS) as nat, MODULUS as nat);
            } else {
                lemma_small_mod(s as nat, MODULUS as nat);
            }
        }
        Fp { repr }
    }

    /// Field multiplication.
    pub fn mul(self, other: Fp) -> (r: Fp)
        ensures
            r.val() == fmul(self.val(), other.val()),
    {
        proof {
            use_type_invariant(self);
            use_type_invariant(other);
            assert(self.repr * other.repr <= (MODULUS - 1) * (MODULUS - 1)) by (nonlinear_arith)
                requires
                    self.repr < MODULUS,
                    other.repr < MODULUS,
            ;
        }
        let prod: u64 = self.repr * other.repr;
        let repr: u64 = prod % MODULUS;
        Fp { repr }
    }
}

/// Reduction commutes with addition: `fadd` on reduced inputs equals the
/// reduction of the unreduced sum.
pub proof fn lemma_fadd_unreduced(x: int, y: int)
    ensures
        fadd(x % (MODULUS as int), y % (MODULUS as int)) == (x + y) % (MODULUS as int),
{
    lemma_add_mod_noop(x, y, MODULUS as int);
}

/// Reduction commutes with subtraction.
pub proof fn lemma_fsub_unreduced(x: int, y: int)
    ensures
        fsub(x % (MODULUS as int), y % (MODULUS as int)) == (x - y) % (MODULUS as int),
{
    lemma_sub_mod_noop(x, y, MODULUS as int);
}

/// Multiplying a reduced value by 1 in the field leaves it unchanged.
pub proof fn lemma_fmul_one(z: int)
    requires
        0 <= z < MODULUS as int,
    ensures
        fmul(1, z) == z,
{
    lemma_mul_basics(z);
    lemma_small_mod(z as nat, MODULUS as nat);
}

} // verus!
