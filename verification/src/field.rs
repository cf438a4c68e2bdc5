//! Arithmetic modulo the prime `q = 3329`, and the modular-arithmetic
//! lemmas the rest of the crate leans on.
use vstd::prelude::*;

verus! {

use crate::Q;
use vstd::arithmetic::div_mod::{
    lemma_add_mod_noop, lemma_mod_twice, lemma_mul_mod_noop_left, lemma_mul_mod_noop_right,
    lemma_mod_add_multiples_vanish,
};

/// `((a % q) + b) % q == (a + b) % q` for `q = 3329`.
pub proof fn lemma_mod_add_left(a: int, b: int)
    ensures
        ((a % 3329) + b) % 3329 == (a + b) % 3329,
{
    lemma_mod_twice(a, 3329);
    lemma_add_mod_noop(a % 3329, b, 3329);
    lemma_add_mod_noop(a, b, 3329);
}

/// `((a % q) * b) % q == (a * b) % q` for `q = 3329`.
pub proof fn lemma_mod_mul_left(a: int, b: int)
    ensures
        ((a % 3329) * b) % 3329 == (a * b) % 3329,
{
    lemma_mul_mod_noop_left(a, b, 3329);
}

/// `(a * (b % q)) % q == (a * b) % q` for `q = 3329`.
pub proof fn lemma_mod_mul_right(a: int, b: int)
    ensures
        (a * (b % 3329)) % 3329 == (a * b) % 3329,
{
    lemma_mul_mod_noop_right(a, b, 3329);
}

/// `(q + b) % q == b % q` for `q = 3329`.
pub proof fn lemma_mod_shift(b: int)
    ensures
        (3329 + b) % 3329 == b % 3329,
{
    lemma_mod_add_multiples_vanish(b, 3329);
}

/// Sum of two field elements.
pub fn addq(a: u16, b: u16) -> (r: u16)
    requires
        a < 3329,
        b < 3329,
    ensures
        r as int == (a + b) % 3329,
        r < 3329,
{
    (a + b) % Q
}

/// Difference of two field elements, reduced into `[0, q)`.
pub fn subq(a: u16, b: u16) -> (r: u16)
    requires
        a < 3329,
        b < 3329,
    ensures
        r as int == (a - b) % 3329,
        r < 3329,
{
    proof {
        lemma_mod_shift(a - b);
    }
    (a + Q - b) % Q
}

/// Product of two field elements.
pub fn mulq(a: u16, b: u16) -> (r: u16)
    requires
        a < 3329,
        b < 3329,
    ensures
        r as int == (a * b) % 3329,
        r < 3329,
{
    proof {
        assert((a as int) * (b as int) < 11082241) by (nonlinear_arith)
            requires
                a < 3329,
                b < 3329,
        ;
    }
    ((a as u32 * b as u32) % Q as u32) as u16
}

} // verus!
