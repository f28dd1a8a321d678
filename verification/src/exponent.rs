//! Laws of modular powers: how exponents add, multiply and repeat.

use crate::modular::pow_mod;
use crate::numbers::gcd;
use vstd::arithmetic::div_mod::*;
use vstd::arithmetic::mul::*;
use vstd::arithmetic::power::*;
use vstd::prelude::*;

verus! {

/// `g` has the multiplicative order `n` modulo `p`: `n` is the least positive
/// exponent that takes `g` to one.
pub open spec fn has_order(g: nat, p: nat, n: nat) -> bool {
    &&& n > 0
    &&& pow_mod(g, n, p) == 1
    &&& forall|k: nat| 0 < k < n ==> #[trigger] pow_mod(g, k, p) != 1
}

/// A modular power is a residue.
pub proof fn lemma_pow_mod_bound(g: nat, e: nat, p: nat)
    requires
        p > 0,
    ensures
        pow_mod(g, e, p) < p,
        pow(g as int, e) >= 0,
{
    crate::modular::lemma_pow_positive_or_zero(g as int, e);
    lemma_mod_bound(pow(g as int, e), p as int);
}

/// The power to a sum of exponents is the product of the powers.
pub proof fn lemma_pow_mod_adds(g: nat, a: nat, b: nat, p: nat)
    requires
        p > 0,
    ensures
        pow_mod(g, a + b, p) == (pow_mod(g, a, p) * pow_mod(g, b, p)) % p,
{
    lemma_pow_mod_bound(g, a, p);
    lemma_pow_mod_bound(g, b, p);
    lemma_pow_adds(g as int, a, b);
    lemma_mul_mod_noop(pow(g as int, a), pow(g as int, b), p as int);
}

/// The power to a product of exponents is a power of a power.
pub proof fn lemma_pow_mod_multiplies(g: nat, a: nat, b: nat, p: nat)
    requires
        p > 0,
    ensures
        pow_mod(g, a * b, p) == pow_mod(pow_mod(g, a, p), b, p),
        pow_mod(g, b * a, p) == pow_mod(pow_mod(g, a, p), b, p),
{
    lemma_pow_mod_bound(g, a, p);
    lemma_pow_multiplies(g as int, a, b);
    lemma_pow_mod_noop(pow(g as int, a), b, p as int);
    lemma_mul_is_commutative(a as int, b as int);
}

/// Every power of one is one.
pub proof fn lemma_pow_mod_of_one(e: nat, p: nat)
    requires
        p > 1,
    ensures
        pow_mod(1, e, p) == 1,
{
    lemma1_pow(e);
    lemma_small_mod(1, p);
}

/// An exponent that takes `g` to one does so in all its multiples.
pub proof fn lemma_exponent_multiple(g: nat, n: nat, k: nat, p: nat)
    requires
        p > 1,
        pow_mod(g, n, p) == 1,
    ensures
        pow_mod(g, n * k, p) == 1,
        pow_mod(g, k * n, p) == 1,
{
    lemma_pow_mod_multiplies(g, n, k, p);
    lemma_pow_mod_of_one(k, p);
}

/// Where `n` takes `g` to one, only the exponent modulo `n` matters.
pub proof fn lemma_exponent_reduces(g: nat, n: nat, a: nat, p: nat)
    requires
        p > 1,
        n > 0,
        pow_mod(g, n, p) == 1,
    ensures
        pow_mod(g, a, p) == pow_mod(g, a % n, p),
{
    lemma_fundamental_div_mod(a as int, n as int);
    lemma_exponent_multiple(g, n, a / n, p);
    lemma_pow_mod_adds(g, n * (a / n), a % n, p);
    lemma_pow_mod_bound(g, a % n, p);
    lemma_mul_basics(pow_mod(g, a % n, p) as int);
    lemma_small_mod(pow_mod(g, a % n, p), p);
}

/// Where `n` takes `g` to one, exponents that agree modulo `n` give the same
/// power.
pub proof fn lemma_exponent_congruent(g: nat, n: nat, a: nat, b: nat, p: nat)
    requires
        p > 1,
        n > 0,
        pow_mod(g, n, p) == 1,
        a % n == b % n,
    ensures
        pow_mod(g, a, p) == pow_mod(g, b, p),
{
    lemma_exponent_reduces(g, n, a, p);
    lemma_exponent_reduces(g, n, b, p);
}

/// The exponents that take `g` to one are closed under the greatest common
/// divisor.
pub proof fn lemma_exponent_gcd(g: nat, a: nat, b: nat, p: nat)
    requires
        p > 1,
        pow_mod(g, a, p) == 1,
        pow_mod(g, b, p) == 1,
    ensures
        pow_mod(g, gcd(a, b), p) == 1,
    decreases b,
{
    if b > 0 {
        lemma_exponent_reduces(g, b, a, p);
        lemma_exponent_gcd(g, b, a % b, p);
    }
}

/// Below its order, distinct exponents give distinct powers of `g`.
pub proof fn lemma_order_injective(g: nat, p: nat, n: nat, a: nat, b: nat)
    requires
        p > 1,
        has_order(g, p, n),
        a <= b < n,
        pow_mod(g, a, p) == pow_mod(g, b, p),
    ensures
        a == b,
{
    if a < b {
        let d = (b - a) as nat;
        let c = (n - a) as nat;
        // g^(b - a) == g^(b - a) * g^n == g^b * g^(n - a) == g^a * g^(n - a) == g^n == 1
        lemma_pow_mod_adds(g, b, c, p);
        lemma_pow_mod_adds(g, a, c, p);
        assert(a + c == n);
        assert(b + c == n + d);
        lemma_pow_mod_adds(g, n, d, p);
        lemma_pow_mod_bound(g, d, p);
        lemma_mul_basics(pow_mod(g, d, p) as int);
        lemma_small_mod(pow_mod(g, d, p), p);
        assert(pow_mod(g, d, p) == 1);
    }
}

} // verus!
