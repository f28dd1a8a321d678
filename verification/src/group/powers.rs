//! Modular powers of given numbers, followed through binary exponentiation
//! one squaring at a time, and products of given prime powers.

use crate::factor::{is_prime_power_list, prime_power_product};
use crate::modular::{lemma_pow_mod_halves, pow_mod};
use crate::numbers::is_prime;
use vstd::arithmetic::div_mod::lemma_small_mod;
use vstd::arithmetic::power::*;
use vstd::prelude::*;

verus! {

/// `b^e` modulo `m` as binary exponentiation computes it, one bit of the
/// exponent per step.
#[verifier::opaque]
pub open spec fn square_multiply(b: nat, e: nat, m: nat) -> nat
    decreases e,
{
    if e == 0 {
        1nat % m
    } else if e % 2 == 1 {
        (b * square_multiply((b * b) % m, e / 2, m)) % m
    } else {
        square_multiply((b * b) % m, e / 2, m)
    }
}

/// Binary exponentiation computes the modular power.
pub proof fn lemma_square_multiply(b: nat, e: nat, m: nat)
    requires
        m > 0,
    ensures
        square_multiply(b, e, m) == pow_mod(b, e, m),
    decreases e,
{
    reveal(square_multiply);
    if e == 0 {
        lemma_pow0(b as int);
    } else {
        lemma_square_multiply((b * b) % m, e / 2, m);
        lemma_pow_mod_halves(b, e, m);
    }
}

/// Any base to the power zero is one.
pub proof fn lemma_square_multiply_start(b: nat, m: nat)
    requires
        m > 1,
    ensures
        square_multiply(b, 0, m) == 1,
{
    reveal(square_multiply);
    lemma_small_mod(1, m);
}

/// One step of binary exponentiation on given numbers: from the value `v2`
/// for the squared base `b2` and the halved exponent `e2` to the value `v`
/// for the base `b` and the exponent `e`.
pub proof fn lemma_square_multiply_step(b: nat, e: nat, m: nat, b2: nat, e2: nat, v2: nat, v: nat)
    requires
        m > 0,
        e > 0,
        e2 == e / 2,
        b2 == (b * b) % m,
        square_multiply(b2, e2, m) == v2,
        v == (if e % 2 == 1 {
            (b * v2) % m
        } else {
            v2
        }),
    ensures
        square_multiply(b, e, m) == v,
{
    reveal(square_multiply);
}

/// A list of prime powers stays one when a larger prime is added, and its
/// product grows by the new prime power.
pub proof fn lemma_list_extends(f: Seq<(nat, nat)>, prime: nat, exp: nat)
    requires
        is_prime_power_list(f),
        is_prime(prime),
        exp >= 1,
        f.len() > 0 ==> f.last().0 < prime,
    ensures
        is_prime_power_list(f.push((prime, exp))),
        prime_power_product(f.push((prime, exp))) == prime_power_product(f) * pow(
            prime as int,
            exp,
        ),
{
    let g = f.push((prime, exp));
    assert(g.drop_last() =~= f);
    lemma_pow_positive(prime as int, exp);
    assert forall|i: int| 0 <= i < g.len() implies is_prime(#[trigger] g[i].0) && g[i].1 >= 1 by {
        if i < f.len() {
            assert(g[i] == f[i]);
            assert(is_prime(f[i].0) && f[i].1 >= 1);
        }
    }
    assert forall|i: int, j: int| 0 <= i < j < g.len() implies #[trigger] g[i].0
        < #[trigger] g[j].0 by {
        assert(g[i] == f[i]);
        if j < f.len() {
            assert(g[j] == f[j]);
            assert(f[i].0 < f[j].0);
        } else if i < f.len() - 1 {
            assert(f[i].0 < f[f.len() - 1].0);
        }
    }
}

} // verus!
