//! The Pohlig–Hellman method: a discrete logarithm modulo `p` from one small
//! logarithm per prime power of the group order `p - 1`.

use crate::big::{big_from_u128, big_to_u128, biguint_value};
use crate::bsgs::{baby_step_giant_step, bsgs_value};
use crate::crt::{big_values, chinese_remainder_theorem, crt_value, product};
use crate::factor::{
    factor_order, factor_pairs, is_factorization, lemma_prime_power_divides, prime_power_product,
    prime_powers,
};
use crate::modular::{mod_pow, pow_mod, MAX_MODULUS};
use num::bigint::BigUint;
use vstd::arithmetic::div_mod::*;
use vstd::arithmetic::mul::*;
use vstd::arithmetic::power::*;
use vstd::prelude::*;

verus! {

/// `f` is the factorisation of the group order `n`; an order of zero, which
/// belongs to the modulus one, has no factors.
pub open spec fn is_order_factorization(f: Seq<(nat, nat)>, n: nat) -> bool {
    if n == 0 {
        f.len() == 0
    } else {
        is_factorization(f, n)
    }
}

/// The logarithm of `h` to the base `g` in the subgroup whose order divides
/// `q`: both are raised to the cofactor `(p - 1) / q`, and the reduced problem
/// goes to baby-step/giant-step.
pub open spec fn subgroup_log(g: nat, h: nat, p: nat, q: nat) -> Option<nat> {
    let cofactor = ((p - 1) / (q as int)) as nat;
    bsgs_value(pow_mod(g, cofactor, p), pow_mod(h, cofactor, p), p, q)
}

/// The logarithms in the subgroups of the given orders, where all of them
/// exist.
pub open spec fn subgroup_logs(g: nat, h: nat, p: nat, moduli: Seq<nat>) -> Seq<nat> {
    Seq::new(moduli.len(), |i: int| subgroup_log(g, h, p, moduli[i]).unwrap())
}

/// All subgroup problems have a solution.
pub open spec fn subgroups_solved(g: nat, h: nat, p: nat, moduli: Seq<nat>) -> bool {
    forall|i: int| 0 <= i < moduli.len() ==> subgroup_log(g, h, p, #[trigger] moduli[i]) is Some
}

/// The exponent that the method reconstructs over the subgroup orders
/// `moduli`: the combination of the subgroup logarithms, kept only if `g`
/// raised to it is `h`.
pub open spec fn discrete_log_over(g: nat, h: nat, p: nat, moduli: Seq<nat>) -> Option<nat> {
    if !subgroups_solved(g, h, p, moduli) {
        None
    } else {
        match crt_value(subgroup_logs(g, h, p, moduli), moduli) {
            Some(x) => if pow_mod(g, x, p) == h {
                Some(x)
            } else {
                None
            },
            None => None,
        }
    }
}

/// `r` is what the method gives for `g`, `h` and `p`: the exponent
/// reconstructed over the prime powers of `p - 1`, or nothing.
pub open spec fn is_discrete_log_outcome(g: nat, h: nat, p: nat, r: Option<nat>) -> bool {
    exists|f: Seq<(nat, nat)>| #[trigger]
        is_order_factorization(f, (p - 1) as nat) && r == discrete_log_over(
            g,
            h,
            p,
            prime_powers(f),
        )
}

/// The method has one outcome on given numbers: two runs agree.
pub proof fn lemma_discrete_log_deterministic(
    g: nat,
    h: nat,
    p: nat,
    r1: Option<nat>,
    r2: Option<nat>,
)
    requires
        is_discrete_log_outcome(g, h, p, r1),
        is_discrete_log_outcome(g, h, p, r2),
    ensures
        r1 == r2,
{
    let n = (p - 1) as nat;
    let f1 = choose|f: Seq<(nat, nat)>| #[trigger]
        is_order_factorization(f, n) && r1 == discrete_log_over(g, h, p, prime_powers(f));
    let f2 = choose|f: Seq<(nat, nat)>| #[trigger]
        is_order_factorization(f, n) && r2 == discrete_log_over(g, h, p, prime_powers(f));
    if n == 0 {
        assert(f1 =~= f2);
    } else {
        crate::factor::lemma_factorization_unique(f1, f2, n);
    }
}

/// `h` is a power of `g` modulo `p`.
pub open spec fn is_power(g: nat, h: nat, p: nat) -> bool {
    exists|x: nat| #[trigger] pow_mod(g, x, p) == h
}

/// An exponent as a mathematical number.
pub open spec fn exponent_value(r: Option<u128>) -> Option<nat> {
    match r {
        Some(x) => Some(x as nat),
        None => None,
    }
}

/// The product of the prime powers is the number that they factor.
pub proof fn lemma_prime_powers_product(f: Seq<(nat, nat)>)
    ensures
        product(prime_powers(f)) == prime_power_product(f),
    decreases f.len(),
{
    if f.len() > 0 {
        lemma_prime_powers_product(f.drop_last());
        assert(prime_powers(f).drop_last() =~= prime_powers(f.drop_last()));
    }
}

/// `base` raised to `exp`, where the power fits in 128 bits.
pub fn int_pow(base: u128, exp: u32) -> (r: u128)
    requires
        pow(base as int, exp as nat) <= u128::MAX,
    ensures
        r == pow(base as int, exp as nat),
{
    let mut r: u128 = 1;
    let mut i: u32 = 0;
    proof {
        lemma_pow0(base as int);
    }
    while i < exp
        invariant
            i <= exp,
            r == pow(base as int, i as nat),
            pow(base as int, exp as nat) <= u128::MAX,
        decreases exp - i,
    {
        proof {
            lemma_pow_adds(base as int, i as nat, 1);
            lemma_pow1(base as int);
            if base > 0 {
                lemma_pow_increases(base as nat, (i + 1) as nat, exp as nat);
            } else {
                lemma_mul_basics(r as int);
            }
        }
        r = r * base;
        i += 1;
    }
    r
}

/// An exponent `x` with `g^x = h (mod p)`, by the Pohlig–Hellman method.
///
/// The group order `p - 1` is factored; for each prime power `q` the problem
/// is reduced to the subgroup of order `q` and solved there; the solutions
/// are combined modulo `p - 1`. The combined exponent is returned only if `g`
/// raised to it is `h`. The result is `None` if a subgroup problem has no
/// solution, if the solutions cannot be combined, or if the combined exponent
/// fails that test.
pub fn pohlig_hellman(g: u128, h: u128, p: u128) -> (r: Option<u128>)
    requires
        0 < p <= MAX_MODULUS,
    ensures
        is_discrete_log_outcome(g as nat, h as nat, p as nat, exponent_value(r)),
        r matches Some(x) ==> pow_mod(g as nat, x as nat, p as nat) == h && x < p,
        p > 1 && pow_mod(g as nat, (p - 1) as nat, p as nat) == 1 && is_power(
            g as nat,
            h as nat,
            p as nat,
        ) ==> r is Some,
{
    let order: u128 = p - 1;
    let factors = factor_order(order);
    let ghost f = factor_pairs(factors@);
    let ghost qs = prime_powers(f);
    let mut residues: Vec<BigUint> = Vec::new();
    let mut moduli: Vec<BigUint> = Vec::new();
    let mut k: usize = 0;
    while k < factors.len()
        invariant
            0 < p <= MAX_MODULUS,
            order == p - 1,
            f == factor_pairs(factors@),
            qs == prime_powers(f),
            is_order_factorization(f, order as nat),
            k <= factors@.len(),
            residues@.len() == k,
            moduli@.len() == k,
            forall|i: int| 0 <= i < k ==> biguint_value(#[trigger] moduli@[i]) == qs[i],
            forall|i: int|
                0 <= i < k ==> subgroup_log(g as nat, h as nat, p as nat, qs[i]) == Some(
                    biguint_value(#[trigger] residues@[i]),
                ),
        decreases factors@.len() - k,
    {
        let prime: u128 = factors[k].0;
        let exp: u32 = factors[k].1;
        proof {
            lemma_prime_power_divides(f, k as int);
            assert(f[k as int] == (prime as nat, exp as nat));
        }
        let prime_power = int_pow(prime, exp);
        let exp_factor = order / prime_power;
        let g_i = mod_pow(g, exp_factor, p);
        let h_i = mod_pow(h, exp_factor, p);
        proof {
            assert(prime_power <= MAX_MODULUS * MAX_MODULUS) by (nonlinear_arith)
                requires
                    prime_power <= MAX_MODULUS,
            ;
        }
        let x_i = match baby_step_giant_step(g_i, h_i, p, prime_power) {
            Some(x) => x,
            None => {
                proof {
                    assert(subgroup_log(g as nat, h as nat, p as nat, qs[k as int]) is None);
                    assert(!subgroups_solved(g as nat, h as nat, p as nat, qs));
                    assert(is_order_factorization(f, order as nat));
                    lemma_failure_excludes_power(g as nat, h as nat, p as nat);
                }
                return None;
            },
        };
        residues.push(big_from_u128(x_i));
        moduli.push(big_from_u128(prime_power));
        k += 1;
    }
    let ghost logs = subgroup_logs(g as nat, h as nat, p as nat, qs);
    proof {
        assert(big_values(moduli@) =~= qs);
        assert(big_values(residues@) =~= logs);
        assert forall|i: int| 0 <= i < qs.len() implies subgroup_log(
            g as nat,
            h as nat,
            p as nat,
            #[trigger] qs[i],
        ) is Some by {
            assert(biguint_value(residues@[i]) >= 0);
        }
        lemma_prime_powers_product(f);
        assert forall|i: int| 0 <= i < moduli@.len() implies biguint_value(#[trigger] moduli@[i])
            > 0 by {
            lemma_prime_power_divides(f, i);
        }
    }
    let result = match chinese_remainder_theorem(residues.as_slice(), moduli.as_slice()) {
        Some(x) => x,
        None => {
            proof {
                assert(is_order_factorization(f, order as nat));
                lemma_failure_excludes_power(g as nat, h as nat, p as nat);
            }
            return None;
        },
    };
    proof {
        // the combined exponent is below the product of the moduli
        let n = product(qs);
        if order > 0 {
            assert(n == order);
        } else {
            assert(qs.len() == 0);
            assert(n == 1);
        }
        lemma_mod_bound(
            crate::crt::crt_sum(logs, qs, n, crate::crt::paired_len(logs, qs)) as int,
            n as int,
        );
    }
    let result_u128 = match big_to_u128(&result) {
        Some(x) => x,
        None => {
            return None;
        },
    };
    if mod_pow(g, result_u128, p) == h {
        Some(result_u128)
    } else {
        proof {
            assert(is_order_factorization(f, order as nat));
            lemma_failure_excludes_power(g as nat, h as nat, p as nat);
        }
        None
    }
}

/// Where `g^(p - 1)` is one, the method fails only on numbers that are no
/// powers of `g`.
pub proof fn lemma_failure_excludes_power(g: nat, h: nat, p: nat)
    requires
        is_discrete_log_outcome(g, h, p, None),
    ensures
        p > 1 && pow_mod(g, (p - 1) as nat, p) == 1 ==> !is_power(g, h, p),
{
    if p > 1 && pow_mod(g, (p - 1) as nat, p) == 1 && is_power(g, h, p) {
        let x = choose|x: nat| #[trigger] pow_mod(g, x, p) == h;
        crate::complete::lemma_discrete_log_found(g, h, p, x, None);
    }
}

} // verus!
