//! When the Pohlig–Hellman method succeeds, and when its result is the
//! exponent that was used.

use crate::bsgs::{lemma_bsgs_complete, lemma_bsgs_scan_sound, step_count};
use crate::crt::{
    crt_sum, crt_term, crt_value, inverse_mod, lemma_congruent_mod_product, lemma_crt_solves,
    lemma_crt_sum_residue, lemma_inverse_coprime, product,
};
use crate::exponent::{
    has_order, lemma_exponent_congruent, lemma_exponent_multiple, lemma_exponent_reduces,
    lemma_order_injective, lemma_pow_mod_adds, lemma_pow_mod_multiplies,
};
use crate::factor::{lemma_prime_power_divides, lemma_prime_powers_coprime, prime_powers};
use crate::modular::pow_mod;
use crate::numbers::lemma_exact_quotient;
use crate::pohlig::{
    discrete_log_over, is_discrete_log_outcome, is_order_factorization,
    lemma_prime_powers_product, subgroup_log, subgroup_logs,
};
use vstd::arithmetic::div_mod::*;
use vstd::arithmetic::mul::*;
use vstd::prelude::*;

verus! {

/// The subgroup problem for a divisor `q` of `p - 1` has a solution whenever
/// `h` is a power of `g` and `g^(p - 1)` is one; the solution and the true
/// exponent give the same power of the reduced base.
pub proof fn lemma_subgroup_log(g: nat, h: nat, p: nat, x: nat, q: nat)
    requires
        p > 1,
        q > 0,
        (p - 1) % (q as int) == 0,
        pow_mod(g, (p - 1) as nat, p) == 1,
        h == pow_mod(g, x, p),
    ensures
        subgroup_log(g, h, p, q) is Some,
        pow_mod(pow_mod(g, ((p - 1) / (q as int)) as nat, p), q, p) == 1,
        pow_mod(
            pow_mod(g, ((p - 1) / (q as int)) as nat, p),
            subgroup_log(g, h, p, q).unwrap(),
            p,
        ) == pow_mod(pow_mod(g, ((p - 1) / (q as int)) as nat, p), x, p),
{
    let n = (p - 1) as nat;
    let c = n / q;
    let gi = pow_mod(g, c, p);
    let hi = pow_mod(h, c, p);
    let m = step_count(q);
    lemma_exact_quotient(n as int, q as int);
    // the reduced target is the same power of the reduced base
    lemma_pow_mod_multiplies(g, x, c, p);
    lemma_pow_mod_multiplies(g, c, x, p);
    lemma_mul_is_commutative(x as int, c as int);
    assert(hi == pow_mod(gi, x, p));
    // the reduced base has an order that divides q
    lemma_pow_mod_multiplies(g, c, q, p);
    assert(pow_mod(gi, q, p) == 1);
    let y = x % q;
    lemma_mod_bound(x as int, q as int);
    lemma_exponent_reduces(gi, q, x, p);
    // gi^m has the inverse gi^(m (q - 1))
    let rest = (m * (q - 1)) as nat;
    assert(m + rest == q * m) by (nonlinear_arith)
        requires
            rest == m * (q - 1),
            q > 0,
    ;
    lemma_exponent_multiple(gi, q, m, p);
    lemma_pow_mod_adds(gi, m, rest, p);
    lemma_small_mod(1, p);
    lemma_inverse_coprime(pow_mod(gi, m, p), pow_mod(gi, rest, p), p);
    lemma_bsgs_complete(gi, hi, p, q, y);
    lemma_bsgs_scan_sound(gi, hi, p, m, inverse_mod(pow_mod(gi, m, p), p), 0);
}

/// The sum of the contributions for residues that are all one.
pub open spec fn unit_sum(moduli: Seq<nat>, k: nat) -> nat {
    crt_sum(Seq::new(moduli.len(), |i: int| 1nat), moduli, product(moduli), k)
}

/// If `g` gives the same power to `c * a` and to `c * b` for the cofactor `c`
/// of each modulus, it does so for the sum of the unit contributions times `a`
/// and times `b`.
proof fn lemma_combined_exponent(g: nat, p: nat, moduli: Seq<nat>, a: nat, b: nat, k: nat)
    requires
        p > 1,
        k <= moduli.len(),
        forall|i: int|
            0 <= i < moduli.len() ==> pow_mod(g, (product(moduli) / #[trigger] moduli[i]) * a, p)
                == pow_mod(g, (product(moduli) / moduli[i]) * b, p),
    ensures
        pow_mod(g, unit_sum(moduli, k) * a, p) == pow_mod(g, unit_sum(moduli, k) * b, p),
    decreases k,
{
    let n = product(moduli);
    let ones = Seq::new(moduli.len(), |i: int| 1nat);
    if k == 0 {
        lemma_mul_basics(a as int);
        lemma_mul_basics(b as int);
    } else {
        lemma_combined_exponent(g, p, moduli, a, b, (k - 1) as nat);
        let before = unit_sum(moduli, (k - 1) as nat);
        let m = moduli[k - 1];
        let c = n / m;
        let inv = inverse_mod(c, m);
        let t = crt_term(1, m, n);
        assert(ones[k - 1] == 1);
        assert(unit_sum(moduli, k) == before + t);
        assert(t == c * inv) by (nonlinear_arith)
            requires
                t == 1 * c * inv,
        ;
        assert((before + t) * a == before * a + (c * a) * inv && (before + t) * b == before * b
            + (c * b) * inv) by (nonlinear_arith)
            requires
                t == c * inv,
        ;
        lemma_pow_mod_adds(g, before * a, (c * a) * inv, p);
        lemma_pow_mod_adds(g, before * b, (c * b) * inv, p);
        lemma_pow_mod_multiplies(g, c * a, inv, p);
        lemma_pow_mod_multiplies(g, c * b, inv, p);
    }
}

/// The method succeeds on every power of `g`, provided that `g^(p - 1)` is
/// one modulo `p`: it returns an exponent below `p - 1` that gives `h`.
pub proof fn lemma_discrete_log_found(g: nat, h: nat, p: nat, x: nat, r: Option<nat>)
    requires
        p > 1,
        pow_mod(g, (p - 1) as nat, p) == 1,
        h == pow_mod(g, x, p),
        is_discrete_log_outcome(g, h, p, r),
    ensures
        r is Some,
        r.unwrap() < p - 1,
        pow_mod(g, r.unwrap(), p) == h,
{
    let n = (p - 1) as nat;
    let f = choose|f: Seq<(nat, nat)>| #[trigger]
        is_order_factorization(f, n) && r == discrete_log_over(g, h, p, prime_powers(f));
    let qs = prime_powers(f);
    lemma_prime_powers_coprime(f);
    lemma_prime_powers_product(f);
    assert(product(qs) == n);
    // every subgroup problem is solved
    assert forall|i: int| 0 <= i < qs.len() implies subgroup_log(g, h, p, #[trigger] qs[i])
        is Some by {
        lemma_prime_power_divides(f, i);
        lemma_subgroup_log(g, h, p, x, qs[i]);
    }
    let logs = subgroup_logs(g, h, p, qs);
    lemma_crt_solves(logs, qs);
    let big = crt_value(logs, qs).unwrap();
    // for each cofactor c, g^(c big) == g^(c x)
    assert forall|i: int| 0 <= i < qs.len() implies pow_mod(g, (n / #[trigger] qs[i]) * big, p)
        == pow_mod(g, (n / qs[i]) * x, p) by {
        let q = qs[i];
        let c = n / q;
        let gi = pow_mod(g, c, p);
        lemma_prime_power_divides(f, i);
        lemma_subgroup_log(g, h, p, x, q);
        lemma_pow_mod_multiplies(g, c, big, p);
        lemma_pow_mod_multiplies(g, c, x, p);
        assert(big % q == logs[i] % q);
        lemma_exponent_congruent(gi, q, big, logs[i], p);
    }
    // the unit contributions add up to one modulo p - 1
    let e = unit_sum(qs, qs.len());
    let ones = Seq::new(qs.len(), |i: int| 1nat);
    assert forall|i: int| 0 <= i < qs.len() implies e % #[trigger] qs[i] == 1nat % qs[i] by {
        lemma_crt_sum_residue(ones, qs, qs.len(), i);
    }
    lemma_congruent_mod_product(qs, e, 1);
    lemma_combined_exponent(g, p, qs, big, x, qs.len());
    lemma_unit_factor(e, big, n);
    lemma_unit_factor(e, x, n);
    lemma_exponent_congruent(g, n, e * big, big, p);
    lemma_exponent_congruent(g, n, e * x, x, p);
}

/// A factor that is one modulo `n` does not change a number modulo `n`.
proof fn lemma_unit_factor(e: nat, a: nat, n: nat)
    requires
        n > 0,
        e % n == 1nat % n,
    ensures
        (e * a) % n == a % n,
{
    lemma_mul_mod_noop_left(e as int, a as int, n as int);
    lemma_mul_mod_noop_left(1, a as int, n as int);
    lemma_mul_basics(a as int);
}

/// Where `g` generates the group, the method returns the exponent that gave
/// `h`.
pub proof fn lemma_discrete_log_exact(g: nat, h: nat, p: nat, x: nat, r: Option<nat>)
    requires
        p > 1,
        has_order(g, p, (p - 1) as nat),
        x < p - 1,
        h == pow_mod(g, x, p),
        is_discrete_log_outcome(g, h, p, r),
    ensures
        r == Some(x),
{
    lemma_discrete_log_found(g, h, p, x, r);
    let y = r.unwrap();
    if y <= x {
        lemma_order_injective(g, p, (p - 1) as nat, y, x);
    } else {
        lemma_order_injective(g, p, (p - 1) as nat, x, y);
    }
}

} // verus!
