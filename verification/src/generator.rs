//! Generators: how to recognise an element of full order, and what follows
//! once there is one.

use crate::bsgs::is_power_below;
use crate::crt::lemma_inverse_coprime;
use crate::exponent::{
    has_order, lemma_exponent_gcd, lemma_exponent_multiple, lemma_order_injective,
    lemma_pow_mod_adds, lemma_pow_mod_bound,
};
use crate::factor::{is_factorization, lemma_prime_in_list};
use crate::modular::pow_mod;
use crate::numbers::{
    gcd, is_prime, lemma_divides_transitive, lemma_exact_quotient, lemma_gcd_divides,
    lemma_gcd_greatest, lemma_prime_divisor,
};
use vstd::arithmetic::div_mod::*;
use vstd::arithmetic::mul::*;
use vstd::prelude::*;
use vstd::relations::injective_on;
use vstd::set_lib::{lemma_int_range, lemma_map_size, lemma_subset_equality, set_int_range};

verus! {

/// An element `g` with `g^n = 1` whose powers to `n / q` differ from one for
/// every prime `q` of `n` has the order `n`.
pub proof fn lemma_order_by_prime_checks(g: nat, p: nat, n: nat, f: Seq<(nat, nat)>)
    requires
        p > 1,
        n > 0,
        is_factorization(f, n),
        pow_mod(g, n, p) == 1,
        forall|i: int| 0 <= i < f.len() ==> pow_mod(g, n / (#[trigger] f[i]).0, p) != 1,
    ensures
        has_order(g, p, n),
{
    assert forall|k: nat| 0 < k < n implies #[trigger] pow_mod(g, k, p) != 1 by {
        if pow_mod(g, k, p) == 1 {
            // the common divisor d of k and n takes g to one as well
            let d = gcd(k, n);
            lemma_exponent_gcd(g, k, n, p);
            lemma_gcd_divides(k, n);
            if d > k {
                lemma_small_mod(k, d);
            }
            let c = n / d;
            lemma_exact_quotient(n as int, d as int);
            assert(c >= 2) by (nonlinear_arith)
                requires
                    n == d * c,
                    0 < d < n,
            ;
            // a prime q of n / d is a prime of n, and d divides n / q
            let q = lemma_prime_divisor(c);
            lemma_mod_multiples_basic(d as int, c as int);
            lemma_mul_is_commutative(d as int, c as int);
            lemma_divides_transitive(q, c, n);
            let i = lemma_prime_in_list(f, q);
            lemma_exact_quotient(c as int, q as int);
            let e = c / q;
            assert(n == q * (d * e)) by (nonlinear_arith)
                requires
                    n == d * c,
                    c == e * q,
            ;
            lemma_div_multiples_vanish((d * e) as int, q as int);
            assert(n / q == d * e);
            lemma_exponent_multiple(g, d, e, p);
            assert(pow_mod(g, n / f[i].0, p) == 1);
        }
    }
}

/// An element of order `p - 1` modulo `p` reaches every residue from one to
/// `p - 1`.
pub proof fn lemma_generator_reaches_all(g: nat, p: nat)
    requires
        p > 1,
        has_order(g, p, (p - 1) as nat),
    ensures
        forall|v: nat| 1 <= v < p ==> #[trigger] is_power_below(g, v, p, (p - 1) as nat),
{
    let n = (p - 1) as nat;
    let f = |k: int| pow_mod(g, k as nat, p) as int;
    let exponents = set_int_range(0, n as int);
    let image = exponents.map(f);
    let residues = set_int_range(1, p as int);
    lemma_int_range(0, n as int);
    lemma_int_range(1, p as int);
    assert(injective_on(f, exponents)) by {
        assert forall|a: int, b: int|
            exponents.contains(a) && exponents.contains(b) && #[trigger] f(a) == #[trigger] f(
                b,
            ) implies a == b by {
            if a <= b {
                lemma_order_injective(g, p, n, a as nat, b as nat);
            } else {
                lemma_order_injective(g, p, n, b as nat, a as nat);
            }
        }
    }
    lemma_map_size(exponents, image, f);
    assert(image.subset_of(residues)) by {
        assert forall|v: int| image.contains(v) implies residues.contains(v) by {
            let k = choose|k: int| exponents.contains(k) && f(k) == v;
            lemma_power_is_unit(g, p, n, k as nat);
        }
    }
    lemma_subset_equality(image, residues);
    assert forall|v: nat| 1 <= v < p implies #[trigger] is_power_below(g, v, p, n) by {
        assert(residues.contains(v as int));
        assert(image.contains(v as int));
        let k = choose|k: int| exponents.contains(k) && f(k) == v as int;
        assert(pow_mod(g, k as nat, p) == v);
    }
}

/// A power of an element of finite order is neither zero nor shares a factor
/// with the modulus.
pub proof fn lemma_power_is_unit(g: nat, p: nat, n: nat, k: nat)
    requires
        p > 1,
        n > 0,
        pow_mod(g, n, p) == 1,
    ensures
        0 < pow_mod(g, k, p) < p,
        gcd(pow_mod(g, k, p), p) == 1,
{
    // g^k * g^(n k - k) == g^(n k) == 1
    let rest = (k * (n - 1)) as nat;
    assert(k + rest == n * k) by (nonlinear_arith)
        requires
            rest == k * (n - 1),
            n > 0,
    ;
    lemma_exponent_multiple(g, n, k, p);
    lemma_pow_mod_adds(g, k, rest, p);
    lemma_pow_mod_bound(g, k, p);
    lemma_small_mod(1, p);
    lemma_inverse_coprime(pow_mod(g, k, p), pow_mod(g, rest, p), p);
    if pow_mod(g, k, p) == 0 {
        lemma_mul_basics(pow_mod(g, rest, p) as int);
        lemma_small_mod(0, p);
    }
}

/// Lucas's test: a modulus with an element of order `p - 1` is prime.
pub proof fn lemma_prime_by_generator(g: nat, p: nat)
    requires
        p > 1,
        has_order(g, p, (p - 1) as nat),
    ensures
        is_prime(p),
{
    lemma_generator_reaches_all(g, p);
    assert forall|d: nat| 2 <= d < p implies #[trigger] (p % d) != 0 by {
        if p % d == 0 {
            // d is a power of g, so it is coprime to p, yet it divides p
            assert(is_power_below(g, d, p, (p - 1) as nat));
            let k = choose|k: nat| k < p - 1 && #[trigger] pow_mod(g, k, p) == d;
            lemma_power_is_unit(g, p, (p - 1) as nat, k);
            lemma_mod_self_0(d as int);
            lemma_gcd_greatest(d, p, d);
            lemma_small_mod(1, d);
        }
    }
}

} // verus!
