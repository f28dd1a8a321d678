//! Reconstruction of a number from its residues modulo pairwise coprime
//! moduli, over unbounded integers.

use crate::big::{
    big_add, big_clone, big_div, big_from_u128, big_is_one, big_is_zero, big_mul, big_rem,
    bigint_value, biguint_value, signed_add, signed_from_big, signed_mul, signed_rem, signed_sub,
    signed_to_big,
};
use crate::modular::is_inverse_mod;
use crate::numbers::{
    gcd, lemma_combination_one_coprime, lemma_coprime_divisors_multiply, lemma_coprime_product,
    lemma_divides_multiple, lemma_inverse_residue, lemma_signed_remainder_lifted,
};
use num::bigint::{BigInt, BigUint};
use vstd::arithmetic::div_mod::*;
use vstd::arithmetic::mul::*;
use vstd::prelude::*;

verus! {

/// The values held by a sequence of big integers.
pub open spec fn big_values(s: Seq<BigUint>) -> Seq<nat> {
    Seq::new(s.len(), |i: int| biguint_value(s[i]))
}

/// The product of all elements; one for the empty sequence.
pub open spec fn product(s: Seq<nat>) -> nat
    decreases s.len(),
{
    if s.len() == 0 {
        1
    } else {
        product(s.drop_last()) * s.last()
    }
}

/// The inverse of `a` modulo `m` in `[0, m)`, where there is one.
pub open spec fn inverse_mod(a: nat, m: nat) -> nat {
    choose|x: nat| is_inverse_mod(a, x, m)
}

/// The contribution of one congruence `x = r (mod m)` to the solution modulo
/// `n`: it is `r` modulo `m` and zero modulo every other modulus.
pub open spec fn crt_term(r: nat, m: nat, n: nat) -> nat {
    r * (n / m) * inverse_mod(n / m, m)
}

/// The sum of the contributions of the first `k` congruences.
pub open spec fn crt_sum(residues: Seq<nat>, moduli: Seq<nat>, n: nat, k: nat) -> nat
    decreases k,
{
    if k == 0 {
        0
    } else {
        crt_sum(residues, moduli, n, (k - 1) as nat) + crt_term(
            residues[k - 1],
            moduli[k - 1],
            n,
        )
    }
}

/// Each of the first `k` moduli is coprime to the product of the others.
pub open spec fn crt_solvable(moduli: Seq<nat>, n: nat, k: nat) -> bool {
    forall|i: int| 0 <= i < k ==> gcd(n / #[trigger] moduli[i], moduli[i]) == 1
}

/// The number of congruences that two sequences pair up.
pub open spec fn paired_len(residues: Seq<nat>, moduli: Seq<nat>) -> nat {
    if residues.len() <= moduli.len() {
        residues.len()
    } else {
        moduli.len()
    }
}

/// The reconstructed value: the sum of all contributions, reduced modulo the
/// product of the moduli; `None` where some modulus shares a factor with the
/// product of the others.
pub open spec fn crt_value(residues: Seq<nat>, moduli: Seq<nat>) -> Option<nat> {
    let n = product(moduli);
    let k = paired_len(residues, moduli);
    if crt_solvable(moduli, n, k) {
        Some(crt_sum(residues, moduli, n, k) % n)
    } else {
        None
    }
}

/// An inverse modulo `m` is unique in `[0, m)`.
pub proof fn lemma_inverse_unique(a: nat, x: nat, y: nat, m: nat)
    requires
        is_inverse_mod(a, x, m),
        is_inverse_mod(a, y, m),
    ensures
        x == y,
{
    if m > 1 {
        let mi = m as int;
        lemma_small_mod(1, m);
        // x == x * (a * y) == y * (a * x) == y   (mod m)
        lemma_mul_mod_noop_right(x as int, (a * y) as int, mi);
        lemma_mul_mod_noop_right(y as int, (a * x) as int, mi);
        assert(x * (a * y) == y * (a * x)) by (nonlinear_arith);
        lemma_mul_basics(x as int);
        lemma_mul_basics(y as int);
        lemma_small_mod(x, m);
        lemma_small_mod(y, m);
    }
}

/// A number with an inverse modulo `m` is coprime to `m`.
pub proof fn lemma_inverse_coprime(a: nat, x: nat, m: nat)
    requires
        m > 0,
        (a * x) % m == 1nat % m,
    ensures
        gcd(a, m) == 1,
{
    if m == 1 {
        assert(gcd(a, 1) == gcd(1, a % 1));
        assert(gcd(1, 0) == 1);
    } else {
        lemma_small_mod(1, m);
        let k = ((a * x) / m) as int;
        lemma_fundamental_div_mod((a * x) as int, m as int);
        assert(a * x + m * (-k) == 1) by (nonlinear_arith)
            requires
                a * x == m * k + 1,
        ;
        lemma_combination_one_coprime(a, m, x as int, -k);
    }
}

/// A number coprime to `m` has an inverse modulo `m`, and `inverse_mod` is it.
pub proof fn lemma_inverse_exists(a: nat, m: nat)
    requires
        m > 0,
        gcd(a, m) == 1,
    ensures
        is_inverse_mod(a, inverse_mod(a, m), m),
{
    let (x, y) = crate::numbers::lemma_bezout(a, m);
    lemma_mul_is_commutative(a as int, x);
    lemma_inverse_residue(a as int, x, y, m as int, x % (m as int));
    assert(is_inverse_mod(a, (x % (m as int)) as nat, m));
}

/// The inverse of `a` modulo `m` for big integers, by the extended Euclidean
/// algorithm; `None` when `a` and `m` share a factor.
///
/// A modulus of zero has no residues; it is accepted for every `a` but one,
/// and gives `None`.
pub fn mod_inverse_big(a: &BigUint, m: &BigUint) -> (r: Option<BigUint>)
    requires
        biguint_value(*m) > 0 || biguint_value(*a) != 1,
    ensures
        match r {
            Some(x) => gcd(biguint_value(*a), biguint_value(*m)) == 1 && is_inverse_mod(
                biguint_value(*a),
                biguint_value(x),
                biguint_value(*m),
            ),
            None => gcd(biguint_value(*a), biguint_value(*m)) != 1,
        },
{
    let ghost va = biguint_value(*a);
    let ghost vm = biguint_value(*m);
    let mut old_r = big_clone(a);
    let mut r = big_clone(m);
    let mut old_s: BigInt = signed_from_big(big_from_u128(1));
    let mut s: BigInt = signed_from_big(big_from_u128(0));
    let ghost mut old_t: int = 0;
    let ghost mut t: int = 1;
    proof {
        lemma_mul_basics(va as int);
        lemma_mul_basics(vm as int);
    }
    while !big_is_zero(&r)
        invariant
            va == biguint_value(*a),
            vm == biguint_value(*m),
            gcd(biguint_value(old_r), biguint_value(r)) == gcd(va, vm),
            bigint_value(old_s) * va + old_t * vm == biguint_value(old_r),
            bigint_value(s) * va + t * vm == biguint_value(r),
        decreases biguint_value(r),
    {
        let q = big_div(&old_r, &r);
        let q_int = signed_from_big(big_clone(&q));
        let new_r = big_rem(&old_r, &r);
        let new_s = signed_sub(&old_s, &signed_mul(&q_int, &s));
        proof {
            let qv = biguint_value(q) as int;
            let new_t = old_t - qv * t;
            lemma_fundamental_div_mod(biguint_value(old_r) as int, biguint_value(r) as int);
            lemma_mod_bound(biguint_value(old_r) as int, biguint_value(r) as int);
            assert(bigint_value(new_s) * va + new_t * vm == biguint_value(new_r))
                by (nonlinear_arith)
                requires
                    bigint_value(old_s) * va + old_t * vm == biguint_value(old_r),
                    bigint_value(s) * va + t * vm == biguint_value(r),
                    biguint_value(old_r) == biguint_value(r) * qv + biguint_value(new_r),
                    bigint_value(new_s) == bigint_value(old_s) - qv * bigint_value(s),
                    new_t == old_t - qv * t,
            ;
            old_t = t;
            t = new_t;
        }
        old_r = r;
        r = new_r;
        old_s = s;
        s = new_s;
    }
    if !big_is_one(&old_r) {
        return None;
    }
    let m_int: BigInt = signed_from_big(big_clone(m));
    let result = signed_rem(&signed_add(&signed_rem(&old_s, &m_int), &m_int), &m_int);
    proof {
        let sv = bigint_value(old_s);
        let x = bigint_value(result);
        lemma_mod_bound(sv, vm as int);
        lemma_mod_bound(-sv, vm as int);
        lemma_signed_remainder_lifted(sv, vm as int);
        assert(x == sv % (vm as int));
        lemma_inverse_residue(va as int, sv, old_t, vm as int, x);
    }
    Some(signed_to_big(&result).unwrap())
}

/// A product of positive numbers is positive.
pub proof fn lemma_product_positive(s: Seq<nat>)
    requires
        all_positive(s),
    ensures
        product(s) > 0,
    decreases s.len(),
{
    if s.len() > 0 {
        lemma_product_positive(s.drop_last());
        lemma_mul_strictly_positive(product(s.drop_last()) as int, s.last() as int);
    }
}

/// All elements are positive.
pub open spec fn all_positive(s: Seq<nat>) -> bool {
    forall|i: int| 0 <= i < s.len() ==> #[trigger] s[i] > 0
}

/// Any two elements at different places are coprime.
pub open spec fn pairwise_coprime(s: Seq<nat>) -> bool {
    forall|i: int, j: int|
        0 <= i < s.len() && 0 <= j < s.len() && i != j ==> gcd(#[trigger] s[i], #[trigger] s[j])
            == 1
}

/// The product is any one element times the product of the others.
pub proof fn lemma_product_remove(s: Seq<nat>, k: int)
    requires
        0 <= k < s.len(),
    ensures
        product(s) == s[k] * product(s.remove(k)),
    decreases s.len(),
{
    if k == s.len() - 1 {
        assert(s.remove(k) =~= s.drop_last());
        lemma_mul_is_commutative(s[k] as int, product(s.drop_last()) as int);
    } else {
        let init = s.drop_last();
        lemma_product_remove(init, k);
        assert(s.remove(k).drop_last() =~= init.remove(k));
        assert(s.remove(k).last() == s.last());
        let others = product(init.remove(k));
        assert((s[k] * others) * s.last() == s[k] * (others * s.last())) by (nonlinear_arith);
    }
}

/// Dividing the product by one element leaves the product of the others,
/// which each other element divides.
pub proof fn lemma_product_quotient(s: Seq<nat>, k: int)
    requires
        all_positive(s),
        0 <= k < s.len(),
    ensures
        product(s) / s[k] == product(s.remove(k)),
        product(s) % s[k] == 0,
        forall|i: int| 0 <= i < s.len() && i != k ==> (product(s) / s[k]) % #[trigger] s[i] == 0,
{
    lemma_product_remove(s, k);
    let others = s.remove(k);
    lemma_div_multiples_vanish(product(others) as int, s[k] as int);
    lemma_mod_multiples_basic(product(others) as int, s[k] as int);
    lemma_mul_is_commutative(product(others) as int, s[k] as int);
    assert forall|i: int| 0 <= i < s.len() && i != k implies product(others) % #[trigger] s[i]
        == 0 by {
        let at = if i < k {
            i
        } else {
            i - 1
        };
        assert(others[at] == s[i]);
        lemma_product_remove(others, at);
        lemma_mod_multiples_basic(product(others.remove(at)) as int, s[i] as int);
        lemma_mul_is_commutative(product(others.remove(at)) as int, s[i] as int);
    }
}

/// A product of numbers coprime to `m` is coprime to `m`.
pub proof fn lemma_coprime_to_product(s: Seq<nat>, m: nat)
    requires
        forall|i: int| 0 <= i < s.len() ==> gcd(#[trigger] s[i], m) == 1,
    ensures
        gcd(product(s), m) == 1,
    decreases s.len(),
{
    if s.len() == 0 {
        lemma_combination_one_coprime(1, m, 1, 0);
    } else {
        lemma_coprime_to_product(s.drop_last(), m);
        lemma_coprime_product(product(s.drop_last()), s.last(), m);
    }
}

/// Pairwise coprime moduli can be combined: each is coprime to the product of
/// the others.
pub proof fn lemma_crt_solvable(moduli: Seq<nat>)
    requires
        all_positive(moduli),
        pairwise_coprime(moduli),
    ensures
        crt_solvable(moduli, product(moduli), moduli.len()),
{
    let n = product(moduli);
    assert forall|i: int| 0 <= i < moduli.len() implies gcd(
        n / #[trigger] moduli[i],
        moduli[i],
    ) == 1 by {
        lemma_product_quotient(moduli, i);
        let others = moduli.remove(i);
        assert forall|j: int| 0 <= j < others.len() implies gcd(#[trigger] others[j], moduli[i])
            == 1 by {
            let at = if j < i {
                j
            } else {
                j + 1
            };
            assert(others[j] == moduli[at]);
        }
        lemma_coprime_to_product(others, moduli[i]);
    }
}

/// The sum of the first `k` contributions is the `i`-th residue modulo the
/// `i`-th modulus once it holds that contribution, and zero before.
pub proof fn lemma_crt_sum_residue(residues: Seq<nat>, moduli: Seq<nat>, k: nat, i: int)
    requires
        all_positive(moduli),
        pairwise_coprime(moduli),
        k <= residues.len(),
        k <= moduli.len(),
        0 <= i < moduli.len(),
    ensures
        crt_sum(residues, moduli, product(moduli), k) % moduli[i] == (if i < k {
            residues[i] % moduli[i]
        } else {
            0
        }),
    decreases k,
{
    let n = product(moduli);
    let m = moduli[i];
    if k == 0 {
        lemma_small_mod(0, m);
    } else {
        let at = (k - 1) as int;
        lemma_crt_sum_residue(residues, moduli, (k - 1) as nat, i);
        let before = crt_sum(residues, moduli, n, (k - 1) as nat);
        let r = residues[at];
        let c = n / moduli[at];
        let inv = inverse_mod(c, moduli[at]);
        let term = crt_term(r, moduli[at], n);
        lemma_add_mod_noop(before as int, term as int, m as int);
        lemma_product_quotient(moduli, at);
        if at == i {
            lemma_crt_solvable(moduli);
            lemma_inverse_exists(c, m);
            // term == r * (c * inv) == r   (mod m)
            lemma_mul_is_associative(r as int, c as int, inv as int);
            lemma_mul_mod_noop_right(r as int, (c * inv) as int, m as int);
            if m == 1 {
            } else {
                lemma_small_mod(1, m);
                lemma_mul_basics(r as int);
            }
            lemma_small_mod(0, m);
            lemma_mod_twice(r as int, m as int);
        } else {
            // c is a multiple of m
            lemma_divides_multiple(m, r, c);
            lemma_divides_multiple(m, inv, r * c);
            lemma_small_mod(0, m);
            lemma_mod_twice(before as int, m as int);
            if i < k {
                lemma_mod_twice(residues[i] as int, m as int);
            }
        }
    }
}

/// The Chinese Remainder Theorem: for pairwise coprime moduli the system has
/// a solution below their product, and `crt_value` is that solution.
pub proof fn lemma_crt_solves(residues: Seq<nat>, moduli: Seq<nat>)
    requires
        residues.len() == moduli.len(),
        all_positive(moduli),
        pairwise_coprime(moduli),
    ensures
        crt_value(residues, moduli) is Some,
        crt_value(residues, moduli).unwrap() < product(moduli),
        forall|i: int|
            0 <= i < moduli.len() ==> crt_value(residues, moduli).unwrap() % #[trigger] moduli[i]
                == residues[i] % moduli[i],
{
    let n = product(moduli);
    let k = moduli.len();
    let sum = crt_sum(residues, moduli, n, k);
    lemma_crt_solvable(moduli);
    lemma_product_positive(moduli);
    lemma_mod_bound(sum as int, n as int);
    assert forall|i: int| 0 <= i < moduli.len() implies (sum % n) % #[trigger] moduli[i]
        == residues[i] % moduli[i] by {
        lemma_crt_sum_residue(residues, moduli, k, i);
        lemma_product_remove(moduli, i);
        lemma_product_positive(moduli.remove(i));
        lemma_mod_mod(sum as int, moduli[i] as int, product(moduli.remove(i)) as int);
    }
}

/// Two numbers that agree modulo each of several pairwise coprime moduli
/// agree modulo their product.
pub proof fn lemma_congruent_mod_product(moduli: Seq<nat>, a: nat, b: nat)
    requires
        all_positive(moduli),
        pairwise_coprime(moduli),
        forall|i: int| 0 <= i < moduli.len() ==> a % #[trigger] moduli[i] == b % moduli[i],
    ensures
        product(moduli) > 0,
        a % product(moduli) == b % product(moduli),
{
    lemma_product_positive(moduli);
    if a >= b {
        lemma_difference_divisible(moduli, a, b);
        lemma_mod_equivalence(a as int, b as int, product(moduli) as int);
    } else {
        lemma_difference_divisible(moduli, b, a);
        lemma_mod_equivalence(b as int, a as int, product(moduli) as int);
    }
}

proof fn lemma_difference_divisible(moduli: Seq<nat>, a: nat, b: nat)
    requires
        a >= b,
        all_positive(moduli),
        pairwise_coprime(moduli),
        forall|i: int| 0 <= i < moduli.len() ==> a % #[trigger] moduli[i] == b % moduli[i],
    ensures
        product(moduli) > 0,
        ((a - b) as nat) % product(moduli) == 0,
    decreases moduli.len(),
{
    lemma_product_positive(moduli);
    let z = (a - b) as nat;
    if moduli.len() == 0 {
    } else {
        let init = moduli.drop_last();
        let last = moduli.last();
        assert forall|i: int| 0 <= i < init.len() implies a % #[trigger] init[i] == b % init[i] by {
            assert(init[i] == moduli[i]);
        }
        assert(pairwise_coprime(init)) by {
            assert forall|i: int, j: int|
                0 <= i < init.len() && 0 <= j < init.len() && i != j implies gcd(
                #[trigger] init[i],
                #[trigger] init[j],
            ) == 1 by {
                assert(init[i] == moduli[i] && init[j] == moduli[j]);
            }
        }
        lemma_difference_divisible(init, a, b);
        assert(a % moduli[moduli.len() - 1] == b % last);
        lemma_mod_equivalence(a as int, b as int, last as int);
        assert forall|i: int| 0 <= i < init.len() implies gcd(#[trigger] init[i], last) == 1 by {
            assert(init[i] == moduli[i]);
            assert(last == moduli[moduli.len() - 1]);
        }
        lemma_coprime_to_product(init, last);
        lemma_coprime_divisors_multiply(product(init), last, z);
    }
}

/// The number below the product of the moduli that is built from one
/// contribution per congruence `x = residues[i] (mod moduli[i])`.
///
/// The congruences are paired up to the shorter of the two slices, while the
/// product runs over all moduli. The result is `None` if one of the paired
/// moduli shares a factor with the product of the others.
pub fn chinese_remainder_theorem(residues: &[BigUint], moduli: &[BigUint]) -> (r: Option<BigUint>)
    requires
        forall|i: int| 0 <= i < moduli@.len() ==> biguint_value(#[trigger] moduli@[i]) > 0,
    ensures
        match r {
            Some(x) => crt_value(big_values(residues@), big_values(moduli@)) == Some(
                biguint_value(x),
            ),
            None => crt_value(big_values(residues@), big_values(moduli@)) is None,
        },
        r matches Some(x) ==> biguint_value(x) < product(big_values(moduli@)),
        residues@.len() == moduli@.len() && pairwise_coprime(big_values(moduli@)) ==> (r matches Some(
            x,
        ) && forall|i: int|
            0 <= i < moduli@.len() ==> biguint_value(x) % biguint_value(#[trigger] moduli@[i])
                == biguint_value(residues@[i]) % biguint_value(moduli@[i])),
{
    let ghost rv = big_values(residues@);
    proof {
        if residues@.len() == moduli@.len() && pairwise_coprime(big_values(moduli@)) {
            lemma_crt_solves(rv, big_values(moduli@));
            assert forall|i: int| 0 <= i < moduli@.len() implies crt_value(
                rv,
                big_values(moduli@),
            ).unwrap() % biguint_value(#[trigger] moduli@[i]) == biguint_value(residues@[i])
                % biguint_value(moduli@[i]) by {
                assert(big_values(moduli@)[i] == biguint_value(moduli@[i]));
                assert(rv[i] == biguint_value(residues@[i]));
            }
        }
    }
    let ghost mv = big_values(moduli@);
    let mut prod = big_from_u128(1);
    let mut j: usize = 0;
    while j < moduli.len()
        invariant
            j <= moduli@.len(),
            mv == big_values(moduli@),
            biguint_value(prod) == product(mv.take(j as int)),
        decreases moduli@.len() - j,
    {
        proof {
            assert(mv.take(j as int + 1).drop_last() =~= mv.take(j as int));
        }
        prod = big_mul(&prod, &moduli[j]);
        j += 1;
    }
    let ghost n = biguint_value(prod);
    proof {
        assert(mv.take(moduli@.len() as int) =~= mv);
        lemma_product_positive(mv);
    }
    let k: usize = if residues.len() <= moduli.len() {
        residues.len()
    } else {
        moduli.len()
    };
    let mut sum = big_from_u128(0);
    let mut i: usize = 0;
    while i < k
        invariant
            i <= k,
            k == paired_len(rv, mv),
            rv == big_values(residues@),
            mv == big_values(moduli@),
            n == biguint_value(prod),
            n == product(mv),
            forall|i: int| 0 <= i < moduli@.len() ==> biguint_value(#[trigger] moduli@[i]) > 0,
            biguint_value(sum) == crt_sum(rv, mv, n, i as nat),
            crt_solvable(mv, n, i as nat),
        decreases k - i,
    {
        let p_i = big_div(&prod, &moduli[i]);
        let inv = match mod_inverse_big(&p_i, &moduli[i]) {
            Some(inv) => inv,
            None => {
                proof {
                    assert(gcd(n / mv[i as int], mv[i as int]) != 1);
                    if rv.len() == mv.len() && pairwise_coprime(mv) {
                        assert forall|j: int| 0 <= j < mv.len() implies #[trigger] mv[j] > 0 by {
                            assert(biguint_value(moduli@[j]) > 0);
                        }
                        lemma_crt_solves(rv, mv);
                    }
                }
                return None;
            },
        };
        proof {
            let a = n / mv[i as int];
            lemma_inverse_unique(a, biguint_value(inv), inverse_mod(a, mv[i as int]), mv[i as int]);
        }
        let term = big_mul(&big_mul(&residues[i], &p_i), &inv);
        sum = big_add(&sum, &term);
        i += 1;
    }
    proof {
        lemma_mod_bound(biguint_value(sum) as int, n as int);
    }
    Some(big_rem(&sum, &prod))
}

} // verus!
