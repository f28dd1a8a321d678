//! Factorisation of a group order into prime powers by trial division.

use crate::crt::{all_positive, pairwise_coprime};
use crate::numbers::{
    gcd, is_prime, lemma_combination_one_coprime, lemma_coprime_product, lemma_divides_multiple,
    lemma_divides_transitive, lemma_gcd_symmetric, lemma_prime_by_trial, lemma_prime_coprime,
    lemma_prime_divides_factor, lemma_prime_divides_prime,
};
use vstd::arithmetic::div_mod::*;
use vstd::arithmetic::mul::*;
use vstd::arithmetic::power::*;
use vstd::arithmetic::power2::*;
use vstd::prelude::*;

verus! {

/// The primes and exponents of a factorisation, as mathematical numbers.
pub open spec fn factor_pairs(f: Seq<(u128, u32)>) -> Seq<(nat, nat)> {
    Seq::new(f.len(), |i: int| (f[i].0 as nat, f[i].1 as nat))
}

/// The product of `prime^exponent` over all pairs; one for no pairs.
pub open spec fn prime_power_product(f: Seq<(nat, nat)>) -> nat
    decreases f.len(),
{
    if f.len() == 0 {
        1
    } else {
        prime_power_product(f.drop_last()) * (pow(f.last().0 as int, f.last().1) as nat)
    }
}

/// Every first component is a prime with an exponent of at least one, and
/// the primes increase strictly.
pub open spec fn is_prime_power_list(f: Seq<(nat, nat)>) -> bool {
    &&& forall|i: int| 0 <= i < f.len() ==> is_prime(#[trigger] f[i].0) && f[i].1 >= 1
    &&& forall|i: int, j: int| 0 <= i < j < f.len() ==> #[trigger] f[i].0 < #[trigger] f[j].0
}

/// `f` is the factorisation of `n` into powers of distinct primes, the primes
/// in increasing order.
pub open spec fn is_factorization(f: Seq<(nat, nat)>, n: nat) -> bool {
    is_prime_power_list(f) && prime_power_product(f) == n
}

/// The prime powers `prime^exponent` of a factorisation, in its order.
pub open spec fn prime_powers(f: Seq<(nat, nat)>) -> Seq<nat> {
    Seq::new(f.len(), |i: int| pow(f[i].0 as int, f[i].1) as nat)
}

/// Two different primes are coprime.
pub proof fn lemma_distinct_primes_coprime(p: nat, q: nat)
    requires
        is_prime(p),
        is_prime(q),
        p != q,
    ensures
        gcd(p, q) == 1,
{
    if q > p {
        lemma_small_mod(p, q);
    } else {
        assert(p % q != 0);
    }
    lemma_prime_coprime(p, q);
}

/// Every power of a number coprime to `m` is coprime to `m`.
pub proof fn lemma_coprime_power(a: nat, e: nat, m: nat)
    requires
        gcd(a, m) == 1,
    ensures
        pow(a as int, e) >= 1 || a == 0,
        pow(a as int, e) >= 0,
        gcd(pow(a as int, e) as nat, m) == 1,
    decreases e,
{
    crate::modular::lemma_pow_positive_or_zero(a as int, e);
    if a > 0 {
        lemma_pow_positive(a as int, e);
    }
    if e == 0 {
        lemma_pow0(a as int);
        lemma_combination_one_coprime(1, m, 1, 0);
    } else {
        lemma_coprime_power(a, (e - 1) as nat, m);
        crate::modular::lemma_pow_positive_or_zero(a as int, (e - 1) as nat);
        lemma_pow_adds(a as int, 1, (e - 1) as nat);
        lemma_pow1(a as int);
        lemma_coprime_product(a, pow(a as int, (e - 1) as nat) as nat, m);
    }
}

/// The prime powers of a factorisation are positive and pairwise coprime.
pub proof fn lemma_prime_powers_coprime(f: Seq<(nat, nat)>)
    requires
        is_prime_power_list(f),
    ensures
        all_positive(prime_powers(f)),
        pairwise_coprime(prime_powers(f)),
{
    let qs = prime_powers(f);
    assert forall|i: int| 0 <= i < qs.len() implies #[trigger] qs[i] > 0 by {
        assert(is_prime(f[i].0));
        lemma_pow_positive(f[i].0 as int, f[i].1);
    }
    assert forall|i: int, j: int|
        0 <= i < qs.len() && 0 <= j < qs.len() && i != j implies gcd(
        #[trigger] qs[i],
        #[trigger] qs[j],
    ) == 1 by {
        let (p, a) = f[i];
        let (q, b) = f[j];
        assert(is_prime(p) && is_prime(q));
        if i < j {
            assert(f[i].0 < f[j].0);
        } else {
            assert(f[j].0 < f[i].0);
        }
        lemma_distinct_primes_coprime(p, q);
        lemma_coprime_power(p, a, q);
        lemma_gcd_symmetric(pow(p as int, a) as nat, q);
        lemma_coprime_power(q, b, pow(p as int, a) as nat);
        lemma_gcd_symmetric(pow(q as int, b) as nat, pow(p as int, a) as nat);
    }
}

/// A prime that divides a power divides its base.
pub proof fn lemma_prime_divides_power(q: nat, a: nat, e: nat)
    requires
        is_prime(q),
        pow(a as int, e) % (q as int) == 0,
    ensures
        a % q == 0,
    decreases e,
{
    if e == 0 {
        lemma_pow0(a as int);
        lemma_small_mod(1, q);
    } else {
        crate::modular::lemma_pow_positive_or_zero(a as int, (e - 1) as nat);
        lemma_pow_adds(a as int, 1, (e - 1) as nat);
        lemma_pow1(a as int);
        lemma_prime_divides_factor(q, a, pow(a as int, (e - 1) as nat) as nat);
        if a % q != 0 {
            lemma_prime_divides_power(q, a, (e - 1) as nat);
        }
    }
}

/// A positive power of a number is a multiple of it.
pub proof fn lemma_base_divides_power(a: nat, e: nat)
    requires
        a > 0,
        e >= 1,
    ensures
        pow(a as int, e) >= a,
        pow(a as int, e) % (a as int) == 0,
{
    lemma_pow_positive(a as int, (e - 1) as nat);
    lemma_pow_adds(a as int, (e - 1) as nat, 1);
    lemma_pow1(a as int);
    lemma_mod_multiples_basic(pow(a as int, (e - 1) as nat), a as int);
    assert(pow(a as int, (e - 1) as nat) * a >= a) by (nonlinear_arith)
        requires
            pow(a as int, (e - 1) as nat) >= 1,
            a > 0,
    ;
}

/// The list without its last pair is a list of prime powers too.
pub proof fn lemma_prime_power_list_init(f: Seq<(nat, nat)>)
    requires
        is_prime_power_list(f),
        f.len() > 0,
    ensures
        is_prime_power_list(f.drop_last()),
{
    let init = f.drop_last();
    assert forall|i: int| 0 <= i < init.len() implies is_prime(#[trigger] init[i].0) && init[i].1
        >= 1 by {
        assert(0 <= i < f.len());
        let pair = f[i];
        assert(is_prime(pair.0));
        assert(pair.1 >= 1);
        assert(init[i] == f[i]);
    }
    assert forall|i: int, j: int| 0 <= i < j < init.len() implies #[trigger] init[i].0
        < #[trigger] init[j].0 by {
        assert(init[i] == f[i] && init[j] == f[j]);
    }
}

/// A prime that divides a product of prime powers is one of their primes.
/// Returns its place in the list.
pub proof fn lemma_prime_in_list(f: Seq<(nat, nat)>, q: nat) -> (i: int)
    requires
        is_prime_power_list(f),
        is_prime(q),
        prime_power_product(f) % q == 0,
    ensures
        0 <= i < f.len(),
        f[i].0 == q,
    decreases f.len(),
{
    if f.len() == 0 {
        lemma_small_mod(1, q);
        0
    } else {
        let init = f.drop_last();
        let (p, e) = f.last();
        assert(is_prime(f[f.len() - 1].0));
        lemma_pow_positive(p as int, e);
        lemma_prime_power_list_init(f);
        lemma_prime_divides_factor(q, prime_power_product(init), pow(p as int, e) as nat);
        if prime_power_product(init) % q == 0 {
            let i = lemma_prime_in_list(init, q);
            assert(init[i] == f[i]);
            i
        } else {
            lemma_prime_divides_power(q, p, e);
            lemma_prime_divides_prime(q, p);
            f.len() - 1
        }
    }
}

/// The product of a list of prime powers is positive, and its last prime
/// divides it and nothing before it.
pub proof fn lemma_last_prime(f: Seq<(nat, nat)>)
    requires
        is_prime_power_list(f),
        f.len() > 0,
    ensures
        prime_power_product(f.drop_last()) >= 1,
        prime_power_product(f.drop_last()) % f.last().0 != 0,
        prime_power_product(f) % f.last().0 == 0,
        prime_power_product(f) >= 2,
{
    let init = f.drop_last();
    let (p, e) = f.last();
    assert(is_prime(f[f.len() - 1].0) && f[f.len() - 1].1 >= 1);
    lemma_prime_power_list_init(f);
    lemma_product_at_least_one(init);
    if prime_power_product(init) % p == 0 {
        let i = lemma_prime_in_list(init, p);
        assert(init[i] == f[i]);
        assert(f[i].0 < f[f.len() - 1].0);
    }
    lemma_base_divides_power(p, e);
    lemma_divides_multiple(p, prime_power_product(init), pow(p as int, e) as nat);
    assert(prime_power_product(init) * pow(p as int, e) >= 2) by (nonlinear_arith)
        requires
            prime_power_product(init) >= 1,
            pow(p as int, e) >= 2,
    ;
}

/// A product of prime powers is at least one.
pub proof fn lemma_product_at_least_one(f: Seq<(nat, nat)>)
    requires
        is_prime_power_list(f),
    ensures
        prime_power_product(f) >= 1,
    decreases f.len(),
{
    if f.len() > 0 {
        assert(is_prime(f[f.len() - 1].0));
        lemma_pow_positive(f.last().0 as int, f.last().1);
        lemma_prime_power_list_init(f);
        lemma_product_at_least_one(f.drop_last());
        lemma_mul_strictly_positive(
            prime_power_product(f.drop_last()) as int,
            pow(f.last().0 as int, f.last().1),
        );
    }
}

/// Each prime power of a factorisation is positive and divides the product.
pub proof fn lemma_prime_power_divides(f: Seq<(nat, nat)>, i: int)
    requires
        is_prime_power_list(f),
        0 <= i < f.len(),
    ensures
        prime_powers(f)[i] >= 1,
        prime_power_product(f) >= 1,
        prime_power_product(f) % prime_powers(f)[i] == 0,
        prime_powers(f)[i] <= prime_power_product(f),
    decreases f.len(),
{
    let last = pow(f.last().0 as int, f.last().1);
    let init = prime_power_product(f.drop_last());
    assert(is_prime(f[f.len() - 1].0));
    lemma_pow_positive(f.last().0 as int, f.last().1);
    lemma_prime_power_list_init(f);
    lemma_product_at_least_one(f.drop_last());
    lemma_mul_strictly_positive(init as int, last);
    if i == f.len() - 1 {
        lemma_mod_multiples_basic(init as int, last);
        assert(last <= init * last) by (nonlinear_arith)
            requires
                init >= 1,
                last >= 1,
        ;
    } else {
        lemma_prime_power_divides(f.drop_last(), i);
        let q = prime_powers(f)[i];
        assert(q == prime_powers(f.drop_last())[i]);
        lemma_divides_multiple(q, last as nat, init);
        assert(q <= init * last) by (nonlinear_arith)
            requires
                q <= init,
                last >= 1,
        ;
    }
}

/// Two splits of a number into a power of the prime `p` and a cofactor that
/// `p` does not divide are the same split.
pub proof fn lemma_prime_exponent_unique(p: nat, e1: nat, e2: nat, a1: nat, a2: nat)
    requires
        is_prime(p),
        a1 * pow(p as int, e1) == a2 * pow(p as int, e2),
        a1 % p != 0,
        a2 % p != 0,
        e1 <= e2,
    ensures
        e1 == e2,
        a1 == a2,
{
    let d = (e2 - e1) as nat;
    let low = pow(p as int, e1);
    let high = pow(p as int, d);
    lemma_pow_positive(p as int, e1);
    lemma_pow_positive(p as int, d);
    lemma_pow_adds(p as int, e1, d);
    assert(a1 == a2 * high) by (nonlinear_arith)
        requires
            a1 * low == a2 * (low * high),
            low > 0,
    ;
    if d > 0 {
        lemma_base_divides_power(p, d);
        lemma_divides_multiple(p, a2, high as nat);
    } else {
        lemma_pow0(p as int);
    }
}

/// The fundamental theorem of arithmetic: a number has one factorisation
/// into powers of increasing primes.
pub proof fn lemma_factorization_unique(f1: Seq<(nat, nat)>, f2: Seq<(nat, nat)>, n: nat)
    requires
        is_factorization(f1, n),
        is_factorization(f2, n),
    ensures
        f1 == f2,
    decreases f1.len(),
{
    if f1.len() == 0 || f2.len() == 0 {
        if f1.len() > 0 {
            lemma_last_prime(f1);
        }
        if f2.len() > 0 {
            lemma_last_prime(f2);
        }
        assert(f1 =~= f2);
    } else {
        let (p1, e1) = f1.last();
        let (p2, e2) = f2.last();
        lemma_last_prime(f1);
        lemma_last_prime(f2);
        assert(is_prime(f1[f1.len() - 1].0) && is_prime(f2[f2.len() - 1].0));
        // each last prime occurs in the other list, so neither is the larger
        let i2 = lemma_prime_in_list(f2, p1);
        let i1 = lemma_prime_in_list(f1, p2);
        if i2 < f2.len() - 1 {
            assert(f2[i2].0 < f2[f2.len() - 1].0);
        }
        if i1 < f1.len() - 1 {
            assert(f1[i1].0 < f1[f1.len() - 1].0);
        }
        assert(p1 == p2);
        let a1 = prime_power_product(f1.drop_last());
        let a2 = prime_power_product(f2.drop_last());
        lemma_pow_positive(p1 as int, e1);
        lemma_pow_positive(p2 as int, e2);
        assert(n == a1 * pow(p1 as int, e1));
        assert(n == a2 * pow(p2 as int, e2));
        if e1 <= e2 {
            lemma_prime_exponent_unique(p1, e1, e2, a1, a2);
        } else {
            lemma_prime_exponent_unique(p1, e2, e1, a2, a1);
        }
        lemma_prime_power_list_init(f1);
        lemma_prime_power_list_init(f2);
        lemma_factorization_unique(f1.drop_last(), f2.drop_last(), a1);
        assert(f1 =~= f1.drop_last().push(f1.last()));
        assert(f2 =~= f2.drop_last().push(f2.last()));
    }
}

/// The prime factorisation of `n` by trial division: the primes in increasing
/// order, each with its exponent. Zero and one have no factors.
///
/// The running time grows with the square root of the largest prime factor
/// but one, so the function is meant for numbers whose prime factors are
/// small.
pub fn factor_order(n: u128) -> (factors: Vec<(u128, u32)>)
    ensures
        n >= 1 ==> is_factorization(factor_pairs(factors@), n as nat),
        n == 0 ==> factors@.len() == 0,
{
    let mut factors: Vec<(u128, u32)> = Vec::new();
    let mut rest: u128 = n;
    let mut d: u128 = 2;
    proof {
        lemma_mul_basics(rest as int);
    }
    while d <= rest / d
        invariant
            d >= 2,
            n >= 1 ==> rest >= 1,
            n == 0 ==> factors@.len() == 0 && rest == 0,
            prime_power_product(factor_pairs(factors@)) * rest == n,
            is_prime_power_list(factor_pairs(factors@)),
            forall|i: int| 0 <= i < factors@.len() ==> (#[trigger] factors@[i]).0 < d,
            forall|q: nat| 2 <= q < d ==> #[trigger] (rest as nat % q) != 0,
        decreases 0x1_0000_0000_0000_0000 - d,
    {
        proof {
            lemma_fundamental_div_mod(rest as int, d as int);
            lemma_mod_bound(rest as int, d as int);
            let c = rest / d;
            assert(rest >= d && 2 * d <= rest && d * d <= rest) by (nonlinear_arith)
                requires
                    rest == d * c + rest % d,
                    0 <= rest % d,
                    d <= c,
                    d >= 2,
            ;
            assert(d < 0x1_0000_0000_0000_0000) by (nonlinear_arith)
                requires
                    d * d <= rest,
                    rest <= u128::MAX,
            ;
        }
        if rest % d == 0 {
            let ghost start = rest;
            let mut exp: u32 = 0;
            proof {
                lemma_pow0(d as int);
                lemma_pow0(2);
            }
            while rest % d == 0
                invariant
                    d >= 2,
                    rest >= 1,
                    start >= 1,
                    pow(d as int, exp as nat) >= 1,
                    pow(d as int, exp as nat) * rest == start,
                    pow(2, exp as nat) * rest <= start,
                    exp <= 128,
                    rest <= start,
                    exp == 0 ==> rest == start,
                decreases rest,
            {
                proof {
                    lemma_power_step(d as nat, exp as nat, rest as nat, start as nat);
                }
                rest /= d;
                exp += 1;
            }
            proof {
                // d is prime: a smaller divisor of d would divide `start`
                assert forall|q: nat| 2 <= q < d implies #[trigger] (d as nat % q) != 0 by {
                    if d as nat % q == 0 {
                        lemma_divides_transitive(q, d as nat, start as nat);
                    }
                }
                // what remains has no divisor up to d
                assert forall|q: nat| 2 <= q < d + 1 implies #[trigger] (rest as nat % q) != 0 by {
                    if q < d && rest as nat % q == 0 {
                        lemma_divides_multiple(q, pow(d as int, exp as nat) as nat, rest as nat);
                    }
                }
                let before = factor_pairs(factors@);
                let after = factor_pairs(factors@.push((d, exp)));
                assert(after =~= before.push((d as nat, exp as nat)));
                assert(after.drop_last() =~= before);
                assert(prime_power_product(after) * rest == n) by (nonlinear_arith)
                    requires
                        prime_power_product(after) == prime_power_product(before) * pow(
                            d as int,
                            exp as nat,
                        ),
                        pow(d as int, exp as nat) * rest == start,
                        prime_power_product(before) * start == n,
                ;
            }
            factors.push((d, exp));
        }
        d += 1;
    }
    if rest > 1 {
        proof {
            lemma_prime_by_trial(rest as nat, d as nat);
            assert(rest >= d) by {
                if rest < d {
                    lemma_mod_self_0(rest as int);
                    assert(rest as nat % (rest as nat) != 0);
                }
            }
            let before = factor_pairs(factors@);
            let after = factor_pairs(factors@.push((rest, 1)));
            assert(after =~= before.push((rest as nat, 1nat)));
            assert(after.drop_last() =~= before);
            lemma_pow1(rest as int);
        }
        factors.push((rest, 1));
    } else {
        proof {
            if n >= 1 {
                lemma_mul_basics(prime_power_product(factor_pairs(factors@)) as int);
            }
        }
    }
    factors
}

/// Dividing out one more copy of `d` keeps the split of `start` into a power
/// of `d` and a rest, and bounds the exponent.
proof fn lemma_power_step(d: nat, exp: nat, rest: nat, start: nat)
    requires
        d >= 2,
        rest >= 1,
        rest % d == 0,
        start <= u128::MAX,
        pow(d as int, exp) >= 1,
        pow(d as int, exp) * rest == start,
        pow(2, exp) * rest <= start,
    ensures
        rest / d >= 1,
        rest / d < rest,
        pow(d as int, exp + 1) >= 1,
        pow(d as int, exp + 1) * (rest / d) == start,
        pow(2, exp + 1) * (rest / d) <= start,
        exp + 1 <= 128,
{
    let c = rest / d;
    lemma_fundamental_div_mod(rest as int, d as int);
    assert(rest == d * c);
    assert(c >= 1 && c < rest && 2 * c <= rest) by (nonlinear_arith)
        requires
            rest == d * c,
            d >= 2,
            rest >= 1,
    ;
    let pd = pow(d as int, exp);
    let p2 = pow(2, exp);
    lemma_pow_adds(d as int, exp, 1);
    lemma_pow1(d as int);
    lemma_pow_adds(2, exp, 1);
    lemma_pow1(2);
    lemma_pow_positive(2, exp);
    assert((pd * d) * c == start && pd * d >= 1) by (nonlinear_arith)
        requires
            pd * rest == start,
            rest == d * c,
            pd >= 1,
            d >= 2,
    ;
    assert((p2 * 2) * c <= start) by (nonlinear_arith)
        requires
            p2 * rest <= start,
            2 * c <= rest,
            p2 > 0,
    ;
    // 2^(exp + 1) <= start < 2^128
    assert(p2 * 2 <= start) by (nonlinear_arith)
        requires
            (p2 * 2) * c <= start,
            c >= 1,
            p2 > 0,
    ;
    if exp + 1 > 128 {
        lemma_pow_increases(2, 128, exp + 1);
        lemma_pow_adds(2, 64, 64);
        lemma2_to64_rest();
        lemma_pow2(64);
        assert(pow(2, 128) == 0x1_0000_0000_0000_0000_0000_0000_0000_0000) by (nonlinear_arith)
            requires
                pow(2, 128) == pow(2, 64) * pow(2, 64),
                pow(2, 64) == 0x1_0000_0000_0000_0000,
        ;
    }
}

} // verus!
