//! Modular arithmetic on machine words: products, powers and inverses.
//!
//! Moduli fit in 64 bits and every product is taken in 128 bits, so that no
//! intermediate value is cut off before it is reduced.

use crate::numbers::{gcd, lemma_inverse_residue, lemma_signed_remainder_lifted};
use vstd::arithmetic::div_mod::*;
use vstd::arithmetic::mul::*;
use vstd::arithmetic::power::*;
use vstd::prelude::*;

verus! {

/// The largest modulus whose residues can be multiplied in 128 bits.
pub const MAX_MODULUS: u128 = 0xFFFF_FFFF_FFFF_FFFF;

/// `base` raised to `exp`, reduced modulo `m`.
pub open spec fn pow_mod(base: nat, exp: nat, m: nat) -> nat {
    (pow(base as int, exp) % (m as int)) as nat
}

/// One round of square-and-multiply: the lowest bit of the exponent decides
/// whether the base enters the product, and the rest of the exponent applies to
/// the reduced square.
pub proof fn lemma_pow_mod_halves(b: nat, e: nat, m: nat)
    requires
        m > 0,
        e > 0,
    ensures
        pow_mod(b, e, m) == (if e % 2 == 1 {
            (b * pow_mod((b * b) % m, e / 2, m)) % m
        } else {
            pow_mod((b * b) % m, e / 2, m)
        }),
{
    let bi = b as int;
    let mi = m as int;
    let h = e / 2;
    let sq = bi * bi;
    lemma_pow_positive_or_zero(bi, e);
    lemma_pow_positive_or_zero(sq % mi, h);
    // pow(b, 2h) == pow(b*b, h)
    lemma_square_is_pow2(bi);
    lemma_pow_multiplies(bi, 2, h);
    assert(pow(bi, 2 * h) == pow(sq, h));
    // reducing the square does not change the residue of its power
    lemma_pow_mod_noop(sq, h, mi);
    assert(pow(sq % mi, h) % mi == pow(sq, h) % mi);
    if e % 2 == 1 {
        assert(e == 2 * h + 1);
        lemma_pow_adds(bi, 1, 2 * h);
        lemma_pow1(bi);
        assert(pow(bi, e) == bi * pow(sq, h));
        lemma_mul_mod_noop_right(bi, pow(sq, h), mi);
        lemma_mul_mod_noop_right(bi, pow(sq % mi, h) % mi, mi);
        lemma_mod_twice(pow(sq % mi, h), mi);
    } else {
        assert(e == 2 * h);
        lemma_mod_twice(pow(sq % mi, h), mi);
    }
}

/// Powers of a natural number are natural numbers.
pub proof fn lemma_pow_positive_or_zero(b: int, e: nat)
    requires
        b >= 0,
    ensures
        pow(b, e) >= 0,
    decreases e,
{
    reveal(pow);
    if e > 0 {
        lemma_pow_positive_or_zero(b, (e - 1) as nat);
        lemma_mul_nonnegative(b, pow(b, (e - 1) as nat));
    }
}

/// The product of `a` and `b`, reduced modulo `m`.
#[inline]
pub fn mod_mul(a: u128, b: u128, m: u128) -> (r: u128)
    requires
        m > 0,
        a * b <= u128::MAX,
    ensures
        r == (a * b) % (m as int),
{
    (a * b) % m
}

/// `base` raised to `exp` modulo `m`, by binary exponentiation.
///
/// The base is reduced first, so it may be any 128-bit value. A modulus of one
/// gives zero, and an exponent of zero gives one under any larger modulus.
pub fn mod_pow(base: u128, exp: u128, m: u128) -> (r: u128)
    requires
        0 < m <= MAX_MODULUS,
    ensures
        r == pow_mod(base as nat, exp as nat, m as nat),
        r < m,
{
    if m == 1 {
        return 0;
    }
    let mut result: u128 = 1;
    let mut b: u128 = base % m;
    let mut e: u128 = exp;
    proof {
        lemma_pow_mod_noop(base as int, exp as nat, m as int);
        lemma_mod_twice(pow(b as int, e as nat), m as int);
        assert(result * pow_mod(b as nat, e as nat, m as nat) == pow_mod(
            b as nat,
            e as nat,
            m as nat,
        ));
    }
    while e > 0
        invariant
            1 < m <= MAX_MODULUS,
            b < m,
            result < m,
            pow_mod(base as nat, exp as nat, m as nat) == (result * pow_mod(
                b as nat,
                e as nat,
                m as nat,
            )) % (m as int),
        decreases e,
    {
        proof {
            lemma_pow_mod_halves(b as nat, e as nat, m as nat);
            lemma_residues_multiply(b, m);
            lemma_residues_multiply(result, m);
            assert(e & 1 == e % 2) by (bit_vector);
            assert(e >> 1 == e / 2) by (bit_vector);
        }
        let ghost tail = pow_mod(((b * b) % (m as int)) as nat, (e / 2) as nat, m as nat);
        if e & 1 == 1 {
            proof {
                assert(b * result <= u128::MAX) by (nonlinear_arith)
                    requires
                        b < m,
                        result < m,
                        m <= MAX_MODULUS,
                ;
                // result * ((b * tail) % m)  ==  ((result * b) % m) * tail   (mod m)
                lemma_mul_mod_noop_right(result as int, b * tail, m as int);
                lemma_mul_is_associative(result as int, b as int, tail as int);
                lemma_mul_mod_noop_left(result * b, tail as int, m as int);
            }
            result = mod_mul(result, b, m);
        }
        e >>= 1;
        proof {
            assert(b * b <= u128::MAX) by (nonlinear_arith)
                requires
                    b < m,
                    m <= MAX_MODULUS,
            ;
        }
        b = mod_mul(b, b, m);
    }
    proof {
        lemma_pow0(b as int);
        lemma_small_mod(1, m as nat);
        assert(pow_mod(b as nat, e as nat, m as nat) == 1);
        assert(result * pow_mod(b as nat, e as nat, m as nat) == result) by (nonlinear_arith)
            requires
                pow_mod(b as nat, e as nat, m as nat) == 1,
        ;
        lemma_small_mod(result as nat, m as nat);
    }
    result
}

/// `x` is the inverse of `a` modulo `m`, reduced to `[0, m)`.
pub open spec fn is_inverse_mod(a: nat, x: nat, m: nat) -> bool {
    x < m && (a * x) % m == 1nat % m
}

/// The multiplicative inverse of `a` modulo `m` by the extended Euclidean
/// algorithm, or `None` when `a` and `m` share a factor.
///
/// A modulus of zero has no residues; it is accepted for every `a` but one,
/// and gives `None`.
pub fn mod_inverse(a: u128, m: u128) -> (r: Option<u128>)
    requires
        a <= i128::MAX,
        m <= MAX_MODULUS,
        m > 0 || a != 1,
    ensures
        match r {
            Some(x) => gcd(a as nat, m as nat) == 1 && is_inverse_mod(a as nat, x as nat, m as nat),
            None => gcd(a as nat, m as nat) != 1,
        },
{
    let a_s: i128 = a as i128;
    let m_s: i128 = m as i128;
    let mut old_r: i128 = a_s;
    let mut r: i128 = m_s;
    let mut old_s: i128 = 1;
    let mut s: i128 = 0;
    let ghost mut old_t: int = 0;
    let ghost mut t: int = 1;
    proof {
        lemma_mul_basics(a as int);
        lemma_mul_basics(m as int);
    }
    while r != 0
        invariant
            a_s == a,
            m_s == m,
            m <= MAX_MODULUS,
            r != 0 ==> m > 0,
            0 <= old_r,
            0 <= r,
            gcd(old_r as nat, r as nat) == gcd(a as nat, m as nat),
            old_s * a + old_t * m == old_r,
            s * a + t * m == r,
            coefficients_bounded(old_r as int, r as int, old_s as int, s as int, m as int),
        decreases r,
    {
        proof {
            lemma_euclid_step(old_r as int, r as int, old_s as int, s as int, m as int);
            lemma_fundamental_div_mod(old_r as int, r as int);
        }
        let q: i128 = old_r / r;
        let new_r: i128 = old_r - q * r;
        let new_s: i128 = old_s - q * s;
        proof {
            let new_t = old_t - q * t;
            assert(new_s * a + new_t * m == new_r) by (nonlinear_arith)
                requires
                    old_s * a + old_t * m == old_r,
                    s * a + t * m == r,
                    new_r == old_r - q * r,
                    new_s == old_s - q * s,
                    new_t == old_t - q * t,
            ;
            lemma_mul_is_commutative(q as int, r as int);
            assert(new_r == old_r % r);
            old_t = t;
            t = new_t;
        }
        old_r = r;
        r = new_r;
        old_s = s;
        s = new_s;
    }
    if old_r != 1 {
        return None;
    }
    let x: i128 = (old_s % m_s + m_s) % m_s;
    proof {
        lemma_signed_remainder_lifted(old_s as int, m as int);
        lemma_inverse_residue(a as int, old_s as int, old_t, m as int, x as int);
    }
    Some(x as u128)
}

/// What bounds the Bézout coefficients while the Euclidean algorithm runs: the
/// two coefficients never have the same sign, and weighted by the opposite
/// remainders their magnitudes add up to the modulus.
pub open spec fn coefficients_bounded(old_r: int, r: int, old_s: int, s: int, m: int) -> bool {
    &&& (old_r > 0 || s == 0)
    &&& {
        ||| old_s >= 0 && s <= 0 && (-s) * old_r + old_s * r == m
        ||| old_s <= 0 && s >= 0 && s * old_r + (-old_s) * r == m
    }
}

proof fn lemma_euclid_step(old_r: int, r: int, old_s: int, s: int, m: int)
    requires
        old_r >= 0,
        r > 0,
        m > 0,
        coefficients_bounded(old_r, r, old_s, s, m),
    ensures
        0 <= (old_r / r) * r <= old_r,
        -m <= (old_r / r) * s <= m,
        -m <= old_s - (old_r / r) * s <= m,
        coefficients_bounded(r, old_r - (old_r / r) * r, s, old_s - (old_r / r) * s, m),
{
    let q = old_r / r;
    lemma_fundamental_div_mod(old_r, r);
    lemma_div_pos_is_pos(old_r, r);
    assert(q * r == r * q) by (nonlinear_arith);
    let rem = old_r - q * r;
    assert(0 <= rem < r);
    if old_s >= 0 && s <= 0 && (-s) * old_r + old_s * r == m {
        let u = -s;
        assert(0 <= q * u && (old_s + q * u) * r + u * rem == m && old_s + q * u <= m && q * u
            <= m) by (nonlinear_arith)
            requires
                u >= 0,
                q >= 0,
                old_s >= 0,
                r > 0,
                0 <= rem,
                rem == old_r - q * r,
                u * old_r + old_s * r == m,
        ;
        assert(q * s == -(q * u)) by (nonlinear_arith)
            requires
                u == -s,
        ;
    } else {
        let v = -old_s;
        assert(0 <= q * s && (v + q * s) * r + s * rem == m && v + q * s <= m && q * s <= m)
            by (nonlinear_arith)
            requires
                s >= 0,
                q >= 0,
                v >= 0,
                r > 0,
                0 <= rem,
                rem == old_r - q * r,
                s * old_r + v * r == m,
        ;
    }
}

proof fn lemma_residues_multiply(a: u128, m: u128)
    requires
        a < m <= MAX_MODULUS,
    ensures
        a * a <= u128::MAX,
{
    assert(a * a <= u128::MAX) by (nonlinear_arith)
        requires
            a < m,
            m <= MAX_MODULUS,
    ;
}

} // verus!
