//! Baby-step/giant-step: discrete logarithms in a subgroup of bounded order,
//! in time and space proportional to the square root of the bound.

use crate::crt::{inverse_mod, lemma_inverse_exists, lemma_inverse_unique};
use crate::exponent::{lemma_pow_mod_adds, lemma_pow_mod_bound, lemma_pow_mod_multiplies};
use crate::modular::{is_inverse_mod, mod_inverse, mod_mul, mod_pow, pow_mod, MAX_MODULUS};
use crate::numbers::gcd;
use std::collections::HashMap;
use vstd::arithmetic::div_mod::*;
use vstd::arithmetic::mul::*;
use vstd::arithmetic::power::*;
use vstd::prelude::*;

verus! {

broadcast use vstd::std_specs::hash::group_hash_axioms;

/// `h` is a power of `g` modulo `p` to an exponent below `n`.
pub open spec fn is_power_below(g: nat, h: nat, p: nat, n: nat) -> bool {
    exists|k: nat| k < n && #[trigger] pow_mod(g, k, p) == h
}

/// `s` is the least number whose square is at least `n`.
pub open spec fn is_ceil_sqrt(n: nat, s: nat) -> bool {
    s * s >= n && (s == 0 || (s - 1) * (s - 1) < n)
}

/// The square root of `n`, rounded up.
pub open spec fn ceil_sqrt(n: nat) -> nat {
    choose|s: nat| is_ceil_sqrt(n, s)
}

/// The rounded-up square root is unique.
pub proof fn lemma_ceil_sqrt_unique(n: nat, s: nat, t: nat)
    requires
        is_ceil_sqrt(n, s),
        is_ceil_sqrt(n, t),
    ensures
        s == t,
{
    if s < t {
        assert(s * s <= (t - 1) * (t - 1)) by (nonlinear_arith)
            requires
                s <= t - 1,
        ;
    } else if t < s {
        assert(t * t <= (s - 1) * (s - 1)) by (nonlinear_arith)
            requires
                t <= s - 1,
        ;
    }
}

/// The square root of `n`, rounded up, by bisection on whole numbers.
pub fn isqrt_ceil(n: u128) -> (s: u128)
    ensures
        is_ceil_sqrt(n as nat, s as nat),
        s == ceil_sqrt(n as nat),
        s <= 0x1_0000_0000_0000_0000,
{
    let mut lo: u128 = 0;
    let mut hi: u128 = 0x1_0000_0000_0000_0000;
    assert(hi * hi >= n) by (nonlinear_arith)
        requires
            hi == 0x1_0000_0000_0000_0000,
            n <= u128::MAX,
    ;
    while lo < hi
        invariant
            lo <= hi <= 0x1_0000_0000_0000_0000,
            hi * hi >= n,
            lo == 0 || (lo - 1) * (lo - 1) < n,
        decreases hi - lo,
    {
        let mid: u128 = lo + (hi - lo) / 2;
        assert(mid * mid <= u128::MAX) by (nonlinear_arith)
            requires
                mid < 0x1_0000_0000_0000_0000,
        ;
        if mid * mid >= n {
            hi = mid;
        } else {
            lo = mid + 1;
        }
    }
    proof {
        lemma_ceil_sqrt_unique(n as nat, lo as nat, ceil_sqrt(n as nat));
    }
    lo
}

/// The `j`-th baby step: `g^j` modulo `p`, starting from one.
pub open spec fn baby_step(g: nat, p: nat, j: nat) -> nat {
    if j == 0 {
        1
    } else {
        pow_mod(g, j, p)
    }
}

/// The last of the first `m` baby steps that equals `v`, if any does.
pub open spec fn last_baby_step(g: nat, p: nat, m: nat, v: nat) -> Option<nat>
    decreases m,
{
    if m == 0 {
        None
    } else if baby_step(g, p, (m - 1) as nat) == v {
        Some((m - 1) as nat)
    } else {
        last_baby_step(g, p, (m - 1) as nat, v)
    }
}

/// The `i`-th giant step: `h` multiplied `i` times by the factor `f`.
pub open spec fn giant_step(h: nat, f: nat, p: nat, i: nat) -> nat {
    if i == 0 {
        h
    } else {
        ((h * pow(f as int, i)) % (p as int)) as nat
    }
}

/// The exponent that giant step `i` yields: `i * m + j` for the last baby
/// step `j` that meets it, provided that `g` raised to it is `h`.
pub open spec fn bsgs_candidate(g: nat, h: nat, p: nat, m: nat, f: nat, i: nat) -> Option<nat> {
    match last_baby_step(g, p, m, giant_step(h, f, p, i)) {
        Some(j) => if pow_mod(g, i * m + j, p) == h {
            Some(i * m + j)
        } else {
            None
        },
        None => None,
    }
}

/// The exponent of the first giant step from `from` on that yields one.
pub open spec fn bsgs_scan(g: nat, h: nat, p: nat, m: nat, f: nat, from: nat) -> Option<nat>
    decreases m - from,
{
    if from >= m {
        None
    } else {
        match bsgs_candidate(g, h, p, m, f, from) {
            Some(x) => Some(x),
            None => bsgs_scan(g, h, p, m, f, from + 1),
        }
    }
}

/// The number of baby steps, and of giant steps, for a subgroup of at most
/// `order` elements.
pub open spec fn step_count(order: nat) -> nat {
    ceil_sqrt(order) + 1
}

/// What baby-step/giant-step returns: nothing if `g^m` has no inverse modulo
/// `p`, else the exponent of the first giant step that yields one.
pub open spec fn bsgs_value(g: nat, h: nat, p: nat, order: nat) -> Option<nat> {
    let m = step_count(order);
    let g_m = pow_mod(g, m, p);
    if gcd(g_m, p) != 1 {
        None
    } else {
        bsgs_scan(g, h, p, m, inverse_mod(g_m, p), 0)
    }
}

/// A baby step that the table holds lies among the first `m`, and is met
/// there.
pub proof fn lemma_last_baby_step(g: nat, p: nat, m: nat, v: nat)
    ensures
        last_baby_step(g, p, m, v) matches Some(j) ==> j < m && baby_step(g, p, j) == v,
        last_baby_step(g, p, m, v) is None ==> forall|j: nat|
            j < m ==> #[trigger] baby_step(g, p, j) != v,
    decreases m,
{
    if m > 0 {
        lemma_last_baby_step(g, p, (m - 1) as nat, v);
    }
}

/// An exponent that the scan returns solves the problem and is below `m * m`.
pub proof fn lemma_bsgs_scan_sound(g: nat, h: nat, p: nat, m: nat, f: nat, from: nat)
    ensures
        bsgs_scan(g, h, p, m, f, from) matches Some(x) ==> pow_mod(g, x, p) == h && x < m * m,
    decreases m - from,
{
    if from < m {
        match bsgs_candidate(g, h, p, m, f, from) {
            Some(x) => {
                let j = last_baby_step(g, p, m, giant_step(h, f, p, from)).unwrap();
                lemma_last_baby_step(g, p, m, giant_step(h, f, p, from));
                assert(from * m + j < m * m) by (nonlinear_arith)
                    requires
                        from < m,
                        j < m,
                ;
            },
            None => {
                lemma_bsgs_scan_sound(g, h, p, m, f, from + 1);
            },
        }
    }
}

/// Each baby step is the one before, multiplied by `g`.
pub proof fn lemma_baby_step_next(g: nat, p: nat, j: nat)
    requires
        p > 0,
    ensures
        baby_step(g, p, j + 1) == (baby_step(g, p, j) * g) % p,
{
    let gi = g as int;
    let pi = p as int;
    lemma_pow1(gi);
    if j == 0 {
        lemma_mul_basics(gi);
    } else {
        lemma_pow_adds(gi, j, 1);
        lemma_mul_mod_noop_left(pow(gi, j), gi, pi);
    }
}

/// Each giant step is the one before, multiplied by the factor.
pub proof fn lemma_giant_step_next(h: nat, f: nat, p: nat, i: nat)
    requires
        p > 0,
    ensures
        giant_step(h, f, p, i + 1) == (giant_step(h, f, p, i) * f) % p,
{
    let fi = f as int;
    let pi = p as int;
    lemma_pow1(fi);
    if i == 0 {
    } else {
        lemma_pow_adds(fi, i, 1);
        lemma_mul_is_associative(h as int, pow(fi, i), fi);
        lemma_mul_mod_noop_left(h * pow(fi, i), fi, pi);
    }
}

/// Every number has a rounded-up square root.
pub proof fn lemma_ceil_sqrt_exists(n: nat)
    ensures
        is_ceil_sqrt(n, ceil_sqrt(n)),
{
    lemma_ceil_sqrt_from(n, 0);
}

proof fn lemma_ceil_sqrt_from(n: nat, s: nat) -> (r: nat)
    requires
        s == 0 || (s - 1) * (s - 1) < n,
    ensures
        is_ceil_sqrt(n, r),
    decreases n - s,
{
    if s * s >= n {
        s
    } else {
        assert(s < n) by (nonlinear_arith)
            requires
                s * s < n,
        ;
        lemma_ceil_sqrt_from(n, s + 1)
    }
}

/// A giant step that yields an exponent makes the scan succeed.
pub proof fn lemma_scan_finds(g: nat, h: nat, p: nat, m: nat, f: nat, from: nat, i: nat)
    requires
        from <= i < m,
        bsgs_candidate(g, h, p, m, f, i) is Some,
    ensures
        bsgs_scan(g, h, p, m, f, from) is Some,
    decreases i - from,
{
    if from < i && bsgs_candidate(g, h, p, m, f, from) is None {
        lemma_scan_finds(g, h, p, m, f, from + 1, i);
    }
}

/// Powers of a number and of its inverse cancel.
pub proof fn lemma_inverse_power(a: nat, f: nat, i: nat, p: nat)
    requires
        p > 1,
        (a * f) % p == 1,
    ensures
        (pow_mod(a, i, p) * pow_mod(f, i, p)) % p == 1,
{
    let ai = a as int;
    let fi = f as int;
    let pi = p as int;
    lemma_pow_mod_bound(a, i, p);
    lemma_pow_mod_bound(f, i, p);
    lemma_mul_mod_noop(pow(ai, i), pow(fi, i), pi);
    lemma_pow_distributes(ai, fi, i);
    lemma_pow_mod_noop(ai * fi, i, pi);
    lemma1_pow(i);
    lemma_small_mod(1, p);
}

/// The giant step for the quotient of `y` by `m` is the baby step for the
/// remainder, where `h` is `g^y`.
pub proof fn lemma_giant_meets_baby(g: nat, h: nat, p: nat, m: nat, f: nat, y: nat)
    requires
        p > 1,
        m > 0,
        h == pow_mod(g, y, p),
        is_inverse_mod(pow_mod(g, m, p), f, p),
    ensures
        giant_step(h, f, p, y / m) == pow_mod(g, y % m, p),
{
    let i = y / m;
    let j = y % m;
    let big = pow_mod(g, m, p);
    let r = pow_mod(g, j, p);
    lemma_pow_mod_bound(g, j, p);
    lemma_small_mod(1, p);
    lemma_fundamental_div_mod(y as int, m as int);
    if i == 0 {
        lemma_mul_basics(m as int);
    } else {
        let bi = pow_mod(big, i, p);
        let fi = pow_mod(f, i, p);
        lemma_pow_mod_bound(big, i, p);
        lemma_pow_mod_bound(f, i, p);
        // h == g^(m i) * g^j == big^i * r
        lemma_pow_mod_multiplies(g, m, i, p);
        lemma_pow_mod_adds(g, m * i, j, p);
        assert(h == (bi * r) % p);
        // h * f^i == (big^i * r) * f^i == r * (big^i * f^i) == r
        lemma_inverse_power(big, f, i, p);
        lemma_mul_mod_noop_right(h as int, pow(f as int, i), p as int);
        lemma_mul_mod_noop_left((bi * r) as int, fi as int, p as int);
        assert((bi * r) * fi == r * (bi * fi)) by (nonlinear_arith);
        lemma_mul_mod_noop_right(r as int, (bi * fi) as int, p as int);
        lemma_mul_basics(r as int);
        lemma_small_mod(r, p);
    }
}

/// Baby-step/giant-step finds an exponent whenever one exists below `order`
/// and `g^m` has an inverse modulo `p`, for `m` the number of steps.
pub proof fn lemma_bsgs_complete(g: nat, h: nat, p: nat, order: nat, y: nat)
    requires
        p > 1,
        y < order,
        h == pow_mod(g, y, p),
        gcd(pow_mod(g, step_count(order), p), p) == 1,
    ensures
        bsgs_value(g, h, p, order) is Some,
{
    let s = ceil_sqrt(order);
    let m = step_count(order);
    let big = pow_mod(g, m, p);
    let f = inverse_mod(big, p);
    lemma_ceil_sqrt_exists(order);
    lemma_inverse_exists(big, p);
    let i = y / m;
    let j = y % m;
    lemma_fundamental_div_mod(y as int, m as int);
    lemma_mod_bound(y as int, m as int);
    assert(i < m) by (nonlinear_arith)
        requires
            y == m * i + j,
            j >= 0,
            y < s * s,
            m == s + 1,
    ;
    lemma_giant_meets_baby(g, h, p, m, f, y);
    let gamma = giant_step(h, f, p, i);
    lemma_small_mod(1, p);
    lemma_pow0(g as int);
    assert(baby_step(g, p, j) == gamma);
    lemma_last_baby_step(g, p, m, gamma);
    let k = last_baby_step(g, p, m, gamma).unwrap();
    assert(pow_mod(g, k, p) == pow_mod(g, j, p));
    // g^(i m + k) == g^(i m) * g^k == g^(i m) * g^j == g^y
    lemma_pow_mod_adds(g, i * m, k, p);
    lemma_pow_mod_adds(g, i * m, j, p);
    lemma_mul_is_commutative(i as int, m as int);
    assert(bsgs_candidate(g, h, p, m, f, i) is Some);
    lemma_scan_finds(g, h, p, m, f, 0, i);
}

/// An exponent `x` with `g^x = h (mod p)`, found by baby-step/giant-step for
/// a subgroup of at most `order` elements.
///
/// With `m` one more than the rounded-up square root of `order`, the table
/// maps `g^j` to `j` for `j < m`, a later `j` replacing an earlier one with
/// the same power. Giant step `i` looks up `h * g^(-m i)`; an entry `j` gives
/// the candidate `i * m + j`, which is returned if `g` raised to it is `h`.
/// The result is `None` if `g^m` has no inverse modulo `p`, or if no giant
/// step yields an exponent.
pub fn baby_step_giant_step(g: u128, h: u128, p: u128, order: u128) -> (r: Option<u128>)
    requires
        0 < p <= MAX_MODULUS,
        g <= MAX_MODULUS,
        h <= MAX_MODULUS,
        order <= MAX_MODULUS * MAX_MODULUS,
    ensures
        match r {
            Some(x) => bsgs_value(g as nat, h as nat, p as nat, order as nat) == Some(x as nat),
            None => bsgs_value(g as nat, h as nat, p as nat, order as nat) is None,
        },
        r matches Some(x) ==> pow_mod(g as nat, x as nat, p as nat) == h && x < step_count(
            order as nat,
        ) * step_count(order as nat),
        p > 1 && gcd(pow_mod(g as nat, step_count(order as nat), p as nat), p as nat) == 1
            && is_power_below(g as nat, h as nat, p as nat, order as nat) ==> r is Some,
{
    let root = isqrt_ceil(order);
    proof {
        if root > MAX_MODULUS {
            assert((root - 1) * (root - 1) >= MAX_MODULUS * MAX_MODULUS) by (nonlinear_arith)
                requires
                    root - 1 >= MAX_MODULUS,
            ;
        }
    }
    let m: u128 = root + 1;
    let mut table: HashMap<u128, u128> = HashMap::new();
    let mut g_j: u128 = 1;
    let mut j: u128 = 0;
    while j < m
        invariant
            0 < p <= MAX_MODULUS,
            g <= MAX_MODULUS,
            j <= m,
            g_j == baby_step(g as nat, p as nat, j as nat),
            g_j <= MAX_MODULUS,
            forall|v: u128| #[trigger]
                table@.contains_key(v) <==> last_baby_step(
                    g as nat,
                    p as nat,
                    j as nat,
                    v as nat,
                ) is Some,
            forall|v: u128| #[trigger]
                table@.contains_key(v) ==> last_baby_step(g as nat, p as nat, j as nat, v as nat)
                    == Some(table@[v] as nat),
        decreases m - j,
    {
        table.insert(g_j, j);
        proof {
            lemma_baby_step_next(g as nat, p as nat, j as nat);
            assert(g_j * g <= u128::MAX) by (nonlinear_arith)
                requires
                    g_j <= MAX_MODULUS,
                    g <= MAX_MODULUS,
            ;
        }
        g_j = mod_mul(g_j, g, p);
        j += 1;
    }
    let g_m = mod_pow(g, m, p);
    let g_m_inv = match mod_inverse(g_m, p) {
        Some(inv) => inv,
        None => {
            return None;
        },
    };
    let ghost f = g_m_inv as nat;
    proof {
        lemma_inverse_unique(g_m as nat, f, inverse_mod(g_m as nat, p as nat), p as nat);
    }
    let mut gamma: u128 = h;
    let mut i: u128 = 0;
    while i < m
        invariant
            0 < p <= MAX_MODULUS,
            m <= MAX_MODULUS + 1,
            i <= m,
            g_m_inv < p,
            f == g_m_inv,
            m == step_count(order as nat),
            gcd(pow_mod(g as nat, m as nat, p as nat), p as nat) == 1,
            f == inverse_mod(pow_mod(g as nat, m as nat, p as nat), p as nat),
            gamma == giant_step(h as nat, f, p as nat, i as nat),
            gamma <= MAX_MODULUS,
            bsgs_scan(g as nat, h as nat, p as nat, m as nat, f, 0) == bsgs_scan(
                g as nat,
                h as nat,
                p as nat,
                m as nat,
                f,
                i as nat,
            ),
            forall|v: u128| #[trigger]
                table@.contains_key(v) <==> last_baby_step(
                    g as nat,
                    p as nat,
                    m as nat,
                    v as nat,
                ) is Some,
            forall|v: u128| #[trigger]
                table@.contains_key(v) ==> last_baby_step(g as nat, p as nat, m as nat, v as nat)
                    == Some(table@[v] as nat),
        decreases m - i,
    {
        match table.get(&gamma) {
            Some(found) => {
                let j: u128 = *found;
                proof {
                    lemma_last_baby_step(g as nat, p as nat, m as nat, gamma as nat);
                    assert(0 <= i * m <= MAX_MODULUS * (MAX_MODULUS + 1)) by (nonlinear_arith)
                        requires
                            0 <= i < m,
                            m <= MAX_MODULUS + 1,
                    ;
                }
                let x: u128 = i * m + j;
                if mod_pow(g, x, p) == h {
                    assert(bsgs_candidate(g as nat, h as nat, p as nat, m as nat, f, i as nat)
                        == Some(x as nat));
                    assert(x < m * m) by (nonlinear_arith)
                        requires
                            x == i * m + j,
                            i < m,
                            j < m,
                    ;
                    return Some(x);
                }
            },
            None => {},
        }
        proof {
            lemma_giant_step_next(h as nat, f, p as nat, i as nat);
            assert(gamma * g_m_inv <= u128::MAX) by (nonlinear_arith)
                requires
                    gamma <= MAX_MODULUS,
                    g_m_inv <= MAX_MODULUS,
            ;
        }
        gamma = mod_mul(gamma, g_m_inv, p);
        i += 1;
    }
    proof {
        if p > 1 && is_power_below(g as nat, h as nat, p as nat, order as nat) {
            let y = choose|y: nat| y < order && #[trigger] pow_mod(g as nat, y, p as nat) == h;
            lemma_bsgs_complete(g as nat, h as nat, p as nat, order as nat, y);
        }
    }
    None
}

} // verus!
