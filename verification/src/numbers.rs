//! Divisibility, greatest common divisors and primes over the natural numbers.

use vstd::arithmetic::div_mod::*;
use vstd::arithmetic::mul::*;
use vstd::prelude::*;

verus! {

/// The greatest common divisor of `a` and `b`; `gcd(0, 0)` is zero.
pub open spec fn gcd(a: nat, b: nat) -> nat
    decreases b,
{
    if b == 0 {
        a
    } else {
        gcd(b, a % b)
    }
}

/// `p` is at least two and has no divisor strictly between one and itself.
pub open spec fn is_prime(p: nat) -> bool {
    p >= 2 && forall|d: nat| 2 <= d < p ==> #[trigger] (p % d) != 0
}

/// A number that leaves no remainder is its divisor times the quotient.
pub proof fn lemma_exact_quotient(n: int, d: int)
    requires
        d > 0,
        n % d == 0,
    ensures
        n == d * (n / d),
        n == (n / d) * d,
{
    lemma_fundamental_div_mod(n, d);
    lemma_mul_is_commutative(d, n / d);
}

/// A sum of multiples of `d` is a multiple of `d`.
pub proof fn lemma_combination_divisible(a: int, x: int, b: int, y: int, d: int)
    requires
        d > 0,
        a % d == 0,
        b % d == 0,
    ensures
        (a * x + b * y) % d == 0,
{
    lemma_exact_quotient(a, d);
    lemma_exact_quotient(b, d);
    let k = (a / d) * x + (b / d) * y;
    assert(a * x + b * y == k * d) by (nonlinear_arith)
        requires
            a == (a / d) * d,
            b == (b / d) * d,
            k == (a / d) * x + (b / d) * y,
    ;
    lemma_mod_multiples_basic(k, d);
}

/// The greatest common divisor divides both numbers, and is positive unless
/// both are zero.
pub proof fn lemma_gcd_divides(a: nat, b: nat)
    ensures
        (a > 0 || b > 0) ==> gcd(a, b) > 0,
        gcd(a, b) > 0 ==> a % gcd(a, b) == 0 && b % gcd(a, b) == 0,
    decreases b,
{
    if b == 0 {
        if a > 0 {
            lemma_mod_self_0(a as int);
            lemma_small_mod(0, a);
        }
    } else {
        lemma_gcd_divides(b, a % b);
        let g = gcd(a, b);
        assert(g == gcd(b, a % b));
        assert(g > 0);
        // a == b * (a / b) + a % b, and g divides both terms
        lemma_fundamental_div_mod(a as int, b as int);
        lemma_combination_divisible(b as int, (a / b) as int, (a % b) as int, 1, g as int);
    }
}

/// Every common divisor of two numbers divides their greatest common divisor.
pub proof fn lemma_gcd_greatest(a: nat, b: nat, d: nat)
    requires
        d > 0,
        a % d == 0,
        b % d == 0,
    ensures
        gcd(a, b) % d == 0,
    decreases b,
{
    if b > 0 {
        // a % b == a - b * (a / b)
        lemma_fundamental_div_mod(a as int, b as int);
        let q = (a / b) as int;
        let r = (a % b) as int;
        lemma_combination_divisible(a as int, 1, b as int, -q, d as int);
        assert(a * 1 + b * (-q) == r) by (nonlinear_arith)
            requires
                a == b * q + r,
        ;
        lemma_gcd_greatest(b, a % b, d);
    }
}

/// Bézout's identity: the greatest common divisor is an integer combination
/// of the two numbers. Returns the two coefficients.
pub proof fn lemma_bezout(a: nat, b: nat) -> (c: (int, int))
    ensures
        a * c.0 + b * c.1 == gcd(a, b),
    decreases b,
{
    if b == 0 {
        (1, 0)
    } else {
        let (x, y) = lemma_bezout(b, a % b);
        let q = (a / b) as int;
        lemma_fundamental_div_mod(a as int, b as int);
        assert(a * y + b * (x - q * y) == b * x + (a % b) * y) by (nonlinear_arith)
            requires
                a == b * q + a % b,
        ;
        (y, x - q * y)
    }
}

/// Two numbers with an integer combination equal to one are coprime.
pub proof fn lemma_combination_one_coprime(a: nat, b: nat, x: int, y: int)
    requires
        a * x + b * y == 1,
    ensures
        gcd(a, b) == 1,
{
    assert(a > 0 || b > 0) by (nonlinear_arith)
        requires
            a * x + b * y == 1,
    ;
    lemma_gcd_divides(a, b);
    let g = gcd(a, b);
    lemma_combination_divisible(a as int, x, b as int, y, g as int);
    if g > 1 {
        lemma_small_mod(1, g);
    }
}

/// The greatest common divisor does not depend on the order of its arguments.
pub proof fn lemma_gcd_symmetric(a: nat, b: nat)
    ensures
        gcd(a, b) == gcd(b, a),
{
    if a == 0 && b == 0 {
    } else {
        lemma_gcd_divides(a, b);
        lemma_gcd_divides(b, a);
        let g = gcd(a, b);
        let h = gcd(b, a);
        lemma_gcd_greatest(a, b, h);
        lemma_gcd_greatest(b, a, g);
        lemma_divide_each_other(g, h);
    }
}

/// Two positive numbers that divide each other are equal.
pub proof fn lemma_divide_each_other(g: nat, h: nat)
    requires
        g > 0,
        h > 0,
        g % h == 0,
        h % g == 0,
    ensures
        g == h,
{
    if g < h {
        lemma_small_mod(g, h);
    } else if h < g {
        lemma_small_mod(h, g);
    }
}

/// A product of two numbers coprime to `m` is coprime to `m`.
pub proof fn lemma_coprime_product(a: nat, b: nat, m: nat)
    requires
        gcd(a, m) == 1,
        gcd(b, m) == 1,
    ensures
        gcd(a * b, m) == 1,
{
    let (x1, y1) = lemma_bezout(a, m);
    let (x2, y2) = lemma_bezout(b, m);
    let x = x1 * x2;
    let y = (a * x1) * y2 + y1 * (b * x2) + y1 * (m * y2);
    let p1 = a * x1;
    let p2 = b * x2;
    assert(p1 * p2 == (a * b) * x) by (nonlinear_arith)
        requires
            p1 == a * x1,
            p2 == b * x2,
            x == x1 * x2,
    ;
    assert(m * y == p1 * (m * y2) + (m * y1) * p2 + (m * y1) * (m * y2)) by (nonlinear_arith)
        requires
            y == p1 * y2 + y1 * p2 + y1 * (m * y2),
    ;
    assert((p1 + m * y1) * (p2 + m * y2) == p1 * p2 + p1 * (m * y2) + (m * y1) * p2 + (m * y1)
        * (m * y2)) by (nonlinear_arith);
    assert((p1 + m * y1) * (p2 + m * y2) == 1) by (nonlinear_arith)
        requires
            p1 + m * y1 == 1,
            p2 + m * y2 == 1,
    ;
    lemma_combination_one_coprime(a * b, m, x, y);
}

/// If `m` divides `a * b` and is coprime to `a`, it divides `b`.
pub proof fn lemma_coprime_cancel(a: nat, b: nat, m: nat)
    requires
        m > 0,
        gcd(a, m) == 1,
        (a * b) % m == 0,
    ensures
        b % m == 0,
{
    let (x, y) = lemma_bezout(a, m);
    lemma_mod_self_0(m as int);
    lemma_combination_divisible((a * b) as int, x, m as int, b * y, m as int);
    assert((a * b) * x + m * (b * y) == b) by (nonlinear_arith)
        requires
            a * x + m * y == 1,
    ;
}

/// A number divisible by two coprime numbers is divisible by their product.
pub proof fn lemma_coprime_divisors_multiply(m1: nat, m2: nat, z: nat)
    requires
        m1 > 0,
        m2 > 0,
        gcd(m1, m2) == 1,
        z % m1 == 0,
        z % m2 == 0,
    ensures
        m1 * m2 > 0,
        z % (m1 * m2) == 0,
{
    lemma_mul_strictly_positive(m1 as int, m2 as int);
    lemma_exact_quotient(z as int, m1 as int);
    let k = z / m1;
    assert(z == m1 * k);
    lemma_coprime_cancel(m1, k, m2);
    lemma_exact_quotient(k as int, m2 as int);
    let j = k / m2;
    assert(z == j * (m1 * m2)) by (nonlinear_arith)
        requires
            z == m1 * k,
            k == j * m2,
    ;
    lemma_mod_multiples_basic(j as int, (m1 * m2) as int);
}

/// A prime is coprime to every number that it does not divide.
pub proof fn lemma_prime_coprime(a: nat, p: nat)
    requires
        is_prime(p),
        a % p != 0,
    ensures
        gcd(a, p) == 1,
{
    lemma_gcd_divides(a, p);
    let g = gcd(a, p);
    if g != 1 {
        if g < p {
            assert(p % g != 0);
        } else {
            if g > p {
                lemma_small_mod(p, g);
            }
        }
    }
}

/// The remainder of the division that rounds toward zero: it has the sign of
/// the dividend and the magnitude of `|a| % |b|`.
pub open spec fn truncated_rem(a: int, b: int) -> int {
    let d = if b >= 0 { b } else { -b };
    if a >= 0 {
        a % d
    } else {
        -((-a) % d)
    }
}

/// Lifting a remainder that has the sign of its dividend into `[0, m)` gives
/// the remainder of floor division.
pub proof fn lemma_signed_remainder_lifted(s: int, m: int)
    requires
        m > 0,
    ensures
        truncated_rem(truncated_rem(s, m) + m, m) == s % m,
{
    lemma_mod_bound(s, m);
    lemma_mod_bound(-s, m);
    if s >= 0 {
        lemma_mod_add_multiples_vanish(s % m, m);
        lemma_mod_twice(s, m);
    } else {
        let k = (-s) / m;
        let t = -((-s) % m);
        lemma_fundamental_div_mod(-s, m);
        assert(s == (-k) * m + t) by (nonlinear_arith)
            requires
                -s == m * k - t,
        ;
        lemma_mod_multiples_vanish(-k, t, m);
        lemma_mod_add_multiples_vanish(t, m);
    }
}

/// A Bézout coefficient of `a`, reduced modulo `m`, is the inverse of `a`.
pub proof fn lemma_inverse_residue(a: int, s: int, t: int, m: int, x: int)
    requires
        a >= 0,
        m > 0,
        s * a + t * m == 1,
        x == s % m,
    ensures
        0 <= x < m,
        (a * x) % m == 1int % m,
{
    lemma_mod_bound(s, m);
    // a * x == a * s == 1 - t * m == 1   (mod m)
    lemma_mul_mod_noop_right(a, s, m);
    assert(a * s == 1 + (-t) * m) by (nonlinear_arith)
        requires
            s * a + t * m == 1,
    ;
    lemma_mod_multiples_vanish(-t, 1, m);
}

/// Euclid's lemma: a prime that divides a product divides one of the factors.
pub proof fn lemma_prime_divides_factor(q: nat, a: nat, b: nat)
    requires
        is_prime(q),
        (a * b) % q == 0,
    ensures
        a % q == 0 || b % q == 0,
{
    if a % q != 0 {
        lemma_prime_coprime(a, q);
        lemma_coprime_cancel(a, b, q);
    }
}

/// A prime that divides a prime is that prime.
pub proof fn lemma_prime_divides_prime(q: nat, p: nat)
    requires
        is_prime(q),
        is_prime(p),
        p % q == 0,
    ensures
        p == q,
{
    if q > p {
        lemma_small_mod(p, q);
    }
}

/// Every number above one has a prime divisor. Returns one.
pub proof fn lemma_prime_divisor(n: nat) -> (q: nat)
    requires
        n >= 2,
    ensures
        is_prime(q),
        n % q == 0,
    decreases n,
{
    if is_prime(n) {
        lemma_mod_self_0(n as int);
        n
    } else {
        let d = choose|d: nat| 2 <= d < n && #[trigger] (n % d) == 0;
        let q = lemma_prime_divisor(d);
        lemma_divides_transitive(q, d, n);
        q
    }
}

/// Divisibility carries over from a divisor to its multiples.
pub proof fn lemma_divides_transitive(a: nat, b: nat, c: nat)
    requires
        a > 0,
        b > 0,
        b % a == 0,
        c % b == 0,
    ensures
        c % a == 0,
{
    lemma_exact_quotient(c as int, b as int);
    lemma_small_mod(0, a);
    lemma_combination_divisible(b as int, (c / b) as int, 0, 0, a as int);
}

/// A divisor of one factor divides the product.
pub proof fn lemma_divides_multiple(q: nat, x: nat, y: nat)
    requires
        q > 0,
        y % q == 0,
    ensures
        (x * y) % q == 0,
        (y * x) % q == 0,
{
    lemma_small_mod(0, q);
    lemma_combination_divisible(y as int, x as int, 0, 0, q as int);
    lemma_mul_is_commutative(x as int, y as int);
}

/// A number above one with no divisor from two up to its square root is prime.
pub proof fn lemma_prime_by_trial(n: nat, d: nat)
    requires
        n > 1,
        d >= 2,
        d > n / d,
        forall|q: nat| 2 <= q < d ==> #[trigger] (n % q) != 0,
    ensures
        is_prime(n),
{
    assert forall|q: nat| 2 <= q < n implies #[trigger] (n % q) != 0 by {
        if q >= d && n % q == 0 {
            // the cofactor of q is a divisor below d
            let c = n / q;
            lemma_exact_quotient(n as int, q as int);
            lemma_fundamental_div_mod(n as int, d as int);
            lemma_mod_bound(n as int, d as int);
            assert(c >= 2 && c < d) by (nonlinear_arith)
                requires
                    n == q * c,
                    q < n,
                    q >= d,
                    d >= 2,
                    d > n / d,
                    n == d * (n / d) + n % d,
                    0 <= n % d < d,
            ;
            lemma_mod_multiples_basic(q as int, c as int);
            lemma_mul_is_commutative(q as int, c as int);
            assert(n % c == 0);
        }
    }
}

} // verus!
