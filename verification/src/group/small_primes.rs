//! The small primes of the two group orders, each shown to be prime by trial
//! division up to its square root.

use crate::numbers::{is_prime, lemma_divides_transitive, lemma_prime_by_trial};
use vstd::prelude::*;

verus! {

/// No number from two up to, but not including, `d` divides `n`.
pub open spec fn no_divisor_below(n: nat, d: nat) -> bool {
    forall|q: nat| 2 <= q < d ==> #[trigger] (n % q) != 0
}

/// One more trial divisor.
proof fn lemma_trial_step(n: nat, d: nat)
    requires
        no_divisor_below(n, d),
        n % d != 0,
    ensures
        no_divisor_below(n, d + 1),
{
}

/// Two more trial divisors for an odd number: an odd one, and the even one
/// after it, which cannot divide an odd number.
proof fn lemma_trial_step_odd(n: nat, d: nat)
    requires
        no_divisor_below(n, d),
        d >= 2,
        d % 2 == 1,
        n % 2 != 0,
        n % d != 0,
    ensures
        no_divisor_below(n, d + 2),
{
    if n % (d + 1) == 0 {
        lemma_divides_transitive(2, d + 1, n);
    }
}

/// 2 is prime: no number up to its square root divides it.
pub proof fn lemma_prime_2()
    ensures
        is_prime(2),
{
    assert(no_divisor_below(2, 2));
    lemma_prime_by_trial(2, 2);
}

/// 3 is prime: no number up to its square root divides it.
pub proof fn lemma_prime_3()
    ensures
        is_prime(3),
{
    assert(no_divisor_below(3, 2));
    lemma_prime_by_trial(3, 2);
}

/// 5 is prime: no number up to its square root divides it.
pub proof fn lemma_prime_5()
    ensures
        is_prime(5),
{
    assert(no_divisor_below(5, 2));
    lemma_trial_step(5, 2);
    lemma_prime_by_trial(5, 3);
}

/// 11 is prime: no number up to its square root divides it.
pub proof fn lemma_prime_11()
    ensures
        is_prime(11),
{
    assert(no_divisor_below(11, 2));
    lemma_trial_step(11, 2);
    lemma_trial_step_odd(11, 3);
    lemma_prime_by_trial(11, 5);
}

/// 137 is prime: no number up to its square root divides it.
pub proof fn lemma_prime_137()
    ensures
        is_prime(137),
{
    assert(no_divisor_below(137, 2));
    lemma_trial_step(137, 2);
    lemma_trial_step_odd(137, 3);
    lemma_trial_step_odd(137, 5);
    lemma_trial_step_odd(137, 7);
    lemma_trial_step_odd(137, 9);
    lemma_trial_step_odd(137, 11);
    lemma_prime_by_trial(137, 13);
}

/// 547 is prime: no number up to its square root divides it.
pub proof fn lemma_prime_547()
    ensures
        is_prime(547),
{
    assert(no_divisor_below(547, 2));
    lemma_trial_step(547, 2);
    lemma_trial_step_odd(547, 3);
    lemma_trial_step_odd(547, 5);
    lemma_trial_step_odd(547, 7);
    lemma_trial_step_odd(547, 9);
    lemma_trial_step_odd(547, 11);
    lemma_trial_step_odd(547, 13);
    lemma_trial_step_odd(547, 15);
    lemma_trial_step_odd(547, 17);
    lemma_trial_step_odd(547, 19);
    lemma_trial_step_odd(547, 21);
    lemma_trial_step_odd(547, 23);
    lemma_prime_by_trial(547, 25);
}

/// 1427 is prime: no number up to its square root divides it.
pub proof fn lemma_prime_1427()
    ensures
        is_prime(1427),
{
    assert(no_divisor_below(1427, 2));
    lemma_trial_step(1427, 2);
    lemma_trial_step_odd(1427, 3);
    lemma_trial_step_odd(1427, 5);
    lemma_trial_step_odd(1427, 7);
    lemma_trial_step_odd(1427, 9);
    lemma_trial_step_odd(1427, 11);
    lemma_trial_step_odd(1427, 13);
    lemma_trial_step_odd(1427, 15);
    lemma_trial_step_odd(1427, 17);
    lemma_trial_step_odd(1427, 19);
    lemma_trial_step_odd(1427, 21);
    lemma_trial_step_odd(1427, 23);
    lemma_trial_step_odd(1427, 25);
    lemma_trial_step_odd(1427, 27);
    lemma_trial_step_odd(1427, 29);
    lemma_trial_step_odd(1427, 31);
    lemma_trial_step_odd(1427, 33);
    lemma_trial_step_odd(1427, 35);
    lemma_trial_step_odd(1427, 37);
    lemma_prime_by_trial(1427, 39);
}

/// 2131 is prime: no number up to its square root divides it.
pub proof fn lemma_prime_2131()
    ensures
        is_prime(2131),
{
    assert(no_divisor_below(2131, 2));
    lemma_trial_step(2131, 2);
    lemma_trial_step_odd(2131, 3);
    lemma_trial_step_odd(2131, 5);
    lemma_trial_step_odd(2131, 7);
    lemma_trial_step_odd(2131, 9);
    lemma_trial_step_odd(2131, 11);
    lemma_trial_step_odd(2131, 13);
    lemma_trial_step_odd(2131, 15);
    lemma_trial_step_odd(2131, 17);
    lemma_trial_step_odd(2131, 19);
    lemma_trial_step_odd(2131, 21);
    lemma_trial_step_odd(2131, 23);
    lemma_trial_step_odd(2131, 25);
    lemma_trial_step_odd(2131, 27);
    lemma_trial_step_odd(2131, 29);
    lemma_trial_step_odd(2131, 31);
    lemma_trial_step_odd(2131, 33);
    lemma_trial_step_odd(2131, 35);
    lemma_trial_step_odd(2131, 37);
    lemma_trial_step_odd(2131, 39);
    lemma_trial_step_odd(2131, 41);
    lemma_trial_step_odd(2131, 43);
    lemma_trial_step_odd(2131, 45);
    lemma_prime_by_trial(2131, 47);
}

/// 15331 is prime: no number up to its square root divides it.
pub proof fn lemma_prime_15331()
    ensures
        is_prime(15331),
{
    assert(no_divisor_below(15331, 2));
    lemma_trial_step(15331, 2);
    lemma_trial_step_odd(15331, 3);
    lemma_trial_step_odd(15331, 5);
    lemma_trial_step_odd(15331, 7);
    lemma_trial_step_odd(15331, 9);
    lemma_trial_step_odd(15331, 11);
    lemma_trial_step_odd(15331, 13);
    lemma_trial_step_odd(15331, 15);
    lemma_trial_step_odd(15331, 17);
    lemma_trial_step_odd(15331, 19);
    lemma_trial_step_odd(15331, 21);
    lemma_trial_step_odd(15331, 23);
    lemma_trial_step_odd(15331, 25);
    lemma_trial_step_odd(15331, 27);
    lemma_trial_step_odd(15331, 29);
    lemma_trial_step_odd(15331, 31);
    lemma_trial_step_odd(15331, 33);
    lemma_trial_step_odd(15331, 35);
    lemma_trial_step_odd(15331, 37);
    lemma_trial_step_odd(15331, 39);
    lemma_trial_step_odd(15331, 41);
    lemma_trial_step_odd(15331, 43);
    lemma_trial_step_odd(15331, 45);
    lemma_trial_step_odd(15331, 47);
    lemma_trial_step_odd(15331, 49);
    lemma_trial_step_odd(15331, 51);
    lemma_trial_step_odd(15331, 53);
    lemma_trial_step_odd(15331, 55);
    lemma_trial_step_odd(15331, 57);
    lemma_trial_step_odd(15331, 59);
    lemma_trial_step_odd(15331, 61);
    lemma_trial_step_odd(15331, 63);
    lemma_trial_step_odd(15331, 65);
    lemma_trial_step_odd(15331, 67);
    lemma_trial_step_odd(15331, 69);
    lemma_trial_step_odd(15331, 71);
    lemma_trial_step_odd(15331, 73);
    lemma_trial_step_odd(15331, 75);
    lemma_trial_step_odd(15331, 77);
    lemma_trial_step_odd(15331, 79);
    lemma_trial_step_odd(15331, 81);
    lemma_trial_step_odd(15331, 83);
    lemma_trial_step_odd(15331, 85);
    lemma_trial_step_odd(15331, 87);
    lemma_trial_step_odd(15331, 89);
    lemma_trial_step_odd(15331, 91);
    lemma_trial_step_odd(15331, 93);
    lemma_trial_step_odd(15331, 95);
    lemma_trial_step_odd(15331, 97);
    lemma_trial_step_odd(15331, 99);
    lemma_trial_step_odd(15331, 101);
    lemma_trial_step_odd(15331, 103);
    lemma_trial_step_odd(15331, 105);
    lemma_trial_step_odd(15331, 107);
    lemma_trial_step_odd(15331, 109);
    lemma_trial_step_odd(15331, 111);
    lemma_trial_step_odd(15331, 113);
    lemma_trial_step_odd(15331, 115);
    lemma_trial_step_odd(15331, 117);
    lemma_trial_step_odd(15331, 119);
    lemma_trial_step_odd(15331, 121);
    lemma_trial_step_odd(15331, 123);
    lemma_prime_by_trial(15331, 125);
}

} // verus!
