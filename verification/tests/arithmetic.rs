use dh_crack::{factor_order, int_pow, isqrt_ceil, mod_inverse, mod_mul, mod_pow, MODULUS};

#[test]
fn mod_mul_reduces_the_product() {
    assert_eq!(mod_mul(7, 8, 10), 6);
    assert_eq!(mod_mul(0, 8, 10), 0);
    assert_eq!(mod_mul(3, 4, 1), 0);
    assert_eq!(mod_mul(u64::MAX as u128, u64::MAX as u128, MODULUS), 3364);
    assert_eq!(mod_mul(1 << 100, 1 << 27, 1000), ((1u128 << 127) % 1000));
}

#[test]
fn mod_pow_known_values() {
    assert_eq!(mod_pow(3, 200, 1_000_007), 959082);
    assert_eq!(mod_pow(2, 10, 1025), 1024);
    assert_eq!(mod_pow(5, 28, MODULUS), 359414837200037511);
    assert_eq!(mod_pow(1 << 100, 1 << 100, MODULUS), 616655101047465357);
}

#[test]
fn mod_pow_modulus_one_is_zero() {
    assert_eq!(mod_pow(2, 10, 1), 0);
    assert_eq!(mod_pow(0, 0, 1), 0);
    assert_eq!(mod_pow(u128::MAX, u128::MAX, 1), 0);
}

#[test]
fn mod_pow_exponent_zero_is_one() {
    assert_eq!(mod_pow(0, 0, 7), 1);
    assert_eq!(mod_pow(12345, 0, MODULUS), 1);
    assert_eq!(mod_pow(0, 5, 7), 0);
}

#[test]
fn mod_pow_reduces_the_base_first() {
    assert_eq!(mod_pow((1 << 64) + 3, 3, u64::MAX as u128), 64);
    assert_eq!(mod_pow(MODULUS + 5, 2, MODULUS), 25);
    assert_eq!(mod_pow(u128::MAX, 1, u64::MAX as u128), 0);
}

#[test]
fn mod_pow_fermat_in_the_fixed_group() {
    assert_eq!(mod_pow(5, MODULUS - 1, MODULUS), 1);
    assert_eq!(mod_pow(5, (MODULUS - 1) / 2, MODULUS), MODULUS - 1);
}

#[test]
fn mod_inverse_known_values() {
    assert_eq!(mod_inverse(7, 1_000_007), Some(857149));
    assert_eq!(mod_inverse(5, MODULUS), Some(7378697629483820623));
    assert_eq!(mod_inverse(123456789, MODULUS), Some(2326704147043708191));
    assert_eq!(mod_inverse(1, 97), Some(1));
    assert_eq!(mod_inverse(96, 97), Some(96));
    assert_eq!(mod_inverse((1 << 64) - 2, u64::MAX as u128), Some((1 << 64) - 2));
    assert_eq!(mod_inverse((1 << 127) - 1, u64::MAX as u128), Some(18446744073709551613));
}

#[test]
fn mod_inverse_times_the_number_is_one() {
    for a in [2u128, 3, 1000, 0xdead_beef, MODULUS - 1, MODULUS + 7] {
        let x = mod_inverse(a, MODULUS).unwrap();
        assert!(x < MODULUS);
        assert_eq!(mod_mul(a % MODULUS, x, MODULUS), 1);
    }
}

#[test]
fn mod_inverse_of_a_number_with_a_common_factor_is_none() {
    assert_eq!(mod_inverse(4, 8), None);
    assert_eq!(mod_inverse(6, 9), None);
    assert_eq!(mod_inverse(0, 5), None);
    assert_eq!(mod_inverse(MODULUS, MODULUS), None);
    assert_eq!(mod_inverse(2 * MODULUS, MODULUS), None);
}

#[test]
fn mod_inverse_modulo_one_is_zero() {
    assert_eq!(mod_inverse(0, 1), Some(0));
    assert_eq!(mod_inverse(1, 1), Some(0));
    assert_eq!(mod_inverse(10, 1), Some(0));
}

#[test]
fn factor_order_of_the_group_order() {
    assert_eq!(
        factor_order(MODULUS - 1),
        vec![(2, 2), (11, 1), (137, 1), (547, 1), (5594472617641, 1)]
    );
}

#[test]
fn factor_order_small_numbers() {
    assert_eq!(factor_order(0), vec![]);
    assert_eq!(factor_order(1), vec![]);
    assert_eq!(factor_order(2), vec![(2, 1)]);
    assert_eq!(factor_order(3), vec![(3, 1)]);
    assert_eq!(factor_order(4), vec![(2, 2)]);
    assert_eq!(factor_order(97), vec![(97, 1)]);
    assert_eq!(factor_order(360), vec![(2, 3), (3, 2), (5, 1)]);
    assert_eq!(factor_order(1024), vec![(2, 10)]);
    assert_eq!(factor_order(49), vec![(7, 2)]);
}

#[test]
fn factor_order_larger_numbers() {
    assert_eq!(factor_order(600851475143), vec![(71, 1), (839, 1), (1471, 1), (6857, 1)]);
    assert_eq!(factor_order((1 << 32) + 1), vec![(641, 1), (6700417, 1)]);
    assert_eq!(factor_order(1 << 127), vec![(2, 127)]);
    assert_eq!(factor_order(3u128.pow(80)), vec![(3, 80)]);
}

#[test]
fn factor_order_multiplies_back() {
    for n in [12u128, 1001, 65536, 999_999_999_989, 2 * 3 * 5 * 7 * 11 * 13 * 17 * 19 * 23] {
        let factors = factor_order(n);
        let mut product = 1u128;
        let mut previous = 1u128;
        for (prime, exp) in factors {
            assert!(prime > previous);
            assert!(exp >= 1);
            previous = prime;
            product *= int_pow(prime, exp);
        }
        assert_eq!(product, n);
    }
}

#[test]
fn isqrt_ceil_rounds_up() {
    assert_eq!(isqrt_ceil(0), 0);
    assert_eq!(isqrt_ceil(1), 1);
    assert_eq!(isqrt_ceil(2), 2);
    assert_eq!(isqrt_ceil(3), 2);
    assert_eq!(isqrt_ceil(4), 2);
    assert_eq!(isqrt_ceil(5), 3);
    assert_eq!(isqrt_ceil(15), 4);
    assert_eq!(isqrt_ceil(16), 4);
    assert_eq!(isqrt_ceil(17), 5);
    assert_eq!(isqrt_ceil(1_000_000_000_000_000_000_000_000_000_000), 1_000_000_000_000_000);
}

#[test]
fn isqrt_ceil_at_the_limits() {
    assert_eq!(isqrt_ceil(1 << 64), 1 << 32);
    assert_eq!(isqrt_ceil((1 << 64) + 1), (1 << 32) + 1);
    assert_eq!(isqrt_ceil(340282366920938463426481119284349108225), u64::MAX as u128);
    assert_eq!(isqrt_ceil(340282366920938463426481119284349108226), 1 << 64);
    assert_eq!(isqrt_ceil(u128::MAX), 1 << 64);
}

#[test]
fn int_pow_known_values() {
    assert_eq!(int_pow(2, 0), 1);
    assert_eq!(int_pow(0, 0), 1);
    assert_eq!(int_pow(0, 3), 0);
    assert_eq!(int_pow(2, 10), 1024);
    assert_eq!(int_pow(2, 127), 1 << 127);
    assert_eq!(int_pow(7, 2), 49);
    assert_eq!(int_pow(5, 27), 7450580596923828125);
}

#[test]
fn mod_inverse_modulo_zero_is_none() {
    assert_eq!(mod_inverse(0, 0), None);
    assert_eq!(mod_inverse(5, 0), None);
}
