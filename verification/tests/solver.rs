use dh_crack::{
    baby_step_giant_step, chinese_remainder_theorem, mod_inverse_big, mod_pow, pohlig_hellman,
    MODULUS,
};
use num::BigUint;

fn big(x: u128) -> BigUint {
    BigUint::from(x)
}

fn bigs(xs: &[u128]) -> Vec<BigUint> {
    xs.iter().map(|x| BigUint::from(*x)).collect()
}

fn parse(s: &str) -> BigUint {
    s.parse().unwrap()
}

#[test]
fn bsgs_in_a_small_group() {
    assert_eq!(baby_step_giant_step(2, 74, 101, 100), Some(57));
    assert_eq!(baby_step_giant_step(3, 22, 31, 30), Some(17));
    assert_eq!(baby_step_giant_step(2, 1, 101, 100), Some(0));
}

#[test]
fn bsgs_keeps_the_later_baby_step() {
    // 2 has order 5 modulo 31, so the table of 7 baby steps holds 1 and 2 twice
    assert_eq!(baby_step_giant_step(2, 8, 31, 30), Some(3));
    assert_eq!(baby_step_giant_step(2, 2, 31, 30), Some(6));
    assert_eq!(baby_step_giant_step(2, 1, 31, 30), Some(5));
}

#[test]
fn bsgs_without_a_solution_is_none() {
    assert_eq!(baby_step_giant_step(2, 3, 31, 30), None);
    assert_eq!(baby_step_giant_step(7, 7, 13, 0), None);
}

#[test]
fn bsgs_without_an_inverse_is_none() {
    assert_eq!(baby_step_giant_step(2, 4, 8, 4), None);
}

#[test]
fn bsgs_with_degenerate_bounds() {
    assert_eq!(baby_step_giant_step(7, 1, 13, 0), Some(0));
    assert_eq!(baby_step_giant_step(7, 7, 13, 1), Some(1));
    assert_eq!(baby_step_giant_step(5, 3, 1, 1), None);
    assert_eq!(baby_step_giant_step(5, 0, 1, 1), Some(1));
}

#[test]
fn bsgs_result_is_an_exponent() {
    for h in [1u128, 2, 4, 8, 16, 32, 64, 27, 100] {
        let x = baby_step_giant_step(2, h, 101, 100).unwrap();
        assert_eq!(mod_pow(2, x, 101), h);
    }
}

#[test]
fn inverse_of_big_numbers() {
    assert_eq!(mod_inverse_big(&big(7), &big(1_000_007)), Some(big(857149)));
    assert_eq!(mod_inverse_big(&big(5), &big(MODULUS)), Some(big(7378697629483820623)));
    assert_eq!(
        mod_inverse_big(&((BigUint::from(1u32) << 200) + 1u32), &big((1 << 127) - 1)),
        Some(parse("151236319058930312981994865900330622065"))
    );
}

#[test]
fn inverse_of_big_numbers_with_a_common_factor_is_none() {
    assert_eq!(mod_inverse_big(&big(6), &big(9)), None);
    assert_eq!(mod_inverse_big(&big(0), &big(5)), None);
    assert_eq!(mod_inverse_big(&(big(MODULUS) * big(MODULUS)), &big(MODULUS)), None);
}

#[test]
fn inverse_of_big_numbers_modulo_one_is_zero() {
    assert_eq!(mod_inverse_big(&big(0), &big(1)), Some(big(0)));
    assert_eq!(mod_inverse_big(&big(1), &big(1)), Some(big(0)));
    assert_eq!(mod_inverse_big(&big(10), &big(1)), Some(big(0)));
}

#[test]
fn crt_of_the_classic_system() {
    assert_eq!(
        chinese_remainder_theorem(&bigs(&[2, 3, 2]), &bigs(&[3, 5, 7])),
        Some(big(23))
    );
}

#[test]
fn crt_of_moduli_with_a_common_factor_is_none() {
    assert_eq!(chinese_remainder_theorem(&bigs(&[1, 1]), &bigs(&[4, 6])), None);
}

#[test]
fn crt_of_nothing_is_zero() {
    assert_eq!(chinese_remainder_theorem(&[], &[]), Some(big(0)));
    assert_eq!(chinese_remainder_theorem(&bigs(&[0]), &bigs(&[1])), Some(big(0)));
}

#[test]
fn crt_pairs_up_to_the_shorter_slice() {
    // the product runs over all moduli, the sum over the pairs
    assert_eq!(chinese_remainder_theorem(&bigs(&[2, 3]), &bigs(&[3, 5, 7])), Some(big(98)));
    assert_eq!(
        chinese_remainder_theorem(&bigs(&[2, 3, 2, 9]), &bigs(&[3, 5, 7])),
        Some(big(23))
    );
}

#[test]
fn crt_reduces_large_residues() {
    assert_eq!(chinese_remainder_theorem(&bigs(&[5]), &bigs(&[3])), Some(big(2)));
}

#[test]
fn crt_beyond_machine_words() {
    let m1 = parse("618970019642690137449562111");
    let m2 = parse("162259276829213363391578010288127");
    let r1 = parse("1000000000000000000000000000000");
    let x = chinese_remainder_theorem(&[r1.clone(), big(7)], &[m1.clone(), m2.clone()]).unwrap();
    assert_eq!(x, parse("16255084031321960947766058260964667475719005842768055722132"));
    assert_eq!(&x % &m1, &r1 % &m1);
    assert_eq!(&x % &m2, big(7));
}

#[test]
fn pohlig_hellman_in_small_groups() {
    assert_eq!(pohlig_hellman(2, 74, 101), Some(57));
    assert_eq!(pohlig_hellman(3, 22, 31), Some(17));
}

#[test]
fn pohlig_hellman_with_a_base_of_small_order() {
    // 2 has order 5 modulo 31; the exponent found is not the least one
    assert_eq!(pohlig_hellman(2, 8, 31), Some(8));
    assert_eq!(mod_pow(2, 8, 31), 8);
    assert_eq!(pohlig_hellman(2, 3, 31), None);
}

#[test]
fn pohlig_hellman_in_the_fixed_group() {
    assert_eq!(pohlig_hellman(5, 0x80e7dff07bd2cd2f, MODULUS), Some(0x11b685957d2aedcb));
    assert_eq!(pohlig_hellman(5, 25, MODULUS), Some(2));
    assert_eq!(pohlig_hellman(MODULUS + 5, 25, MODULUS), Some(2));
}

#[test]
fn pohlig_hellman_rejects_an_unreduced_target() {
    assert_eq!(pohlig_hellman(5, MODULUS + 5, MODULUS), None);
    assert_eq!(pohlig_hellman(5, 0, MODULUS), None);
}

#[test]
fn pohlig_hellman_with_tiny_moduli() {
    assert_eq!(pohlig_hellman(5, 0, 1), Some(0));
    assert_eq!(pohlig_hellman(5, 1, 1), None);
    assert_eq!(pohlig_hellman(5, 1, 2), Some(0));
    assert_eq!(pohlig_hellman(4, 0, 2), None);
    assert_eq!(pohlig_hellman(3, 3, 4), Some(1));
    assert_eq!(pohlig_hellman(2, 1, 4), None);
}

#[test]
fn pohlig_hellman_round_trip() {
    for x in [1u128, 2, 12345, 0xffff_ffff, 0x0123_4567_89ab_cdef, MODULUS - 2] {
        let h = mod_pow(5, x, MODULUS);
        assert_eq!(pohlig_hellman(5, h, MODULUS), Some(x));
    }
}

#[test]
fn pohlig_hellman_is_repeatable() {
    let first = pohlig_hellman(5, 0x9df655b05345077b, MODULUS);
    let second = pohlig_hellman(5, 0x9df655b05345077b, MODULUS);
    assert!(first.is_some());
    assert_eq!(first, second);
}

#[test]
fn inverse_of_big_numbers_modulo_zero_is_none() {
    assert_eq!(mod_inverse_big(&big(0), &big(0)), None);
    assert_eq!(mod_inverse_big(&big(5), &big(0)), None);
}

#[test]
fn crt_result_is_below_the_product() {
    let x = chinese_remainder_theorem(&bigs(&[100, 200, 300]), &bigs(&[7, 11, 13])).unwrap();
    assert!(x < big(7 * 11 * 13));
    assert_eq!(&x % big(7), big(100 % 7));
    assert_eq!(&x % big(11), big(200 % 11));
    assert_eq!(&x % big(13), big(300 % 13));
}

#[test]
fn bsgs_result_may_exceed_the_bound() {
    // the table of three baby steps holds the power one at the exponent two
    assert_eq!(baby_step_giant_step(1, 1, 7, 2), Some(2));
    assert_eq!(baby_step_giant_step(6, 1, 7, 2), Some(2));
}
