use dh_crack::{crack_dh, dh_exchange, dh_secret, DhCrackError, DhKey, GENERATOR, MODULUS};

#[test]
fn test_crack_known_key() {
    let public = DhKey::from_hex_le("2fcdd27bf0dfe780").unwrap();
    let private = crack_dh(&public).unwrap();
    assert_eq!(private.to_hex_le(), "cbed2a7d9585b611");
}

#[test]
fn test_dh_exchange() {
    let private = DhKey::from_hex_le("cbed2a7d9585b611").unwrap();
    let public = dh_exchange(&private);
    assert_eq!(public.to_hex_le(), "2fcdd27bf0dfe780");
}

#[test]
fn test_roundtrip() {
    let public = DhKey::from_hex_le("7b074553b055f69d").unwrap();
    let private = crack_dh(&public).unwrap();
    let recomputed = dh_exchange(&private);
    assert_eq!(public, recomputed);
}

#[test]
fn zero_bytes_are_rejected() {
    assert!(matches!(DhKey::from_bytes_le(&[0u8; 8]), Err(DhCrackError::ZeroPublicKey)));
    assert!(matches!(DhKey::from_hex_le("0000000000000000"), Err(DhCrackError::ZeroPublicKey)));
    assert!(matches!(DhKey::from_u64(0), Err(DhCrackError::ZeroPublicKey)));
}

#[test]
fn wrong_lengths_are_rejected() {
    assert!(matches!(DhKey::from_bytes_le(&[1u8; 7]), Err(DhCrackError::InvalidKeyLength(7))));
    assert!(matches!(DhKey::from_bytes_le(&[1u8; 9]), Err(DhCrackError::InvalidKeyLength(9))));
    assert!(matches!(DhKey::from_bytes_le(&[]), Err(DhCrackError::InvalidKeyLength(0))));
    assert!(matches!(
        DhKey::from_hex_le("01020304050607"),
        Err(DhCrackError::InvalidKeyLength(7))
    ));
    assert!(matches!(
        DhKey::from_hex_le("010203040506070809"),
        Err(DhCrackError::InvalidKeyLength(9))
    ));
}

#[test]
fn text_that_is_not_hex_is_rejected() {
    assert!(matches!(DhKey::from_hex_le("zzzzzzzzzzzzzzzz"), Err(DhCrackError::InvalidHex(_))));
    assert!(matches!(DhKey::from_hex_le("0102030405060708g"), Err(DhCrackError::InvalidHex(_))));
    // an odd number of digits is no hexadecimal text either
    assert!(matches!(DhKey::from_hex_le("012"), Err(DhCrackError::InvalidHex(_))));
    assert!(matches!(DhKey::from_hex_le("é1020304050607"), Err(DhCrackError::InvalidHex(_))));
}

#[test]
fn the_error_of_the_decoder_is_kept() {
    match DhKey::from_hex_le("01x2") {
        Err(DhCrackError::InvalidHex(e)) => {
            assert_eq!(e, hex::FromHexError::InvalidHexCharacter { c: 'x', index: 2 });
        }
        _ => panic!("expected a hexadecimal error"),
    }
    match DhKey::from_hex_le("abc") {
        Err(DhCrackError::InvalidHex(e)) => assert_eq!(e, hex::FromHexError::OddLength),
        _ => panic!("expected a hexadecimal error"),
    }
}

#[test]
fn bytes_are_little_endian() {
    let key = DhKey::from_bytes_le(&[0x01, 0x02, 0x03, 0x04, 0x05, 0x06, 0x07, 0x08]).unwrap();
    assert_eq!(key.as_u64(), 0x0807060504030201);
    assert_eq!(key.as_u128(), 0x0807060504030201u128);
    assert_eq!(key.to_bytes_le(), [0x01, 0x02, 0x03, 0x04, 0x05, 0x06, 0x07, 0x08]);
    assert_eq!(key.to_hex_le(), "0102030405060708");
}

#[test]
fn hex_text_is_read_in_either_case_and_written_in_lower_case() {
    let lower = DhKey::from_hex_le("abcdef0123456789").unwrap();
    let upper = DhKey::from_hex_le("ABCDEF0123456789").unwrap();
    assert_eq!(lower, upper);
    assert_eq!(lower.as_u64(), 0x8967452301efcdab);
    assert_eq!(upper.to_hex_le(), "abcdef0123456789");
}

#[test]
fn from_u64_keeps_the_value() {
    let key = DhKey::from_u64(u64::MAX).unwrap();
    assert_eq!(key.as_u64(), u64::MAX);
    assert_eq!(key.as_u128(), u64::MAX as u128);
    assert_eq!(key.to_hex_le(), "ffffffffffffffff");
    assert_eq!(DhKey::from_u64(1).unwrap().to_bytes_le(), [1, 0, 0, 0, 0, 0, 0, 0]);
}

#[test]
fn keys_round_trip_through_both_encodings() {
    for value in [1u64, 255, 256, 0xdead_beef, 0x0123_4567_89ab_cdef, u64::MAX] {
        let key = DhKey::from_u64(value).unwrap();
        assert_eq!(DhKey::from_bytes_le(&key.to_bytes_le()).unwrap(), key);
        assert_eq!(DhKey::from_hex_le(&key.to_hex_le()).unwrap(), key);
    }
}

#[test]
fn the_group_is_the_fixed_one() {
    assert_eq!(MODULUS, (1u128 << 64) - 59);
    assert_eq!(GENERATOR, 5);
}

#[test]
fn exchange_of_small_exponents() {
    assert_eq!(dh_exchange(&DhKey::from_u64(1).unwrap()).as_u64(), 5);
    assert_eq!(dh_exchange(&DhKey::from_u64(2).unwrap()).as_u64(), 25);
    assert_eq!(dh_exchange(&DhKey::from_u64(27).unwrap()).as_u128(), 7450580596923828125);
    // 5^28 = 37252902984619140625 = 2 * (2^64 - 59) + 359414837200037511
    assert_eq!(dh_exchange(&DhKey::from_u64(28).unwrap()).as_u128(), 359414837200037511);
}

#[test]
fn both_parties_get_the_same_secret() {
    let a = DhKey::from_u64(0x1234_5678_9abc_def0).unwrap();
    let b = DhKey::from_u64(0x0fed_cba9_8765_4321).unwrap();
    let secret_a = dh_secret(&dh_exchange(&b), &a);
    let secret_b = dh_secret(&dh_exchange(&a), &b);
    assert_eq!(secret_a, secret_b);
    assert_eq!(dh_secret(&DhKey::from_u64(7).unwrap(), &DhKey::from_u64(3).unwrap()).as_u64(), 343);
}

#[test]
fn a_public_key_equal_to_the_modulus_gives_a_zero_secret() {
    let p = DhKey::from_u64(MODULUS as u64).unwrap();
    assert_eq!(dh_secret(&p, &DhKey::from_u64(3).unwrap()).as_u64(), 0);
}

#[test]
fn crack_recovers_chosen_exponents() {
    for x in [1u64, 2, 3, 1000, 0xdead_beef_cafe, (MODULUS - 2) as u64] {
        let private = DhKey::from_u64(x).unwrap();
        let public = dh_exchange(&private);
        let found = crack_dh(&public).unwrap();
        assert_eq!(found, private);
    }
}

#[test]
fn crack_is_repeatable() {
    let public = DhKey::from_hex_le("7b074553b055f69d").unwrap();
    let first = crack_dh(&public).unwrap();
    let second = crack_dh(&public).unwrap();
    assert_eq!(first, second);
}

#[test]
fn crack_of_one_gives_a_multiple_of_the_order() {
    // g^0 = 1; the exponent zero is what the method reconstructs
    let found = crack_dh(&DhKey::from_u64(1).unwrap()).unwrap();
    assert_eq!(found.as_u64(), 0);
}

#[test]
fn crack_fails_on_a_value_outside_the_group() {
    // the modulus itself is zero modulo p, and no power of the generator is
    assert!(matches!(
        crack_dh(&DhKey::from_u64(MODULUS as u64).unwrap()),
        Err(DhCrackError::DiscreteLogFailed)
    ));
    assert!(matches!(
        crack_dh(&DhKey::from_u64(u64::MAX).unwrap()),
        Err(DhCrackError::DiscreteLogFailed)
    ));
}

#[test]
fn crack_succeeds_on_every_residue_tried() {
    for h in [1u64, 2, 3, 4, 6, 7, 0xffff_ffff, 0x8000_0000_0000_0000, (MODULUS - 1) as u64] {
        let public = DhKey::from_u64(h).unwrap();
        let private = crack_dh(&public).unwrap();
        assert!(private.as_u128() < MODULUS - 1);
        assert_eq!(dh_exchange(&private), public);
    }
}

#[test]
fn crack_of_the_largest_residue_is_half_the_order() {
    // p - 1 is minus one, the generator to the power (p - 1) / 2
    let found = crack_dh(&DhKey::from_u64((MODULUS - 1) as u64).unwrap()).unwrap();
    assert_eq!(found.as_u128(), (MODULUS - 1) / 2);
}

#[test]
fn exchange_of_the_order_is_one() {
    let order = DhKey::from_u64((MODULUS - 1) as u64).unwrap();
    assert_eq!(dh_exchange(&order).as_u64(), 1);
    // an exponent beyond the order is cracked to its residue
    let beyond = DhKey::from_u64((MODULUS + 6) as u64).unwrap();
    assert_eq!(crack_dh(&dh_exchange(&beyond)).unwrap().as_u64(), 7);
}

#[test]
fn crack_fails_on_every_value_from_the_modulus_on() {
    for h in [MODULUS as u64, (MODULUS + 1) as u64, u64::MAX - 1, u64::MAX] {
        assert!(matches!(
            crack_dh(&DhKey::from_u64(h).unwrap()),
            Err(DhCrackError::DiscreteLogFailed)
        ));
    }
}

#[test]
fn crack_fails_on_a_zero_secret() {
    let zero = dh_secret(&DhKey::from_u64(MODULUS as u64).unwrap(), &DhKey::from_u64(3).unwrap());
    assert_eq!(zero.as_u64(), 0);
    assert!(matches!(crack_dh(&zero), Err(DhCrackError::DiscreteLogFailed)));
}
