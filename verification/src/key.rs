//! Keys of the fixed demonstration group, and their encodings.

use crate::bsgs::is_power_below;
use crate::complete::lemma_discrete_log_exact;
use crate::exponent::{lemma_exponent_reduces, lemma_order_injective, lemma_pow_mod_multiplies};
use crate::generator::{lemma_generator_reaches_all, lemma_power_is_unit};
use crate::group::order::lemma_generator_order;
use crate::hexcode::{
    ascii_chars, decode_hex, digit_value, encode_hex, hex_bytes, hex_text, is_hex_text,
    lemma_hex_round_trip, lemma_hex_text_ascii,
};
use crate::modular::{mod_pow, pow_mod};
use crate::pohlig::{exponent_value, pohlig_hellman};
use hex::FromHexError;
use vstd::arithmetic::div_mod::*;
use vstd::arithmetic::power::{lemma_pow_increases, lemma_pow_positive, pow};
use vstd::prelude::*;
use vstd::utf8::encode_utf8;

verus! {

/// The prime modulus of the group: `2^64 - 59`.
pub const MODULUS: u128 = 0xFFFF_FFFF_FFFF_FFC5;

/// The generator of the group.
pub const GENERATOR: u128 = 5;

/// Why a key could not be read or an exponent could not be recovered.
#[derive(Debug)]
pub enum DhCrackError {
    /// The text is not hexadecimal.
    InvalidHex(FromHexError),
    /// The key does not have eight bytes; holds the number it has.
    InvalidKeyLength(usize),
    /// The key is zero.
    ZeroPublicKey,
    /// No exponent was found.
    DiscreteLogFailed,
}

/// A public or private key: a value of 64 bits.
#[derive(Debug, Clone, PartialEq, Eq)]
pub struct DhKey {
    value: u64,
}

/// The number that a little-endian byte string stands for.
pub open spec fn le_value(bytes: Seq<u8>) -> nat
    decreases bytes.len(),
{
    if bytes.len() == 0 {
        0
    } else {
        bytes[0] as nat + 256 * le_value(bytes.skip(1))
    }
}

/// The `n` lowest bytes of `v`, the lowest first.
pub open spec fn le_bytes(v: nat, n: nat) -> Seq<u8>
    decreases n,
{
    if n == 0 {
        Seq::empty()
    } else {
        seq![(v % 256) as u8] + le_bytes(v / 256, (n - 1) as nat)
    }
}

/// What reading a key from `bytes` gives: the length is checked first, then
/// the value.
pub open spec fn key_of_bytes(bytes: Seq<u8>, r: Result<DhKey, DhCrackError>) -> bool {
    if bytes.len() != 8 {
        r matches Err(DhCrackError::InvalidKeyLength(n)) && n == bytes.len()
    } else if le_value(bytes) == 0 {
        r is Err && r->Err_0 is ZeroPublicKey
    } else {
        r matches Ok(k) && k@ == le_value(bytes)
    }
}

/// A byte string stands for zero exactly when all its bytes are zero.
pub proof fn lemma_le_value_zero(bytes: Seq<u8>)
    ensures
        le_value(bytes) == 0 <==> forall|i: int| 0 <= i < bytes.len() ==> bytes[i] == 0,
    decreases bytes.len(),
{
    if bytes.len() > 0 {
        let tail = bytes.skip(1);
        lemma_le_value_zero(tail);
        if le_value(bytes) == 0 {
            assert forall|i: int| 0 <= i < bytes.len() implies bytes[i] == 0 by {
                if i > 0 {
                    assert(tail[i - 1] == bytes[i]);
                }
            }
        } else if bytes[0] == 0 {
            let i = choose|i: int| 0 <= i < tail.len() && tail[i] != 0;
            assert(bytes[i + 1] == tail[i]);
        }
    }
}

/// A key that is not zero is read back from its bytes and from its text.
pub proof fn lemma_key_round_trip(v: nat, r: Result<DhKey, DhCrackError>)
    requires
        0 < v <= u64::MAX,
        key_of_bytes(le_bytes(v, 8), r) || key_of_bytes(
            hex_bytes(encode_utf8(ascii_chars(hex_text(le_bytes(v, 8))))),
            r,
        ),
    ensures
        is_hex_text(encode_utf8(ascii_chars(hex_text(le_bytes(v, 8))))),
        r matches Ok(k) && k@ == v,
{
    lemma_pow256(8);
    reveal_with_fuel(pow, 10);
    lemma_le_bytes_value(v, 8);
    lemma_hex_text_ascii(le_bytes(v, 8));
    lemma_hex_round_trip(le_bytes(v, 8));
}

/// Eight zero bytes are no key.
pub proof fn lemma_zero_bytes_rejected(bytes: Seq<u8>, r: Result<DhKey, DhCrackError>)
    requires
        bytes.len() == 8,
        forall|i: int| 0 <= i < 8 ==> bytes[i] == 0,
        key_of_bytes(bytes, r),
    ensures
        r is Err,
        r->Err_0 is ZeroPublicKey,
{
    lemma_le_value_zero(bytes);
}

/// Sixteen digits zero are hexadecimal text, and no key.
pub proof fn lemma_zero_text_rejected(text: Seq<u8>, r: Result<DhKey, DhCrackError>)
    requires
        text.len() == 16,
        forall|i: int| 0 <= i < 16 ==> text[i] == 48,
        key_of_bytes(hex_bytes(text), r),
    ensures
        is_hex_text(text),
        r is Err,
        r->Err_0 is ZeroPublicKey,
{
    assert forall|i: int| 0 <= i < text.len() implies digit_value(#[trigger] text[i]) is Some by {
        assert(text[i] == 48);
    }
    let bytes = hex_bytes(text);
    assert forall|k: int| 0 <= k < 8 implies bytes[k] == 0 by {
        assert(text[2 * k] == 48 && text[2 * k + 1] == 48);
    }
    lemma_zero_bytes_rejected(bytes, r);
}

/// The bytes of a number that fits in them stand for that number.
pub proof fn lemma_le_bytes_value(v: nat, n: nat)
    requires
        v < pow(256, n),
    ensures
        le_bytes(v, n).len() == n,
        le_value(le_bytes(v, n)) == v,
    decreases n,
{
    reveal(pow);
    if n > 0 {
        lemma_le_bytes_value(v / 256, (n - 1) as nat);
        assert(le_bytes(v, n).skip(1) =~= le_bytes(v / 256, (n - 1) as nat));
    }
}

/// The number that a byte string stands for has that byte string as its
/// bytes.
pub proof fn lemma_le_value_bytes(bytes: Seq<u8>)
    ensures
        le_bytes(le_value(bytes), bytes.len()) == bytes,
    decreases bytes.len(),
{
    if bytes.len() > 0 {
        lemma_le_value_bytes(bytes.skip(1));
        assert(le_bytes(le_value(bytes), bytes.len()) =~= bytes);
    }
}

/// Eight bytes stand for a value of 64 bits.
pub proof fn lemma_le_value_bound(bytes: Seq<u8>)
    ensures
        le_value(bytes) < pow(256, bytes.len()),
    decreases bytes.len(),
{
    reveal(pow);
    if bytes.len() > 0 {
        lemma_le_value_bound(bytes.skip(1));
    }
}

impl View for DhKey {
    type V = nat;

    closed spec fn view(&self) -> nat {
        self.value as nat
    }
}

impl DhKey {
    /// Reads a key from its eight bytes, the lowest first. A zero value is not
    /// a key.
    pub fn from_bytes_le(bytes: &[u8]) -> (r: Result<DhKey, DhCrackError>)
        ensures
            key_of_bytes(bytes@, r),
    {
        if bytes.len() != 8 {
            return Err(DhCrackError::InvalidKeyLength(bytes.len()));
        }
        let mut value: u64 = 0;
        let mut i: usize = 8;
        proof {
            assert(bytes@.skip(8) =~= Seq::<u8>::empty());
            lemma_pow256(0);
        }
        while i > 0
            invariant
                bytes@.len() == 8,
                i <= 8,
                value == le_value(bytes@.skip(i as int)),
                value < pow(256, (8 - i) as nat),
            decreases i,
        {
            proof {
                let tail = bytes@.skip(i as int - 1);
                assert(tail.skip(1) =~= bytes@.skip(i as int));
                assert(tail[0] == bytes@[i as int - 1]);
                lemma_pow256((8 - i) as nat);
                lemma_pow256((8 - i + 1) as nat);
            }
            i -= 1;
            value = value * 256 + bytes[i] as u64;
        }
        assert(bytes@.skip(0) =~= bytes@);
        if value == 0 {
            return Err(DhCrackError::ZeroPublicKey);
        }
        Ok(DhKey { value })
    }

    /// Reads a key from sixteen hexadecimal digits that spell its eight bytes,
    /// the lowest byte first.
    pub fn from_hex_le(hex: &str) -> (r: Result<DhKey, DhCrackError>)
        ensures
            is_hex_text(encode_utf8(hex@)) ==> key_of_bytes(hex_bytes(encode_utf8(hex@)), r),
            !is_hex_text(encode_utf8(hex@)) ==> r is Err && r->Err_0 is InvalidHex,
    {
        match decode_hex(hex.as_bytes()) {
            Ok(bytes) => DhKey::from_bytes_le(bytes.as_slice()),
            Err(e) => Err(DhCrackError::InvalidHex(e)),
        }
    }

    /// Makes a key of a 64-bit value. Zero is not a key.
    pub fn from_u64(value: u64) -> (r: Result<DhKey, DhCrackError>)
        ensures
            value == 0 ==> r is Err && r->Err_0 is ZeroPublicKey,
            value != 0 ==> (r matches Ok(k) && k@ == value),
    {
        if value == 0 {
            return Err(DhCrackError::ZeroPublicKey);
        }
        Ok(DhKey { value })
    }

    /// The eight bytes of the key, the lowest first.
    pub fn to_bytes_le(&self) -> (r: [u8; 8])
        ensures
            r@ == le_bytes(self@, 8),
    {
        let mut out: [u8; 8] = [0u8; 8];
        let mut rest: u64 = self.value;
        let mut i: usize = 0;
        while i < 8
            invariant
                i <= 8,
                le_bytes(self@, 8) == out@.subrange(0, i as int) + le_bytes(
                    rest as nat,
                    (8 - i) as nat,
                ),
            decreases 8 - i,
        {
            let ghost before = out@;
            out[i] = (rest % 256) as u8;
            proof {
                assert(out@.subrange(0, i as int + 1) =~= before.subrange(0, i as int) + seq![
                    (rest % 256) as u8,
                ]);
            }
            rest = rest / 256;
            i += 1;
        }
        assert(out@.subrange(0, 8) =~= out@);
        assert(le_bytes(rest as nat, 0) =~= Seq::<u8>::empty());
        out
    }

    /// The key as sixteen lower-case hexadecimal digits, the lowest byte
    /// first.
    pub fn to_hex_le(&self) -> (r: String)
        ensures
            r@ == ascii_chars(hex_text(le_bytes(self@, 8))),
    {
        let bytes = self.to_bytes_le();
        encode_hex(bytes.as_slice())
    }

    /// The key as a 64-bit value.
    pub fn as_u64(&self) -> (r: u64)
        ensures
            r == self@,
    {
        self.value
    }

    /// The key as a 128-bit value; it is below `2^64`.
    pub fn as_u128(&self) -> (r: u128)
        ensures
            r == self@,
            r <= u64::MAX,
    {
        self.value as u128
    }
}

/// The public value for the private exponent `x`: the generator raised to
/// `x` in the group.
pub open spec fn exchange_value(x: nat) -> nat {
    pow_mod(GENERATOR as nat, x, MODULUS as nat)
}

/// The exponent below `p - 1` to which the generator gives `h`; none for
/// zero and for numbers from the modulus on.
pub open spec fn group_log(h: nat) -> Option<nat> {
    if 0 < h < MODULUS {
        Some(choose|k: nat| k < MODULUS - 1 && #[trigger] exchange_value(k) == h)
    } else {
        None
    }
}

/// Every residue from one to `p - 1` has one logarithm below `p - 1`, and
/// `group_log` is it.
pub proof fn lemma_group_log(h: nat)
    requires
        0 < h < MODULUS,
    ensures
        group_log(h) matches Some(k) && k < MODULUS - 1 && exchange_value(k) == h,
        forall|x: nat| x < MODULUS - 1 && #[trigger] exchange_value(x) == h ==> group_log(h) == Some(x),
{
    let g = GENERATOR as nat;
    let p = MODULUS as nat;
    lemma_generator_order();
    lemma_generator_reaches_all(g, p);
    assert(is_power_below(g, h, p, (p - 1) as nat));
    let w = choose|k: nat| k < p - 1 && #[trigger] pow_mod(g, k, p) == h;
    assert(exchange_value(w) == h);
    let k = group_log(h).unwrap();
    assert forall|x: nat| x < MODULUS - 1 && #[trigger] exchange_value(x) == h implies group_log(h)
        == Some(x) by {
        if x <= k {
            lemma_order_injective(g, p, (p - 1) as nat, x, k);
        } else {
            lemma_order_injective(g, p, (p - 1) as nat, k, x);
        }
    }
}

/// Cracking the public value of a private exponent below `p - 1` gives that
/// exponent back.
pub proof fn lemma_crack_inverts_exchange(x: nat)
    requires
        x < MODULUS - 1,
    ensures
        0 < exchange_value(x) < MODULUS,
        group_log(exchange_value(x)) == Some(x),
{
    lemma_generator_order();
    lemma_power_is_unit(GENERATOR as nat, MODULUS as nat, (MODULUS - 1) as nat, x);
    lemma_group_log(exchange_value(x));
}

/// Every public value can be cracked, and the exponent found gives the same
/// public value as the one that was used.
pub proof fn lemma_exchange_of_cracked(x: nat)
    ensures
        0 < exchange_value(x) < MODULUS,
        group_log(exchange_value(x)) matches Some(k) && exchange_value(k) == exchange_value(x),
        group_log(exchange_value(x)) == Some(x % ((MODULUS - 1) as nat)),
{
    let n = (MODULUS - 1) as nat;
    lemma_generator_order();
    lemma_exponent_reduces(GENERATOR as nat, n, x, MODULUS as nat);
    lemma_mod_bound(x as int, n as int);
    lemma_crack_inverts_exchange(x % n);
}

/// Both parties of an exchange arrive at the same secret: the peer's public
/// value raised to one's own exponent does not depend on whose is whose.
pub proof fn lemma_shared_secret(a: nat, b: nat)
    ensures
        pow_mod(exchange_value(b), a, MODULUS as nat) == pow_mod(
            exchange_value(a),
            b,
            MODULUS as nat,
        ),
{
    lemma_pow_mod_multiplies(GENERATOR as nat, a, b, MODULUS as nat);
    lemma_pow_mod_multiplies(GENERATOR as nat, b, a, MODULUS as nat);
}

/// Recovers the private key that belongs to a public key: the exponent
/// below `p - 1` to which the generator gives the public key. Every key from
/// one to `p - 1` has one; the recovery fails on any other value.
pub fn crack_dh(public_key: &DhKey) -> (r: Result<DhKey, DhCrackError>)
    ensures
        r is Ok <==> 0 < public_key@ < MODULUS,
        match r {
            Ok(private_key) => {
                &&& group_log(public_key@) == Some(private_key@)
                &&& private_key@ < MODULUS - 1
                &&& exchange_value(private_key@) == public_key@
            },
            Err(e) => e is DiscreteLogFailed,
        },
{
    let found = pohlig_hellman(GENERATOR, public_key.value as u128, MODULUS);
    proof {
        let g = GENERATOR as nat;
        let p = MODULUS as nat;
        let h = public_key@;
        lemma_generator_order();
        if 0 < h < MODULUS {
            lemma_group_log(h);
            lemma_discrete_log_exact(g, h, p, group_log(h).unwrap(), exponent_value(found));
        } else if found is Some {
            lemma_power_is_unit(g, p, (p - 1) as nat, found.unwrap() as nat);
        }
    }
    match found {
        Some(private) => Ok(DhKey { value: private as u64 }),
        None => Err(DhCrackError::DiscreteLogFailed),
    }
}

/// The public key that belongs to a private key: the generator raised to it.
pub fn dh_exchange(private_key: &DhKey) -> (r: DhKey)
    ensures
        r@ == exchange_value(private_key@),
{
    let public = mod_pow(GENERATOR, private_key.value as u128, MODULUS);
    DhKey { value: public as u64 }
}

/// The secret that two parties share: the peer's public key raised to one's
/// own private key.
pub fn dh_secret(peer_public: &DhKey, private_key: &DhKey) -> (r: DhKey)
    ensures
        r@ == pow_mod(peer_public@, private_key@, MODULUS as nat),
{
    let secret = mod_pow(peer_public.value as u128, private_key.value as u128, MODULUS);
    DhKey { value: secret as u64 }
}

/// The powers of 256 up to the eighth fit in 65 bits, and each is 256 times
/// the one before.
proof fn lemma_pow256(n: nat)
    requires
        n <= 8,
    ensures
        0 < pow(256, n) <= 0x1_0000_0000_0000_0000,
        n > 0 ==> pow(256, n) == 256 * pow(
            256,
            (n - 1) as nat,
        ),
{
    reveal_with_fuel(pow, 10);
    lemma_pow_positive(256, n);
    lemma_pow_increases(256, n, 8);
    assert(pow(256, 8) == 0x1_0000_0000_0000_0000);
}

} // verus!
