//! Unbounded integers.
//!
//! The combined congruence moduli can outgrow a machine word, so the
//! reconstruction of an exponent runs on `num`'s big integers. Each operation
//! is reached through one function of this module, whose contract states the
//! mathematical value of the result. These contracts are taken from the
//! documentation and source of `num-bigint`; they are not proved here.

use num::bigint::{BigInt, BigUint};
use crate::numbers::truncated_rem;
use vstd::prelude::*;

verus! {

#[verifier::external_type_specification]
#[verifier::external_body]
pub struct ExBigUint(BigUint);

#[verifier::external_type_specification]
#[verifier::external_body]
pub struct ExBigInt(BigInt);

/// The natural number that a `BigUint` holds.
pub uninterp spec fn biguint_value(n: BigUint) -> nat;

/// The integer that a `BigInt` holds.
pub uninterp spec fn bigint_value(n: BigInt) -> int;

/// `BigUint::from` on a `u128`: the big integer with the same value.
#[verifier::external_body]
pub(crate) fn big_from_u128(x: u128) -> (r: BigUint)
    ensures
        biguint_value(r) == x,
{
    BigUint::from(x)
}

/// `Clone::clone` of a `BigUint`: an independent copy with the same value.
#[verifier::external_body]
pub(crate) fn big_clone(a: &BigUint) -> (r: BigUint)
    ensures
        biguint_value(r) == biguint_value(*a),
{
    a.clone()
}

/// `&BigUint + &BigUint`: the exact sum.
#[verifier::external_body]
pub(crate) fn big_add(a: &BigUint, b: &BigUint) -> (r: BigUint)
    ensures
        biguint_value(r) == biguint_value(*a) + biguint_value(*b),
{
    a + b
}

/// `&BigUint * &BigUint`: the exact product.
#[verifier::external_body]
pub(crate) fn big_mul(a: &BigUint, b: &BigUint) -> (r: BigUint)
    ensures
        biguint_value(r) == biguint_value(*a) * biguint_value(*b),
{
    a * b
}

/// `&BigUint / &BigUint`: the quotient rounded down. The division panics on a
/// zero divisor, which the precondition excludes.
#[verifier::external_body]
pub(crate) fn big_div(a: &BigUint, b: &BigUint) -> (r: BigUint)
    requires
        biguint_value(*b) != 0,
    ensures
        biguint_value(r) == biguint_value(*a) / biguint_value(*b),
{
    a / b
}

/// `&BigUint % &BigUint`: the remainder of the division. It panics on a zero
/// divisor, which the precondition excludes.
#[verifier::external_body]
pub(crate) fn big_rem(a: &BigUint, b: &BigUint) -> (r: BigUint)
    requires
        biguint_value(*b) != 0,
    ensures
        biguint_value(r) == biguint_value(*a) % biguint_value(*b),
{
    a % b
}

/// `Zero::is_zero` of a `BigUint`: whether the value is zero.
#[verifier::external_body]
pub(crate) fn big_is_zero(a: &BigUint) -> (r: bool)
    ensures
        r == (biguint_value(*a) == 0),
{
    num::Zero::is_zero(a)
}

/// `One::is_one` of a `BigUint`: whether the value is one.
#[verifier::external_body]
pub(crate) fn big_is_one(a: &BigUint) -> (r: bool)
    ensures
        r == (biguint_value(*a) == 1),
{
    num::One::is_one(a)
}

/// `ToPrimitive::to_u128` of a `BigUint`: the value as a `u128` when it fits,
/// and `None` when it does not.
#[verifier::external_body]
pub(crate) fn big_to_u128(a: &BigUint) -> (r: Option<u128>)
    ensures
        match r {
            Some(x) => x == biguint_value(*a),
            None => biguint_value(*a) > u128::MAX,
        },
{
    num::ToPrimitive::to_u128(a)
}

/// `BigInt::from` on a `BigUint`: the non-negative integer with the same value.
#[verifier::external_body]
pub(crate) fn signed_from_big(a: BigUint) -> (r: BigInt)
    ensures
        bigint_value(r) == biguint_value(a),
{
    BigInt::from(a)
}

/// `BigInt::to_biguint`: the same value as a `BigUint` unless it is negative.
#[verifier::external_body]
pub(crate) fn signed_to_big(a: &BigInt) -> (r: Option<BigUint>)
    ensures
        match r {
            Some(x) => biguint_value(x) == bigint_value(*a),
            None => bigint_value(*a) < 0,
        },
{
    a.to_biguint()
}

/// `&BigInt + &BigInt`: the exact sum.
#[verifier::external_body]
pub(crate) fn signed_add(a: &BigInt, b: &BigInt) -> (r: BigInt)
    ensures
        bigint_value(r) == bigint_value(*a) + bigint_value(*b),
{
    a + b
}

/// `&BigInt - &BigInt`: the exact difference.
#[verifier::external_body]
pub(crate) fn signed_sub(a: &BigInt, b: &BigInt) -> (r: BigInt)
    ensures
        bigint_value(r) == bigint_value(*a) - bigint_value(*b),
{
    a - b
}

/// `&BigInt * &BigInt`: the exact product.
#[verifier::external_body]
pub(crate) fn signed_mul(a: &BigInt, b: &BigInt) -> (r: BigInt)
    ensures
        bigint_value(r) == bigint_value(*a) * bigint_value(*b),
{
    a * b
}

/// `&BigInt % &BigInt`: the remainder of the division that rounds toward zero,
/// as for the primitive signed integers. It panics on a zero divisor, which
/// the precondition excludes.
#[verifier::external_body]
pub(crate) fn signed_rem(a: &BigInt, b: &BigInt) -> (r: BigInt)
    requires
        bigint_value(*b) != 0,
    ensures
        bigint_value(r) == truncated_rem(bigint_value(*a), bigint_value(*b)),
{
    a % b
}

} // verus!
