//! Token amounts: arbitrary-precision integers counted in indivisible units.
//!
//! The amounts themselves are `fvm_shared::econ::TokenAmount` values. Verified
//! code sees one only through [`atto`], the integer it stands for, and through
//! the small operations below, each of which states what the arithmetic of
//! `num_bigint` computes on that integer.

use fvm_shared::econ::TokenAmount;
use vstd::prelude::*;

verus! {

/// `fvm_shared::econ::TokenAmount`, carried as an opaque value: nothing is
/// known of one but what the operations below state.
#[verifier::external_type_specification]
#[verifier::external_body]
pub struct ExTokenAmount(TokenAmount);

/// The number of indivisible units that a token amount stands for.
pub uninterp spec fn atto(t: TokenAmount) -> int;

/// The big-endian two's-complement bytes of an integer, as
/// `BigInt::to_signed_bytes_be` writes them.
pub uninterp spec fn signed_be_bytes(v: int) -> Seq<u8>;

/// The integer that bytes spell in big-endian two's complement, as
/// `BigInt::from_signed_bytes_be` reads them.
pub uninterp spec fn signed_be_value(bytes: Seq<u8>) -> int;

/// `BigInt::from_signed_bytes_be` and `TokenAmount::from_atto`: the amount of
/// the units that the bytes spell, which depends on the bytes alone.
#[verifier::external_body]
pub(crate) fn token_from_bytes(bytes: &Vec<u8>) -> (r: TokenAmount)
    ensures
        atto(r) == signed_be_value(bytes@),
{
    TokenAmount::from_atto(fvm_shared::bigint::BigInt::from_signed_bytes_be(bytes.as_slice()))
}

/// `TokenAmount::from_atto` on a `u64`: the amount of exactly that many units.
#[verifier::external_body]
pub(crate) fn token_from_u64(units: u64) -> (r: TokenAmount)
    ensures
        atto(r) == units,
{
    TokenAmount::from_atto(units)
}

/// `Clone::clone` on a `TokenAmount`: an amount of the same number of units.
#[verifier::external_body]
pub(crate) fn token_clone(a: &TokenAmount) -> (r: TokenAmount)
    ensures
        atto(r) == atto(*a),
{
    a.clone()
}

/// `Add` on two `TokenAmount` references: the exact integer sum.
#[verifier::external_body]
pub(crate) fn token_add(a: &TokenAmount, b: &TokenAmount) -> (r: TokenAmount)
    ensures
        atto(r) == atto(*a) + atto(*b),
{
    a + b
}

/// `Sub` on two `TokenAmount` references: the exact integer difference, which
/// may be negative.
#[verifier::external_body]
pub(crate) fn token_sub(a: &TokenAmount, b: &TokenAmount) -> (r: TokenAmount)
    ensures
        atto(r) == atto(*a) - atto(*b),
{
    a - b
}

/// `PartialOrd::lt` on two `TokenAmount` references: the order of the integers.
#[verifier::external_body]
pub(crate) fn token_lt(a: &TokenAmount, b: &TokenAmount) -> (r: bool)
    ensures
        r == (atto(*a) < atto(*b)),
{
    a < b
}

/// `PartialEq::eq` on two `TokenAmount` references: equality of the integers.
#[verifier::external_body]
pub(crate) fn token_eq(a: &TokenAmount, b: &TokenAmount) -> (r: bool)
    ensures
        r == (atto(*a) == atto(*b)),
{
    a == b
}

/// `BigInt::to_signed_bytes_be` on the units of a `TokenAmount`: the bytes are
/// a function of the integer alone, and spell it: `from_signed_bytes_be`
/// reads the integer back from them.
#[verifier::external_body]
pub(crate) fn token_bytes(a: &TokenAmount) -> (r: Vec<u8>)
    ensures
        r@ == signed_be_bytes(atto(*a)),
        signed_be_value(r@) == atto(*a),
{
    a.atto().to_signed_bytes_be()
}

/// The amount of no units.
pub fn token_zero() -> (r: TokenAmount)
    ensures
        atto(r) == 0,
{
    token_from_u64(0)
}

/// Whether an amount is strictly positive.
pub fn token_is_positive(a: &TokenAmount) -> (r: bool)
    ensures
        r == (atto(*a) > 0),
{
    let zero = token_zero();
    token_lt(&zero, a)
}

/// Whether `a` is at most `b`.
pub fn token_le(a: &TokenAmount, b: &TokenAmount) -> (r: bool)
    ensures
        r == (atto(*a) <= atto(*b)),
{
    !token_lt(b, a)
}

} // verus!
