//! Scalar arithmetic for the simulator.
//!
//! A scalar is an IEEE-754 binary32 value, held as its bit pattern in a
//! `u32` (the alias [`Real`]).  The verified code never interprets the
//! pattern; each arithmetic operation is an uninterpreted function of the
//! operand patterns, and the executable side of each operation is a trusted
//! wrapper around `rustc_apfloat`'s software implementation of IEEE-754,
//! which computes the same bits on every machine.  Contracts elsewhere in
//! the crate state results as compositions of these named operations.

use vstd::prelude::*;
use rustc_apfloat::Float;

verus! {

/// An IEEE-754 binary32 value, carried as its bit pattern.
pub type Real = u32;

/// The bit pattern of `0.0`.
pub const ZERO_BITS: u32 = 0x0000_0000;

/// The bit pattern of `1.0`.
pub const ONE_BITS: u32 = 0x3f80_0000;

/// The bit pattern of `-1.0`.
pub const NEG_ONE_BITS: u32 = 0xbf80_0000;

/// The bit pattern of `0.5`.
pub const HALF_BITS: u32 = 0x3f00_0000;

/// The bit pattern of `-0.5`.
pub const NEG_HALF_BITS: u32 = 0xbf00_0000;

/// The bit pattern of `2.0`.
pub const TWO_BITS: u32 = 0x4000_0000;

/// The bit pattern of `4.0`.
pub const FOUR_BITS: u32 = 0x4080_0000;

/// The bit pattern of `48.0`.
pub const FORTY_EIGHT_BITS: u32 = 0x4240_0000;

/// The sum of two binary32 values, by bit pattern.
pub uninterp spec fn add_bits(a: u32, b: u32) -> u32;

/// The difference of two binary32 values, by bit pattern.
pub uninterp spec fn sub_bits(a: u32, b: u32) -> u32;

/// The product of two binary32 values, by bit pattern.
pub uninterp spec fn mul_bits(a: u32, b: u32) -> u32;

/// The quotient of two binary32 values, by bit pattern.
pub uninterp spec fn div_bits(a: u32, b: u32) -> u32;

/// The negation (sign flip) of a binary32 value, by bit pattern.
pub uninterp spec fn neg_bits(a: u32) -> u32;

/// Whether the first binary32 value compares less than the second.
pub uninterp spec fn lt_bits(a: u32, b: u32) -> bool;

/// Whether the first binary32 value compares greater than or equal to the second.
pub uninterp spec fn ge_bits(a: u32, b: u32) -> bool;

/// The binary32 value nearest to the given unsigned integer.
pub uninterp spec fn real_of_usize(n: usize) -> u32;

/// Relies on rustc_apfloat's `Float::add_r` for `ieee::Single`: IEEE-754
/// binary32 addition, rounded to nearest with ties to even, a function of
/// the two operand bit patterns alone.
#[verifier::external_body]
pub fn r_add(a: u32, b: u32) -> (r: u32)
    ensures
        r == add_bits(a, b),
{
    let x = rustc_apfloat::ieee::Single::from_bits(a as u128);
    let y = rustc_apfloat::ieee::Single::from_bits(b as u128);
    x.add_r(y, rustc_apfloat::Round::NearestTiesToEven).value.to_bits() as u32
}

/// Relies on rustc_apfloat's `Float::sub_r` for `ieee::Single`: IEEE-754
/// binary32 subtraction, rounded to nearest with ties to even, a function of
/// the two operand bit patterns alone.
#[verifier::external_body]
pub fn r_sub(a: u32, b: u32) -> (r: u32)
    ensures
        r == sub_bits(a, b),
{
    let x = rustc_apfloat::ieee::Single::from_bits(a as u128);
    let y = rustc_apfloat::ieee::Single::from_bits(b as u128);
    x.sub_r(y, rustc_apfloat::Round::NearestTiesToEven).value.to_bits() as u32
}

/// Relies on rustc_apfloat's `Float::mul_r` for `ieee::Single`: IEEE-754
/// binary32 multiplication, rounded to nearest with ties to even, a function
/// of the two operand bit patterns alone.
#[verifier::external_body]
pub fn r_mul(a: u32, b: u32) -> (r: u32)
    ensures
        r == mul_bits(a, b),
{
    let x = rustc_apfloat::ieee::Single::from_bits(a as u128);
    let y = rustc_apfloat::ieee::Single::from_bits(b as u128);
    x.mul_r(y, rustc_apfloat::Round::NearestTiesToEven).value.to_bits() as u32
}

/// Relies on rustc_apfloat's `Float::div_r` for `ieee::Single`: IEEE-754
/// binary32 division, rounded to nearest with ties to even, a function of
/// the two operand bit patterns alone; division by zero yields an infinity
/// or NaN, it does not fail.
#[verifier::external_body]
pub fn r_div(a: u32, b: u32) -> (r: u32)
    ensures
        r == div_bits(a, b),
{
    let x = rustc_apfloat::ieee::Single::from_bits(a as u128);
    let y = rustc_apfloat::ieee::Single::from_bits(b as u128);
    x.div_r(y, rustc_apfloat::Round::NearestTiesToEven).value.to_bits() as u32
}

/// Relies on rustc_apfloat's `Neg` impl for `ieee::Single`: IEEE-754 sign
/// negation, a function of the operand bit pattern alone.
#[verifier::external_body]
pub fn r_neg(a: u32) -> (r: u32)
    ensures
        r == neg_bits(a),
{
    (-rustc_apfloat::ieee::Single::from_bits(a as u128)).to_bits() as u32
}

/// Relies on rustc_apfloat's `PartialOrd` impl for `ieee::Single`: the
/// IEEE-754 ordered comparison `<` (false on NaN operands), a function of
/// the two operand bit patterns alone.
#[verifier::external_body]
pub fn r_lt(a: u32, b: u32) -> (r: bool)
    ensures
        r == lt_bits(a, b),
{
    let x = rustc_apfloat::ieee::Single::from_bits(a as u128);
    let y = rustc_apfloat::ieee::Single::from_bits(b as u128);
    x < y
}

/// Relies on rustc_apfloat's `PartialOrd` impl for `ieee::Single`: the
/// IEEE-754 ordered comparison `>=` (false on NaN operands), a function of
/// the two operand bit patterns alone.
#[verifier::external_body]
pub fn r_ge(a: u32, b: u32) -> (r: bool)
    ensures
        r == ge_bits(a, b),
{
    let x = rustc_apfloat::ieee::Single::from_bits(a as u128);
    let y = rustc_apfloat::ieee::Single::from_bits(b as u128);
    x >= y
}

/// Relies on rustc_apfloat's `Float::from_u128_r` for `ieee::Single`:
/// conversion of an unsigned integer to the nearest binary32 value (ties to
/// even), as Rust's `as f32` cast rounds, a function of the integer alone.
#[verifier::external_body]
pub fn r_of_usize(n: usize) -> (r: u32)
    ensures
        r == real_of_usize(n),
{
    rustc_apfloat::ieee::Single::from_u128_r(n as u128, rustc_apfloat::Round::NearestTiesToEven)
        .value
        .to_bits() as u32
}

} // verus!
