//! Trusted boundary for IEEE-754 double arithmetic.
//!
//! The engine carries every runtime float as the raw bit pattern of an
//! IEEE-754 binary64 value, so the verified code never touches a float type.
//! The arithmetic itself is delegated to `rustc_apfloat`, a software
//! implementation of IEEE-754.  Each operation is a pure function of the
//! argument bits alone, so its result is given a name by an uninterpreted
//! spec function, and the wrapper's contract ties the call to that name.

use vstd::prelude::*;
use rustc_apfloat::Float;
use rustc_apfloat::ieee::Double;

verus! {

/// The bit pattern of the IEEE-754 sum of the doubles with bit patterns `a` and `b`.
pub uninterp spec fn f64_add_bits(a: u64, b: u64) -> u64;

/// The bit pattern of the IEEE-754 product of the doubles with bit patterns `a` and `b`.
pub uninterp spec fn f64_mul_bits(a: u64, b: u64) -> u64;

/// The bit pattern of the IEEE-754 quotient of the doubles with bit patterns
/// `a` and `b`.  Division by zero follows IEEE-754: the quotient is an
/// infinity, or NaN for zero over zero; it is never an error.
pub uninterp spec fn f64_div_bits(a: u64, b: u64) -> u64;

/// The bit pattern of the double nearest to the integer `a`
/// (round to nearest, ties to even).
pub uninterp spec fn f64_of_int(a: i64) -> u64;

/// Whether the double with bit pattern `a` is greater than the one with bit
/// pattern `b`, in the IEEE-754 order (false whenever either is NaN).
pub uninterp spec fn f64_gt_bits(a: u64, b: u64) -> bool;

/// Whether the doubles with bit patterns `a` and `b` are equal in the
/// IEEE-754 sense (false whenever either is NaN; all zeros are equal).
pub uninterp spec fn f64_eq_bits(a: u64, b: u64) -> bool;

/// Relies on rustc_apfloat's `Double` addition: IEEE-754 binary64 addition,
/// round to nearest, ties to even — a function of the argument bits alone.
#[verifier::external_body]
pub(crate) fn float_add(a: u64, b: u64) -> (r: u64)
    ensures
        r == f64_add_bits(a, b),
{
    let x = Double::from_bits(a as u128);
    let y = Double::from_bits(b as u128);
    (x + y).value.to_bits() as u64
}

/// Relies on rustc_apfloat's `Double` multiplication: IEEE-754 binary64
/// multiplication, round to nearest, ties to even.
#[verifier::external_body]
pub(crate) fn float_mul(a: u64, b: u64) -> (r: u64)
    ensures
        r == f64_mul_bits(a, b),
{
    let x = Double::from_bits(a as u128);
    let y = Double::from_bits(b as u128);
    (x * y).value.to_bits() as u64
}

/// Relies on rustc_apfloat's `Double` division: IEEE-754 binary64 division,
/// round to nearest, ties to even (an infinity or NaN on division by zero).
#[verifier::external_body]
pub(crate) fn float_div(a: u64, b: u64) -> (r: u64)
    ensures
        r == f64_div_bits(a, b),
{
    let x = Double::from_bits(a as u128);
    let y = Double::from_bits(b as u128);
    (x / y).value.to_bits() as u64
}

/// Relies on rustc_apfloat's `Double::from_i128`: conversion of an integer to
/// the nearest double, ties to even — the same rounding a native cast uses.
#[verifier::external_body]
pub(crate) fn float_of_i64(a: i64) -> (r: u64)
    ensures
        r == f64_of_int(a),
{
    Double::from_i128(a as i128).value.to_bits() as u64
}

/// Relies on rustc_apfloat's `PartialOrd` for `Double`: the IEEE-754 order,
/// under which a NaN compares with nothing.
#[verifier::external_body]
pub(crate) fn float_gt(a: u64, b: u64) -> (r: bool)
    ensures
        r == f64_gt_bits(a, b),
{
    Double::from_bits(a as u128) > Double::from_bits(b as u128)
}

/// Relies on rustc_apfloat's `PartialEq` for `Double`: IEEE-754 equality,
/// under which a NaN equals nothing and all zeros are equal.
#[verifier::external_body]
pub(crate) fn float_eq(a: u64, b: u64) -> (r: bool)
    ensures
        r == f64_eq_bits(a, b),
{
    Double::from_bits(a as u128) == Double::from_bits(b as u128)
}

} // verus!
