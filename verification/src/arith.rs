//! Checked `i128` arithmetic that reports overflow as a ledger error.

use vstd::prelude::*;

use crate::types::CoffeeError;

verus! {

/// Whether a mathematical integer fits in an `i128`.
pub open spec fn fits_i128(x: int) -> bool {
    i128::MIN <= x <= i128::MAX
}

/// `lhs + rhs`, or `Overflow` where the sum leaves the range of `i128`.
pub fn checked_add(lhs: i128, rhs: i128) -> (r: Result<i128, CoffeeError>)
    ensures
        fits_i128(lhs + rhs) ==> r == Ok::<i128, CoffeeError>((lhs + rhs) as i128),
        !fits_i128(lhs + rhs) ==> r == Err::<i128, CoffeeError>(CoffeeError::Overflow),
{
    match lhs.checked_add(rhs) {
        Some(v) => Ok(v),
        None => Err(CoffeeError::Overflow),
    }
}

/// `lhs - rhs`, or `Overflow` where the difference leaves the range of `i128`.
pub fn checked_sub(lhs: i128, rhs: i128) -> (r: Result<i128, CoffeeError>)
    ensures
        fits_i128(lhs - rhs) ==> r == Ok::<i128, CoffeeError>((lhs - rhs) as i128),
        !fits_i128(lhs - rhs) ==> r == Err::<i128, CoffeeError>(CoffeeError::Overflow),
{
    match lhs.checked_sub(rhs) {
        Some(v) => Ok(v),
        None => Err(CoffeeError::Overflow),
    }
}

/// `lhs * rhs`, or `Overflow` where the product leaves the range of `i128`.
pub fn checked_mul(lhs: i128, rhs: i128) -> (r: Result<i128, CoffeeError>)
    ensures
        fits_i128(lhs * rhs) ==> r == Ok::<i128, CoffeeError>((lhs * rhs) as i128),
        !fits_i128(lhs * rhs) ==> r == Err::<i128, CoffeeError>(CoffeeError::Overflow),
{
    match lhs.checked_mul(rhs) {
        Some(v) => Ok(v),
        None => Err(CoffeeError::Overflow),
    }
}

} // verus!
