//! Saturating arithmetic and ordering helpers with exact contracts.
use vstd::prelude::*;

verus! {

/// `value` forced into the range of `u32`.
pub open spec fn saturate_u32(value: int) -> u32 {
    if value < 0 {
        0
    } else if value > u32::MAX {
        u32::MAX
    } else {
        value as u32
    }
}

/// `value` forced into the range of `u64`.
pub open spec fn saturate_u64(value: int) -> u64 {
    if value < 0 {
        0
    } else if value > u64::MAX {
        u64::MAX
    } else {
        value as u64
    }
}

/// `value` forced into the range of `u128`.
pub open spec fn saturate_u128(value: int) -> u128 {
    if value < 0 {
        0
    } else if value > u128::MAX {
        u128::MAX
    } else {
        value as u128
    }
}

/// The smaller of two numbers.
pub fn min_u32(a: u32, b: u32) -> (r: u32)
    ensures
        r == vstd::math::min(a as int, b as int),
{
    if a <= b {
        a
    } else {
        b
    }
}

/// The larger of two numbers.
pub fn max_u32(a: u32, b: u32) -> (r: u32)
    ensures
        r == vstd::math::max(a as int, b as int),
{
    if a >= b {
        a
    } else {
        b
    }
}

/// The larger of two numbers.
pub fn max_u64(a: u64, b: u64) -> (r: u64)
    ensures
        r == vstd::math::max(a as int, b as int),
{
    if a >= b {
        a
    } else {
        b
    }
}

/// The smaller of two sizes.
pub fn min_usize(a: usize, b: usize) -> (r: usize)
    ensures
        r == vstd::math::min(a as int, b as int),
{
    if a <= b {
        a
    } else {
        b
    }
}

/// The larger of two sizes.
pub fn max_usize(a: usize, b: usize) -> (r: usize)
    ensures
        r == vstd::math::max(a as int, b as int),
{
    if a >= b {
        a
    } else {
        b
    }
}

/// The product, or `u32::MAX` where it does not fit.
pub fn saturating_mul_u32(a: u32, b: u32) -> (r: u32)
    ensures
        r == saturate_u32(a * b),
{
    proof {
        assert(0 <= a * b) by (nonlinear_arith)
            requires
                0 <= a,
                0 <= b,
        ;
    }
    match a.checked_mul(b) {
        Some(product) => product,
        None => u32::MAX,
    }
}

/// The product, or `u128::MAX` where it does not fit.
pub fn saturating_mul_u128(a: u128, b: u128) -> (r: u128)
    ensures
        r == saturate_u128(a * b),
{
    proof {
        assert(0 <= a * b) by (nonlinear_arith)
            requires
                0 <= a,
                0 <= b,
        ;
    }
    match a.checked_mul(b) {
        Some(product) => product,
        None => u128::MAX,
    }
}

/// `value` narrowed to `u64`, or `u64::MAX` where it does not fit.
pub fn narrow_u64(value: u128) -> (r: u64)
    ensures
        r == saturate_u64(value as int),
{
    if value > u64::MAX as u128 {
        u64::MAX
    } else {
        value as u64
    }
}

/// `value` narrowed to `u32`, or `u32::MAX` where it does not fit.
pub fn narrow_u32(value: u128) -> (r: u32)
    ensures
        r == saturate_u32(value as int),
{
    if value > u32::MAX as u128 {
        u32::MAX
    } else {
        value as u32
    }
}

/// The smallest whole number not below `numerator / denominator`.
pub open spec fn ceiling_div(numerator: int, denominator: int) -> int {
    (numerator + denominator - 1) / denominator
}

/// The quotient rounded up.
pub fn div_ceil_u128(numerator: u128, denominator: u128) -> (r: u128)
    requires
        denominator > 0,
    ensures
        r == ceiling_div(numerator as int, denominator as int),
{
    if numerator == 0 {
        proof {
            assert(ceiling_div(0, denominator as int) == 0) by (nonlinear_arith)
                requires
                    denominator > 0,
            ;
        }
        0
    } else {
        let quotient: u128 = (numerator - 1) / denominator;
        proof {
            let n = numerator as int;
            let d = denominator as int;
            vstd::arithmetic::div_mod::lemma_div_plus_one(n - 1, d);
            assert(quotient < u128::MAX) by (nonlinear_arith)
                requires
                    quotient == (n - 1) / d,
                    1 <= n <= u128::MAX,
                    d > 0,
            ;
        }
        quotient + 1
    }
}

} // verus!
