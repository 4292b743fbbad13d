//! Prices as IEEE-754 binary64 bit patterns.
//!
//! A price is carried as the 64-bit pattern of the binary64 value it
//! denotes. Sign, magnitude, NaN-ness and the value ordering are plain
//! arithmetic on the pattern, so comparisons are verified here directly.
//! Rounded arithmetic (sum, difference, quotient, conversion from an
//! integer) is delegated to `rustc_apfloat`, a software implementation of
//! IEEE-754 binary64, behind a small trusted surface: each operation's
//! result is named by an uninterpreted spec function, since the rounded
//! result is determined by the operand bit patterns alone.

use rustc_apfloat::Float;
use vstd::prelude::*;

verus! {

/// Bit pattern of the sign bit; also the pattern of negative zero.
pub const SIGN_MASK: u64 = 0x8000_0000_0000_0000;

/// Bit pattern whose exponent field is all ones and whose sign and
/// fraction fields are zero; the pattern of positive infinity.
pub const EXP_MASK: u64 = 0x7FF0_0000_0000_0000;

/// Bit pattern of positive zero.
pub const POS_ZERO_BITS: u64 = 0;

/// Bit pattern of the value one.
pub const ONE_BITS: u64 = 0x3FF0_0000_0000_0000;

/// Bit pattern of the least finite binary64 value (the negative value of
/// greatest magnitude).
pub const LEAST_FINITE_BITS: u64 = 0xFFEF_FFFF_FFFF_FFFF;

/// Bit pattern of the greatest finite binary64 value.
pub const GREATEST_FINITE_BITS: u64 = 0x7FEF_FFFF_FFFF_FFFF;

/// The magnitude of a pattern: the pattern with its sign bit cleared.
pub open spec fn mag_bits(a: u64) -> u64 {
    if a >= SIGN_MASK {
        (a - SIGN_MASK) as u64
    } else {
        a
    }
}

/// True when the pattern is negative (its sign bit is set).
pub open spec fn is_neg_bits(a: u64) -> bool {
    a >= SIGN_MASK
}

/// A pattern is a NaN when its exponent field is all ones and its
/// fraction field is non-zero, i.e. its magnitude exceeds that of
/// infinity.
pub open spec fn is_nan_bits(a: u64) -> bool {
    mag_bits(a) > EXP_MASK
}

/// A pattern is finite when its exponent field is not all ones.
pub open spec fn is_finite_bits(a: u64) -> bool {
    mag_bits(a) < EXP_MASK
}

/// A pattern denotes zero when its magnitude is zero; both zero patterns
/// (positive and negative) compare equal as values.
pub open spec fn is_zero_bits(a: u64) -> bool {
    mag_bits(a) == 0
}

/// The key of a non-NaN pattern orders patterns as binary64 values:
/// non-negative values in order of magnitude, negative values in the
/// reverse order, and the two zeros on a single key.
pub open spec fn key_bits(a: u64) -> int {
    if is_neg_bits(a) {
        -(mag_bits(a) as int)
    } else {
        mag_bits(a) as int
    }
}

/// `a` denotes a value strictly below the value of `b`. Any comparison
/// with a NaN is false.
pub open spec fn lt_bits_spec(a: u64, b: u64) -> bool {
    !is_nan_bits(a) && !is_nan_bits(b) && key_bits(a) < key_bits(b)
}

/// `a` denotes a value at or below the value of `b`. Any comparison with
/// a NaN is false.
pub open spec fn le_bits_spec(a: u64, b: u64) -> bool {
    !is_nan_bits(a) && !is_nan_bits(b) && key_bits(a) <= key_bits(b)
}

/// Binary64 less-than on bit patterns.
pub fn lt_bits(a: u64, b: u64) -> (r: bool)
    ensures
        r == lt_bits_spec(a, b),
{
    let ma: u64 = if a >= SIGN_MASK { a - SIGN_MASK } else { a };
    let mb: u64 = if b >= SIGN_MASK { b - SIGN_MASK } else { b };
    if ma > EXP_MASK || mb > EXP_MASK {
        false
    } else if a >= SIGN_MASK {
        if b >= SIGN_MASK {
            mb < ma
        } else {
            ma != 0 || mb != 0
        }
    } else {
        if b >= SIGN_MASK {
            false
        } else {
            ma < mb
        }
    }
}

/// Whether the pattern denotes zero.
pub fn zero_bits(a: u64) -> (r: bool)
    ensures
        r == is_zero_bits(a),
{
    let ma: u64 = if a >= SIGN_MASK { a - SIGN_MASK } else { a };
    ma == 0
}

/// The bit pattern of the rounded binary64 sum of the values of `a` and
/// `b`, rounding to nearest, ties to even.
pub uninterp spec fn sum_bits(a: u64, b: u64) -> u64;

/// The bit pattern of the rounded binary64 difference `a - b`, rounding
/// to nearest, ties to even.
pub uninterp spec fn diff_bits(a: u64, b: u64) -> u64;

/// The bit pattern of the rounded binary64 quotient `a / b`, rounding to
/// nearest, ties to even.
pub uninterp spec fn quot_bits(a: u64, b: u64) -> u64;

/// The bit pattern of the binary64 value nearest to the integer `n`,
/// rounding to nearest, ties to even.
pub uninterp spec fn usize_bits(n: usize) -> u64;

/// Relies on `rustc_apfloat::ieee::Double::add_r` (through the `Add`
/// impl, which rounds to nearest, ties to even): IEEE-754 addition is a
/// function of the operand bit patterns alone.
#[verifier::external_body]
pub(crate) fn bits_add(a: u64, b: u64) -> (r: u64)
    ensures
        r == sum_bits(a, b),
{
    let x = rustc_apfloat::ieee::Double::from_bits(a as u128);
    let y = rustc_apfloat::ieee::Double::from_bits(b as u128);
    (x + y).value.to_bits() as u64
}

/// Relies on `rustc_apfloat::ieee::Double::sub_r` (through the `Sub`
/// impl, which rounds to nearest, ties to even). IEEE-754 requires the
/// difference of a finite operand from itself to be exactly positive
/// zero under this rounding, which the second clause records.
#[verifier::external_body]
pub(crate) fn bits_sub(a: u64, b: u64) -> (r: u64)
    ensures
        r == diff_bits(a, b),
        a == b && is_finite_bits(a) ==> r == POS_ZERO_BITS,
{
    let x = rustc_apfloat::ieee::Double::from_bits(a as u128);
    let y = rustc_apfloat::ieee::Double::from_bits(b as u128);
    (x - y).value.to_bits() as u64
}

/// Relies on `rustc_apfloat::ieee::Double::div_r` (through the `Div`
/// impl, which rounds to nearest, ties to even). IEEE-754 requires a
/// zero dividend over a non-NaN, non-zero divisor to yield a zero, which
/// the second clause records.
#[verifier::external_body]
pub(crate) fn bits_div(a: u64, b: u64) -> (r: u64)
    ensures
        r == quot_bits(a, b),
        a == POS_ZERO_BITS && !is_nan_bits(b) && !is_zero_bits(b) ==> is_zero_bits(r),
{
    let x = rustc_apfloat::ieee::Double::from_bits(a as u128);
    let y = rustc_apfloat::ieee::Double::from_bits(b as u128);
    (x / y).value.to_bits() as u64
}

/// Relies on `rustc_apfloat::ieee::Double::from_u128_r` (through
/// `from_u128`, which rounds to nearest, ties to even): the conversion
/// of an unsigned integer to binary64 depends on the integer alone.
#[verifier::external_body]
pub(crate) fn bits_of_usize(n: usize) -> (r: u64)
    ensures
        r == usize_bits(n),
{
    rustc_apfloat::ieee::Double::from_u128(n as u128).value.to_bits() as u64
}

} // verus!
