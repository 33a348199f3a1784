//! IEEE-754 binary64 semantics on raw 64-bit register values.
//!
//! Registers are untyped 64-bit words; the float instructions reinterpret
//! them as IEEE-754 binary64 bit patterns. Comparison and truncation to an
//! integer are bit-level functions defined and verified here. The rounding
//! arithmetic itself (add, subtract, multiply, divide, and conversion from
//! an integer) is carried out by an IEEE-754 software implementation that
//! works on bit patterns; those results are named, not restated.

use vstd::prelude::*;

verus! {

/// Whether the bit pattern encodes a NaN: all exponent bits set and a
/// non-zero mantissa.
pub open spec fn f64_is_nan_bits(bits: u64) -> bool {
    (bits & 0x7FFFFFFFFFFFFFFF) > 0x7FF0000000000000
}

/// A key that orders non-NaN bit patterns as the floats they encode: the
/// magnitude bits, negated when the sign bit is set. Both zeros map to 0.
pub open spec fn f64_key(bits: u64) -> int {
    let abs = (bits & 0x7FFFFFFFFFFFFFFF) as int;
    if bits >= 0x8000000000000000 {
        -abs
    } else {
        abs
    }
}

/// The three condition bits a float comparison produces: less-than `0b010`,
/// equal `0b001`, greater-than `0b100`, and all clear when either operand
/// is NaN.
pub open spec fn cmpf_bits(a: u64, b: u64) -> u64 {
    if f64_is_nan_bits(a) || f64_is_nan_bits(b) {
        0u64
    } else if f64_key(a) < f64_key(b) {
        0b010u64
    } else if f64_key(a) == f64_key(b) {
        0b001u64
    } else {
        0b100u64
    }
}

/// Truncation of a binary64 bit pattern toward zero into a signed 64-bit
/// integer, saturating at the integer bounds, with NaN mapped to zero; the
/// result is returned as the integer's two's-complement bits.
pub open spec fn f2i_bits(bits: u64) -> u64 {
    let sign = bits >= 0x8000000000000000;
    let e_raw = (bits >> 52) & 0x7FF;
    let frac = bits & 0xFFFFFFFFFFFFF;
    if e_raw == 0x7FF {
        if frac != 0 {
            0u64
        } else if sign {
            0x8000000000000000u64
        } else {
            0x7FFFFFFFFFFFFFFFu64
        }
    } else if e_raw < 1023 {
        0u64
    } else if e_raw >= 1086 {
        if sign {
            0x8000000000000000u64
        } else {
            0x7FFFFFFFFFFFFFFFu64
        }
    } else {
        let m = frac | 0x10000000000000;
        let mag = if e_raw >= 1075 {
            m << (e_raw - 1075)
        } else {
            m >> (1075 - e_raw)
        };
        if sign {
            (0u64).wrapping_sub(mag)
        } else {
            mag
        }
    }
}

/// The comparison bits for two register values read as binary64.
pub fn compare_f64_bits(a: u64, b: u64) -> (r: u64)
    ensures
        r == cmpf_bits(a, b),
{
    let aa = a & 0x7FFFFFFFFFFFFFFF;
    let bb = b & 0x7FFFFFFFFFFFFFFF;
    if aa > 0x7FF0000000000000 || bb > 0x7FF0000000000000 {
        return 0;
    }
    let asign = a >= 0x8000000000000000;
    let bsign = b >= 0x8000000000000000;
    if asign && bsign {
        if aa > bb {
            0b010
        } else if aa == bb {
            0b001
        } else {
            0b100
        }
    } else if asign {
        if aa == 0 && bb == 0 {
            0b001
        } else {
            0b010
        }
    } else if bsign {
        if aa == 0 && bb == 0 {
            0b001
        } else {
            0b100
        }
    } else {
        if aa < bb {
            0b010
        } else if aa == bb {
            0b001
        } else {
            0b100
        }
    }
}

/// The truncation of a register value read as binary64 into signed 64-bit
/// integer bits.
pub fn truncate_f64_bits(bits: u64) -> (r: u64)
    ensures
        r == f2i_bits(bits),
{
    let sign = bits >= 0x8000000000000000;
    let e_raw = (bits >> 52u64) & 0x7FF;
    let frac = bits & 0xFFFFFFFFFFFFF;
    if e_raw == 0x7FF {
        if frac != 0 {
            0
        } else if sign {
            0x8000000000000000
        } else {
            0x7FFFFFFFFFFFFFFF
        }
    } else if e_raw < 1023 {
        0
    } else if e_raw >= 1086 {
        if sign {
            0x8000000000000000
        } else {
            0x7FFFFFFFFFFFFFFF
        }
    } else {
        let m = frac | 0x10000000000000;
        let mag = if e_raw >= 1075 {
            m << ((e_raw - 1075) as u32)
        } else {
            m >> ((1075 - e_raw) as u32)
        };
        if sign {
            (0u64).wrapping_sub(mag)
        } else {
            mag
        }
    }
}

/// The bits of the IEEE-754 binary64 sum of the floats the two bit
/// patterns encode, rounded to nearest, ties to even.
pub uninterp spec fn f64_add_bits(a: u64, b: u64) -> u64;

/// The bits of the binary64 difference, rounded to nearest, ties to even.
pub uninterp spec fn f64_sub_bits(a: u64, b: u64) -> u64;

/// The bits of the binary64 product, rounded to nearest, ties to even.
pub uninterp spec fn f64_mul_bits(a: u64, b: u64) -> u64;

/// The bits of the binary64 quotient, rounded to nearest, ties to even.
pub uninterp spec fn f64_div_bits(a: u64, b: u64) -> u64;

/// The binary64 bits nearest to a signed 64-bit integer, ties to even.
pub uninterp spec fn i64_to_f64_bits(v: u64) -> u64;

/// Relies on rustc_apfloat::ieee::Double::add_r: IEEE-754 binary64
/// addition on bit patterns, rounded to nearest, ties to even; the result
/// depends on the two bit patterns alone.
#[verifier::external_body]
pub(crate) fn add_f64_bits(a: u64, b: u64) -> (r: u64)
    ensures
        r == f64_add_bits(a, b),
{
    let x = <rustc_apfloat::ieee::Double as rustc_apfloat::Float>::from_bits(a as u128);
    let y = <rustc_apfloat::ieee::Double as rustc_apfloat::Float>::from_bits(b as u128);
    let s = rustc_apfloat::Float::add_r(x, y, rustc_apfloat::Round::NearestTiesToEven);
    rustc_apfloat::Float::to_bits(s.value) as u64
}

/// Relies on rustc_apfloat::ieee::Double::sub_r: IEEE-754 binary64
/// subtraction on bit patterns, rounded to nearest, ties to even; the
/// result depends on the two bit patterns alone.
#[verifier::external_body]
pub(crate) fn sub_f64_bits(a: u64, b: u64) -> (r: u64)
    ensures
        r == f64_sub_bits(a, b),
{
    let x = <rustc_apfloat::ieee::Double as rustc_apfloat::Float>::from_bits(a as u128);
    let y = <rustc_apfloat::ieee::Double as rustc_apfloat::Float>::from_bits(b as u128);
    let s = rustc_apfloat::Float::sub_r(x, y, rustc_apfloat::Round::NearestTiesToEven);
    rustc_apfloat::Float::to_bits(s.value) as u64
}

/// Relies on rustc_apfloat::ieee::Double::mul_r: IEEE-754 binary64
/// multiplication on bit patterns, rounded to nearest, ties to even; the
/// result depends on the two bit patterns alone.
#[verifier::external_body]
pub(crate) fn mul_f64_bits(a: u64, b: u64) -> (r: u64)
    ensures
        r == f64_mul_bits(a, b),
{
    let x = <rustc_apfloat::ieee::Double as rustc_apfloat::Float>::from_bits(a as u128);
    let y = <rustc_apfloat::ieee::Double as rustc_apfloat::Float>::from_bits(b as u128);
    let s = rustc_apfloat::Float::mul_r(x, y, rustc_apfloat::Round::NearestTiesToEven);
    rustc_apfloat::Float::to_bits(s.value) as u64
}

/// Relies on rustc_apfloat::ieee::Double::div_r: IEEE-754 binary64
/// division on bit patterns, rounded to nearest, ties to even; the result
/// depends on the two bit patterns alone.
#[verifier::external_body]
pub(crate) fn div_f64_bits(a: u64, b: u64) -> (r: u64)
    ensures
        r == f64_div_bits(a, b),
{
    let x = <rustc_apfloat::ieee::Double as rustc_apfloat::Float>::from_bits(a as u128);
    let y = <rustc_apfloat::ieee::Double as rustc_apfloat::Float>::from_bits(b as u128);
    let s = rustc_apfloat::Float::div_r(x, y, rustc_apfloat::Round::NearestTiesToEven);
    rustc_apfloat::Float::to_bits(s.value) as u64
}

/// Relies on rustc_apfloat::ieee::Double::from_i128: conversion of a
/// signed integer to the nearest binary64, ties to even; the result
/// depends on the integer alone.
#[verifier::external_body]
pub(crate) fn convert_i64_to_f64_bits(v: u64) -> (r: u64)
    ensures
        r == i64_to_f64_bits(v),
{
    let s = <rustc_apfloat::ieee::Double as rustc_apfloat::Float>::from_i128((v as i64) as i128);
    rustc_apfloat::Float::to_bits(s.value) as u64
}

} // verus!
