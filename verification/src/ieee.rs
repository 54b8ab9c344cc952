//! IEEE-754 binary32 / binary64 numbers held as their bit patterns.
//!
//! The library never computes with floating-point numbers; it only classifies
//! and compares them. Each rule is written here over the bit pattern, the way
//! the IEEE-754 standard lays it out: a sign bit, a biased exponent field and
//! a fraction field. A number is NaN when its exponent field is all ones and
//! its fraction is nonzero, infinite when the exponent is all ones and the
//! fraction zero, and finite otherwise. Equality is IEEE equality: NaN equals
//! nothing (not even itself) and `+0.0` equals `-0.0`.

use vstd::prelude::*;

verus! {

/// The exponent field of an `f32` bit pattern (bits 23 to 30).
pub open spec fn f32_exponent(bits: u32) -> nat {
    ((bits / 0x80_0000) % 0x100) as nat
}

/// The fraction field of an `f32` bit pattern (bits 0 to 22).
pub open spec fn f32_fraction(bits: u32) -> nat {
    (bits % 0x80_0000) as nat
}

/// The `f32` with these bits is finite: neither infinite nor NaN.
pub open spec fn f32_is_finite(bits: u32) -> bool {
    f32_exponent(bits) != 0xff
}

/// The `f32` with these bits is NaN.
pub open spec fn f32_is_nan(bits: u32) -> bool {
    f32_exponent(bits) == 0xff && f32_fraction(bits) != 0
}

/// The `f32` with these bits is `+0.0` or `-0.0`.
pub open spec fn f32_is_zero(bits: u32) -> bool {
    bits % 0x8000_0000 == 0
}

/// IEEE equality of two `f32`s: both are non-NaN and either have the same
/// bits or are both zeros.
pub open spec fn f32_eq(a: u32, b: u32) -> bool {
    !f32_is_nan(a) && !f32_is_nan(b) && (a == b || (f32_is_zero(a) && f32_is_zero(b)))
}

/// The exponent field of an `f64` bit pattern (bits 52 to 62).
pub open spec fn f64_exponent(bits: u64) -> nat {
    ((bits / 0x10_0000_0000_0000) % 0x800) as nat
}

/// The fraction field of an `f64` bit pattern (bits 0 to 51).
pub open spec fn f64_fraction(bits: u64) -> nat {
    (bits % 0x10_0000_0000_0000) as nat
}

/// The `f64` with these bits is NaN.
pub open spec fn f64_is_nan(bits: u64) -> bool {
    f64_exponent(bits) == 0x7ff && f64_fraction(bits) != 0
}

/// The `f64` with these bits is `+0.0` or `-0.0`.
pub open spec fn f64_is_zero(bits: u64) -> bool {
    bits % 0x8000_0000_0000_0000 == 0
}

/// IEEE equality of two `f64`s: both are non-NaN and either have the same
/// bits or are both zeros.
pub open spec fn f64_eq(a: u64, b: u64) -> bool {
    !f64_is_nan(a) && !f64_is_nan(b) && (a == b || (f64_is_zero(a) && f64_is_zero(b)))
}

/// The `f64` with these bits is negative in sign (sign bit set).
pub open spec fn f64_sign_negative(bits: u64) -> bool {
    bits >= 0x8000_0000_0000_0000
}

/// The magnitude part of an `f64` bit pattern (everything but the sign bit).
/// For non-NaN numbers, a larger magnitude part is a larger absolute value.
pub open spec fn f64_magnitude(bits: u64) -> nat {
    (bits % 0x8000_0000_0000_0000) as nat
}

/// IEEE `<` on two `f64`s: false when either is NaN; zeros of either sign are
/// equal; otherwise ordered by sign, then by magnitude.
pub open spec fn f64_lt(a: u64, b: u64) -> bool {
    if f64_is_nan(a) || f64_is_nan(b) || (f64_is_zero(a) && f64_is_zero(b)) {
        false
    } else if f64_sign_negative(a) && !f64_sign_negative(b) {
        true
    } else if !f64_sign_negative(a) && f64_sign_negative(b) {
        false
    } else if f64_sign_negative(a) {
        f64_magnitude(a) > f64_magnitude(b)
    } else {
        f64_magnitude(a) < f64_magnitude(b)
    }
}

/// Tells whether the `f32` with these bits is finite.
pub fn f32_bits_is_finite(bits: u32) -> (r: bool)
    ensures
        r == f32_is_finite(bits),
{
    (bits / 0x80_0000) % 0x100 != 0xff
}

/// IEEE equality of two `f32` bit patterns.
pub fn f32_bits_eq(a: u32, b: u32) -> (r: bool)
    ensures
        r == f32_eq(a, b),
{
    let a_nan = (a / 0x80_0000) % 0x100 == 0xff && a % 0x80_0000 != 0;
    let b_nan = (b / 0x80_0000) % 0x100 == 0xff && b % 0x80_0000 != 0;
    !a_nan && !b_nan && (a == b || (a % 0x8000_0000 == 0 && b % 0x8000_0000 == 0))
}

/// IEEE equality of two `f64` bit patterns.
pub fn f64_bits_eq(a: u64, b: u64) -> (r: bool)
    ensures
        r == f64_eq(a, b),
{
    let a_nan = (a / 0x10_0000_0000_0000) % 0x800 == 0x7ff && a % 0x10_0000_0000_0000 != 0;
    let b_nan = (b / 0x10_0000_0000_0000) % 0x800 == 0x7ff && b % 0x10_0000_0000_0000 != 0;
    !a_nan && !b_nan && (a == b || (a % 0x8000_0000_0000_0000 == 0 && b % 0x8000_0000_0000_0000
        == 0))
}

/// NaN is not equal to itself, while every other number is.
pub proof fn lemma_f64_eq_reflexive_except_nan(a: u64)
    ensures
        f64_eq(a, a) <==> !f64_is_nan(a),
{
}

/// IEEE equality is symmetric.
pub proof fn lemma_f64_eq_symmetric(a: u64, b: u64)
    ensures
        f64_eq(a, b) == f64_eq(b, a),
{
}

/// IEEE `<` is irreflexive, asymmetric and transitive, and no NaN is ever
/// below or above anything.
pub proof fn lemma_f64_lt_strict_order(a: u64, b: u64, c: u64)
    ensures
        !f64_lt(a, a),
        f64_lt(a, b) ==> !f64_lt(b, a),
        f64_lt(a, b) && f64_lt(b, c) ==> f64_lt(a, c),
        f64_is_nan(a) ==> !f64_lt(a, b) && !f64_lt(b, a),
        f64_lt(a, b) ==> !f64_eq(a, b),
{
}

/// Finiteness of an `f32` is the IEEE-754 rule read off the bits with masks:
/// the exponent field (bits 23 to 30) is not all ones. The sign bit plays no
/// part: a number and its negation are finite alike.
pub proof fn lemma_f32_finite_by_mask(bits: u32)
    ensures
        f32_is_finite(bits) <==> (bits & 0x7f80_0000u32) != 0x7f80_0000u32,
        f32_is_finite(bits) == f32_is_finite(bits ^ 0x8000_0000u32),
{
    assert(((bits / 0x80_0000u32) % 0x100u32 != 0xffu32) == ((bits & 0x7f80_0000u32)
        != 0x7f80_0000u32)) by (bit_vector);
    assert(((bits / 0x80_0000u32) % 0x100u32) == (((bits ^ 0x8000_0000u32) / 0x80_0000u32)
        % 0x100u32)) by (bit_vector);
}

/// IEEE equality of two `f32`s, read off the bits with masks: neither is a
/// NaN (exponent all ones with a nonzero fraction), and either the bits are
/// identical or both are zeros (everything but the sign bit clear). So a
/// nonzero number is never equal to its negation, and two numbers that are
/// not both zeros are equal only when their bits are.
pub proof fn lemma_f32_eq_by_mask(a: u32, b: u32)
    ensures
        f32_eq(a, b) <==> ({
            &&& !((a & 0x7f80_0000u32) == 0x7f80_0000u32 && (a & 0x007f_ffffu32) != 0)
            &&& !((b & 0x7f80_0000u32) == 0x7f80_0000u32 && (b & 0x007f_ffffu32) != 0)
            &&& (a == b || ((a & 0x7fff_ffffu32) == 0 && (b & 0x7fff_ffffu32) == 0))
        }),
        (a & 0x7fff_ffffu32) != 0 ==> !f32_eq(a, a ^ 0x8000_0000u32),
{
    assert(((a / 0x80_0000u32) % 0x100u32 == 0xffu32 && a % 0x80_0000u32 != 0) == ((a
        & 0x7f80_0000u32) == 0x7f80_0000u32 && (a & 0x007f_ffffu32) != 0)) by (bit_vector);
    assert(((b / 0x80_0000u32) % 0x100u32 == 0xffu32 && b % 0x80_0000u32 != 0) == ((b
        & 0x7f80_0000u32) == 0x7f80_0000u32 && (b & 0x007f_ffffu32) != 0)) by (bit_vector);
    assert((a % 0x8000_0000u32 == 0) == ((a & 0x7fff_ffffu32) == 0)) by (bit_vector);
    assert((b % 0x8000_0000u32 == 0) == ((b & 0x7fff_ffffu32) == 0)) by (bit_vector);
    assert((a & 0x7fff_ffffu32) != 0 ==> (a ^ 0x8000_0000u32) != a && ((a ^ 0x8000_0000u32)
        % 0x8000_0000u32) != 0) by (bit_vector);
}

/// IEEE equality of two `f64`s, read off the bits with masks, as for `f32`.
pub proof fn lemma_f64_eq_by_mask(a: u64, b: u64)
    ensures
        f64_eq(a, b) <==> ({
            &&& !((a & 0x7ff0_0000_0000_0000u64) == 0x7ff0_0000_0000_0000u64 && (a
                & 0x000f_ffff_ffff_ffffu64) != 0)
            &&& !((b & 0x7ff0_0000_0000_0000u64) == 0x7ff0_0000_0000_0000u64 && (b
                & 0x000f_ffff_ffff_ffffu64) != 0)
            &&& (a == b || ((a & 0x7fff_ffff_ffff_ffffu64) == 0 && (b & 0x7fff_ffff_ffff_ffffu64)
                == 0))
        }),
{
    assert(((a / 0x10_0000_0000_0000u64) % 0x800u64 == 0x7ffu64 && a % 0x10_0000_0000_0000u64 != 0)
        == ((a & 0x7ff0_0000_0000_0000u64) == 0x7ff0_0000_0000_0000u64 && (a
        & 0x000f_ffff_ffff_ffffu64) != 0)) by (bit_vector);
    assert(((b / 0x10_0000_0000_0000u64) % 0x800u64 == 0x7ffu64 && b % 0x10_0000_0000_0000u64 != 0)
        == ((b & 0x7ff0_0000_0000_0000u64) == 0x7ff0_0000_0000_0000u64 && (b
        & 0x000f_ffff_ffff_ffffu64) != 0)) by (bit_vector);
    assert((a % 0x8000_0000_0000_0000u64 == 0) == ((a & 0x7fff_ffff_ffff_ffffu64) == 0))
        by (bit_vector);
    assert((b % 0x8000_0000_0000_0000u64 == 0) == ((b & 0x7fff_ffff_ffff_ffffu64) == 0))
        by (bit_vector);
}

/// The IEEE order of two non-NaN `f64`s that are not both zeros, read off
/// the bits: a negative number (sign bit set) is below a non-negative one;
/// two non-negative numbers are ordered as their bit patterns; two negative
/// numbers in the reverse order of their bit patterns.
pub proof fn lemma_f64_lt_by_bits(a: u64, b: u64)
    requires
        !f64_is_nan(a),
        !f64_is_nan(b),
        !(f64_is_zero(a) && f64_is_zero(b)),
    ensures
        a < 0x8000_0000_0000_0000u64 && b < 0x8000_0000_0000_0000u64 ==> (f64_lt(a, b) <==> a
            < b),
        a >= 0x8000_0000_0000_0000u64 && b >= 0x8000_0000_0000_0000u64 ==> (f64_lt(a, b) <==> a
            > b),
        a >= 0x8000_0000_0000_0000u64 && b < 0x8000_0000_0000_0000u64 ==> f64_lt(a, b),
        a < 0x8000_0000_0000_0000u64 && b >= 0x8000_0000_0000_0000u64 ==> !f64_lt(a, b),
{
}

} // verus!
