//! What the patterns mean: the number that a finite pattern encodes, and why
//! comparing, equating and negating patterns compares, equates and negates
//! the numbers.
use vstd::prelude::*;
use vstd::arithmetic::mul::{lemma_mul_inequality, lemma_mul_strict_inequality};
use vstd::arithmetic::power2::{lemma_pow2_pos, lemma_pow2_strictly_increases, lemma_pow2_unfold, pow2};
use crate::binary64::{
    at_least_as_large, is_nan, magnitude, negated, same_number, sign, INFINITY_BITS,
};

verus! {

/// The exponent field of a pattern: the eleven bits between sign and
/// fraction.
pub open spec fn exponent_field(bits: u64) -> nat {
    (magnitude(bits) / 0x10_0000_0000_0000) as nat
}

/// The fraction field of a pattern: its low 52 bits.
pub open spec fn fraction(bits: u64) -> nat {
    (magnitude(bits) % 0x10_0000_0000_0000) as nat
}

/// Whether the pattern encodes a finite number.
pub open spec fn is_finite(bits: u64) -> bool {
    magnitude(bits) < INFINITY_BITS
}

/// Whether the pattern encodes an infinity.
pub open spec fn is_infinite(bits: u64) -> bool {
    magnitude(bits) == INFINITY_BITS
}

/// The absolute value that a finite pattern encodes, counted in units of
/// 2^-1074, the smallest positive binary64. With exponent field zero the
/// fraction counts the units itself; otherwise the fraction has its leading
/// one put in front and is doubled once for each step of the exponent
/// field above one.
pub open spec fn absolute_value(bits: u64) -> nat
    recommends
        is_finite(bits),
{
    if exponent_field(bits) == 0 {
        fraction(bits)
    } else {
        (0x10_0000_0000_0000 + fraction(bits)) * pow2((exponent_field(bits) - 1) as nat)
    }
}

/// The number that a finite pattern encodes, counted in units of 2^-1074:
/// its absolute value, below zero where the sign bit is set.
pub open spec fn value(bits: u64) -> int
    recommends
        is_finite(bits),
{
    if sign(bits) {
        -(absolute_value(bits) as int)
    } else {
        absolute_value(bits) as int
    }
}

/// A smaller magnitude pattern encodes a smaller absolute value.
proof fn lemma_strictly_increasing(a: u64, b: u64)
    requires
        magnitude(a) < magnitude(b),
    ensures
        absolute_value(a) < absolute_value(b),
{
    let k: int = 0x10_0000_0000_0000;
    let ea = exponent_field(a);
    let eb = exponent_field(b);
    let fa = fraction(a) as int;
    let fb = fraction(b) as int;
    assert(ea < eb || (ea == eb && fa < fb));
    if ea == eb {
        if ea != 0 {
            let p = pow2((ea - 1) as nat) as int;
            lemma_pow2_pos((ea - 1) as nat);
            lemma_mul_strict_inequality(k + fa, k + fb, p);
        }
    } else {
        let pb = pow2((eb - 1) as nat) as int;
        lemma_pow2_pos((eb - 1) as nat);
        lemma_mul_inequality(k, k + fb, pb);
        assert(k * pb <= absolute_value(b));
        if ea == 0 {
            assert(fa < k * pb);
        } else {
            let pa = pow2((ea - 1) as nat) as int;
            lemma_pow2_pos((ea - 1) as nat);
            lemma_mul_strict_inequality(k + fa, 2 * k, pa);
            lemma_pow2_unfold(ea);
            if ea < eb - 1 {
                lemma_pow2_strictly_increases(ea, (eb - 1) as nat);
            }
            assert(pow2(ea) <= pb);
            assert((2 * k) * pa == k * pow2(ea));
        }
    }
}

/// Between finite patterns, one is at least as large as the other exactly
/// when the absolute value it encodes is.
pub proof fn lemma_magnitude_order(a: u64, b: u64)
    requires
        is_finite(a),
        is_finite(b),
    ensures
        at_least_as_large(a, b) <==> absolute_value(a) >= absolute_value(b),
{
    if magnitude(a) < magnitude(b) {
        lemma_strictly_increasing(a, b);
    } else if magnitude(b) < magnitude(a) {
        lemma_strictly_increasing(b, a);
    }
}

/// An infinity is at least as large as every number, and a finite number
/// is at least as large as no infinity.
pub proof fn lemma_infinity_on_top(a: u64, b: u64)
    requires
        is_infinite(a),
        !is_nan(b),
    ensures
        at_least_as_large(a, b),
        is_finite(b) ==> !at_least_as_large(b, a),
{
}

/// Finite patterns are equal as numbers exactly when they encode the same
/// value: the same pattern, or the two zeros.
pub proof fn lemma_same_number_same_value(a: u64, b: u64)
    requires
        is_finite(a),
        is_finite(b),
    ensures
        same_number(a, b) <==> value(a) == value(b),
{
    let zero: u64 = 0;
    if magnitude(a) < magnitude(b) {
        lemma_strictly_increasing(a, b);
    } else if magnitude(b) < magnitude(a) {
        lemma_strictly_increasing(b, a);
    }
    if magnitude(a) > 0 {
        lemma_strictly_increasing(zero, a);
    }
    if magnitude(b) > 0 {
        lemma_strictly_increasing(zero, b);
    }
}

/// Negating a finite pattern negates the value it encodes.
pub proof fn lemma_negated_value(a: u64)
    requires
        is_finite(a),
    ensures
        is_finite(negated(a)),
        value(negated(a)) == -value(a),
        negated(negated(a)) == a,
{
}

} // verus!
