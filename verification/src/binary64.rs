//! IEEE-754 binary64 values as 64-bit patterns: layout in bytes, and the
//! operations that are exact on the pattern.
use vstd::prelude::*;

verus! {

/// The sign bit of a binary64 pattern.
pub const SIGN_BIT: u64 = 0x8000_0000_0000_0000u64;

/// Every bit of a binary64 pattern but the sign.
pub const MAGNITUDE_BITS: u64 = 0x7fff_ffff_ffff_ffffu64;

/// The magnitude bits of positive infinity: exponent all ones, fraction zero.
pub const INFINITY_BITS: u64 = 0x7ff0_0000_0000_0000u64;

/// The pattern of positive zero.
pub const ZERO_BITS: u64 = 0u64;

/// The pattern without its sign: what the encoded number's absolute value
/// is written as.
pub open spec fn magnitude(bits: u64) -> u64 {
    (bits % 0x8000_0000_0000_0000) as u64
}

/// Whether the sign bit of the pattern is set.
pub open spec fn sign(bits: u64) -> bool {
    bits >= 0x8000_0000_0000_0000
}

/// Whether the pattern encodes no number: exponent all ones, fraction not zero.
pub open spec fn is_nan(bits: u64) -> bool {
    magnitude(bits) > INFINITY_BITS
}

/// Whether the pattern encodes one of the two zeros.
pub open spec fn is_zero(bits: u64) -> bool {
    magnitude(bits) == 0
}

/// Numeric equality of two patterns: a NaN equals nothing, itself included;
/// the two zeros are equal; any other two are equal when they are the same
/// pattern.
pub open spec fn same_number(a: u64, b: u64) -> bool {
    &&& !is_nan(a)
    &&& !is_nan(b)
    &&& (a == b || (is_zero(a) && is_zero(b)))
}

/// The pattern with the opposite sign and the same magnitude.
pub open spec fn negated(bits: u64) -> u64 {
    if sign(bits) {
        (bits - 0x8000_0000_0000_0000) as u64
    } else {
        (bits + 0x8000_0000_0000_0000) as u64
    }
}

/// Whether `a` is at least as large in absolute value as `b`. Patterns
/// without the sign order as the absolute values they encode, infinity
/// above every finite one (`magnitude::lemma_magnitude_order` proves it);
/// with a NaN on either side the answer is no.
pub open spec fn at_least_as_large(a: u64, b: u64) -> bool {
    &&& !is_nan(a)
    &&& !is_nan(b)
    &&& magnitude(a) >= magnitude(b)
}

/// The eight little-endian bytes of a pattern: byte `i` is digit `i` of the
/// pattern written in base 256, least significant first.
pub open spec fn le_bytes(bits: u64) -> Seq<u8> {
    seq![
        (bits % 0x100) as u8,
        (bits / 0x100 % 0x100) as u8,
        (bits / 0x1_0000 % 0x100) as u8,
        (bits / 0x100_0000 % 0x100) as u8,
        (bits / 0x1_0000_0000 % 0x100) as u8,
        (bits / 0x100_0000_0000 % 0x100) as u8,
        (bits / 0x1_0000_0000_0000 % 0x100) as u8,
        (bits / 0x100_0000_0000_0000 % 0x100) as u8,
    ]
}

/// The number whose base-256 digits, least significant first, are the first
/// eight bytes of `bytes`.
pub open spec fn le_value(bytes: Seq<u8>) -> int
    recommends
        bytes.len() >= 8,
{
    bytes[0] as int + bytes[1] as int * 0x100 + bytes[2] as int * 0x1_0000 + bytes[3] as int
        * 0x100_0000 + bytes[4] as int * 0x1_0000_0000 + bytes[5] as int * 0x100_0000_0000
        + bytes[6] as int * 0x1_0000_0000_0000 + bytes[7] as int * 0x100_0000_0000_0000
}

/// The pattern that eight little-endian bytes encode.
pub open spec fn from_le(bytes: Seq<u8>) -> u64
    recommends
        bytes.len() >= 8,
{
    le_value(bytes) as u64
}

/// Eight bytes always encode a number that fits a pattern.
pub proof fn lemma_le_value_fits(bytes: Seq<u8>)
    requires
        bytes.len() >= 8,
    ensures
        0 <= le_value(bytes) <= u64::MAX,
{
}

/// The base-256 digits of a pattern are its bytes by shift and mask.
proof fn lemma_digits_by_shift(bits: u64)
    ensures
        bits % 0x100 == bits & 0xff,
        bits / 0x100 % 0x100 == (bits >> 8) & 0xff,
        bits / 0x1_0000 % 0x100 == (bits >> 16) & 0xff,
        bits / 0x100_0000 % 0x100 == (bits >> 24) & 0xff,
        bits / 0x1_0000_0000 % 0x100 == (bits >> 32) & 0xff,
        bits / 0x100_0000_0000 % 0x100 == (bits >> 40) & 0xff,
        bits / 0x1_0000_0000_0000 % 0x100 == (bits >> 48) & 0xff,
        bits / 0x100_0000_0000_0000 % 0x100 == (bits >> 56) & 0xff,
{
    assert(bits & 0xff == bits % 0x100) by (bit_vector);
    assert((bits >> 8) & 0xff == bits / 0x100 % 0x100) by (bit_vector);
    assert((bits >> 16) & 0xff == bits / 0x1_0000 % 0x100) by (bit_vector);
    assert((bits >> 24) & 0xff == bits / 0x100_0000 % 0x100) by (bit_vector);
    assert((bits >> 32) & 0xff == bits / 0x1_0000_0000 % 0x100) by (bit_vector);
    assert((bits >> 40) & 0xff == bits / 0x100_0000_0000 % 0x100) by (bit_vector);
    assert((bits >> 48) & 0xff == bits / 0x1_0000_0000_0000 % 0x100) by (bit_vector);
    assert((bits >> 56) & 0xff == bits / 0x100_0000_0000_0000 % 0x100) by (bit_vector);
}

/// Eight bytes, each shifted to its place, join without carry: the bitwise
/// join is the base-256 sum, and each byte can be read back from it.
proof fn lemma_join(b0: u64, b1: u64, b2: u64, b3: u64, b4: u64, b5: u64, b6: u64, b7: u64)
    by (bit_vector)
    requires
        b0 < 0x100,
        b1 < 0x100,
        b2 < 0x100,
        b3 < 0x100,
        b4 < 0x100,
        b5 < 0x100,
        b6 < 0x100,
        b7 < 0x100,
    ensures
        (b0 | b1 << 8 | b2 << 16 | b3 << 24 | b4 << 32 | b5 << 40 | b6 << 48 | b7 << 56) == b0 + b1
            * 0x100 + b2 * 0x1_0000 + b3 * 0x100_0000 + b4 * 0x1_0000_0000 + b5 * 0x100_0000_0000
            + b6 * 0x1_0000_0000_0000 + b7 * 0x100_0000_0000_0000,
        (b0 | b1 << 8 | b2 << 16 | b3 << 24 | b4 << 32 | b5 << 40 | b6 << 48 | b7 << 56) & 0xff
            == b0,
        ((b0 | b1 << 8 | b2 << 16 | b3 << 24 | b4 << 32 | b5 << 40 | b6 << 48 | b7 << 56) >> 8)
            & 0xff == b1,
        ((b0 | b1 << 8 | b2 << 16 | b3 << 24 | b4 << 32 | b5 << 40 | b6 << 48 | b7 << 56) >> 16)
            & 0xff == b2,
        ((b0 | b1 << 8 | b2 << 16 | b3 << 24 | b4 << 32 | b5 << 40 | b6 << 48 | b7 << 56) >> 24)
            & 0xff == b3,
        ((b0 | b1 << 8 | b2 << 16 | b3 << 24 | b4 << 32 | b5 << 40 | b6 << 48 | b7 << 56) >> 32)
            & 0xff == b4,
        ((b0 | b1 << 8 | b2 << 16 | b3 << 24 | b4 << 32 | b5 << 40 | b6 << 48 | b7 << 56) >> 40)
            & 0xff == b5,
        ((b0 | b1 << 8 | b2 << 16 | b3 << 24 | b4 << 32 | b5 << 40 | b6 << 48 | b7 << 56) >> 48)
            & 0xff == b6,
        ((b0 | b1 << 8 | b2 << 16 | b3 << 24 | b4 << 32 | b5 << 40 | b6 << 48 | b7 << 56) >> 56)
            & 0xff == b7,
{
}

/// A pattern is the join of its own bytes.
proof fn lemma_split(bits: u64)
    by (bit_vector)
    ensures
        bits == ((bits & 0xff) | ((bits >> 8) & 0xff) << 8 | ((bits >> 16) & 0xff) << 16 | ((bits
            >> 24) & 0xff) << 24 | ((bits >> 32) & 0xff) << 32 | ((bits >> 40) & 0xff) << 40 | ((bits
            >> 48) & 0xff) << 48 | ((bits >> 56) & 0xff) << 56),
        bits & 0xff < 0x100,
        (bits >> 8) & 0xff < 0x100,
        (bits >> 16) & 0xff < 0x100,
        (bits >> 24) & 0xff < 0x100,
        (bits >> 32) & 0xff < 0x100,
        (bits >> 40) & 0xff < 0x100,
        (bits >> 48) & 0xff < 0x100,
        (bits >> 56) & 0xff < 0x100,
{
}

/// Decoding the bytes of a pattern gives the pattern back.
pub proof fn lemma_decode_encode(bits: u64)
    ensures
        le_bytes(bits).len() == 8,
        from_le(le_bytes(bits)) == bits,
{
    lemma_digits_by_shift(bits);
    lemma_split(bits);
    lemma_join(
        bits & 0xff,
        (bits >> 8) & 0xff,
        (bits >> 16) & 0xff,
        (bits >> 24) & 0xff,
        (bits >> 32) & 0xff,
        (bits >> 40) & 0xff,
        (bits >> 48) & 0xff,
        (bits >> 56) & 0xff,
    );
}

/// Encoding the pattern that eight bytes decode to gives the bytes back.
pub proof fn lemma_encode_decode(bytes: Seq<u8>)
    requires
        bytes.len() == 8,
    ensures
        le_bytes(from_le(bytes)) == bytes,
{
    lemma_join(
        bytes[0] as u64,
        bytes[1] as u64,
        bytes[2] as u64,
        bytes[3] as u64,
        bytes[4] as u64,
        bytes[5] as u64,
        bytes[6] as u64,
        bytes[7] as u64,
    );
    lemma_digits_by_shift(from_le(bytes));
    assert(le_bytes(from_le(bytes)) =~= bytes);
}

/// Splits a pattern into its eight little-endian bytes.
pub fn to_le_bytes(bits: u64) -> (out: [u8; 8])
    ensures
        out@ == le_bytes(bits),
{
    let b0: u8 = (bits & 0xff) as u8;
    let b1: u8 = ((bits >> 8) & 0xff) as u8;
    let b2: u8 = ((bits >> 16) & 0xff) as u8;
    let b3: u8 = ((bits >> 24) & 0xff) as u8;
    let b4: u8 = ((bits >> 32) & 0xff) as u8;
    let b5: u8 = ((bits >> 40) & 0xff) as u8;
    let b6: u8 = ((bits >> 48) & 0xff) as u8;
    let b7: u8 = ((bits >> 56) & 0xff) as u8;
    proof {
        lemma_digits_by_shift(bits);
    }
    let out = [b0, b1, b2, b3, b4, b5, b6, b7];
    assert(out@ =~= le_bytes(bits));
    out
}

/// Joins eight little-endian bytes into a pattern.
pub fn from_le_bytes(bytes: [u8; 8]) -> (bits: u64)
    ensures
        bits == from_le(bytes@),
{
    let b0: u64 = bytes[0] as u64;
    let b1: u64 = bytes[1] as u64;
    let b2: u64 = bytes[2] as u64;
    let b3: u64 = bytes[3] as u64;
    let b4: u64 = bytes[4] as u64;
    let b5: u64 = bytes[5] as u64;
    let b6: u64 = bytes[6] as u64;
    let b7: u64 = bytes[7] as u64;
    proof {
        lemma_join(b0, b1, b2, b3, b4, b5, b6, b7);
    }
    b0 | b1 << 8 | b2 << 16 | b3 << 24 | b4 << 32 | b5 << 40 | b6 << 48 | b7 << 56
}

/// Clearing the sign bit leaves the pattern's remainder below the sign's
/// place value.
proof fn lemma_magnitude_by_mask(bits: u64)
    by (bit_vector)
    ensures
        bits & 0x7fff_ffff_ffff_ffff == bits % 0x8000_0000_0000_0000,
{
}

/// Flipping the sign bit adds its place value where it was clear and takes
/// it away where it was set.
proof fn lemma_negated_by_flip(bits: u64)
    by (bit_vector)
    ensures
        bits < 0x8000_0000_0000_0000 ==> bits ^ 0x8000_0000_0000_0000 == bits
            + 0x8000_0000_0000_0000,
        bits >= 0x8000_0000_0000_0000 ==> bits ^ 0x8000_0000_0000_0000 == bits
            - 0x8000_0000_0000_0000,
{
}

/// Compares two patterns as the numbers they encode.
pub fn equal(a: u64, b: u64) -> (r: bool)
    ensures
        r == same_number(a, b),
{
    proof {
        lemma_magnitude_by_mask(a);
        lemma_magnitude_by_mask(b);
    }
    let ma: u64 = a & MAGNITUDE_BITS;
    let mb: u64 = b & MAGNITUDE_BITS;
    ma <= INFINITY_BITS && mb <= INFINITY_BITS && (a == b || (ma == 0 && mb == 0))
}

/// Flips the sign of the pattern; every other bit stays, a NaN's too.
pub fn negate(bits: u64) -> (r: u64)
    ensures
        r == negated(bits),
        magnitude(r) == magnitude(bits),
        sign(r) != sign(bits),
{
    proof {
        lemma_negated_by_flip(bits);
    }
    bits ^ SIGN_BIT
}

/// Decides whether `a` is at least as large in absolute value as `b`.
///
/// Compensated summation asks this of the running sum and the incoming
/// value: the rounding loss of their sum can be recovered exactly only when
/// the larger of the two is subtracted first.
pub fn magnitude_ge(a: u64, b: u64) -> (r: bool)
    ensures
        r == at_least_as_large(a, b),
{
    proof {
        lemma_magnitude_by_mask(a);
        lemma_magnitude_by_mask(b);
    }
    let ma: u64 = a & MAGNITUDE_BITS;
    let mb: u64 = b & MAGNITUDE_BITS;
    ma <= INFINITY_BITS && mb <= INFINITY_BITS && ma >= mb
}

} // verus!
