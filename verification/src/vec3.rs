//! The plain 3D vector and its 24-byte snapshot layout.
use vstd::prelude::*;
use crate::arith::{answers_all, gives, Op};
use crate::binary64::{from_le, is_nan, le_bytes, negated, same_number, ZERO_BITS};
use crate::binary64::{lemma_decode_encode, lemma_encode_decode};

verus! {

/// A 3D vector whose components are binary64 bit patterns.
///
/// The pattern, not a rounded rendering of it, is what a snapshot stores and
/// what determinism is judged by.
#[derive(Debug, Clone, Copy)]
pub struct Vec3 {
    pub x: u64,
    pub y: u64,
    pub z: u64,
}

impl Vec3 {
    /// The zero vector: positive zero on every axis.
    pub open spec fn spec_zero() -> Vec3 {
        Vec3 { x: ZERO_BITS, y: ZERO_BITS, z: ZERO_BITS }
    }

    /// The zero vector: positive zero on every axis.
    #[verifier::when_used_as_spec(spec_zero)]
    pub fn zero() -> (v: Vec3)
        ensures
            v == Vec3::spec_zero(),
    {
        Vec3 { x: ZERO_BITS, y: ZERO_BITS, z: ZERO_BITS }
    }

    /// The 24 bytes that stand for the vector: the little-endian bytes of
    /// x, then of y, then of z.
    pub open spec fn encoding(self) -> Seq<u8> {
        le_bytes(self.x) + le_bytes(self.y) + le_bytes(self.z)
    }

    /// The vector that 24 bytes stand for.
    pub open spec fn decoding(bytes: Seq<u8>) -> Vec3
        recommends
            bytes.len() == 24,
    {
        Vec3 {
            x: from_le(bytes.subrange(0, 8)),
            y: from_le(bytes.subrange(8, 16)),
            z: from_le(bytes.subrange(16, 24)),
        }
    }

    /// Whether some component is a NaN.
    pub open spec fn has_nan(self) -> bool {
        is_nan(self.x) || is_nan(self.y) || is_nan(self.z)
    }

    /// Equality as numbers, component by component: a NaN anywhere makes two
    /// vectors unequal, and the two zeros are equal.
    pub open spec fn same_numbers(self, other: Vec3) -> bool {
        &&& same_number(self.x, other.x)
        &&& same_number(self.y, other.y)
        &&& same_number(self.z, other.z)
    }

    /// The vector with the sign of every component flipped.
    pub open spec fn negation(self) -> Vec3 {
        Vec3 { x: negated(self.x), y: negated(self.y), z: negated(self.z) }
    }

    /// Whether `r` can come out as the dot product of `self` and `other`:
    /// the three products, the first two summed, the third added last.
    pub open spec fn dot_gives<F: Fn(Op, u64, u64) -> u64>(
        self,
        other: Vec3,
        unit: &F,
        r: u64,
    ) -> bool {
        exists|px: u64, py: u64, pz: u64, s: u64|
            #![trigger gives(unit, Op::Mul, self.x, other.x, px), gives(unit, Op::Mul, self.y, other.y, py), gives(unit, Op::Mul, self.z, other.z, pz), gives(unit, Op::Add, px, py, s)]
            {
                &&& gives(unit, Op::Mul, self.x, other.x, px)
                &&& gives(unit, Op::Mul, self.y, other.y, py)
                &&& gives(unit, Op::Mul, self.z, other.z, pz)
                &&& gives(unit, Op::Add, px, py, s)
                &&& gives(unit, Op::Add, s, pz, r)
            }
    }

    /// Whether `r` can come out as the magnitude of `self`: the square root
    /// of a squared magnitude.
    pub open spec fn magnitude_gives<F: Fn(Op, u64, u64) -> u64>(self, unit: &F, r: u64) -> bool {
        exists|squared: u64| #[trigger]
            self.dot_gives(self, unit, squared) && gives(unit, Op::Sqrt, squared, ZERO_BITS, r)
    }

    /// Whether `r` can come out of `op` applied to `self` and `other`
    /// component by component.
    pub open spec fn each_gives<F: Fn(Op, u64, u64) -> u64>(
        self,
        op: Op,
        other: Vec3,
        unit: &F,
        r: Vec3,
    ) -> bool {
        &&& gives(unit, op, self.x, other.x, r.x)
        &&& gives(unit, op, self.y, other.y, r.y)
        &&& gives(unit, op, self.z, other.z, r.z)
    }

    /// Makes a vector from the patterns of its three components.
    pub fn new(x: u64, y: u64, z: u64) -> (v: Vec3)
        ensures
            v.x == x,
            v.y == y,
            v.z == z,
    {
        Vec3 { x, y, z }
    }

    /// Writes the vector as 24 bytes.
    pub fn to_le_bytes(&self) -> (out: [u8; 24])
        ensures
            out@ == self.encoding(),
            Vec3::decoding(out@) == *self,
    {
        let x = crate::binary64::to_le_bytes(self.x);
        let y = crate::binary64::to_le_bytes(self.y);
        let z = crate::binary64::to_le_bytes(self.z);
        let out = [
            x[0], x[1], x[2], x[3], x[4], x[5], x[6], x[7],
            y[0], y[1], y[2], y[3], y[4], y[5], y[6], y[7],
            z[0], z[1], z[2], z[3], z[4], z[5], z[6], z[7],
        ];
        assert(out@ =~= self.encoding());
        proof {
            Vec3::lemma_read_written(*self);
        }
        out
    }

    /// Reads a vector back from its 24 bytes.
    pub fn from_le_bytes(bytes: [u8; 24]) -> (v: Vec3)
        ensures
            v == Vec3::decoding(bytes@),
            v.encoding() == bytes@,
    {
        let x = [
            bytes[0], bytes[1], bytes[2], bytes[3], bytes[4], bytes[5], bytes[6], bytes[7],
        ];
        let y = [
            bytes[8], bytes[9], bytes[10], bytes[11], bytes[12], bytes[13], bytes[14], bytes[15],
        ];
        let z = [
            bytes[16], bytes[17], bytes[18], bytes[19], bytes[20], bytes[21], bytes[22], bytes[23],
        ];
        assert(x@ =~= bytes@.subrange(0, 8));
        assert(y@ =~= bytes@.subrange(8, 16));
        assert(z@ =~= bytes@.subrange(16, 24));
        proof {
            Vec3::lemma_write_read(bytes@);
        }
        Vec3 {
            x: crate::binary64::from_le_bytes(x),
            y: crate::binary64::from_le_bytes(y),
            z: crate::binary64::from_le_bytes(z),
        }
    }

    /// The dot product with `other`, in plain rounded arithmetic.
    pub fn dot<F: Fn(Op, u64, u64) -> u64>(&self, other: Vec3, unit: &F) -> (r: u64)
        requires
            answers_all(unit),
        ensures
            self.dot_gives(other, unit, r),
    {
        let px: u64 = unit(Op::Mul, self.x, other.x);
        let py: u64 = unit(Op::Mul, self.y, other.y);
        let pz: u64 = unit(Op::Mul, self.z, other.z);
        let s: u64 = unit(Op::Add, px, py);
        let r: u64 = unit(Op::Add, s, pz);
        proof {
            assert(gives(unit, Op::Mul, self.x, other.x, px));
            assert(gives(unit, Op::Mul, self.y, other.y, py));
            assert(gives(unit, Op::Mul, self.z, other.z, pz));
            assert(gives(unit, Op::Add, px, py, s));
        }
        r
    }

    /// The squared magnitude: the dot product of the vector with itself.
    pub fn magnitude_squared<F: Fn(Op, u64, u64) -> u64>(&self, unit: &F) -> (r: u64)
        requires
            answers_all(unit),
        ensures
            self.dot_gives(*self, unit, r),
    {
        self.dot(*self, unit)
    }

    /// The magnitude: the square root of the squared magnitude.
    pub fn magnitude<F: Fn(Op, u64, u64) -> u64>(&self, unit: &F) -> (r: u64)
        requires
            answers_all(unit),
        ensures
            self.magnitude_gives(unit, r),
    {
        let squared: u64 = self.magnitude_squared(unit);
        unit(Op::Sqrt, squared, ZERO_BITS)
    }

    /// The vector with every component multiplied by `scalar`.
    pub fn scale<F: Fn(Op, u64, u64) -> u64>(&self, scalar: u64, unit: &F) -> (v: Vec3)
        requires
            answers_all(unit),
        ensures
            self.each_gives(Op::Mul, Vec3 { x: scalar, y: scalar, z: scalar }, unit, v),
    {
        Vec3 {
            x: unit(Op::Mul, self.x, scalar),
            y: unit(Op::Mul, self.y, scalar),
            z: unit(Op::Mul, self.z, scalar),
        }
    }

    /// The sum of two vectors, component by component.
    pub fn add<F: Fn(Op, u64, u64) -> u64>(self, rhs: Vec3, unit: &F) -> (v: Vec3)
        requires
            answers_all(unit),
        ensures
            self.each_gives(Op::Add, rhs, unit, v),
    {
        Vec3 {
            x: unit(Op::Add, self.x, rhs.x),
            y: unit(Op::Add, self.y, rhs.y),
            z: unit(Op::Add, self.z, rhs.z),
        }
    }

    /// The difference of two vectors, component by component.
    pub fn sub<F: Fn(Op, u64, u64) -> u64>(self, rhs: Vec3, unit: &F) -> (v: Vec3)
        requires
            answers_all(unit),
        ensures
            self.each_gives(Op::Sub, rhs, unit, v),
    {
        Vec3 {
            x: unit(Op::Sub, self.x, rhs.x),
            y: unit(Op::Sub, self.y, rhs.y),
            z: unit(Op::Sub, self.z, rhs.z),
        }
    }

    /// Reading back what was written gives the same vector, bit for bit,
    /// whatever the components hold.
    pub proof fn lemma_read_written(v: Vec3)
        ensures
            v.encoding().len() == 24,
            Vec3::decoding(v.encoding()) == v,
    {
        lemma_decode_encode(v.x);
        lemma_decode_encode(v.y);
        lemma_decode_encode(v.z);
        let e = v.encoding();
        assert(e.subrange(0, 8) =~= le_bytes(v.x));
        assert(e.subrange(8, 16) =~= le_bytes(v.y));
        assert(e.subrange(16, 24) =~= le_bytes(v.z));
    }

    /// Writing what was read gives the same 24 bytes: no two buffers stand
    /// for one vector.
    pub proof fn lemma_write_read(bytes: Seq<u8>)
        requires
            bytes.len() == 24,
        ensures
            Vec3::decoding(bytes).encoding() == bytes,
    {
        lemma_encode_decode(bytes.subrange(0, 8));
        lemma_encode_decode(bytes.subrange(8, 16));
        lemma_encode_decode(bytes.subrange(16, 24));
        assert(Vec3::decoding(bytes).encoding() =~= bytes);
    }

    /// A vector without a NaN compares equal to what is read back from its
    /// own bytes.
    pub proof fn lemma_read_written_equal(v: Vec3)
        requires
            !v.has_nan(),
        ensures
            Vec3::decoding(v.encoding()).same_numbers(v),
    {
        Vec3::lemma_read_written(v);
    }
}

impl PartialEq for Vec3 {
    /// Compares component by component as numbers: a NaN anywhere makes the
    /// vectors unequal, and the two zeros are equal.
    fn eq(&self, other: &Vec3) -> (r: bool) {
        crate::binary64::equal(self.x, other.x) && crate::binary64::equal(self.y, other.y)
            && crate::binary64::equal(self.z, other.z)
    }
}

impl vstd::std_specs::cmp::PartialEqSpecImpl for Vec3 {
    open spec fn obeys_eq_spec() -> bool {
        true
    }

    open spec fn eq_spec(&self, other: &Vec3) -> bool {
        self.same_numbers(*other)
    }
}

impl Default for Vec3 {
    fn default() -> (v: Vec3)
        ensures
            v == Vec3::zero(),
    {
        Vec3::zero()
    }
}

impl core::ops::Neg for Vec3 {
    type Output = Vec3;

    /// Flips the sign of every component.
    fn neg(self) -> (v: Vec3) {
        Vec3 {
            x: crate::binary64::negate(self.x),
            y: crate::binary64::negate(self.y),
            z: crate::binary64::negate(self.z),
        }
    }
}

impl vstd::std_specs::ops::NegSpecImpl for Vec3 {
    open spec fn obeys_neg_spec() -> bool {
        true
    }

    open spec fn neg_req(self) -> bool {
        true
    }

    open spec fn neg_spec(self) -> Vec3 {
        self.negation()
    }
}

} // verus!
