//! The vector accumulator: one compensated sum per axis, no axis knowing of
//! another.
use vstd::prelude::*;
use crate::binary64::ZERO_BITS;
use crate::arith::{answers_all, gives, Op};
use crate::compensated::Neumaier;
use crate::vec3::Vec3;

verus! {

/// What an accumulator holds: the compensated sum of each axis.
pub ghost struct Axes {
    pub x: Neumaier,
    pub y: Neumaier,
    pub z: Neumaier,
}

/// The compensated sum that holds `initial` and has lost nothing.
pub open spec fn seeded(initial: u64) -> Neumaier {
    Neumaier { sum: initial, correction: ZERO_BITS }
}

/// Whether one addition of the rounded product of `component` and `scalar`
/// can lead from `from` to `next`. The product is rounded once, as any
/// product is: only its addition is compensated.
pub open spec fn steps_scaled_to<F: Fn(Op, u64, u64) -> u64>(
    from: Neumaier,
    unit: &F,
    component: u64,
    scalar: u64,
    next: Neumaier,
) -> bool {
    exists|product: u64| #[trigger]
        gives(unit, Op::Mul, component, scalar, product) && from.steps_to(unit, product, next)
}

/// Accumulates 3D vectors with compensated summation on every axis.
#[derive(Debug)]
pub struct Vec3Accumulator {
    x: Neumaier,
    y: Neumaier,
    z: Neumaier,
}

impl View for Vec3Accumulator {
    type V = Axes;

    closed spec fn view(&self) -> Axes {
        Axes { x: self.x, y: self.y, z: self.z }
    }
}

impl Vec3Accumulator {
    /// The accumulator that has taken nothing in: positive zero in every sum
    /// and every correction.
    pub closed spec fn fresh() -> Vec3Accumulator {
        Vec3Accumulator { x: seeded(ZERO_BITS), y: seeded(ZERO_BITS), z: seeded(ZERO_BITS) }
    }

    /// Whether adding `vec` can lead from `self` to `next`: each axis takes
    /// one step with its own component.
    pub open spec fn adds_to<F: Fn(Op, u64, u64) -> u64>(
        self,
        unit: &F,
        vec: Vec3,
        next: Vec3Accumulator,
    ) -> bool {
        &&& self@.x.steps_to(unit, vec.x, next@.x)
        &&& self@.y.steps_to(unit, vec.y, next@.y)
        &&& self@.z.steps_to(unit, vec.z, next@.z)
    }

    /// Whether adding `vec` scaled by `scalar` can lead from `self` to `next`.
    pub open spec fn adds_scaled_to<F: Fn(Op, u64, u64) -> u64>(
        self,
        unit: &F,
        vec: Vec3,
        scalar: u64,
        next: Vec3Accumulator,
    ) -> bool {
        &&& steps_scaled_to(self@.x, unit, vec.x, scalar, next@.x)
        &&& steps_scaled_to(self@.y, unit, vec.y, scalar, next@.y)
        &&& steps_scaled_to(self@.z, unit, vec.z, scalar, next@.z)
    }

    /// Whether `v` can come out when `self` is resolved: on each axis the
    /// rounded sum of the running sum and the correction.
    pub open spec fn resolves_to<F: Fn(Op, u64, u64) -> u64>(self, unit: &F, v: Vec3) -> bool {
        &&& gives(unit, Op::Add, self@.x.sum, self@.x.correction, v.x)
        &&& gives(unit, Op::Add, self@.y.sum, self@.y.correction, v.y)
        &&& gives(unit, Op::Add, self@.z.sum, self@.z.correction, v.z)
    }

    /// Makes an accumulator that has taken nothing in.
    pub fn new() -> (acc: Vec3Accumulator)
        ensures
            acc == Vec3Accumulator::fresh(),
            acc@ == (Axes { x: seeded(ZERO_BITS), y: seeded(ZERO_BITS), z: seeded(ZERO_BITS) }),
    {
        Vec3Accumulator {
            x: Neumaier::new(ZERO_BITS),
            y: Neumaier::new(ZERO_BITS),
            z: Neumaier::new(ZERO_BITS),
        }
    }

    /// Makes an accumulator that starts at `initial`, with nothing lost yet.
    pub fn with_initial(initial: Vec3) -> (acc: Vec3Accumulator)
        ensures
            acc@ == (Axes { x: seeded(initial.x), y: seeded(initial.y), z: seeded(initial.z) }),
    {
        Vec3Accumulator {
            x: Neumaier::new(initial.x),
            y: Neumaier::new(initial.y),
            z: Neumaier::new(initial.z),
        }
    }

    /// Adds a vector: each component goes into the sum of its own axis.
    pub fn add<F: Fn(Op, u64, u64) -> u64>(&mut self, vec: Vec3, unit: &F)
        requires
            answers_all(unit),
        ensures
            old(self).adds_to(unit, vec, *final(self)),
    {
        self.x.add(vec.x, unit);
        self.y.add(vec.y, unit);
        self.z.add(vec.z, unit);
    }

    /// Adds a vector scaled by `scalar`. Each product is rounded once by the
    /// unit, uncompensated; what is compensated is its addition.
    pub fn add_scaled<F: Fn(Op, u64, u64) -> u64>(&mut self, vec: Vec3, scalar: u64, unit: &F)
        requires
            answers_all(unit),
        ensures
            old(self).adds_scaled_to(unit, vec, scalar, *final(self)),
    {
        let px: u64 = unit(Op::Mul, vec.x, scalar);
        self.x.add(px, unit);
        let py: u64 = unit(Op::Mul, vec.y, scalar);
        self.y.add(py, unit);
        let pz: u64 = unit(Op::Mul, vec.z, scalar);
        self.z.add(pz, unit);
        proof {
            assert(gives(unit, Op::Mul, vec.x, scalar, px));
            assert(gives(unit, Op::Mul, vec.y, scalar, py));
            assert(gives(unit, Op::Mul, vec.z, scalar, pz));
        }
    }

    /// Reads the compensated total of every axis. The accumulator stays as
    /// it is, so the call can be repeated.
    pub fn resolve<F: Fn(Op, u64, u64) -> u64>(&self, unit: &F) -> (v: Vec3)
        requires
            answers_all(unit),
        ensures
            self.resolves_to(unit, v),
    {
        Vec3 { x: self.x.total(unit), y: self.y.total(unit), z: self.z.total(unit) }
    }

    /// Puts the accumulator back to what `new` makes, so that whatever
    /// follows goes as it would from there.
    pub fn reset(&mut self)
        ensures
            *final(self) == Vec3Accumulator::fresh(),
            final(self)@ == (Axes { x: seeded(ZERO_BITS), y: seeded(ZERO_BITS), z: seeded(ZERO_BITS) }),
    {
        self.x.reset();
        self.y.reset();
        self.z.reset();
    }

    /// What is resolved from an accumulator that has taken nothing in is the
    /// zero vector, under any unit that adds positive zero to positive zero
    /// exactly.
    pub proof fn lemma_fresh_resolves_to_zero<F: Fn(Op, u64, u64) -> u64>(unit: &F, v: Vec3)
        requires
            forall|r: u64| #[trigger] gives(unit, Op::Add, ZERO_BITS, ZERO_BITS, r) ==> r == ZERO_BITS,
            Vec3Accumulator::fresh().resolves_to(unit, v),
        ensures
            v == Vec3::zero(),
    {
    }

    /// After a reset an accumulator goes on as a new one does: the two are
    /// the same value, so one addition leads from both to the same
    /// accumulators, and the same vectors are resolved from both.
    pub proof fn lemma_reset_as_new<F: Fn(Op, u64, u64) -> u64>(
        after_reset: Vec3Accumulator,
        made_new: Vec3Accumulator,
        unit: &F,
        vec: Vec3,
        next: Vec3Accumulator,
        v: Vec3,
    )
        requires
            after_reset == Vec3Accumulator::fresh(),
            made_new == Vec3Accumulator::fresh(),
        ensures
            after_reset == made_new,
            after_reset.adds_to(unit, vec, next) == made_new.adds_to(unit, vec, next),
            after_reset.resolves_to(unit, v) == made_new.resolves_to(unit, v),
    {
    }
}

impl Clone for Vec3Accumulator {
    fn clone(&self) -> (acc: Vec3Accumulator)
        ensures
            acc == *self,
    {
        Vec3Accumulator { x: self.x, y: self.y, z: self.z }
    }
}

impl Default for Vec3Accumulator {
    fn default() -> (acc: Vec3Accumulator)
        ensures
            acc == Vec3Accumulator::fresh(),
    {
        Vec3Accumulator::new()
    }
}

} // verus!
