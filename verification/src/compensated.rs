//! Compensated summation of one scalar.
use vstd::prelude::*;
use crate::arith::{answers_all, gives, Op};
use crate::binary64::{at_least_as_large, is_nan, ZERO_BITS};
use crate::magnitude::{absolute_value, is_finite, lemma_magnitude_order, value};

verus! {

/// Of the running sum and the incoming value, the one from which their
/// rounded sum is taken first: the running sum where it is at least as large
/// in absolute value, else the incoming value.
pub open spec fn taken_first(sum: u64, value: u64) -> u64 {
    if at_least_as_large(sum, value) {
        sum
    } else {
        value
    }
}

/// Of the running sum and the incoming value, the one that is added after
/// the other has had their rounded sum taken from it.
pub open spec fn added_after(sum: u64, value: u64) -> u64 {
    if at_least_as_large(sum, value) {
        value
    } else {
        sum
    }
}

/// The operand taken first is never the smaller one: between numbers it is
/// at least as large as the one added after, and between finite numbers its
/// absolute value is at least the other's. The rounding loss is recovered
/// from the larger operand, whichever side it came in on.
pub proof fn lemma_larger_taken_first(sum: u64, value: u64)
    requires
        !is_nan(sum),
        !is_nan(value),
    ensures
        at_least_as_large(taken_first(sum, value), added_after(sum, value)),
        is_finite(sum) && is_finite(value) ==> absolute_value(taken_first(sum, value))
            >= absolute_value(added_after(sum, value)),
{
    if is_finite(sum) && is_finite(value) {
        lemma_magnitude_order(taken_first(sum, value), added_after(sum, value));
    }
}

/// A running sum with the rounding loss of every addition kept beside it.
#[derive(Debug, Clone, Copy)]
pub struct Neumaier {
    /// The running sum, as rounded at every step.
    pub sum: u64,
    /// What the roundings of `sum` have lost so far.
    pub correction: u64,
}

impl Neumaier {
    /// Whether `next` can follow `self` when `large` and `small` are added,
    /// `large` being the one from which the new sum is taken first.
    ///
    /// The new sum is the rounded sum of the two. The new sum taken from
    /// `large`, and `small` added after, is the rounding loss, and the
    /// correction grows by it.
    pub open spec fn follows<F: Fn(Op, u64, u64) -> u64>(
        self,
        unit: &F,
        large: u64,
        small: u64,
        next: Neumaier,
    ) -> bool {
        exists|gap: u64, loss: u64|
            #![trigger gives(unit, Op::Sub, large, next.sum, gap), gives(unit, Op::Add, gap, small, loss)]
            {
                &&& gives(unit, Op::Sub, large, next.sum, gap)
                &&& gives(unit, Op::Add, gap, small, loss)
                &&& gives(unit, Op::Add, self.correction, loss, next.correction)
            }
    }

    /// Whether one addition of `value` can lead from `self` to `next`.
    ///
    /// The new sum is the rounded sum of the old one and `value`; of those
    /// two, the one at least as large in absolute value is the one from
    /// which the new sum is taken first. When neither is (a NaN is
    /// involved), `value` is.
    pub open spec fn steps_to<F: Fn(Op, u64, u64) -> u64>(
        self,
        unit: &F,
        value: u64,
        next: Neumaier,
    ) -> bool {
        &&& gives(unit, Op::Add, self.sum, value, next.sum)
        &&& self.follows(
            unit,
            taken_first(self.sum, value),
            added_after(self.sum, value),
            next,
        )
    }

    /// Starts a sum at `initial`, with nothing lost yet.
    pub fn new(initial: u64) -> (acc: Neumaier)
        ensures
            acc.sum == initial,
            acc.correction == ZERO_BITS,
    {
        Neumaier { sum: initial, correction: ZERO_BITS }
    }

    /// Adds `value` to the sum and the rounding loss to the correction.
    pub fn add<F: Fn(Op, u64, u64) -> u64>(&mut self, value: u64, unit: &F)
        requires
            answers_all(unit),
        ensures
            old(self).steps_to(unit, value, *final(self)),
    {
        let t: u64 = unit(Op::Add, self.sum, value);
        let sum_first = crate::binary64::magnitude_ge(self.sum, value);
        let large: u64 = if sum_first { self.sum } else { value };
        let small: u64 = if sum_first { value } else { self.sum };
        let gap: u64 = unit(Op::Sub, large, t);
        let loss: u64 = unit(Op::Add, gap, small);
        self.correction = unit(Op::Add, self.correction, loss);
        self.sum = t;
        proof {
            assert(gives(unit, Op::Sub, large, self.sum, gap));
            assert(gives(unit, Op::Add, gap, small, loss));
            assert(gives(unit, Op::Add, old(self).correction, loss, self.correction));
            assert(old(self).follows(unit, large, small, *self));
        }
    }

    /// The compensated total: the rounded sum of the running sum and the
    /// correction. The accumulator stays as it is.
    pub fn total<F: Fn(Op, u64, u64) -> u64>(&self, unit: &F) -> (r: u64)
        requires
            answers_all(unit),
        ensures
            gives(unit, Op::Add, self.sum, self.correction, r),
    {
        unit(Op::Add, self.sum, self.correction)
    }

    /// Puts the sum and the correction back to positive zero.
    pub fn reset(&mut self)
        ensures
            final(self).sum == ZERO_BITS,
            final(self).correction == ZERO_BITS,
    {
        self.sum = ZERO_BITS;
        self.correction = ZERO_BITS;
    }
}

/// Whether the unit recovers what a rounded sum loses, as round-to-nearest
/// binary arithmetic does short of overflow: where `large` and `small` are
/// finite with `large` at least as large, and their rounded sum `t` (asked
/// for in either order) is finite, the rounded `large - t` with `small`
/// added comes out finite and is exactly what `t` fell short by.
pub open spec fn recovers_loss<F: Fn(Op, u64, u64) -> u64>(unit: &F) -> bool {
    forall|large: u64, small: u64, t: u64, gap: u64, loss: u64|
        #![trigger gives(unit, Op::Sub, large, t, gap), gives(unit, Op::Add, gap, small, loss)]
        {
            &&& is_finite(large)
            &&& is_finite(small)
            &&& is_finite(t)
            &&& at_least_as_large(large, small)
            &&& (gives(unit, Op::Add, large, small, t) || gives(unit, Op::Add, small, large, t))
            &&& gives(unit, Op::Sub, large, t, gap)
            &&& gives(unit, Op::Add, gap, small, loss)
        } ==> is_finite(loss) && value(t) + value(loss) == value(large) + value(small)
}

/// Under a unit that recovers what a rounded sum loses, a step between
/// finite sums loses nothing before the correction is rounded: what the step
/// adds to the correction is exactly what the new sum fell short by.
pub proof fn lemma_step_keeps_the_loss<F: Fn(Op, u64, u64) -> u64>(
    from: Neumaier,
    unit: &F,
    incoming: u64,
    next: Neumaier,
)
    requires
        recovers_loss(unit),
        from.steps_to(unit, incoming, next),
        is_finite(from.sum),
        is_finite(incoming),
        is_finite(next.sum),
    ensures
        exists|loss: u64|
            {
                &&& is_finite(loss)
                &&& #[trigger] gives(unit, Op::Add, from.correction, loss, next.correction)
                &&& value(next.sum) + value(loss) == value(from.sum) + value(incoming)
            },
{
    lemma_larger_taken_first(from.sum, incoming);
    let large = taken_first(from.sum, incoming);
    let small = added_after(from.sum, incoming);
    assert(from.follows(unit, large, small, next));
    let (gap, loss) = choose|gap: u64, loss: u64|
        #![trigger gives(unit, Op::Sub, large, next.sum, gap), gives(unit, Op::Add, gap, small, loss)]
        {
            &&& gives(unit, Op::Sub, large, next.sum, gap)
            &&& gives(unit, Op::Add, gap, small, loss)
            &&& gives(unit, Op::Add, from.correction, loss, next.correction)
        };
    assert(gives(unit, Op::Sub, large, next.sum, gap) && gives(unit, Op::Add, gap, small, loss));
    assert(is_finite(loss));
    assert(gives(unit, Op::Add, from.correction, loss, next.correction));
}

impl Default for Neumaier {
    /// The sum that has taken nothing in.
    fn default() -> (acc: Neumaier)
        ensures
            acc.sum == ZERO_BITS,
            acc.correction == ZERO_BITS,
    {
        Neumaier { sum: ZERO_BITS, correction: ZERO_BITS }
    }
}

} // verus!
