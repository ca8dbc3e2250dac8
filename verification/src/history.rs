//! Many additions in a row: what the running sum and the recorded losses
//! amount to together.
use vstd::prelude::*;
use crate::arith::{gives, Op};
use crate::compensated::{lemma_step_keeps_the_loss, recovers_loss, Neumaier};
use crate::magnitude::{is_finite, value};

verus! {

/// Whether `states` is a history of adding `values` one after another:
/// one state more than values, each value leading from its state to the
/// next.
pub open spec fn is_history<F: Fn(Op, u64, u64) -> u64>(
    unit: &F,
    states: Seq<Neumaier>,
    values: Seq<u64>,
) -> bool {
    &&& states.len() == values.len() + 1
    &&& forall|i: int|
        0 <= i < values.len() ==> (#[trigger] states[i]).steps_to(unit, values[i], states[i + 1])
}

/// Whether every sum in the history and every value added is finite.
pub open spec fn stays_finite(states: Seq<Neumaier>, values: Seq<u64>) -> bool {
    &&& forall|i: int| 0 <= i < states.len() ==> is_finite((#[trigger] states[i]).sum)
    &&& forall|i: int| 0 <= i < values.len() ==> is_finite(#[trigger] values[i])
}

/// The true sum of the numbers that the patterns encode, in units of
/// 2^-1074.
pub open spec fn true_sum(patterns: Seq<u64>) -> int
    decreases patterns.len(),
{
    if patterns.len() == 0 {
        0
    } else {
        true_sum(patterns.drop_last()) + value(patterns.last())
    }
}

/// Whether `losses` are what the steps of the history added to the
/// correction, one finite loss per step.
pub open spec fn are_losses<F: Fn(Op, u64, u64) -> u64>(
    unit: &F,
    states: Seq<Neumaier>,
    losses: Seq<u64>,
) -> bool {
    &&& states.len() == losses.len() + 1
    &&& forall|i: int|
        0 <= i < losses.len() ==> is_finite(#[trigger] losses[i]) && gives(
            unit,
            Op::Add,
            states[i].correction,
            losses[i],
            states[i + 1].correction,
        )
}

/// Under a unit that recovers what a rounded sum loses, and while the sums
/// stay finite, nothing is lost however many values are added: the last
/// running sum and the losses handed to the correction make up exactly the
/// first running sum and all the values. The total is off only by how the
/// correction rounds when it adds those losses up.
pub proof fn lemma_nothing_lost<F: Fn(Op, u64, u64) -> u64>(
    unit: &F,
    states: Seq<Neumaier>,
    values: Seq<u64>,
)
    requires
        recovers_loss(unit),
        is_history(unit, states, values),
        stays_finite(states, values),
    ensures
        exists|losses: Seq<u64>| #[trigger]
            are_losses(unit, states, losses) && value(states.last().sum) + true_sum(losses)
                == value(states[0].sum) + true_sum(values),
    decreases values.len(),
{
    if values.len() == 0 {
        let none = Seq::<u64>::empty();
        assert(are_losses(unit, states, none));
        assert(value(states.last().sum) + true_sum(none) == value(states[0].sum) + true_sum(
            values,
        ));
    } else {
        let n = values.len() as int;
        let earlier_states = states.drop_last();
        let earlier_values = values.drop_last();
        assert forall|i: int| 0 <= i < earlier_values.len() implies (
        #[trigger] earlier_states[i]).steps_to(unit, earlier_values[i], earlier_states[i + 1]) by {
            assert(states[i].steps_to(unit, values[i], states[i + 1]));
        }
        assert forall|i: int| 0 <= i < earlier_states.len() implies is_finite(
            (#[trigger] earlier_states[i]).sum,
        ) by {
            assert(is_finite(states[i].sum));
        }
        assert forall|i: int| 0 <= i < earlier_values.len() implies is_finite(
            #[trigger] earlier_values[i],
        ) by {
            assert(is_finite(values[i]));
        }
        lemma_nothing_lost(unit, earlier_states, earlier_values);
        let earlier_losses = choose|losses: Seq<u64>| #[trigger]
            are_losses(unit, earlier_states, losses) && value(earlier_states.last().sum)
                + true_sum(losses) == value(earlier_states[0].sum) + true_sum(earlier_values);
        assert(states[n - 1].steps_to(unit, values[n - 1], states[n]));
        assert(is_finite(states[n - 1].sum) && is_finite(states[n].sum) && is_finite(
            values[n - 1],
        ));
        lemma_step_keeps_the_loss(states[n - 1], unit, values[n - 1], states[n]);
        let loss = choose|loss: u64|
            {
                &&& is_finite(loss)
                &&& #[trigger] gives(
                    unit,
                    Op::Add,
                    states[n - 1].correction,
                    loss,
                    states[n].correction,
                )
                &&& value(states[n].sum) + value(loss) == value(states[n - 1].sum) + value(
                    values[n - 1],
                )
            };
        let losses = earlier_losses.push(loss);
        assert(losses.drop_last() =~= earlier_losses);
        assert(are_losses(unit, states, losses)) by {
            assert forall|i: int| 0 <= i < losses.len() implies is_finite(#[trigger] losses[i])
                && gives(unit, Op::Add, states[i].correction, losses[i], states[i + 1].correction) by {
                if i < n - 1 {
                    assert(losses[i] == earlier_losses[i]);
                    assert(states[i] == earlier_states[i]);
                    assert(states[i + 1] == earlier_states[i + 1]);
                }
            }
        }
        assert(earlier_states.last() == states[n - 1]);
        assert(earlier_states[0] == states[0]);
        assert(true_sum(losses) == true_sum(earlier_losses) + value(loss));
        assert(true_sum(values) == true_sum(earlier_values) + value(values[n - 1]));
    }
}

} // verus!
