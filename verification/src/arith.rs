//! The arithmetic unit: rounded binary64 arithmetic, which the host supplies.
//!
//! Nothing here rounds. Sums, differences, products and square roots of
//! patterns are asked of a unit, and every contract that involves one is
//! stated over what the unit answers.
use vstd::prelude::*;

verus! {

/// A rounded operation on two binary64 patterns.
#[derive(Debug, Clone, Copy)]
pub enum Op {
    /// The rounded sum of the two operands.
    Add,
    /// The rounded difference, first operand less second.
    Sub,
    /// The rounded product of the two operands.
    Mul,
    /// The rounded square root of the first operand; the second is not read.
    Sqrt,
}

/// Whether the unit answers every request.
pub open spec fn answers_all<F: Fn(Op, u64, u64) -> u64>(unit: &F) -> bool {
    forall|op: Op, a: u64, b: u64| call_requires(unit, (op, a, b))
}

/// Whether `r` is an answer of the unit to `op` on `a` and `b`.
pub open spec fn gives<F: Fn(Op, u64, u64) -> u64>(unit: &F, op: Op, a: u64, b: u64, r: u64) -> bool {
    call_ensures(unit, (op, a, b), r)
}

} // verus!
