//! The iteration budget: the cap on the number of steps the escape-time
//! evaluation may take per pixel. It is at least 1 and changes by saturating
//! steps: a step that would leave the valid range has no effect.

use vstd::prelude::*;

verus! {

/// The budget a session starts with.
pub const DEFAULT_BUDGET: usize = 100;

/// The step of a plain key press.
pub const SINGLE_STEP: usize = 1;

/// The step of a key press with the modifier held.
pub const BATCH_STEP: usize = 10;

/// The batch step with the modifier, the single step without.
pub open spec fn spec_step_size(fast: bool) -> usize {
    if fast { BATCH_STEP } else { SINGLE_STEP }
}

/// The sum where it fits the integer range, the budget itself where not.
pub open spec fn spec_increase(budget: usize, step: usize) -> usize {
    if budget + step <= usize::MAX { (budget + step) as usize } else { budget }
}

/// The difference where it is at least 1, the budget itself where not.
pub open spec fn spec_decrease(budget: usize, step: usize) -> usize {
    if budget > step { (budget - step) as usize } else { budget }
}

/// The step by which the budget changes: the batch step while the modifier
/// is held, the single step otherwise.
pub fn step_size(fast: bool) -> (step: usize)
    ensures
        step == spec_step_size(fast),
{
    if fast { BATCH_STEP } else { SINGLE_STEP }
}

/// Raises the budget by `step`, or leaves it as it is where the sum would
/// not fit the integer range.
pub fn increase(budget: usize, step: usize) -> (raised: usize)
    ensures
        raised == spec_increase(budget, step),
{
    if budget <= usize::MAX - step { budget + step } else { budget }
}

/// Lowers the budget by `step`, or leaves it as it is where the difference
/// would be below 1.
pub fn decrease(budget: usize, step: usize) -> (lowered: usize)
    ensures
        lowered == spec_decrease(budget, step),
{
    if budget > step { budget - step } else { budget }
}

/// A budget of at least 1 stays at least 1 under both operations, for any
/// step; raising never lowers it and lowering never raises it.
pub proof fn lemma_budget_stays_positive(budget: usize, step: usize)
    requires
        budget >= 1,
    ensures
        spec_increase(budget, step) >= budget,
        1 <= spec_decrease(budget, step) <= budget,
{
}

/// Lowering by a step undoes raising by the same step, wherever the raise
/// took effect.
pub proof fn lemma_decrease_undoes_increase(budget: usize, step: usize)
    requires
        budget >= 1,
        budget + step <= usize::MAX,
    ensures
        spec_decrease(spec_increase(budget, step), step) == budget,
{
}

} // verus!
