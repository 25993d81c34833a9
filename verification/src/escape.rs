//! The escape-time classification: whether the iteration of a step function
//! from a starting state uses up a whole budget of steps without escaping.
//!
//! The state and the step belong to the caller. The step takes a state and
//! gives the next one, or `None` where the state has escaped. What is fixed
//! here is the counting: a point is a member exactly if the number of steps
//! performed equals the budget.

use vstd::prelude::*;

verus! {

/// `orbit` is a run of the iteration: it begins with `start` and each later
/// state is a result of the step on the state before it.
pub open spec fn is_orbit<S, F: Fn(S) -> Option<S>>(step: F, start: S, orbit: Seq<S>) -> bool {
    &&& orbit.len() >= 1
    &&& orbit[0] == start
    &&& forall|i: int|
        0 <= i < orbit.len() - 1 ==> call_ensures(step, (#[trigger] orbit[i],), Some(orbit[i + 1]))
}

/// The iteration from `start` may perform exactly `steps` steps under the
/// budget: there is a run of that many steps, it does not exceed the budget,
/// and if it stops short of the budget then its last state has escaped.
pub open spec fn performs<S, F: Fn(S) -> Option<S>>(
    step: F,
    start: S,
    budget: usize,
    steps: usize,
) -> bool {
    exists|orbit: Seq<S>|
        {
            &&& #[trigger] is_orbit(step, start, orbit)
            &&& orbit.len() == steps + 1
            &&& steps <= budget
            &&& steps < budget ==> call_ensures(step, (orbit[steps as int],), None::<S>)
        }
}

/// `member` is a classification of `start` under the budget: the answer to
/// whether a number of steps that the iteration may perform equals the
/// budget.
pub open spec fn classified<S, F: Fn(S) -> Option<S>>(
    step: F,
    start: S,
    budget: usize,
    member: bool,
) -> bool {
    exists|steps: usize| #[trigger] performs(step, start, budget, steps) && member == (steps == budget)
}

/// The step always gives the same result on the same state.
pub open spec fn single_valued<S, F: Fn(S) -> Option<S>>(step: F) -> bool {
    forall|s: S, a: Option<S>, b: Option<S>|
        #[trigger] call_ensures(step, (s,), a) && #[trigger] call_ensures(step, (s,), b) ==> a == b
}

/// Iterates `step` from `start` until a state has escaped or `budget` steps
/// were performed, and tells whether the point is a member: whether the
/// number of steps performed equals the budget.
pub fn is_member<S: Copy, F: Fn(S) -> Option<S>>(start: S, budget: usize, step: F) -> (member: bool)
    requires
        forall|s: S| call_requires(step, (s,)),
    ensures
        classified(step, start, budget, member),
{
    let mut state = start;
    let mut steps: usize = 0;
    let ghost mut orbit = seq![start];
    while steps < budget
        invariant
            forall|s: S| call_requires(step, (s,)),
            steps <= budget,
            is_orbit(step, start, orbit),
            orbit.len() == steps + 1,
            orbit[steps as int] == state,
        decreases budget - steps,
    {
        match step(state) {
            Some(next) => {
                proof {
                    orbit = orbit.push(next);
                }
                state = next;
                steps += 1;
            },
            None => {
                assert(performs(step, start, budget, steps));
                return false;
            },
        }
    }
    assert(performs(step, start, budget, steps));
    true
}

/// With a budget of 0 no step is performed and every point is a member.
pub proof fn lemma_zero_budget_is_member<S, F: Fn(S) -> Option<S>>(step: F, start: S, member: bool)
    requires
        classified(step, start, 0, member),
    ensures
        member,
{
}

/// A starting state that the step maps to itself never escapes: it is a
/// member under every budget.
pub proof fn lemma_fixed_point_is_member<S, F: Fn(S) -> Option<S>>(
    step: F,
    start: S,
    budget: usize,
    member: bool,
)
    requires
        classified(step, start, budget, member),
        forall|r: Option<S>| call_ensures(step, (start,), r) ==> r == Some(start),
    ensures
        member,
{
    let steps = choose|steps: usize| #[trigger]
        performs(step, start, budget, steps) && member == (steps == budget);
    let orbit = choose|orbit: Seq<S>|
        {
            &&& #[trigger] is_orbit(step, start, orbit)
            &&& orbit.len() == steps + 1
            &&& steps <= budget
            &&& steps < budget ==> call_ensures(step, (orbit[steps as int],), None::<S>)
        };
    lemma_orbit_of_fixed_point(step, start, orbit, steps as int);
}

/// A starting state that takes one step and then escapes: the iteration
/// performs exactly one step under every budget of at least 1. The point is
/// therefore no member under a budget of 2 or more, and a member under a
/// budget of exactly 1, which that one step uses up.
pub proof fn lemma_escape_after_one_step<S, F: Fn(S) -> Option<S>>(
    step: F,
    start: S,
    next: S,
    budget: usize,
    member: bool,
)
    requires
        classified(step, start, budget, member),
        budget >= 1,
        forall|r: Option<S>| call_ensures(step, (start,), r) ==> r == Some(next),
        forall|r: Option<S>| call_ensures(step, (next,), r) ==> r == None::<S>,
    ensures
        performs(step, start, budget, 1),
        member == (budget == 1),
{
    let steps = choose|steps: usize| #[trigger]
        performs(step, start, budget, steps) && member == (steps == budget);
    let orbit = choose|orbit: Seq<S>|
        {
            &&& #[trigger] is_orbit(step, start, orbit)
            &&& orbit.len() == steps + 1
            &&& steps <= budget
            &&& steps < budget ==> call_ensures(step, (orbit[steps as int],), None::<S>)
        };
    assert(steps >= 1);
    assert(call_ensures(step, (orbit[0],), Some(orbit[1])));
    assert(orbit[1] == next);
    if steps >= 2 {
        assert(call_ensures(step, (orbit[1],), Some(orbit[2])));
    }
    assert(steps == 1);
}

/// The classification is determined by the step: where the step always
/// gives the same result on the same state, a point has one classification
/// under a budget.
pub proof fn lemma_classification_unique<S, F: Fn(S) -> Option<S>>(
    step: F,
    start: S,
    budget: usize,
    first: bool,
    second: bool,
)
    requires
        single_valued(step),
        classified(step, start, budget, first),
        classified(step, start, budget, second),
    ensures
        first == second,
{
    let m = choose|steps: usize| #[trigger]
        performs(step, start, budget, steps) && first == (steps == budget);
    let n = choose|steps: usize| #[trigger]
        performs(step, start, budget, steps) && second == (steps == budget);
    let a = choose|orbit: Seq<S>|
        {
            &&& #[trigger] is_orbit(step, start, orbit)
            &&& orbit.len() == m + 1
            &&& m <= budget
            &&& m < budget ==> call_ensures(step, (orbit[m as int],), None::<S>)
        };
    let b = choose|orbit: Seq<S>|
        {
            &&& #[trigger] is_orbit(step, start, orbit)
            &&& orbit.len() == n + 1
            &&& n <= budget
            &&& n < budget ==> call_ensures(step, (orbit[n as int],), None::<S>)
        };
    if m < n {
        lemma_orbits_agree(step, start, a, b, m as int);
        assert(call_ensures(step, (b[m as int],), Some(b[m + 1])));
    } else if n < m {
        lemma_orbits_agree(step, start, a, b, n as int);
        assert(call_ensures(step, (a[n as int],), Some(a[n + 1])));
    }
}

/// Every state of a run from a fixed point is that fixed point.
proof fn lemma_orbit_of_fixed_point<S, F: Fn(S) -> Option<S>>(
    step: F,
    start: S,
    orbit: Seq<S>,
    i: int,
)
    requires
        is_orbit(step, start, orbit),
        forall|r: Option<S>| call_ensures(step, (start,), r) ==> r == Some(start),
        0 <= i < orbit.len(),
    ensures
        orbit[i] == start,
    decreases i,
{
    if i > 0 {
        lemma_orbit_of_fixed_point(step, start, orbit, i - 1);
        assert(call_ensures(step, (orbit[i - 1],), Some(orbit[i])));
    }
}

/// Two runs of a single-valued step from the same start agree as far as
/// both go.
proof fn lemma_orbits_agree<S, F: Fn(S) -> Option<S>>(
    step: F,
    start: S,
    a: Seq<S>,
    b: Seq<S>,
    i: int,
)
    requires
        single_valued(step),
        is_orbit(step, start, a),
        is_orbit(step, start, b),
        0 <= i < a.len(),
        i < b.len(),
    ensures
        a[i] == b[i],
    decreases i,
{
    if i > 0 {
        lemma_orbits_agree(step, start, a, b, i - 1);
        assert(call_ensures(step, (a[i - 1],), Some(a[i])));
        assert(call_ensures(step, (b[i - 1],), Some(b[i])));
    }
}

} // verus!
