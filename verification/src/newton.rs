//! Root-convergence iteration: which basin an orbit falls into.

use vstd::prelude::*;
use crate::colour::{RgbColour, basin_colour, not_converged, spec_basin_colour, spec_not_converged};
use crate::escape::{is_orbit, reaches};
use crate::kernel::{computes, computes2};

verus! {

/// How many roots are tested after each step. The root past these is never
/// tested.
pub const TESTED_ROOTS: usize = 2;

/// The test `near_root` failed on `state` for every tested root below `bound`.
pub open spec fn near_none_below<S, N: Fn(S, usize) -> bool>(
    near_root: N,
    state: S,
    bound: usize,
) -> bool {
    forall|m: usize| m < bound ==> call_ensures(near_root, (state, m), false)
}

/// `found` is what testing the roots in order gives on `state`: the first
/// tested root on which `near_root` succeeded, or nothing where it failed on
/// all of them.
pub open spec fn is_first_near<S, N: Fn(S, usize) -> bool>(
    near_root: N,
    state: S,
    found: Option<usize>,
) -> bool {
    match found {
        Some(n) => {
            &&& n < TESTED_ROOTS
            &&& call_ensures(near_root, (state, n), true)
            &&& near_none_below(near_root, state, n)
        },
        None => near_none_below(near_root, state, TESTED_ROOTS),
    }
}

/// `orbit` shows that the iteration from `start` ends in `outcome` under a
/// budget of `limit` steps: every state after `start` but the last failed all
/// tests, and the last state either gave the root of the outcome or used up
/// the budget without one. The state `start` itself is never tested.
pub open spec fn settles<S, F: Fn(S) -> S, N: Fn(S, usize) -> bool>(
    step: F,
    near_root: N,
    start: S,
    limit: nat,
    outcome: Option<usize>,
    orbit: Seq<S>,
) -> bool {
    &&& is_orbit(step, start, orbit)
    &&& orbit.len() <= limit + 1
    &&& forall|i: int|
        1 <= i < orbit.len() - 1 ==> near_none_below(near_root, #[trigger] orbit[i], TESTED_ROOTS)
    &&& match outcome {
        Some(n) => orbit.len() >= 2 && is_first_near(near_root, orbit.last(), Some(n)),
        None => {
            &&& orbit.len() == limit + 1
            &&& orbit.len() >= 2 ==> is_first_near(near_root, orbit.last(), None)
        },
    }
}

/// The closures accept every call that the iteration from `start` can make
/// under a budget of `limit` steps: `step` accepts the states that fewer
/// than `limit` steps lead to, and `near_root` accepts each tested root on
/// the states that one step or more, up to `limit`, lead to.
pub open spec fn accepts_orbit<S, F: Fn(S) -> S, N: Fn(S, usize) -> bool>(
    step: F,
    near_root: N,
    start: S,
    limit: nat,
) -> bool {
    forall|steps: nat, s: S| #[trigger]
        reaches(step, start, steps, s) ==> {
            &&& steps < limit ==> call_requires(step, (s,))
            &&& 1 <= steps <= limit ==> forall|n: usize|
                n < TESTED_ROOTS ==> call_requires(near_root, (s, n))
        }
}

/// The colour that an outcome is painted with.
pub open spec fn spec_outcome_colour(outcome: Option<usize>) -> RgbColour {
    match outcome {
        Some(n) => spec_basin_colour(n as nat),
        None => spec_not_converged(),
    }
}

/// Tests the roots in order on `state` and returns the first that is near.
pub fn first_near_root<S: Copy, N: Fn(S, usize) -> bool>(state: S, near_root: N) -> (found: Option<
    usize,
>)
    requires
        forall|n: usize| n < TESTED_ROOTS ==> call_requires(near_root, (state, n)),
    ensures
        is_first_near(near_root, state, found),
{
    let mut n: usize = 0;
    while n < TESTED_ROOTS
        invariant
            n <= TESTED_ROOTS,
            forall|n: usize| n < TESTED_ROOTS ==> call_requires(near_root, (state, n)),
            near_none_below(near_root, state, n),
        decreases TESTED_ROOTS - n,
    {
        if near_root(state, n) {
            return Some(n);
        }
        n = n + 1;
    }
    None
}

/// Steps the orbit from `start` up to `iterations` times. After each step the
/// roots are tested in order on the new state; the first success ends the run
/// with that root. Returns nothing if the budget runs out first.
pub fn newton_root<S: Copy, F: Fn(S) -> S, N: Fn(S, usize) -> bool>(
    iterations: u32,
    start: S,
    step: F,
    near_root: N,
) -> (outcome: Option<usize>)
    requires
        accepts_orbit(step, near_root, start, iterations as nat),
    ensures
        exists|orbit: Seq<S>| settles(step, near_root, start, iterations as nat, outcome, orbit),
{
    let mut z = start;
    let mut done: u32 = 0;
    let ghost mut orbit: Seq<S> = seq![start];
    while done < iterations
        invariant
            done <= iterations,
            accepts_orbit(step, near_root, start, iterations as nat),
            is_orbit(step, start, orbit),
            orbit.len() == done + 1,
            orbit[done as int] == z,
            forall|i: int|
                1 <= i < orbit.len() ==> near_none_below(
                    near_root,
                    #[trigger] orbit[i],
                    TESTED_ROOTS,
                ),
        decreases iterations - done,
    {
        assert(reaches(step, start, done as nat, z)) by {
            assert(orbit.last() == z);
        }
        let next = step(z);
        proof {
            orbit = orbit.push(next);
        }
        z = next;
        done = done + 1;
        assert(reaches(step, start, done as nat, z)) by {
            assert(orbit.last() == z);
        }
        let found = first_near_root(z, &near_root);
        if found.is_some() {
            assert(settles(step, near_root, start, iterations as nat, found, orbit));
            return found;
        }
    }
    assert(settles(step, near_root, start, iterations as nat, None, orbit));
    None
}

/// The colour of the orbit from `start`: the colour of the basin it settles
/// in, or the colour of an orbit that did not converge.
pub fn newton_colour<S: Copy, F: Fn(S) -> S, N: Fn(S, usize) -> bool>(
    iterations: u32,
    start: S,
    step: F,
    near_root: N,
) -> (colour: RgbColour)
    requires
        accepts_orbit(step, near_root, start, iterations as nat),
    ensures
        exists|outcome: Option<usize>, orbit: Seq<S>|
            settles(step, near_root, start, iterations as nat, outcome, orbit) && colour
                == spec_outcome_colour(outcome),
{
    match newton_root(iterations, start, step, near_root) {
        Some(n) => basin_colour(n),
        None => not_converged(),
    }
}

/// The first tested root that the function `near` holds of at `state`.
pub open spec fn first_near<S>(near: spec_fn(S, usize) -> bool, state: S) -> Option<usize> {
    if near(state, 0) {
        Some(0)
    } else if near(state, 1) {
        Some(1)
    } else {
        None
    }
}

/// The outcome of the iteration of `step` from `start` under a budget of
/// `limit` steps: the first root found near a state of the orbit after
/// `start`, or nothing.
pub open spec fn first_settled<S>(
    step: spec_fn(S) -> S,
    near: spec_fn(S, usize) -> bool,
    start: S,
    limit: nat,
) -> Option<usize>
    decreases limit,
{
    if limit == 0 {
        None
    } else {
        match first_near(near, step(start)) {
            Some(n) => Some(n),
            None => first_settled(step, near, step(start), (limit - 1) as nat),
        }
    }
}

/// With a test that behaves as a function, what testing the roots in order
/// finds on a state is determined.
pub proof fn lemma_first_near_determined<S, N: Fn(S, usize) -> bool>(
    near_root: N,
    near: spec_fn(S, usize) -> bool,
    state: S,
    found: Option<usize>,
)
    requires
        computes2(near_root, near),
        is_first_near(near_root, state, found),
    ensures
        found == first_near(near, state),
{
    match found {
        Some(n) => {
            assert(near(state, n));
            if n == 1 {
                assert(call_ensures(near_root, (state, 0usize), false));
            }
        },
        None => {
            assert(call_ensures(near_root, (state, 0usize), false));
            assert(call_ensures(near_root, (state, 1usize), false));
        },
    }
}

/// With closures that behave as functions the outcome of the iteration is
/// determined. Two runs on the same input therefore agree.
pub proof fn lemma_outcome_determined<S, F: Fn(S) -> S, N: Fn(S, usize) -> bool>(
    step: F,
    near_root: N,
    f: spec_fn(S) -> S,
    near: spec_fn(S, usize) -> bool,
    start: S,
    limit: nat,
    outcome: Option<usize>,
    orbit: Seq<S>,
)
    requires
        computes(step, f),
        computes2(near_root, near),
        settles(step, near_root, start, limit, outcome, orbit),
    ensures
        outcome == first_settled(f, near, start, limit),
    decreases orbit.len(),
{
    if orbit.len() == 1 {
    } else {
        let rest = orbit.subrange(1, orbit.len() as int);
        assert(rest[0] == orbit[1]);
        assert(rest[0] == f(start));
        assert(rest.last() == orbit.last());
        if orbit.len() == 2 {
            lemma_first_near_determined(near_root, near, rest[0], outcome);
            if outcome.is_none() {
                assert(limit == 1);
            }
        } else {
            assert(rest[0] == orbit[1]);
            lemma_first_near_determined(near_root, near, orbit[1], None);
            assert forall|j: int| 0 <= j < rest.len() - 1 implies call_ensures(
                step,
                (rest[j],),
                #[trigger] rest[j + 1],
            ) by {
                assert(rest[j] == orbit[j + 1]);
                assert(rest[j + 1] == orbit[j + 1 + 1]);
            }
            assert forall|j: int| 1 <= j < rest.len() - 1 implies near_none_below(
                near_root,
                #[trigger] rest[j],
                TESTED_ROOTS,
            ) by {
                assert(rest[j] == orbit[j + 1]);
            }
            lemma_outcome_determined(
                step,
                near_root,
                f,
                near,
                f(start),
                (limit - 1) as nat,
                outcome,
                rest,
            );
        }
    }
}

/// Every colour that the iteration can give: one of the two basins it tests,
/// or the colour of an orbit that did not converge. The colour tells the
/// outcome, since the three differ.
pub proof fn lemma_outcome_colours(outcome: Option<usize>)
    requires
        outcome matches Some(n) ==> n < TESTED_ROOTS,
    ensures
        spec_outcome_colour(outcome) == spec_basin_colour(0) <==> outcome == Some(0usize),
        spec_outcome_colour(outcome) == spec_basin_colour(1) <==> outcome == Some(1usize),
        spec_outcome_colour(outcome) == spec_not_converged() <==> outcome.is_none(),
{
}

} // verus!
