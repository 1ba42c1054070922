//! Escape-time iteration: how long an orbit runs before it escapes.

use vstd::prelude::*;
use crate::kernel::computes;
use crate::value::NormalizedValue;

verus! {

/// `orbit` is a run of `step` that begins at `start`: each state but the
/// first is one that `step` returned for the state before it.
pub open spec fn is_orbit<S, F: Fn(S) -> S>(step: F, start: S, orbit: Seq<S>) -> bool {
    &&& orbit.len() > 0
    &&& orbit[0] == start
    &&& forall|i: int|
        0 <= i < orbit.len() - 1 ==> call_ensures(step, (orbit[i],), #[trigger] orbit[i + 1])
}

/// `steps` steps of `step` can lead from `start` to `state`.
pub open spec fn reaches<S, F: Fn(S) -> S>(step: F, start: S, steps: nat, state: S) -> bool {
    exists|orbit: Seq<S>|
        #![auto]
        is_orbit(step, start, orbit) && orbit.len() == steps + 1 && orbit.last() == state
}

/// The closures accept every state on which the iteration from `start` can
/// call them under a budget of `limit` steps: the states that fewer than
/// `limit` steps lead to.
pub open spec fn accepts_escape_orbit<S, E: Fn(S) -> bool, F: Fn(S) -> S>(
    escaped: E,
    step: F,
    start: S,
    limit: nat,
) -> bool {
    forall|steps: nat, s: S|
        steps < limit && #[trigger] reaches(step, start, steps, s) ==> call_requires(
            escaped,
            (s,),
        ) && call_requires(step, (s,))
}

/// `orbit` shows that the iteration from `start` stops after `count` steps
/// under a budget of `limit`: the test `escaped` failed on each of the first
/// `count` states, and either the budget is used up or the test succeeded on
/// the state reached last.
pub open spec fn escapes_after<S, E: Fn(S) -> bool, F: Fn(S) -> S>(
    escaped: E,
    step: F,
    start: S,
    limit: nat,
    count: nat,
    orbit: Seq<S>,
) -> bool {
    &&& is_orbit(step, start, orbit)
    &&& orbit.len() == count + 1
    &&& count <= limit
    &&& forall|i: int| 0 <= i < count ==> call_ensures(escaped, (#[trigger] orbit[i],), false)
    &&& count < limit ==> call_ensures(escaped, (orbit[count as int],), true)
}

/// Number of steps after which the orbit of `step` from `start` first meets
/// `escaped`, at most `limit`.
pub open spec fn first_escape<S>(
    escaped: spec_fn(S) -> bool,
    step: spec_fn(S) -> S,
    start: S,
    limit: nat,
) -> nat
    decreases limit,
{
    if limit == 0 || escaped(start) {
        0
    } else {
        1 + first_escape(escaped, step, step(start), (limit - 1) as nat)
    }
}

/// The state that `steps` applications of `step` lead to from `start`.
pub open spec fn iterate<S>(step: spec_fn(S) -> S, start: S, steps: nat) -> S
    decreases steps,
{
    if steps == 0 {
        start
    } else {
        iterate(step, step(start), (steps - 1) as nat)
    }
}

/// The normalised value of the count `count` under the budget `iterations`:
/// the fraction `(iterations - count) / iterations`.
pub open spec fn spec_normalized_value(iterations: u32, count: u32) -> NormalizedValue {
    NormalizedValue { numerator: (iterations - count) as u32, denominator: iterations }
}

/// Runs the orbit of `step` from `start` until `escaped` holds of the current
/// state or `iterations` steps have been taken, and returns the number of
/// steps taken. The test comes before each step, so an orbit that has escaped
/// at `start` takes none, and the state that the last step of the budget
/// leads to is not tested.
pub fn escape_time<S: Copy, E: Fn(S) -> bool, F: Fn(S) -> S>(
    iterations: u32,
    start: S,
    escaped: E,
    step: F,
) -> (count: u32)
    requires
        accepts_escape_orbit(escaped, step, start, iterations as nat),
    ensures
        count <= iterations,
        exists|orbit: Seq<S>|
            escapes_after(escaped, step, start, iterations as nat, count as nat, orbit),
{
    let mut z = start;
    let mut count: u32 = 0;
    let ghost mut orbit: Seq<S> = seq![start];
    while count < iterations
        invariant_except_break
            count <= iterations,
        invariant
            accepts_escape_orbit(escaped, step, start, iterations as nat),
            is_orbit(step, start, orbit),
            orbit.len() == count + 1,
            orbit[count as int] == z,
            forall|i: int| 0 <= i < count ==> call_ensures(escaped, (#[trigger] orbit[i],), false),
        ensures
            escapes_after(escaped, step, start, iterations as nat, count as nat, orbit),
        decreases iterations - count,
    {
        assert(reaches(step, start, count as nat, z)) by {
            assert(orbit.last() == z);
        }
        if escaped(z) {
            break ;
        }
        let next = step(z);
        proof {
            orbit = orbit.push(next);
        }
        z = next;
        count = count + 1;
    }
    count
}

/// Turns an escape count into its normalised value: the share of the budget
/// that was left when the orbit stopped.
pub fn normalized_value(iterations: u32, count: u32) -> (value: NormalizedValue)
    requires
        0 < iterations,
        count <= iterations,
    ensures
        value == spec_normalized_value(iterations, count),
        value.in_unit_interval(),
{
    NormalizedValue { numerator: iterations - count, denominator: iterations }
}

/// The normalised escape value of the orbit of `step` from `start`: runs
/// [`escape_time`] and normalises its count.
pub fn escape_value<S: Copy, E: Fn(S) -> bool, F: Fn(S) -> S>(
    iterations: u32,
    start: S,
    escaped: E,
    step: F,
) -> (value: NormalizedValue)
    requires
        0 < iterations,
        accepts_escape_orbit(escaped, step, start, iterations as nat),
    ensures
        value.in_unit_interval(),
        exists|count: u32, orbit: Seq<S>|
            escapes_after(escaped, step, start, iterations as nat, count as nat, orbit) && value
                == spec_normalized_value(iterations, count),
{
    let count = escape_time(iterations, start, escaped, step);
    normalized_value(iterations, count)
}

/// An orbit of closures that behave as functions visits the iterates of the
/// step function.
pub proof fn lemma_orbit_iterates<S, F: Fn(S) -> S>(
    step: F,
    f: spec_fn(S) -> S,
    start: S,
    orbit: Seq<S>,
    i: nat,
)
    requires
        computes(step, f),
        is_orbit(step, start, orbit),
        i < orbit.len(),
    ensures
        orbit[i as int] == iterate(f, start, i),
    decreases i,
{
    if i > 0 {
        let rest = orbit.subrange(1, orbit.len() as int);
        assert(rest[0] == f(start));
        assert forall|j: int| 0 <= j < rest.len() - 1 implies call_ensures(
            step,
            (rest[j],),
            #[trigger] rest[j + 1],
        ) by {
            assert(rest[j] == orbit[j + 1]);
            assert(rest[j + 1] == orbit[j + 1 + 1]);
        }
        lemma_orbit_iterates(step, f, f(start), rest, (i - 1) as nat);
        assert(rest[i - 1] == orbit[i as int]);
    }
}

/// The escape count is the first step at which the orbit escapes, or the
/// budget if it does not escape before: no earlier iterate escapes, and where
/// the count is below the budget the iterate at the count does.
pub proof fn lemma_first_escape_is_first<S>(
    escaped: spec_fn(S) -> bool,
    step: spec_fn(S) -> S,
    start: S,
    limit: nat,
)
    ensures
        first_escape(escaped, step, start, limit) <= limit,
        forall|i: nat|
            i < first_escape(escaped, step, start, limit) ==> !escaped(
                #[trigger] iterate(step, start, i),
            ),
        first_escape(escaped, step, start, limit) < limit ==> escaped(
            iterate(step, start, first_escape(escaped, step, start, limit)),
        ),
    decreases limit,
{
    if limit == 0 || escaped(start) {
    } else {
        let rest = first_escape(escaped, step, step(start), (limit - 1) as nat);
        lemma_first_escape_is_first(escaped, step, step(start), (limit - 1) as nat);
        assert forall|i: nat| i < 1 + rest implies !escaped(
            #[trigger] iterate(step, start, i),
        ) by {
            if i > 0 {
                assert(iterate(step, start, i) == iterate(step, step(start), (i - 1) as nat));
            }
        }
    }
}

/// With closures that behave as functions the escape count is determined: it
/// is the first step at which the orbit escapes, capped at the budget. Two
/// runs on the same input therefore agree.
pub proof fn lemma_escape_count_determined<S, E: Fn(S) -> bool, F: Fn(S) -> S>(
    escaped: E,
    step: F,
    e: spec_fn(S) -> bool,
    f: spec_fn(S) -> S,
    start: S,
    limit: nat,
    count: nat,
    orbit: Seq<S>,
)
    requires
        computes(escaped, e),
        computes(step, f),
        escapes_after(escaped, step, start, limit, count, orbit),
    ensures
        count == first_escape(e, f, start, limit),
    decreases count,
{
    if count == 0 {
    } else {
        let rest = orbit.subrange(1, orbit.len() as int);
        assert(!e(orbit[0]));
        assert(rest[0] == f(start));
        assert forall|j: int| 0 <= j < rest.len() - 1 implies call_ensures(
            step,
            (rest[j],),
            #[trigger] rest[j + 1],
        ) by {
            assert(rest[j] == orbit[j + 1]);
            assert(rest[j + 1] == orbit[j + 1 + 1]);
        }
        assert forall|j: int| 0 <= j < count - 1 implies call_ensures(
            escaped,
            (#[trigger] rest[j],),
            false,
        ) by {
            assert(rest[j] == orbit[j + 1]);
        }
        assert(rest[count - 1] == orbit[count as int]);
        lemma_escape_count_determined(
            escaped,
            step,
            e,
            f,
            f(start),
            (limit - 1) as nat,
            (count - 1) as nat,
            rest,
        );
    }
}

/// An orbit that never escapes within its budget uses the budget up, and its
/// normalised value is zero.
pub proof fn lemma_bounded_orbit_has_value_zero<S>(
    escaped: spec_fn(S) -> bool,
    step: spec_fn(S) -> S,
    start: S,
    iterations: u32,
)
    requires
        forall|i: nat| i < iterations ==> !escaped(#[trigger] iterate(step, start, i)),
    ensures
        first_escape(escaped, step, start, iterations as nat) == iterations,
        spec_normalized_value(iterations, iterations).numerator == 0,
{
    lemma_first_escape_is_first(escaped, step, start, iterations as nat);
}

/// The normalised value falls as the count grows. It is one exactly where
/// no step was taken, and zero exactly where the budget was used up.
pub proof fn lemma_value_falls_with_count(iterations: u32, sooner: u32, later: u32)
    requires
        0 < iterations,
        sooner <= later <= iterations,
    ensures
        spec_normalized_value(iterations, sooner).numerator >= spec_normalized_value(
            iterations,
            later,
        ).numerator,
        spec_normalized_value(iterations, sooner).numerator == iterations <==> sooner == 0,
        spec_normalized_value(iterations, later).numerator == 0 <==> later == iterations,
{
}

} // verus!
