//! The escape-time count of an orbit.
//!
//! The values of an orbit and the arithmetic on them are the caller's: the
//! count is defined, and computed, for any step function `advance` and any
//! escape test `escaped`.

use vstd::prelude::*;

verus! {

/// `orbit` starts at `start`, and each later value is what `advance` gave for
/// the one before it.
pub open spec fn is_orbit<S, A: Fn(S) -> S>(advance: A, start: S, orbit: Seq<S>) -> bool {
    &&& orbit.len() >= 1
    &&& orbit[0] == start
    &&& forall|i: int|
        0 <= i < orbit.len() - 1 ==> advance.ensures((orbit[i],), #[trigger] orbit[i + 1])
}

/// None of the first `n` values of `orbit` has escaped.
pub open spec fn stays_inside<S, E: Fn(&S) -> bool>(escaped: E, orbit: Seq<S>, n: int) -> bool {
    forall|i: int| 0 <= i < n ==> escaped.ensures((&#[trigger] orbit[i],), false)
}

/// `count` is the escape time of the orbit from `start`, capped at
/// `max_iterations`:
/// - 0 where `start` itself has escaped;
/// - the index, counted from 1, of the first value that has escaped, where
///   one of the first `max_iterations` values after `start` has;
/// - `max_iterations + 1`, the mark of a point that did not escape, where
///   neither `start` nor any of them has. No escape has this count.
pub open spec fn escape_count<S, A: Fn(S) -> S, E: Fn(&S) -> bool>(
    advance: A,
    escaped: E,
    start: S,
    max_iterations: u32,
    count: u32,
) -> bool {
    ||| count == 0 && escaped.ensures((&start,), true)
    ||| exists|orbit: Seq<S>|
        {
            &&& #[trigger] is_orbit(advance, start, orbit)
            &&& stays_inside(escaped, orbit, orbit.len() - 1)
            &&& {
                ||| 1 <= count <= max_iterations && orbit.len() == count + 1 && escaped.ensures(
                    (&orbit.last(),),
                    true,
                )
                ||| count == max_iterations + 1 && orbit.len() == max_iterations + 1
                    && escaped.ensures((&orbit.last(),), false)
            }
        }
}

/// Counts the steps until the orbit from `start` escapes, at most
/// `max_iterations` of them.
pub fn escape_time<S, A: Fn(S) -> S, E: Fn(&S) -> bool>(
    start: S,
    max_iterations: u32,
    advance: &A,
    escaped: &E,
) -> (count: u32)
    requires
        max_iterations < u32::MAX,
        forall|s: S| advance.requires((s,)),
        forall|s: &S| escaped.requires((s,)),
    ensures
        escape_count(*advance, *escaped, start, max_iterations, count),
        count <= max_iterations + 1,
{
    let mut curr = start;
    if escaped(&curr) {
        return 0;
    }
    let ghost mut orbit: Seq<S> = seq![start];
    let mut idx: u32 = 0;
    while idx < max_iterations
        invariant
            idx <= max_iterations,
            forall|s: S| advance.requires((s,)),
            forall|s: &S| escaped.requires((s,)),
            is_orbit(*advance, start, orbit),
            orbit.len() == idx + 1,
            orbit[idx as int] == curr,
            stays_inside(*escaped, orbit, idx + 1),
        decreases max_iterations - idx,
    {
        let ghost before = orbit;
        let next = advance(curr);
        curr = next;
        idx = idx + 1;
        proof {
            orbit = before.push(curr);
            assert forall|i: int| 0 <= i < orbit.len() - 1 implies advance.ensures(
                (orbit[i],),
                #[trigger] orbit[i + 1],
            ) by {
                if i < before.len() - 1 {
                    assert(orbit[i] == before[i]);
                    assert(orbit[i + 1] == before[i + 1]);
                }
            }
            assert forall|i: int| 0 <= i < idx implies escaped.ensures(
                (&#[trigger] orbit[i],),
                false,
            ) by {
                assert(orbit[i] == before[i]);
            }
        }
        let out = escaped(&curr);
        assert(is_orbit(*advance, start, orbit));
        assert(stays_inside(*escaped, orbit, idx as int));
        if out {
            return idx;
        }
    }
    assert(is_orbit(*advance, start, orbit));
    idx + 1
}

} // verus!
