//! The escape radius of a Julia set by Newton's method.
//!
//! The radius is a root of `f(r) = r * r - r - |c|`. The numbers and the
//! arithmetic on them are the caller's: the search is defined, and run, for
//! any test of convergence `close_enough`, any Newton step `newton` (which
//! gives nothing where the derivative is zero) and any final test
//! `acceptable`.

use vstd::prelude::*;

verus! {

/// The largest number of Newton steps.
pub const MAX_STEPS: u32 = 20;

/// `radii` starts at `start`, and each later radius is the Newton step from
/// the one before it.
pub open spec fn is_descent<S, N: Fn(&S) -> Option<S>>(newton: N, start: S, radii: Seq<S>) -> bool {
    &&& radii.len() >= 1
    &&& radii[0] == start
    &&& forall|i: int|
        0 <= i < radii.len() - 1 ==> newton.ensures((&radii[i],), Some(#[trigger] radii[i + 1]))
}

/// None of the first `n` of `radii` is close enough to a root.
pub open spec fn keeps_off<S, C: Fn(&S) -> bool>(close_enough: C, radii: Seq<S>, n: int) -> bool {
    forall|i: int| 0 <= i < n ==> close_enough.ensures((&#[trigger] radii[i],), false)
}

/// `result` is `last` where that is acceptable, else the fallback.
pub open spec fn settles<S, K: Fn(&S) -> bool>(
    acceptable: K,
    last: S,
    fallback: S,
    result: S,
) -> bool {
    ||| acceptable.ensures((&last,), true) && result == last
    ||| acceptable.ensures((&last,), false) && result == fallback
}

/// `result` is what the search from `start` gives.
///
/// The search takes Newton steps from `start` until a radius is close
/// enough, the derivative is zero, or `MAX_STEPS` steps are taken. At a zero
/// derivative it gives the fallback. Else it gives the last radius if that
/// is acceptable, and the fallback if not.
pub open spec fn escape_radius<S, C: Fn(&S) -> bool, N: Fn(&S) -> Option<S>, K: Fn(&S) -> bool>(
    close_enough: C,
    newton: N,
    acceptable: K,
    start: S,
    fallback: S,
    result: S,
) -> bool {
    exists|radii: Seq<S>|
        {
            &&& #[trigger] is_descent(newton, start, radii)
            &&& radii.len() <= MAX_STEPS + 1
            &&& keeps_off(close_enough, radii, radii.len() - 1)
            &&& {
                ||| radii.len() <= MAX_STEPS && close_enough.ensures((&radii.last(),), true)
                    && settles(acceptable, radii.last(), fallback, result)
                ||| radii.len() <= MAX_STEPS && close_enough.ensures((&radii.last(),), false)
                    && newton.ensures((&radii.last(),), None) && result == fallback
                ||| radii.len() == MAX_STEPS + 1 && settles(
                    acceptable,
                    radii.last(),
                    fallback,
                    result,
                )
            }
        }
}

/// Searches the escape radius from `start`; `fallback` is returned where
/// the search gets stuck or its last radius is not acceptable.
pub fn find_escape_radius<S, C: Fn(&S) -> bool, N: Fn(&S) -> Option<S>, K: Fn(&S) -> bool>(
    start: S,
    fallback: S,
    close_enough: &C,
    newton: &N,
    acceptable: &K,
) -> (radius: S)
    requires
        forall|s: &S| close_enough.requires((s,)),
        forall|s: &S| newton.requires((s,)),
        forall|s: &S| acceptable.requires((s,)),
    ensures
        escape_radius(*close_enough, *newton, *acceptable, start, fallback, radius),
        radius == fallback || acceptable.ensures((&radius,), true),
{
    let mut radius = start;
    let ghost mut radii: Seq<S> = seq![start];
    let mut idx: u32 = 0;
    let mut found = false;
    while idx < MAX_STEPS && !found
        invariant
            idx <= MAX_STEPS,
            forall|s: &S| close_enough.requires((s,)),
            forall|s: &S| newton.requires((s,)),
            is_descent(*newton, start, radii),
            radii.len() == idx + 1,
            radii.last() == radius,
            keeps_off(*close_enough, radii, idx as int),
            found ==> idx < MAX_STEPS && close_enough.ensures((&radius,), true),
        decreases MAX_STEPS - idx + if found { 0int } else { 1int },
    {
        if close_enough(&radius) {
            found = true;
        } else {
            match newton(&radius) {
                None => {
                    return fallback;
                },
                Some(next) => {
                    proof {
                        let before = radii;
                        radii = before.push(next);
                        assert forall|i: int| 0 <= i < radii.len() - 1 implies newton.ensures(
                            (&radii[i],),
                            Some(#[trigger] radii[i + 1]),
                        ) by {
                            assert(radii[i] == before[i]);
                            if i < before.len() - 1 {
                                assert(radii[i + 1] == before[i + 1]);
                            }
                        }
                        assert forall|i: int| 0 <= i < idx + 1 implies close_enough.ensures(
                            (&#[trigger] radii[i],),
                            false,
                        ) by {
                            assert(radii[i] == before[i]);
                        }
                    }
                    radius = next;
                    idx = idx + 1;
                },
            }
        }
    }
    let accepted = acceptable(&radius);
    assert(is_descent(*newton, start, radii));
    if accepted {
        radius
    } else {
        fallback
    }
}

} // verus!
