//! Things that are done one after the other, up to the first that is refused.

use vstd::prelude::*;

verus! {

/// The states through which a run goes: one before every item that was taken, and one after the
/// last. A run that is refused ends before the item that was refused.
pub open spec fn traced<S, X, E>(
    step: spec_fn(S, X, Result<S, E>) -> bool,
    start: S,
    items: Seq<X>,
    states: Seq<S>,
    out: Result<S, E>,
) -> bool {
    &&& states.len() > 0
    &&& states[0] == start
    &&& states.len() <= items.len() + 1
    &&& forall|i: int|
        0 <= i < states.len() - 1 ==> step(#[trigger] states[i], items[i], Ok(states[i + 1]))
    &&& match out {
        Ok(end) => states.len() == items.len() + 1 && end == states.last(),
        Err(_) => states.len() <= items.len() && step(
            states.last(),
            items[states.len() - 1],
            out,
        ),
    }
}

/// `out` is what comes of taking all items, from the state `start` on.
pub open spec fn runs<S, X, E>(
    step: spec_fn(S, X, Result<S, E>) -> bool,
    start: S,
    items: Seq<X>,
    out: Result<S, E>,
) -> bool {
    exists|states: Seq<S>| #[trigger] traced(step, start, items, states, out)
}

/// The state that a step leads to, unless it is refused.
pub open spec fn reaching<S, E>(r: Result<(), E>, after: S) -> Result<S, E> {
    match r {
        Ok(()) => Ok(after),
        Err(e) => Err(e),
    }
}

/// A run begins where it starts.
pub proof fn run_begins<S, X, E>(
    step: spec_fn(S, X, Result<S, E>) -> bool,
    start: S,
    items: Seq<X>,
)
    ensures
        runs(step, start, items.take(0), Ok(start)),
{
    assert(traced(step, start, items.take(0), seq![start], Ok(start)));
}

/// A run takes one more item. Where that is refused, so is the whole run.
pub proof fn run_grows<S, X, E>(
    step: spec_fn(S, X, Result<S, E>) -> bool,
    start: S,
    items: Seq<X>,
    i: int,
    before: S,
    out: Result<S, E>,
)
    requires
        0 <= i < items.len(),
        runs(step, start, items.take(i), Ok(before)),
        step(before, items[i], out),
    ensures
        runs(step, start, items.take(i + 1), out),
        out is Err ==> runs(step, start, items, out),
{
    let states = choose|states: Seq<S>|
        #[trigger] traced::<S, X, E>(step, start, items.take(i), states, Ok(before));
    let front = items.take(i);
    let next = items.take(i + 1);
    match out {
        Ok(after) => {
            let longer = states.push(after);
            assert forall|k: int| 0 <= k < longer.len() - 1 implies step(
                #[trigger] longer[k],
                next[k],
                Ok(longer[k + 1]),
            ) by {
                assert(longer[k] == states[k]);
                if k < i {
                    assert(step(states[k], front[k], Ok(states[k + 1])));
                    assert(longer[k + 1] == states[k + 1]);
                }
            }
            assert(traced(step, start, next, longer, out));
        },
        Err(_) => {
            assert forall|k: int| 0 <= k < states.len() - 1 implies step(
                #[trigger] states[k],
                next[k],
                Ok(states[k + 1]),
            ) && step(states[k], items[k], Ok(states[k + 1])) by {
                assert(step(states[k], front[k], Ok(states[k + 1])));
            }
            assert(traced(step, start, next, states, out));
            assert(traced(step, start, items, states, out));
        },
    }
}

/// A run that has taken all items is complete.
pub proof fn run_ends<S, X, E>(
    step: spec_fn(S, X, Result<S, E>) -> bool,
    start: S,
    items: Seq<X>,
    end: S,
)
    requires
        runs(step, start, items.take(items.len() as int), Ok::<S, E>(end)),
    ensures
        runs(step, start, items, Ok::<S, E>(end)),
{
    assert(items.take(items.len() as int) =~= items);
}

/// The state after the first `n` items, where every item leads to one state.
pub open spec fn folded<S, X>(next: spec_fn(S, X) -> S, start: S, items: Seq<X>, n: nat) -> S
    decreases n,
{
    if n == 0 {
        start
    } else {
        next(folded(next, start, items, (n - 1) as nat), items[n - 1])
    }
}

/// A run in which every item can only lead to one state ends in that of the last item.
pub proof fn run_is_determined<S, X, E>(
    step: spec_fn(S, X, Result<S, E>) -> bool,
    next: spec_fn(S, X) -> S,
    start: S,
    items: Seq<X>,
    out: Result<S, E>,
)
    requires
        runs(step, start, items, out),
        forall|i: int, r: Result<S, E>|
            0 <= i < items.len() && #[trigger] step(
                folded(next, start, items, i as nat),
                items[i],
                r,
            ) ==> r == Ok::<S, E>(next(folded(next, start, items, i as nat), items[i])),
    ensures
        out == Ok::<S, E>(folded(next, start, items, items.len())),
{
    let states = choose|states: Seq<S>| #[trigger] traced(step, start, items, states, out);
    states_are_determined(step, next, start, items, states, out, (states.len() - 1) as nat);
    if out is Err {
        let i = states.len() - 1;
        assert(step(states[i], items[i], out));
        assert(step(folded(next, start, items, i as nat), items[i], out));
    }
}

proof fn states_are_determined<S, X, E>(
    step: spec_fn(S, X, Result<S, E>) -> bool,
    next: spec_fn(S, X) -> S,
    start: S,
    items: Seq<X>,
    states: Seq<S>,
    out: Result<S, E>,
    n: nat,
)
    requires
        traced(step, start, items, states, out),
        n < states.len(),
        forall|i: int, r: Result<S, E>|
            0 <= i < items.len() && #[trigger] step(
                folded(next, start, items, i as nat),
                items[i],
                r,
            ) ==> r == Ok::<S, E>(next(folded(next, start, items, i as nat), items[i])),
    ensures
        states[n as int] == folded(next, start, items, n),
    decreases n,
{
    if n > 0 {
        let m = (n - 1) as nat;
        states_are_determined(step, next, start, items, states, out, m);
        assert(step(states[m as int], items[m as int], Ok(states[(m + 1) as int])));
        assert(step(folded(next, start, items, m), items[m as int], Ok(states[n as int])));
    }
}

} // verus!
