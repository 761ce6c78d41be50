use vstd::prelude::*;
use crate::utils::errors::ApiError;

verus! {

/// Number of work items that a round takes up: all of them, or as many as
/// the budget allows.
pub open spec fn capped_total_spec(total: nat, rate_limit: nat) -> nat {
    if total <= rate_limit {
        total
    } else {
        rate_limit
    }
}

/// Number of work items that a round takes up.
pub fn capped_total(total: usize, rate_limit: usize) -> (r: usize)
    ensures
        r == capped_total_spec(total as nat, rate_limit as nat),
{
    if total <= rate_limit {
        total
    } else {
        rate_limit
    }
}

/// What a round did: how many items were pending, how many it took up,
/// and how many of those went through.
#[derive(Clone, Copy, Debug, PartialEq, Eq, Structural)]
pub struct RoundReport {
    pub total: usize,
    pub attempted: usize,
    pub completed: usize,
}

/// Number of successes among results.
pub open spec fn count_ok(results: Seq<Result<(), ApiError>>) -> nat
    decreases results.len(),
{
    if results.len() == 0 {
        0
    } else {
        count_ok(results.drop_last()) + if results.last() is Ok {
            1nat
        } else {
            0nat
        }
    }
}

/// `states` and `results` record a run of `f` over the first items, in
/// order: item `k` took the state from `states[k]` to `states[k + 1]` and
/// gave `results[k]`.
pub open spec fn round_trace<T, S, F: Fn(S, &T) -> (S, Result<(), ApiError>)>(
    f: F,
    items: Seq<T>,
    states: Seq<S>,
    results: Seq<Result<(), ApiError>>,
) -> bool {
    &&& states.len() == results.len() + 1
    &&& results.len() <= items.len()
    &&& forall|k: int|
        0 <= k < results.len() ==> #[trigger] f.ensures(
            (states[k], &items[k]),
            (states[k + 1], results[k]),
        )
}

/// One round of the scheduler. It takes up the first items of the list, as
/// many as the budget allows, and hands each to the processor in order.
/// Items beyond the budget are left untouched. A processor's failure is
/// counted and never ends the round.
pub fn loop_until_hit_rate_limit<T, S, F>(object_arr: &[T], state: S, f: F, rate_limit: usize) -> (r:
    (S, RoundReport)) where F: Fn(S, &T) -> (S, Result<(), ApiError>)
    requires
        forall|s: S, k: int| 0 <= k < object_arr@.len() ==> f.requires((s, &object_arr@[k])),
    ensures
        r.1.total == object_arr@.len(),
        r.1.attempted == capped_total_spec(object_arr@.len(), rate_limit as nat),
        exists|states: Seq<S>, results: Seq<Result<(), ApiError>>|
            {
                &&& #[trigger] round_trace(f, object_arr@, states, results)
                &&& results.len() == r.1.attempted
                &&& states[0] == state
                &&& states.last() == r.0
                &&& r.1.completed == count_ok(results)
            },
{
    let total = object_arr.len();
    let capped = capped_total(total, rate_limit);
    let mut current = state;
    let mut completed: usize = 0;
    let ghost mut states: Seq<S> = Seq::empty().push(current);
    let ghost mut results: Seq<Result<(), ApiError>> = Seq::empty();
    let mut i: usize = 0;
    while i < capped
        invariant
            i <= capped <= object_arr@.len(),
            forall|s: S, k: int| 0 <= k < object_arr@.len() ==> f.requires((s, &object_arr@[k])),
            round_trace(f, object_arr@, states, results),
            results.len() == i,
            states[0] == state,
            states.last() == current,
            completed == count_ok(results),
            completed <= i,
        decreases capped - i,
    {
        let (next, outcome) = f(current, &object_arr[i]);
        proof {
            let before = states;
            let seen = results;
            states = states.push(next);
            results = results.push(outcome);
            assert(results.drop_last() =~= seen);
            assert forall|k: int| 0 <= k < results.len() implies #[trigger] f.ensures(
                (states[k], &object_arr@[k]),
                (states[k + 1], results[k]),
            ) by {
                if k < seen.len() {
                    assert(f.ensures((before[k], &object_arr@[k]), (before[k + 1], seen[k])));
                }
            }
        }
        if outcome.is_ok() {
            completed += 1;
        }
        current = next;
        i += 1;
    }
    (current, RoundReport { total, attempted: capped, completed })
}

/// What every step of a processor keeps, every state of a trace has.
pub proof fn lemma_trace_keeps<T, S, F: Fn(S, &T) -> (S, Result<(), ApiError>)>(
    f: F,
    items: Seq<T>,
    states: Seq<S>,
    results: Seq<Result<(), ApiError>>,
    keeps: spec_fn(S) -> bool,
    k: int,
)
    requires
        round_trace(f, items, states, results),
        keeps(states[0]),
        forall|s: S, t: T, out: (S, Result<(), ApiError>)|
            #[trigger] f.ensures((s, &t), out) && keeps(s) ==> keeps(out.0),
        0 <= k < states.len(),
    ensures
        keeps(states[k]),
    decreases k,
{
    if k > 0 {
        lemma_trace_keeps(f, items, states, results, keeps, k - 1);
        let j = k - 1;
        assert(f.ensures((states[j], &items[j]), (states[j + 1], results[j])));
    }
}

} // verus!
