use vstd::prelude::*;
use crate::twitter::model::backfill::{
    candidate_keys, core_candidate, has_gap, helper_candidate, is_backfill, lacks_media_url,
    lookback_start, BackfillOrder,
};
use crate::twitter::model::convergence::{
    complete_body, covers, fills, lemma_core_item_closes, lemma_core_item_fills,
    lemma_fills_candidates, lemma_fills_keeps, lemma_fills_reflexive, lemma_fills_transitive,
    lemma_handle_fills, lemma_media_closes, lemma_wf_is_sound, same_but_metrics, sound,
};
use crate::twitter::model::media::handle_media_spec;
use crate::twitter::model::payload::TweetBody;
use crate::twitter::model::rank::{is_full_ranking, listed};
use crate::twitter::model::store::{Outcome, Stamp, StoreView, Tweet, TweetView};
use crate::twitter::pipeline::jobs::{
    backfill_item, backfill_trace, body_outcome, is_backfill_round, is_repair_at, BACKFILL_DAYS,
};
use crate::twitter::pipeline::loops::{count_ok, RoundReport};
use crate::twitter::pipeline::processors::{process_rt_original_tweet_spec, BodyDraws};
use crate::twitter::routes::serve::tweet_views;
use crate::utils::errors::ApiError;

verus! {

/// The upstream service answers in full: whatever it sends for an id is a
/// complete body that covers each row of `s` under that id.
pub open spec fn upstream_complete<F: Fn(&String) -> Result<TweetBody, ApiError>>(
    fetch: F,
    s: StoreView,
) -> bool {
    forall|id: String, body: TweetBody| #[trigger]
        fetch.ensures((&id,), Ok(body)) ==> complete_body(body) && forall|i: int|
            0 <= i < s.tweets.len() && (#[trigger] s.tweets[i]).tweet_id == id@ ==> covers(
                s,
                s.tweets[i],
                body,
            )
}

/// No more results are successes than there are results; where all are,
/// each is.
pub proof fn lemma_count_ok(results: Seq<Result<(), ApiError>>)
    ensures
        count_ok(results) <= results.len(),
        count_ok(results) == results.len() ==> forall|k: int|
            0 <= k < results.len() ==> (#[trigger] results[k]) is Ok,
    decreases results.len(),
{
    if results.len() > 0 {
        lemma_count_ok(results.drop_last());
        if count_ok(results) == results.len() {
            assert forall|k: int| 0 <= k < results.len() implies (#[trigger] results[k]) is Ok by {
                if k < results.len() - 1 {
                    assert(results.drop_last()[k] == results[k]);
                }
            }
        }
    }
}

/// One candidate of a repair fills the store, whatever came of it.
pub proof fn lemma_item_fills<F: Fn(&String) -> Result<TweetBody, ApiError>>(
    fetch: F,
    helpers: bool,
    before: StoreView,
    candidate: Tweet,
    after: StoreView,
    result: Result<(), ApiError>,
    s0: StoreView,
)
    requires
        backfill_item(fetch, helpers, before, candidate, after, result),
        upstream_complete(fetch, s0),
    ensures
        fills(before, after),
{
    let fetched = choose|fetched: Result<TweetBody, ApiError>|
        #[trigger] fetch.ensures((&candidate.tweet_id,), fetched) && match fetched {
            Err(e) => after == before && result == Err::<(), ApiError>(e),
            Ok(body) => body_outcome(helpers, before, body, after, result),
        };
    match fetched {
        Err(e) => {
            lemma_fills_reflexive(before);
        },
        Ok(body) => {
            assert(complete_body(body));
            if helpers {
                let stamps = choose|stamps: Seq<Stamp>|
                    (Outcome { state: after, result }) == #[trigger] handle_media_spec(
                        before,
                        body.data,
                        body.includes,
                        stamps,
                    );
                lemma_handle_fills(before, body.data, body.includes, stamps);
            } else {
                let draws = choose|draws: BodyDraws|
                    (Outcome { state: after, result }) == #[trigger] process_rt_original_tweet_spec(
                        before,
                        body,
                        draws,
                    );
                lemma_core_item_fills(before, body, draws);
            }
        },
    }
}

/// A candidate that went through has its gaps closed: where the store
/// was filled from a sound one of which the upstream service answers in
/// full, the row under the candidate's id has no gap of the round's kind
/// afterwards.
pub proof fn lemma_item_closes<F: Fn(&String) -> Result<TweetBody, ApiError>>(
    fetch: F,
    helpers: bool,
    before: StoreView,
    candidate: Tweet,
    after: StoreView,
    result: Result<(), ApiError>,
    s0: StoreView,
    i: int,
)
    requires
        backfill_item(fetch, helpers, before, candidate, after, result),
        upstream_complete(fetch, s0),
        sound(s0),
        fills(s0, before),
        result is Ok,
        0 <= i < s0.tweets.len(),
        s0.tweets[i].tweet_id == candidate.tweet_id@,
    ensures
        fills(before, after),
        helpers ==> !lacks_media_url(after, after.tweets[i].id),
        !helpers ==> !has_gap(after, after.tweets[i]),
{
    lemma_item_fills(fetch, helpers, before, candidate, after, result, s0);
    let fetched = choose|fetched: Result<TweetBody, ApiError>|
        #[trigger] fetch.ensures((&candidate.tweet_id,), fetched) && match fetched {
            Err(e) => after == before && result == Err::<(), ApiError>(e),
            Ok(body) => body_outcome(helpers, before, body, after, result),
        };
    let body = fetched->Ok_0;
    assert(fetch.ensures((&candidate.tweet_id,), Ok(body)));
    assert(covers(s0, s0.tweets[i], body));
    lemma_fills_keeps(s0, before, i);
    assert(covers(before, before.tweets[i], body));
    assert(same_but_metrics(before.tweets[i], after.tweets[i]));
    if helpers {
        let stamps = choose|stamps: Seq<Stamp>|
            (Outcome { state: after, result }) == #[trigger] handle_media_spec(
                before,
                body.data,
                body.includes,
                stamps,
            );
        lemma_media_closes(before, i, body, stamps);
    } else {
        let draws = choose|draws: BodyDraws|
            (Outcome { state: after, result }) == #[trigger] process_rt_original_tweet_spec(
                before,
                body,
                draws,
            );
        lemma_core_item_closes(before, i, body, draws);
    }
}

/// Each state of a repair fills the ones before it.
pub proof fn lemma_trace_fills<F: Fn(&String) -> Result<TweetBody, ApiError>>(
    fetch: F,
    helpers: bool,
    candidates: Seq<Tweet>,
    states: Seq<StoreView>,
    results: Seq<Result<(), ApiError>>,
    s0: StoreView,
    a: int,
    b: int,
)
    requires
        backfill_trace(fetch, helpers, candidates, states, results),
        upstream_complete(fetch, s0),
        0 <= a <= b <= results.len(),
    ensures
        fills(states[a], states[b]),
    decreases b - a,
{
    if a == b {
        lemma_fills_reflexive(states[a]);
    } else {
        let j = b - 1;
        lemma_trace_fills(fetch, helpers, candidates, states, results, s0, a, j);
        assert(backfill_item(fetch, helpers, states[j], candidates[j], states[j + 1], results[j]));
        lemma_item_fills(
            fetch,
            helpers,
            states[j],
            candidates[j],
            states[j + 1],
            results[j],
            s0,
        );
        lemma_fills_transitive(states[a], states[j], states[b]);
    }
}

/// The row is a candidate of the given kind.
pub open spec fn is_candidate_row(s: StoreView, helpers: bool, window_start: i64, i: int) -> bool {
    0 <= i < s.tweets.len() && if helpers {
        helper_candidate(s, s.tweets[i], window_start)
    } else {
        core_candidate(s, s.tweets[i], window_start)
    }
}

/// A round in which every candidate went through leaves no candidate of
/// its kind, for its own window and any that starts later, provided the
/// upstream service answers in full.
pub proof fn lemma_round_closes<F: Fn(&String) -> Result<TweetBody, ApiError>>(
    fetch: F,
    helpers: bool,
    s0: StoreView,
    s: StoreView,
    window_start: i64,
    order: BackfillOrder,
    candidates: Seq<Tweet>,
    end: StoreView,
    report: RoundReport,
    later: i64,
    i: int,
)
    requires
        sound(s0),
        fills(s0, s),
        upstream_complete(fetch, s0),
        is_backfill(s, helpers, window_start, order, tweet_views(candidates)),
        is_backfill_round(fetch, helpers, s, candidates, end, report),
        report.completed == report.total,
        later >= window_start,
    ensures
        fills(s, end),
        !is_candidate_row(end, helpers, later, i),
{
    let (states, results) = choose|states: Seq<StoreView>, results: Seq<Result<(), ApiError>>|
        {
            &&& #[trigger] backfill_trace(fetch, helpers, candidates, states, results)
            &&& results.len() == report.attempted
            &&& states[0] == s
            &&& states.last() == end
            &&& report.completed == count_ok(results)
        };
    lemma_count_ok(results);
    let n = results.len() as int;
    assert(n == candidates.len());
    lemma_trace_fills(fetch, helpers, candidates, states, results, s0, 0, n);
    if is_candidate_row(end, helpers, later, i) {
        lemma_fills_candidates(s, end, later, i);
        lemma_fills_candidates(s0, s, later, i);
        let keys = candidate_keys(s, helpers, window_start);
        let r = choose|r: Seq<usize>|
            #[trigger] is_full_ranking(keys, order.descending(), r) && tweet_views(candidates)
                == Seq::new(r.len(), |k: int| s.tweets[r[k] as int]);
        assert(keys[i] is Some);
        assert(listed(r, i));
        let k = choose|k: int| 0 <= k < r.len() && r[k] == i;
        let shown = Seq::new(r.len(), |k: int| s.tweets[r[k] as int]);
        assert(tweet_views(candidates).len() == shown.len());
        assert(candidates.len() == r.len());
        assert(shown[k] == s.tweets[i]);
        assert(tweet_views(candidates)[k] == s.tweets[i]);
        assert(candidates[k]@ == s.tweets[i]);
        assert(same_but_metrics(s0.tweets[i], s.tweets[i]));
        lemma_trace_fills(fetch, helpers, candidates, states, results, s0, 0, k);
        lemma_fills_transitive(s0, s, states[k]);
        assert(backfill_item(fetch, helpers, states[k], candidates[k], states[k + 1], results[k]));
        lemma_item_closes(
            fetch,
            helpers,
            states[k],
            candidates[k],
            states[k + 1],
            results[k],
            s0,
            i,
        );
        lemma_trace_fills(fetch, helpers, candidates, states, results, s0, k + 1, n);
        lemma_fills_transitive(s0, states[k], states[k + 1]);
        assert(i < states[k + 1].tweets.len());
        lemma_fills_keeps(states[k + 1], end, i);
    }
}

/// Repair converges. A repair takes a well-formed store through a round
/// over its incomplete timeline tweets and a round over the helper tweets
/// that are incomplete after it. Where every candidate of both rounds went
/// through and the upstream service answers in full, a selection made
/// afterwards, of either kind and for a window that starts no earlier than
/// those of the repair, is empty: a second repair finds nothing to do.
pub proof fn lemma_repair_converges<F: Fn(&String) -> Result<TweetBody, ApiError>>(
    fetch: F,
    order: BackfillOrder,
    s0: StoreView,
    first: Seq<Tweet>,
    first_window: i64,
    core: RoundReport,
    mid: StoreView,
    second: Seq<Tweet>,
    second_window: i64,
    helpers: RoundReport,
    end: StoreView,
    kind: bool,
    window_start: i64,
    again: BackfillOrder,
    rows: Seq<TweetView>,
)
    requires
        s0.wf(),
        upstream_complete(fetch, s0),
        is_backfill(s0, false, first_window, order, tweet_views(first)),
        is_backfill_round(fetch, false, s0, first, mid, core),
        core.completed == core.total,
        is_backfill(mid, true, second_window, order, tweet_views(second)),
        is_backfill_round(fetch, true, mid, second, end, helpers),
        helpers.completed == helpers.total,
        window_start >= first_window,
        window_start >= second_window,
        is_backfill(end, kind, window_start, again, rows),
    ensures
        rows.len() == 0,
{
    lemma_wf_is_sound(s0);
    lemma_fills_reflexive(s0);
    let keys = candidate_keys(end, kind, window_start);
    let r = choose|r: Seq<usize>|
        #[trigger] is_full_ranking(keys, again.descending(), r) && rows == Seq::new(
            r.len(),
            |k: int| end.tweets[r[k] as int],
        );
    if r.len() > 0 {
        let i = r[0] as int;
        assert(keys[r[0] as int] is Some);
        assert(is_candidate_row(end, kind, window_start, i));
        lemma_round_closes(
            fetch,
            false,
            s0,
            s0,
            first_window,
            order,
            first,
            mid,
            core,
            window_start,
            i,
        );
        lemma_round_closes(
            fetch,
            true,
            s0,
            mid,
            second_window,
            order,
            second,
            end,
            helpers,
            window_start,
            i,
        );
        if !kind {
            lemma_fills_candidates(mid, end, window_start, i);
        }
    }
}

/// A round without candidates takes nothing up and changes nothing.
pub proof fn lemma_empty_round<F: Fn(&String) -> Result<TweetBody, ApiError>>(
    fetch: F,
    helpers: bool,
    s: StoreView,
    candidates: Seq<Tweet>,
    end: StoreView,
    report: RoundReport,
)
    requires
        is_backfill_round(fetch, helpers, s, candidates, end, report),
        candidates.len() == 0,
    ensures
        end == s,
        report == (RoundReport { total: 0, attempted: 0, completed: 0 }),
{
    let (states, results) = choose|states: Seq<StoreView>, results: Seq<Result<(), ApiError>>|
        {
            &&& #[trigger] backfill_trace(fetch, helpers, candidates, states, results)
            &&& results.len() == report.attempted
            &&& states[0] == s
            &&& states.last() == end
            &&& report.completed == count_ok(results)
        };
    assert(results.len() == 0);
}

/// A second repair finds nothing to do. Where a repair of a well-formed
/// store took every candidate of both its rounds through, and the
/// upstream service answers in full, a repair that follows it, at the same
/// time of the clock or a later one, selects no candidate of either kind,
/// takes up no item, and leaves the store as the first repair left it.
pub proof fn lemma_second_repair_is_idle<F: Fn(&String) -> Result<TweetBody, ApiError>>(
    fetch: F,
    order: BackfillOrder,
    s0: StoreView,
    s1: StoreView,
    core: RoundReport,
    helpers: RoundReport,
    now: i64,
    again: BackfillOrder,
    s2: StoreView,
    core_again: RoundReport,
    helpers_again: RoundReport,
    later: i64,
)
    requires
        s0.wf(),
        upstream_complete(fetch, s0),
        is_repair_at(fetch, order, s0, s1, core, helpers, now),
        core.completed == core.total,
        helpers.completed == helpers.total,
        is_repair_at(fetch, again, s1, s2, core_again, helpers_again, later),
        later >= now,
    ensures
        s2 == s1,
        core_again == (RoundReport { total: 0, attempted: 0, completed: 0 }),
        helpers_again == (RoundReport { total: 0, attempted: 0, completed: 0 }),
{
    let (first, mid, second) = choose|first: Seq<Tweet>, mid: StoreView, second: Seq<Tweet>|
        #![trigger is_backfill_round(fetch, false, s0, first, mid, core), is_backfill_round(fetch, true, mid, second, s1, helpers)]
        {
            &&& is_backfill(s0, false, lookback_start(now, BACKFILL_DAYS), order, tweet_views(first))
            &&& is_backfill_round(fetch, false, s0, first, mid, core)
            &&& is_backfill(mid, true, lookback_start(now, BACKFILL_DAYS), order, tweet_views(second))
            &&& is_backfill_round(fetch, true, mid, second, s1, helpers)
        };
    let (first2, mid2, second2) = choose|first: Seq<Tweet>, mid: StoreView, second: Seq<Tweet>|
        #![trigger is_backfill_round(fetch, false, s1, first, mid, core_again), is_backfill_round(fetch, true, mid, second, s2, helpers_again)]
        {
            &&& is_backfill(
                s1,
                false,
                lookback_start(later, BACKFILL_DAYS),
                again,
                tweet_views(first),
            )
            &&& is_backfill_round(fetch, false, s1, first, mid, core_again)
            &&& is_backfill(
                mid,
                true,
                lookback_start(later, BACKFILL_DAYS),
                again,
                tweet_views(second),
            )
            &&& is_backfill_round(fetch, true, mid, second, s2, helpers_again)
        };
    let w1 = lookback_start(now, BACKFILL_DAYS);
    let w2 = lookback_start(later, BACKFILL_DAYS);
    assert(w2 >= w1);
    lemma_repair_converges(
        fetch,
        order,
        s0,
        first,
        w1,
        core,
        mid,
        second,
        w1,
        helpers,
        s1,
        false,
        w2,
        again,
        tweet_views(first2),
    );
    assert(first2.len() == tweet_views(first2).len());
    lemma_empty_round(fetch, false, s1, first2, mid2, core_again);
    lemma_repair_converges(
        fetch,
        order,
        s0,
        first,
        w1,
        core,
        mid,
        second,
        w1,
        helpers,
        s1,
        true,
        w2,
        again,
        tweet_views(second2),
    );
    assert(second2.len() == tweet_views(second2).len());
    lemma_empty_round(fetch, true, mid2, second2, s2, helpers_again);
}

} // verus!
