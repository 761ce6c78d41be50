use vstd::prelude::*;
use crate::config::Settings;
use crate::twitter::model::backfill::{
    core_tweets_to_backfill_at, helper_tweets_to_backfill_at, is_backfill, lookback_start,
    BackfillOrder,
};
use crate::twitter::model::media::handle_media_spec;
use crate::twitter::model::payload::{Timeline, TweetBody, UserPayload};
use crate::twitter::model::store::{Outcome, Stamp, Store, StoreView, Tweet};
use crate::twitter::routes::serve::tweet_views;
use crate::twitter::pipeline::loops::{
    capped_total, capped_total_spec, count_ok, lemma_trace_keeps, loop_until_hit_rate_limit,
    round_trace, RoundReport,
};
use crate::twitter::pipeline::processors::{
    process_helper_tweet, process_rt_original_tweet, process_rt_original_tweet_spec,
    process_user_timeline, process_user_timeline_spec, BodyDraws, TimelineDraws,
};
use crate::utils::errors::{ApiError, Malformed};
use crate::utils::general::Named;
use crate::utils::outside::now_micros;

verus! {

/// Most timelines pulled in one round.
pub const PULL_BUDGET: usize = 1500;

/// Most tweets re-fetched in one round of repair.
pub const BACKFILL_BUDGET: usize = 900;

/// Days that the repair looks back.
pub const BACKFILL_DAYS: i64 = 7;

/// The per-item processors of the rounds.
#[derive(Clone, Copy, Debug, PartialEq, Eq, Structural)]
pub enum Processor {
    UserTimeline,
    RtOriginalTweet,
    HelperTweet,
}

impl Named for Processor {
    open spec fn name_spec(&self) -> Seq<char> {
        match self {
            Processor::UserTimeline => "process_user_timeline"@,
            Processor::RtOriginalTweet => "process_rt_original_tweet"@,
            Processor::HelperTweet => "process_helper_tweet"@,
        }
    }

    fn name(&self) -> (r: &'static str) {
        match self {
            Processor::UserTimeline => "process_user_timeline",
            Processor::RtOriginalTweet => "process_rt_original_tweet",
            Processor::HelperTweet => "process_helper_tweet",
        }
    }
}

/// What one followed account does to the store in a pull: its timeline
/// is fetched under its id and processed. An account without an id, and a
/// fetch that fails, leave the store as it was.
pub open spec fn pull_item<F: Fn(&String) -> Result<Timeline, ApiError>>(
    fetch: F,
    before: StoreView,
    user: UserPayload,
    after: StoreView,
    result: Result<(), ApiError>,
) -> bool {
    match user.id {
        None => after == before && result == Err::<(), ApiError>(
            ApiError::PermanentUpstream(Malformed::NoUserId),
        ),
        Some(id) => exists|fetched: Result<Timeline, ApiError>|
            #[trigger] fetch.ensures((&id,), fetched) && match fetched {
                Err(e) => after == before && result == Err::<(), ApiError>(e),
                Ok(timeline) => exists|draws: TimelineDraws|
                    (Outcome { state: after, result }) == #[trigger] process_user_timeline_spec(
                        before,
                        timeline,
                        draws,
                    ),
            },
    }
}

/// `states` and `results` record a pull over the first accounts, in order.
pub open spec fn pull_trace<F: Fn(&String) -> Result<Timeline, ApiError>>(
    fetch: F,
    users: Seq<UserPayload>,
    states: Seq<StoreView>,
    results: Seq<Result<(), ApiError>>,
) -> bool {
    &&& states.len() == results.len() + 1
    &&& results.len() <= users.len()
    &&& forall|k: int|
        0 <= k < results.len() ==> #[trigger] pull_item(
            fetch,
            states[k],
            users[k],
            states[k + 1],
            results[k],
        )
}

/// Pulls the timelines of the followed accounts: of the first accounts of
/// the list, as many as the settings and `PULL_BUDGET` allow, each fetched
/// with `get_user_timeline` and stored. A failure for one account is
/// counted and never ends the round.
pub fn pull_timelines_for_followed_users<F>(
    store: Store,
    config: &Settings,
    users: &Vec<UserPayload>,
    get_user_timeline: F,
) -> (r: (Store, RoundReport)) where F: Fn(&String) -> Result<Timeline, ApiError>
    requires
        forall|id: String| get_user_timeline.requires((&id,)),
    ensures
        r.1.total == users@.len(),
        r.1.attempted == capped_total_spec(
            users@.len(),
            capped_total_spec(config.app.max_users as nat, PULL_BUDGET as nat),
        ),
        exists|states: Seq<StoreView>, results: Seq<Result<(), ApiError>>|
            {
                &&& #[trigger] pull_trace(get_user_timeline, users@, states, results)
                &&& results.len() == r.1.attempted
                &&& states[0] == store@
                &&& states.last() == r.0@
                &&& r.1.completed == count_ok(results)
            },
        store.wf() ==> r.0.wf(),
{
    let limit = capped_total(config.app.max_users, PULL_BUDGET);
    let fetch = &get_user_timeline;
    let process = |s: Store, user: &UserPayload| -> (out: (Store, Result<(), ApiError>))
        requires
            forall|id: String| fetch.requires((&id,)),
        ensures
            pull_item(*fetch, s@, *user, out.0@, out.1),
            s.wf() ==> out.0.wf(),
        {
            let mut s = s;
            match &user.id {
                None => (s, Err(ApiError::PermanentUpstream(Malformed::NoUserId))),
                Some(id) => match fetch(id) {
                    Err(e) => (s, Err(e)),
                    Ok(timeline) => {
                        let r = process_user_timeline(&mut s, &timeline);
                        (s, r)
                    },
                },
            }
        };
    let (after, report) = loop_until_hit_rate_limit(users.as_slice(), store, process, limit);
    proof {
        let (states, results) = choose|
            states: Seq<Store>,
            results: Seq<Result<(), ApiError>>,
        |
            {
                &&& #[trigger] round_trace(process, users@, states, results)
                &&& results.len() == report.attempted
                &&& states[0] == store
                &&& states.last() == after
                &&& report.completed == count_ok(results)
            };
        let views = Seq::new(states.len(), |k: int| states[k]@);
        assert forall|k: int| 0 <= k < results.len() implies #[trigger] pull_item(
            get_user_timeline,
            views[k],
            users@[k],
            views[k + 1],
            results[k],
        ) by {
            assert(process.ensures((states[k], &users@[k]), (states[k + 1], results[k])));
        }
        assert(pull_trace(get_user_timeline, users@, views, results));
        assert(views.last() == after@);
        if store.wf() {
            lemma_trace_keeps(
                process,
                users@,
                states,
                results,
                |s: Store| s.wf(),
                states.len() - 1,
            );
        }
    }
    (after, report)
}

/// What a re-fetched tweet does to the store: a helper has its media
/// stored; any other tweet its media, then the users and tweets that it
/// refers to.
pub open spec fn body_outcome(
    helpers: bool,
    before: StoreView,
    body: TweetBody,
    after: StoreView,
    result: Result<(), ApiError>,
) -> bool {
    if helpers {
        exists|stamps: Seq<Stamp>|
            (Outcome { state: after, result }) == #[trigger] handle_media_spec(
                before,
                body.data,
                body.includes,
                stamps,
            )
    } else {
        exists|draws: BodyDraws|
            (Outcome { state: after, result }) == #[trigger] process_rt_original_tweet_spec(
                before,
                body,
                draws,
            )
    }
}

/// What one candidate does to the store in a repair: it is fetched anew
/// under its external id and processed. A fetch that fails leaves the
/// store as it was.
pub open spec fn backfill_item<F: Fn(&String) -> Result<TweetBody, ApiError>>(
    fetch: F,
    helpers: bool,
    before: StoreView,
    candidate: Tweet,
    after: StoreView,
    result: Result<(), ApiError>,
) -> bool {
    exists|fetched: Result<TweetBody, ApiError>|
        #[trigger] fetch.ensures((&candidate.tweet_id,), fetched) && match fetched {
            Err(e) => after == before && result == Err::<(), ApiError>(e),
            Ok(body) => body_outcome(helpers, before, body, after, result),
        }
}

/// One round of repair took the store from `before` to `after`: the
/// first candidates, as many as `BACKFILL_BUDGET` allows, were fetched
/// anew and processed in order, each failure counted.
pub open spec fn is_backfill_round<F: Fn(&String) -> Result<TweetBody, ApiError>>(
    fetch: F,
    helpers: bool,
    before: StoreView,
    candidates: Seq<Tweet>,
    after: StoreView,
    report: RoundReport,
) -> bool {
    &&& report.total == candidates.len()
    &&& report.attempted == capped_total_spec(candidates.len(), BACKFILL_BUDGET as nat)
    &&& exists|states: Seq<StoreView>, results: Seq<Result<(), ApiError>>|
        {
            &&& #[trigger] backfill_trace(fetch, helpers, candidates, states, results)
            &&& results.len() == report.attempted
            &&& states[0] == before
            &&& states.last() == after
            &&& report.completed == count_ok(results)
        }
}

/// `states` and `results` record a repair over the first candidates.
pub open spec fn backfill_trace<F: Fn(&String) -> Result<TweetBody, ApiError>>(
    fetch: F,
    helpers: bool,
    candidates: Seq<Tweet>,
    states: Seq<StoreView>,
    results: Seq<Result<(), ApiError>>,
) -> bool {
    &&& states.len() == results.len() + 1
    &&& results.len() <= candidates.len()
    &&& forall|k: int|
        0 <= k < results.len() ==> #[trigger] backfill_item(
            fetch,
            helpers,
            states[k],
            candidates[k],
            states[k + 1],
            results[k],
        )
}

/// One round of repair over candidates of one kind.
pub fn backfill_round<F>(
    store: Store,
    candidates: &Vec<Tweet>,
    helpers: bool,
    get_single_tweet: &F,
) -> (r: (Store, RoundReport)) where F: Fn(&String) -> Result<TweetBody, ApiError>
    requires
        forall|id: String| get_single_tweet.requires((&id,)),
    ensures
        is_backfill_round(*get_single_tweet, helpers, store@, candidates@, r.0@, r.1),
        store.wf() ==> r.0.wf(),
{
    let process = |s: Store, candidate: &Tweet| -> (out: (Store, Result<(), ApiError>))
        requires
            forall|id: String| get_single_tweet.requires((&id,)),
        ensures
            backfill_item(*get_single_tweet, helpers, s@, *candidate, out.0@, out.1),
            s.wf() ==> out.0.wf(),
        {
            let mut s = s;
            match get_single_tweet(&candidate.tweet_id) {
                Err(e) => (s, Err(e)),
                Ok(body) => {
                    let r = if helpers {
                        process_helper_tweet(&mut s, &body)
                    } else {
                        process_rt_original_tweet(&mut s, &body)
                    };
                    (s, r)
                },
            }
        };
    let (after, report) = loop_until_hit_rate_limit(
        candidates.as_slice(),
        store,
        process,
        BACKFILL_BUDGET,
    );
    proof {
        let (states, results) = choose|
            states: Seq<Store>,
            results: Seq<Result<(), ApiError>>,
        |
            {
                &&& #[trigger] round_trace(process, candidates@, states, results)
                &&& results.len() == report.attempted
                &&& states[0] == store
                &&& states.last() == after
                &&& report.completed == count_ok(results)
            };
        let views = Seq::new(states.len(), |k: int| states[k]@);
        assert forall|k: int| 0 <= k < results.len() implies #[trigger] backfill_item(
            *get_single_tweet,
            helpers,
            views[k],
            candidates@[k],
            views[k + 1],
            results[k],
        ) by {
            assert(process.ensures((states[k], &candidates@[k]), (states[k + 1], results[k])));
        }
        assert(backfill_trace(*get_single_tweet, helpers, candidates@, views, results));
        assert(views.last() == after@);
        if store.wf() {
            lemma_trace_keeps(
                process,
                candidates@,
                states,
                results,
                |s: Store| s.wf(),
                states.len() - 1,
            );
        }
    }
    (after, report)
}

/// What a whole repair does when the clock reads `now`: the incomplete
/// timeline tweets of the last `BACKFILL_DAYS` days go through one round,
/// then the helper tweets that are incomplete after it go through another.
pub open spec fn is_repair_at<F: Fn(&String) -> Result<TweetBody, ApiError>>(
    fetch: F,
    order: BackfillOrder,
    before: StoreView,
    after: StoreView,
    core: RoundReport,
    helpers: RoundReport,
    now: i64,
) -> bool {
    exists|first: Seq<Tweet>, mid: StoreView, second: Seq<Tweet>|
        #![trigger is_backfill_round(fetch, false, before, first, mid, core), is_backfill_round(fetch, true, mid, second, after, helpers)]
        {
            &&& is_backfill(
                before,
                false,
                lookback_start(now, BACKFILL_DAYS),
                order,
                tweet_views(first),
            )
            &&& is_backfill_round(fetch, false, before, first, mid, core)
            &&& is_backfill(mid, true, lookback_start(now, BACKFILL_DAYS), order, tweet_views(second))
            &&& is_backfill_round(fetch, true, mid, second, after, helpers)
        }
}

/// What a whole repair does, at some time of the clock.
pub open spec fn is_repair<F: Fn(&String) -> Result<TweetBody, ApiError>>(
    fetch: F,
    order: BackfillOrder,
    before: StoreView,
    after: StoreView,
    core: RoundReport,
    helpers: RoundReport,
) -> bool {
    exists|now: i64|
        now >= 0 && #[trigger] is_repair_at(fetch, order, before, after, core, helpers, now)
}

/// Repairs the gaps of the store as they stand at a given time.
pub fn backfill_missing_media_and_helper_tweets_at<F>(
    store: Store,
    order: BackfillOrder,
    now: i64,
    get_single_tweet: F,
) -> (r: (Store, RoundReport, RoundReport)) where F: Fn(&String) -> Result<TweetBody, ApiError>
    requires
        forall|id: String| get_single_tweet.requires((&id,)),
    ensures
        is_repair_at(get_single_tweet, order, store@, r.0@, r.1, r.2, now),
        store.wf() ==> r.0.wf(),
{
    let core = core_tweets_to_backfill_at(&store, BACKFILL_DAYS, order, now);
    let (mid, core_report) = backfill_round(store, &core, false, &get_single_tweet);
    let helpers = helper_tweets_to_backfill_at(&mid, BACKFILL_DAYS, order, now);
    let ghost between = mid@;
    let (after, helper_report) = backfill_round(mid, &helpers, true, &get_single_tweet);
    proof {
        assert(is_backfill_round(get_single_tweet, false, store@, core@, between, core_report));
        assert(is_backfill_round(
            get_single_tweet,
            true,
            between,
            helpers@,
            after@,
            helper_report,
        ));
    }
    (after, core_report, helper_report)
}

/// Repairs the gaps of the store: re-fetches with `get_single_tweet` the
/// incomplete timeline tweets, stores their media and what they refer to,
/// then re-fetches the incomplete helper tweets and stores their media.
/// Each round is capped by `BACKFILL_BUDGET`; a failure for one tweet is
/// counted and never ends a round.
pub fn backfill_missing_media_and_helper_tweets<F>(
    store: Store,
    order: BackfillOrder,
    get_single_tweet: F,
) -> (r: (Store, RoundReport, RoundReport)) where F: Fn(&String) -> Result<TweetBody, ApiError>
    requires
        forall|id: String| get_single_tweet.requires((&id,)),
    ensures
        is_repair(get_single_tweet, order, store@, r.0@, r.1, r.2),
        store.wf() ==> r.0.wf(),
{
    let now = now_micros();
    backfill_missing_media_and_helper_tweets_at(store, order, now, get_single_tweet)
}

} // verus!
