use vstd::prelude::*;
use crate::twitter::model::media::{handle_media_spec, handle_media_traced};
use crate::twitter::model::payload::{Timeline, TweetBody, TweetPayload, UserPayload, Includes};
use crate::twitter::model::store::{
    lemma_run_agree, lemma_run_stuck, run, Outcome, Stamp, Store, StoreView, TweetClass,
};
use crate::twitter::model::tweet::{store_tweet_spec, store_tweet_traced};
use crate::twitter::model::user::{store_user_spec, store_user_with};
use crate::utils::errors::ApiError;
use crate::utils::outside::{new_row_id, now_micros};

verus! {

/// `store_user_spec` as a step of `run`.
pub open spec fn user_step() -> spec_fn(StoreView, UserPayload, Stamp) -> Outcome {
    |st: StoreView, u: UserPayload, d: Stamp| store_user_spec(st, u, d)
}

/// `store_tweet_spec` with a fixed side-car and class, as a step of `run`.
pub open spec fn tweet_step(includes: Includes, class: TweetClass) -> spec_fn(
    StoreView,
    TweetPayload,
    Seq<Stamp>,
) -> Outcome {
    |st: StoreView, t: TweetPayload, d: Seq<Stamp>| store_tweet_spec(st, t, includes, class, d)
}

/// Elements of an optional list; none where the list is missing.
pub open spec fn items_of<T>(list: Option<Vec<T>>) -> Seq<T> {
    match list {
        Some(v) => v@,
        None => Seq::empty(),
    }
}

/// Users stored in order, up to the first failure.
pub open spec fn store_users_spec(s: StoreView, users: Seq<UserPayload>, draws: Seq<Stamp>) -> Outcome {
    run(user_step(), s, users, draws, users.len())
}

/// Tweets stored in order, up to the first failure.
pub open spec fn store_tweets_spec(
    s: StoreView,
    tweets: Seq<TweetPayload>,
    includes: Includes,
    class: TweetClass,
    draws: Seq<Seq<Stamp>>,
) -> Outcome {
    run(tweet_step(includes, class), s, tweets, draws, tweets.len())
}

/// Stamps drawn while a timeline is processed.
pub struct TimelineDraws {
    pub users: Seq<Stamp>,
    pub tweets: Seq<Seq<Stamp>>,
    pub helpers: Seq<Seq<Stamp>>,
}

/// A timeline goes into the store in three passes, each ended by its
/// first failure: the side-car's users, then the timeline's tweets as
/// `Normal`, then the side-car's tweets as `Helper`.
pub open spec fn process_user_timeline_spec(s: StoreView, timeline: Timeline, draws: TimelineDraws) -> Outcome {
    let users = store_users_spec(s, items_of(timeline.includes.users), draws.users);
    if users.result is Err {
        users
    } else {
        let tweets = store_tweets_spec(
            users.state,
            items_of(timeline.data),
            timeline.includes,
            TweetClass::Normal,
            draws.tweets,
        );
        if tweets.result is Err {
            tweets
        } else {
            store_tweets_spec(
                tweets.state,
                items_of(timeline.includes.tweets),
                timeline.includes,
                TweetClass::Helper,
                draws.helpers,
            )
        }
    }
}

/// Stamps drawn while a single-tweet response is processed.
pub struct BodyDraws {
    pub media: Seq<Stamp>,
    pub users: Seq<Stamp>,
    pub helpers: Seq<Seq<Stamp>>,
}

/// A re-fetched timeline tweet goes into the store in three passes, each
/// ended by its first failure: its media, the side-car's users, then the
/// side-car's tweets as `Helper`.
pub open spec fn process_rt_original_tweet_spec(s: StoreView, body: TweetBody, draws: BodyDraws) -> Outcome {
    let media = handle_media_spec(s, body.data, body.includes, draws.media);
    if media.result is Err {
        media
    } else {
        let users = store_users_spec(media.state, items_of(body.includes.users), draws.users);
        if users.result is Err {
            users
        } else {
            store_tweets_spec(
                users.state,
                items_of(body.includes.tweets),
                body.includes,
                TweetClass::Helper,
                draws.helpers,
            )
        }
    }
}

/// `store_users`, with the stamps it drew.
pub(crate) fn store_users_traced(store: &mut Store, users: &Vec<UserPayload>) -> (r: (
    Result<(), ApiError>,
    Ghost<Seq<Stamp>>,
))
    ensures
        (Outcome { state: final(store)@, result: r.0 }) == store_users_spec(
            old(store)@,
            users@,
            r.1@,
        ),
        old(store).wf() ==> final(store).wf(),
{
    let ghost s0 = old(store)@;
    let ghost mut draws: Seq<Stamp> = Seq::empty();
    let mut i: usize = 0;
    while i < users.len()
        invariant
            i <= users.len(),
            draws.len() == i,
            s0 == old(store)@,
            (Outcome { state: store@, result: Ok(()) }) == run(
                user_step(),
                s0,
                users@,
                draws,
                i as nat,
            ),
            s0.wf() ==> store.wf(),
        decreases users.len() - i,
    {
        let stamp = Stamp { id: new_row_id(), at: now_micros() };
        proof {
            let prev = draws;
            draws = draws.push(stamp);
            lemma_run_agree(user_step(), s0, users@, prev, draws, i as nat);
        }
        let r = store_user_with(store, &users[i], stamp);
        if r.is_err() {
            proof {
                lemma_run_stuck(user_step(), s0, users@, draws, (i + 1) as nat, users@.len());
            }
            return (r, Ghost(draws));
        }
        i += 1;
    }
    (Ok(()), Ghost(draws))
}

/// `store_tweets`, with the stamps it drew.
pub(crate) fn store_tweets_traced(
    store: &mut Store,
    tweets: &Vec<TweetPayload>,
    includes: &Includes,
    class: TweetClass,
) -> (r: (Result<(), ApiError>, Ghost<Seq<Seq<Stamp>>>))
    ensures
        (Outcome { state: final(store)@, result: r.0 }) == store_tweets_spec(
            old(store)@,
            tweets@,
            *includes,
            class,
            r.1@,
        ),
        old(store).wf() ==> final(store).wf(),
{
    let ghost s0 = old(store)@;
    let ghost step = tweet_step(*includes, class);
    let ghost mut draws: Seq<Seq<Stamp>> = Seq::empty();
    let mut i: usize = 0;
    while i < tweets.len()
        invariant
            i <= tweets.len(),
            draws.len() == i,
            s0 == old(store)@,
            step == tweet_step(*includes, class),
            (Outcome { state: store@, result: Ok(()) }) == run(step, s0, tweets@, draws, i as nat),
            s0.wf() ==> store.wf(),
        decreases tweets.len() - i,
    {
        let (r, Ghost(drawn)) = store_tweet_traced(store, &tweets[i], includes, class);
        proof {
            let prev = draws;
            draws = draws.push(drawn);
            lemma_run_agree(step, s0, tweets@, prev, draws, i as nat);
        }
        if r.is_err() {
            proof {
                lemma_run_stuck(step, s0, tweets@, draws, (i + 1) as nat, tweets@.len());
            }
            return (r, Ghost(draws));
        }
        i += 1;
    }
    (Ok(()), Ghost(draws))
}

/// Stores the users of a batch in order; the first failure ends the call.
pub(crate) fn store_users(store: &mut Store, users: &Option<Vec<UserPayload>>) -> (r: (
    Result<(), ApiError>,
    Ghost<Seq<Stamp>>,
))
    ensures
        (Outcome { state: final(store)@, result: r.0 }) == store_users_spec(
            old(store)@,
            items_of(*users),
            r.1@,
        ),
        old(store).wf() ==> final(store).wf(),
{
    match users {
        Some(list) => store_users_traced(store, list),
        None => (Ok(()), Ghost(Seq::empty())),
    }
}

/// Stores the tweets of a batch in order under one class; the first
/// failure ends the call.
pub(crate) fn store_tweets(
    store: &mut Store,
    tweets: &Option<Vec<TweetPayload>>,
    includes: &Includes,
    class: TweetClass,
) -> (r: (Result<(), ApiError>, Ghost<Seq<Seq<Stamp>>>))
    ensures
        (Outcome { state: final(store)@, result: r.0 }) == store_tweets_spec(
            old(store)@,
            items_of(*tweets),
            *includes,
            class,
            r.1@,
        ),
        old(store).wf() ==> final(store).wf(),
{
    match tweets {
        Some(list) => store_tweets_traced(store, list, includes, class),
        None => (Ok(()), Ghost(Seq::empty())),
    }
}

/// Stores what one timeline holds: users first, since tweets refer to
/// them, then the timeline's tweets, then the tweets they refer to.
pub fn process_user_timeline(store: &mut Store, user_timeline: &Timeline) -> (r: Result<
    (),
    ApiError,
>)
    ensures
        exists|draws: TimelineDraws|
            (Outcome { state: final(store)@, result: r }) == #[trigger] process_user_timeline_spec(
                old(store)@,
                *user_timeline,
                draws,
            ),
        old(store).wf() ==> final(store).wf(),
{
    let (r, Ghost(users)) = store_users(store, &user_timeline.includes.users);
    if r.is_err() {
        proof {
            let draws = TimelineDraws { users, tweets: Seq::empty(), helpers: Seq::empty() };
            assert((Outcome { state: store@, result: r }) == process_user_timeline_spec(
                old(store)@,
                *user_timeline,
                draws,
            ));
        }
        return r;
    }
    let (r, Ghost(tweets)) = store_tweets(
        store,
        &user_timeline.data,
        &user_timeline.includes,
        TweetClass::Normal,
    );
    if r.is_err() {
        proof {
            let draws = TimelineDraws { users, tweets, helpers: Seq::empty() };
            assert((Outcome { state: store@, result: r }) == process_user_timeline_spec(
                old(store)@,
                *user_timeline,
                draws,
            ));
        }
        return r;
    }
    let (r, Ghost(helpers)) = store_tweets(
        store,
        &user_timeline.includes.tweets,
        &user_timeline.includes,
        TweetClass::Helper,
    );
    proof {
        let draws = TimelineDraws { users, tweets, helpers };
        assert((Outcome { state: store@, result: r }) == process_user_timeline_spec(
            old(store)@,
            *user_timeline,
            draws,
        ));
    }
    r
}

/// Stores what a re-fetched timeline tweet holds: its media, then the
/// users and the tweets that it refers to.
pub fn process_rt_original_tweet(store: &mut Store, tweet_body: &TweetBody) -> (r: Result<
    (),
    ApiError,
>)
    ensures
        exists|draws: BodyDraws|
            (Outcome { state: final(store)@, result: r }) == #[trigger] process_rt_original_tweet_spec(
                old(store)@,
                *tweet_body,
                draws,
            ),
        old(store).wf() ==> final(store).wf(),
{
    let (r, Ghost(media)) = handle_media_traced(store, &tweet_body.data, &tweet_body.includes);
    if r.is_err() {
        proof {
            let draws = BodyDraws { media, users: Seq::empty(), helpers: Seq::empty() };
            assert((Outcome { state: store@, result: r }) == process_rt_original_tweet_spec(
                old(store)@,
                *tweet_body,
                draws,
            ));
        }
        return r;
    }
    let (r, Ghost(users)) = store_users(store, &tweet_body.includes.users);
    if r.is_err() {
        proof {
            let draws = BodyDraws { media, users, helpers: Seq::empty() };
            assert((Outcome { state: store@, result: r }) == process_rt_original_tweet_spec(
                old(store)@,
                *tweet_body,
                draws,
            ));
        }
        return r;
    }
    let (r, Ghost(helpers)) = store_tweets(
        store,
        &tweet_body.includes.tweets,
        &tweet_body.includes,
        TweetClass::Helper,
    );
    proof {
        let draws = BodyDraws { media, users, helpers };
        assert((Outcome { state: store@, result: r }) == process_rt_original_tweet_spec(
            old(store)@,
            *tweet_body,
            draws,
        ));
    }
    r
}

/// Stores what a re-fetched helper tweet holds: its media.
pub fn process_helper_tweet(store: &mut Store, tweet_body: &TweetBody) -> (r: Result<(), ApiError>)
    ensures
        exists|stamps: Seq<Stamp>|
            (Outcome { state: final(store)@, result: r }) == #[trigger] handle_media_spec(
                old(store)@,
                tweet_body.data,
                tweet_body.includes,
                stamps,
            ),
        old(store).wf() ==> final(store).wf(),
{
    let (r, Ghost(stamps)) = handle_media_traced(store, &tweet_body.data, &tweet_body.includes);
    r
}

} // verus!
