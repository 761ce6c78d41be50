use vstd::prelude::*;
use crate::twitter::model::backfill::{
    core_candidate, dangling, has_gap, helper_candidate, lacks_media_url,
};
use crate::twitter::model::media::{
    catalog_of, display_url_of, final_media_objects, handle_media_spec, media_step,
    relevant_object, store_media_spec,
};
use crate::twitter::model::payload::{Includes, MediaPayload, TweetBody, TweetPayload, UserPayload};
use crate::twitter::model::store::{
    lemma_position, lemma_position_push, run, Stamp, StoreView, TweetClass, TweetMetrics,
    TweetView,
};
use crate::twitter::model::tweet::{
    insert_tweet_spec, plan_spec, refresh_spec, scan_refs, store_tweet_spec, Plan,
};
use crate::twitter::model::user::store_user_spec;
use crate::twitter::pipeline::processors::{
    items_of, process_rt_original_tweet_spec, store_tweets_spec, store_users_spec, tweet_step,
    user_step, BodyDraws,
};
use crate::utils::text::opt_text;

verus! {

/// Every media row refers to a stored tweet, and no key stands twice among
/// the media or among the tweets.
pub open spec fn sound(s: StoreView) -> bool {
    &&& forall|m: int|
        0 <= m < s.media.len() ==> s.tweet_by_id((#[trigger] s.media[m]).tweet_id) is Some
    &&& s.media_keys().no_duplicates()
    &&& s.tweet_keys().no_duplicates()
}

/// A well-formed store is sound.
pub proof fn lemma_wf_is_sound(s: StoreView)
    requires
        s.wf(),
    ensures
        sound(s),
{
    assert forall|m: int| 0 <= m < s.media.len() implies s.tweet_by_id(
        (#[trigger] s.media[m]).tweet_id,
    ) is Some by {
        assert(s.tweet_ids().contains(s.media[m].tweet_id));
        lemma_position(s.tweet_ids(), s.media[m].tweet_id);
    }
}

/// Two tweet rows that differ in their counters at most.
pub open spec fn same_but_metrics(a: TweetView, b: TweetView) -> bool {
    b == (TweetView { metrics: b.metrics, ..a })
}

/// The store `s2` comes from `s1` by filling only: tweet rows stay in
/// place and keep all but their counters; rows that were added are helpers
/// with fresh ids; a media row without an address is one that `s1` had
/// just so; every key and id that `s1` knew is known still; and soundness
/// is kept.
pub open spec fn fills(s1: StoreView, s2: StoreView) -> bool {
    &&& s1.tweets.len() <= s2.tweets.len()
    &&& forall|i: int|
        0 <= i < s1.tweets.len() ==> same_but_metrics(s1.tweets[i], #[trigger] s2.tweets[i])
    &&& forall|i: int|
        s1.tweets.len() <= i < s2.tweets.len() ==> (#[trigger] s2.tweets[i]).tweet_class
            == TweetClass::Helper && s1.tweet_by_id(s2.tweets[i].id) is None
    &&& forall|m: int|
        0 <= m < s2.media.len() && (#[trigger] s2.media[m]).display_url is None ==> m
            < s1.media.len() && s1.media[m] == s2.media[m]
    &&& forall|k: Seq<char>|
        s1.tweet_at(k) is Some ==> #[trigger] s2.tweet_at(k) == s1.tweet_at(k)
    &&& forall|x: u128| s1.tweet_by_id(x) is Some ==> (#[trigger] s2.tweet_by_id(x)) is Some
    &&& sound(s1) ==> sound(s2)
}

pub proof fn lemma_fills_reflexive(s: StoreView)
    ensures
        fills(s, s),
{
}

pub proof fn lemma_fills_transitive(a: StoreView, b: StoreView, c: StoreView)
    requires
        fills(a, b),
        fills(b, c),
    ensures
        fills(a, c),
{
    assert forall|i: int| 0 <= i < a.tweets.len() implies same_but_metrics(
        a.tweets[i],
        #[trigger] c.tweets[i],
    ) by {
        assert(same_but_metrics(a.tweets[i], b.tweets[i]));
        assert(same_but_metrics(b.tweets[i], c.tweets[i]));
    }
    assert forall|i: int| a.tweets.len() <= i < c.tweets.len() implies (#[trigger] c.tweets[i]).tweet_class
        == TweetClass::Helper && a.tweet_by_id(c.tweets[i].id) is None by {
        if i < b.tweets.len() {
            assert(same_but_metrics(b.tweets[i], c.tweets[i]));
            assert(b.tweets[i].tweet_class == TweetClass::Helper);
        } else {
            assert(b.tweet_by_id(c.tweets[i].id) is None);
            if a.tweet_by_id(c.tweets[i].id) is Some {
                assert(b.tweet_by_id(c.tweets[i].id) is Some);
            }
        }
    }
    assert forall|m: int|
        0 <= m < c.media.len() && (#[trigger] c.media[m]).display_url is None implies m
        < a.media.len() && a.media[m] == c.media[m] by {
        assert(b.media[m] == c.media[m]);
        assert(b.media[m].display_url is None);
    }
    assert forall|k: Seq<char>| a.tweet_at(k) is Some implies #[trigger] c.tweet_at(k)
        == a.tweet_at(k) by {
        assert(b.tweet_at(k) == a.tweet_at(k));
    }
    assert forall|x: u128| a.tweet_by_id(x) is Some implies (#[trigger] c.tweet_by_id(x)) is Some by {
        assert(b.tweet_by_id(x) is Some);
    }
}

/// Storing a user fills.
pub proof fn lemma_user_fills(s: StoreView, u: UserPayload, d: Stamp)
    ensures
        fills(s, store_user_spec(s, u, d).state),
{
    let t = store_user_spec(s, u, d).state;
    assert(t.tweets == s.tweets);
    assert(t.media == s.media);
    assert(t.tweet_keys() =~= s.tweet_keys());
    assert(t.tweet_ids() =~= s.tweet_ids());
    assert(t.media_keys() =~= s.media_keys());
}

/// Storing a media object that has an address fills, and the object's key
/// has an addressed row afterwards.
pub proof fn lemma_media_fills(s: StoreView, parent: u128, m: MediaPayload, d: Stamp)
    requires
        display_url_of(m) is Some,
    ensures
        fills(s, store_media_spec(s, parent, m, d).state),
        store_media_spec(s, parent, m, d).result is Ok ==> addressed_key(
            store_media_spec(s, parent, m, d).state,
            m.media_key->0@,
        ),
{
    let out = store_media_spec(s, parent, m, d);
    let t = out.state;
    assert(t.tweets == s.tweets);
    assert(t.tweet_keys() =~= s.tweet_keys());
    assert(t.tweet_ids() =~= s.tweet_ids());
    if out.result is Ok {
        let key = m.media_key->0@;
        lemma_position(s.media_keys(), key);
        match s.media_at(key) {
            Some(i) => {
                assert(t.media_keys() =~= s.media_keys());
                assert forall|r: int| 0 <= r < t.media.len() implies t.tweet_by_id(
                    (#[trigger] t.media[r]).tweet_id,
                ) is Some || !sound(s) by {
                    if sound(s) {
                        assert(s.tweet_by_id(s.media[r].tweet_id) is Some);
                    }
                }
            },
            None => {
                assert(t.media_keys() =~= s.media_keys().push(key));
                lemma_position_push(s.media_keys(), key, key);
                assert forall|r: int| 0 <= r < t.media.len() implies t.tweet_by_id(
                    (#[trigger] t.media[r]).tweet_id,
                ) is Some || !sound(s) by {
                    if sound(s) && r < s.media.len() {
                        assert(s.tweet_by_id(s.media[r].tweet_id) is Some);
                    }
                }
                if sound(s) {
                    assert forall|a: int, b: int|
                        0 <= a < t.media_keys().len() && 0 <= b < t.media_keys().len() && a
                            != b implies t.media_keys()[a] != t.media_keys()[b] by {
                        if a < s.media.len() && b < s.media.len() {
                            assert(s.media_keys()[a] != s.media_keys()[b]);
                        }
                    }
                }
            },
        }
    }
}

/// The key has a media row, and the first row under it has an address.
pub open spec fn addressed_key(s: StoreView, key: Seq<char>) -> bool {
    s.media_at(key) is Some && s.media[s.media_at(key)->0].display_url is Some
}

/// Appending a helper row fills.
pub proof fn lemma_insert_fills(s: StoreView, row: TweetView)
    requires
        row.tweet_class == TweetClass::Helper,
    ensures
        fills(s, insert_tweet_spec(s, row).state),
        insert_tweet_spec(s, row).result is Ok ==> insert_tweet_spec(s, row).state.tweet_at(
            row.tweet_id,
        ) is Some,
{
    let out = insert_tweet_spec(s, row);
    let t = out.state;
    if out.result is Ok {
        assert(t.media == s.media);
        assert(t.media_keys() =~= s.media_keys());
        assert(t.tweet_keys() =~= s.tweet_keys().push(row.tweet_id));
        assert(t.tweet_ids() =~= s.tweet_ids().push(row.id));
        lemma_position(s.tweet_keys(), row.tweet_id);
        assert forall|k: Seq<char>| s.tweet_at(k) is Some implies #[trigger] t.tweet_at(k)
            == s.tweet_at(k) by {
            lemma_position_push(s.tweet_keys(), row.tweet_id, k);
        }
        assert forall|x: u128| s.tweet_by_id(x) is Some implies (#[trigger] t.tweet_by_id(x))
            is Some by {
            lemma_position_push(s.tweet_ids(), row.id, x);
        }
        lemma_position_push(s.tweet_keys(), row.tweet_id, row.tweet_id);
        if sound(s) {
            assert forall|r: int| 0 <= r < t.media.len() implies t.tweet_by_id(
                (#[trigger] t.media[r]).tweet_id,
            ) is Some by {
                assert(s.tweet_by_id(s.media[r].tweet_id) is Some);
            }
            assert forall|a: int, b: int|
                0 <= a < t.tweet_keys().len() && 0 <= b < t.tweet_keys().len() && a
                    != b implies t.tweet_keys()[a] != t.tweet_keys()[b] by {
                if a < s.tweets.len() && b < s.tweets.len() {
                    assert(s.tweet_keys()[a] != s.tweet_keys()[b]);
                }
            }
        }
    }
}

/// Replacing the counters of a row fills.
pub proof fn lemma_refresh_fills(s: StoreView, row: int, metrics: TweetMetrics)
    requires
        0 <= row < s.tweets.len(),
    ensures
        fills(s, refresh_spec(s, row, metrics)),
{
    let t = refresh_spec(s, row, metrics);
    assert(t.media == s.media);
    assert(t.media_keys() =~= s.media_keys());
    assert(t.tweet_keys() =~= s.tweet_keys());
    assert(t.tweet_ids() =~= s.tweet_ids());
}

/// Storing an addressed media object keeps every addressed key addressed.
pub proof fn lemma_media_keeps_addressed(
    s: StoreView,
    parent: u128,
    m: MediaPayload,
    d: Stamp,
    key: Seq<char>,
)
    requires
        display_url_of(m) is Some,
        addressed_key(s, key),
    ensures
        addressed_key(store_media_spec(s, parent, m, d).state, key),
{
    let out = store_media_spec(s, parent, m, d);
    let t = out.state;
    if out.result is Ok {
        let stored = m.media_key->0@;
        lemma_position(s.media_keys(), key);
        match s.media_at(stored) {
            Some(i) => {
                assert(t.media_keys() =~= s.media_keys());
            },
            None => {
                assert(t.media_keys() =~= s.media_keys().push(stored));
                lemma_position_push(s.media_keys(), stored, key);
            },
        }
    }
}

/// Storing addressed media objects in a row fills, and where all of them
/// went through, each of their keys has an addressed row.
pub proof fn lemma_media_run_fills(
    parent: u128,
    s: StoreView,
    objects: Seq<MediaPayload>,
    stamps: Seq<Stamp>,
    n: nat,
)
    requires
        n <= objects.len(),
        forall|k: int| 0 <= k < n ==> display_url_of(#[trigger] objects[k]) is Some,
    ensures
        fills(s, run(media_step(parent), s, objects, stamps, n).state),
        run(media_step(parent), s, objects, stamps, n).result is Ok ==> forall|k: int|
            0 <= k < n ==> addressed_key(
                run(media_step(parent), s, objects, stamps, n).state,
                (#[trigger] objects[k]).media_key->0@,
            ),
    decreases n,
{
    if n == 0 {
        lemma_fills_reflexive(s);
    } else {
        let prev = run(media_step(parent), s, objects, stamps, (n - 1) as nat);
        lemma_media_run_fills(parent, s, objects, stamps, (n - 1) as nat);
        if prev.result is Ok {
            let out = store_media_spec(prev.state, parent, objects[n - 1], stamps[n - 1]);
            assert(display_url_of(objects[n - 1]) is Some);
            lemma_media_fills(prev.state, parent, objects[n - 1], stamps[n - 1]);
            lemma_fills_transitive(s, prev.state, out.state);
            if out.result is Ok {
                assert forall|k: int| 0 <= k < n implies addressed_key(
                    out.state,
                    (#[trigger] objects[k]).media_key->0@,
                ) by {
                    if k < n - 1 {
                        lemma_media_keeps_addressed(
                            prev.state,
                            parent,
                            objects[n - 1],
                            stamps[n - 1],
                            objects[k].media_key->0@,
                        );
                    }
                }
            }
        }
    }
}

/// Every key of the tweet has a catalog object with an address; a tweet
/// with keys in a batch without a catalog has none.
pub open spec fn addressed(t: TweetPayload, includes: Includes) -> bool {
    t.media_keys is Some ==> forall|k: int|
        0 <= k < t.media_keys->0@.len() && (#[trigger] t.media_keys->0@[k]) is Some ==> {
            let o = relevant_object(catalog_of(includes), t.media_keys->0@[k]->0@);
            o is Some && display_url_of(o->0) is Some
        }
}

/// Handling the media of a tweet whose keys all have addressed catalog
/// objects fills, and where it went through, each of the tweet's keys has
/// an addressed row.
pub proof fn lemma_handle_fills(s: StoreView, t: TweetPayload, includes: Includes, stamps: Seq<Stamp>)
    requires
        addressed(t, includes),
    ensures
        fills(s, handle_media_spec(s, t, includes, stamps).state),
        handle_media_spec(s, t, includes, stamps).result is Ok && t.media_keys is Some
            ==> forall|k: int|
            0 <= k < t.media_keys->0@.len() ==> (#[trigger] t.media_keys->0@[k]) is Some
                && addressed_key(
                handle_media_spec(s, t, includes, stamps).state,
                t.media_keys->0@[k]->0@,
            ),
{
    lemma_fills_reflexive(s);
    if t.media_keys is Some {
        let keys = t.media_keys->0@;
        let catalog = catalog_of(includes);
        match final_media_objects(keys, catalog) {
            Err(_) => {},
            Ok(objects) => {
                if t.id is Some && s.tweet_at(t.id->0@) is Some {
                    let parent = s.tweets[s.tweet_at(t.id->0@)->0].id;
                    assert forall|k: int| 0 <= k < objects.len() implies display_url_of(
                        #[trigger] objects[k],
                    ) is Some by {
                        assert(keys[k] is Some);
                    }
                    lemma_media_run_fills(parent, s, objects, stamps, objects.len());
                    let out = handle_media_spec(s, t, includes, stamps);
                    if out.result is Ok {
                        assert forall|k: int| 0 <= k < keys.len() implies (#[trigger] keys[k]) is Some
                            && addressed_key(out.state, keys[k]->0@) by {
                            assert(objects[k].media_key->0@ == keys[k]->0@);
                        }
                    }
                }
            },
        }
    }
}

/// The tweet's references do not name it a retweet.
pub open spec fn not_retweet(t: TweetPayload) -> bool {
    scan_refs(t.referenced_tweets) matches Ok(scan) ==> scan.retweet_of is None
}

/// Storing, as a helper, a tweet that is no retweet and whose keys all
/// have addressed catalog objects fills; where it went through, the tweet
/// has a row.
pub proof fn lemma_tweet_fills(s: StoreView, t: TweetPayload, includes: Includes, stamps: Seq<Stamp>)
    requires
        addressed(t, includes),
        not_retweet(t),
    ensures
        fills(s, store_tweet_spec(s, t, includes, TweetClass::Helper, stamps).state),
        store_tweet_spec(s, t, includes, TweetClass::Helper, stamps).result is Ok ==> t.id
            is Some && store_tweet_spec(s, t, includes, TweetClass::Helper, stamps).state.tweet_at(
            t.id->0@,
        ) is Some,
{
    lemma_fills_reflexive(s);
    let out = store_tweet_spec(s, t, includes, TweetClass::Helper, stamps);
    match plan_spec(s, t, TweetClass::Helper, stamps[0]) {
        Err(_) => {},
        Ok(Plan::Redirect { target }) => {},
        Ok(Plan::Refresh { row, metrics }) => {
            lemma_position(s.tweet_keys(), t.id->0@);
            lemma_refresh_fills(s, row, metrics);
            assert(out.state.tweet_at(t.id->0@) == s.tweet_at(t.id->0@));
        },
        Ok(Plan::Insert { row }) => {
            let inserted = insert_tweet_spec(s, row);
            lemma_insert_fills(s, row);
            if inserted.result is Ok {
                lemma_handle_fills(inserted.state, t, includes, stamps.skip(1));
                lemma_fills_transitive(s, inserted.state, out.state);
                assert(out.state.tweet_at(t.id->0@) == inserted.state.tweet_at(t.id->0@));
            }
        },
    }
}

/// Storing such tweets in a row fills, and where all went through, each
/// of them has a row.
pub proof fn lemma_tweets_run_fills(
    includes: Includes,
    s: StoreView,
    items: Seq<TweetPayload>,
    draws: Seq<Seq<Stamp>>,
    n: nat,
)
    requires
        n <= items.len(),
        forall|k: int|
            0 <= k < n ==> addressed(#[trigger] items[k], includes) && not_retweet(items[k]),
    ensures
        fills(s, run(tweet_step(includes, TweetClass::Helper), s, items, draws, n).state),
        run(tweet_step(includes, TweetClass::Helper), s, items, draws, n).result is Ok
            ==> forall|k: int|
            0 <= k < n ==> (#[trigger] items[k]).id is Some && run(
                tweet_step(includes, TweetClass::Helper),
                s,
                items,
                draws,
                n,
            ).state.tweet_at(items[k].id->0@) is Some,
    decreases n,
{
    let step = tweet_step(includes, TweetClass::Helper);
    if n == 0 {
        lemma_fills_reflexive(s);
    } else {
        let prev = run(step, s, items, draws, (n - 1) as nat);
        lemma_tweets_run_fills(includes, s, items, draws, (n - 1) as nat);
        if prev.result is Ok {
            let out = store_tweet_spec(
                prev.state,
                items[n - 1],
                includes,
                TweetClass::Helper,
                draws[n - 1],
            );
            assert(addressed(items[n - 1], includes) && not_retweet(items[n - 1]));
            lemma_tweet_fills(prev.state, items[n - 1], includes, draws[n - 1]);
            lemma_fills_transitive(s, prev.state, out.state);
            if out.result is Ok {
                assert forall|k: int| 0 <= k < n implies (#[trigger] items[k]).id is Some
                    && out.state.tweet_at(items[k].id->0@) is Some by {
                    if k < n - 1 {
                        assert(prev.state.tweet_at(items[k].id->0@) is Some);
                        assert(out.state.tweet_at(items[k].id->0@) == prev.state.tweet_at(
                            items[k].id->0@,
                        ));
                    }
                }
            }
        }
    }
}

/// Storing users in a row fills.
pub proof fn lemma_users_run_fills(s: StoreView, users: Seq<UserPayload>, draws: Seq<Stamp>, n: nat)
    ensures
        fills(s, run(user_step(), s, users, draws, n).state),
    decreases n,
{
    if n == 0 {
        lemma_fills_reflexive(s);
    } else {
        let prev = run(user_step(), s, users, draws, (n - 1) as nat);
        lemma_users_run_fills(s, users, draws, (n - 1) as nat);
        if prev.result is Ok {
            lemma_user_fills(prev.state, users[n - 1], draws[n - 1]);
            lemma_fills_transitive(
                s,
                prev.state,
                store_user_spec(prev.state, users[n - 1], draws[n - 1]).state,
            );
        }
    }
}

/// What the upstream service sends for a tweet is complete: every media
/// key of the tweet, and of each tweet in the side-car, has a catalog
/// object with an address, and no tweet of the side-car is a retweet.
pub open spec fn complete_body(body: TweetBody) -> bool {
    &&& addressed(body.data, body.includes)
    &&& forall|k: int|
        0 <= k < items_of(body.includes.tweets).len() ==> addressed(
            #[trigger] items_of(body.includes.tweets)[k],
            body.includes,
        ) && not_retweet(items_of(body.includes.tweets)[k])
}

/// Processing a complete re-fetched timeline tweet fills. Where it went
/// through, each key of the tweet had an addressed row once its media were
/// handled, and each tweet of the side-car has a row in the end.
pub proof fn lemma_core_item_fills(s: StoreView, body: TweetBody, draws: BodyDraws)
    requires
        complete_body(body),
    ensures
        fills(s, handle_media_spec(s, body.data, body.includes, draws.media).state),
        fills(
            handle_media_spec(s, body.data, body.includes, draws.media).state,
            process_rt_original_tweet_spec(s, body, draws).state,
        ),
        fills(s, process_rt_original_tweet_spec(s, body, draws).state),
        process_rt_original_tweet_spec(s, body, draws).result is Ok ==> {
            &&& handle_media_spec(s, body.data, body.includes, draws.media).result is Ok
            &&& forall|k: int|
                0 <= k < items_of(body.includes.tweets).len() ==> (#[trigger] items_of(
                    body.includes.tweets,
                )[k]).id is Some && process_rt_original_tweet_spec(s, body, draws).state.tweet_at(
                    items_of(body.includes.tweets)[k].id->0@,
                ) is Some
        },
{
    let media = handle_media_spec(s, body.data, body.includes, draws.media);
    lemma_handle_fills(s, body.data, body.includes, draws.media);
    lemma_fills_reflexive(media.state);
    if media.result is Ok {
        let users = store_users_spec(media.state, items_of(body.includes.users), draws.users);
        lemma_users_run_fills(
            media.state,
            items_of(body.includes.users),
            draws.users,
            items_of(body.includes.users).len(),
        );
        if users.result is Ok {
            let tweets = store_tweets_spec(
                users.state,
                items_of(body.includes.tweets),
                body.includes,
                TweetClass::Helper,
                draws.helpers,
            );
            lemma_tweets_run_fills(
                body.includes,
                users.state,
                items_of(body.includes.tweets),
                draws.helpers,
                items_of(body.includes.tweets).len(),
            );
            lemma_fills_transitive(media.state, users.state, tweets.state);
        }
        lemma_fills_transitive(s, media.state, process_rt_original_tweet_spec(s, body, draws).state);
    }
}

/// The tweet's keys, as sent, hold the key.
pub open spec fn lists_key(body: TweetBody, key: Seq<char>) -> bool {
    &&& body.data.media_keys is Some
    &&& exists|k: int|
        0 <= k < body.data.media_keys->0@.len() && opt_text(#[trigger] body.data.media_keys->0@[k])
            == Some(key)
}

/// The side-car holds a tweet with the id.
pub open spec fn includes_tweet(body: TweetBody, id: Seq<char>) -> bool {
    exists|k: int|
        0 <= k < items_of(body.includes.tweets).len() && opt_text(
            (#[trigger] items_of(body.includes.tweets)[k]).id,
        ) == Some(id)
}

/// What was sent speaks of every gap of the row: it lists the key of each
/// of the row's media that has no address, and its side-car holds each
/// reply or quote target that has no row.
pub open spec fn covers(s: StoreView, t: TweetView, body: TweetBody) -> bool {
    &&& forall|m: int|
        0 <= m < s.media.len() && (#[trigger] s.media[m]).tweet_id == t.id && s.media[m].display_url
            is None ==> lists_key(body, s.media[m].media_key)
    &&& dangling(s, t.replied_to_tweet_id) ==> includes_tweet(body, t.replied_to_tweet_id->0)
    &&& dangling(s, t.quoted_tweet_id) ==> includes_tweet(body, t.quoted_tweet_id->0)
}

/// A row that was complete stays complete when the store is filled, and
/// what was sent for a row goes on to cover it.
pub proof fn lemma_fills_keeps(s1: StoreView, s2: StoreView, i: int)
    requires
        fills(s1, s2),
        0 <= i < s1.tweets.len(),
    ensures
        has_gap(s2, s2.tweets[i]) ==> has_gap(s1, s1.tweets[i]),
        lacks_media_url(s2, s2.tweets[i].id) ==> lacks_media_url(s1, s1.tweets[i].id),
        forall|body: TweetBody| #[trigger]
            covers(s1, s1.tweets[i], body) ==> covers(s2, s2.tweets[i], body),
{
    let a = s1.tweets[i];
    let b = s2.tweets[i];
    assert(same_but_metrics(a, b));
    if lacks_media_url(s2, b.id) {
        let m = choose|m: int|
            0 <= m < s2.media.len() && (#[trigger] s2.media[m]).tweet_id == b.id && s2.media[m].display_url
                is None;
        assert(s1.media[m] == s2.media[m]);
    }
    if dangling(s2, b.replied_to_tweet_id) && !dangling(s1, a.replied_to_tweet_id) {
        assert(s2.tweet_at(a.replied_to_tweet_id->0) == s1.tweet_at(a.replied_to_tweet_id->0));
    }
    if dangling(s2, b.quoted_tweet_id) && !dangling(s1, a.quoted_tweet_id) {
        assert(s2.tweet_at(a.quoted_tweet_id->0) == s1.tweet_at(a.quoted_tweet_id->0));
    }
    assert forall|body: TweetBody| #[trigger] covers(s1, a, body) implies covers(s2, b, body) by {
        assert forall|m: int|
            0 <= m < s2.media.len() && (#[trigger] s2.media[m]).tweet_id == b.id && s2.media[m].display_url
                is None implies lists_key(body, s2.media[m].media_key) by {
            assert(s1.media[m] == s2.media[m]);
        }
    }
}

/// Filling a sound store makes no candidates: a candidate of either kind
/// afterwards was one before.
pub proof fn lemma_fills_candidates(s1: StoreView, s2: StoreView, window_start: i64, i: int)
    requires
        fills(s1, s2),
        sound(s1),
        0 <= i < s2.tweets.len(),
    ensures
        core_candidate(s2, s2.tweets[i], window_start) ==> i < s1.tweets.len() && core_candidate(
            s1,
            s1.tweets[i],
            window_start,
        ),
        helper_candidate(s2, s2.tweets[i], window_start) ==> i < s1.tweets.len()
            && helper_candidate(s1, s1.tweets[i], window_start),
{
    let b = s2.tweets[i];
    if i < s1.tweets.len() {
        lemma_fills_keeps(s1, s2, i);
        assert(same_but_metrics(s1.tweets[i], b));
    } else {
        assert(b.tweet_class == TweetClass::Helper && s1.tweet_by_id(b.id) is None);
        if lacks_media_url(s2, b.id) {
            let m = choose|m: int|
                0 <= m < s2.media.len() && (#[trigger] s2.media[m]).tweet_id == b.id && s2.media[m].display_url
                    is None;
            assert(s1.media[m] == s2.media[m]);
            assert(s1.tweet_by_id(s1.media[m].tweet_id) is Some);
        }
    }
}

/// Once the media of a tweet were handled from a body that covers the
/// row, none of the row's media lacks an address.
pub proof fn lemma_media_closes(
    s: StoreView,
    i: int,
    body: TweetBody,
    stamps: Seq<Stamp>,
)
    requires
        sound(s),
        addressed(body.data, body.includes),
        0 <= i < s.tweets.len(),
        covers(s, s.tweets[i], body),
        handle_media_spec(s, body.data, body.includes, stamps).result is Ok,
    ensures
        !lacks_media_url(
            handle_media_spec(s, body.data, body.includes, stamps).state,
            s.tweets[i].id,
        ),
{
    let a = handle_media_spec(s, body.data, body.includes, stamps).state;
    let id = s.tweets[i].id;
    lemma_handle_fills(s, body.data, body.includes, stamps);
    if lacks_media_url(a, id) {
        let m = choose|m: int|
            0 <= m < a.media.len() && (#[trigger] a.media[m]).tweet_id == id && a.media[m].display_url
                is None;
        assert(s.media[m] == a.media[m]);
        let key = s.media[m].media_key;
        assert(lists_key(body, key));
        let k = choose|k: int|
            0 <= k < body.data.media_keys->0@.len() && opt_text(
                #[trigger] body.data.media_keys->0@[k],
            ) == Some(key);
        assert(addressed_key(a, body.data.media_keys->0@[k]->0@));
        lemma_position(a.media_keys(), key);
        let p = a.media_at(key)->0;
        assert(a.media_keys()[p] == a.media_keys()[m]);
    }
}

/// Processing a complete body that covers a row leaves the row without a
/// gap, where the processing went through.
pub proof fn lemma_core_item_closes(s: StoreView, i: int, body: TweetBody, draws: BodyDraws)
    requires
        sound(s),
        complete_body(body),
        0 <= i < s.tweets.len(),
        covers(s, s.tweets[i], body),
        process_rt_original_tweet_spec(s, body, draws).result is Ok,
    ensures
        fills(s, process_rt_original_tweet_spec(s, body, draws).state),
        !has_gap(
            process_rt_original_tweet_spec(s, body, draws).state,
            process_rt_original_tweet_spec(s, body, draws).state.tweets[i],
        ),
{
    let a = handle_media_spec(s, body.data, body.includes, draws.media).state;
    let f = process_rt_original_tweet_spec(s, body, draws).state;
    lemma_core_item_fills(s, body, draws);
    lemma_media_closes(s, i, body, draws.media);
    assert(same_but_metrics(s.tweets[i], a.tweets[i]));
    lemma_fills_keeps(a, f, i);
    let t = s.tweets[i];
    assert(same_but_metrics(t, f.tweets[i]));
    if dangling(f, t.replied_to_tweet_id) {
        let r = t.replied_to_tweet_id->0;
        if s.tweet_at(r) is Some {
            assert(f.tweet_at(r) == s.tweet_at(r));
        }
        assert(includes_tweet(body, r));
        let k = choose|k: int|
            0 <= k < items_of(body.includes.tweets).len() && opt_text(
                (#[trigger] items_of(body.includes.tweets)[k]).id,
            ) == Some(r);
        assert(f.tweet_at(items_of(body.includes.tweets)[k].id->0@) is Some);
    }
    if dangling(f, t.quoted_tweet_id) {
        let r = t.quoted_tweet_id->0;
        if s.tweet_at(r) is Some {
            assert(f.tweet_at(r) == s.tweet_at(r));
        }
        assert(includes_tweet(body, r));
        let k = choose|k: int|
            0 <= k < items_of(body.includes.tweets).len() && opt_text(
                (#[trigger] items_of(body.includes.tweets)[k]).id,
            ) == Some(r);
        assert(f.tweet_at(items_of(body.includes.tweets)[k].id->0@) is Some);
    }
}

} // verus!
