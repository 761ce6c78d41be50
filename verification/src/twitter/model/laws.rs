use vstd::prelude::*;
use crate::twitter::model::media::{handle_media_spec, media_step, store_media_spec};
use crate::twitter::model::payload::{Includes, MediaPayload, TweetPayload, UserPayload};
use crate::twitter::model::store::{
    lemma_position, lemma_position_push, position, run, Outcome, Stamp, StoreView, TweetClass,
    UserView,
};
use crate::twitter::model::tweet::{
    find_target, insert_tweet_spec, metrics_of, plan_spec, refresh_spec, store_resolved_spec,
    store_tweet_spec, Plan,
};
use crate::twitter::model::user::{store_user_spec, user_row};
use crate::utils::errors::ApiError;
use crate::utils::text::opt_text;

verus! {

/// Storing a user, then a user object with the same external id, leaves
/// one row under that id. The row keeps the surrogate id and creation time
/// it had after the first call and has every other field from the second
/// object. Where the two objects are the same, the second call changes
/// nothing.
pub proof fn lemma_store_user_idempotent(
    s: StoreView,
    p: UserPayload,
    q: UserPayload,
    d1: Stamp,
    d2: Stamp,
)
    requires
        store_user_spec(s, p, d1).result is Ok,
        user_row(q, d2) is Ok,
        opt_text(p.id) == opt_text(q.id),
    ensures
        ({
            let s1 = store_user_spec(s, p, d1).state;
            let after = store_user_spec(s1, q, d2);
            let i = s1.user_at(p.id->0@);
            &&& after.result is Ok
            &&& i is Some
            &&& after.state.users == s1.users.update(
                i->0,
                UserView {
                    id: s1.users[i->0].id,
                    created_at: s1.users[i->0].created_at,
                    ..user_row(q, d2)->Ok_0
                },
            )
            &&& after.state.tweets == s1.tweets
            &&& after.state.media == s1.media
            &&& s.wf() ==> forall|j: int|
                0 <= j < after.state.users.len() && j != i->0
                    ==> after.state.users[j].twitter_user_id != p.id->0@
            &&& p == q ==> after.state == s1
        }),
{
    let key = p.id->0@;
    let s1 = store_user_spec(s, p, d1).state;
    let row = user_row(p, d1)->Ok_0;
    lemma_position(s.user_keys(), key);
    match s.user_at(key) {
        Some(i) => {
            assert(s1.user_keys() =~= s.user_keys());
        },
        None => {
            assert(s1.user_keys() =~= s.user_keys().push(key));
            lemma_position_push(s.user_keys(), key, key);
        },
    }
    let i = s1.user_at(key)->0;
    lemma_position(s1.user_keys(), key);
    let after = store_user_spec(s1, q, d2);
    if s.wf() {
        assert(after.state.user_keys() =~= s1.user_keys());
        match s.user_at(key) {
            Some(i0) => {
                assert(s1.user_keys().no_duplicates());
            },
            None => {
                assert forall|a: int, b: int|
                    0 <= a < s1.user_keys().len() && 0 <= b < s1.user_keys().len() && a != b implies s1.user_keys()[a]
                    != s1.user_keys()[b] by {
                    if a < s.users.len() && b < s.users.len() {
                        assert(s.user_keys()[a] != s.user_keys()[b]);
                    }
                }
            },
        }
        assert forall|j: int| 0 <= j < after.state.users.len() && j != i implies after.state.users[j].twitter_user_id
            != key by {
            assert(s1.user_keys()[j] != s1.user_keys()[i]);
        }
    }
    if p == q {
        assert(after.state.users =~= s1.users);
    }
}

/// Storing media objects only touches the media table.
pub proof fn lemma_run_media_keeps(
    parent: u128,
    s: StoreView,
    objects: Seq<MediaPayload>,
    stamps: Seq<Stamp>,
    n: nat,
)
    ensures
        run(media_step(parent), s, objects, stamps, n).state.users == s.users,
        run(media_step(parent), s, objects, stamps, n).state.tweets == s.tweets,
    decreases n,
{
    if n > 0 {
        lemma_run_media_keeps(parent, s, objects, stamps, (n - 1) as nat);
    }
}

/// Handling the media of a tweet only touches the media table.
pub proof fn lemma_handle_media_keeps(
    s: StoreView,
    t: TweetPayload,
    includes: Includes,
    stamps: Seq<Stamp>,
)
    ensures
        handle_media_spec(s, t, includes, stamps).state.users == s.users,
        handle_media_spec(s, t, includes, stamps).state.tweets == s.tweets,
{
    if t.media_keys is Some && t.id is Some {
        let id = t.id->0@;
        if s.tweet_at(id) is Some {
            let p = s.tweet_at(id)->0;
            match crate::twitter::model::media::final_media_objects(
                t.media_keys->0@,
                crate::twitter::model::media::catalog_of(includes),
            ) {
                Ok(objects) => {
                    lemma_run_media_keeps(s.tweets[p].id, s, objects, stamps, objects.len());
                },
                Err(_) => {},
            }
        }
    }
}

/// Storing a media object, then an object with the same key, leaves one
/// row under that key, with type and address from the second object. The
/// second call never fails and adds no row.
pub proof fn lemma_store_media_idempotent(
    s: StoreView,
    parent: u128,
    m: MediaPayload,
    n: MediaPayload,
    d1: Stamp,
    d2: Stamp,
)
    requires
        store_media_spec(s, parent, m, d1).result is Ok,
        opt_text(m.media_key) == opt_text(n.media_key),
        n.media_key is Some,
    ensures
        ({
            let s1 = store_media_spec(s, parent, m, d1).state;
            let after = store_media_spec(s1, parent, n, d2);
            let i = s1.media_at(m.media_key->0@);
            &&& after.result is Ok
            &&& i is Some
            &&& after.state.media.len() == s1.media.len()
            &&& after.state.media[i->0].media_type == opt_text(n.kind)
            &&& after.state.media[i->0].display_url == opt_text(
                crate::twitter::model::media::display_url_of(n),
            )
            &&& after.state.media[i->0].tweet_id == s1.media[i->0].tweet_id
            &&& s.wf() ==> forall|j: int|
                0 <= j < after.state.media.len() && j != i->0 ==> after.state.media[j].media_key
                    != m.media_key->0@
            &&& m == n ==> after.state == s1
        }),
{
    let key = m.media_key->0@;
    let s1 = store_media_spec(s, parent, m, d1).state;
    lemma_position(s.media_keys(), key);
    match s.media_at(key) {
        Some(i) => {
            assert(s1.media_keys() =~= s.media_keys());
        },
        None => {
            assert(s1.media_keys() =~= s.media_keys().push(key));
            lemma_position_push(s.media_keys(), key, key);
        },
    }
    let i = s1.media_at(key)->0;
    lemma_position(s1.media_keys(), key);
    let after = store_media_spec(s1, parent, n, d2);
    if s.wf() {
        assert(after.state.media_keys() =~= s1.media_keys());
        match s.media_at(key) {
            Some(i0) => {},
            None => {
                assert forall|a: int, b: int|
                    0 <= a < s1.media_keys().len() && 0 <= b < s1.media_keys().len() && a != b implies s1.media_keys()[a]
                    != s1.media_keys()[b] by {
                    if a < s.media.len() && b < s.media.len() {
                        assert(s.media_keys()[a] != s.media_keys()[b]);
                    }
                }
            },
        }
        assert forall|j: int| 0 <= j < after.state.media.len() && j != i implies after.state.media[j].media_key
            != key by {
            assert(s1.media_keys()[j] != s1.media_keys()[i]);
        }
    }
    if m == n {
        assert(after.state.media =~= s1.media);
    }
}

/// A tweet whose author has no row is refused with `OrderingViolation`,
/// and the store stays as it was.
pub proof fn lemma_tweet_without_author_is_refused(
    s: StoreView,
    t: TweetPayload,
    includes: Includes,
    class: TweetClass,
    stamps: Seq<Stamp>,
)
    requires
        t.id is Some,
        s.tweet_at(t.id->0@) is None,
        t.author_id is Some,
        s.user_at(t.author_id->0@) is None,
    ensures
        store_tweet_spec(s, t, includes, class, stamps) == (Outcome {
            state: s,
            result: Err(ApiError::OrderingViolation),
        }),
{
}

/// After a user was stored, a tweet by that user is never refused for
/// want of its author, and a row planned for it carries the surrogate id
/// of the author's row.
pub proof fn lemma_author_precedes_tweet(
    s: StoreView,
    u: UserPayload,
    d: Stamp,
    t: TweetPayload,
    class: TweetClass,
    stamp: Stamp,
)
    requires
        store_user_spec(s, u, d).result is Ok,
        t.author_id is Some,
        opt_text(t.author_id) == opt_text(u.id),
    ensures
        ({
            let s1 = store_user_spec(s, u, d).state;
            let plan = plan_spec(s1, t, class, stamp);
            &&& plan != Err::<Plan, ApiError>(ApiError::OrderingViolation)
            &&& s1.user_at(u.id->0@) is Some
            &&& plan matches Ok(Plan::Insert { row }) ==> {
                &&& row.user_id == s1.users[s1.user_at(u.id->0@)->0].id
                &&& s1.user_by_id(row.user_id) is Some
            }
        }),
{
    let key = u.id->0@;
    let s1 = store_user_spec(s, u, d).state;
    lemma_position(s.user_keys(), key);
    match s.user_at(key) {
        Some(i) => {
            assert(s1.user_keys() =~= s.user_keys());
        },
        None => {
            assert(s1.user_keys() =~= s.user_keys().push(key));
            lemma_position_push(s.user_keys(), key, key);
        },
    }
    lemma_position(s1.user_keys(), key);
    let i = s1.user_at(key)->0;
    lemma_id_has_position(s1.user_ids(), i);
    assert(s1.user_ids()[i] == s1.users[i].id);
    if let crate::twitter::model::payload::References::List(v) = t.referenced_tweets {
        lemma_scan_errors(v@, crate::twitter::model::tweet::RefScan::nothing());
    }
}

/// Reading references fails only on a malformed entry.
pub proof fn lemma_scan_errors(
    refs: Seq<crate::twitter::model::payload::Reference>,
    acc: crate::twitter::model::tweet::RefScan,
)
    ensures
        crate::twitter::model::tweet::scan_from(refs, acc) matches Err(e) ==> e
            is PermanentUpstream,
    decreases refs.len(),
{
    if refs.len() > 0 {
        let first = refs[0];
        let rest = refs.subrange(1, refs.len() as int);
        lemma_scan_errors(rest, acc);
        lemma_scan_errors(
            rest,
            crate::twitter::model::tweet::RefScan { replied_to: first.id, ..acc },
        );
        lemma_scan_errors(rest, crate::twitter::model::tweet::RefScan { quoted: first.id, ..acc });
    }
}

/// A value that stands in a sequence has a first position in it.
pub proof fn lemma_id_has_position<K>(keys: Seq<K>, i: int)
    requires
        0 <= i < keys.len(),
    ensures
        position(keys, keys[i]) is Some,
{
    lemma_position(keys, keys[i]);
}

/// What storing `t` itself leaves behind, where it succeeds: users are
/// untouched; a known tweet has its counters replaced; an unknown one is
/// appended with its class, and is then found under its external id.
pub proof fn lemma_store_resolved_shape(
    s: StoreView,
    t: TweetPayload,
    includes: Includes,
    class: TweetClass,
    stamps: Seq<Stamp>,
)
    requires
        plan_spec(s, t, class, stamps[0]) is Ok,
        !(plan_spec(s, t, class, stamps[0])->Ok_0 is Redirect),
        insert_ok(s, plan_spec(s, t, class, stamps[0])->Ok_0),
    ensures
        ({
            let plan = plan_spec(s, t, class, stamps[0])->Ok_0;
            let out = store_resolved_spec(s, t, includes, class, stamps);
            let key = t.id->0@;
            &&& t.id is Some
            &&& metrics_of(t.public_metrics) is Ok
            &&& out.state.users == s.users
            &&& out.state.tweet_at(key) is Some
            &&& out.state.tweets[out.state.tweet_at(key)->0].metrics
                == crate::twitter::model::store::Counters::all(
                metrics_of(t.public_metrics)->Ok_0,
            )
            &&& match s.tweet_at(key) {
                Some(i) => out.state.tweets == s.tweets.update(
                    i,
                    crate::twitter::model::store::TweetView {
                        metrics: crate::twitter::model::store::Counters::all(
                            metrics_of(t.public_metrics)->Ok_0,
                        ),
                        ..s.tweets[i]
                    },
                ) && out.result is Ok && out.state.media == s.media,
                None => plan is Insert && out.state.tweets == s.tweets.push(plan->Insert_row)
                    && plan->Insert_row.tweet_id == key && plan->Insert_row.tweet_class == class,
            }
            &&& forall|k: Seq<char>|
                k != key ==> out.state.tweet_at(k) == s.tweet_at(k)
        }),
{
    let plan = plan_spec(s, t, class, stamps[0])->Ok_0;
    let out = store_resolved_spec(s, t, includes, class, stamps);
    let key = t.id->0@;
    lemma_position(s.tweet_keys(), key);
    match plan {
        Plan::Refresh { row, metrics } => {
            assert(out.state.tweet_keys() =~= s.tweet_keys());
        },
        Plan::Insert { row } => {
            let u = s.user_at(t.author_id->0@)->0;
            lemma_position(s.user_keys(), t.author_id->0@);
            lemma_id_has_position(s.user_ids(), u);
            assert(s.user_ids()[u] == row.user_id);
            let inserted = insert_tweet_spec(s, row).state;
            lemma_handle_media_keeps(inserted, t, includes, stamps.skip(1));
            assert(out.state.tweets == s.tweets.push(row));
            assert(out.state.tweet_keys() =~= s.tweet_keys().push(key));
            lemma_position_push(s.tweet_keys(), key, key);
            assert forall|k: Seq<char>| k != key implies out.state.tweet_at(k) == s.tweet_at(
                k,
            ) by {
                lemma_position_push(s.tweet_keys(), key, k);
            }
        },
        Plan::Redirect { target } => {},
    }
}

/// An insertion that the plan calls for goes through: the surrogate id
/// drawn for the row is not taken.
pub open spec fn insert_ok(s: StoreView, plan: Plan) -> bool {
    plan matches Plan::Insert { row } ==> s.tweet_by_id(row.id) is None
}

/// A retweet whose original is in the side-car leaves no row under its
/// own id. The original is stored in its place: appended with class
/// `RtOriginal` where it was unknown, its counters replaced where it was
/// known. No other tweet row changes.
pub proof fn lemma_retweet_redirects(
    s: StoreView,
    w: TweetPayload,
    includes: Includes,
    class: TweetClass,
    stamps: Seq<Stamp>,
)
    requires
        plan_spec(s, w, class, stamps[0]) matches Ok(Plan::Redirect { target }) && target
            != w.id->0@ && includes.tweets is Some && find_target(includes.tweets->0@, target)
            is Ok,
        store_tweet_spec(s, w, includes, class, stamps).result is Ok,
    ensures
        ({
            let target = plan_spec(s, w, class, stamps[0])->Ok_0->Redirect_target;
            let x = includes.tweets->0@[find_target(includes.tweets->0@, target)->Ok_0];
            let out = store_tweet_spec(s, w, includes, class, stamps);
            &&& x.id is Some && x.id->0@ == target
            &&& out == store_resolved_spec(s, x, includes, TweetClass::RtOriginal, stamps)
            &&& out.state.users == s.users
            &&& out.state.tweet_at(w.id->0@) is None
            &&& match s.tweet_at(target) {
                Some(i) => out.state.tweets == s.tweets.update(
                    i,
                    crate::twitter::model::store::TweetView {
                        metrics: crate::twitter::model::store::Counters::all(
                            metrics_of(x.public_metrics)->Ok_0,
                        ),
                        ..s.tweets[i]
                    },
                ),
                None => out.state.tweets.len() == s.tweets.len() + 1
                    && out.state.tweets.drop_last() == s.tweets
                    && out.state.tweets.last().tweet_id == target
                    && out.state.tweets.last().tweet_class == TweetClass::RtOriginal,
            }
        }),
{
    let target = plan_spec(s, w, class, stamps[0])->Ok_0->Redirect_target;
    let list = includes.tweets->0@;
    let k = find_target(list, target)->Ok_0;
    let x = list[k];
    let hits = Seq::new(list.len(), |k: int| list[k].id is None || list[k].id->0@ == target);
    lemma_position(hits, true);
    let plan = plan_spec(s, x, TweetClass::RtOriginal, stamps[0]);
    let out = store_tweet_spec(s, w, includes, class, stamps);
    assert(out == store_resolved_spec(s, x, includes, TweetClass::RtOriginal, stamps));
    assert(plan is Ok);
    assert(!(plan->Ok_0 is Redirect));
    if plan->Ok_0 is Insert {
        let row = plan->Ok_0->Insert_row;
        let inserted = insert_tweet_spec(s, row);
        assert(inserted.result is Ok) by {
            if inserted.result is Err {
                assert(out == inserted);
            }
        }
    }
    lemma_store_resolved_shape(s, x, includes, TweetClass::RtOriginal, stamps);
    if s.tweet_at(target) is None {
        assert(out.state.tweets.drop_last() =~= s.tweets);
    }
}

/// Storing a tweet a second time changes nothing and succeeds. (A retweet
/// that names itself as its original is left out.)
pub proof fn lemma_store_tweet_idempotent(
    s: StoreView,
    t: TweetPayload,
    includes: Includes,
    class: TweetClass,
    first: Seq<Stamp>,
    second: Seq<Stamp>,
)
    requires
        store_tweet_spec(s, t, includes, class, first).result is Ok,
        plan_spec(s, t, class, first[0]) matches Ok(Plan::Redirect { target }) ==> target
            != t.id->0@,
    ensures
        ({
            let s1 = store_tweet_spec(s, t, includes, class, first).state;
            store_tweet_spec(s1, t, includes, class, second) == (Outcome {
                state: s1,
                result: Ok(()),
            })
        }),
{
    let out = store_tweet_spec(s, t, includes, class, first);
    let s1 = out.state;
    let plan = plan_spec(s, t, class, first[0])->Ok_0;
    match plan {
        Plan::Redirect { target } => {
            let list = includes.tweets->0@;
            let k = find_target(list, target)->Ok_0;
            let x = list[k];
            let hits = Seq::new(
                list.len(),
                |k: int| list[k].id is None || list[k].id->0@ == target,
            );
            lemma_position(hits, true);
            let px = plan_spec(s, x, TweetClass::RtOriginal, first[0]);
            assert(out == store_resolved_spec(s, x, includes, TweetClass::RtOriginal, first));
            if px->Ok_0 is Insert {
                let inserted = insert_tweet_spec(s, px->Ok_0->Insert_row);
                if inserted.result is Err {
                    assert(out == inserted);
                }
            }
            lemma_store_resolved_shape(s, x, includes, TweetClass::RtOriginal, first);
            assert(s1.tweet_at(t.id->0@) is None);
            assert(plan_spec(s1, t, class, second[0]) == Ok::<Plan, ApiError>(
                Plan::Redirect { target },
            ));
            let i = s1.tweet_at(target)->0;
            lemma_position(s1.tweet_keys(), target);
            assert(refresh_spec(s1, i, metrics_of(x.public_metrics)->Ok_0).tweets =~= s1.tweets);
        },
        _ => {
            if plan is Insert {
                let inserted = insert_tweet_spec(s, plan->Insert_row);
                if inserted.result is Err {
                    assert(out == inserted);
                }
            }
            assert(out == store_resolved_spec(s, t, includes, class, first));
            lemma_store_resolved_shape(s, t, includes, class, first);
            let key = t.id->0@;
            let i = s1.tweet_at(key)->0;
            lemma_position(s1.tweet_keys(), key);
            assert(refresh_spec(s1, i, metrics_of(t.public_metrics)->Ok_0).tweets =~= s1.tweets);
        },
    }
}

/// A well-shaped tweet whose author has a row is stored. Where the tweet
/// is new and has an id, an author with a row, a creation time that
/// reads, references that do not name it a retweet, all counters with sums
/// within 64 bits and a text, and the surrogate id drawn for it is free,
/// one row is appended for it, with the class asked for and the surrogate
/// id of the author's row. Nothing else goes wrong before its media are
/// handled: a tweet without media keys is stored with success.
pub proof fn lemma_shaped_tweet_is_stored(
    s: StoreView,
    t: TweetPayload,
    includes: Includes,
    class: TweetClass,
    stamps: Seq<Stamp>,
)
    requires
        t.id is Some,
        s.tweet_at(t.id->0@) is None,
        t.author_id is Some,
        s.user_at(t.author_id->0@) is Some,
        t.created_at is Some,
        crate::utils::outside::rfc3339_micros(t.created_at->0@) is Some,
        crate::twitter::model::tweet::scan_refs(t.referenced_tweets) matches Ok(scan)
            && scan.retweet_of is None,
        metrics_of(t.public_metrics) is Ok,
        t.text is Some,
        s.tweet_by_id(stamps[0].id) is None,
    ensures
        ({
            let out = store_tweet_spec(s, t, includes, class, stamps);
            let author = s.users[s.user_at(t.author_id->0@)->0];
            &&& plan_spec(s, t, class, stamps[0]) is Ok
            &&& plan_spec(s, t, class, stamps[0])->Ok_0 is Insert
            &&& out == handle_media_spec(
                insert_tweet_spec(s, plan_spec(s, t, class, stamps[0])->Ok_0->Insert_row).state,
                t,
                includes,
                stamps.skip(1),
            )
            &&& t.media_keys is None ==> out.result is Ok && out.state.media == s.media
            &&& out.state.users == s.users
            &&& out.state.tweets.len() == s.tweets.len() + 1
            &&& out.state.tweets.drop_last() == s.tweets
            &&& out.state.tweets.last().tweet_id == t.id->0@
            &&& out.state.tweets.last().tweet_class == class
            &&& out.state.tweets.last().user_id == author.id
            &&& out.state.tweets.last().id == stamps[0].id
            &&& out.state.tweets.last().metrics == crate::twitter::model::store::Counters::all(
                metrics_of(t.public_metrics)->Ok_0,
            )
        }),
{
    let u = s.user_at(t.author_id->0@)->0;
    lemma_position(s.user_keys(), t.author_id->0@);
    lemma_id_has_position(s.user_ids(), u);
    assert(s.user_ids()[u] == s.users[u].id);
    let out = store_tweet_spec(s, t, includes, class, stamps);
    let row = plan_spec(s, t, class, stamps[0])->Ok_0->Insert_row;
    lemma_handle_media_keeps(insert_tweet_spec(s, row).state, t, includes, stamps.skip(1));
    assert(out.state.tweets.drop_last() =~= s.tweets);
}

/// A known tweet is refreshed and nothing more. Where the tweet has a row
/// and sends all four counters with sums within 64 bits, storing it
/// succeeds whatever else it says and whatever is drawn; the row takes
/// the four counters and the two sums and keeps every other field, and
/// nothing else in the store changes. Where a counter is missing or a sum
/// is beyond 64 bits, the store stays as it was.
pub proof fn lemma_known_tweet_is_refreshed(
    s: StoreView,
    t: TweetPayload,
    includes: Includes,
    class: TweetClass,
    stamps: Seq<Stamp>,
)
    requires
        t.id is Some,
        s.tweet_at(t.id->0@) is Some,
    ensures
        ({
            let i = s.tweet_at(t.id->0@)->0;
            let out = store_tweet_spec(s, t, includes, class, stamps);
            match metrics_of(t.public_metrics) {
                Ok(m) => {
                    &&& out.result is Ok
                    &&& 0 <= i < s.tweets.len()
                    &&& out.state.users == s.users
                    &&& out.state.media == s.media
                    &&& out.state.tweets == s.tweets.update(
                        i,
                        crate::twitter::model::store::TweetView {
                            metrics: crate::twitter::model::store::Counters::all(m),
                            ..s.tweets[i]
                        },
                    )
                    &&& m.like_count == t.public_metrics.like_count->0
                    &&& m.quote_count == t.public_metrics.quote_count->0
                    &&& m.reply_count == t.public_metrics.reply_count->0
                    &&& m.retweet_count == t.public_metrics.retweet_count->0
                    &&& m.total_retweet_count == m.quote_count + m.retweet_count
                    &&& m.popularity_count == m.total_retweet_count + m.like_count + m.reply_count
                },
                Err(e) => out == (Outcome { state: s, result: Err(e) }),
            }
        }),
{
    lemma_position(s.tweet_keys(), t.id->0@);
}

/// The key has a media row; where the key was new to `s`, the row holds
/// the key alone, under the given parent.
pub open spec fn stored_alone(s: StoreView, after: StoreView, parent: u128, key: Seq<char>) -> bool {
    &&& after.media_at(key) is Some
    &&& s.media_at(key) is None ==> {
        let row = after.media[after.media_at(key)->0];
        row.media_type is None && row.display_url is None && row.tweet_id == parent
    }
}

/// Key-only objects stored in a row leave each of their keys stored alone.
pub proof fn lemma_stubs_run(
    parent: u128,
    s: StoreView,
    objects: Seq<crate::twitter::model::payload::MediaPayload>,
    stamps: Seq<Stamp>,
    n: nat,
)
    requires
        n <= objects.len(),
        forall|k: int|
            0 <= k < n ==> (#[trigger] objects[k]).media_key is Some && objects[k].kind is None
                && objects[k].url is None && objects[k].preview_image_url is None,
    ensures
        run(media_step(parent), s, objects, stamps, n).result is Ok ==> forall|k: int|
            0 <= k < n ==> stored_alone(
                s,
                run(media_step(parent), s, objects, stamps, n).state,
                parent,
                (#[trigger] objects[k]).media_key->0@,
            ),
    decreases n,
{
    if n > 0 {
        let prev = run(media_step(parent), s, objects, stamps, (n - 1) as nat);
        lemma_stubs_run(parent, s, objects, stamps, (n - 1) as nat);
        let last = objects[n - 1];
        let out = store_media_spec(prev.state, parent, last, stamps[n - 1]);
        if prev.result is Ok && out.result is Ok {
            let added = last.media_key->0@;
            lemma_position(prev.state.media_keys(), added);
            assert forall|k: int| 0 <= k < n implies stored_alone(
                s,
                out.state,
                parent,
                (#[trigger] objects[k]).media_key->0@,
            ) by {
                let key = objects[k].media_key->0@;
                lemma_position(prev.state.media_keys(), key);
                match prev.state.media_at(added) {
                    Some(i) => {
                        assert(out.state.media_keys() =~= prev.state.media_keys());
                        if k == n - 1 && s.media_at(key) is None {
                            lemma_stub_keeps_parent(parent, s, objects, stamps, (n - 1) as nat, key);
                        }
                    },
                    None => {
                        assert(out.state.media_keys() =~= prev.state.media_keys().push(added));
                        lemma_position_push(prev.state.media_keys(), added, key);
                    },
                }
            }
        }
    }
}

/// A key that was new to `s` and has a row after key-only objects were
/// stored has that row under the given parent.
proof fn lemma_stub_keeps_parent(
    parent: u128,
    s: StoreView,
    objects: Seq<crate::twitter::model::payload::MediaPayload>,
    stamps: Seq<Stamp>,
    n: nat,
    key: Seq<char>,
)
    requires
        n <= objects.len(),
        s.media_at(key) is None,
        run(media_step(parent), s, objects, stamps, n).result is Ok,
        run(media_step(parent), s, objects, stamps, n).state.media_at(key) is Some,
    ensures
        ({
            let after = run(media_step(parent), s, objects, stamps, n).state;
            after.media[after.media_at(key)->0].tweet_id == parent
        }),
    decreases n,
{
    if n > 0 {
        let prev = run(media_step(parent), s, objects, stamps, (n - 1) as nat);
        let last = objects[n - 1];
        let out = store_media_spec(prev.state, parent, last, stamps[n - 1]);
        let added = last.media_key->0@;
        lemma_position(prev.state.media_keys(), added);
        lemma_position(prev.state.media_keys(), key);
        lemma_position(out.state.media_keys(), key);
        match prev.state.media_at(added) {
            Some(i) => {
                assert(out.state.media_keys() =~= prev.state.media_keys());
                lemma_stub_keeps_parent(parent, s, objects, stamps, (n - 1) as nat, key);
            },
            None => {
                assert(out.state.media_keys() =~= prev.state.media_keys().push(added));
                lemma_position_push(prev.state.media_keys(), added, key);
                if prev.state.media_at(key) is Some {
                    lemma_stub_keeps_parent(parent, s, objects, stamps, (n - 1) as nat, key);
                }
            },
        }
    }
}

/// Keys without a catalog are stored alone. Where a tweet that has a row
/// names media keys and the batch has no catalog, and handling its media
/// succeeds, every one of the keys has a media row afterwards; a key that
/// was new has a row without type and address under the tweet's row.
pub proof fn lemma_keys_without_catalog_are_stored_alone(
    s: StoreView,
    t: TweetPayload,
    includes: Includes,
    stamps: Seq<Stamp>,
)
    requires
        t.media_keys is Some,
        includes.media is None,
        handle_media_spec(s, t, includes, stamps).result is Ok,
    ensures
        t.media_keys->0@.len() > 0 ==> t.id is Some && s.tweet_at(t.id->0@) is Some,
        forall|k: int|
            0 <= k < t.media_keys->0@.len() ==> (#[trigger] t.media_keys->0@[k]) is Some
                && stored_alone(
                s,
                handle_media_spec(s, t, includes, stamps).state,
                s.tweets[s.tweet_at(t.id->0@)->0].id,
                t.media_keys->0@[k]->0@,
            ),
{
    let keys = t.media_keys->0@;
    let catalog = crate::twitter::model::media::catalog_of(includes);
    let objects = crate::twitter::model::media::final_media_objects(keys, catalog)->Ok_0;
    let parent = s.tweets[s.tweet_at(t.id->0@)->0].id;
    assert forall|k: int| 0 <= k < objects.len() implies (#[trigger] objects[k]).media_key is Some
        && objects[k].kind is None && objects[k].url is None && objects[k].preview_image_url
        is None && objects[k].media_key->0@ == keys[k]->0@ by {
        assert(keys[k] is Some);
        lemma_position(
            crate::twitter::model::media::catalog_keys(catalog),
            Some(keys[k]->0@),
        );
    }
    lemma_stubs_run(parent, s, objects, stamps, objects.len());
    assert forall|k: int| 0 <= k < keys.len() implies (#[trigger] keys[k]) is Some && stored_alone(
        s,
        handle_media_spec(s, t, includes, stamps).state,
        parent,
        keys[k]->0@,
    ) by {
        assert(objects[k].media_key->0@ == keys[k]->0@);
    }
}

} // verus!
