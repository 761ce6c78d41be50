use vstd::prelude::*;
use crate::twitter::model::media::{find_media, find_media_by_uuid, lemma_push_media_wf};
use crate::twitter::model::store::{
    lemma_position, Media, Store, StoreView, Tweet, User,
};
use crate::twitter::model::tweet::{find_tweet, find_tweet_by_uuid, lemma_push_tweet_wf};
use crate::twitter::model::user::{find_user, find_user_by_uuid, lemma_push_user_wf};
use crate::utils::errors::ApiError;
use crate::utils::text::opt_text;

verus! {

/// The store that holds the given rows, in their order.
pub open spec fn rows_view(users: Seq<User>, tweets: Seq<Tweet>, media: Seq<Media>) -> StoreView {
    StoreView {
        users: Seq::new(users.len(), |i: int| users[i]@),
        tweets: Seq::new(tweets.len(), |i: int| tweets[i]@),
        media: Seq::new(media.len(), |i: int| media[i]@),
    }
}

/// Well-formedness of the first rows of each table.
pub open spec fn prefix_wf(s: StoreView, u: int, t: int, m: int) -> bool {
    (StoreView { users: s.users.take(u), tweets: s.tweets.take(t), media: s.media.take(m) }).wf()
}

impl Store {
    /// Makes a store of rows that were kept elsewhere. The rows must form
    /// a well-formed store: a repeated natural or surrogate key, a tweet
    /// without its author's row and a media row without its parent's are
    /// refused with `StorageFailure`.
    pub fn from_rows(users: Vec<User>, tweets: Vec<Tweet>, media: Vec<Media>) -> (r: Result<
        Store,
        ApiError,
    >)
        ensures
            r is Ok <==> rows_view(users@, tweets@, media@).wf(),
            r matches Ok(s) ==> s@ == rows_view(users@, tweets@, media@),
            r matches Err(e) ==> e == ApiError::StorageFailure,
    {
        let ghost all = rows_view(users@, tweets@, media@);
        let mut store = Store::new();
        let mut i: usize = 0;
        while i < users.len()
            invariant
                i <= users.len(),
                all == rows_view(users@, tweets@, media@),
                store.wf(),
                store@.users == all.users.take(i as int),
                store@.tweets.len() == 0,
                store@.media.len() == 0,
            decreases users.len() - i,
        {
            let row = users[i].clone();
            let ghost before = store@;
            let ghost row_view = row@;
            if find_user(&store, row.twitter_user_id.as_str()).is_some() {
                proof {
                    lemma_position(before.user_keys(), row.twitter_user_id@);
                    let j = before.user_at(row.twitter_user_id@)->0;
                    assert(all.user_keys()[j] == all.user_keys()[i as int]);
                }
                return Err(ApiError::StorageFailure);
            }
            if find_user_by_uuid(&store, row.id).is_some() {
                proof {
                    lemma_position(before.user_ids(), row.id);
                    let j = before.user_by_id(row.id)->0;
                    assert(all.user_ids()[j] == all.user_ids()[i as int]);
                }
                return Err(ApiError::StorageFailure);
            }
            proof {
                lemma_push_user_wf(before, row@);
            }
            store.users.push(row);
            proof {
                assert(store@.users =~= all.users.take(i + 1));
                assert(store@.tweets =~= before.tweets);
                assert(store@.media =~= before.media);
                assert(store@.users =~= before.users.push(row_view));
                assert(store@ == (StoreView { users: before.users.push(row_view), ..before }));
            }
            i += 1;
        }
        proof {
            assert(all.users.take(i as int) =~= all.users);
        }
        let mut t: usize = 0;
        while t < tweets.len()
            invariant
                t <= tweets.len(),
                all == rows_view(users@, tweets@, media@),
                store.wf(),
                store@.users == all.users,
                store@.tweets == all.tweets.take(t as int),
                store@.media.len() == 0,
            decreases tweets.len() - t,
        {
            let row = tweets[t].clone();
            let ghost before = store@;
            let ghost row_view = row@;
            if find_tweet(&store, row.tweet_id.as_str()).is_some() {
                proof {
                    lemma_position(before.tweet_keys(), row.tweet_id@);
                    let j = before.tweet_at(row.tweet_id@)->0;
                    assert(all.tweet_keys()[j] == all.tweet_keys()[t as int]);
                }
                return Err(ApiError::StorageFailure);
            }
            if find_tweet_by_uuid(&store, row.id).is_some() {
                proof {
                    lemma_position(before.tweet_ids(), row.id);
                    let j = before.tweet_by_id(row.id)->0;
                    assert(all.tweet_ids()[j] == all.tweet_ids()[t as int]);
                }
                return Err(ApiError::StorageFailure);
            }
            if find_user_by_uuid(&store, row.user_id).is_none() {
                proof {
                    lemma_position(before.user_ids(), row.user_id);
                    assert(all.tweets[t as int].user_id == row.user_id);
                    assert(!all.user_ids().contains(row.user_id));
                }
                return Err(ApiError::StorageFailure);
            }
            proof {
                lemma_push_tweet_wf(before, row@);
            }
            store.tweets.push(row);
            proof {
                assert(store@.tweets =~= all.tweets.take(t + 1));
                assert(store@.users =~= before.users);
                assert(store@.media =~= before.media);
                assert(store@.tweets =~= before.tweets.push(row_view));
                assert(store@ == (StoreView { tweets: before.tweets.push(row_view), ..before }));
            }
            t += 1;
        }
        proof {
            assert(all.tweets.take(t as int) =~= all.tweets);
        }
        let mut m: usize = 0;
        while m < media.len()
            invariant
                m <= media.len(),
                all == rows_view(users@, tweets@, media@),
                store.wf(),
                store@.users == all.users,
                store@.tweets == all.tweets,
                store@.media == all.media.take(m as int),
            decreases media.len() - m,
        {
            let row = media[m].clone();
            let ghost before = store@;
            let ghost row_view = row@;
            if find_media(&store, row.media_key.as_str()).is_some() {
                proof {
                    lemma_position(before.media_keys(), row.media_key@);
                    let j = before.media_at(row.media_key@)->0;
                    assert(all.media_keys()[j] == all.media_keys()[m as int]);
                }
                return Err(ApiError::StorageFailure);
            }
            if find_media_by_uuid(&store, row.id).is_some() {
                proof {
                    lemma_position(before.media_ids(), row.id);
                    let j = before.media_by_id(row.id)->0;
                    assert(all.media_ids()[j] == all.media_ids()[m as int]);
                }
                return Err(ApiError::StorageFailure);
            }
            if find_tweet_by_uuid(&store, row.tweet_id).is_none() {
                proof {
                    lemma_position(before.tweet_ids(), row.tweet_id);
                    assert(all.media[m as int].tweet_id == row.tweet_id);
                    assert(!all.tweet_ids().contains(row.tweet_id));
                }
                return Err(ApiError::StorageFailure);
            }
            proof {
                lemma_push_media_wf(before, row@);
            }
            store.media.push(row);
            proof {
                assert(store@.media =~= all.media.take(m + 1));
                assert(store@.users =~= before.users);
                assert(store@.tweets =~= before.tweets);
                assert(store@.media =~= before.media.push(row_view));
                assert(store@ == (StoreView { media: before.media.push(row_view), ..before }));
            }
            m += 1;
        }
        proof {
            assert(all.media.take(m as int) =~= all.media);
        }
        Ok(store)
    }
}

/// Whether two optional strings hold the same.
pub fn same_opt_text(a: &Option<String>, b: &Option<String>) -> (r: bool)
    ensures
        r == (opt_text(*a) == opt_text(*b)),
{
    match (a, b) {
        (Some(x), Some(y)) => *x == *y,
        (None, None) => true,
        _ => false,
    }
}

/// Whether two optional numbers are the same.
pub fn same_opt_number(a: Option<i64>, b: Option<i64>) -> (r: bool)
    ensures
        r == (a == b),
{
    match (a, b) {
        (Some(x), Some(y)) => x == y,
        (None, None) => true,
        _ => false,
    }
}

/// Whether two user rows hold the same.
pub fn same_user(a: &User, b: &User) -> (r: bool)
    ensures
        r == (a@ == b@),
{
    a.id == b.id && a.created_at == b.created_at && a.twitter_user_id == b.twitter_user_id
        && a.twitter_name == b.twitter_name && a.twitter_handle == b.twitter_handle
        && a.profile_url == b.profile_url && same_opt_text(&a.profile_image, &b.profile_image)
        && same_opt_number(a.followers_count, b.followers_count) && same_opt_number(
        a.following_count,
        b.following_count,
    ) && same_opt_number(a.listed_count, b.listed_count) && same_opt_number(
        a.tweet_count,
        b.tweet_count,
    )
}

/// Whether two tweet rows hold the same.
pub fn same_tweet(a: &Tweet, b: &Tweet) -> (r: bool)
    ensures
        r == (a@ == b@),
{
    a.id == b.id && a.created_at == b.created_at && a.tweet_id == b.tweet_id
        && a.tweet_created_at == b.tweet_created_at && a.tweet_text == b.tweet_text && a.tweet_url
        == b.tweet_url && same_opt_text(&a.replied_to_tweet_id, &b.replied_to_tweet_id)
        && same_opt_text(&a.quoted_tweet_id, &b.quoted_tweet_id) && a.tweet_class == b.tweet_class
        && same_opt_number(a.metrics.like_count, b.metrics.like_count) && same_opt_number(
        a.metrics.quote_count,
        b.metrics.quote_count,
    ) && same_opt_number(a.metrics.reply_count, b.metrics.reply_count) && same_opt_number(
        a.metrics.retweet_count,
        b.metrics.retweet_count,
    ) && same_opt_number(a.metrics.total_retweet_count, b.metrics.total_retweet_count)
        && same_opt_number(a.metrics.popularity_count, b.metrics.popularity_count) && a.user_id
        == b.user_id
}

/// Whether two media rows hold the same.
pub fn same_media(a: &Media, b: &Media) -> (r: bool)
    ensures
        r == (a@ == b@),
{
    a.id == b.id && a.created_at == b.created_at && a.media_key == b.media_key && same_opt_text(
        &a.media_type,
        &b.media_type,
    ) && same_opt_text(&a.display_url, &b.display_url) && a.tweet_id == b.tweet_id
}

/// Row `i` of a table is new, or differs from the row that stood there.
pub open spec fn differs<V>(now: Seq<V>, before: Seq<V>, i: int) -> bool {
    i >= before.len() || now[i] != before[i]
}

/// `r` lists, in rising order, the positions of the rows of a table that
/// are new or differ from the rows that stood there before.
pub open spec fn lists_changes<V>(now: Seq<V>, before: Seq<V>, r: Seq<usize>) -> bool {
    &&& forall|k: int| 0 <= k < r.len() ==> r[k] < now.len() && differs(now, before, r[k] as int)
    &&& forall|k: int, l: int| 0 <= k < l < r.len() ==> r[k] < r[l]
    &&& forall|i: int|
        0 <= i < now.len() && differs(now, before, i) ==> exists|k: int|
            0 <= k < r.len() && #[trigger] r[k] == i
}

/// Positions of the rows of each table that changed.
pub struct Changes {
    pub users: Vec<usize>,
    pub tweets: Vec<usize>,
    pub media: Vec<usize>,
}

impl Store {
    /// A copy of the store.
    pub fn snapshot(&self) -> (r: Store)
        ensures
            r@ == self@,
    {
        let mut copy = Store::new();
        let mut i: usize = 0;
        while i < self.users.len()
            invariant
                i <= self.users.len(),
                copy@.users == self@.users.take(i as int),
                copy.tweets@.len() == 0,
                copy.media@.len() == 0,
            decreases self.users.len() - i,
        {
            let row = self.users[i].clone();
            let ghost before = copy@;
            let ghost row_view = row@;
            copy.users.push(row);
            proof {
                assert(copy@.users =~= before.users.push(row_view));
                assert(copy@.users =~= self@.users.take(i + 1));
                assert(copy@.users.len() == copy.users@.len());
                assert(copy@.tweets.len() == copy.tweets@.len());
            }
            i += 1;
        }
        let mut t: usize = 0;
        while t < self.tweets.len()
            invariant
                t <= self.tweets.len(),
                i == self.users.len(),
                copy@.users == self@.users.take(i as int),
                copy@.tweets == self@.tweets.take(t as int),
                copy.media@.len() == 0,
            decreases self.tweets.len() - t,
        {
            let row = self.tweets[t].clone();
            let ghost before = copy@;
            let ghost row_view = row@;
            copy.tweets.push(row);
            proof {
                assert(copy@.tweets =~= before.tweets.push(row_view));
                assert(copy@.tweets =~= self@.tweets.take(t + 1));
                assert(copy@.users.len() == copy.users@.len());
                assert(copy@.tweets.len() == copy.tweets@.len());
            }
            t += 1;
        }
        let mut m: usize = 0;
        while m < self.media.len()
            invariant
                m <= self.media.len(),
                i == self.users.len(),
                t == self.tweets.len(),
                copy@.users == self@.users.take(i as int),
                copy@.tweets == self@.tweets.take(t as int),
                copy@.media == self@.media.take(m as int),
            decreases self.media.len() - m,
        {
            let row = self.media[m].clone();
            let ghost before = copy@;
            let ghost row_view = row@;
            copy.media.push(row);
            proof {
                assert(copy@.media =~= before.media.push(row_view));
                assert(copy@.media =~= self@.media.take(m + 1));
                assert(copy@.users.len() == copy.users@.len());
                assert(copy@.tweets.len() == copy.tweets@.len());
            }
            m += 1;
        }
        proof {
            assert(copy@.users =~= self@.users);
            assert(copy@.tweets =~= self@.tweets);
            assert(copy@.media =~= self@.media);
        }
        copy
    }

    /// The rows that have to be written for this store to replace an
    /// earlier one: those that are new or differ, by table and position.
    pub fn changes_since(&self, earlier: &Store) -> (r: Changes)
        ensures
            lists_changes(self@.users, earlier@.users, r.users@),
            lists_changes(self@.tweets, earlier@.tweets, r.tweets@),
            lists_changes(self@.media, earlier@.media, r.media@),
    {
        let mut users: Vec<usize> = Vec::new();
        let mut i: usize = 0;
        while i < self.users.len()
            invariant
                i <= self.users.len(),
                forall|k: int|
                    0 <= k < users.len() ==> users@[k] < i && differs(
                        self@.users,
                        earlier@.users,
                        users@[k] as int,
                    ),
                forall|k: int, l: int| 0 <= k < l < users.len() ==> users@[k] < users@[l],
                forall|j: int|
                    0 <= j < i && differs(self@.users, earlier@.users, j) ==> exists|k: int|
                        0 <= k < users.len() && #[trigger] users@[k] == j,
            decreases self.users.len() - i,
        {
            if i >= earlier.users.len() || !same_user(&self.users[i], &earlier.users[i]) {
                let ghost before = users@;
                users.push(i);
                proof {
                    assert forall|j: int|
                        0 <= j < i + 1 && differs(
                            self@.users,
                            earlier@.users,
                            j,
                        ) implies exists|k: int| 0 <= k < users.len() && #[trigger] users@[k] == j by {
                        if j < i {
                            let k = choose|k: int| 0 <= k < before.len() && #[trigger] before[k] == j;
                            assert(users@[k] == j);
                        } else {
                            assert(users@[before.len() as int] == j);
                        }
                    }
                }
            }
            i += 1;
        }
        let mut tweets: Vec<usize> = Vec::new();
        let mut t: usize = 0;
        while t < self.tweets.len()
            invariant
                t <= self.tweets.len(),
                forall|k: int|
                    0 <= k < tweets.len() ==> tweets@[k] < t && differs(
                        self@.tweets,
                        earlier@.tweets,
                        tweets@[k] as int,
                    ),
                forall|k: int, l: int| 0 <= k < l < tweets.len() ==> tweets@[k] < tweets@[l],
                forall|j: int|
                    0 <= j < t && differs(self@.tweets, earlier@.tweets, j) ==> exists|k: int|
                        0 <= k < tweets.len() && #[trigger] tweets@[k] == j,
            decreases self.tweets.len() - t,
        {
            if t >= earlier.tweets.len() || !same_tweet(&self.tweets[t], &earlier.tweets[t]) {
                let ghost before = tweets@;
                tweets.push(t);
                proof {
                    assert forall|j: int|
                        0 <= j < t + 1 && differs(
                            self@.tweets,
                            earlier@.tweets,
                            j,
                        ) implies exists|k: int|
                        0 <= k < tweets.len() && #[trigger] tweets@[k] == j by {
                        if j < t {
                            let k = choose|k: int| 0 <= k < before.len() && #[trigger] before[k] == j;
                            assert(tweets@[k] == j);
                        } else {
                            assert(tweets@[before.len() as int] == j);
                        }
                    }
                }
            }
            t += 1;
        }
        let mut media: Vec<usize> = Vec::new();
        let mut m: usize = 0;
        while m < self.media.len()
            invariant
                m <= self.media.len(),
                forall|k: int|
                    0 <= k < media.len() ==> media@[k] < m && differs(
                        self@.media,
                        earlier@.media,
                        media@[k] as int,
                    ),
                forall|k: int, l: int| 0 <= k < l < media.len() ==> media@[k] < media@[l],
                forall|j: int|
                    0 <= j < m && differs(self@.media, earlier@.media, j) ==> exists|k: int|
                        0 <= k < media.len() && #[trigger] media@[k] == j,
            decreases self.media.len() - m,
        {
            if m >= earlier.media.len() || !same_media(&self.media[m], &earlier.media[m]) {
                let ghost before = media@;
                media.push(m);
                proof {
                    assert forall|j: int|
                        0 <= j < m + 1 && differs(
                            self@.media,
                            earlier@.media,
                            j,
                        ) implies exists|k: int| 0 <= k < media.len() && #[trigger] media@[k] == j by {
                        if j < m {
                            let k = choose|k: int| 0 <= k < before.len() && #[trigger] before[k] == j;
                            assert(media@[k] == j);
                        } else {
                            assert(media@[before.len() as int] == j);
                        }
                    }
                }
            }
            m += 1;
        }
        Changes { users, tweets, media }
    }
}

} // verus!
