use vstd::prelude::*;
use crate::utils::text::opt_text;

verus! {

/// Why a tweet row exists.
#[derive(Clone, Copy, Debug, PartialEq, Eq, Structural)]
pub enum TweetClass {
    /// Timeline content of a followed account.
    Normal,
    /// The original behind a retweet.
    RtOriginal,
    /// Fetched only to resolve another tweet's reference.
    Helper,
}

/// Counters of a tweet with the two derived sums.
#[derive(Clone, Copy, Debug, PartialEq, Eq, Structural)]
pub struct TweetMetrics {
    pub like_count: i64,
    pub quote_count: i64,
    pub reply_count: i64,
    pub retweet_count: i64,
    pub total_retweet_count: i64,
    pub popularity_count: i64,
}

/// The counters of a stored tweet. A row that was written elsewhere may
/// lack any of them; a row of this store has them all.
#[derive(Clone, Copy, Debug, PartialEq, Eq, Structural)]
pub struct Counters {
    pub like_count: Option<i64>,
    pub quote_count: Option<i64>,
    pub reply_count: Option<i64>,
    pub retweet_count: Option<i64>,
    pub total_retweet_count: Option<i64>,
    pub popularity_count: Option<i64>,
}

impl Counters {
    /// All six counters, as read from a payload.
    pub open spec fn all(m: TweetMetrics) -> Counters {
        Counters {
            like_count: Some(m.like_count),
            quote_count: Some(m.quote_count),
            reply_count: Some(m.reply_count),
            retweet_count: Some(m.retweet_count),
            total_retweet_count: Some(m.total_retweet_count),
            popularity_count: Some(m.popularity_count),
        }
    }

    /// All six counters, as read from a payload.
    pub fn of(m: TweetMetrics) -> (r: Counters)
        ensures
            r == Counters::all(m),
    {
        Counters {
            like_count: Some(m.like_count),
            quote_count: Some(m.quote_count),
            reply_count: Some(m.reply_count),
            retweet_count: Some(m.retweet_count),
            total_retweet_count: Some(m.total_retweet_count),
            popularity_count: Some(m.popularity_count),
        }
    }
}

#[derive(Debug)]
pub struct User {
    pub id: u128,
    /// Microseconds since the Unix epoch.
    pub created_at: i64,
    pub twitter_user_id: String,
    pub twitter_name: String,
    pub twitter_handle: String,
    pub profile_url: String,
    pub profile_image: Option<String>,
    pub followers_count: Option<i64>,
    pub following_count: Option<i64>,
    pub listed_count: Option<i64>,
    pub tweet_count: Option<i64>,
}

pub struct UserView {
    pub id: u128,
    pub created_at: i64,
    pub twitter_user_id: Seq<char>,
    pub twitter_name: Seq<char>,
    pub twitter_handle: Seq<char>,
    pub profile_url: Seq<char>,
    pub profile_image: Option<Seq<char>>,
    pub followers_count: Option<i64>,
    pub following_count: Option<i64>,
    pub listed_count: Option<i64>,
    pub tweet_count: Option<i64>,
}

impl View for User {
    type V = UserView;

    open spec fn view(&self) -> UserView {
        UserView {
            id: self.id,
            created_at: self.created_at,
            twitter_user_id: self.twitter_user_id@,
            twitter_name: self.twitter_name@,
            twitter_handle: self.twitter_handle@,
            profile_url: self.profile_url@,
            profile_image: opt_text(self.profile_image),
            followers_count: self.followers_count,
            following_count: self.following_count,
            listed_count: self.listed_count,
            tweet_count: self.tweet_count,
        }
    }
}

#[derive(Debug)]
pub struct Tweet {
    pub id: u128,
    /// Microseconds since the Unix epoch.
    pub created_at: i64,
    pub tweet_id: String,
    /// Microseconds since the Unix epoch.
    pub tweet_created_at: i64,
    pub tweet_text: String,
    pub tweet_url: String,
    pub replied_to_tweet_id: Option<String>,
    pub quoted_tweet_id: Option<String>,
    pub tweet_class: TweetClass,
    pub metrics: Counters,
    pub user_id: u128,
}

pub struct TweetView {
    pub id: u128,
    pub created_at: i64,
    pub tweet_id: Seq<char>,
    pub tweet_created_at: i64,
    pub tweet_text: Seq<char>,
    pub tweet_url: Seq<char>,
    pub replied_to_tweet_id: Option<Seq<char>>,
    pub quoted_tweet_id: Option<Seq<char>>,
    pub tweet_class: TweetClass,
    pub metrics: Counters,
    pub user_id: u128,
}

impl View for Tweet {
    type V = TweetView;

    open spec fn view(&self) -> TweetView {
        TweetView {
            id: self.id,
            created_at: self.created_at,
            tweet_id: self.tweet_id@,
            tweet_created_at: self.tweet_created_at,
            tweet_text: self.tweet_text@,
            tweet_url: self.tweet_url@,
            replied_to_tweet_id: opt_text(self.replied_to_tweet_id),
            quoted_tweet_id: opt_text(self.quoted_tweet_id),
            tweet_class: self.tweet_class,
            metrics: self.metrics,
            user_id: self.user_id,
        }
    }
}

#[derive(Debug)]
pub struct Media {
    pub id: u128,
    /// Microseconds since the Unix epoch.
    pub created_at: i64,
    pub media_key: String,
    pub media_type: Option<String>,
    pub display_url: Option<String>,
    pub tweet_id: u128,
}

pub struct MediaView {
    pub id: u128,
    pub created_at: i64,
    pub media_key: Seq<char>,
    pub media_type: Option<Seq<char>>,
    pub display_url: Option<Seq<char>>,
    pub tweet_id: u128,
}

impl View for Media {
    type V = MediaView;

    open spec fn view(&self) -> MediaView {
        MediaView {
            id: self.id,
            created_at: self.created_at,
            media_key: self.media_key@,
            media_type: opt_text(self.media_type),
            display_url: opt_text(self.display_url),
            tweet_id: self.tweet_id,
        }
    }
}

impl Clone for User {
    fn clone(&self) -> (r: Self)
        ensures
            r@ == self@,
    {
        User {
            id: self.id,
            created_at: self.created_at,
            twitter_user_id: self.twitter_user_id.clone(),
            twitter_name: self.twitter_name.clone(),
            twitter_handle: self.twitter_handle.clone(),
            profile_url: self.profile_url.clone(),
            profile_image: crate::utils::text::clone_opt(&self.profile_image),
            followers_count: self.followers_count,
            following_count: self.following_count,
            listed_count: self.listed_count,
            tweet_count: self.tweet_count,
        }
    }
}

impl Clone for Tweet {
    fn clone(&self) -> (r: Self)
        ensures
            r@ == self@,
    {
        Tweet {
            id: self.id,
            created_at: self.created_at,
            tweet_id: self.tweet_id.clone(),
            tweet_created_at: self.tweet_created_at,
            tweet_text: self.tweet_text.clone(),
            tweet_url: self.tweet_url.clone(),
            replied_to_tweet_id: crate::utils::text::clone_opt(&self.replied_to_tweet_id),
            quoted_tweet_id: crate::utils::text::clone_opt(&self.quoted_tweet_id),
            tweet_class: self.tweet_class,
            metrics: self.metrics,
            user_id: self.user_id,
        }
    }
}

impl Clone for Media {
    fn clone(&self) -> (r: Self)
        ensures
            r@ == self@,
    {
        Media {
            id: self.id,
            created_at: self.created_at,
            media_key: self.media_key.clone(),
            media_type: crate::utils::text::clone_opt(&self.media_type),
            display_url: crate::utils::text::clone_opt(&self.display_url),
            tweet_id: self.tweet_id,
        }
    }
}

/// A fresh surrogate id and the instant at which a row is created.
#[derive(Clone, Copy, Debug, PartialEq, Eq, Structural)]
pub struct Stamp {
    pub id: u128,
    pub at: i64,
}

/// The three tables, rows in order of insertion.
pub struct Store {
    pub users: Vec<User>,
    pub tweets: Vec<Tweet>,
    pub media: Vec<Media>,
}

pub struct StoreView {
    pub users: Seq<UserView>,
    pub tweets: Seq<TweetView>,
    pub media: Seq<MediaView>,
}

impl View for Store {
    type V = StoreView;

    open spec fn view(&self) -> StoreView {
        StoreView {
            users: Seq::new(self.users@.len(), |i: int| self.users@[i]@),
            tweets: Seq::new(self.tweets@.len(), |i: int| self.tweets@[i]@),
            media: Seq::new(self.media@.len(), |i: int| self.media@[i]@),
        }
    }
}

/// `i` is the first position of `keys` that holds `k`.
pub open spec fn first_at<K>(keys: Seq<K>, k: K, i: int) -> bool {
    &&& 0 <= i < keys.len()
    &&& keys[i] == k
    &&& forall|j: int| 0 <= j < i ==> keys[j] != k
}

/// First position of `keys` that holds `k`.
pub open spec fn position<K>(keys: Seq<K>, k: K) -> Option<int> {
    if exists|i: int| first_at(keys, k, i) {
        Some(choose|i: int| first_at(keys, k, i))
    } else {
        None
    }
}

pub proof fn lemma_position_found<K>(keys: Seq<K>, k: K, i: int)
    requires
        first_at(keys, k, i),
    ensures
        position(keys, k) == Some(i),
{
    let c = choose|c: int| first_at(keys, k, c);
    assert(first_at(keys, k, c));
    if c < i {
        assert(keys[c] != k);
    }
    if i < c {
        assert(keys[i] != k);
    }
}

pub proof fn lemma_position_absent<K>(keys: Seq<K>, k: K)
    requires
        forall|j: int| 0 <= j < keys.len() ==> keys[j] != k,
    ensures
        position(keys, k) is None,
{
}

/// What `position` returns, stated without the choice.
pub proof fn lemma_position<K>(keys: Seq<K>, k: K)
    ensures
        match position(keys, k) {
            Some(i) => first_at(keys, k, i),
            None => forall|j: int| 0 <= j < keys.len() ==> keys[j] != k,
        },
{
    if exists|i: int| first_at(keys, k, i) {
    } else {
        assert forall|j: int| 0 <= j < keys.len() implies keys[j] != k by {
            if keys[j] == k {
                lemma_first_exists(keys, k, j);
            }
        }
    }
}

proof fn lemma_first_exists<K>(keys: Seq<K>, k: K, j: int)
    requires
        0 <= j < keys.len(),
        keys[j] == k,
    ensures
        exists|i: int| first_at(keys, k, i),
    decreases j,
{
    if forall|l: int| 0 <= l < j ==> keys[l] != k {
        assert(first_at(keys, k, j));
    } else {
        let l = choose|l: int| 0 <= l < j && keys[l] == k;
        lemma_first_exists(keys, k, l);
    }
}

/// Positions after one more key is appended.
pub proof fn lemma_position_push<K>(keys: Seq<K>, added: K, k: K)
    ensures
        position(keys.push(added), k) == if position(keys, k) is Some {
            position(keys, k)
        } else if added == k {
            Some(keys.len() as int)
        } else {
            None
        },
{
    lemma_position(keys, k);
    let longer = keys.push(added);
    match position(keys, k) {
        Some(i) => {
            assert(first_at(longer, k, i)) by {
                assert(longer[i] == keys[i]);
                assert forall|j: int| 0 <= j < i implies longer[j] != k by {
                    assert(longer[j] == keys[j]);
                }
            }
            lemma_position_found(longer, k, i);
        },
        None => {
            if added == k {
                assert(first_at(longer, k, keys.len() as int)) by {
                    assert forall|j: int| 0 <= j < keys.len() implies longer[j] != k by {
                        assert(longer[j] == keys[j]);
                    }
                }
                lemma_position_found(longer, k, keys.len() as int);
            } else {
                assert forall|j: int| 0 <= j < longer.len() implies longer[j] != k by {
                    if j < keys.len() {
                        assert(longer[j] == keys[j]);
                    }
                }
                lemma_position_absent(longer, k);
            }
        },
    }
}

impl StoreView {
    pub open spec fn user_keys(self) -> Seq<Seq<char>> {
        Seq::new(self.users.len(), |i: int| self.users[i].twitter_user_id)
    }

    pub open spec fn user_ids(self) -> Seq<u128> {
        Seq::new(self.users.len(), |i: int| self.users[i].id)
    }

    pub open spec fn tweet_keys(self) -> Seq<Seq<char>> {
        Seq::new(self.tweets.len(), |i: int| self.tweets[i].tweet_id)
    }

    pub open spec fn tweet_ids(self) -> Seq<u128> {
        Seq::new(self.tweets.len(), |i: int| self.tweets[i].id)
    }

    pub open spec fn media_keys(self) -> Seq<Seq<char>> {
        Seq::new(self.media.len(), |i: int| self.media[i].media_key)
    }

    pub open spec fn media_ids(self) -> Seq<u128> {
        Seq::new(self.media.len(), |i: int| self.media[i].id)
    }

    /// Natural and surrogate keys are unique in each table, every tweet
    /// has its author's row and every media row its parent tweet's.
    pub open spec fn wf(self) -> bool {
        &&& self.user_keys().no_duplicates()
        &&& self.user_ids().no_duplicates()
        &&& self.tweet_keys().no_duplicates()
        &&& self.tweet_ids().no_duplicates()
        &&& self.media_keys().no_duplicates()
        &&& self.media_ids().no_duplicates()
        &&& forall|i: int|
            0 <= i < self.tweets.len() ==> self.user_ids().contains(
                #[trigger] self.tweets[i].user_id,
            )
        &&& forall|i: int|
            0 <= i < self.media.len() ==> self.tweet_ids().contains(
                #[trigger] self.media[i].tweet_id,
            )
    }

    pub open spec fn empty() -> StoreView {
        StoreView { users: Seq::empty(), tweets: Seq::empty(), media: Seq::empty() }
    }
}

/// A store after an operation, with what the operation returned.
pub struct Outcome {
    pub state: StoreView,
    pub result: Result<(), crate::utils::errors::ApiError>,
}

/// The store after the first `n` of `items` went through `step` in order,
/// item `k` with `draws[k]`, stopping at the first failure.
pub open spec fn run<A, D>(
    step: spec_fn(StoreView, A, D) -> Outcome,
    s: StoreView,
    items: Seq<A>,
    draws: Seq<D>,
    n: nat,
) -> Outcome
    decreases n,
{
    if n == 0 {
        Outcome { state: s, result: Ok(()) }
    } else {
        let prev = run(step, s, items, draws, (n - 1) as nat);
        if prev.result is Err {
            prev
        } else {
            step(prev.state, items[n - 1], draws[n - 1])
        }
    }
}

/// `run` reads only the first `n` draws.
pub proof fn lemma_run_agree<A, D>(
    step: spec_fn(StoreView, A, D) -> Outcome,
    s: StoreView,
    items: Seq<A>,
    d1: Seq<D>,
    d2: Seq<D>,
    n: nat,
)
    requires
        forall|i: int| 0 <= i < n ==> d1[i] == d2[i],
    ensures
        run(step, s, items, d1, n) == run(step, s, items, d2, n),
    decreases n,
{
    if n > 0 {
        lemma_run_agree(step, s, items, d1, d2, (n - 1) as nat);
    }
}

/// Once `run` has failed, further items change nothing.
pub proof fn lemma_run_stuck<A, D>(
    step: spec_fn(StoreView, A, D) -> Outcome,
    s: StoreView,
    items: Seq<A>,
    draws: Seq<D>,
    k: nat,
    n: nat,
)
    requires
        k <= n,
        run(step, s, items, draws, k).result is Err,
    ensures
        run(step, s, items, draws, n) == run(step, s, items, draws, k),
    decreases n,
{
    if n > k {
        lemma_run_stuck(step, s, items, draws, k, (n - 1) as nat);
    }
}

impl Store {
    pub open spec fn wf(&self) -> bool {
        self@.wf()
    }

    /// A store without rows.
    pub fn new() -> (r: Store)
        ensures
            r@ == StoreView::empty(),
            r.wf(),
    {
        let r = Store { users: Vec::new(), tweets: Vec::new(), media: Vec::new() };
        proof {
            assert(r@.users =~= Seq::empty());
            assert(r@.tweets =~= Seq::empty());
            assert(r@.media =~= Seq::empty());
        }
        r
    }
}

} // verus!
