use vstd::prelude::*;
use crate::twitter::model::rank::{is_full_ranking, rank_all};
use crate::twitter::model::store::{Store, StoreView, Tweet, TweetClass, TweetView};
use crate::twitter::model::tweet::find_tweet;
use crate::utils::outside::now_micros;

verus! {

/// Microseconds in a day.
pub const DAY: i64 = 86_400_000_000;

/// The direction in which candidates are taken.
#[derive(Clone, Copy, Debug, PartialEq, Eq, Structural)]
pub enum BackfillOrder {
    /// Least popular first.
    Ascending,
    /// Most popular first.
    Descending,
}

impl BackfillOrder {
    pub open spec fn descending(self) -> bool {
        self == BackfillOrder::Descending
    }

    /// The direction that the settings ask for.
    pub fn configured(config: &crate::config::Settings) -> (r: BackfillOrder)
        ensures
            r.descending() == config.app.backfill_most_popular_first,
    {
        if config.app.backfill_most_popular_first {
            BackfillOrder::Descending
        } else {
            BackfillOrder::Ascending
        }
    }
}

/// Start of the lookback window that ends at `now`; a bound of the
/// 64-bit range where the start lies beyond it.
pub open spec fn lookback_start(now: i64, days_back: i64) -> i64 {
    let start = now - days_back * DAY;
    if start < i64::MIN {
        i64::MIN
    } else if start > i64::MAX {
        i64::MAX
    } else {
        start as i64
    }
}

/// A soft reference whose target has no row.
pub open spec fn dangling(s: StoreView, reference: Option<Seq<char>>) -> bool {
    reference is Some && s.tweet_at(reference->0) is None
}

/// Some media row of the tweet has no address yet.
pub open spec fn lacks_media_url(s: StoreView, tweet: u128) -> bool {
    exists|m: int|
        0 <= m < s.media.len() && (#[trigger] s.media[m]).tweet_id == tweet && s.media[m].display_url
            is None
}

/// The tweet is incomplete: a reply or quote target is missing, or one of
/// its media has no address.
pub open spec fn has_gap(s: StoreView, t: TweetView) -> bool {
    dangling(s, t.quoted_tweet_id) || dangling(s, t.replied_to_tweet_id) || lacks_media_url(
        s,
        t.id,
    )
}

/// A timeline tweet or the original of a retweet, created after the
/// window's start, that is incomplete.
pub open spec fn core_candidate(s: StoreView, t: TweetView, window_start: i64) -> bool {
    &&& t.tweet_class == TweetClass::Normal || t.tweet_class == TweetClass::RtOriginal
    &&& t.tweet_created_at > window_start
    &&& has_gap(s, t)
}

/// A helper tweet, created after the window's start, one of whose media
/// has no address.
pub open spec fn helper_candidate(s: StoreView, t: TweetView, window_start: i64) -> bool {
    &&& t.tweet_class == TweetClass::Helper
    &&& t.tweet_created_at > window_start
    &&& lacks_media_url(s, t.id)
}

/// The key by which a candidate is ranked: its popularity; a candidate
/// without one counts as the most popular.
pub open spec fn popularity_key(t: TweetView) -> i64 {
    match t.metrics.popularity_count {
        Some(p) => p,
        None => i64::MAX,
    }
}

/// Popularity of the candidates; other rows have no key.
pub open spec fn candidate_keys(s: StoreView, helpers: bool, window_start: i64) -> Seq<
    Option<i64>,
> {
    Seq::new(
        s.tweets.len(),
        |i: int|
            if (if helpers {
                helper_candidate(s, s.tweets[i], window_start)
            } else {
                core_candidate(s, s.tweets[i], window_start)
            }) {
                Some(popularity_key(s.tweets[i]))
            } else {
                None
            },
    )
}

/// `rows` are the candidates of one kind, each once, by popularity in the
/// given direction and, among equals, in row order.
pub open spec fn is_backfill(
    s: StoreView,
    helpers: bool,
    window_start: i64,
    order: BackfillOrder,
    rows: Seq<TweetView>,
) -> bool {
    exists|r: Seq<usize>|
        #[trigger] is_full_ranking(
            candidate_keys(s, helpers, window_start),
            order.descending(),
            r,
        ) && rows == Seq::new(r.len(), |k: int| s.tweets[r[k] as int])
}

/// Start of the lookback window that ends at `now`.
pub fn window_back(now: i64, days_back: i64) -> (r: i64)
    ensures
        r == lookback_start(now, days_back),
{
    let d: i128 = days_back as i128;
    assert(-9_223_372_036_854_775_808 * 86_400_000_000 <= d * 86_400_000_000
        <= 9_223_372_036_854_775_807 * 86_400_000_000) by (nonlinear_arith)
        requires
            -9_223_372_036_854_775_808 <= d <= 9_223_372_036_854_775_807,
    ;
    let span: i128 = d * DAY as i128;
    let start: i128 = now as i128 - span;
    if start < i64::MIN as i128 {
        i64::MIN
    } else if start > i64::MAX as i128 {
        i64::MAX
    } else {
        start as i64
    }
}

/// Whether some media row of the tweet has no address yet.
pub fn media_incomplete(store: &Store, tweet: u128) -> (r: bool)
    ensures
        r == lacks_media_url(store@, tweet),
{
    let mut m: usize = 0;
    while m < store.media.len()
        invariant
            m <= store.media.len(),
            forall|j: int|
                0 <= j < m ==> !((#[trigger] store@.media[j]).tweet_id == tweet
                    && store@.media[j].display_url is None),
        decreases store.media.len() - m,
    {
        if store.media[m].tweet_id == tweet && store.media[m].display_url.is_none() {
            proof {
                assert(store@.media[m as int].tweet_id == tweet);
            }
            return true;
        }
        m += 1;
    }
    false
}

/// Whether a soft reference points to no row.
pub fn is_dangling(store: &Store, reference: &Option<String>) -> (r: bool)
    ensures
        r == dangling(store@, crate::utils::text::opt_text(*reference)),
{
    match reference {
        Some(id) => find_tweet(store, id.as_str()).is_none(),
        None => false,
    }
}

/// Whether the tweet row at a position is a candidate of the given kind.
pub fn is_candidate(store: &Store, row: usize, helpers: bool, window_start: i64) -> (r: bool)
    requires
        row < store.tweets.len(),
    ensures
        r == candidate_keys(store@, helpers, window_start)[row as int] is Some,
{
    let t = &store.tweets[row];
    if t.tweet_created_at <= window_start {
        return false;
    }
    match t.tweet_class {
        TweetClass::Helper => helpers && media_incomplete(store, t.id),
        _ => !helpers && (is_dangling(store, &t.quoted_tweet_id) || is_dangling(
            store,
            &t.replied_to_tweet_id,
        ) || media_incomplete(store, t.id)),
    }
}

/// The candidates of one kind in a window, in the given direction.
pub fn select_candidates(store: &Store, helpers: bool, window_start: i64, order: BackfillOrder) -> (r:
    Vec<Tweet>)
    ensures
        is_backfill(
            store@,
            helpers,
            window_start,
            order,
            crate::twitter::routes::serve::tweet_views(r@),
        ),
{
    let ghost all = candidate_keys(store@, helpers, window_start);
    let mut keys: Vec<Option<i64>> = Vec::new();
    let mut i: usize = 0;
    while i < store.tweets.len()
        invariant
            i <= store.tweets.len(),
            all == candidate_keys(store@, helpers, window_start),
            keys@ == all.take(i as int),
        decreases store.tweets.len() - i,
    {
        let key = if is_candidate(store, i, helpers, window_start) {
            Some(
                match store.tweets[i].metrics.popularity_count {
                    Some(p) => p,
                    None => i64::MAX,
                },
            )
        } else {
            None
        };
        keys.push(key);
        proof {
            assert(keys@ =~= all.take(i + 1));
        }
        i += 1;
    }
    proof {
        assert(keys@ =~= all);
    }
    let descending = match order {
        BackfillOrder::Descending => true,
        BackfillOrder::Ascending => false,
    };
    let ranked = rank_all(&keys, descending);
    let mut out: Vec<Tweet> = Vec::new();
    let mut k: usize = 0;
    while k < ranked.len()
        invariant
            k <= ranked.len(),
            all == candidate_keys(store@, helpers, window_start),
            is_full_ranking(all, descending, ranked@),
            descending == order.descending(),
            out@.len() == k,
            forall|j: int| 0 <= j < k ==> out@[j]@ == store@.tweets[ranked@[j] as int],
        decreases ranked.len() - k,
    {
        proof {
            assert(all[ranked@[k as int] as int] is Some);
        }
        out.push(store.tweets[ranked[k]].clone());
        k += 1;
    }
    proof {
        assert(crate::twitter::routes::serve::tweet_views(out@) =~= Seq::new(
            ranked@.len(),
            |k: int| store@.tweets[ranked@[k] as int],
        ));
        assert(is_full_ranking(
            candidate_keys(store@, helpers, window_start),
            order.descending(),
            ranked@,
        ));
    }
    out
}

/// Timeline tweets and originals of retweets, created within `days_back`
/// days before `now`, that miss a reply or quote target or the address of
/// one of their media.
pub fn core_tweets_to_backfill_at(store: &Store, days_back: i64, order: BackfillOrder, now: i64) -> (r:
    Vec<Tweet>)
    ensures
        is_backfill(
            store@,
            false,
            lookback_start(now, days_back),
            order,
            crate::twitter::routes::serve::tweet_views(r@),
        ),
{
    select_candidates(store, false, window_back(now, days_back), order)
}

/// Helper tweets, created within `days_back` days before `now`, that miss
/// the address of one of their media.
pub fn helper_tweets_to_backfill_at(store: &Store, days_back: i64, order: BackfillOrder, now: i64) -> (r:
    Vec<Tweet>)
    ensures
        is_backfill(
            store@,
            true,
            lookback_start(now, days_back),
            order,
            crate::twitter::routes::serve::tweet_views(r@),
        ),
{
    select_candidates(store, true, window_back(now, days_back), order)
}

/// The incomplete timeline tweets and originals of retweets of the last
/// `days_back` days, in the given direction of popularity.
pub fn fetch_core_tweets_to_backfill(store: &Store, days_back: i64, order: BackfillOrder) -> (r:
    Vec<Tweet>)
    ensures
        exists|now: i64|
            now >= 0 && is_backfill(
                store@,
                false,
                #[trigger] lookback_start(now, days_back),
                order,
                crate::twitter::routes::serve::tweet_views(r@),
            ),
{
    let now = now_micros();
    core_tweets_to_backfill_at(store, days_back, order, now)
}

/// The helper tweets of the last `days_back` days that miss the address
/// of one of their media, in the given direction of popularity.
pub fn fetch_helper_tweets_to_backfill(store: &Store, days_back: i64, order: BackfillOrder) -> (r:
    Vec<Tweet>)
    ensures
        exists|now: i64|
            now >= 0 && is_backfill(
                store@,
                true,
                #[trigger] lookback_start(now, days_back),
                order,
                crate::twitter::routes::serve::tweet_views(r@),
            ),
{
    let now = now_micros();
    helper_tweets_to_backfill_at(store, days_back, order, now)
}

/// A store without gaps has nothing to repair: where every reply and
/// quote target has a row and every media row an address, neither kind
/// has a candidate, whatever the window.
pub proof fn lemma_complete_store_has_no_candidates(
    s: StoreView,
    helpers: bool,
    window_start: i64,
    order: BackfillOrder,
    rows: Seq<TweetView>,
)
    requires
        forall|i: int| 0 <= i < s.tweets.len() ==> !has_gap(s, #[trigger] s.tweets[i]),
        is_backfill(s, helpers, window_start, order, rows),
    ensures
        rows.len() == 0,
{
    let keys = candidate_keys(s, helpers, window_start);
    let r = choose|r: Seq<usize>|
        #[trigger] is_full_ranking(keys, order.descending(), r) && rows == Seq::new(
            r.len(),
            |k: int| s.tweets[r[k] as int],
        );
    if r.len() > 0 {
        assert(keys[r[0] as int] is Some);
        assert(!has_gap(s, s.tweets[r[0] as int]));
    }
}

} // verus!
