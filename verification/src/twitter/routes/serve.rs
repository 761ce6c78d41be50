use vstd::prelude::*;
use crate::twitter::model::media::{fetch_all_media_for_tweet, media_views};
use crate::twitter::model::rank::{below, is_ranking, lemma_full_page, page_worth, rank};
use crate::twitter::model::store::{
    Media, Store, StoreView, Tweet, TweetClass, TweetView, User,
};
use crate::twitter::model::tweet::find_tweet;
use crate::twitter::model::user::find_user_by_uuid;
use crate::utils::errors::ApiError;
use crate::utils::outside::{
    format_rfc3339, now_micros, parse_rfc3339, rfc3339_micros, rfc3339_text,
};
use crate::utils::text::{
    all_digits, decimal_i64, digits_value, is_digit, lemma_digits_value_bounds,
    lemma_pow10_monotonic, lemma_signed_decimal_reads_back, opt_text, parse_i64, parse_i64_spec,
    pow10, same_text, signed_decimal, to_chars,
};

verus! {

/// Rows in a page.
pub const PAGE_SIZE: usize = 20;

/// Microseconds in an hour.
pub const HOUR: i64 = 3_600_000_000;

/// The metric of a first request: the largest 64-bit value, in decimal.
pub open spec fn first_page_metric() -> Seq<char> {
    signed_decimal(i64::MAX as int)
}

#[derive(Clone, Copy, Debug, PartialEq, Eq, Structural)]
pub enum SortBy {
    Popularity,
    Retweets,
    Likes,
    Replies,
    Time,
}

#[derive(Clone, Copy, Debug, PartialEq, Eq, Structural)]
pub enum Timeframe {
    Hour,
    Four,
    Day,
    Twodays,
    Week,
    Month,
}

/// What a reader asks for: an order, a window, and the last row seen.
#[derive(Debug)]
pub struct TweetParams {
    pub sort_by: SortBy,
    pub timeframe: Timeframe,
    pub last_tweet_id: String,
    pub last_metric: String,
}

/// A tweet as the reader gets it: with author and media and, one level
/// deep, the tweets it answers and quotes.
#[derive(Debug)]
pub struct FullTweet {
    pub tweet: Tweet,
    pub author: User,
    pub media: Option<Vec<Media>>,
    pub reply_to: Box<Option<FullTweet>>,
    pub quote_of: Box<Option<FullTweet>>,
}

impl SortBy {
    /// Name of the column that the order goes by.
    pub open spec fn column(self) -> Seq<char> {
        match self {
            SortBy::Popularity => "popularity_count"@,
            SortBy::Retweets => "total_retweet_count"@,
            SortBy::Likes => "like_count"@,
            SortBy::Replies => "reply_count"@,
            SortBy::Time => "tweet_created_at"@,
        }
    }

    /// Name of the column that the order goes by.
    pub fn to_string(&self) -> (r: String)
        ensures
            r@ == self.column(),
    {
        match self {
            SortBy::Popularity => "popularity_count".to_owned(),
            SortBy::Retweets => "total_retweet_count".to_owned(),
            SortBy::Likes => "like_count".to_owned(),
            SortBy::Replies => "reply_count".to_owned(),
            SortBy::Time => "tweet_created_at".to_owned(),
        }
    }

    /// The counter of a tweet that the order goes by; the total of
    /// retweets and quotes for `Retweets`. `Time` goes by no counter, and a
    /// row may lack the one asked for.
    pub open spec fn metric(self, t: TweetView) -> Option<i64> {
        match self {
            SortBy::Popularity => t.metrics.popularity_count,
            SortBy::Retweets => t.metrics.total_retweet_count,
            SortBy::Likes => t.metrics.like_count,
            SortBy::Replies => t.metrics.reply_count,
            SortBy::Time => None,
        }
    }

    /// The counter of a tweet row that the order goes by.
    pub fn metric_of(&self, tweet: &Tweet) -> (r: Option<i64>)
        ensures
            r == self.metric(tweet@),
    {
        match self {
            SortBy::Popularity => tweet.metrics.popularity_count,
            SortBy::Retweets => tweet.metrics.total_retweet_count,
            SortBy::Likes => tweet.metrics.like_count,
            SortBy::Replies => tweet.metrics.reply_count,
            SortBy::Time => None,
        }
    }
}

impl Timeframe {
    /// Length of the window in hours.
    pub open spec fn hours_spec(self) -> i64 {
        match self {
            Timeframe::Hour => 1,
            Timeframe::Four => 4,
            Timeframe::Day => 24,
            Timeframe::Twodays => 48,
            Timeframe::Week => 168,
            Timeframe::Month => 720,
        }
    }

    /// Length of the window in hours.
    pub fn hours(&self) -> (r: i64)
        ensures
            r == self.hours_spec(),
    {
        match self {
            Timeframe::Hour => 1,
            Timeframe::Four => 4,
            Timeframe::Day => 24,
            Timeframe::Twodays => 48,
            Timeframe::Week => 24 * 7,
            Timeframe::Month => 24 * 30,
        }
    }

    /// Start of the window that ends at `now`, in microseconds since the
    /// Unix epoch; the smallest 64-bit value where the start lies before it.
    pub open spec fn window_start(self, now: i64) -> i64 {
        if now - self.hours_spec() * HOUR < i64::MIN {
            i64::MIN
        } else {
            (now - self.hours_spec() * HOUR) as i64
        }
    }

    /// Start of the window that ends at `now`.
    pub fn cutoff(&self, now: i64) -> (r: i64)
        ensures
            r == self.window_start(now),
    {
        let span: i64 = self.hours() * HOUR;
        match now.checked_sub(span) {
            Some(start) => start,
            None => i64::MIN,
        }
    }

    /// Start of the window that ends now, as RFC 3339 text; `None` where
    /// no calendar date can hold it.
    pub fn to_string(&self) -> (r: Option<String>)
        ensures
            exists|now: i64| now >= 0 && opt_text(r) == #[trigger] rfc3339_text(self.window_start(now)),
    {
        let now = now_micros();
        format_rfc3339(self.cutoff(now))
    }
}

/// Number of characters of an external id that go into a key.
pub open spec fn prefix_len(tweet_id: Seq<char>) -> int {
    if tweet_id.len() < 10 {
        tweet_id.len() as int
    } else {
        10
    }
}

/// The key that orders tweets by a counter and breaks ties by id: the
/// number written by the counter's digits followed by the first ten
/// characters of the external id. There is no key where one of those
/// characters is no digit, or where the number does not fit 64 bits.
pub open spec fn composite_key(metric: i64, tweet_id: Seq<char>) -> Option<i64> {
    let prefix = tweet_id.take(prefix_len(tweet_id));
    if !all_digits(prefix) {
        None
    } else {
        let v = if metric >= 0 {
            metric * pow10(prefix.len()) + digits_value(prefix)
        } else {
            metric * pow10(prefix.len()) - digits_value(prefix)
        };
        if i64::MIN <= v <= i64::MAX {
            Some(v as i64)
        } else {
            None
        }
    }
}

/// The key by which a tweet is ordered: its creation time, or the
/// composite of the chosen counter and its id. A row without the counter
/// has no key.
pub open spec fn sort_key(t: TweetView, by: SortBy) -> Option<i64> {
    match by {
        SortBy::Time => Some(t.tweet_created_at),
        _ => match by.metric(t) {
            Some(m) => composite_key(m, t.tweet_id),
            None => None,
        },
    }
}

/// The row has what the order goes by: a creation time, or the counter.
pub open spec fn ordered_by(t: TweetView, by: SortBy) -> bool {
    by == SortBy::Time || by.metric(t) is Some
}

/// A tweet that readers see in a window: not a helper, and created at or
/// after the window's start.
pub open spec fn visible(t: TweetView, window_start: i64) -> bool {
    t.tweet_class != TweetClass::Helper && t.tweet_created_at >= window_start
}

/// Keys of the visible rows; other rows have none.
pub open spec fn visible_keys(s: StoreView, by: SortBy, window_start: i64) -> Seq<Option<i64>> {
    Seq::new(
        s.tweets.len(),
        |i: int|
            if visible(s.tweets[i], window_start) {
                sort_key(s.tweets[i], by)
            } else {
                None
            },
    )
}

/// Some visible row has the counter asked for and yet no key: the page
/// cannot be made. A visible row without the counter is passed over.
pub open spec fn page_fails(s: StoreView, by: SortBy, window_start: i64) -> bool {
    exists|i: int|
        0 <= i < s.tweets.len() && visible(#[trigger] s.tweets[i], window_start) && ordered_by(
            s.tweets[i],
            by,
        ) && sort_key(s.tweets[i], by) is None
}

/// The key below which a page starts. A first request, told by its
/// metric, starts below an unreachable bound: one hour from now for
/// `Time`, the largest key for the other orders. A later request starts
/// below the key of the last row seen: its creation time in RFC 3339 for
/// `Time`, the composite of its counter and id otherwise.
pub open spec fn cursor_of(form: TweetParams, now: i64) -> Option<i64> {
    if form.last_metric@ == first_page_metric() {
        match form.sort_by {
            SortBy::Time => Some(
                if now + HOUR > i64::MAX {
                    i64::MAX
                } else {
                    (now + HOUR) as i64
                },
            ),
            _ => Some(i64::MAX),
        }
    } else {
        match form.sort_by {
            SortBy::Time => rfc3339_micros(form.last_metric@),
            _ => match parse_i64_spec(form.last_metric@) {
                Some(m) => composite_key(m, form.last_tweet_id@),
                None => None,
            },
        }
    }
}

/// `rows` is the page below `cursor`: the visible rows with a key below
/// it, by falling key and, among equal keys, in row order, up to
/// `PAGE_SIZE` of them; and exactly `PAGE_SIZE` where that many rows
/// qualify.
pub open spec fn is_page(
    s: StoreView,
    by: SortBy,
    window_start: i64,
    cursor: i64,
    rows: Seq<usize>,
) -> bool {
    &&& is_ranking(below(visible_keys(s, by, window_start), cursor), true, PAGE_SIZE as nat, rows)
    &&& (exists|w: Seq<int>| #[trigger]
        page_worth(below(visible_keys(s, by, window_start), cursor), PAGE_SIZE as nat, w))
        ==> rows.len() == PAGE_SIZE
}

/// Views of tweet rows.
pub open spec fn tweet_views(rows: Seq<Tweet>) -> Seq<TweetView> {
    Seq::new(rows.len(), |i: int| rows[i]@)
}

/// The key that orders tweets by a counter and breaks ties by id.
pub fn composite(metric: i64, tweet_id: &str) -> (r: Option<i64>)
    ensures
        r == composite_key(metric, tweet_id@),
{
    let chars = to_chars(tweet_id);
    let n: usize = if chars.len() < 10 {
        chars.len()
    } else {
        10
    };
    let ghost prefix = chars@.take(n as int);
    let mut value: i128 = 0;
    let mut scale: i128 = 1;
    let mut i: usize = 0;
    proof {
        reveal_with_fuel(pow10, 11);
        assert(pow10(10) == 10_000_000_000);
    }
    while i < n
        invariant
            i <= n <= 10,
            n <= chars.len(),
            chars@ == tweet_id@,
            n == prefix_len(tweet_id@),
            prefix == chars@.take(n as int),
            all_digits(prefix.take(i as int)),
            value == digits_value(prefix.take(i as int)),
            scale == pow10(i as nat),
            0 <= value < scale,
            scale <= 10_000_000_000,
            pow10(10) == 10_000_000_000,
        decreases n - i,
    {
        let c: char = chars[i];
        let ghost next = prefix.take(i + 1);
        proof {
            assert(next.drop_last() =~= prefix.take(i as int));
            assert(next.last() == c);
            assert(prefix[i as int] == c);
        }
        if c < '0' || c > '9' {
            proof {
                assert(!is_digit(prefix[i as int]));
            }
            return None;
        }
        proof {
            assert forall|j: int| 0 <= j < next.len() implies is_digit(#[trigger] next[j]) by {
                if j < i {
                    assert(next[j] == prefix.take(i as int)[j]);
                }
            }
            lemma_pow10_monotonic((i + 1) as nat, 10);
            lemma_digits_value_bounds(next);
        }
        value = value * 10 + (c as u32 - '0' as u32) as i128;
        scale = scale * 10;
        i += 1;
    }
    proof {
        assert(prefix.take(n as int) =~= prefix);
    }
    let m: i128 = metric as i128;
    assert(-9_223_372_036_854_775_808 * 10_000_000_000 <= m * scale <= 9_223_372_036_854_775_807
        * 10_000_000_000) by (nonlinear_arith)
        requires
            -9_223_372_036_854_775_808 <= m <= 9_223_372_036_854_775_807,
            1 <= scale <= 10_000_000_000,
    ;
    let v: i128 = if metric >= 0 {
        m * scale + value
    } else {
        m * scale - value
    };
    if v < i64::MIN as i128 || v > i64::MAX as i128 {
        None
    } else {
        Some(v as i64)
    }
}

/// The key by which a tweet row is ordered.
pub fn key_of(tweet: &Tweet, sort_by: SortBy) -> (r: Option<i64>)
    ensures
        r == sort_key(tweet@, sort_by),
{
    match sort_by {
        SortBy::Time => Some(tweet.tweet_created_at),
        _ => match sort_by.metric_of(tweet) {
            Some(m) => composite(m, tweet.tweet_id.as_str()),
            None => None,
        },
    }
}

/// The key below which the page of a request starts, at a given time.
pub fn cursor_at_time(form: &TweetParams, now: i64) -> (r: Option<i64>)
    ensures
        r == cursor_of(*form, now),
{
    if same_text(form.last_metric.as_str(), decimal_i64(i64::MAX).as_str()) {
        match form.sort_by {
            SortBy::Time => match now.checked_add(HOUR) {
                Some(c) => Some(c),
                None => Some(i64::MAX),
            },
            _ => Some(i64::MAX),
        }
    } else {
        match form.sort_by {
            SortBy::Time => parse_rfc3339(form.last_metric.as_str()),
            _ => match parse_i64(form.last_metric.as_str()) {
                Some(m) => composite(m, form.last_tweet_id.as_str()),
                None => None,
            },
        }
    }
}

/// Positions of the rows of the page below a cursor. The page cannot be
/// made, and `StorageFailure` is returned, where a visible row has no key.
pub fn page_rows(store: &Store, sort_by: SortBy, window_start: i64, cursor: i64) -> (r: Result<
    Vec<usize>,
    ApiError,
>)
    ensures
        if page_fails(store@, sort_by, window_start) {
            r == Err::<Vec<usize>, ApiError>(ApiError::StorageFailure)
        } else {
            r is Ok && is_page(store@, sort_by, window_start, cursor, r->Ok_0@)
        },
{
    let mut keys: Vec<Option<i64>> = Vec::new();
    let ghost all = visible_keys(store@, sort_by, window_start);
    let mut i: usize = 0;
    while i < store.tweets.len()
        invariant
            i <= store.tweets.len(),
            all == visible_keys(store@, sort_by, window_start),
            keys@ == below(all, cursor).take(i as int),
            forall|j: int|
                0 <= j < i ==> !(visible(#[trigger] store@.tweets[j], window_start)
                    && ordered_by(store@.tweets[j], sort_by) && sort_key(
                    store@.tweets[j],
                    sort_by,
                ) is None),
        decreases store.tweets.len() - i,
    {
        let row = &store.tweets[i];
        let mut key: Option<i64> = None;
        let shown = match row.tweet_class {
            TweetClass::Helper => false,
            _ => row.tweet_created_at >= window_start,
        };
        if shown {
            match key_of(row, sort_by) {
                Some(k) => {
                    if k < cursor {
                        key = Some(k);
                    }
                },
                None => {
                    let counted = match sort_by {
                        SortBy::Time => true,
                        _ => sort_by.metric_of(row).is_some(),
                    };
                    if counted {
                        proof {
                            assert(visible(store@.tweets[i as int], window_start));
                        }
                        return Err(ApiError::StorageFailure);
                    }
                },
            }
        }
        keys.push(key);
        proof {
            assert(keys@ =~= below(all, cursor).take(i + 1));
        }
        i += 1;
    }
    proof {
        assert(keys@ =~= below(all, cursor));
    }
    let rows = rank(&keys, true, PAGE_SIZE);
    proof {
        if exists|w: Seq<int>| #[trigger] page_worth(keys@, PAGE_SIZE as nat, w) {
            let w = choose|w: Seq<int>| #[trigger] page_worth(keys@, PAGE_SIZE as nat, w);
            lemma_full_page(keys@, true, PAGE_SIZE as nat, rows@, w);
        }
    }
    Ok(rows)
}

/// The page of a request at a given time. `StorageFailure` where the
/// request names no cursor or a visible row has no key.
pub fn next_page_at(store: &Store, form: &TweetParams, now: i64) -> (r: Result<
    Vec<Tweet>,
    ApiError,
>)
    ensures
        match cursor_of(*form, now) {
            Some(cursor) if !page_fails(
                store@,
                form.sort_by,
                form.timeframe.window_start(now),
            ) => r is Ok && exists|rows: Seq<usize>|
                #[trigger] is_page(
                    store@,
                    form.sort_by,
                    form.timeframe.window_start(now),
                    cursor,
                    rows,
                ) && tweet_views(r->Ok_0@) == Seq::new(
                    rows.len(),
                    |k: int| store@.tweets[rows[k] as int],
                ),
            _ => r is Err && r->Err_0 == ApiError::StorageFailure,
        },
{
    let cursor = match cursor_at_time(form, now) {
        Some(c) => c,
        None => { return Err(ApiError::StorageFailure); },
    };
    let window_start = form.timeframe.cutoff(now);
    let rows = page_rows(store, form.sort_by, window_start, cursor)?;
    let mut page: Vec<Tweet> = Vec::new();
    let mut k: usize = 0;
    while k < rows.len()
        invariant
            k <= rows.len(),
            is_page(store@, form.sort_by, window_start, cursor, rows@),
            page@.len() == k,
            forall|j: int| 0 <= j < k ==> page@[j]@ == store@.tweets[rows@[j] as int],
        decreases rows.len() - k,
    {
        proof {
            assert(below(visible_keys(store@, form.sort_by, window_start), cursor)[rows@[k as int] as int] is Some);
        }
        page.push(store.tweets[rows[k]].clone());
        k += 1;
    }
    proof {
        assert(tweet_views(page@) =~= Seq::new(
            rows@.len(),
            |k: int| store@.tweets[rows@[k] as int],
        ));
    }
    Ok(page)
}

/// The next page of visible tweets for a request: up to `PAGE_SIZE` rows
/// of the window that ends now, below the request's cursor, by falling key.
pub fn fetch_next_page_of_tweets(store: &Store, form: &TweetParams) -> (r: Result<
    Vec<Tweet>,
    ApiError,
>)
    ensures
        exists|now: i64|
            now >= 0 && match #[trigger] cursor_of(*form, now) {
                Some(cursor) if !page_fails(
                    store@,
                    form.sort_by,
                    form.timeframe.window_start(now),
                ) => r is Ok && exists|rows: Seq<usize>|
                    #[trigger] is_page(
                        store@,
                        form.sort_by,
                        form.timeframe.window_start(now),
                        cursor,
                        rows,
                    ) && tweet_views(r->Ok_0@) == Seq::new(
                        rows.len(),
                        |k: int| store@.tweets[rows[k] as int],
                    ),
                _ => r is Err && r->Err_0 == ApiError::StorageFailure,
            },
{
    let now = now_micros();
    next_page_at(store, form, now)
}

/// `ft` is the tweet `t` with its author and its media rows, and with no
/// reply or quote target expanded.
pub open spec fn is_card(ft: FullTweet, s: StoreView, t: TweetView) -> bool {
    &&& ft.tweet@ == t
    &&& s.user_by_id(t.user_id) is Some
    &&& ft.author@ == s.users[s.user_by_id(t.user_id)->0]
    &&& ft.media is Some
    &&& media_views(ft.media->0@) == s.media_of(t.id)
    &&& *ft.reply_to is None
    &&& *ft.quote_of is None
}

/// Position of the tweet that a soft reference points to, where it has a row.
pub open spec fn target_row(s: StoreView, reference: Option<Seq<char>>) -> Option<int> {
    match reference {
        Some(id) => s.tweet_at(id),
        None => None,
    }
}

/// `slot` holds the target of a reference, composed without further
/// expansion, where the target has a row, and nothing where it has none.
pub open spec fn holds_target(
    slot: Option<FullTweet>,
    s: StoreView,
    reference: Option<Seq<char>>,
) -> bool {
    match target_row(s, reference) {
        Some(i) => slot is Some && is_card(slot->0, s, s.tweets[i]),
        None => slot is None,
    }
}

/// `ft` is the tweet `t` as a reader gets it: with author and media and,
/// one level deep, the stored targets of its reply and quote references.
pub open spec fn is_full(ft: FullTweet, s: StoreView, t: TweetView) -> bool {
    &&& ft.tweet@ == t
    &&& s.user_by_id(t.user_id) is Some
    &&& ft.author@ == s.users[s.user_by_id(t.user_id)->0]
    &&& ft.media is Some
    &&& media_views(ft.media->0@) == s.media_of(t.id)
    &&& holds_target(*ft.reply_to, s, t.replied_to_tweet_id)
    &&& holds_target(*ft.quote_of, s, t.quoted_tweet_id)
}

/// The author of a reference's target has no row.
pub open spec fn target_orphaned(s: StoreView, reference: Option<Seq<char>>) -> bool {
    target_row(s, reference) matches Some(i) && s.user_by_id(s.tweets[i].user_id) is None
}

/// The tweet cannot be composed: its author, or the author of a target
/// that has a row, has none.
pub open spec fn compose_fails(s: StoreView, t: TweetView) -> bool {
    ||| s.user_by_id(t.user_id) is None
    ||| target_orphaned(s, t.replied_to_tweet_id)
    ||| target_orphaned(s, t.quoted_tweet_id)
}

/// In a well-formed store every tweet can be composed.
pub proof fn lemma_wf_composes(s: StoreView, i: int)
    requires
        s.wf(),
        0 <= i < s.tweets.len(),
    ensures
        !compose_fails(s, s.tweets[i]),
{
    crate::twitter::model::store::lemma_position(s.user_ids(), s.tweets[i].user_id);
    assert(s.user_ids().contains(s.tweets[i].user_id));
    let t = s.tweets[i];
    if target_row(s, t.replied_to_tweet_id) is Some {
        let j = target_row(s, t.replied_to_tweet_id)->0;
        crate::twitter::model::store::lemma_position(s.tweet_keys(), t.replied_to_tweet_id->0);
        crate::twitter::model::store::lemma_position(s.user_ids(), s.tweets[j].user_id);
        assert(s.user_ids().contains(s.tweets[j].user_id));
    }
    if target_row(s, t.quoted_tweet_id) is Some {
        let j = target_row(s, t.quoted_tweet_id)->0;
        crate::twitter::model::store::lemma_position(s.tweet_keys(), t.quoted_tweet_id->0);
        crate::twitter::model::store::lemma_position(s.user_ids(), s.tweets[j].user_id);
        assert(s.user_ids().contains(s.tweets[j].user_id));
    }
}

/// Composes a tweet with its author and its media. `StorageFailure` where
/// the author has no row.
pub fn prep_full_tweet(store: &Store, tweet: Tweet) -> (r: Result<FullTweet, ApiError>)
    ensures
        match store@.user_by_id(tweet.user_id) {
            Some(_) => r is Ok && is_card(r->Ok_0, store@, tweet@),
            None => r is Err && r->Err_0 == ApiError::StorageFailure,
        },
{
    let author = match find_user_by_uuid(store, tweet.user_id) {
        Some(u) => store.users[u].clone(),
        None => { return Err(ApiError::StorageFailure); },
    };
    let media = fetch_all_media_for_tweet(store, tweet.id);
    Ok(
        FullTweet {
            tweet,
            author,
            media: Some(media),
            reply_to: Box::new(None),
            quote_of: Box::new(None),
        },
    )
}

/// Composes the target of a reference, where the target has a row.
pub fn prep_target(store: &Store, reference: &Option<String>) -> (r: Result<
    Option<FullTweet>,
    ApiError,
>)
    ensures
        if target_orphaned(store@, opt_text(*reference)) {
            r is Err && r->Err_0 == ApiError::StorageFailure
        } else {
            r is Ok && holds_target(r->Ok_0, store@, opt_text(*reference))
        },
{
    let id = match reference {
        Some(id) => id,
        None => { return Ok(None); },
    };
    match find_tweet(store, id.as_str()) {
        Some(i) => {
            let card = prep_full_tweet(store, store.tweets[i].clone())?;
            Ok(Some(card))
        },
        None => Ok(None),
    }
}

/// Composes the tweet row at a position as a reader gets it.
pub fn compose(store: &Store, row: usize) -> (r: Result<FullTweet, ApiError>)
    requires
        row < store.tweets.len(),
    ensures
        if compose_fails(store@, store@.tweets[row as int]) {
            r is Err && r->Err_0 == ApiError::StorageFailure
        } else {
            r is Ok && is_full(r->Ok_0, store@, store@.tweets[row as int])
        },
{
    let card = prep_full_tweet(store, store.tweets[row].clone())?;
    let reply = prep_target(store, &card.tweet.replied_to_tweet_id)?;
    let quote = prep_target(store, &card.tweet.quoted_tweet_id)?;
    Ok(
        FullTweet {
            tweet: card.tweet,
            author: card.author,
            media: card.media,
            reply_to: Box::new(reply),
            quote_of: Box::new(quote),
        },
    )
}

/// `r` answers with the rows `rows`: each composed, in order; or with
/// `StorageFailure`, and no part of a page, where one of them cannot be
/// composed.
pub open spec fn answers_with(
    s: StoreView,
    rows: Seq<usize>,
    r: Result<Vec<FullTweet>, ApiError>,
) -> bool {
    if exists|k: int| 0 <= k < rows.len() && compose_fails(s, s.tweets[rows[k] as int]) {
        r is Err && r->Err_0 == ApiError::StorageFailure
    } else {
        &&& r is Ok
        &&& r->Ok_0@.len() == rows.len()
        &&& forall|k: int|
            0 <= k < rows.len() ==> is_full(
                r->Ok_0@[k],
                s,
                s.tweets[(#[trigger] rows[k]) as int],
            )
    }
}

/// `rows` is the page below `cursor`, and `r` answers with it.
pub open spec fn page_answer(
    s: StoreView,
    by: SortBy,
    window_start: i64,
    cursor: i64,
    rows: Seq<usize>,
    r: Result<Vec<FullTweet>, ApiError>,
) -> bool {
    is_page(s, by, window_start, cursor, rows) && answers_with(s, rows, r)
}

/// What a request is answered with at a given time: the rows of its
/// page, each composed. `StorageFailure` where the request names no
/// cursor, a visible row has no key, or a row of the page cannot be
/// composed.
pub open spec fn serves(
    s: StoreView,
    form: TweetParams,
    now: i64,
    r: Result<Vec<FullTweet>, ApiError>,
) -> bool {
    let window_start = form.timeframe.window_start(now);
    if cursor_of(form, now) is None || page_fails(s, form.sort_by, window_start) {
        r is Err && r->Err_0 == ApiError::StorageFailure
    } else {
        exists|rows: Seq<usize>|
            page_answer(s, form.sort_by, window_start, cursor_of(form, now)->0, rows, r)
    }
}

/// Answers a request at a given time.
pub fn serve_tweets_at(store: &Store, form: &TweetParams, now: i64) -> (r: Result<
    Vec<FullTweet>,
    ApiError,
>)
    ensures
        serves(store@, *form, now, r),
{
    let cursor = match cursor_at_time(form, now) {
        Some(c) => c,
        None => { return Err(ApiError::StorageFailure); },
    };
    let window_start = form.timeframe.cutoff(now);
    let rows = page_rows(store, form.sort_by, window_start, cursor)?;
    let mut full_tweets: Vec<FullTweet> = Vec::new();
    let mut k: usize = 0;
    while k < rows.len()
        invariant
            k <= rows.len(),
            is_page(store@, form.sort_by, window_start, cursor, rows@),
            cursor_of(*form, now) == Some(cursor),
            window_start == form.timeframe.window_start(now),
            !page_fails(store@, form.sort_by, window_start),
            full_tweets@.len() == k,
            forall|j: int|
                0 <= j < k ==> !compose_fails(store@, store@.tweets[(#[trigger] rows@[j]) as int])
                    && is_full(full_tweets@[j], store@, store@.tweets[rows@[j] as int]),
        decreases rows.len() - k,
    {
        proof {
            assert(below(visible_keys(store@, form.sort_by, window_start), cursor)[rows@[k as int] as int] is Some);
        }
        match compose(store, rows[k]) {
            Ok(full_tweet) => {
                let ghost before = full_tweets@;
                full_tweets.push(full_tweet);
                proof {
                    assert forall|j: int| 0 <= j < k + 1 implies !compose_fails(
                        store@,
                        store@.tweets[(#[trigger] rows@[j]) as int],
                    ) && is_full(full_tweets@[j], store@, store@.tweets[rows@[j] as int]) by {
                        if j < k {
                            assert(full_tweets@[j] == before[j]);
                        }
                    }
                }
            },
            Err(e) => {
                proof {
                    assert(0 <= k < rows@.len() && compose_fails(
                        store@,
                        store@.tweets[rows@[k as int] as int],
                    ));
                    assert(page_answer(
                        store@,
                        form.sort_by,
                        form.timeframe.window_start(now),
                        cursor_of(*form, now)->0,
                        rows@,
                        Err::<Vec<FullTweet>, ApiError>(e),
                    ));
                }
                return Err(e);
            },
        }
        k += 1;
    }
    proof {
        assert(is_page(store@, form.sort_by, window_start, cursor, rows@));
        assert(!(exists|j: int|
            0 <= j < rows@.len() && compose_fails(store@, store@.tweets[rows@[j] as int]))) by {
            if exists|j: int|
                0 <= j < rows@.len() && compose_fails(store@, store@.tweets[rows@[j] as int]) {
                let j = choose|j: int|
                    0 <= j < rows@.len() && compose_fails(store@, store@.tweets[rows@[j] as int]);
                assert(is_full(full_tweets@[j], store@, store@.tweets[rows@[j] as int]));
            }
        }
        assert(page_answer(
            store@,
            form.sort_by,
            window_start,
            cursor,
            rows@,
            Ok::<Vec<FullTweet>, ApiError>(full_tweets),
        ));
    }
    Ok(full_tweets)
}

/// Answers a request: the next page of visible tweets of the window that
/// ends now, each with author and media and, one level deep, the tweets
/// it answers and quotes.
pub fn serve_tweets(store: &Store, form: &TweetParams) -> (r: Result<Vec<FullTweet>, ApiError>)
    ensures
        exists|now: i64| now >= 0 && #[trigger] serves(store@, *form, now, r),
{
    let now = now_micros();
    serve_tweets_at(store, form, now)
}

/// Row `i` is visible and has a key.
pub open spec fn row_shown(s: StoreView, by: SortBy, window_start: i64, i: int) -> bool {
    &&& 0 <= i < s.tweets.len()
    &&& visible(s.tweets[i], window_start)
    &&& visible_keys(s, by, window_start)[i] == sort_key(s.tweets[i], by)
    &&& sort_key(s.tweets[i], by) is Some
}

/// Paging through a window is complete and free of repetition, for a
/// store in which no two visible rows have the same key: pages asked for
/// one after the other, each below the key of the last row of the page
/// before, until one comes back short, hold every visible row with a key
/// below the first cursor, by strictly falling key and so each once; no
/// page is longer than `PAGE_SIZE`.
pub proof fn lemma_paging_complete(
    s: StoreView,
    by: SortBy,
    window_start: i64,
    first_cursor: i64,
    pages: Seq<Seq<usize>>,
)
    requires
        crate::twitter::model::rank::distinct_keys(visible_keys(s, by, window_start)),
        pages.len() > 0,
        forall|p: int|
            0 <= p < pages.len() ==> is_page(
                s,
                by,
                window_start,
                crate::twitter::model::rank::cursor_at(
                    visible_keys(s, by, window_start),
                    first_cursor,
                    pages,
                    p,
                ),
                #[trigger] pages[p],
            ),
        forall|p: int| 0 <= p < pages.len() - 1 ==> (#[trigger] pages[p]).len() > 0,
        pages.last().len() < PAGE_SIZE,
    ensures
        forall|i: int|
            0 <= i < s.tweets.len() && visible(s.tweets[i], window_start) && sort_key(
                s.tweets[i],
                by,
            ) is Some && sort_key(s.tweets[i], by)->0 < first_cursor ==> exists|q: int|
                0 <= q < pages.len() && #[trigger] crate::twitter::model::rank::listed(pages[q], i),
        forall|p: int, k: int, q: int, l: int|
            0 <= p < pages.len() && 0 <= q < pages.len() && 0 <= k < pages[p].len() && 0 <= l
                < pages[q].len() && (p < q || (p == q && k < l)) ==> sort_key(
                #[trigger] s.tweets[pages[p][k] as int],
                by,
            )->0 > sort_key(#[trigger] s.tweets[pages[q][l] as int], by)->0,
        forall|p: int, k: int|
            0 <= p < pages.len() && 0 <= k < pages[p].len() ==> (#[trigger] pages[p][k])
                < s.tweets.len() && visible(s.tweets[pages[p][k] as int], window_start),
        forall|p: int| 0 <= p < pages.len() ==> (#[trigger] pages[p]).len() <= PAGE_SIZE,
{
    let keys = visible_keys(s, by, window_start);
    crate::twitter::model::rank::lemma_pages_enumerate(
        keys,
        PAGE_SIZE as nat,
        first_cursor,
        pages,
    );
    assert forall|i: int|
        0 <= i < s.tweets.len() && visible(s.tweets[i], window_start) && sort_key(
            s.tweets[i],
            by,
        ) is Some && sort_key(s.tweets[i], by)->0 < first_cursor implies exists|q: int|
        0 <= q < pages.len() && #[trigger] crate::twitter::model::rank::listed(pages[q], i) by {
        assert(keys[i] is Some && keys[i]->0 < first_cursor);
    }
    assert forall|p: int, k: int| 0 <= p < pages.len() && 0 <= k < pages[p].len() implies {
        &&& pages[p][k] < s.tweets.len()
        &&& #[trigger] row_shown(s, by, window_start, pages[p][k] as int)
    } by {
        let c = crate::twitter::model::rank::cursor_at(keys, first_cursor, pages, p);
        assert(is_page(s, by, window_start, c, pages[p]));
        assert(below(keys, c)[pages[p][k] as int] is Some);
    }
    assert forall|p: int, k: int|
        0 <= p < pages.len() && 0 <= k < pages[p].len() implies (#[trigger] pages[p][k])
        < s.tweets.len() && visible(s.tweets[pages[p][k] as int], window_start) by {
        assert(row_shown(s, by, window_start, pages[p][k] as int));
    }
    assert forall|p: int, k: int, q: int, l: int|
        0 <= p < pages.len() && 0 <= q < pages.len() && 0 <= k < pages[p].len() && 0 <= l
            < pages[q].len() && (p < q || (p == q && k < l)) implies sort_key(
        #[trigger] s.tweets[pages[p][k] as int],
        by,
    )->0 > sort_key(#[trigger] s.tweets[pages[q][l] as int], by)->0 by {
        assert(row_shown(s, by, window_start, pages[p][k] as int));
        assert(row_shown(s, by, window_start, pages[q][l] as int));
        assert(keys[pages[p][k] as int]->0 > keys[pages[q][l] as int]->0);
    }
}

/// The metric with which the page after a row is asked for: the row's
/// creation time in RFC 3339 for `Time`, the counter in decimal otherwise.
pub open spec fn next_metric(by: SortBy, t: TweetView) -> Option<Seq<char>> {
    match by {
        SortBy::Time => rfc3339_text(t.tweet_created_at),
        _ => match by.metric(t) {
            Some(m) => Some(signed_decimal(m as int)),
            None => None,
        },
    }
}

/// `next` asks for the page after the row `t` of a page that `form` asked for.
pub open spec fn follows(form: TweetParams, t: TweetView, next: TweetParams) -> bool {
    &&& next.sort_by == form.sort_by
    &&& next.timeframe == form.timeframe
    &&& next.last_tweet_id@ == t.tweet_id
    &&& next_metric(form.sort_by, t) == Some(next.last_metric@)
}

/// The request for the page after the last row of a page; `None` where no
/// calendar date can hold the row's creation time, or the row lacks the
/// counter that the order goes by.
pub fn next_request(form: &TweetParams, last: &Tweet) -> (r: Option<TweetParams>)
    ensures
        match next_metric(form.sort_by, last@) {
            Some(_) => r is Some && follows(*form, last@, r->0),
            None => r is None,
        },
{
    let last_metric = match form.sort_by {
        SortBy::Time => match format_rfc3339(last.tweet_created_at) {
            Some(text) => text,
            None => { return None; },
        },
        _ => match form.sort_by.metric_of(last) {
            Some(m) => decimal_i64(m),
            None => { return None; },
        },
    };
    Some(
        TweetParams {
            sort_by: form.sort_by,
            timeframe: form.timeframe,
            last_tweet_id: last.tweet_id.clone(),
            last_metric,
        },
    )
}

/// What is written for the instant is no first request's metric, and
/// reads back as the instant.
pub open spec fn reads_back(instant: i64) -> bool {
    rfc3339_text(instant) matches Some(text) && text != first_page_metric() && rfc3339_micros(text)
        == Some(instant)
}

/// The request that follows a row starts its page below the row's key.
/// For `Time` this holds where the row's creation time reads back.
pub proof fn lemma_next_cursor(form: TweetParams, t: TweetView, next: TweetParams, now: i64)
    requires
        follows(form, t, next),
        sort_key(t, form.sort_by) is Some,
        form.sort_by == SortBy::Time ==> reads_back(t.tweet_created_at),
    ensures
        cursor_of(next, now) == sort_key(t, form.sort_by),
{
    if form.sort_by != SortBy::Time {
        let m = form.sort_by.metric(t)->0;
        lemma_signed_decimal_reads_back(m);
        lemma_signed_decimal_reads_back(i64::MAX);
        if next.last_metric@ == first_page_metric() {
            assert(m == i64::MAX);
            let prefix = t.tweet_id.take(prefix_len(t.tweet_id));
            lemma_digits_value_bounds(prefix);
            lemma_pow10_monotonic(0, prefix.len());
            assert(m * pow10(prefix.len()) >= m) by (nonlinear_arith)
                requires
                    m >= 0,
                    pow10(prefix.len()) >= 1,
            ;
        }
    }
}

/// Paging by requests is complete and free of repetition. A reader starts
/// with the first request's metric and asks for each further page with
/// the request that follows the last row of the page before, until a page
/// comes back short. Where no two visible rows have the same key (and, for
/// `Time`, creation times read back), the pages hold every visible row
/// with a key below the first cursor, by strictly falling key and so each
/// once.
pub proof fn lemma_requests_page_through(
    s: StoreView,
    now: i64,
    forms: Seq<TweetParams>,
    pages: Seq<Seq<usize>>,
)
    requires
        forms.len() == pages.len(),
        pages.len() > 0,
        forms[0].last_metric@ == first_page_metric(),
        crate::twitter::model::rank::distinct_keys(
            visible_keys(s, forms[0].sort_by, forms[0].timeframe.window_start(now)),
        ),
        forall|p: int|
            0 <= p < pages.len() ==> cursor_of(#[trigger] forms[p], now) is Some && is_page(
                s,
                forms[0].sort_by,
                forms[0].timeframe.window_start(now),
                cursor_of(forms[p], now)->0,
                pages[p],
            ),
        forall|p: int|
            0 <= p < pages.len() - 1 ==> (#[trigger] pages[p]).len() > 0 && follows(
                forms[p],
                s.tweets[pages[p].last() as int],
                forms[p + 1],
            ),
        forms[0].sort_by == SortBy::Time ==> forall|i: int|
            0 <= i < s.tweets.len() ==> reads_back((#[trigger] s.tweets[i]).tweet_created_at),
        pages.last().len() < PAGE_SIZE,
    ensures
        forall|i: int|
            0 <= i < s.tweets.len() && visible(
                s.tweets[i],
                forms[0].timeframe.window_start(now),
            ) && sort_key(s.tweets[i], forms[0].sort_by) is Some && sort_key(
                s.tweets[i],
                forms[0].sort_by,
            )->0 < cursor_of(forms[0], now)->0 ==> exists|q: int|
                0 <= q < pages.len() && #[trigger] crate::twitter::model::rank::listed(pages[q], i),
        forall|p: int, k: int, q: int, l: int|
            0 <= p < pages.len() && 0 <= q < pages.len() && 0 <= k < pages[p].len() && 0 <= l
                < pages[q].len() && (p < q || (p == q && k < l)) ==> sort_key(
                #[trigger] s.tweets[pages[p][k] as int],
                forms[0].sort_by,
            )->0 > sort_key(#[trigger] s.tweets[pages[q][l] as int], forms[0].sort_by)->0,
{
    let by = forms[0].sort_by;
    let window_start = forms[0].timeframe.window_start(now);
    let keys = visible_keys(s, by, window_start);
    let first = cursor_of(forms[0], now)->0;
    assert forall|p: int| 0 <= p < pages.len() implies (#[trigger] forms[p]).sort_by == by
        && cursor_of(forms[p], now)->0 == crate::twitter::model::rank::cursor_at(
        keys,
        first,
        pages,
        p,
    ) by {
        lemma_forms_follow(s, now, forms, pages, p);
    }
    assert forall|p: int| 0 <= p < pages.len() implies is_page(
        s,
        by,
        window_start,
        crate::twitter::model::rank::cursor_at(keys, first, pages, p),
        #[trigger] pages[p],
    ) by {
        assert(cursor_of(forms[p], now) is Some);
    }
    lemma_paging_complete(s, by, window_start, first, pages);
}

/// Along such a walk each request keeps the order and starts below the
/// key of the last row of the page before.
proof fn lemma_forms_follow(
    s: StoreView,
    now: i64,
    forms: Seq<TweetParams>,
    pages: Seq<Seq<usize>>,
    p: int,
)
    requires
        forms.len() == pages.len(),
        0 <= p < pages.len(),
        forall|p: int|
            0 <= p < pages.len() ==> cursor_of(#[trigger] forms[p], now) is Some && is_page(
                s,
                forms[0].sort_by,
                forms[0].timeframe.window_start(now),
                cursor_of(forms[p], now)->0,
                pages[p],
            ),
        forall|p: int|
            0 <= p < pages.len() - 1 ==> (#[trigger] pages[p]).len() > 0 && follows(
                forms[p],
                s.tweets[pages[p].last() as int],
                forms[p + 1],
            ),
        forms[0].sort_by == SortBy::Time ==> forall|i: int|
            0 <= i < s.tweets.len() ==> reads_back((#[trigger] s.tweets[i]).tweet_created_at),
    ensures
        forms[p].sort_by == forms[0].sort_by,
        cursor_of(forms[p], now)->0 == crate::twitter::model::rank::cursor_at(
            visible_keys(s, forms[0].sort_by, forms[0].timeframe.window_start(now)),
            cursor_of(forms[0], now)->0,
            pages,
            p,
        ),
    decreases p,
{
    if p > 0 {
        let q = p - 1;
        lemma_forms_follow(s, now, forms, pages, q);
        let by = forms[0].sort_by;
        let window_start = forms[0].timeframe.window_start(now);
        let keys = visible_keys(s, by, window_start);
        assert(pages[q].len() > 0 && follows(
            forms[q],
            s.tweets[pages[q].last() as int],
            forms[q + 1],
        ));
        assert(cursor_of(forms[q], now) is Some);
        let c = cursor_of(forms[q], now)->0;
        assert(is_page(s, by, window_start, c, pages[q]));
        let last = pages[q].last() as int;
        assert(below(keys, c)[pages[q][pages[q].len() - 1] as int] is Some);
        assert(row_shown(s, by, window_start, last));
        lemma_next_cursor(forms[q], s.tweets[last], forms[q + 1], now);
    }
}

/// A well-formed store answers every request that names a cursor, unless
/// a visible row has no key: the answer holds one object for each row of
/// the page, in the page's order, each with the users row of the tweet's
/// author and exactly the media rows of the tweet.
pub proof fn lemma_wf_store_serves(
    s: StoreView,
    form: TweetParams,
    now: i64,
    r: Result<Vec<FullTweet>, ApiError>,
)
    requires
        s.wf(),
        serves(s, form, now, r),
        cursor_of(form, now) is Some,
        !page_fails(s, form.sort_by, form.timeframe.window_start(now)),
    ensures
        r is Ok,
        exists|rows: Seq<usize>|
            {
                &&& #[trigger] is_page(
                    s,
                    form.sort_by,
                    form.timeframe.window_start(now),
                    cursor_of(form, now)->0,
                    rows,
                )
                &&& r->Ok_0@.len() == rows.len()
                &&& forall|k: int|
                    0 <= k < rows.len() ==> is_full(
                        r->Ok_0@[k],
                        s,
                        s.tweets[(#[trigger] rows[k]) as int],
                    )
            },
{
    let window_start = form.timeframe.window_start(now);
    let cursor = cursor_of(form, now)->0;
    let rows = choose|rows: Seq<usize>|
        page_answer(s, form.sort_by, window_start, cursor, rows, r);
    assert(is_page(s, form.sort_by, window_start, cursor, rows));
    assert forall|k: int| 0 <= k < rows.len() implies !compose_fails(
        s,
        s.tweets[(#[trigger] rows[k]) as int],
    ) by {
        assert(below(visible_keys(s, form.sort_by, window_start), cursor)[rows[k] as int] is Some);
        lemma_wf_composes(s, rows[k] as int);
    }
}

} // verus!
