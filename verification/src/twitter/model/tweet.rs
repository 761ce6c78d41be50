use vstd::prelude::*;
use vstd::string::*;
use crate::twitter::model::media::{handle_media_spec, handle_media_traced};
use crate::twitter::model::payload::{
    Includes, PublicMetrics, Reference, References, TweetPayload,
};
use crate::twitter::model::store::{
    lemma_position, lemma_position_absent, lemma_position_found, first_at, position, Counters,
    Outcome, Stamp, Store, StoreView, Tweet, TweetClass, TweetMetrics, TweetView,
};
use crate::twitter::model::user::find_user;
use crate::utils::errors::{ApiError, Malformed};
use crate::utils::outside::{new_row_id, now_micros, parse_rfc3339, rfc3339_micros};
use crate::utils::text::{opt_text, same_text, unescape, unescaped};

verus! {

impl StoreView {
    /// Position of the tweet with the given external id.
    pub open spec fn tweet_at(self, key: Seq<char>) -> Option<int> {
        position(self.tweet_keys(), key)
    }

    /// Position of the tweet with the given surrogate id.
    pub open spec fn tweet_by_id(self, id: u128) -> Option<int> {
        position(self.tweet_ids(), id)
    }
}

/// Position of the tweet row with the given external id.
pub fn find_tweet(store: &Store, tweet_id: &str) -> (r: Option<usize>)
    ensures
        match r {
            Some(i) => store@.tweet_at(tweet_id@) == Some(i as int),
            None => store@.tweet_at(tweet_id@) is None,
        },
{
    let mut i: usize = 0;
    while i < store.tweets.len()
        invariant
            i <= store.tweets.len(),
            forall|j: int| 0 <= j < i ==> store@.tweet_keys()[j] != tweet_id@,
        decreases store.tweets.len() - i,
    {
        if same_text(store.tweets[i].tweet_id.as_str(), tweet_id) {
            proof {
                assert(first_at(store@.tweet_keys(), tweet_id@, i as int));
                lemma_position_found(store@.tweet_keys(), tweet_id@, i as int);
            }
            return Some(i);
        }
        i += 1;
    }
    proof {
        lemma_position_absent(store@.tweet_keys(), tweet_id@);
    }
    None
}

/// Position of the tweet row with the given surrogate id.
pub fn find_tweet_by_uuid(store: &Store, id: u128) -> (r: Option<usize>)
    ensures
        match r {
            Some(i) => store@.tweet_by_id(id) == Some(i as int),
            None => store@.tweet_by_id(id) is None,
        },
{
    let mut i: usize = 0;
    while i < store.tweets.len()
        invariant
            i <= store.tweets.len(),
            forall|j: int| 0 <= j < i ==> store@.tweet_ids()[j] != id,
        decreases store.tweets.len() - i,
    {
        if store.tweets[i].id == id {
            proof {
                assert(first_at(store@.tweet_ids(), id, i as int));
                lemma_position_found(store@.tweet_ids(), id, i as int);
            }
            return Some(i);
        }
        i += 1;
    }
    proof {
        lemma_position_absent(store@.tweet_ids(), id);
    }
    None
}

/// The tweet with the given external id; `StorageFailure` where no row has it.
pub fn fetch_tweet(store: &Store, tweet_id: &str) -> (r: Result<Tweet, ApiError>)
    ensures
        match store@.tweet_at(tweet_id@) {
            Some(i) => r is Ok && r->Ok_0@ == store@.tweets[i],
            None => r == Err::<Tweet, ApiError>(ApiError::StorageFailure),
        },
{
    match find_tweet(store, tweet_id) {
        Some(i) => Ok(store.tweets[i].clone()),
        None => Err(ApiError::StorageFailure),
    }
}

/// The counters of a tweet with the two sums derived from them:
/// retweets and quotes together, and that sum with likes and replies.
pub open spec fn metrics_of(p: PublicMetrics) -> Result<TweetMetrics, ApiError> {
    if p.like_count is None {
        Err(ApiError::PermanentUpstream(Malformed::NoLikeCount))
    } else if p.quote_count is None {
        Err(ApiError::PermanentUpstream(Malformed::NoQuoteCount))
    } else if p.reply_count is None {
        Err(ApiError::PermanentUpstream(Malformed::NoReplyCount))
    } else if p.retweet_count is None {
        Err(ApiError::PermanentUpstream(Malformed::NoRetweetCount))
    } else {
        let total = p.quote_count->0 + p.retweet_count->0;
        let popularity = total + p.like_count->0 + p.reply_count->0;
        if i64::MIN <= total <= i64::MAX && i64::MIN <= popularity <= i64::MAX {
            Ok(
                TweetMetrics {
                    like_count: p.like_count->0,
                    quote_count: p.quote_count->0,
                    reply_count: p.reply_count->0,
                    retweet_count: p.retweet_count->0,
                    total_retweet_count: total as i64,
                    popularity_count: popularity as i64,
                },
            )
        } else {
            Err(ApiError::PermanentUpstream(Malformed::MetricOverflow))
        }
    }
}

/// Reads the counters of a tweet and derives the two sums. A missing
/// counter, or a sum beyond 64 bits, makes the payload malformed.
pub fn extract_tweet_metrics(tweet: &TweetPayload) -> (r: Result<TweetMetrics, ApiError>)
    ensures
        r == metrics_of(tweet.public_metrics),
{
    let like_count = match tweet.public_metrics.like_count {
        Some(v) => v,
        None => { return Err(ApiError::PermanentUpstream(Malformed::NoLikeCount)); },
    };
    let quote_count = match tweet.public_metrics.quote_count {
        Some(v) => v,
        None => { return Err(ApiError::PermanentUpstream(Malformed::NoQuoteCount)); },
    };
    let reply_count = match tweet.public_metrics.reply_count {
        Some(v) => v,
        None => { return Err(ApiError::PermanentUpstream(Malformed::NoReplyCount)); },
    };
    let retweet_count = match tweet.public_metrics.retweet_count {
        Some(v) => v,
        None => { return Err(ApiError::PermanentUpstream(Malformed::NoRetweetCount)); },
    };
    let total: i128 = quote_count as i128 + retweet_count as i128;
    let popularity: i128 = total + like_count as i128 + reply_count as i128;
    if total < i64::MIN as i128 || total > i64::MAX as i128 || popularity < i64::MIN as i128
        || popularity > i64::MAX as i128 {
        return Err(ApiError::PermanentUpstream(Malformed::MetricOverflow));
    }
    Ok(
        TweetMetrics {
            like_count,
            quote_count,
            reply_count,
            retweet_count,
            total_retweet_count: total as i64,
            popularity_count: popularity as i64,
        },
    )
}

/// What a tweet's reference list says of it.
pub struct RefScan {
    /// The tweet is a retweet of this one.
    pub retweet_of: Option<String>,
    pub replied_to: Option<String>,
    pub quoted: Option<String>,
}

impl RefScan {
    pub open spec fn nothing() -> RefScan {
        RefScan { retweet_of: None, replied_to: None, quoted: None }
    }
}

/// Reads references in order. The first `retweeted` entry ends the scan;
/// of several `replied_to` or `quoted` entries the last one counts;
/// entries of another type are passed over.
pub open spec fn scan_from(refs: Seq<Reference>, acc: RefScan) -> Result<RefScan, ApiError>
    decreases refs.len(),
{
    if refs.len() == 0 {
        Ok(acc)
    } else {
        let first = refs[0];
        let rest = refs.subrange(1, refs.len() as int);
        if first.kind is None {
            Err(ApiError::PermanentUpstream(Malformed::NoType))
        } else if first.kind->0@ == "retweeted"@ {
            if first.id is None {
                Err(ApiError::PermanentUpstream(Malformed::NoId))
            } else {
                Ok(RefScan { retweet_of: first.id, ..acc })
            }
        } else if first.kind->0@ == "replied_to"@ {
            if first.id is None {
                Err(ApiError::PermanentUpstream(Malformed::NoId))
            } else {
                scan_from(rest, RefScan { replied_to: first.id, ..acc })
            }
        } else if first.kind->0@ == "quoted"@ {
            if first.id is None {
                Err(ApiError::PermanentUpstream(Malformed::NoId))
            } else {
                scan_from(rest, RefScan { quoted: first.id, ..acc })
            }
        } else {
            scan_from(rest, acc)
        }
    }
}

pub open spec fn scan_refs(refs: References) -> Result<RefScan, ApiError> {
    match refs {
        References::Absent => Ok(RefScan::nothing()),
        References::NotAList => Err(ApiError::PermanentUpstream(Malformed::NoRefTweets)),
        References::List(v) => scan_from(v@, RefScan::nothing()),
    }
}

/// Reads the reference list of a tweet.
pub fn scan_references(refs: &References) -> (r: Result<RefScan, ApiError>)
    ensures
        r == scan_refs(*refs),
{
    let list = match refs {
        References::Absent => {
            return Ok(RefScan { retweet_of: None, replied_to: None, quoted: None });
        },
        References::NotAList => {
            return Err(ApiError::PermanentUpstream(Malformed::NoRefTweets));
        },
        References::List(v) => v,
    };
    let mut acc = RefScan { retweet_of: None, replied_to: None, quoted: None };
    let mut i: usize = 0;
    proof {
        assert(list@.skip(0) =~= list@);
    }
    while i < list.len()
        invariant
            i <= list.len(),
            scan_refs(*refs) == scan_from(list@, RefScan::nothing()),
            scan_from(list@.skip(i as int), acc) == scan_from(list@, RefScan::nothing()),
        decreases list.len() - i,
    {
        let entry = &list[i];
        proof {
            let here = list@.skip(i as int);
            assert(here[0] == *entry);
            assert(here.subrange(1, here.len() as int) =~= list@.skip(i + 1));
        }
        let kind = match &entry.kind {
            Some(k) => k,
            None => { return Err(ApiError::PermanentUpstream(Malformed::NoType)); },
        };
        if same_text(kind.as_str(), "retweeted") {
            match &entry.id {
                Some(id) => {
                    acc.retweet_of = Some(id.clone());
                    return Ok(acc);
                },
                None => { return Err(ApiError::PermanentUpstream(Malformed::NoId)); },
            }
        } else if same_text(kind.as_str(), "replied_to") {
            match &entry.id {
                Some(id) => { acc.replied_to = Some(id.clone()); },
                None => { return Err(ApiError::PermanentUpstream(Malformed::NoId)); },
            }
        } else if same_text(kind.as_str(), "quoted") {
            match &entry.id {
                Some(id) => { acc.quoted = Some(id.clone()); },
                None => { return Err(ApiError::PermanentUpstream(Malformed::NoId)); },
            }
        }
        i += 1;
    }
    Ok(acc)
}

/// Address of a tweet on the upstream site.
pub open spec fn tweet_url_of(author_id: Seq<char>, tweet_id: Seq<char>) -> Seq<char> {
    "https://twitter.com/"@ + author_id + "/status/"@ + tweet_id
}

/// Address of a tweet on the upstream site.
pub fn tweet_url(author_id: &str, tweet_id: &str) -> (r: String)
    ensures
        r@ == tweet_url_of(author_id@, tweet_id@),
{
    let mut url = "https://twitter.com/".to_owned();
    url.append(author_id);
    url.append("/status/");
    url.append(tweet_id);
    url
}

/// What storing a tweet comes to, decided without touching the store.
pub enum Plan {
    /// The tweet has a row: only its counters change.
    Refresh { row: int, metrics: TweetMetrics },
    /// The tweet is a retweet: the tweet with this external id is stored
    /// in its place.
    Redirect { target: Seq<char> },
    /// The tweet is new: this row is appended.
    Insert { row: TweetView },
}

/// Decides what storing `t` comes to. A known external id short-circuits:
/// nothing but the counters is read. Otherwise the author must have a row,
/// and the references are read before counters and text.
pub open spec fn plan_spec(s: StoreView, t: TweetPayload, class: TweetClass, stamp: Stamp) -> Result<
    Plan,
    ApiError,
> {
    plan_given(
        s,
        t,
        class,
        stamp,
        match t.created_at {
            Some(text) => rfc3339_micros(text@),
            None => None,
        },
    )
}

/// `plan_spec`, with the instant that the tweet's creation time reads as
/// given: `None` where the time is missing or does not read.
pub open spec fn plan_given(
    s: StoreView,
    t: TweetPayload,
    class: TweetClass,
    stamp: Stamp,
    created: Option<i64>,
) -> Result<Plan, ApiError> {
    if t.id is None {
        Err(ApiError::PermanentUpstream(Malformed::NoTweetId))
    } else if s.tweet_at(t.id->0@) is Some {
        match metrics_of(t.public_metrics) {
            Err(e) => Err(e),
            Ok(m) => Ok(Plan::Refresh { row: s.tweet_at(t.id->0@)->0, metrics: m }),
        }
    } else if t.author_id is None {
        Err(ApiError::PermanentUpstream(Malformed::NoAuthorId))
    } else if s.user_at(t.author_id->0@) is None {
        Err(ApiError::OrderingViolation)
    } else if t.created_at is None {
        Err(ApiError::PermanentUpstream(Malformed::NoCreatedAt))
    } else if created is None {
        Err(ApiError::PermanentUpstream(Malformed::BadCreatedAt))
    } else {
        match scan_refs(t.referenced_tweets) {
            Err(e) => Err(e),
            Ok(scan) => if scan.retweet_of is Some {
                Ok(Plan::Redirect { target: scan.retweet_of->0@ })
            } else {
                match metrics_of(t.public_metrics) {
                    Err(e) => Err(e),
                    Ok(m) => if t.text is None {
                        Err(ApiError::PermanentUpstream(Malformed::NoText))
                    } else {
                        Ok(
                            Plan::Insert {
                                row: TweetView {
                                    id: stamp.id,
                                    created_at: stamp.at,
                                    tweet_id: t.id->0@,
                                    tweet_created_at: created->0,
                                    tweet_text: unescaped(t.text->0@),
                                    tweet_url: tweet_url_of(t.author_id->0@, t.id->0@),
                                    replied_to_tweet_id: opt_text(scan.replied_to),
                                    quoted_tweet_id: opt_text(scan.quoted),
                                    tweet_class: class,
                                    metrics: Counters::all(m),
                                    user_id: s.users[s.user_at(t.author_id->0@)->0].id,
                                },
                            },
                        )
                    },
                }
            },
        }
    }
}

/// A plan as the executable code holds it.
pub enum Prepared {
    Refresh { row: usize, metrics: TweetMetrics },
    Redirect { target: String },
    Insert { row: Tweet },
}

impl Prepared {
    pub open spec fn plan(self) -> Plan {
        match self {
            Prepared::Refresh { row, metrics } => Plan::Refresh { row: row as int, metrics },
            Prepared::Redirect { target } => Plan::Redirect { target: target@ },
            Prepared::Insert { row } => Plan::Insert { row: row@ },
        }
    }
}

/// Decides what storing a tweet comes to.
pub fn prepare_tweet(store: &Store, tweet: &TweetPayload, class: TweetClass, stamp: Stamp) -> (r:
    Result<Prepared, ApiError>)
    ensures
        match plan_spec(store@, *tweet, class, stamp) {
            Ok(p) => r is Ok && r->Ok_0.plan() == p,
            Err(e) => r == Err::<Prepared, ApiError>(e),
        },
{
    let created = match &tweet.created_at {
        Some(text) => parse_rfc3339(text.as_str()),
        None => None,
    };
    prepare_parsed(store, tweet, class, stamp, created)
}

/// Decides what storing a tweet comes to, given the instant that its
/// creation time reads as.
pub fn prepare_parsed(
    store: &Store,
    tweet: &TweetPayload,
    class: TweetClass,
    stamp: Stamp,
    created: Option<i64>,
) -> (r: Result<Prepared, ApiError>)
    ensures
        match plan_given(store@, *tweet, class, stamp, created) {
            Ok(p) => r is Ok && r->Ok_0.plan() == p,
            Err(e) => r == Err::<Prepared, ApiError>(e),
        },
{
    let tweet_id = match &tweet.id {
        Some(id) => id,
        None => { return Err(ApiError::PermanentUpstream(Malformed::NoTweetId)); },
    };
    match find_tweet(store, tweet_id.as_str()) {
        Some(row) => {
            let metrics = extract_tweet_metrics(tweet)?;
            return Ok(Prepared::Refresh { row, metrics });
        },
        None => {},
    }
    let author_id = match &tweet.author_id {
        Some(id) => id,
        None => { return Err(ApiError::PermanentUpstream(Malformed::NoAuthorId)); },
    };
    let author = match find_user(store, author_id.as_str()) {
        Some(u) => u,
        None => { return Err(ApiError::OrderingViolation); },
    };
    if tweet.created_at.is_none() {
        return Err(ApiError::PermanentUpstream(Malformed::NoCreatedAt));
    }
    let tweet_created_at = match created {
        Some(c) => c,
        None => { return Err(ApiError::PermanentUpstream(Malformed::BadCreatedAt)); },
    };
    let scan = scan_references(&tweet.referenced_tweets)?;
    match scan.retweet_of {
        Some(target) => { return Ok(Prepared::Redirect { target }); },
        None => {},
    }
    let metrics = extract_tweet_metrics(tweet)?;
    let text = match &tweet.text {
        Some(t) => t,
        None => { return Err(ApiError::PermanentUpstream(Malformed::NoText)); },
    };
    Ok(
        Prepared::Insert {
            row: Tweet {
                id: stamp.id,
                created_at: stamp.at,
                tweet_id: tweet_id.clone(),
                tweet_created_at,
                tweet_text: unescape(text.as_str()),
                tweet_url: tweet_url(author_id.as_str(), tweet_id.as_str()),
                replied_to_tweet_id: scan.replied_to,
                quoted_tweet_id: scan.quoted,
                tweet_class: class,
                metrics: Counters::of(metrics),
                user_id: store.users[author].id,
            },
        },
    )
}

/// Appends a tweet row. Its external id and its surrogate id must be new
/// (`StorageFailure`) and its author must have a row (`OrderingViolation`).
pub open spec fn insert_tweet_spec(s: StoreView, row: TweetView) -> Outcome {
    if s.tweet_at(row.tweet_id) is Some {
        Outcome { state: s, result: Err(ApiError::StorageFailure) }
    } else if s.user_by_id(row.user_id) is None {
        Outcome { state: s, result: Err(ApiError::OrderingViolation) }
    } else if s.tweet_by_id(row.id) is Some {
        Outcome { state: s, result: Err(ApiError::StorageFailure) }
    } else {
        Outcome { state: StoreView { tweets: s.tweets.push(row), ..s }, result: Ok(()) }
    }
}

/// Replaces the counters of the tweet at position `row`.
pub open spec fn refresh_spec(s: StoreView, row: int, metrics: TweetMetrics) -> StoreView {
    StoreView {
        tweets: s.tweets.update(
            row,
            TweetView { metrics: Counters::all(metrics), ..s.tweets[row] },
        ),
        ..s
    }
}

/// Carries out a plan for the payload `t`: a refresh changes the counters,
/// an insertion appends the row and then stores the tweet's media with the
/// stamps after the first. A media failure leaves the tweet row in place.
pub open spec fn commit_spec(
    s: StoreView,
    plan: Plan,
    t: TweetPayload,
    includes: Includes,
    stamps: Seq<Stamp>,
) -> Outcome {
    match plan {
        Plan::Refresh { row, metrics } => Outcome {
            state: refresh_spec(s, row, metrics),
            result: Ok(()),
        },
        Plan::Redirect { target } => Outcome {
            state: s,
            result: Err(ApiError::PermanentUpstream(Malformed::NestedRetweet)),
        },
        Plan::Insert { row } => {
            let inserted = insert_tweet_spec(s, row);
            if inserted.result is Err {
                inserted
            } else {
                handle_media_spec(inserted.state, t, includes, stamps.skip(1))
            }
        },
    }
}

/// Stores `t` itself: a retweet is refused here, since a retweet of a
/// retweet does not occur upstream.
pub open spec fn store_resolved_spec(
    s: StoreView,
    t: TweetPayload,
    includes: Includes,
    class: TweetClass,
    stamps: Seq<Stamp>,
) -> Outcome {
    match plan_spec(s, t, class, stamps[0]) {
        Err(e) => Outcome { state: s, result: Err(e) },
        Ok(plan) => commit_spec(s, plan, t, includes, stamps),
    }
}

/// Position of the retweeted tweet in the side-car: the first entry with
/// the id looked for. An entry without an id before it is malformed.
pub open spec fn find_target(list: Seq<TweetPayload>, target: Seq<char>) -> Result<int, ApiError> {
    let hits = Seq::new(list.len(), |k: int| list[k].id is None || list[k].id->0@ == target);
    match position(hits, true) {
        None => Err(ApiError::PermanentUpstream(Malformed::MissingTarget)),
        Some(k) => if list[k].id is None {
            Err(ApiError::PermanentUpstream(Malformed::NoId))
        } else {
            Ok(k)
        },
    }
}

/// Stores a tweet. Where its references name it a retweet, the original
/// is taken from the side-car and stored in its place, tagged
/// `RtOriginal`; the retweet itself gets no row.
pub open spec fn store_tweet_spec(
    s: StoreView,
    t: TweetPayload,
    includes: Includes,
    class: TweetClass,
    stamps: Seq<Stamp>,
) -> Outcome {
    match plan_spec(s, t, class, stamps[0]) {
        Err(e) => Outcome { state: s, result: Err(e) },
        Ok(Plan::Redirect { target }) => if includes.tweets is None {
            Outcome {
                state: s,
                result: Err(ApiError::PermanentUpstream(Malformed::NoIncludedTweets)),
            }
        } else {
            match find_target(includes.tweets->0@, target) {
                Err(e) => Outcome { state: s, result: Err(e) },
                Ok(k) => store_resolved_spec(
                    s,
                    includes.tweets->0@[k],
                    includes,
                    TweetClass::RtOriginal,
                    stamps,
                ),
            }
        },
        Ok(plan) => commit_spec(s, plan, t, includes, stamps),
    }
}

/// Appending a tweet whose two keys are new and whose author has a row
/// keeps the store well formed.
pub proof fn lemma_push_tweet_wf(s: StoreView, row: TweetView)
    requires
        s.tweet_at(row.tweet_id) is None,
        s.tweet_by_id(row.id) is None,
        s.user_by_id(row.user_id) is Some,
    ensures
        s.wf() ==> (StoreView { tweets: s.tweets.push(row), ..s }).wf(),
{
    let t = StoreView { tweets: s.tweets.push(row), ..s };
    lemma_position(s.tweet_keys(), row.tweet_id);
    lemma_position(s.tweet_ids(), row.id);
    lemma_position(s.user_ids(), row.user_id);
    if s.wf() {
        assert(t.tweet_keys() =~= s.tweet_keys().push(row.tweet_id));
        assert(t.tweet_ids() =~= s.tweet_ids().push(row.id));
        assert(t.user_keys() =~= s.user_keys());
        assert(t.user_ids() =~= s.user_ids());
        assert(t.media_keys() =~= s.media_keys());
        assert(t.media_ids() =~= s.media_ids());
        assert forall|i: int| 0 <= i < t.tweets.len() implies t.user_ids().contains(
            #[trigger] t.tweets[i].user_id,
        ) by {
            if i < s.tweets.len() {
                assert(s.user_ids().contains(s.tweets[i].user_id));
            } else {
                let j = s.user_by_id(row.user_id)->0;
                assert(s.user_ids()[j] == row.user_id);
            }
        }
        assert forall|i: int| 0 <= i < t.media.len() implies t.tweet_ids().contains(
            #[trigger] t.media[i].tweet_id,
        ) by {
            assert(s.tweet_ids().contains(s.media[i].tweet_id));
            let j = choose|j: int|
                0 <= j < s.tweet_ids().len() && s.tweet_ids()[j] == s.media[i].tweet_id;
            assert(t.tweet_ids()[j] == s.media[i].tweet_id);
        }
    }
}

/// Replacing the counters of a row keeps the store well formed.
pub proof fn lemma_refresh_wf(s: StoreView, row: int, metrics: TweetMetrics)
    requires
        0 <= row < s.tweets.len(),
    ensures
        s.wf() ==> refresh_spec(s, row, metrics).wf(),
{
    let t = refresh_spec(s, row, metrics);
    if s.wf() {
        assert(t.tweet_keys() =~= s.tweet_keys());
        assert(t.tweet_ids() =~= s.tweet_ids());
        assert(t.user_keys() =~= s.user_keys());
        assert(t.user_ids() =~= s.user_ids());
        assert(t.media_keys() =~= s.media_keys());
        assert(t.media_ids() =~= s.media_ids());
        assert forall|i: int| 0 <= i < t.tweets.len() implies t.user_ids().contains(
            #[trigger] t.tweets[i].user_id,
        ) by {
            assert(s.user_ids().contains(s.tweets[i].user_id));
        }
        assert forall|i: int| 0 <= i < t.media.len() implies t.tweet_ids().contains(
            #[trigger] t.media[i].tweet_id,
        ) by {
            assert(s.tweet_ids().contains(s.media[i].tweet_id));
        }
    }
}

/// Appends a tweet row that was built beforehand.
pub fn insert_tweet(store: &mut Store, row: Tweet) -> (r: Result<(), ApiError>)
    ensures
        (Outcome { state: final(store)@, result: r }) == insert_tweet_spec(old(store)@, row@),
        old(store).wf() ==> final(store).wf(),
{
    if find_tweet(store, row.tweet_id.as_str()).is_some() {
        return Err(ApiError::StorageFailure);
    }
    if crate::twitter::model::user::find_user_by_uuid(store, row.user_id).is_none() {
        return Err(ApiError::OrderingViolation);
    }
    if find_tweet_by_uuid(store, row.id).is_some() {
        return Err(ApiError::StorageFailure);
    }
    let ghost view = row@;
    store.tweets.push(row);
    proof {
        let s = old(store)@;
        assert(final(store)@.tweets =~= s.tweets.push(view));
        assert(final(store)@.users =~= s.users);
        assert(final(store)@.media =~= s.media);
        lemma_push_tweet_wf(s, view);
    }
    Ok(())
}

/// Replaces the counters of the tweet row at position `row`.
pub fn refresh_metrics(store: &mut Store, row: usize, metrics: TweetMetrics)
    requires
        row < old(store).tweets.len(),
    ensures
        final(store)@ == refresh_spec(old(store)@, row as int, metrics),
        old(store).wf() ==> final(store).wf(),
{
    let mut updated = store.tweets[row].clone();
    updated.metrics = Counters::of(metrics);
    store.tweets.set(row, updated);
    proof {
        let s = old(store)@;
        assert(final(store)@.tweets =~= refresh_spec(s, row as int, metrics).tweets);
        assert(final(store)@.users =~= s.users);
        assert(final(store)@.media =~= s.media);
        lemma_refresh_wf(s, row as int, metrics);
    }
}

/// Carries out a plan; returns the stamps that the media drew.
pub(crate) fn commit_traced(
    store: &mut Store,
    prepared: Prepared,
    tweet: &TweetPayload,
    includes: &Includes,
    Ghost(first): Ghost<Stamp>,
) -> (r: (Result<(), ApiError>, Ghost<Seq<Stamp>>))
    requires
        prepared matches Prepared::Refresh { row, .. } ==> row < old(store).tweets.len(),
    ensures
        r.1@.len() > 0,
        r.1@[0] == first,
        (Outcome { state: final(store)@, result: r.0 }) == commit_spec(
            old(store)@,
            prepared.plan(),
            *tweet,
            *includes,
            r.1@,
        ),
        old(store).wf() ==> final(store).wf(),
{
    match prepared {
        Prepared::Refresh { row, metrics } => {
            refresh_metrics(store, row, metrics);
            (Ok(()), Ghost(Seq::<Stamp>::empty().push(first)))
        },
        Prepared::Redirect { target } => (
            Err(ApiError::PermanentUpstream(Malformed::NestedRetweet)),
            Ghost(Seq::<Stamp>::empty().push(first)),
        ),
        Prepared::Insert { row } => {
            let inserted = insert_tweet(store, row);
            if inserted.is_err() {
                return (inserted, Ghost(Seq::<Stamp>::empty().push(first)));
            }
            let (r, Ghost(drawn)) = handle_media_traced(store, tweet, includes);
            proof {
                assert((Seq::<Stamp>::empty().push(first) + drawn).skip(1) =~= drawn);
            }
            (r, Ghost(Seq::<Stamp>::empty().push(first) + drawn))
        },
    }
}

/// Position of the retweeted tweet in the side-car.
pub fn locate_target(list: &Vec<TweetPayload>, target: &str) -> (r: Result<usize, ApiError>)
    ensures
        match find_target(list@, target@) {
            Ok(k) => r == Ok::<usize, ApiError>(k as usize) && 0 <= k < list.len(),
            Err(e) => r == Err::<usize, ApiError>(e),
        },
{
    let ghost hits = Seq::new(
        list@.len(),
        |k: int| list@[k].id is None || list@[k].id->0@ == target@,
    );
    let mut k: usize = 0;
    while k < list.len()
        invariant
            k <= list.len(),
            hits == Seq::new(
                list@.len(),
                |k: int| list@[k].id is None || list@[k].id->0@ == target@,
            ),
            forall|j: int| 0 <= j < k ==> hits[j] != true,
        decreases list.len() - k,
    {
        match &list[k].id {
            None => {
                proof {
                    assert(first_at(hits, true, k as int));
                    lemma_position_found(hits, true, k as int);
                }
                return Err(ApiError::PermanentUpstream(Malformed::NoId));
            },
            Some(id) => {
                if same_text(id.as_str(), target) {
                    proof {
                        assert(first_at(hits, true, k as int));
                        lemma_position_found(hits, true, k as int);
                    }
                    return Ok(k);
                }
            },
        }
        k += 1;
    }
    proof {
        lemma_position_absent(hits, true);
    }
    Err(ApiError::PermanentUpstream(Malformed::MissingTarget))
}

/// `store_tweet`, with the stamps it drew.
pub(crate) fn store_tweet_traced(
    store: &mut Store,
    tweet: &TweetPayload,
    includes: &Includes,
    class: TweetClass,
) -> (r: (Result<(), ApiError>, Ghost<Seq<Stamp>>))
    ensures
        (Outcome { state: final(store)@, result: r.0 }) == store_tweet_spec(
            old(store)@,
            *tweet,
            *includes,
            class,
            r.1@,
        ),
        old(store).wf() ==> final(store).wf(),
{
    let stamp = Stamp { id: new_row_id(), at: now_micros() };
    let prepared = match prepare_tweet(store, tweet, class, stamp) {
        Ok(p) => p,
        Err(e) => { return (Err(e), Ghost(Seq::<Stamp>::empty().push(stamp))); },
    };
    proof {
        lemma_position(store@.tweet_keys(), tweet.id->0@);
    }
    match prepared {
        Prepared::Redirect { target } => {
            let list = match &includes.tweets {
                Some(l) => l,
                None => {
                    return (
                        Err(ApiError::PermanentUpstream(Malformed::NoIncludedTweets)),
                        Ghost(Seq::<Stamp>::empty().push(stamp)),
                    );
                },
            };
            let k = match locate_target(list, target.as_str()) {
                Ok(k) => k,
                Err(e) => { return (Err(e), Ghost(Seq::<Stamp>::empty().push(stamp))); },
            };
            let original = &list[k];
            let resolved = match prepare_tweet(store, original, TweetClass::RtOriginal, stamp) {
                Ok(p) => p,
                Err(e) => { return (Err(e), Ghost(Seq::<Stamp>::empty().push(stamp))); },
            };
            proof {
                lemma_position(store@.tweet_keys(), original.id->0@);
            }
            commit_traced(store, resolved, original, includes, Ghost(stamp))
        },
        other => commit_traced(store, other, tweet, includes, Ghost(stamp)),
    }
}

/// Stores a tweet of a batch. A known external id only has its counters
/// refreshed. An unknown one needs its author's row; a retweet is replaced
/// by the original from the side-car, tagged `RtOriginal`; reply and quote
/// targets are recorded without a check; the media come last.
pub fn store_tweet(
    store: &mut Store,
    tweet: &TweetPayload,
    includes: &Includes,
    class: TweetClass,
) -> (r: Result<(), ApiError>)
    ensures
        exists|stamps: Seq<Stamp>|
            (Outcome { state: final(store)@, result: r }) == #[trigger] store_tweet_spec(
                old(store)@,
                *tweet,
                *includes,
                class,
                stamps,
            ),
        old(store).wf() ==> final(store).wf(),
{
    let (r, Ghost(stamps)) = store_tweet_traced(store, tweet, includes, class);
    r
}

} // verus!
