use backend::twitter::model::payload::{
    Includes, MediaPayload, PublicMetrics, Reference, References, TweetPayload, UserPayload,
};
use backend::twitter::model::store::{Store, TweetClass};
use backend::twitter::model::tweet::store_tweet;
use backend::twitter::model::user::store_user;
use backend::twitter::routes::serve::{
    composite, cursor_at_time, fetch_next_page_of_tweets, key_of, next_page_at, next_request,
    page_rows, prep_full_tweet, serve_tweets, serve_tweets_at, SortBy, Timeframe, TweetParams,
    HOUR, PAGE_SIZE,
};
use backend::utils::errors::ApiError;

const NOON: i64 = 1_623_326_400_000_000;
const FIRST: &str = "9223372036854775807";

fn user(id: &str) -> UserPayload {
    UserPayload {
        id: Some(id.to_string()),
        name: Some(format!("name {}", id)),
        username: Some(format!("handle{}", id)),
        url: Some("https://example.org".to_string()),
        profile_image_url: None,
        followers_count: None,
        following_count: None,
        listed_count: None,
        tweet_count: None,
    }
}

fn tweet(id: &str, created_at: &str, like: i64, quote: i64, reply: i64, retweet: i64) -> TweetPayload {
    TweetPayload {
        id: Some(id.to_string()),
        author_id: Some("7".to_string()),
        created_at: Some(created_at.to_string()),
        text: Some(format!("tweet {}", id)),
        referenced_tweets: References::Absent,
        public_metrics: PublicMetrics {
            like_count: Some(like),
            quote_count: Some(quote),
            reply_count: Some(reply),
            retweet_count: Some(retweet),
        },
        media_keys: None,
    }
}

fn no_includes() -> Includes {
    Includes { users: None, tweets: None, media: None }
}

fn params(sort_by: SortBy, timeframe: Timeframe, id: &str, metric: &str) -> TweetParams {
    TweetParams {
        sort_by,
        timeframe,
        last_tweet_id: id.to_string(),
        last_metric: metric.to_string(),
    }
}

/// Forty-five tweets of the last day with distinct popularity, five older
/// ones and five helpers.
fn dataset() -> Store {
    let mut store = Store::new();
    assert_eq!(store_user(&mut store, &user("7")), Ok(()));
    for i in 0..45i64 {
        let id = format!("14019331{:02}012559361", i);
        let minute = format!("2021-06-10T11:{:02}:00Z", i);
        let likes = (i * 7) % 45;
        let t = tweet(&id, &minute, likes, 0, 0, 0);
        assert_eq!(store_tweet(&mut store, &t, &no_includes(), TweetClass::Normal), Ok(()));
    }
    for i in 0..5i64 {
        let id = format!("13{:02}", i);
        let t = tweet(&id, "2021-06-01T00:00:00Z", 1000 + i, 0, 0, 0);
        assert_eq!(store_tweet(&mut store, &t, &no_includes(), TweetClass::Normal), Ok(()));
    }
    for i in 0..5i64 {
        let id = format!("15{:02}", i);
        let t = tweet(&id, "2021-06-10T11:59:00Z", 2000 + i, 0, 0, 0);
        assert_eq!(store_tweet(&mut store, &t, &no_includes(), TweetClass::Helper), Ok(()));
    }
    store
}

#[test]
fn the_composite_key_joins_counter_and_id_digits() {
    assert_eq!(composite(19, "1401933150012559361"), Some(191_401_933_150));
    assert_eq!(composite(0, "1401933150012559361"), Some(1_401_933_150));
    assert_eq!(composite(5, "123"), Some(5_123));
    assert_eq!(composite(5, ""), Some(5));
    assert_eq!(composite(-5, "12"), Some(-512));
    assert_eq!(composite(922_337_203, "6854775807"), Some(i64::MAX));
    assert_eq!(composite(922_337_203, "6854775808"), None);
    assert_eq!(composite(i64::MIN, ""), Some(i64::MIN));
    assert_eq!(composite(i64::MAX, "0"), None);
    assert_eq!(composite(1, "12a4"), None);
    assert_eq!(composite(1, "123456789x1"), None);
    assert_eq!(composite(1, "1234567890x"), Some(11_234_567_890));
    assert_eq!(composite(1, "12345678901x"), Some(11_234_567_890));
}

#[test]
fn the_cursor_of_a_first_request_is_out_of_reach() {
    let form = params(SortBy::Popularity, Timeframe::Day, "0", FIRST);
    assert_eq!(cursor_at_time(&form, NOON), Some(i64::MAX));
    let form = params(SortBy::Time, Timeframe::Day, "0", FIRST);
    assert_eq!(cursor_at_time(&form, NOON), Some(NOON + HOUR));
    assert_eq!(cursor_at_time(&form, i64::MAX - 5), Some(i64::MAX));
}

#[test]
fn the_cursor_of_a_later_request_is_the_key_of_the_last_row() {
    let form = params(SortBy::Likes, Timeframe::Day, "1401933150012559361", "19");
    assert_eq!(cursor_at_time(&form, NOON), Some(191_401_933_150));
    let form = params(SortBy::Time, Timeframe::Day, "1", "2021-06-10T12:34:56+00:00");
    assert_eq!(cursor_at_time(&form, NOON), Some(1_623_328_496_000_000));
    let form = params(SortBy::Time, Timeframe::Day, "1", "19");
    assert_eq!(cursor_at_time(&form, NOON), None);
    let form = params(SortBy::Likes, Timeframe::Day, "1", "many");
    assert_eq!(cursor_at_time(&form, NOON), None);
    let form = params(SortBy::Likes, Timeframe::Day, "x", "1");
    assert_eq!(cursor_at_time(&form, NOON), None);
}

#[test]
fn windows_have_their_lengths() {
    assert_eq!(Timeframe::Hour.hours(), 1);
    assert_eq!(Timeframe::Four.hours(), 4);
    assert_eq!(Timeframe::Day.hours(), 24);
    assert_eq!(Timeframe::Twodays.hours(), 48);
    assert_eq!(Timeframe::Week.hours(), 168);
    assert_eq!(Timeframe::Month.hours(), 720);
    assert_eq!(Timeframe::Day.cutoff(NOON), NOON - 24 * HOUR);
    assert_eq!(Timeframe::Month.cutoff(i64::MIN + 5), i64::MIN);
}

#[test]
fn the_window_start_is_written_in_rfc_3339() {
    let text = Timeframe::Hour.to_string().unwrap();
    let form = params(SortBy::Time, Timeframe::Hour, "0", &text);
    let start = cursor_at_time(&form, 0).unwrap();
    let now = chrono::Utc::now().timestamp_micros();
    assert!(start <= now - HOUR);
    assert!(start >= now - HOUR - 60_000_000);
}

#[test]
fn sort_columns_have_their_names() {
    assert_eq!(SortBy::Popularity.to_string(), "popularity_count");
    assert_eq!(SortBy::Retweets.to_string(), "total_retweet_count");
    assert_eq!(SortBy::Likes.to_string(), "like_count");
    assert_eq!(SortBy::Replies.to_string(), "reply_count");
    assert_eq!(SortBy::Time.to_string(), "tweet_created_at");
}

#[test]
fn each_order_goes_by_its_counter() {
    let mut store = Store::new();
    assert_eq!(store_user(&mut store, &user("7")), Ok(()));
    let t = tweet("12", "2021-06-10T12:00:00Z", 1, 2, 3, 4);
    assert_eq!(store_tweet(&mut store, &t, &no_includes(), TweetClass::Normal), Ok(()));
    let row = &store.tweets[0];
    assert_eq!(key_of(row, SortBy::Likes), Some(112));
    assert_eq!(key_of(row, SortBy::Replies), Some(312));
    assert_eq!(key_of(row, SortBy::Retweets), Some(612));
    assert_eq!(key_of(row, SortBy::Popularity), Some(1012));
    assert_eq!(key_of(row, SortBy::Time), Some(NOON));
}

#[test]
fn the_first_page_holds_the_twenty_most_popular_of_the_day() {
    let store = dataset();
    let form = params(SortBy::Popularity, Timeframe::Day, "0", FIRST);
    let page = serve_tweets_at(&store, &form, NOON).unwrap();
    assert_eq!(page.len(), 20);
    for (k, full) in page.iter().enumerate() {
        assert_eq!(full.tweet.metrics.popularity_count, Some(44 - k as i64));
        assert!(full.tweet.tweet_class != TweetClass::Helper);
        assert!(full.tweet.tweet_created_at >= NOON - 24 * HOUR);
        assert_eq!(full.author.twitter_user_id, "7");
        assert_eq!(full.author.id, full.tweet.user_id);
        assert_eq!(full.media.as_ref().map(|m| m.len()), Some(0));
        assert!(full.reply_to.is_none() && full.quote_of.is_none());
    }
    let plain = next_page_at(&store, &form, NOON).unwrap();
    assert_eq!(plain.len(), 20);
    assert_eq!(plain[0].tweet_id, page[0].tweet.tweet_id);
    assert_eq!(plain[19].tweet_id, page[19].tweet.tweet_id);
}

fn walk(store: &Store, sort_by: SortBy) -> Vec<Vec<String>> {
    let mut pages = Vec::new();
    let mut form = params(sort_by, Timeframe::Day, "0", FIRST);
    loop {
        let page = next_page_at(store, &form, NOON).unwrap();
        assert!(page.len() <= PAGE_SIZE);
        let ids: Vec<String> = page.iter().map(|t| t.tweet_id.clone()).collect();
        let short = page.len() < PAGE_SIZE;
        if let Some(last) = page.last() {
            form = next_request(&form, last).unwrap();
            assert_eq!(cursor_at_time(&form, NOON), key_of(last, sort_by));
        }
        pages.push(ids);
        if short {
            return pages;
        }
    }
}

#[test]
fn paging_by_popularity_lists_every_visible_tweet_once() {
    let store = dataset();
    let pages = walk(&store, SortBy::Popularity);
    assert_eq!(pages.iter().map(|p| p.len()).collect::<Vec<_>>(), vec![20, 20, 5]);
    let all: Vec<String> = pages.into_iter().flatten().collect();
    let mut keys = Vec::new();
    for id in &all {
        let row = store.tweets.iter().find(|t| &t.tweet_id == id).unwrap();
        keys.push(key_of(row, SortBy::Popularity).unwrap());
    }
    for pair in keys.windows(2) {
        assert!(pair[0] > pair[1]);
    }
    let mut expected: Vec<String> = store
        .tweets
        .iter()
        .filter(|t| t.tweet_class != TweetClass::Helper && t.tweet_created_at >= NOON - 24 * HOUR)
        .map(|t| t.tweet_id.clone())
        .collect();
    let mut seen = all.clone();
    expected.sort();
    seen.sort();
    assert_eq!(seen, expected);
}

#[test]
fn paging_by_time_lists_every_visible_tweet_once() {
    let store = dataset();
    let pages = walk(&store, SortBy::Time);
    assert_eq!(pages.iter().map(|p| p.len()).collect::<Vec<_>>(), vec![20, 20, 5]);
    let all: Vec<String> = pages.into_iter().flatten().collect();
    for (k, id) in all.iter().enumerate() {
        assert_eq!(id, &format!("14019331{:02}012559361", 44 - k));
    }
}

#[test]
fn a_page_of_exactly_the_limit_is_followed_by_an_empty_one() {
    let mut store = Store::new();
    assert_eq!(store_user(&mut store, &user("7")), Ok(()));
    for i in 0..20i64 {
        let t = tweet(&format!("1{:02}", i), "2021-06-10T11:00:00Z", i, 0, 0, 0);
        assert_eq!(store_tweet(&mut store, &t, &no_includes(), TweetClass::Normal), Ok(()));
    }
    let pages = walk(&store, SortBy::Likes);
    assert_eq!(pages.iter().map(|p| p.len()).collect::<Vec<_>>(), vec![20, 0]);
}

#[test]
fn equal_keys_come_in_row_order() {
    let mut store = Store::new();
    assert_eq!(store_user(&mut store, &user("7")), Ok(()));
    for id in ["12345678901", "12345678902", "12345678903"] {
        let t = tweet(id, "2021-06-10T11:00:00Z", 3, 0, 0, 0);
        assert_eq!(store_tweet(&mut store, &t, &no_includes(), TweetClass::Normal), Ok(()));
    }
    let rows = page_rows(&store, SortBy::Likes, NOON - HOUR, i64::MAX).unwrap();
    assert_eq!(rows, vec![0, 1, 2]);
    let rows = page_rows(&store, SortBy::Likes, NOON - HOUR, 31_234_567_890).unwrap();
    assert_eq!(rows, Vec::<usize>::new());
}

#[test]
fn a_visible_row_without_a_key_fails_the_page() {
    let mut store = dataset();
    let t = tweet("abc", "2021-06-10T11:00:00Z", 3, 0, 0, 0);
    assert_eq!(store_tweet(&mut store, &t, &no_includes(), TweetClass::Normal), Ok(()));
    let form = params(SortBy::Popularity, Timeframe::Day, "0", FIRST);
    assert_eq!(next_page_at(&store, &form, NOON).err(), Some(ApiError::StorageFailure));
    assert_eq!(serve_tweets_at(&store, &form, NOON).err(), Some(ApiError::StorageFailure));
    let form = params(SortBy::Time, Timeframe::Day, "0", FIRST);
    assert_eq!(next_page_at(&store, &form, NOON).unwrap().len(), 20);
    let form = params(SortBy::Popularity, Timeframe::Hour, "0", FIRST);
    assert_eq!(next_page_at(&store, &form, NOON + 2 * HOUR).unwrap().len(), 0);
    let form = params(SortBy::Popularity, Timeframe::Day, "0", "x");
    assert_eq!(next_page_at(&store, &form, NOON).err(), Some(ApiError::StorageFailure));
}

#[test]
fn the_clock_version_serves_the_current_window() {
    let mut store = Store::new();
    assert_eq!(store_user(&mut store, &user("7")), Ok(()));
    let recent = (chrono::Utc::now() - chrono::Duration::minutes(30)).to_rfc3339();
    let old = (chrono::Utc::now() - chrono::Duration::hours(30)).to_rfc3339();
    assert_eq!(
        store_tweet(&mut store, &tweet("1", &recent, 1, 0, 0, 0), &no_includes(), TweetClass::Normal),
        Ok(())
    );
    assert_eq!(
        store_tweet(&mut store, &tweet("2", &old, 9, 0, 0, 0), &no_includes(), TweetClass::Normal),
        Ok(())
    );
    let form = params(SortBy::Popularity, Timeframe::Day, "0", FIRST);
    let page = fetch_next_page_of_tweets(&store, &form).unwrap();
    assert_eq!(page.len(), 1);
    assert_eq!(page[0].tweet_id, "1");
    let form = params(SortBy::Time, Timeframe::Twodays, "0", FIRST);
    let page = serve_tweets(&store, &form).unwrap();
    assert_eq!(page.len(), 2);
    assert_eq!(page[0].tweet.tweet_id, "1");
    assert_eq!(page[1].tweet.tweet_id, "2");
}

#[test]
fn targets_are_composed_one_level_deep() {
    let mut store = Store::new();
    assert_eq!(store_user(&mut store, &user("7")), Ok(()));
    let mut root = tweet("100", "2021-06-10T10:00:00Z", 0, 0, 0, 0);
    root.referenced_tweets = References::List(vec![Reference {
        kind: Some("quoted".to_string()),
        id: Some("50".to_string()),
    }]);
    root.media_keys = Some(vec![Some("m1".to_string())]);
    let mut middle = tweet("200", "2021-06-10T11:00:00Z", 0, 0, 0, 0);
    middle.referenced_tweets = References::List(vec![Reference {
        kind: Some("replied_to".to_string()),
        id: Some("100".to_string()),
    }]);
    let mut top = tweet("300", "2021-06-10T11:30:00Z", 5, 0, 0, 0);
    top.referenced_tweets = References::List(vec![
        Reference { kind: Some("replied_to".to_string()), id: Some("200".to_string()) },
        Reference { kind: Some("quoted".to_string()), id: Some("999".to_string()) },
    ]);
    let includes = Includes {
        users: None,
        tweets: None,
        media: Some(vec![MediaPayload {
            media_key: Some("m1".to_string()),
            kind: Some("photo".to_string()),
            url: Some("https://example.org/m1.jpg".to_string()),
            preview_image_url: None,
        }]),
    };
    assert_eq!(store_tweet(&mut store, &root, &includes, TweetClass::Helper), Ok(()));
    assert_eq!(store_tweet(&mut store, &middle, &includes, TweetClass::Helper), Ok(()));
    assert_eq!(store_tweet(&mut store, &top, &includes, TweetClass::Normal), Ok(()));
    let form = params(SortBy::Likes, Timeframe::Day, "0", FIRST);
    let page = serve_tweets_at(&store, &form, NOON).unwrap();
    assert_eq!(page.len(), 1);
    let full = &page[0];
    assert_eq!(full.tweet.tweet_id, "300");
    assert!(full.quote_of.is_none());
    let reply = (*full.reply_to).as_ref().unwrap();
    assert_eq!(reply.tweet.tweet_id, "200");
    assert_eq!(reply.author.twitter_user_id, "7");
    assert!(reply.reply_to.is_none() && reply.quote_of.is_none());
    let card = prep_full_tweet(&store, store.tweets[0].clone()).unwrap();
    assert_eq!(card.media.as_ref().unwrap().len(), 1);
    assert_eq!(card.media.as_ref().unwrap()[0].media_key, "m1");
    assert!(card.reply_to.is_none() && card.quote_of.is_none());
    let mut orphan = store.tweets[0].clone();
    orphan.user_id = orphan.user_id.wrapping_add(1);
    assert_eq!(prep_full_tweet(&store, orphan).err(), Some(ApiError::StorageFailure));
}

#[test]
fn the_next_request_names_the_last_row() {
    let mut store = Store::new();
    assert_eq!(store_user(&mut store, &user("7")), Ok(()));
    let t = tweet("1401933150012559361", "2021-06-10T12:34:56.250Z", 1, 2, 3, 4);
    assert_eq!(store_tweet(&mut store, &t, &no_includes(), TweetClass::Normal), Ok(()));
    let row = &store.tweets[0];
    let form = params(SortBy::Retweets, Timeframe::Week, "0", FIRST);
    let next = next_request(&form, row).unwrap();
    assert_eq!(next.sort_by, SortBy::Retweets);
    assert_eq!(next.timeframe, Timeframe::Week);
    assert_eq!(next.last_tweet_id, "1401933150012559361");
    assert_eq!(next.last_metric, "6");
    let form = params(SortBy::Time, Timeframe::Week, "0", FIRST);
    let next = next_request(&form, row).unwrap();
    assert_eq!(next.last_metric, "2021-06-10T12:34:56.250+00:00");
    assert_eq!(cursor_at_time(&next, NOON), Some(row.tweet_created_at));
    let mut bare = row.clone();
    bare.metrics.total_retweet_count = None;
    assert!(next_request(&params(SortBy::Retweets, Timeframe::Week, "0", FIRST), &bare).is_none());
    bare.metrics.like_count = Some(-3);
    let next = next_request(&params(SortBy::Likes, Timeframe::Week, "0", FIRST), &bare).unwrap();
    assert_eq!(next.last_metric, "-3");
}

#[test]
fn a_row_without_the_counter_is_passed_over() {
    let mut store = dataset();
    store.tweets[0].metrics.like_count = None;
    let first = store.tweets[0].tweet_id.clone();
    let form = params(SortBy::Likes, Timeframe::Day, "0", FIRST);
    let all: Vec<String> = walk(&store, SortBy::Likes).into_iter().flatten().collect();
    assert_eq!(all.len(), 44);
    assert!(!all.contains(&first));
    assert_eq!(next_page_at(&store, &form, NOON).unwrap().len(), 20);
    let all: Vec<String> = walk(&store, SortBy::Popularity).into_iter().flatten().collect();
    assert_eq!(all.len(), 45);
    let all: Vec<String> = walk(&store, SortBy::Time).into_iter().flatten().collect();
    assert!(all.contains(&first));
    assert_eq!(key_of(&store.tweets[0], SortBy::Likes), None);
}
