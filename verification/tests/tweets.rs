use backend::twitter::model::media::{fetch_all_media_for_tweet, fetch_media};
use backend::twitter::model::payload::{
    Includes, MediaPayload, PublicMetrics, Reference, References, TweetPayload, UserPayload,
};
use backend::twitter::model::store::{Stamp, Store, TweetClass, TweetMetrics};
use backend::twitter::model::tweet::{
    extract_tweet_metrics, fetch_tweet, insert_tweet, locate_target, prepare_parsed,
    prepare_tweet, scan_references, store_tweet, tweet_url, Prepared,
};
use backend::twitter::model::user::{fetch_user, store_user, store_user_with};
use backend::utils::errors::{ApiError, Malformed};

fn user(id: &str) -> UserPayload {
    UserPayload {
        id: Some(id.to_string()),
        name: Some(format!("name of {}", id)),
        username: Some(format!("handle_{}", id)),
        url: Some(format!("https://example.org/{}", id)),
        profile_image_url: Some("https://example.org/p.png".to_string()),
        followers_count: Some(1),
        following_count: Some(2),
        listed_count: Some(3),
        tweet_count: Some(4),
    }
}

fn metrics(like: i64, quote: i64, reply: i64, retweet: i64) -> PublicMetrics {
    PublicMetrics {
        like_count: Some(like),
        quote_count: Some(quote),
        reply_count: Some(reply),
        retweet_count: Some(retweet),
    }
}

fn tweet(id: &str, author: &str) -> TweetPayload {
    TweetPayload {
        id: Some(id.to_string()),
        author_id: Some(author.to_string()),
        created_at: Some("2021-06-10T12:34:56.000Z".to_string()),
        text: Some("hello".to_string()),
        referenced_tweets: References::Absent,
        public_metrics: metrics(10, 2, 3, 4),
        media_keys: None,
    }
}

fn reference(kind: &str, id: &str) -> Reference {
    Reference { kind: Some(kind.to_string()), id: Some(id.to_string()) }
}

fn no_includes() -> Includes {
    Includes { users: None, tweets: None, media: None }
}

fn store_with_user(id: &str) -> Store {
    let mut store = Store::new();
    assert_eq!(store_user(&mut store, &user(id)), Ok(()));
    store
}

#[test]
fn derived_metrics_follow_the_two_sums() {
    let m = extract_tweet_metrics(&tweet("1", "7")).unwrap();
    assert_eq!(
        m,
        TweetMetrics {
            like_count: 10,
            quote_count: 2,
            reply_count: 3,
            retweet_count: 4,
            total_retweet_count: 6,
            popularity_count: 19,
        }
    );
}

#[test]
fn each_missing_counter_is_named() {
    let mut t = tweet("1", "7");
    t.public_metrics.like_count = None;
    assert_eq!(
        extract_tweet_metrics(&t),
        Err(ApiError::PermanentUpstream(Malformed::NoLikeCount))
    );
    let mut t = tweet("1", "7");
    t.public_metrics.quote_count = None;
    assert_eq!(
        extract_tweet_metrics(&t),
        Err(ApiError::PermanentUpstream(Malformed::NoQuoteCount))
    );
    let mut t = tweet("1", "7");
    t.public_metrics.reply_count = None;
    assert_eq!(
        extract_tweet_metrics(&t),
        Err(ApiError::PermanentUpstream(Malformed::NoReplyCount))
    );
    let mut t = tweet("1", "7");
    t.public_metrics.retweet_count = None;
    assert_eq!(
        extract_tweet_metrics(&t),
        Err(ApiError::PermanentUpstream(Malformed::NoRetweetCount))
    );
}

#[test]
fn a_sum_beyond_64_bits_is_malformed() {
    let mut t = tweet("1", "7");
    t.public_metrics = metrics(0, i64::MAX, 0, 1);
    assert_eq!(
        extract_tweet_metrics(&t),
        Err(ApiError::PermanentUpstream(Malformed::MetricOverflow))
    );
    t.public_metrics = metrics(1, i64::MAX, 0, 0);
    assert_eq!(
        extract_tweet_metrics(&t),
        Err(ApiError::PermanentUpstream(Malformed::MetricOverflow))
    );
    t.public_metrics = metrics(0, i64::MAX, 0, 0);
    assert_eq!(extract_tweet_metrics(&t).unwrap().popularity_count, i64::MAX);
}

#[test]
fn a_new_tweet_is_stored_with_its_author() {
    let mut store = store_with_user("7");
    let mut t = tweet("1401933150012559361", "7");
    t.text = Some("a &lt;b&gt; &amp;amp; &quot;c&quot; &apos;d&apos;".to_string());
    t.referenced_tweets = References::List(vec![
        reference("replied_to", "100"),
        reference("quoted", "200"),
        reference("liked", "300"),
        reference("quoted", "201"),
    ]);
    assert_eq!(store_tweet(&mut store, &t, &no_includes(), TweetClass::Normal), Ok(()));
    assert_eq!(store.tweets.len(), 1);
    let row = fetch_tweet(&store, "1401933150012559361").unwrap();
    let author = fetch_user(&store, "7").unwrap();
    assert_eq!(row.user_id, author.id);
    assert_eq!(row.tweet_created_at, 1_623_328_496_000_000);
    assert_eq!(row.tweet_text, "a <b> &amp; \"c\" 'd'");
    assert_eq!(row.tweet_url, "https://twitter.com/7/status/1401933150012559361");
    assert_eq!(row.replied_to_tweet_id, Some("100".to_string()));
    assert_eq!(row.quoted_tweet_id, Some("201".to_string()));
    assert_eq!(row.tweet_class, TweetClass::Normal);
    assert_eq!(row.metrics.total_retweet_count, Some(6));
    assert_eq!(row.metrics.popularity_count, Some(19));
}

#[test]
fn the_creation_time_keeps_offset_and_fraction() {
    let mut store = store_with_user("7");
    let mut t = tweet("1", "7");
    t.created_at = Some("2021-06-10T14:34:56.250+02:00".to_string());
    assert_eq!(store_tweet(&mut store, &t, &no_includes(), TweetClass::Normal), Ok(()));
    assert_eq!(fetch_tweet(&store, "1").unwrap().tweet_created_at, 1_623_328_496_250_000);
}

#[test]
fn storing_a_tweet_twice_keeps_one_row_and_refreshes_the_counters() {
    let mut store = store_with_user("7");
    let t = tweet("1", "7");
    assert_eq!(store_tweet(&mut store, &t, &no_includes(), TweetClass::Normal), Ok(()));
    let first = fetch_tweet(&store, "1").unwrap();
    assert_eq!(store_tweet(&mut store, &t, &no_includes(), TweetClass::Normal), Ok(()));
    assert_eq!(store.tweets.len(), 1);
    let mut later = tweet("1", "7");
    later.public_metrics = metrics(11, 2, 3, 5);
    later.text = Some("changed".to_string());
    assert_eq!(store_tweet(&mut store, &later, &no_includes(), TweetClass::Helper), Ok(()));
    assert_eq!(store.tweets.len(), 1);
    let row = fetch_tweet(&store, "1").unwrap();
    assert_eq!(row.metrics.like_count, Some(11));
    assert_eq!(row.metrics.total_retweet_count, Some(7));
    assert_eq!(row.metrics.popularity_count, Some(21));
    assert_eq!(row.tweet_text, "hello");
    assert_eq!(row.tweet_class, TweetClass::Normal);
    assert_eq!(row.id, first.id);
}

#[test]
fn a_known_tweet_is_refreshed_without_a_look_at_its_author() {
    let mut store = store_with_user("7");
    assert_eq!(store_tweet(&mut store, &tweet("1", "7"), &no_includes(), TweetClass::Normal), Ok(()));
    let mut again = tweet("1", "7");
    again.author_id = None;
    again.created_at = None;
    again.public_metrics = metrics(50, 0, 0, 0);
    assert_eq!(store_tweet(&mut store, &again, &no_includes(), TweetClass::Normal), Ok(()));
    assert_eq!(fetch_tweet(&store, "1").unwrap().metrics.popularity_count, Some(50));
}

#[test]
fn a_tweet_without_its_author_is_an_ordering_violation() {
    let mut store = store_with_user("7");
    let t = tweet("1", "8");
    assert_eq!(
        store_tweet(&mut store, &t, &no_includes(), TweetClass::Normal),
        Err(ApiError::OrderingViolation)
    );
    assert_eq!(store.tweets.len(), 0);
    assert_eq!(store_user(&mut store, &user("8")), Ok(()));
    assert_eq!(store_tweet(&mut store, &t, &no_includes(), TweetClass::Normal), Ok(()));
    assert_eq!(fetch_tweet(&store, "1").unwrap().user_id, fetch_user(&store, "8").unwrap().id);
}

#[test]
fn malformed_tweets_are_refused_in_order() {
    let mut store = store_with_user("7");
    let inc = no_includes();
    let mut t = tweet("1", "7");
    t.id = None;
    t.author_id = None;
    assert_eq!(
        store_tweet(&mut store, &t, &inc, TweetClass::Normal),
        Err(ApiError::PermanentUpstream(Malformed::NoTweetId))
    );
    let mut t = tweet("1", "7");
    t.author_id = None;
    t.created_at = None;
    assert_eq!(
        store_tweet(&mut store, &t, &inc, TweetClass::Normal),
        Err(ApiError::PermanentUpstream(Malformed::NoAuthorId))
    );
    let mut t = tweet("1", "7");
    t.created_at = None;
    assert_eq!(
        store_tweet(&mut store, &t, &inc, TweetClass::Normal),
        Err(ApiError::PermanentUpstream(Malformed::NoCreatedAt))
    );
    let mut t = tweet("1", "7");
    t.created_at = Some("yesterday".to_string());
    assert_eq!(
        store_tweet(&mut store, &t, &inc, TweetClass::Normal),
        Err(ApiError::PermanentUpstream(Malformed::BadCreatedAt))
    );
    let mut t = tweet("1", "7");
    t.referenced_tweets = References::NotAList;
    assert_eq!(
        store_tweet(&mut store, &t, &inc, TweetClass::Normal),
        Err(ApiError::PermanentUpstream(Malformed::NoRefTweets))
    );
    let mut t = tweet("1", "7");
    t.referenced_tweets = References::List(vec![Reference { kind: None, id: Some("5".into()) }]);
    assert_eq!(
        store_tweet(&mut store, &t, &inc, TweetClass::Normal),
        Err(ApiError::PermanentUpstream(Malformed::NoType))
    );
    let mut t = tweet("1", "7");
    t.referenced_tweets =
        References::List(vec![Reference { kind: Some("quoted".into()), id: None }]);
    assert_eq!(
        store_tweet(&mut store, &t, &inc, TweetClass::Normal),
        Err(ApiError::PermanentUpstream(Malformed::NoId))
    );
    let mut t = tweet("1", "7");
    t.public_metrics.reply_count = None;
    t.text = None;
    assert_eq!(
        store_tweet(&mut store, &t, &inc, TweetClass::Normal),
        Err(ApiError::PermanentUpstream(Malformed::NoReplyCount))
    );
    let mut t = tweet("1", "7");
    t.text = None;
    assert_eq!(
        store_tweet(&mut store, &t, &inc, TweetClass::Normal),
        Err(ApiError::PermanentUpstream(Malformed::NoText))
    );
    assert_eq!(store.tweets.len(), 0);
}

#[test]
fn a_retweet_stores_the_original_in_its_place() {
    let mut store = store_with_user("7");
    assert_eq!(store_user(&mut store, &user("9")), Ok(()));
    let mut wrapper = tweet("500", "7");
    wrapper.text = None;
    wrapper.public_metrics =
        PublicMetrics { like_count: None, quote_count: None, reply_count: None, retweet_count: None };
    wrapper.referenced_tweets = References::List(vec![reference("retweeted", "400")]);
    let mut original = tweet("400", "9");
    original.text = Some("the original".to_string());
    let includes = Includes {
        users: None,
        tweets: Some(vec![tweet("399", "9"), original]),
        media: None,
    };
    assert_eq!(store_tweet(&mut store, &wrapper, &includes, TweetClass::Normal), Ok(()));
    assert_eq!(store.tweets.len(), 1);
    let row = fetch_tweet(&store, "400").unwrap();
    assert_eq!(row.tweet_class, TweetClass::RtOriginal);
    assert_eq!(row.tweet_text, "the original");
    assert_eq!(row.user_id, fetch_user(&store, "9").unwrap().id);
    assert_eq!(fetch_tweet(&store, "500").err(), Some(ApiError::StorageFailure));
    assert_eq!(store_tweet(&mut store, &wrapper, &includes, TweetClass::Normal), Ok(()));
    assert_eq!(store.tweets.len(), 1);
}

#[test]
fn a_retweet_needs_its_original_in_the_side_car() {
    let mut store = store_with_user("7");
    let mut wrapper = tweet("500", "7");
    wrapper.referenced_tweets = References::List(vec![reference("retweeted", "400")]);
    assert_eq!(
        store_tweet(&mut store, &wrapper, &no_includes(), TweetClass::Normal),
        Err(ApiError::PermanentUpstream(Malformed::NoIncludedTweets))
    );
    let includes = Includes { users: None, tweets: Some(vec![tweet("399", "7")]), media: None };
    assert_eq!(
        store_tweet(&mut store, &wrapper, &includes, TweetClass::Normal),
        Err(ApiError::PermanentUpstream(Malformed::MissingTarget))
    );
    let mut nameless = tweet("398", "7");
    nameless.id = None;
    let includes =
        Includes { users: None, tweets: Some(vec![nameless, tweet("400", "7")]), media: None };
    assert_eq!(
        store_tweet(&mut store, &wrapper, &includes, TweetClass::Normal),
        Err(ApiError::PermanentUpstream(Malformed::NoId))
    );
    let mut nested = tweet("400", "7");
    nested.referenced_tweets = References::List(vec![reference("retweeted", "300")]);
    let includes =
        Includes { users: None, tweets: Some(vec![nested, tweet("300", "7")]), media: None };
    assert_eq!(
        store_tweet(&mut store, &wrapper, &includes, TweetClass::Normal),
        Err(ApiError::PermanentUpstream(Malformed::NestedRetweet))
    );
    assert_eq!(store.tweets.len(), 0);
}

#[test]
fn the_original_of_a_retweet_needs_its_own_author() {
    let mut store = store_with_user("7");
    let mut wrapper = tweet("500", "7");
    wrapper.referenced_tweets = References::List(vec![reference("retweeted", "400")]);
    let includes = Includes { users: None, tweets: Some(vec![tweet("400", "9")]), media: None };
    assert_eq!(
        store_tweet(&mut store, &wrapper, &includes, TweetClass::Normal),
        Err(ApiError::OrderingViolation)
    );
}

#[test]
fn media_come_after_the_tweet_row() {
    let mut store = store_with_user("7");
    let mut t = tweet("1", "7");
    t.media_keys = Some(vec![Some("3_1".to_string()), Some("3_2".to_string()), Some("7_9".to_string())]);
    let includes = Includes {
        users: None,
        tweets: None,
        media: Some(vec![
            MediaPayload {
                media_key: Some("3_2".to_string()),
                kind: Some("video".to_string()),
                url: None,
                preview_image_url: Some("https://example.org/preview.jpg".to_string()),
            },
            MediaPayload {
                media_key: Some("3_1".to_string()),
                kind: Some("photo".to_string()),
                url: Some("https://example.org/photo.jpg".to_string()),
                preview_image_url: Some("https://example.org/ignored.jpg".to_string()),
            },
        ]),
    };
    assert_eq!(store_tweet(&mut store, &t, &includes, TweetClass::Normal), Ok(()));
    let row = fetch_tweet(&store, "1").unwrap();
    let media = fetch_all_media_for_tweet(&store, row.id);
    assert_eq!(media.len(), 3);
    assert_eq!(media[0].media_key, "3_1");
    assert_eq!(media[0].media_type, Some("photo".to_string()));
    assert_eq!(media[0].display_url, Some("https://example.org/photo.jpg".to_string()));
    assert_eq!(media[1].media_key, "3_2");
    assert_eq!(media[1].display_url, Some("https://example.org/preview.jpg".to_string()));
    assert_eq!(media[2].media_key, "7_9");
    assert_eq!(media[2].media_type, None);
    assert_eq!(media[2].display_url, None);
    assert_eq!(fetch_media(&store, "7_9").unwrap().tweet_id, row.id);
    assert!(media[0].id != media[1].id && media[1].id != media[2].id);
}

#[test]
fn a_media_failure_leaves_the_tweet_row() {
    let mut store = store_with_user("7");
    let mut t = tweet("1", "7");
    t.media_keys = Some(vec![None]);
    let includes = Includes { users: None, tweets: None, media: Some(vec![]) };
    assert_eq!(
        store_tweet(&mut store, &t, &includes, TweetClass::Normal),
        Err(ApiError::PermanentUpstream(Malformed::NoMediaKey))
    );
    assert_eq!(store.tweets.len(), 1);
    assert_eq!(store.media.len(), 0);
}

#[test]
fn references_are_read_in_order() {
    let scan = scan_references(&References::List(vec![
        reference("quoted", "1"),
        reference("retweeted", "2"),
        Reference { kind: None, id: None },
    ]))
    .unwrap();
    assert_eq!(scan.retweet_of, Some("2".to_string()));
    assert_eq!(scan.quoted, Some("1".to_string()));
    assert_eq!(scan.replied_to, None);
    let scan = scan_references(&References::Absent).unwrap();
    assert_eq!(scan.retweet_of, None);
    assert_eq!(
        scan_references(&References::List(vec![Reference {
            kind: Some("retweeted".into()),
            id: None
        }]))
        .err(),
        Some(ApiError::PermanentUpstream(Malformed::NoId))
    );
    assert_eq!(
        scan_references(&References::List(vec![Reference {
            kind: Some("replied_to".into()),
            id: None
        }]))
        .err(),
        Some(ApiError::PermanentUpstream(Malformed::NoId))
    );
}

#[test]
fn the_target_is_the_first_entry_with_the_id() {
    let list = vec![tweet("1", "7"), tweet("2", "7"), tweet("2", "8")];
    assert_eq!(locate_target(&list, "2"), Ok(1));
    assert_eq!(
        locate_target(&list, "3"),
        Err(ApiError::PermanentUpstream(Malformed::MissingTarget))
    );
}

#[test]
fn the_address_of_a_tweet_names_author_and_id() {
    assert_eq!(tweet_url("12", "34"), "https://twitter.com/12/status/34");
}

#[test]
fn a_plan_is_made_without_touching_the_store() {
    let mut store = Store::new();
    let stamp = Stamp { id: 77, at: 1_000 };
    assert_eq!(store_user_with(&mut store, &user("7"), Stamp { id: 5, at: 900 }), Ok(()));
    let prepared = prepare_tweet(&store, &tweet("1", "7"), TweetClass::Helper, stamp).unwrap();
    let row = match prepared {
        Prepared::Insert { row } => row,
        _ => panic!("an insertion was expected"),
    };
    assert_eq!(store.tweets.len(), 0);
    assert_eq!(row.id, 77);
    assert_eq!(row.created_at, 1_000);
    assert_eq!(row.user_id, 5);
    assert_eq!(row.tweet_class, TweetClass::Helper);
    assert_eq!(insert_tweet(&mut store, row.clone()), Ok(()));
    assert_eq!(insert_tweet(&mut store, row.clone()), Err(ApiError::StorageFailure));
    let mut other = row.clone();
    other.tweet_id = "2".to_string();
    assert_eq!(insert_tweet(&mut store, other.clone()), Err(ApiError::StorageFailure));
    other.id = 78;
    other.user_id = 6;
    assert_eq!(insert_tweet(&mut store, other.clone()), Err(ApiError::OrderingViolation));
    other.user_id = 5;
    assert_eq!(insert_tweet(&mut store, other), Ok(()));
    assert_eq!(store.tweets.len(), 2);
    match prepare_tweet(&store, &tweet("1", "7"), TweetClass::Normal, stamp).unwrap() {
        Prepared::Refresh { row, metrics } => {
            assert_eq!(row, 0);
            assert_eq!(metrics.popularity_count, 19);
        }
        _ => panic!("a refresh was expected"),
    }
}

#[test]
fn a_taken_surrogate_id_is_a_storage_failure() {
    let mut store = Store::new();
    assert_eq!(store_user_with(&mut store, &user("7"), Stamp { id: 5, at: 900 }), Ok(()));
    assert_eq!(
        store_user_with(&mut store, &user("8"), Stamp { id: 5, at: 901 }),
        Err(ApiError::StorageFailure)
    );
    assert_eq!(store_user_with(&mut store, &user("7"), Stamp { id: 6, at: 902 }), Ok(()));
    let row = fetch_user(&store, "7").unwrap();
    assert_eq!((row.id, row.created_at), (5, 900));
    assert_eq!(store.users.len(), 1);
}

#[test]
fn loaded_rows_need_their_authors_and_parents() {
    let mut store = store_with_user("7");
    let mut t = tweet("1", "7");
    t.media_keys = Some(vec![Some("m".to_string())]);
    let includes = Includes { users: None, tweets: None, media: Some(vec![]) };
    assert_eq!(store_tweet(&mut store, &t, &includes, TweetClass::Normal), Ok(()));
    let (users, tweets, media) = (store.users.clone(), store.tweets.clone(), store.media.clone());
    let loaded =
        Store::from_rows(users.clone(), tweets.clone(), media.clone()).ok().unwrap();
    assert_eq!((loaded.users.len(), loaded.tweets.len(), loaded.media.len()), (1, 1, 1));
    assert_eq!(
        Store::from_rows(Vec::new(), tweets.clone(), Vec::new()).err(),
        Some(ApiError::StorageFailure)
    );
    assert_eq!(
        Store::from_rows(users.clone(), Vec::new(), media.clone()).err(),
        Some(ApiError::StorageFailure)
    );
    let mut doubled = media.clone();
    doubled.push(media[0].clone());
    assert_eq!(
        Store::from_rows(users, tweets, doubled).err(),
        Some(ApiError::StorageFailure)
    );
}

#[test]
fn a_plan_takes_the_creation_time_as_it_was_read() {
    let mut store = Store::new();
    assert_eq!(store_user_with(&mut store, &user("7"), Stamp { id: 5, at: 900 }), Ok(()));
    let stamp = Stamp { id: 77, at: 1_000 };
    let mut t = tweet("1", "7");
    t.text = Some("a &amp; b".to_string());
    match prepare_parsed(&store, &t, TweetClass::Normal, stamp, Some(42)).unwrap() {
        Prepared::Insert { row } => {
            assert_eq!(row.tweet_created_at, 42);
            assert_eq!(row.tweet_text, "a & b");
            assert_eq!(row.metrics.popularity_count, Some(19));
            assert_eq!(row.metrics.like_count, Some(10));
        }
        _ => panic!("an insertion was expected"),
    }
    assert_eq!(
        prepare_parsed(&store, &t, TweetClass::Normal, stamp, None).err(),
        Some(ApiError::PermanentUpstream(Malformed::BadCreatedAt))
    );
    t.created_at = None;
    assert_eq!(
        prepare_parsed(&store, &t, TweetClass::Normal, stamp, Some(42)).err(),
        Some(ApiError::PermanentUpstream(Malformed::NoCreatedAt))
    );
    t.author_id = Some("8".to_string());
    assert_eq!(
        prepare_parsed(&store, &t, TweetClass::Normal, stamp, Some(42)).err(),
        Some(ApiError::OrderingViolation)
    );
}
