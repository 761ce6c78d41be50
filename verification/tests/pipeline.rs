use backend::config::{AppSettings, DbSettings, Settings, TwitterSettings};
use backend::twitter::model::backfill::{
    core_tweets_to_backfill_at, fetch_core_tweets_to_backfill, fetch_helper_tweets_to_backfill,
    helper_tweets_to_backfill_at, window_back, BackfillOrder, DAY,
};
use backend::twitter::model::payload::{
    Includes, MediaPayload, PublicMetrics, Reference, References, Timeline, TweetBody,
    TweetPayload, UserPayload,
};
use backend::twitter::model::store::{Store, TweetClass};
use backend::twitter::model::tweet::fetch_tweet;
use backend::twitter::pipeline::jobs::{
    backfill_missing_media_and_helper_tweets, backfill_missing_media_and_helper_tweets_at,
    backfill_round, pull_timelines_for_followed_users, Processor, BACKFILL_BUDGET, PULL_BUDGET,
};
use backend::twitter::pipeline::loops::{capped_total, loop_until_hit_rate_limit, RoundReport};
use backend::twitter::pipeline::processors::{
    process_helper_tweet, process_rt_original_tweet, process_user_timeline,
};
use backend::twitter::pipeline::retry::{retry, Exhausted, RetryPolicy};
use backend::utils::errors::{ApiError, Malformed};
use backend::utils::general::type_name_of;
use std::cell::RefCell;

const NOON: i64 = 1_623_326_400_000_000;

fn settings(max_users: usize) -> Settings {
    Settings {
        app: AppSettings {
            port: 8080,
            host: "localhost".to_string(),
            refresh_freq: 15,
            max_users,
            refresh_tweets_per_user: 100,
            followers_for_account: "1397861458441089025".to_string(),
            backfill_most_popular_first: false,
        },
        database: DbSettings {
            username: "u".to_string(),
            password: "SECRET-REDACTED".to_string(),
            port: 5432,
            host: "localhost".to_string(),
            db_name: "feed".to_string(),
            require_ssl: false,
        },
        twitter: TwitterSettings {
            consumer_key: "ck".to_string(),
            consumer_secret: "cs".to_string(),
            access_token: "at".to_string(),
            access_token_secret: "ats".to_string(),
            bearer_token: "bt".to_string(),
        },
    }
}

fn user(id: &str) -> UserPayload {
    UserPayload {
        id: Some(id.to_string()),
        name: Some(format!("name {}", id)),
        username: Some(format!("handle{}", id)),
        url: Some("https://example.org".to_string()),
        profile_image_url: None,
        followers_count: None,
        following_count: None,
        listed_count: None,
        tweet_count: None,
    }
}

fn tweet(id: &str, author: &str, likes: i64) -> TweetPayload {
    TweetPayload {
        id: Some(id.to_string()),
        author_id: Some(author.to_string()),
        created_at: Some("2021-06-10T11:00:00Z".to_string()),
        text: Some(format!("tweet {}", id)),
        referenced_tweets: References::Absent,
        public_metrics: PublicMetrics {
            like_count: Some(likes),
            quote_count: Some(0),
            reply_count: Some(0),
            retweet_count: Some(0),
        },
        media_keys: None,
    }
}

fn reference(kind: &str, id: &str) -> Reference {
    Reference { kind: Some(kind.to_string()), id: Some(id.to_string()) }
}

fn photo(key: &str) -> MediaPayload {
    MediaPayload {
        media_key: Some(key.to_string()),
        kind: Some("photo".to_string()),
        url: Some(format!("https://example.org/{}.jpg", key)),
        preview_image_url: None,
    }
}

/// The timeline of account 7: a tweet that quotes 900, whose payload is
/// in the side-car, with media key m1 that the catalog lacks, and a tweet
/// that answers 901, which the side-car lacks.
fn timeline() -> Timeline {
    let mut quoting = tweet("100", "7", 5);
    quoting.referenced_tweets = References::List(vec![reference("quoted", "900")]);
    quoting.media_keys = Some(vec![Some("m1".to_string())]);
    let mut answering = tweet("101", "7", 9);
    answering.referenced_tweets = References::List(vec![reference("replied_to", "901")]);
    let mut quoted = tweet("900", "8", 1);
    quoted.media_keys = Some(vec![Some("m2".to_string())]);
    Timeline {
        data: Some(vec![quoting, answering]),
        includes: Includes {
            users: Some(vec![user("7"), user("8")]),
            tweets: Some(vec![quoted]),
            media: Some(vec![]),
        },
    }
}

/// What the upstream service answers for a single tweet, complete.
fn upstream(id: &String) -> Result<TweetBody, ApiError> {
    match id.as_str() {
        "100" => {
            let mut data = tweet("100", "7", 6);
            data.referenced_tweets = References::List(vec![reference("quoted", "900")]);
            data.media_keys = Some(vec![Some("m1".to_string())]);
            let mut quoted = tweet("900", "8", 1);
            quoted.media_keys = Some(vec![Some("m2".to_string())]);
            Ok(TweetBody {
                data,
                includes: Includes {
                    users: Some(vec![user("7"), user("8")]),
                    tweets: Some(vec![quoted]),
                    media: Some(vec![photo("m1"), photo("m2")]),
                },
            })
        }
        "101" => {
            let mut data = tweet("101", "7", 9);
            data.referenced_tweets = References::List(vec![reference("replied_to", "901")]);
            let mut target = tweet("901", "9", 0);
            target.media_keys = Some(vec![Some("m3".to_string())]);
            Ok(TweetBody {
                data,
                includes: Includes {
                    users: Some(vec![user("9")]),
                    tweets: Some(vec![target]),
                    media: Some(vec![]),
                },
            })
        }
        "900" => {
            let mut data = tweet("900", "8", 1);
            data.media_keys = Some(vec![Some("m2".to_string())]);
            Ok(TweetBody {
                data,
                includes: Includes { users: None, tweets: None, media: Some(vec![photo("m2")]) },
            })
        }
        "901" => {
            let mut data = tweet("901", "9", 0);
            data.media_keys = Some(vec![Some("m3".to_string())]);
            Ok(TweetBody {
                data,
                includes: Includes { users: None, tweets: None, media: Some(vec![photo("m3")]) },
            })
        }
        _ => Err(ApiError::TransientUpstream),
    }
}

fn harvested() -> Store {
    let mut store = Store::new();
    assert_eq!(process_user_timeline(&mut store, &timeline()), Ok(()));
    store
}

#[test]
fn a_round_honours_its_budget() {
    let items: Vec<u32> = (0..10_000).collect();
    let (seen, report) = loop_until_hit_rate_limit(
        &items,
        Vec::new(),
        |mut seen: Vec<u32>, item: &u32| {
            seen.push(*item);
            (seen, Ok(()))
        },
        1_500,
    );
    assert_eq!(report, RoundReport { total: 10_000, attempted: 1_500, completed: 1_500 });
    assert_eq!(seen, (0..1_500).collect::<Vec<u32>>());
    assert_eq!(capped_total(10_000, 1_500), 1_500);
    assert_eq!(capped_total(3, 1_500), 3);
    assert_eq!(capped_total(0, 0), 0);
}

#[test]
fn a_failing_item_never_ends_a_round() {
    let items = vec![1, 2, 3, 4, 5];
    let (sum, report) = loop_until_hit_rate_limit(
        &items,
        0,
        |sum: i32, item: &i32| {
            if item % 2 == 0 {
                (sum, Err(ApiError::TransientUpstream))
            } else {
                (sum + item, Ok(()))
            }
        },
        4,
    );
    assert_eq!(sum, 4);
    assert_eq!(report, RoundReport { total: 5, attempted: 4, completed: 2 });
    let (sum, report) =
        loop_until_hit_rate_limit(&items, 0, |sum: i32, item: &i32| (sum + item, Ok(())), 0);
    assert_eq!((sum, report.attempted, report.completed), (0, 0, 0));
}

#[test]
fn a_timeline_is_stored_users_first() {
    let store = harvested();
    assert_eq!(store.users.len(), 2);
    assert_eq!(store.tweets.len(), 3);
    assert_eq!(fetch_tweet(&store, "100").unwrap().tweet_class, TweetClass::Normal);
    assert_eq!(fetch_tweet(&store, "900").unwrap().tweet_class, TweetClass::Helper);
    assert_eq!(store.media.len(), 2);
    assert!(store.media.iter().all(|m| m.display_url.is_none()));
}

#[test]
fn a_timeline_whose_author_is_not_in_the_side_car_fails() {
    let mut store = Store::new();
    let mut broken = timeline();
    broken.includes.users = Some(vec![user("8")]);
    assert_eq!(process_user_timeline(&mut store, &broken), Err(ApiError::OrderingViolation));
    assert_eq!(store.users.len(), 1);
    assert_eq!(store.tweets.len(), 0);
    let mut store = Store::new();
    let mut broken = timeline();
    broken.includes.users = Some(vec![user("7")]);
    assert_eq!(process_user_timeline(&mut store, &broken), Err(ApiError::OrderingViolation));
    assert_eq!(store.tweets.len(), 2);
    let mut store = Store::new();
    let empty = Timeline {
        data: None,
        includes: Includes { users: None, tweets: None, media: None },
    };
    assert_eq!(process_user_timeline(&mut store, &empty), Ok(()));
}

#[test]
fn candidates_are_the_incomplete_tweets_of_the_window() {
    let store = harvested();
    let core = core_tweets_to_backfill_at(&store, 7, BackfillOrder::Descending, NOON);
    assert_eq!(core.iter().map(|t| t.tweet_id.as_str()).collect::<Vec<_>>(), vec!["101", "100"]);
    let core = core_tweets_to_backfill_at(&store, 7, BackfillOrder::Ascending, NOON);
    assert_eq!(core.iter().map(|t| t.tweet_id.as_str()).collect::<Vec<_>>(), vec!["100", "101"]);
    let helpers = helper_tweets_to_backfill_at(&store, 7, BackfillOrder::Ascending, NOON);
    assert_eq!(helpers.iter().map(|t| t.tweet_id.as_str()).collect::<Vec<_>>(), vec!["900"]);
    assert_eq!(core_tweets_to_backfill_at(&store, 0, BackfillOrder::Ascending, NOON).len(), 0);
    assert_eq!(
        core_tweets_to_backfill_at(&store, 7, BackfillOrder::Ascending, NOON + 8 * DAY).len(),
        0
    );
    assert_eq!(BackfillOrder::configured(&settings(1)), BackfillOrder::Ascending);
    let mut popular_first = settings(1);
    popular_first.app.backfill_most_popular_first = true;
    assert_eq!(BackfillOrder::configured(&popular_first), BackfillOrder::Descending);
    assert_eq!(window_back(NOON, 7), NOON - 7 * DAY);
    assert_eq!(window_back(i64::MIN + 1, i64::MAX), i64::MIN);
    assert_eq!(window_back(0, i64::MIN), i64::MAX);
    assert_eq!(fetch_core_tweets_to_backfill(&store, 7, BackfillOrder::Ascending).len(), 0);
    assert_eq!(fetch_helper_tweets_to_backfill(&store, 7, BackfillOrder::Ascending).len(), 0);
    assert_eq!(fetch_core_tweets_to_backfill(&store, 40_000, BackfillOrder::Ascending).len(), 2);
    assert_eq!(fetch_helper_tweets_to_backfill(&store, 40_000, BackfillOrder::Ascending).len(), 1);
}

#[test]
fn equally_popular_candidates_come_in_row_order() {
    let mut store = Store::new();
    let mut a = tweet("1", "7", 3);
    a.referenced_tweets = References::List(vec![reference("quoted", "9")]);
    let mut b = tweet("2", "7", 3);
    b.referenced_tweets = References::List(vec![reference("quoted", "9")]);
    let tl = Timeline {
        data: Some(vec![a, b]),
        includes: Includes { users: Some(vec![user("7")]), tweets: None, media: None },
    };
    assert_eq!(process_user_timeline(&mut store, &tl), Ok(()));
    for order in [BackfillOrder::Ascending, BackfillOrder::Descending] {
        let core = core_tweets_to_backfill_at(&store, 7, order, NOON);
        assert_eq!(core.iter().map(|t| t.tweet_id.as_str()).collect::<Vec<_>>(), vec!["1", "2"]);
    }
}

#[test]
fn a_refetched_tweet_has_its_gaps_closed() {
    let mut store = harvested();
    assert_eq!(process_rt_original_tweet(&mut store, &upstream(&"100".to_string()).unwrap()), Ok(()));
    let core = core_tweets_to_backfill_at(&store, 7, BackfillOrder::Ascending, NOON);
    assert_eq!(core.iter().map(|t| t.tweet_id.as_str()).collect::<Vec<_>>(), vec!["101"]);
    assert_eq!(fetch_tweet(&store, "100").unwrap().metrics.like_count, Some(5));
    assert_eq!(process_helper_tweet(&mut store, &upstream(&"900".to_string()).unwrap()), Ok(()));
    assert_eq!(helper_tweets_to_backfill_at(&store, 7, BackfillOrder::Ascending, NOON).len(), 0);
}

#[test]
fn a_second_repair_finds_nothing_to_do() {
    let store = harvested();
    let calls = RefCell::new(Vec::new());
    let fetch = |id: &String| {
        calls.borrow_mut().push(id.clone());
        upstream(id)
    };
    let (store, core, helpers) =
        backfill_missing_media_and_helper_tweets(store, BackfillOrder::Descending, &fetch);
    assert_eq!(core, RoundReport { total: 0, attempted: 0, completed: 0 });
    assert_eq!(helpers, RoundReport { total: 0, attempted: 0, completed: 0 });
    let core = core_tweets_to_backfill_at(&store, 7, BackfillOrder::Descending, NOON);
    let (store, report) = backfill_round(store, &core, false, &fetch);
    assert_eq!(report, RoundReport { total: 2, attempted: 2, completed: 2 });
    let helpers = helper_tweets_to_backfill_at(&store, 7, BackfillOrder::Descending, NOON);
    assert_eq!(helpers.iter().map(|t| t.tweet_id.as_str()).collect::<Vec<_>>(), vec!["900", "901"]);
    let (store, report) = backfill_round(store, &helpers, true, &fetch);
    assert_eq!(report, RoundReport { total: 2, attempted: 2, completed: 2 });
    assert_eq!(*calls.borrow(), vec!["101", "100", "900", "901"]);
    assert_eq!(core_tweets_to_backfill_at(&store, 7, BackfillOrder::Descending, NOON).len(), 0);
    assert_eq!(helper_tweets_to_backfill_at(&store, 7, BackfillOrder::Descending, NOON).len(), 0);
    assert!(store.media.iter().all(|m| m.display_url.is_some()));
    assert_eq!(store.tweets.len(), 4);
    assert_eq!(store.users.len(), 3);
}

#[test]
fn a_repair_counts_the_tweets_it_could_not_fetch() {
    let store = harvested();
    let core = core_tweets_to_backfill_at(&store, 7, BackfillOrder::Descending, NOON);
    let fetch = |id: &String| {
        if id == "101" {
            Err(ApiError::TransientUpstream)
        } else {
            upstream(id)
        }
    };
    let (store, report) = backfill_round(store, &core, false, &fetch);
    assert_eq!(report, RoundReport { total: 2, attempted: 2, completed: 1 });
    let left = core_tweets_to_backfill_at(&store, 7, BackfillOrder::Descending, NOON);
    assert_eq!(left.iter().map(|t| t.tweet_id.as_str()).collect::<Vec<_>>(), vec!["101"]);
    assert_eq!(BACKFILL_BUDGET, 900);
}

#[test]
fn a_pull_takes_the_first_accounts_only() {
    let users: Vec<UserPayload> = vec![user("7"), user("8"), user("9")];
    let calls = RefCell::new(Vec::new());
    let fetch = |id: &String| {
        calls.borrow_mut().push(id.clone());
        if id == "7" {
            Ok(timeline())
        } else {
            Err(ApiError::PermanentUpstream(Malformed::NoData))
        }
    };
    let (store, report) =
        pull_timelines_for_followed_users(Store::new(), &settings(2), &users, &fetch);
    assert_eq!(report, RoundReport { total: 3, attempted: 2, completed: 1 });
    assert_eq!(*calls.borrow(), vec!["7", "8"]);
    assert_eq!(store.tweets.len(), 3);
    let mut nameless = user("1");
    nameless.id = None;
    let (store, report) =
        pull_timelines_for_followed_users(store, &settings(5_000), &vec![nameless], &fetch);
    assert_eq!(report, RoundReport { total: 1, attempted: 1, completed: 0 });
    assert_eq!(store.tweets.len(), 3);
    assert_eq!(PULL_BUDGET, 1_500);
}

#[test]
fn a_pull_never_exceeds_its_budget() {
    let users: Vec<UserPayload> = (0..1_600).map(|i| user(&i.to_string())).collect();
    let fetch = |_id: &String| -> Result<Timeline, ApiError> { Err(ApiError::TransientUpstream) };
    let (_, report) =
        pull_timelines_for_followed_users(Store::new(), &settings(5_000), &users, &fetch);
    assert_eq!(report, RoundReport { total: 1_600, attempted: 1_500, completed: 0 });
}

#[test]
fn the_policies_wait_in_powers_of_five_seconds() {
    assert_eq!(RetryPolicy::critical().delays(), vec![5_000, 25_000, 125_000]);
    assert_eq!(RetryPolicy::normal().delays(), vec![5_000, 25_000]);
    let huge = RetryPolicy { base: u64::MAX, factor: 2, max_retries: 2 };
    assert_eq!(huge.delays(), vec![u64::MAX, u64::MAX]);
    let normal = RetryPolicy::normal();
    assert_eq!(normal.next_delay(1, ApiError::TransientUpstream), Some(5_000));
    assert_eq!(normal.next_delay(2, ApiError::TransientUpstream), Some(25_000));
    assert_eq!(normal.next_delay(3, ApiError::TransientUpstream), None);
    assert_eq!(normal.next_delay(0, ApiError::TransientUpstream), None);
    assert_eq!(normal.next_delay(1, ApiError::StorageFailure), None);
    assert_eq!(normal.next_delay(1, ApiError::PermanentUpstream(Malformed::NoData)), None);
    assert_eq!(normal.next_delay(1, ApiError::OrderingViolation), None);
}

#[test]
fn a_call_is_retried_until_it_succeeds_or_the_policy_is_used_up() {
    let waits = RefCell::new(Vec::new());
    let attempts = RefCell::new(0usize);
    let flaky = || {
        *attempts.borrow_mut() += 1;
        if *attempts.borrow() < 3 {
            Err(ApiError::TransientUpstream)
        } else {
            Ok(*attempts.borrow())
        }
    };
    let wait = |ms: u64| waits.borrow_mut().push(ms);
    assert_eq!(retry(&RetryPolicy::critical(), &flaky, &wait), Ok(3));
    assert_eq!(*waits.borrow(), vec![5_000, 25_000]);
    waits.borrow_mut().clear();
    *attempts.borrow_mut() = 0;
    assert_eq!(
        retry(&RetryPolicy { base: 5, factor: 1000, max_retries: 1 }, &flaky, &wait),
        Err(Exhausted { attempts: 2, cause: ApiError::TransientUpstream })
    );
    assert_eq!(*waits.borrow(), vec![5_000]);
    waits.borrow_mut().clear();
    let broken = || -> Result<u8, ApiError> { Err(ApiError::PermanentUpstream(Malformed::NoData)) };
    assert_eq!(
        retry(&RetryPolicy::critical(), &broken, &wait),
        Err(Exhausted { attempts: 1, cause: ApiError::PermanentUpstream(Malformed::NoData) })
    );
    assert_eq!(waits.borrow().len(), 0);
    let failing = || -> Result<u8, ApiError> { Err(ApiError::TransientUpstream) };
    assert_eq!(
        retry(&RetryPolicy::critical(), &failing, &wait),
        Err(Exhausted { attempts: 4, cause: ApiError::TransientUpstream })
    );
    assert_eq!(*waits.borrow(), vec![5_000, 25_000, 125_000]);
}

#[test]
fn processors_have_names_for_messages() {
    assert_eq!(type_name_of(Processor::UserTimeline), "process_user_timeline");
    assert_eq!(type_name_of(Processor::RtOriginalTweet), "process_rt_original_tweet");
    assert_eq!(type_name_of(Processor::HelperTweet), "process_helper_tweet");
}

#[test]
fn a_repair_at_a_given_time_converges() {
    let store = harvested();
    let calls = RefCell::new(0usize);
    let fetch = |id: &String| {
        *calls.borrow_mut() += 1;
        upstream(id)
    };
    let (store, core, helpers) =
        backfill_missing_media_and_helper_tweets_at(store, BackfillOrder::Ascending, NOON, &fetch);
    assert_eq!(core, RoundReport { total: 2, attempted: 2, completed: 2 });
    assert_eq!(helpers, RoundReport { total: 2, attempted: 2, completed: 2 });
    assert_eq!(*calls.borrow(), 4);
    let before = store.snapshot();
    let (store, core, helpers) = backfill_missing_media_and_helper_tweets_at(
        store,
        BackfillOrder::Descending,
        NOON + DAY,
        &fetch,
    );
    assert_eq!(core, RoundReport { total: 0, attempted: 0, completed: 0 });
    assert_eq!(helpers, RoundReport { total: 0, attempted: 0, completed: 0 });
    assert_eq!(*calls.borrow(), 4);
    let changes = store.changes_since(&before);
    assert!(changes.users.is_empty() && changes.tweets.is_empty() && changes.media.is_empty());
}

#[test]
fn a_candidate_without_counters_counts_as_the_most_popular() {
    let mut store = harvested();
    store.tweets[0].metrics.popularity_count = None;
    let first = store.tweets[0].tweet_id.clone();
    let core = core_tweets_to_backfill_at(&store, 7, BackfillOrder::Descending, NOON);
    assert_eq!(core[0].tweet_id, first);
    let core = core_tweets_to_backfill_at(&store, 7, BackfillOrder::Ascending, NOON);
    assert_eq!(core.last().unwrap().tweet_id, first);
}

#[test]
fn only_changed_rows_are_listed_for_writing() {
    let mut store = harvested();
    let before = store.snapshot();
    assert_eq!(before.users.len(), store.users.len());
    assert_eq!(before.tweets[2].tweet_id, store.tweets[2].tweet_id);
    assert_eq!(before.media.len(), store.media.len());
    assert_eq!(process_helper_tweet(&mut store, &upstream(&"900".to_string()).unwrap()), Ok(()));
    let changes = store.changes_since(&before);
    assert!(changes.users.is_empty() && changes.tweets.is_empty());
    assert_eq!(changes.media.len(), 1);
    assert_eq!(store.media[changes.media[0]].media_key, "m2");
    assert_eq!(process_rt_original_tweet(&mut store, &upstream(&"101".to_string()).unwrap()), Ok(()));
    let changes = store.changes_since(&before);
    assert_eq!(changes.users, vec![2]);
    assert_eq!(changes.tweets, vec![3]);
    assert_eq!(changes.media.len(), 2);
    let all = store.changes_since(&Store::new());
    assert_eq!(all.tweets, vec![0, 1, 2, 3]);
}
