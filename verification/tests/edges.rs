use backend::config::{AppSettings, DbSettings, Environment, Settings, TwitterSettings};
use backend::twitter::model::payload::{FollowingPage, UserPayload};
use backend::twitter::schedulers::refresh::{
    next_step, refresh_interval, schedule_tweet_refresh, RefreshAction, RefreshEvent, RefreshState,
};
use backend::twitter::scrapers::general::{
    add_param, handle_rate_limits, join_param, v2_api_get, Params, RateLimits,
};
use backend::twitter::scrapers::specific::{
    fetch_all_followed_users, fetch_followed_users, get_single_tweet, get_user_timeline,
};
use backend::utils::errors::{ApiError, Malformed, MyError};
use backend::utils::text::{
    decimal_i64, decimal_text, parse_i64, parse_u32, replace_all, same_text, to_chars, unescape,
};

fn settings(refresh_freq: u64) -> Settings {
    Settings {
        app: AppSettings {
            port: 8080,
            host: "localhost".to_string(),
            refresh_freq,
            max_users: 100,
            refresh_tweets_per_user: 100,
            followers_for_account: "1397861458441089025".to_string(),
            backfill_most_popular_first: false,
        },
        database: DbSettings {
            username: "u".to_string(),
            password: "SECRET-REDACTED".to_string(),
            port: 5432,
            host: "localhost".to_string(),
            db_name: "feed".to_string(),
            require_ssl: true,
        },
        twitter: TwitterSettings {
            consumer_key: "ck".to_string(),
            consumer_secret: "cs".to_string(),
            access_token: "at".to_string(),
            access_token_secret: "ats".to_string(),
            bearer_token: "token".to_string(),
        },
    }
}

const TWEET_QUERY: &str = "expansions=author_id%2Creferenced_tweets.id%2Creferenced_tweets.id.author_id%2Cin_reply_to_user_id%2Cattachments.media_keys&tweet.fields=created_at%2Cin_reply_to_user_id%2Cpublic_metrics%2Creferenced_tweets&user.fields=name%2Cusername%2Cprofile_image_url%2Curl%2Cpublic_metrics&media.fields=preview_image_url%2Curl";

#[test]
fn environments_are_read_from_their_names() {
    assert_eq!(Environment::try_from("dev".to_string()), Ok(Environment::Dev));
    assert_eq!(Environment::try_from("prod".to_string()), Ok(Environment::Prod));
    assert_eq!(
        Environment::try_from("staging".to_string()),
        Err("staging is an unsupported Environment. Use either 'dev' or 'prod'.".to_string())
    );
    assert_eq!(Environment::Dev.to_str(), "dev_config");
    assert_eq!(Environment::Prod.to_str(), "prod_config");
}

#[test]
fn the_refresh_never_starts_outside_production() {
    let config = settings(15);
    assert_eq!(
        schedule_tweet_refresh(None, &config),
        Ok((RefreshState::Disabled, RefreshAction::Nothing))
    );
    assert_eq!(
        schedule_tweet_refresh(Some("dev".to_string()), &config),
        Ok((RefreshState::Disabled, RefreshAction::Nothing))
    );
    assert!(schedule_tweet_refresh(Some("test".to_string()), &config).is_err());
    let (state, action) = next_step(RefreshState::Disabled, RefreshEvent::TimerFired, &config);
    assert_eq!((state, action), (RefreshState::Disabled, RefreshAction::Nothing));
}

#[test]
fn the_refresh_waits_before_every_pull() {
    let config = settings(15);
    let (mut state, mut action) =
        schedule_tweet_refresh(Some("prod".to_string()), &config).unwrap();
    let mut actions = vec![action];
    for _ in 0..2 {
        for event in [
            RefreshEvent::TimerFired,
            RefreshEvent::PullFinished(Err(ApiError::TransientUpstream)),
            RefreshEvent::BackfillFinished(Ok(())),
        ] {
            (state, action) = next_step(state, event, &config);
            actions.push(action);
        }
    }
    assert_eq!(
        actions,
        vec![
            RefreshAction::Wait { seconds: 900 },
            RefreshAction::Pull,
            RefreshAction::Backfill,
            RefreshAction::Wait { seconds: 900 },
            RefreshAction::Pull,
            RefreshAction::Backfill,
            RefreshAction::Wait { seconds: 900 },
        ]
    );
    assert_eq!(state, RefreshState::Waiting);
    assert_eq!(
        next_step(RefreshState::Waiting, RefreshEvent::PullFinished(Ok(())), &config),
        (RefreshState::Waiting, RefreshAction::Nothing)
    );
    assert_eq!(
        next_step(RefreshState::Pulling, RefreshEvent::TimerFired, &config),
        (RefreshState::Pulling, RefreshAction::Nothing)
    );
    assert_eq!(
        next_step(RefreshState::Waiting, RefreshEvent::Started(Environment::Prod), &config),
        (RefreshState::Waiting, RefreshAction::Nothing)
    );
    assert_eq!(refresh_interval(&settings(u64::MAX)), u64::MAX);
    assert_eq!(refresh_interval(&settings(0)), 0);
}

#[test]
fn the_rate_budget_is_read_from_three_headers() {
    assert_eq!(
        handle_rate_limits(Some("899"), Some("900"), Some("1623328496")),
        Ok(RateLimits { limit_left: 899, limit_total: 900, reset_time: 1_623_328_496 })
    );
    assert_eq!(
        handle_rate_limits(None, None, None),
        Err(ApiError::PermanentUpstream(Malformed::NoHeader))
    );
    assert_eq!(
        handle_rate_limits(Some("x"), None, None),
        Err(ApiError::PermanentUpstream(Malformed::BadHeader))
    );
    assert_eq!(
        handle_rate_limits(Some("1"), None, Some("x")),
        Err(ApiError::PermanentUpstream(Malformed::NoHeader))
    );
    assert_eq!(
        handle_rate_limits(Some("1"), Some("4294967296"), Some("3")),
        Err(ApiError::PermanentUpstream(Malformed::BadHeader))
    );
    assert_eq!(
        handle_rate_limits(Some("1"), Some("2"), Some("-3")),
        Err(ApiError::PermanentUpstream(Malformed::BadHeader))
    );
}

#[test]
fn the_rate_budget_is_reported_in_one_line() {
    let limits = RateLimits { limit_left: 899, limit_total: 900, reset_time: 1_623_328_496 };
    assert_eq!(
        limits.to_string(),
        Some("RATE LIMIT LEFT: 899 / 900, RESET TIME: 12:34:56 GMT".to_string())
    );
    let never = RateLimits { limit_left: 0, limit_total: 0, reset_time: i64::MAX };
    assert_eq!(never.to_string(), None);
    let before_the_epoch = RateLimits { limit_left: 1, limit_total: 2, reset_time: -1 };
    assert_eq!(
        before_the_epoch.to_string(),
        Some("RATE LIMIT LEFT: 1 / 2, RESET TIME: 23:59:59 GMT".to_string())
    );
    let early = RateLimits { limit_left: 1, limit_total: 2, reset_time: 86_400 * 3 + 3_600 + 62 };
    assert_eq!(
        early.to_string(),
        Some("RATE LIMIT LEFT: 1 / 2, RESET TIME: 01:01:02 GMT".to_string())
    );
    assert_eq!(limits.line_with("soon"), "RATE LIMIT LEFT: 899 / 900, RESET TIME: soon");
}

#[test]
fn requests_carry_query_and_bearer_token() {
    let config = settings(15);
    let call = get_user_timeline(&config, "42").unwrap();
    assert_eq!(
        call.url,
        format!("https://api.twitter.com/2/users/42/tweets?{}&max_results=100", TWEET_QUERY)
    );
    assert_eq!(call.authorization, "Bearer token");
    let call = get_single_tweet(&config, "1401933150012559361").unwrap();
    assert_eq!(
        call.url,
        format!("https://api.twitter.com/2/tweets/1401933150012559361?{}", TWEET_QUERY)
    );
    let call = fetch_followed_users(&config, None).unwrap();
    assert_eq!(
        call.url,
        "https://api.twitter.com/2/users/1397861458441089025/following?max_results=1000"
    );
    let call = fetch_followed_users(&config, Some("a b&c".to_string())).unwrap();
    assert_eq!(
        call.url,
        "https://api.twitter.com/2/users/1397861458441089025/following?max_results=1000&pagination_token=a+b%26c"
    );
    let call = v2_api_get(&config, "https://example.org/x".to_string(), None).unwrap();
    assert_eq!(call.url, "https://example.org/x");
}

#[test]
fn a_query_restores_the_dots_of_its_names() {
    let params = Params {
        expansions: None,
        tweet___fields: Some("a___b".to_string()),
        user___fields: None,
        media___fields: Some("".to_string()),
        max_results: Some(0),
        pagination_token: None,
    };
    assert_eq!(params.to_query(), Some("tweet.fields=a.b&media.fields=&max_results=0".to_string()));
    let none = Params {
        expansions: None,
        tweet___fields: None,
        user___fields: None,
        media___fields: None,
        max_results: None,
        pagination_token: None,
    };
    assert_eq!(none.to_query(), Some("".to_string()));
    assert_eq!(join_param(Some("".to_string()), Some("a=1".to_string())), Some("a=1".to_string()));
    assert_eq!(
        join_param(Some("a=1".to_string()), Some("b=2".to_string())),
        Some("a=1&b=2".to_string())
    );
    assert_eq!(join_param(Some("a=1".to_string()), None), None);
    assert_eq!(join_param(None, Some("b=2".to_string())), None);
    assert_eq!(
        add_param(Some("a=1".to_string()), "b c", &Some("d e".to_string())),
        Some("a=1&b c=d+e".to_string())
    );
    assert_eq!(add_param(Some("a=1".to_string()), "b", &None), Some("a=1".to_string()));
    assert_eq!(add_param(None, "b", &None), None);
}

fn account(id: &str) -> UserPayload {
    UserPayload {
        id: Some(id.to_string()),
        name: None,
        username: None,
        url: None,
        profile_image_url: None,
        followers_count: None,
        following_count: None,
        listed_count: None,
        tweet_count: None,
    }
}

#[test]
fn followed_accounts_are_gathered_page_by_page() {
    let mut users = Vec::new();
    let first = FollowingPage {
        data: Some(vec![account("1"), account("2")]),
        next_token: Some("next".to_string()),
    };
    assert_eq!(fetch_all_followed_users(&mut users, first), Ok(Some("next".to_string())));
    let second = FollowingPage { data: Some(vec![account("3")]), next_token: None };
    assert_eq!(fetch_all_followed_users(&mut users, second), Ok(None));
    let ids: Vec<_> = users.iter().map(|u| u.id.clone().unwrap()).collect();
    assert_eq!(ids, vec!["1", "2", "3"]);
    let broken = FollowingPage { data: None, next_token: Some("x".to_string()) };
    assert_eq!(
        fetch_all_followed_users(&mut users, broken),
        Err(ApiError::PermanentUpstream(Malformed::NoData))
    );
    assert_eq!(users.len(), 3);
}

#[test]
fn decimal_text_is_read_as_the_standard_library_reads_it() {
    for text in [
        "0", "7", "+7", "-7", "007", "-0", "9223372036854775807", "9223372036854775808",
        "-9223372036854775808", "-9223372036854775809", "", "+", "-", "1 ", " 1", "1_000", "--1",
        "+-1", "12a", "٣", "99999999999999999999999999",
    ] {
        assert_eq!(parse_i64(text), text.parse::<i64>().ok(), "{:?}", text);
        assert_eq!(parse_u32(text), text.parse::<u32>().ok(), "{:?}", text);
    }
    assert_eq!(parse_u32("4294967295"), Some(u32::MAX));
    assert_eq!(parse_u32("4294967296"), None);
    assert_eq!(parse_i64("-42"), Some(-42));
}

#[test]
fn numbers_are_written_in_decimal() {
    assert_eq!(decimal_text(0), "0");
    assert_eq!(decimal_text(9), "9");
    assert_eq!(decimal_text(10), "10");
    assert_eq!(decimal_text(1_500), "1500");
    assert_eq!(decimal_text(u64::MAX), "18446744073709551615");
    assert_eq!(decimal_i64(0), "0");
    assert_eq!(decimal_i64(-7), "-7");
    assert_eq!(decimal_i64(i64::MAX), "9223372036854775807");
    assert_eq!(decimal_i64(i64::MIN), "-9223372036854775808");
    for n in [0, 5, -5, 1_000, i64::MAX, i64::MIN] {
        assert_eq!(parse_i64(&decimal_i64(n)), Some(n));
    }
    assert_eq!(to_chars("aä€𝄞"), vec!['a', 'ä', '€', '𝄞']);
    assert_eq!(to_chars(""), Vec::<char>::new());
    assert!(same_text("aä", "aä"));
    assert!(!same_text("a", "ab"));
    assert!(!same_text("ab", "ac"));
}

#[test]
fn replacement_goes_from_the_left_without_overlap() {
    let run = |s: &str, from: &str, to: &str| -> String {
        replace_all(
            &s.chars().collect::<Vec<char>>(),
            &from.chars().collect::<Vec<char>>(),
            &to.chars().collect::<Vec<char>>(),
        )
        .into_iter()
        .collect()
    };
    for (s, from, to) in [
        ("aaaa", "aa", "b"),
        ("aaa", "aa", "b"),
        ("abcabc", "bc", ""),
        ("abc", "abcd", "x"),
        ("", "a", "b"),
        ("a___b____c", "___", "."),
        ("xay", "a", "aa"),
    ] {
        assert_eq!(run(s, from, to), s.replace(from, to));
    }
    assert_eq!(run("abc", "", "x"), "abc");
}

#[test]
fn character_references_are_resolved_once() {
    assert_eq!(unescape("&lt;p&gt; &quot;a&quot; &amp; &apos;b&apos;"), "<p> \"a\" & 'b'");
    assert_eq!(unescape("&amp;lt;"), "&lt;");
    assert_eq!(unescape("plain"), "plain");
    assert_eq!(unescape("&lt"), "&lt");
}

#[test]
fn a_validation_error_does_not_echo_its_input() {
    assert_eq!(
        MyError("page=-1".to_string()).message(),
        "A validation error occured on the input."
    );
    assert!(ApiError::TransientUpstream.is_transient());
    assert!(!ApiError::StorageFailure.is_transient());
    assert!(!ApiError::OrderingViolation.is_transient());
    assert!(!ApiError::PermanentUpstream(Malformed::NoText).is_transient());
}
