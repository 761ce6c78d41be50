use backend::twitter::model::media::{
    build_display_url, collect_media_objects, fetch_all_media_for_tweet, fetch_media,
    find_in_catalog, handle_media_for_tweet, prep_final_media_obj, store_all_media, store_media,
    store_media_with, update_media,
};
use backend::twitter::model::payload::{
    Includes, MediaPayload, PublicMetrics, References, TweetPayload, UserPayload,
};
use backend::twitter::model::store::{Stamp, Store, TweetClass};
use backend::twitter::model::tweet::{fetch_tweet, store_tweet};
use backend::twitter::model::user::store_user;
use backend::utils::errors::{ApiError, Malformed};

fn media(key: &str, kind: Option<&str>, url: Option<&str>, preview: Option<&str>) -> MediaPayload {
    MediaPayload {
        media_key: Some(key.to_string()),
        kind: kind.map(|s| s.to_string()),
        url: url.map(|s| s.to_string()),
        preview_image_url: preview.map(|s| s.to_string()),
    }
}

fn store_with_tweet(id: &str) -> Store {
    let mut store = Store::new();
    let user = UserPayload {
        id: Some("7".to_string()),
        name: Some("n".to_string()),
        username: Some("h".to_string()),
        url: Some("u".to_string()),
        profile_image_url: None,
        followers_count: None,
        following_count: None,
        listed_count: None,
        tweet_count: None,
    };
    assert_eq!(store_user(&mut store, &user), Ok(()));
    let tweet = plain_tweet(id);
    let includes = Includes { users: None, tweets: None, media: None };
    assert_eq!(store_tweet(&mut store, &tweet, &includes, TweetClass::Normal), Ok(()));
    store
}

fn plain_tweet(id: &str) -> TweetPayload {
    TweetPayload {
        id: Some(id.to_string()),
        author_id: Some("7".to_string()),
        created_at: Some("2021-06-10T12:00:00Z".to_string()),
        text: Some("t".to_string()),
        referenced_tweets: References::Absent,
        public_metrics: PublicMetrics {
            like_count: Some(0),
            quote_count: Some(0),
            reply_count: Some(0),
            retweet_count: Some(0),
        },
        media_keys: None,
    }
}

#[test]
fn the_display_address_prefers_the_object_s_own() {
    let both = media("k", None, Some("own"), Some("preview"));
    assert_eq!(build_display_url(&both), Some(&"own".to_string()));
    let preview = media("k", None, None, Some("preview"));
    assert_eq!(build_display_url(&preview), Some(&"preview".to_string()));
    assert_eq!(build_display_url(&media("k", None, None, None)), None);
}

#[test]
fn a_key_without_a_catalog_object_gives_a_stub() {
    let object = media("other", Some("photo"), Some("u"), Some("p"));
    let full = prep_final_media_obj(Some(&object), &"3_1".to_string());
    assert_eq!(full.media_key, Some("3_1".to_string()));
    assert_eq!(full.kind, Some("photo".to_string()));
    assert_eq!(full.url, Some("u".to_string()));
    assert_eq!(full.preview_image_url, Some("p".to_string()));
    let stub = prep_final_media_obj(None, &"3_1".to_string());
    assert_eq!(stub.media_key, Some("3_1".to_string()));
    assert_eq!((stub.kind, stub.url, stub.preview_image_url), (None, None, None));
}

#[test]
fn the_catalog_is_searched_from_the_front() {
    let catalog = vec![
        media("a", Some("photo"), None, None),
        media("b", Some("first"), None, None),
        media("b", Some("second"), None, None),
    ];
    assert_eq!(find_in_catalog(&catalog, "b"), Some(1));
    assert_eq!(find_in_catalog(&catalog, "c"), None);
    let objects =
        collect_media_objects(&vec![Some("b".to_string()), Some("c".to_string())], &catalog)
            .unwrap();
    assert_eq!(objects.len(), 2);
    assert_eq!(objects[0].kind, Some("first".to_string()));
    assert_eq!(objects[1].media_key, Some("c".to_string()));
    assert_eq!(objects[1].kind, None);
}

#[test]
fn keys_and_catalog_objects_need_their_key() {
    let catalog = vec![media("a", None, None, None)];
    assert_eq!(
        collect_media_objects(&vec![Some("a".to_string()), None], &catalog).err(),
        Some(ApiError::PermanentUpstream(Malformed::NoMediaKey))
    );
    let mut keyless = media("a", None, None, None);
    keyless.media_key = None;
    assert_eq!(
        collect_media_objects(&vec![Some("a".to_string())], &vec![keyless]).err(),
        Some(ApiError::PermanentUpstream(Malformed::NoMediaKey))
    );
    let mut keyless = media("a", None, None, None);
    keyless.media_key = None;
    assert_eq!(collect_media_objects(&vec![], &vec![keyless]).unwrap().len(), 0);
}

#[test]
fn storing_media_twice_keeps_one_row_with_the_latest_fields() {
    let mut store = store_with_tweet("1");
    let parent = fetch_tweet(&store, "1").unwrap();
    let stub = media("3_1", None, None, None);
    assert_eq!(store_media(&mut store, &parent, &stub), Ok(()));
    assert_eq!(store_media(&mut store, &parent, &stub), Ok(()));
    assert_eq!(store.media.len(), 1);
    let first = fetch_media(&store, "3_1").unwrap();
    assert_eq!(first.display_url, None);
    let full = media("3_1", Some("photo"), Some("https://example.org/a.jpg"), None);
    assert_eq!(store_media(&mut store, &parent, &full), Ok(()));
    assert_eq!(store.media.len(), 1);
    let row = fetch_media(&store, "3_1").unwrap();
    assert_eq!(row.media_type, Some("photo".to_string()));
    assert_eq!(row.display_url, Some("https://example.org/a.jpg".to_string()));
    assert_eq!(row.id, first.id);
    assert_eq!(row.tweet_id, parent.id);
}

#[test]
fn a_known_key_keeps_its_parent() {
    let mut store = store_with_tweet("1");
    assert_eq!(
        store_tweet(
            &mut store,
            &plain_tweet("2"),
            &Includes { users: None, tweets: None, media: None },
            TweetClass::Normal
        ),
        Ok(())
    );
    let one = fetch_tweet(&store, "1").unwrap();
    let two = fetch_tweet(&store, "2").unwrap();
    assert_eq!(store_media(&mut store, &one, &media("k", None, None, None)), Ok(()));
    assert_eq!(store_media(&mut store, &two, &media("k", Some("gif"), None, None)), Ok(()));
    let row = fetch_media(&store, "k").unwrap();
    assert_eq!(row.tweet_id, one.id);
    assert_eq!(row.media_type, Some("gif".to_string()));
    assert_eq!(fetch_all_media_for_tweet(&store, two.id).len(), 0);
}

#[test]
fn media_need_their_parent_tweet() {
    let mut store = store_with_tweet("1");
    let mut orphan = fetch_tweet(&store, "1").unwrap();
    orphan.id = orphan.id.wrapping_add(1);
    assert_eq!(
        store_media(&mut store, &orphan, &media("k", None, None, None)),
        Err(ApiError::OrderingViolation)
    );
    assert_eq!(
        store_all_media(&mut store, "2", vec![media("k", None, None, None)]),
        Err(ApiError::OrderingViolation)
    );
    assert_eq!(store_all_media(&mut store, "2", vec![]), Err(ApiError::OrderingViolation));
    assert_eq!(store.media.len(), 0);
    let mut keyless = media("k", None, None, None);
    keyless.media_key = None;
    let parent = fetch_tweet(&store, "1").unwrap();
    assert_eq!(
        store_media(&mut store, &parent, &keyless),
        Err(ApiError::PermanentUpstream(Malformed::NoMediaKey))
    );
}

#[test]
fn a_taken_media_id_is_a_storage_failure() {
    let mut store = store_with_tweet("1");
    let parent = fetch_tweet(&store, "1").unwrap();
    let stamp = Stamp { id: 11, at: 5 };
    assert_eq!(store_media_with(&mut store, &parent, &media("a", None, None, None), stamp), Ok(()));
    assert_eq!(
        store_media_with(&mut store, &parent, &media("b", None, None, None), stamp),
        Err(ApiError::StorageFailure)
    );
    let row = fetch_media(&store, "a").unwrap();
    assert_eq!((row.id, row.created_at), (11, 5));
}

#[test]
fn the_first_failing_object_ends_the_call() {
    let mut store = store_with_tweet("1");
    let mut keyless = media("x", None, None, None);
    keyless.media_key = None;
    let objects = vec![media("a", None, None, None), keyless, media("b", None, None, None)];
    assert_eq!(
        store_all_media(&mut store, "1", objects),
        Err(ApiError::PermanentUpstream(Malformed::NoMediaKey))
    );
    assert_eq!(store.media.len(), 1);
    assert_eq!(store.media[0].media_key, "a");
}

#[test]
fn keys_without_a_catalog_are_stored_alone() {
    let mut store = store_with_tweet("1");
    let parent = fetch_tweet(&store, "1").unwrap();
    let mut tweet = plain_tweet("1");
    tweet.media_keys = Some(vec![Some("a".to_string()), Some("b".to_string())]);
    let without = Includes { users: None, tweets: None, media: None };
    assert_eq!(handle_media_for_tweet(&mut store, &tweet, &without), Ok(()));
    assert_eq!(store.media.len(), 2);
    for key in ["a", "b"] {
        let row = fetch_media(&store, key).unwrap();
        assert_eq!(row.tweet_id, parent.id);
        assert_eq!((row.media_type, row.display_url), (None, None));
    }
    let with_catalog = Includes {
        users: None,
        tweets: None,
        media: Some(vec![media("a", Some("photo"), Some("u"), None)]),
    };
    assert_eq!(handle_media_for_tweet(&mut store, &tweet, &with_catalog), Ok(()));
    assert_eq!(store.media.len(), 2);
    assert_eq!(fetch_media(&store, "a").unwrap().display_url, Some("u".to_string()));
    assert_eq!(fetch_media(&store, "b").unwrap().display_url, None);
    tweet.media_keys = Some(vec![None]);
    assert_eq!(
        handle_media_for_tweet(&mut store, &tweet, &without),
        Err(ApiError::PermanentUpstream(Malformed::NoMediaKey))
    );
}

#[test]
fn media_are_handled_only_for_a_tweet_with_keys_and_a_row() {
    let mut store = store_with_tweet("1");
    let mut tweet = plain_tweet("1");
    let with_catalog = Includes {
        users: None,
        tweets: None,
        media: Some(vec![media("a", Some("photo"), Some("u"), None)]),
    };
    assert_eq!(handle_media_for_tweet(&mut store, &tweet, &with_catalog), Ok(()));
    assert_eq!(store.media.len(), 0);
    tweet.media_keys = Some(vec![]);
    assert_eq!(handle_media_for_tweet(&mut store, &tweet, &with_catalog), Ok(()));
    assert_eq!(store.media.len(), 0);
    tweet.media_keys = Some(vec![Some("a".to_string())]);
    assert_eq!(handle_media_for_tweet(&mut store, &tweet, &with_catalog), Ok(()));
    assert_eq!(store.media.len(), 1);
    tweet.id = None;
    assert_eq!(
        handle_media_for_tweet(&mut store, &tweet, &with_catalog),
        Err(ApiError::PermanentUpstream(Malformed::NoTweetId))
    );
    tweet.id = Some("99".to_string());
    assert_eq!(
        handle_media_for_tweet(&mut store, &tweet, &with_catalog),
        Err(ApiError::OrderingViolation)
    );
}

#[test]
fn an_update_touches_the_row_under_the_key_only() {
    let mut store = store_with_tweet("1");
    let parent = fetch_tweet(&store, "1").unwrap();
    assert_eq!(store_media(&mut store, &parent, &media("a", None, None, None)), Ok(()));
    assert_eq!(store_media(&mut store, &parent, &media("b", Some("gif"), Some("u"), None)), Ok(()));
    let address = "https://example.org/a.png".to_string();
    assert_eq!(update_media(&mut store, &media("a", Some("photo"), None, None), Some(&address)), Ok(()));
    let a = fetch_media(&store, "a").unwrap();
    assert_eq!((a.media_type, a.display_url), (Some("photo".to_string()), Some(address)));
    let b = fetch_media(&store, "b").unwrap();
    assert_eq!((b.media_type, b.display_url), (Some("gif".to_string()), Some("u".to_string())));
    assert_eq!(update_media(&mut store, &media("c", Some("photo"), None, None), None), Ok(()));
    assert_eq!(update_media(&mut store, &media("a", None, None, None), None), Ok(()));
    assert_eq!(store.media.len(), 2);
    let a = fetch_media(&store, "a").unwrap();
    assert_eq!((a.media_type, a.display_url), (None, None));
}
