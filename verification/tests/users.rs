use backend::twitter::model::payload::UserPayload;
use backend::twitter::model::store::Store;
use backend::twitter::model::user::{fetch_user, fetch_user_by_uuid, store_user};
use backend::utils::errors::{ApiError, Malformed};

fn user(id: &str, name: &str) -> UserPayload {
    UserPayload {
        id: Some(id.to_string()),
        name: Some(name.to_string()),
        username: Some(format!("{}_handle", name)),
        url: Some(format!("https://example.org/{}", name)),
        profile_image_url: None,
        followers_count: Some(10),
        following_count: Some(20),
        listed_count: None,
        tweet_count: Some(3),
    }
}

#[test]
fn storing_a_user_twice_keeps_one_row_with_the_latest_fields() {
    let mut store = Store::new();
    assert_eq!(store_user(&mut store, &user("42", "ann")), Ok(()));
    let first = fetch_user(&store, "42").unwrap();
    let mut again = user("42", "anna");
    again.followers_count = Some(11);
    assert_eq!(store_user(&mut store, &again), Ok(()));
    assert_eq!(store.users.len(), 1);
    let row = fetch_user(&store, "42").unwrap();
    assert_eq!(row.twitter_name, "anna");
    assert_eq!(row.followers_count, Some(11));
    assert_eq!(row.id, first.id);
    assert_eq!(row.created_at, first.created_at);
}

#[test]
fn a_user_without_an_id_is_malformed() {
    let mut store = Store::new();
    let mut p = user("1", "bob");
    p.id = None;
    assert_eq!(store_user(&mut store, &p), Err(ApiError::PermanentUpstream(Malformed::NoUserId)));
    assert_eq!(store.users.len(), 0);
}

#[test]
fn rows_kept_elsewhere_are_checked_before_they_make_a_store() {
    let mut store = Store::new();
    assert_eq!(store_user(&mut store, &user("1", "ann")), Ok(()));
    assert_eq!(store_user(&mut store, &user("2", "bob")), Ok(()));
    let users = store.users.clone();
    let loaded = Store::from_rows(users.clone(), Vec::new(), Vec::new()).ok().unwrap();
    assert_eq!(loaded.users.len(), 2);
    assert_eq!(loaded.users[1].twitter_user_id, "2");
    let mut twice = users.clone();
    twice.push(users[0].clone());
    assert_eq!(
        Store::from_rows(twice, Vec::new(), Vec::new()).err(),
        Some(ApiError::StorageFailure)
    );
    let mut same_id = users.clone();
    same_id[1].id = same_id[0].id;
    assert_eq!(
        Store::from_rows(same_id, Vec::new(), Vec::new()).err(),
        Some(ApiError::StorageFailure)
    );
}

#[test]
fn each_missing_field_of_a_user_is_named() {
    let mut store = Store::new();
    let mut p = user("1", "bob");
    p.name = None;
    p.username = None;
    assert_eq!(store_user(&mut store, &p), Err(ApiError::PermanentUpstream(Malformed::NoName)));
    let mut p = user("1", "bob");
    p.username = None;
    p.url = None;
    assert_eq!(store_user(&mut store, &p), Err(ApiError::PermanentUpstream(Malformed::NoUsername)));
    let mut p = user("1", "bob");
    p.url = None;
    assert_eq!(store_user(&mut store, &p), Err(ApiError::PermanentUpstream(Malformed::NoUrl)));
    assert_eq!(store.users.len(), 0);
    let mut p = user("1", "bob");
    p.profile_image_url = None;
    p.followers_count = None;
    assert_eq!(store_user(&mut store, &p), Ok(()));
    assert_eq!(fetch_user(&store, "1").unwrap().followers_count, None);
    assert_eq!(fetch_user(&store, "2").err(), Some(ApiError::StorageFailure));
    let id = fetch_user(&store, "1").unwrap().id;
    assert_eq!(fetch_user_by_uuid(&store, id).unwrap().twitter_user_id, "1");
    assert_eq!(fetch_user_by_uuid(&store, id.wrapping_add(1)).err(), Some(ApiError::StorageFailure));
}
