use vstd::prelude::*;
use crate::twitter::model::payload::UserPayload;
use crate::twitter::model::store::{
    lemma_position_absent, lemma_position_found, first_at, position, Outcome, Stamp, Store,
    StoreView, User, UserView,
};
use crate::utils::errors::{ApiError, Malformed};
use crate::utils::outside::{new_row_id, now_micros};
use crate::utils::text::{clone_opt, opt_text, same_text};

verus! {

impl StoreView {
    /// Position of the user with the given external id.
    pub open spec fn user_at(self, key: Seq<char>) -> Option<int> {
        position(self.user_keys(), key)
    }

    /// Position of the user with the given surrogate id.
    pub open spec fn user_by_id(self, id: u128) -> Option<int> {
        position(self.user_ids(), id)
    }
}

/// The row that a user object describes, or the field it lacks.
pub open spec fn user_row(p: UserPayload, stamp: Stamp) -> Result<UserView, ApiError> {
    if p.id is None {
        Err(ApiError::PermanentUpstream(Malformed::NoUserId))
    } else if p.name is None {
        Err(ApiError::PermanentUpstream(Malformed::NoName))
    } else if p.username is None {
        Err(ApiError::PermanentUpstream(Malformed::NoUsername))
    } else if p.url is None {
        Err(ApiError::PermanentUpstream(Malformed::NoUrl))
    } else {
        Ok(
            UserView {
                id: stamp.id,
                created_at: stamp.at,
                twitter_user_id: p.id->0@,
                twitter_name: p.name->0@,
                twitter_handle: p.username->0@,
                profile_url: p.url->0@,
                profile_image: opt_text(p.profile_image_url),
                followers_count: p.followers_count,
                following_count: p.following_count,
                listed_count: p.listed_count,
                tweet_count: p.tweet_count,
            },
        )
    }
}

/// Upsert of a user by external id. A known user keeps its surrogate id
/// and creation time and takes every other field from the payload; an
/// unknown one is appended, unless its surrogate id is taken.
pub open spec fn store_user_spec(s: StoreView, p: UserPayload, stamp: Stamp) -> Outcome {
    match user_row(p, stamp) {
        Err(e) => Outcome { state: s, result: Err(e) },
        Ok(row) => match s.user_at(row.twitter_user_id) {
            Some(i) => Outcome {
                state: StoreView {
                    users: s.users.update(
                        i,
                        UserView { id: s.users[i].id, created_at: s.users[i].created_at, ..row },
                    ),
                    ..s
                },
                result: Ok(()),
            },
            None => if s.user_by_id(stamp.id) is Some {
                Outcome { state: s, result: Err(ApiError::StorageFailure) }
            } else {
                Outcome { state: StoreView { users: s.users.push(row), ..s }, result: Ok(()) }
            },
        },
    }
}

/// Position of the user row with the given external id.
pub fn find_user(store: &Store, user_id: &str) -> (r: Option<usize>)
    ensures
        match r {
            Some(i) => store@.user_at(user_id@) == Some(i as int),
            None => store@.user_at(user_id@) is None,
        },
{
    let mut i: usize = 0;
    while i < store.users.len()
        invariant
            i <= store.users.len(),
            forall|j: int| 0 <= j < i ==> store@.user_keys()[j] != user_id@,
        decreases store.users.len() - i,
    {
        if same_text(store.users[i].twitter_user_id.as_str(), user_id) {
            proof {
                assert(first_at(store@.user_keys(), user_id@, i as int));
                lemma_position_found(store@.user_keys(), user_id@, i as int);
            }
            return Some(i);
        }
        i += 1;
    }
    proof {
        lemma_position_absent(store@.user_keys(), user_id@);
    }
    None
}

/// Position of the user row with the given surrogate id.
pub fn find_user_by_uuid(store: &Store, id: u128) -> (r: Option<usize>)
    ensures
        match r {
            Some(i) => store@.user_by_id(id) == Some(i as int),
            None => store@.user_by_id(id) is None,
        },
{
    let mut i: usize = 0;
    while i < store.users.len()
        invariant
            i <= store.users.len(),
            forall|j: int| 0 <= j < i ==> store@.user_ids()[j] != id,
        decreases store.users.len() - i,
    {
        if store.users[i].id == id {
            proof {
                assert(first_at(store@.user_ids(), id, i as int));
                lemma_position_found(store@.user_ids(), id, i as int);
            }
            return Some(i);
        }
        i += 1;
    }
    proof {
        lemma_position_absent(store@.user_ids(), id);
    }
    None
}

/// The user with the given external id; `StorageFailure` where no row has it.
pub fn fetch_user(store: &Store, user_id: &str) -> (r: Result<User, ApiError>)
    ensures
        match store@.user_at(user_id@) {
            Some(i) => r is Ok && r->Ok_0@ == store@.users[i],
            None => r == Err::<User, ApiError>(ApiError::StorageFailure),
        },
{
    match find_user(store, user_id) {
        Some(i) => Ok(store.users[i].clone()),
        None => Err(ApiError::StorageFailure),
    }
}

/// The user with the given surrogate id; `StorageFailure` where no row has it.
pub fn fetch_user_by_uuid(store: &Store, id: u128) -> (r: Result<User, ApiError>)
    ensures
        match store@.user_by_id(id) {
            Some(i) => r is Ok && r->Ok_0@ == store@.users[i],
            None => r == Err::<User, ApiError>(ApiError::StorageFailure),
        },
{
    match find_user_by_uuid(store, id) {
        Some(i) => Ok(store.users[i].clone()),
        None => Err(ApiError::StorageFailure),
    }
}

/// Validates a user object and builds its row.
pub fn build_user(user: &UserPayload, stamp: Stamp) -> (r: Result<User, ApiError>)
    ensures
        match user_row(*user, stamp) {
            Ok(row) => r is Ok && r->Ok_0@ == row,
            Err(e) => r == Err::<User, ApiError>(e),
        },
{
    let id = match &user.id {
        Some(s) => s.clone(),
        None => { return Err(ApiError::PermanentUpstream(Malformed::NoUserId)); },
    };
    let name = match &user.name {
        Some(s) => s.clone(),
        None => { return Err(ApiError::PermanentUpstream(Malformed::NoName)); },
    };
    let handle = match &user.username {
        Some(s) => s.clone(),
        None => { return Err(ApiError::PermanentUpstream(Malformed::NoUsername)); },
    };
    let url = match &user.url {
        Some(s) => s.clone(),
        None => { return Err(ApiError::PermanentUpstream(Malformed::NoUrl)); },
    };
    Ok(
        User {
            id: stamp.id,
            created_at: stamp.at,
            twitter_user_id: id,
            twitter_name: name,
            twitter_handle: handle,
            profile_url: url,
            profile_image: clone_opt(&user.profile_image_url),
            followers_count: user.followers_count,
            following_count: user.following_count,
            listed_count: user.listed_count,
            tweet_count: user.tweet_count,
        },
    )
}

/// Stores a user under a given stamp, which is used only if the user is new.
pub fn store_user_with(store: &mut Store, user: &UserPayload, stamp: Stamp) -> (r: Result<
    (),
    ApiError,
>)
    ensures
        (Outcome { state: final(store)@, result: r }) == store_user_spec(
            old(store)@,
            *user,
            stamp,
        ),
        old(store).wf() ==> final(store).wf(),
{
    let mut row = build_user(user, stamp)?;
    match find_user(store, row.twitter_user_id.as_str()) {
        Some(i) => {
            row.id = store.users[i].id;
            row.created_at = store.users[i].created_at;
            store.users.set(i, row);
            proof {
                let s = old(store)@;
                let expected = store_user_spec(s, *user, stamp).state;
                assert(final(store)@.users =~= expected.users);
                assert(final(store)@.tweets =~= s.tweets);
                assert(final(store)@.media =~= s.media);
                assert(final(store)@.user_keys() =~= s.user_keys());
                assert(final(store)@.user_ids() =~= s.user_ids());
                assert(final(store)@.tweet_keys() =~= s.tweet_keys());
                assert(final(store)@.tweet_ids() =~= s.tweet_ids());
                assert(final(store)@.media_keys() =~= s.media_keys());
                assert(final(store)@.media_ids() =~= s.media_ids());
            }
            Ok(())
        },
        None => {
            if find_user_by_uuid(store, stamp.id).is_some() {
                return Err(ApiError::StorageFailure);
            }
            store.users.push(row);
            proof {
                let s = old(store)@;
                let expected = store_user_spec(s, *user, stamp).state;
                assert(final(store)@.users =~= expected.users);
                assert(final(store)@.tweets =~= s.tweets);
                assert(final(store)@.media =~= s.media);
                lemma_push_user_wf(s, expected.users.last());
            }
            Ok(())
        },
    }
}

/// Appending a user whose two keys are new keeps the store well formed.
pub proof fn lemma_push_user_wf(s: StoreView, row: UserView)
    requires
        s.user_at(row.twitter_user_id) is None,
        s.user_by_id(row.id) is None,
    ensures
        s.wf() ==> (StoreView { users: s.users.push(row), ..s }).wf(),
{
    let t = StoreView { users: s.users.push(row), ..s };
    crate::twitter::model::store::lemma_position(s.user_keys(), row.twitter_user_id);
    crate::twitter::model::store::lemma_position(s.user_ids(), row.id);
    if s.wf() {
        assert(t.user_keys() =~= s.user_keys().push(row.twitter_user_id));
        assert(t.user_ids() =~= s.user_ids().push(row.id));
        assert(t.tweet_keys() =~= s.tweet_keys());
        assert(t.tweet_ids() =~= s.tweet_ids());
        assert(t.media_keys() =~= s.media_keys());
        assert(t.media_ids() =~= s.media_ids());
        assert forall|i: int| 0 <= i < t.tweets.len() implies t.user_ids().contains(
            #[trigger] t.tweets[i].user_id,
        ) by {
            assert(s.user_ids().contains(s.tweets[i].user_id));
            let j = choose|j: int| 0 <= j < s.user_ids().len() && s.user_ids()[j] == s.tweets[i].user_id;
            assert(t.user_ids()[j] == s.tweets[i].user_id);
        }
    }
}

/// Stores a user: a known external id has its row refreshed, an unknown
/// one gets a row with a fresh surrogate id and the current time.
pub fn store_user(store: &mut Store, user: &UserPayload) -> (r: Result<(), ApiError>)
    ensures
        exists|stamp: Stamp|
            (Outcome { state: final(store)@, result: r }) == #[trigger] store_user_spec(
                old(store)@,
                *user,
                stamp,
            ),
        old(store).wf() ==> final(store).wf(),
{
    let stamp = Stamp { id: new_row_id(), at: now_micros() };
    store_user_with(store, user, stamp)
}

} // verus!
