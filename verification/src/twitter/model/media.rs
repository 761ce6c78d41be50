use vstd::prelude::*;
use crate::twitter::model::payload::{Includes, MediaPayload, TweetPayload};
use crate::twitter::model::store::{
    lemma_position, lemma_position_absent, lemma_position_found, lemma_run_agree,
    lemma_run_stuck, first_at, position, run, Media, MediaView, Outcome, Stamp, Store, StoreView,
    Tweet,
};
use crate::twitter::model::tweet::{fetch_tweet, find_tweet_by_uuid};
use crate::utils::errors::{ApiError, Malformed};
use crate::utils::outside::{new_row_id, now_micros};
use crate::utils::text::{clone_opt, opt_text, same_text};

verus! {

impl StoreView {
    /// Position of the media row with the given key.
    pub open spec fn media_at(self, key: Seq<char>) -> Option<int> {
        position(self.media_keys(), key)
    }

    /// Position of the media row with the given surrogate id.
    pub open spec fn media_by_id(self, id: u128) -> Option<int> {
        position(self.media_ids(), id)
    }

    /// The media rows of the tweet with surrogate id `tweet`, in row order.
    pub open spec fn media_of(self, tweet: u128) -> Seq<MediaView> {
        self.media.filter(|m: MediaView| m.tweet_id == tweet)
    }
}

/// The address under which a media object is shown: its own, else that of
/// its preview.
pub open spec fn display_url_of(m: MediaPayload) -> Option<String> {
    if m.url is Some {
        m.url
    } else {
        m.preview_image_url
    }
}

/// Upsert of one media object under a parent tweet. A known key has its
/// type and address replaced and keeps its parent. An unknown key is
/// appended under the parent, which must have a row.
pub open spec fn store_media_spec(
    s: StoreView,
    parent: u128,
    m: MediaPayload,
    stamp: Stamp,
) -> Outcome {
    match m.media_key {
        None => Outcome {
            state: s,
            result: Err(ApiError::PermanentUpstream(Malformed::NoMediaKey)),
        },
        Some(key) => match s.media_at(key@) {
            Some(i) => Outcome {
                state: StoreView {
                    media: s.media.update(
                        i,
                        MediaView {
                            media_type: opt_text(m.kind),
                            display_url: opt_text(display_url_of(m)),
                            ..s.media[i]
                        },
                    ),
                    ..s
                },
                result: Ok(()),
            },
            None => if s.tweet_by_id(parent) is None {
                Outcome { state: s, result: Err(ApiError::OrderingViolation) }
            } else if s.media_by_id(stamp.id) is Some {
                Outcome { state: s, result: Err(ApiError::StorageFailure) }
            } else {
                Outcome {
                    state: StoreView {
                        media: s.media.push(
                            MediaView {
                                id: stamp.id,
                                created_at: stamp.at,
                                media_key: key@,
                                media_type: opt_text(m.kind),
                                display_url: opt_text(display_url_of(m)),
                                tweet_id: parent,
                            },
                        ),
                        ..s
                    },
                    result: Ok(()),
                }
            },
        },
    }
}

/// `store_media_spec` under a fixed parent, as a step of `run`.
pub open spec fn media_step(parent: u128) -> spec_fn(StoreView, MediaPayload, Stamp) -> Outcome {
    |st: StoreView, m: MediaPayload, d: Stamp| store_media_spec(st, parent, m, d)
}

/// Media objects stored in order under the tweet with external id
/// `tweet_id`, which must have a row.
pub open spec fn store_all_media_spec(
    s: StoreView,
    tweet_id: Seq<char>,
    objects: Seq<MediaPayload>,
    stamps: Seq<Stamp>,
) -> Outcome {
    match s.tweet_at(tweet_id) {
        None => Outcome { state: s, result: Err(ApiError::OrderingViolation) },
        Some(p) => run(
            media_step(s.tweets[p].id),
            s,
            objects,
            stamps,
            objects.len(),
        ),
    }
}

/// Keys of a catalog, one per object.
pub open spec fn catalog_keys(catalog: Seq<MediaPayload>) -> Seq<Option<Seq<char>>> {
    Seq::new(catalog.len(), |i: int| opt_text(catalog[i].media_key))
}

/// What is stored for a key: the catalog's object under that key, or the
/// key alone.
pub open spec fn final_media_obj(relevant: Option<MediaPayload>, key: String) -> MediaPayload {
    match relevant {
        Some(o) => MediaPayload {
            media_key: Some(key),
            kind: o.kind,
            url: o.url,
            preview_image_url: o.preview_image_url,
        },
        None => MediaPayload { media_key: Some(key), kind: None, url: None, preview_image_url: None },
    }
}

/// The catalog's first object under `key`.
pub open spec fn relevant_object(catalog: Seq<MediaPayload>, key: Seq<char>) -> Option<
    MediaPayload,
> {
    match position(catalog_keys(catalog), Some(key)) {
        Some(c) => Some(catalog[c]),
        None => None,
    }
}

/// One object per key of a tweet, matched against the batch's catalog. A
/// key that is no string, or a catalog object without a key, is malformed.
pub open spec fn final_media_objects(
    keys: Seq<Option<String>>,
    catalog: Seq<MediaPayload>,
) -> Result<Seq<MediaPayload>, ApiError> {
    if (exists|k: int| 0 <= k < keys.len() && keys[k] is None) || (keys.len() > 0 && exists|c: int|
        0 <= c < catalog.len() && catalog[c].media_key is None) {
        Err(ApiError::PermanentUpstream(Malformed::NoMediaKey))
    } else {
        Ok(
            Seq::new(
                keys.len(),
                |k: int| final_media_obj(relevant_object(catalog, keys[k]->0@), keys[k]->0),
            ),
        )
    }
}

/// The catalog of a batch; a batch without one has an empty catalog.
pub open spec fn catalog_of(includes: Includes) -> Seq<MediaPayload> {
    match includes.media {
        Some(catalog) => catalog@,
        None => Seq::empty(),
    }
}

/// Media of a tweet stored from its keys and the batch's catalog. A key
/// that the catalog lacks, and every key where the batch has no catalog,
/// is stored alone. Nothing happens where the tweet has no keys.
pub open spec fn handle_media_spec(
    s: StoreView,
    tweet: TweetPayload,
    includes: Includes,
    stamps: Seq<Stamp>,
) -> Outcome {
    if tweet.media_keys is Some {
        match final_media_objects(tweet.media_keys->0@, catalog_of(includes)) {
            Err(e) => Outcome { state: s, result: Err(e) },
            Ok(objects) => match tweet.id {
                None => Outcome {
                    state: s,
                    result: Err(ApiError::PermanentUpstream(Malformed::NoTweetId)),
                },
                Some(id) => store_all_media_spec(s, id@, objects, stamps),
            },
        }
    } else {
        Outcome { state: s, result: Ok(()) }
    }
}

/// Position of the media row with the given key.
pub fn find_media(store: &Store, media_key: &str) -> (r: Option<usize>)
    ensures
        match r {
            Some(i) => store@.media_at(media_key@) == Some(i as int),
            None => store@.media_at(media_key@) is None,
        },
{
    let mut i: usize = 0;
    while i < store.media.len()
        invariant
            i <= store.media.len(),
            forall|j: int| 0 <= j < i ==> store@.media_keys()[j] != media_key@,
        decreases store.media.len() - i,
    {
        if same_text(store.media[i].media_key.as_str(), media_key) {
            proof {
                assert(first_at(store@.media_keys(), media_key@, i as int));
                lemma_position_found(store@.media_keys(), media_key@, i as int);
            }
            return Some(i);
        }
        i += 1;
    }
    proof {
        lemma_position_absent(store@.media_keys(), media_key@);
    }
    None
}

/// Position of the media row with the given surrogate id.
pub fn find_media_by_uuid(store: &Store, id: u128) -> (r: Option<usize>)
    ensures
        match r {
            Some(i) => store@.media_by_id(id) == Some(i as int),
            None => store@.media_by_id(id) is None,
        },
{
    let mut i: usize = 0;
    while i < store.media.len()
        invariant
            i <= store.media.len(),
            forall|j: int| 0 <= j < i ==> store@.media_ids()[j] != id,
        decreases store.media.len() - i,
    {
        if store.media[i].id == id {
            proof {
                assert(first_at(store@.media_ids(), id, i as int));
                lemma_position_found(store@.media_ids(), id, i as int);
            }
            return Some(i);
        }
        i += 1;
    }
    proof {
        lemma_position_absent(store@.media_ids(), id);
    }
    None
}

/// The media row with the given key; `StorageFailure` where no row has it.
pub fn fetch_media(store: &Store, media_key: &str) -> (r: Result<Media, ApiError>)
    ensures
        match store@.media_at(media_key@) {
            Some(i) => r is Ok && r->Ok_0@ == store@.media[i],
            None => r == Err::<Media, ApiError>(ApiError::StorageFailure),
        },
{
    match find_media(store, media_key) {
        Some(i) => Ok(store.media[i].clone()),
        None => Err(ApiError::StorageFailure),
    }
}

/// Views of media rows.
pub open spec fn media_views(rows: Seq<Media>) -> Seq<MediaView> {
    Seq::new(rows.len(), |i: int| rows[i]@)
}

/// Every media row of a tweet, in row order; empty where it has none.
pub fn fetch_all_media_for_tweet(store: &Store, tweet_id: u128) -> (r: Vec<Media>)
    ensures
        media_views(r@) == store@.media_of(tweet_id),
{
    let mut out: Vec<Media> = Vec::new();
    let mut i: usize = 0;
    let ghost keep = |m: MediaView| m.tweet_id == tweet_id;
    proof {
        assert(store@.media.take(0) =~= Seq::empty());
        assert(media_views(out@) =~= store@.media.take(0).filter(keep));
    }
    while i < store.media.len()
        invariant
            i <= store.media.len(),
            keep == |m: MediaView| m.tweet_id == tweet_id,
            media_views(out@) == store@.media.take(i as int).filter(keep),
        decreases store.media.len() - i,
    {
        let ghost before = store@.media.take(i as int);
        proof {
            assert(store@.media.take(i + 1) =~= before.push(store@.media[i as int]));
            lemma_filter_push(before, store@.media[i as int], keep);
        }
        if store.media[i].tweet_id == tweet_id {
            out.push(store.media[i].clone());
            proof {
                assert(media_views(out@) =~= before.filter(keep).push(store@.media[i as int]));
            }
        }
        i += 1;
    }
    proof {
        assert(store@.media.take(i as int) =~= store@.media);
    }
    out
}

/// Filtering after appending one element.
pub proof fn lemma_filter_push<A>(s: Seq<A>, a: A, keep: spec_fn(A) -> bool)
    ensures
        s.push(a).filter(keep) == if keep(a) {
            s.filter(keep).push(a)
        } else {
            s.filter(keep)
        },
{
    reveal(Seq::filter);
    assert(s.push(a).drop_last() =~= s);
}

/// The address under which a media object is shown.
pub fn build_display_url(media_object: &MediaPayload) -> (r: Option<&String>)
    ensures
        match display_url_of(*media_object) {
            Some(u) => r == Some(&u),
            None => r is None,
        },
{
    match &media_object.url {
        Some(u) => Some(u),
        None => match &media_object.preview_image_url {
            Some(p) => Some(p),
            None => None,
        },
    }
}

/// What is stored for a key, given the catalog's object under it, if any.
pub fn prep_final_media_obj(relevant_object: Option<&MediaPayload>, mk: &String) -> (r:
    MediaPayload)
    ensures
        r == final_media_obj(
            match relevant_object {
                Some(o) => Some(*o),
                None => None,
            },
            *mk,
        ),
{
    match relevant_object {
        Some(o) => MediaPayload {
            media_key: Some(mk.clone()),
            kind: clone_opt(&o.kind),
            url: clone_opt(&o.url),
            preview_image_url: clone_opt(&o.preview_image_url),
        },
        None => MediaPayload {
            media_key: Some(mk.clone()),
            kind: None,
            url: None,
            preview_image_url: None,
        },
    }
}

/// Appending a media row whose two keys are new, under a parent that has
/// a row, keeps the store well formed.
pub proof fn lemma_push_media_wf(s: StoreView, row: MediaView)
    requires
        s.media_at(row.media_key) is None,
        s.media_by_id(row.id) is None,
        s.tweet_by_id(row.tweet_id) is Some,
    ensures
        s.wf() ==> (StoreView { media: s.media.push(row), ..s }).wf(),
{
    let t = StoreView { media: s.media.push(row), ..s };
    lemma_position(s.media_keys(), row.media_key);
    lemma_position(s.media_ids(), row.id);
    lemma_position(s.tweet_ids(), row.tweet_id);
    if s.wf() {
        assert(t.media_keys() =~= s.media_keys().push(row.media_key));
        assert(t.media_ids() =~= s.media_ids().push(row.id));
        assert(t.user_keys() =~= s.user_keys());
        assert(t.user_ids() =~= s.user_ids());
        assert(t.tweet_keys() =~= s.tweet_keys());
        assert(t.tweet_ids() =~= s.tweet_ids());
        assert forall|i: int| 0 <= i < t.media.len() implies t.tweet_ids().contains(
            #[trigger] t.media[i].tweet_id,
        ) by {
            if i < s.media.len() {
                assert(s.tweet_ids().contains(s.media[i].tweet_id));
            } else {
                let j = s.tweet_by_id(row.tweet_id)->0;
                assert(s.tweet_ids()[j] == row.tweet_id);
            }
        }
    }
}

/// The store after type and address of the row under the object's key
/// were replaced; the store itself where no row has the key.
pub open spec fn update_media_spec(
    s: StoreView,
    m: MediaPayload,
    display_url: Option<Seq<char>>,
) -> StoreView {
    match m.media_key {
        None => s,
        Some(key) => match s.media_at(key@) {
            None => s,
            Some(i) => StoreView {
                media: s.media.update(
                    i,
                    MediaView { media_type: opt_text(m.kind), display_url, ..s.media[i] },
                ),
                ..s
            },
        },
    }
}

/// Replaces type and address of the media row under the object's key. It
/// never fails: where no row has the key, nothing changes.
pub fn update_media(store: &mut Store, media_object: &MediaPayload, display_url: Option<&String>) -> (r:
    Result<(), ApiError>)
    ensures
        r == Ok::<(), ApiError>(()),
        final(store)@ == update_media_spec(
            old(store)@,
            *media_object,
            match display_url {
                Some(u) => Some(u@),
                None => None,
            },
        ),
        old(store).wf() ==> final(store).wf(),
{
    let key = match &media_object.media_key {
        Some(k) => k,
        None => { return Ok(()); },
    };
    let i = match find_media(store, key.as_str()) {
        Some(i) => i,
        None => { return Ok(()); },
    };
    let mut row = store.media[i].clone();
    row.media_type = clone_opt(&media_object.kind);
    row.display_url = match display_url {
        Some(u) => Some(u.clone()),
        None => None,
    };
    store.media.set(i, row);
    proof {
        let s = old(store)@;
        let expected = update_media_spec(
            s,
            *media_object,
            match display_url {
                Some(u) => Some(u@),
                None => None,
            },
        );
        assert(final(store)@.media =~= expected.media);
        assert(final(store)@.users =~= s.users);
        assert(final(store)@.tweets =~= s.tweets);
        assert(final(store)@.user_keys() =~= s.user_keys());
        assert(final(store)@.user_ids() =~= s.user_ids());
        assert(final(store)@.tweet_keys() =~= s.tweet_keys());
        assert(final(store)@.tweet_ids() =~= s.tweet_ids());
        assert(final(store)@.media_keys() =~= s.media_keys());
        assert(final(store)@.media_ids() =~= s.media_ids());
        if s.wf() {
            assert forall|j: int| 0 <= j < expected.media.len() implies s.tweet_ids().contains(
                #[trigger] expected.media[j].tweet_id,
            ) by {
                assert(s.tweet_ids().contains(s.media[j].tweet_id));
            }
        }
    }
    Ok(())
}

/// Stores a media object under a given stamp, which is used only if the
/// key is new.
pub fn store_media_with(
    store: &mut Store,
    parent_tweet: &Tweet,
    media_object: &MediaPayload,
    stamp: Stamp,
) -> (r: Result<(), ApiError>)
    ensures
        (Outcome { state: final(store)@, result: r }) == store_media_spec(
            old(store)@,
            parent_tweet.id,
            *media_object,
            stamp,
        ),
        old(store).wf() ==> final(store).wf(),
{
    let key = match &media_object.media_key {
        Some(k) => k,
        None => { return Err(ApiError::PermanentUpstream(Malformed::NoMediaKey)); },
    };
    match find_media(store, key.as_str()) {
        Some(_) => {
            let display_url = build_display_url(media_object);
            let r = update_media(store, media_object, display_url);
            proof {
                let shown: Option<Seq<char>> = match display_url {
                    Some(u) => Some(u@),
                    None => None,
                };
                assert(shown == opt_text(display_url_of(*media_object)));
            }
            r
        },
        None => {
            if find_tweet_by_uuid(store, parent_tweet.id).is_none() {
                return Err(ApiError::OrderingViolation);
            }
            if find_media_by_uuid(store, stamp.id).is_some() {
                return Err(ApiError::StorageFailure);
            }
            let row = Media {
                id: stamp.id,
                created_at: stamp.at,
                media_key: key.clone(),
                media_type: clone_opt(&media_object.kind),
                display_url: match build_display_url(media_object) {
                    Some(u) => Some(u.clone()),
                    None => None,
                },
                tweet_id: parent_tweet.id,
            };
            store.media.push(row);
            proof {
                let s = old(store)@;
                let expected = store_media_spec(s, parent_tweet.id, *media_object, stamp).state;
                assert(final(store)@.media =~= expected.media);
                assert(final(store)@.users =~= s.users);
                assert(final(store)@.tweets =~= s.tweets);
                lemma_push_media_wf(s, expected.media.last());
            }
            Ok(())
        },
    }
}

/// Stores a media object under a parent tweet: a known key has its type
/// and address replaced, an unknown one gets a row with a fresh surrogate
/// id and the current time.
pub fn store_media(store: &mut Store, parent_tweet: &Tweet, media_object: &MediaPayload) -> (r:
    Result<(), ApiError>)
    ensures
        exists|stamp: Stamp|
            (Outcome { state: final(store)@, result: r }) == #[trigger] store_media_spec(
                old(store)@,
                parent_tweet.id,
                *media_object,
                stamp,
            ),
        old(store).wf() ==> final(store).wf(),
{
    let stamp = Stamp { id: new_row_id(), at: now_micros() };
    store_media_with(store, parent_tweet, media_object, stamp)
}

/// `store_all_media`, with the stamps it drew.
pub(crate) fn store_all_media_traced(
    store: &mut Store,
    tweet_id: &str,
    media_objects: &Vec<MediaPayload>,
) -> (r: (Result<(), ApiError>, Ghost<Seq<Stamp>>))
    ensures
        (Outcome { state: final(store)@, result: r.0 }) == store_all_media_spec(
            old(store)@,
            tweet_id@,
            media_objects@,
            r.1@,
        ),
        old(store).wf() ==> final(store).wf(),
{
    let parent = match fetch_tweet(store, tweet_id) {
        Ok(t) => t,
        Err(_) => { return (Err(ApiError::OrderingViolation), Ghost(Seq::empty())); },
    };
    let ghost s0 = old(store)@;
    let ghost step = media_step(parent.id);
    let ghost mut stamps: Seq<Stamp> = Seq::empty();
    let mut i: usize = 0;
    while i < media_objects.len()
        invariant
            i <= media_objects.len(),
            stamps.len() == i,
            step == media_step(parent.id),
            s0 == old(store)@,
            s0.tweet_at(tweet_id@) is Some,
            s0.tweets[s0.tweet_at(tweet_id@)->0].id == parent.id,
            (Outcome { state: store@, result: Ok(()) }) == run(
                step,
                s0,
                media_objects@,
                stamps,
                i as nat,
            ),
            s0.wf() ==> store.wf(),
        decreases media_objects.len() - i,
    {
        let stamp = Stamp { id: new_row_id(), at: now_micros() };
        proof {
            let prev = stamps;
            stamps = stamps.push(stamp);
            lemma_run_agree(step, s0, media_objects@, prev, stamps, i as nat);
        }
        let r = store_media_with(store, &parent, &media_objects[i], stamp);
        if r.is_err() {
            proof {
                lemma_run_stuck(
                    step,
                    s0,
                    media_objects@,
                    stamps,
                    (i + 1) as nat,
                    media_objects@.len(),
                );
            }
            return (r, Ghost(stamps));
        }
        i += 1;
    }
    (Ok(()), Ghost(stamps))
}

/// Stores media objects in order under the tweet with the given external
/// id. The tweet must have a row: else nothing is stored and the call
/// fails with `OrderingViolation`. The first object that fails ends the call.
pub fn store_all_media(store: &mut Store, tweet_id: &str, media_objects: Vec<MediaPayload>) -> (r:
    Result<(), ApiError>)
    ensures
        exists|stamps: Seq<Stamp>|
            (Outcome { state: final(store)@, result: r }) == #[trigger] store_all_media_spec(
                old(store)@,
                tweet_id@,
                media_objects@,
                stamps,
            ),
        old(store).wf() ==> final(store).wf(),
{
    let (r, Ghost(stamps)) = store_all_media_traced(store, tweet_id, &media_objects);
    r
}

/// Position of the catalog's first object under `key`.
pub fn find_in_catalog(catalog: &Vec<MediaPayload>, key: &str) -> (r: Option<usize>)
    ensures
        match r {
            Some(c) => position(catalog_keys(catalog@), Some(key@)) == Some(c as int),
            None => position(catalog_keys(catalog@), Some(key@)) is None,
        },
{
    let mut c: usize = 0;
    while c < catalog.len()
        invariant
            c <= catalog.len(),
            forall|j: int| 0 <= j < c ==> catalog_keys(catalog@)[j] != Some(key@),
        decreases catalog.len() - c,
    {
        let hit = match &catalog[c].media_key {
            Some(k) => same_text(k.as_str(), key),
            None => false,
        };
        if hit {
            proof {
                assert(first_at(catalog_keys(catalog@), Some(key@), c as int));
                lemma_position_found(catalog_keys(catalog@), Some(key@), c as int);
            }
            return Some(c);
        }
        c += 1;
    }
    proof {
        lemma_position_absent(catalog_keys(catalog@), Some(key@));
    }
    None
}

/// One object per key of a tweet, matched against the batch's catalog.
pub fn collect_media_objects(keys: &Vec<Option<String>>, catalog: &Vec<MediaPayload>) -> (r:
    Result<Vec<MediaPayload>, ApiError>)
    ensures
        match final_media_objects(keys@, catalog@) {
            Ok(objects) => r is Ok && r->Ok_0@ == objects,
            Err(e) => r == Err::<Vec<MediaPayload>, ApiError>(e),
        },
{
    let mut out: Vec<MediaPayload> = Vec::new();
    if keys.len() == 0 {
        proof {
            assert(out@ =~= final_media_objects(keys@, catalog@)->Ok_0);
        }
        return Ok(out);
    }
    let mut c: usize = 0;
    while c < catalog.len()
        invariant
            c <= catalog.len(),
            keys.len() > 0,
            forall|j: int| 0 <= j < c ==> catalog@[j].media_key is Some,
        decreases catalog.len() - c,
    {
        if catalog[c].media_key.is_none() {
            proof {
                assert(0 <= c < catalog@.len() && catalog@[c as int].media_key is None);
            }
            return Err(ApiError::PermanentUpstream(Malformed::NoMediaKey));
        }
        c += 1;
    }
    let mut k: usize = 0;
    while k < keys.len()
        invariant
            k <= keys.len(),
            forall|j: int| 0 <= j < catalog.len() ==> catalog@[j].media_key is Some,
            forall|j: int| 0 <= j < k ==> keys@[j] is Some,
            out@.len() == k,
            forall|j: int|
                0 <= j < k ==> out@[j] == final_media_obj(
                    relevant_object(catalog@, keys@[j]->0@),
                    keys@[j]->0,
                ),
        decreases keys.len() - k,
    {
        match &keys[k] {
            None => {
                return Err(ApiError::PermanentUpstream(Malformed::NoMediaKey));
            },
            Some(mk) => {
                let object = match find_in_catalog(catalog, mk.as_str()) {
                    Some(c) => prep_final_media_obj(Some(&catalog[c]), mk),
                    None => prep_final_media_obj(None, mk),
                };
                out.push(object);
            },
        }
        k += 1;
    }
    proof {
        assert(out@ =~= final_media_objects(keys@, catalog@)->Ok_0);
    }
    Ok(out)
}

/// `handle_media_for_tweet`, with the stamps it drew.
pub(crate) fn handle_media_traced(store: &mut Store, tweet: &TweetPayload, includes: &Includes) -> (r:
    (Result<(), ApiError>, Ghost<Seq<Stamp>>))
    ensures
        (Outcome { state: final(store)@, result: r.0 }) == handle_media_spec(
            old(store)@,
            *tweet,
            *includes,
            r.1@,
        ),
        old(store).wf() ==> final(store).wf(),
{
    let keys = match &tweet.media_keys {
        Some(keys) => keys,
        None => { return (Ok(()), Ghost(Seq::empty())); },
    };
    let no_catalog: Vec<MediaPayload> = Vec::new();
    let catalog = match &includes.media {
        Some(catalog) => catalog,
        None => &no_catalog,
    };
    let objects = match collect_media_objects(keys, catalog) {
        Ok(o) => o,
        Err(e) => { return (Err(e), Ghost(Seq::empty())); },
    };
    match &tweet.id {
        Some(id) => store_all_media_traced(store, id.as_str(), &objects),
        None => (Err(ApiError::PermanentUpstream(Malformed::NoTweetId)), Ghost(Seq::empty())),
    }
}

/// Stores the media of a tweet: one row per key under
/// `attachments.media_keys`, with type and address from the batch's
/// catalog where it has the key, and the key alone where it has not or
/// where the batch has no catalog.
pub fn handle_media_for_tweet(store: &mut Store, tweet: &TweetPayload, includes: &Includes) -> (r:
    Result<(), ApiError>)
    ensures
        exists|stamps: Seq<Stamp>|
            (Outcome { state: final(store)@, result: r }) == #[trigger] handle_media_spec(
                old(store)@,
                *tweet,
                *includes,
                stamps,
            ),
        old(store).wf() ==> final(store).wf(),
{
    let (r, Ghost(stamps)) = handle_media_traced(store, tweet, includes);
    r
}

} // verus!
